//! What the key presses at the consoles of the subscribing client and of the
//! publisher mean.
use crate::event::{spec_from_opcode, EventData, EventType};
use vstd::prelude::*;

verus! {

/// What the subscribing client does on a key press.
#[derive(Debug, Clone, Copy, PartialEq, Eq, Structural)]
pub enum ClientCommand {
    /// Keys `1` to `5`: the event kind becomes the selection.
    Select(EventType),
    /// Key `s` with a selection: ask for the selected kind (opcode 0).
    Subscribe(EventType),
    /// Key `u` with a selection: drop the selected kind (opcode 1).
    Unsubscribe(EventType),
    /// Key `s` or `u` without a selection: nothing is sent.
    NothingSelected,
    /// Key `q`: the client says goodbye and stops.
    Quit,
    /// Any other key.
    Ignore,
}

/// The event kind that keys `1` to `5` select.
pub open spec fn key_event(key: u8) -> Option<EventType> {
    if key == 0x31 {
        Some(EventType::PointerConnected)
    } else if key == 0x32 {
        Some(EventType::PointerDisconnected)
    } else if key == 0x33 {
        Some(EventType::PointerDown)
    } else if key == 0x34 {
        Some(EventType::PointerUp)
    } else if key == 0x35 {
        Some(EventType::PointerMove)
    } else {
        None
    }
}

/// The meaning of a key at the client, given the current selection.
pub open spec fn spec_client_command(selection: Option<EventType>, key: u8) -> ClientCommand {
    match key_event(key) {
        Some(e) => ClientCommand::Select(e),
        None => if key == 0x73 || key == 0x75 {
            match selection {
                Some(e) => if key == 0x73 {
                    ClientCommand::Subscribe(e)
                } else {
                    ClientCommand::Unsubscribe(e)
                },
                None => ClientCommand::NothingSelected,
            }
        } else if key == 0x71 {
            ClientCommand::Quit
        } else {
            ClientCommand::Ignore
        },
    }
}

/// The selection after a command: a `Select` replaces it, anything else
/// keeps it.
pub open spec fn spec_next_selection(selection: Option<EventType>, cmd: ClientCommand) -> Option<
    EventType,
> {
    match cmd {
        ClientCommand::Select(e) => Some(e),
        _ => selection,
    }
}

/// Reads one key press at the subscribing client.
pub fn client_command(selection: Option<EventType>, key: u8) -> (res: ClientCommand)
    ensures
        res == spec_client_command(selection, key),
        0x31 <= key <= 0x35 ==> res == ClientCommand::Select(
            spec_from_opcode((key - 0x31) as u8).unwrap(),
        ),
        key == 0x73 ==> res == match selection {
            Some(e) => ClientCommand::Subscribe(e),
            None => ClientCommand::NothingSelected,
        },
        key == 0x75 ==> res == match selection {
            Some(e) => ClientCommand::Unsubscribe(e),
            None => ClientCommand::NothingSelected,
        },
        key == 0x71 ==> res == ClientCommand::Quit,
{
    match key {
        // '1'
        0x31 => ClientCommand::Select(EventType::PointerConnected),
        // '2'
        0x32 => ClientCommand::Select(EventType::PointerDisconnected),
        // '3'
        0x33 => ClientCommand::Select(EventType::PointerDown),
        // '4'
        0x34 => ClientCommand::Select(EventType::PointerUp),
        // '5'
        0x35 => ClientCommand::Select(EventType::PointerMove),
        // 's'
        0x73 => match selection {
            Some(e) => ClientCommand::Subscribe(e),
            None => ClientCommand::NothingSelected,
        },
        // 'u'
        0x75 => match selection {
            Some(e) => ClientCommand::Unsubscribe(e),
            None => ClientCommand::NothingSelected,
        },
        // 'q'
        0x71 => ClientCommand::Quit,
        _ => ClientCommand::Ignore,
    }
}

/// The selection after a command.
pub fn next_selection(selection: Option<EventType>, cmd: ClientCommand) -> (res: Option<EventType>)
    ensures
        res == spec_next_selection(selection, cmd),
        cmd matches ClientCommand::Select(e) ==> res == Some(e),
        !(cmd is Select) ==> res == selection,
{
    match cmd {
        ClientCommand::Select(e) => Some(e),
        _ => selection,
    }
}

/// What the publisher does on a key press.
#[derive(Debug, Clone, Copy, PartialEq, Eq, Structural)]
pub enum PublisherCommand {
    /// Keys `1` to `5`: send this event to every connection.
    Publish(EventData),
    /// Key `q` or `Q`: send the goodbye message and stop.
    Quit,
    /// Any other key.
    Ignore,
}

/// The meaning of a key at the publisher: each of keys `1` to `5` publishes
/// a fixed event of pointer 0 (button 0; at 16,16 for a press, 32,32 for a
/// release, 24,24 for a move).
pub open spec fn spec_publisher_command(key: u8) -> PublisherCommand {
    if key == 0x31 {
        PublisherCommand::Publish(EventData::PointerConnected(0))
    } else if key == 0x32 {
        PublisherCommand::Publish(EventData::PointerDisconnected(0))
    } else if key == 0x33 {
        PublisherCommand::Publish(EventData::PointerDown { pointer: 0, button: 0, x: 16, y: 16 })
    } else if key == 0x34 {
        PublisherCommand::Publish(EventData::PointerUp { pointer: 0, button: 0, x: 32, y: 32 })
    } else if key == 0x35 {
        PublisherCommand::Publish(EventData::PointerMove { pointer: 0, button: 0, x: 24, y: 24 })
    } else if key == 0x71 || key == 0x51 {
        PublisherCommand::Quit
    } else {
        PublisherCommand::Ignore
    }
}

/// Reads one key press at the publisher.
pub fn publisher_command(key: u8) -> (res: PublisherCommand)
    ensures
        res == spec_publisher_command(key),
        res is Publish <==> 0x31 <= key <= 0x35,
        res is Quit <==> (key == 0x71 || key == 0x51),
        key == 0x31 ==> res == PublisherCommand::Publish(EventData::PointerConnected(0)),
        key == 0x32 ==> res == PublisherCommand::Publish(EventData::PointerDisconnected(0)),
        key == 0x33 ==> res == PublisherCommand::Publish(
            EventData::PointerDown { pointer: 0, button: 0, x: 16, y: 16 },
        ),
        key == 0x34 ==> res == PublisherCommand::Publish(
            EventData::PointerUp { pointer: 0, button: 0, x: 32, y: 32 },
        ),
        key == 0x35 ==> res == PublisherCommand::Publish(
            EventData::PointerMove { pointer: 0, button: 0, x: 24, y: 24 },
        ),
{
    match key {
        // '1'
        0x31 => PublisherCommand::Publish(EventData::PointerConnected(0)),
        // '2'
        0x32 => PublisherCommand::Publish(EventData::PointerDisconnected(0)),
        // '3'
        0x33 => PublisherCommand::Publish(
            EventData::PointerDown { pointer: 0, button: 0, x: 16, y: 16 },
        ),
        // '4'
        0x34 => PublisherCommand::Publish(EventData::PointerUp { pointer: 0, button: 0, x: 32, y: 32 }),
        // '5'
        0x35 => PublisherCommand::Publish(
            EventData::PointerMove { pointer: 0, button: 0, x: 24, y: 24 },
        ),
        // 'q' or 'Q'
        0x71 | 0x51 => PublisherCommand::Quit,
        _ => PublisherCommand::Ignore,
    }
}

} // verus!
