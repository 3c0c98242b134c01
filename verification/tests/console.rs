use sd_rust::console::{client_command, next_selection, publisher_command, ClientCommand, PublisherCommand};
use sd_rust::event::{EventData, EventType};

#[test]
fn client_selects_and_subscribes() {
    let sel = None;
    assert_eq!(client_command(sel, b's'), ClientCommand::NothingSelected);
    assert_eq!(client_command(sel, b'u'), ClientCommand::NothingSelected);
    let c = client_command(sel, b'3');
    assert_eq!(c, ClientCommand::Select(EventType::PointerDown));
    let sel = next_selection(sel, c);
    assert_eq!(sel, Some(EventType::PointerDown));
    assert_eq!(client_command(sel, b's'), ClientCommand::Subscribe(EventType::PointerDown));
    assert_eq!(client_command(sel, b'u'), ClientCommand::Unsubscribe(EventType::PointerDown));
    assert_eq!(next_selection(sel, ClientCommand::Ignore), sel);
}

#[test]
fn client_other_keys() {
    assert_eq!(client_command(None, b'1'), ClientCommand::Select(EventType::PointerConnected));
    assert_eq!(client_command(None, b'2'), ClientCommand::Select(EventType::PointerDisconnected));
    assert_eq!(client_command(None, b'4'), ClientCommand::Select(EventType::PointerUp));
    assert_eq!(client_command(None, b'5'), ClientCommand::Select(EventType::PointerMove));
    assert_eq!(client_command(None, b'q'), ClientCommand::Quit);
    assert_eq!(client_command(None, b'Q'), ClientCommand::Ignore);
    assert_eq!(client_command(Some(EventType::PointerUp), b'x'), ClientCommand::Ignore);
}

#[test]
fn publisher_keys() {
    assert_eq!(publisher_command(b'1'), PublisherCommand::Publish(EventData::PointerConnected(0)));
    assert_eq!(publisher_command(b'2'), PublisherCommand::Publish(EventData::PointerDisconnected(0)));
    assert_eq!(
        publisher_command(b'3'),
        PublisherCommand::Publish(EventData::PointerDown { pointer: 0, button: 0, x: 16, y: 16 })
    );
    assert_eq!(
        publisher_command(b'4'),
        PublisherCommand::Publish(EventData::PointerUp { pointer: 0, button: 0, x: 32, y: 32 })
    );
    assert_eq!(
        publisher_command(b'5'),
        PublisherCommand::Publish(EventData::PointerMove { pointer: 0, button: 0, x: 24, y: 24 })
    );
    assert_eq!(publisher_command(b'q'), PublisherCommand::Quit);
    assert_eq!(publisher_command(b'Q'), PublisherCommand::Quit);
    assert_eq!(publisher_command(b'6'), PublisherCommand::Ignore);
}
