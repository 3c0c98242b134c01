//! What the publisher's server does with the frames a subscriber sends and
//! with the events it has to pass on: the subscription set of one connection.
use crate::event::{event_code, spec_from_opcode, EventType};
use vstd::prelude::*;

verus! {

/// A subscriber's request, as the server reads it from a frame.
#[derive(Debug, Clone, Copy, PartialEq, Eq, Structural)]
pub enum Request {
    Subscribe(EventType),
    Unsubscribe(EventType),
}

/// Why a frame is refused: its event byte or its opcode is unknown.
#[derive(Debug, Clone, Copy, PartialEq, Eq, Structural)]
pub enum ProtocolError {
    InvalidFrame,
}

/// The request that a frame body (opcode, event byte, ...) holds.
pub open spec fn spec_protocol(frame: Seq<u8>) -> Result<Request, ProtocolError> {
    match spec_from_opcode(frame[1]) {
        None => Err(ProtocolError::InvalidFrame),
        Some(e) => if frame[0] == 0 {
            Ok(Request::Subscribe(e))
        } else if frame[0] == 1 {
            Ok(Request::Unsubscribe(e))
        } else {
            Err(ProtocolError::InvalidFrame)
        },
    }
}

/// Reads a request from a frame body: byte 0 is the opcode (0 subscribes,
/// 1 unsubscribes), byte 1 the event kind. Any other opcode, or an event byte
/// above 4, is refused.
pub fn protocol(frame: &[u8]) -> (res: Result<Request, ProtocolError>)
    requires
        frame@.len() >= 2,
    ensures
        res == spec_protocol(frame@),
        res is Err <==> (frame@[1] > 4 || frame@[0] > 1),
        res matches Ok(Request::Subscribe(e)) ==> frame@[0] == 0 && event_code(e) == frame@[1],
        res matches Ok(Request::Unsubscribe(e)) ==> frame@[0] == 1 && event_code(e) == frame@[1],
{
    let event = match EventType::from_opcode(frame[1]) {
        Some(e) => e,
        None => return Err(ProtocolError::InvalidFrame),
    };
    match frame[0] {
        0x00 => Ok(Request::Subscribe(event)),
        0x01 => Ok(Request::Unsubscribe(event)),
        _ => Err(ProtocolError::InvalidFrame),
    }
}

/// No event kind occurs twice.
pub open spec fn no_duplicates(s: Seq<EventType>) -> bool {
    forall|i: int, j: int| 0 <= i < j < s.len() ==> s[i] != s[j]
}

/// The subscriptions after asking for `e`: unchanged if `e` is there, else
/// `e` is added at the end.
pub open spec fn spec_subscribe(s: Seq<EventType>, e: EventType) -> Seq<EventType> {
    if s.contains(e) {
        s
    } else {
        s.push(e)
    }
}

/// The subscriptions after dropping `e`: its first occurrence, if any, is
/// removed; the rest keep their order.
pub open spec fn spec_unsubscribe(s: Seq<EventType>, e: EventType) -> Seq<EventType>
    decreases s.len(),
{
    if s.len() == 0 {
        s
    } else if s[0] == e {
        s.drop_first()
    } else {
        seq![s[0]] + spec_unsubscribe(s.drop_first(), e)
    }
}

/// What the server does with one message that the publisher hands to a
/// connection.
#[derive(Debug, Clone, Copy, PartialEq, Eq, Structural)]
pub enum InternalRoute {
    /// An empty message: nothing is sent.
    Empty,
    /// A message whose first byte is 0: it is sent and the connection ends.
    Quit,
    /// A message of one byte, or whose second byte names no event kind.
    Malformed,
    /// An event that the connection subscribed to: it is sent.
    Forward(EventType),
    /// An event that the connection did not subscribe to: nothing is sent.
    NotSubscribed(EventType),
}

/// The route of a message, given the connection's subscriptions. The event
/// kind is read from the message's second byte.
pub open spec fn spec_route(s: Seq<EventType>, msg: Seq<u8>) -> InternalRoute {
    if msg.len() == 0 {
        InternalRoute::Empty
    } else if msg[0] == 0 {
        InternalRoute::Quit
    } else if msg.len() == 1 {
        InternalRoute::Malformed
    } else {
        match spec_from_opcode(msg[1]) {
            None => InternalRoute::Malformed,
            Some(e) => if s.contains(e) {
                InternalRoute::Forward(e)
            } else {
                InternalRoute::NotSubscribed(e)
            },
        }
    }
}

/// What a subscriber's frame did to its subscriptions.
#[derive(Debug, Clone, Copy, PartialEq, Eq, Structural)]
pub enum Outcome {
    Added(EventType),
    AlreadySubscribed(EventType),
    Removed(EventType),
    Rejected(ProtocolError),
}

/// The event kinds that one connection subscribed to, in the order it asked
/// for them; none occurs twice.
#[derive(Debug)]
pub struct Subscriptions {
    events: Vec<EventType>,
}

impl View for Subscriptions {
    type V = Seq<EventType>;

    closed spec fn view(&self) -> Seq<EventType> {
        self.events@
    }
}

pub(crate) proof fn lemma_unsubscribe_at(s: Seq<EventType>, e: EventType, i: int)
    requires
        0 <= i < s.len(),
        s[i] == e,
        forall|j: int| 0 <= j < i ==> s[j] != e,
    ensures
        spec_unsubscribe(s, e) =~= s.remove(i),
    decreases s.len(),
{
    if i > 0 {
        lemma_unsubscribe_at(s.drop_first(), e, i - 1);
    }
}

pub(crate) proof fn lemma_unsubscribe_absent(s: Seq<EventType>, e: EventType)
    requires
        !s.contains(e),
    ensures
        spec_unsubscribe(s, e) =~= s,
    decreases s.len(),
{
    if s.len() > 0 {
        assert(s[0] != e);
        assert forall|j: int| 0 <= j < s.drop_first().len() implies s.drop_first()[j] != e by {
            assert(s.drop_first()[j] == s[j + 1]);
        }
        lemma_unsubscribe_absent(s.drop_first(), e);
    }
}

impl Subscriptions {
    #[verifier::type_invariant]
    spec fn inv(self) -> bool {
        no_duplicates(self.events@)
    }

    /// No subscription yet.
    pub fn new() -> (res: Self)
        ensures
            res@ == Seq::<EventType>::empty(),
    {
        Subscriptions { events: Vec::new() }
    }

    /// The subscriptions, in the order they were asked for.
    pub fn events(&self) -> (res: &Vec<EventType>)
        ensures
            res@ == self@,
            no_duplicates(res@),
    {
        proof {
            use_type_invariant(self);
        }
        &self.events
    }

    /// Whether `e` is subscribed to.
    pub fn contains(&self, e: EventType) -> (res: bool)
        ensures
            res == self@.contains(e),
    {
        let mut i: usize = 0;
        while i < self.events.len()
            invariant
                0 <= i <= self.events@.len(),
                forall|j: int| 0 <= j < i ==> self.events@[j] != e,
            decreases self.events@.len() - i,
        {
            if self.events[i] == e {
                return true;
            }
            i = i + 1;
        }
        false
    }

    /// Decides what to do with one message that the publisher hands to this
    /// connection.
    pub fn route(&self, msg: &[u8]) -> (res: InternalRoute)
        ensures
            res == spec_route(self@, msg@),
            res is Empty <==> msg@.len() == 0,
            res is Quit <==> (msg@.len() > 0 && msg@[0] == 0),
            res is Malformed <==> (msg@.len() > 0 && msg@[0] != 0 && (msg@.len() == 1 || msg@[1]
                > 4)),
            res matches InternalRoute::Forward(e) ==> msg@[1] == event_code(e) && self@.contains(e),
            res matches InternalRoute::NotSubscribed(e) ==> msg@[1] == event_code(e)
                && !self@.contains(e),
    {
        if msg.len() == 0 {
            return InternalRoute::Empty;
        }
        if msg[0] == 0x00 {
            return InternalRoute::Quit;
        }
        if msg.len() == 1 {
            return InternalRoute::Malformed;
        }
        match EventType::from_opcode(msg[1]) {
            Some(event) => {
                if self.contains(event) {
                    InternalRoute::Forward(event)
                } else {
                    InternalRoute::NotSubscribed(event)
                }
            },
            None => InternalRoute::Malformed,
        }
    }

    /// Applies a frame body that the subscriber sent: a subscription request
    /// adds the event kind unless it is there, an unsubscription removes it,
    /// and a frame that `protocol` refuses changes nothing.
    pub fn apply(&mut self, frame: &[u8]) -> (res: Outcome)
        requires
            frame@.len() >= 2,
        ensures
            no_duplicates(final(self)@),
            match spec_protocol(frame@) {
                Ok(Request::Subscribe(e)) => {
                    &&& final(self)@ == spec_subscribe(old(self)@, e)
                    &&& res == if old(self)@.contains(e) {
                        Outcome::AlreadySubscribed(e)
                    } else {
                        Outcome::Added(e)
                    }
                    &&& final(self)@.contains(e)
                    &&& old(self)@.contains(e) ==> final(self)@ == old(self)@
                    &&& !old(self)@.contains(e) ==> final(self)@ == old(self)@.push(e)
                    &&& forall|x: EventType| old(self)@.contains(x) ==> final(self)@.contains(x)
                },
                Ok(Request::Unsubscribe(e)) => {
                    &&& final(self)@ == spec_unsubscribe(old(self)@, e)
                    &&& res == Outcome::Removed(e)
                    &&& !final(self)@.contains(e)
                    &&& !old(self)@.contains(e) ==> final(self)@ == old(self)@
                    &&& old(self)@.contains(e) ==> exists|i: int|
                        0 <= i < old(self)@.len() && old(self)@[i] == e && final(self)@
                            == old(self)@.remove(i)
                    &&& forall|x: EventType|
                        x != e ==> (final(self)@.contains(x) <==> old(self)@.contains(x))
                },
                Err(err) => {
                    &&& final(self)@ == old(self)@
                    &&& res == Outcome::Rejected(err)
                },
            },
    {
        proof {
            use_type_invariant(&*self);
        }
        let res = match protocol(frame) {
            Ok(Request::Subscribe(event)) => {
                if self.contains(event) {
                    Outcome::AlreadySubscribed(event)
                } else {
                    let mut events: Vec<EventType> = Vec::new();
                    std::mem::swap(&mut events, &mut self.events);
                    let ghost before = events@;
                    events.push(event);
                    assert(events@.last() == event);
                    assert forall|x: EventType| before.contains(x) implies events@.contains(x) by {
                        let j = choose|j: int| 0 <= j < before.len() && before[j] == x;
                        assert(events@[j] == x);
                    }
                    self.events = events;
                    Outcome::Added(event)
                }
            },
            Ok(Request::Unsubscribe(event)) => {
                self.remove_item(event);
                Outcome::Removed(event)
            },
            Err(e) => Outcome::Rejected(e),
        };
        proof {
            use_type_invariant(&*self);
        }
        res
    }

    /// Removes the first occurrence of `e`, if any.
    fn remove_item(&mut self, e: EventType)
        ensures
            final(self)@ == spec_unsubscribe(old(self)@, e),
            !final(self)@.contains(e),
            !old(self)@.contains(e) ==> final(self)@ == old(self)@,
            old(self)@.contains(e) ==> exists|i: int|
                0 <= i < old(self)@.len() && old(self)@[i] == e && final(self)@ == old(self)@.remove(
                    i,
                ),
            forall|x: EventType| x != e ==> (final(self)@.contains(x) <==> old(self)@.contains(x)),
    {
        proof {
            use_type_invariant(&*self);
        }
        let mut events: Vec<EventType> = Vec::new();
        std::mem::swap(&mut events, &mut self.events);
        let ghost before = events@;
        let mut i: usize = 0;
        while i < events.len()
            invariant
                0 <= i <= events@.len(),
                events@ == before,
                before == old(self)@,
                no_duplicates(before),
                forall|j: int| 0 <= j < i ==> events@[j] != e,
            decreases events@.len() - i,
        {
            if events[i] == e {
                proof {
                    lemma_unsubscribe_at(events@, e, i as int);
                }
                events.remove(i);
                assert forall|j: int| 0 <= j < events@.len() implies events@[j] != e by {
                    if j < i {
                        assert(events@[j] == before[j]);
                    } else {
                        assert(events@[j] == before[j + 1]);
                    }
                }
                let ghost k = i as int;
                assert(before[k] == e);
                assert(events@ == before.remove(k));
                assert forall|x: EventType| x != e implies (events@.contains(x) <==> before.contains(
                    x,
                )) by {
                    if events@.contains(x) {
                        let j = choose|j: int| 0 <= j < events@.len() && events@[j] == x;
                        if j < k {
                            assert(before[j] == x);
                        } else {
                            assert(before[j + 1] == x);
                        }
                    }
                    if before.contains(x) {
                        let j = choose|j: int| 0 <= j < before.len() && before[j] == x;
                        if j < k {
                            assert(events@[j] == x);
                        } else {
                            assert(j != k);
                            assert(events@[j - 1] == x);
                        }
                    }
                }
                self.events = events;
                return;
            }
            i = i + 1;
        }
        proof {
            lemma_unsubscribe_absent(events@, e);
        }
        self.events = events;
    }
}

} // verus!
