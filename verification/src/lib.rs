//! Wire format and subscription rules of a small pointer-event
//! publish/subscribe system: the frames that the publisher and the clients
//! write, how the server cuts and reads them, what it does with each
//! connection's subscriptions, and the packet dump tool.
pub mod buffer;
pub mod event;
pub mod protocol;
pub mod framing;
pub mod hexdump;
pub mod console;
pub mod laws;
