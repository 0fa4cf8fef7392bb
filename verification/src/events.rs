//! Messages handed to the main event loop from the other parts of the
//! program (the player, the queue, the session and the IPC socket).
use vstd::prelude::*;

use crate::queue::QueueEvent;
use crate::spotify::PlayerEvent;

verus! {

/// Events that can be sent to and handled by the main event loop.
pub enum Event {
    Player(PlayerEvent),
    Queue(QueueEvent),
    SessionDied,
    IpcInput(String),
}

} // verus!
