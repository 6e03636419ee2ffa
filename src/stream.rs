use vstd::prelude::*;

use crate::board::render_text;
use crate::error::GameError;
use crate::store::RoomStore;

verus! {

/// What became of one attempt to hand a render to a subscriber's buffer.
#[derive(Debug, Clone, Copy, PartialEq, Eq, Structural)]
pub enum SendOutcome {
    /// The render was queued.
    Delivered,
    /// The buffer was full: the subscriber has not drained it.
    Full,
    /// The subscriber has gone.
    Disconnected,
}

/// The state of one subscription to the renders of a room.
pub struct WatchSession {
    /// The room whose board is published.
    pub room_id: String,
    /// Spaces between the cells of a row.
    pub spacing: u8,
    /// Set once the stream has ended; it never reopens.
    pub closed: bool,
}

impl WatchSession {
    /// A subscription to the renders of `room_id`, open.
    pub fn new(room_id: String, spacing: u8) -> (w: WatchSession)
        ensures
            w.room_id@ == room_id@,
            w.spacing == spacing,
            !w.closed,
    {
        WatchSession { room_id, spacing, closed: false }
    }

    /// The next render to publish, taken from the current board of the room.
    /// A closed stream yields `StreamClosed`; a room that does not exist
    /// yields `RoomNotFound` and closes the stream.
    pub fn next_render(&mut self, store: &RoomStore) -> (r: Result<String, GameError>)
        requires
            store.wf(),
        ensures
            final(self).room_id@ == old(self).room_id@,
            final(self).spacing == old(self).spacing,
            old(self).closed ==> r == Err::<String, GameError>(GameError::StreamClosed)
                && final(self).closed,
            !old(self).closed && !store@.contains_key(old(self).room_id@) ==> r == Err::<
                String,
                GameError,
            >(GameError::RoomNotFound) && final(self).closed,
            !old(self).closed && store@.contains_key(old(self).room_id@) ==> (r matches Ok(t)
                && t@ == render_text(store@[old(self).room_id@], old(self).spacing as nat)
                && !final(self).closed),
    {
        if self.closed {
            return Err(GameError::StreamClosed);
        }
        let r = store.render_room(self.room_id.as_str(), self.spacing);
        if r.is_err() {
            self.closed = true;
        }
        r
    }

    /// Takes note of a send attempt. The stream goes on after a delivered
    /// render and ends for good on the first one that was not delivered.
    pub fn record(&mut self, outcome: SendOutcome) -> (r: Result<(), GameError>)
        ensures
            final(self).room_id@ == old(self).room_id@,
            final(self).spacing == old(self).spacing,
            final(self).closed == (old(self).closed || outcome != SendOutcome::Delivered),
            r is Ok == !final(self).closed,
            r is Err ==> r == Err::<(), GameError>(GameError::StreamClosed),
    {
        if outcome != SendOutcome::Delivered {
            self.closed = true;
        }
        if self.closed {
            Err(GameError::StreamClosed)
        } else {
            Ok(())
        }
    }
}

} // verus!
