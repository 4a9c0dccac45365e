//! The live feed: the per-client publishing state machine and the framing
//! of each pushed message.
//!
//! Each connected client owns one loop: produce a snapshot, serialize it,
//! push one framed message, sleep for the fixed interval, repeat until the
//! client disconnects. The loops share only the rate window.

use vstd::prelude::*;
use vstd::string::*;

verus! {

/// Milliseconds between publish ticks, chosen to align with the rate
/// window's minimum sampling interval so every tick carries fresh rates.
pub const PUBLISH_INTERVAL_MS: u64 = 2000;

/// The life of one client's feed: publishing until its transport closes.
#[derive(Debug, Clone, Copy, PartialEq, Eq, Structural)]
pub enum FeedState {
    Connected,
    Closed,
}

/// What the loop observed: a timer tick, or the client going away.
#[derive(Debug, Clone, Copy, PartialEq, Eq, Structural)]
pub enum FeedEvent {
    Tick,
    Disconnect,
}

/// What the loop must do next: push one complete snapshot message and
/// sleep, or stop this client's loop for good.
#[derive(Debug, Clone, Copy, PartialEq, Eq, Structural)]
pub enum FeedAction {
    Publish,
    Stop,
}

/// The feed's transition function: a connected client gets one full
/// snapshot per tick; a disconnect closes the feed, and a closed feed
/// stays closed whatever arrives.
pub open spec fn feed_step_spec(s: FeedState, e: FeedEvent) -> (FeedState, FeedAction) {
    match (s, e) {
        (FeedState::Connected, FeedEvent::Tick) => (FeedState::Connected, FeedAction::Publish),
        (FeedState::Connected, FeedEvent::Disconnect) => (FeedState::Closed, FeedAction::Stop),
        (FeedState::Closed, _) => (FeedState::Closed, FeedAction::Stop),
    }
}

/// Decide one step of a client's feed loop.
pub fn feed_step(s: FeedState, e: FeedEvent) -> (r: (FeedState, FeedAction))
    ensures
        r == feed_step_spec(s, e),
{
    match (s, e) {
        (FeedState::Connected, FeedEvent::Tick) => (FeedState::Connected, FeedAction::Publish),
        (FeedState::Connected, FeedEvent::Disconnect) => (FeedState::Closed, FeedAction::Stop),
        (FeedState::Closed, _) => (FeedState::Closed, FeedAction::Stop),
    }
}

/// One pushed message: the serialized snapshot framed as a server-push
/// event.
pub open spec fn framed(payload: Seq<char>) -> Seq<char> {
    "data: "@ + payload + "\n\n"@
}

/// Frame one serialized snapshot for the event stream.
pub fn frame_message(payload: &str) -> (r: String)
    ensures
        r@ == framed(payload@),
{
    let mut r = String::from_str("data: ");
    r.append(payload);
    proof {
        reveal_strlit("\n\n");
    }
    r.append("\n\n");
    r
}

} // verus!
