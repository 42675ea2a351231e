//! What an adapter of the logging facade does with a record that renders its
//! frame where it is emitted.

use vstd::prelude::*;
use crate::dispatcher::frame_now;
use crate::intake::{Intake, Offer};
use crate::level::Level;
use crate::record::LogMessage;

verus! {

/// Renders `record` for the collector with the time of the call in UTC and
/// offers the frame to the queue, without waiting. A record more verbose than
/// `most_verbose` is passed over: nothing is rendered or offered, and the
/// result is `None`.
pub fn forward_frame(
    intake: &Intake<String>,
    hostname: &str,
    most_verbose: Level,
    record: &LogMessage,
) -> (offer: Option<Offer>)
    ensures
        offer is Some <==> record.level.rank_of() <= most_verbose.rank_of(),
{
    if !record.level.passes(most_verbose) {
        return None;
    }
    let (_, frame) = frame_now(hostname, record);
    Some(intake.offer(frame))
}

} // verus!
