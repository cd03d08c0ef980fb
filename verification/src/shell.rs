//! The library's only trusted boundary: the monotonic clock and the
//! channel endpoints the search polls and reports through. Everything the
//! search decides from these values is verified; the values themselves are
//! whatever the clock and the channel deliver.

use vstd::prelude::*;
use crate::engine_defs::{Information, SearchControl};

verus! {

#[verifier::external_type_specification]
#[verifier::external_body]
pub struct ExInstant(std::time::Instant);

#[verifier::external_type_specification]
#[verifier::external_body]
#[verifier::reject_recursive_types(T)]
pub struct ExSender<T>(crossbeam_channel::Sender<T>);

#[verifier::external_type_specification]
#[verifier::external_body]
#[verifier::reject_recursive_types(T)]
pub struct ExReceiver<T>(crossbeam_channel::Receiver<T>);

/// Relies on std::time::Instant::now: an opaque reading of the monotonic
/// clock. Nothing can be promised of its value.
#[verifier::external_body]
pub fn instant_now() -> std::time::Instant {
    std::time::Instant::now()
}

/// Relies on std::time::Instant::elapsed: the milliseconds since the
/// reading was taken. Time is outside the program, so no relation between
/// two readings is promised.
#[verifier::external_body]
pub fn elapsed_millis(since: &std::time::Instant) -> u128 {
    since.elapsed().as_millis()
}

/// Relies on crossbeam_channel::Receiver::try_recv: a non-blocking poll
/// that hands over a queued message, if any. Which message arrives, if
/// any, depends on the other threads, so nothing is promised.
#[verifier::external_body]
pub fn try_recv_control(rx: &crossbeam_channel::Receiver<SearchControl>) -> Option<SearchControl> {
    match rx.try_recv() {
        Ok(cmd) => Some(cmd),
        Err(_) => None,
    }
}

/// Relies on crossbeam_channel::Sender::send: delivers the message unless
/// every receiver is gone; the result says which.
#[verifier::external_body]
pub fn send_information(tx: &crossbeam_channel::Sender<Information>, info: Information) -> bool {
    tx.send(info).is_ok()
}

} // verus!
