use vstd::prelude::*;

verus! {

#[verifier::external_type_specification]
#[verifier::external_body]
#[verifier::reject_recursive_types(T)]
pub struct ExUnboundedReceiver<T>(tokio::sync::mpsc::UnboundedReceiver<T>);

#[verifier::external_type_specification]
#[verifier::external_body]
#[verifier::reject_recursive_types(T)]
pub struct ExUnboundedSender<T>(tokio::sync::mpsc::UnboundedSender<T>);

/// Relies on tokio's `UnboundedReceiver::try_recv`: the next queued value,
/// if one is queued, without waiting. What is queued depends on the
/// background loop, so nothing is promised of it.
#[verifier::external_body]
pub(crate) fn next_queued<T>(recv: &mut tokio::sync::mpsc::UnboundedReceiver<T>) -> Option<T> {
    recv.try_recv().ok()
}

/// Relies on tokio's `UnboundedSender::send`: queues the value without
/// waiting; it is lost if the receiving side is gone.
#[verifier::external_body]
pub(crate) fn enqueue<T>(send: &tokio::sync::mpsc::UnboundedSender<T>, value: T) {
    let _ = send.send(value);
}

/// Relies on tokio's `UnboundedReceiver::len`: how many values are queued
/// now. More may arrive at any time, so nothing is promised of it.
#[verifier::external_body]
pub(crate) fn queued_len<T>(recv: &tokio::sync::mpsc::UnboundedReceiver<T>) -> usize {
    recv.len()
}

} // verus!
