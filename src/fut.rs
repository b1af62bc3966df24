use vstd::prelude::*;

verus! {

#[verifier::external_type_specification]
#[verifier::external_body]
#[verifier::reject_recursive_types(T)]
pub struct ExReceiver<T>(tokio::sync::oneshot::Receiver<T>);

#[verifier::external_type_specification]
#[verifier::external_body]
pub struct ExRecvError(tokio::sync::oneshot::error::RecvError);

/// Relies on tokio's `oneshot::Receiver::try_recv`: it hands over the value
/// once the sending side has delivered it and never waits. Whether a value
/// has arrived depends on the background work, so nothing is promised of it.
#[verifier::external_body]
fn receive_now<T>(recv: &mut tokio::sync::oneshot::Receiver<T>) -> Option<T> {
    recv.try_recv().ok()
}

/// A handle on background work that delivers one value of type `T`.
#[verifier::reject_recursive_types(T)]
pub struct Fut<T> {
    recv: tokio::sync::oneshot::Receiver<T>,
}

impl<T> Fut<T> {
    /// The receiving end that this handle reads from.
    pub closed spec fn receiver(&self) -> tokio::sync::oneshot::Receiver<T> {
        self.recv
    }

    /// A handle on the value that the sender paired with `recv` will deliver.
    pub fn new(recv: tokio::sync::oneshot::Receiver<T>) -> (r: Fut<T>)
        ensures
            r.receiver() == recv,
    {
        Fut { recv }
    }

    /// The value, if the background work has delivered it; never blocks.
    pub fn try_resolve(&mut self) -> Option<T> {
        receive_now(&mut self.recv)
    }

    /// The receiving end, for callers that want to await the value.
    pub fn into_receiver(self) -> (r: tokio::sync::oneshot::Receiver<T>)
        ensures
            r == self.receiver(),
    {
        self.recv
    }
}

} // verus!
