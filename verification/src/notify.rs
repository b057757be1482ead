use vstd::prelude::*;

verus! {

/// One half of a wake signal: the sending side a lock holder fires on
/// release. Declared from the futures crate and held opaquely.
#[verifier::external_type_specification]
#[verifier::external_body]
#[verifier::reject_recursive_types(T)]
pub struct ExSender<T>(futures::channel::oneshot::Sender<T>);

/// The receiving side of a wake signal: a waiter suspends on it until the
/// holder releases. Declared from the futures crate and held opaquely.
#[verifier::external_type_specification]
#[verifier::external_body]
#[verifier::reject_recursive_types(T)]
pub struct ExReceiver<T>(futures::channel::oneshot::Receiver<T>);

/// The futures crate's marker for a wake signal whose sender went away
/// before firing; declared so the receiving side's type is accepted.
#[verifier::external_type_specification]
#[verifier::external_body]
pub struct ExCanceled(futures::channel::oneshot::Canceled);

/// Relies on the futures crate's `oneshot::channel` to create a connected
/// one-shot sender/receiver pair.
#[verifier::external_body]
pub(crate) fn wake_slot() -> (r: (
    futures::channel::oneshot::Sender<()>,
    futures::channel::oneshot::Receiver<()>,
)) {
    futures::channel::oneshot::channel()
}

/// Relies on the futures crate's `oneshot::Sender::send` to fire a wake
/// signal; a waiter that already went away is not an error.
#[verifier::external_body]
pub(crate) fn fire(slot: futures::channel::oneshot::Sender<()>) {
    let _ = slot.send(());
}

} // verus!
