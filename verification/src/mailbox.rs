use vstd::prelude::*;
use tokio::sync::mpsc::{Receiver, Sender};
use uuid::Uuid;

verus! {

/// Producer side of a connection's bounded mailbox. Opaque to the verifier.
#[verifier::external_type_specification]
#[verifier::external_body]
#[verifier::reject_recursive_types(T)]
pub struct ExSender<T>(Sender<T>);

/// Consumer side of a connection's bounded mailbox. Opaque to the verifier.
#[verifier::external_type_specification]
#[verifier::external_body]
#[verifier::reject_recursive_types(T)]
pub struct ExReceiver<T>(Receiver<T>);

/// Identifier assigned to a user at registration. Opaque to the verifier.
#[verifier::external_type_specification]
#[verifier::external_body]
pub struct ExUuid(Uuid);

/// The number of payloads the mailbox behind `tx` was created to hold.
pub uninterp spec fn mailbox_bound(tx: Sender<String>) -> nat;

/// `tokio::sync::mpsc::channel`: creates a bounded channel holding at most
/// `capacity` pending payloads. The call panics for a capacity of zero or one
/// above the semaphore's permit limit, so both are excluded. The only claim is
/// that the sender's channel keeps the bound it was made with.
#[verifier::external_body]
pub(crate) fn open_channel(capacity: usize) -> (r: (Sender<String>, Receiver<String>))
    requires
        0 < capacity <= usize::MAX / 8,
    ensures
        mailbox_bound(r.0) == capacity,
{
    tokio::sync::mpsc::channel(capacity)
}

/// `Sender::clone`: the clone is another handle to the very same channel.
#[verifier::external_body]
pub(crate) fn clone_sender(tx: &Sender<String>) -> (r: Sender<String>)
    ensures
        r == *tx,
{
    tx.clone()
}

/// `Uuid::new_v4`: a random identifier; nothing is claimed about its value.
#[verifier::external_body]
pub(crate) fn fresh_id() -> (id: Uuid)
{
    Uuid::new_v4()
}

} // verus!
