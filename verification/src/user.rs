use vstd::prelude::*;
use tokio::sync::mpsc::{Receiver, Sender};
use uuid::Uuid;
use crate::mailbox::{clone_sender, fresh_id, mailbox_bound, open_channel};

verus! {

/// Number of pending payloads a single connection's mailbox can hold. A
/// producer that finds the mailbox full waits; nothing is dropped.
pub const MAILBOX_CAPACITY: usize = 100;

/// A connected participant: its identifier, its display name and the handle
/// through which text is queued for its connection.
#[derive(Debug)]
pub struct User {
    pub id: Uuid,
    pub username: String,
    pub tx: Sender<String>,
}

impl User {
    /// Creates the user for an accepted name together with a fresh mailbox.
    /// The receiver is the mailbox's single consumer; whoever drains it writes
    /// each payload to the connection.
    pub fn new(username: String) -> (r: (User, Receiver<String>))
        ensures
            r.0.username == username,
            mailbox_bound(r.0.tx) == MAILBOX_CAPACITY,
    {
        let (tx, rx) = open_channel(MAILBOX_CAPACITY);
        let id = fresh_id();
        (User { id, username, tx }, rx)
    }
}

impl Clone for User {
    /// Another handle to the same user: same identifier, same name, same
    /// mailbox.
    fn clone(&self) -> (r: Self)
        ensures
            r == *self,
    {
        User { id: self.id, username: self.username.clone(), tx: clone_sender(&self.tx) }
    }
}

} // verus!
