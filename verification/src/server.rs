use vstd::prelude::*;
use uuid::Uuid;
use crate::error::ChatError;
use crate::message::{Message, MessageService};
use crate::state::State;

verus! {

/// The relay server. It holds no address of its own yet and listens where its
/// runner binds it.
pub struct Server {
    _addr: Option<String>,
}

impl Server {
    /// The address the server was configured with, if any.
    pub closed spec fn addr(&self) -> Option<String> {
        self._addr
    }

    /// A server without a configured address.
    pub fn new() -> (s: Self)
        ensures
            s.addr() is None,
    {
        Server { _addr: None }
    }
}

/// The registry relays text between mailboxes and stores nothing: as a message
/// service it accepts every message and hands it back unchanged.
impl MessageService for State {
    fn send(&self, message: Message) -> (r: Result<Message, ChatError>)
        ensures
            r == Ok::<Message, ChatError>(message),
    {
        Ok(message)
    }

    fn recieve(&self, message: Message) -> (r: Result<Message, ChatError>)
        ensures
            r == Ok::<Message, ChatError>(message),
    {
        Ok(message)
    }

    fn delete(&self, id: Uuid) -> (r: Result<(), ChatError>)
        ensures
            r == Ok::<(), ChatError>(()),
    {
        Ok(())
    }
}

} // verus!
