use vstd::prelude::*;
use uuid::Uuid;
use crate::error::ChatError;

verus! {

/// A stored message as exchanged with a message service.
#[derive(Debug, Clone)]
pub struct Message {
    pub id: Option<Uuid>,
    pub to: String,
    pub from: String,
    pub subject: String,
    pub body: String,
    pub timestamp: Option<String>,
}

/// A service that accepts, hands out and deletes messages. Implementations
/// decide what each operation does; nothing is promised on their behalf.
pub trait MessageService {
    fn send(&self, message: Message) -> Result<Message, ChatError>;

    fn recieve(&self, message: Message) -> Result<Message, ChatError>;

    fn delete(&self, id: Uuid) -> Result<(), ChatError>;
}

} // verus!
