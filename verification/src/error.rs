use vstd::prelude::*;
use vstd::string::*;

verus! {

/// Everything that can go wrong while relaying. None of these is fatal to the
/// server, and only `TransportClosed` ends a session.
#[derive(Debug, Clone, Copy, PartialEq, Eq, Structural)]
pub enum ChatError {
    /// A registration asked for a name that is already in the registry.
    NameAlreadyTaken,
    /// A directed message named a recipient that is not registered.
    RecipientNotFound,
    /// An inbound line carried no `::` delimiter.
    MalformedMessage,
    /// The recipient's mailbox was closed before the payload could be queued.
    MailboxClosed,
    /// The inbound side of the connection has ended.
    TransportClosed,
}

impl ChatError {
    /// The text of this error as shown in logs and notices.
    pub open spec fn spec_message(self) -> Seq<char> {
        match self {
            ChatError::NameAlreadyTaken => "User already exists"@,
            ChatError::RecipientNotFound => "User does not exist"@,
            ChatError::MalformedMessage => "Malformed message"@,
            ChatError::MailboxClosed => "Mailbox closed"@,
            ChatError::TransportClosed => "Transport closed"@,
        }
    }

    /// Human-readable description of the error.
    pub fn message(&self) -> (r: String)
        ensures
            r@ == self.spec_message(),
    {
        match self {
            ChatError::NameAlreadyTaken => String::from_str("User already exists"),
            ChatError::RecipientNotFound => String::from_str("User does not exist"),
            ChatError::MalformedMessage => String::from_str("Malformed message"),
            ChatError::MailboxClosed => String::from_str("Mailbox closed"),
            ChatError::TransportClosed => String::from_str("Transport closed"),
        }
    }

    /// Whether this error ends the session it occurs in. Routing and delivery
    /// failures are handled where they occur; only the end of the transport
    /// closes a session.
    pub fn ends_session(&self) -> (r: bool)
        ensures
            r == (*self == ChatError::TransportClosed),
    {
        match self {
            ChatError::TransportClosed => true,
            _ => false,
        }
    }
}

} // verus!
