use msg::error::ChatError;

#[test]
fn every_error_has_its_text() {
    assert_eq!(ChatError::NameAlreadyTaken.message(), "User already exists");
    assert_eq!(ChatError::RecipientNotFound.message(), "User does not exist");
    assert_eq!(ChatError::MalformedMessage.message(), "Malformed message");
    assert_eq!(ChatError::MailboxClosed.message(), "Mailbox closed");
    assert_eq!(ChatError::TransportClosed.message(), "Transport closed");
}

#[test]
fn only_a_closed_transport_ends_a_session() {
    assert!(ChatError::TransportClosed.ends_session());
    assert!(!ChatError::NameAlreadyTaken.ends_session());
    assert!(!ChatError::RecipientNotFound.ends_session());
    assert!(!ChatError::MalformedMessage.ends_session());
    assert!(!ChatError::MailboxClosed.ends_session());
}
