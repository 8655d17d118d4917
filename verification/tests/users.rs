use msg::user::{User, MAILBOX_CAPACITY};

#[test]
fn new_user_keeps_its_name() {
    let (user, _mailbox) = User::new(String::from("alice"));
    assert_eq!(user.username, "alice");
}

#[test]
fn new_user_gets_a_bounded_mailbox() {
    let (user, mailbox) = User::new(String::from("alice"));
    assert_eq!(MAILBOX_CAPACITY, 100);
    assert_eq!(user.tx.max_capacity(), 100);
    assert_eq!(mailbox.max_capacity(), 100);
    assert_eq!(user.tx.capacity(), 100);
}

#[test]
fn new_user_gets_a_random_identifier() {
    let (first, _a) = User::new(String::from("alice"));
    let (second, _b) = User::new(String::from("alice"));
    assert_eq!(first.id.get_version_num(), 4);
    assert_eq!(second.id.get_version_num(), 4);
    assert_ne!(first.id, second.id);
}

#[test]
fn mailbox_hands_payloads_out_in_order() {
    let (user, mut mailbox) = User::new(String::from("alice"));
    user.tx.try_send(String::from("one")).unwrap();
    user.tx.try_send(String::from("two")).unwrap();
    assert_eq!(mailbox.try_recv().unwrap(), "one");
    assert_eq!(mailbox.try_recv().unwrap(), "two");
    assert!(mailbox.try_recv().is_err());
}

#[test]
fn mailbox_holds_no_more_than_its_capacity() {
    let (user, _mailbox) = User::new(String::from("alice"));
    for i in 0..MAILBOX_CAPACITY {
        assert!(user.tx.try_send(format!("{}", i)).is_ok());
    }
    assert!(user.tx.try_send(String::from("one too many")).is_err());
}

#[test]
fn separate_users_have_separate_mailboxes() {
    let (alice, mut alice_mailbox) = User::new(String::from("alice"));
    let (bob, mut bob_mailbox) = User::new(String::from("bob"));
    assert!(!alice.tx.same_channel(&bob.tx));
    alice.tx.try_send(String::from("for alice")).unwrap();
    assert!(bob_mailbox.try_recv().is_err());
    assert_eq!(alice_mailbox.try_recv().unwrap(), "for alice");
}

#[test]
fn clone_is_a_handle_to_the_same_user() {
    let (user, mut mailbox) = User::new(String::from("alice"));
    let copy = user.clone();
    assert_eq!(copy.id, user.id);
    assert_eq!(copy.username, user.username);
    assert!(copy.tx.same_channel(&user.tx));
    copy.tx.try_send(String::from("through the copy")).unwrap();
    assert_eq!(mailbox.try_recv().unwrap(), "through the copy");
}

#[test]
fn a_full_mailbox_leaves_the_others_alone() {
    let (slow, _slow_mailbox) = User::new(String::from("slow"));
    let (quick, mut quick_mailbox) = User::new(String::from("quick"));
    for _ in 0..MAILBOX_CAPACITY {
        slow.tx.try_send(String::from("x")).unwrap();
    }
    assert!(slow.tx.try_send(String::from("x")).is_err());
    quick.tx.try_send(String::from("still fine")).unwrap();
    assert_eq!(quick_mailbox.try_recv().unwrap(), "still fine");
}
