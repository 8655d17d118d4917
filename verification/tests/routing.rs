use msg::delivery::Delivery;
use msg::error::ChatError;
use msg::router::{confirmation_text, parse_line, route, RouteOutcome, EVERYONE};
use msg::state::State;
use msg::user::User;
use tokio::sync::mpsc::Receiver;

fn join(registry: &mut State, name: &str) -> (User, Receiver<String>) {
    let (user, mailbox) = User::new(String::from(name));
    assert_eq!(registry.add_user(&user), Ok(()));
    (user, mailbox)
}

fn carry_out(plan: Vec<Delivery>) {
    for delivery in plan {
        delivery.to.tx.try_send(delivery.text).unwrap();
    }
}

fn pending(mailbox: &mut Receiver<String>) -> Vec<String> {
    let mut texts = Vec::new();
    while let Ok(text) = mailbox.try_recv() {
        texts.push(text);
    }
    texts
}

#[test]
fn parse_line_reads_a_directed_message() {
    match parse_line("bob::hi") {
        Ok(RouteOutcome::Direct(target, body)) => {
            assert_eq!(target, "bob");
            assert_eq!(body, "hi");
        }
        other => panic!("unexpected outcome {:?}", other),
    }
}

#[test]
fn parse_line_reads_a_broadcast() {
    assert_eq!(EVERYONE, "all");
    match parse_line("all::hello") {
        Ok(RouteOutcome::Broadcast(body)) => assert_eq!(body, "hello"),
        other => panic!("unexpected outcome {:?}", other),
    }
}

#[test]
fn parse_line_takes_the_target_literally() {
    match parse_line("All::hello") {
        Ok(RouteOutcome::Direct(target, body)) => {
            assert_eq!(target, "All");
            assert_eq!(body, "hello");
        }
        other => panic!("unexpected outcome {:?}", other),
    }
    match parse_line(" all::hello") {
        Ok(RouteOutcome::Direct(target, _)) => assert_eq!(target, " all"),
        other => panic!("unexpected outcome {:?}", other),
    }
}

#[test]
fn parse_line_keeps_later_delimiters_in_the_body() {
    match parse_line("bob::see::this") {
        Ok(RouteOutcome::Direct(target, body)) => {
            assert_eq!(target, "bob");
            assert_eq!(body, "see::this");
        }
        other => panic!("unexpected outcome {:?}", other),
    }
    match parse_line("all::a::b") {
        Ok(RouteOutcome::Broadcast(body)) => assert_eq!(body, "a::b"),
        other => panic!("unexpected outcome {:?}", other),
    }
}

#[test]
fn parse_line_refuses_a_line_without_delimiter() {
    assert!(matches!(parse_line("hello"), Err(ChatError::MalformedMessage)));
    assert!(matches!(parse_line(""), Err(ChatError::MalformedMessage)));
    assert!(matches!(parse_line("bob:hi"), Err(ChatError::MalformedMessage)));
}

#[test]
fn confirmation_names_the_target() {
    assert_eq!(confirmation_text("bob", "hi"), "bob: hi");
    assert_eq!(confirmation_text("", ""), ": ");
}

#[test]
fn directed_message_reaches_target_and_comes_back() {
    let mut registry = State::new();
    let (alice, mut alice_mailbox) = join(&mut registry, "alice");
    let (_bob, mut bob_mailbox) = join(&mut registry, "bob");

    let plan = route("bob::hi", &registry, &alice).unwrap();
    assert_eq!(plan.len(), 2);
    assert_eq!(plan[0].to.username, "bob");
    assert_eq!(plan[0].text, "hi");
    assert_eq!(plan[1].to.username, "alice");
    assert_eq!(plan[1].text, "bob: hi");
    carry_out(plan);

    assert_eq!(pending(&mut bob_mailbox), vec!["hi"]);
    assert_eq!(pending(&mut alice_mailbox), vec!["bob: hi"]);
}

#[test]
fn message_to_oneself_arrives_with_its_confirmation() {
    let mut registry = State::new();
    let (alice, mut alice_mailbox) = join(&mut registry, "alice");
    carry_out(route("alice::note", &registry, &alice).unwrap());
    assert_eq!(pending(&mut alice_mailbox), vec!["note", "alice: note"]);
}

#[test]
fn unknown_target_delivers_nothing() {
    let mut registry = State::new();
    let (alice, mut alice_mailbox) = join(&mut registry, "alice");
    let (_bob, mut bob_mailbox) = join(&mut registry, "bob");

    let outcome = route("carol::hi", &registry, &alice);
    assert!(matches!(outcome, Err(ChatError::RecipientNotFound)));
    assert!(pending(&mut alice_mailbox).is_empty());
    assert!(pending(&mut bob_mailbox).is_empty());
    assert_eq!(registry.list_names(), vec!["alice", "bob"]);
}

#[test]
fn malformed_line_delivers_nothing() {
    let mut registry = State::new();
    let (alice, mut alice_mailbox) = join(&mut registry, "alice");
    let outcome = route("hello everyone", &registry, &alice);
    assert!(matches!(outcome, Err(ChatError::MalformedMessage)));
    assert!(pending(&mut alice_mailbox).is_empty());
}

#[test]
fn broadcast_reaches_every_member() {
    let mut registry = State::new();
    let (alice, mut alice_mailbox) = join(&mut registry, "alice");
    let (_bob, mut bob_mailbox) = join(&mut registry, "bob");
    let (_carol, mut carol_mailbox) = join(&mut registry, "carol");

    let plan = route("all::hello", &registry, &alice).unwrap();
    assert_eq!(plan.len(), 3);
    carry_out(plan);

    assert_eq!(pending(&mut alice_mailbox), vec!["hello"]);
    assert_eq!(pending(&mut bob_mailbox), vec!["hello"]);
    assert_eq!(pending(&mut carol_mailbox), vec!["hello"]);
}

#[test]
fn broadcast_skips_who_has_left() {
    let mut registry = State::new();
    let (alice, mut alice_mailbox) = join(&mut registry, "alice");
    let (_bob, mut bob_mailbox) = join(&mut registry, "bob");
    registry.remove("bob");

    carry_out(route("all::hello", &registry, &alice).unwrap());
    assert_eq!(pending(&mut alice_mailbox), vec!["hello"]);
    assert!(pending(&mut bob_mailbox).is_empty());
}

#[test]
fn broadcast_in_an_empty_registry_delivers_nothing() {
    let registry = State::new();
    let (stranger, mut mailbox) = User::new(String::from("stranger"));
    let plan = route("all::anyone?", &registry, &stranger).unwrap();
    assert!(plan.is_empty());
    assert!(pending(&mut mailbox).is_empty());
}

#[test]
fn messages_of_one_sender_keep_their_order() {
    let mut registry = State::new();
    let (alice, _alice_mailbox) = join(&mut registry, "alice");
    let (_bob, mut bob_mailbox) = join(&mut registry, "bob");
    carry_out(route("bob::one", &registry, &alice).unwrap());
    carry_out(route("all::two", &registry, &alice).unwrap());
    carry_out(route("bob::three", &registry, &alice).unwrap());
    assert_eq!(pending(&mut bob_mailbox), vec!["one", "two", "three"]);
}

#[test]
fn a_full_mailbox_does_not_hold_up_the_registry() {
    let mut registry = State::new();
    let (alice, mut alice_mailbox) = join(&mut registry, "alice");
    let (bob, _bob_mailbox) = join(&mut registry, "bob");
    while bob.tx.try_send(String::from("x")).is_ok() {}

    let plan = route("bob::hi", &registry, &alice).unwrap();
    assert_eq!(plan.len(), 2);
    assert!(plan[0].to.tx.try_send(String::from("hi")).is_err());
    plan[1].to.tx.try_send(plan[1].text.clone()).unwrap();
    assert_eq!(pending(&mut alice_mailbox), vec!["bob: hi"]);

    let (_carol, _carol_mailbox) = join(&mut registry, "carol");
    registry.remove("alice");
    assert_eq!(registry.list_names(), vec!["bob", "carol"]);
}
