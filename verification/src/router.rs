use vstd::prelude::*;
use vstd::string::*;
use crate::delivery::{broadcast_plan, plan_of, Delivery};
use crate::error::ChatError;
use crate::state::{distinct_names, has_name, position_of, State};
use crate::text::{
    followed_by, lemma_split_of_joined, plain_target, same_text, split_first, split_line,
};
use crate::user::User;

verus! {

/// The target that stands for every registered user.
pub const EVERYONE: &'static str = "all";

/// The characters of the target that stands for every registered user.
pub open spec fn everyone() -> Seq<char> {
    seq!['a', 'l', 'l']
}

/// What an inbound line of a registered user asks for.
#[derive(Debug)]
pub enum RouteOutcome {
    /// The body goes to every registered user.
    Broadcast(String),
    /// The body goes to the one user named as target.
    Direct(String, String),
}

/// A `RouteOutcome` with its texts as character sequences.
pub enum RouteView {
    Broadcast(Seq<char>),
    Direct(Seq<char>, Seq<char>),
}

impl View for RouteOutcome {
    type V = RouteView;

    open spec fn view(&self) -> RouteView {
        match self {
            RouteOutcome::Broadcast(body) => RouteView::Broadcast(body@),
            RouteOutcome::Direct(target, body) => RouteView::Direct(target@, body@),
        }
    }
}

/// The meaning of `line`: its first `::` parts the target from the body, and
/// the target `all` asks for a broadcast. A line without `::` has none.
pub open spec fn parsed(line: Seq<char>) -> Option<RouteView> {
    match split_first(line) {
        None => None,
        Some((target, body)) => if target == everyone() {
            Some(RouteView::Broadcast(body))
        } else {
            Some(RouteView::Direct(target, body))
        },
    }
}

/// What the sender of a directed message gets back: target, colon, space, body.
pub open spec fn confirmation(target: Seq<char>, body: Seq<char>) -> Seq<char> {
    target + seq![':', ' '] + body
}

/// The deliveries that `line`, sent by `sender`, leads to among `users`. A
/// broadcast reaches every user. A directed message reaches its target and
/// comes back to the sender as a confirmation; with an unknown target nothing
/// is delivered at all.
pub open spec fn routed(line: Seq<char>, users: Seq<User>, sender: User) -> Result<
    Seq<(User, Seq<char>)>,
    ChatError,
> {
    match parsed(line) {
        None => Err(ChatError::MalformedMessage),
        Some(RouteView::Broadcast(body)) => Ok(broadcast_plan(users, body)),
        Some(RouteView::Direct(target, body)) => if has_name(users, target) {
            Ok(seq![(users[position_of(users, target)], body), (sender, confirmation(target, body))])
        } else {
            Err(ChatError::RecipientNotFound)
        },
    }
}

/// The line that names `target` and carries `body`.
pub open spec fn line_for(target: Seq<char>, body: Seq<char>) -> Seq<char> {
    target + seq![':', ':'] + body
}

/// A broadcast reaches every registered user, the sender included, once each
/// and with the body as it was sent.
pub proof fn lemma_broadcast_reaches_every_member(users: Seq<User>, sender: User, body: Seq<char>)
    ensures
        routed(line_for(everyone(), body), users, sender) == Ok::<
            Seq<(User, Seq<char>)>,
            ChatError,
        >(broadcast_plan(users, body)),
        broadcast_plan(users, body).len() == users.len(),
        forall|i: int|
            0 <= i < users.len() ==> (#[trigger] broadcast_plan(users, body)[i]) == (users[i], body),
{
    assert(plain_target(everyone())) by {
        let t = everyone() + seq![':'];
        assert(t[0] == 'a' && t[1] == 'l' && t[2] == 'l' && t[3] == ':');
    }
    lemma_split_of_joined(everyone(), body);
}

/// A line for a registered user reaches that user with the bare body and
/// comes back to the sender with the target's name in front.
pub proof fn lemma_directed_line_reaches_target_and_sender(
    users: Seq<User>,
    sender: User,
    k: int,
    body: Seq<char>,
)
    requires
        distinct_names(users),
        0 <= k < users.len(),
        plain_target(users[k].username@),
        users[k].username@ != everyone(),
    ensures
        routed(line_for(users[k].username@, body), users, sender) == Ok::<
            Seq<(User, Seq<char>)>,
            ChatError,
        >(seq![(users[k], body), (sender, confirmation(users[k].username@, body))]),
{
    let target = users[k].username@;
    lemma_split_of_joined(target, body);
    let found = position_of(users, target);
    assert(found == k) by {
        if found < k {
            assert(users[found].username@ != users[k].username@);
        } else if k < found {
            assert(users[k].username@ != users[found].username@);
        }
    }
}

/// A line for a name that is not registered is delivered to nobody.
pub proof fn lemma_unknown_target_reaches_nobody(
    users: Seq<User>,
    sender: User,
    target: Seq<char>,
    body: Seq<char>,
)
    requires
        plain_target(target),
        target != everyone(),
        !has_name(users, target),
    ensures
        routed(line_for(target, body), users, sender) == Err::<Seq<(User, Seq<char>)>, ChatError>(
            ChatError::RecipientNotFound,
        ),
{
    lemma_split_of_joined(target, body);
}

/// Reads one inbound line as a broadcast or a directed message.
pub fn parse_line(line: &str) -> (r: Result<RouteOutcome, ChatError>)
    ensures
        match r {
            Ok(outcome) => parsed(line@) == Some(outcome@),
            Err(e) => e == ChatError::MalformedMessage && parsed(line@) is None,
        },
{
    match split_line(line) {
        None => Err(ChatError::MalformedMessage),
        Some((target, body)) => {
            proof {
                reveal_strlit("all");
                assert(EVERYONE@ =~= everyone());
            }
            if same_text(target.as_str(), EVERYONE) {
                Ok(RouteOutcome::Broadcast(body))
            } else {
                Ok(RouteOutcome::Direct(target, body))
            }
        },
    }
}

/// The confirmation that the sender of a directed message gets back.
pub fn confirmation_text(target: &str, body: &str) -> (r: String)
    ensures
        r@ == confirmation(target@, body@),
{
    proof {
        reveal_strlit(": ");
        assert(": "@ =~= seq![':', ' ']);
    }
    let mut r = followed_by(target, ": ");
    r.append(body);
    r
}

/// Plans the deliveries for one inbound line of `sender`. Nothing is sent
/// here: the plan names each recipient and the text it is to get.
pub fn route(line: &str, registry: &State, sender: &User) -> (r: Result<Vec<Delivery>, ChatError>)
    ensures
        match r {
            Ok(plan) => routed(line@, registry@, *sender) == Ok::<Seq<(User, Seq<char>)>, ChatError>(
                plan_of(plan@),
            ),
            Err(e) => routed(line@, registry@, *sender) == Err::<Seq<(User, Seq<char>)>, ChatError>(e),
        },
{
    match parse_line(line) {
        Err(e) => Err(e),
        Ok(RouteOutcome::Broadcast(body)) => Ok(registry.send_all(body.as_str())),
        Ok(RouteOutcome::Direct(target, body)) => {
            match registry.get_user(target.as_str()) {
                Err(e) => Err(e),
                Ok(recipient) => {
                    let mut plan: Vec<Delivery> = Vec::new();
                    let echo = confirmation_text(target.as_str(), body.as_str());
                    plan.push(Delivery { to: recipient.clone(), text: body });
                    plan.push(Delivery { to: sender.clone(), text: echo });
                    proof {
                        assert(plan_of(plan@) =~= seq![
                            (registry@[position_of(registry@, target@)], body@),
                            (*sender, confirmation(target@, body@)),
                        ]);
                    }
                    Ok(plan)
                },
            }
        },
    }
}

} // verus!
