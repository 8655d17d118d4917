use vstd::prelude::*;
use vstd::string::*;
use tokio::sync::mpsc::Receiver;
use crate::delivery::{broadcast_plan, plan_of, Delivery};
use crate::mailbox::mailbox_bound;
use crate::router::{route, routed};
use crate::state::{
    distinct_names, has_name, lemma_without_keeps_names_distinct, lemma_without_keeps_the_others,
    without, State,
};
use crate::text::followed_by;
use crate::user::{User, MAILBOX_CAPACITY};

verus! {

/// Where a connection stands in its life. A session only ever moves forward
/// through these, in the order written.
#[derive(Debug, Clone, Copy, PartialEq, Eq, Structural)]
pub enum Phase {
    /// The transport handshake is still under way.
    Connecting,
    /// Waiting for the peer to propose a display name.
    Negotiating,
    /// Registered; inbound lines are routed.
    Active,
    /// The inbound stream has ended; the departure is being announced.
    Closing,
    /// Deregistered, or never registered. Nothing happens any more.
    Closed,
}

impl Phase {
    /// The place of this phase in the order of a session's life.
    pub open spec fn rank(self) -> nat {
        match self {
            Phase::Connecting => 0,
            Phase::Negotiating => 1,
            Phase::Active => 2,
            Phase::Closing => 3,
            Phase::Closed => 4,
        }
    }
}

/// What the transport reports to a session.
#[derive(Debug)]
pub enum Event {
    /// The handshake is complete.
    Connected,
    /// A text frame arrived.
    Frame(String),
    /// A frame arrived that is not text.
    NonText,
    /// A payload could not be queued because its mailbox is closed.
    DeliveryFailed,
    /// The inbound stream ended: the peer left, a read failed, or the protocol
    /// closed it.
    InboundClosed,
    /// The outbound drain has stopped and the departure has been queued.
    Departed,
}

/// An `Event` with its text as a character sequence.
pub enum EventView {
    Connected,
    Frame(Seq<char>),
    NonText,
    DeliveryFailed,
    InboundClosed,
    Departed,
}

impl View for Event {
    type V = EventView;

    open spec fn view(&self) -> EventView {
        match self {
            Event::Connected => EventView::Connected,
            Event::Frame(text) => EventView::Frame(text@),
            Event::NonText => EventView::NonText,
            Event::DeliveryFailed => EventView::DeliveryFailed,
            Event::InboundClosed => EventView::InboundClosed,
            Event::Departed => EventView::Departed,
        }
    }
}

/// What a session asks its surroundings to do, outside the registry's lock.
#[derive(Debug)]
pub enum Action {
    /// Write this notice straight to the connection and drop it.
    Reject(String),
    /// Start draining this mailbox into the connection.
    StartOutbound(Receiver<String>),
    /// Queue these payloads, in this order, waiting wherever a mailbox is full.
    Deliver(Vec<Delivery>),
    /// Ask the outbound drain to stop and wait until it has.
    StopOutbound,
}

/// An `Action` with its texts as character sequences.
pub enum ActionView {
    Reject(Seq<char>),
    StartOutbound(Receiver<String>),
    Deliver(Seq<(User, Seq<char>)>),
    StopOutbound,
}

impl View for Action {
    type V = ActionView;

    open spec fn view(&self) -> ActionView {
        match self {
            Action::Reject(notice) => ActionView::Reject(notice@),
            Action::StartOutbound(mailbox) => ActionView::StartOutbound(*mailbox),
            Action::Deliver(plan) => ActionView::Deliver(plan_of(plan@)),
            Action::StopOutbound => ActionView::StopOutbound,
        }
    }
}

/// The views of `actions`, in order.
pub open spec fn actions_of(actions: Seq<Action>) -> Seq<ActionView> {
    actions.map_values(|a: Action| a@)
}

/// The notice for a peer whose proposed name is taken.
pub open spec fn rejection_notice() -> Seq<char> {
    "Username already taken."@
}

/// The announcement of `name`'s arrival.
pub open spec fn arrival_notice(name: Seq<char>) -> Seq<char> {
    name + " has joined the chat"@
}

/// The announcement of `name`'s departure.
pub open spec fn departure_notice(name: Seq<char>) -> Seq<char> {
    name + " has left the chat"@
}

/// The state of a session: its phase and the user it is bound to.
pub struct SessionView {
    pub phase: Phase,
    pub user: Option<User>,
}

impl SessionView {
    /// A session is bound to a user exactly while it is active or closing.
    pub open spec fn consistent(self) -> bool {
        (self.phase == Phase::Active || self.phase == Phase::Closing) <==> self.user is Some
    }
}

/// What one step of a session comes to: the session and the registry after
/// it, and the actions asked for.
pub struct Step {
    pub session: SessionView,
    pub users: Seq<User>,
    pub actions: Seq<ActionView>,
}

/// A step that changes nothing and asks for nothing.
pub open spec fn idle(session: SessionView, users: Seq<User>) -> Step {
    Step { session, users, actions: Seq::empty() }
}

/// Whether `event` makes a negotiating session register a new user.
pub open spec fn admits(session: SessionView, users: Seq<User>, event: EventView) -> bool {
    session.phase == Phase::Negotiating && event is Frame && !has_name(users, event->Frame_0)
}

/// The step of a negotiating session that is offered `user`, whose mailbox is
/// drained through `mailbox`. A free name is registered, the session becomes
/// active and everyone, the newcomer included, is told of the arrival. A taken
/// name is turned away, which ends the session. In any other phase nothing
/// happens.
pub open spec fn admission(
    session: SessionView,
    users: Seq<User>,
    user: User,
    mailbox: Receiver<String>,
) -> Step {
    if session.phase != Phase::Negotiating {
        idle(session, users)
    } else if has_name(users, user.username@) {
        Step {
            session: SessionView { phase: Phase::Closed, user: None },
            users,
            actions: seq![ActionView::Reject(rejection_notice())],
        }
    } else {
        Step {
            session: SessionView { phase: Phase::Active, user: Some(user) },
            users: users.push(user),
            actions: seq![
                ActionView::StartOutbound(mailbox),
                ActionView::Deliver(
                    broadcast_plan(users.push(user), arrival_notice(user.username@)),
                ),
            ],
        }
    }
}

/// The step that `event` causes, for every case but the registration of a new
/// user (see `admission`).
///
/// * The end of the handshake opens the negotiation.
/// * A proposed name that is taken is turned away, which ends the session.
/// * A line of an active session is routed. A line that cannot be routed is
///   dropped; the session stays as it is.
/// * The end of the inbound stream makes an active session stop its outbound
///   drain and announce the departure to everyone still registered; before
///   registration it simply ends the session.
/// * Once the departure is queued, the user is taken out of the registry.
/// * Anything else is ignored.
pub open spec fn next(session: SessionView, users: Seq<User>, event: EventView) -> Step {
    match (session.phase, event) {
        (Phase::Connecting, EventView::Connected) => Step {
            session: SessionView { phase: Phase::Negotiating, user: None },
            users,
            actions: Seq::empty(),
        },
        (Phase::Connecting, EventView::InboundClosed)
        | (Phase::Negotiating, EventView::InboundClosed) => Step {
            session: SessionView { phase: Phase::Closed, user: None },
            users,
            actions: Seq::empty(),
        },
        (Phase::Negotiating, EventView::Frame(name)) => if has_name(users, name) {
            Step {
                session: SessionView { phase: Phase::Closed, user: None },
                users,
                actions: seq![ActionView::Reject(rejection_notice())],
            }
        } else {
            idle(session, users)
        },
        (Phase::Active, EventView::Frame(line)) => match routed(line, users, session.user->0) {
            Ok(plan) => Step { session, users, actions: seq![ActionView::Deliver(plan)] },
            Err(_) => idle(session, users),
        },
        (Phase::Active, EventView::InboundClosed) => Step {
            session: SessionView { phase: Phase::Closing, user: session.user },
            users,
            actions: seq![
                ActionView::StopOutbound,
                ActionView::Deliver(
                    broadcast_plan(users, departure_notice(session.user->0.username@)),
                ),
            ],
        },
        (Phase::Closing, EventView::Departed) => Step {
            session: SessionView { phase: Phase::Closed, user: None },
            users: without(users, session.user->0.username@),
            actions: Seq::empty(),
        },
        _ => idle(session, users),
    }
}

/// No step takes a session back to an earlier phase, and every step leaves it
/// bound to a user exactly while it is active or closing.
pub proof fn lemma_steps_only_go_forward(
    session: SessionView,
    users: Seq<User>,
    event: EventView,
    user: User,
    mailbox: Receiver<String>,
)
    requires
        session.consistent(),
    ensures
        next(session, users, event).session.phase.rank() >= session.phase.rank(),
        next(session, users, event).session.consistent(),
        admission(session, users, user, mailbox).session.phase.rank() >= session.phase.rank(),
        admission(session, users, user, mailbox).session.consistent(),
{
}

/// Nothing but the end of the inbound stream takes an active session out of
/// its phase or away from its user: a line that is malformed or names an
/// unknown recipient, a failed delivery, any other event leave it as it is.
pub proof fn lemma_only_closure_ends_active(session: SessionView, users: Seq<User>, event: EventView)
    requires
        session.phase == Phase::Active,
        !(event is InboundClosed),
    ensures
        next(session, users, event).session == session,
        next(session, users, event).users == users,
{
}

/// A line that is malformed or names an unknown recipient leads to no
/// delivery at all.
pub proof fn lemma_unroutable_line_delivers_nothing(
    session: SessionView,
    users: Seq<User>,
    line: Seq<char>,
)
    requires
        session.phase == Phase::Active,
        routed(line, users, session.user->0) is Err,
    ensures
        next(session, users, EventView::Frame(line)) == idle(session, users),
{
}

/// A closed session stays closed and asks for nothing.
pub proof fn lemma_closed_is_final(session: SessionView, users: Seq<User>, event: EventView)
    requires
        session.phase == Phase::Closed,
    ensures
        next(session, users, event) == idle(session, users),
{
}

/// When a free name is offered, the newcomer is registered and the arrival
/// is announced to everyone registered before and to the newcomer.
pub proof fn lemma_arrival_is_announced_to_everyone(
    users: Seq<User>,
    user: User,
    mailbox: Receiver<String>,
)
    requires
        !has_name(users, user.username@),
    ensures
        ({
            let negotiating = SessionView { phase: Phase::Negotiating, user: None };
            let step = admission(negotiating, users, user, mailbox);
            let notice = arrival_notice(user.username@);
            &&& step.session == (SessionView { phase: Phase::Active, user: Some(user) })
            &&& step.users == users.push(user)
            &&& step.actions.len() == 2
            &&& step.actions[0] == ActionView::StartOutbound(mailbox)
            &&& step.actions[1] is Deliver
            &&& step.actions[1]->Deliver_0.len() == users.len() + 1
            &&& forall|i: int|
                0 <= i < users.len() ==> (#[trigger] step.actions[1]->Deliver_0[i]) == (
                    users[i],
                    notice,
                )
            &&& step.actions[1]->Deliver_0[users.len() as int] == (user, notice)
        }),
{
}

/// When the inbound stream of an active session ends, the departure is
/// announced to everyone registered at that moment, while the leaving user is
/// still registered. Once that is done the user is deregistered: the name is
/// gone from the registry and every other name is still there.
pub proof fn lemma_departure_is_announced_then_deregistered(
    session: SessionView,
    users: Seq<User>,
    other: Seq<char>,
)
    requires
        session.phase == Phase::Active,
        session.user is Some,
        distinct_names(users),
        other != session.user->0.username@,
    ensures
        ({
            let name = session.user->0.username@;
            let closing = next(session, users, EventView::InboundClosed);
            let closed = next(closing.session, closing.users, EventView::Departed);
            &&& closing.session == (SessionView { phase: Phase::Closing, user: session.user })
            &&& closing.users == users
            &&& closing.actions == seq![
                ActionView::StopOutbound,
                ActionView::Deliver(broadcast_plan(users, departure_notice(name))),
            ]
            &&& closed.session == (SessionView { phase: Phase::Closed, user: None })
            &&& closed.actions == Seq::<ActionView>::empty()
            &&& closed.users == without(users, name)
            &&& !has_name(closed.users, name)
            &&& has_name(closed.users, other) == has_name(users, other)
        }),
{
    let name = session.user->0.username@;
    lemma_without_keeps_names_distinct(users, name);
    lemma_without_keeps_the_others(users, name, other);
}

/// The life of one connection, from the handshake to deregistration.
#[derive(Debug)]
pub struct Session {
    phase: Phase,
    user: Option<User>,
}

impl View for Session {
    type V = SessionView;

    closed spec fn view(&self) -> SessionView {
        SessionView { phase: self.phase, user: self.user }
    }
}

impl Session {
    #[verifier::type_invariant]
    spec fn bound_while_registered(&self) -> bool {
        self@.consistent()
    }

    /// A session whose handshake is still under way.
    pub fn new() -> (s: Self)
        ensures
            s@ == (SessionView { phase: Phase::Connecting, user: None }),
    {
        Session { phase: Phase::Connecting, user: None }
    }

    /// The phase the session is in.
    pub fn phase(&self) -> (p: Phase)
        ensures
            p == self@.phase,
            self@.consistent(),
    {
        proof {
            use_type_invariant(self);
        }
        self.phase
    }

    /// The user the session is bound to, while it is active or closing.
    pub fn user(&self) -> (u: Option<&User>)
        ensures
            self@.consistent(),
            match u {
                Some(user) => self@.user == Some(*user),
                None => self@.user is None,
            },
    {
        proof {
            use_type_invariant(self);
        }
        self.user.as_ref()
    }

    /// The notice for a peer whose proposed name is taken.
    pub fn rejection_text() -> (r: String)
        ensures
            r@ == rejection_notice(),
    {
        String::from_str("Username already taken.")
    }

    /// The announcement of `name`'s arrival.
    pub fn arrival_text(name: &str) -> (r: String)
        ensures
            r@ == arrival_notice(name@),
    {
        followed_by(name, " has joined the chat")
    }

    /// The announcement of `name`'s departure.
    pub fn departure_text(name: &str) -> (r: String)
        ensures
            r@ == departure_notice(name@),
    {
        followed_by(name, " has left the chat")
    }

    /// Offers `user`, whose mailbox is drained through `mailbox`, to a
    /// negotiating session.
    pub fn offer(&mut self, registry: &mut State, user: User, mailbox: Receiver<String>) -> (actions:
        Vec<Action>)
        ensures
            (Step {
                session: final(self)@,
                users: final(registry)@,
                actions: actions_of(actions@),
            }) == admission(old(self)@, old(registry)@, user, mailbox),
    {
        proof {
            use_type_invariant(&*self);
        }
        let mut actions: Vec<Action> = Vec::new();
        match self.phase {
            Phase::Negotiating => {
                match registry.add_user(&user) {
                    Err(_) => {
                        *self = Session { phase: Phase::Closed, user: None };
                        actions.push(Action::Reject(Self::rejection_text()));
                        proof {
                            assert(actions_of(actions@) =~= seq![
                                ActionView::Reject(rejection_notice()),
                            ]);
                        }
                    },
                    Ok(()) => {
                        let notice = Self::arrival_text(user.username.as_str());
                        let plan = registry.send_all(notice.as_str());
                        *self = Session { phase: Phase::Active, user: Some(user) };
                        actions.push(Action::StartOutbound(mailbox));
                        actions.push(Action::Deliver(plan));
                        proof {
                            assert(actions_of(actions@) =~= seq![
                                ActionView::StartOutbound(mailbox),
                                ActionView::Deliver(
                                    broadcast_plan(
                                        old(registry)@.push(user),
                                        arrival_notice(user.username@),
                                    ),
                                ),
                            ]);
                        }
                    },
                }
            },
            _ => {
                proof {
                    assert(actions_of(actions@) =~= Seq::<ActionView>::empty());
                }
            },
        }
        actions
    }

    /// Takes the session one step: applies `event` and says what is to be done
    /// about it. The registry must be held for the length of the call and no
    /// longer; the actions are carried out after it is released.
    pub fn step(&mut self, registry: &mut State, event: Event) -> (actions: Vec<Action>)
        ensures
            final(self)@.consistent(),
            final(self)@.phase.rank() >= old(self)@.phase.rank(),
            !admits(old(self)@, old(registry)@, event@) ==> (Step {
                session: final(self)@,
                users: final(registry)@,
                actions: actions_of(actions@),
            }) == next(old(self)@, old(registry)@, event@),
            admits(old(self)@, old(registry)@, event@) ==> ({
                let fresh = final(self)@.user->0;
                &&& final(self)@.user is Some
                &&& fresh.username@ == event@->Frame_0
                &&& mailbox_bound(fresh.tx) == MAILBOX_CAPACITY
                &&& exists|mailbox: Receiver<String>|
                    (Step {
                        session: final(self)@,
                        users: final(registry)@,
                        actions: actions_of(actions@),
                    }) == #[trigger] admission(old(self)@, old(registry)@, fresh, mailbox)
            }),
    {
        proof {
            use_type_invariant(&*self);
        }
        let mut actions: Vec<Action> = Vec::new();
        proof {
            assert(actions_of(actions@) =~= Seq::<ActionView>::empty());
        }
        match self.phase {
            Phase::Connecting => {
                match event {
                    Event::Connected => {
                        *self = Session { phase: Phase::Negotiating, user: None };
                    },
                    Event::InboundClosed => {
                        *self = Session { phase: Phase::Closed, user: None };
                    },
                    _ => {},
                }
            },
            Phase::Negotiating => {
                match event {
                    Event::Frame(name) => {
                        if registry.contains(name.as_str()) {
                            *self = Session { phase: Phase::Closed, user: None };
                            actions.push(Action::Reject(Self::rejection_text()));
                            proof {
                                assert(actions_of(actions@) =~= seq![
                                    ActionView::Reject(rejection_notice()),
                                ]);
                            }
                        } else {
                            let (user, mailbox) = User::new(name);
                            let ghost offered = user;
                            let ghost drained = mailbox;
                            actions = self.offer(registry, user, mailbox);
                            proof {
                                assert((Step {
                                    session: self@,
                                    users: registry@,
                                    actions: actions_of(actions@),
                                }) == admission(old(self)@, old(registry)@, offered, drained));
                            }
                        }
                    },
                    Event::InboundClosed => {
                        *self = Session { phase: Phase::Closed, user: None };
                    },
                    _ => {},
                }
            },
            Phase::Active => {
                match event {
                    Event::Frame(line) => {
                        match &self.user {
                            Some(user) => {
                                match route(line.as_str(), registry, user) {
                                    Ok(plan) => {
                                        actions.push(Action::Deliver(plan));
                                        proof {
                                            assert(actions_of(actions@) =~= seq![
                                                ActionView::Deliver(plan_of(plan@)),
                                            ]);
                                        }
                                    },
                                    Err(_) => {},
                                }
                            },
                            None => {},
                        }
                    },
                    Event::InboundClosed => {
                        match &self.user {
                            Some(user) => {
                                let notice = Self::departure_text(user.username.as_str());
                                let plan = registry.send_all(notice.as_str());
                                let leaving = user.clone();
                                actions.push(Action::StopOutbound);
                                actions.push(Action::Deliver(plan));
                                proof {
                                    assert(actions_of(actions@) =~= seq![
                                        ActionView::StopOutbound,
                                        ActionView::Deliver(plan_of(plan@)),
                                    ]);
                                }
                                *self = Session { phase: Phase::Closing, user: Some(leaving) };
                            },
                            None => {},
                        }
                    },
                    _ => {},
                }
            },
            Phase::Closing => {
                match event {
                    Event::Departed => {
                        match &self.user {
                            Some(user) => {
                                registry.remove(user.username.as_str());
                            },
                            None => {},
                        }
                        *self = Session { phase: Phase::Closed, user: None };
                    },
                    _ => {},
                }
            },
            Phase::Closed => {},
        }
        actions
    }
}

} // verus!
