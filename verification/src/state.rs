use vstd::prelude::*;
use vstd::string::*;
use crate::delivery::{broadcast_plan, plan_of, Delivery};
use crate::error::ChatError;
use crate::text::joined;
use crate::user::User;

verus! {

/// The display names of `users`, in their order.
pub open spec fn names_of(users: Seq<User>) -> Seq<Seq<char>> {
    users.map_values(|u: User| u.username@)
}

/// Whether some user of `users` goes by `name`.
pub open spec fn has_name(users: Seq<User>, name: Seq<char>) -> bool {
    exists|i: int| 0 <= i < users.len() && (#[trigger] users[i]).username@ == name
}

/// Whether no two users of `users` share a display name.
pub open spec fn distinct_names(users: Seq<User>) -> bool {
    forall|i: int, j: int|
        0 <= i < j < users.len() ==> (#[trigger] users[i]).username@ != (#[trigger] users[j]).username@
}

/// The position of a user that goes by `name`.
pub open spec fn position_of(users: Seq<User>, name: Seq<char>) -> int {
    choose|i: int| 0 <= i < users.len() && (#[trigger] users[i]).username@ == name
}

/// `users` with `user` admitted at the end, unless its name is taken.
pub open spec fn admitted(users: Seq<User>, user: User) -> Seq<User> {
    if has_name(users, user.username@) {
        users
    } else {
        users.push(user)
    }
}

/// `users` without the one that goes by `name`, if there is one.
pub open spec fn without(users: Seq<User>, name: Seq<char>) -> Seq<User> {
    if has_name(users, name) {
        users.remove(position_of(users, name))
    } else {
        users
    }
}

/// The registry reached from `users` after the registrations `attempts`,
/// made one after another.
pub open spec fn admitted_all(users: Seq<User>, attempts: Seq<User>) -> Seq<User>
    decreases attempts.len(),
{
    if attempts.len() == 0 {
        users
    } else {
        admitted(admitted_all(users, attempts.drop_last()), attempts.last())
    }
}

/// How many of the registrations `attempts`, made one after another on
/// `users`, are accepted.
pub open spec fn accepted_count(users: Seq<User>, attempts: Seq<User>) -> nat
    decreases attempts.len(),
{
    if attempts.len() == 0 {
        0
    } else {
        let earlier = attempts.drop_last();
        let taken = has_name(admitted_all(users, earlier), attempts.last().username@);
        accepted_count(users, earlier) + if taken { 0nat } else { 1nat }
    }
}

/// Registering keeps the names distinct.
pub proof fn lemma_admitted_keeps_names_distinct(users: Seq<User>, user: User)
    requires
        distinct_names(users),
    ensures
        distinct_names(admitted(users, user)),
        has_name(admitted(users, user), user.username@),
{
    let after = admitted(users, user);
    if has_name(users, user.username@) {
    } else {
        assert(after[users.len() as int] == user);
        assert forall|i: int, j: int| 0 <= i < j < after.len() implies (#[trigger] after[i]).username@
            != (#[trigger] after[j]).username@ by {
            if j == users.len() {
                assert(after[i] == users[i]);
            } else {
                assert(after[i] == users[i]);
                assert(after[j] == users[j]);
            }
        }
    }
}

/// Removing keeps the names distinct, and the removed name is gone.
pub proof fn lemma_without_keeps_names_distinct(users: Seq<User>, name: Seq<char>)
    requires
        distinct_names(users),
    ensures
        distinct_names(without(users, name)),
        !has_name(without(users, name), name),
{
    let after = without(users, name);
    if has_name(users, name) {
        let k = position_of(users, name);
        assert forall|i: int| 0 <= i < after.len() implies (#[trigger] after[i]).username@
            != name by {
            if i < k {
                assert(after[i] == users[i]);
            } else {
                assert(after[i] == users[i + 1]);
            }
        }
        assert forall|i: int, j: int| 0 <= i < j < after.len() implies (#[trigger] after[i]).username@
            != (#[trigger] after[j]).username@ by {
            let a = if i < k { i } else { i + 1 };
            let b = if j < k { j } else { j + 1 };
            assert(after[i] == users[a]);
            assert(after[j] == users[b]);
        }
    }
}

/// Removing one name leaves every other registration as it was.
pub proof fn lemma_without_keeps_the_others(users: Seq<User>, name: Seq<char>, other: Seq<char>)
    requires
        other != name,
    ensures
        has_name(without(users, name), other) == has_name(users, other),
{
    let after = without(users, name);
    if has_name(users, name) {
        let k = position_of(users, name);
        if has_name(users, other) {
            let i = position_of(users, other);
            let j = if i < k { i } else { i - 1 };
            assert(after[j] == users[i]);
        }
        if has_name(after, other) {
            let j = position_of(after, other);
            let i = if j < k { j } else { j + 1 };
            assert(after[j] == users[i]);
        }
    }
}

/// However many registrations ask for one and the same name, one after
/// another, exactly one of them is accepted when the name was free at the
/// start, and none when it was taken. All the others are turned away.
pub proof fn lemma_one_name_admits_once(users: Seq<User>, attempts: Seq<User>, name: Seq<char>)
    requires
        attempts.len() > 0,
        forall|i: int| 0 <= i < attempts.len() ==> (#[trigger] attempts[i]).username@ == name,
    ensures
        has_name(admitted_all(users, attempts), name),
        !has_name(users, name) ==> accepted_count(users, attempts) == 1,
        has_name(users, name) ==> accepted_count(users, attempts) == 0,
        !has_name(users, name) ==> admitted_all(users, attempts) == users.push(attempts[0]),
        has_name(users, name) ==> admitted_all(users, attempts) == users,
    decreases attempts.len(),
{
    let earlier = attempts.drop_last();
    assert(attempts.last().username@ == name);
    if earlier.len() == 0 {
        assert(admitted_all(users, earlier) == users);
        assert(accepted_count(users, earlier) == 0);
        assert(attempts.last() == attempts[0]);
        if !has_name(users, name) {
            let after = users.push(attempts[0]);
            assert(after[users.len() as int].username@ == name);
        }
    } else {
        assert forall|i: int| 0 <= i < earlier.len() implies (#[trigger] earlier[i]).username@
            == name by {
            assert(earlier[i] == attempts[i]);
        }
        lemma_one_name_admits_once(users, earlier, name);
        assert(earlier[0] == attempts[0]);
    }
}

/// Removing a name a second time changes nothing, and neither does removing
/// a name that is not registered.
pub proof fn lemma_removal_is_idempotent(users: Seq<User>, name: Seq<char>)
    requires
        distinct_names(users),
    ensures
        without(without(users, name), name) == without(users, name),
        !has_name(users, name) ==> without(users, name) == users,
{
    lemma_without_keeps_names_distinct(users, name);
}

/// The registry of connected users, keyed by display name. It keeps the users
/// in the order in which they registered and never holds a name twice. Every
/// change goes through `&mut self`, so callers that run side by side reach it
/// one at a time, each seeing the whole effect of the one before.
#[derive(Debug)]
pub struct State {
    users: Vec<User>,
}

impl View for State {
    type V = Seq<User>;

    closed spec fn view(&self) -> Seq<User> {
        self.users@
    }
}

impl State {
    #[verifier::type_invariant]
    spec fn names_are_unique(&self) -> bool {
        distinct_names(self.users@)
    }

    /// The empty registry.
    pub fn new() -> (s: Self)
        ensures
            s@ == Seq::<User>::empty(),
            distinct_names(s@),
    {
        State { users: Vec::new() }
    }

    /// How many users are registered.
    pub fn len(&self) -> (n: usize)
        ensures
            n == self@.len(),
            distinct_names(self@),
    {
        proof {
            use_type_invariant(self);
        }
        self.users.len()
    }

    /// Moves the users out and leaves the registry empty until they are put
    /// back: the list is changed outside the registry and returns only when
    /// its names are distinct.
    fn take_users(&mut self) -> (users: Vec<User>)
        ensures
            users@ == old(self)@,
            distinct_names(users@),
            final(self)@ == Seq::<User>::empty(),
    {
        proof {
            use_type_invariant(&*self);
        }
        let mut users: Vec<User> = Vec::new();
        core::mem::swap(&mut self.users, &mut users);
        users
    }

    fn find(&self, username: &str) -> (r: Option<usize>)
        ensures
            distinct_names(self@),
            match r {
                Some(i) => i < self@.len() && self@[i as int].username@ == username@
                    && position_of(self@, username@) == i,
                None => !has_name(self@, username@),
            },
    {
        proof {
            use_type_invariant(self);
        }
        let wanted = String::from_str(username);
        let n: usize = self.users.len();
        let mut i: usize = 0;
        while i < n
            invariant
                n == self.users.len(),
                i <= n,
                wanted@ == username@,
                distinct_names(self.users@),
                forall|j: int| 0 <= j < i ==> (#[trigger] self.users@[j]).username@ != username@,
            decreases n - i,
        {
            if self.users[i].username == wanted {
                return Some(i);
            }
            i += 1;
        }
        None
    }

    /// Whether a user is registered under `username`.
    pub fn contains(&self, username: &str) -> (r: bool)
        ensures
            r == has_name(self@, username@),
            distinct_names(self@),
    {
        self.find(username).is_some()
    }

    /// Registers `user` under its name. The registry is left as it was when
    /// the name is already taken.
    pub fn add_user(&mut self, user: &User) -> (r: Result<(), ChatError>)
        ensures
            final(self)@ == admitted(old(self)@, *user),
            distinct_names(old(self)@),
            distinct_names(final(self)@),
            has_name(old(self)@, user.username@) ==> r == Err::<(), ChatError>(ChatError::NameAlreadyTaken),
            !has_name(old(self)@, user.username@) ==> r == Ok::<(), ChatError>(()),
    {
        match self.find(user.username.as_str()) {
            Some(_) => Err(ChatError::NameAlreadyTaken),
            None => {
                let mut users = self.take_users();
                users.push(user.clone());
                self.users = users;
                Ok(())
            },
        }
    }

    /// The user registered under `username`.
    pub fn get_user(&self, username: &str) -> (r: Result<&User, ChatError>)
        ensures
            distinct_names(self@),
            match r {
                Ok(user) => has_name(self@, username@) && *user == self@[position_of(
                    self@,
                    username@,
                )],
                Err(e) => !has_name(self@, username@) && e == ChatError::RecipientNotFound,
            },
    {
        match self.find(username) {
            Some(i) => Ok(&self.users[i]),
            None => Err(ChatError::RecipientNotFound),
        }
    }

    /// Takes the user registered under `username` out of the registry. Nothing
    /// changes when there is none.
    pub fn remove(&mut self, username: &str)
        ensures
            final(self)@ == without(old(self)@, username@),
            distinct_names(old(self)@),
            distinct_names(final(self)@),
            !has_name(final(self)@, username@),
    {
        match self.find(username) {
            Some(i) => {
                let mut users = self.take_users();
                users.remove(i);
                self.users = users;
            },
            None => {},
        }
    }

    /// The registered names, in registration order.
    pub fn list_names(&self) -> (names: Vec<String>)
        ensures
            names@.map_values(|s: String| s@) == names_of(self@),
            names@.map_values(|s: String| s@).no_duplicates(),
    {
        proof {
            use_type_invariant(self);
        }
        let n: usize = self.users.len();
        let mut names: Vec<String> = Vec::new();
        let mut i: usize = 0;
        while i < n
            invariant
                n == self.users.len(),
                i <= n,
                names@.len() == i,
                names@.map_values(|s: String| s@) == names_of(self.users@.take(i as int)),
            decreases n - i,
        {
            let ghost before = names@;
            names.push(self.users[i].username.clone());
            proof {
                let got = names@.map_values(|s: String| s@);
                let want = names_of(self.users@.take(i + 1));
                assert forall|j: int| 0 <= j < got.len() implies got[j] == want[j] by {
                    if j < i {
                        assert(before.map_values(|s: String| s@)[j] == names_of(
                            self.users@.take(i as int),
                        )[j]);
                    }
                }
                assert(got =~= want);
            }
            i += 1;
        }
        proof {
            assert(self.users@.take(n as int) == self.users@);
        }
        names
    }

    /// The registered names, one per line.
    pub fn get_users(&self) -> (r: String)
        ensures
            r@ == joined(names_of(self@), seq!['\n']),
    {
        let n: usize = self.users.len();
        let mut r = String::new();
        let mut i: usize = 0;
        while i < n
            invariant
                n == self.users.len(),
                i <= n,
                r@ == joined(names_of(self.users@.take(i as int)), seq!['\n']),
            decreases n - i,
        {
            proof {
                reveal_strlit("\n");
                assert(self.users@.take(i + 1) == self.users@.take(i as int).push(self.users@[i as int]));
                let next = names_of(self.users@.take(i + 1));
                assert(next.drop_last() =~= names_of(self.users@.take(i as int)));
                assert(next.last() == self.users@[i as int].username@);
                assert("\n"@ =~= seq!['\n']);
            }
            if i > 0 {
                r.append("\n");
            }
            r.append(self.users[i].username.as_str());
            i += 1;
        }
        proof {
            assert(self.users@.take(n as int) == self.users@);
        }
        r
    }

    /// One copy of `message` for every registered user, in registration order.
    pub fn send_all(&self, message: &str) -> (plan: Vec<Delivery>)
        ensures
            plan_of(plan@) == broadcast_plan(self@, message@),
    {
        let n: usize = self.users.len();
        let mut plan: Vec<Delivery> = Vec::new();
        let mut i: usize = 0;
        while i < n
            invariant
                n == self.users.len(),
                i <= n,
                plan@.len() == i,
                plan_of(plan@) == broadcast_plan(self.users@.take(i as int), message@),
            decreases n - i,
        {
            let ghost before = plan@;
            plan.push(Delivery { to: self.users[i].clone(), text: String::from_str(message) });
            proof {
                let got = plan_of(plan@);
                let want = broadcast_plan(self.users@.take(i + 1), message@);
                assert forall|j: int| 0 <= j < got.len() implies got[j] == want[j] by {
                    if j < i {
                        assert(plan_of(before)[j] == broadcast_plan(
                            self.users@.take(i as int),
                            message@,
                        )[j]);
                    }
                }
                assert(got =~= want);
            }
            i += 1;
        }
        proof {
            assert(self.users@.take(n as int) == self.users@);
        }
        plan
    }
}

} // verus!
