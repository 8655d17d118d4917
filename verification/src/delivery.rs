use vstd::prelude::*;
use crate::user::User;

verus! {

/// One payload bound for one user's mailbox. Deliveries are planned while the
/// registry is held and carried out afterwards, so that a full mailbox never
/// keeps the registry busy.
#[derive(Debug)]
pub struct Delivery {
    pub to: User,
    pub text: String,
}

impl View for Delivery {
    type V = (User, Seq<char>);

    open spec fn view(&self) -> (User, Seq<char>) {
        (self.to, self.text@)
    }
}

/// The recipient and text of each delivery, in order.
pub open spec fn plan_of(deliveries: Seq<Delivery>) -> Seq<(User, Seq<char>)> {
    deliveries.map_values(|d: Delivery| d@)
}

/// One copy of `text` for every user of `users`, in their order.
pub open spec fn broadcast_plan(users: Seq<User>, text: Seq<char>) -> Seq<(User, Seq<char>)> {
    users.map_values(|u: User| (u, text))
}

} // verus!
