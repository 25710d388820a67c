//! The records the bot keeps: challenges, players and their sessions.
use vstd::prelude::*;

verus! {

/// A challenge that players can start: the container image it runs,
/// its identifier, a short description of the goal and the flag to find.
pub struct Ctf {
    pub image: String,
    pub id: String,
    pub objective: String,
    pub flag: String,
}

/// The value of a [`Ctf`] as sequences of characters.
pub struct CtfView {
    pub image: Seq<char>,
    pub id: Seq<char>,
    pub objective: Seq<char>,
    pub flag: Seq<char>,
}

impl View for Ctf {
    type V = CtfView;

    open spec fn view(&self) -> CtfView {
        CtfView { image: self.image@, id: self.id@, objective: self.objective@, flag: self.flag@ }
    }
}

impl Clone for Ctf {
    fn clone(&self) -> (r: Self)
        ensures
            r@ == self@,
    {
        Ctf {
            image: self.image.clone(),
            id: self.id.clone(),
            objective: self.objective.clone(),
            flag: self.flag.clone(),
        }
    }
}

/// A player of one guild; `ongoing` tells whether a challenge is running for them.
pub struct User {
    pub id: String,
    pub ongoing: bool,
}

pub struct UserView {
    pub id: Seq<char>,
    pub ongoing: bool,
}

impl View for User {
    type V = UserView;

    open spec fn view(&self) -> UserView {
        UserView { id: self.id@, ongoing: self.ongoing }
    }
}

impl Clone for User {
    fn clone(&self) -> (r: Self)
        ensures
            r@ == self@,
    {
        User { id: self.id.clone(), ongoing: self.ongoing }
    }
}

impl User {
    /// A player that has just been registered: no challenge is running for them.
    pub fn fresh(id: &str) -> (r: User)
        ensures
            r@ == (UserView { id: id@, ongoing: false }),
    {
        User { id: id.to_owned(), ongoing: false }
    }
}

/// The record of a running challenge: whose it is and which challenge it is.
/// The shell streams attached to it are held by the application next to it,
/// keyed by the same player.
pub struct Session {
    pub user_id: String,
    pub ctf_id: String,
}

pub struct SessionView {
    pub user_id: Seq<char>,
    pub ctf_id: Seq<char>,
}

impl View for Session {
    type V = SessionView;

    open spec fn view(&self) -> SessionView {
        SessionView { user_id: self.user_id@, ctf_id: self.ctf_id@ }
    }
}

impl Clone for Session {
    fn clone(&self) -> (r: Self)
        ensures
            r@ == self@,
    {
        Session { user_id: self.user_id.clone(), ctf_id: self.ctf_id.clone() }
    }
}

impl Session {
    /// The session of `user` on challenge `ctf`.
    pub fn new(user: &User, ctf: &Ctf) -> (r: Session)
        ensures
            r@ == (SessionView { user_id: user.id@, ctf_id: ctf.id@ }),
    {
        Session { user_id: user.id.clone(), ctf_id: ctf.id.clone() }
    }
}

} // verus!

verus! {

/// Another handle on the same shared value (`Arc::clone`): its documentation
/// promises a pointer to the same allocation, so the value seen is the same.
#[verifier::external_body]
pub(crate) fn share<T>(a: &std::sync::Arc<T>) -> (r: std::sync::Arc<T>)
    ensures
        r == *a,
{
    std::sync::Arc::clone(a)
}

} // verus!
