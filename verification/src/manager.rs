//! The state the bot keeps for one guild: its players and their running challenges.
use vstd::prelude::*;
use std::sync::Arc;
use crate::models::{Ctf, CtfView, Session, SessionView, User, UserView, share};
use crate::search::{first_index, first_of, is_first, lemma_first_at, lemma_first_exists, lemma_first_none};
use crate::text::str_eq;

verus! {

broadcast use vstd::seq_lib::group_seq_properties;

/// Players are told apart by their identifier.
pub open spec fn named_user(id: Seq<char>) -> spec_fn(UserView) -> bool {
    |u: UserView| u.id == id
}

/// The sessions that belong to a player.
pub open spec fn session_of(user_id: Seq<char>) -> spec_fn(SessionView) -> bool {
    |s: SessionView| s.user_id == user_id
}

/// The sessions that do not belong to a player.
pub open spec fn session_not_of(user_id: Seq<char>) -> spec_fn(SessionView) -> bool {
    |s: SessionView| s.user_id != user_id
}

/// Challenges are told apart by their identifier.
pub open spec fn named_ctf(id: Seq<char>) -> spec_fn(CtfView) -> bool {
    |c: CtfView| c.id == id
}

pub open spec fn users_view(v: Seq<User>) -> Seq<UserView> {
    v.map_values(|u: User| u@)
}

pub open spec fn sessions_view(v: Seq<Session>) -> Seq<SessionView> {
    v.map_values(|s: Session| s@)
}

pub open spec fn ctfs_view(v: Seq<Ctf>) -> Seq<CtfView> {
    v.map_values(|c: Ctf| c@)
}

/// The text that lists the challenges: for each, in order, its identifier,
/// a colon and a space, its objective and a line break.
pub open spec fn ctf_listing(ctfs: Seq<CtfView>) -> Seq<char>
    decreases ctfs.len(),
{
    if ctfs.len() == 0 {
        Seq::empty()
    } else {
        ctf_listing(ctfs.drop_last()) + ctfs.last().id + ": "@ + ctfs.last().objective + "\n"@
    }
}

/// `users` with the first player called `id` marked as playing or not.
pub open spec fn set_ongoing(users: Seq<UserView>, id: Seq<char>, ongoing: bool) -> Seq<UserView> {
    match first_index(users, named_user(id)) {
        Some(i) => users.update(i, UserView { id: users[i].id, ongoing }),
        None => users,
    }
}

/// The state of one guild as values.
pub struct ManagerView {
    pub guild: Seq<char>,
    pub sessions: Seq<SessionView>,
    pub users: Seq<UserView>,
    pub ctfs: Seq<CtfView>,
}

impl ManagerView {
    /// The first player registered under `id`.
    pub open spec fn find_user(self, id: Seq<char>) -> Option<UserView> {
        first_of(self.users, named_user(id))
    }

    /// The first session of the player `user_id`.
    pub open spec fn find_session(self, user_id: Seq<char>) -> Option<SessionView> {
        first_of(self.sessions, session_of(user_id))
    }

    /// The first challenge of the catalogue with identifier `id`.
    pub open spec fn find_ctf(self, id: Seq<char>) -> Option<CtfView> {
        first_of(self.ctfs, named_ctf(id))
    }

    pub open spec fn knows_user(self, id: Seq<char>) -> bool {
        exists|i: int| 0 <= i < self.users.len() && #[trigger] self.users[i].id == id
    }

    pub open spec fn knows_ctf(self, id: Seq<char>) -> bool {
        exists|c: int| 0 <= c < self.ctfs.len() && #[trigger] self.ctfs[c].id == id
    }

    pub open spec fn has_session(self, user_id: Seq<char>) -> bool {
        exists|k: int| 0 <= k < self.sessions.len() && #[trigger] self.sessions[k].user_id == user_id
    }

    pub open spec fn with_user(self, u: UserView) -> ManagerView {
        ManagerView { users: self.users.push(u), ..self }
    }

    pub open spec fn with_session(self, s: SessionView) -> ManagerView {
        ManagerView {
            users: set_ongoing(self.users, s.user_id, true),
            sessions: self.sessions.push(s),
            ..self
        }
    }

    pub open spec fn without_sessions_of(self, user_id: Seq<char>) -> ManagerView {
        ManagerView {
            users: set_ongoing(self.users, user_id, false),
            sessions: self.sessions.filter(session_not_of(user_id)),
            ..self
        }
    }

    /// The player a command is run for, and the state after it: the player
    /// registered under `id`, or else a new player, not playing, who is added.
    pub open spec fn validate_user(self, id: Seq<char>) -> (ManagerView, UserView) {
        match self.find_user(id) {
            Some(u) => (self, u),
            None => {
                let u = UserView { id, ongoing: false };
                (self.with_user(u), u)
            },
        }
    }

    /// The guild's state is consistent: players are registered once, every
    /// session belongs to a registered player and to a challenge of the
    /// catalogue, and a player is marked as playing exactly when a session of
    /// theirs exists.
    pub open spec fn wf(self) -> bool {
        &&& forall|i: int, j: int|
            0 <= i < j < self.users.len() ==> #[trigger] self.users[i].id != #[trigger] self.users[j].id
        &&& forall|k: int|
            0 <= k < self.sessions.len() ==> self.knows_user(#[trigger] self.sessions[k].user_id)
                && self.knows_ctf(self.sessions[k].ctf_id)
        &&& forall|i: int|
            0 <= i < self.users.len() ==> (#[trigger] self.users[i].ongoing <==> self.has_session(
                self.users[i].id,
            ))
    }
}

/// The state the bot keeps for one guild.
pub struct Manager {
    pub guild: String,
    pub(crate) sessions: Vec<Session>,
    pub(crate) users: Vec<User>,
    pub(crate) ctfs: Arc<Vec<Ctf>>,
}

impl View for Manager {
    type V = ManagerView;

    closed spec fn view(&self) -> ManagerView {
        ManagerView {
            guild: self.guild@,
            sessions: sessions_view(self.sessions@),
            users: users_view(self.users@),
            ctfs: ctfs_view(self.ctfs@),
        }
    }
}

/// The guild of a state as values is the guild it names.
pub(crate) broadcast proof fn lemma_manager_guild(m: Manager)
    ensures
        #[trigger] m@.guild == m.guild@,
{
}

pub proof fn lemma_find_user(m: ManagerView, id: Seq<char>)
    ensures
        m.knows_user(id) <==> m.find_user(id) is Some,
        m.find_user(id) matches Some(u) ==> u.id == id,
{
    if m.knows_user(id) {
        let i = choose|i: int| 0 <= i < m.users.len() && #[trigger] m.users[i].id == id;
        lemma_first_exists(m.users, named_user(id), i);
    } else {
        lemma_first_none(m.users, named_user(id));
    }
    if let Some(k) = first_index(m.users, named_user(id)) {
        assert(is_first(m.users, named_user(id), k));
    }
}

pub proof fn lemma_find_ctf(m: ManagerView, id: Seq<char>)
    ensures
        m.knows_ctf(id) <==> m.find_ctf(id) is Some,
        m.find_ctf(id) matches Some(c) ==> c.id == id,
{
    if m.knows_ctf(id) {
        let i = choose|i: int| 0 <= i < m.ctfs.len() && #[trigger] m.ctfs[i].id == id;
        lemma_first_exists(m.ctfs, named_ctf(id), i);
    } else {
        lemma_first_none(m.ctfs, named_ctf(id));
    }
    if let Some(k) = first_index(m.ctfs, named_ctf(id)) {
        assert(is_first(m.ctfs, named_ctf(id), k));
    }
}

pub proof fn lemma_find_session(m: ManagerView, user_id: Seq<char>)
    ensures
        m.has_session(user_id) <==> m.find_session(user_id) is Some,
        m.find_session(user_id) matches Some(s) ==> s.user_id == user_id
            && exists|k: int| 0 <= k < m.sessions.len() && m.sessions[k] == s,
{
    if m.has_session(user_id) {
        let i = choose|i: int| 0 <= i < m.sessions.len() && #[trigger] m.sessions[i].user_id == user_id;
        lemma_first_exists(m.sessions, session_of(user_id), i);
    } else {
        lemma_first_none(m.sessions, session_of(user_id));
    }
    if let Some(k) = first_index(m.sessions, session_of(user_id)) {
        assert(is_first(m.sessions, session_of(user_id), k));
    }
}

/// In a consistent guild, the player found under an identifier is the one
/// player registered under it.
pub proof fn lemma_unique_user(m: ManagerView, id: Seq<char>, j: int)
    requires
        m.wf(),
        0 <= j < m.users.len(),
        m.users[j].id == id,
    ensures
        first_index(m.users, named_user(id)) == Some(j),
{
    assert(is_first(m.users, named_user(id), j)) by {
        assert forall|k: int| 0 <= k < j implies !named_user(id)(#[trigger] m.users[k]) by {
            assert(m.users[k].id != m.users[j].id);
        }
    }
    lemma_first_at(m.users, named_user(id), j);
}


impl Manager {
    /// A guild with no player yet, offering the challenges of `registry`.
    pub fn new(guild: String, registry: &Arc<Vec<Ctf>>) -> (m: Manager)
        ensures
            m@ == (ManagerView {
                guild: guild@,
                sessions: Seq::empty(),
                users: Seq::empty(),
                ctfs: ctfs_view(registry@),
            }),
            m@.wf(),
    {
        let m = Manager { guild, sessions: Vec::new(), users: Vec::new(), ctfs: share(registry) };
        assert(m@.sessions =~= Seq::empty());
        assert(m@.users =~= Seq::empty());
        m
    }

    /// The position of the first player registered under `id`.
    fn user_index(&self, id: &str) -> (r: Option<usize>)
        ensures
            r matches Some(i) ==> first_index(self@.users, named_user(id@)) == Some(i as int)
                && i < self.users@.len(),
            r is None ==> first_index(self@.users, named_user(id@)) is None,
    {
        let mut i: usize = 0;
        while i < self.users.len()
            invariant
                i <= self.users@.len(),
                self@.users.len() == self.users@.len(),
                forall|j: int| 0 <= j < i ==> !named_user(id@)(#[trigger] self@.users[j]),
            decreases self.users@.len() - i,
        {
            if str_eq(self.users[i].id.as_str(), id) {
                proof {
                    assert(self@.users[i as int] == self.users@[i as int]@);
                    lemma_first_at(self@.users, named_user(id@), i as int);
                }
                return Some(i);
            }
            assert(self@.users[i as int] == self.users@[i as int]@);
            i += 1;
        }
        proof {
            lemma_first_none(self@.users, named_user(id@));
        }
        None
    }

    /// The first player registered under `id`, if there is one.
    pub fn id_user(&self, id: &str) -> (r: Option<&User>)
        ensures
            r matches Some(u) ==> self@.find_user(id@) == Some(u@),
            r is None ==> self@.find_user(id@) is None,
    {
        match self.user_index(id) {
            Some(i) => {
                assert(self@.users[i as int] == self.users@[i as int]@);
                Some(&self.users[i])
            },
            None => None,
        }
    }

    /// The position of the first session of the player `user_id`.
    fn session_index(&self, user_id: &str) -> (r: Option<usize>)
        ensures
            r matches Some(i) ==> first_index(self@.sessions, session_of(user_id@)) == Some(i as int)
                && i < self.sessions@.len(),
            r is None ==> first_index(self@.sessions, session_of(user_id@)) is None,
    {
        let mut i: usize = 0;
        while i < self.sessions.len()
            invariant
                i <= self.sessions@.len(),
                self@.sessions.len() == self.sessions@.len(),
                forall|j: int| 0 <= j < i ==> !session_of(user_id@)(#[trigger] self@.sessions[j]),
            decreases self.sessions@.len() - i,
        {
            if str_eq(self.sessions[i].user_id.as_str(), user_id) {
                proof {
                    assert(self@.sessions[i as int] == self.sessions@[i as int]@);
                    lemma_first_at(self@.sessions, session_of(user_id@), i as int);
                }
                return Some(i);
            }
            assert(self@.sessions[i as int] == self.sessions@[i as int]@);
            i += 1;
        }
        proof {
            lemma_first_none(self@.sessions, session_of(user_id@));
        }
        None
    }

    /// The first session of `user`, if there is one.
    pub fn id_session(&self, user: &User) -> (r: Option<&Session>)
        ensures
            r matches Some(s) ==> self@.find_session(user.id@) == Some(s@),
            r is None ==> self@.find_session(user.id@) is None,
    {
        match self.session_index(user.id.as_str()) {
            Some(i) => {
                assert(self@.sessions[i as int] == self.sessions@[i as int]@);
                Some(&self.sessions[i])
            },
            None => None,
        }
    }

    /// The challenge of the catalogue that `sess` runs, if the catalogue has it.
    pub fn id_ctf(&self, sess: &Session) -> (r: Option<&Ctf>)
        ensures
            r matches Some(c) ==> self@.find_ctf(sess.ctf_id@) == Some(c@),
            r is None ==> self@.find_ctf(sess.ctf_id@) is None,
    {
        let ctfs: &Vec<Ctf> = &self.ctfs;
        let mut i: usize = 0;
        while i < ctfs.len()
            invariant
                ctfs@ == self.ctfs@,
                i <= ctfs@.len(),
                self@.ctfs.len() == ctfs@.len(),
                forall|j: int| 0 <= j < i ==> !named_ctf(sess.ctf_id@)(#[trigger] self@.ctfs[j]),
            decreases ctfs@.len() - i,
        {
            assert(self@.ctfs[i as int] == ctfs@[i as int]@);
            if str_eq(ctfs[i].id.as_str(), sess.ctf_id.as_str()) {
                proof {
                    lemma_first_at(self@.ctfs, named_ctf(sess.ctf_id@), i as int);
                }
                return Some(&ctfs[i]);
            }
            i += 1;
        }
        proof {
            lemma_first_none(self@.ctfs, named_ctf(sess.ctf_id@));
        }
        None
    }

    /// The text that lists the challenges of the catalogue.
    pub fn list_ctf(&self) -> (r: String)
        ensures
            r@ == ctf_listing(self@.ctfs),
    {
        let ctfs: &Vec<Ctf> = &self.ctfs;
        let mut out = String::new();
        let mut i: usize = 0;
        while i < ctfs.len()
            invariant
                ctfs@ == self.ctfs@,
                i <= ctfs@.len(),
                self@.ctfs.len() == ctfs@.len(),
                out@ == ctf_listing(self@.ctfs.take(i as int)),
            decreases ctfs@.len() - i,
        {
            out.append(ctfs[i].id.as_str());
            out.append(": ");
            out.append(ctfs[i].objective.as_str());
            out.append("\n");
            proof {
                let t = self@.ctfs.take(i + 1);
                assert(t.drop_last() =~= self@.ctfs.take(i as int));
                assert(t.last() == ctfs@[i as int]@);
            }
            i += 1;
        }
        assert(self@.ctfs.take(i as int) =~= self@.ctfs);
        out
    }
}

impl Manager {
    /// Registers a player.
    pub fn add_user(&mut self, user: User)
        ensures
            final(self)@ == old(self)@.with_user(user@),
            old(self)@.wf() && !old(self)@.knows_user(user.id@) && !user.ongoing ==> final(self)@.wf(),
    {
        let ghost u = user@;
        self.users.push(user);
        proof {
            assert(self@.users =~= old(self)@.users.push(u));
            assert(self@ == old(self)@.with_user(u));
            if old(self)@.wf() && !old(self)@.knows_user(u.id) && !u.ongoing {
                lemma_with_user_wf(old(self)@, u);
            }
        }
    }

    /// Records the session of a registered player and marks the player as playing.
    pub fn add_session(&mut self, session: Session)
        requires
            old(self)@.knows_user(session.user_id@),
        ensures
            final(self)@ == old(self)@.with_session(session@),
            old(self)@.wf() && old(self)@.knows_ctf(session.ctf_id@) ==> final(self)@.wf(),
    {
        let ghost s = session@;
        proof {
            lemma_find_user(self@, session.user_id@);
        }
        let i = match self.user_index(session.user_id.as_str()) {
            Some(i) => i,
            None => {
                assert(false);
                0
            },
        };
        let updated = User { id: self.users[i].id.clone(), ongoing: true };
        self.users.set(i, updated);
        self.sessions.push(session);
        proof {
            let o = old(self)@;
            assert(self@.users =~= set_ongoing(o.users, s.user_id, true));
            assert(self@.sessions =~= o.sessions.push(s));
            assert(self@ == o.with_session(s));
            if o.wf() && o.knows_ctf(s.ctf_id) {
                lemma_with_session_wf(o, s);
            }
        }
    }

    /// Drops the sessions of a registered player and marks the player as not playing.
    pub fn remove_session(&mut self, user: &User)
        requires
            old(self)@.knows_user(user.id@),
        ensures
            final(self)@ == old(self)@.without_sessions_of(user.id@),
            old(self)@.wf() ==> final(self)@.wf(),
    {
        let ghost o = self@;
        let ghost p = session_not_of(user.id@);
        let mut kept: Vec<Session> = Vec::new();
        let mut k: usize = 0;
        while k < self.sessions.len()
            invariant
                self@ == o,
                p == session_not_of(user.id@),
                k <= self.sessions@.len(),
                o.sessions.len() == self.sessions@.len(),
                sessions_view(kept@) == o.sessions.take(k as int).filter(p),
            decreases self.sessions@.len() - k,
        {
            let keep = !str_eq(self.sessions[k].user_id.as_str(), user.id.as_str());
            proof {
                assert(o.sessions[k as int] == self.sessions@[k as int]@);
                assert(o.sessions.take(k + 1) =~= o.sessions.take(k as int).push(o.sessions[k as int]));
                o.sessions.take(k as int).lemma_filter_push(o.sessions[k as int], p);
                assert(p(o.sessions[k as int]) == keep);
            }
            if keep {
                let c = self.sessions[k].clone();
                let ghost before = kept@;
                kept.push(c);
                assert(sessions_view(kept@) =~= sessions_view(before).push(c@));
            }
            k += 1;
        }
        assert(o.sessions.take(k as int) =~= o.sessions);
        self.sessions = kept;
        proof {
            lemma_find_user(o, user.id@);
        }
        let i = match self.user_index(user.id.as_str()) {
            Some(i) => i,
            None => {
                assert(false);
                0
            },
        };
        let updated = User { id: self.users[i].id.clone(), ongoing: false };
        self.users.set(i, updated);
        proof {
            assert(self@.users =~= set_ongoing(o.users, user.id@, false));
            assert(self@ == o.without_sessions_of(user.id@));
            if o.wf() {
                lemma_without_sessions_wf(o, user.id@);
            }
        }
    }

    /// Whether `flag` is the flag of the challenge that `user` is running.
    pub fn check_flag(&self, flag: &String, user: &User) -> (r: bool)
        requires
            self@.find_session(user.id@) matches Some(s) && self@.find_ctf(s.ctf_id) is Some,
        ensures
            r == (flag@ == self@.find_ctf(self@.find_session(user.id@)->0.ctf_id)->0.flag),
    {
        let sess = self.id_session(user).unwrap();
        let ctf = self.id_ctf(sess).unwrap();
        *flag == ctf.flag
    }
}

/// The player `validate_user` gives is the one then registered under the identifier.
pub proof fn lemma_validated_user_found(m: ManagerView, id: Seq<char>)
    ensures
        m.validate_user(id).0.find_user(id) == Some(m.validate_user(id).1),
        m.validate_user(id).1.id == id,
        m.validate_user(id).0.knows_user(id),
        m.validate_user(id).0.guild == m.guild,
        m.validate_user(id).0.ctfs == m.ctfs,
        m.validate_user(id).0.sessions == m.sessions,
{
    lemma_find_user(m, id);
    let (m1, u) = m.validate_user(id);
    if m.find_user(id) is None {
        let n = m.users.len() as int;
        assert forall|j: int| 0 <= j < n implies !named_user(id)(#[trigger] m1.users[j]) by {
            assert(m1.users[j] == m.users[j]);
            if m.users[j].id == id {
                assert(m.knows_user(id));
            }
        }
        assert(is_first(m1.users, named_user(id), n));
        lemma_first_at(m1.users, named_user(id), n);
    }
    lemma_find_user(m1, id);
}

/// Looking up a player twice is looking them up once: the second lookup
/// finds the player the first one gave and changes nothing.
pub proof fn lemma_validate_user_idempotent(m: ManagerView, id: Seq<char>)
    ensures
        m.validate_user(id).0.validate_user(id) == m.validate_user(id),
{
    lemma_validated_user_found(m, id);
}

/// In a consistent guild, a player marked as playing has a session, on a
/// challenge of the catalogue.
pub proof fn lemma_ongoing_user_has_challenge(m: ManagerView, id: Seq<char>)
    requires
        m.wf(),
        m.find_user(id) matches Some(u) && u.ongoing,
    ensures
        m.find_session(id) matches Some(s) && m.find_ctf(s.ctf_id) is Some,
{
    lemma_find_user(m, id);
    let i = first_index(m.users, named_user(id))->0;
    assert(is_first(m.users, named_user(id), i));
    assert(m.users[i].ongoing);
    assert(m.has_session(m.users[i].id));
    lemma_find_session(m, id);
    let s = m.find_session(id)->0;
    let k = choose|k: int| 0 <= k < m.sessions.len() && m.sessions[k] == s;
    assert(m.knows_ctf(m.sessions[k].ctf_id));
    lemma_find_ctf(m, s.ctf_id);
}

/// Stopping undoes starting: in a consistent guild, recording a session for a
/// registered player who is not playing, then dropping that player's sessions,
/// gives back the guild as it was.
pub proof fn lemma_stop_undoes_start(m: ManagerView, s: SessionView)
    requires
        m.wf(),
        m.find_user(s.user_id) matches Some(u) && !u.ongoing,
    ensures
        m.with_session(s).without_sessions_of(s.user_id) == m,
{
    broadcast use vstd::seq_lib::group_filter_ensures;

    let id = s.user_id;
    lemma_find_user(m, id);
    let i = first_index(m.users, named_user(id))->0;
    assert(is_first(m.users, named_user(id), i));
    let m1 = m.with_session(s);
    let m2 = m1.without_sessions_of(id);
    // the players: the same identifiers, so the same player is found again
    assert forall|j: int| 0 <= j < i implies !named_user(id)(#[trigger] m1.users[j]) by {
        assert(m1.users[j] == m.users[j]);
    }
    assert(is_first(m1.users, named_user(id), i));
    lemma_first_at(m1.users, named_user(id), i);
    assert(m2.users =~= m.users);
    // the sessions: none was the player's before, and the new one is dropped
    assert(!m.has_session(id));
    assert forall|k: int| 0 <= k < m.sessions.len() implies session_not_of(id)(#[trigger] m.sessions[k]) by {
        if m.sessions[k].user_id == id {
            assert(m.has_session(id));
        }
    }
    m.sessions.lemma_filter_push(s, session_not_of(id));
    lemma_filter_keeps_all(m.sessions, session_not_of(id));
    assert(m2.sessions == m.sessions);
}

/// Filtering with a predicate that every element satisfies keeps the sequence.
pub proof fn lemma_filter_keeps_all<A>(s: Seq<A>, p: spec_fn(A) -> bool)
    requires
        forall|k: int| 0 <= k < s.len() ==> p(#[trigger] s[k]),
    ensures
        s.filter(p) == s,
    decreases s.len(),
{
    reveal(Seq::filter);
    if s.len() > 0 {
        let t = s.drop_last();
        assert forall|k: int| 0 <= k < t.len() implies p(#[trigger] t[k]) by {
            assert(t[k] == s[k]);
        }
        lemma_filter_keeps_all(t, p);
        assert(p(s[s.len() - 1]));
        assert(s.filter(p) =~= s);
    }
}

/// In a consistent guild, once a player who was not playing starts a
/// challenge, the session found for them is the one just recorded, so flags
/// are checked against that challenge.
pub proof fn lemma_started_session_found(m: ManagerView, s: SessionView)
    requires
        m.wf(),
        m.find_user(s.user_id) matches Some(u) && !u.ongoing,
    ensures
        m.with_session(s).find_session(s.user_id) == Some(s),
{
    let id = s.user_id;
    lemma_find_user(m, id);
    let i = first_index(m.users, named_user(id))->0;
    assert(is_first(m.users, named_user(id), i));
    assert(!m.has_session(id));
    let n = m.with_session(s);
    let len = m.sessions.len() as int;
    assert forall|k: int| 0 <= k < len implies !session_of(id)(#[trigger] n.sessions[k]) by {
        assert(n.sessions[k] == m.sessions[k]);
        if m.sessions[k].user_id == id {
            assert(m.has_session(id));
        }
    }
    lemma_first_at(n.sessions, session_of(id), len);
}

/// The line that lists one challenge: its full identifier, a colon and a
/// space, its objective, and a line break.
pub proof fn lemma_listing_single(c: CtfView)
    ensures
        ctf_listing(seq![c]) == c.id + ": "@ + c.objective + "\n"@,
{
    assert(seq![c].drop_last() =~= Seq::<CtfView>::empty());
    assert(ctf_listing(Seq::<CtfView>::empty()) == Seq::<char>::empty());
    assert(seq![c].last() == c);
    assert(Seq::<char>::empty() + c.id =~= c.id);
}

/// Listing two catalogues one after the other lists the first, then the
/// second: the listing is made of one line per challenge, in order.
pub proof fn lemma_listing_concat(a: Seq<CtfView>, b: Seq<CtfView>)
    ensures
        ctf_listing(a + b) == ctf_listing(a) + ctf_listing(b),
    decreases b.len(),
{
    if b.len() == 0 {
        assert(a + b =~= a);
        assert(ctf_listing(a) + Seq::<char>::empty() =~= ctf_listing(a));
    } else {
        let c = b.last();
        assert((a + b).drop_last() =~= a + b.drop_last());
        assert((a + b).last() == c);
        lemma_listing_concat(a, b.drop_last());
        let l = c.id + ": "@ + c.objective + "\n"@;
        assert(ctf_listing(a + b) == ctf_listing(a + b.drop_last()) + l);
        assert(ctf_listing(b) == ctf_listing(b.drop_last()) + l);
        assert(ctf_listing(a) + ctf_listing(b.drop_last()) + l =~= ctf_listing(a) + (ctf_listing(
            b.drop_last(),
        ) + l));
    }
}

/// The listing of a catalogue holds, after the lines of the challenges before
/// position `i`, the line of challenge `i` with its full identifier and
/// objective, then the lines of the challenges after it.
pub proof fn lemma_listing_line(s: Seq<CtfView>, i: int)
    requires
        0 <= i < s.len(),
    ensures
        ctf_listing(s) == ctf_listing(s.take(i)) + (s[i].id + ": "@ + s[i].objective + "\n"@)
            + ctf_listing(s.skip(i + 1)),
{
    assert(s =~= s.take(i) + seq![s[i]] + s.skip(i + 1));
    lemma_listing_concat(s.take(i) + seq![s[i]], s.skip(i + 1));
    lemma_listing_concat(s.take(i), seq![s[i]]);
    lemma_listing_single(s[i]);
}

/// A session of a consistent guild still belongs to a registered player and to
/// a challenge of the catalogue in a state with the same identifiers.
proof fn lemma_session_known(m: ManagerView, n: ManagerView, k: int, k2: int)
    requires
        m.wf(),
        0 <= k < m.sessions.len(),
        0 <= k2 < n.sessions.len(),
        n.sessions[k2] == m.sessions[k],
        n.users.len() >= m.users.len(),
        forall|i: int| 0 <= i < m.users.len() ==> #[trigger] n.users[i].id == m.users[i].id,
        n.ctfs == m.ctfs,
    ensures
        n.knows_user(n.sessions[k2].user_id),
        n.knows_ctf(n.sessions[k2].ctf_id),
{
    assert(m.knows_user(m.sessions[k].user_id));
    let i = choose|i: int| 0 <= i < m.users.len() && #[trigger] m.users[i].id == m.sessions[k].user_id;
    assert(n.users[i].id == m.users[i].id);
    assert(m.knows_ctf(m.sessions[k].ctf_id));
    let c = choose|c: int| 0 <= c < m.ctfs.len() && #[trigger] m.ctfs[c].id == m.sessions[k].ctf_id;
    assert(n.ctfs[c].id == m.ctfs[c].id);
}

proof fn lemma_same_sessions(m: ManagerView, n: ManagerView, id: Seq<char>)
    requires
        n.sessions == m.sessions,
    ensures
        n.has_session(id) == m.has_session(id),
{
    if m.has_session(id) {
        let k = choose|k: int| 0 <= k < m.sessions.len() && #[trigger] m.sessions[k].user_id == id;
        assert(n.sessions[k].user_id == id);
    }
    if n.has_session(id) {
        let k = choose|k: int| 0 <= k < n.sessions.len() && #[trigger] n.sessions[k].user_id == id;
        assert(m.sessions[k].user_id == id);
    }
}

/// Registering a new player who is not playing keeps a guild consistent.
pub proof fn lemma_with_user_wf(m: ManagerView, u: UserView)
    requires
        m.wf(),
        !m.knows_user(u.id),
        !u.ongoing,
    ensures
        m.with_user(u).wf(),
{
    let n = m.with_user(u);
    assert forall|i: int, j: int| 0 <= i < j < n.users.len() implies #[trigger] n.users[i].id
        != #[trigger] n.users[j].id by {
        if j == m.users.len() {
            assert(m.users[i].id != u.id);
        } else {
            assert(m.users[i].id != m.users[j].id);
        }
    }
    assert forall|k: int| 0 <= k < n.sessions.len() implies n.knows_user(
        #[trigger] n.sessions[k].user_id,
    ) && n.knows_ctf(n.sessions[k].ctf_id) by {
        lemma_session_known(m, n, k, k);
    }
    assert forall|i: int| 0 <= i < n.users.len() implies (#[trigger] n.users[i].ongoing
        <==> n.has_session(n.users[i].id)) by {
        if i == m.users.len() {
            if n.has_session(u.id) {
                let k = choose|k: int| 0 <= k < n.sessions.len() && #[trigger] n.sessions[k].user_id == u.id;
                assert(m.knows_user(m.sessions[k].user_id));
            }
        } else {
            assert(n.users[i] == m.users[i]);
            lemma_same_sessions(m, n, m.users[i].id);
        }
    }
}

/// Recording a session of a registered player on a challenge of the
/// catalogue keeps a guild consistent.
pub proof fn lemma_with_session_wf(m: ManagerView, s: SessionView)
    requires
        m.wf(),
        m.knows_user(s.user_id),
        m.knows_ctf(s.ctf_id),
    ensures
        m.with_session(s).wf(),
{
    let n = m.with_session(s);
    lemma_find_user(m, s.user_id);
    let i0 = first_index(m.users, named_user(s.user_id))->0;
    assert(is_first(m.users, named_user(s.user_id), i0));
    assert(n.users.len() == m.users.len());
    assert forall|k: int| 0 <= k < n.users.len() implies #[trigger] n.users[k].id == m.users[k].id by {}
    assert forall|i: int, j: int| 0 <= i < j < n.users.len() implies #[trigger] n.users[i].id
        != #[trigger] n.users[j].id by {
        assert(m.users[i].id != m.users[j].id);
    }
    assert forall|k: int| 0 <= k < n.sessions.len() implies n.knows_user(
        #[trigger] n.sessions[k].user_id,
    ) && n.knows_ctf(n.sessions[k].ctf_id) by {
        if k < m.sessions.len() {
            assert(n.sessions[k] == m.sessions[k]);
            lemma_session_known(m, n, k, k);
        } else {
            let i = choose|i: int| 0 <= i < m.users.len() && #[trigger] m.users[i].id == s.user_id;
            assert(n.users[i].id == m.users[i].id);
            let c = choose|c: int| 0 <= c < m.ctfs.len() && #[trigger] m.ctfs[c].id == s.ctf_id;
            assert(n.ctfs[c].id == m.ctfs[c].id);
        }
    }
    assert forall|j: int| 0 <= j < n.users.len() implies (#[trigger] n.users[j].ongoing
        <==> n.has_session(n.users[j].id)) by {
        if m.users[j].id == s.user_id {
            lemma_unique_user(m, s.user_id, j);
            assert(n.sessions[m.sessions.len() as int].user_id == s.user_id);
        } else {
            assert(n.users[j] == m.users[j]);
            if m.has_session(m.users[j].id) {
                let k = choose|k: int| 0 <= k < m.sessions.len() && #[trigger] m.sessions[k].user_id == m.users[j].id;
                assert(n.sessions[k] == m.sessions[k]);
            }
            if n.has_session(n.users[j].id) {
                let k = choose|k: int| 0 <= k < n.sessions.len() && #[trigger] n.sessions[k].user_id == n.users[j].id;
                assert(m.sessions[k] == n.sessions[k]);
            }
        }
    }
}

/// Dropping the sessions of a registered player and marking them as not
/// playing keeps a guild consistent.
pub proof fn lemma_without_sessions_wf(m: ManagerView, id: Seq<char>)
    requires
        m.wf(),
        m.knows_user(id),
    ensures
        m.without_sessions_of(id).wf(),
{
    broadcast use vstd::seq_lib::group_filter_ensures;
    broadcast use vstd::seq::Seq::lemma_filter_contains_rev;

    let n = m.without_sessions_of(id);
    let p = session_not_of(id);
    lemma_find_user(m, id);
    let i0 = first_index(m.users, named_user(id))->0;
    assert(is_first(m.users, named_user(id), i0));
    assert(n.users.len() == m.users.len());
    assert forall|k: int| 0 <= k < n.users.len() implies #[trigger] n.users[k].id == m.users[k].id by {}
    assert forall|i: int, j: int| 0 <= i < j < n.users.len() implies #[trigger] n.users[i].id
        != #[trigger] n.users[j].id by {
        assert(m.users[i].id != m.users[j].id);
    }
    assert forall|k: int| 0 <= k < n.sessions.len() implies n.knows_user(
        #[trigger] n.sessions[k].user_id,
    ) && n.knows_ctf(n.sessions[k].ctf_id) by {
        assert(n.sessions.contains(n.sessions[k]));
        assert(m.sessions.contains(n.sessions[k]));
        let k2 = choose|k2: int| 0 <= k2 < m.sessions.len() && m.sessions[k2] == n.sessions[k];
        lemma_session_known(m, n, k2, k);
    }
    assert forall|j: int| 0 <= j < n.users.len() implies (#[trigger] n.users[j].ongoing
        <==> n.has_session(n.users[j].id)) by {
        if m.users[j].id == id {
            lemma_unique_user(m, id, j);
            if n.has_session(id) {
                let k = choose|k: int| 0 <= k < n.sessions.len() && #[trigger] n.sessions[k].user_id == id;
                assert(p(n.sessions[k]));
            }
        } else {
            assert(n.users[j] == m.users[j]);
            let uid = m.users[j].id;
            if m.has_session(uid) {
                let k = choose|k: int| 0 <= k < m.sessions.len() && #[trigger] m.sessions[k].user_id == uid;
                assert(p(m.sessions[k]));
                assert(n.sessions.contains(m.sessions[k]));
            }
            if n.has_session(uid) {
                let k = choose|k: int| 0 <= k < n.sessions.len() && #[trigger] n.sessions[k].user_id == uid;
                assert(n.sessions.contains(n.sessions[k]));
                assert(m.sessions.contains(n.sessions[k]));
            }
        }
    }
}

} // verus!
