//! The bot: the catalogue, the state of every guild it serves, and its controller.
use vstd::prelude::*;
use std::sync::Arc;
use crate::models::{Ctf, CtfView, User, UserView};
use crate::manager::{Manager, ManagerView, ctfs_view, lemma_find_user, lemma_manager_guild, lemma_validated_user_found, lemma_validate_user_idempotent};
use crate::controller::{Controller, ControllerView};
use crate::search::{first_index, first_of, is_first, lemma_first_at, lemma_first_exists, lemma_first_none};
use crate::text::str_eq;

verus! {

broadcast use lemma_manager_guild;

/// Guilds are told apart by their identifier.
pub open spec fn guild_named(guild: Seq<char>) -> spec_fn(ManagerView) -> bool {
    |m: ManagerView| m.guild == guild
}

pub open spec fn managers_view(v: Seq<Manager>) -> Seq<ManagerView> {
    v.map_values(|m: Manager| m@)
}

/// The bot as values.
pub struct BotView {
    pub ctfs: Seq<CtfView>,
    pub managers: Seq<ManagerView>,
    pub control: ControllerView,
}

impl BotView {
    /// The position of the first state kept for guild `guild`.
    pub open spec fn manager_index(self, guild: Seq<char>) -> Option<int> {
        first_index(self.managers, guild_named(guild))
    }

    /// The first state kept for guild `guild`.
    pub open spec fn find_manager(self, guild: Seq<char>) -> Option<ManagerView> {
        first_of(self.managers, guild_named(guild))
    }

    pub open spec fn has_manager(self, guild: Seq<char>) -> bool {
        exists|i: int| 0 <= i < self.managers.len() && #[trigger] self.managers[i].guild == guild
    }

    /// The bot once it also keeps a fresh state for guild `guild`.
    pub open spec fn with_manager(self, guild: Seq<char>) -> BotView {
        BotView {
            managers: self.managers.push(
                ManagerView { guild, sessions: Seq::empty(), users: Seq::empty(), ctfs: self.ctfs },
            ),
            ..self
        }
    }

    /// The bot once the state of guild `guild` is replaced by `m`.
    pub open spec fn with_guild_state(self, guild: Seq<char>, m: ManagerView) -> BotView {
        match self.manager_index(guild) {
            Some(i) => BotView { managers: self.managers.update(i, m), ..self },
            None => self,
        }
    }

    /// The player a command of guild `guild` is run for, and the bot after it:
    /// see [`ManagerView::validate_user`].
    pub open spec fn validate_user(self, guild: Seq<char>, user_id: Seq<char>) -> (BotView, UserView) {
        let (m, u) = self.find_manager(guild)->0.validate_user(user_id);
        (self.with_guild_state(guild, m), u)
    }

    /// Every guild's state is consistent and offers the bot's catalogue.
    pub open spec fn wf(self) -> bool {
        forall|i: int|
            0 <= i < self.managers.len() ==> (#[trigger] self.managers[i]).wf()
                && self.managers[i].ctfs == self.ctfs
    }
}

/// The state kept by the bot for all the commands it runs.
pub struct Bot {
    pub ctfs: Arc<Vec<Ctf>>,
    pub managers: Vec<Manager>,
    pub control: Controller,
}

impl View for Bot {
    type V = BotView;

    open spec fn view(&self) -> BotView {
        BotView { ctfs: ctfs_view(self.ctfs@), managers: managers_view(self.managers@), control: self.control@ }
    }
}

pub proof fn lemma_find_manager(b: BotView, guild: Seq<char>)
    ensures
        b.has_manager(guild) <==> b.manager_index(guild) is Some,
        b.manager_index(guild) matches Some(i) ==> 0 <= i < b.managers.len()
            && b.managers[i].guild == guild && b.find_manager(guild) == Some(b.managers[i]),
{
    if b.has_manager(guild) {
        let i = choose|i: int| 0 <= i < b.managers.len() && #[trigger] b.managers[i].guild == guild;
        lemma_first_exists(b.managers, guild_named(guild), i);
    } else {
        lemma_first_none(b.managers, guild_named(guild));
    }
    if let Some(k) = first_index(b.managers, guild_named(guild)) {
        assert(is_first(b.managers, guild_named(guild), k));
    }
}

/// After a player is looked up in a guild, the guild's state is still found at
/// the same place, and it registers that player.
pub proof fn lemma_validated_user(b: BotView, guild: Seq<char>, id: Seq<char>)
    requires
        b.has_manager(guild),
    ensures
        ({
            let (b1, u) = b.validate_user(guild, id);
            &&& b1.has_manager(guild)
            &&& b1.manager_index(guild) == b.manager_index(guild)
            &&& b1.find_manager(guild) == Some(b.find_manager(guild)->0.validate_user(id).0)
            &&& b1.find_manager(guild)->0.find_user(id) == Some(u)
            &&& b1.find_manager(guild)->0.knows_user(id)
            &&& u.id == id
            &&& b1.ctfs == b.ctfs
            &&& b1.managers.len() == b.managers.len()
        }),
{
    lemma_find_manager(b, guild);
    let i = b.manager_index(guild)->0;
    let m = b.managers[i];
    let (b1, u) = b.validate_user(guild, id);
    lemma_validated_user_found(m, id);
    assert(b1.managers == b.managers.update(i, m.validate_user(id).0));
    assert(is_first(b.managers, guild_named(guild), i));
    assert forall|j: int| 0 <= j < i implies !guild_named(guild)(#[trigger] b1.managers[j]) by {
        assert(b1.managers[j] == b.managers[j]);
    }
    assert(is_first(b1.managers, guild_named(guild), i));
    lemma_first_at(b1.managers, guild_named(guild), i);
    lemma_find_manager(b1, guild);
}

/// Looking a player up twice in a guild is looking them up once.
pub proof fn lemma_bot_validate_user_idempotent(b: BotView, guild: Seq<char>, id: Seq<char>)
    requires
        b.has_manager(guild),
    ensures
        b.validate_user(guild, id).0.validate_user(guild, id) == b.validate_user(guild, id),
{
    lemma_validated_user(b, guild, id);
    lemma_find_manager(b, guild);
    let i = b.manager_index(guild)->0;
    let (b1, u) = b.validate_user(guild, id);
    let m1 = b.managers[i].validate_user(id).0;
    lemma_validate_user_idempotent(b.managers[i], id);
    assert(b1.find_manager(guild) == Some(m1));
    assert(b1.managers[i] == m1);
    assert(b1.managers.update(i, m1) =~= b1.managers);
}

/// The bot once it has seen guild `guild`: a fresh state is kept for it unless
/// one already is.
pub open spec fn joined(b: BotView, guild: Seq<char>) -> BotView {
    if b.has_manager(guild) {
        b
    } else {
        b.with_manager(guild)
    }
}

/// Seeing a guild makes the bot keep a state for it: a guild already served
/// keeps its state as it is (its players and their sessions), a new guild gets
/// a fresh state after the others; seeing it again changes nothing.
pub proof fn lemma_joined(b: BotView, guild: Seq<char>)
    ensures
        joined(b, guild).has_manager(guild),
        joined(joined(b, guild), guild) == joined(b, guild),
        b.wf() ==> joined(b, guild).wf(),
        b.has_manager(guild) ==> joined(b, guild) == b,
        !b.has_manager(guild) ==> joined(b, guild).managers == b.managers.push(
            ManagerView { guild, sessions: Seq::empty(), users: Seq::empty(), ctfs: b.ctfs },
        ) && joined(b, guild).ctfs == b.ctfs && joined(b, guild).control == b.control,
{
    let b1 = joined(b, guild);
    if !b.has_manager(guild) {
        assert(b1.managers[b.managers.len() as int].guild == guild);
        if b.wf() {
            assert forall|i: int| 0 <= i < b1.managers.len() implies (#[trigger] b1.managers[i]).wf()
                && b1.managers[i].ctfs == b1.ctfs by {
                if i < b.managers.len() {
                    assert(b1.managers[i] == b.managers[i]);
                } else {
                    let m = b1.managers[i];
                    assert(m.users.len() == 0);
                    assert(m.sessions.len() == 0);
                }
            }
        }
    }
}

impl Bot {
    /// A bot offering `ctfs`, serving no guild yet, running challenges through `control`.
    pub fn new(ctfs: Vec<Ctf>, control: Controller) -> (b: Bot)
        ensures
            b@ == (BotView { ctfs: ctfs_view(ctfs@), managers: Seq::empty(), control: control@ }),
            b@.wf(),
    {
        let b = Bot { ctfs: Arc::new(ctfs), managers: Vec::new(), control };
        assert(b@.managers =~= Seq::empty());
        b
    }

    /// The position of the first state kept for guild `guild_id`.
    fn manager_index(&self, guild_id: &str) -> (r: Option<usize>)
        ensures
            r matches Some(i) ==> self@.manager_index(guild_id@) == Some(i as int)
                && i < self.managers@.len(),
            r is None ==> self@.manager_index(guild_id@) is None,
    {
        let mut i: usize = 0;
        while i < self.managers.len()
            invariant
                i <= self.managers@.len(),
                self@.managers.len() == self.managers@.len(),
                forall|j: int| 0 <= j < i ==> !guild_named(guild_id@)(#[trigger] self@.managers[j]),
            decreases self.managers@.len() - i,
        {
            assert(self@.managers[i as int] == self.managers@[i as int]@);
            if str_eq(self.managers[i].guild.as_str(), guild_id) {
                proof {
                    lemma_first_at(self@.managers, guild_named(guild_id@), i as int);
                }
                return Some(i);
            }
            i += 1;
        }
        proof {
            lemma_first_none(self@.managers, guild_named(guild_id@));
        }
        None
    }

    /// Whether the bot keeps a state for guild `guild_id`.
    pub fn man_exists(&self, guild_id: &str) -> (r: bool)
        ensures
            r == self@.has_manager(guild_id@),
    {
        proof {
            lemma_find_manager(self@, guild_id@);
        }
        self.manager_index(guild_id).is_some()
    }

    /// The state of guild `guild_id`, for a command to change it.
    pub fn man_mut(&mut self, guild_id: &str) -> (m: &mut Manager)
        requires
            old(self)@.has_manager(guild_id@),
        ensures
            old(self)@.manager_index(guild_id@) matches Some(i) && *m == old(self).managers@[i]
                && final(self).managers@ == old(self).managers@.update(i, *final(m)),
            final(self).ctfs == old(self).ctfs,
            final(self).control == old(self).control,
    {
        proof {
            lemma_find_manager(self@, guild_id@);
        }
        let i = match self.manager_index(guild_id) {
            Some(i) => i,
            None => {
                assert(false);
                0
            },
        };
        &mut self.managers[i]
    }
    /// Starts keeping a state for guild `guild_id`.
    pub fn add_manager(&mut self, guild_id: String)
        ensures
            final(self)@ == old(self)@.with_manager(guild_id@),
            old(self)@.wf() ==> final(self)@.wf(),
    {
        let m = Manager::new(guild_id, &self.ctfs);
        let ghost mv = m@;
        self.managers.push(m);
        proof {
            assert(managers_view(self.managers@) =~= managers_view(old(self).managers@).push(mv));
        }
    }

    /// The player `user_id` of guild `guild_id` as registered there, registering
    /// them, not playing, if they are not yet.
    pub fn valid_usr(&mut self, guild_id: &str, user_id: &str) -> (u: User)
        requires
            old(self)@.has_manager(guild_id@),
        ensures
            (final(self)@, u@) == old(self)@.validate_user(guild_id@, user_id@),
            old(self)@.wf() ==> final(self)@.wf(),
    {
        let ghost b0 = self@;
        proof {
            lemma_find_manager(b0, guild_id@);
        }
        let man = self.man_mut(guild_id);
        let ghost m0 = man@;
        let r = match man.id_user(user_id) {
            Some(usr) => usr.clone(),
            None => {
                let some = User::fresh(user_id);
                proof {
                    lemma_find_user(m0, user_id@);
                }
                man.add_user(some.clone());
                some
            },
        };
        proof {
            let i = b0.manager_index(guild_id@)->0;
            assert(m0 == b0.managers[i]);
            assert(self.managers@ == old(self).managers@.update(i, *man));
            assert(managers_view(self.managers@) =~= b0.managers.update(i, man@));
            if b0.wf() {
                assert(b0.managers[i].wf());
                assert forall|j: int| 0 <= j < self@.managers.len() implies (#[trigger] self@.managers[j]).wf()
                    && self@.managers[j].ctfs == self@.ctfs by {
                    if j != i {
                        assert(self@.managers[j] == b0.managers[j]);
                    }
                }
            }
        }
        r
    }

}

} // verus!
