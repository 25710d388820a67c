//! The decisions behind the bot's commands. The application answers the
//! players and talks to the cluster and to the shells; what each command
//! checks, changes and answers is decided here.
use vstd::prelude::*;
use crate::models::{Ctf, Session, User};
use crate::bot::{Bot, BotView, joined, lemma_find_manager, lemma_joined, lemma_validated_user, managers_view};
use crate::manager::{ManagerView, ctf_listing, ctfs_view, named_ctf, lemma_find_user, lemma_ongoing_user_has_challenge};
use crate::search::{first_of, lemma_first_at, lemma_first_none};
use crate::text::{is_white_space, lemma_only_white_space_trims_to_empty, str_eq, without_leading_whitespace};

verus! {

/// Why a command was refused.
pub enum CommandError {
    /// `start` while a challenge is already running for the player.
    AlreadyOngoing,
    /// `start` with an identifier that is not in the catalogue.
    UnrecognizedCtf(String),
    /// `stop` while no challenge runs for the player.
    NothingToStop,
    /// `exec` while no challenge runs for the player.
    NothingToExecute,
    /// `check` while no challenge runs for the player.
    NothingToCheck,
}

impl CommandError {
    /// The text shown for the refusal.
    pub fn message(&self) -> (r: String)
        ensures
            r@ == match self {
                CommandError::AlreadyOngoing => "A ctf is already ongoing"@,
                CommandError::UnrecognizedCtf(id) => "Unrecognized CTF: "@ + id@,
                CommandError::NothingToStop => "No ongoing ctf to stop"@,
                CommandError::NothingToExecute => "No ongoing ctf to execute"@,
                CommandError::NothingToCheck => "No ongoing ctf to check"@,
            },
    {
        match self {
            CommandError::AlreadyOngoing => "A ctf is already ongoing".to_owned(),
            CommandError::UnrecognizedCtf(id) => {
                let mut s = "Unrecognized CTF: ".to_owned();
                s.append(id.as_str());
                s
            },
            CommandError::NothingToStop => "No ongoing ctf to stop".to_owned(),
            CommandError::NothingToExecute => "No ongoing ctf to execute".to_owned(),
            CommandError::NothingToCheck => "No ongoing ctf to check".to_owned(),
        }
    }
}

/// What happened on the gateway.
pub enum BotEvent {
    /// The bot joined, or became able to see, guild `guild_id`.
    GuildCreate { guild_id: String },
    /// Anything else.
    Other,
}

/// The answer to `start`.
pub open spec fn added_session_reply() -> Seq<char> {
    "Added session"@
}

/// The answer to `stop`, once the job is deleted.
pub open spec fn stopped_session_reply() -> Seq<char> {
    "Stopped session"@
}

/// The answer to a correct flag.
pub open spec fn flag_found_reply() -> Seq<char> {
    "Congratulations, you found the flag ! "@
}

/// The answer to a wrong flag.
pub open spec fn flag_wrong_reply() -> Seq<char> {
    "Where did you get this one from buddy? Are we just trying random things?"@
}

/// The answer to `exec`: what the shell printed, or a notice that it printed nothing.
pub open spec fn exec_reply_text(output: Seq<char>) -> Seq<char> {
    if output.len() == 0 {
        "No output."@
    } else {
        output
    }
}

/// The bot after the gateway reported `event`.
pub open spec fn after_event(b: BotView, event: BotEvent) -> BotView {
    match event {
        BotEvent::GuildCreate { guild_id } => joined(b, guild_id@),
        BotEvent::Other => b,
    }
}

/// The first challenge of the catalogue with identifier `id`.
fn catalog_entry<'a>(ctfs: &'a Vec<Ctf>, id: &str) -> (r: Option<&'a Ctf>)
    ensures
        r matches Some(c) ==> first_of(ctfs_view(ctfs@), named_ctf(id@)) == Some(c@),
        r is None ==> first_of(ctfs_view(ctfs@), named_ctf(id@)) is None,
{
    let ghost cs = ctfs_view(ctfs@);
    let mut i: usize = 0;
    while i < ctfs.len()
        invariant
            cs == ctfs_view(ctfs@),
            i <= ctfs@.len(),
            forall|j: int| 0 <= j < i ==> !named_ctf(id@)(#[trigger] cs[j]),
        decreases ctfs@.len() - i,
    {
        assert(cs[i as int] == ctfs@[i as int]@);
        if str_eq(ctfs[i].id.as_str(), id) {
            proof {
                lemma_first_at(cs, named_ctf(id@), i as int);
            }
            return Some(&ctfs[i]);
        }
        i += 1;
    }
    proof {
        lemma_first_none(cs, named_ctf(id@));
    }
    None
}

/// `list`: the catalogue of guild `guild_id`, one challenge per line.
pub fn list(bot: &mut Bot, guild_id: &str) -> (r: String)
    requires
        old(bot)@.has_manager(guild_id@),
    ensures
        final(bot)@ == old(bot)@,
        r@ == ctf_listing(old(bot)@.find_manager(guild_id@)->0.ctfs),
{
    proof {
        lemma_find_manager(bot@, guild_id@);
    }
    let man = bot.man_mut(guild_id);
    let response = man.list_ctf();
    proof {
        assert(managers_view(bot.managers@) =~= managers_view(old(bot).managers@));
    }
    response
}

/// `start`, before the cluster is asked for anything: the challenge to run
/// for player `user_id` of guild `guild_id`. The player is registered if they
/// are not yet; they are refused if a challenge already runs for them, or if
/// the catalogue has no challenge `ctf_id`.
pub fn start(bot: &mut Bot, guild_id: &str, user_id: &str, ctf_id: &str) -> (r: Result<(User, Ctf), CommandError>)
    requires
        old(bot)@.has_manager(guild_id@),
    ensures
        final(bot)@ == old(bot)@.validate_user(guild_id@, user_id@).0,
        old(bot)@.validate_user(guild_id@, user_id@).1.ongoing ==> (r matches Err(e) && e is AlreadyOngoing),
        !old(bot)@.validate_user(guild_id@, user_id@).1.ongoing ==> match first_of(old(bot)@.ctfs, named_ctf(ctf_id@)) {
            Some(c) => r matches Ok(x) && x.0@ == old(bot)@.validate_user(guild_id@, user_id@).1 && x.1@ == c,
            None => r matches Err(e) && e matches CommandError::UnrecognizedCtf(id) && id@ == ctf_id@,
        },
        old(bot)@.wf() ==> final(bot)@.wf(),
{
    let user = bot.valid_usr(guild_id, user_id);
    if user.ongoing {
        return Err(CommandError::AlreadyOngoing);
    }
    match catalog_entry(&bot.ctfs, ctf_id) {
        None => Err(CommandError::UnrecognizedCtf(ctf_id.to_owned())),
        Some(ctf) => Ok((user, ctf.clone())),
    }
}

/// `start`, once the challenge runs in the cluster: the session is recorded
/// and the player marked as playing.
pub fn record_session(bot: &mut Bot, guild_id: &str, session: Session) -> (reply: String)
    requires
        old(bot)@.has_manager(guild_id@),
        old(bot)@.find_manager(guild_id@)->0.knows_user(session.user_id@),
    ensures
        final(bot)@ == old(bot)@.with_guild_state(
            guild_id@,
            old(bot)@.find_manager(guild_id@)->0.with_session(session@),
        ),
        old(bot)@.wf() && old(bot)@.find_manager(guild_id@)->0.knows_ctf(session.ctf_id@) ==> final(bot)@.wf(),
        reply@ == added_session_reply(),
{
    let ghost b0 = bot@;
    proof {
        lemma_find_manager(b0, guild_id@);
    }
    let man = bot.man_mut(guild_id);
    man.add_session(session);
    proof {
        let i = b0.manager_index(guild_id@)->0;
        assert(managers_view(bot.managers@) =~= b0.managers.update(i, man@));
        if b0.wf() && b0.managers[i].knows_ctf(session@.ctf_id) {
            assert forall|j: int| 0 <= j < bot@.managers.len() implies (#[trigger] bot@.managers[j]).wf()
                && bot@.managers[j].ctfs == bot@.ctfs by {
                if j != i {
                    assert(bot@.managers[j] == b0.managers[j]);
                }
            }
        }
    }
    "Added session".to_owned()
}

/// `stop`, before the cluster is asked to delete the job: the player whose
/// challenge stops, and the answer to give once the job is deleted. They are
/// refused if no challenge runs for them; else their sessions are dropped and
/// they are marked as not playing.
pub fn stop(bot: &mut Bot, guild_id: &str, user_id: &str) -> (r: Result<(User, String), CommandError>)
    requires
        old(bot)@.has_manager(guild_id@),
    ensures
        ({
            let (b1, u) = old(bot)@.validate_user(guild_id@, user_id@);
            if u.ongoing {
                &&& r matches Ok(x) && x.0@ == u && x.1@ == stopped_session_reply()
                &&& final(bot)@ == b1.with_guild_state(
                    guild_id@,
                    b1.find_manager(guild_id@)->0.without_sessions_of(user_id@),
                )
            } else {
                &&& r matches Err(e) && e is NothingToStop
                &&& final(bot)@ == b1
            }
        }),
        old(bot)@.wf() ==> final(bot)@.wf(),
{
    let ghost b0 = bot@;
    let user = bot.valid_usr(guild_id, user_id);
    if !user.ongoing {
        return Err(CommandError::NothingToStop);
    }
    let ghost b1 = bot@;
    proof {
        lemma_validated_user(b0, guild_id@, user_id@);
        lemma_find_manager(b1, guild_id@);
    }
    let man = bot.man_mut(guild_id);
    man.remove_session(&user);
    proof {
        let i = b1.manager_index(guild_id@)->0;
        assert(managers_view(bot.managers@) =~= b1.managers.update(i, man@));
        if b1.wf() {
            assert forall|j: int| 0 <= j < bot@.managers.len() implies (#[trigger] bot@.managers[j]).wf()
                && bot@.managers[j].ctfs == bot@.ctfs by {
                if j != i {
                    assert(bot@.managers[j] == b1.managers[j]);
                }
            }
        }
    }
    Ok((user, "Stopped session".to_owned()))
}

/// `exec`, before the command is sent to the shell: the player whose shell
/// runs it. They are refused if no challenge runs for them.
pub fn exec(bot: &mut Bot, guild_id: &str, user_id: &str) -> (r: Result<User, CommandError>)
    requires
        old(bot)@.has_manager(guild_id@),
    ensures
        ({
            let (b1, u) = old(bot)@.validate_user(guild_id@, user_id@);
            &&& final(bot)@ == b1
            &&& u.ongoing ==> (r matches Ok(x) && x@ == u)
            &&& !u.ongoing ==> (r matches Err(e) && e is NothingToExecute)
        }),
        old(bot)@.wf() ==> final(bot)@.wf(),
{
    let user = bot.valid_usr(guild_id, user_id);
    if !user.ongoing {
        return Err(CommandError::NothingToExecute);
    }
    Ok(user)
}

/// The answer to `exec` once the shell has answered.
pub fn exec_reply(output: String) -> (r: String)
    ensures
        r@ == exec_reply_text(output@),
        output@.len() > 0 ==> r@ == output@,
        output@.len() == 0 ==> r@ == "No output."@,
{
    if output.as_str().is_empty() {
        "No output.".to_owned()
    } else {
        output
    }
}

/// `check`: whether `flag` is the flag of the challenge running for player
/// `user_id` of guild `guild_id`, as the answer to show. They are refused if
/// no challenge runs for them.
pub fn check(bot: &mut Bot, guild_id: &str, user_id: &str, flag: &String) -> (r: Result<String, CommandError>)
    requires
        old(bot)@.has_manager(guild_id@),
        old(bot)@.wf(),
    ensures
        ({
            let (b1, u) = old(bot)@.validate_user(guild_id@, user_id@);
            let m = b1.find_manager(guild_id@)->0;
            &&& final(bot)@ == b1
            &&& final(bot)@.wf()
            &&& u.ongoing ==> (r matches Ok(text) && text@ == if flag@ == m.find_ctf(
                m.find_session(user_id@)->0.ctf_id,
            )->0.flag {
                flag_found_reply()
            } else {
                flag_wrong_reply()
            })
            &&& !u.ongoing ==> (r matches Err(e) && e is NothingToCheck)
        }),
{
    let ghost b0 = bot@;
    let user = bot.valid_usr(guild_id, user_id);
    if !user.ongoing {
        return Err(CommandError::NothingToCheck);
    }
    let ghost b1 = bot@;
    proof {
        lemma_validated_user(b0, guild_id@, user_id@);
        lemma_find_manager(b1, guild_id@);
        let i = b1.manager_index(guild_id@)->0;
        let m = b1.managers[i];
        assert(m.wf());
        lemma_find_user(m, user_id@);
        lemma_ongoing_user_has_challenge(m, user_id@);
    }
    let ghost v1 = bot.managers@;
    let man = bot.man_mut(guild_id);
    let found = man.check_flag(flag, &user);
    proof {
        assert(bot.managers@ =~= v1);
    }
    let text = if found {
        "Congratulations, you found the flag ! ".to_owned()
    } else {
        "Where did you get this one from buddy? Are we just trying random things?".to_owned()
    };
    Ok(text)
}

/// A shell that printed something is answered with all of it, unchanged;
/// only an empty output is replaced, by the notice.
pub proof fn lemma_exec_reply_keeps_output(output: Seq<char>)
    ensures
        output.len() > 0 ==> exec_reply_text(output) == output,
        output.len() == 0 ==> exec_reply_text(output) == "No output."@,
        exec_reply_text(output).len() > 0,
{
    reveal_strlit("No output.");
}

/// A shell that printed only white space is answered with the notice that it
/// printed nothing.
pub proof fn lemma_blank_output_gets_notice(s: Seq<char>)
    requires
        forall|i: int| 0 <= i < s.len() ==> is_white_space(#[trigger] s[i]),
    ensures
        exec_reply_text(without_leading_whitespace(s)) == "No output."@,
{
    lemma_only_white_space_trims_to_empty(s);
}

/// Reacts to what happened on the gateway: a guild the bot sees for the first
/// time gets a fresh state.
pub fn handle_event(bot: &mut Bot, event: &BotEvent)
    ensures
        final(bot)@ == after_event(old(bot)@, *event),
        old(bot)@.wf() ==> final(bot)@.wf(),
        match *event {
            BotEvent::GuildCreate { guild_id } => {
                &&& final(bot)@.has_manager(guild_id@)
                &&& old(bot)@.has_manager(guild_id@) ==> final(bot)@ == old(bot)@
                &&& !old(bot)@.has_manager(guild_id@) ==> final(bot)@ == (BotView {
                    managers: old(bot)@.managers.push(
                        ManagerView {
                            guild: guild_id@,
                            sessions: Seq::empty(),
                            users: Seq::empty(),
                            ctfs: old(bot)@.ctfs,
                        },
                    ),
                    ..old(bot)@
                })
            },
            BotEvent::Other => final(bot)@ == old(bot)@,
        },
{
    match event {
        BotEvent::GuildCreate { guild_id } => {
            proof {
                lemma_joined(old(bot)@, guild_id@);
            }
            if !bot.man_exists(guild_id.as_str()) {
                bot.add_manager(guild_id.clone());
            }
        },
        BotEvent::Other => {},
    }
}

} // verus!
