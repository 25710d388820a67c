use ctfbot::bot::Bot;
use ctfbot::commands::{
    check, exec, exec_reply, handle_event, list, record_session, start, stop, BotEvent, CommandError,
};
use ctfbot::controller::Controller;
use ctfbot::models::Session;
use ctfbot::repo::get_ctfs;

fn bot_with_guild(guild: &str) -> Bot {
    let mut bot = Bot::new(get_ctfs(), Controller::new("ctf-jobs"));
    handle_event(&mut bot, &BotEvent::GuildCreate { guild_id: guild.to_string() });
    bot
}

#[test]
fn guild_create_adds_a_guild_once() {
    let mut bot = Bot::new(get_ctfs(), Controller::new("ctf-jobs"));
    assert!(!bot.man_exists("g1"));
    handle_event(&mut bot, &BotEvent::GuildCreate { guild_id: "g1".to_string() });
    assert!(bot.man_exists("g1"));
    assert_eq!(bot.managers.len(), 1);
    handle_event(&mut bot, &BotEvent::GuildCreate { guild_id: "g1".to_string() });
    assert_eq!(bot.managers.len(), 1);
    handle_event(&mut bot, &BotEvent::Other);
    assert_eq!(bot.managers.len(), 1);
    handle_event(&mut bot, &BotEvent::GuildCreate { guild_id: "g2".to_string() });
    assert_eq!(bot.managers.len(), 2);
    assert!(bot.man_exists("g2"));
    assert!(!bot.man_exists("g3"));
}

#[test]
fn add_manager_gives_a_fresh_state() {
    let mut bot = Bot::new(get_ctfs(), Controller::new("ctf-jobs"));
    bot.add_manager("g".to_string());
    let m = bot.man_mut("g");
    assert_eq!(m.guild, "g");
    assert!(m.id_user("anyone").is_none());
}

#[test]
fn valid_usr_registers_once() {
    let mut bot = bot_with_guild("g");
    let u1 = bot.valid_usr("g", "alice");
    assert_eq!(u1.id, "alice");
    assert!(!u1.ongoing);
    let u2 = bot.valid_usr("g", "alice");
    assert_eq!(u2.id, "alice");
    assert!(!u2.ongoing);
    assert!(bot.man_mut("g").id_user("alice").is_some());
}

#[test]
fn list_shows_the_catalogue() {
    let mut bot = bot_with_guild("g");
    let text = list(&mut bot, "g");
    assert!(text.starts_with("linux-i: hidden file\n"));
    assert_eq!(text.lines().count(), 13);
}

#[test]
fn start_returns_the_challenge() {
    let mut bot = bot_with_guild("g");
    match start(&mut bot, "g", "alice", "nmap") {
        Ok((u, c)) => {
            assert_eq!(u.id, "alice");
            assert!(!u.ongoing);
            assert_eq!(c.id, "nmap");
            assert_eq!(c.flag, "Elite");
        },
        Err(_) => panic!("start refused"),
    }
}

#[test]
fn start_refuses_unknown_challenge() {
    let mut bot = bot_with_guild("g");
    match start(&mut bot, "g", "alice", "nope") {
        Err(e) => assert_eq!(e.message(), "Unrecognized CTF: nope"),
        Ok(_) => panic!("unknown challenge accepted"),
    }
}

#[test]
fn start_refuses_second_challenge() {
    let mut bot = bot_with_guild("g");
    let (alice, c) = start(&mut bot, "g", "alice", "base64").ok().unwrap();
    let reply = record_session(&mut bot, "g", Session::new(&alice, &c));
    assert_eq!(reply, "Added session");
    match start(&mut bot, "g", "alice", "nmap") {
        Err(e) => {
            assert!(matches!(e, CommandError::AlreadyOngoing));
            assert_eq!(e.message(), "A ctf is already ongoing");
        },
        Ok(_) => panic!("second challenge accepted"),
    }
}

#[test]
fn stop_without_challenge_is_refused() {
    let mut bot = bot_with_guild("g");
    match stop(&mut bot, "g", "alice") {
        Err(e) => assert_eq!(e.message(), "No ongoing ctf to stop"),
        Ok(_) => panic!("stop accepted"),
    }
}

#[test]
fn exec_without_challenge_is_refused() {
    let mut bot = bot_with_guild("g");
    match exec(&mut bot, "g", "alice") {
        Err(e) => assert_eq!(e.message(), "No ongoing ctf to execute"),
        Ok(_) => panic!("exec accepted"),
    }
}

#[test]
fn check_without_challenge_is_refused() {
    let mut bot = bot_with_guild("g");
    match check(&mut bot, "g", "alice", &"x".to_string()) {
        Err(e) => assert_eq!(e.message(), "No ongoing ctf to check"),
        Ok(_) => panic!("check accepted"),
    }
}

#[test]
fn full_round_start_exec_check_stop() {
    let mut bot = bot_with_guild("g");
    let (alice, c) = start(&mut bot, "g", "alice", "nmap").ok().unwrap();
    record_session(&mut bot, "g", Session::new(&alice, &c));
    let u = exec(&mut bot, "g", "alice").ok().unwrap();
    assert!(u.ongoing);
    assert_eq!(
        check(&mut bot, "g", "alice", &"Elite".to_string()).ok().unwrap(),
        "Congratulations, you found the flag ! "
    );
    assert_eq!(
        check(&mut bot, "g", "alice", &"FLAG1_31337".to_string()).ok().unwrap(),
        "Where did you get this one from buddy? Are we just trying random things?"
    );
    let (stopped, reply) = stop(&mut bot, "g", "alice").ok().unwrap();
    assert_eq!(stopped.id, "alice");
    assert_eq!(reply, "Stopped session");
    assert!(!bot.valid_usr("g", "alice").ongoing);
    assert!(stop(&mut bot, "g", "alice").is_err());
    assert!(start(&mut bot, "g", "alice", "linux-i").is_ok());
}

#[test]
fn players_of_different_guilds_are_separate() {
    let mut bot = bot_with_guild("g1");
    handle_event(&mut bot, &BotEvent::GuildCreate { guild_id: "g2".to_string() });
    let (alice, c) = start(&mut bot, "g1", "alice", "nmap").ok().unwrap();
    record_session(&mut bot, "g1", Session::new(&alice, &c));
    assert!(bot.valid_usr("g1", "alice").ongoing);
    assert!(!bot.valid_usr("g2", "alice").ongoing);
    assert!(start(&mut bot, "g2", "alice", "nmap").is_ok());
}

#[test]
fn exec_reply_replaces_empty_output() {
    assert_eq!(exec_reply(String::new()), "No output.");
    assert_eq!(exec_reply("ls\n".to_string()), "ls\n");
}

#[test]
fn command_error_messages() {
    assert_eq!(CommandError::NothingToStop.message(), "No ongoing ctf to stop");
    assert_eq!(CommandError::UnrecognizedCtf("x y".to_string()).message(), "Unrecognized CTF: x y");
}
