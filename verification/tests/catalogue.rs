use std::sync::Arc;
use ctfbot::manager::Manager;
use ctfbot::models::{Ctf, Session, User};
use ctfbot::repo::get_ctfs;

fn ctf(id: &str, objective: &str, flag: &str) -> Ctf {
    Ctf {
        image: "img".to_string(),
        id: id.to_string(),
        objective: objective.to_string(),
        flag: flag.to_string(),
    }
}

#[test]
fn catalogue_has_thirteen_challenges_in_order() {
    let ctfs = get_ctfs();
    assert_eq!(ctfs.len(), 13);
    assert_eq!(ctfs[0].id, "linux-i");
    assert_eq!(ctfs[0].objective, "hidden file");
    assert_eq!(ctfs[0].flag, "FLAG1_31337");
    assert_eq!(ctfs[7].id, "networking");
    assert_eq!(ctfs[7].flag, "172.17.0.1");
    assert_eq!(ctfs[11].flag, "Elite");
    assert_eq!(ctfs[12].id, "tcpdump");
    assert_eq!(ctfs[12].flag, " FLAG14_13370");
    for c in &ctfs {
        assert_eq!(c.image, "ipvfletch/kiddoctf:latest");
    }
}

#[test]
fn catalogue_ids_are_distinct() {
    let ctfs = get_ctfs();
    for i in 0..ctfs.len() {
        for j in (i + 1)..ctfs.len() {
            assert_ne!(ctfs[i].id, ctfs[j].id);
        }
    }
}

#[test]
fn listing_shows_each_challenge_on_a_line() {
    let registry = Arc::new(vec![ctf("a", "first", "F1"), ctf("b", "second", "F2")]);
    let m = Manager::new("guild".to_string(), &registry);
    assert_eq!(m.list_ctf(), "a: first\nb: second\n");
    assert_eq!(m.guild, "guild");
}

#[test]
fn listing_of_an_empty_catalogue_is_empty() {
    let registry = Arc::new(Vec::new());
    let m = Manager::new("guild".to_string(), &registry);
    assert_eq!(m.list_ctf(), "");
}

#[test]
fn full_catalogue_listing_starts_with_first_challenge() {
    let registry = Arc::new(get_ctfs());
    let m = Manager::new("g".to_string(), &registry);
    let text = m.list_ctf();
    assert!(text.starts_with("linux-i: hidden file\nlinux-ii: hidden file\n"));
    assert!(text.ends_with("tcpdump: from tcpdump\n"));
    assert_eq!(text.lines().count(), 13);
}

#[test]
fn users_are_found_by_identifier() {
    let registry = Arc::new(vec![ctf("a", "first", "F1")]);
    let mut m = Manager::new("g".to_string(), &registry);
    assert!(m.id_user("alice").is_none());
    m.add_user(User { id: "alice".to_string(), ongoing: false });
    m.add_user(User { id: "bob".to_string(), ongoing: false });
    assert_eq!(m.id_user("bob").unwrap().id, "bob");
    assert!(!m.id_user("alice").unwrap().ongoing);
    assert!(m.id_user("carol").is_none());
}

#[test]
fn first_registration_wins() {
    let registry = Arc::new(vec![]);
    let mut m = Manager::new("g".to_string(), &registry);
    m.add_user(User { id: "alice".to_string(), ongoing: true });
    m.add_user(User { id: "alice".to_string(), ongoing: false });
    assert!(m.id_user("alice").unwrap().ongoing);
}

#[test]
fn adding_a_session_marks_the_player_as_playing() {
    let registry = Arc::new(vec![ctf("a", "first", "F1"), ctf("b", "second", "F2")]);
    let mut m = Manager::new("g".to_string(), &registry);
    let alice = User { id: "alice".to_string(), ongoing: false };
    m.add_user(alice.clone());
    assert!(m.id_session(&alice).is_none());
    m.add_session(Session { user_id: "alice".to_string(), ctf_id: "b".to_string() });
    assert!(m.id_user("alice").unwrap().ongoing);
    let s = m.id_session(&alice).unwrap();
    assert_eq!(s.ctf_id, "b");
    assert_eq!(m.id_ctf(s).unwrap().flag, "F2");
}

#[test]
fn unknown_challenge_of_a_session_is_not_found() {
    let registry = Arc::new(vec![ctf("a", "first", "F1")]);
    let m = Manager::new("g".to_string(), &registry);
    let s = Session { user_id: "x".to_string(), ctf_id: "zzz".to_string() };
    assert!(m.id_ctf(&s).is_none());
}

#[test]
fn removing_sessions_keeps_other_players_sessions() {
    let registry = Arc::new(vec![ctf("a", "first", "F1"), ctf("b", "second", "F2")]);
    let mut m = Manager::new("g".to_string(), &registry);
    let alice = User { id: "alice".to_string(), ongoing: false };
    let bob = User { id: "bob".to_string(), ongoing: false };
    m.add_user(alice.clone());
    m.add_user(bob.clone());
    m.add_session(Session { user_id: "alice".to_string(), ctf_id: "a".to_string() });
    m.add_session(Session { user_id: "bob".to_string(), ctf_id: "b".to_string() });
    m.remove_session(&alice);
    assert!(!m.id_user("alice").unwrap().ongoing);
    assert!(m.id_session(&alice).is_none());
    assert!(m.id_user("bob").unwrap().ongoing);
    assert_eq!(m.id_session(&bob).unwrap().ctf_id, "b");
}

#[test]
fn flag_check_compares_with_the_running_challenge() {
    let registry = Arc::new(vec![ctf("a", "first", "F1"), ctf("b", "second", "F2")]);
    let mut m = Manager::new("g".to_string(), &registry);
    let alice = User { id: "alice".to_string(), ongoing: false };
    m.add_user(alice.clone());
    m.add_session(Session { user_id: "alice".to_string(), ctf_id: "b".to_string() });
    assert!(m.check_flag(&"F2".to_string(), &alice));
    assert!(!m.check_flag(&"F1".to_string(), &alice));
    assert!(!m.check_flag(&"f2".to_string(), &alice));
}

#[test]
fn stop_undoes_start_on_concrete_values() {
    let registry = Arc::new(vec![ctf("a", "first", "F1")]);
    let mut m = Manager::new("g".to_string(), &registry);
    let alice = User { id: "alice".to_string(), ongoing: false };
    m.add_user(alice.clone());
    let listing_before = m.list_ctf();
    m.add_session(Session::new(&alice, &registry[0]));
    m.remove_session(&alice);
    assert!(!m.id_user("alice").unwrap().ongoing);
    assert!(m.id_session(&alice).is_none());
    assert_eq!(m.list_ctf(), listing_before);
}

#[test]
fn session_records_player_and_challenge() {
    let alice = User { id: "alice".to_string(), ongoing: true };
    let c = ctf("web", "from web", "W");
    let s = Session::new(&alice, &c);
    assert_eq!(s.user_id, "alice");
    assert_eq!(s.ctf_id, "web");
    let copy = s.clone();
    assert_eq!(copy.user_id, "alice");
    let fresh = User::fresh("bob");
    assert_eq!(fresh.id, "bob");
    assert!(!fresh.ongoing);
}
