use rglgate::engine::{
    ChangeContactOutcome, ChangePasswordOutcome, Directive, Engine, LoginOutcome, RegisterOutcome,
};
use rglgate::files::{OverwritePolicy, PathSpec};
use rglgate::menu::{Action, Entry, Menu};
use rglgate::users::Directory;

fn entry(key: char, name: &str, actions: Vec<Action>) -> Entry {
    Entry { key, name: name.to_string(), actions }
}

fn menu(id: &str, title: &str, entries: Vec<Entry>) -> Menu {
    Menu { id: id.to_string(), title: title.to_string(), entries }
}

/// The gateway's menu set: an anonymous main menu, the post-login main
/// menu, a game menu and a confirmation submenu.
fn gateway_menus() -> Vec<Menu> {
    let rc_copy = |policy: OverwritePolicy| {
        Action::CopyFile(
            PathSpec::Normal("rgldir/nethackrc".to_string()),
            PathSpec::UserDir("nethack/nethackrc".to_string()),
            policy,
        )
    };
    vec![
        menu(
            "mainmenu_anon",
            "Main menu",
            vec![
                entry('l', "login", vec![Action::Login]),
                entry('r', "register", vec![Action::Register]),
                entry('q', "quit", vec![Action::Quit]),
            ],
        ),
        menu(
            "mainmenu_user",
            "Main menu",
            vec![
                entry('c', "change current password", vec![Action::ChangePassword]),
                entry('e', "change current contact information", vec![Action::ChangeContact]),
                entry('n', "NetHack 3.4.3", vec![Action::GoTo("nethack".to_string())]),
                entry('q', "quit", vec![Action::Quit]),
            ],
        ),
        menu(
            "nethack",
            "NetHack 3.4.3",
            vec![
                entry(
                    'p',
                    "play",
                    vec![
                        rc_copy(OverwritePolicy::IgnoreExisting),
                        Action::RunGame("nethack".to_string()),
                    ],
                ),
                entry(
                    'e',
                    "edit nethackrc",
                    vec![
                        rc_copy(OverwritePolicy::IgnoreExisting),
                        Action::EditFile(PathSpec::UserDir("nethack/nethackrc".to_string())),
                    ],
                ),
                entry('r', "reset nethackrc", vec![Action::GoTo("nethack_reset".to_string())]),
                entry('q', "back", vec![Action::Return]),
            ],
        ),
        menu(
            "nethack_reset",
            "NetHack 3.4.3 rc file reset",
            vec![
                entry(
                    'R',
                    "confirm reset",
                    vec![
                        rc_copy(OverwritePolicy::OverwriteExisting),
                        Action::FlashMessage(
                            "the nethackrc file was reset to default".to_string(),
                        ),
                        Action::Return,
                    ],
                ),
                entry('q', "back", vec![Action::Return]),
            ],
        ),
    ]
}

fn gateway_engine() -> Engine {
    Engine::new(gateway_menus(), vec!["nethack".to_string()], Directory::new())
        .ok()
        .expect("the gateway configuration validates")
}

#[test]
fn validation_accepts_gateway_config() {
    let _ = gateway_engine();
}

#[test]
fn validation_rejects_dangling_goto() {
    let menus = vec![
        menu("main", "Main", vec![entry('g', "go", vec![Action::GoTo("nowhere".to_string())])]),
        menu("auth", "Auth", vec![entry('q', "quit", vec![Action::Quit])]),
    ];
    assert!(Engine::new(menus, vec![], Directory::new()).is_err());
}

#[test]
fn validation_rejects_return_at_root() {
    let menus = vec![
        menu("main", "Main", vec![entry('b', "back", vec![Action::Return])]),
        menu("auth", "Auth", vec![entry('q', "quit", vec![Action::Quit])]),
    ];
    assert!(Engine::new(menus, vec![], Directory::new()).is_err());
}

#[test]
fn validation_rejects_unknown_game() {
    let menus = vec![
        menu("main", "Main", vec![entry('p', "play", vec![Action::RunGame("zork".to_string())])]),
        menu("auth", "Auth", vec![entry('q', "quit", vec![Action::Quit])]),
    ];
    assert!(Engine::new(menus, vec!["nethack".to_string()], Directory::new()).is_err());
}

#[test]
fn validation_rejects_duplicate_menu_ids() {
    let menus = vec![
        menu("main", "Main", vec![entry('q', "quit", vec![Action::Quit])]),
        menu("main", "Again", vec![entry('q', "quit", vec![Action::Quit])]),
    ];
    assert!(Engine::new(menus, vec![], Directory::new()).is_err());
}

#[test]
fn validation_rejects_duplicate_entry_keys() {
    let menus = vec![
        menu(
            "main",
            "Main",
            vec![
                entry('q', "quit", vec![Action::Quit]),
                entry('q', "also quit", vec![Action::Quit]),
            ],
        ),
        menu("auth", "Auth", vec![entry('q', "quit", vec![Action::Quit])]),
    ];
    assert!(Engine::new(menus, vec![], Directory::new()).is_err());
}

#[test]
fn explicit_depth_bounds_are_checked_exactly() {
    // The depth bounds of the gateway menus: both main menus at the
    // surface, the game menu one level down, its confirmation two.
    let games = vec!["nethack".to_string()];
    assert!(
        Engine::new_with_bounds(gateway_menus(), games.clone(), vec![0, 0, 1, 2], Directory::new())
            .is_ok()
    );
    // With every menu claimed to sit at the surface, the bare Return
    // entries of the deeper menus are unsafe: rejected.
    assert!(
        Engine::new_with_bounds(gateway_menus(), games, vec![0, 0, 0, 0], Directory::new())
            .is_err()
    );
}

#[test]
fn unmatched_key_changes_nothing() {
    let mut e = gateway_engine();
    assert!(!e.select_key('z'));
    assert!(matches!(e.next_action(), Directive::Idle));
    assert_eq!(e.current_menu().id, "mainmenu_anon");
}

#[test]
fn quit_ends_the_entry() {
    let mut e = gateway_engine();
    assert!(e.select_key('q'));
    assert!(matches!(e.next_action(), Directive::Quit));
    assert!(matches!(e.next_action(), Directive::Idle));
}

#[test]
fn register_scenario_alice() {
    let mut e = gateway_engine();
    assert!(e.select_key('r'));
    assert!(matches!(e.next_action(), Directive::PromptRegister));
    let r = e.provide_register("alice", "secret1", "secret1", "a@example.com");
    assert!(matches!(r, RegisterOutcome::Registered));

    // The directory gained the record, the session is established, and
    // the history is clear in the post-authentication menu.
    assert_eq!(e.session.as_deref(), Some("alice"));
    assert_eq!(e.current_menu().id, "mainmenu_user");
    assert!(e.nav.hist.is_empty());
    assert!(rglgate::users::get_user(&e.dir, "alice").is_some());
    assert!(matches!(e.next_action(), Directive::Idle));
}

#[test]
fn register_rejections() {
    let mut e = gateway_engine();
    assert!(matches!(
        e.provide_register("", "a", "a", ""),
        RegisterOutcome::EmptyUsername
    ));
    assert!(matches!(
        e.provide_register("abcdefghijklmnop", "a", "a", ""),
        RegisterOutcome::InvalidUsername
    ));
    assert!(matches!(
        e.provide_register("has space", "a", "a", ""),
        RegisterOutcome::InvalidUsername
    ));
    assert!(matches!(
        e.provide_register("alice", "one", "two", ""),
        RegisterOutcome::PasswordMismatch
    ));
    assert_eq!(e.dir.len(), 0);
    assert!(e.session.is_none());

    assert!(matches!(
        e.provide_register("alice", "pw", "pw", "c"),
        RegisterOutcome::Registered
    ));
    assert!(matches!(
        e.provide_register("bob", "pw", "pw", "c"),
        RegisterOutcome::NotAnonymous
    ));
    assert!(matches!(e.provide_login("alice", "pw"), LoginOutcome::NotAnonymous));
    let dir = e.dir;
    let mut e2 = Engine::new(gateway_menus(), vec!["nethack".to_string()], dir).ok().unwrap();
    assert!(matches!(
        e2.provide_register("ALICE", "pw", "pw", "c"),
        RegisterOutcome::UserExists
    ));
    assert!(matches!(
        e2.provide_change_password("a", "a"),
        ChangePasswordOutcome::NotLoggedIn
    ));
    assert!(matches!(
        e2.provide_change_contact("a"),
        ChangeContactOutcome::NotLoggedIn
    ));
}

#[test]
fn register_empty_contact_warns() {
    let mut e = gateway_engine();
    assert!(matches!(
        e.provide_register("alice", "pw", "pw", ""),
        RegisterOutcome::RegisteredEmptyContact
    ));
}

#[test]
fn login_scenario_wrong_password_is_generic() {
    let mut e = gateway_engine();
    assert!(matches!(
        e.provide_register("alice", "secret1", "secret1", "a@example.com"),
        RegisterOutcome::Registered
    ));
    let dir = e.dir;

    let mut e2 = Engine::new(gateway_menus(), vec!["nethack".to_string()], dir).ok().unwrap();
    assert!(e2.select_key('l'));
    assert!(matches!(e2.next_action(), Directive::PromptLogin));
    let r = e2.provide_login("alice", "wrong");
    assert!(matches!(r, LoginOutcome::LoginFailed));
    assert!(e2.session.is_none());
    assert_eq!(e2.current_menu().id, "mainmenu_anon");

    // A disabled account fails with the very same outcome.
    assert!(e2.dir.load_record("ghost".to_string(), None, String::new()));
    assert!(matches!(
        e2.provide_login("ghost", "anything"),
        LoginOutcome::LoginFailed
    ));

    assert!(matches!(
        e2.provide_login("nobody", "x"),
        LoginOutcome::NoSuchUser
    ));
    assert!(matches!(e2.provide_login("", "x"), LoginOutcome::EmptyUsername));

    let r = e2.provide_login("ALICE", "secret1");
    assert!(matches!(r, LoginOutcome::LoggedIn));
    // The session carries the stored spelling, and history is clear.
    assert_eq!(e2.session.as_deref(), Some("alice"));
    assert_eq!(e2.current_menu().id, "mainmenu_user");
    assert!(e2.nav.hist.is_empty());
}

#[test]
fn change_password_mismatch_keeps_old_hash_verifiable() {
    let mut e = gateway_engine();
    assert!(matches!(
        e.provide_register("alice", "secret1", "secret1", "a@example.com"),
        RegisterOutcome::Registered
    ));
    assert!(e.select_key('c'));
    assert!(matches!(e.next_action(), Directive::PromptChangePassword));
    assert!(matches!(
        e.provide_change_password("newpw", "different"),
        ChangePasswordOutcome::PasswordMismatch
    ));
    // Nothing was stored: the old password still verifies.
    let u = rglgate::users::get_user(&e.dir, "alice").unwrap();
    assert!(rglgate::users::try_login(&u, "secret1"));

    assert!(matches!(
        e.provide_change_password("newpw", "newpw"),
        ChangePasswordOutcome::Changed
    ));
    let u = rglgate::users::get_user(&e.dir, "alice").unwrap();
    assert!(rglgate::users::try_login(&u, "newpw"));
    assert!(!rglgate::users::try_login(&u, "secret1"));
}

#[test]
fn change_contact_empty_warns_and_deletes() {
    let mut e = gateway_engine();
    assert!(matches!(
        e.provide_register("alice", "pw", "pw", "a@example.com"),
        RegisterOutcome::Registered
    ));
    assert!(matches!(
        e.provide_change_contact("b@example.org"),
        ChangeContactOutcome::Updated
    ));
    assert_eq!(rglgate::users::get_user(&e.dir, "alice").unwrap().contact, "b@example.org");
    assert!(matches!(
        e.provide_change_contact(""),
        ChangeContactOutcome::UpdatedEmptyWarning
    ));
    assert_eq!(rglgate::users::get_user(&e.dir, "alice").unwrap().contact, "");
}

#[test]
fn navigation_goto_and_return() {
    let mut e = gateway_engine();
    assert!(matches!(
        e.provide_register("alice", "pw", "pw", "c"),
        RegisterOutcome::Registered
    ));

    assert!(e.select_key('n'));
    assert!(matches!(e.next_action(), Directive::Proceed));
    assert!(matches!(e.next_action(), Directive::Idle));
    assert_eq!(e.current_menu().id, "nethack");
    assert_eq!(e.nav.hist.len(), 1);

    assert!(e.select_key('r'));
    assert!(matches!(e.next_action(), Directive::Proceed));
    assert!(matches!(e.next_action(), Directive::Idle));
    assert_eq!(e.current_menu().id, "nethack_reset");
    assert_eq!(e.nav.hist.len(), 2);

    // Confirm the reset: copy, flash, return.
    assert!(e.select_key('R'));
    match e.next_action() {
        Directive::CopyFile(src, dst, OverwritePolicy::OverwriteExisting) => {
            assert_eq!(src, "rgldir/nethackrc");
            assert_eq!(dst, "rgldir/userdata/alice/nethack/nethackrc");
        }
        other => panic!("expected a copy directive, got {:?}", directive_name(&other)),
    }
    match e.next_action() {
        Directive::Flash(msg) => assert_eq!(msg, "the nethackrc file was reset to default"),
        other => panic!("expected a flash directive, got {:?}", directive_name(&other)),
    }
    assert!(matches!(e.next_action(), Directive::Proceed));
    assert!(matches!(e.next_action(), Directive::Idle));
    assert_eq!(e.current_menu().id, "nethack");
    assert_eq!(e.nav.hist.len(), 1);

    assert!(e.select_key('q'));
    assert!(matches!(e.next_action(), Directive::Proceed));
    assert!(matches!(e.next_action(), Directive::Idle));
    assert_eq!(e.current_menu().id, "mainmenu_user");
    assert!(e.nav.hist.is_empty());
}

#[test]
fn play_entry_copies_then_runs_game() {
    let mut e = gateway_engine();
    assert!(matches!(
        e.provide_register("alice", "pw", "pw", "c"),
        RegisterOutcome::Registered
    ));
    assert!(e.select_key('n'));
    assert!(matches!(e.next_action(), Directive::Proceed));
    assert!(matches!(e.next_action(), Directive::Idle));
    assert!(e.select_key('p'));
    match e.next_action() {
        Directive::CopyFile(src, dst, OverwritePolicy::IgnoreExisting) => {
            assert_eq!(src, "rgldir/nethackrc");
            assert_eq!(dst, "rgldir/userdata/alice/nethack/nethackrc");
        }
        other => panic!("expected a copy directive, got {:?}", directive_name(&other)),
    }
    match e.next_action() {
        Directive::RunGame(id) => assert_eq!(id, "nethack"),
        other => panic!("expected a run directive, got {:?}", directive_name(&other)),
    }
    assert!(matches!(e.next_action(), Directive::Idle));
}

#[test]
fn edit_entry_resolves_user_path() {
    let mut e = gateway_engine();
    assert!(matches!(
        e.provide_register("alice", "pw", "pw", "c"),
        RegisterOutcome::Registered
    ));
    assert!(e.select_key('n'));
    assert!(matches!(e.next_action(), Directive::Proceed));
    assert!(matches!(e.next_action(), Directive::Idle));
    assert!(e.select_key('e'));
    assert!(matches!(e.next_action(), Directive::CopyFile(_, _, _)));
    match e.next_action() {
        Directive::EditFile(path) => {
            assert_eq!(path, "rgldir/userdata/alice/nethack/nethackrc");
        }
        other => panic!("expected an edit directive, got {:?}", directive_name(&other)),
    }
}

#[test]
fn run_game_without_session_is_fatal() {
    let menus = vec![
        menu("main", "Main", vec![entry('p', "play", vec![Action::RunGame("nethack".to_string())])]),
        menu("auth", "Auth", vec![entry('q', "quit", vec![Action::Quit])]),
    ];
    let mut e = Engine::new(menus, vec!["nethack".to_string()], Directory::new()).ok().unwrap();
    assert!(e.select_key('p'));
    assert!(matches!(e.next_action(), Directive::Fatal(_)));
    assert!(matches!(e.next_action(), Directive::Idle));
}

#[test]
fn register_while_logged_in_is_fatal() {
    // A configuration that reaches Register from an authenticated
    // session is defective; the engine reports it instead of acting.
    let menus = vec![
        menu(
            "main",
            "Main",
            vec![entry('r', "register", vec![Action::Register])],
        ),
        menu(
            "auth",
            "Auth",
            vec![
                entry('r', "register again", vec![Action::Register]),
                entry('q', "quit", vec![Action::Quit]),
            ],
        ),
    ];
    let mut e = Engine::new(menus, vec![], Directory::new()).ok().unwrap();
    assert!(matches!(
        e.provide_register("alice", "pw", "pw", "c"),
        RegisterOutcome::Registered
    ));
    assert!(e.select_key('r'));
    assert!(matches!(e.next_action(), Directive::Fatal(_)));
}

#[test]
fn entry_continues_after_successful_register() {
    // An entry whose sequence goes on after Register: the welcome flash
    // must still run, on the cleared history of the post-auth menu.
    let menus = vec![
        menu(
            "main",
            "Main",
            vec![entry(
                'r',
                "register",
                vec![Action::Register, Action::FlashMessage("welcome".to_string())],
            )],
        ),
        menu("auth", "Auth", vec![entry('q', "quit", vec![Action::Quit])]),
    ];
    let mut e = Engine::new(menus, vec![], Directory::new()).ok().unwrap();
    assert!(e.select_key('r'));
    assert!(matches!(e.next_action(), Directive::PromptRegister));
    assert!(matches!(
        e.provide_register("alice", "pw", "pw", "c"),
        RegisterOutcome::Registered
    ));
    match e.next_action() {
        Directive::Flash(msg) => assert_eq!(msg, "welcome"),
        other => panic!("expected the welcome flash, got {:?}", directive_name(&other)),
    }
    assert!(matches!(e.next_action(), Directive::Idle));
    assert_eq!(e.current_menu().id, "auth");
}

#[test]
fn failed_register_aborts_rest_of_entry() {
    let menus = vec![
        menu(
            "main",
            "Main",
            vec![entry(
                'r',
                "register",
                vec![Action::Register, Action::FlashMessage("welcome".to_string())],
            )],
        ),
        menu("auth", "Auth", vec![entry('q', "quit", vec![Action::Quit])]),
    ];
    let mut e = Engine::new(menus, vec![], Directory::new()).ok().unwrap();
    assert!(e.select_key('r'));
    assert!(matches!(e.next_action(), Directive::PromptRegister));
    assert!(matches!(
        e.provide_register("alice", "pw", "different", "c"),
        RegisterOutcome::PasswordMismatch
    ));
    // The mismatch aborts the remaining actions: no welcome flash.
    assert!(matches!(e.next_action(), Directive::Idle));
    assert_eq!(e.current_menu().id, "main");
}

fn directive_name(d: &Directive) -> &'static str {
    match d {
        Directive::Idle => "Idle",
        Directive::Proceed => "Proceed",
        Directive::Flash(_) => "Flash",
        Directive::PromptRegister => "PromptRegister",
        Directive::PromptLogin => "PromptLogin",
        Directive::PromptChangePassword => "PromptChangePassword",
        Directive::PromptChangeContact => "PromptChangeContact",
        Directive::RunGame(_) => "RunGame",
        Directive::EditFile(_) => "EditFile",
        Directive::CopyFile(_, _, _) => "CopyFile",
        Directive::Quit => "Quit",
        Directive::Fatal(_) => "Fatal",
    }
}
