use streamer_tools::config::{Config, Db, InnerConfig, Twitch, WatchAction};
use streamer_tools::sql::{
    active_timer_entry, dec_all_query, user_from_row, IncTimes, StrippedTimer, Timer, TimerRow,
};
use streamer_tools::twitch::{
    bot_credentials, connection_stale, give_up, message_kind, next_attempts, token_valid,
    users_url, MessageKind, MessageLog,
};

fn inner(user: &str) -> InnerConfig {
    InnerConfig {
        twitch: Twitch {
            username: user.to_string(),
            client_id: "id".to_string(),
            client_secret: "s".to_string(),
        },
        db: Db { url: "sqlite://x.db".to_string() },
    }
}

#[test]
fn config_new_and_reload() {
    let mut c = Config::new("./config.toml", inner("a"));
    assert_eq!(c.path, "./config.toml");
    assert_eq!(c.twitch.username, "a");
    c.config_reload(inner("b"));
    assert_eq!(c.twitch.username, "b");
    assert_eq!(c.db.url, "sqlite://x.db");
    assert_eq!(c.path, "./config.toml");
    let mut cbs: Vec<u8> = vec![];
    Config::add_callback(&mut cbs, 4);
    assert_eq!(cbs, vec![4]);
}

#[test]
fn watch_actions() {
    assert_eq!(Config::watch_action(false, 100), WatchAction::Ignore);
    assert_eq!(Config::watch_action(true, 25), WatchAction::Reload);
    assert_eq!(Config::watch_action(true, 24), WatchAction::Touch);
}

fn no_inc() -> IncTimes {
    IncTimes {
        follow: Some(1),
        sub_t1: None,
        sub_t2: None,
        sub_t3: None,
        dono_each_n: None,
        dono_n: None,
        bits_each_n: None,
        bits_n: None,
    }
}

#[test]
fn timer_rows() {
    let row = TimerRow {
        id: "67e55044-10b1-426f-9247-bb680e5fe0c8".to_string(),
        name: "main".to_string(),
        time: None,
        main: Some(1),
        is_active: Some(0),
        color: None,
    };
    let t = Timer::from_row(row, no_inc());
    assert_eq!(t.id, 0x67e55044_10b1_426f_9247_bb680e5fe0c8u128);
    assert_eq!(t.timer, Some(0));
    assert!(t.main);
    assert!(!t.is_active);
    assert_eq!(t.color, "#000");
    assert_eq!(t.increase_times.follow, Some(1));
    let row = TimerRow {
        id: "not a uuid".to_string(),
        name: "n".to_string(),
        time: Some(42),
        main: None,
        is_active: Some(1),
        color: None,
    };
    let s = StrippedTimer::from_row(row);
    assert_eq!(s.id, 0);
    assert_eq!(s.timer, Some(42));
    assert!(!s.main);
    assert!(s.is_active);
    assert_eq!(s.color, "#000000");
}

#[test]
fn row_helpers() {
    assert_eq!(
        active_timer_entry("x".to_string(), Some(-3)),
        ("x".to_string(), "-3".to_string())
    );
    assert_eq!(active_timer_entry("x".to_string(), None).1, "0");
    let u = user_from_row(Some("1".into()), None, Some("D".into()), None, Some("affiliate".into()));
    assert_eq!(u.id, "1");
    assert_eq!(u.login, "");
    assert_eq!(u.display_name, "D");
    assert_eq!(u.broadcaster_type, "affiliate");
    assert_eq!(u.profile_image_url, "");
    assert_eq!(
        dec_all_query(3),
        "update timer set time = time - 1 where is_active = 1 and type = 0 and id in (?,?,?)"
    );
    assert_eq!(
        dec_all_query(0),
        "update timer set time = time - 1 where is_active = 1 and type = 0 and id in ()"
    );
}

#[test]
fn twitch_helpers() {
    assert_eq!(users_url("bob"), "https://api.twitch.tv/helix/users?login=bob");
    assert!(token_valid(200));
    assert!(!token_valid(401));
    assert_eq!(
        bot_credentials(None),
        ("gibberish".to_string(), "Bearer".to_string())
    );
    assert_eq!(
        bot_credentials(Some(("t".into(), "b".into()))),
        ("t".to_string(), "b".to_string())
    );
    assert!(connection_stale(100, 89));
    assert!(!connection_stale(100, 90));
    assert_eq!(message_kind("session_welcome"), MessageKind::SessionWelcome);
    assert_eq!(message_kind("session_keepalive"), MessageKind::SessionKeepalive);
    assert_eq!(message_kind("session_reconnect"), MessageKind::SessionReconnect);
    assert_eq!(message_kind("notification"), MessageKind::Notification);
    assert_eq!(message_kind("revocation"), MessageKind::Other);
}

#[test]
fn reconnect_attempts() {
    assert_eq!(next_attempts(0, false), 1);
    assert_eq!(next_attempts(2, false), 3);
    assert_eq!(next_attempts(2, true), 0);
    assert!(give_up(3));
    assert!(!give_up(2));
}

#[test]
fn message_log_drops_duplicates() {
    let mut log = MessageLog::new();
    assert!(log.observe("a".to_string()));
    assert!(!log.observe("a".to_string()));
    assert!(log.observe("b".to_string()));
    assert!(!log.observe("b".to_string()));
}

#[test]
fn message_log_when_full() {
    let mut log = MessageLog::new();
    for i in 0..255 {
        assert!(log.observe(format!("id{i}")));
    }
    // The log is full: a new id is reported as new but not kept.
    assert!(log.observe("late".to_string()));
    assert!(log.observe("late".to_string()));
    assert!(!log.observe("id0".to_string()));
}
