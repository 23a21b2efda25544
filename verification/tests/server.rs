use streamer_tools::client::Opt;
use streamer_tools::clock::{Time, Timer};
use streamer_tools::server::{
    create_timer_query, dec_time, delete_timer_query, get_time_query, next_thread_id,
    paused_after, should_send, subathon_address, timer_from_rows, timer_get_response, Config, Tick, Twitch,
};

#[test]
fn rows_to_timer() {
    assert!(timer_from_rows(&vec![]).is_none());
    let t = timer_from_rows(&vec![(3, 3725)]).unwrap();
    assert_eq!(t.id, 3);
    assert_eq!(t.timer, Time::new(1, 2, 5));
    assert!(timer_from_rows(&vec![(-1, 10)]).is_none());
    let t = timer_from_rows(&vec![(1, 10), (2, 20)]).unwrap();
    assert_eq!(t.id, 2);
    assert_eq!(t.timer.to_seconds(), 30);
}

#[test]
fn statements() {
    let mut timer = Timer::new();
    timer.convert_and_insert(4, 0, 1, 30);
    assert_eq!(
        create_timer_query(&timer),
        "INSERT INTO timers (timer_id, time)\n            VALUES (4, '90')\n            ON CONFLICT (timer_id)\n            DO UPDATE SET time = excluded.time;"
    );
    assert_eq!(delete_timer_query(4), "delete from timers where timer_id = 4;");
    assert_eq!(get_time_query(-2), "select * from timers where timer_id = -2");
    assert_eq!(timer_get_response(Some(timer)), "90");
    assert_eq!(timer_get_response(None), "No timer");
}

#[test]
fn subathon_feed() {
    assert_eq!(next_thread_id(0, 5), 5);
    assert_eq!(next_thread_id(5, 7), 5);
    assert_eq!(next_thread_id(5, 0), 0);
    assert_eq!(next_thread_id(0, 0), 0);
    assert_eq!(dec_time(10, 5, 5), (9, true));
    assert_eq!(dec_time(10, 5, 6), (9, false));
    assert_eq!(dec_time(0, 5, 5), (0, false));
    assert_eq!(dec_time(-3, 5, 5), (-3, false));
    assert_eq!(subathon_address(), "ws://127.0.0.1:8080/ws");
    let _ = Tick::new(10);
}

#[test]
fn settings() {
    let c = Config::new(Config {
        twitch: Twitch { token: "t".into(), channel: "c".into() },
        sql_path: "db.sqlite".into(),
    });
    assert_eq!(c.twitch.token, "t");
    assert_eq!(c.twitch.channel, "c");
    assert_eq!(c.sql_path, "db.sqlite");
    let o = Opt::default();
    assert_eq!(o.addr, "localhost");
    assert_eq!(o.port, 8080);
    assert_eq!(o.static_dir, "./dist");
    assert_eq!(o.config, "./config.toml");
}

#[test]
fn writer_sends_once_per_second_unless_paused() {
    assert!(should_send(false, 0, 1));
    assert!(!should_send(false, 7, 7));
    assert!(!should_send(true, 0, 1));
    assert!(!should_send(true, 3, 3));
}

#[test]
fn flip_pause_message_flips() {
    assert!(paused_after(false, "flip_pause"));
    assert!(!paused_after(true, "flip_pause"));
    assert!(!paused_after(false, "flip"));
    assert!(paused_after(true, ""));
}

#[test]
fn writer_run_sends_once_per_second() {
    let seen = [(false, 5u64), (false, 5), (true, 6), (false, 6), (false, 6), (false, 9)];
    let mut last = 0u64;
    let mut sent = Vec::new();
    for (paused, now) in seen {
        if should_send(paused, last, now) {
            last = now;
            sent.push(now);
        }
    }
    assert_eq!(sent, vec![5, 6, 9]);
}

#[test]
fn stored_timer_reads_back() {
    let t = Timer { timer: Time::from(3725), id: 4, browser: false };
    assert!(create_timer_query(&t).contains("VALUES (4, '3725')"));
    let back = timer_from_rows(&vec![(4, 3725)]).unwrap();
    assert_eq!(back.id, 4);
    assert_eq!(back.timer, Time::from(3725));
    assert!(!back.browser);
    assert!(timer_from_rows(&vec![]).is_none());
}
