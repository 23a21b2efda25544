use streamer_tools::clock::{format_clock, Data, Msg, Props, TickMode, Time, Timer, SUB_TIMER};
use streamer_tools::num_text::{IntErrorKind, ParseIntError};
use streamer_tools::query::query_parser;

fn t(h: i32, m: i32, s: i32) -> Time {
    Time::new(h, m, s)
}

#[test]
fn convert_seconds_splits() {
    assert_eq!(Time::convert_seconds(3725), (1, 2, 5));
    assert_eq!(Time::convert_seconds(59), (0, 0, 59));
    assert_eq!(Time::convert_seconds(-61), (0, -1, -1));
    assert_eq!(Time::convert_seconds(-3725), (-1, -2, -5));
}

#[test]
fn from_and_to_seconds_round_trip() {
    for sec in [0, 1, 59, 60, 3599, 3600, 86399, -1, -3601, i32::MAX, i32::MIN] {
        assert_eq!(Time::from(sec).to_seconds(), sec);
    }
    assert_eq!(Time::from(3725), t(1, 2, 5));
    assert_eq!(t(1, 2, 5).to_seconds(), 3725);
    assert_eq!(Time::convert_time(2, 0, 1), 7201);
}

#[test]
fn add_seconds_and_update() {
    let mut a = t(0, 59, 59);
    a.add_seconds(1);
    assert_eq!(a, t(1, 0, 0));
    a.add_seconds(-3601);
    assert_eq!(a, t(0, 0, -1));
    a.update(61);
    assert_eq!(a, t(0, 1, 1));
}

#[test]
fn inc_by_one_carries() {
    let mut a = t(0, 59, 59);
    a.inc_by_one();
    assert_eq!(a, t(1, 0, 0));
    let mut b = t(2, 3, 4);
    b.inc_by_one();
    assert_eq!(b, t(2, 3, 5));
    let mut c = t(0, 5, 59);
    c.inc_by_one();
    assert_eq!(c, t(0, 6, 0));
}

#[test]
fn dec_by_one_borrows_and_stops_at_zero() {
    let mut a = t(1, 0, 0);
    a.dec_by_one();
    assert_eq!(a, t(0, 59, 59));
    let mut b = t(0, 1, 0);
    b.dec_by_one();
    assert_eq!(b, t(0, 0, 59));
    let mut z = t(0, 0, 0);
    z.dec_by_one();
    assert_eq!(z, t(0, 0, 0));
}

#[test]
fn from_time_reads_clock_text() {
    assert_eq!(Time::from_time("01:02:03".to_string()), Ok(t(1, 2, 3)));
    assert_eq!(Time::from_time("10:-2:+7:99".to_string()), Ok(t(10, -2, 7)));
    assert_eq!(
        Time::from_time("1:x:3".to_string()),
        Err(ParseIntError { kind: IntErrorKind::InvalidDigit })
    );
    assert_eq!(
        Time::from_time("1::3".to_string()),
        Err(ParseIntError { kind: IntErrorKind::Empty })
    );
}

#[test]
fn format_clock_pads_and_reads_back() {
    let a = t(5, 2, 9);
    let text = format_clock(&a);
    assert_eq!(text, "05:02:09");
    assert_eq!(Time::from_time(text), Ok(a));
    assert_eq!(format_clock(&t(123, -4, 10)), "123:-4:10");
    assert_eq!(format!("{:02}", -4), "-4");
}

#[test]
fn timer_new_and_insert() {
    let mut timer = Timer::new();
    assert_eq!(timer.id, 0);
    assert_eq!(timer.timer, t(0, 0, 0));
    assert!(!timer.browser);
    timer.convert_and_insert(7, 1, 2, 3);
    assert_eq!(timer.id, 7);
    assert_eq!(timer.timer, t(1, 2, 3));
}

#[test]
fn tick_modes() {
    assert_eq!(Timer::tick_mode(SUB_TIMER, "dec"), TickMode::Sub);
    assert_eq!(Timer::tick_mode(1, "sub"), TickMode::Sub);
    assert_eq!(Timer::tick_mode(1, "inc"), TickMode::Inc);
    assert_eq!(Timer::tick_mode(1, "dec"), TickMode::Dec);
    assert_eq!(Timer::tick_mode(1, "anything"), TickMode::Dec);
    assert_eq!(Timer::feed_type(SUB_TIMER, "dec"), "sub");
    assert_eq!(Timer::feed_type(3, "inc"), "inc");
}

#[test]
fn update_on_ticks() {
    let mut props = Props::new();
    let mut timer = Timer::new();
    timer.timer = t(0, 1, 0);
    assert!(timer.update(&props, Msg::Tick(String::new())));
    assert_eq!(timer.timer, t(0, 0, 59));
    props.ftype = "inc".to_string();
    assert!(timer.update(&props, Msg::Tick(String::new())));
    assert_eq!(timer.timer, t(0, 1, 0));
    props.ftype = "sub".to_string();
    assert!(timer.update(&props, Msg::Tick("3661".to_string())));
    assert_eq!(timer.timer, t(1, 1, 1));
    props.paused = true;
    assert!(!timer.update(&props, Msg::Tick("5".to_string())));
    assert_eq!(timer.timer, t(1, 1, 1));
    assert!(timer.update(&props, Msg::Update(62)));
    assert_eq!(timer.timer, t(0, 1, 2));
    assert!(timer.update(&props, Msg::Persistent(Data { data: "x".to_string() })));
    assert_eq!(timer.timer, t(0, 1, 2));
}

#[test]
fn create_from_query() {
    let props = Props::new();
    let q = query_parser("?browser=true&hours=2&minutes=x");
    let timer = Timer::create(&props, &q);
    assert!(timer.browser);
    assert_eq!(timer.timer, t(2, 59, 0));
    let q = query_parser("?delta=3725&hours=9");
    let timer = Timer::create(&props, &q);
    assert_eq!(timer.timer, t(1, 2, 5));
    assert!(!timer.browser);
    let timer = Timer::create(&props, &query_parser(""));
    assert_eq!(timer.timer, t(0, 15, 0));
}
