//! The clock face of a stream timer: hours, minutes and seconds, converted
//! to and from a number of seconds, and ticked up or down by one second.

use vstd::prelude::*;
use vstd::hash_map::StringHashMap;

use crate::num_text::{
    decimal,
    i64_to_string,
    parse_i32,
    spec_parse_i32,
    IntErrorKind,
    ParseIntError,
};
use crate::text::{append_str, spec_split, split_char, str_eq, to_owned_string};


verus! {

/// Integer division that rounds toward zero, as Rust's `/` does.
pub open spec fn tdiv(a: int, d: int) -> int {
    if a >= 0 {
        a / d
    } else {
        -((-a) / d)
    }
}

/// The remainder that goes with `tdiv`, as Rust's `%` gives it.
pub open spec fn trem(a: int, d: int) -> int {
    a - d * tdiv(a, d)
}

/// Hours, minutes and seconds of a number of seconds, each part as Rust's
/// `/` and `%` compute it.
pub open spec fn split_seconds(sec: int) -> (int, int, int) {
    (tdiv(tdiv(sec, 60), 60), trem(tdiv(sec, 60), 60), trem(sec, 60))
}

/// The number of seconds in `hours:minutes:seconds`.
pub open spec fn total_seconds(hours: int, minutes: int, seconds: int) -> int {
    hours * 3600 + minutes * 60 + seconds
}

/// `hours * 3600 + minutes * 60 + seconds` can be computed in `i32`
/// without any step overflowing.
pub open spec fn fits_i32(hours: i32, minutes: i32, seconds: i32) -> bool {
    &&& i32::MIN <= hours * 3600 <= i32::MAX
    &&& i32::MIN <= minutes * 60 <= i32::MAX
    &&& i32::MIN <= hours * 3600 + minutes * 60 <= i32::MAX
    &&& i32::MIN <= total_seconds(hours as int, minutes as int, seconds as int) <= i32::MAX
}

/// A clock value with hours, minutes and seconds.
#[derive(Clone, Copy, Debug, PartialEq, Eq, Structural)]
pub struct Time {
    pub hours: i32,
    pub minutes: i32,
    pub seconds: i32,
}

impl Time {
    /// The number of seconds this clock shows.
    pub open spec fn total(self) -> int {
        total_seconds(self.hours as int, self.minutes as int, self.seconds as int)
    }

    /// Minutes and seconds lie in `0..60` and hours are not negative.
    pub open spec fn normalized(self) -> bool {
        &&& self.hours >= 0
        &&& 0 <= self.minutes < 60
        &&& 0 <= self.seconds < 60
    }

    /// The clock `Time::from(sec)` builds.
    pub open spec fn spec_from(sec: int) -> Time {
        let (h, m, s) = split_seconds(sec);
        Time { hours: h as i32, minutes: m as i32, seconds: s as i32 }
    }

    pub fn new(hours: i32, minutes: i32, seconds: i32) -> (t: Self)
        ensures
            t == (Time { hours, minutes, seconds }),
    {
        Self { hours, minutes, seconds }
    }

    /// Construct from seconds
    pub fn from(sec: i32) -> (t: Self)
        ensures
            t == Time::spec_from(sec as int),
    {
        let (hours, minutes, seconds) = Time::convert_seconds(sec);
        Self { hours, minutes, seconds }
    }

    /// Like the from the difference is just that you dont get an instance, you just get the values
    /// hours -> minutes -> seconds
    pub fn convert_seconds(sec: i32) -> (r: (i32, i32, i32))
        ensures
            r.0 as int == split_seconds(sec as int).0,
            r.1 as int == split_seconds(sec as int).1,
            r.2 as int == split_seconds(sec as int).2,
    {
        proof {
            lemma_trunc_div_mod(sec as int, 60);
            lemma_trunc_div_mod(tdiv(sec as int, 60), 60);
        }
        let seconds = sec % 60;
        let minutes = (sec / 60) % 60;
        let hours = (sec / 60) / 60;
        (hours, minutes, seconds)
    }

    /// Convert the Time structs elements to seconds
    pub fn to_seconds(&self) -> (r: i32)
        requires
            fits_i32(self.hours, self.minutes, self.seconds),
        ensures
            r as int == self.total(),
    {
        (self.hours * (60 * 60)) + (self.minutes * 60) + self.seconds
    }

    /// like to_seconds just that you dont have to have instance of the struct to use it
    pub fn convert_time(hours: i32, minutes: i32, seconds: i32) -> (r: i32)
        requires
            fits_i32(hours, minutes, seconds),
        ensures
            r as int == total_seconds(hours as int, minutes as int, seconds as int),
    {
        (hours * (60 * 60)) + (minutes * 60) + seconds
    }

    pub fn add_seconds(&mut self, sec: i32)
        requires
            fits_i32(old(self).hours, old(self).minutes, old(self).seconds),
            i32::MIN <= old(self).total() + sec <= i32::MAX,
        ensures
            *final(self) == Time::spec_from(old(self).total() + sec),
    {
        let pre_sec = self.to_seconds();
        let ret = Self::from(pre_sec + sec);
        self.hours = ret.hours;
        self.minutes = ret.minutes;
        self.seconds = ret.seconds;
    }

    pub fn update(&mut self, sec: i32)
        ensures
            *final(self) == Time::spec_from(sec as int),
    {
        let (hours, minutes, seconds) = Self::convert_seconds(sec);
        self.hours = hours;
        self.minutes = minutes;
        self.seconds = seconds;
    }

    pub fn inc_by_one(&mut self)
        requires
            old(self).seconds < i32::MAX,
            old(self).seconds + 1 == 60 ==> old(self).minutes < i32::MAX,
            old(self).seconds + 1 == 60 && old(self).minutes + 1 == 60 ==> old(self).hours
                < i32::MAX,
        ensures
            *final(self) == Time::spec_inc(*old(self)),
    {
        self.seconds += 1;
        if self.seconds == 60 {
            self.seconds = 0;
            self.minutes += 1;
            if self.minutes == 60 {
                self.minutes = 0;
                self.hours += 1;
            }
        }
    }

    /// The clock one second later, as `inc_by_one` moves it.
    pub open spec fn spec_inc(t: Time) -> Time {
        if t.seconds + 1 == 60 {
            if t.minutes + 1 == 60 {
                Time { hours: (t.hours + 1) as i32, minutes: 0, seconds: 0 }
            } else {
                Time { hours: t.hours, minutes: (t.minutes + 1) as i32, seconds: 0 }
            }
        } else {
            Time { seconds: (t.seconds + 1) as i32, ..t }
        }
    }

    /// The clock one second earlier, stopping at zero, as `dec_by_one`
    /// moves it.
    pub open spec fn spec_dec(t: Time) -> Time {
        if t.seconds > 0 {
            Time { seconds: (t.seconds - 1) as i32, ..t }
        } else if t.minutes > 0 {
            Time { minutes: (t.minutes - 1) as i32, seconds: 59, ..t }
        } else if t.hours > 0 {
            Time { hours: (t.hours - 1) as i32, minutes: 59, seconds: 59 }
        } else {
            t
        }
    }

    pub fn dec_by_one(&mut self)
        ensures
            *final(self) == Time::spec_dec(*old(self)),
    {
        if self.seconds > 0 {
            self.seconds -= 1;
        } else if self.minutes > 0 {
            self.minutes -= 1;
            self.seconds = 59;
        } else if self.hours > 0 {
            self.hours -= 1;
            self.minutes = 59;
            self.seconds = 59;
        }
    }
}

/// Splitting a number of seconds into a clock and adding the parts back
/// up gives the number again, and the sum can be computed in `i32`.
pub proof fn lemma_from_to_seconds(sec: i32)
    ensures
        fits_i32(
            Time::spec_from(sec as int).hours,
            Time::spec_from(sec as int).minutes,
            Time::spec_from(sec as int).seconds,
        ),
        Time::spec_from(sec as int).total() == sec,
{
    let q = tdiv(sec as int, 60);
    lemma_trunc_div_mod(sec as int, 60);
    lemma_trunc_div_mod(q, 60);
    let h = tdiv(q, 60);
    let m = trem(q, 60);
    let s = trem(sec as int, 60);
    assert(h * 3600 == 60 * (60 * h)) by (nonlinear_arith);
    assert(60 * q == 60 * (60 * h + m)) by (nonlinear_arith)
        requires
            q == 60 * h + m,
    ;
    if sec >= 0 {
        assert(0 <= 60 * q <= sec) by (nonlinear_arith)
            requires
                sec == 60 * q + s,
                0 <= s,
                q >= 0,
        ;
        assert(0 <= 3600 * h <= 60 * q) by (nonlinear_arith)
            requires
                q == 60 * h + m,
                0 <= m,
                h >= 0,
        ;
    } else {
        assert(sec <= 60 * q <= 0) by (nonlinear_arith)
            requires
                sec == 60 * q + s,
                s <= 0,
                q <= 0,
        ;
        assert(60 * q <= 3600 * h <= 0) by (nonlinear_arith)
            requires
                q == 60 * h + m,
                m <= 0,
                h <= 0,
        ;
    }
}

/// A clock whose minutes and seconds lie in `0..60` is rebuilt exactly from
/// the number of seconds it shows.
pub proof fn lemma_to_seconds_from(t: Time)
    requires
        t.normalized(),
        t.total() <= i32::MAX,
    ensures
        Time::spec_from(t.total()) == t,
{
    let sec = t.total();
    let q = 60 * t.hours + t.minutes;
    assert(sec == 60 * q + t.seconds) by (nonlinear_arith)
        requires
            sec == t.hours * 3600 + t.minutes * 60 + t.seconds,
            q == 60 * t.hours + t.minutes,
    ;
    assert(q >= 0);
    lemma_div_unique(sec, 60, q, t.seconds as int);
    lemma_div_unique(q, 60, t.hours as int, t.minutes as int);
}

/// Division of a non-negative number with a known quotient and remainder.
proof fn lemma_div_unique(a: int, d: int, q: int, r: int)
    requires
        d > 0,
        q >= 0,
        0 <= r < d,
        a == d * q + r,
    ensures
        tdiv(a, d) == q,
        trem(a, d) == r,
{
    assert(a >= 0) by (nonlinear_arith)
        requires
            d > 0,
            q >= 0,
            r >= 0,
            a == d * q + r,
    ;
    assert(a / d == q) by (nonlinear_arith)
        requires
            d > 0,
            0 <= r < d,
            a == d * q + r,
    ;
}

/// One second up from a clock with minutes and seconds in `0..60` shows
/// one second more, and keeps them in range.
pub proof fn lemma_inc_adds_one(t: Time)
    requires
        t.normalized(),
        t.hours < i32::MAX,
    ensures
        Time::spec_inc(t).total() == t.total() + 1,
        Time::spec_inc(t).normalized(),
{
}

/// One second down from a clock with minutes and seconds in `0..60` shows
/// one second less, unless it already shows zero, where it stays.
pub proof fn lemma_dec_subtracts_one(t: Time)
    requires
        t.normalized(),
    ensures
        t.total() > 0 ==> Time::spec_dec(t).total() == t.total() - 1,
        t.total() == 0 ==> Time::spec_dec(t) == t,
        Time::spec_dec(t).normalized(),
{
    if t.seconds == 0 && t.minutes == 0 && t.hours == 0 {
        assert(t.total() == 0);
    } else {
        assert(t.total() > 0) by (nonlinear_arith)
            requires
                t.hours >= 0,
                t.minutes >= 0,
                t.seconds >= 0,
                t.hours > 0 || t.minutes > 0 || t.seconds > 0,
                t.total() == t.hours * 3600 + t.minutes * 60 + t.seconds,
        ;
    }
}

/// Adding seconds to a clock moves the number of seconds it shows by that
/// amount.
pub proof fn lemma_add_seconds_total(t: Time, sec: i32)
    requires
        fits_i32(t.hours, t.minutes, t.seconds),
        i32::MIN <= t.total() + sec <= i32::MAX,
    ensures
        Time::spec_from(t.total() + sec).total() == t.total() + sec,
{
    lemma_from_to_seconds((t.total() + sec) as i32);
}

/// The clock `Time::from_time` reads from `hh:mm:ss` text.
pub open spec fn spec_from_time(s: Seq<char>) -> Result<Time, IntErrorKind> {
    let items = spec_split(s, ':');
    match spec_parse_i32(items[0]) {
        Err(e) => Err(e),
        Ok(h) => match spec_parse_i32(items[1]) {
            Err(e) => Err(e),
            Ok(m) => match spec_parse_i32(items[2]) {
                Err(e) => Err(e),
                Ok(sec) => Ok(Time { hours: h, minutes: m, seconds: sec }),
            },
        },
    }
}

impl Time {
    // From time in this case is ex. XX:XX:XX
    pub fn from_time(timer: String) -> (r: Result<Self, ParseIntError>)
        requires
            spec_split(timer@, ':').len() >= 3,
        ensures
            match r {
                Ok(t) => spec_from_time(timer@) == Ok::<Time, IntErrorKind>(t),
                Err(e) => spec_from_time(timer@) == Err::<Time, IntErrorKind>(e.kind),
            },
    {
        let items = split_char(timer.as_str(), ':');
        let hours = parse_i32(items[0].as_str())?;
        let minutes = parse_i32(items[1].as_str())?;
        let seconds = parse_i32(items[2].as_str())?;
        Ok(Self::new(hours, minutes, seconds))
    }
}

/// The number of the timer that follows the subathon feed.
pub const SUB_TIMER: i32 = 6969;

/// A message addressed to a timer on the page.
pub enum Msg {
    /// One tick from the feed, with the text it carried.
    Tick(String),
    Persistent(Data),
    /// Show this number of seconds.
    Update(i32),
}

/// A piece of text fetched for a component.
#[derive(Debug, PartialEq, Eq)]
pub struct Data {
    pub data: String,
}

/// The settings a timer on the page is created with.
pub struct Props {
    pub hour: i32,
    pub minute: i32,
    pub second: i32,
    pub delta: i32,
    pub timer_id: i32,
    pub browser: bool,
    pub ftype: String,
    pub paused: bool,
}

impl Props {
    /// The settings a timer gets when none are given.
    pub fn new() -> (p: Self)
        ensures
            p.hour == 0,
            p.minute == 15,
            p.second == 0,
            p.delta == 0,
            p.timer_id == 0,
            !p.browser,
            p.ftype@ == "dec"@,
            !p.paused,
    {
        let ftype = to_owned_string("dec");
        Props {
            hour: 0,
            minute: 15,
            second: 0,
            delta: 0,
            timer_id: 0,
            browser: false,
            ftype,
            paused: false,
        }
    }
}

/// How a tick moves a timer: set from the feed, count up, or count down.
#[derive(Clone, Copy, Debug, PartialEq, Eq, Structural)]
pub enum TickMode {
    Sub,
    Inc,
    Dec,
}

/// The way a timer of this number and feed type handles a tick.
pub open spec fn spec_tick_mode(timer_id: i32, ftype: Seq<char>) -> TickMode {
    if timer_id == SUB_TIMER || ftype == "sub"@ {
        TickMode::Sub
    } else if ftype == "inc"@ {
        TickMode::Inc
    } else {
        TickMode::Dec
    }
}

/// A timer on the page: its clock, its number, and whether it fills the
/// whole browser window.
pub struct Timer {
    pub timer: Time,
    pub id: i32,
    pub browser: bool,
}

/// The number a query parameter gives: its value, or 59 when it is no
/// number.
pub open spec fn spec_param_value(v: Seq<char>) -> i32 {
    match spec_parse_i32(v) {
        Ok(n) => n,
        Err(_) => 59,
    }
}

/// The number the query gives under `key`, if any.
pub open spec fn spec_query_number(q: Map<Seq<char>, String>, key: Seq<char>) -> Option<i32> {
    if q.contains_key(key) {
        Some(spec_param_value(q[key]@))
    } else {
        None
    }
}

impl Timer {
    pub fn new() -> (t: Timer)
        ensures
            t.id == 0,
            t.timer == Time::spec_from(0),
            !t.browser,
    {
        Self { id: 0, timer: Time::from(0), browser: false }
    }

    pub fn convert_and_insert(&mut self, id: i32, hours: i32, minutes: i32, seconds: i32)
        ensures
            final(self).id == id,
            final(self).timer == (Time { hours, minutes, seconds }),
            final(self).browser == old(self).browser,
    {
        self.id = id;
        self.timer = Time::new(hours, minutes, seconds);
    }

    /// How this timer handles a tick, given its feed type.
    pub fn tick_mode(timer_id: i32, ftype: &str) -> (m: TickMode)
        ensures
            m == spec_tick_mode(timer_id, ftype@),
    {
        if timer_id == SUB_TIMER || str_eq(ftype, "sub") {
            TickMode::Sub
        } else if str_eq(ftype, "inc") {
            TickMode::Inc
        } else {
            TickMode::Dec
        }
    }

    /// The feed a timer listens to: `sub` for the subathon timer, else its
    /// own feed type.
    pub fn feed_type(timer_id: i32, ftype: &str) -> (r: String)
        ensures
            timer_id == SUB_TIMER ==> r@ == "sub"@,
            timer_id != SUB_TIMER ==> r@ == ftype@,
    {
        if timer_id == SUB_TIMER {
            to_owned_string("sub")
        } else {
            to_owned_string(ftype)
        }
    }

    /// Builds a timer from its settings and the page's query parameters:
    /// `browser=true` fills the window; a `delta` (from the query or the
    /// settings) sets the clock from seconds, otherwise `hours`, `minutes`
    /// and `seconds` do, each falling back to the settings. A parameter
    /// that is no number counts as 59.
    pub fn create(props: &Props, query: &StringHashMap<String>) -> (t: Timer)
        ensures
            t.id == props.timer_id,
            t.browser == (if query@.contains_key("browser"@) {
                query@["browser"@]@ == "true"@
            } else {
                props.browser
            }),
            ({
                let q = query@;
                let delta = spec_query_number(q, "delta"@);
                if delta is Some || props.delta != 0 {
                    t.timer == Time::spec_from(
                        (if delta is Some {
                            delta->0
                        } else {
                            props.delta
                        }) as int,
                    )
                } else {
                    &&& t.timer.hours == (match spec_query_number(
                        q,
                        "hours"@,
                    ) {
                        Some(v) => v,
                        None => props.hour,
                    })
                    &&& t.timer.minutes == (match spec_query_number(
                        q,
                        "minutes"@,
                    ) {
                        Some(v) => v,
                        None => props.minute,
                    })
                    &&& t.timer.seconds == (match spec_query_number(
                        q,
                        "seconds"@,
                    ) {
                        Some(v) => v,
                        None => props.second,
                    })
                }
            }),
    {
        let browser = match query.get("browser") {
            Some(v) => str_eq(v.as_str(), "true"),
            None => props.browser,
        };
        let delta = query_number(query, "delta");
        let timer = if delta.is_some() || props.delta != 0 {
            let d = match delta {
                Some(v) => v,
                None => props.delta,
            };
            Time::from(d)
        } else {
            Time {
                hours: match query_number(query, "hours") {
                    Some(v) => v,
                    None => props.hour,
                },
                minutes: match query_number(query, "minutes") {
                    Some(v) => v,
                    None => props.minute,
                },
                seconds: match query_number(query, "seconds") {
                    Some(v) => v,
                    None => props.second,
                },
            }
        };
        Timer { timer, browser, id: props.timer_id }
    }

    /// Handles a message; returns whether the page must redraw. A paused
    /// timer ignores ticks. A tick sets the clock from the number it
    /// carries for the subathon feed, counts up for `inc` and down
    /// otherwise.
    pub fn update(&mut self, props: &Props, msg: Msg) -> (redraw: bool)
        requires
            match msg {
                Msg::Tick(text) => !props.paused && spec_tick_mode(props.timer_id, props.ftype@)
                    == TickMode::Sub ==> spec_parse_i32(text@) is Ok,
                _ => true,
            },
            msg matches Msg::Tick(_) && !props.paused && spec_tick_mode(
                props.timer_id,
                props.ftype@,
            ) == TickMode::Inc ==> {
                &&& old(self).timer.seconds < i32::MAX
                &&& old(self).timer.seconds + 1 == 60 ==> old(self).timer.minutes < i32::MAX
                &&& old(self).timer.seconds + 1 == 60 && old(self).timer.minutes + 1 == 60
                    ==> old(self).timer.hours < i32::MAX
            },
        ensures
            final(self).id == old(self).id,
            final(self).browser == old(self).browser,
            match msg {
                Msg::Tick(text) => if props.paused {
                    !redraw && final(self).timer == old(self).timer
                } else {
                    redraw && final(self).timer == match spec_tick_mode(
                        props.timer_id,
                        props.ftype@,
                    ) {
                        TickMode::Sub => Time::spec_from(
                            spec_parse_i32(text@)->Ok_0 as int,
                        ),
                        TickMode::Inc => Time::spec_inc(old(self).timer),
                        TickMode::Dec => Time::spec_dec(old(self).timer),
                    }
                },
                Msg::Persistent(_) => redraw && final(self).timer == old(self).timer,
                Msg::Update(sec) => redraw && final(self).timer == Time::spec_from(sec as int),
            },
    {
        match msg {
            Msg::Tick(text) => {
                if props.paused {
                    return false;
                }
                match Self::tick_mode(props.timer_id, props.ftype.as_str()) {
                    TickMode::Sub => {
                        let n = match parse_i32(text.as_str()) {
                            Ok(n) => n,
                            Err(_) => 0,
                        };
                        self.timer.update(n);
                    },
                    TickMode::Inc => {
                        self.timer.inc_by_one();
                    },
                    TickMode::Dec => {
                        self.timer.dec_by_one();
                    },
                }
            },
            Msg::Persistent(_) => {},
            Msg::Update(time) => {
                self.timer = Time::from(time);
            },
        }
        true
    }
}

/// The number the query gives under `key`: its value, or 59 when that is
/// no number.
fn query_number(query: &StringHashMap<String>, key: &str) -> (r: Option<i32>)
    ensures
        r == spec_query_number(query@, key@),
{
    match query.get(key) {
        Some(v) => match parse_i32(v.as_str()) {
            Ok(n) => Some(n),
            Err(_) => Some(59),
        },
        None => None,
    }
}

/// A number shown with two digits at least, as `{:02}` shows it: a
/// leading zero for 0 to 9, else its decimal text.
pub open spec fn two_digits(n: int) -> Seq<char> {
    if 0 <= n < 10 {
        seq!['0'] + decimal(n)
    } else {
        decimal(n)
    }
}

/// The `hh:mm:ss` text a timer shows.
pub open spec fn clock_text(t: Time) -> Seq<char> {
    two_digits(t.hours as int) + seq![':'] + two_digits(t.minutes as int) + seq![':'] + two_digits(
        t.seconds as int,
    )
}

fn push_two_digits(out: &mut String, n: i32)
    ensures
        final(out)@ == old(out)@ + two_digits(n as int),
{
    if 0 <= n && n < 10 {
        crate::num_text::push_char(out, '0');
    }
    let d = i64_to_string(n as i64);
    append_str(out, d.as_str());
    assert(final(out)@ =~= old(out)@ + two_digits(n as int));
}

/// The text a timer shows: `hh:mm:ss`, each part with two digits at least.
pub fn format_clock(t: &Time) -> (r: String)
    ensures
        r@ == clock_text(*t),
{
    let mut r = String::new();
    push_two_digits(&mut r, t.hours);
    crate::num_text::push_char(&mut r, ':');
    push_two_digits(&mut r, t.minutes);
    crate::num_text::push_char(&mut r, ':');
    push_two_digits(&mut r, t.seconds);
    assert(r@ =~= clock_text(*t));
    r
}

/// What a timer shows is read back by `from_time` as the same clock.
pub proof fn lemma_clock_text_read_back(t: Time)
    ensures
        spec_split(clock_text(t), ':').len() == 3,
        spec_from_time(clock_text(t)) == Ok::<Time, IntErrorKind>(t),
{
    let h = two_digits(t.hours as int);
    let m = two_digits(t.minutes as int);
    let s = two_digits(t.seconds as int);
    lemma_two_digits(t.hours);
    lemma_two_digits(t.minutes);
    lemma_two_digits(t.seconds);
    crate::text::lemma_split_single(h, ':');
    crate::text::lemma_split_single(m, ':');
    crate::text::lemma_split_single(s, ':');
    crate::text::lemma_split_concat(h + seq![':'] + m, s, ':');
    crate::text::lemma_split_concat(h, m, ':');
    assert(clock_text(t) == h + seq![':'] + m + seq![':'] + s);
    let items = spec_split(clock_text(t), ':');
    assert(items =~= seq![h, m, s]);
}

/// `from_time` reads each of the first three `:`-separated pieces as an
/// `i32`, whatever their form: when all three parse, the clock holds them as
/// hours, minutes and seconds; otherwise the first failing piece gives the
/// error.
pub proof fn lemma_from_time_reads_pieces(s: Seq<char>)
    requires
        spec_split(s, ':').len() >= 3,
    ensures
        ({
            let items = spec_split(s, ':');
            match (spec_parse_i32(items[0]), spec_parse_i32(items[1]), spec_parse_i32(items[2])) {
                (Ok(h), Ok(m), Ok(sec)) => spec_from_time(s) == Ok::<Time, IntErrorKind>(
                    Time { hours: h, minutes: m, seconds: sec },
                ),
                (Err(e), _, _) => spec_from_time(s) == Err::<Time, IntErrorKind>(e),
                (Ok(_), Err(e), _) => spec_from_time(s) == Err::<Time, IntErrorKind>(e),
                (Ok(_), Ok(_), Err(e)) => spec_from_time(s) == Err::<Time, IntErrorKind>(e),
            }
        }),
{
}

/// Plain decimal text `h:m:s`, with any number of digits and no padding
/// (such as `1:30:0`), reads back as the clock of those three numbers.
pub proof fn lemma_from_time_decimal(h: i32, m: i32, sec: i32)
    ensures
        ({
            let text = decimal(h as int) + seq![':'] + decimal(m as int) + seq![':'] + decimal(
                sec as int,
            );
            &&& spec_split(text, ':').len() == 3
            &&& spec_from_time(text) == Ok::<Time, IntErrorKind>(
                Time { hours: h, minutes: m, seconds: sec },
            )
        }),
{
    let a = decimal(h as int);
    let b = decimal(m as int);
    let c = decimal(sec as int);
    crate::num_text::lemma_decimal_no_colon(h as int);
    crate::num_text::lemma_decimal_no_colon(m as int);
    crate::num_text::lemma_decimal_no_colon(sec as int);
    crate::num_text::lemma_parse_decimal(h);
    crate::num_text::lemma_parse_decimal(m);
    crate::num_text::lemma_parse_decimal(sec);
    crate::text::lemma_split_single(a, ':');
    crate::text::lemma_split_single(b, ':');
    crate::text::lemma_split_single(c, ':');
    crate::text::lemma_split_concat(a + seq![':'] + b, c, ':');
    crate::text::lemma_split_concat(a, b, ':');
    let text = a + seq![':'] + b + seq![':'] + c;
    let items = spec_split(text, ':');
    assert(items =~= seq![a, b, c]);
}

/// Each part of a shown clock is what `{:02}` shows: from 0 to 99 exactly
/// two digits, the tens then the ones (a leading `0` below 10 only); from
/// 10 on, and below 0, the plain decimal text with no zero added.
pub proof fn lemma_two_digits_is_padded(n: int)
    ensures
        0 <= n < 100 ==> two_digits(n) == seq![
            crate::num_text::digit_char(n / 10),
            crate::num_text::digit_char(n % 10),
        ],
        (n >= 10 || n < 0) ==> two_digits(n) == decimal(n),
        0 <= n < 10 ==> two_digits(n) == seq!['0'] + decimal(n),
{
    if 0 <= n < 10 {
        crate::num_text::lemma_small_decimal(n);
        assert(n / 10 == 0 && n % 10 == n);
        assert(two_digits(n) =~= seq!['0', crate::num_text::digit_char(n)]);
    } else if 10 <= n < 100 {
        let q = n / 10;
        let r = n % 10;
        assert(0 < q < 10 && 0 <= r < 10);
        assert((n as nat) / 10 == q as nat && (n as nat) % 10 == r as nat);
        assert(crate::num_text::nat_digits(q as nat) == seq![crate::num_text::digit_char(q)]);
        assert(crate::num_text::nat_digits(n as nat) == crate::num_text::nat_digits(
            q as nat,
        ).push(crate::num_text::digit_char(r)));
        assert(two_digits(n) =~= seq![
            crate::num_text::digit_char(q),
            crate::num_text::digit_char(r),
        ]);
    }
}

/// A clock whose parts lie in `0..100` shows as eight characters: two
/// digits each for hours, minutes and seconds, separated by `:`.
pub proof fn lemma_clock_text_digits(t: Time)
    requires
        0 <= t.hours < 100,
        0 <= t.minutes < 100,
        0 <= t.seconds < 100,
    ensures
        clock_text(t) == seq![
            crate::num_text::digit_char((t.hours as int) / 10),
            crate::num_text::digit_char((t.hours as int) % 10),
            ':',
            crate::num_text::digit_char((t.minutes as int) / 10),
            crate::num_text::digit_char((t.minutes as int) % 10),
            ':',
            crate::num_text::digit_char((t.seconds as int) / 10),
            crate::num_text::digit_char((t.seconds as int) % 10),
        ],
{
    lemma_two_digits_is_padded(t.hours as int);
    lemma_two_digits_is_padded(t.minutes as int);
    lemma_two_digits_is_padded(t.seconds as int);
    assert(clock_text(t) =~= seq![
        crate::num_text::digit_char((t.hours as int) / 10),
        crate::num_text::digit_char((t.hours as int) % 10),
        ':',
        crate::num_text::digit_char((t.minutes as int) / 10),
        crate::num_text::digit_char((t.minutes as int) % 10),
        ':',
        crate::num_text::digit_char((t.seconds as int) / 10),
        crate::num_text::digit_char((t.seconds as int) % 10),
    ]);
}

/// Two-digit text holds no `:` and reads back as the number.
proof fn lemma_two_digits(n: i32)
    ensures
        !two_digits(n as int).contains(':'),
        spec_parse_i32(two_digits(n as int)) == Ok::<i32, IntErrorKind>(n),
{
    crate::num_text::lemma_decimal_no_colon(n as int);
    if 0 <= n < 10 {
        let t = two_digits(n as int);
        crate::num_text::lemma_small_decimal(n as int);
        assert(t =~= seq!['0', crate::num_text::digit_char(n as int)]);
        assert(t.drop_last() =~= seq!['0']);
        assert(t.drop_last().drop_last() =~= Seq::<char>::empty());
        assert(crate::num_text::accumulate(Seq::<char>::empty(), false) == Ok::<int, IntErrorKind>(
            0,
        ));
        assert(crate::num_text::digit_value('0') == 0);
        assert(crate::num_text::accumulate(seq!['0'], false) == Ok::<int, IntErrorKind>(0));
        assert(crate::num_text::accumulate(t, false) == Ok::<int, IntErrorKind>(n as int));
        assert(!crate::num_text::has_sign(t));
        assert(!t.contains(':')) by {
            assert forall|i: int| 0 <= i < t.len() implies t[i] != ':' by {}
        }
    } else {
        crate::num_text::lemma_parse_decimal(n);
    }
}

/// Rust's `/` and `%` on `i32` agree with `tdiv` and `trem`, and put the
/// number back together.
proof fn lemma_trunc_div_mod(a: int, d: int)
    requires
        d > 0,
    ensures
        a == d * tdiv(a, d) + trem(a, d),
        a >= 0 ==> 0 <= trem(a, d) < d,
        a < 0 ==> -d < trem(a, d) <= 0,
        a >= 0 ==> 0 <= tdiv(a, d) <= a,
        a < 0 ==> a <= tdiv(a, d) <= 0,
{
    if a >= 0 {
        assert(0 <= a % d < d) by (nonlinear_arith)
            requires
                d > 0,
        ;
        assert(a == d * (a / d) + a % d) by (nonlinear_arith)
            requires
                d > 0,
        ;
        assert(0 <= a / d <= a) by (nonlinear_arith)
            requires
                d > 0,
                a >= 0,
        ;
    } else {
        let b = -a;
        assert(0 <= b % d < d) by (nonlinear_arith)
            requires
                d > 0,
        ;
        assert(b == d * (b / d) + b % d) by (nonlinear_arith)
            requires
                d > 0,
        ;
        assert(0 <= b / d <= b) by (nonlinear_arith)
            requires
                d > 0,
                b >= 0,
        ;
        assert(d * (-(b / d)) == -(d * (b / d))) by (nonlinear_arith);
    }
}

} // verus!
