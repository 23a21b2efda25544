//! The overlay server: its settings, the statements and answers about
//! stored timers, and the bookkeeping of the subathon timer's feed.

use vstd::prelude::*;

use crate::clock::{fits_i32, lemma_from_to_seconds, Time, Timer};
use crate::num_text::{decimal, i64_to_string};
use crate::text::{append_str, str_eq, to_owned_string};

verus! {

/// The overlay server's settings.
pub struct Config {
    pub twitch: Twitch,
    pub sql_path: String,
}

pub struct Twitch {
    pub token: String,
    pub channel: String,
}

impl Config {
    /// The settings as read from the file.
    pub fn new(data: Config) -> (c: Self)
        ensures
            c.twitch.token == data.twitch.token,
            c.twitch.channel == data.twitch.channel,
            c.sql_path == data.sql_path,
    {
        Config {
            twitch: Twitch { token: data.twitch.token, channel: data.twitch.channel },
            sql_path: data.sql_path,
        }
    }
}

/// The seconds of the rows read so far, each cut to `i32` as it is read.
pub open spec fn rows_seconds(rows: Seq<(i64, i64)>) -> int
    decreases rows.len(),
{
    if rows.len() == 0 {
        0
    } else {
        rows_seconds(rows.drop_last()) + (rows.last().1 as i32) as int
    }
}

/// The running sum of the seconds of the rows never leaves `i32`.
pub open spec fn rows_fit(rows: Seq<(i64, i64)>) -> bool {
    forall|k: int| 0 <= k <= rows.len() ==> i32::MIN <= #[trigger] rows_seconds(rows.take(k)) <= i32::MAX
}

/// The timer stored rows describe, as `(timer_id, time)` pairs: its
/// number is that of the last row and its clock shows the seconds of all
/// rows; `None` when there is no row, or the number is -1.
pub fn timer_from_rows(rows: &Vec<(i64, i64)>) -> (r: Option<Timer>)
    requires
        rows_fit(rows@),
    ensures
        rows@.len() == 0 ==> r is None,
        rows@.len() > 0 ==> {
            let id = rows@.last().0 as i32;
            if id == -1 {
                r is None
            } else {
                r matches Some(t) && t.id == id && t.timer == Time::spec_from(
                    rows_seconds(rows@),
                ) && !t.browser
            }
        },
{
    let mut timer = Timer { timer: Time::from(0), id: -1, browser: false };
    proof {
        lemma_from_to_seconds(0);
        assert(rows@.take(0) =~= Seq::<(i64, i64)>::empty());
    }
    let mut i: usize = 0;
    while i < rows.len()
        invariant
            i <= rows@.len(),
            rows_fit(rows@),
            timer.timer == Time::spec_from(rows_seconds(rows@.take(i as int))),
            fits_i32(timer.timer.hours, timer.timer.minutes, timer.timer.seconds),
            timer.timer.total() == rows_seconds(rows@.take(i as int)),
            !timer.browser,
            i == 0 ==> timer.id == -1,
            i > 0 ==> timer.id == rows@[i - 1].0 as i32,
        decreases rows@.len() - i,
    {
        let (id, time) = rows[i];
        assert(rows@.take(i + 1).drop_last() =~= rows@.take(i as int));
        let ghost k = i + 1;
        assert(i32::MIN <= rows_seconds(rows@.take(k)) <= i32::MAX);
        timer.id = id as i32;
        timer.timer.add_seconds(time as i32);
        proof {
            lemma_from_to_seconds(rows_seconds(rows@.take(i + 1)) as i32);
        }
        i = i + 1;
    }
    assert(rows@.take(rows@.len() as int) =~= rows@);
    if timer.id == -1 {
        return None;
    }
    Some(timer)
}

/// The statement that stores a timer's seconds under its number, replacing
/// what was stored.
pub fn create_timer_query(timer: &Timer) -> (q: String)
    requires
        fits_i32(timer.timer.hours, timer.timer.minutes, timer.timer.seconds),
    ensures
        q@ == "INSERT INTO timers (timer_id, time)\n            VALUES ("@ + decimal(
            timer.id as int,
        ) + ", '"@ + decimal(timer.timer.total())
            + "')\n            ON CONFLICT (timer_id)\n            DO UPDATE SET time = excluded.time;"@,
{
    let mut q = to_owned_string("INSERT INTO timers (timer_id, time)\n            VALUES (");
    let id = i64_to_string(timer.id as i64);
    append_str(&mut q, id.as_str());
    append_str(&mut q, ", '");
    let secs = i64_to_string(timer.timer.to_seconds() as i64);
    append_str(&mut q, secs.as_str());
    append_str(
        &mut q,
        "')\n            ON CONFLICT (timer_id)\n            DO UPDATE SET time = excluded.time;",
    );
    q
}

/// The statement that deletes a timer.
pub fn delete_timer_query(timer_id: i32) -> (q: String)
    ensures
        q@ == "delete from timers where timer_id = "@ + decimal(timer_id as int) + ";"@,
{
    let mut q = to_owned_string("delete from timers where timer_id = ");
    let id = i64_to_string(timer_id as i64);
    append_str(&mut q, id.as_str());
    append_str(&mut q, ";");
    q
}

/// The statement that reads a timer.
pub fn get_time_query(timer_id: i32) -> (q: String)
    ensures
        q@ == "select * from timers where timer_id = "@ + decimal(timer_id as int),
{
    let mut q = to_owned_string("select * from timers where timer_id = ");
    let id = i64_to_string(timer_id as i64);
    append_str(&mut q, id.as_str());
    q
}

/// The answer to a request for a timer's seconds.
pub fn timer_get_response(timer: Option<Timer>) -> (r: String)
    requires
        timer matches Some(t) ==> fits_i32(t.timer.hours, t.timer.minutes, t.timer.seconds),
    ensures
        match timer {
            Some(t) => r@ == decimal(t.timer.total()),
            None => r@ == "No timer"@,
        },
{
    match timer {
        Some(t) => i64_to_string(t.timer.to_seconds() as i64),
        None => to_owned_string("No timer"),
    }
}

/// The number of the connection that may store the subathon timer's time
/// after connection `id` announces itself (`id` 0: a connection closed).
/// The first connection to announce itself takes the place; a closing
/// connection frees it.
pub fn next_thread_id(sub: u16, id: u16) -> (r: u16)
    ensures
        r == (if sub == 0 && id != 0 {
            id
        } else if id == 0 {
            0
        } else {
            sub
        }),
{
    if sub == 0 && id != 0 && sub != id {
        return id;
    }
    if id == 0 {
        0
    } else {
        sub
    }
}

/// One second of the subathon timer on the connection `thread_id`: the
/// time shown next, and whether this connection stores it. A time at or
/// below zero stays; only the connection holding the place stores.
pub fn dec_time(time: i32, sub: u16, thread_id: u16) -> (r: (i32, bool))
    ensures
        time <= 0 ==> r == (time, false),
        time > 0 ==> r == ((time - 1) as i32, sub == thread_id),
{
    if time <= 0 {
        return (time, false);
    }
    let time = time - 1;
    if sub != thread_id {
        return (time, false);
    }
    (time, true)
}

/// Whether the subathon timer is paused after a viewer page sent `text`:
/// the message `flip_pause` flips it, any other leaves it.
pub fn paused_after(paused: bool, text: &str) -> (r: bool)
    ensures
        r == (if text@ == "flip_pause"@ {
            !paused
        } else {
            paused
        }),
{
    if str_eq(text, "flip_pause") {
        !paused
    } else {
        paused
    }
}

/// Whether the writer of a connection sends the time now: not while the
/// timer is paused, and once per UNIX second (`last` is the second it last
/// sent in).
pub fn should_send(paused: bool, last: u64, now: u64) -> (r: bool)
    ensures
        r == (!paused && now != last),
{
    !paused && now != last
}

/// The UNIX seconds in which a connection's writer sends, given what it
/// sees at each wake-up (whether the timer is paused, and the current
/// second) and the second it last sent in: it sends when `should_send`
/// says so, and then remembers that second.
pub open spec fn sent_seconds(seen: Seq<(bool, u64)>, last: u64) -> Seq<u64>
    decreases seen.len(),
{
    if seen.len() == 0 {
        Seq::empty()
    } else if !seen[0].0 && seen[0].1 != last {
        seq![seen[0].1] + sent_seconds(seen.skip(1), seen[0].1)
    } else {
        sent_seconds(seen.skip(1), last)
    }
}

/// Over a whole run of a writer whose clock does not go back: it sends in
/// strictly later seconds each time, so never twice in one second, never in
/// the second it last sent in, and only at wake-ups when the timer was not
/// paused.
pub proof fn lemma_writer_run(seen: Seq<(bool, u64)>, last: u64)
    requires
        forall|i: int, j: int| 0 <= i <= j < seen.len() ==> seen[i].1 <= seen[j].1,
        forall|i: int| 0 <= i < seen.len() ==> last <= #[trigger] seen[i].1,
    ensures
        forall|a: int, b: int|
            0 <= a < b < sent_seconds(seen, last).len() ==> sent_seconds(seen, last)[a]
                < sent_seconds(seen, last)[b],
        forall|a: int|
            0 <= a < sent_seconds(seen, last).len() ==> last < #[trigger] sent_seconds(
                seen,
                last,
            )[a],
        forall|a: int|
            #![trigger sent_seconds(seen, last)[a]]
            0 <= a < sent_seconds(seen, last).len() ==> exists|i: int|
                0 <= i < seen.len() && #[trigger] seen[i] == (false, sent_seconds(seen, last)[a]),
    decreases seen.len(),
{
    if seen.len() > 0 {
        let rest = seen.skip(1);
        assert forall|i: int, j: int| 0 <= i <= j < rest.len() implies rest[i].1 <= rest[j].1 by {
            assert(rest[i] == seen[i + 1] && rest[j] == seen[j + 1]);
        }
        if !seen[0].0 && seen[0].1 != last {
            let now = seen[0].1;
            assert forall|i: int| 0 <= i < rest.len() implies now <= #[trigger] rest[i].1 by {
                assert(rest[i] == seen[i + 1]);
            }
            lemma_writer_run(rest, now);
            let tail = sent_seconds(rest, now);
            let all = seq![now] + tail;
            assert(sent_seconds(seen, last) == all);
            assert forall|a: int| #![trigger all[a]] 0 <= a < all.len() implies exists|i: int|
                0 <= i < seen.len() && #[trigger] seen[i] == (false, all[a]) by {
                if a == 0 {
                    assert(seen[0] == (false, all[0]));
                } else {
                    assert(all[a] == tail[a - 1]);
                    let i = choose|i: int| 0 <= i < rest.len() && #[trigger] rest[i] == (false, tail[a - 1]);
                    assert(seen[i + 1] == rest[i]);
                }
            }
            assert forall|a: int, b: int| 0 <= a < b < all.len() implies all[a] < all[b] by {
                assert(all[b] == tail[b - 1]);
                if a > 0 {
                    assert(all[a] == tail[a - 1]);
                }
            }
            assert forall|a: int| 0 <= a < all.len() implies last < #[trigger] all[a] by {
                if a > 0 {
                    assert(all[a] == tail[a - 1]);
                }
            }
        } else {
            assert forall|i: int| 0 <= i < rest.len() implies last <= #[trigger] rest[i].1 by {
                assert(rest[i] == seen[i + 1]);
            }
            lemma_writer_run(rest, last);
            let tail = sent_seconds(rest, last);
            assert(sent_seconds(seen, last) == tail);
            assert forall|a: int| #![trigger tail[a]] 0 <= a < tail.len() implies exists|i: int|
                0 <= i < seen.len() && #[trigger] seen[i] == (false, tail[a]) by {
                let i = choose|i: int| 0 <= i < rest.len() && #[trigger] rest[i] == (false, tail[a]);
                assert(seen[i + 1] == rest[i]);
            }
        }
    }
}

/// A timer stored with `create_timer_query` reads back through
/// `timer_from_rows`: the table then holds one row for its number, with its
/// seconds, and that row is a timer with the same number and the clock
/// `Time::spec_from` of those seconds.
pub proof fn lemma_stored_timer_reads_back(t: Timer)
    requires
        fits_i32(t.timer.hours, t.timer.minutes, t.timer.seconds),
        t.id != -1,
    ensures
        ({
            let rows = seq![(t.id as i64, t.timer.total() as i64)];
            &&& rows_fit(rows)
            &&& rows_seconds(rows) == t.timer.total()
            &&& rows.last().0 as i32 == t.id
        }),
{
    let rows = seq![(t.id as i64, t.timer.total() as i64)];
    let total = t.timer.total();
    assert(i32::MIN <= total <= i32::MAX);
    assert(rows.last().1 == total as i64);
    assert((rows.last().1 as i32) as int == total);
    assert(rows.drop_last() =~= Seq::<(i64, i64)>::empty());
    assert(rows_seconds(rows.drop_last()) == 0);
    assert(rows_seconds(rows) == total);
    assert(rows.take(0) =~= Seq::<(i64, i64)>::empty());
    assert(rows.take(1) =~= rows);
    assert forall|k: int| 0 <= k <= rows.len() implies i32::MIN <= #[trigger] rows_seconds(
        rows.take(k),
    ) <= i32::MAX by {
        if k == 0 {
            assert(rows_seconds(rows.take(0)) == 0);
        } else {
            assert(rows.take(k) == rows);
        }
    }
}

/// The websocket address of the subathon timer's feed.
pub fn subathon_address() -> (r: String)
    ensures
        r@ == "ws://127.0.0.1:8080/ws"@,
{
    to_owned_string("ws://127.0.0.1:8080/ws")
}

/// A once-per-second ticker with an upper bound.
pub struct Tick {
    max: i64,
}

impl Tick {
    pub closed spec fn bound(&self) -> i64 {
        self.max
    }

    pub fn new(max: i64) -> (t: Self)
        ensures
            t.bound() == max,
    {
        Self { max }
    }
}

} // verus!
