//! The backend's stored timers: how database rows become timers, users
//! and tick entries, and the statement that counts running timers down.

use std::str::FromStr;

use vstd::prelude::*;

use crate::num_text::{decimal, i64_to_string};
use crate::text::{append_str, to_owned_string};
use crate::twitch::User;

verus! {

/// What the viewers' events add to a timer, per kind of event.
pub struct IncTimes {
    pub follow: Option<i64>,
    pub sub_t1: Option<i64>,
    pub sub_t2: Option<i64>,
    pub sub_t3: Option<i64>,
    pub dono_each_n: Option<i64>,
    pub dono_n: Option<i64>,
    pub bits_each_n: Option<i64>,
    pub bits_n: Option<i64>,
}

/// A stored timer with its increase rules. `id` holds the 128 bits of its
/// UUID.
pub struct Timer {
    pub id: u128,
    pub timer: Option<i64>,
    pub name: String,
    pub main: bool,
    pub increase_times: IncTimes,
    pub is_active: bool,
    pub color: String,
}

/// A stored timer without its increase rules.
pub struct StrippedTimer {
    pub id: u128,
    pub timer: Option<i64>,
    pub name: String,
    pub main: bool,
    pub is_active: bool,
    pub color: String,
}

/// A timer row as the database returns it; flags are integers and any
/// column but the id and name may be missing.
pub struct TimerRow {
    pub id: String,
    pub name: String,
    pub time: Option<i64>,
    pub main: Option<i64>,
    pub is_active: Option<i64>,
    pub color: Option<String>,
}

/// The 128-bit value of the UUID that `Uuid::from_str` reads from a text,
/// or `None` when the text is no UUID.
pub uninterp spec fn uuid_parse(s: Seq<char>) -> Option<u128>;

/// `uuid::Uuid::from_str`, its result taken as a 128-bit number
/// (`Uuid::as_u128`). The contract names the result `uuid_parse(s)` and
/// says nothing more of it.
#[verifier::external_body]
fn parse_uuid(s: &str) -> (r: Option<u128>)
    ensures
        r == uuid_parse(s@),
{
    match uuid::Uuid::from_str(s) {
        Ok(u) => Some(u.as_u128()),
        Err(_) => None,
    }
}

/// A flag column: set when it holds 1.
pub open spec fn flag(v: Option<i64>) -> bool {
    match v {
        Some(x) => x == 1,
        None => false,
    }
}

fn flag_of(v: Option<i64>) -> (r: bool)
    ensures
        r == flag(v),
{
    match v {
        Some(x) => x == 1,
        None => false,
    }
}

fn time_of(v: Option<i64>) -> (r: Option<i64>)
    ensures
        r == Some(
            match v {
                Some(t) => t,
                None => 0i64,
            },
        ),
{
    match v {
        Some(t) => Some(t),
        None => Some(0),
    }
}

impl Timer {
    /// The timer a row describes, its UUID already read as `parsed_id`: an
    /// id that is no UUID becomes the nil UUID, a missing time 0, a missing
    /// colour `#000`.
    pub fn from_parts(parsed_id: Option<u128>, row: TimerRow, increase_times: IncTimes) -> (t:
        Timer)
        ensures
            t.id == match parsed_id {
                Some(v) => v,
                None => 0u128,
            },
            t.name == row.name,
            t.timer == Some(
                match row.time {
                    Some(x) => x,
                    None => 0i64,
                },
            ),
            t.main == flag(row.main),
            t.is_active == flag(row.is_active),
            t.color@ == match row.color {
                Some(c) => c@,
                None => "#000"@,
            },
            t.increase_times == increase_times,
    {
        let color = match row.color {
            Some(c) => c,
            None => to_owned_string("#000"),
        };
        Timer {
            id: match parsed_id {
                Some(v) => v,
                None => 0,
            },
            name: row.name,
            timer: time_of(row.time),
            main: flag_of(row.main),
            is_active: flag_of(row.is_active),
            color,
            increase_times,
        }
    }

    /// The timer a row describes (see `from_parts`).
    pub fn from_row(row: TimerRow, increase_times: IncTimes) -> (t: Timer)
        ensures
            t.id == match uuid_parse(row.id@) {
                Some(v) => v,
                None => 0u128,
            },
            t.name == row.name,
            t.timer == Some(
                match row.time {
                    Some(x) => x,
                    None => 0i64,
                },
            ),
            t.main == flag(row.main),
            t.is_active == flag(row.is_active),
            t.color@ == match row.color {
                Some(c) => c@,
                None => "#000"@,
            },
            t.increase_times == increase_times,
    {
        let parsed = parse_uuid(row.id.as_str());
        Timer::from_parts(parsed, row, increase_times)
    }
}

impl StrippedTimer {
    /// The timer a row describes, its UUID already read as `parsed_id`: an
    /// id that is no UUID becomes the nil UUID, a missing time 0, a missing
    /// colour `#000000`.
    pub fn from_parts(parsed_id: Option<u128>, row: TimerRow) -> (t: StrippedTimer)
        ensures
            t.id == match parsed_id {
                Some(v) => v,
                None => 0u128,
            },
            t.name == row.name,
            t.timer == Some(
                match row.time {
                    Some(x) => x,
                    None => 0i64,
                },
            ),
            t.main == flag(row.main),
            t.is_active == flag(row.is_active),
            t.color@ == match row.color {
                Some(c) => c@,
                None => "#000000"@,
            },
    {
        let color = match row.color {
            Some(c) => c,
            None => to_owned_string("#000000"),
        };
        StrippedTimer {
            id: match parsed_id {
                Some(v) => v,
                None => 0,
            },
            name: row.name,
            timer: time_of(row.time),
            main: flag_of(row.main),
            is_active: flag_of(row.is_active),
            color,
        }
    }

    /// The timer a row describes (see `from_parts`).
    pub fn from_row(row: TimerRow) -> (t: StrippedTimer)
        ensures
            t.id == match uuid_parse(row.id@) {
                Some(v) => v,
                None => 0u128,
            },
            t.name == row.name,
            t.timer == Some(
                match row.time {
                    Some(x) => x,
                    None => 0i64,
                },
            ),
            t.main == flag(row.main),
            t.is_active == flag(row.is_active),
            t.color@ == match row.color {
                Some(c) => c@,
                None => "#000000"@,
            },
    {
        let parsed = parse_uuid(row.id.as_str());
        StrippedTimer::from_parts(parsed, row)
    }
}

/// An active timer as the tick message lists it: its id and its time as
/// text, a missing time being 0.
pub fn active_timer_entry(id: String, time: Option<i64>) -> (r: (String, String))
    ensures
        r.0 == id,
        r.1@ == decimal(
            match time {
                Some(t) => t as int,
                None => 0,
            },
        ),
{
    let t = match time {
        Some(t) => t,
        None => 0,
    };
    (id, i64_to_string(t))
}

fn text_or_empty(v: Option<String>) -> (r: String)
    ensures
        r@ == match v {
            Some(s) => s@,
            None => Seq::<char>::empty(),
        },
{
    match v {
        Some(s) => s,
        None => String::new(),
    }
}

/// The user a row of `user_data` describes; missing columns are empty.
pub fn user_from_row(
    id: Option<String>,
    username: Option<String>,
    display_name: Option<String>,
    profile_pic: Option<String>,
    broadcaster_type: Option<String>,
) -> (u: User)
    ensures
        u.id@ == match id {
            Some(s) => s@,
            None => Seq::<char>::empty(),
        },
        u.login@ == match username {
            Some(s) => s@,
            None => Seq::<char>::empty(),
        },
        u.display_name@ == match display_name {
            Some(s) => s@,
            None => Seq::<char>::empty(),
        },
        u.broadcaster_type@ == match broadcaster_type {
            Some(s) => s@,
            None => Seq::<char>::empty(),
        },
        u.profile_image_url@ == match profile_pic {
            Some(s) => s@,
            None => Seq::<char>::empty(),
        },
{
    User {
        id: text_or_empty(id),
        login: text_or_empty(username),
        display_name: text_or_empty(display_name),
        broadcaster_type: text_or_empty(broadcaster_type),
        profile_image_url: text_or_empty(profile_pic),
    }
}

/// `n` statement placeholders separated by commas: `?,?,...,?`.
pub open spec fn placeholders(n: nat) -> Seq<char>
    decreases n,
{
    if n == 0 {
        Seq::empty()
    } else if n == 1 {
        "?"@
    } else {
        placeholders((n - 1) as nat) + ",?"@
    }
}

/// The statement that counts down, by one second, the active counting-down
/// timers among `n` ids bound to it.
pub fn dec_all_query(n: usize) -> (q: String)
    ensures
        q@ == "update timer set time = time - 1 where is_active = 1 and type = 0 and id in ("@
            + placeholders(n as nat) + ")"@,
{
    let mut q = to_owned_string(
        "update timer set time = time - 1 where is_active = 1 and type = 0 and id in (",
    );
    let ghost head = q@;
    let mut i: usize = 0;
    while i < n
        invariant
            i <= n,
            q@ == head + placeholders(i as nat),
        decreases n - i,
    {
        if i == 0 {
            append_str(&mut q, "?");
        } else {
            append_str(&mut q, ",?");
        }
        assert(q@ =~= head + placeholders((i + 1) as nat));
        i = i + 1;
    }
    append_str(&mut q, ")");
    q
}

} // verus!
