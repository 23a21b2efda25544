//! The HTTP API of the backend: route paths, form bodies for the Twitch
//! token endpoint, and the bookkeeping of which timers have viewers.

use vstd::prelude::*;

use crate::events::ButtonFunction;
use crate::text::{append_str, str_eq, to_owned_string};

verus! {

/// Asks for one timer by its id.
pub struct FetchTimer {
    pub uuid: String,
}

/// A button of the control panel pressed for a timer.
pub struct ButtonPressed {
    pub id: String,
    pub function: ButtonFunction,
}

/// The answer of Twitch's token endpoint.
pub struct AuthTokenResponseOk {
    pub access_token: String,
    pub expires_in: i32,
    pub refresh_token: String,
    pub scope: Vec<String>,
    pub token_type: String,
}

/// The path of an API route: `/api/v1` followed by `input`.
pub fn pre(input: &str) -> (r: String)
    ensures
        r@ == "/api/v1"@ + input@,
{
    let mut r = to_owned_string("/api/v1");
    append_str(&mut r, input);
    r
}

/// `key=value` pairs joined by `&`.
pub open spec fn form_text(items: Seq<(Seq<char>, Seq<char>)>) -> Seq<char>
    decreases items.len(),
{
    if items.len() == 0 {
        Seq::empty()
    } else if items.len() == 1 {
        items[0].0 + "="@ + items[0].1
    } else {
        form_text(items.drop_last()) + "&"@ + items.last().0 + "="@ + items.last().1
    }
}

/// The views of the pairs of a form.
pub open spec fn form_view(items: Seq<(&str, String)>) -> Seq<(Seq<char>, Seq<char>)> {
    items.map_values(|p: (&str, String)| (p.0@, p.1@))
}

/// Encodes pairs as an `application/x-www-form-urlencoded` body, without
/// escaping: `k1=v1&k2=v2...`. There must be one pair at least.
pub fn to_x_www_thingies_fuck_of(input: Vec<(&str, String)>) -> (r: String)
    requires
        input@.len() > 0,
    ensures
        r@ == form_text(form_view(input@)),
{
    let mut ret = String::new();
    let mut i: usize = 0;
    while i < input.len()
        invariant
            i <= input@.len(),
            ret@ == form_text(form_view(input@.take(i as int))),
        decreases input@.len() - i,
    {
        let ghost before = ret@;
        if i > 0 {
            append_str(&mut ret, "&");
        }
        append_str(&mut ret, input[i].0);
        append_str(&mut ret, "=");
        append_str(&mut ret, input[i].1.as_str());
        proof {
            let t = form_view(input@.take(i + 1));
            assert(t.drop_last() =~= form_view(input@.take(i as int)));
            assert(t.last() == (input@[i as int].0@, input@[i as int].1@));
            if i == 0 {
                assert(ret@ =~= t[0].0 + "="@ + t[0].1);
            } else {
                assert(ret@ =~= before + "&"@ + t.last().0 + "="@ + t.last().1);
            }
        }
        i = i + 1;
    }
    assert(input@.take(input@.len() as int) =~= input@);
    ret
}

/// The form that trades a refresh token for a new user token.
pub fn refresh_token_form(client_id: String, client_secret: String, refresh_token: String) -> (r:
    Vec<(&'static str, String)>)
    ensures
        r@.len() == 4,
        r@[0].0@ == "client_id"@ && r@[0].1 == client_id,
        r@[1].0@ == "client_secret"@ && r@[1].1 == client_secret,
        r@[2].0@ == "refresh_token"@ && r@[2].1 == refresh_token,
        r@[3].0@ == "grant_type"@ && r@[3].1@ == "refresh_token"@,
{
    vec![
        ("client_id", client_id),
        ("client_secret", client_secret),
        ("refresh_token", refresh_token),
        ("grant_type", to_owned_string("refresh_token")),
    ]
}

/// The form that trades the code of a login for a user token.
pub fn auth_code_form(client_id: String, client_secret: String, code: String) -> (r: Vec<
    (&'static str, String),
>)
    ensures
        r@.len() == 5,
        r@[0].0@ == "client_id"@ && r@[0].1 == client_id,
        r@[1].0@ == "client_secret"@ && r@[1].1 == client_secret,
        r@[2].0@ == "code"@ && r@[2].1 == code,
        r@[3].0@ == "grant_type"@ && r@[3].1@ == "authorization_code"@,
        r@[4].0@ == "redirect_uri"@ && r@[4].1@ == "http://localhost:22727/"@,
{
    vec![
        ("client_id", client_id),
        ("client_secret", client_secret),
        ("code", code),
        ("grant_type", to_owned_string("authorization_code")),
        ("redirect_uri", to_owned_string("http://localhost:22727/")),
    ]
}

/// What the answer of a Twitch login leads to: a declined login, with the
/// text to report, or a code to trade for a user token.
pub enum AuthOutcome {
    Declined(String),
    Exchange(String),
}

/// Reads the answer of a Twitch login. An error means the user declined;
/// the report is the error and its message (empty when none came),
/// separated by a space. Otherwise the answer carries the code.
pub fn auth_outcome(code: Option<String>, error: Option<String>, error_message: Option<String>) -> (r:
    AuthOutcome)
    requires
        error is Some || code is Some,
    ensures
        match error {
            Some(e) => r matches AuthOutcome::Declined(t) && t@ == e@ + " "@ + match error_message {
                Some(m) => m@,
                None => Seq::<char>::empty(),
            },
            None => r matches AuthOutcome::Exchange(c) && c == code->0,
        },
{
    match error {
        Some(e) => {
            let mut t = e;
            append_str(&mut t, " ");
            match error_message {
                Some(m) => append_str(&mut t, m.as_str()),
                None => {},
            }
            AuthOutcome::Declined(t)
        },
        None => AuthOutcome::Exchange(code.unwrap()),
    }
}

/// The message that tells the writer of connection `id` to stop.
pub fn close_message(id: &str) -> (r: String)
    ensures
        r@ == "close-"@ + id@,
{
    let mut r = to_owned_string("close-");
    append_str(&mut r, id);
    r
}

/// What a viewer page says about a timer over the socket.
#[derive(Clone, Copy, Debug, PartialEq, Eq, Structural)]
pub enum Action {
    Dec,
    Inc,
    Reg,
    UnReg,
}

/// One message of a viewer page.
pub struct WsPayload {
    pub id: String,
    pub payload: Action,
}

/// Whether the reader of a socket goes on after a message.
#[derive(Clone, Copy, Debug, PartialEq, Eq, Structural)]
pub enum ReadFlow {
    Continue,
    Stop,
}

/// The number of viewers of each timer, in the order the timers were
/// first seen.
pub open spec fn count_in(entries: Seq<(String, i32)>, id: Seq<char>) -> Option<i32>
    decreases entries.len(),
{
    if entries.len() == 0 {
        None
    } else if entries.last().0@ == id {
        Some(entries.last().1)
    } else {
        count_in(entries.drop_last(), id)
    }
}

/// The timers with at least one viewer.
pub open spec fn active_in(entries: Seq<(String, i32)>) -> Seq<Seq<char>>
    decreases entries.len(),
{
    if entries.len() == 0 {
        Seq::empty()
    } else if entries.last().1 > 0 {
        active_in(entries.drop_last()).push(entries.last().0@)
    } else {
        active_in(entries.drop_last())
    }
}

/// How many pages show each timer. The counts are kept in a `Vec` of pairs,
/// one per timer: Verus's `StringHashMap` cannot be walked, and handing out
/// the active timers needs a walk over all of them.
pub struct RunningTimers {
    entries: Vec<(String, i32)>,
}

impl RunningTimers {
    pub closed spec fn count(&self, id: Seq<char>) -> Option<i32> {
        count_in(self.entries@, id)
    }

    pub closed spec fn active(&self) -> Seq<Seq<char>> {
        active_in(self.entries@)
    }

    /// Each timer has one entry at most, and no count is negative.
    pub closed spec fn wf(&self) -> bool {
        &&& forall|i: int, j: int|
            0 <= i < j < self.entries@.len() ==> #[trigger] self.entries@[i].0@
                != #[trigger] self.entries@[j].0@
        &&& forall|i: int| 0 <= i < self.entries@.len() ==> #[trigger] self.entries@[i].1 >= 0
    }

    pub fn new() -> (r: Self)
        ensures
            r.wf(),
            forall|id: Seq<char>| r.count(id) is None,
            r.active() == Seq::<Seq<char>>::empty(),
    {
        RunningTimers { entries: Vec::new() }
    }

    fn find(&self, id: &str) -> (r: Option<usize>)
        requires
            self.wf(),
        ensures
            match r {
                Some(i) => i < self.entries@.len() && self.entries@[i as int].0@ == id@,
                None => forall|i: int| 0 <= i < self.entries@.len() ==> self.entries@[i].0@ != id@,
            },
    {
        let mut i: usize = 0;
        while i < self.entries.len()
            invariant
                i <= self.entries@.len(),
                forall|j: int| 0 <= j < i ==> self.entries@[j].0@ != id@,
            decreases self.entries@.len() - i,
        {
            if str_eq(self.entries[i].0.as_str(), id) {
                return Some(i);
            }
            i = i + 1;
        }
        None
    }

    /// The number of pages showing timer `id`, if it was ever registered.
    pub fn get(&self, id: &str) -> (r: Option<i32>)
        requires
            self.wf(),
        ensures
            r == self.count(id@),
    {
        match self.find(id) {
            Some(i) => {
                proof {
                    lemma_count_at(self.entries@, i as int);
                }
                Some(self.entries[i].1)
            },
            None => {
                proof {
                    lemma_count_absent(self.entries@, id@);
                }
                None
            },
        }
    }

    /// Handles a message of a viewer page. `Reg` counts one more page for
    /// the timer (starting at one); when the timer was already known the
    /// reader stops afterwards. `UnReg` counts one page less, not going
    /// below zero. `Dec` and `Inc` change nothing.
    pub fn apply(&mut self, msg: &WsPayload) -> (flow: ReadFlow)
        requires
            old(self).wf(),
            msg.payload == Action::Reg ==> match old(self).count(msg.id@) {
                Some(n) => n < i32::MAX,
                None => true,
            },
        ensures
            final(self).wf(),
            match msg.payload {
                Action::Reg => match old(self).count(msg.id@) {
                    Some(n) => flow == ReadFlow::Stop && final(self).count(msg.id@) == Some(
                        (n + 1) as i32,
                    ),
                    None => flow == ReadFlow::Continue && final(self).count(msg.id@) == Some(
                        1i32,
                    ),
                },
                Action::UnReg => flow == ReadFlow::Continue && final(self).count(msg.id@) == match old(
                    self,
                ).count(msg.id@) {
                    Some(n) => Some(
                        if n > 0 {
                            (n - 1) as i32
                        } else {
                            n
                        },
                    ),
                    None => None,
                },
                _ => flow == ReadFlow::Continue && final(self).count(msg.id@) == old(self).count(
                    msg.id@,
                ),
            },
            forall|other: Seq<char>|
                other != msg.id@ ==> final(self).count(other) == old(self).count(other),
    {
        let id = msg.id.as_str();
        match msg.payload {
            Action::Reg => match self.find(id) {
                Some(i) => {
                    let ghost before = self.entries@;
                    proof {
                        lemma_count_at(before, i as int);
                    }
                    let n = self.entries[i].1;
                    self.set_count(i, n + 1);
                    ReadFlow::Stop
                },
                None => {
                    let ghost before = self.entries@;
                    proof {
                        lemma_count_absent(before, id@);
                    }
                    self.entries.push((to_owned_string(id), 1));
                    proof {
                        assert(self.entries@.drop_last() =~= before);
                        assert forall|a: int, b: int|
                            0 <= a < b < self.entries@.len() implies #[trigger] self.entries@[a].0@
                            != #[trigger] self.entries@[b].0@ by {
                            if b == self.entries@.len() - 1 {
                                assert(before[a].0@ != id@);
                            } else {
                                assert(before[a].0@ != before[b].0@);
                            }
                        }
                        assert forall|k: int| 0 <= k < self.entries@.len() implies #[trigger] self.entries@[k].1
                            >= 0 by {
                            if k < before.len() {
                                assert(self.entries@[k] == before[k]);
                            }
                        }
                    }
                    ReadFlow::Continue
                },
            },
            Action::UnReg => {
                match self.find(id) {
                    Some(i) => {
                        proof {
                            lemma_count_at(self.entries@, i as int);
                        }
                        let n = self.entries[i].1;
                        if n > 0 {
                            self.set_count(i, n - 1);
                        }
                    },
                    None => {
                        proof {
                            lemma_count_absent(self.entries@, id@);
                        }
                    },
                }
                ReadFlow::Continue
            },
            _ => ReadFlow::Continue,
        }
    }

    fn set_count(&mut self, i: usize, n: i32)
        requires
            old(self).wf(),
            i < old(self).entries@.len(),
            n >= 0,
        ensures
            final(self).wf(),
            final(self).count(old(self).entries@[i as int].0@) == Some(n),
            forall|other: Seq<char>|
                other != old(self).entries@[i as int].0@ ==> final(self).count(other) == old(
                    self,
                ).count(other),
            final(self).entries@.len() == old(self).entries@.len(),
    {
        let ghost before = self.entries@;
        let (name, _) = self.entries.remove(i);
        let ghost key = name@;
        self.entries.insert(i, (name, n));
        proof {
            assert(self.entries@ =~= before.update(i as int, (name, n)));
            lemma_count_update(before, i as int, (name, n));
            assert forall|k: int| 0 <= k < self.entries@.len() implies #[trigger] self.entries@[k].1
                >= 0 by {
                if k != i {
                    assert(self.entries@[k] == before[k]);
                }
            }
        }
    }

    /// The timers that at least one page shows, in the order they were
    /// first registered.
    pub fn active_ids(&self) -> (r: Vec<String>)
        ensures
            r@.len() == self.active().len(),
            forall|k: int| 0 <= k < r@.len() ==> #[trigger] r@[k]@ == self.active()[k],
            self.wf() ==> forall|id: Seq<char>|
                #[trigger] self.active().contains(id) <==> (self.count(id) matches Some(n) && n
                    > 0),
            self.wf() ==> self.active().no_duplicates(),
    {
        let mut out: Vec<String> = Vec::new();
        let mut i: usize = 0;
        while i < self.entries.len()
            invariant
                i <= self.entries@.len(),
                out@.len() == active_in(self.entries@.take(i as int)).len(),
                forall|k: int|
                    0 <= k < out@.len() ==> #[trigger] out@[k]@ == active_in(
                        self.entries@.take(i as int),
                    )[k],
            decreases self.entries@.len() - i,
        {
            assert(self.entries@.take(i + 1).drop_last() =~= self.entries@.take(i as int));
            if self.entries[i].1 > 0 {
                out.push(to_owned_string(self.entries[i].0.as_str()));
            }
            i = i + 1;
        }
        assert(self.entries@.take(self.entries@.len() as int) =~= self.entries@);
        proof {
            if self.wf() {
                lemma_active_in(self.entries@);
            }
        }
        out
    }
}

/// No timer is ever counted with fewer than zero viewers.
pub proof fn lemma_counts_not_negative(r: &RunningTimers, id: Seq<char>)
    requires
        r.wf(),
    ensures
        r.count(id) matches Some(n) ==> n >= 0,
{
    lemma_count_nonneg(r.entries@, id);
}

/// The timers `active_ids` hands out are exactly those with at least one
/// viewer, each once.
pub proof fn lemma_active_are_counted(r: &RunningTimers)
    requires
        r.wf(),
    ensures
        forall|id: Seq<char>|
            #[trigger] r.active().contains(id) <==> (r.count(id) matches Some(n) && n > 0),
        r.active().no_duplicates(),
{
    lemma_active_in(r.entries@);
}

proof fn lemma_active_in(entries: Seq<(String, i32)>)
    requires
        forall|a: int, b: int|
            0 <= a < b < entries.len() ==> #[trigger] entries[a].0@ != #[trigger] entries[b].0@,
    ensures
        forall|id: Seq<char>|
            #[trigger] active_in(entries).contains(id) <==> (count_in(entries, id) matches Some(
                n,
            ) && n > 0),
        active_in(entries).no_duplicates(),
    decreases entries.len(),
{
    if entries.len() > 0 {
        let pre = entries.drop_last();
        let last = entries.last();
        assert forall|a: int, b: int| 0 <= a < b < pre.len() implies #[trigger] pre[a].0@
            != #[trigger] pre[b].0@ by {
            assert(entries[a].0@ != entries[b].0@);
        }
        lemma_active_in(pre);
        assert forall|i: int| 0 <= i < pre.len() implies pre[i].0@ != last.0@ by {
            assert(entries[i].0@ != entries[entries.len() - 1].0@);
        }
        lemma_count_absent(pre, last.0@);
        assert(!active_in(pre).contains(last.0@));
        if last.1 > 0 {
            let p = active_in(pre);
            assert forall|id: Seq<char>| #[trigger] p.push(last.0@).contains(id) <==> (p.contains(id)
                || id == last.0@) by {
                if id == last.0@ {
                    assert(p.push(last.0@)[p.len() as int] == id);
                }
                if p.contains(id) {
                    let k = choose|k: int| 0 <= k < p.len() && p[k] == id;
                    assert(p.push(last.0@)[k] == id);
                }
                if p.push(last.0@).contains(id) {
                    let k = choose|k: int| 0 <= k < p.len() + 1 && p.push(last.0@)[k] == id;
                    if k < p.len() {
                        assert(p[k] == id);
                    }
                }
            }
        }
    }
}

proof fn lemma_count_nonneg(entries: Seq<(String, i32)>, id: Seq<char>)
    requires
        forall|i: int| 0 <= i < entries.len() ==> #[trigger] entries[i].1 >= 0,
    ensures
        count_in(entries, id) matches Some(n) ==> n >= 0,
    decreases entries.len(),
{
    if entries.len() > 0 {
        assert(entries.last().1 >= 0);
        lemma_count_nonneg(entries.drop_last(), id);
    }
}

proof fn lemma_count_at(entries: Seq<(String, i32)>, i: int)
    requires
        0 <= i < entries.len(),
        forall|a: int, b: int|
            0 <= a < b < entries.len() ==> #[trigger] entries[a].0@ != #[trigger] entries[b].0@,
    ensures
        count_in(entries, entries[i].0@) == Some(entries[i].1),
    decreases entries.len(),
{
    if i < entries.len() - 1 {
        assert(entries.last().0@ != entries[i].0@);
        lemma_count_at(entries.drop_last(), i);
    }
}

proof fn lemma_count_absent(entries: Seq<(String, i32)>, id: Seq<char>)
    requires
        forall|i: int| 0 <= i < entries.len() ==> entries[i].0@ != id,
    ensures
        count_in(entries, id) is None,
    decreases entries.len(),
{
    if entries.len() > 0 {
        lemma_count_absent(entries.drop_last(), id);
    }
}

proof fn lemma_count_update(entries: Seq<(String, i32)>, i: int, e: (String, i32))
    requires
        0 <= i < entries.len(),
        entries[i].0@ == e.0@,
        forall|a: int, b: int|
            0 <= a < b < entries.len() ==> #[trigger] entries[a].0@ != #[trigger] entries[b].0@,
    ensures
        count_in(entries.update(i, e), e.0@) == Some(e.1),
        forall|other: Seq<char>|
            other != e.0@ ==> count_in(entries.update(i, e), other) == count_in(entries, other),
        forall|a: int, b: int|
            0 <= a < b < entries.len() ==> #[trigger] entries.update(i, e)[a].0@
                != #[trigger] entries.update(i, e)[b].0@,
    decreases entries.len(),
{
    let u = entries.update(i, e);
    if i < entries.len() - 1 {
        assert(u.drop_last() =~= entries.drop_last().update(i, e));
        lemma_count_update(entries.drop_last(), i, e);
        assert(u.last() == entries.last());
        assert(entries.last().0@ != entries[i].0@);
        assert forall|other: Seq<char>| other != e.0@ implies count_in(u, other) == count_in(
            entries,
            other,
        ) by {
            assert(count_in(u.drop_last(), other) == count_in(entries.drop_last(), other));
        }
    } else {
        assert(u.drop_last() =~= entries.drop_last());
        assert forall|other: Seq<char>| other != e.0@ implies count_in(u, other) == count_in(
            entries,
            other,
        ) by {
            assert(u.last().0@ != other);
            assert(entries.last().0@ != other);
        }
    }
    assert forall|a: int, b: int| 0 <= a < b < entries.len() implies #[trigger] u[a].0@
        != #[trigger] u[b].0@ by {
        assert(entries[a].0@ != entries[b].0@);
    }
}

} // verus!
