//! Talking to Twitch: users, tokens, and the messages of the EventSub
//! websocket (duplicates dropped, kinds told apart, silence noticed).

use vstd::prelude::*;

use crate::text::{append_str, str_eq, to_owned_string};

verus! {

/// The Twitch client of the backend.
pub struct Twitch {}

/// A Twitch user, as the Helix `users` endpoint describes it.
pub struct User {
    pub id: String,
    pub login: String,
    pub display_name: String,
    pub broadcaster_type: String,
    pub profile_image_url: String,
}

/// An app access token.
pub struct OAuthRes {
    pub access_token: String,
    pub token_type: String,
    pub expires_in: i64,
}

/// How many message ids are remembered to spot duplicates.
pub const MSG_LOG_LEN: usize = 256;

/// The seconds of silence after which the connection counts as lost.
pub const KEEPALIVE_TIMEOUT: i64 = 10;

/// The address that describes the user `login`.
pub fn users_url(login: &str) -> (r: String)
    ensures
        r@ == "https://api.twitch.tv/helix/users?login="@ + login@,
{
    let mut r = to_owned_string("https://api.twitch.tv/helix/users?login=");
    append_str(&mut r, login);
    r
}

/// A token check that does not answer `401 Unauthorized` accepts the
/// token.
pub fn token_valid(status: u16) -> (r: bool)
    ensures
        r == (status != 401),
{
    status != 401
}

/// The bot token and its type as stored, or a placeholder that Twitch
/// will refuse when none is stored.
pub fn bot_credentials(stored: Option<(String, String)>) -> (r: (String, String))
    ensures
        match stored {
            Some(t) => r == t,
            None => r.0@ == "gibberish"@ && r.1@ == "Bearer"@,
        },
{
    match stored {
        Some(t) => t,
        None => (to_owned_string("gibberish"), to_owned_string("Bearer")),
    }
}

/// Whether the last message, at `last` (seconds), is too long ago at
/// `now`.
pub fn connection_stale(now: i64, last: i64) -> (r: bool)
    requires
        i64::MIN <= now - last <= i64::MAX,
    ensures
        r == (now - last > KEEPALIVE_TIMEOUT),
{
    now - last > KEEPALIVE_TIMEOUT
}

/// The kinds of EventSub messages.
#[derive(Clone, Copy, Debug, PartialEq, Eq, Structural)]
pub enum MessageKind {
    SessionReconnect,
    SessionWelcome,
    SessionKeepalive,
    Notification,
    Other,
}

/// The kind a `message_type` names.
pub open spec fn kind_of(t: Seq<char>) -> MessageKind {
    if t == "session_reconnect"@ {
        MessageKind::SessionReconnect
    } else if t == "session_welcome"@ {
        MessageKind::SessionWelcome
    } else if t == "session_keepalive"@ {
        MessageKind::SessionKeepalive
    } else if t == "notification"@ {
        MessageKind::Notification
    } else {
        MessageKind::Other
    }
}

pub fn message_kind(message_type: &str) -> (k: MessageKind)
    ensures
        k == kind_of(message_type@),
{
    if str_eq(message_type, "session_reconnect") {
        MessageKind::SessionReconnect
    } else if str_eq(message_type, "session_welcome") {
        MessageKind::SessionWelcome
    } else if str_eq(message_type, "session_keepalive") {
        MessageKind::SessionKeepalive
    } else if str_eq(message_type, "notification") {
        MessageKind::Notification
    } else {
        MessageKind::Other
    }
}

/// The ids of the messages seen lately, to drop the duplicates Twitch
/// sometimes sends.
pub struct MessageLog {
    ids: Vec<String>,
}

/// The log after seeing a new id: it is appended, and dropped again when
/// that fills the log.
pub open spec fn log_after(ids: Seq<Seq<char>>, id: Seq<char>) -> Seq<Seq<char>> {
    if ids.len() + 1 >= MSG_LOG_LEN {
        ids
    } else {
        ids.push(id)
    }
}

impl MessageLog {
    pub closed spec fn ids_seen(&self) -> Seq<Seq<char>> {
        self.ids@.map_values(|s: String| s@)
    }

    /// The log stays shorter than `MSG_LOG_LEN`.
    pub closed spec fn wf(&self) -> bool {
        self.ids@.len() < MSG_LOG_LEN
    }

    pub fn new() -> (l: Self)
        ensures
            l.wf(),
            l.ids_seen() == Seq::<Seq<char>>::empty(),
    {
        let l = MessageLog { ids: Vec::with_capacity(MSG_LOG_LEN) };
        assert(l.ids_seen() =~= Seq::<Seq<char>>::empty());
        l
    }

    fn contains(&self, id: &str) -> (r: bool)
        ensures
            r == self.ids_seen().contains(id@),
    {
        let mut i: usize = 0;
        while i < self.ids.len()
            invariant
                i <= self.ids@.len(),
                forall|j: int| 0 <= j < i ==> self.ids@[j]@ != id@,
            decreases self.ids@.len() - i,
        {
            if str_eq(self.ids[i].as_str(), id) {
                assert(self.ids_seen()[i as int] == id@);
                return true;
            }
            i = i + 1;
        }
        assert forall|j: int| 0 <= j < self.ids_seen().len() implies self.ids_seen()[j] != id@ by {
            assert(self.ids@[j]@ != id@);
        }
        false
    }

    /// Notes a message id. Returns `false` for an id seen before (the
    /// message is a duplicate and is skipped), else `true`. A new id is
    /// kept unless keeping it fills the log, in which case it is dropped at
    /// once.
    pub fn observe(&mut self, id: String) -> (fresh: bool)
        requires
            old(self).wf(),
        ensures
            final(self).wf(),
            fresh == !old(self).ids_seen().contains(id@),
            final(self).ids_seen() == if fresh {
                log_after(old(self).ids_seen(), id@)
            } else {
                old(self).ids_seen()
            },
    {
        if self.contains(id.as_str()) {
            return false;
        }
        let ghost before = self.ids@;
        self.ids.push(id);
        if self.ids.len() >= MSG_LOG_LEN {
            self.ids.pop();
            assert(self.ids@ =~= before);
        }
        assert(self.ids_seen() =~= log_after(before.map_values(|s: String| s@), id@));
        true
    }
}

/// The log never reaches `MSG_LOG_LEN` ids; while there is room, a new id
/// is kept, so the same id coming again is a duplicate.
pub proof fn lemma_log_bounded(ids: Seq<Seq<char>>, id: Seq<char>)
    requires
        ids.len() < MSG_LOG_LEN,
    ensures
        log_after(ids, id).len() < MSG_LOG_LEN,
        log_after(ids, id).len() <= ids.len() + 1,
        ids.len() + 1 < MSG_LOG_LEN ==> log_after(ids, id).contains(id),
{
    if ids.len() + 1 < MSG_LOG_LEN {
        assert(log_after(ids, id)[ids.len() as int] == id);
    }
}

/// How the backend keeps its EventSub connection up: after each attempt
/// it counts the failures in a row, and gives up after `RECONNECT_ATTEMPTS`.
pub const RECONNECT_ATTEMPTS: i32 = 3;

/// The failures in a row after an attempt that succeeded or failed.
pub fn next_attempts(attempts: i32, succeeded: bool) -> (r: i32)
    requires
        attempts < RECONNECT_ATTEMPTS,
    ensures
        r == (if succeeded {
            0
        } else {
            attempts + 1
        }),
{
    if succeeded {
        0
    } else {
        attempts + 1
    }
}

/// Whether to give up connecting.
pub fn give_up(attempts: i32) -> (r: bool)
    ensures
        r == (attempts >= RECONNECT_ATTEMPTS),
{
    attempts >= RECONNECT_ATTEMPTS
}

} // verus!
