//! Levelled logging: a scope of levels to show, a bounded byte buffer that
//! keeps what was logged, coloured lines, and a builder for log items.

use vstd::prelude::*;

use crate::num_text::{decimal, i64_to_string};
use crate::paint::{
    debug_code,
    dim_code,
    error_code,
    info_code,
    paint_debug,
    paint_dim,
    paint_error,
    paint_info,
    paint_warn,
    painted,
    warn_code,
};
use crate::text::{append_str, spec_split, split_char, str_eq, to_owned_string};

verus! {

pub const MAX_BUF_CAP: usize = 4096;

#[derive(Clone, Copy, Debug, PartialEq, Eq, Structural)]
pub enum LogLevel {
    Error,
    Warn,
    Info,
    Debug,
}

/// The name a level is shown under.
pub open spec fn level_name(l: LogLevel) -> Seq<char> {
    match l {
        LogLevel::Warn => "WARN"@,
        LogLevel::Info => "INFO"@,
        LogLevel::Error => "ERROR"@,
        LogLevel::Debug => "DEBUG"@,
    }
}

/// The level a lowercase name stands for; any other name is `Info`.
pub open spec fn level_of(s: Seq<char>) -> LogLevel {
    if s == "error"@ {
        LogLevel::Error
    } else if s == "debug"@ {
        LogLevel::Debug
    } else if s == "warn"@ {
        LogLevel::Warn
    } else {
        LogLevel::Info
    }
}

/// The lowercase name of a level, as a scope names it.
pub open spec fn lowercase_name(l: LogLevel) -> Seq<char> {
    match l {
        LogLevel::Error => "error"@,
        LogLevel::Warn => "warn"@,
        LogLevel::Info => "info"@,
        LogLevel::Debug => "debug"@,
    }
}

/// Every level, in the order a scope of `all` lists them.
pub open spec fn all_levels() -> Seq<LogLevel> {
    seq![LogLevel::Info, LogLevel::Error, LogLevel::Warn, LogLevel::Debug]
}

/// What `str::to_lowercase` returns for a text (Unicode lowercase mapping).
pub uninterp spec fn lowercase(s: Seq<char>) -> Seq<char>;

/// `str::to_lowercase`: the contract names its result `lowercase(s)` and
/// states nothing more of it.
#[verifier::external_body]
fn to_lowercase(s: &str) -> (r: String)
    ensures
        r@ == lowercase(s@),
{
    s.to_lowercase()
}

/// The levels a scope text selects: `all` in any case selects every
/// level; otherwise each comma-separated name selects its level, an
/// unknown name selecting `Info`.
pub open spec fn spec_parse_scope(s: Seq<char>) -> Seq<LogLevel> {
    if lowercase(s) == "all"@ {
        all_levels()
    } else {
        spec_split(s, ',').map_values(|p: Seq<char>| level_of(lowercase(p)))
    }
}

impl LogLevel {
    /// The name the level is shown under.
    pub fn to_string(&self) -> (r: String)
        ensures
            r@ == level_name(*self),
    {
        match self {
            LogLevel::Warn => to_owned_string("WARN"),
            LogLevel::Info => to_owned_string("INFO"),
            LogLevel::Error => to_owned_string("ERROR"),
            LogLevel::Debug => to_owned_string("DEBUG"),
        }
    }

    pub fn flatten() -> (r: Vec<LogLevel>)
        ensures
            r@ == all_levels(),
    {
        let r = vec![LogLevel::Info, LogLevel::Error, LogLevel::Warn, LogLevel::Debug];
        assert(r@ =~= all_levels());
        r
    }

    /// The level an already lowercased name stands for.
    pub fn from_lowercase(s: &str) -> (r: LogLevel)
        ensures
            r == level_of(s@),
    {
        if str_eq(s, "error") {
            LogLevel::Error
        } else if str_eq(s, "debug") {
            LogLevel::Debug
        } else if str_eq(s, "warn") {
            LogLevel::Warn
        } else {
            LogLevel::Info
        }
    }

    /// The level a name stands for, in any case.
    pub fn from_name(s: &str) -> (r: LogLevel)
        ensures
            r == level_of(lowercase(s@)),
    {
        let low = to_lowercase(s);
        LogLevel::from_lowercase(low.as_str())
    }
}

/// A byte buffer that never holds more than its capacity.
pub struct LocalBuffer {
    buf: Vec<u8>,
    cap: usize,
}

/// How many bytes of `n` fit into the room left.
pub open spec fn fitting(n: int, room: int) -> int {
    if n < room {
        n
    } else {
        room
    }
}

impl LocalBuffer {
    pub closed spec fn contents(&self) -> Seq<u8> {
        self.buf@
    }

    pub closed spec fn capacity(&self) -> nat {
        self.cap as nat
    }

    /// The buffer holds no more than its capacity.
    pub closed spec fn wf(&self) -> bool {
        self.buf@.len() <= self.cap
    }

    /// A buffer of capacity `cap`; no buffer holds more than `isize::MAX`
    /// bytes.
    pub fn new(cap: usize) -> (b: Self)
        requires
            cap <= isize::MAX,
        ensures
            b.wf(),
            b.contents() == Seq::<u8>::empty(),
            b.capacity() == cap,
    {
        Self { buf: Vec::with_capacity(cap), cap }
    }

    /// Writes to the buffer
    pub fn write(&mut self, data: &[u8]) -> (n: usize)
        requires
            old(self).wf(),
        ensures
            final(self).wf(),
            n == fitting(data@.len() as int, old(self).capacity() - old(self).contents().len()),
            final(self).contents() == old(self).contents() + data@.take(n as int),
            final(self).capacity() == old(self).capacity(),
    {
        let room = self.cap - self.buf.len();
        let write_size = if data.len() < room {
            data.len()
        } else {
            room
        };
        let mut i: usize = 0;
        while i < write_size
            invariant
                write_size <= data@.len(),
                i <= write_size,
                self.cap == old(self).cap,
                write_size <= old(self).cap - old(self).buf@.len(),
                self.buf@ == old(self).buf@ + data@.take(i as int),
            decreases write_size - i,
        {
            self.buf.push(data[i]);
            assert(old(self).buf@ + data@.take(i + 1) =~= old(self).buf@ + data@.take(i as int)
                + seq![data@[i as int]]);
            i = i + 1;
        }
        write_size
    }

    /// Read from the buffer
    pub fn read(&self, buf: &mut [u8]) -> (n: usize)
        requires
            self.wf(),
        ensures
            n == fitting(old(buf)@.len() as int, self.contents().len() as int),
            final(buf)@ == self.contents().take(n as int) + old(buf)@.skip(n as int),
    {
        let read_size = if buf.len() < self.buf.len() {
            buf.len()
        } else {
            self.buf.len()
        };
        let mut i: usize = 0;
        while i < read_size
            invariant
                read_size <= buf@.len(),
                read_size <= self.buf@.len(),
                buf@.len() == old(buf)@.len(),
                i <= read_size,
                buf@ == self.buf@.take(i as int) + old(buf)@.skip(i as int),
            decreases read_size - i,
        {
            buf[i] = self.buf[i];
            assert(buf@ =~= self.buf@.take(i + 1) + old(buf)@.skip(i + 1));
            i = i + 1;
        }
        read_size
    }

    /// Read from the buffer and drain the read content
    pub fn read_and_drain(&mut self, buf: &mut [u8]) -> (n: usize)
        requires
            old(self).wf(),
        ensures
            final(self).wf(),
            n == fitting(old(buf)@.len() as int, old(self).contents().len() as int),
            final(buf)@ == old(self).contents().take(n as int) + old(buf)@.skip(n as int),
            final(self).contents() == old(self).contents().skip(n as int),
            final(self).capacity() == old(self).capacity(),
    {
        let read_size = self.read(buf);
        let rest = self.buf.split_off(read_size);
        self.buf = rest;
        read_size
    }

    /// Clears the buffer
    pub fn clear(&mut self)
        requires
            old(self).wf(),
        ensures
            final(self).wf(),
            final(self).contents() == Seq::<u8>::empty(),
            final(self).capacity() == old(self).capacity(),
    {
        self.buf.clear()
    }

    pub fn get_buf_length(&self) -> (n: usize)
        ensures
            n == self.contents().len(),
    {
        self.buf.len()
    }

    pub fn get_cap(&self) -> (n: usize)
        ensures
            n == self.capacity(),
    {
        self.cap
    }
}

/// The leading space a level gets so that all level names line up.
pub open spec fn level_lead(l: LogLevel) -> Seq<char> {
    match l {
        LogLevel::Warn | LogLevel::Info => " "@,
        LogLevel::Error | LogLevel::Debug => Seq::<char>::empty(),
    }
}

/// The escape code of a level's colour.
pub open spec fn level_code(l: LogLevel) -> Seq<char> {
    match l {
        LogLevel::Warn => warn_code(),
        LogLevel::Info => info_code(),
        LogLevel::Error => error_code(),
        LogLevel::Debug => debug_code(),
    }
}

/// The coloured pieces of a log line are what colouring the level name,
/// the origin (or, with no origin, the level) and the timestamp gives.
pub open spec fn line_pieces_ok(
    level: LogLevel,
    target: Seq<char>,
    stamp: Seq<char>,
    pl: Seq<char>,
    pd: Seq<char>,
    ps: Seq<char>,
) -> bool {
    &&& painted(pl, level_name(level), level_code(level))
    &&& painted(ps, stamp, dim_code())
    &&& if target.len() == 0 {
        painted(pd, level_lead(level) + pl, dim_code())
    } else {
        painted(pd, target, dim_code())
    }
}

/// A log line put together from its coloured pieces: timestamp, level,
/// origin and message, ended by a newline.
pub open spec fn line_from_pieces(
    level: LogLevel,
    msg: Seq<char>,
    target: Seq<char>,
    pl: Seq<char>,
    pd: Seq<char>,
    ps: Seq<char>,
) -> Seq<char> {
    if target.len() == 0 {
        ps + " "@ + pd + " "@ + msg + "\n"@
    } else {
        ps + " "@ + level_lead(level) + pl + " "@ + pd + " "@ + msg + "\n"@
    }
}

/// `line` is the text a log line shows for a message: the dimmed
/// timestamp, the coloured level name, the dimmed origin when there is one
/// (with no origin the level itself is dimmed), and the message, ended by a
/// newline. Each coloured piece may also come out uncoloured.
pub open spec fn is_log_line(
    line: Seq<char>,
    level: LogLevel,
    msg: Seq<char>,
    target: Seq<char>,
    stamp: Seq<char>,
) -> bool {
    exists|pl: Seq<char>, pd: Seq<char>, ps: Seq<char>|
        #[trigger] line_pieces_ok(level, target, stamp, pl, pd, ps) && line == line_from_pieces(
            level,
            msg,
            target,
            pl,
            pd,
            ps,
        )
}

/// The bytes a buffer holds after `line` was written to it.
pub open spec fn buffered(held: Seq<u8>, cap: nat, line: Seq<char>) -> Seq<u8> {
    let bytes = vstd::utf8::encode_utf8(line);
    held + bytes.take(fitting(bytes.len() as int, cap - held.len()))
}

/// How many bytes one flush takes from the front of a buffer holding
/// `held`: all of them, up to `MAX_BUF_CAP`.
pub open spec fn flush_len(held: Seq<u8>) -> int {
    fitting(held.len() as int, MAX_BUF_CAP as int)
}

/// The bytes one flush hands over for the log file.
pub open spec fn flushed_bytes(held: Seq<u8>) -> Seq<u8> {
    held.take(flush_len(held))
}

/// What a buffer holds after one flush.
pub open spec fn after_flush(held: Seq<u8>) -> Seq<u8> {
    held.skip(flush_len(held))
}

/// Whether a buffer holding `held` bytes of capacity `cap` is flushed
/// before `line` goes in: when the line would reach or pass the capacity.
pub open spec fn needs_flush(held: Seq<u8>, cap: nat, line: Seq<char>) -> bool {
    cap <= held.len() + vstd::utf8::encode_utf8(line).len()
}

/// What one logged message did: the line to show, the bytes flushed from
/// the buffer for the log file (when the line would not fit), and how many
/// bytes the buffer held before.
pub struct Logged {
    pub line: String,
    pub to_file: Option<Vec<u8>>,
    pub held_before: usize,
}

/// One message going through the logger, from `before` to `after`,
/// reported as `r`. A level out of scope changes nothing and gives `None`.
/// Otherwise `r` holds the rendered line; unless `internal`, the buffer is
/// first flushed when the line would reach its capacity, then the line is
/// written to it as far as it fits.
pub open spec fn log_step(
    before: Log,
    after: Log,
    level: LogLevel,
    msg: Seq<char>,
    target: Seq<char>,
    stamp: Seq<char>,
    internal: bool,
    r: Option<Logged>,
) -> bool {
    &&& (r is Some <==> before.scope_levels().contains(level))
    &&& after.scope_levels() == before.scope_levels()
    &&& after.buffer_cap() == before.buffer_cap()
    &&& after.path() == before.path()
    &&& match r {
        None => after.buffer() == before.buffer(),
        Some(lg) => {
            &&& is_log_line(lg.line@, level, msg, target, stamp)
            &&& lg.held_before == before.buffer().len()
            &&& if internal {
                &&& lg.to_file is None
                &&& after.buffer() == before.buffer()
            } else if needs_flush(before.buffer(), before.buffer_cap(), lg.line@) {
                &&& lg.to_file matches Some(bytes) && bytes@ == flushed_bytes(before.buffer())
                &&& after.buffer() == buffered(
                    after_flush(before.buffer()),
                    before.buffer_cap(),
                    lg.line@,
                )
            } else {
                &&& lg.to_file is None
                &&& after.buffer() == buffered(before.buffer(), before.buffer_cap(), lg.line@)
            }
        },
    }
}

/// The logger: which levels it shows, the buffer that keeps what it
/// logged, and where log files go.
pub struct Log {
    buf: LocalBuffer,
    scope: Vec<LogLevel>,
    log_path: String,
}

impl Log {
    pub closed spec fn wf(&self) -> bool {
        self.buf.wf()
    }

    pub closed spec fn scope_levels(&self) -> Seq<LogLevel> {
        self.scope@
    }

    pub closed spec fn buffer(&self) -> Seq<u8> {
        self.buf.contents()
    }

    pub closed spec fn buffer_cap(&self) -> nat {
        self.buf.capacity()
    }

    pub closed spec fn path(&self) -> Seq<char> {
        self.log_path@
    }

    /// Creates a logger. `scope` lists the levels to show, separated by
    /// commas, or `all` (the default). `buffer_cap` bounds the buffer
    /// (default `MAX_BUF_CAP`, at most `isize::MAX`); `log_path` is where log files go (default
    /// `C:\tmp`).
    pub fn new(scope: Option<String>, buffer_cap: Option<usize>, log_path: Option<String>) -> (l:
        Self)
        requires
            buffer_cap matches Some(c) ==> c <= isize::MAX,
        ensures
            l.wf(),
            l.scope_levels() == spec_parse_scope(
                match scope {
                    Some(s) => s@,
                    None => "all"@,
                },
            ),
            l.buffer() == Seq::<u8>::empty(),
            l.buffer_cap() == match buffer_cap {
                Some(c) => c,
                None => MAX_BUF_CAP,
            },
            l.path() == match log_path {
                Some(p) => p@,
                None => "C:\\tmp"@,
            },
    {
        let scope = match scope {
            Some(s) => s,
            None => to_owned_string("all"),
        };
        let t_scope = Self::parse_scope(scope.as_str());
        let cap = match buffer_cap {
            Some(c) => c,
            None => MAX_BUF_CAP,
        };
        let buf = LocalBuffer::new(cap);
        let path = match log_path {
            Some(p) => p,
            None => to_owned_string("C:\\tmp"),
        };
        Self { buf, scope: t_scope, log_path: path }
    }

    /// The levels a scope text selects: `all` in any case selects every
    /// level; otherwise each comma-separated name selects its level (in any
    /// case), an unknown name selecting `Info`.
    pub fn parse_scope(to_parse: &str) -> (r: Vec<LogLevel>)
        ensures
            r@ == spec_parse_scope(to_parse@),
    {
        let low = to_lowercase(to_parse);
        if str_eq(low.as_str(), "all") {
            LogLevel::flatten()
        } else {
            let parts = split_char(to_parse, ',');
            let ghost pieces = spec_split(to_parse@, ',');
            let mut out: Vec<LogLevel> = Vec::new();
            let mut i: usize = 0;
            while i < parts.len()
                invariant
                    i <= parts@.len(),
                    parts@.len() == pieces.len(),
                    forall|j: int| 0 <= j < parts@.len() ==> #[trigger] parts@[j]@ == pieces[j],
                    out@ == pieces.take(i as int).map_values(
                        |p: Seq<char>| level_of(lowercase(p)),
                    ),
                decreases parts@.len() - i,
            {
                let level = LogLevel::from_name(parts[i].as_str());
                out.push(level);
                assert(pieces.take(i + 1).map_values(|p: Seq<char>| level_of(lowercase(p)))
                    =~= pieces.take(i as int).map_values(|p: Seq<char>| level_of(lowercase(p))).push(
                    level,
                ));
                i = i + 1;
            }
            assert(pieces.take(parts@.len() as int) =~= pieces);
            out
        }
    }

    pub fn set_scope(&mut self, new_scope: &str)
        requires
            old(self).wf(),
        ensures
            final(self).wf(),
            final(self).scope_levels() == spec_parse_scope(new_scope@),
            final(self).buffer() == old(self).buffer(),
            final(self).buffer_cap() == old(self).buffer_cap(),
            final(self).path() == old(self).path(),
    {
        self.scope = Self::parse_scope(new_scope);
    }

    /// The log file for a day: the log path followed by `log_`, the date
    /// and `.log`.
    pub fn log_location(&self, date: &str) -> (r: String)
        ensures
            r@ == self.path() + "log_"@ + date@ + ".log"@,
    {
        let mut r = to_owned_string(self.log_path.as_str());
        append_str(&mut r, "log_");
        append_str(&mut r, date);
        append_str(&mut r, ".log");
        r
    }

    /// Writes directly to the buffer
    pub fn write_to_buf(&mut self, msg: &str) -> (n: usize)
        requires
            old(self).wf(),
        ensures
            final(self).wf(),
            final(self).buffer() == buffered(old(self).buffer(), old(self).buffer_cap(), msg@),
            n == final(self).buffer().len() - old(self).buffer().len(),
            final(self).scope_levels() == old(self).scope_levels(),
            final(self).buffer_cap() == old(self).buffer_cap(),
            final(self).path() == old(self).path(),
    {
        self.buf.write(msg.as_bytes())
    }

    /// Takes what the buffer holds out of it, at most `MAX_BUF_CAP` bytes
    /// from its front, for the log file; the bytes come back in order.
    fn flush(&mut self) -> (out: Vec<u8>)
        requires
            old(self).wf(),
        ensures
            final(self).wf(),
            out@ == flushed_bytes(old(self).buffer()),
            final(self).buffer() == after_flush(old(self).buffer()),
            final(self).scope_levels() == old(self).scope_levels(),
            final(self).buffer_cap() == old(self).buffer_cap(),
            final(self).path() == old(self).path(),
    {
        let mut out: Vec<u8> = vec![0u8; MAX_BUF_CAP];
        let n = self.buf.read_and_drain(out.as_mut_slice());
        out.truncate(n);
        proof {
            assert(out@ =~= flushed_bytes(old(self).buffer()));
        }
        out
    }

    fn contains_level(&self, level: LogLevel) -> (r: bool)
        ensures
            r == self.scope_levels().contains(level),
    {
        let mut i: usize = 0;
        while i < self.scope.len()
            invariant
                i <= self.scope@.len(),
                forall|j: int| 0 <= j < i ==> self.scope@[j] != level,
            decreases self.scope@.len() - i,
        {
            if self.scope[i] == level {
                return true;
            }
            i = i + 1;
        }
        false
    }

    /// Puts the (dimmed) timestamp text in front of `pre`.
    fn add_timestamp(pre: &str, stamp: &str) -> (r: String)
        ensures
            exists|ps: Seq<char>| painted(ps, stamp@, dim_code()) && r@ == ps + " "@ + pre@,
    {
        let mut r = paint_dim(stamp);
        let ghost ps = r@;
        append_str(&mut r, " ");
        append_str(&mut r, pre);
        r
    }

    /// Renders a message as a log line, unless its level is out of scope.
    /// Unless `internal`, the line also goes into the buffer, which is
    /// flushed first when the line would reach its capacity.
    fn parse_log_message(
        &mut self,
        msg: &str,
        level: LogLevel,
        stamp: &str,
        target: &str,
        internal: bool,
    ) -> (r: Option<Logged>)
        requires
            old(self).wf(),
        ensures
            final(self).wf(),
            log_step(*old(self), *final(self), level, msg@, target@, stamp@, internal, r),
    {
        if !self.contains_level(level) {
            return None;
        }
        let name = level.to_string();
        let pl = match level {
            LogLevel::Warn => paint_warn(name.as_str()),
            LogLevel::Info => paint_info(name.as_str()),
            LogLevel::Error => paint_error(name.as_str()),
            LogLevel::Debug => paint_debug(name.as_str()),
        };
        let mut ret = String::new();
        match level {
            LogLevel::Warn | LogLevel::Info => append_str(&mut ret, " "),
            _ => {},
        }
        append_str(&mut ret, pl.as_str());
        let ghost pl_v = pl@;
        let mut temp;
        let ghost pd_v;
        if target.unicode_len() == 0 {
            temp = paint_dim(ret.as_str());
            proof {
                pd_v = temp@;
            }
            append_str(&mut temp, " ");
            append_str(&mut temp, msg);
        } else {
            let pd = paint_dim(target);
            proof {
                pd_v = pd@;
            }
            temp = ret;
            append_str(&mut temp, " ");
            append_str(&mut temp, pd.as_str());
            append_str(&mut temp, " ");
            append_str(&mut temp, msg);
        }
        let mut stamped = Self::add_timestamp(temp.as_str(), stamp);
        let ghost ps_v = choose|ps: Seq<char>|
            painted(ps, stamp@, dim_code()) && stamped@ == ps + " "@ + temp@;
        append_str(&mut stamped, "\n");
        let pre = stamped;
        proof {
            if target@.len() == 0 {
                assert(pre@ =~= ps_v + " "@ + pd_v + " "@ + msg@ + "\n"@);
            } else {
                assert(pre@ =~= ps_v + " "@ + level_lead(level) + pl_v + " "@ + pd_v + " "@ + msg@
                    + "\n"@);
            }
            assert(line_pieces_ok(level, target@, stamp@, pl_v, pd_v, ps_v));
            assert(pre@ == line_from_pieces(level, msg@, target@, pl_v, pd_v, ps_v));
        }
        let held_before = self.buf.get_buf_length();
        let ghost start = *self;
        let mut to_file: Option<Vec<u8>> = None;
        if !internal {
            let pre_len = pre.as_str().as_bytes().len();
            if self.buf.get_cap() - held_before <= pre_len {
                let out = self.flush();
                assert(needs_flush(start.buffer(), start.buffer_cap(), pre@));
                to_file = Some(out);
            } else {
                assert(!needs_flush(start.buffer(), start.buffer_cap(), pre@));
            }
            self.write_to_buf(pre.as_str());
        }
        let r = Logged { line: pre, to_file, held_before };
        Some(r)
    }

    /// Logs an item as `parse_log_message` does with `internal` false:
    /// returns what was logged, or `None` when its level is out of scope.
    /// The line goes into the buffer, which is flushed first when the line
    /// would reach its capacity; the flushed bytes are for the log file.
    /// `stamp` is the current time, formatted as the item asks.
    pub fn with_builder(&mut self, builder: LogItem, stamp: &str) -> (r: Option<Logged>)
        requires
            old(self).wf(),
        ensures
            final(self).wf(),
            log_step(
                *old(self),
                *final(self),
                builder.level,
                builder.msg@,
                builder.target@,
                stamp@,
                false,
                r,
            ),
    {
        if !self.contains_level(builder.level) {
            return None;
        }
        self.parse_log_message(
            builder.msg.as_str(),
            builder.level,
            stamp,
            builder.target.as_str(),
            false,
        )
    }

    /// Renders an item for the logger's own reports, as `parse_log_message`
    /// does with `internal` true: the line does not go into the buffer.
    pub fn __internal_log(&mut self, builder: LogItem, stamp: &str) -> (r: Option<Logged>)
        requires
            old(self).wf(),
        ensures
            final(self).wf(),
            log_step(
                *old(self),
                *final(self),
                builder.level,
                builder.msg@,
                builder.target@,
                stamp@,
                true,
                r,
            ),
    {
        self.parse_log_message(
            builder.msg.as_str(),
            builder.level,
            stamp,
            builder.target.as_str(),
            true,
        )
    }
}

/// A log message ready to be shown: its text, level, timestamp format and
/// where it came from.
pub struct LogItem {
    pub msg: String,
    pub level: LogLevel,
    pub timestamp_format: String,
    pub target: String,
}

/// Gathers the parts of a log message, then builds a `LogItem`.
#[derive(Clone)]
pub struct LogBuilder {
    msg: String,
    level: LogLevel,
    timestamp_format: String,
    file: Option<String>,
    line: Option<u32>,
    col: Option<u32>,
}

/// The timestamp format an item gets when none was set.
pub open spec fn default_timestamp_format() -> Seq<char> {
    "%Y-%m-%dT%H:%M:%S%.6fZ"@
}

/// Where a message came from: `line:col` when both are known, after the
/// file and a space when the file is known.
pub open spec fn spec_target(file: Option<Seq<char>>, line: Option<u32>, col: Option<u32>) -> Seq<
    char,
> {
    let place = match (line, col) {
        (Some(l), Some(c)) => decimal(l as int) + ":"@ + decimal(c as int),
        _ => Seq::<char>::empty(),
    };
    match file {
        Some(f) => f + " "@ + place,
        None => place,
    }
}

impl LogBuilder {
    pub closed spec fn msg_text(&self) -> Seq<char> {
        self.msg@
    }

    pub closed spec fn level_set(&self) -> LogLevel {
        self.level
    }

    pub closed spec fn format_text(&self) -> Seq<char> {
        self.timestamp_format@
    }

    pub closed spec fn file_text(&self) -> Option<Seq<char>> {
        match self.file {
            Some(f) => Some(f@),
            None => None,
        }
    }

    pub closed spec fn line_set(&self) -> Option<u32> {
        self.line
    }

    pub closed spec fn col_set(&self) -> Option<u32> {
        self.col
    }

    pub fn new() -> (b: Self)
        ensures
            b.msg_text() == Seq::<char>::empty(),
            b.level_set() == LogLevel::Info,
            b.format_text() == Seq::<char>::empty(),
            b.file_text() is None,
            b.line_set() is None,
            b.col_set() is None,
    {
        Self {
            msg: String::new(),
            level: LogLevel::Info,
            timestamp_format: String::new(),
            file: None,
            line: None,
            col: None,
        }
    }

    /// Add the message to the log message
    pub fn msg(&mut self, msg: &str) -> (r: &mut Self)
        ensures
            r.msg_text() == msg@,
            r.level_set() == old(self).level_set(),
            r.format_text() == old(self).format_text(),
            r.file_text() == old(self).file_text(),
            r.line_set() == old(self).line_set(),
            r.col_set() == old(self).col_set(),
            *final(self) == *final(r),
    {
        self.msg = to_owned_string(msg);
        self
    }

    /// Sets the log level
    pub fn level(&mut self, level: LogLevel) -> (r: &mut Self)
        ensures
            r.msg_text() == old(self).msg_text(),
            r.level_set() == level,
            r.format_text() == old(self).format_text(),
            r.file_text() == old(self).file_text(),
            r.line_set() == old(self).line_set(),
            r.col_set() == old(self).col_set(),
            *final(self) == *final(r),
    {
        self.level = level;
        self
    }

    /// Set the format for the timestamp at the beginning of the log message
    pub fn timestamp_format(&mut self, timestamp_format: &str) -> (r: &mut Self)
        ensures
            r.msg_text() == old(self).msg_text(),
            r.level_set() == old(self).level_set(),
            r.format_text() == timestamp_format@,
            r.file_text() == old(self).file_text(),
            r.line_set() == old(self).line_set(),
            r.col_set() == old(self).col_set(),
            *final(self) == *final(r),
    {
        self.timestamp_format = to_owned_string(timestamp_format);
        self
    }

    /// Add the line number of the origin of the log message; use it together with `col`
    pub fn line(&mut self, line: u32) -> (r: &mut Self)
        ensures
            r.msg_text() == old(self).msg_text(),
            r.level_set() == old(self).level_set(),
            r.format_text() == old(self).format_text(),
            r.file_text() == old(self).file_text(),
            r.line_set() == Some(line),
            r.col_set() == old(self).col_set(),
            *final(self) == *final(r),
    {
        self.line = Some(line);
        self
    }

    /// Add the column number of the origin; use it together with `line`
    pub fn col(&mut self, col: u32) -> (r: &mut Self)
        ensures
            r.msg_text() == old(self).msg_text(),
            r.level_set() == old(self).level_set(),
            r.format_text() == old(self).format_text(),
            r.file_text() == old(self).file_text(),
            r.line_set() == old(self).line_set(),
            r.col_set() == Some(col),
            *final(self) == *final(r),
    {
        self.col = Some(col);
        self
    }

    /// Add the file (or module) the log message comes from
    pub fn file(&mut self, file: String) -> (r: &mut Self)
        ensures
            r.msg_text() == old(self).msg_text(),
            r.level_set() == old(self).level_set(),
            r.format_text() == old(self).format_text(),
            r.file_text() == Some(file@),
            r.line_set() == old(self).line_set(),
            r.col_set() == old(self).col_set(),
            *final(self) == *final(r),
    {
        self.file = Some(file);
        self
    }

    /// Build with all the flags set before. The message must not be empty,
    /// and line and column are given both or neither. An empty timestamp
    /// format becomes the default one, in the builder too.
    pub fn build(&mut self) -> (item: LogItem)
        requires
            old(self).msg_text().len() > 0,
            old(self).line_set() is Some <==> old(self).col_set() is Some,
        ensures
            final(self).msg_text() == old(self).msg_text(),
            final(self).level_set() == old(self).level_set(),
            final(self).file_text() == old(self).file_text(),
            final(self).line_set() == old(self).line_set(),
            final(self).col_set() == old(self).col_set(),
            final(self).format_text() == (if old(self).format_text().len() == 0 {
                default_timestamp_format()
            } else {
                old(self).format_text()
            }),
            item.msg@ == old(self).msg_text(),
            item.level == old(self).level_set(),
            item.timestamp_format@ == final(self).format_text(),
            item.target@ == spec_target(
                old(self).file_text(),
                old(self).line_set(),
                old(self).col_set(),
            ),
    {
        if self.timestamp_format.as_str().unicode_len() == 0 {
            self.timestamp_format = to_owned_string("%Y-%m-%dT%H:%M:%S%.6fZ");
        }
        let mut target = String::new();
        match (self.line, self.col) {
            (Some(line), Some(col)) => {
                let l = i64_to_string(line as i64);
                let c = i64_to_string(col as i64);
                append_str(&mut target, l.as_str());
                append_str(&mut target, ":");
                append_str(&mut target, c.as_str());
            },
            _ => {},
        }
        let target = match &self.file {
            Some(file) => {
                let mut t = to_owned_string(file.as_str());
                append_str(&mut t, " ");
                append_str(&mut t, target.as_str());
                t
            },
            None => target,
        };
        LogItem {
            msg: to_owned_string(self.msg.as_str()),
            level: self.level,
            timestamp_format: to_owned_string(self.timestamp_format.as_str()),
            target,
        }
    }
}

impl Default for LogBuilder {
    fn default() -> (b: Self)
        ensures
            b.msg_text() == Seq::<char>::empty(),
            b.level_set() == LogLevel::Info,
            b.format_text() == Seq::<char>::empty(),
            b.file_text() is None,
            b.line_set() is None,
            b.col_set() is None,
    {
        Self::new()
    }
}

/// Whatever was in a buffer and was written to it since comes back out, in
/// order, when it is drained into a slice large enough.
pub proof fn lemma_write_then_drain(held: Seq<u8>, cap: nat, data: Seq<u8>, out_len: nat)
    requires
        held.len() <= cap,
        held.len() + data.len() <= cap,
        out_len >= held.len() + data.len(),
    ensures
        ({
            let n = fitting(data.len() as int, cap - held.len());
            let after = held + data.take(n);
            &&& n == data.len()
            &&& after.take(
                fitting(out_len as int, after.len() as int),
            ) == held + data
            &&& after.skip(fitting(out_len as int, after.len() as int)) == Seq::<u8>::empty()
        }),
{
    let n = fitting(data.len() as int, cap - held.len());
    assert(data.take(n) =~= data);
    let after = held + data.take(n);
    assert(after.take(after.len() as int) =~= after);
    assert(after.skip(after.len() as int) =~= Seq::<u8>::empty());
}

/// A well-formed buffer never holds more than its capacity.
pub proof fn lemma_buffer_within_capacity(b: LocalBuffer)
    requires
        b.wf(),
    ensures
        b.contents().len() <= b.capacity(),
{
}

/// A well-formed logger's buffer never holds more than its capacity.
pub proof fn lemma_log_buffer_within_capacity(l: Log)
    requires
        l.wf(),
    ensures
        l.buffer().len() <= l.buffer_cap(),
{
}

/// With a capacity of at most `MAX_BUF_CAP`, one flush hands over all that
/// the buffer held and leaves it empty.
pub proof fn lemma_flush_takes_all(l: Log)
    requires
        l.wf(),
        l.buffer_cap() <= MAX_BUF_CAP,
    ensures
        flushed_bytes(l.buffer()) == l.buffer(),
        after_flush(l.buffer()) == Seq::<u8>::empty(),
{
    assert(l.buffer().take(l.buffer().len() as int) =~= l.buffer());
    assert(l.buffer().skip(l.buffer().len() as int) =~= Seq::<u8>::empty());
}

/// A line logged into a buffer it would fill up: with a capacity of at most
/// `MAX_BUF_CAP`, all the buffer held goes to the log file and the buffer
/// then holds the line alone, as far as it fits.
pub proof fn lemma_full_buffer_goes_to_file(
    before: Log,
    after: Log,
    level: LogLevel,
    msg: Seq<char>,
    target: Seq<char>,
    stamp: Seq<char>,
    r: Option<Logged>,
)
    requires
        before.wf(),
        before.buffer_cap() <= MAX_BUF_CAP,
        log_step(before, after, level, msg, target, stamp, false, r),
        r matches Some(lg) && needs_flush(before.buffer(), before.buffer_cap(), lg.line@),
    ensures
        r->0.to_file matches Some(bytes) && bytes@ == before.buffer(),
        after.buffer() == buffered(Seq::<u8>::empty(), before.buffer_cap(), r->0.line@),
{
    lemma_flush_takes_all(before);
}

/// A scope that names a level in lowercase selects exactly that level:
/// the lowercase name of every level reads back as that level.
pub proof fn lemma_level_names_read_back(l: LogLevel)
    ensures
        level_of(lowercase_name(l)) == l,
{
    lemma_level_names_differ();
}

/// The lowercase level names and `all` are all different.
proof fn lemma_level_names_differ()
    ensures
        "error"@ != "warn"@,
        "error"@ != "info"@,
        "error"@ != "debug"@,
        "warn"@ != "info"@,
        "warn"@ != "debug"@,
        "info"@ != "debug"@,
        "all"@ != "error"@,
        "all"@ != "warn"@,
        "all"@ != "info"@,
        "all"@ != "debug"@,
{
    reveal_strlit("error");
    reveal_strlit("warn");
    reveal_strlit("info");
    reveal_strlit("debug");
    reveal_strlit("all");
    assert("error"@.len() == 5 && "debug"@.len() == 5);
    assert("warn"@.len() == 4 && "info"@.len() == 4);
    assert("all"@.len() == 3);
    assert("error"@[0] == 'e' && "debug"@[0] == 'd');
    assert("warn"@[0] == 'w' && "info"@[0] == 'i');
}

/// Names other than `error`, `debug` and `warn` select `Info`.
pub proof fn lemma_unknown_name_is_info(s: Seq<char>)
    requires
        s != lowercase_name(LogLevel::Error),
        s != lowercase_name(LogLevel::Debug),
        s != lowercase_name(LogLevel::Warn),
    ensures
        level_of(s) == LogLevel::Info,
{
}

/// A scope text holding one name, with no comma, whose lowercase form is
/// the name of level `l`, selects `l` alone.
pub proof fn lemma_scope_of_one_name(s: Seq<char>, l: LogLevel)
    requires
        !s.contains(','),
        lowercase(s) == lowercase_name(l),
    ensures
        spec_parse_scope(s) == seq![l],
{
    lemma_level_names_differ();
    assert(lowercase_name(l) != "all"@);
    crate::text::lemma_split_single(s, ',');
    lemma_level_names_read_back(l);
    assert(spec_split(s, ',').map_values(|p: Seq<char>| level_of(lowercase(p))) =~= seq![l]);
}

} // verus!
