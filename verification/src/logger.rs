//! The session log: entries in the order they were logged, listeners told
//! of each, and a save to disk after every fifth entry.

use vstd::prelude::*;
use vstd::utf8::{decode_utf8, encode_utf8, is_char_boundary};
use crate::analyzer::byte_slice;
use crate::text::{decimal, decimal_string, push_str};

verus! {

/// How serious a log entry is.
#[derive(Debug, Clone, Copy, PartialEq, Eq, Structural)]
pub enum LogLevel {
    Info,
    Success,
    Warning,
    Error,
    Debug,
}

/// One line of the log.
#[derive(Debug)]
pub struct LogEntry {
    pub timestamp: String,
    pub level: LogLevel,
    pub category: String,
    pub message: String,
}

/// A decimal digit.
pub open spec fn is_digit(c: char) -> bool {
    '0' <= c && c <= '9'
}

/// The text chrono writes for a year (`%Y`): at least four digits, with a
/// sign in front for years outside 0 to 9999.
pub open spec fn year_text(y: Seq<char>) -> bool {
    let d = if y.len() > 0 && (y[0] == '+' || y[0] == '-') {
        y.skip(1)
    } else {
        y
    };
    d.len() >= 4 && forall|i: int| 0 <= i < d.len() ==> is_digit(#[trigger] d[i])
}

/// `t` has the separator `sep` at each position in `seps` and a digit at
/// every other position.
pub open spec fn digits_with(t: Seq<char>, seps: Seq<(int, char)>) -> bool {
    &&& forall|k: int| 0 <= k < seps.len() ==> 0 <= #[trigger] seps[k].0 < t.len() && t[seps[k].0] == seps[k].1
    &&& forall|i: int|
        0 <= i < t.len() && (forall|k: int| 0 <= k < seps.len() ==> #[trigger] seps[k].0 != i) ==> is_digit(
            #[trigger] t[i],
        )
}

/// A log entry's time, `YYYY-MM-DD HH:MM:SS.mmm`: a year, then
/// `-MM-DD HH:MM:SS.mmm` with two-digit fields and three-digit
/// milliseconds.
pub open spec fn entry_time_text(t: Seq<char>) -> bool {
    &&& t.len() >= 23
    &&& year_text(t.take(t.len() - 19))
    &&& t.skip(t.len() - 19).len() == 19
    &&& digits_with(
        t.skip(t.len() - 19),
        seq![(0int, '-'), (3int, '-'), (6int, ' '), (9int, ':'), (12int, ':'), (15int, '.')],
    )
}

/// A session's stamp, `YYYYMMDD_HHMMSS`: a year, then `MMDD_HHMMSS`.
pub open spec fn session_time_text(t: Seq<char>) -> bool {
    &&& t.len() >= 15
    &&& year_text(t.take(t.len() - 11))
    &&& digits_with(t.skip(t.len() - 11), seq![(4int, '_')])
}

/// The local time as `YYYY-MM-DD HH:MM:SS.mmm`, for a log entry.
///
/// Calls `chrono::Local::now` and formats it with chrono's `format`
/// (`%Y-%m-%d %H:%M:%S%.3f`). The contract states the shape that chrono
/// documents for these fields (see `entry_time_text`); which time it is
/// depends on the clock and is left unsaid.
#[verifier::external_body]
fn entry_timestamp() -> (t: String)
    ensures
        entry_time_text(t@),
{
    chrono::Local::now().format("%Y-%m-%d %H:%M:%S%.3f").to_string()
}

/// The local time as `YYYYMMDD_HHMMSS`, naming a logging session.
///
/// Calls `chrono::Local::now` and formats it with chrono's `format`
/// (`%Y%m%d_%H%M%S`). The contract states the shape that chrono documents
/// for these fields (see `session_time_text`); which time it is depends on
/// the clock and is left unsaid.
#[verifier::external_body]
fn session_stamp() -> (t: String)
    ensures
        session_time_text(t@),
{
    chrono::Local::now().format("%Y%m%d_%H%M%S").to_string()
}

/// The log of one session. `L` is the type of the listeners told of each
/// new entry.
pub struct Logger<L: Fn(&LogEntry)> {
    pub entries: Vec<LogEntry>,
    session_id: String,
    listeners: Vec<L>,
}

impl<L: Fn(&LogEntry)> Logger<L> {
    /// The entries logged so far, oldest first.
    pub closed spec fn logged(&self) -> Seq<LogEntry> {
        self.entries@
    }

    /// The session's identifier.
    pub closed spec fn session(&self) -> Seq<char> {
        self.session_id@
    }

    /// How many listeners are registered.
    pub closed spec fn listener_count(&self) -> nat {
        self.listeners@.len()
    }

    /// The `k`-th registered listener, in the order they were registered.
    pub closed spec fn listener_at(&self, k: int) -> L {
        self.listeners@[k]
    }

    /// Every registered listener accepts every entry.
    pub closed spec fn listeners_accept_all(&self) -> bool {
        forall|i: int, e: &LogEntry|
            0 <= i < self.listeners@.len() ==> #[trigger] call_requires(self.listeners@[i], (e,))
    }

    /// A fresh log: no entries, no listeners, and a session named
    /// `session_` followed by the local time.
    pub fn new() -> (l: Self)
        ensures
            l.logged().len() == 0,
            l.listener_count() == 0,
            l.listeners_accept_all(),
            l.session().len() >= 8,
            l.session().take(8) == "session_"@,
            session_time_text(l.session().skip(8)),
    {
        let mut id = String::new();
        push_str(&mut id, "session_");
        let stamp = session_stamp();
        push_str(&mut id, stamp.as_str());
        proof {
            reveal_strlit("session_");
            assert(id@.take(8) =~= "session_"@);
            assert(id@.skip(8) =~= stamp@);
        }
        Logger { entries: Vec::new(), session_id: id, listeners: Vec::new() }
    }

    /// The session's identifier, which names its file on disk.
    pub fn session_id(&self) -> (r: &str)
        ensures
            r@ == self.session(),
    {
        self.session_id.as_str()
    }

    /// Logs a message: stamps it with the local time, tells every listener
    /// of the new entry and appends it. Says whether the log is due to be saved, which is
    /// after every fifth entry.
    pub fn log(&mut self, level: LogLevel, category: &str, message: &str) -> (save_due: bool)
        requires
            old(self).listeners_accept_all(),
            old(self).logged().len() < usize::MAX,
        ensures
            final(self).logged().len() == old(self).logged().len() + 1,
            final(self).logged().drop_last() == old(self).logged(),
            final(self).logged().last().level == level,
            final(self).logged().last().category@ == category@,
            final(self).logged().last().message@ == message@,
            entry_time_text(final(self).logged().last().timestamp@),
            final(self).session() == old(self).session(),
            final(self).listener_count() == old(self).listener_count(),
            forall|k: int| 0 <= k < old(self).listener_count() ==> #[trigger] final(self).listener_at(k) == old(
                self,
            ).listener_at(k),
            forall|k: int|
                0 <= k < old(self).listener_count() ==> call_ensures(
                    #[trigger] old(self).listener_at(k),
                    (&final(self).logged().last(),),
                    (),
                ),
            final(self).listeners_accept_all(),
            save_due == (final(self).logged().len() % 5 == 0),
    {
        let entry = LogEntry {
            timestamp: entry_timestamp(),
            level,
            category: category.to_owned(),
            message: message.to_owned(),
        };
        let mut i: usize = 0;
        while i < self.listeners.len()
            invariant
                i <= self.listeners@.len(),
                self.listeners@ == old(self).listeners@,
                forall|k: int, e: &LogEntry|
                    0 <= k < self.listeners@.len() ==> #[trigger] call_requires(self.listeners@[k], (e,)),
                forall|k: int| 0 <= k < i ==> call_ensures(#[trigger] self.listeners@[k], (&entry,), ()),
            decreases self.listeners@.len() - i,
        {
            let listener = &self.listeners[i];
            listener(&entry);
            i = i + 1;
        }
        self.entries.push(entry);
        assert(self.entries@.drop_last() =~= old(self).entries@);
        self.entries.len() % 5 == 0
    }

    /// Registers a listener, told of every entry logged from now on.
    pub fn on_log(&mut self, listener: L)
        requires
            old(self).listeners_accept_all(),
            forall|e: &LogEntry| call_requires(listener, (e,)),
        ensures
            final(self).logged() == old(self).logged(),
            final(self).session() == old(self).session(),
            final(self).listener_count() == old(self).listener_count() + 1,
            forall|k: int| 0 <= k < old(self).listener_count() ==> #[trigger] final(self).listener_at(k) == old(
                self,
            ).listener_at(k),
            final(self).listener_at(old(self).listener_count() as int) == listener,
            final(self).listeners_accept_all(),
    {
        self.listeners.push(listener);
        proof {
            assert forall|i: int, e: &LogEntry|
                0 <= i < self.listeners@.len() implies #[trigger] call_requires(self.listeners@[i], (e,)) by {
                if i < self.listeners@.len() - 1 {
                    assert(self.listeners@[i] == old(self).listeners@[i]);
                }
            }
        }
    }
}

/// The clock part `HH:MM` of a timestamp `YYYY-MM-DD HH:MM:SS.mmm`: its
/// bytes 11 to 16 when it has at least 16 bytes, else the whole timestamp.
pub open spec fn clock_part(timestamp: Seq<char>) -> Seq<char> {
    let b = encode_utf8(timestamp);
    if b.len() >= 16 {
        decode_utf8(b.subrange(11, 16))
    } else {
        timestamp
    }
}

/// Shortens a log timestamp to the time of day shown beside a
/// notification (see `clock_part`). A timestamp of 16 bytes or more must
/// have character boundaries at bytes 11 and 16.
pub fn format_time(timestamp: &str) -> (r: String)
    requires
        encode_utf8(timestamp@).len() >= 16 ==> is_char_boundary(encode_utf8(timestamp@), 11)
            && is_char_boundary(encode_utf8(timestamp@), 16),
    ensures
        r@ == clock_part(timestamp@),
{
    if timestamp.as_bytes().len() >= 16 {
        byte_slice(timestamp, 11, 16)
    } else {
        timestamp.to_owned()
    }
}

/// The icon shown beside a notification of this level.
pub fn level_icon(level: LogLevel) -> (r: &'static str)
    ensures
        r@ == match level {
            LogLevel::Success => "🟢"@,
            LogLevel::Error => "🔴"@,
            LogLevel::Warning => "🟡"@,
            LogLevel::Info => "🔵"@,
            LogLevel::Debug => "⚪"@,
        },
{
    match level {
        LogLevel::Success => "🟢",
        LogLevel::Error => "🔴",
        LogLevel::Warning => "🟡",
        LogLevel::Info => "🔵",
        LogLevel::Debug => "⚪",
    }
}

/// The count shown on the notification bell.
#[derive(Debug)]
pub struct NotificationBadge {
    pub count: u32,
}

impl NotificationBadge {
    /// No notification yet.
    pub fn new() -> (b: NotificationBadge)
        ensures
            b.count == 0,
    {
        NotificationBadge { count: 0 }
    }

    /// A new entry was logged: the count goes up and the badge shows it.
    pub fn on_entry(&mut self) -> (text: String)
        requires
            old(self).count < u32::MAX,
        ensures
            final(self).count == old(self).count + 1,
            text@ == decimal(final(self).count as nat),
    {
        self.count = self.count + 1;
        let n: usize = self.count as usize;
        decimal_string(n)
    }

    /// The notifications were cleared: the count starts again and the
    /// badge is blank.
    pub fn clear(&mut self) -> (text: String)
        ensures
            final(self).count == 0,
            text@.len() == 0,
    {
        self.count = 0;
        String::new()
    }
}

} // verus!
