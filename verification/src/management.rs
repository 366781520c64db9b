//! The management interface's decisions: which log events are broadcast to
//! the live log, how an event's message is assembled, and how the API
//! answers for statistics and refused requests.

use vstd::prelude::*;
use crate::cache::CacheStats;
use crate::text::chars_of;
use crate::hashing::push_char;

verus! {

/// The log layer that forwards log messages to the live-log channel.
#[derive(Clone, Copy, Debug)]
pub struct BroadcastLayer;

/// Severity of a log event, most severe first.
#[derive(Clone, Copy, Debug, PartialEq, Eq, Structural)]
pub enum LogLevel {
    Error,
    Warn,
    Info,
    Debug,
    Trace,
}

/// Events at `INFO` or more severe are broadcast.
pub open spec fn at_most_info(level: LogLevel) -> bool {
    level is Error || level is Warn || level is Info
}

impl BroadcastLayer {
    /// Whether an event of `level` whose assembled message is `message` is
    /// sent to the live log: it must be at `INFO` or more severe and have a
    /// non-empty message.
    pub fn should_broadcast(&self, level: LogLevel, message: &str) -> (send: bool)
        ensures
            send == (at_most_info(level) && message@.len() > 0),
    {
        let severe = match level {
            LogLevel::Error => true,
            LogLevel::Warn => true,
            LogLevel::Info => true,
            LogLevel::Debug => false,
            LogLevel::Trace => false,
        };
        severe && !message.is_empty()
    }
}

/// The number of `"` characters `s` starts with.
pub open spec fn leading_quotes(s: Seq<char>) -> nat
    decreases s.len(),
{
    if s.len() > 0 && s[0] == '"' {
        1 + leading_quotes(s.drop_first())
    } else {
        0
    }
}

/// The number of `"` characters `s` ends with.
pub open spec fn trailing_quotes(s: Seq<char>) -> nat
    decreases s.len(),
{
    if s.len() > 0 && s.last() == '"' {
        1 + trailing_quotes(s.drop_last())
    } else {
        0
    }
}

/// `s` without its leading and trailing `"` characters (`trim_matches('"')`).
pub open spec fn trim_quotes(s: Seq<char>) -> Seq<char> {
    let a = leading_quotes(s);
    if a == s.len() {
        Seq::empty()
    } else {
        s.subrange(a as int, s.len() - trailing_quotes(s))
    }
}

proof fn lemma_leading(s: Seq<char>, k: int)
    requires
        0 <= k <= s.len(),
        forall|j: int| 0 <= j < k ==> s[j] == '"',
        k == s.len() || s[k] != '"',
    ensures
        leading_quotes(s) == k,
    decreases s.len(),
{
    if k > 0 {
        lemma_leading(s.drop_first(), k - 1);
    }
}

proof fn lemma_trailing(s: Seq<char>, k: int)
    requires
        0 <= k <= s.len(),
        forall|j: int| s.len() - k <= j < s.len() ==> s[j] == '"',
        k == s.len() || s[s.len() - k - 1] != '"',
    ensures
        trailing_quotes(s) == k,
    decreases s.len(),
{
    if k > 0 {
        lemma_trailing(s.drop_last(), k - 1);
    }
}

/// Adds the debug rendering of one event field to the message being
/// assembled: only the field named `message` counts, its surrounding quotes
/// removed.
pub fn record_field(message: &mut String, field_name: &str, rendered: &str)
    ensures
        field_name@ == "message"@ ==> final(message)@ == old(message)@ + trim_quotes(rendered@),
        field_name@ != "message"@ ==> final(message)@ == old(message)@,
{
    if !crate::handler::same_text(field_name, "message") {
        return;
    }
    let cs = chars_of(rendered);
    let n = cs.len();
    let mut a: usize = 0;
    while a < n && cs[a] == '"'
        invariant
            a <= n,
            n == cs@.len(),
            forall|j: int| 0 <= j < a ==> cs@[j] == '"',
        decreases n - a,
    {
        a = a + 1;
    }
    proof {
        lemma_leading(cs@, a as int);
    }
    if a == n {
        return;
    }
    let mut b: usize = n;
    while b > a && cs[b - 1] == '"'
        invariant
            a < n,
            a <= b <= n,
            n == cs@.len(),
            forall|j: int| b <= j < n ==> cs@[j] == '"',
        decreases b,
    {
        b = b - 1;
    }
    proof {
        assert(cs@[a as int] != '"');
        lemma_trailing(cs@, (n - b) as int);
    }
    let ghost start = message@;
    let mut i = a;
    while i < b
        invariant
            a <= i <= b <= n,
            n == cs@.len(),
            message@ == start + cs@.subrange(a as int, i as int),
        decreases b - i,
    {
        push_char(message, cs[i]);
        assert(cs@.subrange(a as int, i + 1) =~= cs@.subrange(a as int, i as int).push(cs@[i as int]));
        i = i + 1;
    }
}

/// The JSON body of `GET /api/stats`.
#[derive(Clone, Debug)]
pub struct StatsResponse {
    pub status: String,
    pub stats: CacheStats,
}

/// The statistics answer: status `Aktif` with the given statistics.
pub fn stats_response(stats: CacheStats) -> (r: StatsResponse)
    ensures
        r.status@ == "Aktif"@,
        r.stats == stats,
{
    StatsResponse { status: "Aktif".to_string(), stats }
}

/// Why the management API refused a request.
pub enum Rejection {
    /// No route matched.
    NotFound,
    /// A handler failed with this message.
    Custom(String),
    /// Any other refusal, given by its debug rendering.
    Unhandled(String),
}

/// The JSON error answer: a status code and a message.
pub struct ErrorReply {
    pub code: u16,
    pub message: String,
}

/// The error answer to a refused request: `404 NOT_FOUND` when no route
/// matched, `500` with the handler's message when a handler failed, and
/// `500 UNHANDLED_REJECTION: ...` otherwise.
pub fn rejection_reply(rejection: Rejection) -> (r: ErrorReply)
    ensures
        rejection is NotFound ==> r.code == 404 && r.message@ == "NOT_FOUND"@,
        rejection matches Rejection::Custom(m) ==> (r.code == 500 && r.message@ == m@),
        rejection matches Rejection::Unhandled(d) ==> (r.code == 500 && r.message@ == "UNHANDLED_REJECTION: "@
            + d@),
{
    match rejection {
        Rejection::NotFound => ErrorReply { code: 404, message: "NOT_FOUND".to_string() },
        Rejection::Custom(m) => ErrorReply { code: 500, message: m },
        Rejection::Unhandled(d) => {
            let mut message = "UNHANDLED_REJECTION: ".to_string();
            message.append(d.as_str());
            ErrorReply { code: 500, message }
        },
    }
}

} // verus!
