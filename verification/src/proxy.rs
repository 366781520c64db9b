//! The proxy's connection front end: telling CONNECT requests apart,
//! collecting a CONNECT request's header, finding its target, and deciding
//! which connection errors are worth reporting.

use vstd::prelude::*;
use crate::text::{chars_of, string_of};

verus! {

/// `s` contains `pat` somewhere.
pub open spec fn contains_seq<T>(s: Seq<T>, pat: Seq<T>) -> bool {
    exists|i: int| 0 <= i && i + pat.len() <= s.len() && #[trigger] s.subrange(i, i + pat.len()) == pat
}

/// `s` begins with `pat`.
pub open spec fn starts_with_seq<T>(s: Seq<T>, pat: Seq<T>) -> bool {
    pat.len() <= s.len() && s.take(pat.len() as int) == pat
}

/// The bytes `CONNECT`.
pub open spec fn connect_method_bytes() -> Seq<u8> {
    seq![67u8, 79u8, 78u8, 78u8, 69u8, 67u8, 84u8]
}

/// The blank line that ends an HTTP header: `\r\n\r\n`.
pub open spec fn header_end() -> Seq<u8> {
    seq![13u8, 10u8, 13u8, 10u8]
}

/// Whether the first bytes of a connection start a CONNECT request.
pub fn is_connect_preface(peeked: &[u8]) -> (b: bool)
    ensures
        b == starts_with_seq(peeked@, connect_method_bytes()),
{
    let method: [u8; 7] = [67u8, 79u8, 78u8, 78u8, 69u8, 67u8, 84u8];
    assert(method@ =~= connect_method_bytes());
    if peeked.len() < 7 {
        return false;
    }
    let mut i: usize = 0;
    while i < 7
        invariant
            i <= 7,
            peeked@.len() >= 7,
            method@ == connect_method_bytes(),
            forall|k: int| 0 <= k < i ==> peeked@[k] == method@[k],
        decreases 7 - i,
    {
        if peeked[i] != method[i] {
            assert(peeked@.take(7)[i as int] != connect_method_bytes()[i as int]);
            return false;
        }
        i = i + 1;
    }
    assert(peeked@.take(7) =~= connect_method_bytes());
    true
}

fn matches_at_bytes(s: &[u8], pat: &[u8], at: usize) -> (b: bool)
    requires
        at + pat@.len() <= s@.len(),
    ensures
        b == (s@.subrange(at as int, at + pat@.len()) == pat@),
{
    let n = s.len();
    let mut k: usize = 0;
    while k < pat.len()
        invariant
            k <= pat@.len(),
            n == s@.len(),
            at + pat@.len() <= s@.len(),
            forall|j: int| 0 <= j < k ==> s@[at + j] == pat@[j],
        decreases pat@.len() - k,
    {
        if s[at + k] != pat[k] {
            assert(s@.subrange(at as int, at + pat@.len())[k as int] != pat@[k as int]);
            return false;
        }
        k = k + 1;
    }
    assert(s@.subrange(at as int, at + pat@.len()) =~= pat@);
    true
}

/// Whether `pat` occurs in `s`.
pub fn contains_bytes(s: &[u8], pat: &[u8]) -> (b: bool)
    ensures
        b == contains_seq(s@, pat@),
{
    if pat.len() > s.len() {
        return false;
    }
    let last = s.len() - pat.len();
    let mut i: usize = 0;
    loop
        invariant
            last == s@.len() - pat@.len(),
            pat@.len() <= s@.len(),
            i <= last,
            forall|j: int| 0 <= j < i ==> #[trigger] s@.subrange(j, j + pat@.len()) != pat@,
        decreases last - i,
    {
        if matches_at_bytes(s, pat, i) {
            return true;
        }
        if i == last {
            return false;
        }
        i = i + 1;
    }
}

/// A connection error is reported unless its message holds "broken pipe",
/// "os error 10053" or "os error 10054" (connection aborted or reset). A
/// text occurs in another exactly when its UTF-8 bytes occur in the other's.
pub open spec fn reportable_error_spec(message: Seq<char>) -> bool {
    let m = vstd::utf8::encode_utf8(message);
    !(contains_seq(m, vstd::utf8::encode_utf8("broken pipe"@)) || contains_seq(m, vstd::utf8::encode_utf8("os error 10053"@))
        || contains_seq(m, vstd::utf8::encode_utf8("os error 10054"@)))
}

/// Whether a failed connection, described by `message`, is worth a warning.
pub fn is_reportable_connection_error(message: &str) -> (b: bool)
    ensures
        b == reportable_error_spec(message@),
{
    let m = message.as_bytes();
    let broken = "broken pipe".as_bytes();
    let aborted = "os error 10053".as_bytes();
    let reset = "os error 10054".as_bytes();
    !(contains_bytes(m, broken) || contains_bytes(m, aborted) || contains_bytes(m, reset))
}

/// How collecting a CONNECT header went after one read.
#[derive(Clone, Copy, Debug, PartialEq, Eq, Structural)]
pub enum PreambleProgress {
    /// The connection closed before the header was complete.
    Closed,
    /// The header is not complete yet; read again.
    Incomplete,
    /// The header is complete; this many bytes were received.
    Complete(usize),
}

/// The buffer a CONNECT request's header is collected in. It starts with
/// room for 4096 bytes and doubles whenever it fills up.
pub struct ConnectPreamble {
    buffer: Vec<u8>,
    pos: usize,
}

impl ConnectPreamble {
    /// The bytes received so far.
    pub closed spec fn received(&self) -> Seq<u8> {
        self.buffer@.take(self.pos as int)
    }

    /// The size of the buffer.
    pub closed spec fn capacity(&self) -> nat {
        self.buffer@.len()
    }

    /// The received bytes lie within the buffer.
    pub closed spec fn in_bounds(&self) -> bool {
        self.pos <= self.buffer@.len()
    }

    /// The buffer has room left and the header is not complete.
    pub closed spec fn wf(&self) -> bool {
        &&& self.pos < self.buffer@.len()
        &&& !contains_seq(self.received(), header_end())
    }

    /// An empty buffer with room for 4096 bytes.
    pub fn new() -> (p: ConnectPreamble)
        ensures
            p.wf(),
            p.in_bounds(),
            p.received() == Seq::<u8>::empty(),
            p.capacity() == 4096,
    {
        let p = ConnectPreamble { buffer: vec![0u8; 4096], pos: 0 };
        assert(p.received() =~= Seq::<u8>::empty());
        p
    }

    /// How many bytes the next read may deliver.
    pub fn space(&self) -> (n: usize)
        requires
            self.wf(),
        ensures
            n == self.capacity() - self.received().len(),
            n > 0,
    {
        self.buffer.len() - self.pos
    }

    /// The size of the buffer.
    pub fn buffer_len(&self) -> (n: usize)
        ensures
            n == self.capacity(),
    {
        self.buffer.len()
    }

    /// The target named by the header received so far.
    pub fn connect_target(&self) -> (target: Option<String>)
        requires
            self.in_bounds(),
        ensures
            match target {
                Some(t) => connect_target_spec(utf8_lossy(self.received())) == Some(t@),
                None => connect_target_spec(utf8_lossy(self.received())) is None,
            },
    {
        parse_connect_target(vstd::slice::slice_subrange(self.buffer.as_slice(), 0, self.pos))
    }

    /// Takes the bytes of one read; an empty read means the connection closed.
    pub fn receive(&mut self, data: &[u8]) -> (r: PreambleProgress)
        requires
            old(self).wf(),
            data@.len() <= old(self).capacity() - old(self).received().len(),
            old(self).capacity() * 2 <= usize::MAX,
        ensures
            final(self).in_bounds(),
            data@.len() == 0 ==> r == PreambleProgress::Closed && final(self).received() == old(self).received()
                && final(self).capacity() == old(self).capacity(),
            data@.len() > 0 ==> final(self).received() == old(self).received() + data@,
            data@.len() > 0 && contains_seq(final(self).received(), header_end()) ==> r
                == PreambleProgress::Complete(final(self).received().len() as usize),
            data@.len() > 0 && !contains_seq(final(self).received(), header_end()) ==> {
                &&& r == PreambleProgress::Incomplete
                &&& final(self).wf()
                &&& final(self).capacity() == if final(self).received().len() >= old(self).capacity() {
                    2 * old(self).capacity()
                } else {
                    old(self).capacity()
                }
            },
    {
        if data.len() == 0 {
            return PreambleProgress::Closed;
        }
        let ghost before = self.received();
        let cap = self.buffer.len();
        let mut k: usize = 0;
        while k < data.len()
            invariant
                cap == self.buffer@.len(),
                self.pos + data@.len() <= self.buffer@.len(),
                self.buffer@.len() == old(self).buffer@.len(),
                self.pos == old(self).pos,
                k <= data@.len(),
                self.buffer@.take(self.pos as int) == before,
                forall|j: int| 0 <= j < k ==> self.buffer@[self.pos + j] == data@[j],
            decreases data@.len() - k,
        {
            let at = self.pos + k;
            self.buffer.set(at, data[k]);
            assert(self.buffer@.take(self.pos as int) =~= before);
            k = k + 1;
        }
        self.pos = self.pos + data.len();
        assert(self.received() =~= before + data@);
        let end_marker: [u8; 4] = [13u8, 10u8, 13u8, 10u8];
        assert(end_marker@ =~= header_end());
        let complete = contains_bytes(vstd::slice::slice_subrange(self.buffer.as_slice(), 0, self.pos), &end_marker);
        if complete {
            return PreambleProgress::Complete(self.pos);
        }
        if self.pos >= self.buffer.len() {
            let doubled = self.buffer.len() * 2;
            let ghost got = self.received();
            self.buffer.resize(doubled, 0u8);
            assert(self.received() =~= got);
        }
        PreambleProgress::Incomplete
    }
}

/// Whether a character is white space in Unicode (`char::is_whitespace`).
pub open spec fn is_ws(c: char) -> bool {
    let u = c as u32;
    ||| 0x09 <= u <= 0x0D
    ||| u == 0x20
    ||| u == 0x85
    ||| u == 0xA0
    ||| u == 0x1680
    ||| 0x2000 <= u <= 0x200A
    ||| u == 0x2028
    ||| u == 0x2029
    ||| u == 0x202F
    ||| u == 0x205F
    ||| u == 0x3000
}

/// `char::is_whitespace`.
pub fn is_whitespace(c: char) -> (b: bool)
    ensures
        b == is_ws(c),
{
    let u = c as u32;
    (0x09 <= u && u <= 0x0D) || u == 0x20 || u == 0x85 || u == 0xA0 || u == 0x1680 || (0x2000 <= u
        && u <= 0x200A) || u == 0x2028 || u == 0x2029 || u == 0x202F || u == 0x205F || u == 0x3000
}

/// The words of `s` (`str::split_whitespace`): its maximal runs of
/// non-white-space characters, in order.
pub open spec fn words(s: Seq<char>) -> Seq<Seq<char>>
    decreases s.len(),
{
    if s.len() == 0 {
        Seq::empty()
    } else if is_ws(s[0]) {
        words(s.drop_first())
    } else if s.len() > 1 && !is_ws(s[1]) {
        let rest = words(s.drop_first());
        seq![seq![s[0]] + rest[0]] + rest.drop_first()
    } else {
        seq![seq![s[0]]] + words(s.drop_first())
    }
}

/// The position of the first line feed in `s`, or its length when there is none.
pub open spec fn newline_index(s: Seq<char>) -> nat
    decreases s.len(),
{
    if s.len() == 0 {
        0
    } else if s[0] == '\n' {
        0
    } else {
        1 + newline_index(s.drop_first())
    }
}

/// A line without the carriage return that ended it.
pub open spec fn strip_cr(l: Seq<char>) -> Seq<char> {
    if l.len() > 0 && l.last() == '\r' {
        l.drop_last()
    } else {
        l
    }
}

/// The lines of `s` (`str::lines`): split at each line feed, a carriage
/// return before the line feed dropped; a last line without a line feed is
/// kept as it is, and nothing follows a final line feed.
pub open spec fn lines_of(s: Seq<char>) -> Seq<Seq<char>>
    decreases s.len(),
{
    if s.len() == 0 {
        Seq::empty()
    } else {
        let i = newline_index(s);
        if i < s.len() {
            seq![strip_cr(s.take(i as int))] + lines_of(s.skip((i + 1) as int))
        } else {
            seq![s]
        }
    }
}

/// The lower-case form of a text, as `str::to_lowercase` computes it.
pub uninterp spec fn unicode_lowercase(s: Seq<char>) -> Seq<char>;

/// The text `String::from_utf8_lossy` makes of a byte string.
pub uninterp spec fn utf8_lossy(bytes: Seq<u8>) -> Seq<char>;

/// `str::to_lowercase`.
/// Trusted: the result is the Unicode lower-case form of `s` (named
/// `unicode_lowercase`).
#[verifier::external_body]
fn to_lowercase(s: &str) -> (lower: String)
    ensures
        lower@ == unicode_lowercase(s@),
{
    s.to_lowercase()
}

/// `String::from_utf8_lossy`.
/// Trusted: the result is the text of `bytes`, invalid sequences replaced
/// (named `utf8_lossy`).
#[verifier::external_body]
fn lossy_text(bytes: &[u8]) -> (text: String)
    ensures
        text@ == utf8_lossy(bytes@),
{
    String::from_utf8_lossy(bytes).into_owned()
}

/// The method token a CONNECT request line starts with, followed by a space.
pub open spec fn connect_prefix() -> Seq<char> {
    seq!['c', 'o', 'n', 'n', 'e', 'c', 't', ' ']
}

/// A request line of the CONNECT method: its lower-case form starts with `connect `.
pub open spec fn is_connect_line(l: Seq<char>) -> bool {
    starts_with_seq(unicode_lowercase(l), connect_prefix())
}

/// The first CONNECT request line.
pub open spec fn first_connect_line(ls: Seq<Seq<char>>) -> Option<Seq<char>>
    decreases ls.len(),
{
    if ls.len() == 0 {
        None
    } else if is_connect_line(ls[0]) {
        Some(ls[0])
    } else {
        first_connect_line(ls.drop_first())
    }
}

/// The target of a CONNECT request header: the second word of its first
/// CONNECT request line.
pub open spec fn connect_target_spec(text: Seq<char>) -> Option<Seq<char>> {
    match first_connect_line(lines_of(text)) {
        Some(l) => if words(l).len() > 1 {
            Some(words(l)[1])
        } else {
            None
        },
        None => None,
    }
}

proof fn lemma_newline_index(s: Seq<char>, k: int)
    requires
        0 <= k <= s.len(),
        forall|j: int| 0 <= j < k ==> s[j] != '\n',
        k == s.len() || s[k] == '\n',
    ensures
        newline_index(s) == k,
    decreases s.len(),
{
    if s.len() > 0 && k > 0 {
        lemma_newline_index(s.drop_first(), k - 1);
    }
}

fn sub_chars(v: &Vec<char>, from: usize, to: usize) -> (r: Vec<char>)
    requires
        from <= to <= v@.len(),
    ensures
        r@ == v@.subrange(from as int, to as int),
{
    let mut r: Vec<char> = Vec::new();
    let mut i = from;
    while i < to
        invariant
            from <= i <= to,
            to <= v@.len(),
            r@ == v@.subrange(from as int, i as int),
        decreases to - i,
    {
        r.push(v[i]);
        assert(r@ =~= v@.subrange(from as int, i + 1));
        i = i + 1;
    }
    r
}

fn starts_with_chars(s: &Vec<char>, pat: &Vec<char>) -> (b: bool)
    ensures
        b == starts_with_seq(s@, pat@),
{
    if pat.len() > s.len() {
        return false;
    }
    let mut k: usize = 0;
    while k < pat.len()
        invariant
            k <= pat@.len() <= s@.len(),
            forall|j: int| 0 <= j < k ==> s@[j] == pat@[j],
        decreases pat@.len() - k,
    {
        if s[k] != pat[k] {
            assert(s@.take(pat@.len() as int)[k as int] != pat@[k as int]);
            return false;
        }
        k = k + 1;
    }
    assert(s@.take(pat@.len() as int) =~= pat@);
    true
}

/// The words of a line (`str::split_whitespace`).
pub fn split_words(line: &Vec<char>) -> (ws: Vec<Vec<char>>)
    ensures
        ws@.len() == words(line@).len(),
        forall|k: int| 0 <= k < ws@.len() ==> #[trigger] ws@[k]@ == words(line@)[k],
{
    let n = line.len();
    let mut ws: Vec<Vec<char>> = Vec::new();
    let mut i = n;
    assert(line@.skip(n as int) =~= Seq::<char>::empty());
    while i > 0
        invariant
            i <= n,
            n == line@.len(),
            ws@.len() == words(line@.skip(i as int)).len(),
            forall|k: int| 0 <= k < ws@.len() ==> #[trigger] ws@[k]@ == words(line@.skip(i as int))[k],
        decreases i,
    {
        let c = line[i - 1];
        let ghost s = line@.skip(i - 1);
        let ghost t = line@.skip(i as int);
        assert(s[0] == c);
        assert(s.drop_first() =~= t);
        if is_whitespace(c) {
        } else if i < n && !is_whitespace(line[i]) {
            assert(s[1] == line@[i as int]);
            assert(t[0] == line@[i as int]);
            assert(words(t).len() > 0);
            let mut w0 = ws.remove(0);
            w0.insert(0, c);
            ws.insert(0, w0);
            assert forall|k: int| 0 <= k < ws@.len() implies #[trigger] ws@[k]@ == words(s)[k] by {
                if k == 0 {
                    assert(ws@[0]@ =~= seq![c] + words(t)[0]);
                }
            }
        } else {
            let mut w: Vec<char> = Vec::new();
            w.push(c);
            ws.insert(0, w);
            assert forall|k: int| 0 <= k < ws@.len() implies #[trigger] ws@[k]@ == words(s)[k] by {
                if k == 0 {
                    assert(ws@[0]@ =~= seq![c]);
                }
            }
        }
        i = i - 1;
    }
    assert(line@.skip(0) =~= line@);
    ws
}

/// The target of a CONNECT request from its header bytes, read as UTF-8
/// with invalid sequences replaced.
pub fn parse_connect_target(header: &[u8]) -> (target: Option<String>)
    ensures
        match target {
            Some(t) => connect_target_spec(utf8_lossy(header@)) == Some(t@),
            None => connect_target_spec(utf8_lossy(header@)) is None,
        },
{
    let text = lossy_text(header);
    connect_target_in_text(text.as_str())
}

/// Whether a request line, given in lower case, is a CONNECT request line.
pub fn is_connect_request_line(lowered: &str) -> (b: bool)
    ensures
        b == starts_with_seq(lowered@, connect_prefix()),
{
    let lower = chars_of(lowered);
    let prefix: Vec<char> = vec!['c', 'o', 'n', 'n', 'e', 'c', 't', ' '];
    assert(prefix@ =~= connect_prefix());
    starts_with_chars(&lower, &prefix)
}

/// The target named in a CONNECT request header: the second word of the
/// first line whose lower-case form starts with `connect `.
pub fn connect_target_in_text(header_text: &str) -> (target: Option<String>)
    ensures
        match target {
            Some(t) => connect_target_spec(header_text@) == Some(t@),
            None => connect_target_spec(header_text@) is None,
        },
{
    let text = chars_of(header_text);
    let ghost full = text@;
    let n = text.len();
    let mut start: usize = 0;
    assert(full.skip(0) =~= full);
    while start < n
        invariant
            full == header_text@,
            start <= n,
            n == text@.len(),
            text@ == full,
            first_connect_line(lines_of(full)) == first_connect_line(lines_of(full.skip(start as int))),
        decreases n - start,
    {
        let mut i = start;
        while i < n && text[i] != '\n'
            invariant
                start <= i <= n,
                n == text@.len(),
                forall|j: int| start <= j < i ==> text@[j] != '\n',
            decreases n - i,
        {
            i = i + 1;
        }
        let ghost s = full.skip(start as int);
        proof {
            lemma_newline_index(s, i - start);
        }
        let mut line = sub_chars(&text, start, i);
        if i < n && line.len() > 0 && line[line.len() - 1] == '\r' {
            line.pop();
        }
        proof {
            assert(s.take(i - start) =~= full.subrange(start as int, i as int));
            if i < n {
                assert(s.skip(i - start + 1) =~= full.skip(i + 1));
                assert(line@ == strip_cr(s.take(i - start)));
                assert(lines_of(s) == seq![line@] + lines_of(full.skip(i + 1)));
            } else {
                assert(s =~= full.subrange(start as int, i as int));
                assert(lines_of(s) == seq![line@]);
            }
        }
        let line_text = string_of(line.as_slice());
        let lower_text = to_lowercase(line_text.as_str());
        if is_connect_request_line(lower_text.as_str()) {
            proof {
                assert(lines_of(s)[0] == line@);
                assert(is_connect_line(line@));
                assert(first_connect_line(lines_of(s)) == Some(line@));
            }
            let ws = split_words(&line);
            if ws.len() > 1 {
                return Some(string_of(ws[1].as_slice()));
            } else {
                return None;
            }
        }
        proof {
            assert(!is_connect_line(lines_of(s)[0]));
            assert(first_connect_line(lines_of(s)) == first_connect_line(lines_of(s).drop_first()));
        }
        if i == n {
            proof {
                assert(lines_of(s).drop_first() =~= Seq::<Seq<char>>::empty());
            }
            return None;
        }
        proof {
            assert(lines_of(s).drop_first() =~= lines_of(full.skip(i + 1)));
        }
        start = i + 1;
    }
    proof {
        assert(full.skip(start as int) =~= Seq::<char>::empty());
    }
    None
}

} // verus!
