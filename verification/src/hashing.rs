//! Cache keys are stored on disk under the lower-case hex MD5 digest of the key.

use vstd::prelude::*;

verus! {

/// The MD5 digest of a byte string, as computed by the `md5` crate.
pub uninterp spec fn md5_digest(input: Seq<u8>) -> Seq<u8>;

/// Calls `md5::compute` and hands back the 16 digest bytes.
/// Trusted: the bytes are the crate's MD5 of `input` (named `md5_digest`).
#[verifier::external_body]
fn md5_bytes(input: &[u8]) -> (digest: [u8; 16])
    ensures
        digest@ == md5_digest(input@),
{
    md5::compute(input).0
}

/// Appends one character to a string (`String::push`).
/// Trusted: the new contents are the old contents followed by `c`.
#[verifier::external_body]
pub(crate) fn push_char(s: &mut String, c: char)
    ensures
        final(s)@ == old(s)@.push(c),
{
    s.push(c);
}

/// The lower-case hexadecimal digit for a value below 16.
pub open spec fn hex_digit_spec(n: u8) -> char {
    if n < 10 {
        (('0' as u8) + n) as char
    } else {
        (('a' as u8) + (n - 10)) as char
    }
}

/// Two lower-case hex digits per byte, most significant nibble first.
pub open spec fn hex_lower(bytes: Seq<u8>) -> Seq<char>
    decreases bytes.len(),
{
    if bytes.len() == 0 {
        Seq::empty()
    } else {
        seq![hex_digit_spec(bytes[0] / 16), hex_digit_spec(bytes[0] % 16)] + hex_lower(
            bytes.drop_first(),
        )
    }
}

/// The file name under which a cache key is stored: the lower-case hex MD5
/// of the key's UTF-8 bytes.
pub open spec fn key_hash_spec(key: Seq<char>) -> Seq<char> {
    hex_lower(md5_digest(vstd::utf8::encode_utf8(key)))
}

fn hex_digit(n: u8) -> (c: char)
    requires
        n < 16,
    ensures
        c == hex_digit_spec(n),
{
    match n {
        0 => '0',
        1 => '1',
        2 => '2',
        3 => '3',
        4 => '4',
        5 => '5',
        6 => '6',
        7 => '7',
        8 => '8',
        9 => '9',
        10 => 'a',
        11 => 'b',
        12 => 'c',
        13 => 'd',
        14 => 'e',
        _ => 'f',
    }
}

proof fn lemma_hex_lower_push(bytes: Seq<u8>, i: int)
    requires
        0 <= i < bytes.len(),
    ensures
        hex_lower(bytes.take(i + 1)) == hex_lower(bytes.take(i)) + seq![
            hex_digit_spec(bytes[i] / 16),
            hex_digit_spec(bytes[i] % 16),
        ],
    decreases i,
{
    let t = bytes.take(i + 1);
    if i == 0 {
        assert(t.drop_first() =~= Seq::<u8>::empty());
        assert(bytes.take(0) =~= Seq::<u8>::empty());
        assert(hex_lower(Seq::<u8>::empty()) == Seq::<char>::empty());
        assert(hex_lower(t) =~= hex_lower(bytes.take(i)) + seq![
            hex_digit_spec(bytes[i] / 16),
            hex_digit_spec(bytes[i] % 16),
        ]);
    } else {
        let rest = bytes.drop_first();
        lemma_hex_lower_push(rest, i - 1);
        assert(t.drop_first() =~= rest.take(i));
        assert(bytes.take(i).drop_first() =~= rest.take(i - 1));
        assert(hex_lower(t) =~= hex_lower(bytes.take(i)) + seq![
            hex_digit_spec(bytes[i] / 16),
            hex_digit_spec(bytes[i] % 16),
        ]);
    }
}

/// Lower-case hexadecimal rendering of a byte string.
pub fn to_hex_lower(bytes: &[u8]) -> (s: String)
    ensures
        s@ == hex_lower(bytes@),
        s@.len() == 2 * bytes@.len(),
{
    let mut s = String::new();
    let mut i: usize = 0;
    while i < bytes.len()
        invariant
            i <= bytes@.len(),
            s@ == hex_lower(bytes@.take(i as int)),
            s@.len() == 2 * i,
        decreases bytes@.len() - i,
    {
        let b = bytes[i];
        proof {
            lemma_hex_lower_push(bytes@, i as int);
        }
        push_char(&mut s, hex_digit(b / 16));
        push_char(&mut s, hex_digit(b % 16));
        i = i + 1;
    }
    assert(bytes@.take(bytes@.len() as int) =~= bytes@);
    s
}

/// A lower-case hexadecimal digit.
pub open spec fn is_hex_digit_char(c: char) -> bool {
    ('0' <= c && c <= '9') || ('a' <= c && c <= 'f')
}

/// The shape of every cache file name: 32 lower-case hexadecimal digits.
pub open spec fn is_cache_file_name_spec(name: Seq<char>) -> bool {
    &&& name.len() == 32
    &&& forall|i: int| 0 <= i < name.len() ==> is_hex_digit_char(#[trigger] name[i])
}

proof fn lemma_hex_lower_digits(bytes: Seq<u8>)
    ensures
        hex_lower(bytes).len() == 2 * bytes.len(),
        forall|i: int| 0 <= i < hex_lower(bytes).len() ==> is_hex_digit_char(#[trigger] hex_lower(bytes)[i]),
    decreases bytes.len(),
{
    if bytes.len() > 0 {
        lemma_hex_lower_digits(bytes.drop_first());
        let hi = bytes[0] / 16;
        let lo = bytes[0] % 16;
        assert(is_hex_digit_char(hex_digit_spec(hi)));
        assert(is_hex_digit_char(hex_digit_spec(lo)));
        let h = hex_lower(bytes);
        let t = hex_lower(bytes.drop_first());
        assert forall|i: int| 0 <= i < h.len() implies is_hex_digit_char(#[trigger] h[i]) by {
            if i >= 2 {
                assert(h[i] == t[i - 2]);
            }
        }
    }
}

/// Whether `name` has the shape of a cache file name (32 lower-case
/// hexadecimal digits), as every key's file name has.
pub fn is_cache_file_name(name: &str) -> (b: bool)
    ensures
        b == is_cache_file_name_spec(name@),
{
    let n = name.unicode_len();
    if n != 32 {
        return false;
    }
    let mut i: usize = 0;
    while i < n
        invariant
            n == name@.len(),
            i <= n,
            forall|j: int| 0 <= j < i ==> is_hex_digit_char(#[trigger] name@[j]),
        decreases n - i,
    {
        let c = name.get_char(i);
        if !(('0' <= c && c <= '9') || ('a' <= c && c <= 'f')) {
            return false;
        }
        i = i + 1;
    }
    true
}

/// The disk file name of a cache key: `format!("{:x}", md5::compute(key))`.
pub fn key_to_hash(key: &str) -> (hash: String)
    ensures
        hash@ == key_hash_spec(key@),
        hash@.len() == 32,
        is_cache_file_name_spec(hash@),
{
    let digest = md5_bytes(key.as_bytes());
    proof {
        lemma_hex_lower_digits(digest@);
    }
    to_hex_lower(&digest)
}

} // verus!
