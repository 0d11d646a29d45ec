//! Character classes and text helpers that the listing, path and error code share.
use vstd::prelude::*;
use vstd::utf8::*;

verus! {

/// Whether `c` is one of the characters that `char::is_ascii_whitespace` accepts: space, tab, line
/// feed, form feed and carriage return (and not vertical tab).
pub open spec fn ascii_whitespace_char(c: char) -> bool {
    c == ' ' || c == '\t' || c == '\n' || c == '\u{c}' || c == '\r'
}

/// Whether `c` has the Unicode property `White_Space`.
pub open spec fn unicode_whitespace(c: char) -> bool {
    ||| '\u{9}' <= c <= '\u{d}'
    ||| c == ' '
    ||| c == '\u{85}'
    ||| c == '\u{a0}'
    ||| c == '\u{1680}'
    ||| '\u{2000}' <= c <= '\u{200a}'
    ||| c == '\u{2028}'
    ||| c == '\u{2029}'
    ||| c == '\u{202f}'
    ||| c == '\u{205f}'
    ||| c == '\u{3000}'
}

/// Whether `c` is whitespace that an ASCII-only splitter does not see.
pub open spec fn wide_whitespace(c: char) -> bool {
    unicode_whitespace(c) && !ascii_whitespace_char(c)
}

/// Whether `b` is an ASCII control byte: below space, or delete.
pub open spec fn ascii_control(b: u8) -> bool {
    b < 0x20 || b == 0x7f
}

/// Whether `c` is an ASCII control character.
pub open spec fn ascii_control_char(c: char) -> bool {
    c < ' ' || c == '\u{7f}'
}

/// Tests a character for ASCII whitespace.
pub fn is_ascii_whitespace_char(c: char) -> (r: bool)
    ensures
        r == ascii_whitespace_char(c),
{
    c == ' ' || c == '\t' || c == '\n' || c == '\u{c}' || c == '\r'
}

/// Tests a character for the Unicode property `White_Space`.
pub fn is_whitespace(c: char) -> (r: bool)
    ensures
        r == unicode_whitespace(c),
{
    ('\u{9}' <= c && c <= '\u{d}') || c == ' ' || c == '\u{85}' || c == '\u{a0}' || c == '\u{1680}'
        || ('\u{2000}' <= c && c <= '\u{200a}') || c == '\u{2028}' || c == '\u{2029}' || c
        == '\u{202f}' || c == '\u{205f}' || c == '\u{3000}'
}

/// Tests a character for whitespace beyond ASCII padding.
pub fn is_wide_whitespace(c: char) -> (r: bool)
    ensures
        r == wide_whitespace(c),
{
    is_whitespace(c) && !is_ascii_whitespace_char(c)
}

/// Tests a character for an ASCII control code.
pub fn is_ascii_control_char(c: char) -> (r: bool)
    ensures
        r == ascii_control_char(c),
{
    c < ' ' || c == '\u{7f}'
}

/// The decimal digits of `n`, without leading zeros.
pub open spec fn decimal(n: nat) -> Seq<char>
    decreases n,
{
    if n < 10 {
        seq![('0' as int + n) as char]
    } else {
        decimal(n / 10).push(('0' as int + n % 10) as char)
    }
}

/// One decimal digit as text.
fn digit_text(d: u64) -> (r: &'static str)
    requires
        d < 10,
    ensures
        r@ == seq![('0' as int + d) as char],
{
    proof {
        reveal_strlit("0");
        reveal_strlit("1");
        reveal_strlit("2");
        reveal_strlit("3");
        reveal_strlit("4");
        reveal_strlit("5");
        reveal_strlit("6");
        reveal_strlit("7");
        reveal_strlit("8");
        reveal_strlit("9");
    }
    match d {
        0 => "0",
        1 => "1",
        2 => "2",
        3 => "3",
        4 => "4",
        5 => "5",
        6 => "6",
        7 => "7",
        8 => "8",
        _ => "9",
    }
}

/// Renders a number in decimal.
pub fn decimal_text(n: u64) -> (r: String)
    ensures
        r@ == decimal(n as nat),
    decreases n,
{
    if n < 10 {
        digit_text(n).to_string()
    } else {
        let head = decimal_text(n / 10);
        let r = head.concat(digit_text(n % 10));
        assert(r@ == decimal((n / 10) as nat).push(('0' as int + n % 10) as char));
        r
    }
}

/// `s` without its trailing Unicode whitespace.
pub open spec fn trim_end(s: Seq<char>) -> Seq<char>
    decreases s.len(),
{
    if s.len() > 0 && unicode_whitespace(s.last()) {
        trim_end(s.drop_last())
    } else {
        s
    }
}

/// Drops trailing Unicode whitespace.
pub fn trim_end_text(s: &str) -> (r: &str)
    ensures
        r@ == trim_end(s@),
{
    let chars = chars_of(s);
    let mut end: usize = chars.len();
    assert(s@.take(end as int) == s@);
    while end > 0 && is_whitespace(chars[end - 1])
        invariant
            chars@ == s@,
            end <= s@.len(),
            trim_end(s@.take(end as int)) == trim_end(s@),
        decreases end,
    {
        assert(s@.take(end as int).drop_last() == s@.take(end - 1));
        end = end - 1;
    }
    let r = s.substring_char(0, end);
    assert(r@ == s@.take(end as int));
    r
}

/// Decodes bytes as UTF-8 with `String::from_utf8`: the text whose encoding is exactly `bytes`
/// where `bytes` is valid UTF-8, and `None` otherwise.
#[verifier::external_body]
pub(crate) fn decode_utf8_bytes(bytes: &[u8]) -> (r: Option<String>)
    ensures
        r is Some <==> valid_utf8(bytes@),
        r is Some ==> r->0@ == decode_utf8(bytes@),
{
    String::from_utf8(bytes.to_vec()).ok()
}

/// The characters of a text as a vector.
pub(crate) fn chars_of(s: &str) -> (r: Vec<char>)
    ensures
        r@ == s@,
{
    let mut r: Vec<char> = Vec::new();
    for c in it: s.chars()
        invariant
            r@ == s@.take(it.index()),
            it.seq() == s@,
    {
        r.push(c);
    }
    assert(s@.take(s@.len() as int) == s@);
    r
}

/// The number of bytes that the first `k` characters of `s` take in UTF-8: the byte column at
/// which character `k` stands.
pub open spec fn byte_column(s: Seq<char>, k: int) -> int {
    encode_utf8(s.take(k)).len() as int
}

/// The number of bytes that a character takes in UTF-8.
pub open spec fn char_width(c: char) -> int {
    if c <= '\u{7f}' {
        1
    } else if c <= '\u{7ff}' {
        2
    } else if c <= '\u{ffff}' {
        3
    } else {
        4
    }
}

/// The number of bytes that a character takes in UTF-8.
pub(crate) fn width_of(c: char) -> (r: usize)
    ensures
        r == char_width(c),
{
    if c <= '\u{7f}' {
        1
    } else if c <= '\u{7ff}' {
        2
    } else if c <= '\u{ffff}' {
        3
    } else {
        4
    }
}

/// The encoding of a concatenation is the concatenation of the encodings.
pub(crate) proof fn lemma_encode_concat(a: Seq<char>, b: Seq<char>)
    ensures
        encode_utf8(a + b) == encode_utf8(a) + encode_utf8(b),
    decreases a.len(),
{
    if a.len() == 0 {
        assert(a + b == b);
        assert(encode_utf8(a) + encode_utf8(b) == encode_utf8(b));
    } else {
        assert((a + b).drop_first() == a.drop_first() + b);
        lemma_encode_concat(a.drop_first(), b);
        assert(encode_utf8(a + b) == encode_utf8(a) + encode_utf8(b));
    }
}

/// The code of a character fits in 32 bits.
pub(crate) proof fn lemma_char_code(c: char)
    ensures
        c as u32 as int == c as int,
        is_scalar(c as u32),
{
}

/// One character further on, the byte column grows by that character's width.
pub(crate) proof fn lemma_column_step(s: Seq<char>, k: int)
    requires
        0 <= k < s.len(),
    ensures
        byte_column(s, k + 1) == byte_column(s, k) + char_width(s[k]),
{
    let one = seq![s[k]];
    assert(s.take(k + 1) == s.take(k) + one);
    lemma_encode_concat(s.take(k), one);
    assert(one.drop_first() == Seq::<char>::empty());
    reveal_with_fuel(encode_utf8, 2);
    lemma_char_code(s[k]);
    assert(encode_utf8(one) == encode_scalar(s[k] as u32));
}

/// Byte columns grow at least as fast as character indices, and end at the length in bytes.
pub(crate) proof fn lemma_column_bounds(s: Seq<char>, j: int, k: int)
    requires
        0 <= j <= k <= s.len(),
    ensures
        byte_column(s, j) + (k - j) <= byte_column(s, k) <= encode_utf8(s).len(),
        byte_column(s, s.len() as int) == encode_utf8(s).len(),
        byte_column(s, 0) == 0,
    decreases k - j, s.len() - k,
{
    assert(s.take(s.len() as int) == s);
    assert(s.take(0) == Seq::<char>::empty());
    if j < k {
        lemma_column_bounds(s, j, k - 1);
        lemma_column_step(s, k - 1);
    }
    assert(s.take(k) + s.skip(k) == s);
    lemma_encode_concat(s.take(k), s.skip(k));
}

/// Over ASCII characters, byte columns and character indices grow alike.
pub proof fn lemma_column_ascii(s: Seq<char>, j: int, k: int)
    requires
        0 <= j <= k <= s.len(),
        forall|i: int| j <= i < k ==> #[trigger] s[i] <= '\u{7f}',
    ensures
        byte_column(s, k) == byte_column(s, j) + (k - j),
    decreases k - j,
{
    if j < k {
        lemma_column_ascii(s, j, k - 1);
        lemma_column_step(s, k - 1);
    }
}

/// Two texts with the same encoding are the same.
pub(crate) proof fn lemma_encode_injective(a: Seq<char>, b: Seq<char>)
    requires
        encode_utf8(a) == encode_utf8(b),
    ensures
        a == b,
{
    encode_utf8_decode_utf8(a);
    encode_utf8_decode_utf8(b);
}

/// Where the encoding of a prefix ends, a character ends.
pub(crate) proof fn lemma_prefix_boundary(a: Seq<char>, b: Seq<char>)
    ensures
        is_char_boundary(encode_utf8(a + b), encode_utf8(a).len() as int),
    decreases a.len(),
{
    encode_utf8_valid_utf8(a + b);
    if a.len() == 0 {
        is_char_boundary_start_end_of_seq(encode_utf8(a + b));
    } else {
        let whole = a + b;
        let bytes = encode_utf8(whole);
        lemma_prefix_boundary(a.drop_first(), b);
        encode_utf8_first_scalar(whole);
        assert(whole.drop_first() == a.drop_first() + b);
        assert(pop_first_scalar(bytes) == encode_utf8(whole.drop_first()));
        lemma_encode_concat(a, b);
    }
}

/// Cuts a text at the byte column of its character `k`.
pub(crate) fn split_text(s: &str, at: usize, k: Ghost<int>) -> (r: (&str, &str))
    requires
        0 <= k@ <= s@.len(),
        at == byte_column(s@, k@),
    ensures
        r.0@ == s@.take(k@),
        r.1@ == s@.skip(k@),
{
    proof {
        assert(s@.take(k@) + s@.skip(k@) == s@);
        lemma_prefix_boundary(s@.take(k@), s@.skip(k@));
        lemma_encode_concat(s@.take(k@), s@.skip(k@));
    }
    let r = s.split_at(at);
    proof {
        assert(encode_utf8(r.0@) == encode_utf8(s@.take(k@)));
        assert(encode_utf8(r.1@) == encode_utf8(s@.skip(k@)));
        lemma_encode_injective(r.0@, s@.take(k@));
        lemma_encode_injective(r.1@, s@.skip(k@));
    }
    r
}

/// An ASCII byte of an encoded text stands for that character.
pub(crate) proof fn lemma_ascii_byte(s: Seq<char>, i: int)
    requires
        0 <= i < encode_utf8(s).len(),
        encode_utf8(s)[i] < 0x80,
    ensures
        exists|k: int| 0 <= k < s.len() && #[trigger] s[k] as u32 == encode_utf8(s)[i],
    decreases s.len(),
{
    let bytes = encode_utf8(s);
    encode_utf8_first_scalar(s);
    let first = encode_scalar(s[0] as u32);
    if i < first.len() {
        assert(bytes[i] == first[i]);
        let c = s[0] as u32;
        if has_width_1_encoding(c) {
            assert((c & 0x7F) as u8 as u32 == c) by (bit_vector)
                requires
                    c <= 0x7f,
            ;
            assert(s[0] as u32 == bytes[i]);
        }
    } else {
        let rest = s.drop_first();
        assert(bytes[i] == encode_utf8(rest)[i - first.len()]);
        lemma_ascii_byte(rest, i - first.len());
        let k = choose|k: int| 0 <= k < rest.len() && #[trigger] rest[k] as u32 == bytes[i];
        assert(s[k + 1] as u32 == bytes[i]);
    }
}

} // verus!
