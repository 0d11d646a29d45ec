//! Decoding and validation of `LIST` output.
use crate::error::{
    CauseView, Cause, ErrorView, FtpError, FtpErrorView, ParseError, RemoteError, RemoteErrorType,
};
use crate::file::{
    file_views, optional_text, File, FileType, FileView, Metadata, MetadataView, UnixPex,
    UnixPexClass,
};
use crate::path::{
    child_name_on, dot_dot, drive_prefix, has_control, join, join_path, Platform,
};
use crate::text::{
    ascii_whitespace_char, byte_column, chars_of, decode_utf8_bytes,
    is_ascii_whitespace_char, is_whitespace, is_wide_whitespace, split_text, unicode_whitespace,
    wide_whitespace, width_of,
};
use std::time::UNIX_EPOCH;
use suppaftp::list::PosixPexQuery::{Group, Others, Owner};
use suppaftp::list::{ListParser, ParseError as ListError};
use vstd::prelude::*;
use vstd::utf8::*;

verus! {

/// Where the names of padded DOS directory rows carry their `<DIR>` mark, in bytes.
pub const PADDED_METADATA_COLUMN: usize = 24;

/// Where the names of padded DOS directory rows start, in bytes.
pub const PADDED_NAME_COLUMN: usize = 39;

// ---------------------------------------------------------------------------------------------
// Fields
// ---------------------------------------------------------------------------------------------

/// The fields of a row, as ranges of characters: the maximal runs without ASCII whitespace, in
/// order.
pub open spec fn fields(s: Seq<char>) -> Seq<(int, int)>
    decreases s.len(),
{
    if s.len() == 0 {
        Seq::empty()
    } else {
        let n = s.len() - 1;
        let before = fields(s.drop_last());
        if ascii_whitespace_char(s.last()) {
            before
        } else if n > 0 && !ascii_whitespace_char(s[n - 1]) {
            before.drop_last().push((before.last().0, n + 1))
        } else {
            before.push((n, n + 1))
        }
    }
}

/// The byte ranges of the fields of a row.
pub open spec fn byte_fields(s: Seq<char>) -> Seq<(usize, usize)> {
    fields(s).map_values(
        |f: (int, int)| (byte_column(s, f.0) as usize, byte_column(s, f.1) as usize),
    )
}

/// The fields of a row are its maximal runs without ASCII whitespace: each is a non-empty range,
/// holds no whitespace, is bounded by whitespace or an end of the row, and between two of them
/// there is whitespace only; and no other character lies outside them.
pub open spec fn are_runs(s: Seq<char>, f: Seq<(int, int)>) -> bool {
    &&& forall|i: int| #![trigger f[i]] 0 <= i < f.len() ==> 0 <= f[i].0 < f[i].1 <= s.len()
    &&& forall|i: int, j: int| #![trigger f[i], f[j]] 0 <= i < j < f.len() ==> f[i].1 < f[j].0
    &&& forall|i: int, k: int|
        #![trigger f[i], s[k]]
        0 <= i < f.len() && f[i].0 <= k < f[i].1 ==> !ascii_whitespace_char(s[k])
    &&& forall|k: int|
        #![trigger s[k]]
        0 <= k < s.len() && !ascii_whitespace_char(s[k]) ==> exists|i: int|
            #![trigger f[i]]
            0 <= i < f.len() && f[i].0 <= k < f[i].1
}

/// What [`field_spans`] splits a row into are its maximal runs without ASCII whitespace.
pub proof fn law_fields_are_runs(s: Seq<char>)
    ensures
        are_runs(s, fields(s)),
        s.len() > 0 && !ascii_whitespace_char(s.last()) ==> fields(s).len() > 0 && fields(s).last().1
            == s.len(),
        s.len() > 0 && ascii_whitespace_char(s.last()) && fields(s).len() > 0 ==> fields(s).last().1
            < s.len(),
    decreases s.len(),
{
    if s.len() > 0 {
        let n = s.len() - 1;
        let t = s.drop_last();
        let b = fields(t);
        let f = fields(s);
        law_fields_are_runs(t);
        assert forall|k: int|
            #![trigger s[k]]
            0 <= k < s.len() && !ascii_whitespace_char(s[k]) implies exists|i: int|
            #![trigger f[i]]
            0 <= i < f.len() && f[i].0 <= k < f[i].1 by {
            if k < n {
                assert(t[k] == s[k]);
                let i = choose|i: int|
                    #![trigger b[i]]
                    0 <= i < b.len() && b[i].0 <= k < b[i].1;
                assert(f[i].0 <= k < f[i].1);
            } else {
                assert(f[f.len() - 1].0 <= k < f[f.len() - 1].1);
            }
        }
        assert forall|i: int, k: int|
            #![trigger f[i], s[k]]
            0 <= i < f.len() && f[i].0 <= k < f[i].1 implies !ascii_whitespace_char(s[k]) by {
            if k < n {
                assert(t[k] == s[k]);
                assert(b[i].0 <= k < b[i].1);
            }
        }
    }
}

/// Returns byte ranges for the whitespace-separated fields of a `LIST` line.
pub fn field_spans(line: &str) -> (r: Vec<(usize, usize)>)
    ensures
        r@ == byte_fields(line@),
{
    let total: usize = line.as_bytes().len();
    let mut spans: Vec<(usize, usize)> = Vec::new();
    let mut at: usize = 0;
    let mut inside: bool = false;
    let ghost s = line@;
    proof {
        crate::text::lemma_column_bounds(s, 0, 0);
    }
    for c in it: line.chars()
        invariant
            it.seq() == s,
            s == line@,
            total == encode_utf8(s).len(),
            0 <= it.index() <= s.len(),
            at == byte_column(s, it.index() as int),
            inside == (it.index() > 0 && !ascii_whitespace_char(s[it.index() - 1])),
            spans@ == fields(s.take(it.index() as int)).map_values(
                |f: (int, int)| (byte_column(s, f.0) as usize, byte_column(s, f.1) as usize),
            ),
    {
        let ghost k = it.index() as int;
        let ghost t = s.take(k + 1);
        let ghost columns = |f: (int, int)|
            (byte_column(s, f.0) as usize, byte_column(s, f.1) as usize);
        proof {
            assert(t.drop_last() == s.take(k));
            assert(t.last() == c);
            crate::text::lemma_column_step(s, k);
            crate::text::lemma_column_bounds(s, k, k + 1);
            law_fields_are_runs(s.take(k));
        }
        let next: usize = at + width_of(c);
        if is_ascii_whitespace_char(c) {
            inside = false;
        } else if inside {
            let last: usize = spans.len() - 1;
            let start: usize = spans[last].0;
            spans.set(last, (start, next));
            proof {
                assert(s.take(k)[k - 1] == s[k - 1]);
                let b = fields(s.take(k));
                assert(fields(t) == b.drop_last().push((b.last().0, k + 1)));
                assert(spans@ == fields(t).map_values(columns));
            }
        } else {
            spans.push((at, next));
            inside = true;
            proof {
                assert(k > 0 ==> t[k - 1] == s[k - 1]);
                assert(fields(t) == fields(s.take(k)).push((k, k + 1)));
                assert(spans@ == fields(t).map_values(columns));
            }
        }
        at = next;
    }
    assert(s.take(s.len() as int) == s);
    spans
}

/// What the spans of [`field_spans`] are, without the machine's word size.
proof fn lemma_span(s: Seq<char>, i: int)
    requires
        0 <= i < fields(s).len(),
        encode_utf8(s).len() <= usize::MAX,
    ensures
        0 <= fields(s)[i].0 < fields(s)[i].1 <= s.len(),
        byte_fields(s)[i].0 == byte_column(s, fields(s)[i].0),
        byte_fields(s)[i].1 == byte_column(s, fields(s)[i].1),
{
    law_fields_are_runs(s);
    let f = fields(s)[i];
    crate::text::lemma_column_bounds(s, f.0, f.1);
    crate::text::lemma_column_bounds(s, f.0, f.0);
}

/// The text of field `i`.
fn field_text<'a>(line: &'a str, spans: &Vec<(usize, usize)>, i: usize) -> (r: &'a str)
    requires
        spans@ == byte_fields(line@),
        i < spans@.len(),
    ensures
        r@ == line@.subrange(fields(line@)[i as int].0, fields(line@)[i as int].1),
{
    let total: usize = line.as_bytes().len();
    let ghost f = fields(line@)[i as int];
    proof {
        lemma_span(line@, i as int);
        assert(line@.take(f.1).take(f.0) == line@.take(f.0));
    }
    let head = split_text(line, spans[i].1, Ghost(f.1)).0;
    let r = split_text(head, spans[i].0, Ghost(f.0)).1;
    assert(r@ == line@.subrange(f.0, f.1));
    r
}

// ---------------------------------------------------------------------------------------------
// Whitespace at the boundary of a name
// ---------------------------------------------------------------------------------------------

/// The index of the first character at or after `from` that is no ASCII whitespace, or the length
/// where there is none.
pub open spec fn next_text(s: Seq<char>, from: int) -> int
    decreases s.len() - from,
{
    if from >= s.len() {
        s.len() as int
    } else if ascii_whitespace_char(s[from]) {
        next_text(s, from + 1)
    } else {
        from
    }
}

/// The index of the first ASCII whitespace at or after `from`, or the length where there is none.
pub open spec fn next_blank(s: Seq<char>, from: int) -> int
    decreases s.len() - from,
{
    if from >= s.len() {
        s.len() as int
    } else if ascii_whitespace_char(s[from]) {
        from
    } else {
        next_blank(s, from + 1)
    }
}

/// Skips ASCII whitespace from `from` on.
fn skip_blank(s: &Vec<char>, from: usize) -> (r: usize)
    requires
        from <= s@.len(),
    ensures
        r == next_text(s@, from as int),
        from <= r <= s@.len(),
        forall|i: int| from <= i < r ==> ascii_whitespace_char(#[trigger] s@[i]),
{
    let mut r: usize = from;
    while r < s.len() && is_ascii_whitespace_char(s[r])
        invariant
            from <= r <= s@.len(),
            next_text(s@, r as int) == next_text(s@, from as int),
            forall|i: int| from <= i < r ==> ascii_whitespace_char(#[trigger] s@[i]),
        decreases s@.len() - r,
    {
        r = r + 1;
    }
    r
}

/// Skips up to the next ASCII whitespace from `from` on.
fn skip_text(s: &Vec<char>, from: usize) -> (r: usize)
    requires
        from <= s@.len(),
    ensures
        r == next_blank(s@, from as int),
        from <= r <= s@.len(),
{
    let mut r: usize = from;
    while r < s.len() && !is_ascii_whitespace_char(s[r])
        invariant
            from <= r <= s@.len(),
            next_blank(s@, r as int) == next_blank(s@, from as int),
        decreases s@.len() - r,
    {
        r = r + 1;
    }
    r
}

/// Whether the first character behind ASCII padding, from `from` on, is whitespace all the same.
pub open spec fn hides_whitespace(s: Seq<char>, from: int) -> bool {
    let i = next_text(s, from);
    i < s.len() && unicode_whitespace(s[i])
}

/// Detects a non-ASCII whitespace character after the format's ASCII padding.
pub fn has_unicode_whitespace_after_ascii_padding(text: &str) -> (r: bool)
    ensures
        r == hides_whitespace(text@, 0),
{
    let chars = chars_of(text);
    let i: usize = skip_blank(&chars, 0);
    i < chars.len() && is_whitespace(chars[i])
}

/// Whether a text holds whitespace other than ASCII padding.
pub open spec fn holds_wide_whitespace(s: Seq<char>) -> bool {
    exists|i: int| 0 <= i < s.len() && wide_whitespace(#[trigger] s[i])
}

/// Returns whether text contains Unicode whitespace rather than ASCII padding.
pub fn contains_unicode_whitespace(text: &str) -> (r: bool)
    ensures
        r == holds_wide_whitespace(text@),
{
    let chars = chars_of(text);
    let mut i: usize = 0;
    while i < chars.len()
        invariant
            chars@ == text@,
            i <= chars@.len(),
            forall|k: int| 0 <= k < i ==> !wide_whitespace(#[trigger] chars@[k]),
        decreases chars@.len() - i,
    {
        if is_wide_whitespace(chars[i]) {
            return true;
        }
        i = i + 1;
    }
    false
}

/// Whether a text is not empty and holds nothing but whitespace.
pub open spec fn only_whitespace(s: Seq<char>) -> bool {
    s.len() > 0 && forall|i: int| 0 <= i < s.len() ==> unicode_whitespace(#[trigger] s[i])
}

/// Returns whether a text is not empty and holds nothing but whitespace.
fn is_only_whitespace(text: &str) -> (r: bool)
    ensures
        r == only_whitespace(text@),
{
    let chars = chars_of(text);
    let mut i: usize = 0;
    while i < chars.len()
        invariant
            chars@ == text@,
            i <= chars@.len(),
            forall|k: int| 0 <= k < i ==> unicode_whitespace(#[trigger] chars@[k]),
        decreases chars@.len() - i,
    {
        if !is_whitespace(chars[i]) {
            return false;
        }
        i = i + 1;
    }
    chars.len() > 0
}

// ---------------------------------------------------------------------------------------------
// POSIX rows
// ---------------------------------------------------------------------------------------------

/// Whether a row describes a POSIX special file: a device, a pipe, a socket or a door.
pub open spec fn special_row(s: Seq<char>) -> bool {
    s.len() > 0 && (s[0] == 'b' || s[0] == 'c' || s[0] == 'p' || s[0] == 's' || s[0] == 'D')
}

/// Whether a row starts like a POSIX row.
pub open spec fn posix_row(s: Seq<char>) -> bool {
    special_row(s) || (s.len() > 0 && (s[0] == '-' || s[0] == 'l' || s[0] == 'd'))
}

/// `s` without its trailing commas.
pub open spec fn trim_commas(s: Seq<char>) -> Seq<char>
    decreases s.len(),
{
    if s.len() > 0 && s.last() == ',' {
        trim_commas(s.drop_last())
    } else {
        s
    }
}

/// Whether every character is an ASCII digit.
pub open spec fn all_digits(s: Seq<char>) -> bool {
    forall|i: int| 0 <= i < s.len() ==> '0' <= #[trigger] s[i] <= '9'
}

/// Whether a row describes a device node, which has a major and a minor number where other rows
/// have a size.
pub open spec fn device_row(s: Seq<char>) -> bool {
    let f = fields(s);
    let major = s.subrange(f[4].0, f[4].1);
    let minor = s.subrange(f[5].0, f[5].1);
    &&& f.len() > 5
    &&& s[0] == 'b' || s[0] == 'c'
    &&& major.last() == ','
    &&& all_digits(trim_commas(major))
    &&& all_digits(minor)
}

/// A row with the numbers of a device node replaced by a size of zero.
pub open spec fn normalized_row(s: Seq<char>) -> Seq<char> {
    if device_row(s) {
        s.take(fields(s)[4].0).push('0') + s.skip(fields(s)[5].1)
    } else {
        s
    }
}

/// Returns whether the characters of `s[..end]` are ASCII digits.
fn are_digits(s: &Vec<char>, end: usize) -> (r: bool)
    requires
        end <= s@.len(),
    ensures
        r == all_digits(s@.take(end as int)),
{
    let mut i: usize = 0;
    while i < end
        invariant
            i <= end <= s@.len(),
            forall|k: int| 0 <= k < i ==> '0' <= #[trigger] s@[k] <= '9',
        decreases end - i,
    {
        if s[i] < '0' || s[i] > '9' {
            assert(!('0' <= s@.take(end as int)[i as int] <= '9'));
            return false;
        }
        i = i + 1;
    }
    true
}

/// Returns whether a field is the major number of a device node.
fn is_major(text: &str) -> (r: bool)
    ensures
        r == (text@.len() > 0 && text@.last() == ',' && all_digits(trim_commas(text@))),
{
    let chars = chars_of(text);
    if chars.len() == 0 || chars[chars.len() - 1] != ',' {
        return false;
    }
    let mut end: usize = chars.len();
    assert(chars@.take(end as int) == text@);
    while end > 0 && chars[end - 1] == ','
        invariant
            chars@ == text@,
            end <= chars@.len(),
            trim_commas(chars@.take(end as int)) == trim_commas(text@),
        decreases end,
    {
        assert(chars@.take(end as int).drop_last() == chars@.take(end - 1));
        end = end - 1;
    }
    are_digits(&chars, end)
}

/// Returns whether a field holds nothing but ASCII digits.
fn is_number(text: &str) -> (r: bool)
    ensures
        r == all_digits(text@),
{
    let chars = chars_of(text);
    assert(chars@.take(chars@.len() as int) == text@);
    are_digits(&chars, chars.len())
}

/// The first character of a text.
fn first_char(text: &str) -> (r: Option<char>)
    ensures
        r == if text@.len() > 0 {
            Some(text@[0])
        } else {
            None
        },
{
    let mut chars = text.chars();
    chars.next()
}

/// Normalizes device-node major/minor fields to the regular-file size format.
pub fn normalize_special_posix_line(line: &str) -> (r: String)
    ensures
        r@ == normalized_row(line@),
{
    let spans = field_spans(line);
    let first = first_char(line);
    let total: usize = line.as_bytes().len();
    proof {
        law_fields_are_runs(line@);
        assert(spans@.len() == fields(line@).len());
        if spans@.len() > 5 {
            lemma_span(line@, 4);
            lemma_span(line@, 5);
        }
    }
    let is_device = spans.len() > 5 && (first == Some('b') || first == Some('c')) && is_major(
        field_text(line, &spans, 4),
    ) && is_number(field_text(line, &spans, 5));
    if !is_device {
        return line.to_string();
    }
    let head = split_text(line, spans[4].0, Ghost(fields(line@)[4].0)).0;
    let tail = split_text(line, spans[5].1, Ghost(fields(line@)[5].1)).1;
    proof {
        reveal_strlit("0");
    }
    let r = head.to_string().concat("0").concat(tail);
    assert(r@ == line@.take(fields(line@)[4].0).push('0') + line@.skip(fields(line@)[5].1));
    r
}

/// Cutting a row where a field starts, or behind the end of one, keeps the fields in front.
proof fn lemma_fields_before(s: Seq<char>, k: int)
    requires
        0 <= k <= s.len(),
        0 < k < s.len() ==> ascii_whitespace_char(s[k]) || ascii_whitespace_char(s[k - 1]),
    ensures
        fields(s.take(k)).len() <= fields(s).len(),
        fields(s.take(k)) == fields(s).take(fields(s.take(k)).len() as int),
    decreases s.len(),
{
    if k == s.len() {
        assert(s.take(k) == s);
        assert(fields(s).take(fields(s).len() as int) == fields(s));
    } else {
        let t = s.drop_last();
        let n = t.len() as int;
        let b = fields(s.take(k));
        assert(t.take(k) == s.take(k));
        lemma_fields_before(t, k);
        law_fields_are_runs(t);
        law_fields_are_runs(s.take(k));
        if !ascii_whitespace_char(s[n]) && n > 0 && !ascii_whitespace_char(s[n - 1]) {
            assert(t.last() == s[n - 1]);
            assert(fields(t).last().1 == n);
            if b.len() == fields(t).len() {
                assert(b.last() == fields(t).last());
            }
        }
        assert(fields(s).take(b.len() as int) == b);
    }
}

/// Normalizing twice is normalizing once: a normalized device row has a size like any other.
pub proof fn law_normalizing_once_is_enough(s: Seq<char>)
    ensures
        normalized_row(normalized_row(s)) == normalized_row(s),
{
    if device_row(s) {
        let f = fields(s);
        let p = f[4].0;
        let q = f[5].1;
        let n = normalized_row(s);
        law_fields_are_runs(s);
        assert(0 < p) by {
            assert(f[3].1 < f[4].0);
        }
        assert(ascii_whitespace_char(s[p - 1])) by {
            if !ascii_whitespace_char(s[p - 1]) {
                let i = choose|i: int| #![trigger f[i]] 0 <= i < f.len() && f[i].0 <= p - 1 < f[i].1;
                if i < 4 {
                    assert(f[i].1 < f[4].0);
                } else if i > 4 {
                    assert(f[4].1 < f[i].0);
                }
            }
        }
        lemma_fields_before(s, p);
        let b = fields(s.take(p));
        law_fields_are_runs(s.take(p));
        assert(b.len() == 4) by {
            if b.len() > 4 {
                assert(b[4] == f[4]);
            } else if b.len() < 4 {
                let k = f[3].0;
                assert(f[3].1 < p);
                assert(s.take(p)[k] == s[k]);
                assert(!ascii_whitespace_char(s[k]));
                let i = choose|i: int| #![trigger b[i]] 0 <= i < b.len() && b[i].0 <= k < b[i].1;
                assert(b[i] == f[i]);
                assert(f[i].1 < f[3].0);
            }
        }
        let h = n.take(p + 1);
        assert(h.drop_last() == s.take(p));
        assert(h.last() == '0');
        assert(h[p - 1] == s[p - 1]);
        assert(fields(h) == b.push((p, p + 1)));
        assert(p + 1 < n.len() ==> n[p + 1] == s[q]);
        assert(p + 1 < n.len() ==> ascii_whitespace_char(n[p + 1])) by {
            if q < s.len() && !ascii_whitespace_char(s[q]) {
                let i = choose|i: int| #![trigger f[i]] 0 <= i < f.len() && f[i].0 <= q < f[i].1;
                if i < 5 {
                    assert(f[i].1 < f[5].0);
                } else if i > 5 {
                    assert(f[5].1 < f[i].0);
                }
            }
        }
        lemma_fields_before(n, p + 1);
        assert(fields(n)[4] == fields(h)[4]);
        assert(n.subrange(p, p + 1).last() == '0');
    }
}

/// The refusal of a listing, with the reason.
pub open spec fn refused_row(reason: Seq<char>) -> ErrorView {
    ErrorView::message(RemoteErrorType::ProtocolError, reason)
}

/// Refuses a listing.
fn refuse_row(reason: &str) -> (r: RemoteError)
    ensures
        r@ == refused_row(reason@),
{
    RemoteError::with_message(RemoteErrorType::ProtocolError, reason)
}

/// What a check says: nothing, or the failure.
pub open spec fn check_view(r: Result<(), RemoteError>) -> Option<ErrorView> {
    match r {
        Ok(_) => None,
        Err(e) => Some(e@),
    }
}

/// The form of a POSIX row in which its fields are counted.
pub open spec fn counted_row(s: Seq<char>) -> Seq<char> {
    if special_row(s) {
        normalized_row(s)
    } else {
        s
    }
}

/// Why the start of the name in a POSIX row is in doubt, if it is. The name starts behind the
/// eighth field and one separator.
pub open spec fn posix_boundary_doubt(s: Seq<char>) -> Option<ErrorView> {
    let n = counted_row(s);
    let f = fields(n);
    if !posix_row(s) || f.len() < 8 {
        None
    } else if f.len() >= 9 && f[7].1 + 1 < f[8].0 {
        Some(refused_row("LIST returned a filename with an ambiguous leading-space boundary"@))
    } else if holds_wide_whitespace(n.take(f[7].1)) {
        Some(refused_row("LIST returned Unicode whitespace in its POSIX metadata"@))
    } else if only_whitespace(n.skip(f[7].1)) {
        Some(refused_row("LIST returned a filename made only of whitespace"@))
    } else if hides_whitespace(n.skip(f[7].1), 0) {
        Some(refused_row("LIST returned a filename with an ambiguous Unicode-whitespace boundary"@))
    } else {
        None
    }
}

/// Between two fields that follow each other there is ASCII only, so bytes and characters count
/// alike.
proof fn lemma_gap(s: Seq<char>, i: int)
    requires
        0 <= i,
        i + 1 < fields(s).len(),
    ensures
        byte_column(s, fields(s)[i + 1].0) - byte_column(s, fields(s)[i].1) == fields(s)[i + 1].0
            - fields(s)[i].1,
{
    law_fields_are_runs(s);
    let f = fields(s);
    assert(f[i].1 < f[i + 1].0);
    assert forall|k: int| f[i].1 <= k < f[i + 1].0 implies #[trigger] s[k] <= '\u{7f}' by {
        if !ascii_whitespace_char(s[k]) {
            let j = choose|j: int| #![trigger f[j]] 0 <= j < f.len() && f[j].0 <= k < f[j].1;
            if j < i {
                assert(f[j].1 < f[i].0);
            } else if j > i + 1 {
                assert(f[i + 1].1 < f[j].0);
            }
        }
    }
    crate::text::lemma_column_ascii(s, f[i].1, f[i + 1].0);
}

/// Returns whether a row describes a POSIX special file.
fn is_special_row(line: &str) -> (r: bool)
    ensures
        r == special_row(line@),
{
    match first_char(line) {
        Some(c) => c == 'b' || c == 'c' || c == 'p' || c == 's' || c == 'D',
        None => false,
    }
}

/// Rejects POSIX rows whose whitespace boundary could hide a leading-space name.
pub fn reject_ambiguous_posix_name_boundary(line: &str) -> (r: Result<(), RemoteError>)
    ensures
        check_view(r) == posix_boundary_doubt(line@),
{
    let is_special = is_special_row(line);
    let normalized = if is_special {
        normalize_special_posix_line(line)
    } else {
        line.to_string()
    };
    let text = normalized.as_str();
    let total: usize = text.as_bytes().len();
    let spans = field_spans(text);
    let ghost f = fields(text@);
    let is_posix = is_special || match first_char(line) {
        Some(c) => c == '-' || c == 'l' || c == 'd',
        None => false,
    };
    assert(spans@.len() == f.len());
    if !is_posix || spans.len() < 8 {
        return Ok(());
    }
    proof {
        lemma_span(text@, 7);
        if f.len() >= 9 {
            lemma_span(text@, 8);
            lemma_gap(text@, 7);
        }
    }
    if spans.len() >= 9 && spans[7].1 < spans[8].0 && spans[8].0 - spans[7].1 > 1 {
        return Err(
            refuse_row("LIST returned a filename with an ambiguous leading-space boundary"),
        );
    }
    let (metadata, name_suffix) = split_text(text, spans[7].1, Ghost(f[7].1));
    if contains_unicode_whitespace(metadata) {
        return Err(refuse_row("LIST returned Unicode whitespace in its POSIX metadata"));
    }
    if is_only_whitespace(name_suffix) {
        return Err(refuse_row("LIST returned a filename made only of whitespace"));
    }
    if has_unicode_whitespace_after_ascii_padding(name_suffix) {
        return Err(
            refuse_row("LIST returned a filename with an ambiguous Unicode-whitespace boundary"),
        );
    }
    Ok(())
}

// ---------------------------------------------------------------------------------------------
// DOS rows
// ---------------------------------------------------------------------------------------------

/// Whether a character is an ASCII digit.
pub open spec fn digit_char(c: char) -> bool {
    '0' <= c <= '9'
}

/// Whether a row starts with three pairs of digits that are joined by hyphens.
pub open spec fn dos_row(s: Seq<char>) -> bool {
    &&& s.len() >= 8
    &&& s[2] == '-'
    &&& s[5] == '-'
    &&& digit_char(s[0])
    &&& digit_char(s[1])
    &&& digit_char(s[3])
    &&& digit_char(s[4])
    &&& digit_char(s[6])
    &&& digit_char(s[7])
}

/// Tests a character for an ASCII digit.
fn is_digit_char(c: char) -> (r: bool)
    ensures
        r == digit_char(c),
{
    '0' <= c && c <= '9'
}

/// Returns whether a row starts with the date/time shape used by DOS `LIST`.
pub fn looks_like_dos_listing(line: &str) -> (r: bool)
    ensures
        r == dos_row(line@),
{
    let s = chars_of(line);
    s.len() >= 8 && s[2] == '-' && s[5] == '-' && is_digit_char(s[0]) && is_digit_char(s[1])
        && is_digit_char(s[3]) && is_digit_char(s[4]) && is_digit_char(s[6]) && is_digit_char(s[7])
}

/// The index of the first place in `s[from..to]` where `a` and `b` follow each other, or `to` where
/// there is none.
pub open spec fn find_pair(s: Seq<char>, from: int, to: int, a: char, b: char) -> int
    decreases to - from,
{
    if from + 1 >= to {
        to
    } else if s[from] == a && s[from + 1] == b {
        from
    } else {
        find_pair(s, from + 1, to, a, b)
    }
}

/// Where the time of a DOS row ends: behind the first `AM` of its first eight characters, or else
/// behind their first `PM`.
pub open spec fn dos_time_end(s: Seq<char>, time_start: int) -> Option<int> {
    let to = if time_start + 8 < s.len() {
        time_start + 8
    } else {
        s.len() as int
    };
    let am = find_pair(s, time_start, to, 'A', 'M');
    let pm = find_pair(s, time_start, to, 'P', 'M');
    if am < to {
        Some(am + 2)
    } else if pm < to {
        Some(pm + 2)
    } else {
        None
    }
}

/// Whether a DOS row is padded as Windows servers pad the rows of directories, so that the name is
/// known to start at its column.
pub open spec fn padded_dos_layout(s: Seq<char>, metadata_start: int, metadata_end: int, name: int)
    -> bool {
    &&& s.subrange(metadata_start, metadata_end) == "<DIR>"@
    &&& byte_column(s, metadata_start) == PADDED_METADATA_COLUMN
    &&& byte_column(s, name) == PADDED_NAME_COLUMN
}

/// Where the eight bytes of a DOS date end, if a character ends there.
pub open spec fn date_end(s: Seq<char>) -> int {
    choose|k: int| 0 <= k <= s.len() && #[trigger] byte_column(s, k) == 8
}

/// The date of a DOS row takes its first eight characters.
pub proof fn law_dos_dates_take_eight_characters(s: Seq<char>)
    requires
        dos_row(s),
    ensures
        byte_column(s, 8) == 8,
        date_end(s) == 8,
{
    crate::text::lemma_column_bounds(s, 0, 0);
    crate::text::lemma_column_ascii(s, 0, 8);
    let k = date_end(s);
    if k < 8 {
        crate::text::lemma_column_bounds(s, k, 8);
    } else {
        crate::text::lemma_column_bounds(s, 8, k);
    }
}

/// Why the start of the name in a DOS row is in doubt, if it is. The name stands behind a date, a
/// time, a size or a `<DIR>` mark, and one separator.
pub open spec fn dos_boundary_doubt(s: Seq<char>) -> Option<ErrorView> {
    let time_start = next_text(s, date_end(s));
    if time_start >= s.len() {
        None
    } else {
        match dos_time_end(s, time_start) {
            None => Some(refused_row("LIST returned an unsupported DOS timestamp"@)),
            Some(time_end) => {
                let metadata_start = next_text(s, time_end);
                let metadata_end = next_blank(s, metadata_start);
                let name = next_text(s, metadata_end);
                if time_end < s.len() && wide_whitespace(s[time_end]) {
                    Some(
                        refused_row(
                            "LIST returned a DOS filename with an ambiguous Unicode-whitespace boundary"@,
                        ),
                    )
                } else if metadata_start >= s.len() {
                    None
                } else if only_whitespace(s.skip(metadata_end)) {
                    Some(refused_row("LIST returned a filename made only of whitespace"@))
                } else if hides_whitespace(s.skip(metadata_end), 0) {
                    Some(
                        refused_row(
                            "LIST returned a filename with an ambiguous Unicode-whitespace boundary"@,
                        ),
                    )
                } else if name - metadata_end > 1 && !padded_dos_layout(
                    s,
                    metadata_start,
                    metadata_end,
                    name,
                ) {
                    Some(
                        refused_row(
                            "LIST returned a DOS filename with an ambiguous leading-space boundary"@,
                        ),
                    )
                } else {
                    None
                }
            },
        }
    }
}

/// Finds the first place in `s[from..to]` where `a` and `b` follow each other.
fn position_of_pair(s: &Vec<char>, from: usize, to: usize, a: char, b: char) -> (r: usize)
    requires
        from <= to <= s@.len(),
    ensures
        r == find_pair(s@, from as int, to as int, a, b),
        from <= r <= to,
        r < to ==> r + 1 < to,
{
    let mut i: usize = from;
    while to - i > 1
        invariant
            from <= i <= to <= s@.len(),
            find_pair(s@, i as int, to as int, a, b) == find_pair(
                s@,
                from as int,
                to as int,
                a,
                b,
            ),
        decreases to - i,
    {
        if s[i] == a && s[i + 1] == b {
            return i;
        }
        i = i + 1;
    }
    to
}

/// The byte column of a character.
fn column_of(line: &str, s: &Vec<char>, k: usize) -> (r: usize)
    requires
        s@ == line@,
        k <= s@.len(),
    ensures
        r == byte_column(line@, k as int),
{
    let total: usize = line.as_bytes().len();
    let mut i: usize = 0;
    let mut at: usize = 0;
    proof {
        crate::text::lemma_column_bounds(s@, 0, 0);
    }
    while i < k
        invariant
            i <= k <= s@.len(),
            total == encode_utf8(s@).len(),
            at == byte_column(s@, i as int),
        decreases k - i,
    {
        proof {
            crate::text::lemma_column_step(s@, i as int);
            crate::text::lemma_column_bounds(s@, i as int, i + 1);
        }
        at = at + width_of(s[i]);
        i = i + 1;
    }
    at
}

/// Where the eight bytes of a DOS date end.
fn find_date_end(s: &Vec<char>) -> (r: usize)
    requires
        exists|k: int| 0 <= k <= s@.len() && #[trigger] byte_column(s@, k) == 8,
    ensures
        r <= s@.len(),
        r == date_end(s@),
{
    let ghost end = date_end(s@);
    let len: usize = s.len();
    let mut i: usize = 0;
    let mut at: usize = 0;
    proof {
        crate::text::lemma_column_bounds(s@, 0, end);
    }
    while at < 8
        invariant
            len == s@.len(),
            i <= end <= len,
            byte_column(s@, end) == 8,
            at == byte_column(s@, i as int),
        decreases end - i,
    {
        proof {
            crate::text::lemma_column_step(s@, i as int);
            crate::text::lemma_column_bounds(s@, i as int, end);
            crate::text::lemma_column_bounds(s@, i + 1, end);
        }
        at = at + width_of(s[i]);
        i = i + 1;
    }
    proof {
        crate::text::lemma_column_bounds(s@, i as int, end);
    }
    i
}

/// Rejects DOS rows whose metadata separator could hide a leading-space name. The date takes the
/// first eight bytes.
pub fn reject_ambiguous_dos_name_boundary(line: &str) -> (r: Result<(), RemoteError>)
    requires
        exists|k: int| 0 <= k <= line@.len() && #[trigger] byte_column(line@, k) == 8,
    ensures
        check_view(r) == dos_boundary_doubt(line@),
{
    let s = chars_of(line);
    let len: usize = s.len();
    let date: usize = find_date_end(&s);
    let time_start: usize = skip_blank(&s, date);
    if time_start >= len {
        return Ok(());
    }
    let to: usize = if len - time_start > 8 {
        time_start + 8
    } else {
        len
    };
    let am: usize = position_of_pair(&s, time_start, to, 'A', 'M');
    let time_end: usize = if am < to {
        am + 2
    } else {
        let pm: usize = position_of_pair(&s, time_start, to, 'P', 'M');
        if pm < to {
            pm + 2
        } else {
            return Err(refuse_row("LIST returned an unsupported DOS timestamp"));
        }
    };
    if time_end < len && is_wide_whitespace(s[time_end]) {
        return Err(
            refuse_row(
                "LIST returned a DOS filename with an ambiguous Unicode-whitespace boundary",
            ),
        );
    }
    let metadata_start: usize = skip_blank(&s, time_end);
    if metadata_start >= len {
        return Ok(());
    }
    let metadata_end: usize = skip_text(&s, metadata_start);
    let metadata_token = line.substring_char(metadata_start, metadata_end);
    let after_metadata = line.substring_char(metadata_end, len);
    assert(after_metadata@ == line@.skip(metadata_end as int));
    if is_only_whitespace(after_metadata) {
        return Err(refuse_row("LIST returned a filename made only of whitespace"));
    }
    if has_unicode_whitespace_after_ascii_padding(after_metadata) {
        return Err(
            refuse_row("LIST returned a filename with an ambiguous Unicode-whitespace boundary"),
        );
    }
    let name_start: usize = skip_blank(&s, metadata_end);
    let separator: usize = name_start - metadata_end;
    let is_supported_padded_layout = metadata_token.to_string() == "<DIR>".to_string() && column_of(
        line,
        &s,
        metadata_start,
    ) == PADDED_METADATA_COLUMN && column_of(line, &s, name_start) == PADDED_NAME_COLUMN;
    if separator > 1 && !is_supported_padded_layout {
        return Err(
            refuse_row("LIST returned a DOS filename with an ambiguous leading-space boundary"),
        );
    }
    Ok(())
}

/// Whether ` -> ` stands in `s` at index `i`.
pub open spec fn arrow_at(s: Seq<char>, i: int) -> bool {
    &&& 0 <= i
    &&& i + 4 <= s.len()
    &&& s[i] == ' '
    &&& s[i + 1] == '-'
    &&& s[i + 2] == '>'
    &&& s[i + 3] == ' '
}

/// Whether ` -> ` stands in `s` at more than one index, so that a name and a target can be told
/// apart in more than one way. Two of them may share a space.
pub open spec fn several_arrows(s: Seq<char>) -> bool {
    exists|i: int, j: int| i < j && #[trigger] arrow_at(s, i) && #[trigger] arrow_at(s, j)
}

/// Returns whether ` -> ` stands in `s` at more than one index.
fn has_several_arrows(s: &Vec<char>) -> (r: bool)
    ensures
        r == several_arrows(s@),
{
    let mut i: usize = 0;
    let mut found: bool = false;
    let ghost mut first: int = -1;
    while s.len() - i >= 4
        invariant
            i <= s@.len(),
            found ==> first < i && arrow_at(s@, first),
            forall|k: int| k < i && #[trigger] arrow_at(s@, k) ==> found && k == first,
        decreases s@.len() - i,
    {
        if s[i] == ' ' && s[i + 1] == '-' && s[i + 2] == '>' && s[i + 3] == ' ' {
            assert(arrow_at(s@, i as int));
            if found {
                return true;
            }
            found = true;
            proof {
                first = i as int;
            }
        }
        i = i + 1;
    }
    false
}

/// Why a row cannot be trusted to give the exact name, if it cannot.
pub open spec fn name_doubt(s: Seq<char>) -> Option<ErrorView> {
    let posix = posix_boundary_doubt(s);
    if posix is Some {
        posix
    } else if s.len() > 0 && s[0] == 'l' && several_arrows(s) {
        Some(
            refused_row(
                "LIST returned a symlink name or target containing multiple ` -> ` separators"@,
            ),
        )
    } else if dos_row(s) {
        dos_boundary_doubt(s)
    } else {
        None
    }
}

/// Rejects listing rows whose format cannot preserve the exact server name.
pub fn reject_ambiguous_list_name(line: &str) -> (r: Result<(), RemoteError>)
    ensures
        check_view(r) == name_doubt(line@),
{
    let posix = reject_ambiguous_posix_name_boundary(line);
    if posix.is_err() {
        return posix;
    }
    let s = chars_of(line);
    if s.len() > 0 && s[0] == 'l' && has_several_arrows(&s) {
        return Err(
            refuse_row(
                "LIST returned a symlink name or target containing multiple ` -> ` separators",
            ),
        );
    }
    if looks_like_dos_listing(line) {
        proof {
            law_dos_dates_take_eight_characters(line@);
        }
        return reject_ambiguous_dos_name_boundary(line);
    }
    Ok(())
}

// ---------------------------------------------------------------------------------------------
// Entries
// ---------------------------------------------------------------------------------------------

/// What a parsed row says of an entry.
#[derive(Debug)]
pub struct ListedFile {
    pub name: String,
    pub directory: bool,
    /// What a symbolic link points at; `None` where the entry is no link.
    pub symlink: Option<String>,
    pub size: usize,
    /// Last modification, in seconds since 1970.
    pub modified: u64,
    pub uid: Option<u32>,
    pub gid: Option<u32>,
    /// Whether the owner, the group and the others may read, write and execute.
    pub pex: [(bool, bool, bool); 3],
}

/// What a [`ListedFile`] holds.
pub ghost struct ListedView {
    pub name: Seq<char>,
    pub directory: bool,
    pub symlink: Option<Seq<char>>,
    pub size: usize,
    pub modified: u64,
    pub uid: Option<u32>,
    pub gid: Option<u32>,
    pub pex: Seq<(bool, bool, bool)>,
}

impl View for ListedFile {
    type V = ListedView;

    open spec fn view(&self) -> ListedView {
        ListedView {
            name: self.name@,
            directory: self.directory,
            symlink: optional_text(self.symlink),
            size: self.size,
            modified: self.modified,
            uid: self.uid,
            gid: self.gid,
            pex: self.pex@,
        }
    }
}

impl ListedView {
    /// The row without its date.
    pub open spec fn undated(self) -> ListedView {
        ListedView { modified: 0, ..self }
    }
}

/// What a parser gave.
pub open spec fn parse_view(r: Result<ListedFile, ParseError>) -> Result<ListedView, ParseError> {
    match r {
        Ok(f) => Ok(f@),
        Err(e) => Err(e),
    }
}

/// Whether a POSIX row is of the type that its first character says: a file, a directory or a
/// symbolic link.
pub open spec fn posix_typed(s: Seq<char>, row: ListedView) -> bool {
    &&& s.len() > 0
    &&& s[0] == '-' || s[0] == 'd' || s[0] == 'l'
    &&& row.directory == (s[0] == 'd')
    &&& row.symlink is Some == (s[0] == 'l')
}

/// Whether a row can be a DOS row: it does not start with a hyphen or an ASCII letter, and it is no
/// symbolic link.
pub open spec fn dos_typed(s: Seq<char>, row: ListedView) -> bool {
    &&& s.len() > 0
    &&& s[0] != '-'
    &&& !('A' <= s[0] <= 'Z') && !('a' <= s[0] <= 'z')
    &&& row.symlink is None
}

/// Whether two readings of one POSIX row can differ as they do by the time alone: a date that is
/// valid at one time need not be at another, and the rest of the row is read alike.
pub open spec fn alike_but_for_date(
    a: Result<ListedView, ParseError>,
    b: Result<ListedView, ParseError>,
) -> bool {
    &&& a == Err::<ListedView, ParseError>(ParseError::SyntaxError) <==> b == Err::<
        ListedView,
        ParseError,
    >(ParseError::SyntaxError)
    &&& match (a, b) {
        (Ok(x), Ok(y)) => x.undated() == y.undated(),
        (Err(e), Ok(_)) => e == ParseError::InvalidDate,
        (Ok(_), Err(e)) => e == ParseError::InvalidDate,
        (Err(_), Err(_)) => true,
    }
}

/// What `ListParser::parse_posix` returns for a row at the time `now`, in seconds since 1970, on a
/// machine whose largest size is `largest`.
pub uninterp spec fn posix_entry(line: Seq<char>, largest: nat, now: int) -> Result<
    ListedView,
    ParseError,
>;

/// What `ListParser::parse_dos` returns for a row, on a machine whose largest size is `largest`.
pub uninterp spec fn dos_entry(line: Seq<char>, largest: nat) -> Result<ListedView, ParseError>;

/// Parses a POSIX row with `suppaftp::list::ListParser::parse_posix`.
///
/// A date without a year is completed by the clock, so the result is a function of the row and of
/// the time of the call. The time decides over the date alone, and over nothing where the row holds
/// no colon: then the date has its year. The first character of the row says what the entry is.
#[verifier::external_body]
pub(crate) fn parse_posix(line: &str) -> (r: Result<ListedFile, ParseError>)
    ensures
        exists|now: int|
            parse_view(r) == #[trigger] posix_entry(line@, usize::MAX as nat, now),
        forall|now: int|
            alike_but_for_date(
                parse_view(r),
                #[trigger] posix_entry(line@, usize::MAX as nat, now),
            ),
        !line@.contains(':') ==> forall|now: int|
            parse_view(r) == #[trigger] posix_entry(line@, usize::MAX as nat, now),
        r is Ok ==> posix_typed(line@, r->Ok_0@),
{
    let f = ListParser::parse_posix(line).map_err(|e| match e {
        ListError::SyntaxError => ParseError::SyntaxError,
        ListError::InvalidDate => ParseError::InvalidDate,
        ListError::BadSize => ParseError::BadSize,
    })?;
    Ok(ListedFile {
        name: f.name().to_owned(),
        directory: f.is_directory(),
        symlink: f.symlink().map(|p| p.to_string_lossy().into_owned()),
        size: f.size(),
        modified: f.modified().duration_since(UNIX_EPOCH).map_or(0, |d| d.as_secs()),
        uid: f.uid(),
        gid: f.gid(),
        pex: [Owner, Group, Others].map(|w| (f.can_read(w), f.can_write(w), f.can_execute(w))),
    })
}

/// Parses a DOS row with `suppaftp::list::ListParser::parse_dos`, whose result is a function of the
/// row alone. A DOS row starts with a digit, and no entry of it is a symbolic link.
#[verifier::external_body]
pub(crate) fn parse_dos(line: &str) -> (r: Result<ListedFile, ParseError>)
    ensures
        parse_view(r) == dos_entry(line@, usize::MAX as nat),
        match parse_view(r) {
            Ok(f) => dos_typed(line@, f),
            Err(_) => true,
        },
{
    let f = ListParser::parse_dos(line).map_err(|e| match e {
        ListError::SyntaxError => ParseError::SyntaxError,
        ListError::InvalidDate => ParseError::InvalidDate,
        ListError::BadSize => ParseError::BadSize,
    })?;
    Ok(ListedFile {
        name: f.name().to_owned(),
        directory: f.is_directory(),
        symlink: f.symlink().map(|p| p.to_string_lossy().into_owned()),
        size: f.size(),
        modified: f.modified().duration_since(UNIX_EPOCH).map_or(0, |d| d.as_secs()),
        uid: f.uid(),
        gid: f.gid(),
        pex: [Owner, Group, Others].map(|w| (f.can_read(w), f.can_write(w), f.can_execute(w))),
    })
}

/// The row that is tried as a POSIX row: a special file counts as a regular file.
pub open spec fn tried_as_posix(s: Seq<char>) -> Seq<char> {
    if special_row(s) {
        seq!['-'] + normalized_row(s).skip(1)
    } else {
        s
    }
}

/// Whether `r` can be the POSIX reading of a row at the time `now`.
pub open spec fn posix_outcome(s: Seq<char>, now: int, r: Result<ListedView, ParseError>) -> bool {
    &&& r == posix_entry(s, usize::MAX as nat, now)
    &&& forall|other: int|
        alike_but_for_date(r, #[trigger] posix_entry(s, usize::MAX as nat, other))
    &&& !s.contains(':') ==> forall|other: int|
        r == #[trigger] posix_entry(s, usize::MAX as nat, other)
    &&& r is Ok ==> posix_typed(s, r->Ok_0)
}

/// Whether `r` can be the DOS reading of a row.
pub open spec fn dos_outcome(s: Seq<char>, r: Result<ListedView, ParseError>) -> bool {
    &&& r == dos_entry(s, usize::MAX as nat)
    &&& r is Ok ==> dos_typed(s, r->Ok_0)
}

/// Whether `r` comes of parsing a row at the time `now`: the row's POSIX reading where it has one at
/// that time, its DOS reading otherwise.
pub open spec fn parse_outcome_at(s: Seq<char>, now: int, r: Result<ListedView, ParseError>) -> bool {
    let posix = posix_entry(tried_as_posix(s), usize::MAX as nat, now);
    &&& posix_outcome(tried_as_posix(s), now, posix)
    &&& if posix is Ok {
        r == posix
    } else {
        dos_outcome(s, r)
    }
}

/// Whether `r` can come of parsing a row, at some time.
pub open spec fn parse_outcome(s: Seq<char>, r: Result<ListedView, ParseError>) -> bool {
    exists|now: int| #[trigger] parse_outcome_at(s, now, r)
}

/// Parses a POSIX or DOS `LIST` entry, accepting POSIX special files as files.
pub fn parse_list_entry(line: &str) -> (r: Result<ListedFile, ParseError>)
    ensures
        parse_outcome(line@, parse_view(r)),
{
    let posix = if is_special_row(line) {
        let normalized = normalize_special_posix_line(line);
        proof {
            assert(normalized_row(line@).len() > 0);
            reveal_strlit("-");
        }
        let rest = split_first(normalized.as_str());
        let tried = "-".to_string().concat(rest);
        assert(tried@ == tried_as_posix(line@));
        parse_posix(tried.as_str())
    } else {
        parse_posix(line)
    };
    let ghost now = choose|now: int|
        parse_view(posix) == #[trigger] posix_entry(
            tried_as_posix(line@),
            usize::MAX as nat,
            now,
        );
    assert(posix_outcome(tried_as_posix(line@), now, parse_view(posix)));
    let parsed = match posix {
        Ok(f) => Ok(f),
        Err(_) => parse_dos(line),
    };
    assert(parse_outcome_at(line@, now, parse_view(parsed)));
    parsed
}

/// A text without its first character.
fn split_first(text: &str) -> (r: &str)
    requires
        text@.len() > 0,
    ensures
        r@ == text@.skip(1),
{
    let chars = chars_of(text);
    let r = text.substring_char(1, chars.len());
    assert(r@ == text@.skip(1));
    r
}

/// How `Debug` writes a text: in quotes, with escapes.
pub uninterp spec fn quoted(text: Seq<char>) -> Seq<char>;

/// Writes a text as std's `Debug` for `str` does. Which characters it escapes is not stated.
#[verifier::external_body]
fn quote(text: &str) -> (r: String)
    ensures
        r@ == quoted(text@),
{
    format!("{text:?}")
}

/// The refusal of a name that is no direct child.
pub open spec fn unsafe_child(name: Seq<char>) -> ErrorView {
    refused_row("LIST returned an unsafe child name: "@ + quoted(name))
}

/// Ensures a server-supplied listing name cannot escape its listed directory, on the platform that
/// the client runs on.
pub fn validate_list_child_name(on: Platform, name: &str) -> (r: Result<(), RemoteError>)
    ensures
        check_view(r) == if child_name_on(on, name@) {
            None
        } else {
            Some(unsafe_child(name@))
        },
{
    let s = chars_of(name);
    let is_dots = s.len() == 1 && s[0] == '.' || s.len() == 2 && s[0] == '.' && s[1] == '.';
    proof {
        assert(s@.len() == 1 && s@[0] == '.' ==> s@ == seq!['.']);
        assert(s@.len() == 2 && s@[0] == '.' && s@[1] == '.' ==> s@ == dot_dot());
    }
    let is_foreign = match on {
        Platform::Posix => false,
        Platform::Windows => has_backslash(&s) || has_drive(&s),
    };
    if s.len() > 0 && !is_dots && !has_control(&s) && !has_slash(&s) && !is_foreign {
        Ok(())
    } else {
        let shown = quote(name);
        let message = "LIST returned an unsafe child name: ".to_string().concat(shown.as_str());
        Err(refuse_row(message.as_str()))
    }
}

/// Returns whether some character is a path separator.
fn has_slash(s: &Vec<char>) -> (r: bool)
    ensures
        r == exists|i: int| 0 <= i < s@.len() && #[trigger] s@[i] == '/',
{
    let mut i: usize = 0;
    while i < s.len()
        invariant
            i <= s@.len(),
            forall|k: int| 0 <= k < i ==> #[trigger] s@[k] != '/',
        decreases s@.len() - i,
    {
        if s[i] == '/' {
            return true;
        }
        i = i + 1;
    }
    false
}

/// Returns whether some character is a backslash.
fn has_backslash(s: &Vec<char>) -> (r: bool)
    ensures
        r == s@.contains('\\'),
{
    let mut i: usize = 0;
    while i < s.len()
        invariant
            i <= s@.len(),
            forall|k: int| 0 <= k < i ==> #[trigger] s@[k] != '\\',
        decreases s@.len() - i,
    {
        if s[i] == '\\' {
            assert(s@[i as int] == '\\');
            return true;
        }
        i = i + 1;
    }
    false
}

/// Returns whether a name starts with a drive letter and a colon.
fn has_drive(s: &Vec<char>) -> (r: bool)
    ensures
        r == drive_prefix(s@),
{
    s.len() >= 2 && (('A' <= s[0] && s[0] <= 'Z') || ('a' <= s[0] && s[0] <= 'z')) && s[1] == ':'
}

/// The permissions that a row gives to one class of users.
pub open spec fn pex_class(p: (bool, bool, bool)) -> UnixPexClass {
    UnixPexClass { read: p.0, write: p.1, execute: p.2 }
}

/// Returns the permissions of a parsed row.
pub fn query_unix_pex(f: &ListedFile) -> (r: UnixPex)
    ensures
        r == (UnixPex {
            user: pex_class(f@.pex[0]),
            group: pex_class(f@.pex[1]),
            others: pex_class(f@.pex[2]),
        }),
{
    let user = f.pex[0];
    let group = f.pex[1];
    let others = f.pex[2];
    UnixPex {
        user: UnixPexClass { read: user.0, write: user.1, execute: user.2 },
        group: UnixPexClass { read: group.0, write: group.1, execute: group.2 },
        others: UnixPexClass { read: others.0, write: others.1, execute: others.2 },
    }
}

/// What a row is, among the types of entries.
pub open spec fn listed_type(row: ListedView) -> FileType {
    if row.symlink is Some {
        FileType::Symlink
    } else if row.directory {
        FileType::Directory
    } else {
        FileType::File
    }
}

/// The entry that a row of the listing of `path` describes.
pub open spec fn listed_file(path: Seq<char>, row: ListedView) -> FileView {
    FileView {
        path: join_path(path, row.name),
        metadata: MetadataView {
            file_type: listed_type(row),
            size: Some(row.size as u64),
            modified: Some(row.modified),
            mode: Some(
                UnixPex {
                    user: pex_class(row.pex[0]),
                    group: pex_class(row.pex[1]),
                    others: pex_class(row.pex[2]),
                },
            ),
            uid: row.uid,
            gid: row.gid,
            symlink: match row.symlink {
                Some(target) => Some(join_path(path, target)),
                None => None,
            },
        },
    }
}

/// What a parsed row adds to the listing of `path`: an entry, nothing where it describes the
/// directory itself or what it stands in, or a failure.
pub open spec fn entry_of(on: Platform, path: Seq<char>, row: Result<ListedView, ParseError>) -> Result<
    Option<FileView>,
    ErrorView,
> {
    match row {
        Err(e) => Err(
            ErrorView {
                kind: RemoteErrorType::ProtocolError,
                source: Some(CauseView::List(e)),
            },
        ),
        Ok(row) => if row.name == seq!['.'] || row.name == dot_dot() {
            Ok(None)
        } else if !child_name_on(on, row.name) {
            Err(unsafe_child(row.name))
        } else {
            Ok(Some(listed_file(path, row)))
        },
    }
}

/// What an optional entry holds.
pub open spec fn entry_view(r: Result<Option<File>, RemoteError>) -> Result<
    Option<FileView>,
    ErrorView,
> {
    match r {
        Ok(Some(f)) => Ok(Some(f@)),
        Ok(None) => Ok(None),
        Err(e) => Err(e@),
    }
}

/// Turns a parsed row of the listing of `path` into an entry.
pub fn list_entry(on: Platform, path: &str, parsed: Result<ListedFile, ParseError>) -> (r: Result<
    Option<File>,
    RemoteError,
>)
    ensures
        entry_view(r) == entry_of(on, path@, parse_view(parsed)),
{
    let f = match parsed {
        Ok(f) => f,
        Err(e) => {
            return Err(
                RemoteError {
                    kind: RemoteErrorType::ProtocolError,
                    source: Some(Cause::List(e)),
                },
            );
        },
    };
    proof {
        reveal_strlit(".");
        reveal_strlit("..");
        assert("."@ == seq!['.']);
        assert(".."@ == dot_dot());
    }
    if f.name == ".".to_string() || f.name == "..".to_string() {
        return Ok(None);
    }
    match validate_list_child_name(on, f.name.as_str()) {
        Ok(_) => {},
        Err(e) => {
            return Err(e);
        },
    }
    let file_type = if f.symlink.is_some() {
        FileType::Symlink
    } else if f.directory {
        FileType::Directory
    } else {
        FileType::File
    };
    let symlink = match &f.symlink {
        Some(target) => Some(join(path, target.as_str())),
        None => None,
    };
    let metadata = Metadata {
        file_type,
        size: Some(f.size as u64),
        modified: Some(f.modified),
        mode: Some(query_unix_pex(&f)),
        uid: f.uid,
        gid: f.gid,
        symlink,
    };
    Ok(Some(File { path: join(path, f.name.as_str()), metadata }))
}

// ---------------------------------------------------------------------------------------------
// Listings
// ---------------------------------------------------------------------------------------------

/// The index of the first line feed at or after `from`, or the length where there is none.
pub open spec fn line_feed(s: Seq<char>, from: int) -> int
    decreases s.len() - from,
{
    if from >= s.len() {
        s.len() as int
    } else if s[from] == '\n' {
        from
    } else {
        line_feed(s, from + 1)
    }
}

/// A line that a line feed ended, without the carriage return before it.
pub open spec fn strip_return(s: Seq<char>) -> Seq<char> {
    if s.len() > 0 && s.last() == '\r' {
        s.drop_last()
    } else {
        s
    }
}

/// `line` as the only line, or none where it is empty.
pub open spec fn kept_line(line: Seq<char>) -> Seq<Seq<char>> {
    if line.len() > 0 {
        seq![line]
    } else {
        Seq::empty()
    }
}

/// The lines of `s[from..]` that are not empty.
pub open spec fn lines_from(s: Seq<char>, from: int) -> Seq<Seq<char>>
    decreases s.len() - from,
    when from >= 0
    via lines_from_decreases
{
    let end = line_feed(s, from);
    if from >= s.len() {
        Seq::empty()
    } else if end >= s.len() {
        seq![s.skip(from)]
    } else {
        kept_line(strip_return(s.subrange(from, end))) + lines_from(s, end + 1)
    }
}

#[via_fn]
proof fn lines_from_decreases(s: Seq<char>, from: int) {
    lemma_line_feed(s, from);
}

/// What the first line feed is: none comes before it.
proof fn lemma_line_feed(s: Seq<char>, from: int)
    requires
        from >= 0,
    ensures
        from <= s.len() ==> from <= line_feed(s, from) <= s.len(),
        from > s.len() ==> line_feed(s, from) == s.len(),
    decreases s.len() - from,
{
    if from < s.len() && s[from] != '\n' {
        lemma_line_feed(s, from + 1);
    }
}

/// What a list of texts holds.
pub open spec fn text_views(lines: Seq<String>) -> Seq<Seq<char>> {
    lines.map_values(|l: String| l@)
}

/// The lines of a listing, or the failure where it is no valid UTF-8.
pub open spec fn decoded_lines(bytes: Seq<u8>) -> Result<Seq<Seq<char>>, FtpErrorView> {
    if valid_utf8(bytes) {
        Ok(lines_from(decode_utf8(bytes), 0))
    } else {
        Err(FtpErrorView::BadResponse)
    }
}

/// Decodes raw `LIST` bytes without replacing invalid UTF-8.
pub fn decode_list_bytes(bytes: Vec<u8>) -> (r: Result<Vec<String>, FtpError>)
    ensures
        match r {
            Ok(lines) => decoded_lines(bytes@) == Ok::<Seq<Seq<char>>, FtpErrorView>(
                text_views(lines@),
            ),
            Err(e) => decoded_lines(bytes@) == Err::<Seq<Seq<char>>, FtpErrorView>(e@),
        },
{
    match decode_utf8_bytes(bytes.as_slice()) {
        None => Err(FtpError::BadResponse),
        Some(listing) => Ok(split_lines(listing.as_str())),
    }
}

/// The lines of a text that are not empty.
fn split_lines(text: &str) -> (r: Vec<String>)
    ensures
        text_views(r@) == lines_from(text@, 0),
{
    let s = chars_of(text);
    let len: usize = s.len();
    let mut lines: Vec<String> = Vec::new();
    let mut rest: &str = text;
    let mut from: usize = 0;
    assert(text@.skip(0) == text@);
    assert(text_views(lines@) + lines_from(text@, 0) == lines_from(text@, 0));
    while from < len
        invariant
            s@ == text@,
            len == s@.len(),
            from <= len,
            rest@ == text@.skip(from as int),
            text_views(lines@) + lines_from(text@, from as int) == lines_from(text@, 0),
        decreases len - from,
    {
        let total: usize = rest.as_bytes().len();
        let mut end: usize = from;
        let mut width: usize = 0;
        proof {
            crate::text::lemma_column_bounds(rest@, 0, 0);
        }
        while end < len && s[end] != '\n'
            invariant
                s@ == text@,
                len == s@.len(),
                from <= end <= len,
                rest@ == text@.skip(from as int),
                total == encode_utf8(rest@).len(),
                width == byte_column(rest@, end - from),
                line_feed(text@, end as int) == line_feed(text@, from as int),
            decreases len - end,
        {
            proof {
                assert(rest@[end - from] == s@[end as int]);
                crate::text::lemma_column_step(rest@, end - from);
                crate::text::lemma_column_bounds(rest@, end - from, end - from + 1);
            }
            width = width + width_of(s[end]);
            end = end + 1;
        }
        let ghost before = lines@;
        let ghost done = text_views(lines@);
        if end >= len {
            let last = rest.to_string();
            lines.push(last);
            proof {
                assert(text_views(before.push(last)) == done.push(last@));
                assert(lines_from(text@, from as int) == seq![last@]);
                assert(done.push(last@) == done + seq![last@]);
            }
            return lines;
        }
        let (line, tail) = split_text(rest, width, Ghost(end - from));
        proof {
            assert(line@ == text@.subrange(from as int, end as int));
            assert(tail@ == text@.skip(end as int));
            assert(tail@[0] == '\n');
            crate::text::lemma_column_step(tail@, 0);
            crate::text::lemma_column_bounds(tail@, 0, 0);
        }
        let stripped = if end > from && s[end - 1] == '\r' {
            strip_last(line)
        } else {
            line
        };
        assert(stripped@ == strip_return(text@.subrange(from as int, end as int)));
        if !stripped.is_empty() {
            let kept = stripped.to_string();
            lines.push(kept);
            proof {
                assert(text_views(before.push(kept)) == done.push(kept@));
                assert(done.push(kept@) == done + seq![kept@]);
            }
        }
        proof {
            lemma_empty_text(stripped@);
            let k = kept_line(stripped@);
            assert(text_views(lines@) == done + k);
            assert(lines_from(text@, from as int) == k + lines_from(text@, end + 1));
            assert(done + (k + lines_from(text@, end + 1)) == (done + k) + lines_from(
                text@,
                end + 1,
            ));
        }
        rest = split_text(tail, 1, Ghost(1)).1;
        assert(rest@ == text@.skip(end + 1));
        from = end + 1;
    }
    assert(text_views(lines@) + lines_from(text@, from as int) == text_views(lines@));
    lines
}

/// A text takes no bytes where it has no characters.
proof fn lemma_empty_text(s: Seq<char>)
    ensures
        (encode_utf8(s).len() == 0) == (s.len() == 0),
{
    crate::text::lemma_column_bounds(s, 0, s.len() as int);
}

/// A line without its last character, a carriage return.
fn strip_last(line: &str) -> (r: &str)
    requires
        line@.len() > 0,
        line@.last() == '\r',
    ensures
        r@ == line@.drop_last(),
{
    let total: usize = line.as_bytes().len();
    proof {
        let n = line@.len() as int;
        crate::text::lemma_column_step(line@, n - 1);
        crate::text::lemma_column_bounds(line@, 0, n);
        assert(line@.take(n - 1) == line@.drop_last());
    }
    split_text(line, total - 1, Ghost(line@.len() - 1)).0
}

/// Whether a row is the count of blocks that some servers put first.
pub open spec fn block_count(s: Seq<char>) -> bool {
    &&& s.len() > 6
    &&& s.take(6) == "total "@
    &&& all_digits(s.skip(6))
}

/// Returns whether a row is a count of blocks.
fn is_block_count(line: &str) -> (r: bool)
    ensures
        r == block_count(line@),
{
    let chars = chars_of(line);
    if chars.len() <= 6 {
        return false;
    }
    let head = line.substring_char(0, 6);
    let count = line.substring_char(6, chars.len());
    assert(head@ == line@.take(6));
    assert(count@ == line@.skip(6));
    head.to_string() == "total ".to_string() && is_number(count)
}

/// What row `i` adds to the listing of `path`, given how it was parsed: nothing where it is a count
/// of blocks in front of the others, and a failure where its name is in doubt.
pub open spec fn row_entry(
    on: Platform,
    path: Seq<char>,
    i: int,
    line: Seq<char>,
    parsed: Result<ListedView, ParseError>,
) -> Result<Option<FileView>, ErrorView> {
    if i == 0 && block_count(line) {
        Ok(None)
    } else {
        match name_doubt(line) {
            Some(e) => Err(e),
            None => entry_of(on, path, parsed),
        }
    }
}

/// The entries of the first `n` rows, or the first failure among them.
pub open spec fn listing_to(
    on: Platform,
    path: Seq<char>,
    lines: Seq<Seq<char>>,
    parsed: Seq<Result<ListedView, ParseError>>,
    n: int,
) -> Result<Seq<FileView>, ErrorView>
    decreases n,
{
    if n <= 0 {
        Ok(Seq::empty())
    } else {
        match listing_to(on, path, lines, parsed, n - 1) {
            Err(e) => Err(e),
            Ok(found) => match row_entry(on, path, n - 1, lines[n - 1], parsed[n - 1]) {
                Err(e) => Err(e),
                Ok(Some(file)) => Ok(found.push(file)),
                Ok(None) => Ok(found),
            },
        }
    }
}

/// Whether a row is parsed at all: a count of blocks in front is not, nor a row whose name is in
/// doubt.
pub open spec fn is_parsed(i: int, line: Seq<char>) -> bool {
    !(i == 0 && block_count(line)) && name_doubt(line) is None
}

/// Whether the first rows were parsed as they are at these times.
pub open spec fn parsed_rows(
    lines: Seq<Seq<char>>,
    times: Seq<int>,
    parsed: Seq<Result<ListedView, ParseError>>,
) -> bool {
    &&& parsed.len() <= times.len() <= lines.len()
    &&& forall|i: int|
        0 <= i < parsed.len() && is_parsed(i, lines[i]) ==> parse_outcome_at(
            lines[i],
            times[i],
            #[trigger] parsed[i],
        )
}

/// What a listing holds.
pub open spec fn files_view(r: Result<Vec<File>, RemoteError>) -> Result<Seq<FileView>, ErrorView> {
    match r {
        Ok(files) => Ok(file_views(files@)),
        Err(e) => Err(e@),
    }
}

/// Whether rows that were parsed like this give the listing `r` of `path`: they are read in order, up
/// to the first failure.
pub open spec fn gives_listing(
    on: Platform,
    path: Seq<char>,
    lines: Seq<Seq<char>>,
    times: Seq<int>,
    parsed: Seq<Result<ListedView, ParseError>>,
    r: Result<Seq<FileView>, ErrorView>,
) -> bool {
    &&& parsed_rows(lines, times, parsed)
    &&& r == listing_to(on, path, lines, parsed, parsed.len() as int)
    &&& r is Ok ==> parsed.len() == lines.len()
}

/// Whether `r` is the listing of `path` with these rows, each read at its time.
pub open spec fn is_listing_at(
    on: Platform,
    path: Seq<char>,
    lines: Seq<Seq<char>>,
    times: Seq<int>,
    r: Result<Seq<FileView>, ErrorView>,
) -> bool {
    exists|parsed: Seq<Result<ListedView, ParseError>>| #[trigger]
        gives_listing(on, path, lines, times, parsed, r)
}

/// Whether `r` can be the listing of `path` with these rows, each read at some time.
pub open spec fn is_listing(
    on: Platform,
    path: Seq<char>,
    lines: Seq<Seq<char>>,
    r: Result<Seq<FileView>, ErrorView>,
) -> bool {
    exists|times: Seq<int>| #[trigger] is_listing_at(on, path, lines, times, r)
}

/// How the rows of a listing were parsed, and when.
spec fn witness(
    on: Platform,
    path: Seq<char>,
    lines: Seq<Seq<char>>,
    r: Result<Seq<FileView>, ErrorView>,
) -> (Seq<int>, Seq<Result<ListedView, ParseError>>) {
    let times = choose|times: Seq<int>| #[trigger] is_listing_at(on, path, lines, times, r);
    let parsed = choose|parsed: Seq<Result<ListedView, ParseError>>| #[trigger]
        gives_listing(on, path, lines, times, parsed, r);
    (times, parsed)
}

/// What the first rows add depends on them alone, and on how those among them were parsed that are
/// parsed at all.
proof fn lemma_listing_prefix(
    on: Platform,
    path: Seq<char>,
    lines: Seq<Seq<char>>,
    a: Seq<Result<ListedView, ParseError>>,
    b: Seq<Result<ListedView, ParseError>>,
    n: int,
)
    requires
        forall|i: int| 0 <= i < n && is_parsed(i, lines[i]) ==> #[trigger] a[i] == b[i],
    ensures
        listing_to(on, path, lines, a, n) == listing_to(on, path, lines, b, n),
    decreases n,
{
    if n > 0 {
        lemma_listing_prefix(on, path, lines, a, b, n - 1);
        if is_parsed(n - 1, lines[n - 1]) {
            assert(a[n - 1] == b[n - 1]);
        }
    }
}

/// Parses the rows of the listing of `path`.
///
/// A count of blocks in front, `.` and `..` give no entry; a row whose name is in doubt, that does
/// not parse, or whose name is no direct child fails the whole listing.
pub fn parse_list_lines(on: Platform, path: &str, lines: &Vec<String>) -> (r: Result<
    Vec<File>,
    RemoteError,
>)
    ensures
        is_listing(on, path@, text_views(lines@), files_view(r)),
{
    let ghost rows = text_views(lines@);
    let ghost mut times: Seq<int> = Seq::empty();
    let ghost mut parsed: Seq<Result<ListedView, ParseError>> = Seq::empty();
    let mut found: Vec<File> = Vec::new();
    let mut i: usize = 0;
    assert(file_views(found@) == Seq::<FileView>::empty());
    while i < lines.len()
        invariant
            i <= lines@.len(),
            rows == text_views(lines@),
            parsed.len() == i,
            times.len() == i,
            parsed_rows(rows, times, parsed),
            listing_to(on, path@, rows, parsed, i as int) == Ok::<Seq<FileView>, ErrorView>(
                file_views(found@),
            ),
        decreases lines@.len() - i,
    {
        let line = lines[i].as_str();
        let mut entry: Result<Option<File>, RemoteError> = Ok(None);
        let ghost before = parsed;
        let ghost earlier = times;
        if i == 0 && is_block_count(line) {
            proof {
                times = times.push(0);
                parsed = parsed.push(Err(ParseError::SyntaxError));
            }
        } else {
            match reject_ambiguous_list_name(line) {
                Err(e) => {
                    proof {
                        times = times.push(0);
                        parsed = parsed.push(Err(ParseError::SyntaxError));
                    }
                    entry = Err(e);
                },
                Ok(_) => {
                    let f = parse_list_entry(line);
                    proof {
                        times = times.push(
                            choose|now: int| #[trigger] parse_outcome_at(line@, now, parse_view(f)),
                        );
                        parsed = parsed.push(parse_view(f));
                    }
                    entry = list_entry(on, path, f);
                },
            }
        }
        proof {
            lemma_listing_prefix(on, path@, rows, before, parsed, i as int);
            assert(parsed_rows(rows, times, parsed)) by {
                assert forall|k: int|
                    0 <= k < parsed.len() && is_parsed(k, rows[k]) implies parse_outcome_at(
                    rows[k],
                    times[k],
                    #[trigger] parsed[k],
                ) by {
                    if k < i {
                        assert(parsed[k] == before[k]);
                        assert(times[k] == earlier[k]);
                    }
                }
            }
            assert(entry_view(entry) == row_entry(on, path@, i as int, rows[i as int], parsed[i as int]));
        }
        match entry {
            Err(e) => {
                assert(listing_to(on, path@, rows, parsed, i + 1) == Err::<Seq<FileView>, ErrorView>(
                    e@,
                ));
                assert(gives_listing(on, path@, rows, times, parsed, Err(e@)));
                assert(is_listing_at(on, path@, rows, times, Err(e@)));
                return Err(e);
            },
            Ok(Some(file)) => {
                let ghost already = found@;
                found.push(file);
                assert(file_views(already.push(file)) == file_views(already).push(file@));
            },
            Ok(None) => {},
        }
        i = i + 1;
    }
    assert(gives_listing(on, path@, rows, times, parsed, Ok(file_views(found@))));
    assert(is_listing_at(on, path@, rows, times, Ok(file_views(found@))));
    Ok(found)
}

/// A listed entry stays in the listed directory: its path is a valid path directly below it, and
/// its name is the one that the server gave.
pub proof fn law_listed_entries_are_children(
    on: Platform,
    path: Seq<char>,
    lines: Seq<Seq<char>>,
    r: Result<Seq<FileView>, ErrorView>,
    i: int,
)
    requires
        crate::path::wire_path(path),
        is_listing(on, path, lines, r),
        r is Ok,
        0 <= i < r->Ok_0.len(),
    ensures
        crate::path::wire_path(r->Ok_0[i].path),
        crate::path::parent(r->Ok_0[i].path) is Some,
        crate::path::same_path(crate::path::parent(r->Ok_0[i].path)->0, path),
        child_name_on(on, r->Ok_0[i].name()),
        r->Ok_0[i].path == join_path(path, r->Ok_0[i].name()),
{
    let parsed = witness(on, path, lines, r).1;
    lemma_listed_entries(on, path, lines, parsed, lines.len() as int, i);
    let row = choose|row: ListedView|
        child_name_on(on, row.name) && r->Ok_0[i] == listed_file(path, row);
    crate::path::law_child_stays_in_its_directory(path, row.name);
}

/// Each entry of a listing comes from a row whose name is a direct child.
proof fn lemma_listed_entries(
    on: Platform,
    path: Seq<char>,
    lines: Seq<Seq<char>>,
    parsed: Seq<Result<ListedView, ParseError>>,
    n: int,
    i: int,
)
    requires
        listing_to(on, path, lines, parsed, n) is Ok,
        0 <= i < listing_to(on, path, lines, parsed, n)->Ok_0.len(),
    ensures
        exists|row: ListedView|
            child_name_on(on, row.name) && listing_to(on, path, lines, parsed, n)->Ok_0[i] == listed_file(
                path,
                row,
            ),
    decreases n,
{
    let before = listing_to(on, path, lines, parsed, n - 1)->Ok_0;
    if i < before.len() {
        lemma_listed_entries(on, path, lines, parsed, n - 1, i);
    } else {
        let row = parsed[n - 1]->Ok_0;
        assert(child_name_on(on, row.name));
    }
}

/// A POSIX row that raises no doubt has exactly one separator in front of its name.
pub proof fn law_undoubted_posix_rows_have_one_separator(s: Seq<char>)
    requires
        posix_row(s),
        fields(counted_row(s)).len() >= 9,
        name_doubt(s) is None,
    ensures
        fields(counted_row(s))[8].0 == fields(counted_row(s))[7].1 + 1,
{
    law_fields_are_runs(counted_row(s));
    let f = fields(counted_row(s));
    assert(f[7].1 < f[8].0);
}

/// A row is of the type that its first character says: `d` is a directory, `l` a symbolic link, and
/// any other POSIX row a file, special files included.
pub proof fn law_posix_rows_have_their_type(s: Seq<char>, row: ListedView)
    requires
        posix_row(s),
        parse_outcome(s, Ok(row)),
    ensures
        listed_type(row) == if s[0] == 'd' {
            FileType::Directory
        } else if s[0] == 'l' {
            FileType::Symlink
        } else {
            FileType::File
        },
{
}

/// A row without a colon holds none where it is tried as a POSIX row either.
proof fn lemma_tried_without_colon(s: Seq<char>)
    requires
        !s.contains(':'),
    ensures
        !tried_as_posix(s).contains(':'),
{
    let t = tried_as_posix(s);
    law_fields_are_runs(s);
    assert forall|k: int| 0 <= k < t.len() implies #[trigger] t[k] != ':' by {
        if special_row(s) && k > 0 {
            let n = normalized_row(s);
            assert(t[k] == n[k]);
            if device_row(s) {
                let from = fields(s)[4].0;
                let to = fields(s)[5].1;
                if k < from {
                    assert(n[k] == s[k]);
                } else if k > from {
                    assert(n[k] == s[k - from - 1 + to]);
                }
            } else {
                assert(n[k] == s[k]);
            }
        } else if !special_row(s) {
            assert(t[k] == s[k]);
        }
    }
}

/// Whatever the time, a row that can be read is read as the same entry, its date aside; and a row
/// without a colon, whose date has its year, is read alike at all times, refusals included.
pub proof fn law_rows_read_alike_at_all_times(
    s: Seq<char>,
    a: Result<ListedView, ParseError>,
    b: Result<ListedView, ParseError>,
)
    requires
        parse_outcome(s, a),
        parse_outcome(s, b),
    ensures
        a is Ok && b is Ok ==> a->Ok_0.undated() == b->Ok_0.undated(),
        !s.contains(':') ==> a == b,
{
    let t = tried_as_posix(s);
    let m = choose|now: int| #[trigger] parse_outcome_at(s, now, a);
    let n = choose|now: int| #[trigger] parse_outcome_at(s, now, b);
    let x = posix_entry(t, usize::MAX as nat, m);
    let y = posix_entry(t, usize::MAX as nat, n);
    assert(alike_but_for_date(x, y));
    if !s.contains(':') {
        lemma_tried_without_colon(s);
        assert(x == y);
    }
}

/// An entry without its date.
pub open spec fn undated_file(f: FileView) -> FileView {
    FileView { metadata: MetadataView { modified: None, ..f.metadata }, ..f }
}

/// Whatever the time, the rows of a listing decide what it holds, dates aside.
pub proof fn law_listings_differ_in_dates_alone(
    on: Platform,
    path: Seq<char>,
    lines: Seq<Seq<char>>,
    a: Result<Seq<FileView>, ErrorView>,
    b: Result<Seq<FileView>, ErrorView>,
)
    requires
        is_listing(on, path, lines, a),
        is_listing(on, path, lines, b),
        a is Ok,
        b is Ok,
    ensures
        a->Ok_0.map_values(|f: FileView| undated_file(f)) == b->Ok_0.map_values(
            |f: FileView| undated_file(f),
        ),
{
    let (s, x) = witness(on, path, lines, a);
    let (t, y) = witness(on, path, lines, b);
    lemma_undated_listings(on, path, lines, s, x, t, y, lines.len() as int);
}

/// The first rows of two readings of a listing give the same entries, dates aside.
proof fn lemma_undated_listings(
    on: Platform,
    path: Seq<char>,
    lines: Seq<Seq<char>>,
    s: Seq<int>,
    x: Seq<Result<ListedView, ParseError>>,
    t: Seq<int>,
    y: Seq<Result<ListedView, ParseError>>,
    n: int,
)
    requires
        parsed_rows(lines, s, x),
        parsed_rows(lines, t, y),
        n <= x.len(),
        n <= y.len(),
        listing_to(on, path, lines, x, n) is Ok,
        listing_to(on, path, lines, y, n) is Ok,
    ensures
        listing_to(on, path, lines, x, n)->Ok_0.map_values(|f: FileView| undated_file(f))
            == listing_to(on, path, lines, y, n)->Ok_0.map_values(|f: FileView| undated_file(f)),
    decreases n,
{
    let undate = |f: FileView| undated_file(f);
    if n > 0 {
        lemma_undated_listings(on, path, lines, s, x, t, y, n - 1);
        let p = listing_to(on, path, lines, x, n - 1)->Ok_0;
        let q = listing_to(on, path, lines, y, n - 1)->Ok_0;
        if is_parsed(n - 1, lines[n - 1]) {
            assert(parse_outcome_at(lines[n - 1], s[n - 1], x[n - 1]));
            assert(parse_outcome_at(lines[n - 1], t[n - 1], y[n - 1]));
            law_rows_read_alike_at_all_times(lines[n - 1], x[n - 1], y[n - 1]);
            let u = x[n - 1]->Ok_0;
            let v = y[n - 1]->Ok_0;
            assert(u.undated().name == v.undated().name);
            assert(u == ListedView { modified: u.modified, ..v });
            if let Ok(Some(f)) = row_entry(on, path, n - 1, lines[n - 1], x[n - 1]) {
                let g = listed_file(path, v);
                assert(undated_file(f) == undated_file(g));
                assert(p.push(f).map_values(undate) == p.map_values(undate).push(undated_file(f)));
                assert(q.push(g).map_values(undate) == q.map_values(undate).push(undated_file(g)));
            }
        }
    }
}

/// Where no row holds a colon, all dates have their years, and the rows alone decide the listing,
/// refusals included.
pub proof fn law_dated_rows_decide_the_listing(
    on: Platform,
    path: Seq<char>,
    lines: Seq<Seq<char>>,
    a: Result<Seq<FileView>, ErrorView>,
    b: Result<Seq<FileView>, ErrorView>,
)
    requires
        is_listing(on, path, lines, a),
        is_listing(on, path, lines, b),
        forall|i: int| 0 <= i < lines.len() ==> !(#[trigger] lines[i]).contains(':'),
    ensures
        a == b,
{
    let (s, x) = witness(on, path, lines, a);
    let (t, y) = witness(on, path, lines, b);
    assert forall|i: int|
        0 <= i < x.len() && i < y.len() && is_parsed(i, lines[i]) implies #[trigger] x[i] == y[i] by {
        assert(parse_outcome_at(lines[i], s[i], x[i]));
        assert(parse_outcome_at(lines[i], t[i], y[i]));
        law_rows_read_alike_at_all_times(lines[i], x[i], y[i]);
    }
    lemma_same_listing(on, path, lines, s, x, t, y, a, b);
}

/// The rows of a listing and the times at which they are read decide it, dates and refusals
/// included.
pub proof fn law_rows_and_times_decide_the_listing(
    on: Platform,
    path: Seq<char>,
    lines: Seq<Seq<char>>,
    times: Seq<int>,
    a: Result<Seq<FileView>, ErrorView>,
    b: Result<Seq<FileView>, ErrorView>,
)
    requires
        is_listing_at(on, path, lines, times, a),
        is_listing_at(on, path, lines, times, b),
    ensures
        a == b,
{
    let x = choose|parsed: Seq<Result<ListedView, ParseError>>| #[trigger]
        gives_listing(on, path, lines, times, parsed, a);
    let y = choose|parsed: Seq<Result<ListedView, ParseError>>| #[trigger]
        gives_listing(on, path, lines, times, parsed, b);
    assert forall|i: int|
        0 <= i < x.len() && i < y.len() && is_parsed(i, lines[i]) implies #[trigger] x[i] == y[i] by {
        assert(parse_outcome_at(lines[i], times[i], x[i]));
        assert(parse_outcome_at(lines[i], times[i], y[i]));
    }
    lemma_same_listing(on, path, lines, times, x, times, y, a, b);
}

/// Rows that were parsed alike, as far as both were, give the same listing.
proof fn lemma_same_listing(
    on: Platform,
    path: Seq<char>,
    lines: Seq<Seq<char>>,
    s: Seq<int>,
    x: Seq<Result<ListedView, ParseError>>,
    t: Seq<int>,
    y: Seq<Result<ListedView, ParseError>>,
    a: Result<Seq<FileView>, ErrorView>,
    b: Result<Seq<FileView>, ErrorView>,
)
    requires
        gives_listing(on, path, lines, s, x, a),
        gives_listing(on, path, lines, t, y, b),
        forall|i: int|
            0 <= i < x.len() && i < y.len() && is_parsed(i, lines[i]) ==> #[trigger] x[i] == y[i],
    ensures
        a == b,
{
    if x.len() <= y.len() {
        lemma_listing_prefix(on, path, lines, x, y, x.len() as int);
        lemma_first_failure(on, path, lines, y, x.len() as int, y.len() as int);
    } else {
        lemma_listing_prefix(on, path, lines, x, y, y.len() as int);
        lemma_first_failure(on, path, lines, x, y.len() as int, x.len() as int);
    }
}

/// A failure among the first rows is the failure of all rows after it.
proof fn lemma_first_failure(
    on: Platform,
    path: Seq<char>,
    lines: Seq<Seq<char>>,
    parsed: Seq<Result<ListedView, ParseError>>,
    m: int,
    n: int,
)
    requires
        m <= n,
    ensures
        listing_to(on, path, lines, parsed, m) is Err ==> listing_to(on, path, lines, parsed, n)
            == listing_to(on, path, lines, parsed, m),
    decreases n,
{
    if m < n && n > 0 {
        lemma_first_failure(on, path, lines, parsed, m, n - 1);
    }
}

/// The listing of joined rows is the joined listing, where each row is read at the same time as
/// before, unless the rows that come second start with a count of blocks: that is skipped in front
/// only.
pub proof fn law_listings_join(
    on: Platform,
    path: Seq<char>,
    xs: Seq<Seq<char>>,
    ys: Seq<Seq<char>>,
    s: Seq<int>,
    t: Seq<int>,
    a: Seq<FileView>,
    b: Seq<FileView>,
)
    requires
        is_listing_at(on, path, xs, s, Ok(a)),
        is_listing_at(on, path, ys, t, Ok(b)),
        ys.len() == 0 || !block_count(ys[0]),
    ensures
        is_listing_at(on, path, xs + ys, s + t, Ok(a + b)),
        forall|r: Result<Seq<FileView>, ErrorView>| #[trigger]
            is_listing_at(on, path, xs + ys, s + t, r) ==> r == Ok::<Seq<FileView>, ErrorView>(a + b),
{
    let joined = Ok::<Seq<FileView>, ErrorView>(a + b);
    let x = choose|parsed: Seq<Result<ListedView, ParseError>>| #[trigger]
        gives_listing(on, path, xs, s, parsed, Ok(a));
    let y = choose|parsed: Seq<Result<ListedView, ParseError>>| #[trigger]
        gives_listing(on, path, ys, t, parsed, Ok(b));
    let m = xs.len() as int;
    assert forall|i: int|
        0 <= i < (x + y).len() && is_parsed(i, (xs + ys)[i]) implies parse_outcome_at(
        (xs + ys)[i],
        (s + t)[i],
        #[trigger] (x + y)[i],
    ) by {
        if i < m {
            assert((x + y)[i] == x[i]);
        } else {
            assert((x + y)[i] == y[i - m]);
            assert(is_parsed(i - m, ys[i - m]));
        }
    }
    assert(parsed_rows(xs + ys, s + t, x + y));
    lemma_listing_front(on, path, xs, ys, x, y, m);
    lemma_listing_back(on, path, xs, ys, x, y, a, ys.len() as int);
    assert(gives_listing(on, path, xs + ys, s + t, x + y, joined));
    assert forall|r: Result<Seq<FileView>, ErrorView>| #[trigger]
        is_listing_at(on, path, xs + ys, s + t, r) implies r == joined by {
        law_rows_and_times_decide_the_listing(on, path, xs + ys, s + t, r, joined);
    }
}

/// One time, for as many rows.
pub open spec fn always(now: int, rows: nat) -> Seq<int> {
    Seq::new(rows, |i: int| now)
}

/// At one time, the listing of joined rows is exactly the joined listing, unless the rows that come
/// second start with a count of blocks.
pub proof fn law_listings_join_at_one_time(
    on: Platform,
    path: Seq<char>,
    xs: Seq<Seq<char>>,
    ys: Seq<Seq<char>>,
    now: int,
    a: Seq<FileView>,
    b: Seq<FileView>,
    r: Result<Seq<FileView>, ErrorView>,
)
    requires
        is_listing_at(on, path, xs, always(now, xs.len()), Ok(a)),
        is_listing_at(on, path, ys, always(now, ys.len()), Ok(b)),
        is_listing_at(on, path, xs + ys, always(now, (xs + ys).len()), r),
        ys.len() == 0 || !block_count(ys[0]),
    ensures
        r == Ok::<Seq<FileView>, ErrorView>(a + b),
{
    let s = always(now, xs.len());
    let t = always(now, ys.len());
    assert(always(now, (xs + ys).len()) == s + t);
    law_listings_join(on, path, xs, ys, s, t, a, b);
}

/// At whatever times they are read, joined rows that give a listing give the joined listing, dates
/// aside, unless the rows that come second start with a count of blocks.
pub proof fn law_listings_join_but_for_dates(
    on: Platform,
    path: Seq<char>,
    xs: Seq<Seq<char>>,
    ys: Seq<Seq<char>>,
    a: Seq<FileView>,
    b: Seq<FileView>,
    c: Seq<FileView>,
)
    requires
        is_listing(on, path, xs, Ok(a)),
        is_listing(on, path, ys, Ok(b)),
        is_listing(on, path, xs + ys, Ok(c)),
        ys.len() == 0 || !block_count(ys[0]),
    ensures
        is_listing(on, path, xs + ys, Ok(a + b)),
        c.map_values(|f: FileView| undated_file(f)) == (a + b).map_values(
            |f: FileView| undated_file(f),
        ),
{
    let s = witness(on, path, xs, Ok(a)).0;
    let t = witness(on, path, ys, Ok(b)).0;
    assert(is_listing_at(on, path, xs, s, Ok(a)));
    assert(is_listing_at(on, path, ys, t, Ok(b)));
    law_listings_join(on, path, xs, ys, s, t, a, b);
    law_listings_differ_in_dates_alone(on, path, xs + ys, Ok(c), Ok(a + b));
}

/// The first of joined rows add what they add by themselves.
proof fn lemma_listing_front(
    on: Platform,
    path: Seq<char>,
    xs: Seq<Seq<char>>,
    ys: Seq<Seq<char>>,
    x: Seq<Result<ListedView, ParseError>>,
    y: Seq<Result<ListedView, ParseError>>,
    n: int,
)
    requires
        n <= xs.len(),
        n <= x.len(),
    ensures
        listing_to(on, path, xs + ys, x + y, n) == listing_to(on, path, xs, x, n),
    decreases n,
{
    if n > 0 {
        lemma_listing_front(on, path, xs, ys, x, y, n - 1);
        assert((xs + ys)[n - 1] == xs[n - 1]);
        assert((x + y)[n - 1] == x[n - 1]);
    }
}

/// The second of joined rows add what they add by themselves.
proof fn lemma_listing_back(
    on: Platform,
    path: Seq<char>,
    xs: Seq<Seq<char>>,
    ys: Seq<Seq<char>>,
    x: Seq<Result<ListedView, ParseError>>,
    y: Seq<Result<ListedView, ParseError>>,
    a: Seq<FileView>,
    n: int,
)
    requires
        0 <= n <= ys.len(),
        x.len() == xs.len(),
        y.len() == ys.len(),
        ys.len() == 0 || !block_count(ys[0]),
        listing_to(on, path, xs + ys, x + y, xs.len() as int) == Ok::<Seq<FileView>, ErrorView>(a),
        listing_to(on, path, ys, y, n) is Ok,
    ensures
        listing_to(on, path, xs + ys, x + y, xs.len() + n) == Ok::<Seq<FileView>, ErrorView>(
            a + listing_to(on, path, ys, y, n)->Ok_0,
        ),
    decreases n,
{
    if n == 0 {
        assert(a + Seq::<FileView>::empty() == a);
    } else {
        lemma_listing_back(on, path, xs, ys, x, y, a, n - 1);
        let k = xs.len() + n - 1;
        let before = listing_to(on, path, ys, y, n - 1)->Ok_0;
        assert((xs + ys)[k] == ys[n - 1]);
        assert((x + y)[k] == y[n - 1]);
        let entry = row_entry(on, path, n - 1, ys[n - 1], y[n - 1]);
        assert(row_entry(on, path, k, ys[n - 1], y[n - 1]) == entry);
        if let Ok(Some(f)) = entry {
            assert(a + before.push(f) == (a + before).push(f));
        }
    }
}

/// Whatever fails a listing is a breach of the protocol.
pub proof fn law_bad_rows_breach_the_protocol(
    on: Platform,
    path: Seq<char>,
    lines: Seq<Seq<char>>,
    e: ErrorView,
)
    requires
        is_listing(on, path, lines, Err(e)),
    ensures
        e.kind == RemoteErrorType::ProtocolError,
{
    let r = Err::<Seq<FileView>, ErrorView>(e);
    let parsed = witness(on, path, lines, r).1;
    lemma_row_failures(on, path, lines, parsed, parsed.len() as int);
}

/// Whatever fails the first rows is a breach of the protocol.
proof fn lemma_row_failures(
    on: Platform,
    path: Seq<char>,
    lines: Seq<Seq<char>>,
    parsed: Seq<Result<ListedView, ParseError>>,
    n: int,
)
    ensures
        listing_to(on, path, lines, parsed, n) matches Err(e) ==> e.kind
            == RemoteErrorType::ProtocolError,
    decreases n,
{
    if n > 0 {
        lemma_row_failures(on, path, lines, parsed, n - 1);
    }
}

} // verus!
