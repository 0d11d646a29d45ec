//! Absolute FTP paths: their validation for the wire, and the POSIX operations on them.
use crate::error::{ErrorView, RemoteError, RemoteErrorType};
use crate::text::{ascii_control_char, chars_of, decode_utf8_bytes, is_ascii_control_char};
use vstd::prelude::*;
use vstd::utf8::*;

verus! {

/// The platform that a client runs on, whose separators and prefixes its paths may hold.
#[derive(Clone, Copy, Debug, PartialEq, Eq, Structural)]
pub enum Platform {
    /// A slash separates the components of a path.
    Posix,
    /// A backslash does so too, and a path may start with a drive.
    Windows,
}

/// Whether a byte separates the components of a UNC root.
pub open spec fn unc_separator(b: u8) -> bool {
    b == 0x2f || b == 0x5c
}

/// The index of the first separator at or after `from`, or the length where there is none.
pub open spec fn next_separator(b: Seq<u8>, from: int) -> int
    decreases b.len() - from,
{
    if from >= b.len() {
        b.len() as int
    } else if unc_separator(b[from]) {
        from
    } else {
        next_separator(b, from + 1)
    }
}

/// Whether a path starts with a drive letter, a colon and a separator.
pub open spec fn drive_root(b: Seq<u8>) -> bool {
    &&& b.len() >= 3
    &&& 0x41 <= b[0] <= 0x5a || 0x61 <= b[0] <= 0x7a
    &&& b[1] == 0x3a
    &&& unc_separator(b[2])
}

/// Whether a path starts with two backslashes, a server that is no device namespace (`?` or `.`),
/// and a share.
pub open spec fn unc_root(b: Seq<u8>) -> bool {
    let end = next_separator(b, 2);
    &&& b.len() >= 2
    &&& b[0] == 0x5c
    &&& b[1] == 0x5c
    &&& end > 2
    &&& !(end == 3 && (b[2] == 0x3f || b[2] == 0x2e))
    &&& end + 1 < b.len()
    &&& !unc_separator(b[end + 1])
}

/// Whether a path is absolute on any platform.
pub open spec fn absolute_root(b: Seq<u8>) -> bool {
    (b.len() > 0 && b[0] == 0x2f) || drive_root(b) || unc_root(b)
}

/// `p` without trailing separators and without trailing `.` components; a leading `/` stays.
pub open spec fn trim_path(p: Seq<char>) -> Seq<char>
    decreases p.len(),
{
    if p.len() > 1 && (p.last() == '/' || (p.last() == '.' && p[p.len() - 2] == '/')) {
        trim_path(p.drop_last())
    } else {
        p
    }
}

/// The index of the last `/`, or -1 where there is none.
pub open spec fn last_slash(p: Seq<char>) -> int
    decreases p.len(),
{
    if p.len() == 0 {
        -1
    } else if p.last() == '/' {
        p.len() - 1
    } else {
        last_slash(p.drop_last())
    }
}

/// The path that an absolute path stands in; none where it is the root.
pub open spec fn parent(p: Seq<char>) -> Option<Seq<char>> {
    let t = trim_path(p);
    if t.len() <= 1 {
        None
    } else {
        Some(trim_path(t.take(last_slash(t) + 1)))
    }
}

/// The last component of an absolute path; none where it is the root.
pub open spec fn last_name(p: Seq<char>) -> Option<Seq<char>> {
    let t = trim_path(p);
    if t.len() <= 1 {
        None
    } else {
        Some(t.skip(last_slash(t) + 1))
    }
}

/// The components of an absolute path, outermost first: repeated separators and `.` components
/// count for nothing.
pub open spec fn components(p: Seq<char>) -> Seq<Seq<char>>
    decreases p.len(),
    via components_decreases
{
    match parent(p) {
        None => Seq::empty(),
        Some(q) => components(q).push(last_name(p)->0),
    }
}

#[via_fn]
proof fn components_decreases(p: Seq<char>) {
    if parent(p) is Some {
        lemma_parent_is_shorter(p);
    }
}

/// Whether two absolute paths name the same place in the tree.
pub open spec fn same_path(a: Seq<char>, b: Seq<char>) -> bool {
    components(a) == components(b)
}

/// Whether an absolute path is the root.
pub open spec fn is_root_path(p: Seq<char>) -> bool {
    components(p).len() == 0
}

/// The component that goes up one level.
pub open spec fn dot_dot() -> Seq<char> {
    seq!['.', '.']
}

/// Whether a path can go over the wire: it has a single POSIX root, holds no ASCII control
/// character and nowhere goes up.
pub open spec fn wire_path(p: Seq<char>) -> bool {
    &&& p.len() > 0
    &&& p[0] == '/'
    &&& !(p.len() > 1 && p[1] == '/')
    &&& forall|i: int| 0 <= i < p.len() ==> !ascii_control_char(#[trigger] p[i])
    &&& !components(p).contains(dot_dot())
}

/// `name` below `base`; an absolute `name` stands for itself.
pub open spec fn join_path(base: Seq<char>, name: Seq<char>) -> Seq<char> {
    if name.len() > 0 && name[0] == '/' {
        name
    } else if base.len() == 0 || base.last() == '/' {
        base + name
    } else {
        base.push('/') + name
    }
}

/// The wire form of a path, or why it has none.
pub open spec fn wire_form(path: Seq<u8>) -> Result<Seq<char>, ErrorView> {
    if !absolute_root(path) {
        Err(ErrorView::message(RemoteErrorType::InvalidPath, "path must be absolute"@))
    } else if !valid_utf8(path) {
        Err(ErrorView::message(RemoteErrorType::InvalidPath, "FTP paths must contain valid UTF-8"@))
    } else if !wire_path(decode_utf8(path)) {
        Err(
            ErrorView::message(
                RemoteErrorType::InvalidPath,
                "FTP paths must use a POSIX absolute root"@,
            ),
        )
    } else {
        Ok(decode_utf8(path))
    }
}

/// A path with slashes in the place of its backslashes.
pub open spec fn slashes(p: Seq<char>) -> Seq<char> {
    p.map_values(
        |c: char|
            if c == '\\' {
                '/'
            } else {
                c
            },
    )
}

/// The wire form of a path on a platform, or why it has none. On Windows it has slashes in the place
/// of the path's backslashes.
pub open spec fn wire_form_on(on: Platform, path: Seq<u8>) -> Result<Seq<char>, ErrorView> {
    match on {
        Platform::Posix => wire_form(path),
        Platform::Windows => if !absolute_root(path) {
            Err(ErrorView::message(RemoteErrorType::InvalidPath, "path must be absolute"@))
        } else if !valid_utf8(path) {
            Err(
                ErrorView::message(
                    RemoteErrorType::InvalidPath,
                    "FTP paths must contain valid UTF-8"@,
                ),
            )
        } else if !wire_path(slashes(decode_utf8(path))) {
            Err(
                ErrorView::message(
                    RemoteErrorType::InvalidPath,
                    "FTP paths must use a single POSIX absolute root"@,
                ),
            )
        } else {
            Ok(slashes(decode_utf8(path)))
        },
    }
}

/// What trimming does: it cuts off an end, keeps the first character, and leaves nothing to trim.
pub(crate) proof fn lemma_trim_path(p: Seq<char>)
    ensures
        trim_path(p).len() <= p.len(),
        trim_path(p) == p.take(trim_path(p).len() as int),
        p.len() > 0 ==> trim_path(p).len() > 0 && trim_path(p)[0] == p[0],
        trim_path(trim_path(p)) == trim_path(p),
        trim_path(p).len() > 1 ==> trim_path(p).last() != '/',
        trim_path(p).len() > 1 && trim_path(p).last() == '.' ==> trim_path(p)[trim_path(p).len()
            - 2] != '/',
    decreases p.len(),
{
    if p.len() > 1 && (p.last() == '/' || (p.last() == '.' && p[p.len() - 2] == '/')) {
        lemma_trim_path(p.drop_last());
        let n = trim_path(p).len() as int;
        assert(p.drop_last().take(n) == p.take(n));
    } else {
        assert(p.take(p.len() as int) == p);
    }
}

/// What the last separator is: none comes after it.
pub(crate) proof fn lemma_last_slash(p: Seq<char>)
    ensures
        -1 <= last_slash(p) < p.len(),
        last_slash(p) >= 0 ==> p[last_slash(p)] == '/',
        forall|i: int| last_slash(p) < i < p.len() ==> #[trigger] p[i] != '/',
        p.len() > 0 && p[0] == '/' ==> last_slash(p) >= 0,
    decreases p.len(),
{
    if p.len() > 0 && p.last() != '/' {
        lemma_last_slash(p.drop_last());
        assert forall|i: int| last_slash(p) < i < p.len() implies #[trigger] p[i] != '/' by {
            if i < p.len() - 1 {
                assert(p.drop_last()[i] != '/');
            }
        }
    }
}

/// Cutting a trimmed path behind its last separator makes it shorter.
pub(crate) proof fn lemma_cut(p: Seq<char>)
    requires
        trim_path(p).len() > 1,
    ensures
        ({
            let t = trim_path(p);
            &&& 0 <= last_slash(t) + 1 < t.len()
            &&& parent(p) == Some(trim_path(t.take(last_slash(t) + 1)))
            &&& components(p) == components(t.take(last_slash(t) + 1)).push(
                t.skip(last_slash(t) + 1),
            )
        }),
{
    let t = trim_path(p);
    lemma_trim_path(p);
    lemma_last_slash(t);
    lemma_components_trim(t.take(last_slash(t) + 1));
}

/// What a path stands in is shorter than the path.
pub(crate) proof fn lemma_parent_is_shorter(p: Seq<char>)
    requires
        parent(p) is Some,
    ensures
        parent(p)->0.len() < p.len(),
{
    let t = trim_path(p);
    lemma_trim_path(p);
    lemma_last_slash(t);
    lemma_trim_path(t.take(last_slash(t) + 1));
}

/// Trimming keeps the components.
pub(crate) proof fn lemma_components_trim(p: Seq<char>)
    ensures
        components(trim_path(p)) == components(p),
{
    lemma_trim_path(p);
}

/// The length that is left of `p[..len]` after trimming.
fn trim_len(p: &Vec<char>, len: usize) -> (r: usize)
    requires
        len <= p@.len(),
    ensures
        r <= len,
        p@.take(r as int) == trim_path(p@.take(len as int)),
{
    let mut r: usize = len;
    while r > 1 && (p[r - 1] == '/' || (p[r - 1] == '.' && p[r - 2] == '/'))
        invariant
            r <= len <= p@.len(),
            trim_path(p@.take(r as int)) == trim_path(p@.take(len as int)),
        decreases r,
    {
        assert(p@.take(r as int).drop_last() == p@.take(r - 1));
        r = r - 1;
    }
    r
}

/// Where the last component of `p[..len]` starts: behind the last separator.
fn name_start(p: &Vec<char>, len: usize) -> (r: usize)
    requires
        len <= p@.len(),
    ensures
        r <= len,
        r == last_slash(p@.take(len as int)) + 1,
{
    let mut r: usize = len;
    while r > 0 && p[r - 1] != '/'
        invariant
            r <= len <= p@.len(),
            last_slash(p@.take(r as int)) == last_slash(p@.take(len as int)),
        decreases r,
    {
        assert(p@.take(r as int).drop_last() == p@.take(r - 1));
        r = r - 1;
    }
    r
}

/// The path that an absolute path stands in; none where it is the root.
pub fn parent_path(p: &str) -> (r: Option<String>)
    ensures
        match r {
            Some(q) => parent(p@) == Some(q@),
            None => parent(p@) is None,
        },
{
    let chars = chars_of(p);
    assert(p@.take(p@.len() as int) == p@);
    let t: usize = trim_len(&chars, chars.len());
    if t <= 1 {
        return None;
    }
    let cut: usize = name_start(&chars, t);
    let end: usize = trim_len(&chars, cut);
    assert(p@.take(t as int).take(cut as int) == p@.take(cut as int));
    let q = p.substring_char(0, end);
    assert(q@ == p@.take(end as int));
    Some(q.to_string())
}

/// The last component of an absolute path; none where it is the root.
pub fn file_name(p: &str) -> (r: Option<String>)
    ensures
        match r {
            Some(n) => last_name(p@) == Some(n@),
            None => last_name(p@) is None,
        },
{
    let chars = chars_of(p);
    assert(p@.take(p@.len() as int) == p@);
    let t: usize = trim_len(&chars, chars.len());
    if t <= 1 {
        return None;
    }
    let cut: usize = name_start(&chars, t);
    let name = p.substring_char(cut, t);
    assert(name@ == p@.take(t as int).skip(cut as int));
    Some(name.to_string())
}

/// Returns whether an absolute path is the root.
pub fn is_root(p: &str) -> (r: bool)
    ensures
        r == is_root_path(p@),
{
    let chars = chars_of(p);
    assert(p@.take(p@.len() as int) == p@);
    let t: usize = trim_len(&chars, chars.len());
    t <= 1
}

/// Returns whether two absolute paths name the same place in the tree.
pub fn is_same_path(a: &str, b: &str) -> (r: bool)
    ensures
        r == same_path(a@, b@),
{
    let p = chars_of(a);
    let q = chars_of(b);
    let mut m: usize = p.len();
    let mut n: usize = q.len();
    assert(p@.take(m as int) == a@);
    assert(q@.take(n as int) == b@);
    loop
        invariant
            p@ == a@,
            q@ == b@,
            m <= p@.len(),
            n <= q@.len(),
            same_path(a@, b@) == same_path(p@.take(m as int), q@.take(n as int)),
        decreases m,
    {
        let s: usize = trim_len(&p, m);
        let t: usize = trim_len(&q, n);
        proof {
            lemma_trim_path(p@.take(m as int));
            lemma_trim_path(q@.take(n as int));
        }
        if s <= 1 || t <= 1 {
            proof {
                if s > 1 {
                    lemma_cut(p@.take(m as int));
                }
                if t > 1 {
                    lemma_cut(q@.take(n as int));
                }
                assert((components(p@.take(m as int)).len() == 0) == (s <= 1));
                assert((components(q@.take(n as int)).len() == 0) == (t <= 1));
                assert(s <= 1 && t <= 1 ==> components(p@.take(m as int)) == components(
                    q@.take(n as int),
                ));
            }
            return s <= 1 && t <= 1;
        }
        let i: usize = name_start(&p, s);
        let j: usize = name_start(&q, t);
        let ghost x = components(p@.take(i as int));
        let ghost y = components(q@.take(j as int));
        let ghost u = p@.subrange(i as int, s as int);
        let ghost v = q@.subrange(j as int, t as int);
        proof {
            lemma_cut(p@.take(m as int));
            lemma_cut(q@.take(n as int));
            assert(p@.take(s as int).take(i as int) == p@.take(i as int));
            assert(q@.take(t as int).take(j as int) == q@.take(j as int));
            assert(p@.take(s as int).skip(i as int) == u);
            assert(q@.take(t as int).skip(j as int) == v);
            assert(x.push(u).drop_last() == x);
            assert(y.push(v).drop_last() == y);
            assert(x.push(u).last() == u);
            assert(y.push(v).last() == v);
            assert((x.push(u) == y.push(v)) == (x == y && u == v));
        }
        let equal = same_range(&p, i, s, &q, j, t);
        if !equal {
            return false;
        }
        m = i;
        n = j;
    }
}

/// Returns whether two ranges of characters are the same.
fn same_range(p: &Vec<char>, from: usize, to: usize, q: &Vec<char>, start: usize, end: usize) -> (r:
    bool)
    requires
        from <= to <= p@.len(),
        start <= end <= q@.len(),
    ensures
        r == (p@.subrange(from as int, to as int) == q@.subrange(start as int, end as int)),
{
    let ghost u = p@.subrange(from as int, to as int);
    let ghost v = q@.subrange(start as int, end as int);
    if to - from != end - start {
        assert(u.len() != v.len());
        return false;
    }
    let mut k: usize = 0;
    while k < to - from
        invariant
            from <= to <= p@.len(),
            start <= end <= q@.len(),
            to - from == end - start,
            k <= to - from,
            forall|i: int| from <= i < from + k ==> #[trigger] p@[i] == q@[i - from + start],
        decreases to - from - k,
    {
        if p[from + k] != q[start + k] {
            assert(p@.subrange(from as int, to as int)[k as int] != q@.subrange(
                start as int,
                end as int,
            )[k as int]);
            return false;
        }
        k = k + 1;
    }
    assert forall|i: int| 0 <= i < u.len() implies u[i] == v[i] by {
        assert(p@[from + i] == q@[from + i - from + start]);
    }
    assert(u == v);
    true
}

/// Returns whether some component of an absolute path goes up.
fn goes_up(p: &Vec<char>) -> (r: bool)
    ensures
        r == components(p@).contains(dot_dot()),
{
    let mut m: usize = p.len();
    assert(p@.take(m as int) == p@);
    loop
        invariant
            m <= p@.len(),
            components(p@).contains(dot_dot()) == components(p@.take(m as int)).contains(dot_dot()),
        decreases m,
    {
        let s: usize = trim_len(p, m);
        proof {
            lemma_trim_path(p@.take(m as int));
        }
        if s <= 1 {
            return false;
        }
        let i: usize = name_start(p, s);
        let ghost x = components(p@.take(i as int));
        let ghost u = p@.subrange(i as int, s as int);
        proof {
            lemma_cut(p@.take(m as int));
            assert(p@.take(s as int).take(i as int) == p@.take(i as int));
            assert(p@.take(s as int).skip(i as int) == u);
            assert(x.push(u)[x.len() as int] == u);
            assert(forall|k: int| 0 <= k < x.len() ==> x.push(u)[k] == x[k]);
            if x.contains(dot_dot()) {
                let k = choose|k: int| 0 <= k < x.len() && x[k] == dot_dot();
                assert(x.push(u)[k] == dot_dot());
            }
        }
        if s - i == 2 && p[i] == '.' && p[i + 1] == '.' {
            assert(u == dot_dot());
            return true;
        }
        assert(u != dot_dot()) by {
            if u == dot_dot() {
                assert(u.len() == 2);
                assert(u[0] == '.');
                assert(u[1] == '.');
            }
        }
        m = i;
    }
}

/// Verifies that a path is absolute on some platform.
///
/// The rule is that of `remotefs::path::ensure_absolute`. It is stated over bytes, since a path need
/// not be text.
pub fn ensure_absolute(path: &[u8]) -> (r: Result<(), RemoteError>)
    ensures
        match r {
            Ok(_) => absolute_root(path@),
            Err(e) => !absolute_root(path@) && e@ == ErrorView::message(
                RemoteErrorType::InvalidPath,
                "path must be absolute"@,
            ),
        },
{
    let n: usize = path.len();
    let posix = n > 0 && path[0] == 0x2f;
    let drive = n >= 3 && ((0x41 <= path[0] && path[0] <= 0x5a) || (0x61 <= path[0] && path[0]
        <= 0x7a)) && path[1] == 0x3a && (path[2] == 0x2f || path[2] == 0x5c);
    let mut unc: bool = false;
    if n >= 2 && path[0] == 0x5c && path[1] == 0x5c {
        let mut end: usize = 2;
        while end < n && path[end] != 0x2f && path[end] != 0x5c
            invariant
                2 <= end <= n,
                n == path@.len(),
                next_separator(path@, end as int) == next_separator(path@, 2),
            decreases n - end,
        {
            end = end + 1;
        }
        unc = end > 2 && !(end == 3 && (path[2] == 0x3f || path[2] == 0x2e)) && end < n - 1
            && path[end + 1] != 0x2f && path[end + 1] != 0x5c;
    }
    if posix || drive || unc {
        Ok(())
    } else {
        Err(RemoteError::with_message(RemoteErrorType::InvalidPath, "path must be absolute"))
    }
}

/// Validates that `path` is an encodable absolute FTP path and renders it for the wire.
pub fn remote_path(path: &[u8]) -> (r: Result<String, RemoteError>)
    ensures
        match r {
            Ok(p) => wire_form(path@) == Ok::<Seq<char>, ErrorView>(p@),
            Err(e) => wire_form(path@) == Err::<Seq<char>, ErrorView>(e@),
        },
{
    match ensure_absolute(path) {
        Ok(_) => {},
        Err(e) => {
            return Err(e);
        },
    }
    match decode_utf8_bytes(path) {
        None => Err(
            RemoteError::with_message(
                RemoteErrorType::InvalidPath,
                "FTP paths must contain valid UTF-8",
            ),
        ),
        Some(text) => {
            if !is_wire_path(text.as_str()) {
                return Err(
                    RemoteError::with_message(
                        RemoteErrorType::InvalidPath,
                        "FTP paths must use a POSIX absolute root",
                    ),
                );
            }
            Ok(text)
        },
    }
}

/// Returns a path with slashes in the place of its backslashes: the form in which a Windows path goes
/// over the wire.
pub fn slashed(path: &str) -> (r: String)
    ensures
        r@ == slashes(path@),
{
    let chars = chars_of(path);
    let len: usize = chars.len();
    let ghost wanted = slashes(path@);
    let mut r: String = String::new();
    let mut from: usize = 0;
    let mut i: usize = 0;
    assert(wanted.take(0) == Seq::<char>::empty());
    while i < len
        invariant
            chars@ == path@,
            len == chars@.len(),
            wanted == slashes(path@),
            from <= i <= len,
            r@ == wanted.take(from as int),
            forall|k: int| from <= k < i ==> #[trigger] chars@[k] != '\\',
        decreases len - i,
    {
        if chars[i] == '\\' {
            proof {
                reveal_strlit("/");
            }
            r = r.concat(path.substring_char(from, i)).concat("/");
            assert(r@ == wanted.take(i + 1));
            from = i + 1;
        }
        i = i + 1;
    }
    let r = r.concat(path.substring_char(from, len));
    assert(r@ == wanted);
    r
}

/// Validates that `path` is an encodable absolute FTP path on a platform and renders it for the wire.
pub fn remote_path_on(on: Platform, path: &[u8]) -> (r: Result<String, RemoteError>)
    ensures
        match r {
            Ok(p) => wire_form_on(on, path@) == Ok::<Seq<char>, ErrorView>(p@),
            Err(e) => wire_form_on(on, path@) == Err::<Seq<char>, ErrorView>(e@),
        },
{
    match on {
        Platform::Posix => {
            return remote_path(path);
        },
        Platform::Windows => {},
    }
    match ensure_absolute(path) {
        Ok(_) => {},
        Err(e) => {
            return Err(e);
        },
    }
    match decode_utf8_bytes(path) {
        None => Err(
            RemoteError::with_message(
                RemoteErrorType::InvalidPath,
                "FTP paths must contain valid UTF-8",
            ),
        ),
        Some(text) => {
            let wire = slashed(text.as_str());
            if !is_wire_path(wire.as_str()) {
                return Err(
                    RemoteError::with_message(
                        RemoteErrorType::InvalidPath,
                        "FTP paths must use a single POSIX absolute root",
                    ),
                );
            }
            Ok(wire)
        },
    }
}

/// Returns whether a path can go over the wire.
fn is_wire_path(path: &str) -> (r: bool)
    ensures
        r == wire_path(path@),
{
    let chars = chars_of(path);
    let rooted = chars.len() > 0 && chars[0] == '/' && !(chars.len() > 1 && chars[1] == '/');
    rooted && !has_control(&chars) && !goes_up(&chars)
}

/// Returns whether some character is an ASCII control character.
pub(crate) fn has_control(p: &Vec<char>) -> (r: bool)
    ensures
        r == exists|i: int| 0 <= i < p@.len() && ascii_control_char(#[trigger] p@[i]),
{
    let mut i: usize = 0;
    while i < p.len()
        invariant
            i <= p@.len(),
            forall|k: int| 0 <= k < i ==> !ascii_control_char(#[trigger] p@[k]),
        decreases p@.len() - i,
    {
        if is_ascii_control_char(p[i]) {
            return true;
        }
        i = i + 1;
    }
    false
}

/// Returns a path unchanged: FTP paths and the paths of POSIX platforms are written alike. Those of
/// Windows are resolved by [`slashed`].
pub fn resolve(p: &str) -> (r: String)
    ensures
        r@ == p@,
{
    p.to_string()
}

/// Places `name` below `base`; an absolute `name` stands for itself.
pub fn join(base: &str, name: &str) -> (r: String)
    ensures
        r@ == join_path(base@, name@),
{
    let b = chars_of(base);
    let n = chars_of(name);
    if n.len() > 0 && n[0] == '/' {
        name.to_string()
    } else if b.len() == 0 || b[b.len() - 1] == '/' {
        base.to_string().concat(name)
    } else {
        proof {
            reveal_strlit("/");
        }
        let r = base.to_string().concat("/").concat(name);
        assert(r@ == base@.push('/') + name@);
        r
    }
}

/// Whether a name can stand for a direct child of a directory.
pub open spec fn child_name(name: Seq<char>) -> bool {
    &&& name.len() > 0
    &&& name != seq!['.']
    &&& name != dot_dot()
    &&& forall|i: int| 0 <= i < name.len() ==> #[trigger] name[i] != '/'
    &&& forall|i: int| 0 <= i < name.len() ==> !ascii_control_char(#[trigger] name[i])
}

/// Whether a name starts with a drive letter and a colon.
pub open spec fn drive_prefix(name: Seq<char>) -> bool {
    &&& name.len() >= 2
    &&& 'A' <= name[0] <= 'Z' || 'a' <= name[0] <= 'z'
    &&& name[1] == ':'
}

/// Whether a name can stand for a direct child of a directory on a platform. On Windows a backslash
/// would separate components, and a drive would lead out of the directory.
pub open spec fn child_name_on(on: Platform, name: Seq<char>) -> bool {
    child_name(name) && match on {
        Platform::Posix => true,
        Platform::Windows => !name.contains('\\') && !drive_prefix(name),
    }
}

/// The directory that a valid path stands in is a valid path, with one component less.
pub proof fn law_parent_is_a_wire_path(p: Seq<char>)
    requires
        wire_path(p),
        parent(p) is Some,
    ensures
        wire_path(parent(p)->0),
        components(parent(p)->0) == components(p).drop_last(),
        components(p).last() == last_name(p)->0,
{
    let t = trim_path(p);
    let cut = t.take(last_slash(t) + 1);
    let q = parent(p)->0;
    lemma_trim_path(p);
    lemma_cut(p);
    lemma_last_slash(t);
    lemma_trim_path(cut);
    assert(t.len() > 0 && t[0] == '/');
    assert(cut[0] == '/');
    assert(components(p) == components(q).push(last_name(p)->0));
    assert(components(p).drop_last() == components(q));
    assert forall|i: int| 0 <= i < q.len() implies !ascii_control_char(#[trigger] q[i]) by {
        assert(q[i] == p[i]);
    }
    assert(q.len() > 1 ==> q[1] == p[1]);
    if components(q).contains(dot_dot()) {
        let k = choose|k: int| 0 <= k < components(q).len() && components(q)[k] == dot_dot();
        assert(components(p)[k] == dot_dot());
    }
}

/// A child joined to a directory stays directly below it: the result is a valid path, its last
/// component is the name, and what it stands in is the directory.
pub proof fn law_child_stays_in_its_directory(dir: Seq<char>, name: Seq<char>)
    requires
        wire_path(dir),
        child_name(name),
    ensures
        wire_path(join_path(dir, name)),
        components(join_path(dir, name)) == components(dir).push(name),
        last_name(join_path(dir, name)) == Some(name),
        parent(join_path(dir, name)) is Some,
        same_path(parent(join_path(dir, name))->0, dir),
{
    let p = join_path(dir, name);
    let base = if dir.last() == '/' {
        dir
    } else {
        dir.push('/')
    };
    let n = base.len() as int;
    assert(p == base + name);
    assert(p.last() == name.last());
    if p.last() == '.' && p[p.len() - 2] == '/' {
        if name.len() > 1 {
            assert(p[p.len() - 2] == name[name.len() - 2]);
        }
        assert(name == seq!['.']);
    }
    assert(trim_path(p) == p);
    lemma_last_slash(p);
    assert(last_slash(p) == n - 1) by {
        assert(p[n - 1] == '/');
        if last_slash(p) > n - 1 {
            assert(p[last_slash(p)] == name[last_slash(p) - n]);
        }
    }
    assert(p.take(n) == base);
    assert(p.skip(n) == name);
    lemma_cut(p);
    lemma_components_trim(dir);
    lemma_components_trim(base);
    assert(trim_path(base) == trim_path(dir)) by {
        if dir.last() != '/' {
            assert(base.drop_last() == dir);
        }
    }
    assert(components(p) == components(dir).push(name));
    assert forall|i: int| 0 <= i < p.len() implies !ascii_control_char(#[trigger] p[i]) by {
        if i < dir.len() {
            assert(p[i] == dir[i]);
        } else if i >= n {
            assert(p[i] == name[i - n]);
        }
    }
    if components(p).contains(dot_dot()) {
        let k = choose|k: int| 0 <= k < components(p).len() && components(p)[k] == dot_dot();
        if k < components(dir).len() {
            assert(components(dir)[k] == dot_dot());
        }
    }
    assert(p[0] == dir[0]);
    assert(p.len() > 1);
    assert(p[1] != '/') by {
        if dir.len() > 1 {
            assert(p[1] == dir[1]);
        } else {
            assert(p[1] == name[0]);
        }
    }
}

/// What goes over the wire is the path itself, byte for byte, and none of its bytes is a control
/// byte, so it can neither end a command line nor start another.
pub proof fn law_wire_form_is_the_path(path: Seq<u8>)
    requires
        wire_form(path) is Ok,
    ensures
        encode_utf8(wire_form(path)->Ok_0) == path,
        wire_path(wire_form(path)->Ok_0),
        forall|i: int| 0 <= i < path.len() ==> !crate::text::ascii_control(#[trigger] path[i]),
{
    let p = wire_form(path)->Ok_0;
    decode_utf8_encode_utf8(path);
    assert forall|i: int| 0 <= i < path.len() implies !crate::text::ascii_control(
        #[trigger] path[i],
    ) by {
        if path[i] < 0x80 {
            crate::text::lemma_ascii_byte(p, i);
            let k = choose|k: int| 0 <= k < p.len() && #[trigger] p[k] as u32 == path[i];
            crate::text::lemma_char_code(p[k]);
            assert(!ascii_control_char(p[k]));
        }
    }
}

/// Exactly the UTF-8 paths with a single POSIX root, without control characters and without `..` are
/// accepted. Windows drive and UNC paths are none of them.
pub proof fn law_only_posix_paths_are_accepted(path: Seq<u8>)
    ensures
        wire_form(path) is Ok <==> valid_utf8(path) && wire_path(decode_utf8(path)),
        drive_root(path) || unc_root(path) ==> wire_form(path) is Err,
        wire_form(path) is Err ==> wire_form(path)->Err_0.kind == RemoteErrorType::InvalidPath,
{
    if valid_utf8(path) && wire_path(decode_utf8(path)) {
        let p = decode_utf8(path);
        decode_utf8_encode_utf8(path);
        assert(encode_utf8(p) == encode_scalar(p[0] as u32) + encode_utf8(p.drop_first()));
        assert((0x2fu32 & 0x7F) as u8 == 0x2f) by (bit_vector);
        crate::text::lemma_char_code(p[0]);
        assert(path[0] == 0x2f);
    }
}

/// What goes over the wire on a platform is accepted as it is by everything that takes a path: once
/// rendered, a path is a valid path on every platform, and rendering it again changes nothing.
pub proof fn law_rendered_paths_are_valid(on: Platform, again: Platform, path: Seq<u8>)
    requires
        wire_form_on(on, path) is Ok,
    ensures
        wire_path(wire_form_on(on, path)->Ok_0),
        wire_form(encode_utf8(wire_form_on(on, path)->Ok_0)) == wire_form_on(on, path),
        on is Windows ==> wire_form_on(again, encode_utf8(wire_form_on(on, path)->Ok_0))
            == wire_form_on(on, path),
{
    let p = wire_form_on(on, path)->Ok_0;
    encode_utf8_valid_utf8(p);
    encode_utf8_decode_utf8(p);
    law_only_posix_paths_are_accepted(encode_utf8(p));
    if on is Windows {
        let q = decode_utf8(path);
        assert(slashes(p) == p) by {
            assert(p == slashes(q));
        }
    }
}

} // verus!
