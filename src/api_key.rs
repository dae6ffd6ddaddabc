//! The API-key check on the management endpoints: the `Authorization`
//! header must carry the configured key, bare or as a bearer token.

use vstd::prelude::*;
use vstd::string::*;
use crate::text::{has_prefix, is_white_space, is_white_space_char, same_text, starts_with_text};

verus! {

/// The text without its leading white space.
pub open spec fn trim_start(s: Seq<char>) -> Seq<char>
    decreases s.len(),
{
    if s.len() > 0 && is_white_space(s[0]) {
        trim_start(s.drop_first())
    } else {
        s
    }
}

/// The text without its trailing white space.
pub open spec fn trim_end(s: Seq<char>) -> Seq<char>
    decreases s.len(),
{
    if s.len() > 0 && is_white_space(s.last()) {
        trim_end(s.drop_last())
    } else {
        s
    }
}

/// The text without leading and trailing white space, as `str::trim` gives it.
pub open spec fn trim(s: Seq<char>) -> Seq<char> {
    trim_end(trim_start(s))
}

/// How many characters the text starts with before its first white space.
pub open spec fn word_len(s: Seq<char>) -> nat
    decreases s.len(),
{
    if s.len() > 0 && !is_white_space(s[0]) {
        1 + word_len(s.drop_first())
    } else {
        0
    }
}

/// The first white-space separated word, empty when there is none.
pub open spec fn first_word(s: Seq<char>) -> Seq<char> {
    trim_start(s).take(word_len(trim_start(s)) as int)
}

/// What follows the first word.
pub open spec fn after_first_word(s: Seq<char>) -> Seq<char> {
    trim_start(s).skip(word_len(trim_start(s)) as int)
}

/// The second white-space separated word, empty when there is none.
pub open spec fn second_word(s: Seq<char>) -> Seq<char> {
    first_word(after_first_word(s))
}

pub open spec fn is_ascii_upper(c: char) -> bool {
    'A' <= c && c <= 'Z'
}

/// Equality of characters up to ASCII case.
pub open spec fn eq_ignore_ascii_case_char(a: char, b: char) -> bool {
    a == b || (is_ascii_upper(a) && a as u32 + 32 == b as u32) || (is_ascii_upper(b) && b as u32 + 32
        == a as u32)
}

/// Equality of texts up to ASCII case, as `str::eq_ignore_ascii_case` decides it.
pub open spec fn eq_ignore_ascii_case(a: Seq<char>, b: Seq<char>) -> bool {
    a.len() == b.len() && forall|i: int| 0 <= i < a.len() ==> eq_ignore_ascii_case_char(#[trigger] a[i], b[i])
}

/// Whether an `Authorization` header value carries `expected_key`: the key
/// itself, `Bearer <key>` or `bearer <key>` (the key trimmed), or two words of
/// which the first is `bearer` in any ASCII case and the second is the key.
pub open spec fn authorizes(header: Seq<char>, expected_key: Seq<char>) -> bool {
    if header == expected_key {
        true
    } else if has_prefix(header, "Bearer "@) || has_prefix(header, "bearer "@) {
        trim(header.skip(7)) == expected_key
    } else if first_word(header).len() > 0 && second_word(header).len() > 0 {
        eq_ignore_ascii_case(first_word(header), "bearer"@) && second_word(header) == expected_key
    } else {
        false
    }
}

/// Where white space that starts at `from` ends.
fn skip_white_space(s: &str, from: usize) -> (i: usize)
    requires
        from <= s@.len(),
    ensures
        from <= i <= s@.len(),
        s@.subrange(i as int, s@.len() as int) == trim_start(s@.subrange(from as int, s@.len() as int)),
{
    let n: usize = s.unicode_len();
    let mut i: usize = from;
    while i < n && is_white_space_char(s.get_char(i))
        invariant
            n == s@.len(),
            from <= i <= n,
            trim_start(s@.subrange(i as int, n as int)) == trim_start(s@.subrange(from as int, n as int)),
        decreases n - i,
    {
        assert(s@.subrange(i as int, n as int).drop_first() =~= s@.subrange(i + 1, n as int));
        i += 1;
    }
    i
}

/// Where the word that starts at `from` ends.
fn skip_word(s: &str, from: usize) -> (j: usize)
    requires
        from <= s@.len(),
    ensures
        from <= j <= s@.len(),
        word_len(s@.subrange(from as int, s@.len() as int)) == j - from,
{
    let n: usize = s.unicode_len();
    let mut j: usize = from;
    while j < n && !is_white_space_char(s.get_char(j))
        invariant
            n == s@.len(),
            from <= j <= n,
            word_len(s@.subrange(from as int, n as int)) == (j - from) + word_len(s@.subrange(j as int, n as int)),
        decreases n - j,
    {
        assert(s@.subrange(j as int, n as int).drop_first() =~= s@.subrange(j + 1, n as int));
        j += 1;
    }
    j
}

/// Where the text that starts at `from` ends once trailing white space is cut.
fn end_before_white_space(s: &str, from: usize) -> (e: usize)
    requires
        from <= s@.len(),
    ensures
        from <= e <= s@.len(),
        s@.subrange(from as int, e as int) == trim_end(s@.subrange(from as int, s@.len() as int)),
{
    let n: usize = s.unicode_len();
    let mut e: usize = n;
    while e > from && is_white_space_char(s.get_char(e - 1))
        invariant
            n == s@.len(),
            from <= e <= n,
            trim_end(s@.subrange(from as int, e as int)) == trim_end(s@.subrange(from as int, n as int)),
        decreases e - from,
    {
        assert(s@.subrange(from as int, e as int).drop_last() =~= s@.subrange(from as int, e - 1));
        e -= 1;
    }
    e
}

/// `s` with leading and trailing white space removed.
pub fn trim_text<'a>(s: &'a str) -> (r: &'a str)
    ensures
        r@ == trim(s@),
{
    let n: usize = s.unicode_len();
    let a = skip_white_space(s, 0);
    let e = end_before_white_space(s, a);
    assert(s@.subrange(0, n as int) =~= s@);
    s.substring_char(a, e)
}

pub fn eq_ignore_ascii_case_text(a: &str, b: &str) -> (r: bool)
    ensures
        r == eq_ignore_ascii_case(a@, b@),
{
    let n: usize = a.unicode_len();
    if n != b.unicode_len() {
        return false;
    }
    let mut i: usize = 0;
    while i < n
        invariant
            n == a@.len(),
            n == b@.len(),
            i <= n,
            forall|j: int| 0 <= j < i ==> eq_ignore_ascii_case_char(#[trigger] a@[j], b@[j]),
        decreases n - i,
    {
        let x: char = a.get_char(i);
        let y: char = b.get_char(i);
        let same = x == y || ('A' <= x && x <= 'Z' && (x as u32) + 32 == (y as u32)) || ('A' <= y && y
            <= 'Z' && (y as u32) + 32 == (x as u32));
        if !same {
            return false;
        }
        i += 1;
    }
    true
}

/// Whether an `Authorization` header value carries `expected_key`.
pub fn is_authorized(header_value: &str, expected_key: &str) -> (r: bool)
    ensures
        r == authorizes(header_value@, expected_key@),
{
    let h = header_value;
    if same_text(h, expected_key) {
        return true;
    }
    let n: usize = h.unicode_len();
    if starts_with_text(h, "Bearer ") || starts_with_text(h, "bearer ") {
        proof {
            reveal_strlit("Bearer ");
            reveal_strlit("bearer ");
        }
        let token = h.substring_char(7, n);
        assert(token@ =~= h@.skip(7));
        return same_text(trim_text(token), expected_key);
    }
    let a = skip_white_space(h, 0);
    let b = skip_word(h, a);
    let c = skip_white_space(h, b);
    let d = skip_word(h, c);
    proof {
        assert(h@.subrange(0, n as int) =~= h@);
        assert(first_word(h@) =~= h@.subrange(a as int, b as int));
        assert(after_first_word(h@) =~= h@.subrange(b as int, n as int));
        assert(second_word(h@) =~= h@.subrange(c as int, d as int));
    }
    if b == a || d == c {
        return false;
    }
    let scheme = h.substring_char(a, b);
    let token = h.substring_char(c, d);
    eq_ignore_ascii_case_text(scheme, "bearer") && same_text(token, expected_key)
}

/// The decision on a request: a key must be configured, and the trimmed
/// `Authorization` header (empty when absent) must carry it.
pub fn request_authorized(header: Option<&str>, expected_key: &str) -> (r: bool)
    ensures
        r == (expected_key@.len() > 0 && authorizes(
            match header {
                Some(h) => trim(h@),
                None => Seq::empty(),
            },
            expected_key@,
        )),
{
    if expected_key.unicode_len() == 0 {
        return false;
    }
    match header {
        Some(h) => {
            let t = trim_text(h);
            is_authorized(t, expected_key)
        },
        None => {
            let empty = "";
            proof {
                reveal_strlit("");
            }
            assert(empty@ =~= Seq::<char>::empty());
            is_authorized(empty, expected_key)
        },
    }
}

} // verus!
