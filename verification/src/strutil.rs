//! Shared string helpers: equality, prefix/suffix tests, splitting and
//! substring search over `&str`, each specified against the `Seq<char>` view.

use vstd::prelude::*;
use vstd::string::*;

verus! {

/// True when `hay` starts with `pre`.
pub open spec fn spec_starts_with(hay: Seq<char>, pre: Seq<char>) -> bool {
    pre.len() <= hay.len() && hay.subrange(0, pre.len() as int) == pre
}

/// True when `hay` ends with `suf`.
pub open spec fn spec_ends_with(hay: Seq<char>, suf: Seq<char>) -> bool {
    suf.len() <= hay.len() && hay.subrange(hay.len() - suf.len(), hay.len() as int) == suf
}

/// True when `needle` occurs in `hay` at some offset.
pub open spec fn spec_contains(hay: Seq<char>, needle: Seq<char>) -> bool {
    exists|i: int|
        0 <= i && i + needle.len() <= hay.len() && #[trigger] hay.subrange(i, i + needle.len())
            == needle
}

pub fn str_eq(a: &str, b: &str) -> (r: bool)
    ensures
        r == (a@ == b@),
{
    let alen = a.unicode_len();
    let blen = b.unicode_len();
    if alen != blen {
        assert(a@ != b@);
        return false;
    }
    let mut i: usize = 0;
    while i < alen
        invariant
            i <= alen,
            alen == a@.len(),
            alen == b@.len(),
            forall|j: int| 0 <= j < i ==> a@[j] == b@[j],
        decreases alen - i,
    {
        if a.get_char(i) != b.get_char(i) {
            return false;
        }
        i = i + 1;
    }
    assert(a@ =~= b@);
    true
}

pub fn starts_with(hay: &str, pre: &str) -> (r: bool)
    ensures
        r == spec_starts_with(hay@, pre@),
{
    let plen = pre.unicode_len();
    let hlen = hay.unicode_len();
    if plen > hlen {
        return false;
    }
    let head = hay.substring_char(0, plen);
    str_eq(head, pre)
}

pub fn ends_with(hay: &str, suf: &str) -> (r: bool)
    ensures
        r == spec_ends_with(hay@, suf@),
{
    let slen = suf.unicode_len();
    let hlen = hay.unicode_len();
    if slen > hlen {
        return false;
    }
    let tail = hay.substring_char(hlen - slen, hlen);
    str_eq(tail, suf)
}

/// Whether `needle` occurs in `hay` anywhere.
pub fn contains_str(hay: &str, needle: &str) -> (r: bool)
    ensures
        r == spec_contains(hay@, needle@),
{
    let nlen = needle.unicode_len();
    let hlen = hay.unicode_len();
    if nlen > hlen {
        return false;
    }
    if nlen == 0 {
        assert(hay@.subrange(0, 0 + needle@.len() as int) =~= needle@);
        return true;
    }
    let mut i: usize = 0;
    while i <= hlen - nlen
        invariant
            1 <= nlen <= hlen,
            nlen == needle@.len(),
            hlen == hay@.len(),
            i <= hlen - nlen + 1,
            forall|k: int|
                0 <= k < i ==> #[trigger] hay@.subrange(k, k + needle@.len()) != needle@,
        decreases hlen - i,
    {
        let window = hay.substring_char(i, i + nlen);
        if str_eq(window, needle) {
            return true;
        }
        i = i + 1;
    }
    false
}

/// Index of the first occurrence of `sep` in `s`, or -1.
pub open spec fn spec_find(s: Seq<char>, sep: char) -> int
    decreases s.len(),
{
    if s.len() == 0 {
        -1
    } else if s[0] == sep {
        0
    } else {
        let r = spec_find(s.drop_first(), sep);
        if r < 0 {
            -1
        } else {
            r + 1
        }
    }
}

pub proof fn lemma_find_none(s: Seq<char>, sep: char)
    requires
        forall|k: int| 0 <= k < s.len() ==> s[k] != sep,
    ensures
        spec_find(s, sep) == -1,
    decreases s.len(),
{
    if s.len() > 0 {
        lemma_find_none(s.drop_first(), sep);
    }
}

pub proof fn lemma_find_at(s: Seq<char>, sep: char, i: int)
    requires
        0 <= i < s.len(),
        s[i] == sep,
        forall|k: int| 0 <= k < i ==> s[k] != sep,
    ensures
        spec_find(s, sep) == i,
    decreases i,
{
    if i > 0 {
        lemma_find_at(s.drop_first(), sep, i - 1);
    }
}

/// The pieces of `s` between occurrences of `sep`, as `str::split` yields
/// them: an empty input gives one empty piece, and separators at the edges
/// give empty pieces.
pub open spec fn spec_split(s: Seq<char>, sep: char) -> Seq<Seq<char>>
    decreases s.len(),
{
    let i = spec_find(s, sep);
    if i < 0 || i >= s.len() {
        seq![s]
    } else {
        seq![s.subrange(0, i)] + spec_split(s.subrange(i + 1, s.len() as int), sep)
    }
}

pub proof fn lemma_split_at(s: Seq<char>, sep: char, i: int)
    requires
        0 <= i < s.len(),
        s[i] == sep,
        forall|k: int| 0 <= k < i ==> s[k] != sep,
    ensures
        spec_split(s, sep) == seq![s.subrange(0, i)] + spec_split(
            s.subrange(i + 1, s.len() as int),
            sep,
        ),
{
    lemma_find_at(s, sep, i);
}

pub proof fn lemma_split_whole(s: Seq<char>, sep: char)
    requires
        forall|k: int| 0 <= k < s.len() ==> s[k] != sep,
    ensures
        spec_split(s, sep) == seq![s],
{
    lemma_find_none(s, sep);
}

pub proof fn lemma_split_len(s: Seq<char>, sep: char)
    ensures
        spec_split(s, sep).len() >= 1,
    decreases s.len(),
{
    let i = spec_find(s, sep);
    if !(i < 0 || i >= s.len()) {
        lemma_split_len(s.subrange(i + 1, s.len() as int), sep);
    }
}

/// Split on every occurrence of `sep`, as `str::split` does.
pub fn split_char(s: &str, sep: char) -> (parts: Vec<String>)
    ensures
        parts.deep_view() == spec_split(s@, sep),
{
    let len = s.unicode_len();
    let mut parts: Vec<String> = Vec::new();
    let mut start: usize = 0;
    let mut j: usize = 0;
    proof {
        assert(s@.subrange(0, len as int) =~= s@);
    }
    while j < len
        invariant
            start <= j <= len,
            len == s@.len(),
            forall|k: int| start <= k < j ==> s@[k] != sep,
            spec_split(s@, sep) =~~= parts.deep_view() + spec_split(
                s@.subrange(start as int, len as int),
                sep,
            ),
        decreases len - j,
    {
        if s.get_char(j) == sep {
            let tok = s.substring_char(start, j).to_owned();
            proof {
                let rest = s@.subrange(start as int, len as int);
                assert forall|k: int| 0 <= k < j - start implies rest[k] != sep by {
                    assert(rest[k] == s@[start + k]);
                }
                assert(rest[j - start] == sep);
                lemma_split_at(rest, sep, j - start);
                assert(rest.subrange(0, j - start) =~= s@.subrange(start as int, j as int));
                assert(rest.subrange(j - start + 1, rest.len() as int) =~= s@.subrange(
                    j + 1,
                    len as int,
                ));
            }
            parts.push(tok);
            start = j + 1;
        }
        j = j + 1;
    }
    let tok = s.substring_char(start, len).to_owned();
    proof {
        let rest = s@.subrange(start as int, len as int);
        assert forall|k: int| 0 <= k < rest.len() implies rest[k] != sep by {
            assert(rest[k] == s@[start + k]);
        }
        lemma_split_whole(rest, sep);
    }
    parts.push(tok);
    assert(parts.deep_view() =~~= spec_split(s@, sep));
    parts
}

/// The characters `char::is_whitespace` accepts (the Unicode White_Space set).
pub open spec fn spec_is_ws(c: char) -> bool {
    c == ' ' || c == '\u{0009}' || c == '\u{000A}' || c == '\u{000B}' || c == '\u{000C}'
        || c == '\u{000D}' || c == '\u{0085}' || c == '\u{00A0}' || c == '\u{1680}' || (
    '\u{2000}' <= c && c <= '\u{200A}') || c == '\u{2028}' || c == '\u{2029}' || c == '\u{202F}'
        || c == '\u{205F}' || c == '\u{3000}'
}

pub fn is_ws(c: char) -> (r: bool)
    ensures
        r == spec_is_ws(c),
{
    c == ' ' || c == '\u{0009}' || c == '\u{000A}' || c == '\u{000B}' || c == '\u{000C}'
        || c == '\u{000D}' || c == '\u{0085}' || c == '\u{00A0}' || c == '\u{1680}' || (
    '\u{2000}' <= c && c <= '\u{200A}') || c == '\u{2028}' || c == '\u{2029}' || c == '\u{202F}'
        || c == '\u{205F}' || c == '\u{3000}'
}

/// Index of the first whitespace character, or `s.len()` when there is none.
pub open spec fn spec_ws_end(s: Seq<char>) -> int
    decreases s.len(),
{
    if s.len() == 0 {
        0
    } else if spec_is_ws(s[0]) {
        0
    } else {
        1 + spec_ws_end(s.drop_first())
    }
}

pub proof fn lemma_ws_end_at(s: Seq<char>, e: int)
    requires
        0 <= e <= s.len(),
        forall|k: int| 0 <= k < e ==> !spec_is_ws(s[k]),
        e == s.len() || spec_is_ws(s[e]),
    ensures
        spec_ws_end(s) == e,
    decreases e,
{
    if e > 0 {
        lemma_ws_end_at(s.drop_first(), e - 1);
    }
}

/// The whitespace-separated tokens of `s`, as `str::split_whitespace` yields
/// them: no empty tokens.
pub open spec fn spec_split_ws(s: Seq<char>) -> Seq<Seq<char>>
    decreases s.len(),
{
    if s.len() == 0 {
        Seq::<Seq<char>>::empty()
    } else if spec_is_ws(s[0]) {
        spec_split_ws(s.drop_first())
    } else {
        let e = spec_ws_end(s);
        if 1 <= e <= s.len() {
            seq![s.subrange(0, e)] + spec_split_ws(s.subrange(e, s.len() as int))
        } else {
            seq![s]
        }
    }
}

pub proof fn lemma_split_ws_skip(s: Seq<char>, i: int)
    requires
        0 <= i <= s.len(),
        forall|k: int| 0 <= k < i ==> spec_is_ws(s[k]),
    ensures
        spec_split_ws(s) == spec_split_ws(s.subrange(i, s.len() as int)),
    decreases i,
{
    if i > 0 {
        assert(s.drop_first() =~= s.subrange(1, s.len() as int));
        lemma_split_ws_skip(s.drop_first(), i - 1);
        assert(s.drop_first().subrange(i - 1, s.drop_first().len() as int) =~= s.subrange(
            i,
            s.len() as int,
        ));
    } else {
        assert(s.subrange(0, s.len() as int) =~= s);
    }
}

/// Split on runs of whitespace, as `str::split_whitespace` does.
pub fn split_ws(s: &str) -> (parts: Vec<String>)
    ensures
        parts.deep_view() == spec_split_ws(s@),
{
    let len = s.unicode_len();
    let mut parts: Vec<String> = Vec::new();
    let mut i: usize = 0;
    proof {
        assert(s@.subrange(0, len as int) =~= s@);
    }
    while i < len
        invariant
            i <= len,
            len == s@.len(),
            spec_split_ws(s@) =~~= parts.deep_view() + spec_split_ws(
                s@.subrange(i as int, len as int),
            ),
        decreases len - i,
    {
        if is_ws(s.get_char(i)) {
            proof {
                let rest = s@.subrange(i as int, len as int);
                assert(rest.drop_first() =~= s@.subrange(i + 1, len as int));
            }
            i = i + 1;
        } else {
            let tok_start = i;
            let mut j: usize = i + 1;
            while j < len
                invariant
                    tok_start < j <= len,
                    len == s@.len(),
                    forall|k: int| tok_start <= k < j ==> !spec_is_ws(s@[k]),
                ensures
                    tok_start < j <= len,
                    forall|k: int| tok_start <= k < j ==> !spec_is_ws(s@[k]),
                    j == len || spec_is_ws(s@[j as int]),
                decreases len - j,
            {
                if is_ws(s.get_char(j)) {
                    break;
                }
                j = j + 1;
            }
            let tok = s.substring_char(tok_start, j).to_owned();
            proof {
                let rest = s@.subrange(tok_start as int, len as int);
                assert forall|k: int| 0 <= k < j - tok_start implies !spec_is_ws(rest[k]) by {
                    assert(rest[k] == s@[tok_start + k]);
                }
                if j < len {
                    assert(spec_is_ws(s@[j as int]));
                    assert(spec_is_ws(rest[j - tok_start]));
                }
                lemma_ws_end_at(rest, j - tok_start);
                assert(rest.subrange(0, j - tok_start) =~= s@.subrange(
                    tok_start as int,
                    j as int,
                ));
                assert(rest.subrange(j - tok_start, rest.len() as int) =~= s@.subrange(
                    j as int,
                    len as int,
                ));
            }
            parts.push(tok);
            i = j;
        }
    }
    assert(parts.deep_view() =~~= spec_split_ws(s@));
    parts
}

/// `s` without leading whitespace.
pub open spec fn spec_trim_start(s: Seq<char>) -> Seq<char>
    decreases s.len(),
{
    if s.len() > 0 && spec_is_ws(s[0]) {
        spec_trim_start(s.drop_first())
    } else {
        s
    }
}

/// `s` without trailing whitespace.
pub open spec fn spec_trim_end(s: Seq<char>) -> Seq<char>
    decreases s.len(),
{
    if s.len() > 0 && spec_is_ws(s.last()) {
        spec_trim_end(s.drop_last())
    } else {
        s
    }
}

/// `s` without leading and trailing whitespace, as `str::trim` returns it.
pub open spec fn spec_trim(s: Seq<char>) -> Seq<char> {
    spec_trim_end(spec_trim_start(s))
}

proof fn lemma_trim_start_skip(s: Seq<char>, i: int)
    requires
        0 <= i <= s.len(),
        forall|k: int| 0 <= k < i ==> spec_is_ws(s[k]),
    ensures
        spec_trim_start(s) == spec_trim_start(s.subrange(i, s.len() as int)),
    decreases i,
{
    if i > 0 {
        assert(s.drop_first() =~= s.subrange(1, s.len() as int));
        lemma_trim_start_skip(s.drop_first(), i - 1);
        assert(s.drop_first().subrange(i - 1, s.drop_first().len() as int) =~= s.subrange(
            i,
            s.len() as int,
        ));
    } else {
        assert(s.subrange(0, s.len() as int) =~= s);
    }
}

proof fn lemma_trim_end_skip(s: Seq<char>, i: int)
    requires
        0 <= i <= s.len(),
        forall|k: int| i <= k < s.len() ==> spec_is_ws(s[k]),
    ensures
        spec_trim_end(s) == spec_trim_end(s.subrange(0, i)),
    decreases s.len() - i,
{
    if i < s.len() {
        assert(s.drop_last() =~= s.subrange(0, s.len() - 1));
        lemma_trim_end_skip(s.subrange(0, s.len() - 1), i);
        assert(s.subrange(0, s.len() - 1).subrange(0, i) =~= s.subrange(0, i));
    } else {
        assert(s.subrange(0, s.len() as int) =~= s);
    }
}

/// Remove leading and trailing whitespace, as `str::trim` does.
pub fn trim(s: &str) -> (r: String)
    ensures
        r@ == spec_trim(s@),
{
    let len = s.unicode_len();
    let mut a: usize = 0;
    while a < len && is_ws(s.get_char(a))
        invariant
            a <= len,
            len == s@.len(),
            forall|k: int| 0 <= k < a ==> spec_is_ws(s@[k]),
        decreases len - a,
    {
        a = a + 1;
    }
    let mut b: usize = len;
    while b > a && is_ws(s.get_char(b - 1))
        invariant
            a <= b <= len,
            len == s@.len(),
            forall|k: int| b <= k < len ==> spec_is_ws(s@[k]),
        decreases b,
    {
        b = b - 1;
    }
    proof {
        lemma_trim_start_skip(s@, a as int);
        let tail = s@.subrange(a as int, len as int);
        if a < len && b > a {
            assert(!spec_is_ws(s@[a as int]));
            assert(spec_trim_start(tail) == tail);
        } else {
            assert(b == a);
            assert forall|k: int| 0 <= k < tail.len() implies spec_is_ws(tail[k]) by {
                assert(tail[k] == s@[a + k]);
            }
            lemma_all_ws_trim(tail);
        }
        assert forall|k: int| b - a <= k < tail.len() implies spec_is_ws(tail[k]) by {
            assert(tail[k] == s@[a + k]);
        }
        lemma_trim_end_skip(tail, b - a);
        if b > a {
            assert(tail.subrange(0, b - a)[b - a - 1] == s@[b - 1]);
            assert(!spec_is_ws(tail.subrange(0, b - a).last()));
        }
        assert(tail.subrange(0, b - a) =~= s@.subrange(a as int, b as int));
    }
    s.substring_char(a, b).to_owned()
}

proof fn lemma_all_ws_trim(s: Seq<char>)
    requires
        forall|k: int| 0 <= k < s.len() ==> spec_is_ws(s[k]),
    ensures
        spec_trim_start(s) == Seq::<char>::empty(),
        spec_trim_end(s) == Seq::<char>::empty(),
    decreases s.len(),
{
    if s.len() > 0 {
        lemma_all_ws_trim(s.drop_first());
        assert(s.drop_last() =~= s.subrange(0, s.len() - 1));
        lemma_all_ws_trim(s.drop_last());
    } else {
        assert(s =~= Seq::<char>::empty());
    }
}

/// `s` without any trailing copies of `c`, as `str::trim_end_matches` with a
/// single-character pattern returns it.
pub open spec fn spec_trim_end_char(s: Seq<char>, c: char) -> Seq<char>
    decreases s.len(),
{
    if s.len() > 0 && s.last() == c {
        spec_trim_end_char(s.drop_last(), c)
    } else {
        s
    }
}

proof fn lemma_trim_end_char_skip(s: Seq<char>, c: char, i: int)
    requires
        0 <= i <= s.len(),
        forall|k: int| i <= k < s.len() ==> s[k] == c,
    ensures
        spec_trim_end_char(s, c) == spec_trim_end_char(s.subrange(0, i), c),
    decreases s.len() - i,
{
    if i < s.len() {
        assert(s.drop_last() =~= s.subrange(0, s.len() - 1));
        lemma_trim_end_char_skip(s.subrange(0, s.len() - 1), c, i);
        assert(s.subrange(0, s.len() - 1).subrange(0, i) =~= s.subrange(0, i));
    } else {
        assert(s.subrange(0, s.len() as int) =~= s);
    }
}

/// Remove trailing copies of `c`.
pub fn trim_end_char(s: &str, c: char) -> (r: String)
    ensures
        r@ == spec_trim_end_char(s@, c),
{
    let len = s.unicode_len();
    let mut b: usize = len;
    while b > 0 && s.get_char(b - 1) == c
        invariant
            b <= len,
            len == s@.len(),
            forall|k: int| b <= k < len ==> s@[k] == c,
        decreases b,
    {
        b = b - 1;
    }
    proof {
        lemma_trim_end_char_skip(s@, c, b as int);
        let head = s@.subrange(0, b as int);
        if b > 0 {
            assert(head.last() == s@[b - 1]);
        }
        assert(spec_trim_end_char(head, c) == head);
    }
    s.substring_char(0, b).to_owned()
}

/// One line as `str::lines` yields it: any trailing carriage return is gone.
pub open spec fn spec_strip_cr(p: Seq<char>) -> Seq<char> {
    if p.len() > 0 && p.last() == '\r' {
        p.drop_last()
    } else {
        p
    }
}

/// The lines of `s`, as `str::lines` yields them.
pub open spec fn spec_lines(s: Seq<char>) -> Seq<Seq<char>> {
    let raw = spec_split(s, '\n');
    let cut = if raw.len() > 0 && raw.last().len() == 0 {
        raw.drop_last()
    } else {
        raw
    };
    cut.map_values(|p: Seq<char>| spec_strip_cr(p))
}

/// Split into lines, as `str::lines` does.
pub fn lines(s: &str) -> (out: Vec<String>)
    ensures
        out.deep_view() == spec_lines(s@),
{
    let mut raw = split_char(s, '\n');
    if raw.len() > 0 {
        let last_empty = raw[raw.len() - 1].as_str().unicode_len() == 0;
        if last_empty {
            let ghost before = raw.deep_view();
            raw.pop();
            assert(raw.deep_view() =~~= before.drop_last());
        }
    }
    let mut out: Vec<String> = Vec::new();
    let ghost cut = raw.deep_view();
    let n = raw.len();
    let mut i: usize = 0;
    while i < n
        invariant
            i <= n,
            n == raw.len(),
            cut == raw.deep_view(),
            out@.len() == i,
            out.deep_view() =~~= cut.map_values(|p: Seq<char>| spec_strip_cr(p)).take(i as int),
        decreases n - i,
    {
        let line = &raw[i];
        proof {
            assert(cut[i as int] == raw@[i as int]@);
        }
        let llen = line.as_str().unicode_len();
        if llen > 0 && line.as_str().get_char(llen - 1) == '\r' {
            let stripped = line.as_str().substring_char(0, llen - 1).to_owned();
            proof {
                assert(stripped@ =~= spec_strip_cr(cut[i as int]));
            }
            out.push(stripped);
        } else {
            let kept = line.clone();
            proof {
                assert(kept@ == spec_strip_cr(cut[i as int]));
            }
            out.push(kept);
        }
        proof {
            let mapped = cut.map_values(|p: Seq<char>| spec_strip_cr(p));
            assert(out@.len() == i + 1);
            assert(out.deep_view()[i as int] == spec_strip_cr(cut[i as int]));
            assert forall|k: int| 0 <= k < i + 1 implies out.deep_view()[k] == mapped.take(
                i + 1,
            )[k] by {
                if k < i {
                    assert(out.deep_view()[k] == out@[k]@);
                }
            }
            assert(out.deep_view() =~~= mapped.take(i + 1));
        }
        i = i + 1;
    }
    proof {
        assert(cut.map_values(|p: Seq<char>| spec_strip_cr(p)).take(n as int) =~~= spec_lines(
            s@,
        ));
    }
    out
}

/// Whether one of the strings in `v` reads `x`.
pub fn contains_string(v: &Vec<String>, x: &str) -> (r: bool)
    ensures
        r == v.deep_view().contains(x@),
{
    let n = v.len();
    let mut i: usize = 0;
    while i < n
        invariant
            i <= n,
            n == v.len(),
            forall|k: int| 0 <= k < i ==> v.deep_view()[k] != x@,
        decreases n - i,
    {
        if str_eq(v[i].as_str(), x) {
            assert(v.deep_view()[i as int] == x@);
            return true;
        }
        i = i + 1;
    }
    assert(forall|k: int| 0 <= k < v.deep_view().len() ==> v.deep_view()[k] != x@);
    false
}

/// The decimal digit `d` as a character.
pub open spec fn spec_digit_char(d: int) -> char {
    if d == 0 {
        '0'
    } else if d == 1 {
        '1'
    } else if d == 2 {
        '2'
    } else if d == 3 {
        '3'
    } else if d == 4 {
        '4'
    } else if d == 5 {
        '5'
    } else if d == 6 {
        '6'
    } else if d == 7 {
        '7'
    } else if d == 8 {
        '8'
    } else {
        '9'
    }
}

/// The usual decimal rendering of `n`, without sign or padding.
pub open spec fn spec_dec_digits(n: int) -> Seq<char>
    decreases n,
{
    if n < 10 {
        seq![spec_digit_char(n)]
    } else {
        spec_dec_digits(n / 10).push(spec_digit_char(n % 10))
    }
}

fn digit_str(d: u64) -> (s: &'static str)
    requires
        d < 10,
    ensures
        s@ == seq![spec_digit_char(d as int)],
{
    proof {
        reveal_strlit("0");
        reveal_strlit("1");
        reveal_strlit("2");
        reveal_strlit("3");
        reveal_strlit("4");
        reveal_strlit("5");
        reveal_strlit("6");
        reveal_strlit("7");
        reveal_strlit("8");
        reveal_strlit("9");
    }
    let s = if d == 0 {
        "0"
    } else if d == 1 {
        "1"
    } else if d == 2 {
        "2"
    } else if d == 3 {
        "3"
    } else if d == 4 {
        "4"
    } else if d == 5 {
        "5"
    } else if d == 6 {
        "6"
    } else if d == 7 {
        "7"
    } else if d == 8 {
        "8"
    } else {
        "9"
    };
    assert(s@ =~= seq![spec_digit_char(d as int)]);
    s
}

/// Render `n` in decimal, as `u64::to_string` would.
pub fn u64_to_string(n: u64) -> (s: String)
    ensures
        s@ == spec_dec_digits(n as int),
    decreases n,
{
    if n < 10 {
        String::from_str(digit_str(n))
    } else {
        let mut s = u64_to_string(n / 10);
        s.append(digit_str(n % 10));
        assert(s@ =~= spec_dec_digits(n as int));
        s
    }
}

pub open spec fn spec_is_digit(c: char) -> bool {
    '0' <= c && c <= '9'
}

pub open spec fn spec_digit_val(c: char) -> int {
    c as int - '0' as int
}

pub open spec fn spec_all_digits(s: Seq<char>) -> bool {
    forall|i: int| 0 <= i < s.len() ==> spec_is_digit(#[trigger] s[i])
}

/// The integer a digit string denotes, most significant digit first.
pub open spec fn spec_digits_int(s: Seq<char>) -> int
    decreases s.len(),
{
    if s.len() == 0 {
        0
    } else {
        spec_digits_int(s.drop_last()) * 10 + spec_digit_val(s.last())
    }
}

/// The integer a digit string denotes, saturated above eighteen digits.
pub open spec fn spec_digits_capped(s: Seq<char>) -> int {
    if s.len() > 18 {
        10_000_000_000_000_000_000_000_000_000
    } else {
        spec_digits_int(s)
    }
}

/// A decimal string as a scaled integer (value times ten to the ninth),
/// or nothing when the string is not a plain signed decimal.  Fractional
/// digits beyond the ninth are dropped; more than eighteen integer digits
/// saturate.
pub open spec fn spec_parse_decimal(s: Seq<char>) -> Option<int> {
    let neg = s.len() > 0 && s[0] == '-';
    let body = if s.len() > 0 && (s[0] == '-' || s[0] == '+') {
        s.drop_first()
    } else {
        s
    };
    let parts = spec_split(body, '.');
    if parts.len() == 1 && spec_all_digits(parts[0]) && parts[0].len() > 0 {
        let v = spec_digits_capped(parts[0]) * 1_000_000_000;
        Some(
            if neg {
                -v
            } else {
                v
            },
        )
    } else if parts.len() == 2 && spec_all_digits(parts[0]) && spec_all_digits(parts[1])
        && parts[0].len() + parts[1].len() > 0 {
        let frac = if parts[1].len() > 9 {
            parts[1].subrange(0, 9)
        } else {
            parts[1]
        };
        let scale = spec_pow10(9 - frac.len() as int);
        let v = spec_digits_capped(parts[0]) * 1_000_000_000 + spec_digits_int(frac) * scale;
        Some(
            if neg {
                -v
            } else {
                v
            },
        )
    } else {
        None
    }
}

pub open spec fn spec_pow10(n: int) -> int
    decreases n,
{
    if n <= 0 {
        1
    } else {
        10 * spec_pow10(n - 1)
    }
}

/// Evaluate a digit string, saturated, executable.
fn digits_capped(s: &str) -> (r: Option<u128>)
    ensures
        match r {
            Some(v) => spec_all_digits(s@) && s@.len() > 0 && v == spec_digits_capped(s@) && v
                <= 10_000_000_000_000_000_000_000_000_000,
            None => !(spec_all_digits(s@) && s@.len() > 0),
        },
{
    let n = s.unicode_len();
    if n == 0 {
        return None;
    }
    if n > 18 {
        // still must check the digits
        let mut i: usize = 0;
        while i < n
            invariant
                i <= n,
                n == s@.len(),
                forall|k: int| 0 <= k < i ==> spec_is_digit(#[trigger] s@[k]),
            decreases n - i,
        {
            let c = s.get_char(i);
            if !(c >= '0' && c <= '9') {
                return None;
            }
            i = i + 1;
        }
        return Some(10_000_000_000_000_000_000_000_000_000);
    }
    let mut acc: u128 = 0;
    let mut i: usize = 0;
    while i < n
        invariant
            i <= n,
            n == s@.len(),
            n <= 18,
            forall|k: int| 0 <= k < i ==> spec_is_digit(#[trigger] s@[k]),
            acc == spec_digits_int(s@.take(i as int)),
            acc < 10_000_000_000_000_000_000,
        decreases n - i,
    {
        let c = s.get_char(i);
        if !(c >= '0' && c <= '9') {
            return None;
        }
        let d: u128 = (c as u32 - '0' as u32) as u128;
        proof {
            assert(s@.take(i + 1).drop_last() =~= s@.take(i as int));
            assert(s@.take(i + 1).last() == s@[i as int]);
            lemma_digits_int_bound(s@.take(i as int));
        }
        acc = acc * 10 + d;
        proof {
            lemma_digits_int_bound(s@.take(i + 1));
        }
        i = i + 1;
    }
    proof {
        assert(s@.take(n as int) =~= s@);
    }
    Some(acc)
}

/// A digit string of length at most eighteen denotes less than ten to the
/// eighteenth.
proof fn lemma_digits_int_bound(s: Seq<char>)
    requires
        spec_all_digits(s),
        s.len() <= 18,
    ensures
        0 <= spec_digits_int(s) < spec_pow10(s.len() as int),
        spec_pow10(s.len() as int) <= 1_000_000_000_000_000_000,
    decreases s.len(),
{
    reveal_with_fuel(spec_pow10, 20);
    if s.len() == 0 {
    } else {
        assert(spec_all_digits(s.drop_last())) by {
            assert(forall|i: int|
                0 <= i < s.len() - 1 ==> spec_is_digit(#[trigger] s.drop_last()[i]));
        }
        lemma_digits_int_bound(s.drop_last());
        assert(0 <= spec_digit_val(s.last()) <= 9);
        lemma_pow10_mono(s.len() as int, 18);
        assert(spec_pow10(s.len() as int) == 10 * spec_pow10(s.len() - 1));
        assert(spec_digits_int(s) == spec_digits_int(s.drop_last()) * 10 + spec_digit_val(
            s.last(),
        ));
        assert(spec_digits_int(s.drop_last()) * 10 < spec_pow10(s.len() - 1) * 10)
            by (nonlinear_arith)
            requires
                spec_digits_int(s.drop_last()) < spec_pow10(s.len() - 1),
        ;
    }
}

proof fn lemma_pow10_mono(a: int, b: int)
    requires
        a <= b,
    ensures
        spec_pow10(a) <= spec_pow10(b),
        spec_pow10(a) >= 1,
    decreases b - a,
{
    if a < b {
        lemma_pow10_mono(a, b - 1);
    } else {
        lemma_pow10_pos(a);
    }
}

proof fn lemma_pow10_pos(a: int)
    ensures
        spec_pow10(a) >= 1,
    decreases a,
{
    if a > 0 {
        lemma_pow10_pos(a - 1);
    }
}

/// Parse a plain signed decimal into a scaled integer (value times ten to
/// the ninth).
#[verifier::loop_isolation(false)]
pub fn parse_decimal(s: &str) -> (r: Option<i128>)
    ensures
        match r {
            Some(v) => spec_parse_decimal(s@) == Some(v as int),
            None => spec_parse_decimal(s@) is None,
        },
{
    let n = s.unicode_len();
    let neg = n > 0 && s.get_char(0) == '-';
    let signed = n > 0 && (s.get_char(0) == '-' || s.get_char(0) == '+');
    let body = if signed {
        s.substring_char(1, n)
    } else {
        s
    };
    proof {
        if signed {
            assert(body@ =~= s@.drop_first());
        }
    }
    let parts = split_char(body, '.');
    proof {
        if parts.len() >= 1 {
            assert(parts.deep_view()[0] == spec_split(body@, '.')[0]);
        }
        if parts.len() >= 2 {
            assert(parts.deep_view()[1] == spec_split(body@, '.')[1]);
        }
    }
    if parts.len() == 1 {
        match digits_capped(parts[0].as_str()) {
            None => None,
            Some(mag) => {
                let v: i128 = (mag * 1_000_000_000) as i128;
                proof {
                    assert(spec_parse_decimal(s@) is Some);
                    assert(spec_parse_decimal(s@)->0 == if neg {
                        -(v as int)
                    } else {
                        v as int
                    });
                }
                if neg {
                    Some(-v)
                } else {
                    Some(v)
                }
            },
        }
    } else if parts.len() == 2 {
        let ipart = &parts[0];
        let fpart = &parts[1];
        proof {
            assert(ipart@ == parts.deep_view()[0]);
            assert(fpart@ == parts.deep_view()[1]);
            assert(ipart@ == spec_split(body@, '.')[0]);
            assert(fpart@ == spec_split(body@, '.')[1]);
        }
        let ilen = ipart.as_str().unicode_len();
        let flen = fpart.as_str().unicode_len();
        if ilen == 0 && flen == 0 {
            return None;
        }
        let imag: u128 = if ilen == 0 {
            proof {
                assert(ipart@ =~= Seq::<char>::empty());
            }
            0
        } else {
            match digits_capped(ipart.as_str()) {
                None => {
                    return None;
                },
                Some(m) => m,
            }
        };
        let ghost gfrac = if fpart@.len() > 9 {
            fpart@.subrange(0, 9)
        } else {
            fpart@
        };
        let ftrunc = if flen > 9 {
            fpart.as_str().substring_char(0, 9)
        } else {
            fpart.as_str()
        };
        let fmag: u128 = if ftrunc.unicode_len() == 0 {
            proof {
                assert(ftrunc@ =~= Seq::<char>::empty());
            }
            if flen > 0 {
                // fractional part exists but is empty after truncation:
                // impossible, truncation keeps at least one character
                assert(false);
            }
            0
        } else {
            match digits_capped(ftrunc) {
                None => {
                    proof {
                        if spec_all_digits(fpart@) {
                            assert forall|k: int| 0 <= k < gfrac.len() implies spec_is_digit(
                                #[trigger] gfrac[k],
                            ) by {
                                assert(gfrac[k] == fpart@[k]);
                            }
                        }
                    }
                    return None;
                },
                Some(m) => m,
            }
        };
        proof {
            if !spec_all_digits(fpart@) {
            } else {
                assert forall|k: int| 0 <= k < gfrac.len() implies spec_is_digit(
                    #[trigger] gfrac[k],
                ) by {
                    assert(gfrac[k] == fpart@[k]);
                }
            }
        }
        // check the whole fractional part is digits, not only the kept part
        let mut j: usize = 0;
        let fs = fpart.as_str();
        while j < flen
            invariant
                j <= flen,
                flen == fs@.len(),
                fs@ == fpart@,
                forall|k: int| 0 <= k < j ==> spec_is_digit(#[trigger] fs@[k]),
            decreases flen - j,
        {
            let c = fs.get_char(j);
            if !(c >= '0' && c <= '9') {
                proof {
                    assert(!spec_is_digit(fpart@[j as int]));
                    assert(!spec_all_digits(spec_split(body@, '.')[1]));
                    assert(spec_parse_decimal(s@) is None);
                }
                return None;
            }
            j = j + 1;
        }
        let scale: u128 = pow10_u128(9 - ftrunc.unicode_len());
        assert(fmag * scale <= 10_000_000_000_000_000_000_000_000_000u128 * 1_000_000_000u128)
            by (nonlinear_arith)
            requires
                fmag <= 10_000_000_000_000_000_000_000_000_000u128,
                scale <= 1_000_000_000u128,
        ;
        let v: i128 = (imag * 1_000_000_000 + fmag * scale) as i128;
        proof {
            lemma_digits_int_bound(gfrac);
        }
        proof {
            assert(spec_parse_decimal(s@) is Some);
            assert(spec_parse_decimal(s@)->0 == if neg {
                -(v as int)
            } else {
                v as int
            });
        }
        if neg {
            Some(-v)
        } else {
            Some(v)
        }
    } else {
        None
    }
}

fn pow10_u128(n: usize) -> (r: u128)
    requires
        n <= 9,
    ensures
        r == spec_pow10(n as int),
        r <= 1_000_000_000,
{
    let mut r: u128 = 1;
    let mut i: usize = 0;
    while i < n
        invariant
            i <= n,
            n <= 9,
            r == spec_pow10(i as int),
            r <= 1_000_000_000,
        decreases n - i,
    {
        proof {
            reveal_with_fuel(spec_pow10, 11);
            lemma_pow10_mono(i as int, 8);
        }
        r = r * 10;
        i = i + 1;
    }
    r
}

} // verus!
