//! Character-level text primitives with their meaning stated over `Seq<char>`:
//! line splitting, whitespace trimming, separators, substring search and ASCII
//! case folding, matching what the standard library's `str` methods do.
use vstd::prelude::*;

verus! {

/// `String::push` appends one character.
pub assume_specification[ String::push ](s: &mut String, ch: char)
    ensures
        final(s)@ == old(s)@.push(ch),
;

/// The characters of `s`, in order.
pub fn chars_of(s: &str) -> (out: Vec<char>)
    ensures
        out@ == s@,
{
    let mut out: Vec<char> = Vec::new();
    for c in it: s.chars()
        invariant
            out@ == it.seq().take(it.index() as int),
            it.seq() == s@,
    {
        out.push(c);
    }
    out
}

/// Appends the characters `chars` to `s`.
pub fn push_all(s: &mut String, chars: &Vec<char>)
    ensures
        final(s)@ == old(s)@ + chars@,
{
    let mut i: usize = 0;
    while i < chars.len()
        invariant
            i <= chars@.len(),
            s@ == old(s)@ + chars@.take(i as int),
        decreases chars@.len() - i,
    {
        s.push(chars[i]);
        assert(chars@.take(i + 1) == chars@.take(i as int).push(chars@[i as int]));
        i = i + 1;
    }
    assert(chars@.take(chars@.len() as int) == chars@);
}

/// A `String` holding exactly the characters `chars`.
pub fn string_from(chars: &[char]) -> (out: String)
    ensures
        out@ == chars@,
{
    let mut out = String::new();
    let mut i: usize = 0;
    while i < chars.len()
        invariant
            i <= chars@.len(),
            out@ == chars@.take(i as int),
        decreases chars@.len() - i,
    {
        out.push(chars[i]);
        i = i + 1;
    }
    assert(chars@.take(chars@.len() as int) == chars@);
    out
}

} // verus!

verus! {

/// Unicode `White_Space`, the set that `char::is_whitespace` and `str::trim`
/// recognise.
pub open spec fn is_ws(c: char) -> bool {
    ||| '\u{9}' <= c <= '\u{d}'
    ||| c == ' '
    ||| c == '\u{85}'
    ||| c == '\u{a0}'
    ||| c == '\u{1680}'
    ||| '\u{2000}' <= c <= '\u{200a}'
    ||| c == '\u{2028}'
    ||| c == '\u{2029}'
    ||| c == '\u{202f}'
    ||| c == '\u{205f}'
    ||| c == '\u{3000}'
}

pub fn is_whitespace(c: char) -> (b: bool)
    ensures
        b == is_ws(c),
{
    ('\u{9}' <= c && c <= '\u{d}') || c == ' ' || c == '\u{85}' || c == '\u{a0}' || c == '\u{1680}'
        || ('\u{2000}' <= c && c <= '\u{200a}') || c == '\u{2028}' || c == '\u{2029}' || c
        == '\u{202f}' || c == '\u{205f}' || c == '\u{3000}'
}

/// `s` without its leading whitespace.
pub open spec fn trim_start(s: Seq<char>) -> Seq<char>
    decreases s.len(),
{
    if s.len() > 0 && is_ws(s[0]) {
        trim_start(s.drop_first())
    } else {
        s
    }
}

/// `s` without its trailing whitespace.
pub open spec fn trim_end(s: Seq<char>) -> Seq<char>
    decreases s.len(),
{
    if s.len() > 0 && is_ws(s.last()) {
        trim_end(s.drop_last())
    } else {
        s
    }
}

/// `str::trim`: both ends stripped of whitespace.
pub open spec fn trim(s: Seq<char>) -> Seq<char> {
    trim_end(trim_start(s))
}

/// The pieces of `s` between occurrences of `sep` (`str::split` on a char):
/// always at least one piece, empty pieces included.
pub open spec fn split_on(s: Seq<char>, sep: char) -> Seq<Seq<char>>
    decreases s.len(),
{
    if s.len() == 0 {
        seq![Seq::empty()]
    } else {
        let before = split_on(s.drop_last(), sep);
        if s.last() == sep {
            before.push(Seq::empty())
        } else {
            before.update(before.len() - 1, before.last().push(s.last()))
        }
    }
}

/// The pieces of `s` between whitespace characters, empty pieces included.
pub open spec fn split_at_ws(s: Seq<char>) -> Seq<Seq<char>>
    decreases s.len(),
{
    if s.len() == 0 {
        seq![Seq::empty()]
    } else {
        let before = split_at_ws(s.drop_last());
        if is_ws(s.last()) {
            before.push(Seq::empty())
        } else {
            before.update(before.len() - 1, before.last().push(s.last()))
        }
    }
}

/// The non-empty members of `parts`, in order.
pub open spec fn non_empty(parts: Seq<Seq<char>>) -> Seq<Seq<char>>
    decreases parts.len(),
{
    if parts.len() == 0 {
        parts
    } else if parts.last().len() == 0 {
        non_empty(parts.drop_last())
    } else {
        non_empty(parts.drop_last()).push(parts.last())
    }
}

/// `str::split_whitespace`.
pub open spec fn words(s: Seq<char>) -> Seq<Seq<char>> {
    non_empty(split_at_ws(s))
}

/// `line` with one trailing carriage return removed, if it has one.
pub open spec fn strip_cr(line: Seq<char>) -> Seq<char> {
    if line.len() > 0 && line.last() == '\r' {
        line.drop_last()
    } else {
        line
    }
}

/// `str::lines`: split at `\n`, a `\r` before a `\n` dropped, and no empty
/// final line after a trailing newline.
pub open spec fn lines(s: Seq<char>) -> Seq<Seq<char>> {
    let parts = split_on(s, '\n');
    let ended = parts.drop_last().map_values(|p: Seq<char>| strip_cr(p));
    if parts.last().len() == 0 {
        ended
    } else {
        ended.push(parts.last())
    }
}

/// The members of `parts` joined with `sep` between neighbours.
pub open spec fn join(parts: Seq<Seq<char>>, sep: Seq<char>) -> Seq<char>
    decreases parts.len(),
{
    if parts.len() == 0 {
        Seq::empty()
    } else if parts.len() == 1 {
        parts[0]
    } else {
        join(parts.drop_last(), sep) + sep + parts.last()
    }
}

/// Whether `needle` occurs in `hay` starting at index `at`.
pub open spec fn occurs_at(hay: Seq<char>, needle: Seq<char>, at: int) -> bool {
    0 <= at && at + needle.len() <= hay.len() && hay.subrange(at, at + needle.len()) == needle
}

/// `str::contains` for a string needle.
pub open spec fn contains(hay: Seq<char>, needle: Seq<char>) -> bool {
    exists|at: int| occurs_at(hay, needle, at)
}

/// `str::starts_with`.
pub open spec fn starts_with(s: Seq<char>, prefix: Seq<char>) -> bool {
    prefix.len() <= s.len() && s.take(prefix.len() as int) == prefix
}

/// `char::to_ascii_lowercase`.
pub open spec fn lower_char(c: char) -> char {
    if 'A' <= c <= 'Z' {
        ((c as u32) + 32) as char
    } else {
        c
    }
}

/// `str::to_ascii_lowercase`.
pub open spec fn lower(s: Seq<char>) -> Seq<char> {
    s.map_values(|c: char| lower_char(c))
}

/// `char::is_ascii_alphanumeric`.
pub open spec fn is_ascii_alnum(c: char) -> bool {
    ||| 'a' <= c <= 'z'
    ||| 'A' <= c <= 'Z'
    ||| '0' <= c <= '9'
}

} // verus!

verus! {

/// The character sequences held by a vector of character vectors.
pub open spec fn seqs(v: Seq<Vec<char>>) -> Seq<Seq<char>> {
    v.map_values(|x: Vec<char>| x@)
}

/// A copy of `s[lo..hi]`.
pub fn slice_chars(s: &Vec<char>, lo: usize, hi: usize) -> (out: Vec<char>)
    requires
        lo <= hi <= s@.len(),
    ensures
        out@ == s@.subrange(lo as int, hi as int),
{
    let mut out: Vec<char> = Vec::new();
    let mut i = lo;
    while i < hi
        invariant
            lo <= i <= hi <= s@.len(),
            out@ == s@.subrange(lo as int, i as int),
        decreases hi - i,
    {
        out.push(s[i]);
        i = i + 1;
    }
    out
}

proof fn lemma_trim_start_skip(s: Seq<char>, i: int)
    requires
        0 <= i < s.len(),
        is_ws(s[i]),
    ensures
        trim_start(s.subrange(i, s.len() as int)) == trim_start(s.subrange(i + 1, s.len() as int)),
{
    let t = s.subrange(i, s.len() as int);
    assert(t.drop_first() == s.subrange(i + 1, s.len() as int));
}

proof fn lemma_trim_end_skip(s: Seq<char>, lo: int, j: int)
    requires
        0 <= lo < j <= s.len(),
        is_ws(s[j - 1]),
    ensures
        trim_end(s.subrange(lo, j)) == trim_end(s.subrange(lo, j - 1)),
{
    let t = s.subrange(lo, j);
    assert(t.drop_last() == s.subrange(lo, j - 1));
}

/// The bounds `(lo, hi)` of `trim(s)` inside `s`.
pub fn trim_bounds(s: &Vec<char>) -> (b: (usize, usize))
    ensures
        b.0 <= b.1 <= s@.len(),
        s@.subrange(b.0 as int, b.1 as int) == trim(s@),
{
    let n = s.len();
    let mut lo: usize = 0;
    assert(s@.subrange(0, n as int) == s@);
    while lo < n && is_whitespace(s[lo])
        invariant
            lo <= n == s@.len(),
            trim_start(s@) == trim_start(s@.subrange(lo as int, n as int)),
        decreases n - lo,
    {
        proof {
            lemma_trim_start_skip(s@, lo as int);
        }
        lo = lo + 1;
    }
    let ghost start = s@.subrange(lo as int, n as int);
    assert(trim_start(start) == start);
    let mut hi: usize = n;
    while hi > lo && is_whitespace(s[hi - 1])
        invariant
            lo <= hi <= n == s@.len(),
            start == s@.subrange(lo as int, n as int),
            trim(s@) == trim_end(s@.subrange(lo as int, hi as int)),
        decreases hi - lo,
    {
        proof {
            lemma_trim_end_skip(s@, lo as int, hi as int);
        }
        hi = hi - 1;
    }
    let ghost kept = s@.subrange(lo as int, hi as int);
    assert(trim_end(kept) == kept);
    (lo, hi)
}

/// `trim(s)` as a new vector.
pub fn trim_chars(s: &Vec<char>) -> (out: Vec<char>)
    ensures
        out@ == trim(s@),
{
    let (lo, hi) = trim_bounds(s);
    slice_chars(s, lo, hi)
}

} // verus!

verus! {

/// `split_on(s, sep)` piece by piece.
pub fn split_chars(s: &Vec<char>, sep: char) -> (out: Vec<Vec<char>>)
    ensures
        seqs(out@) == split_on(s@, sep),
{
    let mut done: Vec<Vec<char>> = Vec::new();
    let mut cur: Vec<char> = Vec::new();
    let mut i: usize = 0;
    while i < s.len()
        invariant
            i <= s@.len(),
            seqs(done@).push(cur@) == split_on(s@.take(i as int), sep),
        decreases s@.len() - i,
    {
        let c = s[i];
        assert(s@.take(i + 1).drop_last() == s@.take(i as int));
        if c == sep {
            let ghost before = seqs(done@).push(cur@);
            done.push(cur);
            cur = Vec::new();
            assert(seqs(done@) == before);
        } else {
            let ghost before = seqs(done@).push(cur@);
            cur.push(c);
            assert(seqs(done@).push(cur@) == before.update(before.len() - 1, before.last().push(c)));
        }
        i = i + 1;
    }
    assert(s@.take(s@.len() as int) == s@);
    let ghost expected = seqs(done@).push(cur@);
    done.push(cur);
    assert(seqs(done@) == expected);
    done
}

} // verus!

verus! {

/// `split_at_ws(s)` piece by piece.
pub fn split_whitespace_all(s: &Vec<char>) -> (out: Vec<Vec<char>>)
    ensures
        seqs(out@) == split_at_ws(s@),
{
    let mut done: Vec<Vec<char>> = Vec::new();
    let mut cur: Vec<char> = Vec::new();
    let mut i: usize = 0;
    while i < s.len()
        invariant
            i <= s@.len(),
            seqs(done@).push(cur@) == split_at_ws(s@.take(i as int)),
        decreases s@.len() - i,
    {
        let c = s[i];
        assert(s@.take(i + 1).drop_last() == s@.take(i as int));
        if is_whitespace(c) {
            let ghost before = seqs(done@).push(cur@);
            done.push(cur);
            cur = Vec::new();
            assert(seqs(done@) == before);
        } else {
            let ghost before = seqs(done@).push(cur@);
            cur.push(c);
            assert(seqs(done@).push(cur@) == before.update(before.len() - 1, before.last().push(c)));
        }
        i = i + 1;
    }
    assert(s@.take(s@.len() as int) == s@);
    let ghost expected = seqs(done@).push(cur@);
    done.push(cur);
    assert(seqs(done@) == expected);
    done
}

/// The non-empty members of `parts`, in order.
pub fn keep_non_empty(parts: Vec<Vec<char>>) -> (out: Vec<Vec<char>>)
    ensures
        seqs(out@) == non_empty(seqs(parts@)),
{
    let mut out: Vec<Vec<char>> = Vec::new();
    let n = parts.len();
    let mut parts = parts;
    let ghost all = parts@;
    let mut rest: Vec<Vec<char>> = Vec::new();
    // Walk the parts from the front; `non_empty` is defined from the back, so
    // keep the relation through prefixes.
    let mut i: usize = 0;
    while i < n
        invariant
            i <= n == all.len(),
            parts@ == all,
            seqs(out@) == non_empty(seqs(all.take(i as int))),
        decreases n - i,
    {
        assert(seqs(all.take(i + 1)).drop_last() == seqs(all.take(i as int)));
        assert(seqs(all.take(i + 1)).last() == all[i as int]@);
        if parts[i].len() > 0 {
            let ghost before = seqs(out@);
            out.push(parts[i].clone());
            assert(seqs(out@) == before.push(all[i as int]@));
        }
        i = i + 1;
    }
    assert(all.take(n as int) == all);
    out
}

/// `words(s)`: the whitespace-separated words of `s`.
pub fn words_of(s: &Vec<char>) -> (out: Vec<Vec<char>>)
    ensures
        seqs(out@) == words(s@),
{
    keep_non_empty(split_whitespace_all(s))
}

/// `strip_cr(line)` in place.
pub fn strip_cr_chars(line: Vec<char>) -> (out: Vec<char>)
    ensures
        out@ == strip_cr(line@),
{
    let mut line = line;
    if line.len() > 0 && line[line.len() - 1] == '\r' {
        line.pop();
    }
    line
}

/// Splitting always yields at least one piece.
pub proof fn lemma_split_on_nonempty(s: Seq<char>, sep: char)
    ensures
        split_on(s, sep).len() >= 1,
    decreases s.len(),
{
    if s.len() > 0 {
        lemma_split_on_nonempty(s.drop_last(), sep);
    }
}

/// `lines(s)`.
pub fn lines_of(s: &Vec<char>) -> (out: Vec<Vec<char>>)
    ensures
        seqs(out@) == lines(s@),
{
    let parts = split_chars(s, '\n');
    proof {
        lemma_split_on_nonempty(s@, '\n');
    }
    let ghost ps = seqs(parts@);
    let n = parts.len();
    let mut out: Vec<Vec<char>> = Vec::new();
    let mut i: usize = 0;
    while i + 1 < n
        invariant
            n == parts@.len() >= 1,
            ps == seqs(parts@),
            i + 1 <= n,
            seqs(out@) == ps.take(i as int).map_values(|p: Seq<char>| strip_cr(p)),
        decreases n - i,
    {
        let line = strip_cr_chars(parts[i].clone());
        let ghost before = seqs(out@);
        out.push(line);
        assert(ps.take(i + 1) == ps.take(i as int).push(ps[i as int]));
        assert(seqs(out@) == before.push(strip_cr(ps[i as int])));
        assert(ps.take(i + 1).map_values(|p: Seq<char>| strip_cr(p)) == ps.take(i as int).map_values(
            |p: Seq<char>| strip_cr(p),
        ).push(strip_cr(ps[i as int])));
        i = i + 1;
    }
    assert(ps.take(i as int) == ps.drop_last());
    if parts[n - 1].len() > 0 {
        let ghost before = seqs(out@);
        out.push(parts[n - 1].clone());
        assert(seqs(out@) == before.push(ps.last()));
    }
    out
}

/// `join(parts, sep)`.
pub fn join_chars(parts: &Vec<Vec<char>>, sep: &Vec<char>) -> (out: Vec<char>)
    ensures
        out@ == join(seqs(parts@), sep@),
{
    let mut out: Vec<char> = Vec::new();
    let n = parts.len();
    let mut i: usize = 0;
    while i < n
        invariant
            i <= n == parts@.len(),
            out@ == join(seqs(parts@).take(i as int), sep@),
        decreases n - i,
    {
        let ghost ps = seqs(parts@);
        assert(ps.take(i + 1).drop_last() == ps.take(i as int));
        assert(ps.take(i + 1).last() == parts@[i as int]@);
        if i > 0 {
            append_chars(&mut out, sep);
        }
        append_chars(&mut out, &parts[i]);
        if i == 0 {
            assert(ps.take(1) == seq![ps[0]]);
        }
        i = i + 1;
    }
    assert(seqs(parts@).take(n as int) == seqs(parts@));
    out
}

/// Appends all of `more` to `out`.
pub fn append_chars(out: &mut Vec<char>, more: &Vec<char>)
    ensures
        final(out)@ == old(out)@ + more@,
{
    let mut i: usize = 0;
    while i < more.len()
        invariant
            i <= more@.len(),
            out@ == old(out)@ + more@.take(i as int),
        decreases more@.len() - i,
    {
        out.push(more[i]);
        assert(more@.take(i + 1) == more@.take(i as int).push(more@[i as int]));
        i = i + 1;
    }
    assert(more@.take(more@.len() as int) == more@);
}

} // verus!

verus! {

/// Whether `needle` occurs in `hay` at index `at`.
pub fn occurs_at_index(hay: &Vec<char>, needle: &Vec<char>, at: usize) -> (b: bool)
    ensures
        b == occurs_at(hay@, needle@, at as int),
{
    if at > hay.len() || needle.len() > hay.len() - at {
        return false;
    }
    let hay_len = hay.len();
    let mut j: usize = 0;
    while j < needle.len()
        invariant
            at + needle@.len() <= hay@.len() == hay_len,
            j <= needle@.len(),
            forall|k: int| 0 <= k < j ==> hay@[at + k] == needle@[k],
        decreases needle@.len() - j,
    {
        if hay[at + j] != needle[j] {
            assert(hay@.subrange(at as int, at + needle@.len())[j as int] != needle@[j as int]);
            return false;
        }
        j = j + 1;
    }
    assert(hay@.subrange(at as int, at + needle@.len()) =~= needle@);
    true
}

/// `contains(hay, needle)`.
pub fn contains_chars(hay: &Vec<char>, needle: &Vec<char>) -> (b: bool)
    ensures
        b == contains(hay@, needle@),
{
    if needle.len() > hay.len() {
        assert forall|at: int| !occurs_at(hay@, needle@, at) by {}
        return false;
    }
    let hay_len = hay.len();
    let last = hay_len - needle.len();
    let mut at: usize = 0;
    loop
        invariant
            last + needle@.len() == hay@.len() == hay_len,
            at <= last,
            forall|a: int| 0 <= a < at ==> !occurs_at(hay@, needle@, a),
        decreases last - at,
    {
        if occurs_at_index(hay, needle, at) {
            return true;
        }
        if at == last {
            assert forall|a: int| !occurs_at(hay@, needle@, a) by {
                if 0 <= a < at {
                }
            }
            return false;
        }
        at = at + 1;
    }
}

/// `starts_with(s, prefix)`.
pub fn starts_with_chars(s: &Vec<char>, prefix: &Vec<char>) -> (b: bool)
    ensures
        b == starts_with(s@, prefix@),
{
    let r = occurs_at_index(s, prefix, 0);
    proof {
        if prefix@.len() <= s@.len() {
            assert(s@.subrange(0, prefix@.len() as int) == s@.take(prefix@.len() as int));
        }
    }
    r
}

/// `lower_char(c)`.
pub fn lower_char_exec(c: char) -> (out: char)
    ensures
        out == lower_char(c),
{
    if 'A' <= c && c <= 'Z' {
        let code: u32 = c as u32 + 32;
        assert(code <= 'z' as u32);
        char_from_ascii(code)
    } else {
        c
    }
}

/// The character with ASCII code `code`.
fn char_from_ascii(code: u32) -> (out: char)
    requires
        code < 128,
    ensures
        out == code as char,
{
    let b: u8 = code as u8;
    b as char
}

/// `lower(s)`.
pub fn lower_chars(s: &Vec<char>) -> (out: Vec<char>)
    ensures
        out@ == lower(s@),
{
    let mut out: Vec<char> = Vec::new();
    let mut i: usize = 0;
    while i < s.len()
        invariant
            i <= s@.len(),
            out@ == lower(s@.take(i as int)),
        decreases s@.len() - i,
    {
        out.push(lower_char_exec(s[i]));
        assert(lower(s@.take(i + 1)) == lower(s@.take(i as int)).push(lower_char(s@[i as int])));
        i = i + 1;
    }
    assert(s@.take(s@.len() as int) == s@);
    out
}

/// `is_ascii_alnum(c)`.
pub fn is_ascii_alnum_exec(c: char) -> (b: bool)
    ensures
        b == is_ascii_alnum(c),
{
    ('a' <= c && c <= 'z') || ('A' <= c && c <= 'Z') || ('0' <= c && c <= '9')
}

} // verus!

verus! {

/// The character sequences held by a vector of strings.
pub open spec fn strs(v: Seq<String>) -> Seq<Seq<char>> {
    v.map_values(|x: String| x@)
}

/// Each member trimmed.
pub open spec fn trim_each(parts: Seq<Seq<char>>) -> Seq<Seq<char>> {
    parts.map_values(|p: Seq<char>| trim(p))
}

/// The characters of each string.
pub fn char_vecs(v: &Vec<String>) -> (out: Vec<Vec<char>>)
    ensures
        seqs(out@) == strs(v@),
{
    let mut out: Vec<Vec<char>> = Vec::new();
    let mut i: usize = 0;
    while i < v.len()
        invariant
            i <= v@.len(),
            seqs(out@) == strs(v@.take(i as int)),
        decreases v@.len() - i,
    {
        let ghost before = seqs(out@);
        out.push(chars_of(v[i].as_str()));
        assert(strs(v@.take(i + 1)) == strs(v@.take(i as int)).push(v@[i as int]@));
        assert(seqs(out@) == before.push(v@[i as int]@));
        i = i + 1;
    }
    assert(v@.take(v@.len() as int) == v@);
    out
}

/// A string for each character vector.
pub fn strings_of(v: &Vec<Vec<char>>) -> (out: Vec<String>)
    ensures
        strs(out@) == seqs(v@),
{
    let mut out: Vec<String> = Vec::new();
    let mut i: usize = 0;
    while i < v.len()
        invariant
            i <= v@.len(),
            strs(out@) == seqs(v@.take(i as int)),
        decreases v@.len() - i,
    {
        let ghost before = strs(out@);
        out.push(string_from(v[i].as_slice()));
        assert(seqs(v@.take(i + 1)) == seqs(v@.take(i as int)).push(v@[i as int]@));
        assert(strs(out@) == before.push(v@[i as int]@));
        i = i + 1;
    }
    assert(v@.take(v@.len() as int) == v@);
    out
}

/// Every member trimmed.
pub fn trim_all(parts: &Vec<Vec<char>>) -> (out: Vec<Vec<char>>)
    ensures
        seqs(out@) == trim_each(seqs(parts@)),
{
    let mut out: Vec<Vec<char>> = Vec::new();
    let mut i: usize = 0;
    while i < parts.len()
        invariant
            i <= parts@.len(),
            seqs(out@) == trim_each(seqs(parts@.take(i as int))),
        decreases parts@.len() - i,
    {
        let ghost before = seqs(out@);
        out.push(trim_chars(&parts[i]));
        assert(seqs(parts@.take(i + 1)) == seqs(parts@.take(i as int)).push(parts@[i as int]@));
        assert(trim_each(seqs(parts@.take(i + 1))) == trim_each(seqs(parts@.take(i as int))).push(
            trim(parts@[i as int]@),
        ));
        assert(seqs(out@) == before.push(trim(parts@[i as int]@)));
        i = i + 1;
    }
    assert(parts@.take(parts@.len() as int) == parts@);
    out
}

} // verus!

verus! {

/// `str::find`: the index of the first occurrence of `pat` in `s`.
pub open spec fn find(s: Seq<char>, pat: Seq<char>) -> Option<int>
    decreases s.len(),
{
    if starts_with(s, pat) {
        Some(0)
    } else if s.len() == 0 {
        None
    } else {
        match find(s.drop_first(), pat) {
            Some(i) => Some(i + 1),
            None => None,
        }
    }
}

/// `find` gives the first occurrence, and `None` only when there is none.
pub proof fn lemma_find(s: Seq<char>, pat: Seq<char>)
    ensures
        find(s, pat) matches Some(i) ==> occurs_at(s, pat, i) && forall|j: int|
            0 <= j < i ==> !occurs_at(s, pat, j),
        find(s, pat) is None ==> forall|j: int| !occurs_at(s, pat, j),
    decreases s.len(),
{
    assert(starts_with(s, pat) == occurs_at(s, pat, 0)) by {
        if pat.len() <= s.len() {
            assert(s.take(pat.len() as int) == s.subrange(0, pat.len() as int));
        }
    }
    if !starts_with(s, pat) && s.len() > 0 {
        let t = s.drop_first();
        lemma_find(t, pat);
        assert forall|j: int| j >= 0 implies occurs_at(t, pat, j) == occurs_at(s, pat, j + 1) by {
            if j + pat.len() <= t.len() {
                assert(t.subrange(j, j + pat.len()) == s.subrange(j + 1, j + 1 + pat.len()));
            }
        }
        if find(s, pat) is None {
            assert forall|j: int| !occurs_at(s, pat, j) by {
                if j >= 1 {
                    assert(!occurs_at(t, pat, j - 1));
                }
            }
        } else {
            let i = find(t, pat)->0;
            assert forall|j: int| 0 <= j < i + 1 implies !occurs_at(s, pat, j) by {
                if j >= 1 {
                    assert(!occurs_at(t, pat, j - 1));
                }
            }
        }
    } else if !starts_with(s, pat) {
        assert forall|j: int| !occurs_at(s, pat, j) by {}
    }
}

/// `find(s, pat)`.
pub fn find_chars(s: &Vec<char>, pat: &Vec<char>) -> (r: Option<usize>)
    ensures
        match r {
            Some(i) => find(s@, pat@) == Some(i as int),
            None => find(s@, pat@) is None,
        },
{
    proof {
        lemma_find(s@, pat@);
    }
    if pat.len() > s.len() {
        return None;
    }
    let s_len = s.len();
    let last = s_len - pat.len();
    let mut at: usize = 0;
    loop
        invariant
            last + pat@.len() == s@.len() == s_len,
            at <= last,
            forall|a: int| 0 <= a < at ==> !occurs_at(s@, pat@, a),
            find(s@, pat@) matches Some(i) ==> occurs_at(s@, pat@, i) && forall|j: int|
                0 <= j < i ==> !occurs_at(s@, pat@, j),
            find(s@, pat@) is None ==> forall|j: int| !occurs_at(s@, pat@, j),
        decreases last - at,
    {
        if occurs_at_index(s, pat, at) {
            proof {
                if let Some(i) = find(s@, pat@) {
                    if i < at {
                    } else if i > at {
                        assert(!occurs_at(s@, pat@, at as int));
                    }
                }
            }
            return Some(at);
        }
        if at == last {
            proof {
                if let Some(i) = find(s@, pat@) {
                    if i >= 0 && i < at {
                    }
                }
            }
            return None;
        }
        at = at + 1;
    }
}

/// `str::replace`: every non-overlapping occurrence of `pat`, scanning from
/// the left, replaced by `rep`.
pub open spec fn replace_all(s: Seq<char>, pat: Seq<char>, rep: Seq<char>) -> Seq<char>
    decreases s.len(),
{
    if s.len() == 0 {
        s
    } else if pat.len() > 0 && starts_with(s, pat) {
        rep + replace_all(s.skip(pat.len() as int), pat, rep)
    } else {
        seq![s[0]] + replace_all(s.drop_first(), pat, rep)
    }
}

/// `replace_all(s, pat, rep)` for a non-empty pattern.
pub fn replace_chars(s: &Vec<char>, pat: &Vec<char>, rep: &Vec<char>) -> (out: Vec<char>)
    requires
        pat@.len() > 0,
    ensures
        out@ == replace_all(s@, pat@, rep@),
{
    let mut out: Vec<char> = Vec::new();
    let mut i: usize = 0;
    let n = s.len();
    assert(s@.skip(0) == s@);
    while i < n
        invariant
            i <= n == s@.len(),
            pat@.len() > 0,
            replace_all(s@, pat@, rep@) == out@ + replace_all(s@.skip(i as int), pat@, rep@),
        decreases n - i,
    {
        let ghost rest = s@.skip(i as int);
        if occurs_at_index(s, pat, i) {
            assert(starts_with(rest, pat@)) by {
                assert(rest.take(pat@.len() as int) == s@.subrange(i as int, i + pat@.len()));
            }
            assert(rest.skip(pat@.len() as int) == s@.skip(i + pat@.len()));
            append_chars(&mut out, rep);
            i = i + pat.len();
        } else {
            assert(!starts_with(rest, pat@)) by {
                if pat@.len() <= rest.len() {
                    assert(rest.take(pat@.len() as int) == s@.subrange(i as int, i + pat@.len()));
                }
            }
            assert(rest.drop_first() == s@.skip(i + 1));
            assert(rest[0] == s@[i as int]);
            out.push(s[i]);
            i = i + 1;
        }
    }
    out
}

} // verus!

verus! {

/// `trim(s)` neither starts nor ends with whitespace.
pub proof fn lemma_trim_ends(s: Seq<char>)
    ensures
        trim(s).len() > 0 ==> !is_ws(trim(s)[0]) && !is_ws(trim(s).last()),
{
    lemma_trim_start_head(s);
    lemma_trim_end_prefix(trim_start(s));
}

proof fn lemma_trim_start_head(s: Seq<char>)
    ensures
        trim_start(s).len() > 0 ==> !is_ws(trim_start(s)[0]),
    decreases s.len(),
{
    if s.len() > 0 && is_ws(s[0]) {
        lemma_trim_start_head(s.drop_first());
    }
}

proof fn lemma_trim_end_prefix(t: Seq<char>)
    ensures
        trim_end(t).len() <= t.len(),
        trim_end(t) == t.take(trim_end(t).len() as int),
        trim_end(t).len() > 0 ==> !is_ws(trim_end(t).last()),
    decreases t.len(),
{
    if t.len() > 0 && is_ws(t.last()) {
        lemma_trim_end_prefix(t.drop_last());
        let u = trim_end(t.drop_last());
        assert(t.drop_last().take(u.len() as int) == t.take(u.len() as int));
    } else {
        assert(t.take(t.len() as int) == t);
    }
}

/// A sequence that neither starts nor ends with whitespace is its own trim;
/// in particular trimming twice changes nothing.
pub proof fn lemma_trim_fixed(s: Seq<char>)
    requires
        s.len() > 0 ==> !is_ws(s[0]) && !is_ws(s.last()),
    ensures
        trim(s) == s,
{
}

/// Trimming is idempotent.
pub proof fn lemma_trim_idempotent(s: Seq<char>)
    ensures
        trim(trim(s)) == trim(s),
{
    lemma_trim_ends(s);
    lemma_trim_fixed(trim(s));
}

/// Every member of `non_empty(parts)` is a non-empty member of `parts`.
pub proof fn lemma_non_empty_members(parts: Seq<Seq<char>>)
    ensures
        forall|j: int|
            0 <= j < non_empty(parts).len() ==> (#[trigger] non_empty(parts)[j]).len() > 0
                && parts.contains(non_empty(parts)[j]),
    decreases parts.len(),
{
    if parts.len() > 0 {
        let pre = parts.drop_last();
        lemma_non_empty_members(pre);
        assert forall|j: int| 0 <= j < non_empty(parts).len() implies (#[trigger] non_empty(
            parts,
        )[j]).len() > 0 && parts.contains(non_empty(parts)[j]) by {
            let np = non_empty(pre);
            if j < np.len() {
                assert(non_empty(parts)[j] == np[j]);
                let w = choose|w: int| 0 <= w < pre.len() && pre[w] == np[j];
                assert(parts[w] == pre[w]);
            } else {
                assert(non_empty(parts)[j] == parts.last());
                assert(parts[parts.len() - 1] == parts.last());
            }
        }
    }
}

/// No piece of `split_at_ws(s)` holds a whitespace character.
pub proof fn lemma_split_at_ws_pieces(s: Seq<char>)
    ensures
        forall|j: int, k: int|
            0 <= j < split_at_ws(s).len() && 0 <= k < split_at_ws(s)[j].len() ==> !is_ws(
                #[trigger] split_at_ws(s)[j][k],
            ),
        split_at_ws(s).len() >= 1,
    decreases s.len(),
{
    if s.len() > 0 {
        lemma_split_at_ws_pieces(s.drop_last());
        let before = split_at_ws(s.drop_last());
        if !is_ws(s.last()) {
            let last = before.last().push(s.last());
            assert forall|j: int, k: int|
                0 <= j < split_at_ws(s).len() && 0 <= k < split_at_ws(s)[j].len() implies !is_ws(
                #[trigger] split_at_ws(s)[j][k],
            ) by {
                if j == before.len() - 1 {
                    if k < before.last().len() {
                        assert(split_at_ws(s)[j][k] == before[j][k]);
                    }
                } else {
                    assert(split_at_ws(s)[j] == before[j]);
                }
            }
        } else {
            assert forall|j: int, k: int|
                0 <= j < split_at_ws(s).len() && 0 <= k < split_at_ws(s)[j].len() implies !is_ws(
                #[trigger] split_at_ws(s)[j][k],
            ) by {
                if j < before.len() {
                    assert(split_at_ws(s)[j] == before[j]);
                }
            }
        }
    }
}

/// The words of `s` are non-empty and hold no whitespace.
pub proof fn lemma_words(s: Seq<char>)
    ensures
        forall|j: int| 0 <= j < words(s).len() ==> (#[trigger] words(s)[j]).len() > 0,
        forall|j: int, k: int|
            0 <= j < words(s).len() && 0 <= k < words(s)[j].len() ==> !is_ws(#[trigger] words(s)[j][k]),
{
    lemma_split_at_ws_pieces(s);
    lemma_non_empty_members(split_at_ws(s));
    assert forall|j: int, k: int|
        0 <= j < words(s).len() && 0 <= k < words(s)[j].len() implies !is_ws(#[trigger] words(s)[j][k]) by {
        let w = choose|w: int| 0 <= w < split_at_ws(s).len() && split_at_ws(s)[w] == words(s)[j];
        assert(split_at_ws(s)[w][k] == words(s)[j][k]);
    }
}

/// Joining pieces that hold no character `c` with a separator that holds
/// none yields a sequence without `c`.
pub proof fn lemma_join_avoids(parts: Seq<Seq<char>>, sep: Seq<char>, c: char)
    requires
        forall|j: int, k: int| 0 <= j < parts.len() && 0 <= k < parts[j].len() ==> #[trigger] parts[j][k] != c,
        forall|k: int| 0 <= k < sep.len() ==> sep[k] != c,
    ensures
        forall|k: int| 0 <= k < join(parts, sep).len() ==> #[trigger] join(parts, sep)[k] != c,
    decreases parts.len(),
{
    if parts.len() > 1 {
        let pre = parts.drop_last();
        assert forall|j: int, k: int| 0 <= j < pre.len() && 0 <= k < pre[j].len() implies #[trigger] pre[j][k] != c by {
            assert(pre[j] == parts[j]);
        }
        lemma_join_avoids(pre, sep, c);
        let a = join(pre, sep);
        let last = parts.last();
        assert forall|k: int| 0 <= k < join(parts, sep).len() implies #[trigger] join(parts, sep)[k] != c by {
            if k < a.len() {
                assert(join(parts, sep)[k] == a[k]);
            } else if k < a.len() + sep.len() {
                assert(join(parts, sep)[k] == sep[k - a.len()]);
            } else {
                assert(join(parts, sep)[k] == last[k - a.len() - sep.len()]);
                assert(last == parts[parts.len() - 1]);
            }
        }
    } else if parts.len() == 1 {
        assert forall|k: int| 0 <= k < join(parts, sep).len() implies #[trigger] join(parts, sep)[k] != c by {
            assert(join(parts, sep)[k] == parts[0][k]);
        }
    }
}

} // verus!

verus! {

/// Each kept piece of `non_empty(trim_each(parts))` is non-empty and its own
/// trim: no piece keeps surrounding whitespace.
pub proof fn lemma_trimmed_pieces(parts: Seq<Seq<char>>)
    ensures
        forall|j: int|
            0 <= j < non_empty(trim_each(parts)).len() ==> (#[trigger] non_empty(trim_each(parts))[j]).len()
                > 0 && trim(non_empty(trim_each(parts))[j]) == non_empty(trim_each(parts))[j],
{
    let t = trim_each(parts);
    lemma_non_empty_members(t);
    assert forall|j: int| 0 <= j < non_empty(t).len() implies (#[trigger] non_empty(t)[j]).len() > 0
        && trim(non_empty(t)[j]) == non_empty(t)[j] by {
        let w = choose|w: int| 0 <= w < t.len() && t[w] == non_empty(t)[j];
        lemma_trim_idempotent(parts[w]);
    }
}

} // verus!
