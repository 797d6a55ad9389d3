//! Finding the family name under which a bundled font was registered.
use vstd::prelude::*;
use crate::text::{
    char_vecs, chars_of, contains, contains_chars, is_ascii_alnum, is_ascii_alnum_exec,
    lower_char, lower_char_exec, seqs, strs,
};

verus! {

/// A font name reduced to its ASCII letters and digits, lower-cased.
pub open spec fn normalized(s: Seq<char>) -> Seq<char>
    decreases s.len(),
{
    if s.len() == 0 {
        s
    } else if is_ascii_alnum(s.last()) {
        normalized(s.drop_last()).push(lower_char(s.last()))
    } else {
        normalized(s.drop_last())
    }
}

fn normalize_chars(value: &Vec<char>) -> (out: Vec<char>)
    ensures
        out@ == normalized(value@),
{
    let mut out: Vec<char> = Vec::new();
    let mut i: usize = 0;
    while i < value.len()
        invariant
            i <= value@.len(),
            out@ == normalized(value@.take(i as int)),
        decreases value@.len() - i,
    {
        assert(value@.take(i + 1).drop_last() == value@.take(i as int));
        if is_ascii_alnum_exec(value[i]) {
            out.push(lower_char_exec(value[i]));
        }
        i = i + 1;
    }
    assert(value@.take(value@.len() as int) == value@);
    out
}

/// Keeps only the ASCII letters and digits of a font name, lower-cased, so
/// spellings like "Geist Mono" and "GeistMono" compare equal.
pub fn normalize_font_name(value: &str) -> (name: String)
    ensures
        name@ == normalized(value@),
{
    crate::text::string_from(normalize_chars(&chars_of(value)).as_slice())
}

/// Whether a (normalised) registered name answers a (normalised) candidate:
/// equal in the exact pass; either containing the other in the loose pass.
pub open spec fn name_matches(name: Seq<char>, candidate: Seq<char>, exact: bool) -> bool {
    if exact {
        name == candidate
    } else {
        contains(name, candidate) || contains(candidate, name)
    }
}

/// The index of the first name matching `candidate`.
pub open spec fn first_match(names: Seq<Seq<char>>, candidate: Seq<char>, exact: bool) -> Option<int>
    decreases names.len(),
{
    if names.len() == 0 {
        None
    } else if name_matches(names[0], candidate, exact) {
        Some(0)
    } else {
        match first_match(names.drop_first(), candidate, exact) {
            Some(i) => Some(i + 1),
            None => None,
        }
    }
}

/// The first candidate (in order, skipping ones that normalise to nothing)
/// that matches some name, and the index of the first name it matches.
pub open spec fn match_pass(names: Seq<Seq<char>>, candidates: Seq<Seq<char>>, exact: bool) -> Option<
    int,
>
    decreases candidates.len(),
{
    if candidates.len() == 0 {
        None
    } else if candidates[0].len() == 0 {
        match_pass(names, candidates.drop_first(), exact)
    } else {
        match first_match(names, candidates[0], exact) {
            Some(i) => Some(i),
            None => match_pass(names, candidates.drop_first(), exact),
        }
    }
}

/// Each name normalised.
pub open spec fn normalized_all(names: Seq<Seq<char>>) -> Seq<Seq<char>> {
    names.map_values(|n: Seq<char>| normalized(n))
}

/// The index of the registered name a bundled font resolves to: an exact
/// match of the normalised names for any candidate first, else a loose one.
pub open spec fn resolved_index(names: Seq<Seq<char>>, candidates: Seq<Seq<char>>) -> Option<int> {
    let n = normalized_all(names);
    let c = normalized_all(candidates);
    match match_pass(n, c, true) {
        Some(i) => Some(i),
        None => match_pass(n, c, false),
    }
}

fn name_matches_exec(name: &Vec<char>, candidate: &Vec<char>, exact: bool) -> (b: bool)
    ensures
        b == name_matches(name@, candidate@, exact),
{
    if exact {
        let same = name.len() == candidate.len() && crate::text::occurs_at_index(name, candidate, 0);
        proof {
            if name@.len() == candidate@.len() {
                assert(name@.subrange(0, candidate@.len() as int) == name@);
            }
        }
        same
    } else {
        contains_chars(name, candidate) || contains_chars(candidate, name)
    }
}

fn first_match_exec(names: &Vec<Vec<char>>, candidate: &Vec<char>, exact: bool) -> (r: Option<usize>)
    ensures
        match r {
            Some(i) => first_match(seqs(names@), candidate@, exact) == Some(i as int),
            None => first_match(seqs(names@), candidate@, exact) is None,
        },
{
    let ghost all = seqs(names@);
    let mut i: usize = 0;
    assert(all.skip(0) == all);
    while i < names.len()
        invariant
            i <= names@.len(),
            all == seqs(names@),
            first_match(all, candidate@, exact) == match first_match(all.skip(i as int), candidate@, exact) {
                Some(k) => Some(k + i),
                None => None::<int>,
            },
        decreases names@.len() - i,
    {
        assert(all.skip(i as int)[0] == names@[i as int]@);
        assert(all.skip(i as int).drop_first() == all.skip(i + 1));
        if name_matches_exec(&names[i], candidate, exact) {
            return Some(i);
        }
        i = i + 1;
    }
    assert(all.skip(i as int).len() == 0);
    None
}

fn match_pass_exec(names: &Vec<Vec<char>>, candidates: &Vec<Vec<char>>, exact: bool) -> (r: Option<usize>)
    ensures
        match r {
            Some(i) => match_pass(seqs(names@), seqs(candidates@), exact) == Some(i as int),
            None => match_pass(seqs(names@), seqs(candidates@), exact) is None,
        },
{
    let ghost all = seqs(candidates@);
    let mut k: usize = 0;
    assert(all.skip(0) == all);
    while k < candidates.len()
        invariant
            k <= candidates@.len(),
            all == seqs(candidates@),
            match_pass(seqs(names@), all, exact) == match_pass(seqs(names@), all.skip(k as int), exact),
        decreases candidates@.len() - k,
    {
        assert(all.skip(k as int)[0] == candidates@[k as int]@);
        assert(all.skip(k as int).drop_first() == all.skip(k + 1));
        if candidates[k].len() > 0 {
            if let Some(i) = first_match_exec(names, &candidates[k], exact) {
                return Some(i);
            }
        }
        k = k + 1;
    }
    assert(all.skip(k as int).len() == 0);
    None
}

fn normalize_all(v: &Vec<String>) -> (out: Vec<Vec<char>>)
    ensures
        seqs(out@) == normalized_all(strs(v@)),
{
    let raw = char_vecs(v);
    let mut out: Vec<Vec<char>> = Vec::new();
    let mut i: usize = 0;
    while i < raw.len()
        invariant
            i <= raw@.len(),
            seqs(raw@) == strs(v@),
            seqs(out@) == normalized_all(seqs(raw@).take(i as int)),
        decreases raw@.len() - i,
    {
        let ghost before = seqs(out@);
        out.push(normalize_chars(&raw[i]));
        assert(seqs(raw@).take(i + 1) == seqs(raw@).take(i as int).push(raw@[i as int]@));
        assert(seqs(out@) == before.push(normalized(raw@[i as int]@)));
        i = i + 1;
    }
    assert(seqs(raw@).take(raw@.len() as int) == seqs(raw@));
    out
}

/// Resolves a bundled font's family name by best-effort matching against the
/// text system's registered font names: the registered name itself, as
/// `resolved_index` picks it.
pub fn resolve_font_family(all_names: &Vec<String>, candidates: &Vec<String>) -> (family: Option<
    String,
>)
    ensures
        match resolved_index(strs(all_names@), strs(candidates@)) {
            Some(i) => 0 <= i < all_names@.len() && (family matches Some(f) && f@ == all_names@[i]@),
            None => family is None,
        },
{
    let names = normalize_all(all_names);
    let cands = normalize_all(candidates);
    let found = match match_pass_exec(&names, &cands, true) {
        Some(i) => Some(i),
        None => match_pass_exec(&names, &cands, false),
    };
    match found {
        Some(i) => {
            proof {
                lemma_match_pass_in_range(seqs(names@), seqs(cands@), true);
                lemma_match_pass_in_range(seqs(names@), seqs(cands@), false);
            }
            Some(all_names[i].clone())
        },
        None => None,
    }
}

/// Whether a character can stand in a normalised name: an ASCII letter or
/// digit that lower-casing leaves alone.
pub open spec fn is_normal_char(c: char) -> bool {
    is_ascii_alnum(c) && lower_char(c) == c
}

/// A normalised name holds only lower-case ASCII letters and digits.
pub proof fn lemma_normalized_chars(s: Seq<char>)
    ensures
        forall|k: int| 0 <= k < normalized(s).len() ==> is_normal_char(#[trigger] normalized(s)[k]),
    decreases s.len(),
{
    if s.len() > 0 {
        lemma_normalized_chars(s.drop_last());
        let c = s.last();
        if is_ascii_alnum(c) {
            let before = normalized(s.drop_last());
            assert(normalized(s) == before.push(lower_char(c)));
            if 'A' <= c <= 'Z' {
                assert('a' <= lower_char(c) <= 'z');
            }
            assert(is_normal_char(lower_char(c)));
            assert forall|k: int| 0 <= k < normalized(s).len() implies is_normal_char(
                #[trigger] normalized(s)[k],
            ) by {
                if k < before.len() {
                    assert(normalized(s)[k] == before[k]);
                }
            }
        } else {
            assert(normalized(s) == normalized(s.drop_last()));
        }
    }
}

/// A name made only of normalised characters normalises to itself.
pub proof fn lemma_normalized_fixed(s: Seq<char>)
    requires
        forall|k: int| 0 <= k < s.len() ==> is_normal_char(#[trigger] s[k]),
    ensures
        normalized(s) == s,
    decreases s.len(),
{
    if s.len() > 0 {
        assert(is_normal_char(s[s.len() - 1]));
        assert forall|k: int| 0 <= k < s.drop_last().len() implies is_normal_char(
            #[trigger] s.drop_last()[k],
        ) by {
            assert(s.drop_last()[k] == s[k]);
        }
        lemma_normalized_fixed(s.drop_last());
        assert(s.drop_last().push(s.last()) == s);
    }
}

/// Normalising a font name twice gives what normalising it once gave, so a
/// registered name and a candidate can each be normalised independently.
pub proof fn lemma_normalized_idempotent(s: Seq<char>)
    ensures
        normalized(normalized(s)) == normalized(s),
{
    lemma_normalized_chars(s);
    lemma_normalized_fixed(normalized(s));
}

/// In the exact pass a candidate's first match equals it, and a match is
/// found whenever some name equals it.
pub proof fn lemma_first_match_exact(names: Seq<Seq<char>>, candidate: Seq<char>)
    ensures
        first_match(names, candidate, true) matches Some(i) ==> names[i] == candidate,
        (exists|j: int| 0 <= j < names.len() && #[trigger] names[j] == candidate) ==> first_match(
            names,
            candidate,
            true,
        ) is Some,
    decreases names.len(),
{
    if names.len() > 0 {
        let rest = names.drop_first();
        lemma_first_match_exact(rest, candidate);
        lemma_first_match_in_range(rest, candidate, true);
        if names[0] != candidate {
            if exists|j: int| 0 <= j < names.len() && #[trigger] names[j] == candidate {
                let j = choose|j: int| 0 <= j < names.len() && #[trigger] names[j] == candidate;
                assert(rest[j - 1] == candidate);
            }
            if let Some(i) = first_match(rest, candidate, true) {
                assert(names[i + 1] == rest[i]);
            }
        }
    }
}

/// The exact pass finds a name whenever some non-empty candidate equals some
/// name, and what it finds equals one of the candidates.
pub proof fn lemma_exact_pass(names: Seq<Seq<char>>, candidates: Seq<Seq<char>>)
    ensures
        match_pass(names, candidates, true) matches Some(i) ==> exists|k: int|
            0 <= k < candidates.len() && names[i] == #[trigger] candidates[k],
        (exists|j: int, k: int|
            0 <= j < names.len() && 0 <= k < candidates.len() && candidates[k].len() > 0
                && #[trigger] names[j] == #[trigger] candidates[k]) ==> match_pass(
            names,
            candidates,
            true,
        ) is Some,
    decreases candidates.len(),
{
    if candidates.len() > 0 {
        let rest = candidates.drop_first();
        lemma_exact_pass(names, rest);
        lemma_first_match_exact(names, candidates[0]);
        if let Some(i) = match_pass(names, candidates, true) {
            if candidates[0].len() > 0 && first_match(names, candidates[0], true) is Some {
                assert(names[i] == candidates[0]);
            } else {
                let k = choose|k: int| 0 <= k < rest.len() && names[i] == #[trigger] rest[k];
                assert(candidates[k + 1] == rest[k]);
            }
        }
        if exists|j: int, k: int|
            0 <= j < names.len() && 0 <= k < candidates.len() && candidates[k].len() > 0
                && #[trigger] names[j] == #[trigger] candidates[k] {
            let (j, k) = choose|j: int, k: int|
                0 <= j < names.len() && 0 <= k < candidates.len() && candidates[k].len() > 0
                    && #[trigger] names[j] == #[trigger] candidates[k];
            if k > 0 {
                assert(rest[k - 1] == candidates[k]);
            }
        }
    }
}

/// Exact spellings win: when a registered name and a bundled candidate
/// normalise to the same non-empty text, the resolved name is one that
/// normalises to a candidate exactly, never a mere substring match.
pub proof fn lemma_exact_match_wins(names: Seq<Seq<char>>, candidates: Seq<Seq<char>>)
    requires
        exists|j: int, k: int|
            0 <= j < names.len() && 0 <= k < candidates.len() && normalized(candidates[k]).len() > 0
                && #[trigger] normalized(names[j]) == #[trigger] normalized(candidates[k]),
    ensures
        resolved_index(names, candidates) matches Some(i) && exists|k: int|
            0 <= k < candidates.len() && normalized(names[i]) == #[trigger] normalized(candidates[k]),
{
    let n = normalized_all(names);
    let c = normalized_all(candidates);
    let (j, k) = choose|j: int, k: int|
        0 <= j < names.len() && 0 <= k < candidates.len() && normalized(candidates[k]).len() > 0
            && #[trigger] normalized(names[j]) == #[trigger] normalized(candidates[k]);
    assert(n[j] == c[k]);
    lemma_exact_pass(n, c);
    let i = match_pass(n, c, true)->0;
    lemma_match_pass_in_range(n, c, true);
    let k2 = choose|k2: int| 0 <= k2 < c.len() && n[i] == #[trigger] c[k2];
    assert(normalized(names[i]) == normalized(candidates[k2]));
}

/// Loose matching is symmetric: a registered name answers a candidate in the
/// loose pass exactly when the candidate would answer the name.
pub proof fn lemma_loose_match_symmetric(name: Seq<char>, candidate: Seq<char>)
    ensures
        name_matches(name, candidate, false) == name_matches(candidate, name, false),
{
}

/// In the loose pass a name and a candidate match whenever either occurs
/// inside the other, at any position.
pub proof fn lemma_loose_match_by_containment(outer: Seq<char>, inner: Seq<char>, at: int)
    requires
        0 <= at,
        at + inner.len() <= outer.len(),
        outer.subrange(at, at + inner.len()) == inner,
    ensures
        name_matches(outer, inner, false),
        name_matches(inner, outer, false),
{
    assert(crate::text::occurs_at(outer, inner, at));
}

/// A name that matches `candidate` makes the search for it succeed.
pub proof fn lemma_first_match_found(names: Seq<Seq<char>>, candidate: Seq<char>, exact: bool, j: int)
    requires
        0 <= j < names.len(),
        name_matches(names[j], candidate, exact),
    ensures
        first_match(names, candidate, exact) is Some,
    decreases names.len(),
{
    if j > 0 && !name_matches(names[0], candidate, exact) {
        assert(names.drop_first()[j - 1] == names[j]);
        lemma_first_match_found(names.drop_first(), candidate, exact, j - 1);
    }
}

/// A pass succeeds whenever some non-empty candidate matches some name.
pub proof fn lemma_match_pass_found(
    names: Seq<Seq<char>>,
    candidates: Seq<Seq<char>>,
    exact: bool,
    j: int,
    k: int,
)
    requires
        0 <= j < names.len(),
        0 <= k < candidates.len(),
        candidates[k].len() > 0,
        name_matches(names[j], candidates[k], exact),
    ensures
        match_pass(names, candidates, exact) is Some,
    decreases candidates.len(),
{
    if k == 0 {
        lemma_first_match_found(names, candidates[0], exact, j);
    } else if candidates[0].len() == 0 || first_match(names, candidates[0], exact) is None {
        assert(candidates.drop_first()[k - 1] == candidates[k]);
        lemma_match_pass_found(names, candidates.drop_first(), exact, j, k - 1);
    }
}

/// A font is resolved whenever a bundled candidate and a registered name,
/// normalised, are non-empty and one occurs inside the other (at any
/// position): an exact match is taken if there is one, else the loose one.
pub proof fn lemma_containment_resolves(names: Seq<Seq<char>>, candidates: Seq<Seq<char>>, j: int, k: int, at: int, name_inside: bool)
    requires
        0 <= j < names.len(),
        0 <= k < candidates.len(),
        normalized(candidates[k]).len() > 0,
        0 <= at,
        name_inside ==> at + normalized(names[j]).len() <= normalized(candidates[k]).len()
            && normalized(candidates[k]).subrange(at, at + normalized(names[j]).len()) == normalized(names[j]),
        !name_inside ==> at + normalized(candidates[k]).len() <= normalized(names[j]).len()
            && normalized(names[j]).subrange(at, at + normalized(candidates[k]).len()) == normalized(candidates[k]),
    ensures
        resolved_index(names, candidates) is Some,
{
    let n = normalized_all(names);
    let c = normalized_all(candidates);
    assert(n[j] == normalized(names[j]));
    assert(c[k] == normalized(candidates[k]));
    if name_inside {
        lemma_loose_match_by_containment(c[k], n[j], at);
    } else {
        lemma_loose_match_by_containment(n[j], c[k], at);
    }
    lemma_match_pass_found(n, c, false, j, k);
}

/// A pass only ever names an index of a registered name.
pub proof fn lemma_match_pass_in_range(names: Seq<Seq<char>>, candidates: Seq<Seq<char>>, exact: bool)
    ensures
        match_pass(names, candidates, exact) matches Some(i) ==> 0 <= i < names.len(),
    decreases candidates.len(),
{
    if candidates.len() > 0 {
        lemma_match_pass_in_range(names, candidates.drop_first(), exact);
        lemma_first_match_in_range(names, candidates[0], exact);
    }
}

/// A match is an index of a name.
pub proof fn lemma_first_match_in_range(names: Seq<Seq<char>>, candidate: Seq<char>, exact: bool)
    ensures
        first_match(names, candidate, exact) matches Some(i) ==> 0 <= i < names.len(),
    decreases names.len(),
{
    if names.len() > 0 {
        lemma_first_match_in_range(names.drop_first(), candidate, exact);
    }
}

} // verus!
