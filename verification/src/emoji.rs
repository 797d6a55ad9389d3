//! The emoji picker's corpus and search: reading extra keywords from the
//! Unicode CLDR annotations file, when the picker is offered, looking entries
//! up, and ranking them lexically against a query.
use vstd::prelude::*;
use crate::text::{
    char_vecs, chars_of, contains, find, find_chars, join, keep_non_empty, lines, lines_of,
    non_empty, replace_all, replace_chars, seqs, split_chars, split_on, starts_with,
    starts_with_chars, strings_of, strs, trim, trim_all, trim_chars, trim_each, lower,
    lower_chars, contains_chars, slice_chars,
};

verus! {

/// XML entity decoding as the annotations file needs it: `&amp;`, then `&lt;`,
/// then `&gt;`, each replaced throughout.
pub open spec fn unescape(s: Seq<char>) -> Seq<char> {
    replace_all(replace_all(replace_all(s, "&amp;"@, "&"@), "&lt;"@, "<"@), "&gt;"@, ">"@)
}

fn unescape_chars(s: &Vec<char>) -> (out: Vec<char>)
    ensures
        out@ == unescape(s@),
{
    let amp = chars_of("&amp;");
    let lt = chars_of("&lt;");
    let gt = chars_of("&gt;");
    proof {
        reveal_strlit("&amp;");
        reveal_strlit("&lt;");
        reveal_strlit("&gt;");
    }
    let a = replace_chars(s, &amp, &chars_of("&"));
    let b = replace_chars(&a, &lt, &chars_of("<"));
    replace_chars(&b, &gt, &chars_of(">"))
}

/// Decodes the XML entities `&amp;`, `&lt;` and `&gt;` in `value`.
pub fn unescape_xml_entities(value: &str) -> (out: String)
    ensures
        out@ == unescape(value@),
{
    let chars = unescape_chars(&chars_of(value));
    crate::text::string_from(chars.as_slice())
}

/// Each member entity-decoded.
pub open spec fn unescape_each(parts: Seq<Seq<char>>) -> Seq<Seq<char>> {
    parts.map_values(|p: Seq<char>| unescape(p))
}

pub open spec fn annotation_prefix() -> Seq<char> {
    "<annotation cp=\""@
}

/// What one line of the annotations file contributes: for
/// `<annotation cp="X">a | b | c</annotation>` the code point `X` and its
/// non-empty, trimmed, entity-decoded keywords. The `type="tts"` lines (just
/// the display name) and malformed lines contribute nothing, and neither does
/// a line with no keyword.
pub open spec fn annotation_of_line(raw: Seq<char>) -> Option<(Seq<char>, Seq<Seq<char>>)> {
    let line = trim(raw);
    if contains(line, "type=\"tts\""@) || !starts_with(line, annotation_prefix()) {
        None
    } else {
        let rest = line.skip(annotation_prefix().len() as int);
        match (find(rest, seq!['"']), find(rest, seq!['>'])) {
            (Some(cp_end), Some(tag_close)) => {
                let after = rest.skip(tag_close + 1);
                match find(after, "</annotation>"@) {
                    Some(body_len) => {
                        let keywords = non_empty(
                            unescape_each(trim_each(split_on(after.take(body_len), '|'))),
                        );
                        if keywords.len() == 0 {
                            None
                        } else {
                            Some((rest.take(cp_end), keywords))
                        }
                    },
                    None => None,
                }
            },
            _ => None,
        }
    }
}

/// Association list semantics: later entries override earlier ones.
pub open spec fn assoc_map(entries: Seq<(String, Vec<String>)>) -> Map<Seq<char>, Seq<Seq<char>>>
    decreases entries.len(),
{
    if entries.len() == 0 {
        Map::empty()
    } else {
        assoc_map(entries.drop_last()).insert(entries.last().0@, strs(entries.last().1@))
    }
}

/// The keywords per code point that a sequence of lines yields, a later line
/// for the same code point replacing an earlier one.
pub open spec fn annotations_of_lines(ls: Seq<Seq<char>>) -> Map<Seq<char>, Seq<Seq<char>>>
    decreases ls.len(),
{
    if ls.len() == 0 {
        Map::empty()
    } else {
        let before = annotations_of_lines(ls.drop_last());
        match annotation_of_line(ls.last()) {
            Some((cp, keywords)) => before.insert(cp, keywords),
            None => before,
        }
    }
}

/// Extra keywords per emoji (keyed by the emoji's text), as read from the CLDR
/// annotations file.
pub struct CldrAnnotations {
    pub entries: Vec<(String, Vec<String>)>,
}

impl View for CldrAnnotations {
    type V = Map<Seq<char>, Seq<Seq<char>>>;

    open spec fn view(&self) -> Map<Seq<char>, Seq<Seq<char>>> {
        assoc_map(self.entries@)
    }
}

/// `annotation_of_line(line)`.
fn annotation_of_line_exec(line: &Vec<char>) -> (r: Option<(Vec<char>, Vec<Vec<char>>)>)
    ensures
        match annotation_of_line(line@) {
            Some((cp, keywords)) => r matches Some((c, k)) && c@ == cp && seqs(k@) == keywords,
            None => r is None,
        },
{
    let line = trim_chars(line);
    if contains_chars(&line, &chars_of("type=\"tts\"")) {
        return None;
    }
    let prefix = chars_of("<annotation cp=\"");
    if !starts_with_chars(&line, &prefix) {
        return None;
    }
    let rest = slice_chars(&line, prefix.len(), line.len());
    let mut quote: Vec<char> = Vec::new();
    quote.push('"');
    let mut close: Vec<char> = Vec::new();
    close.push('>');
    let cp_end = match find_chars(&rest, &quote) {
        Some(i) => i,
        None => return None,
    };
    let tag_close = match find_chars(&rest, &close) {
        Some(i) => i,
        None => return None,
    };
    proof {
        crate::text::lemma_find(rest@, quote@);
        crate::text::lemma_find(rest@, close@);
    }
    assert(quote@ == seq!['"']);
    assert(close@ == seq!['>']);
    let after = slice_chars(&rest, tag_close + 1, rest.len());
    assert(after@ == rest@.skip(tag_close + 1));
    let body_len = match find_chars(&after, &chars_of("</annotation>")) {
        Some(i) => i,
        None => return None,
    };
    proof {
        crate::text::lemma_find(after@, "</annotation>"@);
    }
    let body = slice_chars(&after, 0, body_len);
    assert(body@ == after@.take(body_len as int));
    assert(rest@ == line@.skip(prefix@.len() as int));
    let pieces = trim_all(&split_chars(&body, '|'));
    let mut decoded: Vec<Vec<char>> = Vec::new();
    let mut i: usize = 0;
    while i < pieces.len()
        invariant
            i <= pieces@.len(),
            seqs(decoded@) == unescape_each(seqs(pieces@.take(i as int))),
        decreases pieces@.len() - i,
    {
        let ghost before = seqs(decoded@);
        decoded.push(unescape_chars(&pieces[i]));
        assert(seqs(pieces@.take(i + 1)) == seqs(pieces@.take(i as int)).push(pieces@[i as int]@));
        assert(seqs(decoded@) == before.push(unescape(pieces@[i as int]@)));
        i = i + 1;
    }
    assert(pieces@.take(pieces@.len() as int) == pieces@);
    let keywords = keep_non_empty(decoded);
    if keywords.len() == 0 {
        return None;
    }
    let cp = slice_chars(&rest, 0, cp_end);
    Some((cp, keywords))
}

/// Parses the `<annotation cp="X">a | b | c</annotation>` lines of a CLDR
/// annotations document into keywords per code point, skipping the paired
/// `type="tts"` lines.
pub fn parse_cldr_annotations(xml: &str) -> (annotations: CldrAnnotations)
    ensures
        annotations@ == annotations_of_lines(lines(xml@)),
{
    let ls = lines_of(&chars_of(xml));
    let mut entries: Vec<(String, Vec<String>)> = Vec::new();
    let mut i: usize = 0;
    while i < ls.len()
        invariant
            i <= ls@.len(),
            assoc_map(entries@) == annotations_of_lines(seqs(ls@).take(i as int)),
        decreases ls@.len() - i,
    {
        let ghost ps = seqs(ls@);
        assert(ps.take(i + 1).drop_last() == ps.take(i as int));
        assert(ps.take(i + 1).last() == ls@[i as int]@);
        match annotation_of_line_exec(&ls[i]) {
            Some((cp, keywords)) => {
                let cp_s = crate::text::string_from(cp.as_slice());
                let kws = strings_of(&keywords);
                let ghost before = entries@;
                entries.push((cp_s, kws));
                assert(entries@.drop_last() == before);
                assert(assoc_map(entries@) == assoc_map(before).insert(cp@, seqs(keywords@)));
            },
            None => {},
        }
        i = i + 1;
    }
    assert(seqs(ls@).take(ls@.len() as int) == seqs(ls@));
    CldrAnnotations { entries }
}

} // verus!

verus! {

/// Whether the query (trimmed, lower-cased) is a non-empty prefix of "emoji",
/// the trigger for offering the emoji-search row.
pub open spec fn offers_emoji_search(query: Seq<char>) -> bool {
    let normalized = lower(trim(query));
    normalized.len() > 0 && starts_with("emoji"@, normalized)
}

/// True when the trimmed, lower-cased query is a non-empty prefix of "emoji".
pub fn should_show_emoji_affordance(query: &str) -> (show: bool)
    ensures
        show == offers_emoji_search(query@),
{
    let normalized = lower_chars(&trim_chars(&chars_of(query)));
    normalized.len() > 0 && starts_with_chars(&chars_of("emoji"), &normalized)
}

/// One emoji of the picker's corpus: its glyph, CLDR name, and keywords
/// (shortcodes, then annotation keywords not already among them).
pub struct EmojiEntry {
    pub glyph: String,
    pub name: String,
    pub keywords: Vec<String>,
}

/// Glyph and display name of the entry at `index`, for rendering.
pub fn entry_at(entries: &Vec<EmojiEntry>, index: usize) -> (r: Option<(&str, &str)>)
    ensures
        index < entries@.len() ==> (r matches Some((g, n)) && g@ == entries@[index as int].glyph@
            && n@ == entries@[index as int].name@),
        index >= entries@.len() ==> r is None,
{
    if index < entries.len() {
        let entry = &entries[index];
        Some((entry.glyph.as_str(), entry.name.as_str()))
    } else {
        None
    }
}

/// `base` followed by the members of `extra` that are not already present
/// (checked against everything added so far).
pub open spec fn merged(base: Seq<Seq<char>>, extra: Seq<Seq<char>>) -> Seq<Seq<char>>
    decreases extra.len(),
{
    if extra.len() == 0 {
        base
    } else {
        let before = merged(base, extra.drop_last());
        if before.contains(extra.last()) {
            before
        } else {
            before.push(extra.last())
        }
    }
}

fn contains_string(v: &Vec<String>, s: &String) -> (b: bool)
    ensures
        b == strs(v@).contains(s@),
{
    let mut i: usize = 0;
    while i < v.len()
        invariant
            i <= v@.len(),
            forall|j: int| 0 <= j < i ==> v@[j]@ != s@,
        decreases v@.len() - i,
    {
        if v[i] == *s {
            assert(strs(v@)[i as int] == s@);
            return true;
        }
        i = i + 1;
    }
    assert forall|j: int| 0 <= j < strs(v@).len() implies strs(v@)[j] != s@ by {
        assert(strs(v@)[j] == v@[j]@);
    }
    false
}

/// An emoji's keyword list: its shortcodes, then each annotation keyword not
/// already present.
pub fn merge_keywords(shortcodes: Vec<String>, extra: &Vec<String>) -> (keywords: Vec<String>)
    ensures
        strs(keywords@) == merged(strs(shortcodes@), strs(extra@)),
{
    let mut keywords = shortcodes;
    let ghost base = strs(keywords@);
    let mut i: usize = 0;
    while i < extra.len()
        invariant
            i <= extra@.len(),
            strs(keywords@) == merged(base, strs(extra@).take(i as int)),
        decreases extra@.len() - i,
    {
        let ghost ex = strs(extra@);
        assert(ex.take(i + 1).drop_last() == ex.take(i as int));
        assert(ex.take(i + 1).last() == extra@[i as int]@);
        if !contains_string(&keywords, &extra[i]) {
            let ghost before = strs(keywords@);
            keywords.push(extra[i].clone());
            assert(strs(keywords@) == before.push(extra@[i as int]@));
        }
        i = i + 1;
    }
    assert(strs(extra@).take(extra@.len() as int) == strs(extra@));
    keywords
}

/// The extra keywords the annotations give for `glyph`, if any.
pub fn cldr_keywords<'a>(annotations: &'a CldrAnnotations, glyph: &str) -> (r: Option<&'a Vec<String>>)
    ensures
        match r {
            Some(k) => annotations@.contains_key(glyph@) && annotations@[glyph@] == strs(k@),
            None => !annotations@.contains_key(glyph@),
        },
{
    let entries = &annotations.entries;
    let target = String::from_str(glyph);
    let mut i = entries.len();
    assert(entries@.take(entries@.len() as int) == entries@);
    while i > 0
        invariant
            i <= entries@.len(),
            entries@ == annotations.entries@,
            target@ == glyph@,
            forall|j: int| i <= j < entries@.len() ==> entries@[j].0@ != glyph@,
            assoc_map(entries@).contains_key(glyph@) == assoc_map(entries@.take(i as int)).contains_key(glyph@),
            assoc_map(entries@).contains_key(glyph@) ==> assoc_map(entries@)[glyph@] == assoc_map(entries@.take(i as int))[glyph@],
        decreases i,
    {
        let ghost pre = entries@.take(i as int);
        assert(pre.drop_last() == entries@.take(i - 1));
        assert(pre.last() == entries@[i - 1]);
        assert(assoc_map(pre) == assoc_map(entries@.take(i - 1)).insert(
            entries@[i - 1].0@,
            strs(entries@[i - 1].1@),
        ));
        if entries[i - 1].0 == target {
            assert(assoc_map(pre).contains_key(glyph@));
            assert(assoc_map(pre)[glyph@] == strs(entries@[i - 1].1@));
            return Some(&entries[i - 1].1);
        }
        i = i - 1;
    }
    None
}

} // verus!

verus! {

/// An emoji as the `emojis` crate lists it.
pub struct CatalogEmoji {
    pub glyph: String,
    pub name: String,
    pub shortcodes: Vec<String>,
}

/// The first five emojis of the `emojis` crate's list, in order: glyph, CLDR
/// name and GitHub shortcodes.
pub open spec fn leading_faces() -> Seq<(Seq<char>, Seq<char>, Seq<Seq<char>>)> {
    seq![
        ("😀"@, "grinning face"@, seq!["grinning"@]),
        ("😃"@, "grinning face with big eyes"@, seq!["smiley"@]),
        ("😄"@, "grinning face with smiling eyes"@, seq!["smile"@]),
        ("😁"@, "beaming face with smiling eyes"@, seq!["grin"@]),
        ("😆"@, "grinning squinting face"@, seq!["laughing"@, "satisfied"@]),
    ]
}

/// How many emojis the `emojis` crate lists once non-default skin tones are
/// left out.
pub const EMOJI_CATALOG_LEN: usize = 1923;

/// Whether no two emojis of a list share a glyph.
pub open spec fn distinct_glyphs(catalog: Seq<CatalogEmoji>) -> bool {
    forall|i: int, j: int|
        0 <= i < j < catalog.len() ==> (#[trigger] catalog[i]).glyph@ != (#[trigger] catalog[j]).glyph@
}

/// Whether a list of emojis begins with the five faces of `leading_faces`,
/// each with its name and shortcodes.
pub open spec fn starts_with_leading_faces(catalog: Seq<CatalogEmoji>) -> bool {
    &&& catalog.len() >= 5
    &&& forall|i: int|
        0 <= i < 5 ==> (#[trigger] catalog[i]).glyph@ == leading_faces()[i].0
            && catalog[i].name@ == leading_faces()[i].1 && strs(catalog[i].shortcodes@)
            == leading_faces()[i].2
}

/// Calls `emojis::iter()`: every emoji the crate knows, skin-tone variants
/// left out, in CLDR order, each with its text, CLDR name and GitHub
/// shortcodes. Trusted, as the crate's data table shows: the list holds
/// `EMOJI_CATALOG_LEN` emojis with distinct glyphs, and begins with the five
/// faces that the crate's documented example and its table put first
/// (`leading_faces`). Of the other entries' contents nothing is stated.
#[verifier::external_body]
fn emoji_catalog() -> (catalog: Vec<CatalogEmoji>)
    ensures
        catalog@.len() == EMOJI_CATALOG_LEN,
        distinct_glyphs(catalog@),
        starts_with_leading_faces(catalog@),
{
    emojis::iter().map(
        |e| CatalogEmoji {
            glyph: e.as_str().to_owned(),
            name: e.name().to_owned(),
            shortcodes: e.shortcodes().map(|s| s.to_owned()).collect(),
        },
    ).collect()
}

/// The annotation keywords for `glyph`, empty when it has none.
pub open spec fn extra_keywords(annotations: Map<Seq<char>, Seq<Seq<char>>>, glyph: Seq<char>) -> Seq<
    Seq<char>,
> {
    if annotations.contains_key(glyph) {
        annotations[glyph]
    } else {
        Seq::empty()
    }
}

/// The corpus entry made from one catalog emoji.
pub open spec fn entry_matches(
    entry: EmojiEntry,
    from: CatalogEmoji,
    annotations: Map<Seq<char>, Seq<Seq<char>>>,
) -> bool {
    &&& entry.glyph@ == from.glyph@
    &&& entry.name@ == from.name@
    &&& strs(entry.keywords@) == merged(strs(from.shortcodes@), extra_keywords(annotations, from.glyph@))
}

/// The picker's corpus from a catalog: one entry per emoji, in catalog order,
/// with the annotation keywords merged into its shortcodes.
pub fn emoji_entries_from(catalog: Vec<CatalogEmoji>, annotations: &CldrAnnotations) -> (entries: Vec<
    EmojiEntry,
>)
    ensures
        entries@.len() == catalog@.len(),
        forall|i: int| 0 <= i < catalog@.len() ==> entry_matches(#[trigger] entries@[i], catalog@[i], annotations@),
{
    let ghost all = catalog@;
    let mut entries: Vec<EmojiEntry> = Vec::new();
    let mut catalog = catalog;
    let n = catalog.len();
    assert(all.skip(0) == all);
    while catalog.len() > 0
        invariant
            catalog@.len() + entries@.len() == n == all.len(),
            catalog@ == all.skip(entries@.len() as int),
            forall|i: int| 0 <= i < entries@.len() ==> entry_matches(#[trigger] entries@[i], all[i], annotations@),
        decreases catalog@.len(),
    {
        let ghost k = entries@.len();
        let from = catalog.remove(0);
        assert(from == all[k as int]);
        assert(catalog@ == all.skip(k + 1 as int));
        let extra = cldr_keywords(annotations, from.glyph.as_str());
        let keywords = match extra {
            Some(k) => merge_keywords(from.shortcodes, k),
            None => {
                let empty: Vec<String> = Vec::new();
                merge_keywords(from.shortcodes, &empty)
            },
        };
        entries.push(EmojiEntry { glyph: from.glyph, name: from.name, keywords });
        assert(entry_matches(entries@[k as int], all[k as int], annotations@));
    }
    entries
}

} // verus!

verus! {

/// Merging keeps every shortcode and adds every annotation keyword.
pub proof fn lemma_merged_contains(base: Seq<Seq<char>>, extra: Seq<Seq<char>>)
    ensures
        forall|i: int| 0 <= i < base.len() ==> merged(base, extra).contains(#[trigger] base[i]),
        forall|i: int| 0 <= i < extra.len() ==> merged(base, extra).contains(#[trigger] extra[i]),
    decreases extra.len(),
{
    if extra.len() > 0 {
        let pre = extra.drop_last();
        lemma_merged_contains(base, pre);
        let before = merged(base, pre);
        assert forall|i: int| 0 <= i < extra.len() implies merged(base, extra).contains(
            #[trigger] extra[i],
        ) by {
            if i < extra.len() - 1 {
                assert(extra[i] == pre[i]);
                assert(before.contains(pre[i]));
                if !before.contains(extra.last()) {
                    let j = choose|j: int| 0 <= j < before.len() && before[j] == pre[i];
                    assert(before.push(extra.last())[j] == pre[i]);
                }
            } else {
                if !before.contains(extra.last()) {
                    assert(before.push(extra.last())[before.len() as int] == extra.last());
                }
            }
        }
        assert forall|i: int| 0 <= i < base.len() implies merged(base, extra).contains(
            #[trigger] base[i],
        ) by {
            assert(before.contains(base[i]));
            if !before.contains(extra.last()) {
                let j = choose|j: int| 0 <= j < before.len() && before[j] == base[i];
                assert(before.push(extra.last())[j] == base[i]);
            }
        }
    }
}

/// What the trusted catalog is known to be: `EMOJI_CATALOG_LEN` emojis with
/// distinct glyphs, beginning with the leading faces.
pub open spec fn catalog_facts(catalog: Seq<CatalogEmoji>) -> bool {
    &&& catalog.len() == EMOJI_CATALOG_LEN
    &&& distinct_glyphs(catalog)
    &&& starts_with_leading_faces(catalog)
}

/// Whether `entries` is the corpus made from `catalog`: one entry per emoji,
/// in order, each as `entry_matches` describes.
pub open spec fn built_from(
    entries: Seq<EmojiEntry>,
    catalog: Seq<CatalogEmoji>,
    annotations: Map<Seq<char>, Seq<Seq<char>>>,
) -> bool {
    &&& entries.len() == catalog.len()
    &&& forall|i: int| 0 <= i < catalog.len() ==> entry_matches(#[trigger] entries[i], catalog[i], annotations)
}

/// The picker's corpus: every emoji of the `emojis` crate, with the CLDR
/// annotation keywords merged into its shortcodes: the corpus built, entry
/// by entry, from a catalog that meets everything known of the crate's list
/// (`catalog_facts`, `built_from`); one entry per listed emoji, no glyph twice. It begins with the five faces the crate lists
/// first, each keyword list being its shortcodes with the annotation keywords
/// merged in, and every entry's keywords include all the annotation keywords
/// for its glyph.
pub fn build_emoji_entries(annotations: &CldrAnnotations) -> (entries: Vec<EmojiEntry>)
    ensures
        exists|catalog: Seq<CatalogEmoji>|
            #![trigger built_from(entries@, catalog, annotations@)]
            catalog_facts(catalog) && built_from(entries@, catalog, annotations@),
        entries@.len() == EMOJI_CATALOG_LEN,
        forall|i: int, j: int|
            0 <= i < j < entries@.len() ==> (#[trigger] entries@[i]).glyph@ != (#[trigger] entries@[j]).glyph@,
        forall|i: int|
            0 <= i < 5 ==> (#[trigger] entries@[i]).glyph@ == leading_faces()[i].0
                && entries@[i].name@ == leading_faces()[i].1 && strs(entries@[i].keywords@)
                == merged(leading_faces()[i].2, extra_keywords(annotations@, leading_faces()[i].0)),
        forall|i: int, k: int|
            0 <= i < entries@.len() && 0 <= k < extra_keywords(annotations@, entries@[i].glyph@).len()
                ==> strs(entries@[i].keywords@).contains(
                #[trigger] extra_keywords(annotations@, entries@[i].glyph@)[k],
            ),
{
    let catalog = emoji_catalog();
    let ghost cat = catalog@;
    let entries = emoji_entries_from(catalog, annotations);
    assert forall|i: int, k: int|
        0 <= i < entries@.len() && 0 <= k < extra_keywords(annotations@, entries@[i].glyph@).len()
            implies strs(entries@[i].keywords@).contains(
        #[trigger] extra_keywords(annotations@, entries@[i].glyph@)[k],
    ) by {
        assert(entry_matches(entries@[i], cat[i], annotations@));
        lemma_merged_contains(
            strs(cat[i].shortcodes@),
            extra_keywords(annotations@, cat[i].glyph@),
        );
    }
    assert forall|i: int| 0 <= i < 5 implies (#[trigger] entries@[i]).glyph@ == leading_faces()[i].0
        && entries@[i].name@ == leading_faces()[i].1 && strs(entries@[i].keywords@) == merged(
        leading_faces()[i].2,
        extra_keywords(annotations@, leading_faces()[i].0),
    ) by {
        assert(entry_matches(entries@[i], cat[i], annotations@));
        assert(cat[i].glyph@ == leading_faces()[i].0);
    }
    assert forall|i: int, j: int|
        0 <= i < j < entries@.len() implies (#[trigger] entries@[i]).glyph@ != (
        #[trigger] entries@[j]).glyph@ by {
        assert(entry_matches(entries@[i], cat[i], annotations@));
        assert(entry_matches(entries@[j], cat[j], annotations@));
        assert(cat[i].glyph@ != cat[j].glyph@);
    }
    assert(catalog_facts(cat) && built_from(entries@, cat, annotations@));
    entries
}

} // verus!

verus! {

/// How well one query term matches an emoji's search terms, in half points: 2
/// when it is one of them, 1 when it occurs inside one, 0 otherwise.
pub open spec fn term_score(candidates: Seq<Seq<char>>, term: Seq<char>) -> nat {
    if candidates.contains(term) {
        2
    } else if exists|k: int| 0 <= k < candidates.len() && contains(#[trigger] candidates[k], term) {
        1
    } else {
        0
    }
}

/// The sum of `term_score` over the query terms.
pub open spec fn terms_score(candidates: Seq<Seq<char>>, terms: Seq<Seq<char>>) -> nat
    decreases terms.len(),
{
    if terms.len() == 0 {
        0
    } else {
        terms_score(candidates, terms.drop_last()) + term_score(candidates, terms.last())
    }
}

/// Whether the lower-cased query is an emoji's name or one of its keywords.
pub open spec fn is_exact_match(name: Seq<char>, keywords: Seq<Seq<char>>, query_lower: Seq<char>) -> bool {
    name == query_lower || keywords.contains(query_lower)
}

/// The score of an exact name or keyword match: above any sum of term scores
/// the query's terms can reach, so exact matches rank first.
pub open spec fn exact_match_score(query_terms: Seq<Seq<char>>) -> nat {
    2 * query_terms.len() + 2
}

/// The lexical score of an emoji, in half points: an exact match of the
/// lower-cased query with its name or one of its keywords scores
/// `exact_match_score`; otherwise the term scores are summed.
pub open spec fn lexical_score(
    name: Seq<char>,
    keywords: Seq<Seq<char>>,
    search_terms: Seq<Seq<char>>,
    query_lower: Seq<char>,
    query_terms: Seq<Seq<char>>,
) -> nat {
    if is_exact_match(name, keywords, query_lower) {
        exact_match_score(query_terms)
    } else {
        terms_score(search_terms, query_terms)
    }
}

/// A query term that is one of an entry's search terms adds a whole point
/// (two half points).
pub proof fn lemma_whole_term_scores_two(candidates: Seq<Seq<char>>, term: Seq<char>, k: int)
    requires
        0 <= k < candidates.len(),
        candidates[k] == term,
    ensures
        term_score(candidates, term) == 2,
{
    assert(candidates.contains(term));
}

/// A query term that occurs anywhere inside one of an entry's search terms
/// (at any position, not only as a prefix), without being a search term
/// itself, adds half a point.
pub proof fn lemma_inner_term_scores_one(candidates: Seq<Seq<char>>, term: Seq<char>, k: int, at: int)
    requires
        0 <= k < candidates.len(),
        0 <= at,
        at + term.len() <= candidates[k].len(),
        candidates[k].subrange(at, at + term.len()) == term,
        forall|j: int| 0 <= j < candidates.len() ==> candidates[j] != term,
    ensures
        term_score(candidates, term) == 1,
{
    assert(crate::text::occurs_at(candidates[k], term, at));
    assert(contains(candidates[k], term));
}

/// A query term that occurs in none of an entry's search terms adds nothing.
pub proof fn lemma_absent_term_scores_zero(candidates: Seq<Seq<char>>, term: Seq<char>)
    requires
        forall|k: int, at: int, end: int|
            0 <= k < candidates.len() && 0 <= at && end == at + term.len() && end <= candidates[k].len()
                ==> #[trigger] candidates[k].subrange(at, end) != term,
    ensures
        term_score(candidates, term) == 0,
{
    if candidates.contains(term) {
        let k = choose|k: int| 0 <= k < candidates.len() && candidates[k] == term;
        assert(candidates[k].subrange(0, term.len() as int) == term);
    }
    if exists|k: int| 0 <= k < candidates.len() && contains(#[trigger] candidates[k], term) {
        let k = choose|k: int| 0 <= k < candidates.len() && contains(#[trigger] candidates[k], term);
        let at = choose|at: int| crate::text::occurs_at(candidates[k], term, at);
        assert(candidates[k].subrange(at, at + term.len()) == term);
    }
}

/// Each query term adds at most one whole point (two half points).
pub proof fn lemma_terms_score_bound(candidates: Seq<Seq<char>>, terms: Seq<Seq<char>>)
    ensures
        terms_score(candidates, terms) <= 2 * terms.len(),
    decreases terms.len(),
{
    if terms.len() > 0 {
        lemma_terms_score_bound(candidates, terms.drop_last());
    }
}

fn term_score_exec(candidates: &Vec<String>, term: &String) -> (score: u128)
    ensures
        score == term_score(strs(candidates@), term@),
{
    if contains_string(candidates, term) {
        return 2;
    }
    let t = chars_of(term.as_str());
    let mut k: usize = 0;
    while k < candidates.len()
        invariant
            k <= candidates@.len(),
            t@ == term@,
            !strs(candidates@).contains(term@),
            forall|j: int| 0 <= j < k ==> !contains(#[trigger] strs(candidates@)[j], term@),
        decreases candidates@.len() - k,
    {
        if contains_chars(&chars_of(candidates[k].as_str()), &t) {
            assert(contains(strs(candidates@)[k as int], term@));
            return 1;
        }
        k = k + 1;
    }
    0
}

/// The lexical score of `entry` with search terms `search_terms`, against the
/// lower-cased query and its terms.
pub fn lexical_emoji_score(
    entry: &EmojiEntry,
    search_terms: &Vec<String>,
    query_lower: &String,
    query_terms: &Vec<String>,
) -> (score: u128)
    ensures
        score == lexical_score(
            entry.name@,
            strs(entry.keywords@),
            strs(search_terms@),
            query_lower@,
            strs(query_terms@),
        ),
{
    if entry.name == *query_lower || contains_string(&entry.keywords, query_lower) {
        return 2 * (query_terms.len() as u128) + 2;
    }
    let mut score: u128 = 0;
    let mut i: usize = 0;
    while i < query_terms.len()
        invariant
            i <= query_terms@.len(),
            score == terms_score(strs(search_terms@), strs(query_terms@).take(i as int)),
            score <= 2 * i,
        decreases query_terms@.len() - i,
    {
        let ghost qt = strs(query_terms@);
        assert(qt.take(i + 1).drop_last() == qt.take(i as int));
        assert(qt.take(i + 1).last() == query_terms@[i as int]@);
        score = score + term_score_exec(search_terms, &query_terms[i]);
        i = i + 1;
    }
    assert(strs(query_terms@).take(query_terms@.len() as int) == strs(query_terms@));
    score
}

} // verus!

verus! {

/// Ranking order: higher score first, then lower index.
pub open spec fn ranks_before(scores: Seq<u128>, a: int, b: int) -> bool {
    scores[a] > scores[b] || (scores[a] == scores[b] && a < b)
}

/// `out` is the best-ranked `limit` (or fewer) of the indices with a positive
/// score, best first: every listed index scores above zero, the list is in
/// ranking order, and a positive index is left out only when the list is full
/// and everything listed ranks before it.
pub open spec fn is_ranking(scores: Seq<u128>, out: Seq<usize>, limit: nat) -> bool {
    &&& out.len() <= limit
    &&& forall|p: int| 0 <= p < out.len() ==> (#[trigger] out[p]) < scores.len() && scores[out[p] as int] > 0
    &&& forall|p: int, q: int| 0 <= p < q < out.len() ==> ranks_before(scores, #[trigger] out[p] as int, #[trigger] out[q] as int)
    &&& forall|i: int|
        0 <= i < scores.len() && scores[i] > 0 && !out.contains(i as usize) ==> out.len() == limit
            && forall|p: int| 0 <= p < out.len() ==> ranks_before(scores, #[trigger] out[p] as int, i)
}

/// The indices with a positive score, best first (by score, then index), at
/// most `limit` of them.
pub fn rank_by_score(scores: &Vec<u128>, limit: usize) -> (out: Vec<usize>)
    ensures
        is_ranking(scores@, out@, limit as nat),
{
    let n = scores.len();
    let mut top: u128 = 0;
    let mut i: usize = 0;
    while i < n
        invariant
            i <= n == scores@.len(),
            forall|j: int| 0 <= j < i ==> scores@[j] <= top,
        decreases n - i,
    {
        if scores[i] > top {
            top = scores[i];
        }
        i = i + 1;
    }
    let mut full: Vec<usize> = Vec::new();
    let mut level = top;
    while level > 0
        invariant
            n == scores@.len(),
            forall|j: int| 0 <= j < n ==> scores@[j] <= top,
            level <= top,
            forall|p: int| 0 <= p < full@.len() ==> (#[trigger] full@[p]) < n && scores@[full@[p] as int] > level,
            forall|p: int, q: int| 0 <= p < q < full@.len() ==> ranks_before(scores@, #[trigger] full@[p] as int, #[trigger] full@[q] as int),
            forall|j: int| 0 <= j < n && scores@[j] > level ==> full@.contains(j as usize),
        decreases level,
    {
        let mut k: usize = 0;
        while k < n
            invariant
                n == scores@.len(),
                0 < level <= top,
                k <= n,
                forall|p: int| 0 <= p < full@.len() ==> (#[trigger] full@[p]) < n && scores@[full@[p] as int] >= level,
                forall|p: int| 0 <= p < full@.len() && scores@[full@[p] as int] == level ==> (#[trigger] full@[p]) < k,
                forall|p: int, q: int| 0 <= p < q < full@.len() ==> ranks_before(scores@, #[trigger] full@[p] as int, #[trigger] full@[q] as int),
                forall|j: int| 0 <= j < n && scores@[j] > level ==> full@.contains(j as usize),
                forall|j: int| 0 <= j < k && scores@[j] == level ==> full@.contains(j as usize),
            decreases n - k,
        {
            if scores[k] == level {
                let ghost before = full@;
                full.push(k);
                assert forall|j: int| 0 <= j < n && scores@[j] > level implies full@.contains(j as usize) by {
                    let w = choose|w: int| 0 <= w < before.len() && before[w] == j as usize;
                    assert(full@[w] == j as usize);
                }
                assert forall|j: int| 0 <= j < k && scores@[j] == level implies full@.contains(j as usize) by {
                    let w = choose|w: int| 0 <= w < before.len() && before[w] == j as usize;
                    assert(full@[w] == j as usize);
                }
                assert(full@[before.len() as int] == k);
            }
            k = k + 1;
        }
        level = level - 1;
    }
    // Keep the best `limit`.
    let mut out: Vec<usize> = Vec::new();
    let mut p: usize = 0;
    while p < full.len() && p < limit
        invariant
            p <= full@.len(),
            p <= limit,
            out@ == full@.take(p as int),
        decreases full@.len() - p,
    {
        out.push(full[p]);
        assert(full@.take(p + 1) == full@.take(p as int).push(full@[p as int]));
        p = p + 1;
    }
    assert forall|j: int|
        0 <= j < scores@.len() && scores@[j] > 0 && !out@.contains(j as usize) implies out@.len() == limit
            && forall|q: int| 0 <= q < out@.len() ==> ranks_before(scores@, #[trigger] out@[q] as int, j) by {
        let w = choose|w: int| 0 <= w < full@.len() && full@[w] == j as usize;
        if w < p {
            assert(out@[w] == j as usize);
        }
        assert forall|q: int| 0 <= q < out@.len() implies ranks_before(scores@, #[trigger] out@[q] as int, j) by {
            assert(out@[q] == full@[q]);
        }
    }
    out
}

} // verus!

verus! {

/// The lexical score of every corpus entry against the lower-cased query and
/// its terms.
pub open spec fn emoji_scores(
    entries: Seq<EmojiEntry>,
    search_terms: Seq<Vec<String>>,
    query_lower: Seq<char>,
    query_terms: Seq<Seq<char>>,
) -> Seq<u128> {
    Seq::new(
        entries.len(),
        |i: int|
            lexical_score(
                entries[i].name@,
                strs(entries[i].keywords@),
                strs(search_terms[i]@),
                query_lower,
                query_terms,
            ) as u128,
    )
}

/// Ranks the corpus against `query` without the neural model: an empty
/// (all-whitespace) query lists the first `limit` entries; otherwise entries
/// with a positive lexical score come best first (score, then corpus order),
/// at most `limit` of them, so exact name or keyword matches come before all
/// others (see `lemma_exact_matches_rank_first`). `search_terms[i]` are the search terms of entry
/// `i`, and `query_terms` those of the trimmed query. Every result is the
/// index of an entry, so `entry_at` finds it.
pub fn search_emojis_lexical(
    entries: &Vec<EmojiEntry>,
    search_terms: &Vec<Vec<String>>,
    query: &str,
    query_terms: &Vec<String>,
    limit: usize,
) -> (found: Vec<usize>)
    requires
        search_terms@.len() == entries@.len(),
    ensures
        trim(query@).len() == 0 ==> found@ == Seq::new(
            if entries@.len() < limit { entries@.len() } else { limit as nat },
            |i: int| i as usize,
        ),
        trim(query@).len() > 0 ==> is_ranking(
            emoji_scores(entries@, search_terms@, lower(trim(query@)), strs(query_terms@)),
            found@,
            limit as nat,
        ),
        forall|p: int| 0 <= p < found@.len() ==> (#[trigger] found@[p]) < entries@.len(),
{
    let trimmed = trim_chars(&chars_of(query));
    if trimmed.len() == 0 {
        let count = if entries.len() < limit { entries.len() } else { limit };
        let mut found: Vec<usize> = Vec::new();
        let mut i: usize = 0;
        while i < count
            invariant
                i <= count,
                found@ == Seq::new(i as nat, |j: int| j as usize),
            decreases count - i,
        {
            found.push(i);
            assert(found@ == Seq::new((i + 1) as nat, |j: int| j as usize));
            i = i + 1;
        }
        return found;
    }
    let query_lower = crate::text::string_from(lower_chars(&trimmed).as_slice());
    let ghost expected = emoji_scores(entries@, search_terms@, query_lower@, strs(query_terms@));
    let mut scores: Vec<u128> = Vec::new();
    let mut i: usize = 0;
    while i < entries.len()
        invariant
            i <= entries@.len() == search_terms@.len(),
            expected == emoji_scores(entries@, search_terms@, query_lower@, strs(query_terms@)),
            scores@ == expected.take(i as int),
        decreases entries@.len() - i,
    {
        let s = lexical_emoji_score(&entries[i], &search_terms[i], &query_lower, query_terms);
        scores.push(s);
        assert(expected.take(i + 1) == expected.take(i as int).push(expected[i as int]));
        i = i + 1;
    }
    assert(expected.take(entries@.len() as int) == expected);
    rank_by_score(&scores, limit)
}

} // verus!

verus! {

/// The bundled image key of a glyph: its code points in lower-case hex joined
/// with `-` (e.g. `1f1fa-1f1f8` for the US flag).
pub open spec fn glyph_key(glyph: Seq<char>) -> Seq<char> {
    join(glyph.map_values(|c: char| crate::digits::hex((c as u32) as nat)), "-"@)
}

/// The asset path of a glyph's bundled image: `emoji/<key>.png`.
pub fn emoji_asset_path(glyph: &str) -> (path: String)
    ensures
        path@ == "emoji/"@ + glyph_key(glyph@) + ".png"@,
{
    let chars = chars_of(glyph);
    let mut parts: Vec<Vec<char>> = Vec::new();
    let mut i: usize = 0;
    while i < chars.len()
        invariant
            i <= chars@.len(),
            chars@ == glyph@,
            seqs(parts@) == chars@.take(i as int).map_values(|c: char| crate::digits::hex((c as u32) as nat)),
        decreases chars@.len() - i,
    {
        let ghost before = seqs(parts@);
        let code: u32 = chars[i] as u32;
        parts.push(crate::digits::hex_string(code as u64));
        assert(chars@.take(i + 1) == chars@.take(i as int).push(chars@[i as int]));
        assert(seqs(parts@) == before.push(crate::digits::hex((chars@[i as int] as u32) as nat)));
        i = i + 1;
    }
    assert(chars@.take(chars@.len() as int) == chars@);
    let key = crate::text::join_chars(&parts, &chars_of("-"));
    let mut path = String::from_str("emoji/");
    crate::text::push_all(&mut path, &key);
    path.append(".png");
    path
}

} // verus!

verus! {

proof fn lemma_rank_agree_at(scores: Seq<u128>, a: Seq<usize>, b: Seq<usize>, limit: nat, p: int)
    requires
        is_ranking(scores, a, limit),
        is_ranking(scores, b, limit),
        0 <= p < a.len(),
        p < b.len(),
        forall|q: int| 0 <= q < p ==> a[q] == b[q],
    ensures
        a[p] == b[p],
{
    let x = a[p];
    let y = b[p];
    if x != y {
        assert(ranks_before(scores, x as int, y as int) || ranks_before(scores, y as int, x as int));
        if ranks_before(scores, x as int, y as int) {
            if b.contains(x) {
                let q = choose|q: int| 0 <= q < b.len() && b[q] == x;
                if q < p {
                    assert(a[q] == x);
                    assert(ranks_before(scores, a[q] as int, a[p] as int));
                } else if q > p {
                    assert(ranks_before(scores, b[p] as int, b[q] as int));
                }
            } else {
                assert(ranks_before(scores, b[p] as int, x as int));
            }
        } else {
            if a.contains(y) {
                let q = choose|q: int| 0 <= q < a.len() && a[q] == y;
                if q < p {
                    assert(b[q] == y);
                    assert(ranks_before(scores, b[q] as int, b[p] as int));
                } else if q > p {
                    assert(ranks_before(scores, a[p] as int, a[q] as int));
                }
            } else {
                assert(ranks_before(scores, a[p] as int, y as int));
            }
        }
    }
}

proof fn lemma_rank_prefix(scores: Seq<u128>, a: Seq<usize>, b: Seq<usize>, limit: nat, n: int)
    requires
        is_ranking(scores, a, limit),
        is_ranking(scores, b, limit),
        0 <= n <= a.len(),
        n <= b.len(),
    ensures
        forall|q: int| 0 <= q < n ==> a[q] == b[q],
    decreases n,
{
    if n > 0 {
        lemma_rank_prefix(scores, a, b, limit, n - 1);
        lemma_rank_agree_at(scores, a, b, limit, n - 1);
    }
}

proof fn lemma_rank_not_shorter(scores: Seq<u128>, a: Seq<usize>, b: Seq<usize>, limit: nat)
    requires
        is_ranking(scores, a, limit),
        is_ranking(scores, b, limit),
        a.len() <= b.len(),
        forall|q: int| 0 <= q < a.len() ==> a[q] == b[q],
    ensures
        a.len() == b.len(),
{
    if a.len() < b.len() {
        let y = b[a.len() as int];
        if a.contains(y) {
            let q = choose|q: int| 0 <= q < a.len() && a[q] == y;
            assert(b[q] == y);
            assert(ranks_before(scores, b[q] as int, b[a.len() as int] as int));
        } else {
            assert(a.len() == limit);
        }
    }
}

/// Exact matches rank first: in a search ranking, whenever an entry that is
/// not an exact match of the query is listed, every entry that is (its name
/// or a keyword equals the lower-cased query) is listed before it.
pub proof fn lemma_exact_matches_rank_first(
    entries: Seq<EmojiEntry>,
    search_terms: Seq<Vec<String>>,
    query_lower: Seq<char>,
    query_terms: Seq<Seq<char>>,
    found: Seq<usize>,
    limit: nat,
    exact: int,
    other: int,
)
    requires
        search_terms.len() == entries.len(),
        entries.len() <= usize::MAX,
        2 * query_terms.len() + 2 <= u128::MAX,
        is_ranking(emoji_scores(entries, search_terms, query_lower, query_terms), found, limit),
        0 <= exact < entries.len(),
        0 <= other < entries.len(),
        is_exact_match(entries[exact].name@, strs(entries[exact].keywords@), query_lower),
        !is_exact_match(entries[other].name@, strs(entries[other].keywords@), query_lower),
        found.contains(other as usize),
    ensures
        exists|p: int, q: int|
            0 <= p < q < found.len() && found[p] == exact as usize && found[q] == other as usize,
{
    let scores = emoji_scores(entries, search_terms, query_lower, query_terms);
    lemma_terms_score_bound(strs(search_terms[other]@), query_terms);
    assert(scores[exact] > scores[other]);
    let q = choose|q: int| 0 <= q < found.len() && found[q] == other as usize;
    assert(found[q] as int == other);
    if !found.contains(exact as usize) {
        assert(ranks_before(scores, found[q] as int, exact));
        assert(false);
    }
    let p = choose|p: int| 0 <= p < found.len() && found[p] == exact as usize;
    assert(found[p] as int == exact);
    if q < p {
        assert(ranks_before(scores, found[q] as int, found[p] as int));
        assert(false);
    }
    assert(p != q);
    assert(0 <= p < q < found.len() && found[p] == exact as usize && found[q] == other as usize);
}

/// The ranking of a search is fully determined by the scores and the limit:
/// two results that both meet `is_ranking` are the same list.
pub proof fn lemma_ranking_is_unique(scores: Seq<u128>, a: Seq<usize>, b: Seq<usize>, limit: nat)
    requires
        is_ranking(scores, a, limit),
        is_ranking(scores, b, limit),
    ensures
        a == b,
{
    if a.len() <= b.len() {
        lemma_rank_prefix(scores, a, b, limit, a.len() as int);
        lemma_rank_not_shorter(scores, a, b, limit);
    } else {
        lemma_rank_prefix(scores, b, a, limit, b.len() as int);
        lemma_rank_not_shorter(scores, b, a, limit);
    }
    assert(a =~= b);
}

} // verus!

verus! {

/// Merging never repeats a keyword: if the shortcodes are distinct, so is the
/// merged list.
pub proof fn lemma_merged_distinct(base: Seq<Seq<char>>, extra: Seq<Seq<char>>)
    requires
        base.no_duplicates(),
    ensures
        merged(base, extra).no_duplicates(),
    decreases extra.len(),
{
    if extra.len() > 0 {
        lemma_merged_distinct(base, extra.drop_last());
        let before = merged(base, extra.drop_last());
        if !before.contains(extra.last()) {
            let after = before.push(extra.last());
            assert forall|i: int, j: int| 0 <= i < after.len() && 0 <= j < after.len() && i != j implies after[i] != after[j] by {
                if i < before.len() && j < before.len() {
                } else if i == before.len() {
                    assert(before[j] == after[j]);
                } else {
                    assert(before[i] == after[i]);
                }
            }
        }
    }
}

/// The `type="tts"` lines (just the display name) never change the
/// annotations read.
pub proof fn lemma_tts_lines_ignored(ls: Seq<Seq<char>>, line: Seq<char>)
    requires
        contains(trim(line), "type=\"tts\""@),
    ensures
        annotations_of_lines(ls.push(line)) == annotations_of_lines(ls),
{
    assert(ls.push(line).drop_last() == ls);
}

} // verus!
