//! What the launcher shows: the state of a text field, the cached
//! presentation of a result row, suggestion headings and labels, the help
//! tips, type glyphs, and the colours of tag chips.
use vstd::prelude::*;
use core::ops::Range;
use crate::text::{
    starts_with, starts_with_chars, chars_of, join, join_chars, lines, lines_of, string_from, trim, trim_chars, words, words_of,
};

verus! {

/// The caret and selection of a single-line text field (offsets in bytes of
/// the field's text), plus the in-progress IME composition, if any.
pub struct TextInputState {
    pub selected_range: Range<usize>,
    pub selection_reversed: bool,
    pub marked_range: Option<Range<usize>>,
    pub is_selecting: bool,
}

/// A field with nothing selected, the caret at the start, no composition.
pub open spec fn is_fresh(state: TextInputState) -> bool {
    &&& state.selected_range.start == 0
    &&& state.selected_range.end == 0
    &&& !state.selection_reversed
    &&& state.marked_range is None
    &&& !state.is_selecting
}

impl TextInputState {
    /// A fresh field.
    pub fn new() -> (state: Self)
        ensures
            is_fresh(state),
    {
        TextInputState {
            selected_range: 0..0,
            selection_reversed: false,
            marked_range: None,
            is_selecting: false,
        }
    }

    /// Forgets the selection, composition and drag state.
    pub fn reset(&mut self)
        ensures
            is_fresh(*final(self)),
    {
        self.selected_range = 0..0;
        self.selection_reversed = false;
        self.marked_range = None;
        self.is_selecting = false;
    }

    /// Where the caret is: the selection's moving end.
    pub fn cursor_offset(&self) -> (offset: usize)
        ensures
            offset == if self.selection_reversed {
                self.selected_range.start
            } else {
                self.selected_range.end
            },
    {
        if self.selection_reversed {
            self.selected_range.start
        } else {
            self.selected_range.end
        }
    }
}

/// The first line of `ls` that is not blank, trimmed.
pub open spec fn first_non_blank(ls: Seq<Seq<char>>) -> Option<Seq<char>>
    decreases ls.len(),
{
    if ls.len() == 0 {
        None
    } else if trim(ls[0]).len() > 0 {
        Some(trim(ls[0]))
    } else {
        first_non_blank(ls.drop_first())
    }
}

/// The line a row title is made from: the content's first non-blank line,
/// else the fallback's first line (trimmed).
pub open spec fn title_source(content: Seq<char>, fallback: Seq<char>) -> Seq<char> {
    match first_non_blank(lines(content)) {
        Some(line) => line,
        None => {
            let fl = lines(fallback);
            if fl.len() > 0 {
                trim(fl[0])
            } else {
                Seq::empty()
            }
        },
    }
}

/// A single-line row title: the source line's words joined by single spaces,
/// or `Empty` when there are none.
pub open spec fn row_title(content: Seq<char>, fallback: Seq<char>) -> Seq<char> {
    let collapsed = join(words(title_source(content, fallback)), " "@);
    if collapsed.len() == 0 {
        "Empty"@
    } else {
        collapsed
    }
}

/// Collapses a clip's content to one trimmed line for a dense list row: the
/// first non-blank line with runs of whitespace squeezed to one space.
pub fn single_line_title(content: &str, fallback: &str) -> (title: String)
    ensures
        title@ == row_title(content@, fallback@),
{
    let ls = lines_of(&chars_of(content));
    let ghost all = crate::text::seqs(ls@);
    let mut source: Option<Vec<char>> = None;
    let mut i: usize = 0;
    assert(all.skip(0) == all);
    while i < ls.len()
        invariant_except_break
            source is None,
            first_non_blank(all) == first_non_blank(all.skip(i as int)),
        invariant
            i <= ls@.len(),
            all == crate::text::seqs(ls@),
        ensures
            match source {
                Some(t) => first_non_blank(all) == Some(t@),
                None => first_non_blank(all) is None,
            },
        decreases ls@.len() - i,
    {
        let t = trim_chars(&ls[i]);
        assert(all.skip(i as int)[0] == ls@[i as int]@);
        assert(all.skip(i as int).drop_first() == all.skip(i + 1));
        if t.len() > 0 {
            source = Some(t);
            break;
        }
        i = i + 1;
    }
    let line = match source {
        Some(t) => t,
        None => {
            let fl = lines_of(&chars_of(fallback));
            if fl.len() > 0 {
                trim_chars(&fl[0])
            } else {
                Vec::new()
            }
        },
    };
    assert(line@ == title_source(content@, fallback@));
    let collapsed = join_chars(&words_of(&line), &chars_of(" "));
    if collapsed.len() == 0 {
        String::from_str("Empty")
    } else {
        string_from(collapsed.as_slice())
    }
}

} // verus!

verus! {

/// The kind of a clipboard item.
#[derive(PartialEq, Eq, Structural, Clone, Copy)]
pub enum ClipboardItemType {
    Text,
    Code,
    Command,
    Password,
}

/// A programming or data language detected in a text item.
#[derive(PartialEq, Eq, Structural, Clone, Copy)]
pub enum LanguageTag {
    Bash,
    Rust,
    Python,
    TypeScript,
    JavaScript,
    Go,
    Java,
    Cpp,
    Sql,
    Json,
    Yaml,
    Html,
    Css,
    Markdown,
    Toml,
}

/// What a row is drawn from: a clipboard record together with the timestamp
/// label, detected language and previews that the storage layer derives
/// from it (previews already bounded to the preview-pane limit).
pub struct RowSource {
    pub content: String,
    pub image_metadata: Option<String>,
    pub created_label: String,
    pub detected_language: Option<LanguageTag>,
    pub collapsed_preview: String,
    pub expanded_preview: String,
    pub expanded_preview_truncated: bool,
    pub masked_preview: String,
}

/// The per-row text a result row renders, computed once per search result.
pub struct CachedRowPresentation {
    pub title: String,
    pub created_label: String,
    pub detected_language: Option<LanguageTag>,
    pub collapsed_preview: String,
    pub expanded_preview: String,
    pub expanded_preview_line_count: usize,
    pub expanded_preview_truncated: bool,
    pub masked_preview: String,
}

/// The presentation of a row: an image shows its metadata everywhere (one
/// line, nothing masked, no language); text gets a single-line title and the
/// line count of its expanded preview.
pub open spec fn presents(row: CachedRowPresentation, item: RowSource) -> bool {
    &&& row.created_label@ == item.created_label@
    &&& match item.image_metadata {
        Some(meta) => {
            &&& row.title@ == meta@
            &&& row.detected_language is None
            &&& row.collapsed_preview@ == meta@
            &&& row.expanded_preview@ == meta@
            &&& row.expanded_preview_line_count == 1
            &&& !row.expanded_preview_truncated
            &&& row.masked_preview@.len() == 0
        },
        None => {
            &&& row.title@ == row_title(item.content@, item.collapsed_preview@)
            &&& row.detected_language == item.detected_language
            &&& row.collapsed_preview@ == item.collapsed_preview@
            &&& row.expanded_preview@ == item.expanded_preview@
            &&& row.expanded_preview_line_count == lines(item.expanded_preview@).len()
            &&& row.expanded_preview_truncated == item.expanded_preview_truncated
            &&& row.masked_preview@ == item.masked_preview@
        },
    }
}

impl CachedRowPresentation {
    /// The presentation of one row.
    pub fn from_record(item: &RowSource) -> (row: Self)
        ensures
            presents(row, *item),
    {
        if let Some(meta) = &item.image_metadata {
            return CachedRowPresentation {
                title: meta.clone(),
                created_label: item.created_label.clone(),
                detected_language: None,
                collapsed_preview: meta.clone(),
                expanded_preview: meta.clone(),
                expanded_preview_line_count: 1,
                expanded_preview_truncated: false,
                masked_preview: String::new(),
            };
        }
        let line_count = lines_of(&chars_of(item.expanded_preview.as_str())).len();
        CachedRowPresentation {
            title: single_line_title(item.content.as_str(), item.collapsed_preview.as_str()),
            created_label: item.created_label.clone(),
            detected_language: item.detected_language,
            collapsed_preview: item.collapsed_preview.clone(),
            expanded_preview: item.expanded_preview.clone(),
            expanded_preview_line_count: line_count,
            expanded_preview_truncated: item.expanded_preview_truncated,
            masked_preview: item.masked_preview.clone(),
        }
    }

    /// The presentations of all rows, in order.
    pub fn collect(items: &[RowSource]) -> (rows: Vec<Self>)
        ensures
            rows@.len() == items@.len(),
            forall|i: int| 0 <= i < items@.len() ==> presents(#[trigger] rows@[i], items@[i]),
    {
        let mut rows: Vec<Self> = Vec::new();
        let mut i: usize = 0;
        while i < items.len()
            invariant
                i <= items@.len(),
                rows@.len() == i,
                forall|j: int| 0 <= j < i ==> presents(#[trigger] rows@[j], items@[j]),
            decreases items@.len() - i,
        {
            rows.push(Self::from_record(&items[i]));
            i = i + 1;
        }
        rows
    }
}

} // verus!

verus! {

/// The kind of search a query asks for: tags (`:`), a bowl (`:b`), exporting
/// a bowl (`:e`), or an ordinary search.
pub enum SearchQueryKind {
    TagOnly,
    Bowl,
    ExportBowl,
    Default,
}

/// The heading above the search suggestions.
pub fn search_suggestion_heading(kind: &SearchQueryKind) -> (heading: &'static str)
    ensures
        heading@ == match kind {
            SearchQueryKind::TagOnly => "Tag suggestions"@,
            SearchQueryKind::Bowl | SearchQueryKind::ExportBowl => "Bowl suggestions"@,
            SearchQueryKind::Default => "Suggestions"@,
        },
{
    match kind {
        SearchQueryKind::TagOnly => "Tag suggestions",
        SearchQueryKind::Bowl | SearchQueryKind::ExportBowl => "Bowl suggestions",
        SearchQueryKind::Default => "Suggestions",
    }
}

/// How a suggestion is shown (and completed into the query): prefixed with
/// the query's own command.
pub fn search_suggestion_label(kind: &SearchQueryKind, suggestion: &str) -> (label: String)
    ensures
        label@ == match kind {
            SearchQueryKind::TagOnly => ":"@ + suggestion@,
            SearchQueryKind::Bowl => ":b "@ + suggestion@,
            SearchQueryKind::ExportBowl => ":e "@ + suggestion@,
            SearchQueryKind::Default => suggestion@,
        },
{
    match kind {
        SearchQueryKind::TagOnly => String::from_str(":").concat(suggestion),
        SearchQueryKind::Bowl => String::from_str(":b ").concat(suggestion),
        SearchQueryKind::ExportBowl => String::from_str(":e ").concat(suggestion),
        SearchQueryKind::Default => String::from_str(suggestion),
    }
}

/// The keyboard help chips, with macOS key names on macOS and Ctrl/Alt
/// elsewhere.
pub open spec fn help_tips(macos: bool) -> Seq<Seq<char>> {
    if macos {
        seq![
            "⏎ copy"@, "⌘R reveal"@, "⌘J/K/L/; nav"@, "⌘I info"@, "⌘P param"@,
            "Tab transforms"@, "⌘T +tags"@, "⌘⇧T -tags"@, "⌘B bowl"@, "⌘⇧B -bowl"@,
            "⌥⌘B import"@, ":b search bowl"@, ":e export bowl"@, "↹ autocomplete"@,
            "⌘⇧S secret"@, "⌘D delete"@, "⌘⇧P pin"@, "Esc close"@, "⌘Q quit"@,
            "⌘H hide help"@,
        ]
    } else {
        seq![
            "⏎ copy"@, "Ctrl+R reveal"@, "Ctrl+J/K/L/; nav"@, "Ctrl+I info"@,
            "Ctrl+P param"@, "Tab transforms"@, "Ctrl+T +tags"@, "Ctrl+⇧T -tags"@,
            "Ctrl+B bowl"@, "Ctrl+⇧B -bowl"@, "Ctrl+Alt+B import"@, ":b search bowl"@,
            ":e export bowl"@, "↹ autocomplete"@, "Ctrl+⇧S secret"@, "Ctrl+D delete"@,
            "Ctrl+⇧P pin"@, "Esc close"@, "Ctrl+Q quit"@, "Ctrl+H hide help"@,
        ]
    }
}

/// The help chips for the platform (`macos` on macOS).
pub fn command_help_tips(macos: bool) -> (tips: Vec<&'static str>)
    ensures
        tips@.map_values(|t: &'static str| t@) == help_tips(macos),
{
    let tips: Vec<&'static str> = if macos {
        vec![
            "⏎ copy", "⌘R reveal", "⌘J/K/L/; nav", "⌘I info", "⌘P param", "Tab transforms",
            "⌘T +tags", "⌘⇧T -tags", "⌘B bowl", "⌘⇧B -bowl", "⌥⌘B import", ":b search bowl",
            ":e export bowl", "↹ autocomplete", "⌘⇧S secret", "⌘D delete", "⌘⇧P pin",
            "Esc close", "⌘Q quit", "⌘H hide help",
        ]
    } else {
        vec![
            "⏎ copy", "Ctrl+R reveal", "Ctrl+J/K/L/; nav", "Ctrl+I info", "Ctrl+P param",
            "Tab transforms", "Ctrl+T +tags", "Ctrl+⇧T -tags", "Ctrl+B bowl", "Ctrl+⇧B -bowl",
            "Ctrl+Alt+B import", ":b search bowl", ":e export bowl", "↹ autocomplete",
            "Ctrl+⇧S secret", "Ctrl+D delete", "Ctrl+⇧P pin", "Esc close", "Ctrl+Q quit",
            "Ctrl+H hide help",
        ]
    };
    assert(tips@.map_values(|t: &'static str| t@) =~= help_tips(macos));
    tips
}

/// The single ASCII glyph leading a row of each item type.
pub fn type_icon_glyph(item_type: ClipboardItemType) -> (glyph: &'static str)
    ensures
        glyph@ == match item_type {
            ClipboardItemType::Text => "T"@,
            ClipboardItemType::Code => "#"@,
            ClipboardItemType::Command => "$"@,
            ClipboardItemType::Password => "*"@,
        },
{
    match item_type {
        ClipboardItemType::Text => "T",
        ClipboardItemType::Code => "#",
        ClipboardItemType::Command => "$",
        ClipboardItemType::Password => "*",
    }
}

} // verus!

verus! {

/// The muted accent of each item type (`0xRRGGBB`), for dark and light
/// surfaces; colour lands only on the leading row icon and detail chips.
pub open spec fn type_rgb(item_type: ClipboardItemType, dark: bool) -> u32 {
    match item_type {
        ClipboardItemType::Text => if dark { 0x6E9ECF } else { 0x4E7BA6 },
        ClipboardItemType::Code => if dark { 0x5FB99A } else { 0x3F8C6E },
        ClipboardItemType::Command => if dark { 0xCFA85F } else { 0x9A7636 },
        ClipboardItemType::Password => if dark { 0xCF7FA3 } else { 0xA85F81 },
    }
}

/// The accent colour of an item type.
pub fn type_color(item_type: ClipboardItemType, dark: bool) -> (rgb: u32)
    ensures
        rgb == type_rgb(item_type, dark),
{
    match item_type {
        ClipboardItemType::Text => if dark { 0x6E9ECF } else { 0x4E7BA6 },
        ClipboardItemType::Code => if dark { 0x5FB99A } else { 0x3F8C6E },
        ClipboardItemType::Command => if dark { 0xCFA85F } else { 0x9A7636 },
        ClipboardItemType::Password => if dark { 0xCF7FA3 } else { 0xA85F81 },
    }
}

/// The colour of a tag chip: a fixed `0xRRGGBB`, or the colour of a language.
#[derive(PartialEq, Eq, Structural)]
pub enum ChipColor {
    Rgb(u32),
    Language(LanguageTag),
}

/// The colour of the chip labelled `label`: `OPEN ...` and `P:...` chips by
/// prefix, the known labels by name (type and language labels share the
/// type and language colours), anything else neutral grey.
pub open spec fn chip_color(label: Seq<char>, dark: bool) -> ChipColor {
    if starts_with(label, "OPEN "@) {
        ChipColor::Rgb(if dark { 0x4ade80 } else { 0x15803d })
    } else if starts_with(label, "P:"@) {
        ChipColor::Rgb(if dark { 0x67e8f9 } else { 0x0e7490 })
    } else if label == "LOCKED"@ {
        ChipColor::Rgb(if dark { 0xfb7185 } else { 0xbe123c })
    } else if label == "TEXT"@ {
        ChipColor::Rgb(type_rgb(ClipboardItemType::Text, dark))
    } else if label == "CODE"@ {
        ChipColor::Rgb(type_rgb(ClipboardItemType::Code, dark))
    } else if label == "CMD"@ {
        ChipColor::Rgb(type_rgb(ClipboardItemType::Command, dark))
    } else if label == "PASS"@ {
        ChipColor::Rgb(type_rgb(ClipboardItemType::Password, dark))
    } else if label == "SECRET"@ {
        ChipColor::Rgb(type_rgb(ClipboardItemType::Password, dark))
    } else if label == "BASH"@ {
        ChipColor::Language(LanguageTag::Bash)
    } else if label == "RUST"@ {
        ChipColor::Language(LanguageTag::Rust)
    } else if label == "PY"@ {
        ChipColor::Language(LanguageTag::Python)
    } else if label == "TS"@ {
        ChipColor::Language(LanguageTag::TypeScript)
    } else if label == "JS"@ {
        ChipColor::Language(LanguageTag::JavaScript)
    } else if label == "GO"@ {
        ChipColor::Language(LanguageTag::Go)
    } else if label == "JAVA"@ {
        ChipColor::Language(LanguageTag::Java)
    } else if label == "C++"@ {
        ChipColor::Language(LanguageTag::Cpp)
    } else if label == "SQL"@ {
        ChipColor::Language(LanguageTag::Sql)
    } else if label == "JSON"@ {
        ChipColor::Language(LanguageTag::Json)
    } else if label == "YAML"@ {
        ChipColor::Language(LanguageTag::Yaml)
    } else if label == "HTML"@ {
        ChipColor::Language(LanguageTag::Html)
    } else if label == "CSS"@ {
        ChipColor::Language(LanguageTag::Css)
    } else if label == "MD"@ {
        ChipColor::Language(LanguageTag::Markdown)
    } else if label == "TOML"@ {
        ChipColor::Language(LanguageTag::Toml)
    } else if label == "PARAM"@ {
        ChipColor::Rgb(if dark { 0x93c5fd } else { 0x1d4ed8 })
    } else if label == "INFO"@ {
        ChipColor::Rgb(if dark { 0x7dd3fc } else { 0x0369a1 })
    } else if label == "K8S"@ {
        ChipColor::Rgb(if dark { 0x60a5fa } else { 0x1d4ed8 })
    } else if label == "DOCKER"@ {
        ChipColor::Rgb(if dark { 0x38bdf8 } else { 0x0284c7 })
    } else if label == "TF"@ {
        ChipColor::Rgb(if dark { 0xc084fc } else { 0x7c3aed })
    } else if label == "ANSIBLE"@ {
        ChipColor::Rgb(if dark { 0xfb7185 } else { 0xbe123c })
    } else if label == "JWT"@ {
        ChipColor::Rgb(if dark { 0xfbbf24 } else { 0xb45309 })
    } else if label == "IP"@ {
        ChipColor::Rgb(if dark { 0x5eead4 } else { 0x0f766e })
    } else if label == "ENV"@ {
        ChipColor::Rgb(if dark { 0xa78bfa } else { 0x6d28d9 })
    } else if label == "PATH"@ {
        ChipColor::Rgb(if dark { 0x93c5fd } else { 0x1d4ed8 })
    } else if label == "URL"@ {
        ChipColor::Rgb(if dark { 0x5eead4 } else { 0x0f766e })
    } else if label == "MULTI"@ {
        ChipColor::Rgb(if dark { 0xfde047 } else { 0xa16207 })
    } else if label == "LONG"@ {
        ChipColor::Rgb(if dark { 0xfdba74 } else { 0xc2410c })
    } else {
        ChipColor::Rgb(if dark { 0xd1d5db } else { 0x4b5563 })
    }
}

/// The colour of a tag chip.
pub fn tag_chip_color(label: &str, dark: bool) -> (color: ChipColor)
    ensures
        color == chip_color(label@, dark),
{
    let l = chars_of(label);
    if starts_with_chars(&l, &chars_of("OPEN ")) {
        return ChipColor::Rgb(if dark { 0x4ade80 } else { 0x15803d });
    }
    if starts_with_chars(&l, &chars_of("P:")) {
        return ChipColor::Rgb(if dark { 0x67e8f9 } else { 0x0e7490 });
    }
    let s = String::from_str(label);
    if s == String::from_str("LOCKED") {
        return ChipColor::Rgb(if dark { 0xfb7185 } else { 0xbe123c });
    }
    if s == String::from_str("TEXT") {
        return ChipColor::Rgb(type_color(ClipboardItemType::Text, dark));
    }
    if s == String::from_str("CODE") {
        return ChipColor::Rgb(type_color(ClipboardItemType::Code, dark));
    }
    if s == String::from_str("CMD") {
        return ChipColor::Rgb(type_color(ClipboardItemType::Command, dark));
    }
    if s == String::from_str("PASS") {
        return ChipColor::Rgb(type_color(ClipboardItemType::Password, dark));
    }
    if s == String::from_str("SECRET") {
        return ChipColor::Rgb(type_color(ClipboardItemType::Password, dark));
    }
    if s == String::from_str("BASH") {
        return ChipColor::Language(LanguageTag::Bash);
    }
    if s == String::from_str("RUST") {
        return ChipColor::Language(LanguageTag::Rust);
    }
    if s == String::from_str("PY") {
        return ChipColor::Language(LanguageTag::Python);
    }
    if s == String::from_str("TS") {
        return ChipColor::Language(LanguageTag::TypeScript);
    }
    if s == String::from_str("JS") {
        return ChipColor::Language(LanguageTag::JavaScript);
    }
    if s == String::from_str("GO") {
        return ChipColor::Language(LanguageTag::Go);
    }
    if s == String::from_str("JAVA") {
        return ChipColor::Language(LanguageTag::Java);
    }
    if s == String::from_str("C++") {
        return ChipColor::Language(LanguageTag::Cpp);
    }
    if s == String::from_str("SQL") {
        return ChipColor::Language(LanguageTag::Sql);
    }
    if s == String::from_str("JSON") {
        return ChipColor::Language(LanguageTag::Json);
    }
    if s == String::from_str("YAML") {
        return ChipColor::Language(LanguageTag::Yaml);
    }
    if s == String::from_str("HTML") {
        return ChipColor::Language(LanguageTag::Html);
    }
    if s == String::from_str("CSS") {
        return ChipColor::Language(LanguageTag::Css);
    }
    if s == String::from_str("MD") {
        return ChipColor::Language(LanguageTag::Markdown);
    }
    if s == String::from_str("TOML") {
        return ChipColor::Language(LanguageTag::Toml);
    }
    if s == String::from_str("PARAM") {
        return ChipColor::Rgb(if dark { 0x93c5fd } else { 0x1d4ed8 });
    }
    if s == String::from_str("INFO") {
        return ChipColor::Rgb(if dark { 0x7dd3fc } else { 0x0369a1 });
    }
    if s == String::from_str("K8S") {
        return ChipColor::Rgb(if dark { 0x60a5fa } else { 0x1d4ed8 });
    }
    if s == String::from_str("DOCKER") {
        return ChipColor::Rgb(if dark { 0x38bdf8 } else { 0x0284c7 });
    }
    if s == String::from_str("TF") {
        return ChipColor::Rgb(if dark { 0xc084fc } else { 0x7c3aed });
    }
    if s == String::from_str("ANSIBLE") {
        return ChipColor::Rgb(if dark { 0xfb7185 } else { 0xbe123c });
    }
    if s == String::from_str("JWT") {
        return ChipColor::Rgb(if dark { 0xfbbf24 } else { 0xb45309 });
    }
    if s == String::from_str("IP") {
        return ChipColor::Rgb(if dark { 0x5eead4 } else { 0x0f766e });
    }
    if s == String::from_str("ENV") {
        return ChipColor::Rgb(if dark { 0xa78bfa } else { 0x6d28d9 });
    }
    if s == String::from_str("PATH") {
        return ChipColor::Rgb(if dark { 0x93c5fd } else { 0x1d4ed8 });
    }
    if s == String::from_str("URL") {
        return ChipColor::Rgb(if dark { 0x5eead4 } else { 0x0f766e });
    }
    if s == String::from_str("MULTI") {
        return ChipColor::Rgb(if dark { 0xfde047 } else { 0xa16207 });
    }
    if s == String::from_str("LONG") {
        return ChipColor::Rgb(if dark { 0xfdba74 } else { 0xc2410c });
    }
    ChipColor::Rgb(if dark { 0xd1d5db } else { 0x4b5563 })
}

} // verus!

verus! {

/// A row title is always one non-empty line: it never holds a line break,
/// whatever the clip's content.
pub proof fn lemma_row_title_is_one_line(content: Seq<char>, fallback: Seq<char>)
    ensures
        row_title(content, fallback).len() > 0,
        forall|k: int| 0 <= k < row_title(content, fallback).len() ==> #[trigger] row_title(content, fallback)[k] != '\n',
{
    let source = title_source(content, fallback);
    let ws = words(source);
    crate::text::lemma_words(source);
    assert forall|j: int, k: int| 0 <= j < ws.len() && 0 <= k < ws[j].len() implies #[trigger] ws[j][k] != '\n' by {
        assert(!crate::text::is_ws(ws[j][k]));
    }
    reveal_strlit(" ");
    reveal_strlit("Empty");
    crate::text::lemma_join_avoids(ws, " "@, '\n');
}

} // verus!

verus! {

/// The short label a chip shows for a detected language.
pub open spec fn language_label(tag: LanguageTag) -> Seq<char> {
    match tag {
        LanguageTag::Bash => "BASH"@,
        LanguageTag::Rust => "RUST"@,
        LanguageTag::Python => "PY"@,
        LanguageTag::TypeScript => "TS"@,
        LanguageTag::JavaScript => "JS"@,
        LanguageTag::Go => "GO"@,
        LanguageTag::Java => "JAVA"@,
        LanguageTag::Cpp => "C++"@,
        LanguageTag::Sql => "SQL"@,
        LanguageTag::Json => "JSON"@,
        LanguageTag::Yaml => "YAML"@,
        LanguageTag::Html => "HTML"@,
        LanguageTag::Css => "CSS"@,
        LanguageTag::Markdown => "MD"@,
        LanguageTag::Toml => "TOML"@,
    }
}

/// A language chip takes its own language's colour, and only language chips
/// do: the chip labelled with a language's short label (JS for JavaScript,
/// TS for TypeScript, ...) is coloured as that language, in either theme, and
/// a chip coloured as a language carries exactly that language's label.
pub proof fn lemma_language_chips(label: Seq<char>, tag: LanguageTag, dark: bool)
    ensures
        chip_color(language_label(tag), dark) == ChipColor::Language(tag),
        chip_color(label, dark) == ChipColor::Language(tag) ==> label == language_label(tag),
{
    reveal_strlit("OPEN ");
    reveal_strlit("P:");
    reveal_strlit("LOCKED");
    reveal_strlit("TEXT");
    reveal_strlit("CODE");
    reveal_strlit("CMD");
    reveal_strlit("PASS");
    reveal_strlit("SECRET");
    reveal_strlit("BASH");
    reveal_strlit("RUST");
    reveal_strlit("PY");
    reveal_strlit("TS");
    reveal_strlit("JS");
    reveal_strlit("GO");
    reveal_strlit("JAVA");
    reveal_strlit("C++");
    reveal_strlit("SQL");
    reveal_strlit("JSON");
    reveal_strlit("YAML");
    reveal_strlit("HTML");
    reveal_strlit("CSS");
    reveal_strlit("MD");
    reveal_strlit("TOML");
    let l = language_label(tag);
    assert(!starts_with(l, "OPEN "@));
    if starts_with(l, "P:"@) {
        assert(l.take(2)[1] == l[1]);
        assert(false);
    }
    match tag {
        LanguageTag::Bash => {
            assert(l[0] != "TEXT"@[0] && l[0] != "CODE"@[0] && l[0] != "PASS"@[0]);
            assert(chip_color(l, dark) == ChipColor::Language(tag));
        },
        LanguageTag::Rust => {
            assert(l[0] != "TEXT"@[0] && l[0] != "CODE"@[0] && l[0] != "PASS"@[0] && l[0] != "BASH"@[0]);
            assert(chip_color(l, dark) == ChipColor::Language(tag));
        },
        LanguageTag::Python => {
            assert(chip_color(l, dark) == ChipColor::Language(tag));
        },
        LanguageTag::TypeScript => {
            assert(l[0] != "PY"@[0]);
            assert(chip_color(l, dark) == ChipColor::Language(tag));
        },
        LanguageTag::JavaScript => {
            assert(l[0] != "PY"@[0] && l[0] != "TS"@[0]);
            assert(chip_color(l, dark) == ChipColor::Language(tag));
        },
        LanguageTag::Go => {
            assert(l[0] != "PY"@[0] && l[0] != "TS"@[0] && l[0] != "JS"@[0]);
            assert(chip_color(l, dark) == ChipColor::Language(tag));
        },
        LanguageTag::Java => {
            assert(l[0] != "TEXT"@[0] && l[0] != "CODE"@[0] && l[0] != "PASS"@[0] && l[0] != "BASH"@[0] && l[0] != "RUST"@[0]);
            assert(chip_color(l, dark) == ChipColor::Language(tag));
        },
        LanguageTag::Cpp => {
            assert(l[1] != "CMD"@[1]);
            assert(chip_color(l, dark) == ChipColor::Language(tag));
        },
        LanguageTag::Sql => {
            assert(l[0] != "CMD"@[0] && l[0] != "C++"@[0]);
            assert(chip_color(l, dark) == ChipColor::Language(tag));
        },
        LanguageTag::Json => {
            assert(l[0] != "TEXT"@[0] && l[0] != "CODE"@[0] && l[0] != "PASS"@[0] && l[0] != "BASH"@[0] && l[0] != "RUST"@[0] && l[1] != "JAVA"@[1]);
            assert(chip_color(l, dark) == ChipColor::Language(tag));
        },
        LanguageTag::Yaml => {
            assert(l[0] != "TEXT"@[0] && l[0] != "CODE"@[0] && l[0] != "PASS"@[0] && l[0] != "BASH"@[0] && l[0] != "RUST"@[0] && l[0] != "JAVA"@[0] && l[0] != "JSON"@[0]);
            assert(chip_color(l, dark) == ChipColor::Language(tag));
        },
        LanguageTag::Html => {
            assert(l[0] != "TEXT"@[0] && l[0] != "CODE"@[0] && l[0] != "PASS"@[0] && l[0] != "BASH"@[0] && l[0] != "RUST"@[0] && l[0] != "JAVA"@[0] && l[0] != "JSON"@[0] && l[0] != "YAML"@[0]);
            assert(chip_color(l, dark) == ChipColor::Language(tag));
        },
        LanguageTag::Css => {
            assert(l[1] != "CMD"@[1] && l[1] != "C++"@[1] && l[0] != "SQL"@[0]);
            assert(chip_color(l, dark) == ChipColor::Language(tag));
        },
        LanguageTag::Markdown => {
            assert(l[0] != "PY"@[0] && l[0] != "TS"@[0] && l[0] != "JS"@[0] && l[0] != "GO"@[0]);
            assert(chip_color(l, dark) == ChipColor::Language(tag));
        },
        LanguageTag::Toml => {
            assert(l[1] != "TEXT"@[1] && l[0] != "CODE"@[0] && l[0] != "PASS"@[0] && l[0] != "BASH"@[0] && l[0] != "RUST"@[0] && l[0] != "JAVA"@[0] && l[0] != "JSON"@[0] && l[0] != "YAML"@[0] && l[0] != "HTML"@[0]);
            assert(chip_color(l, dark) == ChipColor::Language(tag));
        },
    }
}

} // verus!
