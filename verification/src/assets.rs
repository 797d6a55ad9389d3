//! Which bundled asset a resource path names: an emoji image (served from the
//! bundled PNGs by file name) or one of the bundled SVG icons.
use vstd::prelude::*;
use crate::text::{chars_of, slice_chars, starts_with, starts_with_chars, string_from};

verus! {

/// The bundled asset a path refers to.
pub enum AssetRoute {
    /// `emoji/<file>`: the emoji PNG of that file name.
    EmojiPng(String),
    /// `icons/search.svg`.
    SearchIcon,
    /// `icons/chevron-left.svg`, the emoji mode's back button.
    ChevronLeftIcon,
    /// Nothing bundled.
    Missing,
}

/// Routes an asset path: `emoji/...` to the emoji PNG of that name (the rest
/// of the path), each bundled icon under `icons/` (the search icon and the
/// back chevron) to that icon, anything else to nothing.
pub fn asset_route(path: &str) -> (route: AssetRoute)
    ensures
        starts_with(path@, "emoji/"@) ==> (route matches AssetRoute::EmojiPng(name) && name@
            == path@.skip(6)),
        !starts_with(path@, "emoji/"@) && path@ == "icons/search.svg"@ ==> route
            is SearchIcon,
        !starts_with(path@, "emoji/"@) && path@ == "icons/chevron-left.svg"@ ==> route
            is ChevronLeftIcon,
        !starts_with(path@, "emoji/"@) && path@ != "icons/search.svg"@ && path@
            != "icons/chevron-left.svg"@ ==> route is Missing,
{
    let p = chars_of(path);
    let prefix = chars_of("emoji/");
    if starts_with_chars(&p, &prefix) {
        proof {
            reveal_strlit("emoji/");
        }
        let rest = slice_chars(&p, prefix.len(), p.len());
        return AssetRoute::EmojiPng(string_from(rest.as_slice()));
    }
    let owned = String::from_str(path);
    proof {
        reveal_strlit("icons/search.svg");
        reveal_strlit("icons/chevron-left.svg");
        assert("icons/search.svg"@[6] != "icons/chevron-left.svg"@[6]);
    }
    if owned == String::from_str("icons/search.svg") {
        AssetRoute::SearchIcon
    } else if owned == String::from_str("icons/chevron-left.svg") {
        AssetRoute::ChevronLeftIcon
    } else {
        AssetRoute::Missing
    }
}

} // verus!
