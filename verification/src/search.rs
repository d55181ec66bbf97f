//! When an entry answers a search.

use vstd::prelude::*;
use crate::models::{has_tag, texts_view, EmotionTag, MemoryEntryView, SearchFilterView};
use crate::text::{contains_text, lowercase, str_contains};

verus! {

/// The keyword occurs in the title or in the content, letter case aside.
pub open spec fn keyword_matches(entry: MemoryEntryView, keyword: Seq<char>) -> bool {
    contains_text(lowercase(entry.title), lowercase(keyword)) || contains_text(
        lowercase(entry.content),
        lowercase(keyword),
    )
}

/// Some item of `wanted` occurs in `have`.
pub open spec fn overlaps<T>(wanted: Seq<T>, have: Seq<T>) -> bool {
    exists|i: int, j: int|
        0 <= i < wanted.len() && 0 <= j < have.len() && #[trigger] wanted[i] == #[trigger] have[j]
}

/// The entry carries free-form tags and one of them is among `wanted`.
pub open spec fn tags_match(entry: MemoryEntryView, wanted: Seq<Seq<char>>) -> bool {
    match entry.metadata {
        Some(m) => match m.tags {
            Some(have) => overlaps(wanted, have),
            None => false,
        },
        None => false,
    }
}

/// The entry meets every dimension that the filter specifies.
pub open spec fn filter_matches(entry: MemoryEntryView, filter: SearchFilterView) -> bool {
    &&& filter.keyword matches Some(k) ==> keyword_matches(entry, k)
    &&& filter.memory_type matches Some(t) ==> entry.memory_type == t
    &&& filter.emotion_tags matches Some(tags) ==> overlaps(tags, entry.emotion_tags)
    &&& filter.date_range matches Some(range) ==> range.holds(entry.created_at)
    &&& filter.tags matches Some(tags) ==> tags_match(entry, tags)
}

/// Tells whether a keyword occurs in a title or in a content, all three
/// given in lowercase.
pub fn keyword_found(title_lower: &str, content_lower: &str, keyword_lower: &str) -> (r: bool)
    ensures
        r == (contains_text(title_lower@, keyword_lower@) || contains_text(
            content_lower@,
            keyword_lower@,
        )),
{
    str_contains(title_lower, keyword_lower) || str_contains(content_lower, keyword_lower)
}

/// Tells whether `text` is among `texts`.
pub fn has_text(texts: &Vec<String>, text: &String) -> (r: bool)
    ensures
        r == texts_view(texts@).contains(text@),
{
    let mut i: usize = 0;
    while i < texts.len()
        invariant
            i <= texts.len(),
            forall|j: int| 0 <= j < i ==> texts_view(texts@)[j] != text@,
        decreases texts.len() - i,
    {
        if texts[i] == *text {
            assert(texts_view(texts@)[i as int] == text@);
            return true;
        }
        i += 1;
    }
    false
}

/// Tells whether a wanted emotion tag is among those of the entry.
pub fn shares_emotion_tag(wanted: &Vec<EmotionTag>, have: &Vec<EmotionTag>) -> (r: bool)
    ensures
        r == overlaps(wanted@, have@),
{
    let mut i: usize = 0;
    while i < wanted.len()
        invariant
            i <= wanted.len(),
            forall|a: int, b: int| 0 <= a < i && 0 <= b < have.len() ==> wanted[a] != have[b],
        decreases wanted.len() - i,
    {
        if has_tag(have, wanted[i]) {
            let ghost b = choose|b: int| 0 <= b < have.len() && have[b] == wanted[i as int];
            assert(wanted@[i as int] == have@[b]);
            return true;
        }
        i += 1;
    }
    false
}

/// Tells whether a wanted free-form tag is among those of the entry.
pub fn shares_text(wanted: &Vec<String>, have: &Vec<String>) -> (r: bool)
    ensures
        r == overlaps(texts_view(wanted@), texts_view(have@)),
{
    let mut i: usize = 0;
    while i < wanted.len()
        invariant
            i <= wanted.len(),
            forall|a: int, b: int|
                0 <= a < i && 0 <= b < have.len() ==> texts_view(wanted@)[a] != texts_view(
                    have@,
                )[b],
        decreases wanted.len() - i,
    {
        if has_text(have, &wanted[i]) {
            let ghost b = choose|b: int|
                0 <= b < have.len() && texts_view(have@)[b] == wanted[i as int]@;
            assert(texts_view(wanted@)[i as int] == texts_view(have@)[b]);
            return true;
        }
        i += 1;
    }
    false
}

} // verus!
