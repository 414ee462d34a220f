//! What the summary of a response shows.

use crate::json::{child, parsed_json, EntriesView, JsonView};
use crate::key_summary::{
    child_path, key_paths, key_paths_from, response_summary, walked_count,
};
use crate::text::{decimal, joined};
use vstd::prelude::*;

verus! {

/// The path of a member: its key, behind the path of its object and a dot where
/// there is such a path.
pub open spec fn member_path(prefix: Seq<char>, key: Seq<char>) -> Seq<char> {
    if prefix.len() == 0 {
        key
    } else {
        prefix + "."@ + key
    }
}

proof fn lemma_members_from(
    entries: EntriesView,
    entry: (Seq<char>, JsonView),
    prefix: Seq<char>,
    levels: nat,
    i: nat,
)
    requires
        levels > 0,
        i <= entries.len(),
    ensures
        key_paths_from(JsonView::Object(entries.push(entry)), prefix, levels, i) == key_paths_from(
            JsonView::Object(entries),
            prefix,
            levels,
            i,
        ) + seq![member_path(prefix, entry.0)] + key_paths(
            entry.1,
            member_path(prefix, entry.0),
            (levels - 1) as nat,
        ),
    decreases entries.len() - i,
{
    let longer = JsonView::Object(entries.push(entry));
    let shorter = JsonView::Object(entries);
    let last = seq![member_path(prefix, entry.0)] + key_paths(
        entry.1,
        member_path(prefix, entry.0),
        (levels - 1) as nat,
    );
    if i < entries.len() {
        lemma_members_from(entries, entry, prefix, levels, i + 1);
        assert(child(longer, i as int) == child(shorter, i as int));
        assert(child_path(longer, prefix, i) == child_path(shorter, prefix, i));
        assert(key_paths_from(longer, prefix, levels, i) =~= key_paths_from(
            shorter,
            prefix,
            levels,
            i,
        ) + seq![member_path(prefix, entry.0)] + key_paths(
            entry.1,
            member_path(prefix, entry.0),
            (levels - 1) as nat,
        ));
    } else {
        assert(child(longer, i as int) == entry.1);
        assert(child_path(longer, prefix, i) == member_path(prefix, entry.0));
        assert(key_paths_from(longer, prefix, levels, i + 1) =~= seq![]);
        assert(key_paths_from(shorter, prefix, levels, i) =~= seq![]);
        assert(key_paths_from(longer, prefix, levels, i) =~= seq![] + last);
    }
}

/// An object shows the path of every member, in order, each followed by what the
/// member shows one level further down.
pub proof fn objects_show_their_members(
    entries: EntriesView,
    entry: (Seq<char>, JsonView),
    prefix: Seq<char>,
    levels: nat,
)
    requires
        levels > 0,
    ensures
        key_paths(JsonView::Object(entries.push(entry)), prefix, levels) == key_paths(
            JsonView::Object(entries),
            prefix,
            levels,
        ) + seq![member_path(prefix, entry.0)] + key_paths(
            entry.1,
            member_path(prefix, entry.0),
            (levels - 1) as nat,
        ),
        key_paths(JsonView::Object(Seq::empty()), prefix, levels).len() == 0,
{
    lemma_members_from(entries, entry, prefix, levels, 0);
}

/// The path of an item: its place in brackets, behind the path of its array.
pub open spec fn item_path(prefix: Seq<char>, place: nat) -> Seq<char> {
    prefix + "["@ + decimal(place) + "]"@
}

proof fn lemma_items_from(
    items: Seq<JsonView>,
    item: JsonView,
    prefix: Seq<char>,
    levels: nat,
    i: nat,
)
    requires
        levels > 0,
        i <= items.len(),
        items.len() < 3,
    ensures
        key_paths_from(JsonView::Array(items.push(item)), prefix, levels, i) == key_paths_from(
            JsonView::Array(items),
            prefix,
            levels,
            i,
        ) + seq![item_path(prefix, items.len())] + key_paths(
            item,
            item_path(prefix, items.len()),
            (levels - 1) as nat,
        ),
    decreases items.len() - i,
{
    let longer = JsonView::Array(items.push(item));
    let shorter = JsonView::Array(items);
    let path = item_path(prefix, items.len());
    let last = seq![path] + key_paths(item, path, (levels - 1) as nat);
    if i < items.len() {
        lemma_items_from(items, item, prefix, levels, i + 1);
        assert(child(longer, i as int) == child(shorter, i as int));
        assert(key_paths_from(longer, prefix, levels, i) =~= key_paths_from(
            shorter,
            prefix,
            levels,
            i,
        ) + seq![path] + key_paths(item, path, (levels - 1) as nat));
    } else {
        assert(child(longer, i as int) == item);
        assert(key_paths_from(longer, prefix, levels, i + 1) =~= seq![]);
        assert(key_paths_from(shorter, prefix, levels, i) =~= seq![]);
        assert(key_paths_from(longer, prefix, levels, i) =~= seq![] + last);
    }
}

proof fn lemma_more_items_from(
    items: Seq<JsonView>,
    item: JsonView,
    prefix: Seq<char>,
    levels: nat,
    i: nat,
)
    requires
        items.len() >= 3,
        i <= 3,
    ensures
        key_paths_from(JsonView::Array(items.push(item)), prefix, levels, i) == key_paths_from(
            JsonView::Array(items),
            prefix,
            levels,
            i,
        ),
    decreases 3 - i,
{
    let longer = JsonView::Array(items.push(item));
    let shorter = JsonView::Array(items);
    assert(walked_count(longer) == 3 && walked_count(shorter) == 3);
    if i < 3 {
        lemma_more_items_from(items, item, prefix, levels, i + 1);
        assert(child(longer, i as int) == child(shorter, i as int));
    }
}

/// An array shows its first three items, in order, each followed by what the
/// item shows one level further down; what stands behind them shows nowhere.
pub proof fn arrays_show_three_items(
    items: Seq<JsonView>,
    item: JsonView,
    prefix: Seq<char>,
    levels: nat,
)
    requires
        levels > 0,
    ensures
        items.len() < 3 ==> key_paths(JsonView::Array(items.push(item)), prefix, levels)
            == key_paths(JsonView::Array(items), prefix, levels) + seq![
            item_path(prefix, items.len()),
        ] + key_paths(item, item_path(prefix, items.len()), (levels - 1) as nat),
        items.len() >= 3 ==> key_paths(JsonView::Array(items.push(item)), prefix, levels)
            == key_paths(JsonView::Array(items), prefix, levels),
        key_paths(JsonView::Array(Seq::empty()), prefix, levels).len() == 0,
{
    if items.len() < 3 {
        lemma_items_from(items, item, prefix, levels, 0);
    } else {
        lemma_more_items_from(items, item, prefix, levels, 0);
    }
}

/// Texts, numbers and truth values show nothing, and nothing shows below the
/// last level.
pub proof fn values_show_nothing(document: JsonView, prefix: Seq<char>, levels: nat)
    ensures
        !(document is Object) && !(document is Array) ==> key_paths(document, prefix, levels).len()
            == 0,
        key_paths(document, prefix, 0).len() == 0,
{
}

/// The summary of a response has the paths of four levels, separated by commas;
/// of what is no document it says that.
pub proof fn summaries_go_four_levels_down(data: Seq<u8>)
    ensures
        response_summary(data) == (match parsed_json(data) {
            Some(document) => joined(key_paths(document, Seq::empty(), 4), ","@),
            None => "non-json"@,
        }),
{
}

} // verus!
