//! The shape of a response for the log: key paths only, never values.

use crate::json::{child, child_count, entries_view, items_view, parsed_json, Json, JsonView};
use crate::text::{decimal, digit, join, joined, string_views};
use vstd::prelude::*;

verus! {

/// How many levels of a document the summary goes down.
pub const SUMMARY_LEVELS: usize = 4;

/// How many items of an array the summary walks.
pub const SUMMARY_ITEMS: usize = 3;

/// How many of the documents that the document holds the summary walks.
pub open spec fn walked_count(document: JsonView) -> nat {
    match document {
        JsonView::Array(items) => if items.len() < SUMMARY_ITEMS {
            items.len()
        } else {
            SUMMARY_ITEMS as nat
        },
        _ => child_count(document),
    }
}

/// The path of what the document under `prefix` holds at a position.
pub open spec fn child_path(document: JsonView, prefix: Seq<char>, i: nat) -> Seq<char> {
    match document {
        JsonView::Object(entries) => if prefix.len() == 0 {
            entries[i as int].0
        } else {
            prefix + "."@ + entries[i as int].0
        },
        _ => prefix + "["@ + decimal(i) + "]"@,
    }
}

/// The key paths of a document under `prefix`, as far as `levels` reach: each
/// path is followed by those below it.
pub open spec fn key_paths(document: JsonView, prefix: Seq<char>, levels: nat) -> Seq<Seq<char>>
    decreases levels, walked_count(document) + 1,
{
    if levels == 0 {
        seq![]
    } else {
        key_paths_from(document, prefix, levels, 0)
    }
}

/// The key paths of what the document holds from a position on.
pub open spec fn key_paths_from(
    document: JsonView,
    prefix: Seq<char>,
    levels: nat,
    i: nat,
) -> Seq<Seq<char>>
    decreases levels, walked_count(document) - i,
{
    if i >= walked_count(document) || levels == 0 {
        seq![]
    } else {
        let path = child_path(document, prefix, i);
        seq![path] + key_paths(child(document, i as int), path, (levels - 1) as nat)
            + key_paths_from(document, prefix, levels, i + 1)
    }
}

/// The summary of a document: its key paths, separated by commas.
pub open spec fn summary(document: JsonView) -> Seq<char> {
    joined(key_paths(document, seq![], SUMMARY_LEVELS as nat), ","@)
}

/// Documents with the same objects and arrays, member by member, whatever else
/// they hold.
pub open spec fn same_shape(a: JsonView, b: JsonView) -> bool
    decreases a,
{
    match (a, b) {
        (JsonView::Object(x), JsonView::Object(y)) => {
            &&& x.len() == y.len()
            &&& forall|i: int| 0 <= i < x.len() ==> (#[trigger] x[i]).0 == y[i].0 && same_shape(
                x[i].1,
                y[i].1,
            )
        },
        (JsonView::Array(x), JsonView::Array(y)) => {
            &&& x.len() == y.len()
            &&& forall|i: int| 0 <= i < x.len() ==> same_shape(#[trigger] x[i], y[i])
        },
        (JsonView::Object(_), _) => false,
        (JsonView::Array(_), _) => false,
        (_, JsonView::Object(_)) => false,
        (_, JsonView::Array(_)) => false,
        _ => true,
    }
}

fn index_text(i: usize) -> (r: &'static str)
    requires
        i < SUMMARY_ITEMS,
    ensures
        r@ == decimal(i as nat),
{
    proof {
        reveal_strlit("0");
        reveal_strlit("1");
        reveal_strlit("2");
        assert("0"@ =~= seq![digit(0)]);
        assert("1"@ =~= seq![digit(1)]);
        assert("2"@ =~= seq![digit(2)]);
    }
    if i == 0 {
        "0"
    } else if i == 1 {
        "1"
    } else {
        "2"
    }
}

proof fn lemma_walk_step(
    before: Seq<Seq<char>>,
    document: JsonView,
    prefix: Seq<char>,
    levels: nat,
    i: nat,
)
    requires
        levels > 0,
        i < walked_count(document),
    ensures
        before + key_paths_from(document, prefix, levels, i) == (before.push(
            child_path(document, prefix, i),
        ) + key_paths(
            child(document, i as int),
            child_path(document, prefix, i),
            (levels - 1) as nat,
        )) + key_paths_from(document, prefix, levels, i + 1),
{
    assert(before + key_paths_from(document, prefix, levels, i) =~= (before.push(
        child_path(document, prefix, i),
    ) + key_paths(
        child(document, i as int),
        child_path(document, prefix, i),
        (levels - 1) as nat,
    )) + key_paths_from(document, prefix, levels, i + 1));
}

fn walk(value: &Json, prefix: &str, paths: &mut Vec<String>, levels: usize)
    ensures
        string_views(final(paths)@) == string_views(old(paths)@) + key_paths(
            value@,
            prefix@,
            levels as nat,
        ),
    decreases levels,
{
    let ghost start = string_views(paths@);
    if levels == 0 {
        assert(start + key_paths(value@, prefix@, 0) =~= start);
        return ;
    }
    let ghost target = start + key_paths(value@, prefix@, levels as nat);
    match value {
        Json::Object(object) => {
            let entries: &Vec<(String, Json)> = object.entries();
            let mut i: usize = 0;
            while i < entries.len()
                invariant
                    levels > 0,
                    value@ == JsonView::Object(entries_view(entries@)),
                    i <= entries@.len(),
                    target == string_views(paths@) + key_paths_from(
                        value@,
                        prefix@,
                        levels as nat,
                        i as nat,
                    ),
                decreases entries@.len() - i,
            {
                let key: &str = entries[i].0.as_str();
                let mut path: String = String::new();
                if prefix.is_empty() {
                    path.append(key);
                } else {
                    path.append(prefix);
                    path.append(".");
                    path.append(key);
                }
                assert(path@ =~= child_path(value@, prefix@, i as nat));
                let ghost before = string_views(paths@);
                proof {
                    lemma_walk_step(before, value@, prefix@, levels as nat, i as nat);
                }
                paths.push(path.clone());
                assert(string_views(paths@) =~= before.push(path@));
                walk(&entries[i].1, path.as_str(), paths, levels - 1);
                i += 1;
            }
            assert(string_views(paths@) + Seq::<Seq<char>>::empty() =~= string_views(paths@));
        },
        Json::Array(items) => {
            assert(value@->Array_0 =~= items_view(items@));
            let mut i: usize = 0;
            while i < items.len() && i < SUMMARY_ITEMS
                invariant
                    levels > 0,
                    value@ == JsonView::Array(items_view(items@)),
                    i <= items@.len(),
                    i <= SUMMARY_ITEMS,
                    target == string_views(paths@) + key_paths_from(
                        value@,
                        prefix@,
                        levels as nat,
                        i as nat,
                    ),
                decreases items@.len() - i,
            {
                let mut path: String = prefix.to_string();
                path.append("[");
                path.append(index_text(i));
                path.append("]");
                assert(path@ =~= child_path(value@, prefix@, i as nat));
                let ghost before = string_views(paths@);
                proof {
                    lemma_walk_step(before, value@, prefix@, levels as nat, i as nat);
                }
                paths.push(path.clone());
                assert(string_views(paths@) =~= before.push(path@));
                walk(&items[i], path.as_str(), paths, levels - 1);
                i += 1;
            }
            assert(string_views(paths@) + Seq::<Seq<char>>::empty() =~= string_views(paths@));
        },
        _ => {
            assert(start + key_paths(value@, prefix@, levels as nat) =~= start);
        },
    }
}

/// The key paths of a document, separated by commas.
pub fn document_key_summary(document: &Json) -> (r: String)
    ensures
        r@ == summary(document@),
{
    let mut paths: Vec<String> = Vec::new();
    proof {
        reveal_strlit("");
        assert(""@ =~= Seq::<char>::empty());
    }
    walk(document, "", &mut paths, SUMMARY_LEVELS);
    assert(string_views(paths@) =~= key_paths(document@, seq![], SUMMARY_LEVELS as nat));
    join(&paths, ",")
}

/// The summary of a response; of what is no document, only that.
pub open spec fn response_summary(data: Seq<u8>) -> Seq<char> {
    match parsed_json(data) {
        Some(document) => summary(document),
        None => "non-json"@,
    }
}

/// The key paths of a response, separated by commas, to tell how its shape
/// changed without showing what it holds.
pub fn response_key_summary(data: &[u8]) -> (r: String)
    ensures
        r@ == response_summary(data@),
{
    match Json::parse(data) {
        Some(document) => document_key_summary(&document),
        None => "non-json".to_string(),
    }
}

/// The key paths depend on the shape of a document alone: no text, number or
/// truth value in it shows.
pub proof fn key_paths_hide_values(a: JsonView, b: JsonView, prefix: Seq<char>, levels: nat)
    requires
        same_shape(a, b),
    ensures
        key_paths(a, prefix, levels) == key_paths(b, prefix, levels),
    decreases levels, walked_count(a) + 1,
{
    if levels > 0 {
        lemma_key_paths_hide_from(a, b, prefix, levels, 0);
    }
}

proof fn lemma_key_paths_hide_from(
    a: JsonView,
    b: JsonView,
    prefix: Seq<char>,
    levels: nat,
    i: nat,
)
    requires
        same_shape(a, b),
    ensures
        key_paths_from(a, prefix, levels, i) == key_paths_from(b, prefix, levels, i),
    decreases levels, walked_count(a) - i,
{
    if i < walked_count(a) && levels > 0 {
        let path = child_path(a, prefix, i);
        assert(same_shape(child(a, i as int), child(b, i as int)));
        key_paths_hide_values(
            child(a, i as int),
            child(b, i as int),
            path,
            (levels - 1) as nat,
        );
        lemma_key_paths_hide_from(a, b, prefix, levels, i + 1);
    }
}

/// Responses of the same shape have the same summary, whatever values they
/// hold.
pub proof fn summary_hides_values(a: JsonView, b: JsonView)
    requires
        same_shape(a, b),
    ensures
        summary(a) == summary(b),
{
    key_paths_hide_values(a, b, seq![], SUMMARY_LEVELS as nat);
}

} // verus!
