//! What holds of JSON objects as they are filled and searched.

use crate::json::{
    child, child_count, first_value, first_value_from, in_key_order, key_less,
    lemma_child_is_smaller, lookup, member, well_formed, with_entry, EntriesView, JsonView,
};
use vstd::prelude::*;

verus! {

/// No key comes before itself, and of two different keys exactly one comes
/// before the other.
pub proof fn keys_are_ordered(a: Seq<char>, b: Seq<char>)
    ensures
        !key_less(a, a),
        a != b ==> key_less(a, b) != key_less(b, a),
    decreases a.len(),
{
    if a.len() > 0 {
        keys_are_ordered(a.skip(1), a.skip(1));
        if b.len() > 0 {
            keys_are_ordered(a.skip(1), b.skip(1));
            if a[0] == b[0] && a.skip(1) == b.skip(1) {
                assert(a =~= seq![a[0]] + a.skip(1));
                assert(b =~= seq![b[0]] + b.skip(1));
            }
        }
    } else {
        assert(b.len() == 0 ==> a =~= b);
    }
}

/// A key before one that comes before a third also comes before the third.
pub proof fn key_order_is_transitive(a: Seq<char>, b: Seq<char>, c: Seq<char>)
    requires
        key_less(a, b),
        key_less(b, c),
    ensures
        key_less(a, c),
    decreases a.len(),
{
    if a.len() > 0 && b.len() > 0 && c.len() > 0 && a[0] == b[0] && b[0] == c[0] {
        key_order_is_transitive(a.skip(1), b.skip(1), c.skip(1));
    }
}

/// Where the keys of filled entries come from.
proof fn lemma_keys_of_with_entry(entries: EntriesView, key: Seq<char>, value: JsonView, i: int)
    requires
        0 <= i < with_entry(entries, key, value).len(),
    ensures
        ({
            let e = with_entry(entries, key, value)[i];
            e == (key, value) || exists|j: int| 0 <= j < entries.len() && #[trigger] entries[j] == e
        }),
    decreases entries.len(),
{
    let filled = with_entry(entries, key, value);
    if entries.len() == 0 {
    } else if entries[0].0 == key {
        if i > 0 {
            assert(filled[i] == entries[i]);
        }
    } else if key_less(key, entries[0].0) {
        if i > 0 {
            assert(filled[i] == entries[i - 1]);
        }
    } else {
        if i > 0 {
            lemma_keys_of_with_entry(entries.skip(1), key, value, i - 1);
            assert(filled[i] == with_entry(entries.skip(1), key, value)[i - 1]);
            if filled[i] != (key, value) {
                let j = choose|j: int|
                    0 <= j < entries.skip(1).len() && #[trigger] entries.skip(1)[j] == filled[i];
                assert(entries[j + 1] == filled[i]);
            }
        } else {
            assert(filled[0] == entries[0]);
        }
    }
}

/// Putting a value under a key keeps the entries in the order of their keys.
pub proof fn filling_keeps_key_order(entries: EntriesView, key: Seq<char>, value: JsonView)
    requires
        in_key_order(entries),
    ensures
        in_key_order(with_entry(entries, key, value)),
    decreases entries.len(),
{
    let filled = with_entry(entries, key, value);
    if entries.len() > 0 {
        let rest = entries.skip(1);
        assert forall|i: int, j: int| 0 <= i < j < rest.len() implies key_less(
            (#[trigger] rest[i]).0,
            (#[trigger] rest[j]).0,
        ) by {
            assert(rest[i] == entries[i + 1] && rest[j] == entries[j + 1]);
        }
        filling_keeps_key_order(rest, key, value);
        keys_are_ordered(key, entries[0].0);
        assert forall|i: int, j: int| 0 <= i < j < filled.len() implies key_less(
            (#[trigger] filled[i]).0,
            (#[trigger] filled[j]).0,
        ) by {
            if entries[0].0 == key {
                assert(filled[j] == entries[j]);
                assert(filled[i].0 == entries[i].0);
            } else if key_less(key, entries[0].0) {
                assert(filled[j] == entries[j - 1]);
                if i > 0 {
                    assert(filled[i] == entries[i - 1]);
                } else if j > 1 {
                    key_order_is_transitive(key, entries[0].0, entries[j - 1].0);
                }
            } else {
                let deeper = with_entry(rest, key, value);
                assert(filled[j] == deeper[j - 1]);
                if i > 0 {
                    assert(filled[i] == deeper[i - 1]);
                } else {
                    lemma_keys_of_with_entry(rest, key, value, j - 1);
                    if deeper[j - 1] != (key, value) {
                        let k = choose|k: int|
                            0 <= k < rest.len() && #[trigger] rest[k] == deeper[j - 1];
                        assert(rest[k] == entries[k + 1]);
                    }
                }
            }
        }
    }
}

/// A value put under a key is found there, and the values under other keys
/// stay what they were.
pub proof fn filled_value_is_found(
    entries: EntriesView,
    key: Seq<char>,
    value: JsonView,
    other: Seq<char>,
)
    ensures
        lookup(with_entry(entries, key, value), key) == Some(value),
        other != key ==> lookup(with_entry(entries, key, value), other) == lookup(entries, other),
    decreases entries.len(),
{
    let filled = with_entry(entries, key, value);
    if entries.len() == 0 {
        assert(filled.skip(1) =~= entries);
    } else if entries[0].0 == key {
        assert(filled.skip(1) =~= entries.skip(1));
    } else if key_less(key, entries[0].0) {
        assert(filled.skip(1) =~= entries);
    } else {
        filled_value_is_found(entries.skip(1), key, value, other);
        assert(filled.skip(1) =~= with_entry(entries.skip(1), key, value));
        assert(filled[0] == entries[0]);
    }
}

/// Putting a well-formed value into a well-formed object keeps it well formed.
pub proof fn filling_keeps_well_formed(entries: EntriesView, key: Seq<char>, value: JsonView)
    requires
        well_formed(JsonView::Object(entries)),
        well_formed(value),
    ensures
        well_formed(JsonView::Object(with_entry(entries, key, value))),
{
    filling_keeps_key_order(entries, key, value);
    let filled = with_entry(entries, key, value);
    assert forall|i: int| 0 <= i < filled.len() implies well_formed((#[trigger] filled[i]).1) by {
        lemma_keys_of_with_entry(entries, key, value, i);
        if filled[i] != (key, value) {
            let j = choose|j: int| 0 <= j < entries.len() && #[trigger] entries[j] == filled[i];
            assert(well_formed(entries[j].1));
        }
    }
}

/// What the search for a key comes to inside the documents that it passes
/// over.
proof fn lemma_passed_over(document: JsonView, i: nat, n: nat, key: Seq<char>)
    requires
        i <= n <= child_count(document),
        forall|j: int| i <= j < n ==> first_value(#[trigger] child(document, j), key) is None,
    ensures
        first_value_from(document, i, key) == first_value_from(document, n, key),
    decreases n - i,
{
    if i < n {
        assert(first_value(child(document, i as int), key) is None);
        lemma_passed_over(document, i + 1, n, key);
    }
}

/// An object's own member is found before any that its members hold.
pub proof fn own_member_comes_first(document: JsonView, key: Seq<char>)
    requires
        member(document, key) is Some,
    ensures
        first_value(document, key) == member(document, key),
{
}

/// Without a member of its own, a document has the first value of the first
/// document in it that has one.
pub proof fn earlier_document_comes_first(document: JsonView, n: nat, key: Seq<char>)
    requires
        member(document, key) is None,
        n < child_count(document),
        first_value(child(document, n as int), key) is Some,
        forall|j: int| 0 <= j < n ==> first_value(#[trigger] child(document, j), key) is None,
    ensures
        first_value(document, key) == first_value(child(document, n as int), key),
{
    lemma_passed_over(document, 0, n, key);
}

/// Whether a member of this key stands anywhere in the document.
pub open spec fn mentions(document: JsonView, key: Seq<char>) -> bool
    decreases document,
{
    match document {
        JsonView::Object(entries) => {
            ||| lookup(entries, key) is Some
            ||| exists|i: int| 0 <= i < entries.len() && mentions((#[trigger] entries[i]).1, key)
        },
        JsonView::Array(items) => exists|i: int|
            0 <= i < items.len() && mentions(#[trigger] items[i], key),
        _ => false,
    }
}

/// The search for a key finds a value exactly where the key stands anywhere in
/// the document.
pub proof fn search_reaches_every_member(document: JsonView, key: Seq<char>)
    ensures
        first_value(document, key) is Some <==> mentions(document, key),
    decreases document, child_count(document) + 1,
{
    lemma_search_from(document, 0, key);
    if member(document, key) is None {
        match document {
            JsonView::Object(entries) => {
                if mentions(document, key) {
                    let i = choose|i: int|
                        0 <= i < entries.len() && mentions((#[trigger] entries[i]).1, key);
                    assert(mentions(child(document, i), key));
                }
                if first_value(document, key) is Some {
                    let i = choose|i: int|
                        0 <= i < child_count(document) && mentions(
                            #[trigger] child(document, i),
                            key,
                        );
                    assert(mentions(entries[i].1, key));
                }
            },
            JsonView::Array(items) => {
                if mentions(document, key) {
                    let i = choose|i: int|
                        0 <= i < items.len() && mentions(#[trigger] items[i], key);
                    assert(mentions(child(document, i), key));
                }
                if first_value(document, key) is Some {
                    let i = choose|i: int|
                        0 <= i < child_count(document) && mentions(
                            #[trigger] child(document, i),
                            key,
                        );
                    assert(mentions(items[i], key));
                }
            },
            _ => {},
        }
    }
}

proof fn lemma_search_from(document: JsonView, i: nat, key: Seq<char>)
    ensures
        first_value_from(document, i, key) is Some <==> exists|j: int|
            i <= j < child_count(document) && mentions(#[trigger] child(document, j), key),
    decreases document, child_count(document) - i,
{
    if i < child_count(document) {
        lemma_child_is_smaller(document, i as int);
        search_reaches_every_member(child(document, i as int), key);
        lemma_search_from(document, i + 1, key);
        if first_value(child(document, i as int), key) is Some {
            assert(mentions(child(document, i as int), key));
        }
    }
}

/// Keys are ordered by the first character in which they differ, and a key stands
/// before what it begins.
pub proof fn keys_are_ordered_by_character(
    common: Seq<char>,
    a: char,
    b: char,
    x: Seq<char>,
    y: Seq<char>,
)
    requires
        a != b,
    ensures
        key_less(common + seq![a] + x, common + seq![b] + y) <==> a < b,
        key_less(common, common + seq![a] + x),
    decreases common.len(),
{
    let s = common + seq![a] + x;
    let t = common + seq![b] + y;
    if common.len() > 0 {
        let rest = common.skip(1);
        keys_are_ordered_by_character(rest, a, b, x, y);
        assert(s.skip(1) =~= rest + seq![a] + x);
        assert(t.skip(1) =~= rest + seq![b] + y);
        assert(s[0] == common[0] && t[0] == common[0]);
    } else {
        assert(s[0] == a && t[0] == b);
    }
}

} // verus!
