//! What a pasted text comes to as a cookie header, and what counts as a
//! session in it.

use crate::normalizing_laws::{
    curl_options, curl_options_change_nothing, has_no_option, lemma_cleaning_keeps_equals,
    lemma_one_pair, lemma_options, lemma_pair_name, lemma_session_has_equals, lemma_strip_behind,
    lemma_trim_keeps_first, normalized_headers_have_a_pair,
};
use crate::session_cookies::{
    carries_session, clean_segments, cleaned, has_label, is_chunk_name, is_session_name,
    is_session_pair, normalized, session_cookie_names, without_curl_wrapper, without_label,
    COOKIE_LABEL, NEXTAUTH_COOKIE_NAME, SECURE_NEXTAUTH_COOKIE_NAME,
};
use crate::session_laws::{
    is_tight, lacks, lemma_back_keeps, lemma_first_index_is, lemma_split_both, lemma_strip_back,
    lemma_trim_tight, lemma_trimmed,
};
use crate::text::{
    after_prefix, first_index, is_white_space, joined, lemma_first_index, lower, lowered, split,
    strip_back, strip_ends, strip_front, trimmed, CharClass,
};
use crate::text_laws::{
    is_blank, joining_goes_on, joining_is_undone_by_splitting, white_space_around_is_trimmed,
};
use vstd::prelude::*;

verus! {

/// A text that starts and ends like a value: neither with white space, nor with
/// a quote, nor with a cURL option.
pub open spec fn is_plain(t: Seq<char>) -> bool {
    &&& t.len() > 0
    &&& is_tight(t)
    &&& t[0] != '\'' && t[0] != '"'
    &&& t.last() != '\'' && t.last() != '"'
    &&& !("-b "@.is_prefix_of(t)) && !("--cookie "@.is_prefix_of(t)) && !("-H "@.is_prefix_of(t))
}

/// A text that does not start with a dash starts with no cURL option.
proof fn lemma_no_dash(t: Seq<char>)
    requires
        t.len() > 0 ==> t[0] != '-',
    ensures
        !("-b "@.is_prefix_of(t)),
        !("--cookie "@.is_prefix_of(t)),
        !("-H "@.is_prefix_of(t)),
{
    lemma_options();
    if "-b "@.is_prefix_of(t) {
        assert(t[0] == "-b "@[0]);
    }
    if "--cookie "@.is_prefix_of(t) {
        assert(t[0] == "--cookie "@[0]);
    }
    if "-H "@.is_prefix_of(t) {
        assert(t[0] == "-H "@[0]);
    }
}

/// The word `Cookie` and a colon, in any case.
pub open spec fn is_label(l: Seq<char>) -> bool {
    lowered(l) == seq!['c', 'o', 'o', 'k', 'i', 'e', ':']
}

/// Whether a text starts with a label.
pub open spec fn begins_with_label(t: Seq<char>) -> bool {
    t.len() >= 7 && is_label(t.take(7))
}

proof fn lemma_label_is(t: Seq<char>)
    ensures
        has_label(t) == begins_with_label(t),
        COOKIE_LABEL@.len() == 7,
{
    reveal_strlit("cookie:");
    assert(lowered(COOKIE_LABEL@) =~= seq!['c', 'o', 'o', 'k', 'i', 'e', ':']);
}

/// What the label is made of.
proof fn lemma_label_chars(l: Seq<char>)
    requires
        is_label(l),
    ensures
        l.len() == 7,
        l[0] == 'c' || l[0] == 'C',
        l[6] == ':',
        lacks(l, ';'),
        lacks(l, '='),
        !is_white_space(l[0]),
{
    assert(lowered(l).len() == l.len());
    assert(lowered(l)[0] == lower(l[0]));
    assert(lowered(l)[6] == lower(l[6]));
    assert forall|i: int| 0 <= i < l.len() implies #[trigger] l[i] != ';' && l[i] != '=' by {
        assert(lowered(l)[i] == lower(l[i]));
    }
}

proof fn lemma_plain_is_unwrapped(t: Seq<char>)
    requires
        is_plain(t),
    ensures
        without_curl_wrapper(t) == t,
{
    lemma_trim_tight(t);
}

pub(crate) proof fn lemma_plain_stays(t: Seq<char>)
    requires
        is_plain(t),
        !begins_with_label(t),
    ensures
        without_label(without_curl_wrapper(t)) == t,
{
    lemma_plain_is_unwrapped(t);
    lemma_label_is(t);
}

/// White space around a pasted text does not matter.
pub proof fn white_space_around_input_does_not_matter(a: Seq<char>, t: Seq<char>, b: Seq<char>)
    requires
        is_blank(a),
        is_blank(b),
    ensures
        normalized(a + t + b) == normalized(t),
{
    white_space_around_is_trimmed(a, t, b);
}

/// A bare value comes through as it is: behind the session cookie's name and
/// `=` stands exactly the value, character by character.
pub proof fn bare_values_come_through(t: Seq<char>)
    requires
        is_plain(t),
        lacks(t, '='),
        !begins_with_label(t),
    ensures
        normalized(t) == Some("__Secure-session="@ + t),
{
    lemma_plain_is_unwrapped(t);
    lemma_label_is(t);
    reveal_strlit("__Secure-session");
    reveal_strlit("__Secure-session=");
    assert("__Secure-session"@ + seq!['='] =~= "__Secure-session="@);
    assert(!t.contains('='));
}

/// Different bare values stand for different headers.
pub proof fn bare_values_stay_apart(s: Seq<char>, t: Seq<char>)
    requires
        is_plain(s) && lacks(s, '=') && !begins_with_label(s),
        is_plain(t) && lacks(t, '=') && !begins_with_label(t),
        normalized(s) == normalized(t),
    ensures
        s == t,
{
    bare_values_come_through(s);
    bare_values_come_through(t);
    let name = "__Secure-session="@;
    assert((name + s).skip(name.len() as int) =~= s);
    assert((name + t).skip(name.len() as int) =~= t);
}

proof fn lemma_cleaned_both(p: Seq<Seq<char>>, q: Seq<Seq<char>>)
    ensures
        cleaned(p + q) == cleaned(p) + cleaned(q),
    decreases q.len(),
{
    if q.len() == 0 {
        assert(p + q =~= p);
        assert(cleaned(p) + cleaned(q) =~= cleaned(p));
    } else {
        lemma_cleaned_both(p, q.drop_last());
        assert((p + q).drop_last() =~= p + q.drop_last());
        assert((p + q).last() == q.last());
        assert(cleaned(p + q) =~= cleaned(p) + cleaned(q));
    }
}

/// The segments of a header, trimmed, blank ones left out.
pub open spec fn solid_segments(pieces: Seq<Seq<char>>) -> Seq<Seq<char>> {
    pieces.map_values(|p: Seq<char>| trimmed(p)).filter(|p: Seq<char>| p.len() > 0)
}

proof fn lemma_cleaned_is_solid(pieces: Seq<Seq<char>>)
    requires
        forall|i: int|
            0 <= i < pieces.len() ==> !begins_with_label(trimmed(#[trigger] pieces[i])),
    ensures
        cleaned(pieces) == solid_segments(pieces),
    decreases pieces.len(),
{
    reveal(Seq::filter);
    let f = |p: Seq<char>| trimmed(p);
    let keep = |p: Seq<char>| p.len() > 0;
    let all = pieces.map_values(f);
    if pieces.len() == 0 {
        assert(all.filter(keep) =~= seq![]);
    } else {
        let init = pieces.drop_last();
        assert forall|i: int| 0 <= i < init.len() implies !begins_with_label(
            trimmed(#[trigger] init[i]),
        ) by {
            assert(init[i] == pieces[i]);
        }
        lemma_cleaned_is_solid(init);
        assert(all.drop_last() =~= init.map_values(f));
        let last = pieces[pieces.len() - 1];
        assert(all.last() == trimmed(last));
        lemma_label_is(trimmed(last));
    }
}

/// A header of pairs keeps its segments, in order and letter by letter: only
/// white space around them and blank segments go, and they are separated by a
/// `;` and a blank.
pub proof fn headers_keep_their_segments(pieces: Seq<Seq<char>>)
    requires
        pieces.len() > 0,
        forall|i: int|
            0 <= i < pieces.len() ==> lacks(#[trigger] pieces[i], ';') && !begins_with_label(
                trimmed(pieces[i]),
            ),
        is_plain(joined(pieces, ";"@)),
        joined(pieces, ";"@).contains('='),
    ensures
        normalized(joined(pieces, ";"@)) == Some(joined(solid_segments(pieces), "; "@)),
{
    let header = joined(pieces, ";"@);
    reveal_strlit(";");
    assert(";"@ =~= seq![';']);
    joining_is_undone_by_splitting(pieces, ';');
    lemma_plain_is_unwrapped(header);
    lemma_cleaned_is_solid(pieces);
    lemma_header_label(pieces);
    lemma_cleaning_keeps_equals(header);
}

/// A header starts with a label only if its first segment does.
proof fn lemma_header_label(pieces: Seq<Seq<char>>)
    requires
        pieces.len() > 0,
        lacks(pieces[0], ';'),
        !begins_with_label(trimmed(pieces[0])),
        joined(pieces, seq![';']).len() > 0,
        !is_white_space(joined(pieces, seq![';'])[0]),
    ensures
        !has_label(joined(pieces, seq![';'])),
{
    let header = joined(pieces, seq![';']);
    let head = pieces[0];
    if pieces.len() > 1 {
        let tail = pieces.skip(1);
        joining_goes_on(seq![head], tail, seq![';']);
        assert(seq![head] + tail =~= pieces);
        assert(header == head + seq![';'] + joined(tail, seq![';']));
    }
    lemma_label_is(header);
    if has_label(header) {
        let l = header.take(7);
        lemma_label_chars(l);
        assert(head.len() >= 7) by {
            if head.len() < 7 && pieces.len() > 1 {
                assert(l[head.len() as int] == ';');
            }
        }
        assert(head.take(7) =~= l);
        assert(head[0] == header[0]);
        lemma_back_keeps(head, 6);
        assert(head[6] == l[6]);
        let t = trimmed(head);
        assert(strip_front(head, CharClass::WhiteSpace) == head);
        lemma_strip_back(head, CharClass::WhiteSpace);
        let k = choose|k: int| 0 <= k <= head.len() && #[trigger] head.take(k) == t;
        assert(t.take(7) =~= l);
    }
}

/// A label in front of a header or a bare value goes, in whatever case it is
/// written and with whatever space behind it.
pub proof fn labels_in_front_do_not_matter(l: Seq<char>, w: Seq<char>, t: Seq<char>)
    requires
        is_label(l),
        is_blank(w),
        is_plain(t),
        !begins_with_label(t),
    ensures
        normalized(l + w + t) == normalized(t),
{
    let x = l + w + t;
    lemma_label_chars(l);
    assert(x[0] == l[0]);
    assert(x.last() == t.last());
    lemma_no_dash(x);
    assert(is_plain(x));
    lemma_plain_is_unwrapped(x);
    lemma_plain_is_unwrapped(t);
    lemma_label_is(x);
    lemma_label_is(t);
    assert(x.take(7) =~= l);
    assert(x.skip(7) =~= w + t);
    let none: Seq<char> = seq![];
    white_space_around_is_trimmed(w, t, none);
    assert(w + t + none =~= w + t);
    lemma_trim_tight(t);
}

/// The first piece of a text, and what follows it, when something without the
/// separator is put in front.
proof fn lemma_split_prefixed(a: Seq<char>, b: Seq<char>)
    requires
        lacks(a, ';'),
    ensures
        split(b, ';').len() > 0,
        split(a + b, ';') == seq![a + split(b, ';')[0]] + split(b, ';').skip(1),
{
    lemma_first_index(b, ';');
    let n = first_index(b, ';') as int;
    let s = a + b;
    lemma_first_index_is(s, ';', (a.len() + n) as nat);
    if n < b.len() {
        assert(s.take(a.len() + n) =~= a + b.take(n));
        assert(s.skip(a.len() + n + 1) =~= b.skip(n + 1));
        assert(split(b, ';').skip(1) =~= split(b.skip(n + 1), ';'));
        assert(split(s, ';') =~= seq![a + split(b, ';')[0]] + split(b, ';').skip(1));
    } else {
        assert(split(b, ';') == seq![b]);
        assert(split(s, ';') =~= seq![a + split(b, ';')[0]] + split(b, ';').skip(1));
    }
}

/// A labelled segment is cleaned to what stands behind the label.
proof fn lemma_labelled_segment(w: Seq<char>, l: Seq<char>, v: Seq<char>, b: Seq<char>)
    requires
        is_blank(w),
        is_label(l),
        is_blank(v),
        b.len() > 0 ==> !is_white_space(b[0]),
        !begins_with_label(b),
    ensures
        without_label(trimmed(w + l + v + b)) == trimmed(b),
        without_label(trimmed(w + b)) == trimmed(b),
{
    let none: Seq<char> = seq![];
    lemma_label_chars(l);
    let x = l + v + b;
    white_space_around_is_trimmed(w, x, none);
    assert(w + x + none =~= w + l + v + b);
    white_space_around_is_trimmed(w, b, none);
    assert(w + b + none =~= w + b);
    white_space_around_is_trimmed(v, b, none);
    assert(v + b + none =~= v + b);
    lemma_label_is(trimmed(b));
    if begins_with_label(trimmed(b)) {
        lemma_trim_keeps_first(b);
        lemma_strip_back(b, CharClass::WhiteSpace);
        let k = choose|k: int| 0 <= k <= b.len() && #[trigger] b.take(k) == trimmed(b);
        assert(b.take(7) =~= trimmed(b).take(7));
    }
    assert(x[0] == l[0]);
    if trimmed(v + b).len() > 0 {
        lemma_strip_behind(l, v + b);
        assert(l + (v + b) =~= x);
        let back = strip_back(v + b, CharClass::WhiteSpace);
        assert(trimmed(x) == l + back);
        assert((l + back).take(7) =~= l);
        assert((l + back).skip(7) =~= back);
        lemma_label_is(l + back);
    } else {
        lemma_trimmed(b);
        assert(trimmed(b).len() == 0);
        assert(b.len() == 0) by {
            if b.len() > 0 {
                lemma_trim_keeps_first(b);
            }
        }
        assert(l + v + b =~= none + l + v);
        white_space_around_is_trimmed(none, l, v);
        lemma_trim_tight(l);
        lemma_label_is(l);
        assert(l.take(7) =~= l);
        assert(l.skip(7) =~= none);
        lemma_trim_tight(none);
        assert(b =~= none);
    }
}

/// A label in front of a later segment goes as well: the header is the one
/// without it.
pub proof fn labels_within_do_not_matter(
    a: Seq<char>,
    w: Seq<char>,
    l: Seq<char>,
    v: Seq<char>,
    b: Seq<char>,
)
    requires
        is_label(l),
        is_blank(w),
        is_blank(v),
        is_plain(a + seq![';'] + w + b),
        b.len() > 0 && !is_white_space(b[0]),
        !begins_with_label(a),
        !begins_with_label(b),
        (a + seq![';'] + w + b).contains('='),
    ensures
        normalized(a + seq![';'] + w + l + v + b) == normalized(a + seq![';'] + w + b),
{
    let x = a + seq![';'] + w + l + v + b;
    let y = a + seq![';'] + w + b;
    lemma_label_chars(l);
    assert(x[0] == y[0]);
    assert(x.last() == b.last());
    assert(y.last() == b.last());
    lemma_same_option(a + seq![';'], w + l + v + b, w + b);
    assert(a + seq![';'] + (w + l + v + b) =~= x);
    assert(a + seq![';'] + (w + b) =~= y);
    assert(is_plain(x));
    lemma_plain_is_unwrapped(x);
    lemma_plain_is_unwrapped(y);
    lemma_no_label_before(a, w + l + v + b);
    lemma_no_label_before(a, w + b);
    assert(a + seq![';'] + (w + l + v + b) =~= x);
    assert(a + seq![';'] + (w + b) =~= y);
    assert(x.contains('=')) by {
        let i = choose|i: int| 0 <= i < y.len() && y[i] == '=';
        if i < a.len() + 1 + w.len() {
            assert(x[i] == y[i]);
        } else {
            assert(x[i + l.len() + v.len()] == y[i]);
        }
    }
    lemma_split_both(a, w + l + v + b, ';');
    lemma_split_both(a, w + b, ';');
    let front = w + l + v;
    assert(w + l + v + b =~= front + b);
    assert(lacks(front, ';'));
    assert(lacks(w, ';'));
    lemma_split_prefixed(front, b);
    lemma_split_prefixed(w, b);
    let first = split(b, ';')[0];
    let rest = split(b, ';').skip(1);
    lemma_first_index(b, ';');
    assert(first =~= b.take(first_index(b, ';') as int));
    assert(!begins_with_label(first)) by {
        if begins_with_label(first) {
            assert(b.take(7) =~= first.take(7));
        }
    }
    lemma_labelled_segment(w, l, v, first);
    assert(front + first =~= w + l + v + first);
    lemma_cleaned_both(split(a, ';'), seq![front + first] + rest);
    lemma_cleaned_both(split(a, ';'), seq![w + first] + rest);
    lemma_cleaned_both(seq![front + first], rest);
    lemma_cleaned_both(seq![w + first], rest);
    assert(seq![front + first].drop_last() =~= seq![]);
    assert(seq![w + first].drop_last() =~= seq![]);
    reveal_with_fuel(cleaned, 2);
    assert(cleaned(seq![front + first]) =~= cleaned(seq![w + first]));
    assert(clean_segments(x) == clean_segments(y));
}

/// What starts with an option does so before its first `;`.
proof fn lemma_same_option(a: Seq<char>, x: Seq<char>, y: Seq<char>)
    requires
        a.len() > 0,
        a.last() == ';',
    ensures
        "-b "@.is_prefix_of(a + x) == "-b "@.is_prefix_of(a + y),
        "--cookie "@.is_prefix_of(a + x) == "--cookie "@.is_prefix_of(a + y),
        "-H "@.is_prefix_of(a + x) == "-H "@.is_prefix_of(a + y),
{
    lemma_options();
    lemma_option_within(a, x, "-b "@);
    lemma_option_within(a, y, "-b "@);
    lemma_option_within(a, x, "--cookie "@);
    lemma_option_within(a, y, "--cookie "@);
    lemma_option_within(a, x, "-H "@);
    lemma_option_within(a, y, "-H "@);
}

proof fn lemma_option_within(a: Seq<char>, x: Seq<char>, option: Seq<char>)
    requires
        a.len() > 0,
        lacks(option, a.last()),
    ensures
        option.is_prefix_of(a + x) == option.is_prefix_of(a),
{
    let s = a + x;
    if option.is_prefix_of(s) {
        assert(option.len() < a.len()) by {
            if option.len() >= a.len() {
                let n = a.len() - 1;
                assert(s[n] == a[n]);
                assert(s.subrange(0, option.len() as int)[n] == option[n]);
            }
        }
        assert(a.subrange(0, option.len() as int) =~= option);
    }
    if option.is_prefix_of(a) {
        assert(s.subrange(0, option.len() as int) =~= option);
    }
}

proof fn lemma_no_label_before(a: Seq<char>, b: Seq<char>)
    requires
        !begins_with_label(a),
    ensures
        !has_label(a + seq![';'] + b),
{
    let x = a + seq![';'] + b;
    lemma_label_is(x);
    if has_label(x) {
        lemma_label_chars(x.take(7));
        if a.len() >= 7 {
            assert(x.take(7) =~= a.take(7));
        } else {
            assert(x.take(7)[a.len() as int] == ';');
        }
    }
}

/// Quotes around a text, of either kind, go, and so does the white space inside
/// them.
pub proof fn quotes_around_do_not_matter(q: char, v: Seq<char>, t: Seq<char>, w: Seq<char>)
    requires
        q == '\'' || q == '"',
        is_blank(v),
        is_plain(t),
        is_blank(w),
    ensures
        normalized(seq![q] + (v + t + w) + seq![q]) == normalized(t),
{
    lemma_quoted(q, v, t, w);
    lemma_plain_is_unwrapped(t);
}

proof fn lemma_quoted(q: char, v: Seq<char>, t: Seq<char>, w: Seq<char>)
    requires
        q == '\'' || q == '"',
        is_blank(v),
        is_plain(t),
        is_blank(w),
    ensures
        without_curl_wrapper(seq![q] + (v + t + w) + seq![q]) == t,
        is_tight(seq![q] + (v + t + w) + seq![q]),
{
    let y = v + t + w;
    let x = seq![q] + y + seq![q];
    assert(x[0] == q && x.last() == q);
    lemma_trim_tight(x);
    lemma_trim_tight(t);
    white_space_around_is_trimmed(v, t, w);
    lemma_no_dash(x);
    assert(y[0] == (if v.len() > 0 { v[0] } else { t[0] }));
    assert(y.last() == (if w.len() > 0 { w.last() } else { t.last() }));
    assert(x.skip(1) =~= y + seq![q]);
    assert((y + seq![q]).drop_last() =~= y);
    assert((y + seq![q])[0] == y[0]);
    assert((y + seq![q]).last() == q);
    reveal_with_fuel(strip_front, 2);
    reveal_with_fuel(strip_back, 2);
    assert(strip_front(x, CharClass::Only(q)) == y + seq![q]);
    assert(strip_ends(x, CharClass::Only(q)) == y);
    if q == '"' {
        assert(strip_ends(x, CharClass::Only('\'')) == x);
    } else {
        assert(strip_ends(y, CharClass::Only('"')) == y);
    }
}

/// A row of one character, or none.
pub open spec fn is_row(s: Seq<char>, c: char) -> bool {
    forall|i: int| 0 <= i < s.len() ==> #[trigger] s[i] == c
}

proof fn lemma_strip_rows(a: Seq<char>, s: Seq<char>, b: Seq<char>, c: char)
    requires
        is_row(a, c),
        is_row(b, c),
        s.len() > 0,
        s[0] != c,
        s.last() != c,
    ensures
        strip_ends(a + s + b, CharClass::Only(c)) == s,
{
    lemma_strip_row_front(a, s + b, c);
    assert(a + (s + b) =~= a + s + b);
    lemma_strip_row_back(s, b, c);
}

proof fn lemma_strip_row_front(a: Seq<char>, s: Seq<char>, c: char)
    requires
        is_row(a, c),
        s.len() > 0,
        s[0] != c,
    ensures
        strip_front(a + s, CharClass::Only(c)) == s,
    decreases a.len(),
{
    if a.len() > 0 {
        assert((a + s)[0] == a[0]);
        assert((a + s).skip(1) =~= a.skip(1) + s);
        assert(is_row(a.skip(1), c));
        lemma_strip_row_front(a.skip(1), s, c);
    } else {
        assert(a + s =~= s);
    }
}

proof fn lemma_strip_row_back(s: Seq<char>, b: Seq<char>, c: char)
    requires
        is_row(b, c),
        s.len() > 0,
        s.last() != c,
    ensures
        strip_back(s + b, CharClass::Only(c)) == s,
    decreases b.len(),
{
    if b.len() > 0 {
        assert((s + b).last() == b.last());
        assert((s + b).drop_last() =~= s + b.drop_last());
        assert(is_row(b.drop_last(), c));
        lemma_strip_row_back(s, b.drop_last(), c);
    } else {
        assert(s + b =~= s);
    }
}

/// Quotes at the ends of a text go, also where there are more of them, or on one
/// side only: the single ones, and then the double ones inside them.
pub proof fn quotes_at_the_ends_do_not_matter(
    single: (Seq<char>, Seq<char>),
    double: (Seq<char>, Seq<char>),
    t: Seq<char>,
)
    requires
        is_row(single.0, '\'') && is_row(single.1, '\''),
        is_row(double.0, '"') && is_row(double.1, '"'),
        is_plain(t),
    ensures
        normalized(single.0 + (double.0 + t + double.1) + single.1) == normalized(t),
{
    let y = double.0 + t + double.1;
    let x = single.0 + y + single.1;
    lemma_row_ends(double.0, t, double.1);
    lemma_row_ends(single.0, y, single.1);
    lemma_trim_tight(x);
    lemma_trim_tight(t);
    lemma_rows_have_no_option(single, double, t);
    lemma_strip_rows(single.0, y, single.1, '\'');
    lemma_strip_rows(double.0, t, double.1, '"');
    lemma_plain_is_unwrapped(t);
}

proof fn lemma_row_ends(a: Seq<char>, s: Seq<char>, b: Seq<char>)
    requires
        s.len() > 0,
    ensures
        (a + s + b).len() > 0,
        (a + s + b)[0] == (if a.len() > 0 {
            a[0]
        } else {
            s[0]
        }),
        (a + s + b).last() == (if b.len() > 0 {
            b.last()
        } else {
            s.last()
        }),
{
}

proof fn lemma_rows_have_no_option(
    single: (Seq<char>, Seq<char>),
    double: (Seq<char>, Seq<char>),
    t: Seq<char>,
)
    requires
        is_row(single.0, '\'') && is_row(single.1, '\''),
        is_row(double.0, '"') && is_row(double.1, '"'),
        is_plain(t),
    ensures
        ({
            let x = single.0 + (double.0 + t + double.1) + single.1;
            &&& !("-b "@.is_prefix_of(x))
            &&& !("--cookie "@.is_prefix_of(x))
            &&& !("-H "@.is_prefix_of(x))
        }),
{
    let y = double.0 + t + double.1;
    let x = single.0 + y + single.1;
    lemma_row_ends(double.0, t, double.1);
    lemma_row_ends(single.0, y, single.1);
    if single.0.len() + double.0.len() > 0 {
        lemma_no_dash(x);
    } else {
        let rest = double.1 + single.1;
        assert(x =~= t + rest);
        lemma_options();
        lemma_option_before_quotes(t, rest, "-b "@);
        lemma_option_before_quotes(t, rest, "--cookie "@);
        lemma_option_before_quotes(t, rest, "-H "@);
    }
}

proof fn lemma_option_before_quotes(t: Seq<char>, rest: Seq<char>, option: Seq<char>)
    requires
        !option.is_prefix_of(t),
        lacks(option, '\''),
        lacks(option, '"'),
        forall|i: int| 0 <= i < rest.len() ==> (#[trigger] rest[i]) == '\'' || rest[i] == '"',
    ensures
        !option.is_prefix_of(t + rest),
{
    let s = t + rest;
    if option.is_prefix_of(s) {
        if option.len() > t.len() {
            let n = t.len() as int;
            assert(s.subrange(0, option.len() as int)[n] == option[n]);
            assert(s[n] == rest[0]);
        } else {
            assert(t.subrange(0, option.len() as int) =~= option);
        }
    }
}

/// Only one label is dropped in front of a bare value: a second one is part of
/// it.
pub proof fn further_labels_are_part_of_a_value(
    l: Seq<char>,
    w: Seq<char>,
    k: Seq<char>,
    v: Seq<char>,
    t: Seq<char>,
)
    requires
        is_label(l),
        is_blank(w),
        is_label(k),
        is_plain(t),
        is_blank(v),
        lacks(t, '='),
    ensures
        normalized(l + w + (k + v + t)) == Some("__Secure-session="@ + (k + v + t)),
{
    let y = k + v + t;
    let x = l + w + y;
    lemma_label_chars(l);
    lemma_label_chars(k);
    assert(x[0] == l[0] && y[0] == k[0]);
    assert(x.last() == t.last() && y.last() == t.last());
    lemma_no_dash(x);
    lemma_plain_is_unwrapped(x);
    lemma_label_is(x);
    assert(x.take(7) =~= l);
    assert(x.skip(7) =~= w + y);
    let none: Seq<char> = seq![];
    white_space_around_is_trimmed(w, y, none);
    assert(w + y + none =~= w + y);
    lemma_trim_tight(y);
    assert(lacks(y, '='));
    assert(!y.contains('='));
    reveal_strlit("__Secure-session");
    reveal_strlit("__Secure-session=");
    assert("__Secure-session"@ + seq!['='] =~= "__Secure-session="@);
}

/// A header copied as a quoted argument of cURL is the header.
pub proof fn curl_arguments_are_unwrapped(option: Seq<char>, q: char, t: Seq<char>)
    requires
        option == "-b "@ || option == "--cookie "@ || option == "-H "@,
        q == '\'' || q == '"',
        is_plain(t),
    ensures
        normalized(option + (seq![q] + t + seq![q])) == normalized(t),
        normalized(option + t) == normalized(t),
{
    let x = seq![q] + t + seq![q];
    let none: Seq<char> = seq![];
    assert(none + t + none =~= t);
    lemma_options();
    assert(curl_options()[0] == "-b "@ && curl_options()[1] == "--cookie "@ && curl_options()[2]
        == "-H "@);
    assert(curl_options().contains(option));
    lemma_quoted(q, none, t, none);
    lemma_trim_tight(x);
    lemma_no_dash(x);
    lemma_trim_tight(t);
    assert forall|i: int| 0 <= i < curl_options().len() implies after_prefix(
        trimmed(x),
        #[trigger] curl_options()[i],
    ) is None && after_prefix(trimmed(t), curl_options()[i]) is None by {
        assert(i == 0 || i == 1 || i == 2);
    }
    assert(has_no_option(x));
    assert(has_no_option(t));
    curl_options_change_nothing(option, x);
    curl_options_change_nothing(option, t);
    quotes_around_do_not_matter(q, none, t, none);
}

/// cURL options are dropped once each, and only in the order `-b`, `--cookie`,
/// `-H`: an option behind a later or the same one is part of the value.
pub proof fn curl_options_are_dropped_in_order(t: Seq<char>)
    requires
        is_plain(t),
    ensures
        normalized("-b "@ + ("--cookie "@ + t)) == normalized(t),
        normalized("-b "@ + ("-H "@ + t)) == normalized(t),
        normalized("--cookie "@ + ("-H "@ + t)) == normalized(t),
        lacks(t, '=') ==> {
            &&& normalized("-b "@ + ("-b "@ + t)) == Some("__Secure-session="@ + ("-b "@ + t))
            &&& normalized("--cookie "@ + ("-b "@ + t)) == Some("__Secure-session="@ + ("-b "@ + t))
            &&& normalized("-H "@ + ("-b "@ + t)) == Some("__Secure-session="@ + ("-b "@ + t))
            &&& normalized("-H "@ + ("--cookie "@ + t)) == Some(
                "__Secure-session="@ + ("--cookie "@ + t),
            )
        },
{
    lemma_options();
    lemma_plain_is_unwrapped(t);
    lemma_two_options("-b "@, "--cookie "@, t);
    lemma_two_options("-b "@, "-H "@, t);
    lemma_two_options("--cookie "@, "-H "@, t);
    if lacks(t, '=') {
        lemma_two_options("-b "@, "-b "@, t);
        lemma_two_options("--cookie "@, "-b "@, t);
        lemma_two_options("-H "@, "-b "@, t);
        lemma_two_options("-H "@, "--cookie "@, t);
        lemma_value_with_option("-b "@, t);
        lemma_value_with_option("--cookie "@, t);
    }
}

proof fn lemma_value_with_option(option: Seq<char>, t: Seq<char>)
    requires
        option == "-b "@ || option == "--cookie "@,
        is_plain(t),
        lacks(t, '='),
    ensures
        !has_label(option + t),
        !(option + t).contains('='),
        "__Secure-session"@ + seq!['='] == "__Secure-session="@,
{
    let y = option + t;
    lemma_options();
    lemma_label_is(y);
    if has_label(y) {
        lemma_label_chars(y.take(7));
        assert(y.take(7)[0] == option[0]);
    }
    assert(lacks(y, '='));
    reveal_strlit("__Secure-session");
    reveal_strlit("__Secure-session=");
    assert("__Secure-session"@ + seq!['='] =~= "__Secure-session="@);
}

/// What two options come to: both go in order, else only the first.
proof fn lemma_two_options(first: Seq<char>, second: Seq<char>, t: Seq<char>)
    requires
        first == "-b "@ || first == "--cookie "@ || first == "-H "@,
        second == "-b "@ || second == "--cookie "@ || second == "-H "@,
        is_plain(t),
    ensures
        without_curl_wrapper(first + (second + t)) == (if (first == "-b "@ && second != "-b "@) || (
        first == "--cookie "@ && second == "-H "@) {
            t
        } else {
            second + t
        }),
{
    let y = second + t;
    let x = first + y;
    lemma_options();
    assert(x[0] == '-' && y[0] == '-');
    assert(x.last() == t.last() && y.last() == t.last());
    lemma_trim_tight(x);
    lemma_trim_tight(y);
    lemma_trim_tight(t);
    assert(x.subrange(0, first.len() as int) =~= first);
    assert(x.skip(first.len() as int) =~= y);
    assert(y.subrange(0, second.len() as int) =~= second);
    assert(y.skip(second.len() as int) =~= t);
    assert(x[1] == first[1]);
    assert(y[1] == second[1]);
    lemma_other_option(first, y, "-b "@);
    lemma_other_option(first, y, "--cookie "@);
    lemma_other_option(first, y, "-H "@);
    lemma_other_option(second, t, "-b "@);
    lemma_other_option(second, t, "--cookie "@);
    lemma_other_option(second, t, "-H "@);
}

/// No text starts with two different options.
proof fn lemma_other_option(option: Seq<char>, t: Seq<char>, other: Seq<char>)
    requires
        option == "-b "@ || option == "--cookie "@ || option == "-H "@,
        other == "-b "@ || other == "--cookie "@ || other == "-H "@,
    ensures
        other.is_prefix_of(option + t) == (other == option),
{
    lemma_options();
    let s = option + t;
    assert(s[1] == option[1]);
    if other.is_prefix_of(s) {
        assert(s.subrange(0, other.len() as int)[1] == other[1]);
    }
    if other == option {
        assert(s.subrange(0, option.len() as int) =~= option);
    }
}

/// Nothing but white space stands for no header, nor does a label with nothing
/// behind it.
pub proof fn blank_input_stands_for_nothing(l: Seq<char>, w: Seq<char>)
    requires
        is_label(l),
        is_blank(w),
    ensures
        normalized(w) is None,
        normalized(l + w) is None,
{
    let none: Seq<char> = seq![];
    lemma_trim_tight(none);
    white_space_around_is_trimmed(w, none, none);
    assert(w + none + none =~= w);
    lemma_options();
    assert(trimmed(w) == none);
    assert(without_curl_wrapper(w).len() == 0) by {
        assert(!("-b "@.is_prefix_of(none)));
        assert(!("--cookie "@.is_prefix_of(none)));
        assert(!("-H "@.is_prefix_of(none)));
    }
    lemma_label_chars(l);
    white_space_around_is_trimmed(none, l, w);
    assert(none + l + w =~= l + w);
    lemma_no_dash(l);
    assert(is_plain(l));
    lemma_trim_tight(l);
    lemma_plain_is_unwrapped(l);
    assert(without_curl_wrapper(l + w) == without_curl_wrapper(l));
    lemma_label_is(l);
    assert(l.take(7) =~= l);
    assert(l.skip(7) =~= none);
}

/// Nor do quotes with nothing between them.
pub proof fn empty_quotes_stand_for_nothing(single: Seq<char>, double: Seq<char>)
    requires
        is_row(single, '\''),
        is_row(double, '"'),
    ensures
        normalized(single + double) is None,
{
    let x = single + double;
    let none: Seq<char> = seq![];
    if x.len() > 0 {
        assert(x[0] == (if single.len() > 0 { single[0] } else { double[0] }));
        assert(x.last() == (if double.len() > 0 { double.last() } else { single.last() }));
    }
    lemma_trim_tight(x);
    lemma_no_dash(x);
    if double.len() > 0 {
        assert(none + double + none =~= double);
        lemma_strip_rows(single, double, none, '\'');
        assert(single + double + none =~= x);
        lemma_strip_all(double, '"');
    } else {
        assert(x =~= single);
        lemma_strip_all(single, '\'');
    }
    assert(strip_ends(none, CharClass::Only('"')) =~= none);
    lemma_trim_tight(none);
}

proof fn lemma_strip_all(s: Seq<char>, c: char)
    requires
        is_row(s, c),
    ensures
        strip_ends(s, CharClass::Only(c)).len() == 0,
    decreases s.len(),
{
    if s.len() > 0 {
        assert(is_row(s.skip(1), c));
        lemma_strip_all(s.skip(1), c);
    }
}

/// Any other value stands for a header with a `=` in it.
pub proof fn plain_input_stands_for_a_header(t: Seq<char>)
    requires
        is_plain(t),
        !begins_with_label(t),
    ensures
        normalized(t) matches Some(header) && header.contains('='),
{
    lemma_plain_is_unwrapped(t);
    lemma_label_is(t);
    normalized_headers_have_a_pair(t);
    if t.contains('=') {
        lemma_cleaning_keeps_equals(t);
    }
}

/// The names of the cookies that carry a session: those of the site, of AuthKit
/// and of NextAuth, the latter also with the number of a chunk.
pub open spec fn marks_session(name: Seq<char>) -> bool {
    ||| name == "session"@
    ||| name == "__Secure-session"@
    ||| name == "ollama_session"@
    ||| name == "__Host-ollama_session"@
    ||| name == "wos-session"@
    ||| name == "__Secure-next-auth.session-token"@
    ||| name == "next-auth.session-token"@
    ||| exists|digits: Seq<char>|
        is_chunk_number(digits) && (name == #[trigger] ("__Secure-next-auth.session-token."@
            + digits) || name == #[trigger] ("next-auth.session-token."@ + digits))
}

/// The digits that number a chunk: one at least.
pub open spec fn is_chunk_number(digits: Seq<char>) -> bool {
    &&& digits.len() > 0
    &&& forall|i: int| 0 <= i < digits.len() ==> 48 <= (#[trigger] digits[i]) as int <= 57
}

proof fn lemma_chunk_is(name: Seq<char>, base: Seq<char>, dotted: Seq<char>)
    requires
        dotted == base.push('.'),
    ensures
        is_chunk_name(name, base) <==> exists|digits: Seq<char>|
            is_chunk_number(digits) && name == #[trigger] (dotted + digits),
{
    if is_chunk_name(name, base) {
        let digits = name.skip(dotted.len() as int);
        assert(name =~= dotted + digits);
        assert(is_chunk_number(digits));
    }
    if exists|digits: Seq<char>| is_chunk_number(digits) && name == #[trigger] (dotted + digits) {
        let digits = choose|digits: Seq<char>|
            is_chunk_number(digits) && name == #[trigger] (dotted + digits);
        assert(name.subrange(0, dotted.len() as int) =~= dotted);
        assert(name.skip(dotted.len() as int) =~= digits);
    }
}

/// A cookie carries the session exactly if it has one of these names.
pub proof fn session_names_are_exactly_these(name: Seq<char>)
    ensures
        is_session_name(name) <==> marks_session(name),
{
    reveal_strlit("__Secure-next-auth.session-token");
    reveal_strlit("__Secure-next-auth.session-token.");
    reveal_strlit("next-auth.session-token");
    reveal_strlit("next-auth.session-token.");
    assert("__Secure-next-auth.session-token."@ =~= SECURE_NEXTAUTH_COOKIE_NAME@.push('.'));
    assert("next-auth.session-token."@ =~= NEXTAUTH_COOKIE_NAME@.push('.'));
    lemma_chunk_is(
        name,
        SECURE_NEXTAUTH_COOKIE_NAME@,
        "__Secure-next-auth.session-token."@,
    );
    lemma_chunk_is(name, NEXTAUTH_COOKIE_NAME@, "next-auth.session-token."@);
    let names = session_cookie_names();
    assert(names[0] == "session"@);
    assert(names[1] == "__Secure-session"@);
    assert(names[2] == "ollama_session"@);
    assert(names[3] == "__Host-ollama_session"@);
    assert(names[4] == "wos-session"@);
    assert(names[5] == "__Secure-next-auth.session-token"@);
    assert(names[6] == "next-auth.session-token"@);
    if is_chunk_name(name, SECURE_NEXTAUTH_COOKIE_NAME@) {
        let d = choose|digits: Seq<char>|
            is_chunk_number(digits) && name == #[trigger] ("__Secure-next-auth.session-token."@
                + digits);
        assert("next-auth.session-token."@ + d == "next-auth.session-token."@ + d);
        assert(marks_session(name));
    }
    if is_chunk_name(name, NEXTAUTH_COOKIE_NAME@) {
        let d = choose|digits: Seq<char>|
            is_chunk_number(digits) && name == #[trigger] ("next-auth.session-token."@ + digits);
        assert("__Secure-next-auth.session-token."@ + d == "__Secure-next-auth.session-token."@
            + d);
        assert(marks_session(name));
    }
}

/// A pair carries a session exactly by its name, whatever the value and the
/// white space around the name; the name counts as it is written.
pub proof fn pairs_are_told_by_their_name(
    v: Seq<char>,
    name: Seq<char>,
    w: Seq<char>,
    value: Seq<char>,
)
    requires
        is_blank(v),
        is_blank(w),
        is_tight(name),
        lacks(name, '='),
        lacks(name, ';'),
        lacks(value, ';'),
    ensures
        carries_session(v + name + w + "="@ + value) <==> marks_session(name),
{
    reveal_strlit("=");
    assert("="@ =~= seq!['=']);
    let pair = v + name + w + seq!['='] + value;
    let before = v + name + w;
    assert(lacks(before, '='));
    assert(lacks(pair, ';'));
    lemma_one_pair(pair);
    lemma_pair_name(pair);
    assert(pair[before.len() as int] == '=');
    lemma_first_index_is(pair, '=', before.len());
    lemma_first_index(pair, '=');
    assert(pair.take(before.len() as int) =~= before);
    white_space_around_is_trimmed(v, name, w);
    lemma_trim_tight(name);
    session_names_are_exactly_these(name);
    assert(is_session_pair(pair) == is_session_name(name));
}

/// Without a `=` nothing carries a session.
pub proof fn sessions_need_a_pair(header: Seq<char>)
    requires
        lacks(header, '='),
    ensures
        !carries_session(header),
{
    if carries_session(header) {
        lemma_session_has_equals(header);
    }
}

} // verus!
