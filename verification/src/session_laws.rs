//! What holds of session headers as they are cleaned, built and sent.

use crate::browser_cookies::{
    applicable, applies, first_session_header, header_of, pair_of, path_matches, session_header,
    Cookie,
};
use crate::browser_scan::{is_resolution, BrowserResolution};
use crate::cookie_source::{source_header, stores_header, CacheCommand, OllamaCookieSource};
use crate::session_cookies::{
    carries_session, clean_segments, cleaned, has_label, is_chunk_name, is_digits, is_session_name,
    is_session_pair, normalized, pair_name, session_cookie_names, without_curl_wrapper,
    without_label, COOKIE_LABEL, NEXTAUTH_COOKIE_NAME, OLLAMA_SESSION_COOKIE_NAME,
    SECURE_NEXTAUTH_COOKIE_NAME,
};
use crate::site_url::{attaches, asks_sign_in, UrlView};
use crate::text::{
    first_index, is_white_space, joined, lemma_first_index, lower, lowered, split, strip_back,
    strip_front, trimmed, CharClass,
};
use vstd::prelude::*;

verus! {

/// A character that does not occur in a text.
pub open spec fn lacks(s: Seq<char>, c: char) -> bool {
    forall|i: int| 0 <= i < s.len() ==> #[trigger] s[i] != c
}

/// A text that is empty, or has no white space at either end.
pub open spec fn is_tight(s: Seq<char>) -> bool {
    s.len() > 0 ==> !is_white_space(s[0]) && !is_white_space(s.last())
}

pub(crate) proof fn lemma_strip_front(s: Seq<char>, class: CharClass)
    ensures
        exists|k: int| 0 <= k <= s.len() && #[trigger] s.skip(k) == strip_front(s, class),
        strip_front(s, class).len() > 0 ==> !class.has(strip_front(s, class)[0]),
        strip_front(s, class).len() <= s.len(),
        forall|c: char| lacks(s, c) ==> #[trigger] lacks(strip_front(s, class), c),
    decreases s.len(),
{
    if s.len() > 0 && class.has(s[0]) {
        let rest = s.skip(1);
        lemma_strip_front(rest, class);
        let k = choose|k: int| 0 <= k <= rest.len() && #[trigger] rest.skip(k) == strip_front(
            rest,
            class,
        );
        assert(s.skip(k + 1) =~= rest.skip(k));
        assert forall|c: char| lacks(s, c) implies #[trigger] lacks(strip_front(s, class), c) by {
            assert(lacks(rest, c)) by {
                assert forall|i: int| 0 <= i < rest.len() implies #[trigger] rest[i] != c by {
                    assert(rest[i] == s[i + 1]);
                }
            }
        }
    } else {
        assert(s.skip(0) =~= s);
    }
}

pub(crate) proof fn lemma_strip_back(s: Seq<char>, class: CharClass)
    ensures
        exists|k: int| 0 <= k <= s.len() && #[trigger] s.take(k) == strip_back(s, class),
        strip_back(s, class).len() > 0 ==> !class.has(strip_back(s, class).last()),
        strip_back(s, class).len() > 0 ==> strip_back(s, class)[0] == s[0],
        forall|c: char| lacks(s, c) ==> #[trigger] lacks(strip_back(s, class), c),
    decreases s.len(),
{
    if s.len() > 0 && class.has(s.last()) {
        let rest = s.drop_last();
        lemma_strip_back(rest, class);
        let k = choose|k: int| 0 <= k <= rest.len() && #[trigger] rest.take(k) == strip_back(
            rest,
            class,
        );
        assert(s.take(k) =~= rest.take(k));
        assert forall|c: char| lacks(s, c) implies #[trigger] lacks(strip_back(s, class), c) by {
            assert(lacks(rest, c)) by {
                assert forall|i: int| 0 <= i < rest.len() implies #[trigger] rest[i] != c by {
                    assert(rest[i] == s[i]);
                }
            }
        }
    } else {
        assert(s.take(s.len() as int) =~= s);
    }
}

pub(crate) proof fn lemma_trimmed(s: Seq<char>)
    ensures
        is_tight(trimmed(s)),
        forall|c: char| lacks(s, c) ==> #[trigger] lacks(trimmed(s), c),
{
    let front = strip_front(s, CharClass::WhiteSpace);
    lemma_strip_front(s, CharClass::WhiteSpace);
    lemma_strip_back(front, CharClass::WhiteSpace);
    assert forall|c: char| lacks(s, c) implies #[trigger] lacks(trimmed(s), c) by {
        assert(lacks(front, c));
    }
}

/// Trimming a text without white space at its ends changes nothing, nor does a
/// space in front of it.
pub(crate) proof fn lemma_trim_tight(s: Seq<char>)
    requires
        is_tight(s),
    ensures
        trimmed(s) == s,
        trimmed(seq![' '] + s) == s,
{
    let spaced = seq![' '] + s;
    assert(spaced.skip(1) =~= s);
    assert(is_white_space(' '));
    reveal_with_fuel(strip_front, 2);
}

pub(crate) proof fn lemma_split_lacks(s: Seq<char>, sep: char)
    ensures
        split(s, sep).len() > 0,
        forall|i: int| 0 <= i < split(s, sep).len() ==> lacks(#[trigger] split(s, sep)[i], sep),
    decreases s.len(),
{
    lemma_first_index(s, sep);
    let n = first_index(s, sep);
    if n < s.len() {
        lemma_split_lacks(s.skip(n as int + 1), sep);
        let head = s.take(n as int);
        assert(lacks(head, sep)) by {
            assert forall|j: int| 0 <= j < head.len() implies #[trigger] head[j] != sep by {
                assert(head[j] == s[j]);
            }
        }
        let tail = split(s.skip(n as int + 1), sep);
        assert forall|i: int| 0 <= i < split(s, sep).len() implies lacks(
            #[trigger] split(s, sep)[i],
            sep,
        ) by {
            if i > 0 {
                assert(split(s, sep)[i] == tail[i - 1]);
            } else {
                assert(split(s, sep)[0] == head);
            }
        }
    } else {
        assert(lacks(s, sep));
        assert(split(s, sep) == seq![s]);
    }
}

pub(crate) proof fn lemma_first_index_is(s: Seq<char>, c: char, n: nat)
    requires
        n <= s.len(),
        forall|j: int| 0 <= j < n ==> s[j] != c,
        n < s.len() ==> s[n as int] == c,
    ensures
        first_index(s, c) == n,
{
    lemma_first_index(s, c);
}

/// Splitting a text before which a first piece stands.
pub(crate) proof fn lemma_split_first(a: Seq<char>, b: Seq<char>, sep: char)
    requires
        lacks(a, sep),
    ensures
        split(a + seq![sep] + b, sep) == seq![a] + split(b, sep),
{
    let s = a + seq![sep] + b;
    lemma_first_index_is(s, sep, a.len());
    assert(s.take(a.len() as int) =~= a);
    assert(s.skip(a.len() as int + 1) =~= b);
}

/// Splitting what is put together with a separator splits either side.
pub(crate) proof fn lemma_split_both(a: Seq<char>, b: Seq<char>, sep: char)
    ensures
        split(a + seq![sep] + b, sep) == split(a, sep) + split(b, sep),
    decreases a.len(),
{
    let s = a + seq![sep] + b;
    lemma_first_index(a, sep);
    let n = first_index(a, sep);
    if n < a.len() {
        let rest = a.skip(n as int + 1);
        lemma_split_both(rest, b, sep);
        lemma_first_index_is(s, sep, n);
        assert(s.take(n as int) =~= a.take(n as int));
        assert(s.skip(n as int + 1) =~= rest + seq![sep] + b);
        assert(split(s, sep) =~= split(a, sep) + split(b, sep));
    } else {
        assert(lacks(a, sep));
        lemma_split_first(a, b, sep);
    }
}

/// Segments without `;` in them are told apart again in the header that they
/// make: as many pieces, each with at most white space around its segment.
pub proof fn joined_segments_split_back(segments: Seq<Seq<char>>)
    requires
        segments.len() > 0,
        forall|i: int|
            0 <= i < segments.len() ==> lacks(#[trigger] segments[i], ';') && is_tight(segments[i]),
    ensures
        split(joined(segments, "; "@), ';').len() == segments.len(),
        forall|i: int|
            0 <= i < segments.len() ==> trimmed(#[trigger] split(joined(segments, "; "@), ';')[i])
                == segments[i],
    decreases segments.len(),
{
    let pieces = split(joined(segments, "; "@), ';');
    if segments.len() == 1 {
        lemma_first_index_is(segments[0], ';', segments[0].len());
        lemma_trim_tight(segments[0]);
    } else {
        let init = segments.drop_last();
        assert forall|i: int| 0 <= i < init.len() implies lacks(#[trigger] init[i], ';')
            && is_tight(init[i]) by {
            assert(init[i] == segments[i]);
        }
        joined_segments_split_back(init);
        reveal_strlit("; ");
        let last = segments.last();
        let spaced = seq![' '] + last;
        assert(joined(segments, "; "@) =~= joined(init, "; "@) + seq![';'] + spaced);
        assert(lacks(spaced, ';')) by {
            assert forall|i: int| 0 <= i < spaced.len() implies #[trigger] spaced[i] != ';' by {
                if i > 0 {
                    assert(spaced[i] == last[i - 1]);
                }
            }
        }
        lemma_split_both(joined(init, "; "@), spaced, ';');
        lemma_first_index_is(spaced, ';', spaced.len());
        lemma_trim_tight(last);
        assert forall|i: int| 0 <= i < segments.len() implies trimmed(#[trigger] pieces[i])
            == segments[i] by {
            if i < segments.len() - 1 {
                assert(init[i] == segments[i]);
                assert(pieces[i] == split(joined(init, "; "@), ';')[i]);
            }
        }
    }
}

proof fn lemma_without_label(s: Seq<char>)
    requires
        is_tight(s),
        lacks(s, ';'),
    ensures
        is_tight(without_label(s)),
        lacks(without_label(s), ';'),
{
    let rest = s.skip(COOKIE_LABEL@.len() as int);
    if has_label(s) {
        assert(lacks(rest, ';')) by {
            assert forall|i: int| 0 <= i < rest.len() implies #[trigger] rest[i] != ';' by {
                assert(rest[i] == s[i + COOKIE_LABEL@.len()]);
            }
        }
        lemma_trimmed(rest);
    }
}

proof fn lemma_cleaned(segments: Seq<Seq<char>>)
    requires
        forall|i: int| 0 <= i < segments.len() ==> lacks(#[trigger] segments[i], ';'),
    ensures
        forall|i: int|
            0 <= i < cleaned(segments).len() ==> {
                &&& lacks(#[trigger] cleaned(segments)[i], ';')
                &&& is_tight(cleaned(segments)[i])
                &&& cleaned(segments)[i].len() > 0
            },
    decreases segments.len(),
{
    if segments.len() > 0 {
        let init = segments.drop_last();
        assert forall|i: int| 0 <= i < init.len() implies lacks(#[trigger] init[i], ';') by {
            assert(init[i] == segments[i]);
        }
        lemma_cleaned(init);
        assert(lacks(segments[segments.len() - 1], ';'));
        lemma_trimmed(segments.last());
        lemma_without_label(trimmed(segments.last()));
        assert forall|i: int| 0 <= i < cleaned(segments).len() implies {
            &&& lacks(#[trigger] cleaned(segments)[i], ';')
            &&& is_tight(cleaned(segments)[i])
            &&& cleaned(segments)[i].len() > 0
        } by {
            if i < cleaned(init).len() {
                assert(cleaned(segments)[i] == cleaned(init)[i]);
            }
        }
    }
}

/// The segments of a cleaned header have no `;` in them, are not empty, and
/// have no white space at their ends.
pub proof fn clean_segments_are_tight(header: Seq<char>)
    ensures
        forall|i: int|
            0 <= i < clean_segments(header).len() ==> {
                &&& lacks(#[trigger] clean_segments(header)[i], ';')
                &&& is_tight(clean_segments(header)[i])
                &&& clean_segments(header)[i].len() > 0
            },
{
    lemma_split_lacks(header, ';');
    lemma_cleaned(split(header, ';'));
}

/// Whether a pair names a session does not depend on white space around it.
proof fn lemma_pair_of_trimmed(pair: Seq<char>)
    ensures
        is_session_pair(trimmed(pair)) == is_session_pair(pair),
{
    lemma_trimmed(pair);
    lemma_trim_tight(trimmed(pair));
}

/// Cleaning a header neither loses a session nor makes one up: the cleaned
/// header carries a session exactly if one of its segments names one.
pub proof fn cleaning_keeps_the_session(header: Seq<char>)
    ensures
        carries_session(joined(clean_segments(header), "; "@)) <==> exists|i: int|
            0 <= i < clean_segments(header).len() && is_session_pair(
                #[trigger] clean_segments(header)[i],
            ),
{
    let segments = clean_segments(header);
    let clean = joined(segments, "; "@);
    let pieces = split(clean, ';');
    clean_segments_are_tight(header);
    if segments.len() == 0 {
        lemma_empty_header();
        assert(clean =~= seq![]);
    } else {
        joined_segments_split_back(segments);
        if carries_session(clean) {
            let i = choose|i: int| 0 <= i < pieces.len() && is_session_pair(#[trigger] pieces[i]);
            lemma_pair_of_trimmed(pieces[i]);
            assert(trimmed(pieces[i]) == segments[i]);
            assert(is_session_pair(segments[i]));
        }
        if exists|i: int| 0 <= i < segments.len() && is_session_pair(#[trigger] segments[i]) {
            let i = choose|i: int|
                0 <= i < segments.len() && is_session_pair(#[trigger] segments[i]);
            lemma_pair_of_trimmed(pieces[i]);
            assert(trimmed(pieces[i]) == segments[i]);
            assert(is_session_pair(pieces[i]));
        }
    }
}

/// The empty header carries no session.
pub(crate) proof fn lemma_empty_header()
    ensures
        !carries_session(seq![]),
{
    let empty: Seq<char> = seq![];
    assert(split(empty, ';') == seq![empty]);
    assert(trimmed(empty) == empty);
    assert(!empty.contains('='));
}

/// A header that comes of normalizing is never empty.
pub proof fn normalized_header_is_not_empty(input: Seq<char>)
    ensures
        normalized(input) matches Some(header) ==> header.len() > 0,
{
}

proof fn lemma_cleaned_stays(pieces: Seq<Seq<char>>, segments: Seq<Seq<char>>)
    requires
        pieces.len() == segments.len(),
        forall|i: int|
            0 <= i < segments.len() ==> {
                &&& trimmed(#[trigger] pieces[i]) == segments[i]
                &&& segments[i].len() > 0
                &&& !has_label(segments[i])
            },
    ensures
        cleaned(pieces) == segments,
    decreases pieces.len(),
{
    if pieces.len() > 0 {
        let n = pieces.len() - 1;
        assert(trimmed(pieces[n]) == segments[n]);
        assert forall|i: int| 0 <= i < n implies {
            &&& trimmed(#[trigger] pieces.drop_last()[i]) == segments.drop_last()[i]
            &&& segments.drop_last()[i].len() > 0
            &&& !has_label(segments.drop_last()[i])
        } by {
            assert(pieces.drop_last()[i] == pieces[i]);
        }
        lemma_cleaned_stays(pieces.drop_last(), segments.drop_last());
        assert(cleaned(pieces) =~= segments);
    } else {
        assert(cleaned(pieces) =~= segments);
    }
}

/// A full header stays as it is: tight segments without labels, one of them a
/// pair, and neither a cURL option nor quotes around them.
pub proof fn full_headers_stay(segments: Seq<Seq<char>>)
    requires
        segments.len() > 0,
        forall|i: int|
            0 <= i < segments.len() ==> {
                &&& lacks(#[trigger] segments[i], ';')
                &&& is_tight(segments[i])
                &&& segments[i].len() > 0
                &&& !has_label(segments[i])
            },
        joined(segments, "; "@).contains('='),
        without_curl_wrapper(joined(segments, "; "@)) == joined(segments, "; "@),
    ensures
        normalized(joined(segments, "; "@)) == Some(joined(segments, "; "@)),
{
    let header = joined(segments, "; "@);
    joined_segments_split_back(segments);
    lemma_cleaned_stays(split(header, ';'), segments);
    lemma_no_label(segments);
}

/// A header has no label if its first segment has none.
proof fn lemma_no_label(segments: Seq<Seq<char>>)
    requires
        segments.len() > 0,
        !has_label(segments[0]),
    ensures
        !has_label(joined(segments, "; "@)),
{
    let header = joined(segments, "; "@);
    let n = COOKIE_LABEL@.len() as int;
    lemma_starts_with_first(segments);
    if has_label(header) {
        if segments[0].len() >= n {
            assert(header.take(n) =~= segments[0].take(n));
        } else {
            // A separator would stand within the label.
            let k = segments[0].len() as int;
            reveal_strlit("cookie:");
            assert(header[k] == ';');
            assert(lowered(header.take(n))[k] == lower(';'));
            assert(lowered(COOKIE_LABEL@)[k] == lower(COOKIE_LABEL@[k]));
        }
    }
}

proof fn lemma_starts_with_first(segments: Seq<Seq<char>>)
    requires
        segments.len() > 0,
    ensures
        ({
            let header = joined(segments, "; "@);
            &&& header.len() >= segments[0].len()
            &&& header.take(segments[0].len() as int) == segments[0]
            &&& header.len() > segments[0].len() ==> header[segments[0].len() as int] == ';'
        }),
    decreases segments.len(),
{
    let header = joined(segments, "; "@);
    let k = segments[0].len() as int;
    reveal_strlit("; ");
    if segments.len() == 1 {
        assert(header.take(k) =~= segments[0]);
    } else {
        let init = segments.drop_last();
        assert(init[0] == segments[0]);
        lemma_starts_with_first(init);
        let head = joined(init, "; "@);
        assert(header.take(k) =~= head.take(k));
        if head.len() == k {
            assert(header[k] == "; "@[0]);
        } else {
            assert(header[k] == head[k]);
        }
    }
}

/// The name in front of `=`, with or without a space before it.
proof fn lemma_named_pair(name: Seq<char>, rest: Seq<char>)
    requires
        name.len() > 0,
        is_tight(name),
        lacks(name, '='),
    ensures
        pair_name(name + seq!['='] + rest) == Some(name),
        pair_name(seq![' '] + (name + seq!['='] + rest)) == Some(name),
{
    let pair = name + seq!['='] + rest;
    let spaced = seq![' '] + pair;
    let p = trimmed(pair);
    assert(pair[0] == name[0]);
    assert(strip_front(pair, CharClass::WhiteSpace) == pair);
    lemma_strip_back(pair, CharClass::WhiteSpace);
    let k = choose|k: int|
        0 <= k <= pair.len() && #[trigger] pair.take(k) == strip_back(pair, CharClass::WhiteSpace);
    assert(pair[name.len() as int] == '=');
    lemma_back_keeps(pair, name.len() as int);
    assert(p == pair.take(k));
    lemma_first_index_is(p, '=', name.len());
    lemma_first_index(p, '=');
    assert(p.take(name.len() as int) =~= name);
    lemma_trim_tight(name);
    assert(spaced.skip(1) =~= pair);
    assert(is_white_space(' '));
    assert(strip_front(spaced, CharClass::WhiteSpace) == strip_front(pair, CharClass::WhiteSpace));
}

/// A bare value, one without `=`, becomes a header that carries a session.
pub proof fn bare_value_becomes_a_session(input: Seq<char>)
    requires
        without_label(without_curl_wrapper(input)).len() > 0,
        !without_label(without_curl_wrapper(input)).contains('='),
    ensures
        normalized(input) is Some,
        carries_session(normalized(input)->0),
{
    let value = without_label(without_curl_wrapper(input));
    let name = OLLAMA_SESSION_COOKIE_NAME@;
    let header = name + seq!['='] + value;
    assert(without_curl_wrapper(input).len() > 0) by {
        if without_curl_wrapper(input).len() == 0 {
            reveal_strlit("cookie:");
            assert(!has_label(without_curl_wrapper(input)));
        }
    }
    assert(session_cookie_names()[1] == name);
    lemma_session_name_is_plain(name);
    lemma_first_piece(name, value);
    assert(is_session_pair(split(header, ';')[0]));
}

/// The first piece of a text that starts with a pair of a session's name.
proof fn lemma_first_piece(name: Seq<char>, value: Seq<char>)
    requires
        is_session_name(name),
    ensures
        split(name + seq!['='] + value, ';').len() > 0,
        is_session_pair(split(name + seq!['='] + value, ';')[0]),
        split(seq![' '] + (name + seq!['='] + value), ';').len() > 0,
        is_session_pair(split(seq![' '] + (name + seq!['='] + value), ';')[0]),
{
    let header = name + seq!['='] + value;
    let spaced = seq![' '] + header;
    lemma_session_name_is_plain(name);
    lemma_first_index(value, ';');
    let n = first_index(value, ';');
    let head = value.take(n as int);
    lemma_first_index_is(header, ';', name.len() + 1 + n);
    lemma_first_index_is(spaced, ';', name.len() + 2 + n);
    assert(split(header, ';')[0] =~= name + seq!['='] + head);
    assert(split(spaced, ';')[0] =~= seq![' '] + (name + seq!['='] + head));
    lemma_named_pair(name, head);
}

proof fn lemma_chunk_is_plain(name: Seq<char>, base: Seq<char>)
    requires
        is_chunk_name(name, base),
        base.len() > 0,
        lacks(base, '='),
        lacks(base, ';'),
        !is_white_space(base[0]),
    ensures
        name.len() > 0,
        lacks(name, '='),
        lacks(name, ';'),
        is_tight(name),
{
    let stem = base.push('.');
    let digits = name.skip(stem.len() as int);
    assert(name =~= stem + digits);
    assert forall|i: int| 0 <= i < name.len() implies #[trigger] name[i] != '=' && name[i] != ';' by {
        if i < base.len() {
            assert(name[i] == base[i]);
        } else if i > base.len() {
            assert(name[i] == digits[i - stem.len()]);
        }
    }
    assert(name[0] == base[0]);
    assert(name.last() == digits.last());
}

/// A session's name has neither `=` nor `;` in it, and no white space at its
/// ends.
pub(crate) proof fn lemma_session_name_is_plain(name: Seq<char>)
    requires
        is_session_name(name),
    ensures
        name.len() > 0,
        lacks(name, '='),
        lacks(name, ';'),
        is_tight(name),
{
    reveal_strlit("session");
    reveal_strlit("__Secure-session");
    reveal_strlit("ollama_session");
    reveal_strlit("__Host-ollama_session");
    reveal_strlit("wos-session");
    reveal_strlit("__Secure-next-auth.session-token");
    reveal_strlit("next-auth.session-token");
    if session_cookie_names().contains(name) {
        let i = choose|i: int|
            0 <= i < session_cookie_names().len() && session_cookie_names()[i] == name;
        assert(session_cookie_names().len() == 7);
        if i == 0 {
            assert(name == "session"@);
        } else if i == 1 {
            assert(name == "__Secure-session"@);
        } else if i == 2 {
            assert(name == "ollama_session"@);
        } else if i == 3 {
            assert(name == "__Host-ollama_session"@);
        } else if i == 4 {
            assert(name == "wos-session"@);
        } else if i == 5 {
            assert(name == "__Secure-next-auth.session-token"@);
        } else {
            assert(name == "next-auth.session-token"@);
        }
    } else if is_chunk_name(name, SECURE_NEXTAUTH_COOKIE_NAME@) {
        lemma_chunk_is_plain(name, SECURE_NEXTAUTH_COOKIE_NAME@);
    } else {
        lemma_chunk_is_plain(name, NEXTAUTH_COOKIE_NAME@);
    }
}

/// A pair of a session's name among the parts of a header makes it carry the
/// session.
proof fn lemma_joined_session(
    parts: Seq<Seq<char>>,
    j: int,
    name: Seq<char>,
    value: Seq<char>,
)
    requires
        0 <= j < parts.len(),
        parts[j] == name + seq!['='] + value,
        is_session_name(name),
    ensures
        carries_session(joined(parts, "; "@)),
    decreases parts.len(),
{
    lemma_first_piece(name, value);
    let pieces = split(joined(parts, "; "@), ';');
    if parts.len() == 1 {
        assert(is_session_pair(pieces[0]));
    } else {
        let init = parts.drop_last();
        let head = joined(init, "; "@);
        let spaced = seq![' '] + parts.last();
        reveal_strlit("; ");
        assert(joined(parts, "; "@) =~= head + seq![';'] + spaced);
        lemma_split_both(head, spaced, ';');
        if j < parts.len() - 1 {
            assert(init[j] == parts[j]);
            lemma_joined_session(init, j, name, value);
            let i = choose|i: int|
                0 <= i < split(head, ';').len() && is_session_pair(#[trigger] split(head, ';')[i]);
            assert(pieces[i] == split(head, ';')[i]);
        } else {
            assert(pieces[split(head, ';').len() as int] == split(spaced, ';')[0]);
        }
    }
}

/// A browser whose cookies for the URL have a session's cookie among them is
/// never passed over.
pub proof fn browser_session_is_recognized(cookies: Seq<Cookie>, url: UrlView, i: int)
    requires
        0 <= i < cookies.len(),
        applies(cookies[i], url),
        is_session_name(cookies[i].name@),
    ensures
        session_header(cookies, url) is Some,
{
    let p = |c: Cookie| applies(c, url);
    let kept = applicable(cookies, url);
    cookies.lemma_filter_contains(p, i);
    let j = choose|j: int| 0 <= j < kept.len() && kept[j] == cookies[i];
    let pairs = kept.map_values(|c: Cookie| pair_of(c));
    lemma_joined_session(pairs, j, cookies[i].name@, cookies[i].value@);
}

/// Stripping the end of a text leaves what reaches to a character that is not
/// stripped.
pub(crate) proof fn lemma_back_keeps(s: Seq<char>, at: int)
    requires
        0 <= at < s.len(),
        !is_white_space(s[at]),
    ensures
        strip_back(s, CharClass::WhiteSpace).len() > at,
    decreases s.len(),
{
    if is_white_space(s.last()) {
        lemma_back_keeps(s.drop_last(), at);
    }
}

/// Every numbered chunk of a NextAuth token is a session cookie.
pub proof fn chunks_are_session_names(digits: Seq<char>)
    requires
        is_digits(digits),
    ensures
        is_session_name(NEXTAUTH_COOKIE_NAME@ + seq!['.'] + digits),
        is_session_name(SECURE_NEXTAUTH_COOKIE_NAME@ + seq!['.'] + digits),
{
    lemma_chunk_name(NEXTAUTH_COOKIE_NAME@, digits);
    lemma_chunk_name(SECURE_NEXTAUTH_COOKIE_NAME@, digits);
}

proof fn lemma_chunk_name(base: Seq<char>, digits: Seq<char>)
    requires
        is_digits(digits),
    ensures
        is_chunk_name(base + seq!['.'] + digits, base),
{
    let name = base + seq!['.'] + digits;
    let stem = base.push('.');
    assert(name.subrange(0, stem.len() as int) =~= stem);
    assert(name.skip(stem.len() as int) =~= digits);
}

/// A cookie header goes to https and to the session's own site only, whatever
/// the source.
pub proof fn headers_stay_on_the_site(source: OllamaCookieSource, url: UrlView)
    ensures
        source_header(source, url) is Some ==> attaches(url),
{
    if !attaches(url) {
        if let OllamaCookieSource::Browser(cookies) = source {
            lemma_none_applicable(cookies@, url);
            lemma_empty_header();
            assert(header_of(applicable(cookies@, url)) =~= seq![]);
        }
    }
}

proof fn lemma_none_applicable(cookies: Seq<Cookie>, url: UrlView)
    requires
        !attaches(url),
    ensures
        applicable(cookies, url).len() == 0,
{
    let p = |c: Cookie| applies(c, url);
    if cookies.filter(p).len() > 0 {
        cookies.lemma_filter_pred(p, 0);
    }
}

/// A header made of browser cookies carries a session.
pub proof fn browser_headers_carry_a_session(cookies: Seq<Cookie>, url: UrlView)
    ensures
        session_header(cookies, url) matches Some(header) ==> carries_session(header),
{
}

/// A cookie that does not go with the URL leaves no trace in its header,
/// wherever it stands among the others.
pub proof fn other_cookies_do_not_count(
    before: Seq<Cookie>,
    other: Cookie,
    after: Seq<Cookie>,
    url: UrlView,
)
    requires
        !applies(other, url),
    ensures
        session_header(before + seq![other] + after, url) == session_header(before + after, url),
{
    let p = |c: Cookie| applies(c, url);
    Seq::filter_distributes_over_add(before + seq![other], after, p);
    Seq::filter_distributes_over_add(before, after, p);
    assert(before + seq![other] =~= before.push(other));
    before.lemma_filter_push(other, p);
    assert(applicable(before + seq![other] + after, url) == applicable(before + after, url));
}

/// A cookie's path reaches a request only if the request's path is that path,
/// or lies below it: never a path that merely starts with the same letters.
pub proof fn paths_reach_what_lies_below(cookie_path: Seq<char>, request_path: Seq<char>)
    requires
        path_matches(cookie_path, request_path),
        cookie_path.len() > 0,
        cookie_path != "/"@,
    ensures
        cookie_path.is_prefix_of(request_path),
        request_path.len() > cookie_path.len() ==> cookie_path.last() == '/'
            || request_path[cookie_path.len() as int] == '/',
{
    if request_path == cookie_path {
        assert(request_path.subrange(0, cookie_path.len() as int) =~= cookie_path);
    }
}

/// The header of several sets of cookies is that of the first set that carries
/// a session; sets without one are passed over.
pub proof fn sets_without_session_are_passed_over(sets: Seq<Vec<Cookie>>, url: UrlView, i: int)
    requires
        0 <= i < sets.len(),
        session_header(sets[i]@, url) is Some,
        forall|j: int| 0 <= j < i ==> session_header((#[trigger] sets[j])@, url) is None,
    ensures
        first_session_header(sets, url) == session_header(sets[i]@, url),
    decreases sets.len(),
{
    if i > 0 {
        let rest = sets.skip(1);
        assert(rest[i - 1] == sets[i]);
        assert forall|j: int| 0 <= j < i - 1 implies session_header((#[trigger] rest[j])@, url)
            is None by {
            assert(rest[j] == sets[j + 1]);
        }
        sets_without_session_are_passed_over(rest, url, i - 1);
    }
}

/// Where no set carries a session there is no header.
pub proof fn no_session_in_any_set(sets: Seq<Vec<Cookie>>, url: UrlView)
    requires
        forall|j: int| 0 <= j < sets.len() ==> session_header((#[trigger] sets[j])@, url) is None,
    ensures
        first_session_header(sets, url) is None,
    decreases sets.len(),
{
    if sets.len() > 0 {
        let rest = sets.skip(1);
        assert forall|j: int| 0 <= j < rest.len() implies session_header(
            (#[trigger] rest[j])@,
            url,
        ) is None by {
            assert(rest[j] == sets[j + 1]);
        }
        no_session_in_any_set(rest, url);
    }
}

/// Without https a URL neither gets a cookie nor counts as a sign-in page.
pub proof fn only_https_counts(url: UrlView)
    requires
        url.scheme != "https"@,
    ensures
        !attaches(url),
        !asks_sign_in(url),
{
}

/// The store of validated headers: header and label of each account slot.
pub type HeaderStore<Id> = Map<Id, (Seq<char>, Seq<char>)>;

/// The store after a command.
pub open spec fn stored<Id>(store: HeaderStore<Id>, command: CacheCommand<Id>) -> HeaderStore<Id> {
    match command {
        CacheCommand::Store { id, header, label } => store.insert(id, (header@, label@)),
        CacheCommand::Clear { id } => store.remove(id),
    }
}

/// The account slot that a command is for.
pub open spec fn slot_of<Id>(command: CacheCommand<Id>) -> Id {
    match command {
        CacheCommand::Store { id, header, label } => id,
        CacheCommand::Clear { id } => id,
    }
}

/// Account slots never share a session: a command for one slot leaves what is
/// stored for every other slot as it was.
pub proof fn slots_are_separate<Id>(store: HeaderStore<Id>, command: CacheCommand<Id>, other: Id)
    requires
        other != slot_of(command),
    ensures
        stored(store, command).dom().contains(other) == store.dom().contains(other),
        store.dom().contains(other) ==> stored(store, command)[other] == store[other],
{
}

/// The store after several commands, one after the other.
pub open spec fn stored_all<Id>(
    store: HeaderStore<Id>,
    commands: Seq<CacheCommand<Id>>,
) -> HeaderStore<Id>
    decreases commands.len(),
{
    if commands.len() == 0 {
        store
    } else {
        stored(stored_all(store, commands.drop_last()), commands.last())
    }
}

proof fn lemma_slot_stays<Id>(store: HeaderStore<Id>, commands: Seq<CacheCommand<Id>>, id: Id)
    requires
        forall|i: int| 0 <= i < commands.len() ==> slot_of(#[trigger] commands[i]) != id,
    ensures
        stored_all(store, commands).dom().contains(id) == store.dom().contains(id),
        store.dom().contains(id) ==> stored_all(store, commands)[id] == store[id],
    decreases commands.len(),
{
    if commands.len() > 0 {
        let init = commands.drop_last();
        assert forall|i: int| 0 <= i < init.len() implies slot_of(#[trigger] init[i]) != id by {
            assert(init[i] == commands[i]);
        }
        lemma_slot_stays(store, init, id);
        assert(slot_of(commands[commands.len() - 1]) != id);
        slots_are_separate(stored_all(store, init), commands.last(), id);
    }
}

/// A session that was validated is used again: what was stored for its slot is
/// what the source sends, and settles the next search for a browser's header,
/// whatever happens to other slots in between, until the slot itself is cleared
/// or stored anew, or a new import is forced.
pub proof fn validated_sessions_are_used_again<Id>(
    store: HeaderStore<Id>,
    source: OllamaCookieSource,
    url: UrlView,
    id: Id,
    command: CacheCommand<Id>,
    later: Seq<CacheCommand<Id>>,
    cached: String,
    resolution: BrowserResolution,
)
    requires
        source matches OllamaCookieSource::Manual(header) ==> carries_session(header@),
        stores_header(Some(command), source, url, id),
        forall|i: int| 0 <= i < later.len() ==> slot_of(#[trigger] later[i]) != id,
        cached@ == stored_all(stored(store, command), later)[id].0,
        is_resolution(false, Some(cached), resolution),
    ensures
        stored_all(stored(store, command), later).dom().contains(id),
        source_header(source, url) == Some(cached@),
        resolution == BrowserResolution::Settled(Ok(Some(cached))),
{
    lemma_slot_stays(stored(store, command), later, id);
    if let OllamaCookieSource::Browser(cookies) = source {
        browser_headers_carry_a_session(cookies@, url);
    }
}

/// A session that was refused is not used again: nothing is stored for its slot
/// once it is cleared, whatever happens to other slots in between, and without
/// a stored header no search for a browser's header is settled by one.
pub proof fn refused_sessions_are_imported_again<Id>(
    store: HeaderStore<Id>,
    id: Id,
    later: Seq<CacheCommand<Id>>,
    resolution: BrowserResolution,
)
    requires
        forall|i: int| 0 <= i < later.len() ==> slot_of(#[trigger] later[i]) != id,
        is_resolution(false, None, resolution),
    ensures
        !stored_all(stored(store, CacheCommand::Clear { id }), later).dom().contains(id),
        !(resolution matches BrowserResolution::Settled(Ok(_))),
{
    lemma_slot_stays(stored(store, CacheCommand::Clear { id }), later, id);
}

} // verus!
