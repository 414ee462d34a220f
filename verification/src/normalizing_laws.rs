//! What holds of a pasted header as it is normalized.

use crate::session_cookies::{
    carries_session, clean_segments, cleaned, has_label, is_session_name, is_session_pair,
    normalized, pair_name, session_cookie_names, without_curl_wrapper, without_label,
    without_option, COOKIE_LABEL, NEXTAUTH_COOKIE_NAME, SECURE_NEXTAUTH_COOKIE_NAME,
};
use crate::session_laws::{
    cleaning_keeps_the_session, lacks, lemma_back_keeps, lemma_empty_header, lemma_first_index_is,
    lemma_session_name_is_plain, lemma_split_both, lemma_strip_back, lemma_trim_tight,
    lemma_trimmed,
};
use crate::text::{
    after_prefix, first_index, is_white_space, joined, lemma_first_index, lower, lowered, split,
    strip_back, strip_ends, strip_front, trimmed, CharClass,
};
use vstd::prelude::*;

verus! {

/// A header carries a session exactly if what stands before a `;` does, or what
/// follows it.
pub proof fn sessions_are_told_segment_by_segment(a: Seq<char>, b: Seq<char>)
    ensures
        carries_session(a + seq![';'] + b) == (carries_session(a) || carries_session(b)),
{
    let whole = split(a + seq![';'] + b, ';');
    let left = split(a, ';');
    let right = split(b, ';');
    lemma_split_both(a, b, ';');
    if carries_session(a + seq![';'] + b) {
        let i = choose|i: int| 0 <= i < whole.len() && is_session_pair(#[trigger] whole[i]);
        if i < left.len() {
            assert(left[i] == whole[i]);
        } else {
            assert(right[i - left.len()] == whole[i]);
        }
    }
    if carries_session(a) {
        let i = choose|i: int| 0 <= i < left.len() && is_session_pair(#[trigger] left[i]);
        assert(whole[i] == left[i]);
    }
    if carries_session(b) {
        let i = choose|i: int| 0 <= i < right.len() && is_session_pair(#[trigger] right[i]);
        assert(whole[i + left.len()] == right[i]);
    }
}

/// Without a `;` a header is one pair.
pub(crate) proof fn lemma_one_pair(s: Seq<char>)
    requires
        lacks(s, ';'),
    ensures
        carries_session(s) == is_session_pair(s),
{
    lemma_first_index_is(s, ';', s.len());
    assert(split(s, ';') == seq![s]);
    assert(split(s, ';')[0] == s);
}

pub(crate) proof fn lemma_trim_front(s: Seq<char>)
    requires
        s.len() > 0,
        is_white_space(s[0]),
    ensures
        trimmed(s.skip(1)) == trimmed(s),
{
}

pub(crate) proof fn lemma_trim_back(s: Seq<char>)
    requires
        s.len() > 0,
        is_white_space(s.last()),
    ensures
        trimmed(s.drop_last()) == trimmed(s),
    decreases s.len(),
{
    let rest = s.drop_last();
    if s.len() > 1 {
        if is_white_space(s[0]) {
            lemma_trim_back(s.skip(1));
            assert(rest.skip(1) =~= s.skip(1).drop_last());
            lemma_trim_front(rest);
        } else {
            assert(rest[0] == s[0]);
        }
    } else {
        assert(s.skip(1) =~= rest);
        lemma_trim_front(s);
    }
}

/// What stands first in a text without white space in front stays there.
pub(crate) proof fn lemma_trim_keeps_first(s: Seq<char>)
    requires
        s.len() > 0,
        !is_white_space(s[0]),
    ensures
        trimmed(s).len() > 0,
        trimmed(s)[0] == s[0],
{
    lemma_strip_back(s, CharClass::WhiteSpace);
    lemma_back_keeps(s, 0);
}

/// The name of a pair is what stands before the first `=`, trimmed.
pub(crate) proof fn lemma_pair_name(s: Seq<char>)
    ensures
        pair_name(s) == (if s.contains('=') {
            Some(trimmed(s.take(first_index(s, '=') as int)))
        } else {
            None
        }),
    decreases s.len(),
{
    lemma_first_index(s, '=');
    let n = first_index(s, '=') as int;
    if s.len() > 0 && is_white_space(s[0]) {
        let rest = s.skip(1);
        lemma_pair_name(rest);
        lemma_first_index(rest, '=');
        lemma_trim_front(s);
        assert(first_index(s, '=') == 1 + first_index(rest, '='));
        if n < s.len() {
            assert(s.take(n).skip(1) =~= rest.take(n - 1));
            lemma_trim_front(s.take(n));
        }
    } else if s.len() > 0 && is_white_space(s.last()) {
        let rest = s.drop_last();
        lemma_pair_name(rest);
        lemma_trim_back(s);
        if n < s.len() {
            assert(n < rest.len());
            lemma_first_index_is(rest, '=', n as nat);
            lemma_first_index(rest, '=');
            assert(rest.take(n) =~= s.take(n));
        } else {
            lemma_first_index_is(rest, '=', rest.len());
            lemma_first_index(rest, '=');
        }
    } else {
        lemma_trim_tight(s);
    }
}

/// The characters that a session's name can start with.
spec fn begins_session(c: char) -> bool {
    c == 's' || c == '_' || c == 'o' || c == 'w' || c == 'n'
}

proof fn lemma_session_begins(name: Seq<char>)
    requires
        is_session_name(name),
    ensures
        name.len() > 0,
        begins_session(name[0]),
{
    lemma_session_name_is_plain(name);
    reveal_strlit("session");
    reveal_strlit("__Secure-session");
    reveal_strlit("ollama_session");
    reveal_strlit("__Host-ollama_session");
    reveal_strlit("wos-session");
    reveal_strlit("__Secure-next-auth.session-token");
    reveal_strlit("next-auth.session-token");
    if session_cookie_names().contains(name) {
        let i = choose|i: int|
            0 <= i < session_cookie_names().len() && session_cookie_names()[i] == name;
        assert(0 <= i < 7);
    } else if after_prefix(name, SECURE_NEXTAUTH_COOKIE_NAME@.push('.')) is Some {
        assert(name[0] == SECURE_NEXTAUTH_COOKIE_NAME@.push('.')[0]);
    } else {
        assert(name[0] == NEXTAUTH_COOKIE_NAME@.push('.')[0]);
    }
}

/// A pair that starts like no session's name is no session's pair.
proof fn lemma_no_session_pair(s: Seq<char>)
    requires
        s.len() > 0,
        !is_white_space(s[0]),
        s[0] != '=',
        !begins_session(s[0]),
    ensures
        !is_session_pair(s),
{
    lemma_pair_name(s);
    lemma_first_index(s, '=');
    let n = first_index(s, '=') as int;
    if s.contains('=') {
        lemma_trim_keeps_first(s.take(n));
        if is_session_pair(s) {
            lemma_session_begins(trimmed(s.take(n)));
        }
    }
}

/// White space in front of a pair does not matter.
proof fn lemma_session_pair_front(s: Seq<char>)
    requires
        s.len() > 0,
        is_white_space(s[0]),
    ensures
        is_session_pair(s.skip(1)) == is_session_pair(s),
{
    lemma_trim_front(s);
}

/// What may be dropped in front of a header: one white space, or what starts
/// like no session's name and has no `;` in it.
spec fn is_droppable(s: Seq<char>, k: int) -> bool {
    &&& 0 < k <= s.len()
    &&& lacks(s.take(k), ';')
    &&& (k == 1 && is_white_space(s[0])) || (!is_white_space(s[0]) && s[0] != '='
        && !begins_session(s[0]))
}

/// Dropping it keeps the session.
proof fn lemma_drop_front(s: Seq<char>, k: int)
    requires
        carries_session(s),
        is_droppable(s, k),
    ensures
        carries_session(s.skip(k)),
{
    lemma_first_index(s, ';');
    let n = first_index(s, ';') as int;
    let head = s.take(n);
    assert(lacks(head, ';')) by {
        assert forall|i: int| 0 <= i < head.len() implies #[trigger] head[i] != ';' by {
            assert(head[i] == s[i]);
        }
    }
    assert(k <= n) by {
        if n < k {
            assert(s.take(k)[n] == ';');
        }
    }
    assert(head[0] == s[0]);
    let rest = head.skip(k);
    assert(lacks(rest, ';')) by {
        assert forall|i: int| 0 <= i < rest.len() implies #[trigger] rest[i] != ';' by {
            assert(rest[i] == head[i + k]);
        }
    }
    lemma_one_pair(head);
    lemma_one_pair(rest);
    if is_white_space(s[0]) {
        lemma_session_pair_front(head);
    } else {
        lemma_no_session_pair(head);
    }
    if n < s.len() {
        let tail = s.skip(n + 1);
        assert(s =~= head + seq![';'] + tail);
        assert(s.skip(k) =~= rest + seq![';'] + tail);
        sessions_are_told_segment_by_segment(head, tail);
        sessions_are_told_segment_by_segment(rest, tail);
    } else {
        assert(head =~= s);
    }
}

/// Dropping a last character other than `;` and `=` keeps the session.
proof fn lemma_drop_back(s: Seq<char>)
    requires
        carries_session(s),
        s.len() > 0,
        s.last() != ';',
        s.last() != '=',
    ensures
        carries_session(s.drop_last()),
    decreases s.len(),
{
    lemma_first_index(s, ';');
    let n = first_index(s, ';') as int;
    let shorter = s.drop_last();
    if n < s.len() {
        let head = s.take(n);
        let tail = s.skip(n + 1);
        assert(s =~= head + seq![';'] + tail);
        assert(shorter =~= head + seq![';'] + tail.drop_last());
        sessions_are_told_segment_by_segment(head, tail);
        sessions_are_told_segment_by_segment(head, tail.drop_last());
        if carries_session(tail) {
            lemma_drop_back(tail);
        }
    } else {
        assert(lacks(s, ';'));
        assert(lacks(shorter, ';')) by {
            assert forall|i: int| 0 <= i < shorter.len() implies #[trigger] shorter[i] != ';' by {
                assert(shorter[i] == s[i]);
            }
        }
        lemma_one_pair(s);
        lemma_one_pair(shorter);
        lemma_pair_name(s);
        lemma_pair_name(shorter);
        lemma_first_index(s, '=');
        let m = first_index(s, '=') as int;
        assert(m < shorter.len());
        lemma_first_index_is(shorter, '=', m as nat);
        lemma_first_index(shorter, '=');
        assert(shorter.take(m) =~= s.take(m));
    }
}

/// The classes of characters that are stripped from a pasted header.
spec fn is_stripped(class: CharClass) -> bool {
    class == CharClass::WhiteSpace || class == CharClass::Only('\'') || class == CharClass::Only(
        '"',
    )
}

proof fn lemma_strip_front_keeps(s: Seq<char>, class: CharClass)
    requires
        carries_session(s),
        is_stripped(class),
    ensures
        carries_session(strip_front(s, class)),
    decreases s.len(),
{
    if s.len() > 0 && class.has(s[0]) {
        assert(s.take(1)[0] == s[0]);
        lemma_drop_front(s, 1);
        lemma_strip_front_keeps(s.skip(1), class);
    }
}

proof fn lemma_strip_back_keeps(s: Seq<char>, class: CharClass)
    requires
        carries_session(s),
        is_stripped(class),
    ensures
        carries_session(strip_back(s, class)),
    decreases s.len(),
{
    if s.len() > 0 && class.has(s.last()) {
        lemma_drop_back(s);
        lemma_strip_back_keeps(s.drop_last(), class);
    }
}

proof fn lemma_strip_keeps(s: Seq<char>, class: CharClass)
    requires
        carries_session(s),
        is_stripped(class),
    ensures
        carries_session(strip_ends(s, class)),
{
    lemma_strip_front_keeps(s, class);
    lemma_strip_back_keeps(strip_front(s, class), class);
}

/// The cURL options that a copied header can stand behind.
pub open spec fn curl_options() -> Seq<Seq<char>> {
    seq!["-b "@, "--cookie "@, "-H "@]
}

/// How the cURL options are spelled.
pub(crate) proof fn lemma_options()
    ensures
        "-b "@ == seq!['-', 'b', ' '],
        "--cookie "@ == seq!['-', '-', 'c', 'o', 'o', 'k', 'i', 'e', ' '],
        "-H "@ == seq!['-', 'H', ' '],
{
    reveal_strlit("-b ");
    reveal_strlit("--cookie ");
    reveal_strlit("-H ");
    assert("-b "@ =~= seq!['-', 'b', ' ']);
    assert("--cookie "@ =~= seq!['-', '-', 'c', 'o', 'o', 'k', 'i', 'e', ' ']);
    assert("-H "@ =~= seq!['-', 'H', ' ']);
}

proof fn lemma_option_keeps(s: Seq<char>, option: Seq<char>)
    requires
        carries_session(s),
        option.len() > 0,
        option[0] == '-',
        lacks(option, ';'),
    ensures
        carries_session(without_option(s, option)),
{
    if option.is_prefix_of(s) {
        let k = option.len() as int;
        assert(s.take(k) =~= option);
        assert(s[0] == option[0]);
        lemma_drop_front(s, k);
        lemma_strip_keeps(s.skip(k), CharClass::WhiteSpace);
    }
}

/// A label starts with a `c` and has neither `;` nor `=` in it.
pub(crate) proof fn lemma_label(s: Seq<char>)
    requires
        has_label(s),
    ensures
        COOKIE_LABEL@.len() == 7,
        s.len() >= 7,
        s[0] == 'c' || s[0] == 'C',
        forall|i: int| 0 <= i < 7 ==> #[trigger] s[i] != ';' && s[i] != '=',
{
    reveal_strlit("cookie:");
    let head = s.take(7);
    assert(lowered(head) == lowered(COOKIE_LABEL@));
    assert forall|i: int| 0 <= i < 7 implies #[trigger] s[i] != ';' && s[i] != '=' by {
        assert(lowered(head)[i] == lower(s[i]));
        assert(lowered(COOKIE_LABEL@)[i] == lower(COOKIE_LABEL@[i]));
    }
    assert(lowered(head)[0] == lower(s[0]));
    assert(lowered(COOKIE_LABEL@)[0] == 'c');
}

proof fn lemma_label_keeps(s: Seq<char>)
    requires
        carries_session(s),
    ensures
        carries_session(without_label(s)),
{
    if has_label(s) {
        lemma_label(s);
        assert(lacks(s.take(7), ';')) by {
            assert forall|i: int| 0 <= i < 7 implies #[trigger] s.take(7)[i] != ';' by {
                assert(s.take(7)[i] == s[i]);
            }
        }
        lemma_drop_front(s, 7);
        lemma_strip_keeps(s.skip(7), CharClass::WhiteSpace);
    }
}

proof fn lemma_unwrapping_keeps(input: Seq<char>)
    requires
        carries_session(input),
    ensures
        carries_session(without_curl_wrapper(input)),
{
    lemma_options();
    let h = trimmed(input);
    lemma_strip_keeps(input, CharClass::WhiteSpace);
    lemma_option_keeps(h, "-b "@);
    let h = without_option(h, "-b "@);
    lemma_option_keeps(h, "--cookie "@);
    let h = without_option(h, "--cookie "@);
    lemma_option_keeps(h, "-H "@);
    let h = without_option(h, "-H "@);
    lemma_strip_keeps(h, CharClass::Only('\''));
    let h = strip_ends(h, CharClass::Only('\''));
    lemma_strip_keeps(h, CharClass::Only('"'));
    lemma_strip_keeps(strip_ends(h, CharClass::Only('"')), CharClass::WhiteSpace);
}

/// A session's pair comes out of cleaning.
proof fn lemma_cleaned_keeps(segments: Seq<Seq<char>>, i: int)
    requires
        0 <= i < segments.len(),
        is_session_pair(segments[i]),
    ensures
        exists|j: int|
            0 <= j < cleaned(segments).len() && is_session_pair(#[trigger] cleaned(segments)[j]),
    decreases segments.len(),
{
    let init = segments.drop_last();
    if i < init.len() {
        assert(init[i] == segments[i]);
        lemma_cleaned_keeps(init, i);
        let j = choose|j: int|
            0 <= j < cleaned(init).len() && is_session_pair(#[trigger] cleaned(init)[j]);
        assert(cleaned(segments)[j] == cleaned(init)[j]);
    } else {
        let last = trimmed(segments.last());
        lemma_trimmed(segments.last());
        lemma_trim_tight(last);
        assert(is_session_pair(last));
        if has_label(last) {
            lemma_label(last);
            lemma_no_session_pair(last);
        }
        assert(last.contains('='));
        assert(cleaned(segments)[cleaned(init).len() as int] == last);
    }
}

/// A header that carries a session has a `=` in it.
pub(crate) proof fn lemma_session_has_equals(s: Seq<char>)
    requires
        carries_session(s),
    ensures
        s.contains('='),
    decreases s.len(),
{
    lemma_first_index(s, ';');
    let n = first_index(s, ';') as int;
    let head = s.take(n);
    assert(lacks(head, ';')) by {
        assert forall|i: int| 0 <= i < head.len() implies #[trigger] head[i] != ';' by {
            assert(head[i] == s[i]);
        }
    }
    lemma_one_pair(head);
    lemma_pair_name(head);
    if carries_session(head) {
        let i = choose|i: int| 0 <= i < head.len() && head[i] == '=';
        assert(s[i] == '=');
    } else if n < s.len() {
        let tail = s.skip(n + 1);
        assert(s =~= head + seq![';'] + tail);
        sessions_are_told_segment_by_segment(head, tail);
        lemma_session_has_equals(tail);
        let i = choose|i: int| 0 <= i < tail.len() && tail[i] == '=';
        assert(s[n + 1 + i] == '=');
    } else {
        assert(head =~= s);
    }
}

/// A pasted header that carries a session still carries one when it is
/// normalized.
pub proof fn normalizing_keeps_the_session(input: Seq<char>)
    requires
        carries_session(input),
    ensures
        normalized(input) is Some,
        carries_session(normalized(input)->0),
{
    let unwrapped = without_curl_wrapper(input);
    let header = without_label(unwrapped);
    lemma_unwrapping_keeps(input);
    lemma_label_keeps(unwrapped);
    lemma_session_has_equals(unwrapped);
    lemma_session_has_equals(header);
    let pieces = split(header, ';');
    let i = choose|i: int| 0 <= i < pieces.len() && is_session_pair(#[trigger] pieces[i]);
    lemma_cleaned_keeps(pieces, i);
    cleaning_keeps_the_session(header);
    let clean = joined(clean_segments(header), "; "@);
    assert(carries_session(clean));
    lemma_empty_header();
    if clean.len() == 0 {
        assert(clean =~= seq![]);
    }
}

/// Trimming keeps what is no white space.
proof fn lemma_trim_keeps(s: Seq<char>, c: char)
    requires
        s.contains(c),
        !is_white_space(c),
    ensures
        trimmed(s).contains(c),
    decreases s.len(),
{
    let i = choose|i: int| 0 <= i < s.len() && s[i] == c;
    if is_white_space(s[0]) {
        assert(s.skip(1)[i - 1] == c);
        lemma_trim_keeps(s.skip(1), c);
        lemma_trim_front(s);
    } else if is_white_space(s.last()) {
        assert(s.drop_last()[i] == c);
        lemma_trim_keeps(s.drop_last(), c);
        lemma_trim_back(s);
    } else {
        lemma_trim_tight(s);
    }
}

proof fn lemma_without_label_keeps_equals(s: Seq<char>)
    requires
        s.contains('='),
    ensures
        without_label(s).contains('='),
{
    if has_label(s) {
        lemma_label(s);
        let i = choose|i: int| 0 <= i < s.len() && s[i] == '=';
        assert(i >= 7);
        assert(s.skip(7)[i - 7] == '=');
        lemma_trim_keeps(s.skip(7), '=');
    }
}

/// A `=` stands in one of the pieces.
proof fn lemma_split_keeps_equals(s: Seq<char>)
    requires
        s.contains('='),
    ensures
        exists|i: int|
            0 <= i < split(s, ';').len() && (#[trigger] split(s, ';')[i]).contains('='),
    decreases s.len(),
{
    lemma_first_index(s, ';');
    let n = first_index(s, ';') as int;
    let at = choose|i: int| 0 <= i < s.len() && s[i] == '=';
    let pieces = split(s, ';');
    if n >= s.len() {
        assert(pieces[0] == s);
    } else if at < n {
        assert(s.take(n)[at] == '=');
        assert(pieces[0] == s.take(n));
    } else {
        let tail = s.skip(n + 1);
        assert(tail[at - n - 1] == '=');
        lemma_split_keeps_equals(tail);
        let rest = split(tail, ';');
        let i = choose|i: int| 0 <= i < rest.len() && (#[trigger] rest[i]).contains('=');
        assert(pieces[i + 1] == rest[i]);
    }
}

proof fn lemma_cleaned_keeps_equals(segments: Seq<Seq<char>>, i: int)
    requires
        0 <= i < segments.len(),
        segments[i].contains('='),
    ensures
        exists|j: int|
            0 <= j < cleaned(segments).len() && (#[trigger] cleaned(segments)[j]).contains('='),
    decreases segments.len(),
{
    let init = segments.drop_last();
    if i < init.len() {
        assert(init[i] == segments[i]);
        lemma_cleaned_keeps_equals(init, i);
        let j = choose|j: int|
            0 <= j < cleaned(init).len() && (#[trigger] cleaned(init)[j]).contains('=');
        assert(cleaned(segments)[j] == cleaned(init)[j]);
    } else {
        lemma_trim_keeps(segments.last(), '=');
        lemma_without_label_keeps_equals(trimmed(segments.last()));
        let last = without_label(trimmed(segments.last()));
        assert(cleaned(segments)[cleaned(init).len() as int] == last);
    }
}

proof fn lemma_joined_keeps(parts: Seq<Seq<char>>, sep: Seq<char>, j: int, c: char)
    requires
        0 <= j < parts.len(),
        parts[j].contains(c),
    ensures
        joined(parts, sep).contains(c),
    decreases parts.len(),
{
    if parts.len() > 1 {
        let init = parts.drop_last();
        let head = joined(init, sep);
        let whole = joined(parts, sep);
        if j < init.len() {
            assert(init[j] == parts[j]);
            lemma_joined_keeps(init, sep, j, c);
            let i = choose|i: int| 0 <= i < head.len() && head[i] == c;
            assert(whole[i] == c);
        } else {
            let i = choose|i: int| 0 <= i < parts[j].len() && parts[j][i] == c;
            assert(whole[head.len() + sep.len() + i] == c);
        }
    }
}

pub(crate) proof fn lemma_cleaning_keeps_equals(header: Seq<char>)
    requires
        header.contains('='),
    ensures
        joined(clean_segments(header), "; "@).contains('='),
{
    let pieces = split(header, ';');
    lemma_split_keeps_equals(header);
    let i = choose|i: int| 0 <= i < pieces.len() && (#[trigger] pieces[i]).contains('=');
    lemma_cleaned_keeps_equals(pieces, i);
    let segments = clean_segments(header);
    let j = choose|j: int| 0 <= j < segments.len() && (#[trigger] segments[j]).contains('=');
    lemma_joined_keeps(segments, "; "@, j, '=');
}

/// A header that comes of normalizing always has a `=` in it.
pub proof fn normalized_headers_have_a_pair(input: Seq<char>)
    ensures
        normalized(input) matches Some(header) ==> header.contains('='),
{
    let header = without_label(without_curl_wrapper(input));
    if header.contains('=') {
        lemma_cleaning_keeps_equals(header);
    } else if normalized(input) is Some {
        let named = normalized(input)->0;
        assert(named[named.len() - header.len() - 1] == '=');
    }
}

/// Normalizing gives nothing exactly where nothing is left behind the cURL
/// syntax, or only a label is.
pub proof fn only_blank_input_is_ignored(input: Seq<char>)
    ensures
        normalized(input) is None <==> {
            ||| without_curl_wrapper(input).len() == 0
            ||| without_label(without_curl_wrapper(input)).len() == 0
        },
{
    let header = without_label(without_curl_wrapper(input));
    if header.contains('=') {
        lemma_cleaning_keeps_equals(header);
    }
}

/// A text that starts with none of the cURL options.
pub open spec fn has_no_option(text: Seq<char>) -> bool {
    forall|i: int|
        0 <= i < curl_options().len() ==> after_prefix(
            trimmed(text),
            #[trigger] curl_options()[i],
        ) is None
}

/// White space at the end of a text is stripped behind an option, too.
pub(crate) proof fn lemma_strip_behind(option: Seq<char>, text: Seq<char>)
    requires
        trimmed(text).len() > 0,
    ensures
        strip_back(option + text, CharClass::WhiteSpace) == option + strip_back(
            text,
            CharClass::WhiteSpace,
        ),
        trimmed(strip_back(text, CharClass::WhiteSpace)) == trimmed(text),
    decreases text.len(),
{
    if text.len() == 0 {
        assert(trimmed(text) == text);
    } else if is_white_space(text.last()) {
        lemma_trim_back(text);
        lemma_strip_behind(option, text.drop_last());
        assert((option + text).drop_last() =~= option + text.drop_last());
        assert((option + text).last() == text.last());
    } else {
        assert((option + text).last() == text.last());
    }
}

/// A cURL option in front of a text that has none, and is not blank, changes
/// nothing.
pub proof fn curl_options_change_nothing(option: Seq<char>, text: Seq<char>)
    requires
        curl_options().contains(option),
        has_no_option(text),
        trimmed(text).len() > 0,
    ensures
        without_curl_wrapper(option + text) == without_curl_wrapper(text),
        normalized(option + text) == normalized(text),
{
    lemma_options();
    assert(curl_options()[0] == "-b "@ && curl_options()[1] == "--cookie "@ && curl_options()[2]
        == "-H "@);
    let whole = option + text;
    let back = strip_back(text, CharClass::WhiteSpace);
    assert(whole[0] == option[0]);
    assert(trimmed(whole) == strip_back(whole, CharClass::WhiteSpace));
    lemma_strip_behind(option, text);
    let h = option + back;
    assert(trimmed(whole) == h);
    assert(h.skip(option.len() as int) =~= back);
    assert(without_option(h, option) == trimmed(text));
    assert(h[1] == option[1]);
    if option == "-b "@ {
        assert(without_option(h, "-b "@) == trimmed(text));
    } else if option == "--cookie "@ {
        assert(!("-b "@.is_prefix_of(h)));
    } else {
        assert(!("-b "@.is_prefix_of(h)));
        assert(!("--cookie "@.is_prefix_of(h)));
    }
}

} // verus!
