//! What holds of text on the level of characters.

use crate::normalizing_laws::{lemma_trim_back, lemma_trim_front};
use crate::session_laws::{
    is_tight, lacks, lemma_first_index_is, lemma_split_both, lemma_split_lacks, lemma_trim_tight,
    lemma_trimmed,
};
use crate::text::{
    decimal, digit, first_index, is_white_space, joined, lemma_first_index, lowered, occurs_in,
    split, trimmed,
};
use vstd::prelude::*;

verus! {

/// A text of white space only.
pub open spec fn is_blank(s: Seq<char>) -> bool {
    forall|i: int| 0 <= i < s.len() ==> is_white_space(#[trigger] s[i])
}

/// In ASCII the white space is the blank and what stands between the tab and
/// the carriage return; beyond ASCII it is the further characters with the
/// `White_Space` property.
pub proof fn white_space_is_known(c: char)
    ensures
        c as u32 <= 0x7f ==> (is_white_space(c) <==> c == ' ' || c == '\t' || c == '\n' || c == '\r'
            || c as u32 == 0x0b || c as u32 == 0x0c),
        c as u32 > 0x7f ==> (is_white_space(c) <==> {
            let n = c as u32;
            n == 0x85 || n == 0xa0 || n == 0x1680 || 0x2000 <= n <= 0x200a || n == 0x2028 || n
                == 0x2029 || n == 0x202f || n == 0x205f || n == 0x3000
        }),
{
}

/// Trimming takes away white space at the ends, all of it, and nothing else.
pub proof fn trimming_takes_white_space_only(s: Seq<char>)
    ensures
        is_tight(trimmed(s)),
        exists|a: Seq<char>, b: Seq<char>|
            is_blank(a) && is_blank(b) && s == #[trigger] (a + trimmed(s) + b),
    decreases s.len(),
{
    lemma_trimmed(s);
    if s.len() > 0 && is_white_space(s[0]) {
        let rest = s.skip(1);
        lemma_trim_front(s);
        trimming_takes_white_space_only(rest);
        let (a, b) = choose|a: Seq<char>, b: Seq<char>|
            is_blank(a) && is_blank(b) && rest == #[trigger] (a + trimmed(rest) + b);
        let front = seq![s[0]] + a;
        assert(is_blank(front));
        assert(s =~= seq![s[0]] + rest);
        assert(s =~= front + trimmed(s) + b);
    } else if s.len() > 0 && is_white_space(s.last()) {
        let rest = s.drop_last();
        lemma_trim_back(s);
        trimming_takes_white_space_only(rest);
        let (a, b) = choose|a: Seq<char>, b: Seq<char>|
            is_blank(a) && is_blank(b) && rest == #[trigger] (a + trimmed(rest) + b);
        let back = b + seq![s.last()];
        assert(is_blank(back));
        assert(s =~= rest + seq![s.last()]);
        assert(s =~= a + trimmed(s) + back);
    } else {
        lemma_trim_tight(s);
        let none: Seq<char> = seq![];
        assert(is_blank(none));
        assert(s =~= none + trimmed(s) + none);
    }
}

/// White space around a text goes, whatever the text.
pub proof fn white_space_around_is_trimmed(a: Seq<char>, s: Seq<char>, b: Seq<char>)
    requires
        is_blank(a),
        is_blank(b),
    ensures
        trimmed(a + s + b) == trimmed(s),
    decreases a.len() + b.len(),
{
    let whole = a + s + b;
    if a.len() > 0 {
        assert(whole[0] == a[0]);
        assert(whole.skip(1) =~= a.skip(1) + s + b);
        assert(is_blank(a.skip(1)));
        lemma_trim_front(whole);
        white_space_around_is_trimmed(a.skip(1), s, b);
    } else if b.len() > 0 {
        assert(whole.last() == b.last());
        assert(whole.drop_last() =~= a + s + b.drop_last());
        assert(is_blank(b.drop_last()));
        lemma_trim_back(whole);
        white_space_around_is_trimmed(a, s, b.drop_last());
    } else {
        assert(whole =~= s);
    }
}

/// Lower case moves the letters `A` to `Z` by the distance to `a`, leaves every
/// other character, and every place.
pub proof fn lower_case_is_pointwise(s: Seq<char>)
    ensures
        lowered(s).len() == s.len(),
        forall|i: int|
            0 <= i < s.len() ==> (#[trigger] lowered(s)[i]) as int == (if 65 <= s[i] as int <= 90 {
                s[i] as int + 32
            } else {
                s[i] as int
            }),
{
}

/// The texts joined in front and those joined behind are joined by the
/// separator; one text is joined to itself.
pub proof fn joining_goes_on(a: Seq<Seq<char>>, b: Seq<Seq<char>>, sep: Seq<char>)
    requires
        a.len() > 0,
        b.len() > 0,
    ensures
        joined(a + b, sep) == joined(a, sep) + sep + joined(b, sep),
        a.len() == 1 ==> joined(a, sep) == a[0],
        joined(Seq::empty(), sep).len() == 0,
    decreases b.len(),
{
    if b.len() == 1 {
        assert((a + b).drop_last() =~= a);
        assert((a + b).last() == b[0]);
    } else {
        joining_goes_on(a, b.drop_last(), sep);
        assert((a + b).drop_last() =~= a + b.drop_last());
        assert(joined(a + b, sep) =~= joined(a, sep) + sep + joined(b, sep));
    }
}

/// Splitting is undone by joining with the separator, and no piece has the
/// separator in it.
pub proof fn splitting_is_undone_by_joining(s: Seq<char>, sep: char)
    ensures
        split(s, sep).len() > 0,
        joined(split(s, sep), seq![sep]) == s,
        forall|i: int| 0 <= i < split(s, sep).len() ==> lacks(#[trigger] split(s, sep)[i], sep),
    decreases s.len(),
{
    lemma_split_lacks(s, sep);
    lemma_first_index(s, sep);
    let n = first_index(s, sep) as int;
    if n < s.len() {
        let tail = s.skip(n + 1);
        splitting_is_undone_by_joining(tail, sep);
        joining_goes_on(seq![s.take(n)], split(tail, sep), seq![sep]);
        assert(s =~= s.take(n) + seq![sep] + tail);
    } else {
        assert(split(s, sep) == seq![s]);
    }
}

/// Joining is undone by splitting, where no piece has the separator in it.
pub proof fn joining_is_undone_by_splitting(pieces: Seq<Seq<char>>, sep: char)
    requires
        pieces.len() > 0,
        forall|i: int| 0 <= i < pieces.len() ==> lacks(#[trigger] pieces[i], sep),
    ensures
        split(joined(pieces, seq![sep]), sep) == pieces,
    decreases pieces.len(),
{
    if pieces.len() == 1 {
        lemma_first_index_is(pieces[0], sep, pieces[0].len());
        assert(split(pieces[0], sep) =~= pieces);
    } else {
        let init = pieces.drop_last();
        assert forall|i: int| 0 <= i < init.len() implies lacks(#[trigger] init[i], sep) by {
            assert(init[i] == pieces[i]);
        }
        joining_is_undone_by_splitting(init, sep);
        let last = pieces[pieces.len() - 1];
        assert(lacks(last, sep));
        lemma_split_both(joined(init, seq![sep]), last, sep);
        lemma_first_index_is(last, sep, last.len());
        assert(split(last, sep) == seq![last]);
        assert(init + seq![last] =~= pieces);
    }
}

/// A text occurs in another exactly if that is the text with something, or
/// nothing, on either side.
pub proof fn what_occurs_stands_inside(part: Seq<char>, s: Seq<char>)
    ensures
        occurs_in(part, s) <==> exists|a: Seq<char>, b: Seq<char>| s == #[trigger] (a + part + b),
{
    if occurs_in(part, s) {
        let i = choose|i: int|
            0 <= i <= s.len() - part.len() && #[trigger] s.subrange(i, i + part.len()) == part;
        assert(s =~= s.take(i) + part + s.skip(i + part.len()));
    }
    if exists|a: Seq<char>, b: Seq<char>| s == #[trigger] (a + part + b) {
        let (a, b) = choose|a: Seq<char>, b: Seq<char>| s == #[trigger] (a + part + b);
        assert(s.subrange(a.len() as int, a.len() as int + part.len()) =~= part);
    }
}

/// The number that decimal digits stand for.
pub open spec fn number_of(digits: Seq<char>) -> int
    decreases digits.len(),
{
    if digits.len() == 0 {
        0
    } else {
        10 * number_of(digits.drop_last()) + (digits.last() as int - 48)
    }
}

/// The decimal digits of a number stand for it, and do not start with a zero
/// unless the number is zero.
pub proof fn decimals_stand_for_their_number(n: nat)
    ensures
        number_of(decimal(n)) == n,
        decimal(n).len() > 0,
        forall|i: int|
            0 <= i < decimal(n).len() ==> 48 <= (#[trigger] decimal(n)[i]) as int <= 57,
        n > 0 ==> decimal(n)[0] != '0',
    decreases n,
{
    reveal_with_fuel(number_of, 2);
    if n < 10 {
        assert(digit(n) as int == 48 + n);
        assert(decimal(n).drop_last() =~= seq![]);
        assert(decimal(n)[0] == digit(n));
    } else {
        decimals_stand_for_their_number(n / 10);
        assert(decimal(n).drop_last() =~= decimal(n / 10));
        assert(decimal(n).last() == digit(n % 10));
        assert(digit(n % 10) as int == 48 + n % 10);
        assert(decimal(n)[0] == decimal(n / 10)[0]);
    }
}

} // verus!
