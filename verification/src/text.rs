//! Text: the few operations on strings that the library needs beyond those
//! that vstd specifies, and what it means for one text to occur in another.

use vstd::prelude::*;
use vstd::string::StrSliceExecFns;

verus! {

/// Whether `c` is white space, as `char::is_whitespace` tells: a character
/// with the Unicode property `White_Space`.
pub uninterp spec fn is_white_space(c: char) -> bool;

/// The text in lower case, as `str::to_lowercase` gives it.
pub uninterp spec fn lowercase_of(s: Seq<char>) -> Seq<char>;

/// `s` without the white space at its start.
pub open spec fn trim_start(s: Seq<char>) -> Seq<char>
    decreases s.len(),
{
    if s.len() > 0 && is_white_space(s[0]) {
        trim_start(s.drop_first())
    } else {
        s
    }
}

/// `s` without the white space at its end.
pub open spec fn trim_end(s: Seq<char>) -> Seq<char>
    decreases s.len(),
{
    if s.len() > 0 && is_white_space(s.last()) {
        trim_end(s.drop_last())
    } else {
        s
    }
}

/// `s` without the white space at its start and at its end.
pub open spec fn trimmed(s: Seq<char>) -> Seq<char> {
    trim_end(trim_start(s))
}

/// `needle` stands somewhere in `hay`, character for character.
pub open spec fn occurs_in(needle: Seq<char>, hay: Seq<char>) -> bool {
    exists|i: int|
        0 <= i && i + needle.len() <= hay.len() && #[trigger] hay.subrange(i, i + needle.len())
            == needle
}

/// What occurs in a text occurs in it still when more is written after it.
pub proof fn lemma_occurs_with_more_after(needle: Seq<char>, hay: Seq<char>, after: Seq<char>)
    requires
        occurs_in(needle, hay),
    ensures
        occurs_in(needle, hay + after),
{
    let i = choose|i: int|
        0 <= i && i + needle.len() <= hay.len() && #[trigger] hay.subrange(i, i + needle.len())
            == needle;
    assert((hay + after).subrange(i, i + needle.len()) =~= hay.subrange(i, i + needle.len()));
}

/// What occurs in a text occurs in it still when more is written before it.
pub proof fn lemma_occurs_with_more_before(needle: Seq<char>, before: Seq<char>, hay: Seq<char>)
    requires
        occurs_in(needle, hay),
    ensures
        occurs_in(needle, before + hay),
{
    let i = choose|i: int|
        0 <= i && i + needle.len() <= hay.len() && #[trigger] hay.subrange(i, i + needle.len())
            == needle;
    let j = before.len() + i;
    assert((before + hay).subrange(j, j + needle.len()) =~= hay.subrange(i, i + needle.len()));
}

/// A text occurs in itself.
pub proof fn lemma_occurs_in_itself(needle: Seq<char>)
    ensures
        occurs_in(needle, needle),
{
    assert(needle.subrange(0int, 0int + needle.len()) =~= needle);
}

/// `str`'s `==` (`PartialEq::eq`): true exactly when the two hold the same
/// characters.
pub assume_specification[ <str as PartialEq>::eq ](a: &str, b: &str) -> (r: bool)
    ensures
        r == (a@ == b@),
;

/// `String::push`: the string afterwards is the string before with `c` at
/// its end.
#[verifier::external_body]
pub(crate) fn push_char(s: &mut String, c: char)
    ensures
        final(s)@ == old(s)@.push(c),
{
    s.push(c)
}

/// `char::is_whitespace`: whether the character is white space.
#[verifier::external_body]
pub(crate) fn is_whitespace(c: char) -> (out: bool)
    ensures
        out == is_white_space(c),
{
    c.is_whitespace()
}

/// `str::to_lowercase`: the text in lower case, by Unicode's rules.
#[verifier::external_body]
pub(crate) fn to_lowercase(s: &str) -> (out: String)
    ensures
        out@ == lowercase_of(s@),
{
    s.to_lowercase()
}

/// A line as it was read, without the white space around it (the line's
/// end is white space too).
pub fn clean_line(raw: &str) -> (out: String)
    ensures
        out@ == trimmed(raw@),
{
    let n: usize = raw.unicode_len();
    let mut from: usize = 0;
    assert(raw@.skip(0) =~= raw@);
    while from < n
        invariant_except_break
            trim_start(raw@) == trim_start(raw@.skip(from as int)),
        invariant
            from <= n,
            n == raw@.len(),
        ensures
            trim_start(raw@) == raw@.skip(from as int),
        decreases n - from,
    {
        if !is_whitespace(raw.get_char(from)) {
            break ;
        }
        assert(raw@.skip(from as int).drop_first() =~= raw@.skip(from + 1));
        from = from + 1;
    }
    let mut to: usize = n;
    assert(raw@.subrange(from as int, n as int) =~= raw@.skip(from as int));
    while to > from
        invariant_except_break
            trimmed(raw@) == trim_end(raw@.subrange(from as int, to as int)),
        invariant
            from <= to <= n,
            n == raw@.len(),
        ensures
            trimmed(raw@) == raw@.subrange(from as int, to as int),
        decreases to,
    {
        if !is_whitespace(raw.get_char(to - 1)) {
            break ;
        }
        assert(raw@.subrange(from as int, to as int).drop_last() =~= raw@.subrange(
            from as int,
            to - 1,
        ));
        to = to - 1;
    }
    raw.substring_char(from, to).to_owned()
}

} // verus!
