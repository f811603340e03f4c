//! Trimming, the one operation on text that the renderer needs beyond
//! joining pieces.

use vstd::prelude::*;

verus! {

/// Whether a character is white space as Unicode defines it: one of the 25
/// characters with the property White_Space, which is what `str::trim` goes
/// by.
pub open spec fn is_white_space(c: char) -> bool {
    let code = c as int;
    ||| 0x9 <= code <= 0xD
    ||| code == 0x20
    ||| code == 0x85
    ||| code == 0xA0
    ||| code == 0x1680
    ||| 0x2000 <= code <= 0x200A
    ||| code == 0x2028
    ||| code == 0x2029
    ||| code == 0x202F
    ||| code == 0x205F
    ||| code == 0x3000
}

/// `text` without the white space at its start.
pub open spec fn skip_leading(text: Seq<char>) -> Seq<char>
    decreases text.len(),
{
    if text.len() > 0 && is_white_space(text.first()) {
        skip_leading(text.drop_first())
    } else {
        text
    }
}

/// `text` without the white space at its end.
pub open spec fn skip_trailing(text: Seq<char>) -> Seq<char>
    decreases text.len(),
{
    if text.len() > 0 && is_white_space(text.last()) {
        skip_trailing(text.drop_last())
    } else {
        text
    }
}

/// `text` without the white space at either end.
pub open spec fn trimmed(text: Seq<char>) -> Seq<char> {
    skip_trailing(skip_leading(text))
}

/// `str::trim`: the part of `text` that is left when the white space at its
/// start and at its end is taken away.
#[verifier::external_body]
pub(crate) fn trim(text: &str) -> (inner: &str)
    ensures
        inner@ == trimmed(text@),
{
    text.trim()
}

/// What is left without the white space at the start does not begin with
/// white space.
pub proof fn lemma_skip_leading(text: Seq<char>)
    ensures
        skip_leading(text).len() > 0 ==> !is_white_space(skip_leading(text).first()),
    decreases text.len(),
{
    if text.len() > 0 && is_white_space(text.first()) {
        lemma_skip_leading(text.drop_first());
    }
}

/// What is left without the white space at the end does not end with white
/// space, and begins as the text began.
pub proof fn lemma_skip_trailing(text: Seq<char>)
    ensures
        skip_trailing(text).len() > 0 ==> !is_white_space(skip_trailing(text).last()),
        skip_trailing(text).len() > 0 ==> skip_trailing(text).first() == text.first(),
    decreases text.len(),
{
    if text.len() > 0 && is_white_space(text.last()) {
        lemma_skip_trailing(text.drop_last());
    }
}

/// A trimmed text neither begins nor ends with white space.
pub proof fn trimmed_has_bare_ends(text: Seq<char>)
    ensures
        trimmed(text).len() > 0 ==> !is_white_space(trimmed(text).first()) && !is_white_space(
            trimmed(text).last(),
        ),
{
    lemma_skip_leading(text);
    lemma_skip_trailing(skip_leading(text));
}

/// A text that neither begins nor ends with white space stays as it is, and
/// so it does with white space put behind it.
pub proof fn lemma_trimmed_bare(text: Seq<char>, behind: Seq<char>)
    requires
        text.len() > 0,
        !is_white_space(text.first()),
        !is_white_space(text.last()),
        forall|i: int| 0 <= i < behind.len() ==> is_white_space(#[trigger] behind[i]),
    ensures
        trimmed(text + behind) == text,
    decreases behind.len(),
{
    let whole = text + behind;
    assert(whole.first() == text.first());
    if behind.len() == 0 {
        assert(whole == text);
    } else {
        assert(whole.last() == behind.last());
        assert(whole.drop_last() == text + behind.drop_last());
        lemma_trimmed_bare(text, behind.drop_last());
        assert((text + behind.drop_last()).first() == text.first());
    }
}

} // verus!
