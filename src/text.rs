//! Text held by the platform in NUL-terminated UTF-16 buffers.
use vstd::prelude::*;

verus! {

/// What `String::from_utf16_lossy` makes of a sequence of UTF-16 code units.
pub uninterp spec fn utf16_lossy_of(units: Seq<u16>) -> Seq<char>;

/// Relies on `String::from_utf16_lossy`: the result depends on the units alone.
#[verifier::external_body]
fn decode_utf16_lossy(units: &[u16]) -> (r: String)
    ensures
        r@ == utf16_lossy_of(units@),
{
    String::from_utf16_lossy(units)
}

/// Number of units before the first NUL, or all of them when there is none.
pub open spec fn text_len(units: Seq<u16>) -> nat
    decreases units.len(),
{
    if units.len() == 0 || units[0] == 0 {
        0
    } else {
        1 + text_len(units.drop_first())
    }
}

proof fn lemma_text_len(units: Seq<u16>, end: int)
    requires
        0 <= end <= units.len(),
        forall|i: int| 0 <= i < end ==> units[i] != 0,
        end < units.len() ==> units[end] == 0,
    ensures
        text_len(units) == end,
    decreases end,
{
    if end > 0 {
        lemma_text_len(units.drop_first(), end - 1);
    }
}

/// Decodes the text in `units` up to its first NUL (or its end).
pub fn u16_to_string(units: &[u16]) -> (r: String)
    ensures
        r@ == utf16_lossy_of(units@.subrange(0, text_len(units@) as int)),
{
    let mut text: Vec<u16> = Vec::new();
    let mut end: usize = 0;
    while end < units.len() && units[end] != 0
        invariant
            end <= units@.len(),
            text@ == units@.subrange(0, end as int),
            forall|i: int| 0 <= i < end ==> units@[i] != 0,
        decreases units@.len() - end,
    {
        text.push(units[end]);
        end = end + 1;
        assert(text@ =~= units@.subrange(0, end as int));
    }
    proof {
        lemma_text_len(units@, end as int);
    }
    decode_utf16_lossy(text.as_slice())
}

} // verus!
