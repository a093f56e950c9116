//! The value of a decimal number. A value is held by its bit pattern, a `u32`
//! in IEEE 754 single precision, and is never computed with.

use vstd::prelude::*;

verus! {

/// What nom's `float` makes of `text` taken as a complete input: the bit
/// pattern of the value it read and the number of bytes it left unread, or
/// `None` where it read no number.
pub uninterp spec fn nom_float(text: Seq<char>) -> Option<(u32, usize)>;

/// Calls `nom::float` on `text` as a `CompleteStr` and hands back the bits of
/// the value and the length in bytes of what was left unread, or `None` on
/// nom's error. Of the outcome nothing is claimed but that it depends on the
/// text alone.
#[verifier::external_body]
pub(crate) fn read_float(text: &str) -> (r: Option<(u32, usize)>)
    ensures
        r == nom_float(text@),
{
    match nom::float(nom::types::CompleteStr(text)) {
        Ok((rest, value)) => Some((value.to_bits(), rest.0.len())),
        Err(_) => None,
    }
}

/// The value that `outcome` gives, where the whole token was read.
pub open spec fn whole_token(outcome: Option<(u32, usize)>) -> Option<u32> {
    match outcome {
        Some((bits, unread)) => if unread == 0 {
            Some(bits)
        } else {
            None
        },
        None => None,
    }
}

/// The value of a token that nom reads as a number from its first character
/// to its last.
pub open spec fn float_bits(token: Seq<char>) -> Option<u32> {
    whole_token(nom_float(token))
}

/// Keeps the value of a reading that left nothing of the token unread.
pub fn accept_whole(outcome: Option<(u32, usize)>) -> (r: Option<u32>)
    ensures
        r == whole_token(outcome),
{
    match outcome {
        Some((bits, unread)) => if unread == 0 {
            Some(bits)
        } else {
            None
        },
        None => None,
    }
}

/// The value of `token`, read as one number.
pub fn token_bits(token: &str) -> (r: Option<u32>)
    ensures
        r == float_bits(token@),
{
    accept_whole(read_float(token))
}

} // verus!
