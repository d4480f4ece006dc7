//! Identifiers of published batches.

use vstd::prelude::*;

verus! {

/// The number of symbols of an identifier.
pub const ID_LENGTH: usize = 21;

/// The symbols of which identifiers are made: the underscore, the hyphen,
/// the ten digits and the letters of both cases.
pub open spec fn is_id_symbol(c: char) -> bool {
    ||| c == '_'
    ||| c == '-'
    ||| '0' as u32 <= c as u32 <= '9' as u32
    ||| 'a' as u32 <= c as u32 <= 'z' as u32
    ||| 'A' as u32 <= c as u32 <= 'Z' as u32
}

/// The shape of an identifier: twenty-one symbols.
pub open spec fn is_id(text: Seq<char>) -> bool {
    &&& text.len() == ID_LENGTH
    &&& forall|i: int| 0 <= i < text.len() ==> is_id_symbol(#[trigger] text[i])
}

/// A new random identifier, from `nanoid::format` with the generator
/// `nanoid::rngs::default`, the alphabet `nanoid::alphabet::SAFE` and the
/// size 21, which is what `nanoid::nanoid!()` stands for.
///
/// Trusted: that the result has exactly 21 characters, each of them one of
/// the 64 symbols of that alphabet. Nothing is claimed of which symbols come
/// out, nor that two calls differ.
#[verifier::external_body]
pub(crate) fn generate() -> (id: String)
    ensures
        is_id(id@),
{
    nanoid::format(nanoid::rngs::default, &nanoid::alphabet::SAFE, ID_LENGTH)
}

} // verus!
