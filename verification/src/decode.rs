//! Decoding the bytes of a page: the pages are stored in the Cyrillic code
//! page windows-1251, which the `encoding` crate decodes.

use vstd::prelude::*;
use encoding::all::WINDOWS_1251;
use encoding::{DecoderTrap, Encoding};

verus! {

/// The text that bytes in windows-1251 stand for, or `None` where the
/// strict decoder rejects them.
pub uninterp spec fn windows_1251_text(bytes: Seq<u8>) -> Option<Seq<char>>;

/// `encoding::Encoding::decode` of `WINDOWS_1251` with
/// `DecoderTrap::Strict`: the contract names the text that comes out and
/// says that a decoder error is `None` here.
#[verifier::external_body]
pub(crate) fn decode_strict(bytes: &[u8]) -> (text: Option<String>)
    ensures
        text.deep_view() == windows_1251_text(bytes@),
{
    WINDOWS_1251.decode(bytes, DecoderTrap::Strict).ok()
}

} // verus!
