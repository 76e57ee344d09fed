//! String literals of ASCII characters as bytes.

use vstd::prelude::*;
use vstd::string::StringSliceAdditionalSpecFns;

verus! {

/// The bytes of a string of ASCII characters are its characters, one byte
/// each.
pub proof fn lemma_ascii_bytes(text: &str)
    requires
        vstd::string::is_ascii(text),
    ensures
        text.spec_bytes().len() == text@.len(),
        forall|i: int| 0 <= i < text@.len() ==> #[trigger] text.spec_bytes()[i] == text@[i] as u8,
{
    vstd::string::is_ascii_spec_bytes(text);
}

} // verus!
