//! Identifiers as text: `0x` and two lower-case hexadecimal digits per byte.

use vstd::prelude::*;
use vstd::string::StringExecFns;

verus! {

/// The sixteen lower-case hexadecimal digits.
pub open spec fn hex_digits() -> Seq<char> {
    seq!['0', '1', '2', '3', '4', '5', '6', '7', '8', '9', 'a', 'b', 'c', 'd', 'e', 'f']
}

/// Two digits per byte, the high half of each byte first.
pub open spec fn hex_of(bytes: Seq<u8>) -> Seq<char> {
    Seq::new(
        2 * bytes.len(),
        |i: int|
            if i % 2 == 0 {
                hex_digits()[bytes[i / 2] as int / 16]
            } else {
                hex_digits()[bytes[i / 2] as int % 16]
            },
    )
}

/// Calls `hex::encode`. Taken on trust: the text has two lower-case
/// hexadecimal digits for each byte, high half first, in the order of the
/// bytes, and nothing else.
#[verifier::external_body]
fn hex_encode(data: &[u8]) -> (text: String)
    ensures
        text@ == hex_of(data@),
{
    hex::encode(data)
}

/// A 32-byte identifier as text: `0x`, then its 64 hexadecimal digits.
pub fn replica_id_hex(id: &[u8; 32]) -> (text: String)
    ensures
        text@ == seq!['0', 'x'] + hex_of(id@),
        text@.len() == 66,
{
    let digits = hex_encode(id.as_slice());
    proof {
        reveal_strlit("0x");
        assert("0x"@ =~= seq!['0', 'x']);
    }
    String::from_str("0x").concat(digits.as_str())
}

} // verus!
