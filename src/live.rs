//! The live ingestion adapter's part that computes: naming the transaction a stream
//! notification carries, so that it can be resolved through the node.
use vstd::prelude::*;

verus! {

/// The Base58 text (Bitcoin alphabet) of a byte string.
pub uninterp spec fn base58_of(bytes: Seq<u8>) -> Seq<char>;

/// Relies on `bs58::encode(..).into_string()` (bs58 0.5, as re-exported by
/// yellowstone-vixen-core): the Base58 text of the bytes, which depends on the bytes
/// alone, and is empty for no bytes.
#[verifier::external_body]
fn base58_encode(bytes: &Vec<u8>) -> (r: String)
    ensures
        r@ == base58_of(bytes@),
        bytes@.len() == 0 ==> r@.len() == 0,
{
    yellowstone_vixen_core::bs58::encode(bytes).into_string()
}

/// The signature of the transaction a notification carries, in the text form the node
/// takes; none when the notification carries no transaction.
pub fn notification_signature(signature_bytes: Option<&Vec<u8>>) -> (r: Option<String>)
    ensures
        match signature_bytes {
            Some(b) => r is Some && r->0@ == base58_of(b@),
            None => r is None,
        },
{
    match signature_bytes {
        Some(b) => Some(base58_encode(b)),
        None => None,
    }
}

} // verus!
