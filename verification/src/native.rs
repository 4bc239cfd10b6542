use vstd::prelude::*;

verus! {

/// The number that `bytes` spell with the least significant byte first.
pub open spec fn le_value(bytes: Seq<u8>) -> nat
    decreases bytes.len(),
{
    if bytes.len() == 0 {
        0
    } else {
        bytes[0] as nat + 256 * le_value(bytes.drop_first())
    }
}

/// The number that `bytes` spell with the most significant byte first.
pub open spec fn be_value(bytes: Seq<u8>) -> nat
    decreases bytes.len(),
{
    if bytes.len() == 0 {
        0
    } else {
        256 * be_value(bytes.drop_last()) + bytes.last() as nat
    }
}

/// `value` is what `bytes` spell in one of the two byte orders.
pub open spec fn spelled_by(value: nat, bytes: Seq<u8>) -> bool {
    value == le_value(bytes) || value == be_value(bytes)
}

/// `u32::from_ne_bytes`: the bytes read in the byte order of the machine,
/// which is one of the two.
#[verifier::external_body]
pub(crate) fn u32_from_native(bytes: [u8; 4]) -> (value: u32)
    ensures
        spelled_by(value as nat, bytes@),
{
    u32::from_ne_bytes(bytes)
}

/// `u64::from_ne_bytes`: the bytes read in the byte order of the machine,
/// which is one of the two.
#[verifier::external_body]
pub(crate) fn u64_from_native(bytes: [u8; 8]) -> (value: u64)
    ensures
        spelled_by(value as nat, bytes@),
{
    u64::from_ne_bytes(bytes)
}

/// `u32::to_ne_bytes`: the value written in the byte order of the machine,
/// which is one of the two.
#[verifier::external_body]
pub(crate) fn u32_to_native(value: u32) -> (bytes: [u8; 4])
    ensures
        spelled_by(value as nat, bytes@),
{
    value.to_ne_bytes()
}

/// `u64::to_ne_bytes`: the value written in the byte order of the machine,
/// which is one of the two.
#[verifier::external_body]
pub(crate) fn u64_to_native(value: u64) -> (bytes: [u8; 8])
    ensures
        spelled_by(value as nat, bytes@),
{
    value.to_ne_bytes()
}

/// `u128::to_ne_bytes`: the value written in the byte order of the machine,
/// which is one of the two.
#[verifier::external_body]
pub(crate) fn u128_to_native(value: u128) -> (bytes: [u8; 16])
    ensures
        spelled_by(value as nat, bytes@),
{
    value.to_ne_bytes()
}

} // verus!
