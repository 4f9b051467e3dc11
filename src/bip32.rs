use vstd::prelude::*;

verus! {

/// Hardening bit of a BIP32 path component.
pub const HARDENED: u32 = 0x8000_0000;

/// `m/44'/4218'/123'/0'/0'`: the IOTA coin type.
pub const BIP32_IOTA_PREFIX: [u32; 5] = [
    0x8000_002c,
    0x8000_107a,
    0x8000_007b,
    0x8000_0000,
    0x8000_0000,
];

/// `m/44'/4219'/123'/0'/0'`: the Shimmer coin type.
pub const BIP32_SMR_PREFIX: [u32; 5] = [
    0x8000_002c,
    0x8000_107b,
    0x8000_007b,
    0x8000_0000,
    0x8000_0000,
];

/// A path starts with the first two components of one of the registered paths.
pub open spec fn bip_prefix_valid(path: Seq<u32>) -> bool {
    path.len() >= 2 && path[0] == 0x8000_002cu32 && (path[1] == 0x8000_107au32 || path[1]
        == 0x8000_107bu32)
}

/// Accepts a derivation path whose purpose and coin type are those of
/// `BIP32_IOTA_PREFIX` or `BIP32_SMR_PREFIX`; deeper components are not looked at.
pub fn is_bip_prefix_valid(path: &[u32]) -> (r: bool)
    ensures
        r == bip_prefix_valid(path@),
{
    path.len() >= 2 && path[0] == BIP32_IOTA_PREFIX[0] && (path[1] == BIP32_IOTA_PREFIX[1]
        || path[1] == BIP32_SMR_PREFIX[1])
}

/// Whether a path is accepted depends on its first two components alone.
pub proof fn lemma_prefix_decides(a: Seq<u32>, b: Seq<u32>)
    requires
        a.len() >= 2,
        b.len() >= 2,
        a[0] == b[0],
        a[1] == b[1],
    ensures
        bip_prefix_valid(a) == bip_prefix_valid(b),
{
}

} // verus!
