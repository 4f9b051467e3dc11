//! Primitive decoding over a byte buffer: every decoder takes a position and
//! returns the value read and the position after it, or a rejection.
use vstd::prelude::*;

verus! {

/// Why a request is turned down.
#[derive(Clone, Copy, Debug, PartialEq, Eq, Structural)]
pub enum Reject {
    /// The bytes match no recognized schema, or a fixed capacity would be exceeded.
    NotSupported,
    /// Malformed request framing, an amount sum that overflows, or a bad path.
    InvalidParameter,
    /// The user declined a prompt.
    UserCancelled,
    /// Key derivation or signing failed.
    Unspecified,
}

impl Reject {
    /// The status word reported to the host: the device's `InvalidParameter` (2),
    /// `NotSupported` (8) and `Unspecified` (12) errors, and the user-cancelled
    /// status 0x6985.
    pub fn status_word(self) -> (r: u16)
        ensures
            self == Reject::InvalidParameter ==> r == 2,
            self == Reject::NotSupported ==> r == 8,
            self == Reject::UserCancelled ==> r == 0x6985,
            self == Reject::Unspecified ==> r == 12,
    {
        match self {
            Reject::InvalidParameter => 2,
            Reject::NotSupported => 8,
            Reject::UserCancelled => 0x6985,
            Reject::Unspecified => 12,
        }
    }
}

/// The outcome of a decoder in the mathematical model: value and next position.
pub type Decoded<T> = Result<(T, int), Reject>;

/// An executable decoder's result, with its position seen as an integer.
pub open spec fn lift<T>(r: Result<(T, usize), Reject>) -> Decoded<T> {
    match r {
        Ok((v, q)) => Ok((v, q as int)),
        Err(e) => Err(e),
    }
}

/// `n` bytes are present from `p` on.
pub open spec fn has_bytes(s: Seq<u8>, p: int, n: int) -> bool {
    0 <= p && p + n <= s.len()
}

/// Passes over `n` bytes.
pub open spec fn spec_skip(s: Seq<u8>, p: int, n: int) -> Decoded<()> {
    if has_bytes(s, p, n) {
        Ok(((), p + n))
    } else {
        Err(Reject::NotSupported)
    }
}

/// Value of bytes read as an unsigned little-endian number.
pub open spec fn le_value(b: Seq<u8>) -> nat
    decreases b.len(),
{
    if b.len() == 0 {
        0
    } else {
        b[0] as nat + 256 * le_value(b.drop_first())
    }
}

pub open spec fn pow256(n: nat) -> nat
    decreases n,
{
    if n == 0 {
        1
    } else {
        256 * pow256((n - 1) as nat)
    }
}

/// A little-endian number of `n` bytes.
pub open spec fn spec_le(s: Seq<u8>, p: int, n: int) -> Decoded<nat> {
    if has_bytes(s, p, n) {
        Ok((le_value(s.subrange(p, p + n)), p + n))
    } else {
        Err(Reject::NotSupported)
    }
}

/// An unsigned LEB128 number of at most `5 - k` more bytes: seven bits per byte,
/// least significant group first, high bit set on every byte but the last.
pub open spec fn uleb_from(s: Seq<u8>, p: int, k: nat) -> Decoded<nat>
    decreases 5 - k,
{
    if k >= 5 || !has_bytes(s, p, 1) {
        Err(Reject::NotSupported)
    } else if s[p] < 128 {
        Ok((s[p] as nat, p + 1))
    } else {
        match uleb_from(s, p + 1, k + 1) {
            Ok((v, q)) => Ok((((s[p] - 128) + 128 * v) as nat, q)),
            Err(e) => Err(e),
        }
    }
}

/// A ULEB128 number that fits in 32 bits.
pub open spec fn spec_uleb(s: Seq<u8>, p: int) -> Decoded<u32> {
    match uleb_from(s, p, 0) {
        Ok((v, q)) => if v <= u32::MAX {
            Ok((v as u32, q))
        } else {
            Err(Reject::NotSupported)
        },
        Err(e) => Err(e),
    }
}

proof fn lemma_pow256_pos(n: nat)
    ensures
        pow256(n) > 0,
    decreases n,
{
    if n > 0 {
        lemma_pow256_pos((n - 1) as nat);
    }
}

pub fn skip(data: &[u8], p: usize, n: usize) -> (r: Result<((), usize), Reject>)
    ensures
        lift(r) == spec_skip(data@, p as int, n as int),
{
    if p <= data.len() && n <= data.len() - p {
        Ok(((), p + n))
    } else {
        Err(Reject::NotSupported)
    }
}

/// Reads `n` bytes (at most eight) as a little-endian number.
pub fn read_le(data: &[u8], p: usize, n: usize) -> (r: Result<(u64, usize), Reject>)
    requires
        n <= 8,
    ensures
        match spec_le(data@, p as int, n as int) {
            Ok((v, q)) => r matches Ok((w, q2)) && w as nat == v && q2 as int == q && v < pow256(
                n as nat,
            ),
            Err(e) => r == Err::<(u64, usize), Reject>(e),
        },
{
    if !(p <= data.len() && n <= data.len() - p) {
        return Err(Reject::NotSupported);
    }
    let ghost s = data@;
    let mut acc: u64 = 0;
    let mut j: usize = n;
    proof {
        reveal_with_fuel(pow256, 9);
        assert(s.subrange(p + n, p + n) =~= Seq::<u8>::empty());
    }
    while j > 0
        invariant
            n <= 8,
            j <= n,
            p + n <= data.len(),
            s == data@,
            acc == le_value(s.subrange(p + j, p + n as int)),
            acc < pow256((n - j) as nat),
            pow256(8) == 0x1_0000_0000_0000_0000,
        decreases j,
    {
        let ghost old_acc = acc;
        j = j - 1;
        let b = data[p + j];
        proof {
            assert(s.subrange(p + j, p + n as int).drop_first() =~= s.subrange(
                p + j + 1,
                p + n as int,
            ));
            assert(pow256((n - j) as nat) == 256 * pow256((n - j - 1) as nat));
            lemma_pow256_mono((n - j) as nat, 8);
            assert(256 * old_acc + b < 256 * pow256((n - j - 1) as nat)) by (nonlinear_arith)
                requires
                    old_acc < pow256((n - j - 1) as nat),
                    b < 256,
            ;
        }
        acc = acc * 256 + b as u64;
    }
    proof {
        assert(s.subrange(p as int, p + n as int) == s.subrange(p + j, p + n as int));
    }
    Ok((acc, p + n))
}

proof fn lemma_pow256_mono(a: nat, b: nat)
    requires
        a <= b,
    ensures
        pow256(a) <= pow256(b),
    decreases b,
{
    if a < b {
        lemma_pow256_mono(a, (b - 1) as nat);
        lemma_pow256_pos((b - 1) as nat);
    }
}

proof fn lemma_uleb_bound(s: Seq<u8>, p: int, k: nat)
    requires
        k <= 5,
    ensures
        uleb_from(s, p, k) matches Ok((v, q)) ==> v < pow128((5 - k) as nat) && p < q,
    decreases 5 - k,
{
    if k < 5 && has_bytes(s, p, 1) {
        lemma_pow128_pos((4 - k) as nat);
        if s[p] >= 128 {
            lemma_uleb_bound(s, p + 1, k + 1);
            if let Ok((v, q)) = uleb_from(s, p + 1, k + 1) {
                assert((s[p] - 128) + 128 * v < 128 * pow128((4 - k) as nat)) by (nonlinear_arith)
                    requires
                        v < pow128((4 - k) as nat),
                        s[p] - 128 < 128,
                ;
            }
        } else {
            assert(pow128((5 - k) as nat) == 128 * pow128((4 - k) as nat));
        }
    }
}

pub open spec fn pow128(n: nat) -> nat
    decreases n,
{
    if n == 0 {
        1
    } else {
        128 * pow128((n - 1) as nat)
    }
}

proof fn lemma_pow128_pos(n: nat)
    ensures
        pow128(n) > 0,
    decreases n,
{
    if n > 0 {
        lemma_pow128_pos((n - 1) as nat);
    }
}

fn uleb_rec(data: &[u8], p: usize, k: usize) -> (r: Result<(u64, usize), Reject>)
    requires
        k <= 5,
    ensures
        match uleb_from(data@, p as int, k as nat) {
            Ok((v, q)) => r == Ok::<(u64, usize), Reject>((v as u64, q as usize)),
            Err(e) => r == Err::<(u64, usize), Reject>(e),
        },
    decreases 5 - k,
{
    if k >= 5 || p >= data.len() {
        return Err(Reject::NotSupported);
    }
    let b = data[p];
    if b < 128 {
        Ok((b as u64, p + 1))
    } else {
        match uleb_rec(data, p + 1, k + 1) {
            Ok((v, q)) => {
                proof {
                    lemma_uleb_bound(data@, p + 1, (k + 1) as nat);
                    reveal_with_fuel(pow128, 5);
                    lemma_pow128_mono((4 - k) as nat, 4);
                }
                Ok(((b - 128) as u64 + 128 * v, q))
            },
            Err(e) => Err(e),
        }
    }
}

proof fn lemma_pow128_mono(a: nat, b: nat)
    requires
        a <= b,
    ensures
        pow128(a) <= pow128(b),
    decreases b,
{
    if a < b {
        lemma_pow128_mono(a, (b - 1) as nat);
        lemma_pow128_pos((b - 1) as nat);
    }
}

/// Reads a ULEB128 number that fits in 32 bits.
pub fn read_uleb(data: &[u8], p: usize) -> (r: Result<(u32, usize), Reject>)
    ensures
        lift(r) == spec_uleb(data@, p as int),
        r matches Ok((_, q)) ==> p < q <= data@.len(),
{
    proof {
        lemma_uleb_bound(data@, p as int, 0);
        lemma_uleb_end(data@, p as int, 0);
        reveal_with_fuel(pow128, 6);
    }
    let res = uleb_rec(data, p, 0);
    let len = data.len();
    proof {
        if let Ok((v, q)) = uleb_from(data@, p as int, 0) {
            assert(pow128(5) == 34359738368);
            assert(v < 34359738368);
            assert(q <= len);
            assert(res == Ok::<(u64, usize), Reject>((v as u64, q as usize)));
        }
    }
    match res {
        Ok((v, q)) => if v <= 0xffff_ffff {
            Ok((v as u32, q))
        } else {
            Err(Reject::NotSupported)
        },
        Err(e) => Err(e),
    }
}

proof fn lemma_uleb_end(s: Seq<u8>, p: int, k: nat)
    ensures
        uleb_from(s, p, k) matches Ok((v, q)) ==> q <= s.len(),
    decreases 5 - k,
{
    if k < 5 && has_bytes(s, p, 1) && s[p] >= 128 {
        lemma_uleb_end(s, p + 1, k + 1);
    }
}

} // verus!
