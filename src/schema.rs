//! Classification of transaction inputs, argument references and commands.
use vstd::prelude::*;

use crate::stream::{
    has_bytes, lift, pow256, read_le, read_uleb, skip, spec_le, spec_skip, spec_uleb, Decoded,
    Reject,
};

verus! {

/// Capacity of the argument list of a transfer-object command.
pub const TRANSFER_OBJECT_ARRAY_LENGTH: usize = 1;

/// Capacity of the argument list of a split-coins command.
pub const SPLIT_COIN_ARRAY_LENGTH: usize = 8;

/// A reference to a value a command works on.
#[derive(Clone, Copy, Debug, PartialEq, Eq, Structural)]
pub enum Argument {
    GasCoin,
    Input(u16),
    Result(u16),
    NestedResult(u16, u16),
}

/// One input slot of a transaction, as far as the shape policy looks at it.
#[derive(Clone, Copy, Debug)]
pub enum CallArg {
    /// A pure value of exactly 32 bytes.
    RecipientAddress([u8; 32]),
    /// A pure value of exactly 8 bytes, little-endian.
    Amount(u64),
    /// A pure value of any other length; its bytes are passed over.
    OtherPure,
    /// A reference to an owned, immutable or shared object.
    ObjectArg,
}

/// What a `CallArg` holds, with the recipient's bytes as a sequence.
pub enum CallArgModel {
    RecipientAddress(Seq<u8>),
    Amount(u64),
    OtherPure,
    ObjectArg,
}

impl View for CallArg {
    type V = CallArgModel;

    open spec fn view(&self) -> CallArgModel {
        match *self {
            CallArg::RecipientAddress(a) => CallArgModel::RecipientAddress(a@),
            CallArg::Amount(v) => CallArgModel::Amount(v),
            CallArg::OtherPure => CallArgModel::OtherPure,
            CallArg::ObjectArg => CallArgModel::ObjectArg,
        }
    }
}

/// One command of a programmable transaction that the policy can recognize.
#[derive(Debug)]
pub enum Command {
    /// Objects moved (at most one), and the recipient.
    TransferObject(Vec<Argument>, Argument),
    /// The coin split, and the amounts split off (at most eight).
    SplitCoins(Argument, Vec<Argument>),
}

pub enum CommandModel {
    TransferObject(Seq<Argument>, Argument),
    SplitCoins(Argument, Seq<Argument>),
}

impl View for Command {
    type V = CommandModel;

    open spec fn view(&self) -> CommandModel {
        match self {
            Command::TransferObject(objs, to) => CommandModel::TransferObject(objs@, *to),
            Command::SplitCoins(coin, amounts) => CommandModel::SplitCoins(*coin, amounts@),
        }
    }
}

pub open spec fn lift_view<T: View>(r: Result<(T, usize), Reject>) -> Decoded<T::V> {
    match r {
        Ok((v, q)) => Ok((v@, q as int)),
        Err(e) => Err(e),
    }
}

/// A 16-bit little-endian number.
pub open spec fn spec_u16(s: Seq<u8>, p: int) -> Decoded<u16> {
    match spec_le(s, p, 2) {
        Ok((v, q)) => Ok((v as u16, q)),
        Err(e) => Err(e),
    }
}

/// A 64-bit little-endian number.
pub open spec fn spec_u64(s: Seq<u8>, p: int) -> Decoded<u64> {
    match spec_le(s, p, 8) {
        Ok((v, q)) => Ok((v as u64, q)),
        Err(e) => Err(e),
    }
}

/// Tag 0 gas coin; 1 input, 2 result: a 16-bit index; 3 nested result: two of them.
pub open spec fn spec_argument(s: Seq<u8>, p: int) -> Decoded<Argument> {
    match spec_uleb(s, p) {
        Err(e) => Err(e),
        Ok((tag, q)) => if tag == 0 {
            Ok((Argument::GasCoin, q))
        } else if tag == 1 {
            match spec_u16(s, q) {
                Ok((i, q2)) => Ok((Argument::Input(i), q2)),
                Err(e) => Err(e),
            }
        } else if tag == 2 {
            match spec_u16(s, q) {
                Ok((i, q2)) => Ok((Argument::Result(i), q2)),
                Err(e) => Err(e),
            }
        } else if tag == 3 {
            match spec_u16(s, q) {
                Ok((i, q2)) => match spec_u16(s, q2) {
                    Ok((j, q3)) => Ok((Argument::NestedResult(i, j), q3)),
                    Err(e) => Err(e),
                },
                Err(e) => Err(e),
            }
        } else {
            Err(Reject::NotSupported)
        },
    }
}

/// `n` more arguments, appended to `acc`.
pub open spec fn spec_args_from(s: Seq<u8>, p: int, n: nat, acc: Seq<Argument>) -> Decoded<
    Seq<Argument>,
>
    decreases n,
{
    if n == 0 {
        Ok((acc, p))
    } else {
        match spec_argument(s, p) {
            Ok((a, q)) => spec_args_from(s, q, (n - 1) as nat, acc.push(a)),
            Err(e) => Err(e),
        }
    }
}

/// A counted list of arguments; a count over `cap` is refused.
pub open spec fn spec_arg_list(s: Seq<u8>, p: int, cap: nat) -> Decoded<Seq<Argument>> {
    match spec_uleb(s, p) {
        Err(e) => Err(e),
        Ok((n, q)) => if n > cap {
            Err(Reject::NotSupported)
        } else {
            spec_args_from(s, q, n as nat, Seq::empty())
        },
    }
}

/// Tag 1 transfer-object: a list of at most one argument and the recipient;
/// tag 2 split-coins: the coin and a list of at most eight arguments.
pub open spec fn spec_command(s: Seq<u8>, p: int) -> Decoded<CommandModel> {
    match spec_uleb(s, p) {
        Err(e) => Err(e),
        Ok((tag, q)) => if tag == 1 {
            match spec_arg_list(s, q, 1) {
                Ok((objs, q2)) => match spec_argument(s, q2) {
                    Ok((to, q3)) => Ok((CommandModel::TransferObject(objs, to), q3)),
                    Err(e) => Err(e),
                },
                Err(e) => Err(e),
            }
        } else if tag == 2 {
            match spec_argument(s, q) {
                Ok((coin, q2)) => match spec_arg_list(s, q2, 8) {
                    Ok((amts, q3)) => Ok((CommandModel::SplitCoins(coin, amts), q3)),
                    Err(e) => Err(e),
                },
                Err(e) => Err(e),
            }
        } else {
            Err(Reject::NotSupported)
        },
    }
}

/// An object digest: its length, which must be 32, then its bytes.
pub open spec fn spec_digest(s: Seq<u8>, p: int) -> Decoded<()> {
    match spec_uleb(s, p) {
        Ok((n, q)) => if n == 32 {
            spec_skip(s, q, 32)
        } else {
            Err(Reject::NotSupported)
        },
        Err(e) => Err(e),
    }
}

/// An object reference: identifier, version and digest.
pub open spec fn spec_object_ref(s: Seq<u8>, p: int) -> Decoded<()> {
    match spec_skip(s, p, 40) {
        Ok((_, q)) => spec_digest(s, q),
        Err(e) => Err(e),
    }
}

/// A shared object: identifier, initial version and the mutability flag.
pub open spec fn spec_shared_object(s: Seq<u8>, p: int) -> Decoded<()> {
    spec_skip(s, p, 41)
}

/// Tag 0 pure value: a length, then an amount (8), a recipient (32) or bytes
/// passed over; tag 1 object: tag 0 object reference, tag 1 shared object.
pub open spec fn spec_call_arg(s: Seq<u8>, p: int) -> Decoded<CallArgModel> {
    match spec_uleb(s, p) {
        Err(e) => Err(e),
        Ok((tag, q)) => if tag == 0 {
            match spec_uleb(s, q) {
                Err(e) => Err(e),
                Ok((len, q2)) => if len == 8 {
                    match spec_u64(s, q2) {
                        Ok((v, q3)) => Ok((CallArgModel::Amount(v), q3)),
                        Err(e) => Err(e),
                    }
                } else if len == 32 {
                    if has_bytes(s, q2, 32) {
                        Ok((CallArgModel::RecipientAddress(s.subrange(q2, q2 + 32)), q2 + 32))
                    } else {
                        Err(Reject::NotSupported)
                    }
                } else {
                    match spec_skip(s, q2, len as int) {
                        Ok((_, q3)) => Ok((CallArgModel::OtherPure, q3)),
                        Err(e) => Err(e),
                    }
                },
            }
        } else if tag == 1 {
            match spec_uleb(s, q) {
                Err(e) => Err(e),
                Ok((kind, q2)) => if kind == 0 {
                    match spec_object_ref(s, q2) {
                        Ok((_, q3)) => Ok((CallArgModel::ObjectArg, q3)),
                        Err(e) => Err(e),
                    }
                } else if kind == 1 {
                    match spec_shared_object(s, q2) {
                        Ok((_, q3)) => Ok((CallArgModel::ObjectArg, q3)),
                        Err(e) => Err(e),
                    }
                } else {
                    Err(Reject::NotSupported)
                },
            }
        } else {
            Err(Reject::NotSupported)
        },
    }
}

pub fn read_u16(data: &[u8], p: usize) -> (r: Result<(u16, usize), Reject>)
    ensures
        lift(r) == spec_u16(data@, p as int),
{
    proof {
        reveal_with_fuel(pow256, 3);
    }
    match read_le(data, p, 2) {
        Ok((v, q)) => Ok((v as u16, q)),
        Err(e) => Err(e),
    }
}

pub fn read_u64(data: &[u8], p: usize) -> (r: Result<(u64, usize), Reject>)
    ensures
        lift(r) == spec_u64(data@, p as int),
{
    match read_le(data, p, 8) {
        Ok((v, q)) => Ok((v, q)),
        Err(e) => Err(e),
    }
}

pub fn parse_argument(data: &[u8], p: usize) -> (r: Result<(Argument, usize), Reject>)
    ensures
        lift(r) == spec_argument(data@, p as int),
{
    let (tag, q) = read_uleb(data, p)?;
    if tag == 0 {
        Ok((Argument::GasCoin, q))
    } else if tag == 1 {
        let (i, q2) = read_u16(data, q)?;
        Ok((Argument::Input(i), q2))
    } else if tag == 2 {
        let (i, q2) = read_u16(data, q)?;
        Ok((Argument::Result(i), q2))
    } else if tag == 3 {
        let (i, q2) = read_u16(data, q)?;
        let (j, q3) = read_u16(data, q2)?;
        Ok((Argument::NestedResult(i, j), q3))
    } else {
        Err(Reject::NotSupported)
    }
}

/// Reads a counted list of at most `cap` arguments.
pub fn parse_arg_list(data: &[u8], p: usize, cap: u32) -> (r: Result<(Vec<Argument>, usize), Reject>)
    ensures
        lift_view(r) == spec_arg_list(data@, p as int, cap as nat),
        r matches Ok((v, _)) ==> v@.len() <= cap,
{
    let (n, q) = read_uleb(data, p)?;
    if n > cap {
        return Err(Reject::NotSupported);
    }
    let mut v: Vec<Argument> = Vec::new();
    let mut pos = q;
    let mut i: u32 = 0;
    while i < n
        invariant
            i <= n <= cap,
            v@.len() == i,
            spec_arg_list(data@, p as int, cap as nat) == spec_args_from(
                data@,
                q as int,
                n as nat,
                Seq::empty(),
            ),
            spec_args_from(data@, q as int, n as nat, Seq::empty()) == spec_args_from(
                data@,
                pos as int,
                (n - i) as nat,
                v@,
            ),
        decreases n - i,
    {
        let (a, q2) = match parse_argument(data, pos) {
            Ok(x) => x,
            Err(e) => {
                return Err(e);
            },
        };
        v.push(a);
        pos = q2;
        i = i + 1;
    }
    Ok((v, pos))
}

pub fn parse_command(data: &[u8], p: usize) -> (r: Result<(Command, usize), Reject>)
    ensures
        lift_view(r) == spec_command(data@, p as int),
        r matches Ok((Command::TransferObject(objs, _), _)) ==> objs@.len()
            <= TRANSFER_OBJECT_ARRAY_LENGTH,
        r matches Ok((Command::SplitCoins(_, amts), _)) ==> amts@.len() <= SPLIT_COIN_ARRAY_LENGTH,
{
    let (tag, q) = read_uleb(data, p)?;
    if tag == 1 {
        let (objs, q2) = parse_arg_list(data, q, TRANSFER_OBJECT_ARRAY_LENGTH as u32)?;
        let (to, q3) = parse_argument(data, q2)?;
        Ok((Command::TransferObject(objs, to), q3))
    } else if tag == 2 {
        let (coin, q2) = parse_argument(data, q)?;
        let (amts, q3) = parse_arg_list(data, q2, SPLIT_COIN_ARRAY_LENGTH as u32)?;
        Ok((Command::SplitCoins(coin, amts), q3))
    } else {
        Err(Reject::NotSupported)
    }
}

fn parse_digest(data: &[u8], p: usize) -> (r: Result<((), usize), Reject>)
    ensures
        lift(r) == spec_digest(data@, p as int),
{
    let (n, q) = read_uleb(data, p)?;
    if n == 32 {
        skip(data, q, 32)
    } else {
        Err(Reject::NotSupported)
    }
}

pub fn parse_object_ref(data: &[u8], p: usize) -> (r: Result<((), usize), Reject>)
    ensures
        lift(r) == spec_object_ref(data@, p as int),
{
    let (_, q) = skip(data, p, 40)?;
    parse_digest(data, q)
}

pub fn parse_call_arg(data: &[u8], p: usize) -> (r: Result<(CallArg, usize), Reject>)
    ensures
        lift_view(r) == spec_call_arg(data@, p as int),
{
    let (tag, q) = read_uleb(data, p)?;
    if tag == 0 {
        let (len, q2) = read_uleb(data, q)?;
        if len == 8 {
            let (v, q3) = read_u64(data, q2)?;
            Ok((CallArg::Amount(v), q3))
        } else if len == 32 {
            if !(q2 <= data.len() && 32 <= data.len() - q2) {
                return Err(Reject::NotSupported);
            }
            let mut a = [0u8; 32];
            let mut k: usize = 0;
            while k < 32
                invariant
                    k <= 32,
                    q2 + 32 <= data.len(),
                    forall|j: int| 0 <= j < k ==> a@[j] == data@[q2 + j],
                decreases 32 - k,
            {
                a[k] = data[q2 + k];
                k = k + 1;
            }
            assert(a@ =~= data@.subrange(q2 as int, q2 + 32));
            Ok((CallArg::RecipientAddress(a), q2 + 32))
        } else {
            let (_, q3) = skip(data, q2, len as usize)?;
            Ok((CallArg::OtherPure, q3))
        }
    } else if tag == 1 {
        let (kind, q2) = read_uleb(data, q)?;
        if kind == 0 {
            let (_, q3) = parse_object_ref(data, q2)?;
            Ok((CallArg::ObjectArg, q3))
        } else if kind == 1 {
            let (_, q3) = skip(data, q2, 41)?;
            Ok((CallArg::ObjectArg, q3))
        } else {
            Err(Reject::NotSupported)
        }
    } else {
        Err(Reject::NotSupported)
    }
}

} // verus!
