//! The transaction-shape policy: the one transfer shape that can be summarized,
//! and the envelopes around it.
use arrayvec::ArrayVec;
use vstd::prelude::*;

use crate::bounded::{amount_entries, amounts_get, amounts_len, amounts_new, amounts_try_push};
use crate::schema::{
    parse_call_arg, parse_command, parse_object_ref, read_u64, spec_call_arg, spec_command,
    spec_object_ref, spec_u64, Argument, CallArg, CallArgModel, Command, CommandModel,
};
use crate::stream::{lift, read_uleb, skip, spec_skip, spec_uleb, Decoded, Reject};

verus! {

/// What the inputs of a transaction have shown so far.
pub struct Shape {
    pub recipient: Option<Seq<u8>>,
    pub recipient_index: Option<u32>,
    pub amounts: Seq<(u64, u32)>,
}

pub open spec fn empty_shape() -> Shape {
    Shape { recipient: None, recipient_index: None, amounts: Seq::empty() }
}

/// Takes input `i` into the shape: one recipient at most, eight amounts at most.
pub open spec fn fold_input(st: Shape, a: CallArgModel, i: u32) -> Result<Shape, Reject> {
    match a {
        CallArgModel::RecipientAddress(addr) => if st.recipient is Some {
            Err(Reject::NotSupported)
        } else {
            Ok(Shape { recipient: Some(addr), recipient_index: Some(i), ..st })
        },
        CallArgModel::Amount(v) => if st.amounts.len() >= 8 {
            Err(Reject::NotSupported)
        } else {
            Ok(Shape { amounts: st.amounts.push((v, i)), ..st })
        },
        _ => Ok(st),
    }
}

/// Inputs `i` up to `n`, read from `p` on and taken into `st`.
pub open spec fn spec_inputs_from(s: Seq<u8>, p: int, i: nat, n: nat, st: Shape) -> Decoded<Shape>
    decreases n - i,
{
    if i >= n {
        Ok((st, p))
    } else {
        match spec_call_arg(s, p) {
            Ok((a, q)) => match fold_input(st, a, i as u32) {
                Ok(st2) => spec_inputs_from(s, q, i + 1, n, st2),
                Err(e) => Err(e),
            },
            Err(e) => Err(e),
        }
    }
}

/// Adds to `total`, with overflow refused, every amount from position `m` on
/// that came from input `k`.
pub open spec fn add_matching(amounts: Seq<(u64, u32)>, k: u32, m: nat, total: u64) -> Result<
    u64,
    Reject,
>
    decreases amounts.len() - m,
{
    if m >= amounts.len() {
        Ok(total)
    } else if amounts[m as int].1 == k {
        if total + amounts[m as int].0 > u64::MAX {
            Err(Reject::InvalidParameter)
        } else {
            add_matching(amounts, k, m + 1, (total + amounts[m as int].0) as u64)
        }
    } else {
        add_matching(amounts, k, m + 1, total)
    }
}

/// Adds the amounts that the split arguments from position `j` on name; each
/// must be an input.
pub open spec fn split_from(args: Seq<Argument>, j: nat, amounts: Seq<(u64, u32)>, total: u64) -> Result<
    u64,
    Reject,
>
    decreases args.len() - j,
{
    if j >= args.len() {
        Ok(total)
    } else {
        match args[j as int] {
            Argument::Input(k) => match add_matching(amounts, k as u32, 0, total) {
                Ok(t) => split_from(args, j + 1, amounts, t),
                Err(e) => Err(e),
            },
            _ => Err(Reject::NotSupported),
        }
    }
}

/// Takes one command into `(recipient verified, total)`.
pub open spec fn fold_command(
    c: CommandModel,
    rindex: u32,
    amounts: Seq<(u64, u32)>,
    verified: bool,
    total: u64,
) -> Result<(bool, u64), Reject> {
    match c {
        CommandModel::TransferObject(_, to) => if verified {
            Err(Reject::NotSupported)
        } else {
            match to {
                Argument::Input(k) => if k as u32 == rindex {
                    Ok((true, total))
                } else {
                    Err(Reject::NotSupported)
                },
                _ => Err(Reject::NotSupported),
            }
        },
        CommandModel::SplitCoins(coin, args) => if coin != Argument::GasCoin {
            Err(Reject::NotSupported)
        } else {
            match split_from(args, 0, amounts, total) {
                Ok(t) => Ok((verified, t)),
                Err(e) => Err(e),
            }
        },
    }
}

/// `left` more commands, read from `p` on.
pub open spec fn spec_commands_from(
    s: Seq<u8>,
    p: int,
    left: nat,
    rindex: u32,
    amounts: Seq<(u64, u32)>,
    verified: bool,
    total: u64,
) -> Decoded<(bool, u64)>
    decreases left,
{
    if left == 0 {
        Ok(((verified, total), p))
    } else {
        match spec_command(s, p) {
            Ok((c, q)) => match fold_command(c, rindex, amounts, verified, total) {
                Ok((v2, t2)) => spec_commands_from(
                    s,
                    q,
                    (left - 1) as nat,
                    rindex,
                    amounts,
                    v2,
                    t2,
                ),
                Err(e) => Err(e),
            },
            Err(e) => Err(e),
        }
    }
}

/// After the inputs: the shape must hold a recipient and an amount, the commands
/// must transfer to that recipient, and the result is the recipient and the total.
pub open spec fn spec_after_inputs(s: Seq<u8>, st: Shape, p: int) -> Decoded<(Seq<u8>, u64)> {
    if st.recipient_index is None || st.amounts.len() == 0 {
        Err(Reject::NotSupported)
    } else {
        match spec_uleb(s, p) {
            Ok((m, q)) => match spec_commands_from(
                s,
                q,
                m as nat,
                st.recipient_index->Some_0,
                st.amounts,
                false,
                0,
            ) {
                Ok(((verified, total), q2)) => if !verified {
                    Err(Reject::NotSupported)
                } else {
                    Ok(((st.recipient->Some_0, total), q2))
                },
                Err(e) => Err(e),
            },
            Err(e) => Err(e),
        }
    }
}

/// A programmable transaction: its counted inputs, then its counted commands.
pub open spec fn spec_programmable(s: Seq<u8>, p: int) -> Decoded<(Seq<u8>, u64)> {
    match spec_uleb(s, p) {
        Ok((n, q)) => match spec_inputs_from(s, q, 0, n as nat, empty_shape()) {
            Ok((st, q2)) => spec_after_inputs(s, st, q2),
            Err(e) => Err(e),
        },
        Err(e) => Err(e),
    }
}

/// The recipient and total of a recognized transfer.
#[derive(Clone, Copy, Debug)]
pub struct Transfer {
    pub recipient: [u8; 32],
    pub total: u64,
}

pub open spec fn lift_transfer(r: Result<(Transfer, usize), Reject>) -> Decoded<(Seq<u8>, u64)> {
    match r {
        Ok((t, q)) => Ok(((t.recipient@, t.total), q as int)),
        Err(e) => Err(e),
    }
}

pub open spec fn shape_of(
    recipient: Option<[u8; 32]>,
    recipient_index: Option<u32>,
    amounts: ArrayVec<(u64, u32), 8>,
) -> Shape {
    Shape {
        recipient: match recipient {
            Some(a) => Some(a@),
            None => None,
        },
        recipient_index,
        amounts: amount_entries(amounts),
    }
}

fn add_matching_amounts(amounts: &ArrayVec<(u64, u32), 8>, k: u32, total: u64) -> (r: Result<
    u64,
    Reject,
>)
    ensures
        r == add_matching(amount_entries(*amounts), k, 0, total),
{
    let len = amounts_len(amounts);
    let mut t = total;
    let mut m: usize = 0;
    while m < len
        invariant
            len == amount_entries(*amounts).len(),
            m <= len,
            add_matching(amount_entries(*amounts), k, 0, total) == add_matching(
                amount_entries(*amounts),
                k,
                m as nat,
                t,
            ),
        decreases len - m,
    {
        let (amt, ix) = amounts_get(amounts, m);
        if ix == k {
            match t.checked_add(amt) {
                Some(t2) => t = t2,
                None => return Err(Reject::InvalidParameter),
            }
        }
        m = m + 1;
    }
    Ok(t)
}

fn split_total(args: &Vec<Argument>, amounts: &ArrayVec<(u64, u32), 8>, total: u64) -> (r: Result<
    u64,
    Reject,
>)
    ensures
        r == split_from(args@, 0, amount_entries(*amounts), total),
{
    let mut t = total;
    let mut j: usize = 0;
    while j < args.len()
        invariant
            j <= args@.len(),
            split_from(args@, 0, amount_entries(*amounts), total) == split_from(
                args@,
                j as nat,
                amount_entries(*amounts),
                t,
            ),
        decreases args@.len() - j,
    {
        match args[j] {
            Argument::Input(k) => {
                t = add_matching_amounts(amounts, k as u32, t)?;
            },
            _ => {
                return Err(Reject::NotSupported);
            },
        }
        j = j + 1;
    }
    Ok(t)
}

fn apply_command(
    c: &Command,
    rindex: u32,
    amounts: &ArrayVec<(u64, u32), 8>,
    verified: bool,
    total: u64,
) -> (r: Result<(bool, u64), Reject>)
    ensures
        r == fold_command(c@, rindex, amount_entries(*amounts), verified, total),
{
    match c {
        Command::TransferObject(_, to) => {
            if verified {
                return Err(Reject::NotSupported);
            }
            match to {
                Argument::Input(k) => if *k as u32 == rindex {
                    Ok((true, total))
                } else {
                    Err(Reject::NotSupported)
                },
                _ => Err(Reject::NotSupported),
            }
        },
        Command::SplitCoins(coin, args) => {
            match coin {
                Argument::GasCoin => {},
                _ => {
                    return Err(Reject::NotSupported);
                },
            }
            let t = split_total(args, amounts, total)?;
            Ok((verified, t))
        },
    }
}

/// Reads a programmable transaction from `p` and checks it against the transfer
/// shape: exactly one recipient input, one to eight amount inputs, one
/// transfer-object command to the recipient's input, and split-coins commands from
/// the gas coin over amount inputs, whose amounts are summed without overflow.
pub fn parse_programmable_transaction(data: &[u8], p: usize) -> (r: Result<(Transfer, usize), Reject>)
    ensures
        lift_transfer(r) == spec_programmable(data@, p as int),
{
    let (n, q) = read_uleb(data, p)?;
    let mut recipient: Option<[u8; 32]> = None;
    let mut recipient_index: Option<u32> = None;
    let mut amounts = amounts_new();
    let mut pos = q;
    let mut i: u32 = 0;
    while i < n
        invariant
            i <= n,
            spec_programmable(data@, p as int) == match spec_inputs_from(
                data@,
                q as int,
                0,
                n as nat,
                empty_shape(),
            ) {
                Ok((st, q2)) => spec_after_inputs(data@, st, q2),
                Err(e) => Err(e),
            },
            spec_inputs_from(data@, q as int, 0, n as nat, empty_shape()) == spec_inputs_from(
                data@,
                pos as int,
                i as nat,
                n as nat,
                shape_of(recipient, recipient_index, amounts),
            ),
            recipient is Some <==> recipient_index is Some,
        decreases n - i,
    {
        let (arg, q2) = match parse_call_arg(data, pos) {
            Ok(x) => x,
            Err(e) => {
                return Err(e);
            },
        };
        match arg {
            CallArg::RecipientAddress(addr) => {
                if recipient.is_some() {
                    return Err(Reject::NotSupported);
                }
                recipient = Some(addr);
                recipient_index = Some(i);
            },
            CallArg::Amount(amt) => {
                if amounts_try_push(&mut amounts, (amt, i)).is_err() {
                    return Err(Reject::NotSupported);
                }
            },
            _ => {},
        }
        pos = q2;
        i = i + 1;
    }
    let (addr, rindex) = match (recipient, recipient_index) {
        (Some(a), Some(k)) => (a, k),
        _ => {
            return Err(Reject::NotSupported);
        },
    };
    if amounts_len(&amounts) == 0 {
        return Err(Reject::NotSupported);
    }
    let (m, q3) = read_uleb(data, pos)?;
    let ((verified, total), q4) = parse_commands(data, q3, m, rindex, &amounts)?;
    if !verified {
        return Err(Reject::NotSupported);
    }
    Ok((Transfer { recipient: addr, total }, q4))
}

/// Reads `m` commands from `p` and takes them into `(recipient verified, total)`.
fn parse_commands(
    data: &[u8],
    p: usize,
    m: u32,
    rindex: u32,
    amounts: &ArrayVec<(u64, u32), 8>,
) -> (r: Result<((bool, u64), usize), Reject>)
    ensures
        lift(r) == spec_commands_from(data@, p as int, m as nat, rindex, amount_entries(*amounts), false, 0),
{
    let mut verified = false;
    let mut total: u64 = 0;
    let mut pos = p;
    let mut j: u32 = 0;
    while j < m
        invariant
            j <= m,
            spec_commands_from(data@, p as int, m as nat, rindex, amount_entries(*amounts), false, 0)
                == spec_commands_from(
                data@,
                pos as int,
                (m - j) as nat,
                rindex,
                amount_entries(*amounts),
                verified,
                total,
            ),
        decreases m - j,
    {
        let (c, q) = match parse_command(data, pos) {
            Ok(x) => x,
            Err(e) => {
                return Err(e);
            },
        };
        let (v2, t2) = match apply_command(&c, rindex, amounts, verified, total) {
            Ok(x) => x,
            Err(e) => {
                return Err(e);
            },
        };
        verified = v2;
        total = t2;
        pos = q;
        j = j + 1;
    }
    Ok(((verified, total), pos))
}

/// Most gas payment coins a transaction may list.
pub const MAX_GAS_COIN_COUNT: u32 = 32;

/// `n` more object references from `p` on.
pub open spec fn spec_object_refs(s: Seq<u8>, p: int, n: nat) -> Decoded<()>
    decreases n,
{
    if n == 0 {
        Ok(((), p))
    } else {
        match spec_object_ref(s, p) {
            Ok((_, q)) => spec_object_refs(s, q, (n - 1) as nat),
            Err(e) => Err(e),
        }
    }
}

/// Gas data: payment coins (at most `MAX_GAS_COIN_COUNT`), owner, price and
/// budget; the budget is the result.
pub open spec fn spec_gas_data(s: Seq<u8>, p: int) -> Decoded<u64> {
    match spec_uleb(s, p) {
        Ok((n, q)) => if n > MAX_GAS_COIN_COUNT {
            Err(Reject::NotSupported)
        } else {
            match spec_object_refs(s, q, n as nat) {
                Ok((_, q2)) => match spec_skip(s, q2, 40) {
                    Ok((_, q3)) => spec_u64(s, q3),
                    Err(e) => Err(e),
                },
                Err(e) => Err(e),
            }
        },
        Err(e) => Err(e),
    }
}

/// Expiration: tag 0 none, tag 1 an epoch number.
pub open spec fn spec_expiration(s: Seq<u8>, p: int) -> Decoded<()> {
    match spec_uleb(s, p) {
        Ok((tag, q)) => if tag == 0 {
            Ok(((), q))
        } else if tag == 1 {
            spec_skip(s, q, 8)
        } else {
            Err(Reject::NotSupported)
        },
        Err(e) => Err(e),
    }
}

/// What the prompts of a recognized transfer show.
#[derive(Clone, Copy, Debug)]
pub struct TxSummary {
    pub recipient: [u8; 32],
    pub total: u64,
    pub gas_budget: u64,
}

pub open spec fn summary_view(t: TxSummary) -> (Seq<u8>, u64, u64) {
    (t.recipient@, t.total, t.gas_budget)
}

/// What follows the programmable transaction: sender, gas data (whose budget is
/// the result) and expiration.
pub open spec fn spec_tail(s: Seq<u8>, p: int) -> Decoded<u64> {
    match spec_skip(s, p, 32) {
        Ok((_, q)) => match spec_gas_data(s, q) {
            Ok((budget, q2)) => match spec_expiration(s, q2) {
                Ok((_, q3)) => Ok((budget, q3)),
                Err(e) => Err(e),
            },
            Err(e) => Err(e),
        },
        Err(e) => Err(e),
    }
}

/// Transaction data, tag 0 (version 1): kind tag 0 (programmable), the
/// programmable transaction, sender, gas data, expiration.
pub open spec fn spec_transaction_data(s: Seq<u8>, p: int) -> Decoded<(Seq<u8>, u64, u64)> {
    match spec_uleb(s, p) {
        Ok((version, q)) => if version != 0 {
            Err(Reject::NotSupported)
        } else {
            match spec_uleb(s, q) {
                Ok((kind, q2)) => if kind != 0 {
                    Err(Reject::NotSupported)
                } else {
                    match spec_programmable(s, q2) {
                        Ok(((to, total), q3)) => match spec_tail(s, q3) {
                            Ok((budget, q4)) => Ok(((to, total, budget), q4)),
                            Err(e) => Err(e),
                        },
                        Err(e) => Err(e),
                    }
                },
                Err(e) => Err(e),
            }
        },
        Err(e) => Err(e),
    }
}

/// A signing request's transaction: a three-byte intent, then transaction data.
pub open spec fn spec_transaction(s: Seq<u8>) -> Result<(Seq<u8>, u64, u64), Reject> {
    match spec_skip(s, 0, 3) {
        Ok((_, q)) => match spec_transaction_data(s, q) {
            Ok((t, _)) => Ok(t),
            Err(e) => Err(e),
        },
        Err(e) => Err(e),
    }
}

fn parse_gas_data(data: &[u8], p: usize) -> (r: Result<(u64, usize), Reject>)
    ensures
        lift(r) == spec_gas_data(data@, p as int),
{
    let (n, q) = read_uleb(data, p)?;
    if n > MAX_GAS_COIN_COUNT {
        return Err(Reject::NotSupported);
    }
    let mut pos = q;
    let mut i: u32 = 0;
    while i < n
        invariant
            i <= n,
            spec_gas_data(data@, p as int) == match spec_object_refs(data@, q as int, n as nat) {
                Ok((_, q2)) => match spec_skip(data@, q2, 40) {
                    Ok((_, q3)) => spec_u64(data@, q3),
                    Err(e) => Err(e),
                },
                Err(e) => Err(e),
            },
            spec_object_refs(data@, q as int, n as nat) == spec_object_refs(
                data@,
                pos as int,
                (n - i) as nat,
            ),
        decreases n - i,
    {
        let (_, q2) = match parse_object_ref(data, pos) {
            Ok(x) => x,
            Err(e) => {
                return Err(e);
            },
        };
        pos = q2;
        i = i + 1;
    }
    let (_, q3) = skip(data, pos, 40)?;
    read_u64(data, q3)
}

fn parse_expiration(data: &[u8], p: usize) -> (r: Result<((), usize), Reject>)
    ensures
        lift(r) == spec_expiration(data@, p as int),
{
    let (tag, q) = read_uleb(data, p)?;
    if tag == 0 {
        Ok(((), q))
    } else if tag == 1 {
        skip(data, q, 8)
    } else {
        Err(Reject::NotSupported)
    }
}

fn parse_transaction_data(data: &[u8], p: usize) -> (r: Result<(TxSummary, usize), Reject>)
    ensures
        match r {
            Ok((t, q)) => spec_transaction_data(data@, p as int) == Ok::<
                ((Seq<u8>, u64, u64), int),
                Reject,
            >((summary_view(t), q as int)),
            Err(e) => spec_transaction_data(data@, p as int) == Err::<
                ((Seq<u8>, u64, u64), int),
                Reject,
            >(e),
        },
{
    let (version, q) = read_uleb(data, p)?;
    if version != 0 {
        return Err(Reject::NotSupported);
    }
    let (kind, q2) = read_uleb(data, q)?;
    if kind != 0 {
        return Err(Reject::NotSupported);
    }
    let (transfer, q3) = parse_programmable_transaction(data, q2)?;
    let (_, q4) = skip(data, q3, 32)?;
    let (gas_budget, q5) = parse_gas_data(data, q4)?;
    let (_, q6) = parse_expiration(data, q5)?;
    Ok((TxSummary { recipient: transfer.recipient, total: transfer.total, gas_budget }, q6))
}

/// Reads a whole transaction (intent, then transaction data) and returns what its
/// prompts show, or why it is not the recognized transfer shape.
pub fn parse_transaction(data: &[u8]) -> (r: Result<TxSummary, Reject>)
    ensures
        match r {
            Ok(t) => spec_transaction(data@) == Ok::<(Seq<u8>, u64, u64), Reject>(summary_view(t)),
            Err(e) => spec_transaction(data@) == Err::<(Seq<u8>, u64, u64), Reject>(e),
        },
{
    let (_, q) = skip(data, 0, 3)?;
    let (t, _) = parse_transaction_data(data, q)?;
    Ok(t)
}

} // verus!
