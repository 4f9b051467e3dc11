//! The transfer shape stated over the decoded lists of inputs and commands, with
//! amounts summed in unbounded integers, and its agreement with the streaming check.
use vstd::prelude::*;

use crate::schema::{spec_call_arg, spec_command, Argument, CallArgModel, CommandModel};
use crate::stream::{spec_uleb, Reject};
use crate::transaction::{
    add_matching, empty_shape, fold_command, fold_input, spec_after_inputs, spec_commands_from,
    spec_inputs_from, spec_programmable, split_from, Shape,
};

verus! {

/// Decodes inputs `i` up to `n` from `p`, after those in `acc`.
pub open spec fn decode_inputs(s: Seq<u8>, p: int, i: nat, n: nat, acc: Seq<CallArgModel>) -> Option<
    (Seq<CallArgModel>, int),
>
    decreases n - i,
{
    if i >= n {
        Some((acc, p))
    } else {
        match spec_call_arg(s, p) {
            Ok((a, q)) => decode_inputs(s, q, i + 1, n, acc.push(a)),
            Err(_) => None,
        }
    }
}

/// Decodes `left` commands from `p`.
pub open spec fn decode_commands(s: Seq<u8>, p: int, left: nat) -> Option<(Seq<CommandModel>, int)>
    decreases left,
{
    if left == 0 {
        Some((Seq::empty(), p))
    } else {
        match spec_command(s, p) {
            Ok((c, q)) => match decode_commands(s, q, (left - 1) as nat) {
                Some((rest, r)) => Some((seq![c] + rest, r)),
                None => None,
            },
            Err(_) => None,
        }
    }
}

/// The shape that a list of inputs gives, input by input.
pub open spec fn fold_inputs(args: Seq<CallArgModel>) -> Result<Shape, Reject>
    decreases args.len(),
{
    if args.len() == 0 {
        Ok(empty_shape())
    } else {
        match fold_inputs(args.drop_last()) {
            Ok(st) => fold_input(st, args.last(), (args.len() - 1) as u32),
            Err(e) => Err(e),
        }
    }
}

/// How many inputs are recipient addresses.
pub open spec fn count_recipients(args: Seq<CallArgModel>) -> nat
    decreases args.len(),
{
    if args.len() == 0 {
        0
    } else {
        count_recipients(args.drop_last()) + if args.last() is RecipientAddress {
            1nat
        } else {
            0nat
        }
    }
}

/// The sum of the amounts from position `m` on that came from input `k`.
pub open spec fn matching_sum(amounts: Seq<(u64, u32)>, k: u32, m: nat) -> nat
    decreases amounts.len() - m,
{
    if m >= amounts.len() {
        0
    } else {
        (if amounts[m as int].1 == k {
            amounts[m as int].0 as nat
        } else {
            0nat
        }) + matching_sum(amounts, k, m + 1)
    }
}

pub open spec fn all_inputs(args: Seq<Argument>) -> bool {
    forall|j: int| 0 <= j < args.len() ==> #[trigger] args[j] is Input
}

/// The sum of the amounts that the split arguments from position `j` on name.
pub open spec fn split_sum(args: Seq<Argument>, j: nat, amounts: Seq<(u64, u32)>) -> nat
    decreases args.len() - j,
{
    if j >= args.len() {
        0
    } else {
        matching_sum(amounts, args[j as int]->Input_0 as u32, 0) + split_sum(args, j + 1, amounts)
    }
}

/// The command policy over a decoded list: one transfer-object command to input
/// `rindex`, split-coins commands from the gas coin over inputs only. The result is
/// whether the transfer was seen and the unbounded sum of the split amounts.
pub open spec fn command_policy(
    cmds: Seq<CommandModel>,
    rindex: u32,
    amounts: Seq<(u64, u32)>,
    verified: bool,
) -> Option<(bool, nat)>
    decreases cmds.len(),
{
    if cmds.len() == 0 {
        Some((verified, 0))
    } else {
        let rest = cmds.subrange(1, cmds.len() as int);
        match cmds[0] {
            CommandModel::TransferObject(_, to) => if verified || !(to is Input
                && to->Input_0 as u32 == rindex) {
                None
            } else {
                command_policy(rest, rindex, amounts, true)
            },
            CommandModel::SplitCoins(coin, args) => if coin != Argument::GasCoin || !all_inputs(
                args,
            ) {
                None
            } else {
                match command_policy(rest, rindex, amounts, verified) {
                    Some((v, t)) => Some((v, split_sum(args, 0, amounts) + t)),
                    None => None,
                }
            },
        }
    }
}

/// A transfer: inputs that decode to exactly one recipient and one to eight
/// amounts, and commands that decode and follow the command policy with the
/// transfer seen. The result is the recipient, the unbounded total of the split
/// amounts, and where the transaction ends.
pub open spec fn decoded_transfer(s: Seq<u8>, p: int) -> Option<(Seq<u8>, nat, int)> {
    match spec_uleb(s, p) {
        Ok((n, q)) => match decode_inputs(s, q, 0, n as nat, Seq::empty()) {
            Some((args, q2)) => match fold_inputs(args) {
                Ok(st) => if st.recipient_index is None || st.amounts.len() == 0 {
                    None
                } else {
                    match spec_uleb(s, q2) {
                        Ok((m, q3)) => match decode_commands(s, q3, m as nat) {
                            Some((cmds, q4)) => match command_policy(
                                cmds,
                                st.recipient_index->Some_0,
                                st.amounts,
                                false,
                            ) {
                                Some((true, t)) => Some((st.recipient->Some_0, t, q4)),
                                _ => None,
                            },
                            None => None,
                        },
                        Err(_) => None,
                    }
                },
                Err(_) => None,
            },
            None => None,
        },
        Err(_) => None,
    }
}

proof fn lemma_decode_inputs_prefix(s: Seq<u8>, p: int, i: nat, n: nat, acc: Seq<CallArgModel>)
    requires
        decode_inputs(s, p, i, n, acc) is Some,
        acc.len() == i,
    ensures
        ({
            let l = decode_inputs(s, p, i, n, acc)->Some_0.0;
            l.subrange(0, i as int) == acc && l.len() == if i >= n {
                i
            } else {
                n
            }
        }),
    decreases n - i,
{
    if i < n {
        let (a, q) = spec_call_arg(s, p)->Ok_0;
        lemma_decode_inputs_prefix(s, q, i + 1, n, acc.push(a));
        let l = decode_inputs(s, p, i, n, acc)->Some_0.0;
        assert(l.subrange(0, i as int) =~= l.subrange(0, i + 1int).subrange(0, i as int));
        assert(acc.push(a).subrange(0, i as int) =~= acc);
    } else {
        assert(acc.subrange(0, i as int) =~= acc);
    }
}

proof fn lemma_fold_inputs_error_stays(l: Seq<CallArgModel>, k: nat, e: Reject)
    requires
        k <= l.len(),
        fold_inputs(l.subrange(0, k as int)) == Err::<Shape, Reject>(e),
    ensures
        fold_inputs(l) == Err::<Shape, Reject>(e),
    decreases l.len() - k,
{
    if k < l.len() {
        assert(l.subrange(0, k + 1int).drop_last() =~= l.subrange(0, k as int));
        lemma_fold_inputs_error_stays(l, k + 1, e);
    } else {
        assert(l.subrange(0, k as int) =~= l);
    }
}

proof fn lemma_inputs_stream(s: Seq<u8>, p: int, i: nat, n: nat, acc: Seq<CallArgModel>, st: Shape)
    requires
        decode_inputs(s, p, i, n, acc) is Some,
        acc.len() == i,
        i <= n,
        n <= u32::MAX + 1,
        fold_inputs(acc) == Ok::<Shape, Reject>(st),
    ensures
        ({
            let (l, q) = decode_inputs(s, p, i, n, acc)->Some_0;
            spec_inputs_from(s, p, i, n, st) == match fold_inputs(l) {
                Ok(st2) => Ok::<(Shape, int), Reject>((st2, q)),
                Err(e) => Err(e),
            }
        }),
    decreases n - i,
{
    if i < n {
        let (a, q1) = spec_call_arg(s, p)->Ok_0;
        let acc2 = acc.push(a);
        assert(acc2.drop_last() =~= acc);
        assert(fold_inputs(acc2) == fold_input(st, a, i as u32));
        lemma_decode_inputs_prefix(s, q1, i + 1, n, acc2);
        match fold_input(st, a, i as u32) {
            Ok(st2) => {
                lemma_inputs_stream(s, q1, i + 1, n, acc2, st2);
            },
            Err(e) => {
                let l = decode_inputs(s, p, i, n, acc)->Some_0.0;
                lemma_fold_inputs_error_stays(l, i + 1, e);
            },
        }
    }
}

proof fn lemma_fold_inputs_facts(args: Seq<CallArgModel>)
    ensures
        fold_inputs(args) matches Err(e) ==> e == Reject::NotSupported,
        fold_inputs(args) matches Ok(st) ==> count_recipients(args) <= 1 && (st.recipient is Some
            <==> count_recipients(args) == 1),
    decreases args.len(),
{
    if args.len() > 0 {
        lemma_fold_inputs_facts(args.drop_last());
    }
}

/// A programmable transaction whose inputs decode with two or more recipient
/// addresses is refused as not supported.
pub proof fn lemma_two_recipients_refused(s: Seq<u8>, p: int)
    requires
        spec_uleb(s, p) is Ok,
        ({
            let (n, q) = spec_uleb(s, p)->Ok_0;
            decode_inputs(s, q, 0, n as nat, Seq::empty()) matches Some((args, _))
                && count_recipients(args) >= 2
        }),
    ensures
        spec_programmable(s, p) == Err::<((Seq<u8>, u64), int), Reject>(Reject::NotSupported),
{
    let (n, q) = spec_uleb(s, p)->Ok_0;
    let (args, q2) = decode_inputs(s, q, 0, n as nat, Seq::empty())->Some_0;
    assert(fold_inputs(Seq::<CallArgModel>::empty()) == Ok::<Shape, Reject>(empty_shape()));
    lemma_inputs_stream(s, q, 0, n as nat, Seq::empty(), empty_shape());
    lemma_fold_inputs_facts(args);
}

proof fn lemma_add_matching(amounts: Seq<(u64, u32)>, k: u32, m: nat, total: u64)
    ensures
        add_matching(amounts, k, m, total) == if total + matching_sum(amounts, k, m) > u64::MAX {
            Err::<u64, Reject>(Reject::InvalidParameter)
        } else {
            Ok((total + matching_sum(amounts, k, m)) as u64)
        },
    decreases amounts.len() - m,
{
    if m < amounts.len() {
        if amounts[m as int].1 == k {
            if total + amounts[m as int].0 <= u64::MAX {
                lemma_add_matching(amounts, k, m + 1, (total + amounts[m as int].0) as u64);
            }
        } else {
            lemma_add_matching(amounts, k, m + 1, total);
        }
    }
}

proof fn lemma_split(args: Seq<Argument>, j: nat, amounts: Seq<(u64, u32)>, total: u64)
    requires
        all_inputs(args),
    ensures
        split_from(args, j, amounts, total) == if total + split_sum(args, j, amounts) > u64::MAX {
            Err::<u64, Reject>(Reject::InvalidParameter)
        } else {
            Ok((total + split_sum(args, j, amounts)) as u64)
        },
    decreases args.len() - j,
{
    if j < args.len() {
        assert(args[j as int] is Input);
        let k = args[j as int]->Input_0 as u32;
        lemma_add_matching(amounts, k, 0, total);
        if total + matching_sum(amounts, k, 0) <= u64::MAX {
            lemma_split(args, j + 1, amounts, (total + matching_sum(amounts, k, 0)) as u64);
        }
    }
}

proof fn lemma_commands_stream(
    s: Seq<u8>,
    p: int,
    left: nat,
    rindex: u32,
    amounts: Seq<(u64, u32)>,
    verified: bool,
    total: u64,
)
    requires
        decode_commands(s, p, left) matches Some((cmds, _)) && command_policy(
            cmds,
            rindex,
            amounts,
            verified,
        ) is Some,
    ensures
        ({
            let (cmds, q) = decode_commands(s, p, left)->Some_0;
            let (v, t) = command_policy(cmds, rindex, amounts, verified)->Some_0;
            spec_commands_from(s, p, left, rindex, amounts, verified, total) == if total + t
                > u64::MAX {
                Err::<((bool, u64), int), Reject>(Reject::InvalidParameter)
            } else {
                Ok(((v, (total + t) as u64), q))
            }
        }),
    decreases left,
{
    if left > 0 {
        let (c, q1) = spec_command(s, p)->Ok_0;
        let (rest, q) = decode_commands(s, q1, (left - 1) as nat)->Some_0;
        let cmds = seq![c] + rest;
        assert(cmds[0] == c);
        assert(cmds.subrange(1, cmds.len() as int) =~= rest);
        match c {
            CommandModel::TransferObject(_, to) => {
                lemma_commands_stream(s, q1, (left - 1) as nat, rindex, amounts, true, total);
            },
            CommandModel::SplitCoins(coin, args) => {
                lemma_split(args, 0, amounts, total);
                let ss = split_sum(args, 0, amounts);
                if total + ss <= u64::MAX {
                    lemma_commands_stream(
                        s,
                        q1,
                        (left - 1) as nat,
                        rindex,
                        amounts,
                        verified,
                        (total + ss) as u64,
                    );
                }
            },
        }
    }
}

/// A transfer is accepted by the streaming check exactly when the total of the
/// amounts its split commands name fits in 64 bits, and the check then reports the
/// recipient and that total; a larger total is refused as an invalid parameter.
pub proof fn lemma_transfer_total(s: Seq<u8>, p: int)
    requires
        decoded_transfer(s, p) is Some,
    ensures
        ({
            let (r, t, q) = decoded_transfer(s, p)->Some_0;
            &&& t <= u64::MAX ==> spec_programmable(s, p) == Ok::<((Seq<u8>, u64), int), Reject>(
                ((r, t as u64), q),
            )
            &&& t > u64::MAX ==> spec_programmable(s, p) == Err::<((Seq<u8>, u64), int), Reject>(
                Reject::InvalidParameter,
            )
        }),
{
    let (n, q) = spec_uleb(s, p)->Ok_0;
    let (args, q2) = decode_inputs(s, q, 0, n as nat, Seq::empty())->Some_0;
    assert(fold_inputs(Seq::<CallArgModel>::empty()) == Ok::<Shape, Reject>(empty_shape()));
    lemma_inputs_stream(s, q, 0, n as nat, Seq::empty(), empty_shape());
    let st = fold_inputs(args)->Ok_0;
    let (m, q3) = spec_uleb(s, q2)->Ok_0;
    lemma_commands_stream(s, q3, m as nat, st.recipient_index->Some_0, st.amounts, false, 0);
    assert(spec_programmable(s, p) == spec_after_inputs(s, st, q2));
}

} // verus!
