//! The signing flow: which prompt comes next, and when a request is turned down,
//! as a state machine that the transport and display layer drives.
use arrayvec::ArrayVec;
use vstd::prelude::*;

use crate::bounded::{path_as_slice, path_components, path_new, path_try_push};

use crate::bip32::{bip_prefix_valid, is_bip_prefix_valid};
use crate::stream::{read_le, spec_le, Reject};
use crate::policy::{count_recipients, decode_inputs, decoded_transfer, lemma_transfer_total, lemma_two_recipients_refused};
use crate::stream::spec_uleb;
use crate::transaction::{parse_transaction, spec_tail, spec_transaction, summary_view, TxSummary};

verus! {

/// Most components a derivation path may have.
pub const MAX_PATH_LEN: usize = 10;

/// Most bytes of a public-key response.
pub const ADDRESS_RESPONSE_CAPACITY: usize = 220;

/// A step of the signing flow. Each names the work the driver does next; the
/// driver reports whether it succeeded (for a prompt: whether the user approved).
#[derive(Clone, Copy, Debug, PartialEq, Eq, Structural)]
pub enum SignStage {
    /// Recognized transfer: "Transfer IOTA".
    ConfirmTransfer,
    /// Recognized transfer: the "To", "Amount" and "Max Gas" screens.
    ShowDetails,
    /// Recognized transfer: "Sign Transaction?".
    ConfirmSign,
    /// Unrecognized, blind signing off: the warning, after which the request fails.
    WarnBlindSigningDisabled,
    /// Unrecognized, blind signing on: "Transaction not recognized".
    ConfirmUnknown,
    /// Hashing the declared byte range; fails when the bytes are not all there.
    Hash,
    /// Unrecognized: the transaction hash.
    ShowHash,
    /// Unrecognized: "Blind Sign Transaction?".
    ConfirmBlindSign,
    /// Reading and checking the derivation path.
    CheckPath,
    /// Deriving the key and signing the hash.
    Sign,
    /// The signature was sent.
    Done,
    /// The request was turned down.
    Failed(Reject),
}

/// Where a signing request stands.
#[derive(Clone, Copy, Debug, PartialEq, Eq, Structural)]
pub struct SignFlow {
    /// Whether the transaction has the recognized transfer shape.
    pub known: bool,
    pub stage: SignStage,
}

/// The transition table of the signing flow.
pub open spec fn next_stage(known: bool, stage: SignStage, ok: bool) -> SignStage {
    match stage {
        SignStage::ConfirmTransfer => if ok {
            SignStage::ShowDetails
        } else {
            SignStage::Failed(Reject::UserCancelled)
        },
        SignStage::ShowDetails => if ok {
            SignStage::ConfirmSign
        } else {
            SignStage::Failed(Reject::UserCancelled)
        },
        SignStage::ConfirmSign => if ok {
            SignStage::Hash
        } else {
            SignStage::Failed(Reject::UserCancelled)
        },
        SignStage::WarnBlindSigningDisabled => SignStage::Failed(Reject::NotSupported),
        SignStage::ConfirmUnknown => if ok {
            SignStage::Hash
        } else {
            SignStage::Failed(Reject::UserCancelled)
        },
        SignStage::Hash => if !ok {
            SignStage::Failed(Reject::InvalidParameter)
        } else if known {
            SignStage::CheckPath
        } else {
            SignStage::ShowHash
        },
        SignStage::ShowHash => if ok {
            SignStage::ConfirmBlindSign
        } else {
            SignStage::Failed(Reject::UserCancelled)
        },
        SignStage::ConfirmBlindSign => if ok {
            SignStage::CheckPath
        } else {
            SignStage::Failed(Reject::UserCancelled)
        },
        SignStage::CheckPath => if ok {
            SignStage::Sign
        } else {
            SignStage::Failed(Reject::InvalidParameter)
        },
        SignStage::Sign => if ok {
            SignStage::Done
        } else {
            SignStage::Failed(Reject::Unspecified)
        },
        SignStage::Done => SignStage::Done,
        SignStage::Failed(e) => SignStage::Failed(e),
    }
}

/// The first stage, from the silent classification and the blind-signing setting
/// (0: off). A structural rejection means "not recognized"; any other fails the request.
pub open spec fn first_stage(classified: Result<bool, Reject>, blind_signing: u8) -> SignStage {
    match classified {
        Ok(true) => SignStage::ConfirmTransfer,
        Err(Reject::NotSupported) | Ok(false) => if blind_signing == 0 {
            SignStage::WarnBlindSigningDisabled
        } else {
            SignStage::ConfirmUnknown
        },
        Err(e) => SignStage::Failed(e),
    }
}

/// The silent classification of a transaction: `Some` with what the prompts show
/// when it has the transfer shape, `None` when it has not, and an error (an amount
/// sum that overflows) that fails the request.
pub open spec fn spec_classify(s: Seq<u8>) -> Result<Option<(Seq<u8>, u64, u64)>, Reject> {
    match spec_transaction(s) {
        Ok(t) => Ok(Some(t)),
        Err(Reject::NotSupported) => Ok(None),
        Err(e) => Err(e),
    }
}

pub fn classify(tx: &[u8]) -> (r: Result<Option<TxSummary>, Reject>)
    ensures
        match r {
            Ok(Some(t)) => spec_classify(tx@) == Ok::<Option<(Seq<u8>, u64, u64)>, Reject>(
                Some(summary_view(t)),
            ),
            Ok(None) => spec_classify(tx@) == Ok::<Option<(Seq<u8>, u64, u64)>, Reject>(None),
            Err(e) => spec_classify(tx@) == Err::<Option<(Seq<u8>, u64, u64)>, Reject>(e),
        },
{
    match parse_transaction(tx) {
        Ok(t) => Ok(Some(t)),
        Err(Reject::NotSupported) => Ok(None),
        Err(e) => Err(e),
    }
}

impl SignFlow {
    /// Starts the flow from the classification and the blind-signing setting.
    pub fn start(classified: &Result<Option<TxSummary>, Reject>, blind_signing: u8) -> (r: SignFlow)
        ensures
            r.known == (*classified matches Ok(Some(_))),
            r.stage == first_stage(
                match *classified {
                    Ok(Some(_)) => Ok(true),
                    Ok(None) => Ok(false),
                    Err(e) => Err(e),
                },
                blind_signing,
            ),
    {
        match classified {
            Ok(Some(_)) => SignFlow { known: true, stage: SignStage::ConfirmTransfer },
            Ok(None) | Err(Reject::NotSupported) => SignFlow {
                known: false,
                stage: if blind_signing == 0 {
                    SignStage::WarnBlindSigningDisabled
                } else {
                    SignStage::ConfirmUnknown
                },
            },
            Err(e) => SignFlow { known: false, stage: SignStage::Failed(*e) },
        }
    }

    /// Moves on once the work of the current stage succeeded (`ok`) or not.
    pub fn next(self, ok: bool) -> (r: SignFlow)
        ensures
            r.known == self.known,
            r.stage == next_stage(self.known, self.stage, ok),
    {
        let stage = match self.stage {
            SignStage::ConfirmTransfer => if ok {
                SignStage::ShowDetails
            } else {
                SignStage::Failed(Reject::UserCancelled)
            },
            SignStage::ShowDetails => if ok {
                SignStage::ConfirmSign
            } else {
                SignStage::Failed(Reject::UserCancelled)
            },
            SignStage::ConfirmSign => if ok {
                SignStage::Hash
            } else {
                SignStage::Failed(Reject::UserCancelled)
            },
            SignStage::WarnBlindSigningDisabled => SignStage::Failed(Reject::NotSupported),
            SignStage::ConfirmUnknown => if ok {
                SignStage::Hash
            } else {
                SignStage::Failed(Reject::UserCancelled)
            },
            SignStage::Hash => if !ok {
                SignStage::Failed(Reject::InvalidParameter)
            } else if self.known {
                SignStage::CheckPath
            } else {
                SignStage::ShowHash
            },
            SignStage::ShowHash => if ok {
                SignStage::ConfirmBlindSign
            } else {
                SignStage::Failed(Reject::UserCancelled)
            },
            SignStage::ConfirmBlindSign => if ok {
                SignStage::CheckPath
            } else {
                SignStage::Failed(Reject::UserCancelled)
            },
            SignStage::CheckPath => if ok {
                SignStage::Sign
            } else {
                SignStage::Failed(Reject::InvalidParameter)
            },
            SignStage::Sign => if ok {
                SignStage::Done
            } else {
                SignStage::Failed(Reject::Unspecified)
            },
            SignStage::Done => SignStage::Done,
            SignStage::Failed(e) => SignStage::Failed(e),
        };
        SignFlow { known: self.known, stage }
    }
}

/// The stage reached from `stage` when the driver reports the outcomes `oks` in turn.
pub open spec fn run(known: bool, stage: SignStage, oks: Seq<bool>) -> SignStage
    decreases oks.len(),
{
    if oks.len() == 0 {
        stage
    } else {
        run(known, next_stage(known, stage, oks[0]), oks.drop_first())
    }
}

proof fn lemma_run_settled(known: bool, stage: SignStage, oks: Seq<bool>)
    requires
        stage is Done || stage is Failed,
    ensures
        run(known, stage, oks) == stage,
    decreases oks.len(),
{
    if oks.len() > 0 {
        lemma_run_settled(known, stage, oks.drop_first());
    }
}

/// The signing stage is reached only when every prompt and step before it was
/// approved, and never when blind signing is off for an unrecognized transaction.
pub proof fn lemma_signing_needs_approval(known: bool, stage: SignStage, oks: Seq<bool>)
    requires
        run(known, stage, oks) == SignStage::Sign,
    ensures
        forall|i: int| 0 <= i < oks.len() ==> #[trigger] oks[i],
        stage != SignStage::WarnBlindSigningDisabled,
    decreases oks.len(),
{
    if oks.len() > 0 {
        let next = next_stage(known, stage, oks[0]);
        if next is Done || next is Failed {
            lemma_run_settled(known, next, oks.drop_first());
        } else {
            lemma_signing_needs_approval(known, next, oks.drop_first());
            assert forall|i: int| 0 <= i < oks.len() implies #[trigger] oks[i] by {
                if i > 0 {
                    assert(oks.drop_first()[i - 1] == oks[i]);
                }
            }
        }
    }
}

/// The declared length of a signing request's transaction (four bytes,
/// little-endian) and the position after it.
pub open spec fn spec_declared_length(s: Seq<u8>) -> Result<(nat, int), Reject> {
    match spec_le(s, 0, 4) {
        Ok((v, q)) => Ok((v, q)),
        Err(_) => Err(Reject::InvalidParameter),
    }
}

/// Splits a signing request's first parameter into the declared length of the
/// transaction and the transaction bytes that follow it.
pub fn split_sign_input(param: &[u8]) -> (r: Result<(usize, &[u8]), Reject>)
    ensures
        match spec_declared_length(param@) {
            Ok((n, q)) => r matches Ok((len, tx)) && len == n && tx@ == param@.subrange(
                q,
                param@.len() as int,
            ),
            Err(e) => r == Err::<(usize, &[u8]), Reject>(e),
        },
{
    match read_le(param, 0, 4) {
        Ok((v, q)) => {
            proof {
                reveal_with_fuel(crate::stream::pow256, 5);
            }
            Ok((v as usize, vstd::slice::slice_subrange(param, q, param.len())))
        },
        Err(_) => Err(Reject::InvalidParameter),
    }
}

/// The bytes the signature covers: the first `length` bytes of the transaction,
/// whatever the parse read of them; a transaction shorter than that is refused.
pub open spec fn spec_hashed_range(tx: Seq<u8>, length: nat) -> Result<Seq<u8>, Reject> {
    if length <= tx.len() {
        Ok(tx.subrange(0, length as int))
    } else {
        Err(Reject::InvalidParameter)
    }
}

pub fn hashed_range(tx: &[u8], length: usize) -> (r: Result<&[u8], Reject>)
    ensures
        match spec_hashed_range(tx@, length as nat) {
            Ok(b) => r matches Ok(h) && h@ == b,
            Err(e) => r == Err::<&[u8], Reject>(e),
        },
{
    if length <= tx.len() {
        Ok(vstd::slice::slice_subrange(tx, 0, length))
    } else {
        Err(Reject::InvalidParameter)
    }
}

/// A derivation path: a count byte (at most `MAX_PATH_LEN`), then the components as
/// four-byte little-endian numbers.
pub open spec fn spec_path(s: Seq<u8>) -> Result<Seq<u32>, Reject> {
    if s.len() < 1 || s[0] > MAX_PATH_LEN || s.len() < 1 + 4 * s[0] {
        Err(Reject::InvalidParameter)
    } else {
        Ok(
            Seq::new(
                s[0] as nat,
                |i: int| crate::stream::le_value(s.subrange(1 + 4 * i, 5 + 4 * i)) as u32,
            ),
        )
    }
}

/// Reads a derivation path and accepts it only under a registered prefix.
pub open spec fn spec_validated_path(s: Seq<u8>) -> Result<Seq<u32>, Reject> {
    match spec_path(s) {
        Ok(p) => if bip_prefix_valid(p) {
            Ok(p)
        } else {
            Err(Reject::InvalidParameter)
        },
        Err(e) => Err(e),
    }
}

pub fn parse_path(param: &[u8]) -> (r: Result<ArrayVec<u32, 10>, Reject>)
    ensures
        match spec_path(param@) {
            Ok(p) => r matches Ok(v) && path_components(v) == p,
            Err(e) => r == Err::<ArrayVec<u32, 10>, Reject>(e),
        },
{
    if param.len() < 1 || param[0] as usize > MAX_PATH_LEN || param.len() < 1 + 4
        * param[0] as usize {
        return Err(Reject::InvalidParameter);
    }
    let n = param[0] as usize;
    let mut v = path_new();
    let mut i: usize = 0;
    while i < n
        invariant
            n == param@[0],
            n <= MAX_PATH_LEN,
            1 + 4 * n <= param@.len(),
            i <= n,
            path_components(v) =~= Seq::new(
                i as nat,
                |k: int| crate::stream::le_value(param@.subrange(1 + 4 * k, 5 + 4 * k)) as u32,
            ),
        decreases n - i,
    {
        let (c, _) = match read_le(param, 1 + 4 * i, 4) {
            Ok(x) => x,
            Err(e) => {
                return Err(e);
            },
        };
        proof {
            reveal_with_fuel(crate::stream::pow256, 5);
        }
        if path_try_push(&mut v, c as u32).is_err() {
            return Err(Reject::InvalidParameter);
        }
        i = i + 1;
        assert(path_components(v) =~= Seq::new(
            i as nat,
            |k: int| crate::stream::le_value(param@.subrange(1 + 4 * k, 5 + 4 * k)) as u32,
        ));
    }
    Ok(v)
}

/// Reads the derivation path of a request and checks its prefix.
pub fn validated_path(param: &[u8]) -> (r: Result<ArrayVec<u32, 10>, Reject>)
    ensures
        match spec_validated_path(param@) {
            Ok(p) => r matches Ok(v) && path_components(v) == p,
            Err(e) => r == Err::<ArrayVec<u32, 10>, Reject>(e),
        },
{
    let path = parse_path(param)?;
    if !is_bip_prefix_valid(path_as_slice(&path)) {
        return Err(Reject::InvalidParameter);
    }
    Ok(path)
}

/// The public-key response: the key's length and bytes, then the address's length
/// and bytes.
pub open spec fn address_response_bytes(key: Seq<u8>, address: Seq<u8>) -> Seq<u8> {
    seq![key.len() as u8] + key + seq![address.len() as u8] + address
}

/// Frames a public key and its address; one that would not fit in
/// `ADDRESS_RESPONSE_CAPACITY` bytes, or whose length does not fit a byte, is refused
/// as a cancelled request.
pub fn address_response(key: &[u8], address: &[u8]) -> (r: Result<Vec<u8>, Reject>)
    ensures
        key@.len() <= 255 && address@.len() <= 255 && key@.len() + address@.len() + 2
            <= ADDRESS_RESPONSE_CAPACITY ==> (r matches Ok(v) && v@ == address_response_bytes(
            key@,
            address@,
        )),
        !(key@.len() <= 255 && address@.len() <= 255 && key@.len() + address@.len() + 2
            <= ADDRESS_RESPONSE_CAPACITY) ==> r == Err::<Vec<u8>, Reject>(Reject::UserCancelled),
{
    if key.len() > 255 || address.len() > 255 || key.len() + address.len() + 2
        > ADDRESS_RESPONSE_CAPACITY {
        return Err(Reject::UserCancelled);
    }
    let mut v: Vec<u8> = Vec::new();
    v.push(key.len() as u8);
    let mut i: usize = 0;
    while i < key.len()
        invariant
            i <= key@.len(),
            v@ =~= seq![key@.len() as u8] + key@.subrange(0, i as int),
        decreases key@.len() - i,
    {
        v.push(key[i]);
        i = i + 1;
        assert(v@ =~= seq![key@.len() as u8] + key@.subrange(0, i as int));
    }
    v.push(address.len() as u8);
    let ghost head = v@;
    let mut j: usize = 0;
    while j < address.len()
        invariant
            j <= address@.len(),
            v@ =~= head + address@.subrange(0, j as int),
        decreases address@.len() - j,
    {
        v.push(address[j]);
        j = j + 1;
        assert(v@ =~= head + address@.subrange(0, j as int));
    }
    assert(key@.subrange(0, key@.len() as int) =~= key@);
    assert(address@.subrange(0, address@.len() as int) =~= address@);
    assert(v@ =~= address_response_bytes(key@, address@));
    Ok(v)
}

/// The hashed bytes depend on the declared length and the bytes in that range
/// alone: two transactions that agree there, however differently the rest of
/// them parses, hash the same bytes.
pub proof fn lemma_hashed_range_independent(a: Seq<u8>, b: Seq<u8>, length: nat)
    requires
        length <= a.len(),
        length <= b.len(),
        a.subrange(0, length as int) == b.subrange(0, length as int),
    ensures
        spec_hashed_range(a, length) == spec_hashed_range(b, length),
        spec_hashed_range(a, length) == Ok::<Seq<u8>, Reject>(a.subrange(0, length as int)),
{
}

/// The transaction begins with an intent and one-byte tags for version 1 and a
/// programmable transaction, which starts at byte 5.
pub open spec fn programmable_envelope(s: Seq<u8>) -> bool {
    s.len() >= 5 && s[3] == 0 && s[4] == 0
}

/// A transaction with two or more recipient inputs is not recognized, and the
/// request goes to the blind-signing policy.
pub proof fn lemma_two_recipients_blind(s: Seq<u8>, blind_signing: u8)
    requires
        programmable_envelope(s),
        spec_uleb(s, 5) is Ok,
        ({
            let (n, q) = spec_uleb(s, 5)->Ok_0;
            decode_inputs(s, q, 0, n as nat, Seq::empty()) matches Some((args, _))
                && count_recipients(args) >= 2
        }),
    ensures
        spec_classify(s) == Ok::<Option<(Seq<u8>, u64, u64)>, Reject>(None),
        first_stage(Ok(false), blind_signing) == if blind_signing == 0 {
            SignStage::WarnBlindSigningDisabled
        } else {
            SignStage::ConfirmUnknown
        },
{
    lemma_two_recipients_refused(s, 5);
}

/// A transfer whose amounts sum past 2^64 - 1 fails the request with an invalid
/// parameter; it never reaches a prompt.
pub proof fn lemma_overflow_refused(s: Seq<u8>, blind_signing: u8)
    requires
        programmable_envelope(s),
        decoded_transfer(s, 5) matches Some((_, t, _)) && t > u64::MAX,
    ensures
        spec_classify(s) == Err::<Option<(Seq<u8>, u64, u64)>, Reject>(Reject::InvalidParameter),
        first_stage(Err(Reject::InvalidParameter), blind_signing) == SignStage::Failed(
            Reject::InvalidParameter,
        ),
{
    lemma_transfer_total(s, 5);
}

/// A transfer whose total fits in 64 bits, followed by a well-formed tail, is
/// recognized: the prompts show its recipient, the sum of its amounts and its gas
/// budget, and the flow starts with the transfer confirmation.
pub proof fn lemma_transfer_recognized(s: Seq<u8>, blind_signing: u8)
    requires
        programmable_envelope(s),
        decoded_transfer(s, 5) matches Some((_, t, q)) && t <= u64::MAX && spec_tail(s, q) is Ok,
    ensures
        ({
            let (r, t, q) = decoded_transfer(s, 5)->Some_0;
            let budget = spec_tail(s, q)->Ok_0.0;
            spec_classify(s) == Ok::<Option<(Seq<u8>, u64, u64)>, Reject>(
                Some((r, t as u64, budget)),
            )
        }),
        first_stage(Ok(true), blind_signing) == SignStage::ConfirmTransfer,
{
    lemma_transfer_total(s, 5);
}

} // verus!
