use iota_app::amount::get_amount_in_decimals;
use iota_app::bip32::is_bip_prefix_valid;
use iota_app::schema::{parse_argument, parse_call_arg, parse_command, Argument, CallArg, Command};
use iota_app::sign::{
    address_response, classify, hashed_range, parse_path, split_sign_input, validated_path,
    SignFlow, SignStage,
};
use iota_app::stream::{read_uleb, Reject};
use iota_app::transaction::parse_transaction;

fn uleb(mut v: u32, out: &mut Vec<u8>) {
    loop {
        let b = (v & 0x7f) as u8;
        v >>= 7;
        if v == 0 {
            out.push(b);
            break;
        }
        out.push(b | 0x80);
    }
}

fn amount_input(v: u64, out: &mut Vec<u8>) {
    out.extend_from_slice(&[0, 8]);
    out.extend_from_slice(&v.to_le_bytes());
}

fn recipient_input(b: u8, out: &mut Vec<u8>) {
    out.extend_from_slice(&[0, 32]);
    out.extend_from_slice(&[b; 32]);
}

fn input_arg(i: u16, out: &mut Vec<u8>) {
    out.push(1);
    out.extend_from_slice(&i.to_le_bytes());
}

fn split(coin_is_gas: bool, inputs: &[u16], out: &mut Vec<u8>) {
    out.push(2);
    if coin_is_gas {
        out.push(0);
    } else {
        input_arg(0, out);
    }
    uleb(inputs.len() as u32, out);
    for i in inputs {
        input_arg(*i, out);
    }
}

fn transfer(to: u16, out: &mut Vec<u8>) {
    out.push(1);
    out.push(1);
    out.extend_from_slice(&[3, 0, 0, 0, 0]);
    input_arg(to, out);
}

/// Wraps a programmable transaction's bytes into a whole transaction.
fn wrap(pt: &[u8], budget: u64) -> Vec<u8> {
    let mut t = vec![0, 0, 0, 0, 0];
    t.extend_from_slice(pt);
    t.extend_from_slice(&[0xaa; 32]);
    t.push(1);
    t.extend_from_slice(&[0x11; 40]);
    t.push(32);
    t.extend_from_slice(&[0x22; 32]);
    t.extend_from_slice(&[0xaa; 32]);
    t.extend_from_slice(&1000u64.to_le_bytes());
    t.extend_from_slice(&budget.to_le_bytes());
    t.push(0);
    t
}

fn transfer_tx(amount: u64) -> Vec<u8> {
    let mut pt = vec![2];
    amount_input(amount, &mut pt);
    recipient_input(7, &mut pt);
    pt.push(2);
    split(true, &[0], &mut pt);
    transfer(1, &mut pt);
    wrap(&pt, 10_000_000)
}

fn frac(a: u64) -> (u64, String) {
    let (q, s) = get_amount_in_decimals(a);
    (q, s.as_str().to_string())
}

#[test]
fn renders_whole_coin() {
    assert_eq!(frac(1_000_000_000), (1, "0".to_string()));
}

#[test]
fn renders_minimal_fraction() {
    assert_eq!(frac(1_234_500_000), (1, "2345".to_string()));
    assert_eq!(frac(1_230_000_000), (1, "23".to_string()));
}

#[test]
fn renders_zero() {
    assert_eq!(frac(0), (0, "0".to_string()));
}

#[test]
fn renders_smallest_unit_and_max() {
    assert_eq!(frac(1), (0, "000000001".to_string()));
    assert_eq!(frac(u64::MAX), (18_446_744_073, "709551615".to_string()));
    assert_eq!(frac(2_500_000_000), (2, "5".to_string()));
}

#[test]
fn bip_prefixes() {
    let iota = [0x8000_002c, 0x8000_107a, 0x8000_007b, 0x8000_0000, 0x8000_0000];
    let smr = [0x8000_002c, 0x8000_107b, 0x8000_0000];
    assert!(is_bip_prefix_valid(&iota));
    assert!(is_bip_prefix_valid(&smr));
    assert!(is_bip_prefix_valid(&iota[0..2]));
    assert!(is_bip_prefix_valid(&[0x8000_002c, 0x8000_107a, 1, 2, 3, 4, 5, 6, 7, 8]));
    assert!(!is_bip_prefix_valid(&iota[0..1]));
    assert!(!is_bip_prefix_valid(&[]));
    assert!(!is_bip_prefix_valid(&[0x8000_002c, 0x8000_0001, 0x8000_007b]));
    assert!(!is_bip_prefix_valid(&[0x8000_002d, 0x8000_107a]));
}

fn path_bytes(p: &[u32]) -> Vec<u8> {
    let mut v = vec![p.len() as u8];
    for c in p {
        v.extend_from_slice(&c.to_le_bytes());
    }
    v
}

#[test]
fn paths_are_read_and_checked() {
    let p = [0x8000_002c, 0x8000_107a, 0x8000_007b, 0x8000_0000, 0x8000_0000];
    assert_eq!(parse_path(&path_bytes(&p)).unwrap().as_slice(), &p[..]);
    assert_eq!(validated_path(&path_bytes(&p)).unwrap().as_slice(), &p[..]);
    let smr = [0x8000_002c, 0x8000_107b, 0x8000_0000];
    assert_eq!(validated_path(&path_bytes(&smr)).unwrap().as_slice(), &smr[..]);
    assert_eq!(
        validated_path(&path_bytes(&[0x8000_002c, 0x8000_0076])),
        Err(Reject::InvalidParameter)
    );
    assert_eq!(validated_path(&path_bytes(&[0x8000_002c])), Err(Reject::InvalidParameter));
    assert_eq!(parse_path(&[2, 1, 0, 0, 0]), Err(Reject::InvalidParameter));
    assert_eq!(parse_path(&path_bytes(&[1; 11])), Err(Reject::InvalidParameter));
    assert_eq!(parse_path(&[]), Err(Reject::InvalidParameter));
}

#[test]
fn reads_uleb_numbers() {
    assert_eq!(read_uleb(&[0x05], 0), Ok((5, 1)));
    assert_eq!(read_uleb(&[0x80, 0x01], 0), Ok((128, 2)));
    assert_eq!(read_uleb(&[0xff, 0xff, 0xff, 0xff, 0x0f], 0), Ok((u32::MAX, 5)));
    assert_eq!(read_uleb(&[0xff, 0xff, 0xff, 0xff, 0x1f], 0), Err(Reject::NotSupported));
    assert_eq!(read_uleb(&[0x80, 0x80, 0x80, 0x80, 0x80, 0x01], 0), Err(Reject::NotSupported));
    assert_eq!(read_uleb(&[0x80], 0), Err(Reject::NotSupported));
}

#[test]
fn classifies_arguments() {
    assert_eq!(parse_argument(&[0], 0), Ok((Argument::GasCoin, 1)));
    assert_eq!(parse_argument(&[1, 0x34, 0x12], 0), Ok((Argument::Input(0x1234), 3)));
    assert_eq!(parse_argument(&[2, 5, 0], 0), Ok((Argument::Result(5), 3)));
    assert_eq!(parse_argument(&[3, 1, 0, 2, 0], 0), Ok((Argument::NestedResult(1, 2), 5)));
    assert_eq!(parse_argument(&[4], 0), Err(Reject::NotSupported));
}

#[test]
fn classifies_call_args() {
    let mut v = Vec::new();
    amount_input(42, &mut v);
    assert!(matches!(parse_call_arg(&v, 0), Ok((CallArg::Amount(42), 10))));
    let mut r = Vec::new();
    recipient_input(9, &mut r);
    match parse_call_arg(&r, 0) {
        Ok((CallArg::RecipientAddress(a), 34)) => assert_eq!(a, [9; 32]),
        _ => panic!("recipient expected"),
    }
    assert!(matches!(parse_call_arg(&[0, 3, 1, 2, 3], 0), Ok((CallArg::OtherPure, 5))));
    let mut shared = vec![1, 1];
    shared.extend_from_slice(&[0; 41]);
    assert!(matches!(parse_call_arg(&shared, 0), Ok((CallArg::ObjectArg, 43))));
    let mut owned = vec![1, 0];
    owned.extend_from_slice(&[0; 40]);
    owned.push(32);
    owned.extend_from_slice(&[0; 32]);
    assert!(matches!(parse_call_arg(&owned, 0), Ok((CallArg::ObjectArg, 75))));
    assert!(matches!(parse_call_arg(&[1, 2], 0), Err(Reject::NotSupported)));
    assert!(matches!(parse_call_arg(&[2], 0), Err(Reject::NotSupported)));
    assert!(matches!(parse_call_arg(&[0, 8, 1, 2], 0), Err(Reject::NotSupported)));
}

#[test]
fn classifies_commands() {
    let mut t = Vec::new();
    transfer(3, &mut t);
    match parse_command(&t, 0) {
        Ok((Command::TransferObject(objs, to), n)) => {
            assert_eq!(objs, vec![Argument::NestedResult(0, 0)]);
            assert_eq!(to, Argument::Input(3));
            assert_eq!(n, t.len());
        }
        _ => panic!("transfer expected"),
    }
    let mut s = Vec::new();
    split(true, &[0, 1], &mut s);
    match parse_command(&s, 0) {
        Ok((Command::SplitCoins(coin, amts), _)) => {
            assert_eq!(coin, Argument::GasCoin);
            assert_eq!(amts, vec![Argument::Input(0), Argument::Input(1)]);
        }
        _ => panic!("split expected"),
    }
    assert!(matches!(parse_command(&[1, 2, 0, 0, 0], 0), Err(Reject::NotSupported)));
    let mut big = Vec::new();
    split(true, &[0; 9], &mut big);
    assert!(matches!(parse_command(&big, 0), Err(Reject::NotSupported)));
    assert!(matches!(parse_command(&[0], 0), Err(Reject::NotSupported)));
}

#[test]
fn recognizes_transfer() {
    let tx = transfer_tx(2_500_000_000);
    let s = parse_transaction(&tx).unwrap();
    assert_eq!(s.recipient, [7; 32]);
    assert_eq!(s.total, 2_500_000_000);
    assert_eq!(s.gas_budget, 10_000_000);
}

#[test]
fn sums_amounts_over_splits() {
    let mut pt = vec![4];
    amount_input(1_000_000_000, &mut pt);
    pt.extend_from_slice(&[0, 2, 0xab, 0xcd]);
    recipient_input(1, &mut pt);
    amount_input(230_000_000, &mut pt);
    pt.push(3);
    split(true, &[0, 3], &mut pt);
    transfer(2, &mut pt);
    split(true, &[3, 1], &mut pt);
    let tx = wrap(&pt, 5);
    let s = parse_transaction(&tx).unwrap();
    assert_eq!(s.total, 1_460_000_000);
    assert_eq!(s.recipient, [1; 32]);
}

#[test]
fn two_recipients_are_not_recognized() {
    let mut pt = vec![3];
    recipient_input(1, &mut pt);
    amount_input(5, &mut pt);
    recipient_input(2, &mut pt);
    pt.push(2);
    split(true, &[1], &mut pt);
    transfer(0, &mut pt);
    let tx = wrap(&pt, 5);
    assert!(matches!(parse_transaction(&tx), Err(Reject::NotSupported)));
    let c = classify(&tx);
    assert!(matches!(c, Ok(None)));
    assert_eq!(SignFlow::start(&c, 1).stage, SignStage::ConfirmUnknown);
}

#[test]
fn overflowing_sum_is_invalid_parameter() {
    let mut pt = vec![3];
    amount_input(u64::MAX, &mut pt);
    amount_input(1, &mut pt);
    recipient_input(3, &mut pt);
    pt.push(2);
    split(true, &[0, 1], &mut pt);
    transfer(2, &mut pt);
    let tx = wrap(&pt, 5);
    let c = classify(&tx);
    assert!(matches!(c, Err(Reject::InvalidParameter)));
    let flow = SignFlow::start(&c, 1);
    assert_eq!(flow.stage, SignStage::Failed(Reject::InvalidParameter));
}

#[test]
fn shape_violations_are_not_supported() {
    // split from a coin other than gas
    let mut a = vec![2];
    amount_input(5, &mut a);
    recipient_input(3, &mut a);
    a.push(2);
    split(false, &[0], &mut a);
    transfer(1, &mut a);
    assert!(matches!(parse_transaction(&wrap(&a, 1)), Err(Reject::NotSupported)));
    // transfer to an input that is not the recipient
    let mut b = vec![2];
    amount_input(5, &mut b);
    recipient_input(3, &mut b);
    b.push(2);
    split(true, &[0], &mut b);
    transfer(0, &mut b);
    assert!(matches!(parse_transaction(&wrap(&b, 1)), Err(Reject::NotSupported)));
    // two transfers
    let mut c = vec![2];
    amount_input(5, &mut c);
    recipient_input(3, &mut c);
    c.push(3);
    split(true, &[0], &mut c);
    transfer(1, &mut c);
    transfer(1, &mut c);
    assert!(matches!(parse_transaction(&wrap(&c, 1)), Err(Reject::NotSupported)));
    // no transfer at all
    let mut d = vec![2];
    amount_input(5, &mut d);
    recipient_input(3, &mut d);
    d.push(1);
    split(true, &[0], &mut d);
    assert!(matches!(parse_transaction(&wrap(&d, 1)), Err(Reject::NotSupported)));
    // no amount
    let mut e = vec![1];
    recipient_input(3, &mut e);
    e.push(1);
    transfer(0, &mut e);
    assert!(matches!(parse_transaction(&wrap(&e, 1)), Err(Reject::NotSupported)));
    // split naming a result instead of an input
    let mut f = vec![2];
    amount_input(5, &mut f);
    recipient_input(3, &mut f);
    f.push(2);
    f.extend_from_slice(&[2, 0, 1, 2, 0, 0]);
    transfer(1, &mut f);
    assert!(matches!(parse_transaction(&wrap(&f, 1)), Err(Reject::NotSupported)));
}

#[test]
fn nine_amounts_exceed_capacity() {
    let mut pt = vec![10];
    for k in 0..9u64 {
        amount_input(k, &mut pt);
    }
    recipient_input(3, &mut pt);
    pt.push(2);
    split(true, &[0], &mut pt);
    transfer(9, &mut pt);
    assert!(matches!(parse_transaction(&wrap(&pt, 1)), Err(Reject::NotSupported)));
    let mut ok = vec![9];
    for k in 0..8u64 {
        amount_input(k, &mut ok);
    }
    recipient_input(3, &mut ok);
    ok.push(2);
    split(true, &[0, 1, 2, 3, 4, 5, 6, 7], &mut ok);
    transfer(8, &mut ok);
    assert_eq!(parse_transaction(&wrap(&ok, 1)).unwrap().total, 28);
}

#[test]
fn envelopes_are_checked() {
    let tx = transfer_tx(1);
    let mut bad_version = tx.clone();
    bad_version[3] = 1;
    assert!(matches!(parse_transaction(&bad_version), Err(Reject::NotSupported)));
    let mut bad_kind = tx.clone();
    bad_kind[4] = 1;
    assert!(matches!(parse_transaction(&bad_kind), Err(Reject::NotSupported)));
    let mut bad_expiration = tx.clone();
    let last = bad_expiration.len() - 1;
    bad_expiration[last] = 2;
    assert!(matches!(parse_transaction(&bad_expiration), Err(Reject::NotSupported)));
    let mut epoch = tx.clone();
    epoch[last] = 1;
    epoch.extend_from_slice(&7u64.to_le_bytes());
    assert!(parse_transaction(&epoch).is_ok());
    assert!(matches!(parse_transaction(&tx[..tx.len() - 1]), Err(Reject::NotSupported)));
}

fn sign_input(tx: &[u8]) -> Vec<u8> {
    let mut v = (tx.len() as u32).to_le_bytes().to_vec();
    v.extend_from_slice(tx);
    v
}

#[test]
fn degenerate_transaction_without_blind_signing_is_refused() {
    let mut pt = vec![1];
    pt.extend_from_slice(&[0, 3, 1, 2, 3]);
    pt.push(1);
    split(true, &[0], &mut pt);
    let input = sign_input(&wrap(&pt, 1));
    let (len, tx) = split_sign_input(&input).unwrap();
    let c = classify(tx);
    assert!(matches!(c, Ok(None)));
    let flow = SignFlow::start(&c, 0);
    assert!(!flow.known);
    assert_eq!(flow.stage, SignStage::WarnBlindSigningDisabled);
    assert_eq!(flow.next(true).stage, SignStage::Failed(Reject::NotSupported));
    assert_eq!(len, tx.len());
}

#[test]
fn transfer_of_two_and_a_half_reaches_signing() {
    let tx = transfer_tx(2_500_000_000);
    let input = sign_input(&tx);
    let (len, body) = split_sign_input(&input).unwrap();
    let c = classify(body);
    let summary = match c {
        Ok(Some(s)) => s,
        _ => panic!("transfer expected"),
    };
    assert_eq!(frac(summary.total), (2, "5".to_string()));
    let mut flow = SignFlow::start(&c, 0);
    let expected = [
        SignStage::ConfirmTransfer,
        SignStage::ShowDetails,
        SignStage::ConfirmSign,
        SignStage::Hash,
        SignStage::CheckPath,
        SignStage::Sign,
        SignStage::Done,
    ];
    for (k, s) in expected.iter().enumerate() {
        assert_eq!(flow.stage, *s);
        if k + 1 < expected.len() {
            flow = flow.next(true);
        }
    }
    assert_eq!(hashed_range(body, len).unwrap(), &tx[..]);
}

#[test]
fn declining_cancels() {
    let c = classify(&transfer_tx(1));
    let flow = SignFlow::start(&c, 0);
    assert_eq!(flow.next(false).stage, SignStage::Failed(Reject::UserCancelled));
    let unknown = SignFlow::start(&Ok(None), 1);
    assert_eq!(unknown.stage, SignStage::ConfirmUnknown);
    let hashed = unknown.next(true).next(true);
    assert_eq!(hashed.stage, SignStage::ShowHash);
    assert_eq!(hashed.next(true).stage, SignStage::ConfirmBlindSign);
    assert_eq!(hashed.next(true).next(false).stage, SignStage::Failed(Reject::UserCancelled));
    assert_eq!(hashed.next(true).next(true).stage, SignStage::CheckPath);
    let at_path = hashed.next(true).next(true);
    assert_eq!(at_path.next(false).stage, SignStage::Failed(Reject::InvalidParameter));
    assert_eq!(at_path.next(true).next(false).stage, SignStage::Failed(Reject::Unspecified));
    let at_hash = SignFlow::start(&Ok(None), 1).next(true);
    assert_eq!(at_hash.next(false).stage, SignStage::Failed(Reject::InvalidParameter));
}

#[test]
fn hashed_range_follows_declared_length() {
    let a = [1u8, 2, 3, 4, 5];
    let b = [1u8, 2, 3, 9, 9, 9];
    assert_eq!(hashed_range(&a, 3).unwrap(), hashed_range(&b, 3).unwrap());
    assert_eq!(hashed_range(&a, 3).unwrap(), &[1, 2, 3]);
    assert_eq!(hashed_range(&a, 6), Err(Reject::InvalidParameter));
    assert_eq!(split_sign_input(&[1, 0, 0]), Err(Reject::InvalidParameter));
    let (len, rest) = split_sign_input(&[2, 1, 0, 0, 9, 8]).unwrap();
    assert_eq!(len, 258);
    assert_eq!(rest, &[9, 8]);
}

#[test]
fn address_response_framing() {
    let key = [4u8; 65];
    let addr = [5u8; 32];
    let r = address_response(&key, &addr).unwrap();
    assert_eq!(r.len(), 99);
    assert_eq!(r[0], 65);
    assert_eq!(r[66], 32);
    assert_eq!(&r[67..], &addr[..]);
    assert_eq!(address_response(&[0u8; 200], &addr), Err(Reject::UserCancelled));
}

#[test]
fn status_words() {
    assert_eq!(Reject::InvalidParameter.status_word(), 2);
    assert_eq!(Reject::NotSupported.status_word(), 8);
    assert_eq!(Reject::UserCancelled.status_word(), 0x6985);
    assert_eq!(Reject::Unspecified.status_word(), 12);
}
