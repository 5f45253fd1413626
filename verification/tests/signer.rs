use simplex::hl_type::{HlType, UIntType};
use simplex::hl_value::HlValue;
use simplex::signer::{
    check_fee_amount, derivation_path, signature_witness_value, slip77_descriptor, spendable_utxos,
    split_with_change, split_without_change, strict_outcome, wpkh_descriptor, FeeSearch, FeeSplit,
    FeeStep, SignerError, UtxoEntry, order_utxos, signer_keys, FetchedUtxo,
};
use simplicityhl::elements::{confidential, encode, AssetId, TxOut};
use simplex::wtns_error::WtnsWrappingError;

fn utxo(id: u8, vout: u32, value: u64) -> UtxoEntry {
    UtxoEntry { txid: [id; 32], vout, value }
}

#[test]
fn derivation_paths() {
    assert_eq!(derivation_path(true), "m/84h/1776h/0h");
    assert_eq!(derivation_path(false), "m/84h/1h/0h");
}

#[test]
fn descriptors_text() {
    let wpkh = wpkh_descriptor("a1b2c3d4", "84'/1'/0'", "tpubXYZ");
    assert_eq!(wpkh, "elwpkh([a1b2c3d4/84'/1'/0']tpubXYZ/<0;1>/*)");
    assert_eq!(slip77_descriptor("00ff", &wpkh), "ct(slip77(00ff),elwpkh([a1b2c3d4/84'/1'/0']tpubXYZ/<0;1>/*))");
}

#[test]
fn spendable_utxos_drop_used_and_sort_stably() {
    let utxos = vec![utxo(1, 0, 5), utxo(2, 0, 9), utxo(3, 1, 5), utxo(4, 0, 1), utxo(5, 2, 9)];
    let used = vec![([4u8; 32], 0u32), ([9u8; 32], 0u32)];
    let sorted = spendable_utxos(&utxos, &used);
    assert_eq!(sorted, vec![utxo(2, 0, 9), utxo(5, 2, 9), utxo(1, 0, 5), utxo(3, 1, 5)]);
}

#[test]
fn fee_search_walks_the_coins() {
    let mut search = FeeSearch::new(100, 2);
    assert_eq!(search.on_delta(-5), FeeStep::AddInput(0));
    assert_eq!(search.on_delta(150), FeeStep::Estimate(150));
    assert_eq!(search.on_estimate_failure(300), FeeStep::AddInput(1));
    assert_eq!(search.on_delta(200), FeeStep::Fail(300));
    assert_eq!(search.on_delta(400), FeeStep::Estimate(400));
    assert_eq!(search.on_estimate_failure(500), FeeStep::Fail(500));
    assert_eq!(search.curr_fee, 500);
}

#[test]
fn fee_splits() {
    assert_eq!(split_with_change(1000, 200, 100), Some(FeeSplit::WithChange { change: 800, fee: 200 }));
    assert_eq!(split_with_change(250, 200, 100), None);
    assert_eq!(split_with_change(200, 200, 0), None);
    assert_eq!(split_without_change(250, 200), FeeSplit::WithoutChange { fee_output: 250, fee: 200 });
    assert_eq!(split_without_change(150, 200), FeeSplit::Short(200));
}

#[test]
fn strict_fee_checks() {
    assert_eq!(check_fee_amount(50, 100), Err(SignerError::DustAmount(50)));
    assert_eq!(check_fee_amount(-3, 100), Err(SignerError::DustAmount(-3)));
    assert_eq!(check_fee_amount(100, 100), Ok(100));
    assert_eq!(strict_outcome(120, FeeSplit::Short(130)), Err(SignerError::NotEnoughFeeAmount(120, 130)));
    let ok = FeeSplit::WithoutChange { fee_output: 120, fee: 110 };
    assert_eq!(strict_outcome(120, ok), Ok(ok));
}

#[test]
fn signature_goes_where_the_path_says() {
    let sig = vec![7u8, 8u8];
    let witness = HlValue::u8(0);
    let plain = signature_witness_value(&sig, &[], "SIG", None, &witness).unwrap();
    assert_eq!(plain, HlValue::byte_array(&sig));

    let missing = signature_witness_value(&sig, &["Left"], "SIG", None, &witness);
    assert_eq!(missing, Err(SignerError::WtnsFieldNotFound("SIG".to_string())));

    let bytes_ty = HlType::array(HlType::uint(UIntType::U8), 2);
    let either_ty = HlType::either(bytes_ty.duplicate(), HlType::boolean());
    let held = HlValue::left(HlValue::byte_array(&vec![0u8, 0u8]), HlType::boolean());
    let injected = signature_witness_value(&sig, &["Left"], "SIG", Some(&either_ty), &held).unwrap();
    assert_eq!(injected, HlValue::left(HlValue::byte_array(&sig), HlType::boolean()));

    let wrong = signature_witness_value(&sig, &["Right"], "SIG", Some(&either_ty), &held);
    assert!(matches!(wrong, Err(SignerError::WtnsInjectError(WtnsWrappingError::EitherBranchMismatch))));
}

const ABANDON: &str =
    "abandon abandon abandon abandon abandon abandon abandon abandon abandon abandon abandon about";

#[test]
fn mnemonics_give_master_keys() {
    let keys = signer_keys(ABANDON).unwrap();
    assert_eq!(keys.master_key.len(), 78);
    // The test-network private version bytes of BIP-32.
    assert_eq!(&keys.master_key[..4], &[0x04, 0x35, 0x83, 0x94]);
    assert_eq!(signer_keys(ABANDON).unwrap(), keys);
    let other = signer_keys("legal winner thank year wave sausage worth useful legal winner thank yellow").unwrap();
    assert_ne!(other, keys);
    assert!(matches!(signer_keys("abandon abandon"), Err(SignerError::Mnemonic(_))));
    assert!(matches!(signer_keys("not a mnemonic at all but twelve words long enough for it"), Err(SignerError::Mnemonic(_))));
}

fn explicit_txout(value: u64) -> Vec<u8> {
    let out = TxOut {
        asset: confidential::Asset::Explicit(AssetId::from_byte_array([0xAA; 32])),
        value: confidential::Value::Explicit(value),
        ..Default::default()
    };
    encode::serialize(&out)
}

#[test]
fn fetched_coins_keep_explicit_ones_in_order() {
    let fetched = vec![
        FetchedUtxo { txid: [1; 32], vout: 0, txout: explicit_txout(500) },
        FetchedUtxo { txid: [2; 32], vout: 3, txout: encode::serialize(&TxOut::default()) },
        FetchedUtxo { txid: [3; 32], vout: 1, txout: explicit_txout(7) },
    ];
    assert_eq!(
        order_utxos(fetched, [9; 32]),
        Ok(vec![utxo(1, 0, 500), utxo(2, 3, 0), utxo(3, 1, 7)])
    );
    let broken = vec![
        FetchedUtxo { txid: [1; 32], vout: 0, txout: explicit_txout(500) },
        FetchedUtxo { txid: [2; 32], vout: 0, txout: vec![1, 2, 3] },
    ];
    assert_eq!(order_utxos(broken, [9; 32]), Err(SignerError::Unblind));
    assert_eq!(order_utxos(vec![], [9; 32]), Ok(vec![]));
}
