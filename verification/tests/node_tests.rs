//! The node-interface codec: txid parsing, answer readers, request
//! builders, and the wallet-transaction helpers.

use revaultd::bitcoind::{
    synchronization_info, BitcoinD, BlockchainInfoRaw, ImportTimestamp, WalletEndpoint,
};
use revaultd::errors::{BitcoindError, TransportError};
use revaultd::txrules::min_deposit_value;
use revaultd::types::{txid_from_hex, Outpoint, Txid};
use revaultd::utxomap::{UtxoInfo, UtxoMap};
use revaultd::wallet_tx::{
    get_spender_txid, get_wallet_transaction, is_current, is_in_mempool, spender_candidates,
    tx_spends, CurrentStep, GetTxRaw, LsbEntryRaw, OutgoingTx, VinRaw, WalletTransaction,
};

const TXID_1: &str = "0123456789abcdef0123456789abcdef0123456789abcdef0123456789abcdef";

#[test]
fn txid_hex_parses_into_its_four_words() {
    let t = txid_from_hex(TXID_1).unwrap();
    assert_eq!(t.w0, 0x0123456789abcdef);
    assert_eq!(t.w1, 0x0123456789abcdef);
    assert_eq!(t.w2, 0x0123456789abcdef);
    assert_eq!(t.w3, 0x0123456789abcdef);

    let upper = txid_from_hex(
        "0123456789ABCDEF0123456789ABCDEF0123456789ABCDEF0123456789ABCDEF",
    )
    .unwrap();
    assert_eq!(upper, t);
}

#[test]
fn bad_txid_hex_is_refused() {
    assert!(txid_from_hex("").is_none());
    assert!(txid_from_hex("0123").is_none());
    assert!(txid_from_hex(
        "z123456789abcdef0123456789abcdef0123456789abcdef0123456789abcdef"
    )
    .is_none());
    // 65 digits
    assert!(txid_from_hex(
        "0123456789abcdef0123456789abcdef0123456789abcdef0123456789abcdef0"
    )
    .is_none());
}

#[test]
fn deposit_floor_follows_the_protocol_constants() {
    assert_eq!(min_deposit_value(), 556_500);
    let b = BitcoinD::new();
    assert_eq!(b.min_deposit_sats, 556_500);
    assert_eq!(b.deposit_query_floor_coins(), 0);
}

#[test]
fn tip_is_assembled_from_count_and_hash() {
    let b = BitcoinD::new();
    let tip = b
        .get_tip(&Some(712_345), &Some(TXID_1.to_owned()))
        .unwrap();
    assert_eq!(tip.height, 712_345);
    assert_eq!(tip.hash, txid_from_hex(TXID_1).unwrap());

    assert!(b.get_tip(&None, &Some(TXID_1.to_owned())).is_err());
    assert!(b.get_tip(&Some(1), &None).is_err());
    assert!(b.get_tip(&Some(1), &Some("xyz".to_owned())).is_err());
}

#[test]
fn wallet_listing_is_read_as_strings() {
    let b = BitcoinD::new();
    let names = b
        .listwallets(&Some(vec![
            Some("w1".to_owned()),
            Some("w2".to_owned()),
        ]))
        .unwrap();
    assert_eq!(names, vec!["w1".to_owned(), "w2".to_owned()]);
    assert!(b.listwallets(&None).is_err());
}

#[test]
fn startup_imports_carry_label_timestamp_and_endpoint() {
    let b = BitcoinD::new();
    let req = b.startup_import_deposit_descriptors(
        vec!["descA".to_owned(), "descB".to_owned()],
        1_600_000_000,
        false,
    );
    assert_eq!(req.wallet, WalletEndpoint::WatchOnly);
    assert_eq!(req.imports.len(), 2);
    assert_eq!(req.imports[0].descriptor, "descA");
    assert_eq!(req.imports[0].label, "revault-deposit");
    assert_eq!(req.imports[0].timestamp, ImportTimestamp::At(1_600_000_000));
    assert!(!req.imports[0].active);

    let fresh = b.startup_import_unvault_descriptors(vec!["descC".to_owned()], 7, true);
    assert_eq!(fresh.imports[0].timestamp, ImportTimestamp::Now);
    assert_eq!(fresh.imports[0].label, "revault-unvault");

    let cpfp = b.startup_import_cpfp_descriptor("descD".to_owned(), 9, false);
    assert_eq!(cpfp.wallet, WalletEndpoint::Cpfp);
    assert_eq!(cpfp.imports.len(), 1);
    assert_eq!(cpfp.imports[0].label, "revault-cpfp");
    assert!(cpfp.imports[0].active);
}

#[test]
fn fresh_imports_start_now() {
    let b = BitcoinD::new();
    let dep = b.import_fresh_deposit_descriptor("descE".to_owned());
    assert_eq!(dep.wallet, WalletEndpoint::WatchOnly);
    assert_eq!(dep.imports[0].timestamp, ImportTimestamp::Now);
    assert_eq!(dep.imports[0].label, "revault-deposit");
    let unv = b.import_fresh_unvault_descriptor("descF".to_owned());
    assert_eq!(unv.imports[0].label, "revault-unvault");
}

#[test]
fn import_answers_demand_a_success_flag() {
    let b = BitcoinD::new();
    assert!(b.check_import_response(&Some(Some(true))).is_ok());
    assert!(b.check_import_response(&Some(Some(false))).is_err());
    assert!(b.check_import_response(&Some(None)).is_err());
    assert!(b.check_import_response(&None).is_err());
}

#[test]
fn unload_warnings_are_surfaced() {
    let b = BitcoinD::new();
    assert!(b.unloadwallet(&Some(Some(String::new()))).is_ok());
    match b.unloadwallet(&Some(Some("still syncing".to_owned()))) {
        Err(BitcoindError::Custom(msg)) => assert_eq!(msg, "still syncing"),
        _ => panic!("a non-empty warning must be surfaced as the error"),
    }
    assert!(b.unloadwallet(&None).is_err());
}

#[test]
fn chain_info_needs_all_fields() {
    let full = BlockchainInfoRaw {
        headers: Some(100),
        blocks: Some(90),
        ibd: Some(true),
        progress_millionths: Some(912_345),
    };
    let si = synchronization_info(&full).unwrap();
    assert_eq!(si.headers, 100);
    assert_eq!(si.blocks, 90);
    assert!(si.ibd);
    assert_eq!(si.progress_millionths, 912_345);

    let partial = BlockchainInfoRaw {
        headers: Some(100),
        blocks: None,
        ibd: Some(true),
        progress_millionths: Some(1_000_000),
    };
    assert!(synchronization_info(&partial).is_err());
}

#[test]
fn wallet_transaction_reading() {
    let raw = GetTxRaw {
        hex: Some("beef".to_owned()),
        blockheight: Some(Some(712_345)),
        blocktime: Some(Some(1_700_000_000)),
        timereceived: Some(1_699_999_000),
    };
    let tx = get_wallet_transaction(&raw).unwrap();
    assert_eq!(tx.hex, "beef");
    assert_eq!(tx.blockheight, Some(712_345));
    assert_eq!(tx.blocktime, Some(1_700_000_000));
    assert_eq!(tx.received_time, 1_699_999_000);

    let no_hex = GetTxRaw {
        hex: None,
        blockheight: None,
        blocktime: None,
        timereceived: Some(5),
    };
    assert!(get_wallet_transaction(&no_hex).is_err());
}

#[test]
fn unknown_mempool_entry_is_a_negative_answer() {
    // The node's not-found code yields a plain `false`, not an error.
    assert_eq!(
        is_in_mempool(Err(TransportError::Rpc { code: -5 })).unwrap(),
        false
    );
    assert_eq!(is_in_mempool(Ok(())).unwrap(), true);
    match is_in_mempool(Err(TransportError::Rpc { code: -25 })) {
        Err(BitcoindError::Server(TransportError::Rpc { code })) => assert_eq!(code, -25),
        _ => panic!("other rejections must be surfaced"),
    }
    assert!(is_in_mempool(Err(TransportError::SocketError)).is_err());
}

#[test]
fn currency_is_decided_from_the_wallet_view() {
    assert_eq!(is_current(&None), CurrentStep::No);
    let confirmed = WalletTransaction {
        hex: "00".to_owned(),
        received_time: 1,
        blockheight: Some(10),
        blocktime: Some(11),
    };
    assert_eq!(is_current(&Some(confirmed)), CurrentStep::Yes);
    let unconfirmed = WalletTransaction {
        hex: "00".to_owned(),
        received_time: 1,
        blockheight: None,
        blocktime: None,
    };
    assert_eq!(is_current(&Some(unconfirmed)), CurrentStep::CheckMempool);
}

#[test]
fn send_entries_become_spender_candidates() {
    let raws = vec![
        LsbEntryRaw {
            category: Some("receive".to_owned()),
            txid: None,
        },
        LsbEntryRaw {
            category: Some("send".to_owned()),
            txid: Some(TXID_1.to_owned()),
        },
    ];
    let cands = spender_candidates(&raws).unwrap();
    assert_eq!(cands, vec![txid_from_hex(TXID_1).unwrap()]);

    let bad = vec![LsbEntryRaw {
        category: Some("send".to_owned()),
        txid: None,
    }];
    assert!(spender_candidates(&bad).is_err());
}

#[test]
fn spending_inputs_are_matched_in_order() {
    let spent = Outpoint {
        txid: txid_from_hex(TXID_1).unwrap(),
        vout: 3,
    };
    let vins = vec![
        VinRaw {
            txid: Some(TXID_1.to_owned()),
            vout: Some(0),
        },
        VinRaw {
            txid: Some(TXID_1.to_owned()),
            vout: Some(3),
        },
    ];
    assert_eq!(tx_spends(&vins, &spent).unwrap(), true);

    let other = Outpoint {
        txid: txid_from_hex(TXID_1).unwrap(),
        vout: 9,
    };
    assert_eq!(tx_spends(&vins, &other).unwrap(), false);

    let bad = vec![VinRaw {
        txid: None,
        vout: Some(0),
    }];
    assert!(tx_spends(&bad, &spent).is_err());
}

#[test]
fn first_spender_wins() {
    let spent = Outpoint {
        txid: txid_from_hex(TXID_1).unwrap(),
        vout: 0,
    };
    let t1 = Txid {
        w0: 1,
        w1: 0,
        w2: 0,
        w3: 0,
    };
    let t2 = Txid {
        w0: 2,
        w1: 0,
        w2: 0,
        w3: 0,
    };
    let txs = vec![
        OutgoingTx {
            txid: t1,
            vin: vec![],
        },
        OutgoingTx {
            txid: t2,
            vin: vec![spent],
        },
        OutgoingTx {
            txid: t1,
            vin: vec![spent],
        },
    ];
    assert_eq!(get_spender_txid(&txs, &spent), Some(t2));
    let elsewhere = Outpoint {
        txid: txid_from_hex(TXID_1).unwrap(),
        vout: 7,
    };
    assert_eq!(get_spender_txid(&txs, &elsewhere), None);
}

#[test]
fn utxo_map_tracks_by_outpoint() {
    let mut m = UtxoMap::new();
    let op = Outpoint {
        txid: txid_from_hex(TXID_1).unwrap(),
        vout: 1,
    };
    assert!(!m.contains(op));
    m.insert(
        op,
        UtxoInfo {
            value: 5,
            script_pubkey: vec![1, 2],
            is_confirmed: false,
        },
    );
    assert!(m.contains(op));
    assert_eq!(m.get(op).unwrap().value, 5);
    m.insert(
        op,
        UtxoInfo {
            value: 5,
            script_pubkey: vec![1, 2],
            is_confirmed: true,
        },
    );
    assert_eq!(m.len(), 1);
    assert!(m.get(op).unwrap().is_confirmed);
    let taken = m.remove(op).unwrap();
    assert!(taken.is_confirmed);
    assert_eq!(m.len(), 0);
}
