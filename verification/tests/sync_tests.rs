//! The deposit and unvault reconciliation passes on concrete listings.

use revaultd::sync::{
    parse_deposit_entries, parse_unvault_entries, sync_deposits, sync_unvaults, UnspentEntryRaw,
    UnvaultEntry,
};
use revaultd::types::{txid_from_hex, Outpoint};
use revaultd::utxomap::{UtxoInfo, UtxoMap};
use core::str::FromStr;

const TXID_1: &str = "0123456789abcdef0123456789abcdef0123456789abcdef0123456789abcdef";
const ADDR_1: &str = "bc1qw508d6qejxtdg4y5r3zarvary0c5xw7kv8f3t4";

fn o1() -> Outpoint {
    Outpoint {
        txid: txid_from_hex(TXID_1).unwrap(),
        vout: 0,
    }
}

fn raw_entry(confirmations: u64) -> UnspentEntryRaw {
    UnspentEntryRaw {
        txid: Some(TXID_1.to_owned()),
        vout: Some(0),
        label: Some("revault-deposit".to_owned()),
        confirmations: Some(confirmations),
        address: Some(ADDR_1.to_owned()),
        amount_sat: Some(700_000),
    }
}

fn expected_script() -> Vec<u8> {
    revault_tx::bitcoin::Address::from_str(ADDR_1)
        .unwrap()
        .script_pubkey()
        .to_bytes()
}

#[test]
fn new_deposit_arrives_unconfirmed() {
    let known = UtxoMap::new();
    let raws = vec![raw_entry(0)];
    let ds = sync_deposits(&known, &raws, 1).unwrap();
    assert_eq!(ds.new_unconf.len(), 1);
    assert_eq!(ds.new_conf.len(), 0);
    assert_eq!(ds.new_spent.len(), 0);
    let info = ds.new_unconf.get(o1()).unwrap();
    assert!(!info.is_confirmed);
    assert_eq!(info.value, 700_000);
    assert_eq!(info.script_pubkey, expected_script());
}

#[test]
fn deposit_listed_confirmed_still_arrives_unconfirmed() {
    // Even when the node already reports confirmations on first sight,
    // the deposit is recorded unconfirmed and promoted on a later pass.
    let known = UtxoMap::new();
    let raws = vec![raw_entry(7)];
    let ds = sync_deposits(&known, &raws, 1).unwrap();
    assert_eq!(ds.new_unconf.len(), 1);
    assert!(!ds.new_unconf.get(o1()).unwrap().is_confirmed);
    assert_eq!(ds.new_conf.len(), 0);
}

#[test]
fn known_deposit_confirms_then_spends() {
    // Second pass of the scenario: the known unconfirmed deposit is now
    // listed with three confirmations and a floor of one.
    let mut known = UtxoMap::new();
    known.insert(
        o1(),
        UtxoInfo {
            value: 700_000,
            script_pubkey: expected_script(),
            is_confirmed: false,
        },
    );
    let raws = vec![raw_entry(3)];
    let ds = sync_deposits(&known, &raws, 1).unwrap();
    assert_eq!(ds.new_unconf.len(), 0);
    assert_eq!(ds.new_conf.len(), 1);
    assert!(ds.new_conf.contains(o1()));
    assert_eq!(ds.new_spent.len(), 0);

    // Third pass: the deposit is known confirmed and no longer listed.
    let mut known2 = UtxoMap::new();
    known2.insert(
        o1(),
        UtxoInfo {
            value: 700_000,
            script_pubkey: expected_script(),
            is_confirmed: true,
        },
    );
    let ds2 = sync_deposits(&known2, &vec![], 1).unwrap();
    assert_eq!(ds2.new_unconf.len(), 0);
    assert_eq!(ds2.new_conf.len(), 0);
    assert_eq!(ds2.new_spent.len(), 1);
    assert!(ds2.new_spent.contains(o1()));
}

#[test]
fn second_pass_on_same_listing_is_empty() {
    // A new deposit under the confirmation floor: applying the delta and
    // reconciling again against the same listing moves nothing.
    let known = UtxoMap::new();
    let raws = vec![raw_entry(0)];
    let ds = sync_deposits(&known, &raws, 6).unwrap();
    assert_eq!(ds.new_unconf.len(), 1);

    let mut updated = UtxoMap::new();
    updated.insert(
        o1(),
        UtxoInfo {
            value: 700_000,
            script_pubkey: expected_script(),
            is_confirmed: false,
        },
    );
    let ds2 = sync_deposits(&updated, &raws, 6).unwrap();
    assert_eq!(ds2.new_unconf.len(), 0);
    assert_eq!(ds2.new_conf.len(), 0);
    assert_eq!(ds2.new_spent.len(), 0);
}

#[test]
fn still_unconfirmed_below_floor_moves_nothing() {
    let mut known = UtxoMap::new();
    known.insert(
        o1(),
        UtxoInfo {
            value: 700_000,
            script_pubkey: expected_script(),
            is_confirmed: false,
        },
    );
    let ds = sync_deposits(&known, &vec![raw_entry(2)], 6).unwrap();
    assert_eq!(ds.new_unconf.len(), 0);
    assert_eq!(ds.new_conf.len(), 0);
    assert_eq!(ds.new_spent.len(), 0);
}

#[test]
fn foreign_labels_are_passed_over() {
    let known = UtxoMap::new();
    let mut raw = raw_entry(0);
    raw.label = Some("change".to_owned());
    // A malformed entry under another label must not trip parsing either.
    raw.address = None;
    let ds = sync_deposits(&known, &vec![raw], 1).unwrap();
    assert_eq!(ds.new_unconf.len(), 0);
}

#[test]
fn malformed_deposit_entries_are_refused() {
    let mut missing_conf = raw_entry(0);
    missing_conf.confirmations = None;
    assert!(parse_deposit_entries(&vec![missing_conf]).is_err());

    let mut bad_txid = raw_entry(0);
    bad_txid.txid = Some("zz".to_owned());
    assert!(parse_deposit_entries(&vec![bad_txid]).is_err());

    let mut bad_addr = raw_entry(0);
    bad_addr.address = Some("not an address".to_owned());
    assert!(parse_deposit_entries(&vec![bad_addr]).is_err());

    let mut no_amount = raw_entry(0);
    no_amount.amount_sat = None;
    assert!(parse_deposit_entries(&vec![no_amount]).is_err());

    let mut no_vout = raw_entry(0);
    no_vout.vout = None;
    assert!(parse_deposit_entries(&vec![no_vout]).is_err());
}

#[test]
fn unvault_confirmation_and_spend_are_detected() {
    let mut known = UtxoMap::new();
    known.insert(
        o1(),
        UtxoInfo {
            value: 500_000,
            script_pubkey: vec![0x51],
            is_confirmed: false,
        },
    );
    let listed = vec![UnvaultEntry {
        outpoint: o1(),
        confirmed: true,
    }];
    let us = sync_unvaults(&known, &listed);
    assert_eq!(us.new_conf.len(), 1);
    assert_eq!(us.new_spent.len(), 0);

    let us2 = sync_unvaults(&known, &vec![]);
    assert_eq!(us2.new_conf.len(), 0);
    assert_eq!(us2.new_spent.len(), 1);

    // Listed but unconfirmed: nothing moves.
    let listed3 = vec![UnvaultEntry {
        outpoint: o1(),
        confirmed: false,
    }];
    let us3 = sync_unvaults(&known, &listed3);
    assert_eq!(us3.new_conf.len(), 0);
    assert_eq!(us3.new_spent.len(), 0);
}

#[test]
fn unvault_listing_is_parsed_by_label() {
    let raw = UnspentEntryRaw {
        txid: Some(TXID_1.to_owned()),
        vout: Some(1),
        label: Some("revault-unvault".to_owned()),
        confirmations: Some(2),
        address: None,
        amount_sat: None,
    };
    let other = UnspentEntryRaw {
        txid: Some(TXID_1.to_owned()),
        vout: Some(9),
        label: Some("revault-deposit".to_owned()),
        confirmations: Some(0),
        address: None,
        amount_sat: None,
    };
    let entries = parse_unvault_entries(&vec![raw, other]);
    assert_eq!(entries.len(), 1);
    assert_eq!(entries[0].outpoint.vout, 1);
    assert!(entries[0].confirmed);
}
