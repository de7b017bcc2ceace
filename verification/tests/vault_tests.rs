//! The vault lifecycle state machine and the hub's vault listing.

use revaultd::hub::{advance_vault, list_vaults};
use revaultd::types::{Outpoint, Txid};
use revaultd::vault::{
    classify_spend, RpcControlError, SpendKind, TxBundle, Vault, VaultStatus,
};

fn txid(n: u64) -> Txid {
    Txid {
        w0: n,
        w1: 0,
        w2: 0,
        w3: 0,
    }
}

fn op(n: u64) -> Outpoint {
    Outpoint {
        txid: txid(n),
        vout: 0,
    }
}

fn vault(n: u64, status: VaultStatus) -> Vault {
    let mut v = Vault::new_deposit(op(n), 1_000_000, 7, "addr".to_owned(), 100);
    v.status = status;
    v
}

#[test]
fn transition_from_wrong_status_leaves_the_vault_unchanged() {
    let mut v = vault(1, VaultStatus::Unconfirmed);
    let r = v.advance(VaultStatus::Secured, 200);
    match r {
        Err(RpcControlError::InvalidStatus(current, required)) => {
            assert_eq!(current, VaultStatus::Unconfirmed);
            assert_eq!(required, VaultStatus::Securing);
        }
        _ => panic!("a transition from the wrong status must be refused"),
    }
    assert_eq!(v.status, VaultStatus::Unconfirmed);
    assert_eq!(v.updated_at, 100);
    assert_eq!(v.amount, 1_000_000);
    assert_eq!(v.derivation_index, 7);
    assert_eq!(v.address, "addr");
    assert_eq!(v.deposit_outpoint, op(1));
}

#[test]
fn forward_transitions_walk_the_graph() {
    let mut v = vault(1, VaultStatus::Unconfirmed);
    assert!(v.advance(VaultStatus::Funded, 101).is_ok());
    assert!(v.advance(VaultStatus::Securing, 102).is_ok());
    assert!(v.advance(VaultStatus::Secured, 103).is_ok());
    assert!(v.advance(VaultStatus::Active, 104).is_ok());
    assert!(v.advance(VaultStatus::Unvaulted, 105).is_ok());
    assert!(v.advance(VaultStatus::Spending, 106).is_ok());
    assert!(v.advance(VaultStatus::Spent, 107).is_ok());
    assert_eq!(v.status, VaultStatus::Spent);
    assert_eq!(v.updated_at, 107);
    // Spent is final: nothing leads out of it.
    assert!(v.advance(VaultStatus::Funded, 108).is_err());
}

#[test]
fn nothing_transitions_into_the_initial_status() {
    let mut v = vault(1, VaultStatus::Funded);
    match v.advance(VaultStatus::Unconfirmed, 200) {
        Err(RpcControlError::InvalidStatus(_, _)) => {}
        _ => panic!("no transition reaches the initial status"),
    }
    assert_eq!(v.status, VaultStatus::Funded);
}

#[test]
fn map_transition_on_unknown_outpoint_is_refused() {
    let mut vaults = vec![vault(1, VaultStatus::Unconfirmed)];
    match advance_vault(&mut vaults, op(9), VaultStatus::Funded, 300) {
        Err(RpcControlError::UnknownOutpoint(o)) => assert_eq!(o, op(9)),
        _ => panic!("an unknown outpoint must be reported"),
    }
    assert_eq!(vaults.len(), 1);
    assert_eq!(vaults[0].status, VaultStatus::Unconfirmed);
}

#[test]
fn map_transition_touches_only_the_addressed_vault() {
    let mut vaults = vec![
        vault(1, VaultStatus::Unconfirmed),
        vault(2, VaultStatus::Unconfirmed),
    ];
    assert!(advance_vault(&mut vaults, op(2), VaultStatus::Funded, 300).is_ok());
    assert_eq!(vaults[0].status, VaultStatus::Unconfirmed);
    assert_eq!(vaults[0].updated_at, 100);
    assert_eq!(vaults[1].status, VaultStatus::Funded);
    assert_eq!(vaults[1].updated_at, 300);

    // A refused transition leaves the whole map as it was.
    assert!(advance_vault(&mut vaults, op(2), VaultStatus::Secured, 400).is_err());
    assert_eq!(vaults[1].status, VaultStatus::Funded);
    assert_eq!(vaults[1].updated_at, 300);
}

#[test]
fn spends_are_classified_by_the_attached_transactions() {
    let txs = TxBundle {
        unvault: Some(txid(10)),
        cancel: Some(txid(11)),
        spend: Some(txid(12)),
        emergency: Some(txid(13)),
        unvault_emergency: Some(txid(14)),
    };
    assert_eq!(classify_spend(&txs, Some(&txid(11))), SpendKind::Cancel);
    assert_eq!(classify_spend(&txs, Some(&txid(12))), SpendKind::Spend);
    assert_eq!(classify_spend(&txs, Some(&txid(13))), SpendKind::Emergency);
    assert_eq!(
        classify_spend(&txs, Some(&txid(14))),
        SpendKind::UnvaultEmergency
    );
    assert_eq!(classify_spend(&txs, Some(&txid(99))), SpendKind::Unknown);
    assert_eq!(classify_spend(&txs, None), SpendKind::Unknown);
}

#[test]
fn listing_filters_by_status_and_txid() {
    let vaults = vec![
        vault(1, VaultStatus::Funded),
        vault(2, VaultStatus::Active),
        vault(3, VaultStatus::Funded),
    ];
    let all = list_vaults(&vaults, &None, &None);
    assert_eq!(all.len(), 3);
    assert_eq!(all[0].deposit_outpoint, op(1));
    assert_eq!(all[0].amount, 1_000_000);
    assert_eq!(all[0].address, "addr");

    let funded = list_vaults(&vaults, &Some(vec![VaultStatus::Funded]), &None);
    assert_eq!(funded.len(), 2);
    assert_eq!(funded[0].deposit_outpoint, op(1));
    assert_eq!(funded[1].deposit_outpoint, op(3));

    let by_txid = list_vaults(&vaults, &None, &Some(vec![txid(2)]));
    assert_eq!(by_txid.len(), 1);
    assert_eq!(by_txid[0].status, VaultStatus::Active);

    let both = list_vaults(
        &vaults,
        &Some(vec![VaultStatus::Funded]),
        &Some(vec![txid(2)]),
    );
    assert_eq!(both.len(), 0);
}
