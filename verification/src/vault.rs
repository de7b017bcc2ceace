//! The vault lifecycle state machine.
//!
//! A vault is created when its deposit is first observed and then only
//! moves forward: unconfirmed deposit, funded, securing, secured, active,
//! unvaulted, and from there one of canceled, spent or emergency-vaulted.
//! Every transition names the status it expects; a vault in any other
//! status is left untouched and the conflict is reported.

use vstd::prelude::*;

use crate::types::{Outpoint, Txid};

verus! {

/// Where a vault stands in its life, ordered: transitions only ever move
/// forward along this graph.
#[derive(Clone, Copy, PartialEq, Eq, Structural, Debug)]
pub enum VaultStatus {
    /// The deposit is seen but not confirmed.
    Unconfirmed,
    /// The deposit is confirmed deep enough.
    Funded,
    /// The revocation transactions are being gathered.
    Securing,
    /// All revocation transactions are stored.
    Secured,
    /// The unvault transaction is signed and the vault usable.
    Active,
    /// The unvault output exists on chain or in the mempool.
    Unvaulted,
    /// A cancel transaction is broadcast.
    Canceling,
    /// The cancel transaction confirmed: funds are vaulted again.
    Canceled,
    /// A spend transaction is broadcast.
    Spending,
    /// The spend transaction confirmed: funds released.
    Spent,
    /// An emergency transaction is broadcast.
    EmergencyVaulting,
    /// The emergency transaction confirmed: funds in the deep vault.
    EmergencyVaulted,
}

/// The status a vault must hold for a transition into `to`; `None` for the
/// initial status, which no transition reaches.
pub open spec fn prev_status(to: VaultStatus) -> Option<VaultStatus> {
    match to {
        VaultStatus::Unconfirmed => None,
        VaultStatus::Funded => Some(VaultStatus::Unconfirmed),
        VaultStatus::Securing => Some(VaultStatus::Funded),
        VaultStatus::Secured => Some(VaultStatus::Securing),
        VaultStatus::Active => Some(VaultStatus::Secured),
        VaultStatus::Unvaulted => Some(VaultStatus::Active),
        VaultStatus::Canceling => Some(VaultStatus::Unvaulted),
        VaultStatus::Canceled => Some(VaultStatus::Canceling),
        VaultStatus::Spending => Some(VaultStatus::Unvaulted),
        VaultStatus::Spent => Some(VaultStatus::Spending),
        VaultStatus::EmergencyVaulting => Some(VaultStatus::Unvaulted),
        VaultStatus::EmergencyVaulted => Some(VaultStatus::EmergencyVaulting),
    }
}

/// The status a vault must hold for a transition into `to`, as executable
/// code; agrees with [`prev_status`].
pub fn required_status(to: VaultStatus) -> (r: Option<VaultStatus>)
    ensures
        r == prev_status(to),
{
    match to {
        VaultStatus::Unconfirmed => None,
        VaultStatus::Funded => Some(VaultStatus::Unconfirmed),
        VaultStatus::Securing => Some(VaultStatus::Funded),
        VaultStatus::Secured => Some(VaultStatus::Securing),
        VaultStatus::Active => Some(VaultStatus::Secured),
        VaultStatus::Unvaulted => Some(VaultStatus::Active),
        VaultStatus::Canceling => Some(VaultStatus::Unvaulted),
        VaultStatus::Canceled => Some(VaultStatus::Canceling),
        VaultStatus::Spending => Some(VaultStatus::Unvaulted),
        VaultStatus::Spent => Some(VaultStatus::Spending),
        VaultStatus::EmergencyVaulting => Some(VaultStatus::Unvaulted),
        VaultStatus::EmergencyVaulted => Some(VaultStatus::EmergencyVaulting),
    }
}

/// The transactions attached to a vault, by txid; each optional piece is
/// set once the corresponding transaction is built and signed.
#[derive(Clone, Copy, PartialEq, Eq, Structural, Debug)]
pub struct TxBundle {
    pub unvault: Option<Txid>,
    pub cancel: Option<Txid>,
    pub spend: Option<Txid>,
    pub emergency: Option<Txid>,
    pub unvault_emergency: Option<Txid>,
}

/// An error of a control-channel request against the vault map.
#[derive(Clone, Copy, PartialEq, Eq, Structural, Debug)]
pub enum RpcControlError {
    /// No vault is deposited at this outpoint.
    UnknownOutpoint(Outpoint),
    /// The vault stands at the first status and the operation needs the
    /// second: the transition is refused and the vault left untouched.
    InvalidStatus(VaultStatus, VaultStatus),
}

/// One custody position: created when its deposit is first observed, only
/// ever advanced forward, and kept as history once closed.
#[derive(Debug)]
pub struct Vault {
    /// The deposit outpoint: the vault's immutable identity.
    pub deposit_outpoint: Outpoint,
    /// The deposited value, in the smallest unit.
    pub amount: u64,
    /// The derivation index of the deposit address.
    pub derivation_index: u32,
    /// The deposit address.
    pub address: String,
    /// Where the vault stands.
    pub status: VaultStatus,
    /// When the status last moved.
    pub updated_at: u32,
    /// The pre-signed transactions attached so far.
    pub txs: TxBundle,
}

/// The mathematical value of a [`Vault`].
pub struct VaultV {
    pub deposit_outpoint: Outpoint,
    pub amount: u64,
    pub derivation_index: u32,
    pub address: Seq<char>,
    pub status: VaultStatus,
    pub updated_at: u32,
    pub txs: TxBundle,
}

impl View for Vault {
    type V = VaultV;

    open spec fn view(&self) -> VaultV {
        VaultV {
            deposit_outpoint: self.deposit_outpoint,
            amount: self.amount,
            derivation_index: self.derivation_index,
            address: self.address@,
            status: self.status,
            updated_at: self.updated_at,
            txs: self.txs,
        }
    }
}

impl Vault {
    /// A fresh vault for a deposit just observed, at the initial status.
    pub fn new_deposit(
        deposit_outpoint: Outpoint,
        amount: u64,
        derivation_index: u32,
        address: String,
        now: u32,
    ) -> (r: Vault)
        ensures
            r@ == (VaultV {
                deposit_outpoint,
                amount,
                derivation_index,
                address: address@,
                status: VaultStatus::Unconfirmed,
                updated_at: now,
                txs: TxBundle {
                    unvault: None,
                    cancel: None,
                    spend: None,
                    emergency: None,
                    unvault_emergency: None,
                },
            }),
    {
        Vault {
            deposit_outpoint,
            amount,
            derivation_index,
            address,
            status: VaultStatus::Unconfirmed,
            updated_at: now,
            txs: TxBundle {
                unvault: None,
                cancel: None,
                spend: None,
                emergency: None,
                unvault_emergency: None,
            },
        }
    }

    /// Move the vault to `to`, stamping the update time.
    ///
    /// Succeeds exactly when the vault stands at the status the transition
    /// expects; on any other status the vault record is left byte for byte
    /// as it was and the conflict is reported with both statuses.
    pub fn advance(&mut self, to: VaultStatus, now: u32) -> (r: Result<(), RpcControlError>)
        ensures
            match prev_status(to) {
                Some(required) => {
                    if old(self).status == required {
                        &&& r is Ok
                        &&& final(self)@ == (VaultV {
                            status: to,
                            updated_at: now,
                            ..old(self)@
                        })
                    } else {
                        &&& r == Result::<(), RpcControlError>::Err(
                            RpcControlError::InvalidStatus(old(self).status, required),
                        )
                        &&& *final(self) == *old(self)
                    }
                },
                None => r == Result::<(), RpcControlError>::Err(
                    RpcControlError::InvalidStatus(old(self).status, to),
                ) && *final(self) == *old(self),
            },
    {
        match required_status(to) {
            Some(required) => {
                if self.status == required {
                    self.status = to;
                    self.updated_at = now;
                    Ok(())
                } else {
                    Err(RpcControlError::InvalidStatus(self.status, required))
                }
            },
            None => Err(RpcControlError::InvalidStatus(self.status, to)),
        }
    }
}

/// What a detected spend of a vault's unvault output turns out to be,
/// judging by which attached transaction the spending txid matches.
#[derive(Clone, Copy, PartialEq, Eq, Structural, Debug)]
pub enum SpendKind {
    /// The cancel transaction: the vault is being canceled.
    Cancel,
    /// The spend transaction: the vault is being spent.
    Spend,
    /// The emergency transaction.
    Emergency,
    /// The unvault-emergency transaction.
    UnvaultEmergency,
    /// No attached transaction matches, or the spender is unknown: a
    /// diagnostic, not a transition.
    Unknown,
}

/// Which attached transaction a spending txid matches, in the bundle's
/// order of precedence.
pub open spec fn spec_classify_spend(txs: TxBundle, spender: Option<Txid>) -> SpendKind {
    match spender {
        None => SpendKind::Unknown,
        Some(txid) => if txs.cancel == Some(txid) {
            SpendKind::Cancel
        } else if txs.spend == Some(txid) {
            SpendKind::Spend
        } else if txs.emergency == Some(txid) {
            SpendKind::Emergency
        } else if txs.unvault_emergency == Some(txid) {
            SpendKind::UnvaultEmergency
        } else {
            SpendKind::Unknown
        },
    }
}

/// Judge a detected spend by the attached transactions: the branch the
/// owning vault must take, or the unknown-spend diagnostic when nothing
/// matches.
pub fn classify_spend(txs: &TxBundle, spender: Option<&Txid>) -> (r: SpendKind)
    ensures
        r == spec_classify_spend(*txs, match spender {
            Some(t) => Some(*t),
            None => None,
        }),
{
    match spender {
        None => SpendKind::Unknown,
        Some(txid) => {
            if txs.cancel == Some(*txid) {
                SpendKind::Cancel
            } else if txs.spend == Some(*txid) {
                SpendKind::Spend
            } else if txs.emergency == Some(*txid) {
                SpendKind::Emergency
            } else if txs.unvault_emergency == Some(*txid) {
                SpendKind::UnvaultEmergency
            } else {
                SpendKind::Unknown
            }
        },
    }
}

/// The status branch a classified spend drives the owning vault into,
/// from `Unvaulted` on: first the broadcast-observed status, whose
/// confirmation then yields the final one.
pub open spec fn spend_branch(kind: SpendKind) -> Option<VaultStatus> {
    match kind {
        SpendKind::Cancel => Some(VaultStatus::Canceling),
        SpendKind::Spend => Some(VaultStatus::Spending),
        SpendKind::Emergency => Some(VaultStatus::EmergencyVaulting),
        SpendKind::UnvaultEmergency => Some(VaultStatus::EmergencyVaulting),
        SpendKind::Unknown => None,
    }
}

/// The executable twin of [`spend_branch`].
pub fn spend_branch_status(kind: SpendKind) -> (r: Option<VaultStatus>)
    ensures
        r == spend_branch(kind),
{
    match kind {
        SpendKind::Cancel => Some(VaultStatus::Canceling),
        SpendKind::Spend => Some(VaultStatus::Spending),
        SpendKind::Emergency => Some(VaultStatus::EmergencyVaulting),
        SpendKind::UnvaultEmergency => Some(VaultStatus::EmergencyVaulting),
        SpendKind::Unknown => None,
    }
}

} // verus!
