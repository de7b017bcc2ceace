//! The coordination hub's message protocol and request handling.
//!
//! The hub owns the vault map and serves two channels: typed requests
//! from the control interface, and on-demand chain facts from the
//! node-polling thread. The channels themselves live outside the crate;
//! here stand the message payloads and the handling that reads or moves
//! vault state.

use vstd::prelude::*;

use crate::types::{Outpoint, Txid};
use crate::vault::{prev_status, RpcControlError, Vault, VaultStatus, VaultV};

verus! {

/// A request of the control interface to the hub. Every request is
/// answered on a reply channel the caller supplies outside this crate.
#[derive(Debug)]
pub enum RpcMessageIn {
    /// Stop the daemon: the hub forwards the shutdown and joins its
    /// workers.
    Shutdown,
    /// Network, block height and sync progress.
    GetInfo,
    /// The vaults, optionally restricted to a status set and a txid set.
    ListVaults(Option<Vec<VaultStatus>>, Option<Vec<Txid>>),
    /// The next deposit address.
    DepositAddr,
    /// The revocation transactions of one vault, as their raw encodings.
    GetRevocationTxs(Outpoint),
    /// Submitted revocation transactions of one vault: cancel, emergency
    /// and unvault-emergency, as their raw encodings.
    RevocationTxs(Outpoint, String, String, String),
    /// The unvault transaction of one vault, as its raw encoding.
    GetUnvaultTx(Outpoint),
    /// The transaction bundles of the given vaults, or of all of them.
    ListTransactions(Option<Vec<Outpoint>>),
}

/// A request of the hub to the node-polling thread, the only thread that
/// talks to the node.
#[derive(Debug)]
pub enum BitcoindMessageOut {
    /// Stop polling and exit.
    Shutdown,
    /// The node's verification progress, in millionths.
    SyncProgress,
    /// The wallet's view of this transaction, if it has one.
    WalletTransaction(Txid),
}

/// A request of the hub to the signature-fetching thread.
#[derive(Debug)]
pub enum SigFetcherMessageOut {
    Shutdown,
}

/// The wallet's view of a transaction as the hub serves it over the
/// control channel: raw bytes as hex, confirmation height when confirmed,
/// and when the wallet first saw it.
#[derive(Debug)]
pub struct WalletTransaction {
    pub hex: String,
    pub blockheight: Option<u32>,
    pub received_time: u32,
}

/// One of a vault's transactions as served over the control channel: the
/// wallet's view of it once broadcast, its raw encoding, and whether all
/// signatures are in.
#[derive(Debug)]
pub struct TransactionResource<T> {
    pub wallet_tx: Option<WalletTransaction>,
    pub tx: T,
    pub is_signed: bool,
}

/// The full transaction bundle of one vault as served over the control
/// channel; the encodings are carried as their raw hex.
#[derive(Debug)]
pub struct VaultTransactions {
    pub outpoint: Outpoint,
    pub deposit: WalletTransaction,
    pub unvault: TransactionResource<String>,
    pub spend: Option<TransactionResource<String>>,
    pub cancel: TransactionResource<String>,
    pub emergency: Option<TransactionResource<String>>,
    pub unvault_emergency: Option<TransactionResource<String>>,
}

/// One row of the vault listing served over the control channel.
#[derive(Debug)]
pub struct ListVaultsEntry {
    pub amount: u64,
    pub status: VaultStatus,
    pub deposit_outpoint: Outpoint,
    pub derivation_index: u32,
    pub address: String,
    pub updated_at: u32,
}

/// The mathematical value of a [`ListVaultsEntry`].
pub struct ListVaultsEntryV {
    pub amount: u64,
    pub status: VaultStatus,
    pub deposit_outpoint: Outpoint,
    pub derivation_index: u32,
    pub address: Seq<char>,
    pub updated_at: u32,
}

impl View for ListVaultsEntry {
    type V = ListVaultsEntryV;

    open spec fn view(&self) -> ListVaultsEntryV {
        ListVaultsEntryV {
            amount: self.amount,
            status: self.status,
            deposit_outpoint: self.deposit_outpoint,
            derivation_index: self.derivation_index,
            address: self.address@,
            updated_at: self.updated_at,
        }
    }
}

/// Does a vault pass the listing's filters: its status in the status set
/// and its deposit txid in the txid set, where a filter is given at all?
pub open spec fn vault_passes(
    v: Vault,
    statuses: Option<Vec<VaultStatus>>,
    txids: Option<Vec<Txid>>,
) -> bool {
    &&& (statuses matches Some(ss) ==> ss@.contains(v.status))
    &&& (txids matches Some(ts) ==> ts@.contains(v.deposit_outpoint.txid))
}

/// The listing row of one vault.
pub open spec fn lv_entry_of(v: Vault) -> ListVaultsEntryV {
    ListVaultsEntryV {
        amount: v.amount,
        status: v.status,
        deposit_outpoint: v.deposit_outpoint,
        derivation_index: v.derivation_index,
        address: v.address@,
        updated_at: v.updated_at,
    }
}

/// The views of a vector of listing rows.
pub open spec fn lv_views(s: Seq<ListVaultsEntry>) -> Seq<ListVaultsEntryV> {
    s.map_values(|e: ListVaultsEntry| e@)
}

/// The rows of the vault listing: the vaults that pass both filters, in
/// map order.
pub open spec fn listed_of(
    vaults: Seq<Vault>,
    statuses: Option<Vec<VaultStatus>>,
    txids: Option<Vec<Txid>>,
) -> Seq<ListVaultsEntryV> {
    vaults.filter(|v: Vault| vault_passes(v, statuses, txids)).map_values(
        |v: Vault| lv_entry_of(v),
    )
}

/// Appending a vault appends its row exactly when it passes the filters.
proof fn lemma_listed_push(
    s: Seq<Vault>,
    x: Vault,
    statuses: Option<Vec<VaultStatus>>,
    txids: Option<Vec<Txid>>,
)
    ensures
        listed_of(s.push(x), statuses, txids) == if vault_passes(x, statuses, txids) {
            listed_of(s, statuses, txids).push(lv_entry_of(x))
        } else {
            listed_of(s, statuses, txids)
        },
{
    let pred = |v: Vault| vault_passes(v, statuses, txids);
    let f = |v: Vault| lv_entry_of(v);
    Seq::lemma_filter_push(s, x, pred);
    if pred(x) {
        assert(s.filter(pred).push(x).map_values(f) =~= s.filter(pred).map_values(f).push(f(x)));
    }
}

/// Is this status in the filter set? No filter passes everything.
#[verifier::loop_isolation(false)]
fn status_passes(statuses: &Option<Vec<VaultStatus>>, st: VaultStatus) -> (r: bool)
    ensures
        r == (match statuses {
            Option::Some(ss) => ss@.contains(st),
            Option::None => true,
        }),
{
    match statuses {
        Some(ss) => {
            let n = ss.len();
            let mut i: usize = 0;
            while i < n
                invariant
                    0 <= i <= n == ss@.len(),
                    forall|t: int| 0 <= t < i ==> ss@[t] != st,
                decreases n - i,
            {
                if ss[i] == st {
                    proof {
                        assert(ss@.contains(st)) by {
                            assert(ss@[i as int] == st);
                        }
                    }
                    return true;
                }
                i = i + 1;
            }
            proof {
                if ss@.contains(st) {
                    let w = choose|w: int| 0 <= w < ss@.len() && ss@[w] == st;
                    assert(ss@[w] != st);
                }
            }
            false
        },
        None => true,
    }
}

/// Is this txid in the filter set? No filter passes everything.
#[verifier::loop_isolation(false)]
fn txid_passes(txids: &Option<Vec<Txid>>, t: Txid) -> (r: bool)
    ensures
        r == (match txids {
            Option::Some(ts) => ts@.contains(t),
            Option::None => true,
        }),
{
    match txids {
        Some(ts) => {
            let n = ts.len();
            let mut i: usize = 0;
            while i < n
                invariant
                    0 <= i <= n == ts@.len(),
                    forall|u: int| 0 <= u < i ==> ts@[u] != t,
                decreases n - i,
            {
                if ts[i] == t {
                    proof {
                        assert(ts@.contains(t)) by {
                            assert(ts@[i as int] == t);
                        }
                    }
                    return true;
                }
                i = i + 1;
            }
            proof {
                if ts@.contains(t) {
                    let w = choose|w: int| 0 <= w < ts@.len() && ts@[w] == t;
                    assert(ts@[w] != t);
                }
            }
            false
        },
        None => true,
    }
}

/// Serve the vault listing: one row per vault that passes the optional
/// status and txid filters, in map order, each row carrying the vault's
/// amount, status, identity, derivation index, address and last update.
pub fn list_vaults(
    vaults: &Vec<Vault>,
    statuses: &Option<Vec<VaultStatus>>,
    txids: &Option<Vec<Txid>>,
) -> (r: Vec<ListVaultsEntry>)
    ensures
        lv_views(r@) == listed_of(vaults@, *statuses, *txids),
{
    let n = vaults.len();
    let mut out: Vec<ListVaultsEntry> = Vec::new();
    let mut i: usize = 0;
    proof {
        assert(vaults@.subrange(0, 0) =~= Seq::<Vault>::empty());
        reveal(Seq::filter);
        assert(lv_views(out@) =~= listed_of(vaults@.subrange(0, 0), *statuses, *txids));
    }
    while i < n
        invariant
            0 <= i <= n == vaults@.len(),
            lv_views(out@) == listed_of(vaults@.subrange(0, i as int), *statuses, *txids),
        decreases n - i,
    {
        let ghost prefix = vaults@.subrange(0, i as int);
        let v = &vaults[i];
        let passes = if status_passes(statuses, v.status) {
            txid_passes(txids, v.deposit_outpoint.txid)
        } else {
            false
        };
        proof {
            assert(passes == vault_passes(vaults@[i as int], *statuses, *txids));
        }
        if passes {
            let row = ListVaultsEntry {
                amount: v.amount,
                status: v.status,
                deposit_outpoint: v.deposit_outpoint,
                derivation_index: v.derivation_index,
                address: crate::types::clone_string(&v.address),
                updated_at: v.updated_at,
            };
            proof {
                assert(row@ == lv_entry_of(vaults@[i as int]));
            }
            out.push(row);
        }
        proof {
            lemma_listed_push(prefix, vaults@[i as int], *statuses, *txids);
            assert(prefix.push(vaults@[i as int]) =~= vaults@.subrange(0, i + 1));
            assert(lv_views(out@) =~= listed_of(vaults@.subrange(0, i + 1), *statuses, *txids));
        }
        i = i + 1;
    }
    proof {
        assert(vaults@.subrange(0, n as int) =~= vaults@);
    }
    out
}

/// Does the vault map hold a vault deposited at `op`?
pub open spec fn v_has(s: Seq<Vault>, op: Outpoint) -> bool {
    exists|i: int| 0 <= i < s.len() && (#[trigger] s[i]).deposit_outpoint == op
}

/// The index of the vault deposited at `op`.
pub open spec fn v_index(s: Seq<Vault>, op: Outpoint) -> int
    recommends
        v_has(s, op),
{
    choose|i: int| 0 <= i < s.len() && (#[trigger] s[i]).deposit_outpoint == op
}

/// No two vaults share a deposit outpoint.
pub open spec fn unique_vaults(s: Seq<Vault>) -> bool {
    forall|i: int, j: int|
        0 <= i < j < s.len() ==> (#[trigger] s[i]).deposit_outpoint != (
        #[trigger] s[j]).deposit_outpoint
}

/// Move the vault deposited at `op` to status `to`, stamping the update
/// time.
///
/// An unknown outpoint and a status conflict are both reported with the
/// map left exactly as it was — a failed transition never touches any
/// record. On success only the addressed vault changes, and only its
/// status and update time.
#[verifier::loop_isolation(false)]
pub fn advance_vault(vaults: &mut Vec<Vault>, op: Outpoint, to: VaultStatus, now: u32) -> (r:
    Result<(), RpcControlError>)
    requires
        unique_vaults(old(vaults)@),
    ensures
        unique_vaults(final(vaults)@),
        !v_has(old(vaults)@, op) ==> r == Result::<(), RpcControlError>::Err(
            RpcControlError::UnknownOutpoint(op),
        ) && final(vaults)@ == old(vaults)@,
        v_has(old(vaults)@, op) ==> ({
            let i = v_index(old(vaults)@, op);
            let v0 = old(vaults)@[i];
            match prev_status(to) {
                Some(required) => {
                    if v0.status == required {
                        &&& r is Ok
                        &&& final(vaults)@.len() == old(vaults)@.len()
                        &&& (forall|j: int|
                            0 <= j < old(vaults)@.len() && j != i ==> final(vaults)@[j] == old(
                                vaults,
                            )@[j])
                        &&& (final(vaults)@[i])@ == (VaultV { status: to, updated_at: now, ..v0@ })
                    } else {
                        &&& r == Result::<(), RpcControlError>::Err(
                            RpcControlError::InvalidStatus(v0.status, required),
                        )
                        &&& final(vaults)@ == old(vaults)@
                    }
                },
                None => r == Result::<(), RpcControlError>::Err(
                    RpcControlError::InvalidStatus(v0.status, to),
                ) && final(vaults)@ == old(vaults)@,
            }
        }),
{
    let ghost pre = vaults@;
    let n = vaults.len();
    let mut i: usize = 0;
    while i < n
        invariant
            0 <= i <= n == vaults@.len(),
            vaults@ == pre,
            unique_vaults(pre),
            forall|t: int| 0 <= t < i ==> (#[trigger] vaults@[t]).deposit_outpoint != op,
        decreases n - i,
    {
        if vaults[i].deposit_outpoint == op {
            proof {
                assert(v_has(pre, op));
                let w = v_index(pre, op);
                if w != i as int {
                    if w < i as int {
                        assert(pre[w].deposit_outpoint != pre[i as int].deposit_outpoint);
                    } else {
                        assert(pre[i as int].deposit_outpoint != pre[w].deposit_outpoint);
                    }
                }
                assert(v_index(pre, op) == i as int);
            }
            let mut v = vaults.remove(i);
            let outcome = v.advance(to, now);
            vaults.insert(i, v);
            proof {
                assert(vaults@ =~= pre.update(i as int, vaults@[i as int]));
                if outcome is Err {
                    assert(vaults@[i as int] == pre[i as int]);
                    assert(vaults@ =~= pre);
                }
                assert(unique_vaults(vaults@)) by {
                    assert(vaults@[i as int].deposit_outpoint == pre[i as int].deposit_outpoint);
                    assert forall|a: int, b: int|
                        0 <= a < b < vaults@.len() implies (
                    #[trigger] vaults@[a]).deposit_outpoint != (
                    #[trigger] vaults@[b]).deposit_outpoint by {
                        assert(vaults@[a].deposit_outpoint == pre[a].deposit_outpoint);
                        assert(vaults@[b].deposit_outpoint == pre[b].deposit_outpoint);
                    }
                }
            }
            return outcome;
        }
        i = i + 1;
    }
    proof {
        if v_has(pre, op) {
            let w = v_index(pre, op);
            assert(pre[w].deposit_outpoint == op);
            assert(false);
        }
    }
    Err(RpcControlError::UnknownOutpoint(op))
}

} // verus!
