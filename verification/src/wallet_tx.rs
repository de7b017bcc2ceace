//! Wallet-transaction lookups and what the state machine reads off them:
//! the wallet's view of a transaction, mempool membership, whether a
//! transaction is current, and which outgoing transaction spent a watched
//! outpoint.

use vstd::prelude::*;
use vstd::utf8::encode_utf8;

use crate::errors::{BitcoindError, TransportError};
use crate::types::{is_txid_hex, txid_of_hex, Outpoint, Txid};

verus! {

/// The wallet's answer about one transaction, before checking: `hex` and
/// `timereceived` are `None` where absent or ill-typed; the two block
/// fields are `None` where absent, and `Some(None)` where present but not
/// a number — an answer the daemon does not accept at all.
#[derive(Debug)]
pub struct GetTxRaw {
    pub hex: Option<String>,
    pub blockheight: Option<Option<u64>>,
    pub blocktime: Option<Option<u64>>,
    pub timereceived: Option<u64>,
}

/// The wallet's view of one transaction: its raw bytes as hex, when it was
/// first seen, and where it confirmed — both block fields `None` while it
/// is unconfirmed.
#[derive(Debug)]
pub struct WalletTransaction {
    pub hex: String,
    pub received_time: u32,
    pub blockheight: Option<u32>,
    pub blocktime: Option<u32>,
}

/// Read the wallet's answer about a transaction.
///
/// The raw bytes and the reception time are owed: missing either, the
/// answer is a malformed-answer error. The block fields are optional —
/// absent exactly while the transaction is unconfirmed.
pub fn get_wallet_transaction(raw: &GetTxRaw) -> (r: Result<WalletTransaction, BitcoindError>)
    requires
        raw.blockheight matches Some(b) ==> b is Some,
        raw.blocktime matches Some(b) ==> b is Some,
    ensures
        r is Ok <==> raw.hex is Some && raw.timereceived is Some,
        r matches Ok(tx) ==> {
            &&& tx.hex@ == raw.hex->0@
            &&& tx.received_time == raw.timereceived->0 % 0x1_0000_0000
            &&& tx.blockheight == (match raw.blockheight {
                Some(b) => Some((b->0 % 0x1_0000_0000) as u32),
                None => None,
            })
            &&& tx.blocktime == (match raw.blocktime {
                Some(b) => Some((b->0 % 0x1_0000_0000) as u32),
                None => None,
            })
        },
        r matches Err(e) ==> e is Custom,
{
    let hex: String = match &raw.hex {
        Some(h) => crate::types::clone_string(h),
        None => {
            return Err(
                BitcoindError::Custom("no raw bytes in the wallet's transaction answer".to_owned()),
            );
        },
    };
    let received64: u64 = match &raw.timereceived {
        Some(t) => *t,
        None => {
            return Err(
                BitcoindError::Custom(
                    "no or invalid reception time in the wallet's transaction answer".to_owned(),
                ),
            );
        },
    };
    let blockheight: Option<u32> = match &raw.blockheight {
        Some(b) => {
            match b {
                Some(h) => Some(((*h) % 0x1_0000_0000) as u32),
                None => {
                    proof {
                        assert(false);
                    }
                    unreached()
                },
            }
        },
        None => None,
    };
    let blocktime: Option<u32> = match &raw.blocktime {
        Some(b) => {
            match b {
                Some(t) => Some(((*t) % 0x1_0000_0000) as u32),
                None => {
                    proof {
                        assert(false);
                    }
                    unreached()
                },
            }
        },
        None => None,
    };
    Ok(
        WalletTransaction {
            hex,
            received_time: (received64 % 0x1_0000_0000) as u32,
            blockheight,
            blocktime,
        },
    )
}

/// Read a mempool-entry lookup's outcome.
///
/// Any answer means the transaction sits in the mempool; the node's
/// not-found rejection (application error code -5) is the normal negative
/// answer, not an error; every other failure is surfaced.
pub fn is_in_mempool(lookup: Result<(), TransportError>) -> (r: Result<bool, BitcoindError>)
    ensures
        lookup is Ok ==> r == Result::<bool, BitcoindError>::Ok(true),
        lookup matches Err(TransportError::Rpc { code }) && code == -5 ==> r == Result::<
            bool,
            BitcoindError,
        >::Ok(false),
        lookup matches Err(e) ==> (!(e matches TransportError::Rpc { code } && code == -5) ==> r
            == Result::<bool, BitcoindError>::Err(BitcoindError::Server(e))),
{
    match lookup {
        Ok(_) => Ok(true),
        Err(TransportError::Rpc { code }) => {
            if code == -5 {
                Ok(false)
            } else {
                Err(BitcoindError::Server(TransportError::Rpc { code }))
            }
        },
        Err(e) => Err(BitcoindError::Server(e)),
    }
}

/// What is still needed to decide whether a transaction is current.
#[derive(Clone, Copy, PartialEq, Eq, Structural, Debug)]
pub enum CurrentStep {
    /// Not a wallet transaction: not current.
    No,
    /// Confirmed in the wallet: current.
    Yes,
    /// Unconfirmed wallet transaction: current exactly if the mempool
    /// holds it — ask the mempool.
    CheckMempool,
}

/// Decide from the wallet's answer whether a transaction is current: a
/// confirmed wallet transaction is, a non-wallet transaction is not, and
/// an unconfirmed one is settled by a mempool lookup.
pub fn is_current(lookup: &Option<WalletTransaction>) -> (r: CurrentStep)
    ensures
        r == (match lookup {
            Option::None => CurrentStep::No,
            Option::Some(tx) => if tx.blockheight is Some {
                CurrentStep::Yes
            } else {
                CurrentStep::CheckMempool
            },
        }),
{
    match lookup {
        None => CurrentStep::No,
        Some(tx) => {
            if tx.blockheight.is_some() {
                CurrentStep::Yes
            } else {
                CurrentStep::CheckMempool
            }
        },
    }
}

/// One entry of the wallet's since-block transaction listing, unchecked.
#[derive(Debug)]
pub struct LsbEntryRaw {
    pub category: Option<String>,
    pub txid: Option<String>,
}

/// Is this entry an outgoing payment of the wallet?
pub open spec fn is_send_entry(e: LsbEntryRaw) -> bool {
    e.category matches Some(c) && c@ == "send"@
}

/// Does a send entry carry a parsable txid?
pub open spec fn lsb_entry_ok(e: LsbEntryRaw) -> bool {
    e.txid matches Some(t) && is_txid_hex(encode_utf8(t@))
}

/// Every send entry of the listing carries a parsable txid.
pub open spec fn lsb_raws_ok(s: Seq<LsbEntryRaw>) -> bool {
    forall|i: int| 0 <= i < s.len() ==> (is_send_entry(#[trigger] s[i]) ==> lsb_entry_ok(s[i]))
}

/// The txids of the listing's send entries, in listing order.
pub open spec fn send_txids_of(s: Seq<LsbEntryRaw>) -> Seq<Txid> {
    s.filter(|e: LsbEntryRaw| is_send_entry(e)).map_values(
        |e: LsbEntryRaw| txid_of_hex(encode_utf8(e.txid->0@)),
    )
}

/// Appending an entry to the listing appends its txid exactly when it is
/// a send entry.
proof fn lemma_send_txids_push(s: Seq<LsbEntryRaw>, x: LsbEntryRaw)
    ensures
        send_txids_of(s.push(x)) == if is_send_entry(x) {
            send_txids_of(s).push(txid_of_hex(encode_utf8(x.txid->0@)))
        } else {
            send_txids_of(s)
        },
{
    let pred = |e: LsbEntryRaw| is_send_entry(e);
    let f = |e: LsbEntryRaw| txid_of_hex(encode_utf8(e.txid->0@));
    Seq::lemma_filter_push(s, x, pred);
    if pred(x) {
        assert(s.filter(pred).push(x).map_values(f) =~= s.filter(pred).map_values(f).push(f(x)));
    }
}

/// The candidate spenders in a since-block listing: the txids of its
/// outgoing transactions, in order.
///
/// Fails, as a malformed answer, exactly when some send entry lacks a
/// txid or holds one that does not parse; entries of other categories are
/// passed over unread.
pub fn spender_candidates(raws: &Vec<LsbEntryRaw>) -> (r: Result<Vec<Txid>, BitcoindError>)
    ensures
        r is Ok <==> lsb_raws_ok(raws@),
        r matches Ok(v) ==> v@ == send_txids_of(raws@),
        r matches Err(e) ==> e is Custom,
{
    let send_cat: String = "send".to_owned();
    let n = raws.len();
    let mut out: Vec<Txid> = Vec::new();
    let mut i: usize = 0;
    proof {
        assert(raws@.subrange(0, 0) =~= Seq::<LsbEntryRaw>::empty());
        reveal(Seq::filter);
        assert(out@ =~= send_txids_of(raws@.subrange(0, 0)));
    }
    while i < n
        invariant
            0 <= i <= n == raws@.len(),
            send_cat@ == "send"@,
            out@ == send_txids_of(raws@.subrange(0, i as int)),
            forall|t: int|
                0 <= t < i ==> (is_send_entry(#[trigger] raws@[t]) ==> lsb_entry_ok(raws@[t])),
        decreases n - i,
    {
        let ghost prefix = raws@.subrange(0, i as int);
        let e = &raws[i];
        let is_send: bool = match &e.category {
            Some(c) => c.eq(&send_cat),
            None => false,
        };
        proof {
            assert(is_send == is_send_entry(raws@[i as int]));
        }
        if is_send {
            let txid_s: &String = match &e.txid {
                Some(t) => t,
                None => {
                    return Err(
                        BitcoindError::Custom(
                            "no or invalid txid in a since-block listing entry".to_owned(),
                        ),
                    );
                },
            };
            let txid: Txid = match crate::types::txid_from_hex(txid_s.as_str()) {
                Some(t) => t,
                None => {
                    return Err(
                        BitcoindError::Custom(
                            "unparsable txid in a since-block listing entry".to_owned(),
                        ),
                    );
                },
            };
            out.push(txid);
        }
        proof {
            lemma_send_txids_push(prefix, raws@[i as int]);
            assert(prefix.push(raws@[i as int]) =~= raws@.subrange(0, i + 1));
        }
        i = i + 1;
    }
    proof {
        assert(raws@.subrange(0, n as int) =~= raws@);
    }
    Ok(out)
}

/// One decoded input of a wallet transaction, unchecked.
#[derive(Debug)]
pub struct VinRaw {
    pub txid: Option<String>,
    pub vout: Option<u64>,
}

/// Does the decoded input hold a parsable txid and an output index?
pub open spec fn vin_ok(v: VinRaw) -> bool {
    &&& v.txid matches Some(t) && is_txid_hex(encode_utf8(t@))
    &&& v.vout is Some
}

/// The outpoint a decoded input spends.
pub open spec fn vin_op(v: VinRaw) -> Outpoint
    recommends
        vin_ok(v),
{
    Outpoint { txid: txid_of_hex(encode_utf8(v.txid->0@)), vout: (v.vout->0 % 0x1_0000_0000) as u32 }
}

/// Does this transaction spend `spent`? Walks the decoded inputs in order
/// and answers at the first input that matches; an input that does not
/// parse before any match is a malformed answer, exactly as far as it is
/// reached.
pub fn tx_spends(vins: &Vec<VinRaw>, spent: &Outpoint) -> (r: Result<bool, BitcoindError>)
    ensures
        r matches Ok(found) && found ==> exists|j: int|
            0 <= j < vins@.len() && vin_ok(#[trigger] vins@[j]) && vin_op(vins@[j]) == *spent && (
            forall|t: int| 0 <= t < j ==> vin_ok(#[trigger] vins@[t]) && vin_op(vins@[t]) != *spent),
        r matches Ok(found) && !found ==> forall|t: int|
            0 <= t < vins@.len() ==> vin_ok(#[trigger] vins@[t]) && vin_op(vins@[t]) != *spent,
        r is Err ==> (exists|j: int|
            0 <= j < vins@.len() && !vin_ok(#[trigger] vins@[j]) && (forall|t: int|
                0 <= t < j ==> vin_ok(#[trigger] vins@[t]) && vin_op(vins@[t]) != *spent)),
        r matches Err(e) ==> e is Custom,
{
    let n = vins.len();
    let mut i: usize = 0;
    while i < n
        invariant
            0 <= i <= n == vins@.len(),
            forall|t: int| 0 <= t < i ==> vin_ok(#[trigger] vins@[t]) && vin_op(vins@[t]) != *spent,
        decreases n - i,
    {
        let v = &vins[i];
        let txid_s: &String = match &v.txid {
            Some(t) => t,
            None => {
                return Err(
                    BitcoindError::Custom(
                        "no or invalid txid in a decoded transaction input".to_owned(),
                    ),
                );
            },
        };
        let txid: Txid = match crate::types::txid_from_hex(txid_s.as_str()) {
            Some(t) => t,
            None => {
                return Err(
                    BitcoindError::Custom(
                        "unparsable txid in a decoded transaction input".to_owned(),
                    ),
                );
            },
        };
        let vout64: u64 = match &v.vout {
            Some(w) => *w,
            None => {
                return Err(
                    BitcoindError::Custom(
                        "no or invalid output index in a decoded transaction input".to_owned(),
                    ),
                );
            },
        };
        let vout: u32 = (vout64 % 0x1_0000_0000) as u32;
        let op = Outpoint { txid, vout };
        proof {
            assert(vin_ok(vins@[i as int]));
            assert(op == vin_op(vins@[i as int]));
        }
        if op == *spent {
            return Ok(true);
        }
        i = i + 1;
    }
    Ok(false)
}

/// An outgoing wallet transaction with its decoded inputs, fully fetched.
#[derive(Debug)]
pub struct OutgoingTx {
    pub txid: Txid,
    pub vin: Vec<Outpoint>,
}

/// Does the input list name `op`?
pub open spec fn vin_contains(vin: Seq<Outpoint>, op: Outpoint) -> bool {
    exists|i: int| 0 <= i < vin.len() && vin[i] == op
}

/// Identify the transaction that spent `spent`: walk the outgoing
/// transactions in listing order and hand back the txid of the first one
/// whose inputs name the outpoint; `None` when no outgoing transaction in
/// the window spends it.
pub fn get_spender_txid(txs: &Vec<OutgoingTx>, spent: &Outpoint) -> (r: Option<Txid>)
    ensures
        r matches Some(t) ==> exists|j: int|
            0 <= j < txs@.len() && (#[trigger] txs@[j]).txid == t && vin_contains(
                txs@[j].vin@,
                *spent,
            ) && (forall|u: int| 0 <= u < j ==> !vin_contains((#[trigger] txs@[u]).vin@, *spent)),
        r is None <==> forall|j: int|
            0 <= j < txs@.len() ==> !vin_contains((#[trigger] txs@[j]).vin@, *spent),
{
    let n = txs.len();
    let mut i: usize = 0;
    while i < n
        invariant
            0 <= i <= n == txs@.len(),
            forall|j: int| 0 <= j < i ==> !vin_contains((#[trigger] txs@[j]).vin@, *spent),
        decreases n - i,
    {
        let tx = &txs[i];
        let m = tx.vin.len();
        let mut w: usize = 0;
        let mut found: bool = false;
        while w < m
            invariant
                0 <= w <= m == tx.vin@.len(),
                found ==> vin_contains(tx.vin@, *spent),
                !found ==> forall|t: int| 0 <= t < w ==> tx.vin@[t] != *spent,
            decreases m - w,
        {
            if tx.vin[w] == *spent {
                found = true;
                proof {
                    assert(vin_contains(tx.vin@, *spent));
                }
            }
            w = w + 1;
        }
        if found {
            return Some(tx.txid);
        }
        proof {
            if vin_contains(tx.vin@, *spent) {
                let t = choose|t: int| 0 <= t < tx.vin@.len() && tx.vin@[t] == *spent;
                assert(false);
            }
        }
        i = i + 1;
    }
    None
}

} // verus!
