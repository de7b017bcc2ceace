//! Chain reconciliation: diffing what the daemon knows against what the
//! node reports.
//!
//! The node's unspent-output listing arrives as raw entries whose fields
//! may each be missing or ill-typed; parsing classifies them, and the two
//! reconciliation passes — deposits and unvaults — turn the parsed listing
//! and the currently known UTXO set into categorized deltas. Both passes
//! are pure: called twice on the same inputs they return the same deltas.

use vstd::prelude::*;
use vstd::utf8::encode_utf8;

use crate::errors::BitcoindError;
use crate::txrules::spk_of;
use crate::types::{Outpoint, Txid};
use crate::types::{is_txid_hex, txid_of_hex};
use crate::utxomap::{has_op, info_of, op_index, unique_ops};
use crate::utxomap::{Utxo, UtxoInfo, UtxoInfoV, UtxoMap, UtxoV};

verus! {

/// One entry of the node's unspent-output listing, before any checking:
/// each field is `None` where the entry lacks it or holds it with the
/// wrong type. The amount is already in the smallest unit.
#[derive(Debug)]
pub struct UnspentEntryRaw {
    pub txid: Option<String>,
    pub vout: Option<u64>,
    pub label: Option<String>,
    pub confirmations: Option<u64>,
    pub address: Option<String>,
    pub amount_sat: Option<u64>,
}

/// A checked deposit entry of the node's listing.
#[derive(Debug)]
pub struct DepositEntry {
    pub outpoint: Outpoint,
    pub value: u64,
    pub script_pubkey: Vec<u8>,
    pub confirmations: u64,
}

/// The mathematical value of a [`DepositEntry`].
pub struct DepositEntryV {
    pub outpoint: Outpoint,
    pub value: u64,
    pub script_pubkey: Seq<u8>,
    pub confirmations: u64,
}

impl View for DepositEntry {
    type V = DepositEntryV;

    open spec fn view(&self) -> DepositEntryV {
        DepositEntryV {
            outpoint: self.outpoint,
            value: self.value,
            script_pubkey: self.script_pubkey@,
            confirmations: self.confirmations,
        }
    }
}

/// The label under which the watch-only wallet tags deposit outputs.
pub open spec fn deposit_label() -> Seq<char> {
    "revault-deposit"@
}

/// The label under which the watch-only wallet tags unvault outputs.
pub open spec fn unvault_label() -> Seq<char> {
    "revault-unvault"@
}

/// Does the raw entry carry this label?
pub open spec fn labeled(e: UnspentEntryRaw, lbl: Seq<char>) -> bool {
    e.label matches Some(l) && l@ == lbl
}

/// Does the raw entry hold everything a deposit needs, well-formed: a
/// confirmation count, a parsable txid and output index, an address whose
/// script can be derived, and an amount?
pub open spec fn raw_entry_ok(e: UnspentEntryRaw) -> bool {
    &&& e.confirmations is Some
    &&& e.txid matches Some(t) && is_txid_hex(encode_utf8(t@))
    &&& e.vout is Some
    &&& e.address matches Some(a) && spk_of(a@) is Some
    &&& e.amount_sat is Some
}

/// The checked reading of a well-formed raw deposit entry.
pub open spec fn parsed_entry(e: UnspentEntryRaw) -> DepositEntryV
    recommends
        raw_entry_ok(e),
{
    DepositEntryV {
        outpoint: Outpoint {
            txid: txid_of_hex(encode_utf8(e.txid->0@)),
            vout: (e.vout->0 % 0x1_0000_0000) as u32,
        },
        value: e.amount_sat->0,
        script_pubkey: spk_of(e.address->0@)->0,
        confirmations: e.confirmations->0,
    }
}

/// The outpoint a raw entry names, read off its txid and output index.
pub open spec fn parsed_op(e: UnspentEntryRaw) -> Outpoint
    recommends
        e.txid is Some,
        e.vout is Some,
{
    Outpoint {
        txid: txid_of_hex(encode_utf8(e.txid->0@)),
        vout: (e.vout->0 % 0x1_0000_0000) as u32,
    }
}

/// No two deposit-labeled entries of the listing name the same outpoint;
/// what an unspent-output listing guarantees by construction.
pub open spec fn unique_deposit_outpoints(s: Seq<UnspentEntryRaw>) -> bool {
    forall|i: int, j: int|
        0 <= i < j < s.len() && labeled(#[trigger] s[i], deposit_label()) && labeled(
            #[trigger] s[j],
            deposit_label(),
        ) ==> parsed_op(s[i]) != parsed_op(s[j])
}

/// Every deposit-labeled entry of the listing is well-formed.
pub open spec fn deposit_raws_ok(s: Seq<UnspentEntryRaw>) -> bool {
    forall|i: int|
        0 <= i < s.len() ==> (labeled(#[trigger] s[i], deposit_label()) ==> raw_entry_ok(s[i]))
}

/// The checked deposit entries of a listing, in listing order.
pub open spec fn dep_entries_of(s: Seq<UnspentEntryRaw>) -> Seq<DepositEntryV> {
    s.filter(|e: UnspentEntryRaw| labeled(e, deposit_label())).map_values(
        |e: UnspentEntryRaw| parsed_entry(e),
    )
}

/// The views of a vector of checked entries.
pub open spec fn entry_views(s: Seq<DepositEntry>) -> Seq<DepositEntryV> {
    s.map_values(|e: DepositEntry| e@)
}

/// Does the parsed listing hold an entry at `op`?
pub open spec fn entry_has(l: Seq<DepositEntryV>, op: Outpoint) -> bool {
    exists|i: int| 0 <= i < l.len() && (#[trigger] l[i]).outpoint == op
}

/// The listing's entry at `op`.
pub open spec fn entry_at(l: Seq<DepositEntryV>, op: Outpoint) -> DepositEntryV
    recommends
        entry_has(l, op),
{
    l[choose|i: int| 0 <= i < l.len() && (#[trigger] l[i]).outpoint == op]
}

/// No two entries of the listing name the same outpoint; what an
/// unspent-output listing guarantees by construction.
pub open spec fn unique_entry_ops(l: Seq<DepositEntryV>) -> bool {
    forall|i: int, j: int|
        0 <= i < j < l.len() ==> (#[trigger] l[i]).outpoint != (#[trigger] l[j]).outpoint
}

/// The UTXO a brand-new deposit entry is recorded as: always unconfirmed,
/// whatever confirmation count the node reported.
pub open spec fn unconf_utxo(e: DepositEntryV) -> UtxoV {
    UtxoV {
        outpoint: e.outpoint,
        info: UtxoInfoV { value: e.value, script_pubkey: e.script_pubkey, is_confirmed: false },
    }
}

/// The deposits the node lists that the daemon does not know yet.
pub open spec fn new_unconf_of(k: Seq<UtxoV>, l: Seq<DepositEntryV>) -> Seq<UtxoV> {
    l.filter(|e: DepositEntryV| !has_op(k, e.outpoint)).map_values(
        |e: DepositEntryV| unconf_utxo(e),
    )
}

/// The known deposits, believed unconfirmed, that the node now lists with
/// enough confirmations; carried with the daemon's recorded info.
pub open spec fn new_conf_of(k: Seq<UtxoV>, l: Seq<DepositEntryV>, min_conf: u32) -> Seq<UtxoV> {
    k.filter(
        |u: UtxoV|
            !u.info.is_confirmed && entry_has(l, u.outpoint) && entry_at(
                l,
                u.outpoint,
            ).confirmations >= min_conf,
    )
}

/// The known deposits absent from the node's unspent listing: by
/// construction of that listing, they have been spent.
pub open spec fn new_spent_of(k: Seq<UtxoV>, l: Seq<DepositEntryV>) -> Seq<UtxoV> {
    k.filter(|u: UtxoV| !entry_has(l, u.outpoint))
}

/// Appending a raw entry to a listing appends its checked reading to the
/// checked entries when it carries the deposit label, and changes nothing
/// otherwise.
proof fn lemma_dep_entries_push(s: Seq<UnspentEntryRaw>, x: UnspentEntryRaw)
    ensures
        dep_entries_of(s.push(x)) == if labeled(x, deposit_label()) {
            dep_entries_of(s).push(parsed_entry(x))
        } else {
            dep_entries_of(s)
        },
{
    let pred = |e: UnspentEntryRaw| labeled(e, deposit_label());
    let f = |e: UnspentEntryRaw| parsed_entry(e);
    Seq::lemma_filter_push(s, x, pred);
    if pred(x) {
        assert(s.filter(pred).push(x).map_values(f) =~= s.filter(pred).map_values(f).push(f(x)));
    }
}

/// Membership in `new_unconf_of`: exactly the listed outpoints the daemon
/// does not know, recorded unconfirmed with the entry's value and script.
proof fn lemma_new_unconf_mem(k: Seq<UtxoV>, l: Seq<DepositEntryV>, op: Outpoint)
    requires
        unique_entry_ops(l),
    ensures
        has_op(new_unconf_of(k, l), op) <==> (entry_has(l, op) && !has_op(k, op)),
        has_op(new_unconf_of(k, l), op) ==> info_of(new_unconf_of(k, l), op) == unconf_utxo(
            entry_at(l, op),
        ).info,
        unique_ops(new_unconf_of(k, l)),
    decreases l.len(),
{
    let pred = |e: DepositEntryV| !has_op(k, e.outpoint);
    let f = |e: DepositEntryV| unconf_utxo(e);
    let out = new_unconf_of(k, l);
    if l.len() == 0 {
        reveal(Seq::filter);
        assert(out =~= Seq::<UtxoV>::empty());
        if has_op(out, op) {
            let j = op_index(out, op);
            assert(0 <= j < out.len());
        }
    } else {
        let rest = l.drop_last();
        let last = l.last();
        assert(rest.push(last) =~= l);
        lemma_new_unconf_mem(k, rest, op);
        lemma_new_unconf_mem(k, rest, last.outpoint);
        Seq::lemma_filter_push(rest, last, pred);
        let prev = new_unconf_of(k, rest);
        if entry_has(rest, last.outpoint) {
            let i = choose|i: int|
                0 <= i < rest.len() && (#[trigger] rest[i]).outpoint == last.outpoint;
            assert(l[i].outpoint == l[l.len() - 1].outpoint);
            assert(false);
        }
        if pred(last) {
            assert(rest.filter(pred).push(last).map_values(f) =~= rest.filter(pred).map_values(
                f,
            ).push(f(last)));
            assert(out =~= prev.push(f(last)));
            lemma_has_op_push(prev, f(last), op);
            // `last`'s outpoint is fresh in `prev`, so uniqueness carries.
            assert(!has_op(prev, last.outpoint));
            assert(unique_ops(out)) by {
                assert forall|i1: int, j1: int|
                    0 <= i1 < j1 < out.len() implies (#[trigger] out[i1]).outpoint
                    != (#[trigger] out[j1]).outpoint by {
                    if j1 == out.len() - 1 {
                        assert(out[i1] == prev[i1]);
                        if prev[i1].outpoint == last.outpoint {
                            assert(has_op(prev, last.outpoint));
                        }
                    } else {
                        assert(out[i1] == prev[i1] && out[j1] == prev[j1]);
                    }
                }
            }
        } else {
            assert(out =~= prev);
        }
        if entry_has(l, op) && !has_op(k, op) {
            let i = choose|i: int| 0 <= i < l.len() && (#[trigger] l[i]).outpoint == op;
            if i < rest.len() {
                assert(rest[i].outpoint == op);
                assert(entry_has(rest, op));
            } else {
                assert(last.outpoint == op);
                assert(pred(last));
                assert(has_op(out, op)) by {
                    lemma_has_op_push(prev, f(last), op);
                }
            }
        }
        if entry_has(rest, op) {
            let i = choose|i: int| 0 <= i < rest.len() && (#[trigger] rest[i]).outpoint == op;
            assert(l[i].outpoint == op);
            assert(entry_has(l, op));
        }
        if has_op(out, op) {
            // The recorded info is the one of the listing's entry at `op`.
            let j = op_index(out, op);
            assert(out[j].outpoint == op);
            if pred(last) && last.outpoint == op {
                assert(!has_op(prev, op));
                if j < prev.len() {
                    assert(prev[j].outpoint == op);
                    assert(false);
                }
                assert(out[j] == f(last));
                lemma_entry_at_unique(l, op, l.len() - 1);
            } else {
                if j == prev.len() && pred(last) {
                    assert(out[j] == f(last));
                    assert(false);
                }
                assert(out[j] == prev[j]);
                assert(has_op(prev, op));
                let jp = op_index(prev, op);
                assert(prev[jp].outpoint == op);
                if j != jp {
                    if j < jp {
                        assert(prev[j].outpoint != prev[jp].outpoint);
                    } else {
                        assert(prev[jp].outpoint != prev[j].outpoint);
                    }
                }
                lemma_entry_at_same(rest, l, op);
            }
        }
    }
}

/// If `l[w]` sits at `op` and outpoints are unique, `entry_at(l, op)` is
/// `l[w]`.
proof fn lemma_entry_at_unique(l: Seq<DepositEntryV>, op: Outpoint, w: int)
    requires
        unique_entry_ops(l),
        0 <= w < l.len(),
        l[w].outpoint == op,
    ensures
        entry_has(l, op),
        entry_at(l, op) == l[w],
{
    assert(entry_has(l, op));
    let i = choose|i: int| 0 <= i < l.len() && (#[trigger] l[i]).outpoint == op;
    if i != w {
        if i < w {
            assert(l[i].outpoint != l[w].outpoint);
        } else {
            assert(l[w].outpoint != l[i].outpoint);
        }
    }
}

/// `entry_at` agrees between a listing and the same listing with one more
/// entry, at outpoints the shorter one holds.
proof fn lemma_entry_at_same(rest: Seq<DepositEntryV>, l: Seq<DepositEntryV>, op: Outpoint)
    requires
        unique_entry_ops(l),
        l.len() == rest.len() + 1,
        forall|t: int| 0 <= t < rest.len() ==> rest[t] == l[t],
        entry_has(rest, op),
    ensures
        entry_has(l, op),
        entry_at(l, op) == entry_at(rest, op),
{
    let i = choose|i: int| 0 <= i < rest.len() && (#[trigger] rest[i]).outpoint == op;
    assert(l[i].outpoint == op);
    lemma_entry_at_unique(l, op, i);
    let ir = choose|t: int| 0 <= t < rest.len() && (#[trigger] rest[t]).outpoint == op;
    if ir != i {
        assert(l[ir].outpoint == op && l[i].outpoint == op);
        lemma_entry_at_unique(l, op, ir);
    }
    assert(entry_at(rest, op) == rest[ir]);
    assert(rest[ir] == l[ir]);
    assert(entry_at(l, op) == l[ir] || entry_at(l, op) == l[i]);
}

/// Membership after a push.
proof fn lemma_has_op_push(s: Seq<UtxoV>, u: UtxoV, op: Outpoint)
    ensures
        has_op(s.push(u), op) <==> (has_op(s, op) || u.outpoint == op),
{
    if has_op(s, op) {
        let i = op_index(s, op);
        assert(s.push(u)[i].outpoint == op);
    }
    if u.outpoint == op {
        assert(s.push(u)[s.len() as int].outpoint == op);
    }
    if has_op(s.push(u), op) {
        let i = op_index(s.push(u), op);
        if i < s.len() {
            assert(s[i].outpoint == op);
        }
    }
}

/// If `s[w]` sits at `op` and outpoints are unique, the recorded info at
/// `op` is `s[w]`'s.
proof fn lemma_info_at_unique(s: Seq<UtxoV>, op: Outpoint, w: int)
    requires
        unique_ops(s),
        0 <= w < s.len(),
        s[w].outpoint == op,
    ensures
        has_op(s, op),
        info_of(s, op) == s[w].info,
        op_index(s, op) == w,
{
    assert(has_op(s, op));
    let i = op_index(s, op);
    assert(0 <= i < s.len() && s[i].outpoint == op);
    if i != w {
        if i < w {
            assert(s[i].outpoint != s[w].outpoint);
        } else {
            assert(s[w].outpoint != s[i].outpoint);
        }
    }
}

/// Membership in `new_spent_of`: exactly the known outpoints the node no
/// longer lists, carried with the daemon's recorded info.
proof fn lemma_new_spent_mem(k: Seq<UtxoV>, l: Seq<DepositEntryV>, op: Outpoint)
    requires
        unique_ops(k),
    ensures
        has_op(new_spent_of(k, l), op) <==> (has_op(k, op) && !entry_has(l, op)),
        has_op(new_spent_of(k, l), op) ==> info_of(new_spent_of(k, l), op) == info_of(k, op),
        unique_ops(new_spent_of(k, l)),
    decreases k.len(),
{
    let pred = |u: UtxoV| !entry_has(l, u.outpoint);
    let out = new_spent_of(k, l);
    if k.len() == 0 {
        reveal(Seq::filter);
        assert(out =~= Seq::<UtxoV>::empty());
    } else {
        let rest = k.drop_last();
        let last = k.last();
        assert(rest.push(last) =~= k);
        lemma_new_spent_mem(rest, l, op);
        lemma_new_spent_mem(rest, l, last.outpoint);
        Seq::lemma_filter_push(rest, last, pred);
        let prev = new_spent_of(rest, l);
        if has_op(rest, last.outpoint) {
            let i = op_index(rest, last.outpoint);
            assert(k[i].outpoint == k[k.len() - 1].outpoint);
            assert(false);
        }
        if pred(last) {
            assert(out =~= prev.push(last));
            lemma_has_op_push(prev, last, op);
            assert(!has_op(prev, last.outpoint));
            assert(unique_ops(out)) by {
                assert forall|i1: int, j1: int|
                    0 <= i1 < j1 < out.len() implies (#[trigger] out[i1]).outpoint
                    != (#[trigger] out[j1]).outpoint by {
                    if j1 == out.len() - 1 {
                        assert(out[i1] == prev[i1]);
                        if prev[i1].outpoint == last.outpoint {
                            assert(has_op(prev, last.outpoint));
                        }
                    } else {
                        assert(out[i1] == prev[i1] && out[j1] == prev[j1]);
                    }
                }
            }
        } else {
            assert(out =~= prev);
        }
        if has_op(k, op) && !entry_has(l, op) {
            let i = op_index(k, op);
            if i < rest.len() {
                assert(rest[i].outpoint == op);
                assert(has_op(rest, op));
            } else {
                assert(last.outpoint == op && pred(last));
                lemma_has_op_push(prev, last, op);
            }
        }
        if has_op(rest, op) {
            let i = op_index(rest, op);
            assert(k[i].outpoint == op);
            assert(has_op(k, op));
        }
        if has_op(out, op) {
            let j = op_index(out, op);
            assert(out[j].outpoint == op);
            if pred(last) && last.outpoint == op {
                assert(!has_op(prev, op));
                if j < prev.len() {
                    assert(prev[j].outpoint == op);
                    assert(false);
                }
                assert(out[j] == last);
                lemma_info_at_unique(k, op, k.len() - 1);
                assert(info_of(out, op) == last.info);
            } else {
                if pred(last) && j == prev.len() {
                    assert(out[j] == last);
                    assert(false);
                }
                assert(out[j] == prev[j]);
                assert(has_op(prev, op));
                let jp = op_index(prev, op);
                if j != jp {
                    if j < jp {
                        assert(prev[j].outpoint != prev[jp].outpoint);
                    } else {
                        assert(prev[jp].outpoint != prev[j].outpoint);
                    }
                }
                assert(info_of(out, op) == info_of(prev, op));
                // info over rest agrees with info over k
                let w = op_index(rest, op);
                assert(rest[w].outpoint == op);
                lemma_info_at_unique(rest, op, w);
                assert(k[w] == rest[w]);
                lemma_info_at_unique(k, op, w);
            }
        }
    }
}

/// Membership in `new_conf_of`: exactly the known, still-unconfirmed
/// outpoints the node lists with enough confirmations, carried with the
/// daemon's recorded info.
proof fn lemma_new_conf_mem(k: Seq<UtxoV>, l: Seq<DepositEntryV>, m: u32, op: Outpoint)
    requires
        unique_ops(k),
    ensures
        has_op(new_conf_of(k, l, m), op) <==> (has_op(k, op) && !info_of(k, op).is_confirmed
            && entry_has(l, op) && entry_at(l, op).confirmations >= m),
        has_op(new_conf_of(k, l, m), op) ==> info_of(new_conf_of(k, l, m), op) == info_of(k, op),
        unique_ops(new_conf_of(k, l, m)),
    decreases k.len(),
{
    let pred = |u: UtxoV|
        !u.info.is_confirmed && entry_has(l, u.outpoint) && entry_at(
            l,
            u.outpoint,
        ).confirmations >= m;
    let out = new_conf_of(k, l, m);
    if k.len() == 0 {
        reveal(Seq::filter);
        assert(out =~= Seq::<UtxoV>::empty());
    } else {
        let rest = k.drop_last();
        let last = k.last();
        assert(rest.push(last) =~= k);
        lemma_new_conf_mem(rest, l, m, op);
        lemma_new_conf_mem(rest, l, m, last.outpoint);
        Seq::lemma_filter_push(rest, last, pred);
        let prev = new_conf_of(rest, l, m);
        if has_op(rest, last.outpoint) {
            let i = op_index(rest, last.outpoint);
            assert(k[i].outpoint == k[k.len() - 1].outpoint);
            assert(false);
        }
        if pred(last) {
            assert(out =~= prev.push(last));
            lemma_has_op_push(prev, last, op);
            assert(!has_op(prev, last.outpoint));
            assert(unique_ops(out)) by {
                assert forall|i1: int, j1: int|
                    0 <= i1 < j1 < out.len() implies (#[trigger] out[i1]).outpoint
                    != (#[trigger] out[j1]).outpoint by {
                    if j1 == out.len() - 1 {
                        assert(out[i1] == prev[i1]);
                        if prev[i1].outpoint == last.outpoint {
                            assert(has_op(prev, last.outpoint));
                        }
                    } else {
                        assert(out[i1] == prev[i1] && out[j1] == prev[j1]);
                    }
                }
            }
        } else {
            assert(out =~= prev);
        }
        if has_op(rest, op) {
            let i = op_index(rest, op);
            assert(k[i].outpoint == op);
            assert(has_op(k, op));
            lemma_info_at_unique(rest, op, i);
            assert(k[i] == rest[i]);
            lemma_info_at_unique(k, op, i);
            assert(info_of(rest, op) == info_of(k, op));
        }
        if has_op(k, op) && !info_of(k, op).is_confirmed && entry_has(l, op) && entry_at(
            l,
            op,
        ).confirmations >= m {
            let i = op_index(k, op);
            if i < rest.len() {
                assert(rest[i].outpoint == op);
                assert(has_op(rest, op));
            } else {
                lemma_info_at_unique(k, op, k.len() - 1);
                assert(pred(last));
                lemma_has_op_push(prev, last, op);
            }
        }
        if has_op(out, op) {
            let j = op_index(out, op);
            assert(out[j].outpoint == op);
            if pred(last) && last.outpoint == op {
                assert(!has_op(prev, op));
                if j < prev.len() {
                    assert(prev[j].outpoint == op);
                    assert(false);
                }
                assert(out[j] == last);
                lemma_info_at_unique(k, op, k.len() - 1);
                assert(info_of(out, op) == last.info);
            } else {
                if pred(last) && j == prev.len() {
                    assert(out[j] == last);
                    assert(false);
                }
                assert(out[j] == prev[j]);
                assert(has_op(prev, op));
                let jp = op_index(prev, op);
                if j != jp {
                    if j < jp {
                        assert(prev[j].outpoint != prev[jp].outpoint);
                    } else {
                        assert(prev[jp].outpoint != prev[j].outpoint);
                    }
                }
                assert(info_of(out, op) == info_of(prev, op));
            }
        }
    }
}


/// Extending the listing by one entry extends `new_unconf_of` exactly when
/// the entry's outpoint is unknown.
proof fn lemma_new_unconf_push(k: Seq<UtxoV>, l: Seq<DepositEntryV>, e: DepositEntryV)
    ensures
        new_unconf_of(k, l.push(e)) == if !has_op(k, e.outpoint) {
            new_unconf_of(k, l).push(unconf_utxo(e))
        } else {
            new_unconf_of(k, l)
        },
{
    let pred = |x: DepositEntryV| !has_op(k, x.outpoint);
    let f = |x: DepositEntryV| unconf_utxo(x);
    Seq::lemma_filter_push(l, e, pred);
    if pred(e) {
        assert(l.filter(pred).push(e).map_values(f) =~= l.filter(pred).map_values(f).push(f(e)));
    }
}

/// Extending the known set by one entry extends `new_conf_of` exactly when
/// that entry is unconfirmed and listed with enough confirmations.
proof fn lemma_new_conf_push(k: Seq<UtxoV>, l: Seq<DepositEntryV>, m: u32, u: UtxoV)
    ensures
        new_conf_of(k.push(u), l, m) == if !u.info.is_confirmed && entry_has(l, u.outpoint)
            && entry_at(l, u.outpoint).confirmations >= m {
            new_conf_of(k, l, m).push(u)
        } else {
            new_conf_of(k, l, m)
        },
{
    let pred = |x: UtxoV|
        !x.info.is_confirmed && entry_has(l, x.outpoint) && entry_at(
            l,
            x.outpoint,
        ).confirmations >= m;
    Seq::lemma_filter_push(k, u, pred);
}

/// Extending the known set by one entry extends `new_spent_of` exactly
/// when that entry's outpoint is not listed.
proof fn lemma_new_spent_push(k: Seq<UtxoV>, l: Seq<DepositEntryV>, u: UtxoV)
    ensures
        new_spent_of(k.push(u), l) == if !entry_has(l, u.outpoint) {
            new_spent_of(k, l).push(u)
        } else {
            new_spent_of(k, l)
        },
{
    let pred = |x: UtxoV| !entry_has(l, x.outpoint);
    Seq::lemma_filter_push(k, u, pred);
}

/// Check the node's unspent listing and keep its deposit entries.
///
/// Fails, with the daemon's malformed-answer error, exactly when some
/// deposit-labeled entry lacks a field or holds one that does not parse;
/// entries under other labels are passed over unread.
pub fn parse_deposit_entries(raws: &Vec<UnspentEntryRaw>) -> (r: Result<
    Vec<DepositEntry>,
    BitcoindError,
>)
    ensures
        r is Ok <==> deposit_raws_ok(raws@),
        r matches Ok(v) ==> entry_views(v@) == dep_entries_of(raws@),
        r matches Err(e) ==> e is Custom,
{
    let dep_label: String = "revault-deposit".to_owned();
    proof {
        assert(dep_label@ == deposit_label());
    }
    let n = raws.len();
    let mut out: Vec<DepositEntry> = Vec::new();
    let mut i: usize = 0;
    proof {
        assert(raws@.subrange(0, 0) =~= Seq::<UnspentEntryRaw>::empty());
        reveal(Seq::filter);
        assert(entry_views(out@) =~= dep_entries_of(raws@.subrange(0, 0)));
    }
    while i < n
        invariant
            0 <= i <= n == raws@.len(),
            dep_label@ == deposit_label(),
            entry_views(out@) == dep_entries_of(raws@.subrange(0, i as int)),
            forall|t: int|
                0 <= t < i ==> (labeled(#[trigger] raws@[t], deposit_label()) ==> raw_entry_ok(
                    raws@[t],
                )),
        decreases n - i,
    {
        let ghost prefix = raws@.subrange(0, i as int);
        let e = &raws[i];
        let is_dep: bool = match &e.label {
            Some(l) => l.eq(&dep_label),
            None => false,
        };
        proof {
            assert(is_dep == labeled(raws@[i as int], deposit_label()));
        }
        if is_dep {
            let confs: u64 = match &e.confirmations {
                Some(c) => *c,
                None => {
                    proof {
                        assert(!raw_entry_ok(raws@[i as int]));
                    }
                    return Err(
                        BitcoindError::Custom(
                            "no or invalid confirmation count in an unspent entry".to_owned(),
                        ),
                    );
                },
            };
            let txid_s: &String = match &e.txid {
                Some(t) => t,
                None => {
                    return Err(
                        BitcoindError::Custom("no or invalid txid in an unspent entry".to_owned()),
                    );
                },
            };
            let txid: Txid = match crate::types::txid_from_hex(txid_s.as_str()) {
                Some(t) => t,
                None => {
                    return Err(
                        BitcoindError::Custom("unparsable txid in an unspent entry".to_owned()),
                    );
                },
            };
            let vout64: u64 = match &e.vout {
                Some(v) => *v,
                None => {
                    return Err(
                        BitcoindError::Custom(
                            "no or invalid output index in an unspent entry".to_owned(),
                        ),
                    );
                },
            };
            let vout: u32 = (vout64 % 0x1_0000_0000) as u32;
            let addr: &String = match &e.address {
                Some(a) => a,
                None => {
                    return Err(
                        BitcoindError::Custom(
                            "no or invalid address in an unspent entry".to_owned(),
                        ),
                    );
                },
            };
            let spk: Vec<u8> = match crate::txrules::address_script_pubkey(addr.as_str()) {
                Some(s) => s,
                None => {
                    return Err(
                        BitcoindError::Custom("unparsable address in an unspent entry".to_owned()),
                    );
                },
            };
            let amount: u64 = match &e.amount_sat {
                Some(v) => *v,
                None => {
                    return Err(
                        BitcoindError::Custom(
                            "no or invalid amount in an unspent entry".to_owned(),
                        ),
                    );
                },
            };
            let entry = DepositEntry {
                outpoint: Outpoint { txid, vout },
                value: amount,
                script_pubkey: spk,
                confirmations: confs,
            };
            proof {
                assert(raw_entry_ok(raws@[i as int]));
                assert(entry@ == parsed_entry(raws@[i as int]));
            }
            out.push(entry);
            proof {
                lemma_dep_entries_push(prefix, raws@[i as int]);
                assert(prefix.push(raws@[i as int]) =~= raws@.subrange(0, i + 1));
                assert(entry_views(out@) =~= dep_entries_of(raws@.subrange(0, i + 1)));
            }
        } else {
            proof {
                lemma_dep_entries_push(prefix, raws@[i as int]);
                assert(prefix.push(raws@[i as int]) =~= raws@.subrange(0, i + 1));
                assert(entry_views(out@) =~= dep_entries_of(raws@.subrange(0, i + 1)));
            }
        }
        i = i + 1;
    }
    proof {
        assert(raws@.subrange(0, n as int) =~= raws@);
    }
    Ok(out)
}


/// Distinct outpoints among the deposit-labeled raw entries carry over
/// to the checked entries.
proof fn lemma_dep_entries_unique(s: Seq<UnspentEntryRaw>)
    requires
        unique_deposit_outpoints(s),
    ensures
        unique_entry_ops(dep_entries_of(s)),
        forall|t: int|
            #![trigger dep_entries_of(s)[t]]
            0 <= t < dep_entries_of(s).len() ==> exists|w: int|
                0 <= w < s.len() && labeled(#[trigger] s[w], deposit_label()) && dep_entries_of(
                    s,
                )[t] == parsed_entry(s[w]),
    decreases s.len(),
{
    let out = dep_entries_of(s);
    if s.len() == 0 {
        reveal(Seq::filter);
        assert(out =~= Seq::<DepositEntryV>::empty());
    } else {
        let rest = s.drop_last();
        let x = s.last();
        assert(rest.push(x) =~= s);
        assert(unique_deposit_outpoints(rest)) by {
            assert forall|i: int, j: int|
                0 <= i < j < rest.len() && labeled(#[trigger] rest[i], deposit_label()) && labeled(
                    #[trigger] rest[j],
                    deposit_label(),
                ) implies parsed_op(rest[i]) != parsed_op(rest[j]) by {
                assert(rest[i] == s[i] && rest[j] == s[j]);
            }
        }
        lemma_dep_entries_unique(rest);
        lemma_dep_entries_push(rest, x);
        let prev = dep_entries_of(rest);
        if labeled(x, deposit_label()) {
            assert(out == prev.push(parsed_entry(x)));
            assert forall|i1: int, j1: int|
                0 <= i1 < j1 < out.len() implies (#[trigger] out[i1]).outpoint
                != (#[trigger] out[j1]).outpoint by {
                if j1 == out.len() - 1 {
                    assert(out[i1] == prev[i1]);
                    assert(0 <= i1 < dep_entries_of(rest).len());
                    let w = choose|w: int|
                        0 <= w < rest.len() && labeled(#[trigger] rest[w], deposit_label())
                            && dep_entries_of(rest)[i1] == parsed_entry(rest[w]);
                    assert(s[w] == rest[w]);
                    assert(labeled(s[w], deposit_label()) && labeled(
                        s[s.len() - 1],
                        deposit_label(),
                    ));
                    assert(parsed_op(s[w]) != parsed_op(s[s.len() - 1]));
                    assert(parsed_entry(s[w]).outpoint == parsed_op(s[w]));
                } else {
                    assert(out[i1] == prev[i1] && out[j1] == prev[j1]);
                }
            }
            assert forall|t: int|
                #![trigger dep_entries_of(s)[t]]
                0 <= t < dep_entries_of(s).len() implies exists|w: int|
                0 <= w < s.len() && labeled(#[trigger] s[w], deposit_label()) && dep_entries_of(
                    s,
                )[t] == parsed_entry(s[w]) by {
                if t < prev.len() {
                    assert(0 <= t < dep_entries_of(rest).len());
                    let w = choose|w: int|
                        0 <= w < rest.len() && labeled(#[trigger] rest[w], deposit_label())
                            && dep_entries_of(rest)[t] == parsed_entry(rest[w]);
                    assert(s[w] == rest[w]);
                    assert(out[t] == prev[t]);
                    assert(labeled(s[w], deposit_label()) && out[t] == parsed_entry(s[w]));
                } else {
                    let w = s.len() - 1;
                    assert(labeled(s[w], deposit_label()) && out[t] == parsed_entry(s[w]));
                }
            }
        } else {
            assert(out == prev);
            assert forall|t: int|
                #![trigger dep_entries_of(s)[t]]
                0 <= t < dep_entries_of(s).len() implies exists|w: int|
                0 <= w < s.len() && labeled(#[trigger] s[w], deposit_label()) && dep_entries_of(
                    s,
                )[t] == parsed_entry(s[w]) by {
                let w = choose|w: int|
                    0 <= w < rest.len() && labeled(#[trigger] rest[w], deposit_label()) && prev[t]
                        == parsed_entry(rest[w]);
                assert(s[w] == rest[w]);
                assert(labeled(s[w], deposit_label()) && out[t] == parsed_entry(s[w]));
            }
        }
    }
}

/// The index of the parsed entry at `op`, if the listing holds one.
fn find_entry(entries: &Vec<DepositEntry>, op: Outpoint) -> (r: Option<usize>)
    ensures
        r matches Some(j) ==> j < entries@.len() && entry_views(entries@)[j as int].outpoint == op,
        r is None ==> !entry_has(entry_views(entries@), op),
{
    let n = entries.len();
    let mut i: usize = 0;
    while i < n
        invariant
            0 <= i <= n == entries@.len(),
            forall|t: int|
                0 <= t < i ==> (#[trigger] entry_views(entries@)[t]).outpoint != op,
        decreases n - i,
    {
        if entries[i].outpoint == op {
            return Some(i);
        }
        proof {
            assert(entry_views(entries@)[i as int] == entries@[i as int]@);
        }
        i = i + 1;
    }
    None
}

/// The deposits the node lists that the daemon does not know yet, each
/// recorded unconfirmed.
fn collect_new_unconf(known: &UtxoMap, entries: &Vec<DepositEntry>) -> (out: UtxoMap)
    requires
        known.wf(),
        unique_entry_ops(entry_views(entries@)),
    ensures
        out@ == new_unconf_of(known@, entry_views(entries@)),
        out.wf(),
{
    let ghost lv = entry_views(entries@);
    let n = entries.len();
    let mut out = UtxoMap::new();
    let mut i: usize = 0;
    proof {
        reveal(Seq::filter);
        assert(lv.subrange(0, 0) =~= Seq::<DepositEntryV>::empty());
        assert(out@ =~= new_unconf_of(known@, lv.subrange(0, 0)));
    }
    while i < n
        invariant
            0 <= i <= n == entries@.len(),
            lv == entry_views(entries@),
            known.wf(),
            unique_entry_ops(lv),
            out@ == new_unconf_of(known@, lv.subrange(0, i as int)),
            out.wf(),
        decreases n - i,
    {
        let ghost prefix = lv.subrange(0, i as int);
        let e = &entries[i];
        proof {
            assert(lv[i as int] == entries@[i as int]@);
        }
        if !known.contains(e.outpoint) {
            let info = UtxoInfo {
                value: e.value,
                script_pubkey: crate::utxomap::clone_bytes(&e.script_pubkey),
                is_confirmed: false,
            };
            let u = Utxo { outpoint: e.outpoint, info };
            proof {
                assert(u@ == unconf_utxo(lv[i as int]));
                if has_op(out@, u.outpoint) {
                    lemma_new_unconf_mem(known@, prefix, u.outpoint);
                    let t = choose|t: int|
                        0 <= t < prefix.len() && (#[trigger] prefix[t]).outpoint == u.outpoint;
                    assert(lv[t].outpoint == lv[i as int].outpoint);
                    assert(false);
                }
            }
            out.push_entry(u);
        }
        proof {
            lemma_new_unconf_push(known@, prefix, lv[i as int]);
            assert(prefix.push(lv[i as int]) =~= lv.subrange(0, i + 1));
        }
        i = i + 1;
    }
    proof {
        assert(lv.subrange(0, n as int) =~= lv);
    }
    out
}

/// The known deposits, believed unconfirmed, that the node now lists with
/// at least `min_conf` confirmations.
fn collect_new_conf(known: &UtxoMap, entries: &Vec<DepositEntry>, min_conf: u32) -> (out: UtxoMap)
    requires
        known.wf(),
        unique_entry_ops(entry_views(entries@)),
    ensures
        out@ == new_conf_of(known@, entry_views(entries@), min_conf),
        out.wf(),
{
    let ghost lv = entry_views(entries@);
    let n = known.len();
    let mut out = UtxoMap::new();
    let mut i: usize = 0;
    proof {
        reveal(Seq::filter);
        assert(known@.subrange(0, 0) =~= Seq::<UtxoV>::empty());
        assert(out@ =~= new_conf_of(known@.subrange(0, 0), lv, min_conf));
    }
    while i < n
        invariant
            0 <= i <= n == known@.len(),
            lv == entry_views(entries@),
            known.wf(),
            unique_entry_ops(lv),
            out@ == new_conf_of(known@.subrange(0, i as int), lv, min_conf),
            out.wf(),
        decreases n - i,
    {
        let ghost kpre = known@.subrange(0, i as int);
        let u = known.entry_at(i);
        let eligible: bool = if u.info.is_confirmed {
            false
        } else {
            match find_entry(entries, u.outpoint) {
                Some(j) => {
                    proof {
                        lemma_entry_at_unique(lv, u.outpoint, j as int);
                    }
                    entries[j].confirmations >= (min_conf as u64)
                },
                None => false,
            }
        };
        proof {
            assert(eligible == (!known@[i as int].info.is_confirmed && entry_has(
                lv,
                known@[i as int].outpoint,
            ) && entry_at(lv, known@[i as int].outpoint).confirmations >= min_conf));
        }
        if eligible {
            let info = UtxoInfo {
                value: u.info.value,
                script_pubkey: crate::utxomap::clone_bytes(&u.info.script_pubkey),
                is_confirmed: u.info.is_confirmed,
            };
            let copied = Utxo { outpoint: u.outpoint, info };
            proof {
                assert(copied@ == known@[i as int]);
                assert(unique_ops(kpre));
                if has_op(out@, copied.outpoint) {
                    lemma_new_conf_mem(kpre, lv, min_conf, copied.outpoint);
                    let t = choose|t: int|
                        0 <= t < kpre.len() && (#[trigger] kpre[t]).outpoint == copied.outpoint;
                    assert(known@[t].outpoint == known@[i as int].outpoint);
                    assert(false);
                }
            }
            out.push_entry(copied);
        }
        proof {
            lemma_new_conf_push(kpre, lv, min_conf, known@[i as int]);
            assert(kpre.push(known@[i as int]) =~= known@.subrange(0, i + 1));
        }
        i = i + 1;
    }
    proof {
        assert(known@.subrange(0, n as int) =~= known@);
    }
    out
}

/// The known deposits the node's unspent listing no longer names.
fn collect_new_spent(known: &UtxoMap, entries: &Vec<DepositEntry>) -> (out: UtxoMap)
    requires
        known.wf(),
        unique_entry_ops(entry_views(entries@)),
    ensures
        out@ == new_spent_of(known@, entry_views(entries@)),
        out.wf(),
{
    let ghost lv = entry_views(entries@);
    let n = known.len();
    let mut out = UtxoMap::new();
    let mut i: usize = 0;
    proof {
        reveal(Seq::filter);
        assert(known@.subrange(0, 0) =~= Seq::<UtxoV>::empty());
        assert(out@ =~= new_spent_of(known@.subrange(0, 0), lv));
    }
    while i < n
        invariant
            0 <= i <= n == known@.len(),
            lv == entry_views(entries@),
            known.wf(),
            unique_entry_ops(lv),
            out@ == new_spent_of(known@.subrange(0, i as int), lv),
            out.wf(),
        decreases n - i,
    {
        let ghost kpre = known@.subrange(0, i as int);
        let u = known.entry_at(i);
        let gone: bool = match find_entry(entries, u.outpoint) {
            Some(_) => false,
            None => true,
        };
        if gone {
            let info = UtxoInfo {
                value: u.info.value,
                script_pubkey: crate::utxomap::clone_bytes(&u.info.script_pubkey),
                is_confirmed: u.info.is_confirmed,
            };
            let copied = Utxo { outpoint: u.outpoint, info };
            proof {
                assert(copied@ == known@[i as int]);
                assert(unique_ops(kpre));
                if has_op(out@, copied.outpoint) {
                    lemma_new_spent_mem(kpre, lv, copied.outpoint);
                    let t = choose|t: int|
                        0 <= t < kpre.len() && (#[trigger] kpre[t]).outpoint == copied.outpoint;
                    assert(known@[t].outpoint == known@[i as int].outpoint);
                    assert(false);
                }
            }
            out.push_entry(copied);
        }
        proof {
            lemma_new_spent_push(kpre, lv, known@[i as int]);
            assert(kpre.push(known@[i as int]) =~= known@.subrange(0, i + 1));
        }
        i = i + 1;
    }
    proof {
        assert(known@.subrange(0, n as int) =~= known@);
    }
    out
}

/// One reconciliation pass over the deposit outputs, categorized.
pub struct DepositsState {
    /// Deposits the node lists that the daemon did not know: recorded
    /// unconfirmed, whatever the node reported.
    pub new_unconf: UtxoMap,
    /// Known, believed-unconfirmed deposits the node now lists with enough
    /// confirmations.
    pub new_conf: UtxoMap,
    /// Known deposits the node no longer lists unspent: spent.
    pub new_spent: UtxoMap,
}

/// Reconcile the known deposit UTXOs against the node's unspent listing.
///
/// Read-only and pure: the same knowledge and the same listing always give
/// the same delta. Fails exactly when a deposit-labeled entry of the
/// listing is malformed; otherwise the three returned sets are the ones of
/// [`new_unconf_of`], [`new_conf_of`] and [`new_spent_of`] over the parsed
/// listing.
pub fn sync_deposits(known: &UtxoMap, raws: &Vec<UnspentEntryRaw>, min_conf: u32) -> (r: Result<
    DepositsState,
    BitcoindError,
>)
    requires
        known.wf(),
        unique_deposit_outpoints(raws@),
    ensures
        r is Ok <==> deposit_raws_ok(raws@),
        r matches Err(e) ==> e is Custom,
        r matches Ok(ds) ==> {
            &&& ds.new_unconf@ == new_unconf_of(known@, dep_entries_of(raws@))
            &&& ds.new_conf@ == new_conf_of(known@, dep_entries_of(raws@), min_conf)
            &&& ds.new_spent@ == new_spent_of(known@, dep_entries_of(raws@))
            &&& ds.new_unconf.wf() && ds.new_conf.wf() && ds.new_spent.wf()
        },
{
    let entries = match parse_deposit_entries(raws) {
        Ok(v) => v,
        Err(e) => {
            return Err(e);
        },
    };
    proof {
        lemma_dep_entries_unique(raws@);
    }
    let new_unconf = collect_new_unconf(known, &entries);
    let new_conf = collect_new_conf(known, &entries, min_conf);
    let new_spent = collect_new_spent(known, &entries);
    Ok(DepositsState { new_unconf, new_conf, new_spent })
}


/// Law: one deposit-reconciliation pass partitions the outpoints in play.
///
/// Every known outpoint the node no longer lists lands in the spent set
/// and nowhere else — never both, never dropped; every listed outpoint the
/// daemon does not know lands in the unconfirmed set, recorded unconfirmed
/// whatever confirmation count the node reported; and no outpoint ever
/// appears in two of the three sets.
pub proof fn lemma_sync_deposits_partitions(
    k: Seq<UtxoV>,
    l: Seq<DepositEntryV>,
    m: u32,
    op: Outpoint,
)
    requires
        unique_ops(k),
        unique_entry_ops(l),
    ensures
        has_op(k, op) && !entry_has(l, op) ==> has_op(new_spent_of(k, l), op) && !has_op(
            new_conf_of(k, l, m),
            op,
        ) && !has_op(new_unconf_of(k, l), op),
        entry_has(l, op) && !has_op(k, op) ==> has_op(new_unconf_of(k, l), op) && info_of(
            new_unconf_of(k, l),
            op,
        ).is_confirmed == false && !has_op(new_conf_of(k, l, m), op) && !has_op(
            new_spent_of(k, l),
            op,
        ),
        !(has_op(new_unconf_of(k, l), op) && has_op(new_conf_of(k, l, m), op)),
        !(has_op(new_unconf_of(k, l), op) && has_op(new_spent_of(k, l), op)),
        !(has_op(new_conf_of(k, l, m), op) && has_op(new_spent_of(k, l), op)),
{
    lemma_new_unconf_mem(k, l, op);
    lemma_new_conf_mem(k, l, m, op);
    lemma_new_spent_mem(k, l, op);
}

/// The daemon's belief about a known output after the confirmed set of a
/// pass is applied: flipped to confirmed exactly when it was believed
/// unconfirmed and the node listed it with enough confirmations.
pub open spec fn confirm_applied(u: UtxoInfoV, e: DepositEntryV, m: u32) -> UtxoInfoV {
    if !u.is_confirmed && e.confirmations >= m {
        UtxoInfoV { is_confirmed: true, ..u }
    } else {
        u
    }
}

/// Law: deposit reconciliation is idempotent.
///
/// Let `k2` be the known set updated by one pass's delta against listing
/// `l`: the spent outpoints dropped, the confirmed ones flipped, the new
/// ones added as unconfirmed. A second pass against the same listing
/// returns three empty sets — as long as no brand-new listed deposit
/// already carried enough confirmations (such a deposit is deliberately
/// recorded unconfirmed first and confirmed only by the following pass).
pub proof fn lemma_sync_deposits_idempotent(
    k: Seq<UtxoV>,
    l: Seq<DepositEntryV>,
    m: u32,
    k2: Seq<UtxoV>,
)
    requires
        unique_ops(k),
        unique_entry_ops(l),
        unique_ops(k2),
        forall|i: int|
            0 <= i < l.len() ==> (!has_op(k, (#[trigger] l[i]).outpoint) ==> l[i].confirmations
                < m),
        forall|op: Outpoint| #[trigger] has_op(k2, op) <==> entry_has(l, op),
        forall|op: Outpoint|
            #[trigger] entry_has(l, op) && has_op(k, op) ==> info_of(k2, op) == confirm_applied(
                info_of(k, op),
                entry_at(l, op),
                m,
            ),
        forall|op: Outpoint|
            #[trigger] entry_has(l, op) && !has_op(k, op) ==> info_of(k2, op) == unconf_utxo(
                entry_at(l, op),
            ).info,
    ensures
        new_unconf_of(k2, l).len() == 0,
        new_conf_of(k2, l, m).len() == 0,
        new_spent_of(k2, l).len() == 0,
{
    if new_unconf_of(k2, l).len() > 0 {
        let u0 = new_unconf_of(k2, l)[0];
        assert(has_op(new_unconf_of(k2, l), u0.outpoint));
        lemma_new_unconf_mem(k2, l, u0.outpoint);
        assert(false);
    }
    if new_spent_of(k2, l).len() > 0 {
        let u0 = new_spent_of(k2, l)[0];
        assert(has_op(new_spent_of(k2, l), u0.outpoint));
        lemma_new_spent_mem(k2, l, u0.outpoint);
        assert(false);
    }
    if new_conf_of(k2, l, m).len() > 0 {
        let u0 = new_conf_of(k2, l, m)[0];
        let op = u0.outpoint;
        assert(has_op(new_conf_of(k2, l, m), op));
        lemma_new_conf_mem(k2, l, m, op);
        assert(has_op(k2, op) && !info_of(k2, op).is_confirmed && entry_has(l, op) && entry_at(
            l,
            op,
        ).confirmations >= m);
        if has_op(k, op) {
            assert(info_of(k2, op) == confirm_applied(info_of(k, op), entry_at(l, op), m));
            assert(info_of(k2, op).is_confirmed);
        } else {
            let i = choose|i: int| 0 <= i < l.len() && (#[trigger] l[i]).outpoint == op;
            assert(l[i].confirmations < m);
            lemma_entry_at_unique(l, op, i);
        }
        assert(false);
    }
}


/// One unvault output as the node lists it: its outpoint, and whether the
/// listing shows at least one confirmation.
#[derive(Clone, Copy, PartialEq, Eq, Structural, Debug)]
pub struct UnvaultEntry {
    pub outpoint: Outpoint,
    pub confirmed: bool,
}

/// Does the unvault listing hold an entry at `op`?
pub open spec fn uv_has(ul: Seq<UnvaultEntry>, op: Outpoint) -> bool {
    exists|i: int| 0 <= i < ul.len() && (#[trigger] ul[i]).outpoint == op
}

/// The unvault listing's entry at `op`.
pub open spec fn uv_at(ul: Seq<UnvaultEntry>, op: Outpoint) -> UnvaultEntry
    recommends
        uv_has(ul, op),
{
    ul[choose|i: int| 0 <= i < ul.len() && (#[trigger] ul[i]).outpoint == op]
}

/// No two entries of the unvault listing name the same outpoint.
pub open spec fn unique_uv_ops(ul: Seq<UnvaultEntry>) -> bool {
    forall|i: int, j: int|
        0 <= i < j < ul.len() ==> (#[trigger] ul[i]).outpoint != (#[trigger] ul[j]).outpoint
}

/// If `ul[w]` sits at `op` and outpoints are unique, `uv_at(ul, op)` is
/// `ul[w]`.
proof fn lemma_uv_at_unique(ul: Seq<UnvaultEntry>, op: Outpoint, w: int)
    requires
        unique_uv_ops(ul),
        0 <= w < ul.len(),
        ul[w].outpoint == op,
    ensures
        uv_has(ul, op),
        uv_at(ul, op) == ul[w],
{
    assert(uv_has(ul, op));
    let i = choose|i: int| 0 <= i < ul.len() && (#[trigger] ul[i]).outpoint == op;
    if i != w {
        if i < w {
            assert(ul[i].outpoint != ul[w].outpoint);
        } else {
            assert(ul[w].outpoint != ul[i].outpoint);
        }
    }
}

/// The known unvaults, believed unconfirmed, that the node now lists
/// confirmed. Unvault outputs are only ever created by the daemon's own
/// broadcasts, so a pass never discovers new ones.
pub open spec fn uv_conf_of(k: Seq<UtxoV>, ul: Seq<UnvaultEntry>) -> Seq<UtxoV> {
    k.filter(
        |u: UtxoV|
            uv_has(ul, u.outpoint) && uv_at(ul, u.outpoint).confirmed && !u.info.is_confirmed,
    )
}

/// The known unvaults absent from the node's unspent listing: spent.
pub open spec fn uv_spent_of(k: Seq<UtxoV>, ul: Seq<UnvaultEntry>) -> Seq<UtxoV> {
    k.filter(|u: UtxoV| !uv_has(ul, u.outpoint))
}

/// Extending the known set extends `uv_conf_of` exactly on a confirming
/// entry.
proof fn lemma_uv_conf_push(k: Seq<UtxoV>, ul: Seq<UnvaultEntry>, u: UtxoV)
    ensures
        uv_conf_of(k.push(u), ul) == if uv_has(ul, u.outpoint) && uv_at(ul, u.outpoint).confirmed
            && !u.info.is_confirmed {
            uv_conf_of(k, ul).push(u)
        } else {
            uv_conf_of(k, ul)
        },
{
    let pred = |x: UtxoV|
        uv_has(ul, x.outpoint) && uv_at(ul, x.outpoint).confirmed && !x.info.is_confirmed;
    Seq::lemma_filter_push(k, u, pred);
}

/// Extending the known set extends `uv_spent_of` exactly on an unlisted
/// entry.
proof fn lemma_uv_spent_push(k: Seq<UtxoV>, ul: Seq<UnvaultEntry>, u: UtxoV)
    ensures
        uv_spent_of(k.push(u), ul) == if !uv_has(ul, u.outpoint) {
            uv_spent_of(k, ul).push(u)
        } else {
            uv_spent_of(k, ul)
        },
{
    let pred = |x: UtxoV| !uv_has(ul, x.outpoint);
    Seq::lemma_filter_push(k, u, pred);
}

/// Is every raw entry of the unvault listing usable: a label on each, and
/// on the unvault-labeled ones a parsable txid, an output index and a
/// confirmation count? The unvault pass treats anything else as an
/// incompatible node and must not be reached with it.
pub open spec fn unvault_raws_ok(s: Seq<UnspentEntryRaw>) -> bool {
    &&& forall|i: int| 0 <= i < s.len() ==> (#[trigger] s[i]).label is Some
    &&& forall|i: int|
        0 <= i < s.len() ==> (labeled(#[trigger] s[i], unvault_label()) ==> {
            &&& s[i].txid matches Some(t) && is_txid_hex(encode_utf8(t@))
            &&& s[i].vout is Some
            &&& s[i].confirmations is Some
        })
}

/// The checked reading of a well-formed raw unvault entry.
pub open spec fn parsed_uv_entry(e: UnspentEntryRaw) -> UnvaultEntry {
    UnvaultEntry {
        outpoint: Outpoint {
            txid: txid_of_hex(encode_utf8(e.txid->0@)),
            vout: (e.vout->0 % 0x1_0000_0000) as u32,
        },
        confirmed: e.confirmations->0 > 0,
    }
}

/// The checked unvault entries of a listing, in listing order.
pub open spec fn uv_entries_of(s: Seq<UnspentEntryRaw>) -> Seq<UnvaultEntry> {
    s.filter(|e: UnspentEntryRaw| labeled(e, unvault_label())).map_values(
        |e: UnspentEntryRaw| parsed_uv_entry(e),
    )
}

/// Appending a raw entry appends its checked reading when it carries the
/// unvault label.
proof fn lemma_uv_entries_push(s: Seq<UnspentEntryRaw>, x: UnspentEntryRaw)
    ensures
        uv_entries_of(s.push(x)) == if labeled(x, unvault_label()) {
            uv_entries_of(s).push(parsed_uv_entry(x))
        } else {
            uv_entries_of(s)
        },
{
    let pred = |e: UnspentEntryRaw| labeled(e, unvault_label());
    let f = |e: UnspentEntryRaw| parsed_uv_entry(e);
    Seq::lemma_filter_push(s, x, pred);
    if pred(x) {
        assert(s.filter(pred).push(x).map_values(f) =~= s.filter(pred).map_values(f).push(f(x)));
    }
}

/// Keep the unvault entries of the node's unspent listing as outpoints
/// with a confirmed flag.
pub fn parse_unvault_entries(raws: &Vec<UnspentEntryRaw>) -> (r: Vec<UnvaultEntry>)
    requires
        unvault_raws_ok(raws@),
    ensures
        r@ == uv_entries_of(raws@),
{
    let uv_label: String = "revault-unvault".to_owned();
    proof {
        assert(uv_label@ == unvault_label());
    }
    let n = raws.len();
    let mut out: Vec<UnvaultEntry> = Vec::new();
    let mut i: usize = 0;
    proof {
        assert(raws@.subrange(0, 0) =~= Seq::<UnspentEntryRaw>::empty());
        reveal(Seq::filter);
        assert(out@ =~= uv_entries_of(raws@.subrange(0, 0)));
    }
    while i < n
        invariant
            0 <= i <= n == raws@.len(),
            uv_label@ == unvault_label(),
            unvault_raws_ok(raws@),
            out@ == uv_entries_of(raws@.subrange(0, i as int)),
        decreases n - i,
    {
        let ghost prefix = raws@.subrange(0, i as int);
        let e = &raws[i];
        let is_uv: bool = match &e.label {
            Some(l) => l.eq(&uv_label),
            None => false,
        };
        proof {
            assert(is_uv == labeled(raws@[i as int], unvault_label()));
        }
        if is_uv {
            let txid_s: &String = match &e.txid {
                Some(t) => t,
                None => {
                    proof {
                        assert(false);
                    }
                    unreached()
                },
            };
            let txid: Txid = match crate::types::txid_from_hex(txid_s.as_str()) {
                Some(t) => t,
                None => {
                    proof {
                        assert(false);
                    }
                    unreached()
                },
            };
            let vout64: u64 = match &e.vout {
                Some(v) => *v,
                None => {
                    proof {
                        assert(false);
                    }
                    unreached()
                },
            };
            let confs: u64 = match &e.confirmations {
                Some(c) => *c,
                None => {
                    proof {
                        assert(false);
                    }
                    unreached()
                },
            };
            let vout: u32 = (vout64 % 0x1_0000_0000) as u32;
            let entry = UnvaultEntry { outpoint: Outpoint { txid, vout }, confirmed: confs > 0 };
            proof {
                assert(entry == parsed_uv_entry(raws@[i as int]));
            }
            out.push(entry);
        }
        proof {
            lemma_uv_entries_push(prefix, raws@[i as int]);
            assert(prefix.push(raws@[i as int]) =~= raws@.subrange(0, i + 1));
        }
        i = i + 1;
    }
    proof {
        assert(raws@.subrange(0, n as int) =~= raws@);
    }
    out
}

/// The index of the unvault entry at `op`, if the listing holds one.
fn find_uv(unspent: &Vec<UnvaultEntry>, op: Outpoint) -> (r: Option<usize>)
    ensures
        r matches Some(j) ==> j < unspent@.len() && unspent@[j as int].outpoint == op,
        r is None ==> !uv_has(unspent@, op),
{
    let n = unspent.len();
    let mut i: usize = 0;
    while i < n
        invariant
            0 <= i <= n == unspent@.len(),
            forall|t: int| 0 <= t < i ==> (#[trigger] unspent@[t]).outpoint != op,
        decreases n - i,
    {
        if unspent[i].outpoint == op {
            return Some(i);
        }
        i = i + 1;
    }
    None
}

/// One reconciliation pass over the unvault outputs, categorized.
pub struct UnvaultsState {
    /// Known, believed-unconfirmed unvaults the node now lists confirmed.
    pub new_conf: UtxoMap,
    /// Known unvaults the node no longer lists unspent: spent.
    pub new_spent: UtxoMap,
}

/// Reconcile the known unvault UTXOs against the node's unspent listing.
///
/// Unvault outputs come only from the daemon's own broadcasts, so this
/// pass only detects confirmation and spend: a known output listed
/// confirmed while believed unconfirmed lands in `new_conf`; a known
/// output the listing no longer names lands in `new_spent`.
pub fn sync_unvaults(known: &UtxoMap, unspent: &Vec<UnvaultEntry>) -> (r: UnvaultsState)
    requires
        known.wf(),
        unique_uv_ops(unspent@),
    ensures
        r.new_conf@ == uv_conf_of(known@, unspent@),
        r.new_spent@ == uv_spent_of(known@, unspent@),
        r.new_conf.wf(),
        r.new_spent.wf(),
{
    let ghost ul = unspent@;
    let n = known.len();
    let mut new_conf = UtxoMap::new();
    let mut new_spent = UtxoMap::new();
    let mut i: usize = 0;
    proof {
        reveal(Seq::filter);
        assert(known@.subrange(0, 0) =~= Seq::<UtxoV>::empty());
        assert(new_conf@ =~= uv_conf_of(known@.subrange(0, 0), ul));
        assert(new_spent@ =~= uv_spent_of(known@.subrange(0, 0), ul));
    }
    while i < n
        invariant
            0 <= i <= n == known@.len(),
            ul == unspent@,
            known.wf(),
            unique_uv_ops(ul),
            new_conf@ == uv_conf_of(known@.subrange(0, i as int), ul),
            new_spent@ == uv_spent_of(known@.subrange(0, i as int), ul),
            new_conf.wf(),
            new_spent.wf(),
            forall|o: Outpoint| #[trigger] has_op(new_conf@, o) ==> has_op(
                known@.subrange(0, i as int),
                o,
            ),
            forall|o: Outpoint| #[trigger] has_op(new_spent@, o) ==> has_op(
                known@.subrange(0, i as int),
                o,
            ),
        decreases n - i,
    {
        let ghost kpre = known@.subrange(0, i as int);
        let u = known.entry_at(i);
        let ghost uview = known@[i as int];
        proof {
            if has_op(kpre, uview.outpoint) {
                let t = choose|t: int|
                    0 <= t < kpre.len() && (#[trigger] kpre[t]).outpoint == uview.outpoint;
                assert(known@[t].outpoint == known@[i as int].outpoint);
                assert(false);
            }
        }
        match find_uv(unspent, u.outpoint) {
            Some(j) => {
                proof {
                    lemma_uv_at_unique(ul, uview.outpoint, j as int);
                }
                if unspent[j].confirmed && !u.info.is_confirmed {
                    let info = UtxoInfo {
                        value: u.info.value,
                        script_pubkey: crate::utxomap::clone_bytes(&u.info.script_pubkey),
                        is_confirmed: u.info.is_confirmed,
                    };
                    let copied = Utxo { outpoint: u.outpoint, info };
                    proof {
                        assert(copied@ == uview);
                    }
                    new_conf.push_entry(copied);
                    proof {
                        lemma_has_op_push(kpre, uview, uview.outpoint);
                    }
                }
            },
            None => {
                let info = UtxoInfo {
                    value: u.info.value,
                    script_pubkey: crate::utxomap::clone_bytes(&u.info.script_pubkey),
                    is_confirmed: u.info.is_confirmed,
                };
                let copied = Utxo { outpoint: u.outpoint, info };
                proof {
                    assert(copied@ == uview);
                }
                new_spent.push_entry(copied);
            },
        }
        proof {
            lemma_uv_conf_push(kpre, ul, uview);
            lemma_uv_spent_push(kpre, ul, uview);
            assert(kpre.push(uview) =~= known@.subrange(0, i + 1));
            assert forall|o: Outpoint| #[trigger] has_op(new_conf@, o) implies has_op(
                known@.subrange(0, i + 1),
                o,
            ) by {
                lemma_has_op_push(kpre, uview, o);
                assert(kpre.push(uview) =~= known@.subrange(0, i + 1));
                if has_op(new_conf@, o) {
                    let t = choose|t: int|
                        0 <= t < new_conf@.len() && (#[trigger] new_conf@[t]).outpoint == o;
                    if t < uv_conf_of(kpre, ul).len() {
                        assert(uv_conf_of(kpre, ul)[t].outpoint == o);
                        assert(has_op(uv_conf_of(kpre, ul), o));
                    } else {
                        assert(new_conf@[t] == uview);
                    }
                }
            }
            assert forall|o: Outpoint| #[trigger] has_op(new_spent@, o) implies has_op(
                known@.subrange(0, i + 1),
                o,
            ) by {
                lemma_has_op_push(kpre, uview, o);
                if has_op(new_spent@, o) {
                    let t = choose|t: int|
                        0 <= t < new_spent@.len() && (#[trigger] new_spent@[t]).outpoint == o;
                    if t < uv_spent_of(kpre, ul).len() {
                        assert(uv_spent_of(kpre, ul)[t].outpoint == o);
                        assert(has_op(uv_spent_of(kpre, ul), o));
                    } else {
                        assert(new_spent@[t] == uview);
                    }
                }
            }
        }
        i = i + 1;
    }
    proof {
        assert(known@.subrange(0, n as int) =~= known@);
    }
    UnvaultsState { new_conf, new_spent }
}

} // verus!
