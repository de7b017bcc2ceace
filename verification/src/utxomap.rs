//! The daemon's view of a set of tracked UTXOs: a map from outpoint to what
//! we believe about the output there. Held as a vector of entries with
//! pairwise distinct outpoints; contracts speak of the sequence of entry
//! views and of the membership predicate [`has_op`].

use vstd::prelude::*;

use crate::types::Outpoint;

verus! {

/// What the daemon believes about one tracked UTXO: its value in the
/// smallest unit, the script locking it, and whether we have seen it
/// confirmed. Only reconciliation ever flips `is_confirmed`.
#[derive(Debug)]
pub struct UtxoInfo {
    pub value: u64,
    pub script_pubkey: Vec<u8>,
    pub is_confirmed: bool,
}

/// The mathematical value of a [`UtxoInfo`].
pub struct UtxoInfoV {
    pub value: u64,
    pub script_pubkey: Seq<u8>,
    pub is_confirmed: bool,
}

impl View for UtxoInfo {
    type V = UtxoInfoV;

    open spec fn view(&self) -> UtxoInfoV {
        UtxoInfoV {
            value: self.value,
            script_pubkey: self.script_pubkey@,
            is_confirmed: self.is_confirmed,
        }
    }
}

/// One entry of the map: an outpoint and what we know of the output there.
#[derive(Debug)]
pub struct Utxo {
    pub outpoint: Outpoint,
    pub info: UtxoInfo,
}

/// The mathematical value of a [`Utxo`].
pub struct UtxoV {
    pub outpoint: Outpoint,
    pub info: UtxoInfoV,
}

impl View for Utxo {
    type V = UtxoV;

    open spec fn view(&self) -> UtxoV {
        UtxoV { outpoint: self.outpoint, info: self.info@ }
    }
}

/// Does the sequence hold an entry at `op`?
pub open spec fn has_op(s: Seq<UtxoV>, op: Outpoint) -> bool {
    exists|i: int| 0 <= i < s.len() && (#[trigger] s[i]).outpoint == op
}

/// The index of the entry at `op`.
pub open spec fn op_index(s: Seq<UtxoV>, op: Outpoint) -> int
    recommends
        has_op(s, op),
{
    choose|i: int| 0 <= i < s.len() && (#[trigger] s[i]).outpoint == op
}

/// What the sequence holds at `op`.
pub open spec fn info_of(s: Seq<UtxoV>, op: Outpoint) -> UtxoInfoV
    recommends
        has_op(s, op),
{
    s[op_index(s, op)].info
}

/// No two entries share an outpoint.
pub open spec fn unique_ops(s: Seq<UtxoV>) -> bool {
    forall|i: int, j: int|
        0 <= i < j < s.len() ==> (#[trigger] s[i]).outpoint != (#[trigger] s[j]).outpoint
}

/// A map from outpoint to [`UtxoInfo`], the daemon's record of every
/// tracked deposit (or unvault) output.
#[derive(Debug)]
pub struct UtxoMap {
    entries: Vec<Utxo>,
}

impl View for UtxoMap {
    type V = Seq<UtxoV>;

    closed spec fn view(&self) -> Seq<UtxoV> {
        self.entries@.map_values(|u: Utxo| u@)
    }
}

impl UtxoMap {
    /// Every outpoint names at most one entry.
    pub open spec fn wf(&self) -> bool {
        unique_ops(self@)
    }

    /// The empty map.
    pub fn new() -> (r: UtxoMap)
        ensures
            r@.len() == 0,
            r.wf(),
    {
        let r = UtxoMap { entries: Vec::new() };
        proof {
            assert(r@ =~= Seq::<UtxoV>::empty());
        }
        r
    }

    /// How many outputs are tracked.
    pub fn len(&self) -> (n: usize)
        ensures
            n == self@.len(),
    {
        self.entries.len()
    }

    /// A borrow of the entry at index `i`, for walking the map.
    pub fn entry_at(&self, i: usize) -> (r: &Utxo)
        requires
            i < self@.len(),
        ensures
            r@ == self@[i as int],
    {
        &self.entries[i]
    }

    /// The index of the entry at `op`, if the map holds one.
    fn find_index(&self, op: Outpoint) -> (r: Option<usize>)
        ensures
            r matches Some(i) ==> i < self@.len() && self@[i as int].outpoint == op,
            r is None ==> !has_op(self@, op),
    {
        let n = self.entries.len();
        let mut i: usize = 0;
        while i < n
            invariant
                0 <= i <= n == self@.len(),
                forall|t: int| 0 <= t < i ==> (#[trigger] self@[t]).outpoint != op,
            decreases n - i,
        {
            if self.entries[i].outpoint == op {
                return Some(i);
            }
            i = i + 1;
        }
        None
    }

    /// Is an output tracked at `op`?
    pub fn contains(&self, op: Outpoint) -> (r: bool)
        ensures
            r == has_op(self@, op),
    {
        match self.find_index(op) {
            Some(_) => true,
            None => false,
        }
    }

    /// What the map holds at `op`, if anything.
    pub fn get(&self, op: Outpoint) -> (r: Option<&UtxoInfo>)
        requires
            self.wf(),
        ensures
            r is Some <==> has_op(self@, op),
            r matches Some(u) ==> u@ == info_of(self@, op),
    {
        match self.find_index(op) {
            Some(i) => {
                proof {
                    let j = op_index(self@, op);
                    assert(self@[i as int].outpoint == op);
                    assert(0 <= j < self@.len() && self@[j].outpoint == op);
                }
                Some(&self.entries[i].info)
            },
            None => None,
        }
    }

    /// Record `info` at `op`, replacing any entry already there.
    pub fn insert(&mut self, op: Outpoint, info: UtxoInfo)
        requires
            old(self).wf(),
        ensures
            final(self).wf(),
            has_op(final(self)@, op),
            info_of(final(self)@, op) == info@,
            forall|o: Outpoint|
                o != op ==> #[trigger] has_op(final(self)@, o) == has_op(old(self)@, o),
            forall|o: Outpoint|
                o != op && has_op(old(self)@, o) ==> #[trigger] info_of(final(self)@, o)
                    == info_of(old(self)@, o),
    {
        let ghost pre = self@;
        match self.find_index(op) {
            Some(i) => {
                self.entries.set(i, Utxo { outpoint: op, info });
                proof {
                    assert(self@ =~= pre.update(i as int, UtxoV { outpoint: op, info: info@ }));
                    lemma_frame_after_update(pre, self@, i as int, op);
                }
            },
            None => {
                self.entries.push(Utxo { outpoint: op, info });
                proof {
                    assert(self@ =~= pre.push(UtxoV { outpoint: op, info: info@ }));
                    lemma_frame_after_push(pre, self@, op);
                }
            },
        }
    }

    /// Append an entry whose outpoint the map does not hold yet.
    pub fn push_entry(&mut self, u: Utxo)
        requires
            old(self).wf(),
            !has_op(old(self)@, u.outpoint),
        ensures
            final(self)@ == old(self)@.push(u@),
            final(self).wf(),
    {
        let ghost pre = self@;
        let ghost uv = u@;
        self.entries.push(u);
        proof {
            assert(self@ =~= pre.push(uv));
            assert forall|i: int, j: int|
                0 <= i < j < self@.len() implies (#[trigger] self@[i]).outpoint
                != (#[trigger] self@[j]).outpoint by {
                if j == self@.len() - 1 {
                    if pre[i].outpoint == uv.outpoint {
                        assert(has_op(pre, uv.outpoint));
                    }
                }
            }
        }
    }

    /// Forget the entry at `op`, returning what was recorded there.
    pub fn remove(&mut self, op: Outpoint) -> (r: Option<UtxoInfo>)
        requires
            old(self).wf(),
        ensures
            final(self).wf(),
            r is Some <==> has_op(old(self)@, op),
            r matches Some(u) ==> u@ == info_of(old(self)@, op),
            !has_op(final(self)@, op),
            forall|o: Outpoint|
                o != op ==> #[trigger] has_op(final(self)@, o) == has_op(old(self)@, o),
            forall|o: Outpoint|
                o != op && has_op(old(self)@, o) ==> #[trigger] info_of(final(self)@, o)
                    == info_of(old(self)@, o),
    {
        let ghost pre = self@;
        match self.find_index(op) {
            Some(i) => {
                let u = self.entries.remove(i);
                proof {
                    assert(self@ =~= pre.subrange(0, i as int) + pre.subrange(
                        i + 1,
                        pre.len() as int,
                    ));
                    lemma_frame_after_remove(pre, self@, i as int, op);
                    let j = op_index(pre, op);
                    assert(pre[i as int].outpoint == op);
                    assert(0 <= j < pre.len() && pre[j].outpoint == op);
                }
                Some(u.info)
            },
            None => None,
        }
    }
}

/// A byte-for-byte copy of a byte vector.
pub fn clone_bytes(v: &Vec<u8>) -> (r: Vec<u8>)
    ensures
        r@ == v@,
{
    let n = v.len();
    let mut r: Vec<u8> = Vec::new();
    let mut i: usize = 0;
    while i < n
        invariant
            0 <= i <= n == v@.len(),
            r@ =~= v@.subrange(0, i as int),
        decreases n - i,
    {
        r.push(v[i]);
        i = i + 1;
    }
    proof {
        assert(v@.subrange(0, n as int) =~= v@);
    }
    r
}

/// After replacing the entry at index `i` (which sat at `op`) by a new entry
/// at the same `op`, membership and contents at every other outpoint stand.
proof fn lemma_frame_after_update(pre: Seq<UtxoV>, post: Seq<UtxoV>, i: int, op: Outpoint)
    requires
        unique_ops(pre),
        0 <= i < pre.len(),
        pre[i].outpoint == op,
        post.len() == pre.len(),
        post[i].outpoint == op,
        forall|t: int| 0 <= t < pre.len() && t != i ==> post[t] == pre[t],
    ensures
        unique_ops(post),
        has_op(post, op),
        info_of(post, op) == post[i].info,
        forall|o: Outpoint| o != op ==> #[trigger] has_op(post, o) == has_op(pre, o),
        forall|o: Outpoint|
            o != op && has_op(pre, o) ==> #[trigger] info_of(post, o) == info_of(pre, o),
{
    assert forall|o: Outpoint| o != op implies #[trigger] has_op(post, o) == has_op(pre, o) by {
        if has_op(pre, o) {
            let t = op_index(pre, o);
            assert(post[t].outpoint == o);
        }
        if has_op(post, o) {
            let t = op_index(post, o);
            assert(pre[t].outpoint == o);
        }
    }
    assert(info_of(post, op) == post[i].info) by {
        let j = op_index(post, op);
        assert(post[j].outpoint == op);
        if j != i {
            assert(pre[j] == post[j]);
        }
    }
    assert forall|o: Outpoint| o != op && has_op(pre, o) implies #[trigger] info_of(post, o)
        == info_of(pre, o) by {
        let t = op_index(pre, o);
        assert(post[t].outpoint == o);
        let t2 = op_index(post, o);
        assert(post[t2].outpoint == o);
        if t2 != t {
            assert(pre[t2].outpoint == o || t2 == i);
        }
    }
}

/// After pushing a fresh entry at `op` onto a map without one, membership
/// and contents at every other outpoint stand.
proof fn lemma_frame_after_push(pre: Seq<UtxoV>, post: Seq<UtxoV>, op: Outpoint)
    requires
        unique_ops(pre),
        !has_op(pre, op),
        post.len() == pre.len() + 1,
        post[pre.len() as int].outpoint == op,
        forall|t: int| 0 <= t < pre.len() ==> post[t] == pre[t],
    ensures
        unique_ops(post),
        has_op(post, op),
        info_of(post, op) == post[pre.len() as int].info,
        forall|o: Outpoint| o != op ==> #[trigger] has_op(post, o) == has_op(pre, o),
        forall|o: Outpoint|
            o != op && has_op(pre, o) ==> #[trigger] info_of(post, o) == info_of(pre, o),
{
    let n = pre.len() as int;
    assert(unique_ops(post)) by {
        assert forall|i: int, j: int|
            0 <= i < j < post.len() implies (#[trigger] post[i]).outpoint
            != (#[trigger] post[j]).outpoint by {
            if j == n {
                assert(post[i] == pre[i]);
                if post[i].outpoint == op {
                    assert(has_op(pre, op));
                }
            }
        }
    }
    assert forall|o: Outpoint| o != op implies #[trigger] has_op(post, o) == has_op(pre, o) by {
        if has_op(pre, o) {
            let t = op_index(pre, o);
            assert(post[t].outpoint == o);
        }
        if has_op(post, o) {
            let t = op_index(post, o);
            assert(t < n && pre[t].outpoint == o);
        }
    }
    assert(info_of(post, op) == post[n].info) by {
        let j = op_index(post, op);
        if j != n {
            assert(pre[j].outpoint == op);
        }
    }
    assert forall|o: Outpoint| o != op && has_op(pre, o) implies #[trigger] info_of(post, o)
        == info_of(pre, o) by {
        let t = op_index(pre, o);
        assert(post[t].outpoint == o);
        let t2 = op_index(post, o);
        assert(post[t2].outpoint == o);
        if t2 != t {
            if t2 < n {
                assert(pre[t2].outpoint == o);
            }
        }
    }
}

/// After taking out the entry at index `i` (which sat at `op`), membership
/// and contents at every other outpoint stand, and `op` is gone.
proof fn lemma_frame_after_remove(pre: Seq<UtxoV>, post: Seq<UtxoV>, i: int, op: Outpoint)
    requires
        unique_ops(pre),
        0 <= i < pre.len(),
        pre[i].outpoint == op,
        post.len() == pre.len() - 1,
        forall|t: int| 0 <= t < i ==> post[t] == pre[t],
        forall|t: int| i <= t < post.len() ==> post[t] == pre[t + 1],
    ensures
        unique_ops(post),
        !has_op(post, op),
        forall|o: Outpoint| o != op ==> #[trigger] has_op(post, o) == has_op(pre, o),
        forall|o: Outpoint|
            o != op && has_op(pre, o) ==> #[trigger] info_of(post, o) == info_of(pre, o),
{
    assert(!has_op(post, op)) by {
        if has_op(post, op) {
            let t = op_index(post, op);
            if t < i {
                assert(pre[t].outpoint == op);
            } else {
                assert(pre[t + 1].outpoint == op);
            }
        }
    }
    assert forall|o: Outpoint| o != op implies #[trigger] has_op(post, o) == has_op(pre, o) by {
        if has_op(pre, o) {
            let t = op_index(pre, o);
            if t < i {
                assert(post[t].outpoint == o);
            } else {
                assert(t != i);
                assert(post[t - 1].outpoint == o);
            }
        }
        if has_op(post, o) {
            let t = op_index(post, o);
            if t < i {
                assert(pre[t].outpoint == o);
            } else {
                assert(pre[t + 1].outpoint == o);
            }
        }
    }
    assert forall|o: Outpoint| o != op && has_op(pre, o) implies #[trigger] info_of(post, o)
        == info_of(pre, o) by {
        let t = op_index(pre, o);
        assert(has_op(post, o));
        let t2 = op_index(post, o);
        assert(0 <= t2 < post.len() && post[t2].outpoint == o);
        let t2pre: int = if t2 < i {
            t2
        } else {
            t2 + 1
        };
        assert(pre[t2pre].outpoint == o);
        assert(t2pre == t);
        assert(post[t2] == pre[t2pre]);
    }
}

} // verus!
