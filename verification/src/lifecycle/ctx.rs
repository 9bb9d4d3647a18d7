//! Per-order context: identity, applied fill set and running accounting.

use vstd::prelude::*;

use vstd::utf8::encode_utf8;

use super::types::{
    ClientOrderId, FillId, FillPayload, HaltReason, Side, SnapshotBoundary, VenueOrderId,
};

verus! {

/// The applied-fill set: fill_id → first-seen payload, ordered by fill_id bytes,
/// with each fill_id present at most once.
#[derive(Debug, PartialEq, Eq)]
pub struct AppliedFills {
    entries: Vec<(FillId, FillPayload)>,
}

/// Lexicographic byte order (a proper prefix comes first).
pub open spec fn lex_less(a: Seq<u8>, b: Seq<u8>) -> bool
    decreases a.len(),
{
    if a.len() == 0 {
        b.len() > 0
    } else if b.len() == 0 {
        false
    } else if a[0] != b[0] {
        a[0] < b[0]
    } else {
        lex_less(a.drop_first(), b.drop_first())
    }
}

/// The bytes by which fill ids are ordered.
pub open spec fn key_bytes(k: FillId) -> Seq<u8> {
    encode_utf8(k.0@)
}

proof fn lemma_lex_less_skip(a: Seq<u8>, b: Seq<u8>, i: int)
    requires
        0 <= i <= a.len(),
        i <= b.len(),
        a.subrange(0, i) == b.subrange(0, i),
    ensures
        lex_less(a, b) == lex_less(a.subrange(i, a.len() as int), b.subrange(i, b.len() as int)),
    decreases i,
{
    if i > 0 {
        assert(a[0] == a.subrange(0, i)[0]);
        assert(b[0] == b.subrange(0, i)[0]);
        let a1 = a.drop_first();
        let b1 = b.drop_first();
        assert(a1.subrange(0, i - 1) =~= b1.subrange(0, i - 1)) by {
            assert forall|j: int| 0 <= j < i - 1 implies #[trigger] a1.subrange(0, i - 1)[j] == b1.subrange(0, i - 1)[j] by {
                assert(a.subrange(0, i)[j + 1] == b.subrange(0, i)[j + 1]);
                assert(a.subrange(0, i)[j + 1] == a[j + 1]);
                assert(b.subrange(0, i)[j + 1] == b[j + 1]);
                assert(a1[j] == a[j + 1]);
                assert(b1[j] == b[j + 1]);
            }
        }
        lemma_lex_less_skip(a1, b1, i - 1);
        assert(a1.subrange(i - 1, a1.len() as int) =~= a.subrange(i, a.len() as int));
        assert(b1.subrange(i - 1, b1.len() as int) =~= b.subrange(i, b.len() as int));
    } else {
        assert(a.subrange(0, a.len() as int) =~= a);
        assert(b.subrange(0, b.len() as int) =~= b);
    }
}

/// Whether a fill id (by text) occurs among entries.
pub open spec fn entries_have_key(es: Seq<(FillId, FillPayload)>, k: Seq<char>) -> bool {
    exists|i: int| 0 <= i < es.len() && #[trigger] es[i].0.0@ == k
}

/// Total qty of the entries.
pub open spec fn entries_qty(es: Seq<(FillId, FillPayload)>) -> int
    decreases es.len(),
{
    if es.len() == 0 {
        0
    } else {
        es[0].1.qty + entries_qty(es.drop_first())
    }
}

/// Inserting an entry adds its qty.
pub proof fn lemma_entries_qty_insert(es: Seq<(FillId, FillPayload)>, p: int, x: (FillId, FillPayload))
    requires
        0 <= p <= es.len(),
    ensures
        entries_qty(es.insert(p, x)) == entries_qty(es) + x.1.qty,
    decreases es.len(),
{
    if p == 0 {
        assert(es.insert(0, x).drop_first() =~= es);
    } else {
        assert(es.insert(p, x).drop_first() =~= es.drop_first().insert(p - 1, x));
        lemma_entries_qty_insert(es.drop_first(), p - 1, x);
    }
}

/// Overwriting an entry swaps its qty.
pub proof fn lemma_entries_qty_update(es: Seq<(FillId, FillPayload)>, i: int, x: (FillId, FillPayload))
    requires
        0 <= i < es.len(),
    ensures
        entries_qty(es.update(i, x)) == entries_qty(es) - es[i].1.qty + x.1.qty,
    decreases es.len(),
{
    if i == 0 {
        assert(es.update(0, x).drop_first() =~= es.drop_first());
    } else {
        assert(es.update(i, x).drop_first() =~= es.drop_first().update(i - 1, x));
        lemma_entries_qty_update(es.drop_first(), i - 1, x);
    }
}

/// A position of a fill id (by text) among entries.
pub open spec fn entries_index_of(es: Seq<(FillId, FillPayload)>, k: Seq<char>) -> int {
    choose|i: int| 0 <= i < es.len() && #[trigger] es[i].0.0@ == k
}

/// Where a new fill id goes among stored entries: before the first stored id it
/// orders below.
pub open spec fn insert_pos(es: Seq<(FillId, FillPayload)>, kb: Seq<u8>) -> int
    decreases es.len(),
{
    if es.len() == 0 {
        0
    } else if lex_less(kb, key_bytes(es[0].0)) {
        0
    } else {
        1 + insert_pos(es.drop_first(), kb)
    }
}

proof fn lemma_insert_pos_bounds(es: Seq<(FillId, FillPayload)>, kb: Seq<u8>)
    ensures
        0 <= insert_pos(es, kb) <= es.len(),
    decreases es.len(),
{
    if es.len() > 0 {
        lemma_insert_pos_bounds(es.drop_first(), kb);
    }
}

proof fn lemma_insert_pos(es: Seq<(FillId, FillPayload)>, kb: Seq<u8>, p: int)
    requires
        0 <= p <= es.len(),
        forall|j: int| 0 <= j < p ==> !lex_less(kb, #[trigger] key_bytes(es[j].0)),
        p == es.len() || lex_less(kb, key_bytes(es[p].0)),
    ensures
        insert_pos(es, kb) == p,
    decreases p,
{
    if p > 0 {
        assert(!lex_less(kb, key_bytes(es[0].0)));
        let d = es.drop_first();
        assert forall|j: int| 0 <= j < p - 1 implies !lex_less(kb, #[trigger] key_bytes(d[j].0)) by {
            assert(d[j] == es[j + 1]);
        }
        if p < es.len() {
            assert(d[p - 1] == es[p]);
        }
        lemma_insert_pos(d, kb, p - 1);
    }
}

/// Byte order of two strings (the order in which fill ids are kept).
fn bytes_less(a: &[u8], b: &[u8]) -> (r: bool)
    ensures
        r == lex_less(a@, b@),
{
    let n = if a.len() < b.len() {
        a.len()
    } else {
        b.len()
    };
    let mut i: usize = 0;
    while i < n
        invariant
            n <= a@.len(),
            n <= b@.len(),
            n == a@.len() || n == b@.len(),
            i <= n,
            a@.subrange(0, i as int) == b@.subrange(0, i as int),
        decreases n - i,
    {
        if a[i] < b[i] {
            proof {
                lemma_lex_less_skip(a@, b@, i as int);
                assert(a@.subrange(i as int, a@.len() as int)[0] == a@[i as int]);
                assert(b@.subrange(i as int, b@.len() as int)[0] == b@[i as int]);
            }
            return true;
        }
        if a[i] > b[i] {
            proof {
                lemma_lex_less_skip(a@, b@, i as int);
                assert(a@.subrange(i as int, a@.len() as int)[0] == a@[i as int]);
                assert(b@.subrange(i as int, b@.len() as int)[0] == b@[i as int]);
            }
            return false;
        }
        proof {
            assert(a@.subrange(0, i + 1) =~= a@.subrange(0, i as int).push(a@[i as int]));
            assert(b@.subrange(0, i + 1) =~= b@.subrange(0, i as int).push(b@[i as int]));
        }
        i = i + 1;
    }
    proof {
        lemma_lex_less_skip(a@, b@, n as int);
    }
    a.len() < b.len()
}

impl AppliedFills {
    /// The entries in stored order.
    pub closed spec fn entries_view(&self) -> Seq<(FillId, FillPayload)> {
        self.entries@
    }

    /// Each fill id (by text) occurs at most once.
    #[verifier::type_invariant]
    pub closed spec fn keys_unique(&self) -> bool {
        forall|i: int, j: int|
            0 <= i < self.entries@.len() && 0 <= j < self.entries@.len() && i != j
                ==> #[trigger] self.entries@[i].0.0@ != #[trigger] self.entries@[j].0.0@
    }

    /// Whether a fill id (by text) is present.
    pub open spec fn has_key(&self, k: Seq<char>) -> bool {
        entries_have_key(self.entries_view(), k)
    }

    /// Position of a present fill id.
    pub open spec fn index_of(&self, k: Seq<char>) -> int {
        entries_index_of(self.entries_view(), k)
    }

    /// Payload recorded for a fill id, if any.
    pub open spec fn lookup(&self, k: Seq<char>) -> Option<FillPayload> {
        if self.has_key(k) {
            Some(self.entries_view()[self.index_of(k)].1)
        } else {
            None
        }
    }

    /// The stored entries once `k` maps to `v`: overwritten in place when present,
    /// else inserted before the first stored id that `k` orders below.
    pub open spec fn with_entry(&self, k: FillId, v: FillPayload) -> Seq<(FillId, FillPayload)> {
        if self.has_key(k.0@) {
            self.entries_view().update(self.index_of(k.0@), (k, v))
        } else {
            self.entries_view().insert(insert_pos(self.entries_view(), key_bytes(k)), (k, v))
        }
    }

    /// Every key of `self` is a key of `other`.
    pub open spec fn keys_within(&self, other: &AppliedFills) -> bool {
        forall|k: Seq<char>| self.has_key(k) ==> #[trigger] other.has_key(k)
    }

    pub proof fn lemma_unique(&self, i: int, j: int)
        requires
            self.keys_unique(),
            0 <= i < self.entries_view().len(),
            0 <= j < self.entries_view().len(),
            self.entries_view()[i].0.0@ == self.entries_view()[j].0.0@,
        ensures
            i == j,
    {
        if i != j {
            assert(self.entries@[i].0.0@ != self.entries@[j].0.0@);
        }
    }

    /// Lookup through a known position.
    pub proof fn lemma_lookup_at(&self, i: int)
        requires
            self.keys_unique(),
            0 <= i < self.entries_view().len(),
        ensures
            self.has_key(self.entries_view()[i].0.0@),
            self.index_of(self.entries_view()[i].0.0@) == i,
            self.lookup(self.entries_view()[i].0.0@) == Some(self.entries_view()[i].1),
    {
        let k = self.entries_view()[i].0.0@;
        assert(self.has_key(k));
        let j = self.index_of(k);
        self.lemma_unique(i, j);
    }

    pub fn new() -> (r: Self)
        ensures
            r.entries_view().len() == 0,
            forall|k: Seq<char>| !r.has_key(k),
    {
        AppliedFills { entries: Vec::new() }
    }

    pub fn len(&self) -> (r: usize)
        ensures
            r == self.entries_view().len(),
    {
        self.entries.len()
    }

    pub fn is_empty(&self) -> (r: bool)
        ensures
            r == (self.entries_view().len() == 0),
    {
        self.entries.len() == 0
    }

    /// Entry at a position (stored order).
    pub fn entry(&self, i: usize) -> (r: &(FillId, FillPayload))
        requires
            i < self.entries_view().len(),
        ensures
            *r == self.entries_view()[i as int],
    {
        &self.entries[i]
    }

    /// Position of `k`, if present.
    pub fn find(&self, k: &FillId) -> (r: Option<usize>)
        ensures
            r matches Some(i) ==> i < self.entries_view().len() && self.entries_view()[i as int].0.0@
                == k.0@ && self.index_of(k.0@) == i,
            r is None ==> !self.has_key(k.0@),
            r is Some <==> self.has_key(k.0@),
    {
        proof {
            use_type_invariant(self);
        }
        let mut i: usize = 0;
        while i < self.entries.len()
            invariant
                self.keys_unique(),
                i <= self.entries@.len(),
                forall|j: int| 0 <= j < i ==> self.entries@[j].0.0@ != k.0@,
            decreases self.entries@.len() - i,
        {
            if self.entries[i].0.0 == k.0 {
                proof {
                    self.lemma_lookup_at(i as int);
                }
                return Some(i);
            }
            i = i + 1;
        }
        None
    }

    pub fn contains_key(&self, k: &FillId) -> (r: bool)
        ensures
            r == self.has_key(k.0@),
    {
        self.find(k).is_some()
    }

    pub fn get(&self, k: &FillId) -> (r: Option<&FillPayload>)
        ensures
            r matches Some(p) ==> self.lookup(k.0@) == Some(*p),
            r is None ==> self.lookup(k.0@) is None,
    {
        proof {
            use_type_invariant(self);
        }
        match self.find(k) {
            Some(i) => {
                proof {
                    self.lemma_lookup_at(i as int);
                }
                Some(&self.entries[i].1)
            },
            None => None,
        }
    }

    /// Insert or overwrite the payload of `k`, keeping byte order of fill ids.
    pub fn insert(&mut self, k: FillId, v: FillPayload)
        ensures
            final(self).entries_view() == old(self).with_entry(k, v),
            final(self).has_key(k.0@),
            final(self).lookup(k.0@) == Some(v),
            forall|k2: Seq<char>|
                k2 != k.0@ ==> #[trigger] final(self).lookup(k2) == old(self).lookup(k2),
            forall|k2: Seq<char>| #[trigger] final(self).has_key(k2) <==> (old(self).has_key(k2) || k2 == k.0@),
            entries_qty(final(self).entries_view()) == entries_qty(old(self).entries_view()) + v.qty - match old(
                self,
            ).lookup(k.0@) {
                Some(p) => p.qty as int,
                None => 0,
            },
    {
        proof {
            use_type_invariant(&*self);
        }
        let ghost old_self = *self;
        proof {
            let es = old_self.entries_view();
            if old_self.has_key(k.0@) {
                lemma_entries_qty_update(es, old_self.index_of(k.0@), (k, v));
            } else {
                lemma_insert_pos_bounds(es, key_bytes(k));
                lemma_entries_qty_insert(es, insert_pos(es, key_bytes(k)), (k, v));
            }
        }
        match self.find(&k) {
            Some(i) => {
                let mut es: Vec<(FillId, FillPayload)> = Vec::new();
                std::mem::swap(&mut es, &mut self.entries);
                es.set(i, (k, v));
                self.entries = es;
                proof {
                    assert forall|a: int, b: int|
                        0 <= a < self.entries@.len() && 0 <= b < self.entries@.len() && a != b
                            implies #[trigger] self.entries@[a].0.0@ != #[trigger] self.entries@[b].0.0@ by {
                        old_self.lemma_unique_contra(a, b);
                    }
                    assert(self.keys_unique());
                    assert(self.entries@[i as int].0.0@ == k.0@);
                    assert forall|k2: Seq<char>| #[trigger] self.has_key(k2) <==> (old_self.has_key(k2) || k2 == k.0@) by {
                        if old_self.has_key(k2) {
                            let j = old_self.index_of(k2);
                            if j != i {
                                assert(self.entries@[j] == old_self.entries@[j]);
                                assert(self.entries_view()[j].0.0@ == k2);
                            } else {
                                assert(self.entries_view()[j].0.0@ == k2);
                            }
                        }
                        if k2 == k.0@ {
                            assert(self.entries_view()[i as int].0.0@ == k2);
                        }
                        if self.has_key(k2) {
                            let j = choose|j: int| 0 <= j < self.entries_view().len() && #[trigger] self.entries_view()[j].0.0@ == k2;
                            if j != i {
                                assert(old_self.entries@[j] == self.entries@[j]);
                                assert(old_self.entries_view()[j].0.0@ == k2);
                            }
                        }
                    }
                    self.lemma_lookup_at(i as int);
                    assert forall|k2: Seq<char>| k2 != k.0@ implies #[trigger] self.lookup(k2) == old_self.lookup(k2) by {
                        if old_self.has_key(k2) {
                            let j = old_self.index_of(k2);
                            old_self.lemma_lookup_at(j);
                            assert(j != i);
                            assert(self.entries@[j] == old_self.entries@[j]);
                            self.lemma_lookup_at(j);
                        } else {
                            if self.has_key(k2) {
                                let j = self.index_of(k2);
                                assert(j != i);
                                assert(old_self.entries@[j] == self.entries@[j]);
                                assert(old_self.has_key(k2));
                            }
                        }
                    }
                }
            },
            None => {
                let mut pos: usize = 0;
                let n = self.entries.len();
                while pos < n
                    invariant
                        pos <= n,
                        n == self.entries@.len(),
                        self.entries@ == old_self.entries@,
                        old_self.keys_unique(),
                        !old_self.has_key(k.0@),
                        forall|j: int| 0 <= j < pos ==> !lex_less(key_bytes(k), #[trigger] key_bytes(self.entries@[j].0)),
                    ensures
                        pos <= n,
                        self.entries@ == old_self.entries@,
                        forall|j: int| 0 <= j < pos ==> !lex_less(key_bytes(k), #[trigger] key_bytes(self.entries@[j].0)),
                        pos == n || lex_less(key_bytes(k), key_bytes(self.entries@[pos as int].0)),
                    decreases n - pos,
                {
                    if bytes_less(k.0.as_str().as_bytes(), self.entries[pos].0.0.as_str().as_bytes()) {
                        break;
                    }
                    pos = pos + 1;
                }
                proof {
                    lemma_insert_pos(old_self.entries@, key_bytes(k), pos as int);
                }
                let mut es: Vec<(FillId, FillPayload)> = Vec::new();
                std::mem::swap(&mut es, &mut self.entries);
                es.insert(pos, (k, v));
                self.entries = es;
                proof {
                    let p = pos as int;
                    let oe = old_self.entries@;
                    let ne = self.entries@;
                    assert(ne.len() == oe.len() + 1);
                    assert forall|j: int| 0 <= j < p implies #[trigger] ne[j] == oe[j] by {}
                    assert forall|j: int| p < j < ne.len() implies #[trigger] ne[j] == oe[j - 1] by {}
                    assert(ne[p].0.0@ == k.0@);
                    // uniqueness of the new entries
                    assert forall|i: int, j: int|
                        0 <= i < ne.len() && 0 <= j < ne.len() && i != j
                            implies #[trigger] ne[i].0.0@ != #[trigger] ne[j].0.0@ by {
                        if i == p {
                            let jj = if j < p { j } else { j - 1 };
                            assert(oe[jj] == ne[j]);
                            assert(!(oe[jj].0.0@ == k.0@));
                        } else if j == p {
                            let ii = if i < p { i } else { i - 1 };
                            assert(oe[ii] == ne[i]);
                            assert(!(oe[ii].0.0@ == k.0@));
                        } else {
                            let ii = if i < p { i } else { i - 1 };
                            let jj = if j < p { j } else { j - 1 };
                            assert(oe[ii] == ne[i]);
                            assert(oe[jj] == ne[j]);
                            old_self.lemma_unique_contra(ii, jj);
                        }
                    }
                    assert(self.keys_unique());
                    assert(self.has_key(k.0@)) by {
                        assert(self.entries_view()[p].0.0@ == k.0@);
                    }
                    self.lemma_lookup_at(p);
                    assert forall|k2: Seq<char>| #[trigger] self.has_key(k2) <==> (old_self.has_key(k2) || k2 == k.0@) by {
                        if old_self.has_key(k2) {
                            let j = old_self.index_of(k2);
                            let nj = if j < p { j } else { j + 1 };
                            assert(ne[nj] == oe[j]);
                        }
                        if self.has_key(k2) && k2 != k.0@ {
                            let j = choose|j: int| 0 <= j < ne.len() && #[trigger] ne[j].0.0@ == k2;
                            assert(j != p);
                            let oj = if j < p { j } else { j - 1 };
                            assert(oe[oj] == ne[j]);
                        }
                    }
                    assert forall|k2: Seq<char>| k2 != k.0@ implies #[trigger] self.lookup(k2) == old_self.lookup(k2) by {
                        if old_self.has_key(k2) {
                            let j = old_self.index_of(k2);
                            old_self.lemma_lookup_at(j);
                            let nj = if j < p { j } else { j + 1 };
                            assert(ne[nj] == oe[j]);
                            self.lemma_lookup_at(nj);
                        }
                    }
                }
            },
        }
    }

    proof fn lemma_unique_contra(&self, i: int, j: int)
        requires
            self.keys_unique(),
            0 <= i < self.entries_view().len(),
            0 <= j < self.entries_view().len(),
            i != j,
        ensures
            self.entries_view()[i].0.0@ != self.entries_view()[j].0.0@,
    {
        assert(self.entries@[i].0.0@ != self.entries@[j].0.0@);
    }
}

impl Clone for AppliedFills {
    fn clone(&self) -> (r: Self)
        ensures
            r.entries_view() == self.entries_view(),
    {
        proof {
            use_type_invariant(self);
        }
        let mut out: Vec<(FillId, FillPayload)> = Vec::new();
        let mut i: usize = 0;
        while i < self.entries.len()
            invariant
                i <= self.entries@.len(),
                out@ == self.entries@.subrange(0, i as int),
            decreases self.entries@.len() - i,
        {
            let e = &self.entries[i];
            out.push((e.0.clone(), e.1.clone()));
            proof {
                assert(self.entries@.subrange(0, i + 1) == self.entries@.subrange(0, i as int).push(self.entries@[i as int]));
            }
            i = i + 1;
        }
        proof {
            assert(self.entries@.subrange(0, self.entries@.len() as int) == self.entries@);
        }
        AppliedFills { entries: out }
    }
}

/// Per-order context: identity + applied fill payloads + running attributed qty.
#[derive(Debug, Clone, PartialEq, Eq)]
pub struct OrderCtx {
    pub client_order_id: ClientOrderId,
    pub market: String,
    pub strategy: String,
    pub side: Side,
    pub price_cents: u64,
    pub qty: u64,
    /// Authoritative fill_ids already booked, with their first-seen payload.
    pub applied_fills: AppliedFills,
    /// Σ qty of applied fills.
    pub attributed_fill_qty: u64,
    /// Monotonic high-water mark of known fill qty from any source.
    pub fill_obligation: u64,
    /// Durable parent venue identity once established.
    pub venue_order_id: Option<VenueOrderId>,
    /// Generation-scoped latch of authoritative fill-complete evidence.
    pub authority_complete: bool,
    /// Authority generation; fill-admitting activity bumps it.
    pub authority_epoch: u64,
    /// Epoch at which authority was last latched.
    pub authority_latched_epoch: u64,
    /// Last observed venue remaining qty.
    pub last_venue_remaining_qty: Option<u64>,
    /// Response snapshot for the immediate-fill cross-check.
    pub response_fill_count: Option<u64>,
    pub response_remaining_count: Option<u64>,
    pub response_avg_price_cents: Option<u64>,
    pub response_fee_cents: Option<u64>,
    /// Response snapshot boundary for domain membership.
    pub response_snapshot_boundary: Option<SnapshotBoundary>,
    /// Σ (qty · price) over applied fills.
    pub attributed_notional_cents: u128,
    /// Σ venue-reported fee over applied fills (None counts 0).
    pub attributed_fee_cents: u64,
    /// Response-snapshot-domain accumulators.
    pub response_domain_qty: u64,
    pub response_domain_notional_cents: u128,
    pub response_domain_fee_cents: u64,
}

/// The authority latch is set and belongs to the current generation.
pub open spec fn authority_fresh(ctx: OrderCtx) -> bool {
    ctx.authority_complete && ctx.authority_latched_epoch == ctx.authority_epoch
}

impl OrderCtx {
    /// A fresh context: the given identity, market, strategy, side, price and qty;
    /// nothing booked.
    pub fn new(
        client_order_id: ClientOrderId,
        market: &str,
        strategy: &str,
        side: Side,
        price_cents: u64,
        qty: u64,
    ) -> (r: Self)
        ensures
            r.client_order_id == client_order_id,
            r.market@ == market@,
            r.strategy@ == strategy@,
            r.side == side,
            r.price_cents == price_cents,
            r.qty == qty,
            r.applied_fills.entries_view().len() == 0,
            r.attributed_fill_qty == entries_qty(r.applied_fills.entries_view()),
            forall|k: Seq<char>| !r.applied_fills.has_key(k),
            r.attributed_fill_qty == 0,
            r.fill_obligation == 0,
            r.venue_order_id is None,
            !r.authority_complete,
            r.authority_epoch == 0,
            r.authority_latched_epoch == 0,
            r.last_venue_remaining_qty is None,
            r.response_fill_count is None,
            r.response_remaining_count is None,
            r.response_avg_price_cents is None,
            r.response_fee_cents is None,
            r.response_snapshot_boundary is None,
            r.attributed_notional_cents == 0,
            r.attributed_fee_cents == 0,
            r.response_domain_qty == 0,
            r.response_domain_notional_cents == 0,
            r.response_domain_fee_cents == 0,
    {
        OrderCtx {
            client_order_id,
            market: String::from_str(market),
            strategy: String::from_str(strategy),
            side,
            price_cents,
            qty,
            applied_fills: AppliedFills::new(),
            attributed_fill_qty: 0,
            fill_obligation: 0,
            venue_order_id: None,
            authority_complete: false,
            authority_epoch: 0,
            authority_latched_epoch: 0,
            last_venue_remaining_qty: None,
            response_fill_count: None,
            response_remaining_count: None,
            response_avg_price_cents: None,
            response_fee_cents: None,
            response_snapshot_boundary: None,
            attributed_notional_cents: 0,
            attributed_fee_cents: 0,
            response_domain_qty: 0,
            response_domain_notional_cents: 0,
            response_domain_fee_cents: 0,
        }
    }

    /// Raise the fill_obligation high-water mark; evidence above the order qty halts.
    /// When the raise leaves attributed < obligation, authority is invalidated.
    pub fn raise_fill_obligation(&mut self, evidence: u64) -> (r: Result<(), HaltReason>)
        ensures
            evidence > old(self).qty ==> r == Err::<(), HaltReason>(
                HaltReason::ObligationExceedsOrderQty {
                    fill_obligation: evidence,
                    order_qty: old(self).qty,
                },
            ) && *final(self) == *old(self),
            evidence <= old(self).qty ==> r is Ok,
            evidence <= old(self).qty && evidence <= old(self).fill_obligation ==> *final(self)
                == *old(self),
            evidence <= old(self).qty && evidence > old(self).fill_obligation ==> {
                let raised = OrderCtx { fill_obligation: evidence, ..*old(self) };
                if old(self).attributed_fill_qty < evidence {
                    *final(self) == invalidated(raised)
                } else {
                    *final(self) == raised
                }
            },
    {
        if evidence > self.qty {
            return Err(
                HaltReason::ObligationExceedsOrderQty { fill_obligation: evidence, order_qty: self.qty },
            );
        }
        if evidence > self.fill_obligation {
            self.fill_obligation = evidence;
            if self.attributed_fill_qty < self.fill_obligation {
                self.invalidate_authority();
            }
        }
        Ok(())
    }

    /// True iff the latch is set and still on the current generation.
    pub fn authority_is_fresh(&self) -> (r: bool)
        ensures
            r == authority_fresh(*self),
    {
        self.authority_complete && self.authority_latched_epoch == self.authority_epoch
    }

    /// Latch authority complete for the current epoch.
    pub fn latch_authority_complete(&mut self)
        ensures
            *final(self) == (OrderCtx {
                authority_complete: true,
                authority_latched_epoch: old(self).authority_epoch,
                ..*old(self)
            }),
    {
        self.authority_complete = true;
        self.authority_latched_epoch = self.authority_epoch;
    }

    /// Bump the generation (saturating) and clear the latch.
    pub fn invalidate_authority(&mut self)
        ensures
            *final(self) == invalidated(*old(self)),
    {
        self.authority_epoch = self.authority_epoch.saturating_add(1);
        self.authority_complete = false;
    }

    /// Record venue remaining evidence (last write wins).
    pub fn note_venue_remaining(&mut self, remaining: u64)
        ensures
            *final(self) == (OrderCtx { last_venue_remaining_qty: Some(remaining), ..*old(self) }),
    {
        self.last_venue_remaining_qty = Some(remaining);
    }

    /// Remaining open qty `order_qty − attributed`, `None` when attributed exceeds it.
    pub fn remaining_qty_checked(&self) -> (r: Option<u64>)
        ensures
            r == (if self.attributed_fill_qty <= self.qty {
                Some((self.qty - self.attributed_fill_qty) as u64)
            } else {
                None
            }),
    {
        self.qty.checked_sub(self.attributed_fill_qty)
    }

    pub fn remaining_qty(&self) -> (r: u64)
        ensures
            r == (if self.attributed_fill_qty <= self.qty {
                (self.qty - self.attributed_fill_qty) as u64
            } else {
                0
            }),
    {
        self.remaining_qty_checked().unwrap_or(0)
    }

    /// Qty-weighted average price of applied fills (integer floor cents).
    pub fn attributed_avg_price_cents(&self) -> (r: Option<u64>)
        ensures
            self.attributed_fill_qty == 0 ==> r is None,
            self.attributed_fill_qty != 0 ==> r == Some(
                (self.attributed_notional_cents / (self.attributed_fill_qty as u128)) as u64,
            ),
    {
        if self.attributed_fill_qty == 0 {
            return None;
        }
        Some((self.attributed_notional_cents / self.attributed_fill_qty as u128) as u64)
    }
}

/// The context after an authority invalidation.
pub open spec fn invalidated(c: OrderCtx) -> OrderCtx {
    OrderCtx {
        authority_epoch: if c.authority_epoch == u64::MAX {
            c.authority_epoch
        } else {
            (c.authority_epoch + 1) as u64
        },
        authority_complete: false,
        ..c
    }
}

} // verus!
