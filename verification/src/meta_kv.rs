//! The table of registered DC endpoints: for each GID that registered, the
//! byte image of its endpoint record. Entries keep the order in which their
//! GIDs first registered; a GID occurs at most once.
use vstd::prelude::*;
use vstd::bytes::*;
use vstd::arithmetic::mul::{lemma_mul_inequality, lemma_mul_is_distributive_add};
use crate::protocol::Gid;

verus! {

/// The view of a table: its entries in order, each a GID and an endpoint image.
pub type Entries = Seq<(Gid, Seq<u8>)>;

/// No GID occurs twice.
pub open spec fn no_dup_gids(s: Entries) -> bool {
    forall|i: int, j: int| 0 <= i < s.len() && 0 <= j < s.len() && i != j ==> s[i].0 != s[j].0
}

/// Every endpoint image has `n` bytes.
pub open spec fn all_points_len(s: Entries, n: nat) -> bool {
    forall|i: int| 0 <= i < s.len() ==> (#[trigger] s[i]).1.len() == n
}

pub open spec fn has_gid(s: Entries, g: Gid) -> bool {
    exists|i: int| 0 <= i < s.len() && (#[trigger] s[i]).0 == g
}

/// The position of `g` in the table, where it occurs.
pub open spec fn gid_index(s: Entries, g: Gid) -> int {
    choose|i: int| 0 <= i < s.len() && (#[trigger] s[i]).0 == g
}

/// The endpoint image registered under `g`, if any.
pub open spec fn spec_get(s: Entries, g: Gid) -> Option<Seq<u8>> {
    if has_gid(s, g) {
        Some(s[gid_index(s, g)].1)
    } else {
        None
    }
}

/// The table after `g` registers `p`: an entry already under `g` takes the
/// new image in place, otherwise a new entry goes at the end.
pub open spec fn spec_put(s: Entries, g: Gid, p: Seq<u8>) -> Entries {
    if has_gid(s, g) {
        s.update(gid_index(s, g), (g, p))
    } else {
        s.push((g, p))
    }
}

/// The table after `g` deregisters: its entry leaves, the others keep their order.
pub open spec fn spec_evict(s: Entries, g: Gid) -> Entries {
    if has_gid(s, g) {
        s.remove(gid_index(s, g))
    } else {
        s
    }
}

/// The endpoint images one after another, in table order.
pub open spec fn concat_points(s: Entries) -> Seq<u8>
    decreases s.len(),
{
    if s.len() == 0 {
        Seq::empty()
    } else {
        concat_points(s.drop_last()) + s.last().1
    }
}

/// The image of the table that is written into each shared memory region:
/// the number of entries as a little-endian word, then the endpoint images.
pub open spec fn table_image(s: Entries) -> Seq<u8> {
    spec_u64_to_le_bytes(s.len() as u64) + concat_points(s)
}

/// Where `g` occurs in a table without duplicates, that is the position that
/// `gid_index` names.
pub proof fn lemma_gid_index_unique(s: Entries, g: Gid, i: int)
    requires
        no_dup_gids(s),
        0 <= i < s.len(),
        s[i].0 == g,
    ensures
        has_gid(s, g),
        gid_index(s, g) == i,
{
    assert(has_gid(s, g));
    let j = gid_index(s, g);
    assert(0 <= j < s.len() && s[j].0 == g);
}

/// A read after a registration gives back what was registered under that
/// GID, and what is registered under any other GID is untouched; the table
/// still holds each GID once.
pub proof fn lemma_put_then_get(s: Entries, g: Gid, p: Seq<u8>, h: Gid)
    requires
        no_dup_gids(s),
    ensures
        no_dup_gids(spec_put(s, g, p)),
        spec_get(spec_put(s, g, p), g) == Some(p),
        h != g ==> spec_get(spec_put(s, g, p), h) == spec_get(s, h),
{
    let t = spec_put(s, g, p);
    if has_gid(s, g) {
        let i = gid_index(s, g);
        assert forall|a: int, b: int| 0 <= a < t.len() && 0 <= b < t.len() && a != b implies t[a].0
            != t[b].0 by {
            assert(t[a].0 == s[a].0);
            assert(t[b].0 == s[b].0);
        }
        lemma_gid_index_unique(t, g, i);
        if h != g {
            if has_gid(s, h) {
                let j = gid_index(s, h);
                assert(t[j].0 == h);
                lemma_gid_index_unique(t, h, j);
            } else {
                if has_gid(t, h) {
                    let j = gid_index(t, h);
                    assert(s[j].0 == h);
                }
            }
        }
    } else {
        let n = s.len() as int;
        assert forall|a: int, b: int| 0 <= a < t.len() && 0 <= b < t.len() && a != b implies t[a].0
            != t[b].0 by {
            if a == n {
                assert(t[b] == s[b]);
            } else if b == n {
                assert(t[a] == s[a]);
            } else {
                assert(t[a] == s[a] && t[b] == s[b]);
            }
        }
        lemma_gid_index_unique(t, g, n);
        if h != g {
            if has_gid(s, h) {
                let j = gid_index(s, h);
                assert(t[j] == s[j]);
                lemma_gid_index_unique(t, h, j);
            } else {
                if has_gid(t, h) {
                    let j = gid_index(t, h);
                    assert(t[j] == s[j]);
                }
            }
        }
    }
}

/// After a deregistration nothing is registered under that GID, and what is
/// registered under any other GID is untouched; the table still holds each
/// GID once.
pub proof fn lemma_evict_then_get(s: Entries, g: Gid, h: Gid)
    requires
        no_dup_gids(s),
    ensures
        no_dup_gids(spec_evict(s, g)),
        spec_get(spec_evict(s, g), g) is None,
        h != g ==> spec_get(spec_evict(s, g), h) == spec_get(s, h),
{
    let t = spec_evict(s, g);
    if has_gid(s, g) {
        let i = gid_index(s, g);
        assert forall|a: int| 0 <= a < t.len() implies #[trigger] t[a] == s[if a < i { a } else { a + 1 }] by {}
        assert forall|a: int, b: int| 0 <= a < t.len() && 0 <= b < t.len() && a != b implies t[a].0
            != t[b].0 by {
            assert(t[a] == s[if a < i { a } else { a + 1 }]);
            assert(t[b] == s[if b < i { b } else { b + 1 }]);
        }
        if has_gid(t, g) {
            let j = gid_index(t, g);
            assert(t[j] == s[if j < i { j } else { j + 1 }]);
        }
        if h != g {
            if has_gid(s, h) {
                let j = gid_index(s, h);
                let j0 = if j < i { j } else { j - 1 };
                assert(t[j0] == s[if j0 < i { j0 } else { j0 + 1 }]);
                lemma_gid_index_unique(t, h, j0);
            } else {
                if has_gid(t, h) {
                    let j = gid_index(t, h);
                    assert(t[j] == s[if j < i { j } else { j + 1 }]);
                }
            }
        }
    }
}

/// What a read answers, stated over the entries themselves: nothing exactly
/// when no entry carries the GID, and otherwise the image of the entry that
/// does; an answer `q` is given exactly when the entry `(g, q)` is present.
pub proof fn lemma_get_direct(s: Entries, g: Gid)
    requires
        no_dup_gids(s),
    ensures
        spec_get(s, g) is None <==> (forall|i: int| 0 <= i < s.len() ==> (#[trigger] s[i]).0 != g),
        forall|i: int| 0 <= i < s.len() && (#[trigger] s[i]).0 == g ==> spec_get(s, g) == Some(s[i].1),
        forall|q: Seq<u8>| spec_get(s, g) == Some(q) <==> #[trigger] s.contains((g, q)),
{
    assert forall|i: int| 0 <= i < s.len() && (#[trigger] s[i]).0 == g implies spec_get(s, g) == Some(
        s[i].1,
    ) by {
        lemma_gid_index_unique(s, g, i);
    }
    assert forall|q: Seq<u8>| spec_get(s, g) == Some(q) <==> #[trigger] s.contains((g, q)) by {
        if s.contains((g, q)) {
            let i = choose|i: int| 0 <= i < s.len() && s[i] == (g, q);
            lemma_gid_index_unique(s, g, i);
        }
        if spec_get(s, g) == Some(q) {
            let i = gid_index(s, g);
            assert(s[i] == (g, q));
        }
    }
}

/// A registration, stated over the entries themselves: where an entry
/// carries the GID, that entry and only it takes the new image; where none
/// does, the new entry goes at the end. Afterwards the GID is registered with
/// exactly the new image, every other GID with exactly what it had, and no
/// GID occurs twice.
pub proof fn lemma_put_direct(s: Entries, g: Gid, p: Seq<u8>)
    requires
        no_dup_gids(s),
    ensures
        forall|i: int|
            0 <= i < s.len() && (#[trigger] s[i]).0 == g ==> spec_put(s, g, p) == s.update(i, (g, p)),
        (forall|i: int| 0 <= i < s.len() ==> (#[trigger] s[i]).0 != g) ==> spec_put(s, g, p) == s.push(
            (g, p),
        ),
        no_dup_gids(spec_put(s, g, p)),
        forall|q: Seq<u8>| #[trigger] spec_put(s, g, p).contains((g, q)) <==> q == p,
        forall|h: Gid, q: Seq<u8>|
            h != g ==> (#[trigger] spec_put(s, g, p).contains((h, q)) <==> s.contains((h, q))),
{
    let t = spec_put(s, g, p);
    lemma_put_then_get(s, g, p, g);
    assert forall|i: int|
        0 <= i < s.len() && (#[trigger] s[i]).0 == g implies spec_put(s, g, p) == s.update(i, (g, p)) by {
        lemma_gid_index_unique(s, g, i);
    }
    lemma_get_direct(t, g);
    assert forall|q: Seq<u8>| #[trigger] t.contains((g, q)) <==> q == p by {
        lemma_get_direct(t, g);
    }
    assert forall|h: Gid, q: Seq<u8>| h != g implies (#[trigger] t.contains((h, q)) <==> s.contains(
        (h, q),
    )) by {
        lemma_put_then_get(s, g, p, h);
        lemma_get_direct(s, h);
        lemma_get_direct(t, h);
    }
}

/// A deregistration, stated over the entries themselves: where an entry
/// carries the GID, exactly that entry leaves and the others keep their
/// order; where none does, the table is unchanged. Afterwards the GID is not
/// registered, every other GID is registered with exactly what it had, and no
/// GID occurs twice.
pub proof fn lemma_evict_direct(s: Entries, g: Gid)
    requires
        no_dup_gids(s),
    ensures
        forall|i: int|
            0 <= i < s.len() && (#[trigger] s[i]).0 == g ==> spec_evict(s, g) == s.remove(i),
        (forall|i: int| 0 <= i < s.len() ==> (#[trigger] s[i]).0 != g) ==> spec_evict(s, g) == s,
        no_dup_gids(spec_evict(s, g)),
        forall|q: Seq<u8>| !(#[trigger] spec_evict(s, g).contains((g, q))),
        forall|h: Gid, q: Seq<u8>|
            h != g ==> (#[trigger] spec_evict(s, g).contains((h, q)) <==> s.contains((h, q))),
{
    let t = spec_evict(s, g);
    lemma_evict_then_get(s, g, g);
    assert forall|i: int|
        0 <= i < s.len() && (#[trigger] s[i]).0 == g implies spec_evict(s, g) == s.remove(i) by {
        lemma_gid_index_unique(s, g, i);
    }
    assert forall|q: Seq<u8>| !(#[trigger] t.contains((g, q))) by {
        lemma_get_direct(t, g);
    }
    assert forall|h: Gid, q: Seq<u8>| h != g implies (#[trigger] t.contains((h, q)) <==> s.contains(
        (h, q),
    )) by {
        lemma_evict_then_get(s, g, h);
        lemma_get_direct(s, h);
        lemma_get_direct(t, h);
    }
}

/// Registering a new GID adds one entry; re-registering keeps the count;
/// deregistering a registered GID removes one.
pub proof fn lemma_counts(s: Entries, g: Gid, p: Seq<u8>)
    ensures
        spec_put(s, g, p).len() == if has_gid(s, g) { s.len() } else { s.len() + 1 },
        spec_evict(s, g).len() == if has_gid(s, g) { s.len() - 1 } else { s.len() as int },
{
}

/// The layout of the table image: the entry count in the first eight bytes,
/// then entry `k`'s image at offset `8 + k * n`, where `n` is the size of
/// every image.
pub proof fn lemma_table_image_layout(s: Entries, n: nat)
    requires
        all_points_len(s, n),
    ensures
        table_image(s).len() == 8 + s.len() * n,
        table_image(s).subrange(0, 8) == spec_u64_to_le_bytes(s.len() as u64),
        forall|k: int| #![trigger s[k]]
            0 <= k < s.len() ==> table_image(s).subrange(8 + k * n, 8 + k * n + n) == s[k].1,
{
    lemma_auto_spec_u64_to_from_le_bytes();
    lemma_concat_layout(s, n);
    let head = spec_u64_to_le_bytes(s.len() as u64);
    let c = concat_points(s);
    assert((head + c).subrange(0, 8) =~= head);
    assert forall|k: int| #![trigger s[k]] 0 <= k < s.len() implies (head + c).subrange(
        8 + k * n,
        8 + k * n + n,
    ) == s[k].1 by {
        assert(head.len() == 8);
        lemma_mul_inequality(k + 1, s.len() as int, n as int);
        vstd::arithmetic::mul::lemma_mul_is_distributive_add_other_way(n as int, k, 1);
        lemma_mul_inequality(0, k, n as int);
        assert((head + c).subrange(8 + k * n, 8 + k * n + n) =~= c.subrange(k * n, k * n + n));
    }
}

proof fn lemma_concat_layout(s: Entries, n: nat)
    requires
        all_points_len(s, n),
    ensures
        concat_points(s).len() == s.len() * n,
        forall|k: int| #![trigger s[k]]
            0 <= k < s.len() ==> concat_points(s).subrange(k * n, k * n + n) == s[k].1,
    decreases s.len(),
{
    if s.len() > 0 {
        let t = s.drop_last();
        let m = t.len() as int;
        assert(all_points_len(t, n)) by {
            assert forall|i: int| 0 <= i < t.len() implies (#[trigger] t[i]).1.len() == n by {
                assert(t[i] == s[i]);
            }
        }
        lemma_concat_layout(t, n);
        lemma_mul_is_distributive_add(n as int, m, 1);
        assert(s.len() * n == m * n + n) by {
            lemma_mul_is_distributive_add(n as int, m, 1);
            assert(n * (m + 1) == n * m + n * 1);
            vstd::arithmetic::mul::lemma_mul_is_commutative(n as int, m + 1);
            vstd::arithmetic::mul::lemma_mul_is_commutative(n as int, m);
        }
        let c = concat_points(t);
        let last = s.last().1;
        assert(concat_points(s) == c + last);
        assert forall|k: int| #![trigger s[k]] 0 <= k < s.len() implies (c + last).subrange(
            k * n,
            k * n + n,
        ) == s[k].1 by {
            if k < m {
                lemma_mul_inequality(k + 1, m, n as int);
                vstd::arithmetic::mul::lemma_mul_is_distributive_add_other_way(n as int, k, 1);
                assert((k + 1) * n == k * n + n);
                assert(0 <= k * n) by {
                    lemma_mul_inequality(0, k, n as int);
                }
                assert((c + last).subrange(k * n, k * n + n) =~= c.subrange(k * n, k * n + n));
                assert(t[k] == s[k]);
            } else {
                assert(k == m);
                assert((c + last).subrange(k * n, k * n + n) =~= last);
            }
        }
    }
}

/// One endpoint record as the table holds it.
pub struct MetaEntry {
    pub gid: Gid,
    pub point: Vec<u8>,
}

/// The registered DC endpoints, each an image of `point_size` bytes.
pub struct MetaKv {
    entries: Vec<MetaEntry>,
    point_size: usize,
}

impl View for MetaKv {
    type V = Entries;

    closed spec fn view(&self) -> Entries {
        Seq::new(self.entries@.len(), |i: int| (self.entries@[i].gid, self.entries@[i].point@))
    }
}

impl MetaKv {
    /// The size of every endpoint image in the table.
    pub closed spec fn spec_point_size(&self) -> nat {
        self.point_size as nat
    }

    /// No GID occurs twice, and every image has the table's point size.
    pub open spec fn wf(&self) -> bool {
        &&& no_dup_gids(self@)
        &&& all_points_len(self@, self.spec_point_size())
    }

    /// An empty table for endpoint images of `point_size` bytes.
    pub fn new(point_size: usize) -> (kv: MetaKv)
        ensures
            kv.wf(),
            kv@ == Seq::<(Gid, Seq<u8>)>::empty(),
            kv.spec_point_size() == point_size,
    {
        let kv = MetaKv { entries: Vec::new(), point_size };
        assert(kv@ =~= Seq::<(Gid, Seq<u8>)>::empty());
        kv
    }

    pub fn point_size(&self) -> (n: usize)
        ensures
            n == self.spec_point_size(),
    {
        self.point_size
    }

    /// The number of registered endpoints.
    pub fn len(&self) -> (n: usize)
        ensures
            n == self@.len(),
    {
        self.entries.len()
    }

    /// The position of `gid` in the table, if it is there.
    fn find(&self, gid: Gid) -> (r: Option<usize>)
        requires
            self.wf(),
        ensures
            match r {
                Some(i) => i < self@.len() && self@[i as int].0 == gid && has_gid(self@, gid)
                    && gid_index(self@, gid) == i,
                None => !has_gid(self@, gid),
            },
    {
        let mut i: usize = 0;
        while i < self.entries.len()
            invariant
                self.wf(),
                i <= self.entries@.len(),
                forall|k: int| 0 <= k < i ==> (#[trigger] self@[k]).0 != gid,
            decreases self.entries@.len() - i,
        {
            if self.entries[i].gid == gid {
                proof {
                    lemma_gid_index_unique(self@, gid, i as int);
                }
                return Some(i);
            }
            i = i + 1;
        }
        None
    }

    /// The endpoint image registered under `gid`, if any.
    pub fn get(&self, gid: Gid) -> (r: Option<Vec<u8>>)
        requires
            self.wf(),
        ensures
            r is Some <==> spec_get(self@, gid) is Some,
            r is Some ==> r->0@ == spec_get(self@, gid)->0,
            r is None <==> (forall|i: int| 0 <= i < self@.len() ==> (#[trigger] self@[i]).0 != gid),
            r is Some ==> self@.contains((gid, r->0@)),
    {
        proof {
            lemma_get_direct(self@, gid);
        }
        match self.find(gid) {
            Some(i) => Some(self.entries[i].point.clone()),
            None => None,
        }
    }

    /// Registers `point` under `gid`, replacing what was there.
    pub fn put(&mut self, gid: Gid, point: Vec<u8>)
        requires
            old(self).wf(),
            point@.len() == old(self).spec_point_size(),
        ensures
            final(self).wf(),
            final(self).spec_point_size() == old(self).spec_point_size(),
            final(self)@ == spec_put(old(self)@, gid, point@),
            forall|q: Seq<u8>| #[trigger] final(self)@.contains((gid, q)) <==> q == point@,
            forall|h: Gid, q: Seq<u8>|
                h != gid ==> (#[trigger] final(self)@.contains((h, q)) <==> old(self)@.contains(
                    (h, q),
                )),
    {
        proof {
            lemma_put_direct(self@, gid, point@);
        }
        let ghost old_view = self@;
        let ghost p = point@;
        match self.find(gid) {
            Some(i) => {
                self.entries.set(i, MetaEntry { gid, point });
                assert(self@ =~= old_view.update(i as int, (gid, p)));
            },
            None => {
                self.entries.push(MetaEntry { gid, point });
                assert(self@ =~= old_view.push((gid, p)));
                assert forall|a: int, b: int|
                    0 <= a < self@.len() && 0 <= b < self@.len() && a != b implies self@[a].0
                    != self@[b].0 by {
                    if a == old_view.len() {
                        assert(old_view[b].0 != gid);
                    } else if b == old_view.len() {
                        assert(old_view[a].0 != gid);
                    }
                }
            },
        }
    }

    /// Removes the endpoint registered under `gid`, if there is one.
    pub fn evict(&mut self, gid: Gid)
        requires
            old(self).wf(),
        ensures
            final(self).wf(),
            final(self).spec_point_size() == old(self).spec_point_size(),
            final(self)@ == spec_evict(old(self)@, gid),
            (forall|i: int| 0 <= i < old(self)@.len() ==> (#[trigger] old(self)@[i]).0 != gid)
                ==> final(self)@ == old(self)@,
            forall|q: Seq<u8>| !(#[trigger] final(self)@.contains((gid, q))),
            forall|h: Gid, q: Seq<u8>|
                h != gid ==> (#[trigger] final(self)@.contains((h, q)) <==> old(self)@.contains(
                    (h, q),
                )),
    {
        proof {
            lemma_evict_direct(self@, gid);
        }
        let ghost old_view = self@;
        match self.find(gid) {
            Some(i) => {
                self.entries.remove(i);
                assert(self@ =~= old_view.remove(i as int));
                assert forall|a: int, b: int|
                    0 <= a < self@.len() && 0 <= b < self@.len() && a != b implies self@[a].0
                    != self@[b].0 by {
                    let a0 = if a < i { a } else { a + 1 };
                    let b0 = if b < i { b } else { b + 1 };
                    assert(self@[a] == old_view[a0]);
                    assert(self@[b] == old_view[b0]);
                }
                assert forall|k: int| 0 <= k < self@.len() implies (#[trigger] self@[k]).1.len()
                    == self.spec_point_size() by {
                    let k0 = if k < i { k } else { k + 1 };
                    assert(self@[k] == old_view[k0]);
                }
            },
            None => {},
        }
    }

    /// The table's image: the entry count as a little-endian word, then each
    /// endpoint image in table order.
    pub fn table_image(&self) -> (out: Vec<u8>)
        ensures
            out@ == table_image(self@),
    {
        let mut out = u64_to_le_bytes(self.entries.len() as u64);
        let ghost head = out@;
        let mut i: usize = 0;
        while i < self.entries.len()
            invariant
                i <= self.entries@.len(),
                head == spec_u64_to_le_bytes(self@.len() as u64),
                out@ == head + concat_points(self@.take(i as int)),
            decreases self.entries@.len() - i,
        {
            let ghost before = out@;
            out.extend_from_slice(self.entries[i].point.as_slice());
            proof {
                let t = self@.take(i as int + 1);
                assert(t.drop_last() =~= self@.take(i as int));
                assert(t.last() == self@[i as int]);
                assert(out@ =~= head + concat_points(t));
            }
            i = i + 1;
        }
        assert(self@.take(self@.len() as int) =~= self@);
        out
    }
}

} // verus!
