//! The bundle of inherent facts that accompanies a production attempt.
//!
//! An `InherentBundle` is an ordered mapping from an eight-byte inherent-kind
//! tag (carried little-endian in a `u64`) to an opaque encoded payload. Each
//! tag appears at most once; the entries are kept strictly sorted by tag, so
//! bundles holding the same facts are bit-identical.

use vstd::prelude::*;

verus! {

/// Entries as the bundle's abstract value: `(tag, payload)` pairs in tag order.
pub type BundleView = Seq<(u64, Seq<u8>)>;

/// Tags strictly increase along the entry list, so each appears at most once.
pub open spec fn tags_sorted(s: BundleView) -> bool {
    forall|i: int, j: int| 0 <= i < j < s.len() ==> s[i].0 < s[j].0
}

/// Some entry of `s` carries `tag`.
pub open spec fn has_tag(s: BundleView, tag: u64) -> bool {
    exists|i: int| 0 <= i < s.len() && s[i].0 == tag
}

/// The payload stored under `tag`.
pub open spec fn payload_of(s: BundleView, tag: u64) -> Seq<u8>
    recommends
        has_tag(s, tag),
{
    s[choose|i: int| 0 <= i < s.len() && s[i].0 == tag].1
}

/// Index at which a new entry with `tag` belongs: past every smaller tag.
pub open spec fn insert_pos(s: BundleView, tag: u64) -> int
    decreases s.len(),
{
    if s.len() == 0 {
        0
    } else if s[0].0 >= tag {
        0
    } else {
        1 + insert_pos(s.drop_first(), tag)
    }
}

/// `s` with `(tag, payload)` put in at its sorted position.
pub open spec fn with_entry(s: BundleView, tag: u64, payload: Seq<u8>) -> BundleView {
    s.insert(insert_pos(s, tag), (tag, payload))
}

/// `insert_pos` is exactly the index whose left neighbours all carry smaller
/// tags and whose own tag, if any, is not smaller.
proof fn lemma_insert_pos_char(s: BundleView, tag: u64, i: int)
    requires
        0 <= i <= s.len(),
        forall|j: int| 0 <= j < i ==> s[j].0 < tag,
        i < s.len() ==> s[i].0 >= tag,
    ensures
        insert_pos(s, tag) == i,
    decreases s.len(),
{
    if s.len() == 0 {
    } else if i == 0 {
    } else {
        assert(s[0].0 < tag);
        lemma_insert_pos_char(s.drop_first(), tag, i - 1);
    }
}

/// Rejected when a tag collides while putting a payload into a bundle.
#[derive(PartialEq, Eq, Debug)]
pub enum BundleError {
    /// The bundle already holds an entry under the given tag.
    TagOccupied,
}

/// Ordered tag-to-payload mapping with each tag present at most once.
#[derive(PartialEq, Eq, Debug)]
pub struct InherentBundle {
    entries: Vec<(u64, Vec<u8>)>,
}

impl View for InherentBundle {
    type V = BundleView;

    closed spec fn view(&self) -> BundleView {
        self.entries@.map_values(|p: (u64, Vec<u8>)| (p.0, p.1@))
    }
}

impl InherentBundle {
    /// The bundle invariant: entries strictly sorted by tag.
    pub open spec fn wf(&self) -> bool {
        tags_sorted(self@)
    }

    /// An empty bundle.
    pub fn new() -> (r: InherentBundle)
        ensures
            r@ == Seq::<(u64, Seq<u8>)>::empty(),
            r.wf(),
    {
        let r = InherentBundle { entries: Vec::new() };
        proof {
            assert(r@ =~= Seq::<(u64, Seq<u8>)>::empty());
        }
        r
    }

    /// How many tags the bundle holds.
    pub fn len(&self) -> (r: usize)
        ensures
            r == self@.len(),
    {
        self.entries.len()
    }

    /// Stores `payload` under `tag`, keeping the order; refuses a tag that is
    /// already present and then leaves the bundle unchanged.
    pub fn put_data(&mut self, tag: u64, payload: Vec<u8>) -> (r: Result<(), BundleError>)
        requires
            old(self).wf(),
        ensures
            final(self).wf(),
            has_tag(old(self)@, tag) ==> r is Err && final(self)@ == old(self)@,
            !has_tag(old(self)@, tag) ==> r is Ok && final(self)@ == with_entry(
                old(self)@,
                tag,
                payload@,
            ),
    {
        let ghost s0 = self@;
        let n = self.entries.len();
        let mut i: usize = 0;
        while i < n && self.entries[i].0 < tag
            invariant
                0 <= i <= n,
                n == self.entries.len(),
                self@ == s0,
                tags_sorted(s0),
                forall|j: int| 0 <= j < i ==> s0[j].0 < tag,
            decreases n - i,
        {
            assert(s0[i as int].0 == self.entries@[i as int].0);
            i = i + 1;
        }
        if i < n && self.entries[i].0 == tag {
            assert(s0[i as int].0 == tag);
            return Err(BundleError::TagOccupied);
        }
        proof {
            assert(i < n ==> s0[i as int].0 > tag);
            assert(!has_tag(s0, tag)) by {
                assert forall|j: int| 0 <= j < s0.len() implies s0[j].0 != tag by {
                    if j < i {
                    } else {
                        assert(s0[i as int].0 <= s0[j].0);
                    }
                }
            }
            lemma_insert_pos_char(s0, tag, i as int);
        }
        let ghost pv = payload@;
        self.entries.insert(i, (tag, payload));
        proof {
            assert(self@ =~= s0.insert(i as int, (tag, pv)));
            lemma_with_entry(s0, tag, pv);
        }
        Ok(())
    }

    /// The payload stored under `tag`, if any.
    pub fn get(&self, tag: u64) -> (r: Option<&Vec<u8>>)
        requires
            self.wf(),
        ensures
            has_tag(self@, tag) ==> r is Some && r.unwrap()@ == payload_of(self@, tag),
            !has_tag(self@, tag) ==> r is None,
    {
        let n = self.entries.len();
        let mut i: usize = 0;
        while i < n
            invariant
                0 <= i <= n,
                n == self.entries.len(),
                self.wf(),
                forall|j: int| 0 <= j < i ==> self@[j].0 != tag,
            decreases n - i,
        {
            if self.entries[i].0 == tag {
                proof {
                    assert(self@[i as int].0 == tag);
                    assert(has_tag(self@, tag));
                    let k = choose|k: int| 0 <= k < self@.len() && self@[k].0 == tag;
                    assert(0 <= k < self@.len() && self@[k].0 == tag);
                    if k < i as int {
                        assert(self@[k].0 < self@[i as int].0);
                    } else if k > i as int {
                        assert(self@[i as int].0 < self@[k].0);
                    }
                    assert(k == i as int);
                    assert(payload_of(self@, tag) == self@[i as int].1);
                    assert(self@[i as int].1 == self.entries@[i as int].1@);
                }
                return Some(&self.entries[i].1);
            }
            i = i + 1;
        }
        None
    }
}

/// Bounds and neighbour facts of `insert_pos`: everything left of it carries
/// a smaller tag, and the entry at it, if any, does not.
pub proof fn lemma_insert_pos_bounds(s: BundleView, tag: u64)
    ensures
        0 <= insert_pos(s, tag) <= s.len(),
        forall|j: int| 0 <= j < insert_pos(s, tag) ==> s[j].0 < tag,
        insert_pos(s, tag) < s.len() ==> s[insert_pos(s, tag)].0 >= tag,
    decreases s.len(),
{
    if s.len() != 0 && s[0].0 < tag {
        lemma_insert_pos_bounds(s.drop_first(), tag);
        let pos = insert_pos(s, tag);
        assert forall|j: int| 0 <= j < pos implies s[j].0 < tag by {
            if j > 0 {
                assert(s.drop_first()[j - 1] == s[j]);
            }
        }
        if pos < s.len() {
            assert(s.drop_first()[pos - 1] == s[pos]);
        }
    }
}

/// Putting a fresh entry into a sorted bundle keeps it sorted, and the new
/// tag afterwards holds exactly the new payload.
pub proof fn lemma_with_entry(s: BundleView, tag: u64, p: Seq<u8>)
    requires
        tags_sorted(s),
        !has_tag(s, tag),
    ensures
        tags_sorted(with_entry(s, tag, p)),
        has_tag(with_entry(s, tag, p), tag),
        payload_of(with_entry(s, tag, p), tag) == p,
        with_entry(s, tag, p).len() == s.len() + 1,
{
    let pos = insert_pos(s, tag);
    lemma_insert_pos_bounds(s, tag);
    if pos < s.len() {
        assert(s[pos].0 != tag);
        assert(s[pos].0 > tag);
    }
    let t = s.insert(pos, (tag, p));
    assert(forall|k: int|
        0 <= k < t.len() ==> t[k] == if k < pos {
            s[k]
        } else if k == pos {
            (tag, p)
        } else {
            s[k - 1]
        });
    assert(tags_sorted(t)) by {
        assert forall|a: int, b: int| 0 <= a < b < t.len() implies t[a].0 < t[b].0 by {
            if a < pos && b > pos {
                assert(s[a].0 < tag);
                assert(tag < s[b - 1].0);
            }
        }
    }
    assert(t[pos] == (tag, p));
    assert(has_tag(t, tag));
    let k = choose|k: int| 0 <= k < t.len() && t[k].0 == tag;
    if k < pos {
        assert(t[k].0 < t[pos].0);
    } else if k > pos {
        assert(t[pos].0 < t[k].0);
    }
    assert(payload_of(t, tag) == p);
}

/// Law: the sorted representation is canonical — two well-formed bundles that
/// hold the same payloads under the same tags are bit-identical.
pub proof fn lemma_bundle_canonical(a: BundleView, b: BundleView)
    requires
        tags_sorted(a),
        tags_sorted(b),
        forall|t: u64| has_tag(a, t) <==> has_tag(b, t),
        forall|t: u64| has_tag(a, t) ==> payload_of(a, t) == payload_of(b, t),
    ensures
        a == b,
    decreases a.len(),
{
    if a.len() == 0 {
        if b.len() > 0 {
            assert(has_tag(b, b[0].0));
        }
        assert(a =~= b);
    } else if b.len() == 0 {
        assert(has_tag(a, a[0].0));
    } else {
        // the head tags are each bundle's least tag, so they agree
        assert(has_tag(a, a[0].0));
        assert(has_tag(b, b[0].0));
        let ja = choose|j: int| 0 <= j < a.len() && a[j].0 == b[0].0;
        let jb = choose|j: int| 0 <= j < b.len() && b[j].0 == a[0].0;
        assert(0 <= ja < a.len() && a[ja].0 == b[0].0);
        assert(0 <= jb < b.len() && b[jb].0 == a[0].0);
        assert(ja > 0 ==> a[0].0 < a[ja].0);
        assert(jb > 0 ==> b[0].0 < b[jb].0);
        assert(a[0].0 == b[0].0);
        // unique tags make the head payloads the looked-up ones
        assert(payload_of(a, a[0].0) == a[0].1) by {
            let k = choose|k: int| 0 <= k < a.len() && (#[trigger] a[k]).0 == a[0].0;
            if k > 0 {
                assert(a[0].0 < a[k].0);
            }
        }
        assert(payload_of(b, b[0].0) == b[0].1) by {
            let k = choose|k: int| 0 <= k < b.len() && (#[trigger] b[k]).0 == b[0].0;
            if k > 0 {
                assert(b[0].0 < b[k].0);
            }
        }
        assert(a[0] == b[0]);
        let ta = a.drop_first();
        let tb = b.drop_first();
        assert(forall|j: int| 0 <= j < ta.len() ==> ta[j] == a[j + 1]);
        assert(forall|j: int| 0 <= j < tb.len() ==> tb[j] == b[j + 1]);
        // a tag of either tail is a tag of the other: it sits strictly above
        // the shared head tag, so its witness in the whole cannot be the head
        assert forall|t: u64| has_tag(ta, t) implies has_tag(tb, t) && payload_of(ta, t)
            == payload_of(tb, t) by {
            lemma_tail_tag(a, b, t);
        }
        assert forall|t: u64| has_tag(tb, t) implies has_tag(ta, t) by {
            lemma_tail_tag(b, a, t);
        }
        lemma_bundle_canonical(ta, tb);
        assert(a.len() == b.len());
        assert forall|i: int| 0 <= i < a.len() implies a[i] == b[i] by {
            if i > 0 {
                assert(ta[i - 1] == a[i]);
                assert(tb[i - 1] == b[i]);
            }
        }
        assert(a =~= b);
    }
}

/// A tag of `a`'s tail is a tag of `b`'s tail with the same payload, given
/// sorted bundles with equal heads and the whole-bundle agreement.
proof fn lemma_tail_tag(a: BundleView, b: BundleView, t: u64)
    requires
        tags_sorted(a),
        tags_sorted(b),
        a.len() > 0,
        b.len() > 0,
        a[0] == b[0],
        forall|u: u64| has_tag(a, u) <==> has_tag(b, u),
        forall|u: u64| has_tag(a, u) ==> payload_of(a, u) == payload_of(b, u),
        has_tag(a.drop_first(), t),
    ensures
        has_tag(b.drop_first(), t),
        payload_of(a.drop_first(), t) == payload_of(b.drop_first(), t),
{
    let ta = a.drop_first();
    let tb = b.drop_first();
    let i = choose|i: int| 0 <= i < ta.len() && ta[i].0 == t;
    assert(ta[i] == a[i + 1]);
    assert(a[0].0 < t);
    assert(has_tag(a, t));
    let j = choose|j: int| 0 <= j < b.len() && b[j].0 == t;
    assert(j != 0);
    assert(tb[j - 1] == b[j]);
    assert(has_tag(tb, t));
    // the payloads looked up in the tails are those looked up in the wholes
    assert(payload_of(ta, t) == payload_of(a, t)) by {
        let k = choose|k: int| 0 <= k < ta.len() && ta[k].0 == t;
        let m = choose|m: int| 0 <= m < a.len() && a[m].0 == t;
        assert(ta[k] == a[k + 1]);
        if m != k + 1 {
            if m < k + 1 {
                assert(a[m].0 < a[k + 1].0);
            } else {
                assert(a[k + 1].0 < a[m].0);
            }
        }
    }
    assert(payload_of(tb, t) == payload_of(b, t)) by {
        let k = choose|k: int| 0 <= k < tb.len() && tb[k].0 == t;
        let m = choose|m: int| 0 <= m < b.len() && b[m].0 == t;
        assert(tb[k] == b[k + 1]);
        if m != k + 1 {
            if m < k + 1 {
                assert(b[m].0 < b[k + 1].0);
            } else {
                assert(b[k + 1].0 < b[m].0);
            }
        }
    }
}

/// Law: a bundle is a value of its facts alone — putting the same payload
/// under the same tag into bundles that hold the same entries yields
/// bit-identical bundles, and the same verdict on the tag.
pub proof fn lemma_put_data_deterministic(a: BundleView, b: BundleView, tag: u64, payload: Seq<u8>)
    requires
        a == b,
    ensures
        with_entry(a, tag, payload) == with_entry(b, tag, payload),
        has_tag(a, tag) == has_tag(b, tag),
{
}

} // verus!
