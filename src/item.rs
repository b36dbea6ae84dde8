//! One trashed item, and the order in which items are listed.
use vstd::prelude::*;
use vstd::multiset::Multiset;

verus! {

broadcast use {vstd::seq_lib::group_to_multiset_ensures, vstd::multiset::group_multiset_axioms};

/// A trashed entry, as a scan of the store finds it.
#[derive(Clone, Debug)]
pub struct TrashItem {
    /// The absolute path that the entry had before it was trashed.
    pub original_path: String,
    /// When it was trashed, in seconds since the Unix epoch (UTC).
    pub deletion_time: i64,
    /// The name of its content in the store's content area.
    pub trashed_name: String,
    /// Where its sidecar lies.
    pub info_path: String,
}

/// Each item is at least as recent as every item after it.
pub open spec fn newest_first(s: Seq<TrashItem>) -> bool {
    forall|i: int, j: int| 0 <= i < j < s.len() ==> s[i].deletion_time >= s[j].deletion_time
}

/// `r` lists exactly the items of `s`, newest first.
pub open spec fn listed_newest_first(s: Seq<TrashItem>, r: Seq<TrashItem>) -> bool {
    r.to_multiset() == s.to_multiset() && newest_first(r)
}

/// Orders items by deletion time, newest first.
pub fn order_newest_first(items: Vec<TrashItem>) -> (r: Vec<TrashItem>)
    ensures
        listed_newest_first(items@, r@),
{
    let ghost all = items@;
    let mut rest = items;
    let mut out: Vec<TrashItem> = Vec::new();
    assert(out@.to_multiset() =~= Multiset::empty());
    while rest.len() > 0
        invariant
            out@.to_multiset().add(rest@.to_multiset()) == all.to_multiset(),
            newest_first(out@),
        decreases rest@.len(),
    {
        let ghost before = rest@;
        let x = rest.remove(0);
        assert(before.to_multiset() == rest@.to_multiset().insert(x)) by {
            vstd::seq_lib::to_multiset_remove(before, 0);
        };
        let t = x.deletion_time;
        let mut pos: usize = 0;
        while pos < out.len() && out[pos].deletion_time >= t
            invariant
                pos <= out@.len(),
                forall|k: int| 0 <= k < pos ==> out@[k].deletion_time >= t,
            decreases out@.len() - pos,
        {
            pos = pos + 1;
        }
        let ghost prev = out@;
        out.insert(pos, x);
        proof {
            vstd::seq_lib::to_multiset_insert(prev, pos as int, x);
        }
        assert forall|i: int, j: int| 0 <= i < j < out@.len() implies
            out@[i].deletion_time >= out@[j].deletion_time by {
            if i < pos && j == pos {
            } else if i < pos && j > pos {
                assert(out@[j] == prev[j - 1]);
            } else if i == pos && j > pos {
                assert(out@[j] == prev[j - 1]);
                assert(pos < prev.len());
                assert(prev[pos as int].deletion_time < t);
            } else if i > pos {
                assert(out@[i] == prev[i - 1]);
                assert(out@[j] == prev[j - 1]);
            } else {
                assert(out@[i] == prev[i]);
                assert(out@[j] == prev[j]);
            }
        };
    }
    assert(rest@.to_multiset().len() == 0);
    assert(rest@.to_multiset() =~= Multiset::empty());
    assert(out@.to_multiset().add(rest@.to_multiset()) =~= out@.to_multiset());
    out
}

/// Items trashed one after another are listed newest first: three items with
/// increasing deletion times come out in the reverse order.
pub proof fn lemma_listing_reverses_trash_order(
    a: TrashItem,
    b: TrashItem,
    c: TrashItem,
    r: Seq<TrashItem>,
)
    requires
        a.deletion_time < b.deletion_time,
        b.deletion_time < c.deletion_time,
        listed_newest_first(seq![a, b, c], r),
    ensures
        r == seq![c, b, a],
{
    let s = seq![a, b, c];
    assert(s.contains(a) && s.contains(b) && s.contains(c)) by {
        assert(s[0] == a && s[1] == b && s[2] == c);
    };
    assert(r.len() == 3) by {
        assert(r.to_multiset().len() == s.to_multiset().len());
    };
    assert(r.contains(a) && r.contains(b) && r.contains(c)) by {
        assert(r.to_multiset().count(a) > 0);
        assert(r.to_multiset().count(b) > 0);
        assert(r.to_multiset().count(c) > 0);
    };
    assert forall|i: int| 0 <= i < 3 implies r[i] == a || r[i] == b || r[i] == c by {
        assert(r.contains(r[i]));
        assert(s.to_multiset().count(r[i]) > 0);
        assert(s.contains(r[i]));
    };
    let ia = choose|i: int| 0 <= i < 3 && r[i] == a;
    let ib = choose|i: int| 0 <= i < 3 && r[i] == b;
    let ic = choose|i: int| 0 <= i < 3 && r[i] == c;
    assert(ic < ib && ib < ia);
    assert(r =~= seq![c, b, a]);
}

} // verus!
