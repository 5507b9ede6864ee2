//! Report assembly: the evaluated records are filtered by the errors-only
//! switch and sorted by port identifier in natural order, where embedded
//! runs of decimal digits compare by numeric value ("port2" before
//! "port10").

use vstd::prelude::*;

use vstd::seq_lib::lemma_multiset_commutative;
use vstd::seq_lib::group_to_multiset_ensures;

use crate::stats::PortStats;

verus! {

/// Outcome of comparing two port identifiers in natural order.
#[derive(Clone, Copy, Debug, PartialEq, Eq, Structural)]
pub enum Rel {
    Before,
    Same,
    After,
}

/// What `natord::compare` returns for a pair of strings: their natural
/// order, a deterministic function of the two strings alone.
pub uninterp spec fn nat_cmp(a: Seq<char>, b: Seq<char>) -> Rel;

/// The opposite comparison outcome.
pub open spec fn rel_flip(r: Rel) -> Rel {
    match r {
        Rel::Before => Rel::After,
        Rel::Same => Rel::Same,
        Rel::After => Rel::Before,
    }
}

/// Relies on natord::compare: a pure function of the two strings, whose
/// loop treats its arguments mirror-symmetrically, so swapping them
/// reverses the outcome.
#[verifier::external_body]
fn natural_compare(a: &str, b: &str) -> (r: Rel)
    ensures
        r == nat_cmp(a@, b@),
        nat_cmp(b@, a@) == rel_flip(r),
{
    match natord::compare(a, b) {
        std::cmp::Ordering::Less => Rel::Before,
        std::cmp::Ordering::Equal => Rel::Same,
        std::cmp::Ordering::Greater => Rel::After,
    }
}

/// Stable insertion of `x` into `s`: `x` passes every record whose port
/// does not come after `x`'s own, so it lands after any equal ports.
pub open spec fn spec_insert(x: PortStats, s: Seq<PortStats>) -> Seq<PortStats>
    decreases s.len(),
{
    if s.len() == 0 {
        seq![x]
    } else if nat_cmp(x.port@, s[0].port@) != Rel::Before {
        seq![s[0]] + spec_insert(x, s.drop_first())
    } else {
        seq![x] + s
    }
}

/// Stable insertion sort by port identifier in natural order.
pub open spec fn spec_sort(s: Seq<PortStats>) -> Seq<PortStats>
    decreases s.len(),
{
    if s.len() == 0 {
        Seq::empty()
    } else {
        spec_insert(s.last(), spec_sort(s.drop_last()))
    }
}

/// No record's port comes after its successor's.
pub open spec fn natural_ordered(s: Seq<PortStats>) -> bool {
    forall|i: int| 0 <= i && i + 1 < s.len() ==> #[trigger] nat_cmp(s[i].port@, s[i + 1].port@)
        != Rel::After
}

/// True of records the report keeps: all of them, or the faulty ones only.
pub open spec fn keeps(p: PortStats, errors_only: bool) -> bool {
    !errors_only || p.fault
}

/// The report filter as a predicate value.
pub open spec fn keep_pred(errors_only: bool) -> spec_fn(PortStats) -> bool {
    |p: PortStats| keeps(p, errors_only)
}

/// What `assemble` returns: the kept records, sorted.
pub open spec fn spec_assemble(records: Seq<PortStats>, errors_only: bool) -> Seq<PortStats> {
    spec_sort(records.filter(keep_pred(errors_only)))
}

/// Insertion only rearranges: the result holds `s`'s records plus `x`.
pub proof fn lemma_insert_multiset(x: PortStats, s: Seq<PortStats>)
    ensures
        spec_insert(x, s).to_multiset() =~= s.to_multiset().insert(x),
    decreases s.len(),
{
    broadcast use group_to_multiset_ensures;

    if s.len() == 0 {
        assert(seq![x] =~= Seq::<PortStats>::empty().push(x));
        assert(s =~= Seq::<PortStats>::empty());
    } else if nat_cmp(x.port@, s[0].port@) != Rel::Before {
        lemma_insert_multiset(x, s.drop_first());
        lemma_multiset_commutative(seq![s[0]], spec_insert(x, s.drop_first()));
        lemma_multiset_commutative(seq![s[0]], s.drop_first());
        assert(s =~= seq![s[0]] + s.drop_first());
    } else {
        lemma_multiset_commutative(seq![x], s);
        assert(seq![x] =~= Seq::<PortStats>::empty().push(x));
    }
}

/// Sorting only rearranges: the result holds exactly `s`'s records.
pub proof fn lemma_sort_multiset(s: Seq<PortStats>)
    ensures
        spec_sort(s).to_multiset() =~= s.to_multiset(),
    decreases s.len(),
{
    broadcast use group_to_multiset_ensures;

    if s.len() > 0 {
        lemma_sort_multiset(s.drop_last());
        lemma_insert_multiset(s.last(), spec_sort(s.drop_last()));
        assert(s =~= s.drop_last().push(s.last()));
    }
}

/// Inserting at the first position whose record comes after `x` realizes
/// `spec_insert` as a split of `s` around `x`.
proof fn lemma_insert_at(x: PortStats, s: Seq<PortStats>, j: int)
    requires
        0 <= j <= s.len(),
        forall|jj: int| 0 <= jj < j ==> nat_cmp(x.port@, s[jj].port@) != Rel::Before,
        j < s.len() ==> nat_cmp(x.port@, s[j].port@) == Rel::Before,
    ensures
        spec_insert(x, s) =~= s.subrange(0, j) + seq![x] + s.subrange(j, s.len() as int),
    decreases j,
{
    if j == 0 {
        if s.len() == 0 {
            assert(spec_insert(x, s) =~= s.subrange(0, 0) + seq![x] + s.subrange(0, 0));
        } else {
            assert(spec_insert(x, s) == seq![x] + s);
            assert(seq![x] + s =~= s.subrange(0, 0) + seq![x] + s.subrange(0, s.len() as int));
        }
    } else {
        let t = s.drop_first();
        assert forall|jj: int| 0 <= jj < j - 1 implies nat_cmp(x.port@, t[jj].port@)
            != Rel::Before by {
            assert(t[jj] == s[jj + 1]);
        }
        if j - 1 < t.len() {
            assert(t[j - 1] == s[j]);
        }
        lemma_insert_at(x, t, j - 1);
        assert(spec_insert(x, s) == seq![s[0]] + spec_insert(x, t));
        assert(t.subrange(0, j - 1) =~= s.subrange(1, j));
        assert(t.subrange(j - 1, t.len() as int) =~= s.subrange(j, s.len() as int));
        assert(seq![s[0]] + (s.subrange(1, j) + seq![x] + s.subrange(j, s.len() as int)) =~= s
            .subrange(0, j) + seq![x] + s.subrange(j, s.len() as int));
    }
}

/// First position whose record's port comes after `x`'s port.
fn insert_position(r: &Vec<PortStats>, x: &PortStats) -> (j: usize)
    ensures
        j <= r@.len(),
        forall|jj: int| 0 <= jj < j ==> nat_cmp(x.port@, r@[jj].port@) != Rel::Before
            && nat_cmp(r@[jj].port@, x.port@) != Rel::After,
        j < r@.len() ==> nat_cmp(x.port@, r@[j as int].port@) == Rel::Before
            && nat_cmp(r@[j as int].port@, x.port@) == Rel::After,
{
    let n = r.len();
    let mut j: usize = 0;
    while j < n
        invariant
            0 <= j <= n,
            n == r@.len(),
            forall|jj: int| 0 <= jj < j ==> nat_cmp(x.port@, r@[jj].port@) != Rel::Before
                && nat_cmp(r@[jj].port@, x.port@) != Rel::After,
        decreases n - j,
    {
        let c = natural_compare(x.port.as_str(), r[j].port.as_str());
        if c == Rel::Before {
            return j;
        }
        j += 1;
    }
    n
}

/// Inserts `x` into an ordered vector, keeping it ordered; lands after
/// records with an equal port.
fn insert_sorted(r: &mut Vec<PortStats>, x: PortStats)
    requires
        natural_ordered(old(r)@),
    ensures
        final(r)@ == spec_insert(x, old(r)@),
        natural_ordered(final(r)@),
{
    let ghost s = r@;
    let j = insert_position(r, &x);
    proof {
        lemma_insert_at(x, s, j as int);
    }
    r.insert(j, x);
    proof {
        let t = r@;
        assert(t =~= s.subrange(0, j as int) + seq![x] + s.subrange(j as int, s.len() as int));
        assert(natural_ordered(t)) by {
            assert forall|i: int| 0 <= i && i + 1 < t.len() implies #[trigger] nat_cmp(t[i].port@,
                t[i + 1].port@) != Rel::After by {
                if i + 1 < j {
                    assert(t[i] == s[i] && t[i + 1] == s[i + 1]);
                    assert(nat_cmp(s[i].port@, s[i + 1].port@) != Rel::After);
                } else if i + 1 == j {
                    assert(t[i] == s[i] && t[i + 1] == x);
                    assert(nat_cmp(s[i].port@, x.port@) != Rel::After);
                } else if i == j {
                    assert(t[i] == x && t[i + 1] == s[i]);
                    assert(nat_cmp(x.port@, s[i].port@) == Rel::Before);
                } else {
                    assert(t[i] == s[i - 1] && t[i + 1] == s[i]);
                    let i0 = i - 1;
                    assert(0 <= i0 && i0 + 1 < s.len());
                    assert(nat_cmp(s[i0].port@, s[i0 + 1].port@) != Rel::After);
                    assert(s[i0 + 1] == s[i]);
                }
            }
        }
    }
}

/// Filters by the errors-only switch, then sorts by port identifier in
/// natural order; the result holds exactly the kept records, ordered, and
/// stably so: records with equal ports keep their input order.
pub fn assemble(records: Vec<PortStats>, errors_only: bool) -> (r: Vec<PortStats>)
    ensures
        r@ == spec_assemble(records@, errors_only),
        natural_ordered(r@),
        r@.to_multiset() == records@.filter(keep_pred(errors_only)).to_multiset(),
        forall|i: int| 0 <= i < r@.len() ==> keeps(r@[i], errors_only),
{
    let ghost orig = records@;
    let mut rest = records;
    let mut kept: Vec<PortStats> = Vec::new();
    proof {
        reveal_with_fuel(Seq::<PortStats>::filter, 1);
        assert(orig.subrange(0, 0).filter(keep_pred(errors_only)) =~= Seq::<PortStats>::empty());
        assert(rest@ =~= orig.subrange(0, orig.len() as int));
    }
    while rest.len() > 0
        invariant
            rest@.len() <= orig.len(),
            rest@ =~= orig.subrange(orig.len() - rest@.len(), orig.len() as int),
            kept@ =~= orig.subrange(0, orig.len() - rest@.len()).filter(keep_pred(errors_only)),
        decreases rest@.len(),
    {
        let ghost done = orig.len() - rest@.len();
        let x = rest.remove(0);
        proof {
            assert(x == orig[done]);
            assert(rest@ =~= orig.subrange(orig.len() - rest@.len(), orig.len() as int));
            let p = orig.subrange(0, done);
            let q = orig.subrange(0, done + 1);
            assert(q =~= p.push(x));
            assert(q.drop_last() =~= p);
            assert(q.last() == x);
            reveal_with_fuel(Seq::<PortStats>::filter, 1);
            assert(keep_pred(errors_only)(x) == keeps(x, errors_only));
            if keeps(x, errors_only) {
                assert(q.filter(keep_pred(errors_only)) == p.filter(keep_pred(errors_only)).push(
                    x));
            } else {
                assert(q.filter(keep_pred(errors_only)) == p.filter(keep_pred(errors_only)));
            }
        }
        if !errors_only || x.fault {
            kept.push(x);
        }
    }
    proof {
        assert(orig.subrange(0, orig.len() as int) =~= orig);
    }
    let ghost kf = kept@;
    assert(kf == orig.filter(keep_pred(errors_only)));
    let mut rest2 = kept;
    let mut sorted: Vec<PortStats> = Vec::new();
    proof {
        assert(rest2@ =~= kf.subrange(0, kf.len() as int));
        assert(spec_sort(kf.subrange(0, 0)) =~= Seq::<PortStats>::empty());
    }
    while rest2.len() > 0
        invariant
            rest2@.len() <= kf.len(),
            rest2@ =~= kf.subrange(kf.len() - rest2@.len(), kf.len() as int),
            sorted@ == spec_sort(kf.subrange(0, kf.len() - rest2@.len())),
            natural_ordered(sorted@),
        decreases rest2@.len(),
    {
        let ghost done = kf.len() - rest2@.len();
        let x = rest2.remove(0);
        proof {
            assert(x == kf[done]);
            assert(rest2@ =~= kf.subrange(kf.len() - rest2@.len(), kf.len() as int));
        }
        insert_sorted(&mut sorted, x);
        proof {
            let q = kf.subrange(0, done + 1);
            assert(q.drop_last() =~= kf.subrange(0, done));
            assert(q.last() == x);
            assert(spec_sort(q) == spec_insert(x, spec_sort(kf.subrange(0, done))));
        }
    }
    proof {
        assert(kf.subrange(0, kf.len() as int) =~= kf);
        lemma_sort_multiset(kf);
        broadcast use group_to_multiset_ensures;

        assert forall|i: int| 0 <= i < sorted@.len() implies keeps(sorted@[i], errors_only) by {
            assert(sorted@.to_multiset().count(sorted@[i]) > 0) by {
                assert(sorted@.contains(sorted@[i]));
            }
            assert(kf.to_multiset().count(sorted@[i]) > 0);
            assert(kf.contains(sorted@[i]));
            let w = choose|w: int| 0 <= w < kf.len() && kf[w] == sorted@[i];
            assert(keep_pred(errors_only)(kf[w])) by {
                orig.lemma_filter_pred(keep_pred(errors_only), w);
            }
        }
    }
    sorted
}

} // verus!
