use vstd::prelude::*;
use vstd::seq_lib::{to_multiset_build, to_multiset_contains, to_multiset_len, to_multiset_remove};
use crate::backend::entries::{has_name, unique_names};
use crate::backend::models::LinkView;
use crate::backend::stored_form::{
    ascending, by_ordinal, decoded, encoded, inserted, merged, parsed_entries, put,
};
use crate::backend::stored_key::{DecodeError, lemma_key_round_trip, parsed_key};

verus! {

/// The records of a store: each topic with its place as its ordinal.
pub open spec fn records_of(s: Seq<(Seq<char>, Seq<LinkView>)>) -> Seq<(nat, Seq<char>, Seq<LinkView>)> {
    Seq::new(s.len(), |i: int| (i as nat, s[i].0, s[i].1))
}

/// Whether `records` is `e` with every key read: entry by entry, the
/// ordinal and the name are what the key says, and the links are the entry's.
pub open spec fn reads_as(
    e: Seq<(Seq<char>, Seq<LinkView>)>,
    records: Seq<(nat, Seq<char>, Seq<LinkView>)>,
) -> bool {
    &&& records.len() == e.len()
    &&& forall|i: int|
        0 <= i < e.len() ==> parsed_key((#[trigger] e[i]).0) == Ok::<(nat, Seq<char>), DecodeError>(
            (records[i].0, records[i].1),
        ) && records[i].2 == e[i].1
}

/// A stored form whose keys can all be read is read entry by entry.
pub proof fn lemma_parsed_entries_reads(e: Seq<(Seq<char>, Seq<LinkView>)>)
    requires
        parsed_entries(e) is Ok,
    ensures
        reads_as(e, parsed_entries(e)->Ok_0),
    decreases e.len(),
{
    if e.len() > 0 {
        lemma_parsed_entries_reads(e.drop_last());
        let front = parsed_entries(e.drop_last())->Ok_0;
        let records = parsed_entries(e)->Ok_0;
        assert forall|i: int| 0 <= i < e.len() implies parsed_key((#[trigger] e[i]).0) == Ok::<
            (nat, Seq<char>),
            DecodeError,
        >((records[i].0, records[i].1)) && records[i].2 == e[i].1 by {
            if i < e.len() - 1 {
                assert(e.drop_last()[i] == e[i]);
                assert(records[i] == front[i]);
            }
        }
    }
}

/// What reads as a stored form, entry by entry, is what parsing it gives.
pub proof fn lemma_reads_is_parsed(
    e: Seq<(Seq<char>, Seq<LinkView>)>,
    records: Seq<(nat, Seq<char>, Seq<LinkView>)>,
)
    requires
        reads_as(e, records),
    ensures
        parsed_entries(e) == Ok::<Seq<(nat, Seq<char>, Seq<LinkView>)>, DecodeError>(records),
    decreases e.len(),
{
    if e.len() == 0 {
        assert(records =~= Seq::empty());
    } else {
        let front = records.drop_last();
        assert forall|i: int| 0 <= i < e.drop_last().len() implies parsed_key(
            (#[trigger] e.drop_last()[i]).0,
        ) == Ok::<(nat, Seq<char>), DecodeError>((front[i].0, front[i].1)) && front[i].2
            == e.drop_last()[i].1 by {
            assert(e.drop_last()[i] == e[i]);
        }
        lemma_reads_is_parsed(e.drop_last(), front);
        assert(e.last() == e[e.len() - 1]);
        assert(front.push(records.last()) =~= records);
    }
}

/// The stored form of a store reads as the store's records.
pub proof fn lemma_encoded_reads(s: Seq<(Seq<char>, Seq<LinkView>)>)
    requires
        s.len() <= usize::MAX,
    ensures
        reads_as(encoded(s), records_of(s)),
{
    assert forall|i: int| 0 <= i < s.len() implies parsed_key((#[trigger] encoded(s)[i]).0) == Ok::<
        (nat, Seq<char>),
        DecodeError,
    >((records_of(s)[i].0, records_of(s)[i].1)) && records_of(s)[i].2 == encoded(s)[i].1 by {
        lemma_key_round_trip(i as nat, s[i].0);
    }
}

/// Putting a record in keeps the order ascending, and adds that record and
/// no other.
pub proof fn lemma_inserted(
    sorted: Seq<(nat, Seq<char>, Seq<LinkView>)>,
    r: (nat, Seq<char>, Seq<LinkView>),
)
    requires
        ascending(sorted),
    ensures
        ascending(inserted(sorted, r)),
        inserted(sorted, r).to_multiset() == sorted.to_multiset().insert(r),
        inserted(sorted, r).len() == sorted.len() + 1,
        inserted(sorted, r).last() == r || (sorted.len() > 0 && inserted(sorted, r).last()
            == sorted.last() && r.0 < sorted.last().0),
    decreases sorted.len(),
{
    to_multiset_build(sorted, r);
    if sorted.len() == 0 {
        assert(sorted.push(r) =~= seq![r]);
    } else if sorted.last().0 <= r.0 {
        let out = sorted.push(r);
        assert forall|i: int, j: int| 0 <= i < j < out.len() implies (#[trigger] out[i]).0 <= (
        #[trigger] out[j]).0 by {
            if j == sorted.len() {
                assert(out[i] == sorted[i]);
                if i < sorted.len() - 1 {
                    assert(sorted[i].0 <= sorted[sorted.len() - 1].0);
                }
            } else {
                assert(sorted[i].0 <= sorted[j].0);
            }
        }
    } else {
        let front = sorted.drop_last();
        assert forall|i: int, j: int| 0 <= i < j < front.len() implies (#[trigger] front[i]).0 <= (
        #[trigger] front[j]).0 by {
            assert(sorted[i].0 <= sorted[j].0);
        }
        lemma_inserted(front, r);
        let mid = inserted(front, r);
        let out = mid.push(sorted.last());
        assert(mid.last() == mid[mid.len() - 1]);
        assert(mid.last().0 <= sorted.last().0) by {
            if mid.last() != r {
                assert(front.last() == sorted[sorted.len() - 2]);
                assert(sorted[sorted.len() - 2].0 <= sorted[sorted.len() - 1].0);
            }
        }
        assert forall|i: int, j: int| 0 <= i < j < out.len() implies (#[trigger] out[i]).0 <= (
        #[trigger] out[j]).0 by {
            if j == mid.len() {
                assert(out[i] == mid[i]);
                if i < mid.len() - 1 {
                    assert(mid[i].0 <= mid[mid.len() - 1].0);
                }
            } else {
                assert(mid[i].0 <= mid[j].0);
            }
        }
        to_multiset_build(mid, sorted.last());
        to_multiset_build(front, sorted.last());
        assert(front.push(sorted.last()) =~= sorted);
        assert(out.to_multiset() =~= sorted.to_multiset().insert(r));
    }
}

/// Sorting by ordinal gives an ascending order of the same records.
pub proof fn lemma_by_ordinal(records: Seq<(nat, Seq<char>, Seq<LinkView>)>)
    ensures
        ascending(by_ordinal(records)),
        by_ordinal(records).to_multiset() == records.to_multiset(),
        by_ordinal(records).len() == records.len(),
    decreases records.len(),
{
    if records.len() == 0 {
        assert(by_ordinal(records) =~= records);
    } else {
        lemma_by_ordinal(records.drop_last());
        lemma_inserted(by_ordinal(records.drop_last()), records.last());
        to_multiset_build(records.drop_last(), records.last());
        assert(records.drop_last().push(records.last()) =~= records);
    }
}

/// Two stored forms with the same entries, in whatever order, read as the
/// same records, in whatever order.
pub proof fn lemma_parsed_permutation(
    p: Seq<(Seq<char>, Seq<LinkView>)>,
    q: Seq<(Seq<char>, Seq<LinkView>)>,
)
    requires
        p.to_multiset() == q.to_multiset(),
        parsed_entries(q) is Ok,
    ensures
        parsed_entries(p) is Ok,
        parsed_entries(p)->Ok_0.to_multiset() == parsed_entries(q)->Ok_0.to_multiset(),
    decreases p.len(),
{
    to_multiset_len(p);
    to_multiset_len(q);
    let rq = parsed_entries(q)->Ok_0;
    if p.len() == 0 {
        assert(p =~= q);
    } else {
        let x = p.last();
        assert(p[p.len() - 1] == x);
        assert(p.contains(x));
        to_multiset_contains(p, x);
        to_multiset_contains(q, x);
        let j = choose|j: int| 0 <= j < q.len() && q[j] == x;
        let p1 = p.drop_last();
        let q1 = q.remove(j);
        assert(p.remove(p.len() - 1) =~= p1);
        to_multiset_remove(p, p.len() - 1);
        to_multiset_remove(q, j);
        lemma_parsed_entries_reads(q);
        let rq1 = rq.remove(j);
        assert forall|i: int| 0 <= i < q1.len() implies parsed_key((#[trigger] q1[i]).0) == Ok::<
            (nat, Seq<char>),
            DecodeError,
        >((rq1[i].0, rq1[i].1)) && rq1[i].2 == q1[i].1 by {
            let i0 = if i < j { i } else { i + 1 };
            assert(q1[i] == q[i0]);
            assert(rq1[i] == rq[i0]);
        }
        lemma_reads_is_parsed(q1, rq1);
        lemma_parsed_permutation(p1, q1);
        let rp1 = parsed_entries(p1)->Ok_0;
        assert(parsed_key(q[j].0) == Ok::<(nat, Seq<char>), DecodeError>((rq[j].0, rq[j].1)));
        assert(parsed_entries(p) == Ok::<Seq<(nat, Seq<char>, Seq<LinkView>)>, DecodeError>(
            rp1.push(rq[j]),
        ));
        to_multiset_build(rp1, rq[j]);
        to_multiset_remove(rq, j);
        assert(rq.contains(rq[j]));
        to_multiset_contains(rq, rq[j]);
        assert(rq.to_multiset().remove(rq[j]).insert(rq[j]) =~= rq.to_multiset());
    }
}

/// Records in ascending order that are, as a collection, the records of a
/// store are the records of the store in the store's order.
pub proof fn lemma_ascending_is_store_order(
    a: Seq<(nat, Seq<char>, Seq<LinkView>)>,
    s: Seq<(Seq<char>, Seq<LinkView>)>,
)
    requires
        ascending(a),
        a.to_multiset() == records_of(s).to_multiset(),
    ensures
        a == records_of(s),
    decreases s.len(),
{
    let b = records_of(s);
    to_multiset_len(a);
    to_multiset_len(b);
    if s.len() == 0 {
        assert(a =~= b);
    } else {
        let n = s.len() as int;
        assert(a[n - 1] == a.last());
        assert(b[n - 1] == b.last());
        assert(a.contains(a.last()));
        assert(b.contains(b.last()));
        to_multiset_contains(a, a.last());
        to_multiset_contains(b, a.last());
        to_multiset_contains(a, b.last());
        to_multiset_contains(b, b.last());
        let j = choose|j: int| 0 <= j < b.len() && b[j] == a.last();
        let k = choose|k: int| 0 <= k < a.len() && a[k] == b.last();
        assert(a.last().0 == j);
        assert(a[k].0 == n - 1);
        if k < n - 1 {
            assert(a[k].0 <= a[n - 1].0);
        }
        assert(j == n - 1);
        assert(a.last() == b.last());
        let a1 = a.drop_last();
        let s1 = s.drop_last();
        assert(a.remove(n - 1) =~= a1);
        assert(b.remove(n - 1) =~= records_of(s1));
        to_multiset_remove(a, n - 1);
        to_multiset_remove(b, n - 1);
        assert forall|i: int, j: int| 0 <= i < j < a1.len() implies (#[trigger] a1[i]).0 <= (
        #[trigger] a1[j]).0 by {
            assert(a[i].0 <= a[j].0);
        }
        lemma_ascending_is_store_order(a1, s1);
        assert(a =~= a1.push(a.last()));
        assert(b =~= records_of(s1).push(b.last()));
    }
}

/// Filing the records of a store in an empty store, in the store's order,
/// gives the store.
pub proof fn lemma_merged_records(s: Seq<(Seq<char>, Seq<LinkView>)>)
    requires
        unique_names(s),
    ensures
        merged(Seq::empty(), records_of(s)) == s,
    decreases s.len(),
{
    if s.len() == 0 {
        assert(s =~= Seq::empty());
    } else {
        let s1 = s.drop_last();
        let n = s.len() as int;
        assert forall|i: int, j: int| 0 <= i < j < s1.len() implies (#[trigger] s1[i]).0 != (
        #[trigger] s1[j]).0 by {
            assert(s[i].0 != s[j].0);
        }
        lemma_merged_records(s1);
        assert(records_of(s).drop_last() =~= records_of(s1));
        assert(records_of(s).last() == (((n - 1) as nat), s[n - 1].0, s[n - 1].1));
        assert(!has_name(s1, s[n - 1].0)) by {
            if has_name(s1, s[n - 1].0) {
                let i = choose|i: int| 0 <= i < s1.len() && (#[trigger] s1[i]).0 == s[n - 1].0;
                assert(s1[i] == s[i]);
                assert(s[i].0 != s[n - 1].0);
            }
        }
        assert(put(s1, s[n - 1].0, s[n - 1].1) =~= s);
    }
}

/// A store that is written and read again is the same store: the same
/// topics in the same order, each with the same links in the same order.
/// This holds in whatever order the written entries come back.
pub proof fn lemma_round_trip(s: Seq<(Seq<char>, Seq<LinkView>)>, read: Seq<(Seq<char>, Seq<LinkView>)>)
    requires
        unique_names(s),
        s.len() <= usize::MAX,
        read.to_multiset() == encoded(s).to_multiset(),
    ensures
        decoded(read) == Ok::<Seq<(Seq<char>, Seq<LinkView>)>, DecodeError>(s),
{
    lemma_encoded_reads(s);
    lemma_reads_is_parsed(encoded(s), records_of(s));
    lemma_parsed_permutation(read, encoded(s));
    let records = parsed_entries(read)->Ok_0;
    lemma_by_ordinal(records);
    lemma_ascending_is_store_order(by_ordinal(records), s);
    lemma_merged_records(s);
}

/// A store that is written and read again, the entries in the order in
/// which they were written, is the same store.
pub proof fn lemma_round_trip_in_order(s: Seq<(Seq<char>, Seq<LinkView>)>)
    requires
        unique_names(s),
        s.len() <= usize::MAX,
    ensures
        decoded(encoded(s)) == Ok::<Seq<(Seq<char>, Seq<LinkView>)>, DecodeError>(s),
{
    lemma_round_trip(s, encoded(s));
}

} // verus!
