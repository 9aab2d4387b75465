use vstd::prelude::*;
use crate::backend::entries::{
    has_name, index_of_name, lemma_index_of_name, lemma_insert_unique, lemma_update_unique,
    unique_names,
};
use crate::backend::models::{LinkModel, LinkView, clone_links, links_view};
use crate::backend::stored_key::{DecodeError, decode_key, parsed_key, stored_key};

verus! {

/// The stored form of a store: one entry for each topic, in store order,
/// keyed by the topic's place and name, with the topic's links.
pub open spec fn encoded(s: Seq<(Seq<char>, Seq<LinkView>)>) -> Seq<(Seq<char>, Seq<LinkView>)> {
    Seq::new(s.len(), |i: int| (stored_key(i as nat, s[i].0), s[i].1))
}

/// The entries of a stored form with their keys read: for each entry its
/// ordinal, its topic's name and its links, in the order of `e`. Where some
/// key cannot be read, the error of the first such key.
pub open spec fn parsed_entries(e: Seq<(Seq<char>, Seq<LinkView>)>) -> Result<
    Seq<(nat, Seq<char>, Seq<LinkView>)>,
    DecodeError,
>
    decreases e.len(),
{
    if e.len() == 0 {
        Ok(Seq::empty())
    } else {
        match parsed_entries(e.drop_last()) {
            Err(error) => Err(error),
            Ok(records) => match parsed_key(e.last().0) {
                Err(error) => Err(error),
                Ok((ordinal, name)) => Ok(records.push((ordinal, name, e.last().1))),
            },
        }
    }
}

/// `sorted` with `r` put in behind the last record whose ordinal is not
/// greater than that of `r`.
pub open spec fn inserted(
    sorted: Seq<(nat, Seq<char>, Seq<LinkView>)>,
    r: (nat, Seq<char>, Seq<LinkView>),
) -> Seq<(nat, Seq<char>, Seq<LinkView>)>
    decreases sorted.len(),
{
    if sorted.len() == 0 {
        seq![r]
    } else if sorted.last().0 <= r.0 {
        sorted.push(r)
    } else {
        inserted(sorted.drop_last(), r).push(sorted.last())
    }
}

/// The records in ascending order of their ordinals; records with the same
/// ordinal stay in the order in which they came.
pub open spec fn by_ordinal(records: Seq<(nat, Seq<char>, Seq<LinkView>)>) -> Seq<
    (nat, Seq<char>, Seq<LinkView>),
>
    decreases records.len(),
{
    if records.len() == 0 {
        Seq::empty()
    } else {
        inserted(by_ordinal(records.drop_last()), records.last())
    }
}

/// Whether the ordinals of `records` never fall from one record to the next.
pub open spec fn ascending(records: Seq<(nat, Seq<char>, Seq<LinkView>)>) -> bool {
    forall|i: int, j: int|
        0 <= i < j < records.len() ==> (#[trigger] records[i]).0 <= (#[trigger] records[j]).0
}

/// `s` after `links` have been filed under `name`: an entry of that name
/// keeps its place and takes the links in place of its own; otherwise a new
/// entry becomes the last.
pub open spec fn put(s: Seq<(Seq<char>, Seq<LinkView>)>, name: Seq<char>, links: Seq<LinkView>) -> Seq<
    (Seq<char>, Seq<LinkView>),
> {
    if has_name(s, name) {
        s.update(index_of_name(s, name), (name, links))
    } else {
        s.push((name, links))
    }
}

/// `s` after each of `records` has been filed in it, in their order.
pub open spec fn merged(
    s: Seq<(Seq<char>, Seq<LinkView>)>,
    records: Seq<(nat, Seq<char>, Seq<LinkView>)>,
) -> Seq<(Seq<char>, Seq<LinkView>)>
    decreases records.len(),
{
    if records.len() == 0 {
        s
    } else {
        put(merged(s, records.drop_last()), records.last().1, records.last().2)
    }
}

/// What results when the stored form `e` is read into the store `s`: the
/// entries of `e`, taken in ascending order of their ordinals and under the
/// names that their keys give, are filed in `s` one after the other. Where
/// a key of `e` cannot be read, the error of the first such key.
pub open spec fn decoded_into(
    s: Seq<(Seq<char>, Seq<LinkView>)>,
    e: Seq<(Seq<char>, Seq<LinkView>)>,
) -> Result<Seq<(Seq<char>, Seq<LinkView>)>, DecodeError> {
    match parsed_entries(e) {
        Ok(records) => Ok(merged(s, by_ordinal(records))),
        Err(error) => Err(error),
    }
}

/// The store that the stored form `e` describes.
pub open spec fn decoded(e: Seq<(Seq<char>, Seq<LinkView>)>) -> Result<
    Seq<(Seq<char>, Seq<LinkView>)>,
    DecodeError,
> {
    decoded_into(Seq::empty(), e)
}

/// The view of a list of stored entries: each key with its links.
pub open spec fn entries_view(stored: Seq<(String, Vec<LinkModel>)>) -> Seq<(Seq<char>, Seq<LinkView>)> {
    stored.map_values(|e: (String, Vec<LinkModel>)| (e.0@, links_view(e.1@)))
}

/// The view of a list of records: each ordinal with its name and links.
pub open spec fn records_view(records: Seq<(usize, String, Vec<LinkModel>)>) -> Seq<
    (nat, Seq<char>, Seq<LinkView>),
> {
    records.map_values(|r: (usize, String, Vec<LinkModel>)| (r.0 as nat, r.1@, links_view(r.2@)))
}

/// Putting a record in at the place behind which every ordinal is greater,
/// and before which the nearest is not, is `inserted`.
pub proof fn lemma_inserted_at(
    sorted: Seq<(nat, Seq<char>, Seq<LinkView>)>,
    r: (nat, Seq<char>, Seq<LinkView>),
    at: int,
)
    requires
        0 <= at <= sorted.len(),
        forall|j: int| at <= j < sorted.len() ==> (#[trigger] sorted[j]).0 > r.0,
        at > 0 ==> sorted[at - 1].0 <= r.0,
    ensures
        inserted(sorted, r) == sorted.insert(at, r),
    decreases sorted.len(),
{
    if sorted.len() == 0 {
        assert(sorted.insert(at, r) =~= seq![r]);
    } else if at == sorted.len() {
        assert(sorted.insert(at, r) =~= sorted.push(r));
    } else {
        assert(sorted.last().0 > r.0);
        let front = sorted.drop_last();
        assert forall|j: int| at <= j < front.len() implies (#[trigger] front[j]).0 > r.0 by {
            assert(front[j] == sorted[j]);
        }
        lemma_inserted_at(front, r, at);
        assert(front.insert(at, r).push(sorted.last()) =~= sorted.insert(at, r));
    }
}

/// Reads the keys of the stored entries and puts the entries in ascending
/// order of their ordinals, entries with the same ordinal in the order in
/// which they came. Fails with the error of the first key that cannot be
/// read.
pub fn decode_entries(stored: &Vec<(String, Vec<LinkModel>)>) -> (outcome: Result<
    Vec<(usize, String, Vec<LinkModel>)>,
    DecodeError,
>)
    ensures
        match outcome {
            Ok(records) => match parsed_entries(entries_view(stored@)) {
                Ok(parsed) => records_view(records@) == by_ordinal(parsed),
                Err(_) => false,
            },
            Err(error) => parsed_entries(entries_view(stored@)) == Err::<
                Seq<(nat, Seq<char>, Seq<LinkView>)>,
                DecodeError,
            >(error),
        },
{
    let ghost e = entries_view(stored@);
    let mut records: Vec<(usize, String, Vec<LinkModel>)> = Vec::new();
    let mut i: usize = 0;
    assert(e.take(0) =~= Seq::empty());
    assert(records_view(records@) =~= Seq::empty());
    while i < stored.len()
        invariant
            i <= stored.len(),
            e == entries_view(stored@),
            match parsed_entries(e.take(i as int)) {
                Ok(parsed) => records_view(records@) == by_ordinal(parsed),
                Err(_) => false,
            },
        decreases stored.len() - i,
    {
        let ghost before = e.take(i as int);
        let ghost upto = e.take(i + 1);
        assert(upto.drop_last() =~= before);
        assert(upto.last() == e[i as int]);
        assert(e[i as int] == (stored@[i as int].0@, links_view(stored@[i as int].1@)));
        match decode_key(stored[i].0.as_str()) {
            Err(error) => {
                proof {
                    lemma_unread_key_fails(e, i as int);
                }
                return Err(error);
            },
            Ok((ordinal, name)) => {
                let links = clone_links(&stored[i].1);
                let ghost r = (ordinal as nat, name@, links_view(links@));
                let ghost sorted = records_view(records@);
                let mut at: usize = records.len();
                while at > 0 && records[at - 1].0 > ordinal
                    invariant
                        at <= records.len(),
                        sorted == records_view(records@),
                        r.0 == ordinal,
                        forall|j: int| at <= j < sorted.len() ==> (#[trigger] sorted[j]).0 > r.0,
                    decreases at,
                {
                    at -= 1;
                }
                proof {
                    lemma_inserted_at(sorted, r, at as int);
                    let earlier = parsed_entries(before)->Ok_0;
                    let now = earlier.push(r);
                    assert(parsed_entries(upto) == Ok::<
                        Seq<(nat, Seq<char>, Seq<LinkView>)>,
                        DecodeError,
                    >(now));
                    assert(now.drop_last() =~= earlier);
                    assert(by_ordinal(now) == inserted(by_ordinal(earlier), r));
                }
                records.insert(at, (ordinal, name, links));
                assert(records_view(records@) =~= sorted.insert(at as int, r));
            },
        }
        i += 1;
    }
    assert(e.take(i as int) =~= e);
    Ok(records)
}

/// A key that cannot be read makes the whole stored form unreadable, where
/// every key before it can be read: the error is that key's.
pub proof fn lemma_unread_key_fails(e: Seq<(Seq<char>, Seq<LinkView>)>, i: int)
    requires
        0 <= i < e.len(),
        parsed_entries(e.take(i)) is Ok,
        parsed_key(e[i].0) is Err,
    ensures
        parsed_entries(e) is Err,
        parsed_entries(e)->Err_0 == parsed_key(e[i].0)->Err_0,
    decreases e.len() - i,
{
    assert(e.take(i + 1).drop_last() =~= e.take(i));
    assert(e.take(i + 1).last() == e[i]);
    lemma_error_stays(e, i + 1);
}

/// Once the beginning of a stored form is unreadable, the whole is, with
/// the same error.
pub proof fn lemma_error_stays(e: Seq<(Seq<char>, Seq<LinkView>)>, n: int)
    requires
        0 <= n <= e.len(),
        parsed_entries(e.take(n)) is Err,
    ensures
        parsed_entries(e) == parsed_entries(e.take(n)),
    decreases e.len() - n,
{
    if n == e.len() {
        assert(e.take(n) =~= e);
    } else {
        assert(e.take(n + 1).drop_last() =~= e.take(n));
        lemma_error_stays(e, n + 1);
    }
}

/// Filing links under a name keeps names unique, and where an entry has the
/// name, it is that entry which takes the links.
pub proof fn lemma_put(s: Seq<(Seq<char>, Seq<LinkView>)>, name: Seq<char>, links: Seq<LinkView>)
    requires
        unique_names(s),
    ensures
        unique_names(put(s, name, links)),
        forall|i: int|
            0 <= i < s.len() && (#[trigger] s[i]).0 == name ==> put(s, name, links) == s.update(
                i,
                (name, links),
            ),
{
    if has_name(s, name) {
        let at = index_of_name(s, name);
        lemma_index_of_name(s, at);
        lemma_update_unique(s, at, links);
        assert forall|i: int| 0 <= i < s.len() && (#[trigger] s[i]).0 == name implies i == at by {
            lemma_index_of_name(s, i);
        }
    } else {
        lemma_insert_unique(s, s.len() as int, (name, links));
        assert(s.insert(s.len() as int, (name, links)) =~= s.push((name, links)));
    }
}

} // verus!
