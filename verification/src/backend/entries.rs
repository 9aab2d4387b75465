use vstd::prelude::*;
use crate::backend::models::{LinkView, same_link};

verus! {

/// Whether some entry of `s` carries the name `name`.
pub open spec fn has_name(s: Seq<(Seq<char>, Seq<LinkView>)>, name: Seq<char>) -> bool {
    exists|i: int| 0 <= i < s.len() && (#[trigger] s[i]).0 == name
}

/// The place of the entry named `name`; meaningful where `has_name` holds.
pub open spec fn index_of_name(s: Seq<(Seq<char>, Seq<LinkView>)>, name: Seq<char>) -> int {
    choose|i: int| 0 <= i < s.len() && (#[trigger] s[i]).0 == name
}

/// No two entries of `s` carry the same name.
pub open spec fn unique_names(s: Seq<(Seq<char>, Seq<LinkView>)>) -> bool {
    forall|i: int, j: int| 0 <= i < j < s.len() ==> (#[trigger] s[i]).0 != (#[trigger] s[j]).0
}

/// The names of the entries, in order.
pub open spec fn names(s: Seq<(Seq<char>, Seq<LinkView>)>) -> Seq<Seq<char>> {
    s.map_values(|e: (Seq<char>, Seq<LinkView>)| e.0)
}

/// The links filed under `name`, or none where no entry carries that name.
pub open spec fn links_of(s: Seq<(Seq<char>, Seq<LinkView>)>, name: Seq<char>) -> Seq<LinkView> {
    if has_name(s, name) {
        s[index_of_name(s, name)].1
    } else {
        Seq::empty()
    }
}

/// `s` with an empty entry named `name` at its end, unless the name is taken.
pub open spec fn with_topic(s: Seq<(Seq<char>, Seq<LinkView>)>, name: Seq<char>) -> Seq<
    (Seq<char>, Seq<LinkView>),
> {
    if has_name(s, name) {
        s
    } else {
        s.push((name, Seq::empty()))
    }
}

/// `s` without the entry named `name`; the others keep their order.
pub open spec fn without_topic(s: Seq<(Seq<char>, Seq<LinkView>)>, name: Seq<char>) -> Seq<
    (Seq<char>, Seq<LinkView>),
> {
    if has_name(s, name) {
        s.remove(index_of_name(s, name))
    } else {
        s
    }
}

/// `s` with the element at `from` taken out and put back at `to`; what lies
/// between the two places shifts by one.
pub open spec fn moved<T>(s: Seq<T>, from: int, to: int) -> Seq<T> {
    s.remove(from).insert(to, s[from])
}

/// `s` after the entry named `old_name` has been renamed to `new_name`.
///
/// The renamed entry keeps its place and its links. Where another entry
/// already carries `new_name`, that entry gives way: it is dropped, and the
/// renamed entry stands at the old place, or at the end where the old place
/// was the last.
pub open spec fn renamed(
    s: Seq<(Seq<char>, Seq<LinkView>)>,
    old_name: Seq<char>,
    new_name: Seq<char>,
) -> Seq<(Seq<char>, Seq<LinkView>)> {
    if !has_name(s, old_name) {
        s
    } else {
        let at = index_of_name(s, old_name);
        let rest = s.remove(at);
        if has_name(rest, new_name) {
            let last = rest.len() - 1;
            rest.remove(index_of_name(rest, new_name)).insert(
                if at < last { at } else { last },
                (new_name, s[at].1),
            )
        } else {
            rest.insert(at, (new_name, s[at].1))
        }
    }
}

/// `s` with `link` at the end of the entry named `name`; the entry is made,
/// last in order, where it is missing.
pub open spec fn with_link(s: Seq<(Seq<char>, Seq<LinkView>)>, name: Seq<char>, link: LinkView) -> Seq<
    (Seq<char>, Seq<LinkView>),
> {
    if has_name(s, name) {
        let at = index_of_name(s, name);
        s.update(at, (name, s[at].1.push(link)))
    } else {
        s.push((name, seq![link]))
    }
}

/// Whether `links` holds a link with the title and URL of `link`.
pub open spec fn has_link(links: Seq<LinkView>, link: LinkView) -> bool {
    exists|k: int| 0 <= k < links.len() && same_link(#[trigger] links[k], link)
}

/// Whether `k` is the first place in `links` of a link with the title and URL of `link`.
pub open spec fn is_first_link(links: Seq<LinkView>, link: LinkView, k: int) -> bool {
    &&& 0 <= k < links.len()
    &&& same_link(links[k], link)
    &&& forall|j: int| 0 <= j < k ==> !same_link(#[trigger] links[j], link)
}

/// The first place in `links` of a link with the title and URL of `link`;
/// meaningful where `has_link` holds.
pub open spec fn first_link(links: Seq<LinkView>, link: LinkView) -> int {
    choose|k: int| is_first_link(links, link, k)
}

/// `links` with the first match of `old_link` replaced by `new_link`.
pub open spec fn links_with_edit(links: Seq<LinkView>, old_link: LinkView, new_link: LinkView) -> Seq<
    LinkView,
> {
    if has_link(links, old_link) {
        links.update(first_link(links, old_link), new_link)
    } else {
        links
    }
}

/// `links` without the first match of `link`.
pub open spec fn links_without(links: Seq<LinkView>, link: LinkView) -> Seq<LinkView> {
    if has_link(links, link) {
        links.remove(first_link(links, link))
    } else {
        links
    }
}

/// `s` with the links of the entry named `name` replaced by `links`; `s`
/// itself where no entry carries that name.
pub open spec fn with_links(s: Seq<(Seq<char>, Seq<LinkView>)>, name: Seq<char>, links: Seq<LinkView>) -> Seq<
    (Seq<char>, Seq<LinkView>),
> {
    if has_name(s, name) {
        s.update(index_of_name(s, name), (name, links))
    } else {
        s
    }
}

/// Where names are unique, the entry at `i` is the one that its name finds.
pub proof fn lemma_index_of_name(s: Seq<(Seq<char>, Seq<LinkView>)>, i: int)
    requires
        unique_names(s),
        0 <= i < s.len(),
    ensures
        has_name(s, s[i].0),
        index_of_name(s, s[i].0) == i,
{
    let name = s[i].0;
    let j = index_of_name(s, name);
    assert(0 <= j < s.len() && s[j].0 == name);
    if j != i {
        if j < i {
            assert(s[j].0 != s[i].0);
        } else {
            assert(s[i].0 != s[j].0);
        }
    }
}

/// A first match is the one that `first_link` names.
pub proof fn lemma_first_link(links: Seq<LinkView>, link: LinkView, k: int)
    requires
        is_first_link(links, link, k),
    ensures
        has_link(links, link),
        first_link(links, link) == k,
{
    let c = first_link(links, link);
    assert(is_first_link(links, link, c));
    if c < k {
        assert(!same_link(links[c], link));
    }
    if k < c {
        assert(!same_link(links[k], link));
    }
}

/// Taking an entry out keeps names unique.
pub proof fn lemma_remove_unique(s: Seq<(Seq<char>, Seq<LinkView>)>, i: int)
    requires
        unique_names(s),
        0 <= i < s.len(),
    ensures
        unique_names(s.remove(i)),
        !has_name(s.remove(i), s[i].0),
{
    let r = s.remove(i);
    assert forall|a: int, b: int| 0 <= a < b < r.len() implies (#[trigger] r[a]).0 != (#[trigger] r[b]).0 by {
        let a0 = if a < i { a } else { a + 1 };
        let b0 = if b < i { b } else { b + 1 };
        assert(r[a] == s[a0]);
        assert(r[b] == s[b0]);
        assert(s[a0].0 != s[b0].0);
    }
    assert forall|a: int| 0 <= a < r.len() implies (#[trigger] r[a]).0 != s[i].0 by {
        let a0 = if a < i { a } else { a + 1 };
        assert(r[a] == s[a0]);
        if a0 < i {
            assert(s[a0].0 != s[i].0);
        } else {
            assert(s[i].0 != s[a0].0);
        }
    }
}

/// Putting in an entry under a name that is free keeps names unique.
pub proof fn lemma_insert_unique(s: Seq<(Seq<char>, Seq<LinkView>)>, i: int, e: (Seq<char>, Seq<LinkView>))
    requires
        unique_names(s),
        !has_name(s, e.0),
        0 <= i <= s.len(),
    ensures
        unique_names(s.insert(i, e)),
        has_name(s.insert(i, e), e.0),
        index_of_name(s.insert(i, e), e.0) == i,
{
    let r = s.insert(i, e);
    assert forall|a: int, b: int| 0 <= a < b < r.len() implies (#[trigger] r[a]).0 != (#[trigger] r[b]).0 by {
        if a == i {
            assert(r[b] == s[b - 1]);
        } else if b == i {
            assert(r[a] == s[a]);
        } else {
            let a0 = if a < i { a } else { a - 1 };
            let b0 = if b < i { b } else { b - 1 };
            assert(r[a] == s[a0]);
            assert(r[b] == s[b0]);
            assert(s[a0].0 != s[b0].0);
        }
    }
    assert(r[i] == e);
    lemma_index_of_name(r, i);
}

/// Replacing an entry by one of the same name keeps names unique.
pub proof fn lemma_update_unique(s: Seq<(Seq<char>, Seq<LinkView>)>, i: int, links: Seq<LinkView>)
    requires
        unique_names(s),
        0 <= i < s.len(),
    ensures
        unique_names(s.update(i, (s[i].0, links))),
{
    let r = s.update(i, (s[i].0, links));
    assert forall|a: int, b: int| 0 <= a < b < r.len() implies (#[trigger] r[a]).0 != (#[trigger] r[b]).0 by {
        assert(r[a].0 == s[a].0);
        assert(r[b].0 == s[b].0);
        assert(s[a].0 != s[b].0);
    }
}

/// Adding a topic twice is adding it once: after the first addition the
/// store has exactly one topic of that name, with the links it had before
/// (none, where the topic was new), and the second addition changes nothing.
pub proof fn lemma_add_topic_idempotent(s: Seq<(Seq<char>, Seq<LinkView>)>, name: Seq<char>)
    requires
        unique_names(s),
    ensures
        with_topic(with_topic(s, name), name) == with_topic(s, name),
        unique_names(with_topic(s, name)),
        has_name(with_topic(s, name), name),
        links_of(with_topic(s, name), name) == links_of(s, name),
{
    let once = with_topic(s, name);
    if has_name(s, name) {
    } else {
        lemma_insert_unique(s, s.len() as int, (name, Seq::empty()));
        assert(s.insert(s.len() as int, (name, Seq::<LinkView>::empty())) =~= once);
    }
}

/// A topic that was removed is gone: the store has no topic of that name,
/// and a query for its links finds none.
pub proof fn lemma_removed_topic_has_no_links(s: Seq<(Seq<char>, Seq<LinkView>)>, name: Seq<char>)
    requires
        unique_names(s),
    ensures
        !has_name(without_topic(s, name), name),
        links_of(without_topic(s, name), name) == Seq::<LinkView>::empty(),
        unique_names(without_topic(s, name)),
{
    if has_name(s, name) {
        let i = index_of_name(s, name);
        lemma_remove_unique(s, i);
    }
}

/// A rename keeps the topic's place: where the new name is free, or is the
/// old name, the store after the rename is the store before it with the new
/// name written over the old one, the links and every other topic untouched.
pub proof fn lemma_rename_keeps_place(
    s: Seq<(Seq<char>, Seq<LinkView>)>,
    old_name: Seq<char>,
    new_name: Seq<char>,
)
    requires
        unique_names(s),
        has_name(s, old_name),
        new_name == old_name || !has_name(s, new_name),
    ensures
        renamed(s, old_name, new_name) == s.update(
            index_of_name(s, old_name),
            (new_name, s[index_of_name(s, old_name)].1),
        ),
        renamed(s, old_name, new_name).len() == s.len(),
        renamed(s, old_name, new_name)[index_of_name(s, old_name)].0 == new_name,
{
    let at = index_of_name(s, old_name);
    let rest = s.remove(at);
    lemma_index_of_name(s, at);
    lemma_remove_unique(s, at);
    assert(!has_name(rest, new_name)) by {
        if has_name(rest, new_name) {
            let j = index_of_name(rest, new_name);
            let j0 = if j < at { j } else { j + 1 };
            assert(rest[j] == s[j0]);
            assert(s[j0].0 == new_name);
        }
    }
    assert(rest.insert(at, (new_name, s[at].1)) =~= s.update(at, (new_name, s[at].1)));
}

/// What a move does: the element that is moved stands at its new place,
/// those between the two places have shifted by one towards the old place,
/// and every other element stands where it stood.
pub proof fn lemma_moved_shifts<T>(s: Seq<T>, from: int, to: int)
    requires
        0 <= from < s.len(),
        0 <= to < s.len(),
    ensures
        moved(s, from, to).len() == s.len(),
        moved(s, from, to)[to] == s[from],
        forall|k: int|
            0 <= k < s.len() && k != to ==> #[trigger] moved(s, from, to)[k] == s[if from <= k < to {
                k + 1
            } else if to < k <= from {
                k - 1
            } else {
                k
            }],
{
}

/// A move loses and adds nothing, and moving the element back restores the
/// order.
pub proof fn lemma_moved_back<T>(s: Seq<T>, from: int, to: int)
    requires
        0 <= from < s.len(),
        0 <= to < s.len(),
    ensures
        moved(s, from, to).to_multiset() == s.to_multiset(),
        moved(moved(s, from, to), to, from) == s,
{
    lemma_moved_shifts(s, from, to);
    lemma_moved_shifts(moved(s, from, to), to, from);
    assert(moved(moved(s, from, to), to, from) =~= s);
    vstd::seq_lib::to_multiset_remove(s, from);
    vstd::seq_lib::to_multiset_insert(s.remove(from), to, s[from]);
    vstd::seq_lib::to_multiset_contains(s, s[from]);
    assert(s.contains(s[from]));
    assert(s.to_multiset().remove(s[from]).insert(s[from]) =~= s.to_multiset());
}

/// Moving a topic keeps every topic and its links: the names stay unique,
/// and each name finds the links that it found before.
pub proof fn lemma_moved_keeps_topics(s: Seq<(Seq<char>, Seq<LinkView>)>, from: int, to: int)
    requires
        unique_names(s),
        0 <= from < s.len(),
        0 <= to < s.len(),
    ensures
        unique_names(moved(s, from, to)),
        forall|name: Seq<char>| has_name(moved(s, from, to), name) == has_name(s, name),
        forall|name: Seq<char>| links_of(moved(s, from, to), name) == links_of(s, name),
{
    let m = moved(s, from, to);
    lemma_remove_unique(s, from);
    lemma_insert_unique(s.remove(from), to, s[from]);
    lemma_moved_shifts(s, from, to);
    lemma_moved_back(s, from, to);
    assert forall|name: Seq<char>| has_name(m, name) == has_name(s, name) && links_of(m, name)
        == links_of(s, name) by {
        if has_name(s, name) {
            let i = index_of_name(s, name);
            let j = if i == from {
                to
            } else if from < i <= to {
                i - 1
            } else if to <= i < from {
                i + 1
            } else {
                i
            };
            assert(m[j] == s[i]);
            lemma_index_of_name(m, j);
            lemma_index_of_name(s, i);
        }
        if has_name(m, name) {
            let j = index_of_name(m, name);
            let i = if j == to {
                from
            } else if from <= j < to {
                j + 1
            } else if to < j <= from {
                j - 1
            } else {
                j
            };
            assert(m[j] == s[i]);
            lemma_index_of_name(s, i);
        }
    }
}

} // verus!
