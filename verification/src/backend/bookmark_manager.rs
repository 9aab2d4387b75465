use vstd::prelude::*;
use vstd::string::StringExecFns;
use indexmap::IndexMap;
use crate::backend::entries::{
    has_link, has_name, index_of_name, is_first_link, lemma_first_link, lemma_index_of_name,
    lemma_insert_unique, lemma_remove_unique, lemma_update_unique, links_of, links_with_edit,
    links_without, moved, names, renamed, unique_names, with_link, with_links, with_topic,
    without_topic,
};
use crate::backend::models::{LinkModel, LinkView, TopicModel, clone_links, links_view, same_link};
use crate::backend::stored_form::{
    decode_entries, decoded, decoded_into, encoded, entries_view, lemma_put, merged,
    records_view,
};
use crate::backend::stored_key::{DecodeError, encode_key, stored_key};
use crate::backend::ordered_map::{
    map_entries, map_get_index, map_get_index_of, map_insert, map_len, map_new, map_shift_insert,
    map_shift_remove, map_shift_remove_index,
};

verus! {

/// The bookmark store: topics in the order in which they were added or last
/// moved, each with its links in their own order.
///
/// The store does not write itself to disk. Each operation that changes it
/// returns whether the backing file is now to be rewritten, and the caller
/// writes what `save_bookmarks` hands out.
#[derive(Debug)]
pub struct BookmarkManager {
    path: String,
    filename: String,
    bookmarks: IndexMap<String, Vec<LinkModel>>,
}

impl View for BookmarkManager {
    type V = Seq<(Seq<char>, Seq<LinkView>)>;

    closed spec fn view(&self) -> Seq<(Seq<char>, Seq<LinkView>)> {
        map_entries(self.bookmarks)
    }
}

impl Clone for BookmarkManager {
    /// A store with the same topics and links in the same order, backed by
    /// the same file.
    fn clone(&self) -> (copy: Self)
        ensures
            copy.same_file(self),
            self.wf() ==> copy@ == self@,
    {
        let mut bookmarks = map_new();
        let len = map_len(&self.bookmarks);
        let mut i: usize = 0;
        assert(self@.take(0) =~= Seq::empty());
        while i < len
            invariant
                i <= len,
                len == self@.len(),
                self.wf() ==> map_entries(bookmarks) == self@.take(i as int),
            decreases len - i,
        {
            if let Some((name, links)) = map_get_index(&self.bookmarks, i) {
                proof {
                    if self.wf() {
                        let seen = self@.take(i as int);
                        assert forall|j: int| 0 <= j < seen.len() implies (#[trigger] seen[j]).0
                            != name@ by {
                            assert(seen[j] == self@[j]);
                            assert(self@[j].0 != self@[i as int].0);
                        }
                        assert(self@.take(i + 1) =~= seen.push(self@[i as int]));
                    }
                }
                map_insert(&mut bookmarks, name.clone(), clone_links(links));
            }
            i += 1;
        }
        assert(self@.take(len as int) =~= self@);
        Self { path: self.path.clone(), filename: self.filename.clone(), bookmarks }
    }
}

/// The first place in `links` of a link with the title and URL of `link`.
fn position_of(links: &Vec<LinkModel>, link: &LinkModel) -> (found: Option<usize>)
    ensures
        match found {
            Some(k) => is_first_link(links_view(links@), link@, k as int),
            None => !has_link(links_view(links@), link@),
        },
{
    let mut k: usize = 0;
    while k < links.len()
        invariant
            k <= links.len(),
            forall|j: int| 0 <= j < k ==> !same_link(#[trigger] links_view(links@)[j], link@),
        decreases links.len() - k,
    {
        if links[k].same_as(link) {
            return Some(k);
        }
        k += 1;
    }
    None
}

impl BookmarkManager {
    /// The store's invariant: no two topics share a name.
    pub open spec fn wf(&self) -> bool {
        unique_names(self@)
    }

    /// The directory in which the store's file lies.
    pub closed spec fn directory(&self) -> Seq<char> {
        self.path@
    }

    /// The name of the store's file within its directory.
    pub closed spec fn file_name(&self) -> Seq<char> {
        self.filename@
    }

    /// Whether `self` and `other` are backed by the same file.
    pub open spec fn same_file(&self, other: &BookmarkManager) -> bool {
        self.directory() == other.directory() && self.file_name() == other.file_name()
    }

    /// The file that backs the store: the file's name within the directory.
    pub open spec fn store_file(&self) -> Seq<char> {
        self.directory() + seq!['/'] + self.file_name()
    }

    /// The name of the file that backs a store: one for a debug build,
    /// another for a release build, so that the two never meet.
    pub open spec fn file_name_for(is_debug: bool) -> Seq<char> {
        if is_debug {
            "bookmarks_debug.json"@
        } else {
            "bookmarks.json"@
        }
    }

    /// The name of the store's file within its directory.
    pub fn filename(&self) -> (name: &String)
        ensures
            name@ == self.file_name(),
    {
        &self.filename
    }

    /// The name of the file that backs a store, by the kind of build.
    pub fn store_file_name(is_debug: bool) -> (name: &'static str)
        ensures
            name@ == Self::file_name_for(is_debug),
    {
        if is_debug {
            "bookmarks_debug.json"
        } else {
            "bookmarks.json"
        }
    }

    /// Makes the store of the directory `path` from what was read of its
    /// file: `None` where there was no file to read, which gives an empty
    /// store; otherwise the file's entries, in any order, which are put in
    /// the order of their ordinals and filed under the names that their keys
    /// give. Fails where a key cannot be read, with the error of the first
    /// such key.
    pub fn new(path: String, is_debug: bool, stored: Option<Vec<(String, Vec<LinkModel>)>>) -> (outcome:
        Result<Self, DecodeError>)
        ensures
            match outcome {
                Ok(store) => store.wf() && store.directory() == path@ && store.file_name()
                    == Self::file_name_for(is_debug) && match stored {
                    None => store@ == Seq::<(Seq<char>, Seq<LinkView>)>::empty(),
                    Some(entries) => decoded(entries_view(entries@)) == Ok::<
                        Seq<(Seq<char>, Seq<LinkView>)>,
                        DecodeError,
                    >(store@),
                },
                Err(error) => match stored {
                    None => false,
                    Some(entries) => decoded(entries_view(entries@)) == Err::<
                        Seq<(Seq<char>, Seq<LinkView>)>,
                        DecodeError,
                    >(error),
                },
            },
    {
        let filename = Self::store_file_name(is_debug).to_owned();
        let mut store = Self { path, filename, bookmarks: map_new() };
        match stored {
            None => Ok(store),
            Some(entries) => match decode_entries(&entries) {
                Ok(records) => {
                    store.merge(&records);
                    Ok(store)
                },
                Err(error) => Err(error),
            },
        }
    }

    /// Files each of `records` in the store, in their order: a topic that is
    /// there already keeps its place and takes the record's links.
    fn merge(&mut self, records: &Vec<(usize, String, Vec<LinkModel>)>)
        requires
            old(self).wf(),
        ensures
            final(self).wf(),
            final(self).same_file(old(self)),
            final(self)@ == merged(old(self)@, records_view(records@)),
    {
        let ghost all = records_view(records@);
        let mut i: usize = 0;
        assert(all.take(0) =~= Seq::empty());
        while i < records.len()
            invariant
                i <= records.len(),
                all == records_view(records@),
                self.wf(),
                self.same_file(old(self)),
                self@ == merged(old(self)@, all.take(i as int)),
            decreases records.len() - i,
        {
            let name = records[i].1.clone();
            let links = clone_links(&records[i].2);
            proof {
                assert(all.take(i + 1).drop_last() =~= all.take(i as int));
                assert(all.take(i + 1).last() == all[i as int]);
                lemma_put(self@, name@, links_view(links@));
                assert(has_name(self@, name@) || !has_name(self@, name@));
            }
            map_insert(&mut self.bookmarks, name, links);
            i += 1;
        }
        assert(all.take(i as int) =~= all);
    }

    /// Reads the entries of another file into the store: they are put in the
    /// order of their ordinals and filed under the names that their keys
    /// give, a topic that the store has already taking the links that were
    /// read in place of its own. `None` stands for a file that could not be
    /// read, and changes nothing. Fails, and changes nothing, where a key
    /// cannot be read. Returns whether the store is to be written out.
    pub fn import_bookmarks(&mut self, stored: Option<Vec<(String, Vec<LinkModel>)>>) -> (outcome: Result<
        bool,
        DecodeError,
    >)
        requires
            old(self).wf(),
        ensures
            final(self).wf(),
            final(self).same_file(old(self)),
            match stored {
                None => outcome == Ok::<bool, DecodeError>(false) && final(self)@ == old(self)@,
                Some(entries) => match decoded_into(old(self)@, entries_view(entries@)) {
                    Ok(after) => outcome == Ok::<bool, DecodeError>(true) && final(self)@ == after,
                    Err(error) => outcome == Err::<bool, DecodeError>(error) && final(self)@
                        == old(self)@,
                },
            },
    {
        match stored {
            None => Ok(false),
            Some(entries) => match decode_entries(&entries) {
                Ok(records) => {
                    self.merge(&records);
                    Ok(true)
                },
                Err(error) => Err(error),
            },
        }
    }

    /// What is to be written, and where: the path of the target file, which
    /// is `path` where one is given and the store's own file otherwise, and
    /// the store's stored form.
    pub fn save_bookmarks(&self, path: Option<String>) -> (written: (String, Vec<(String, Vec<LinkModel>)>))
        ensures
            written.0@ == match path {
                Some(given) => given@,
                None => self.store_file(),
            },
            entries_view(written.1@) == encoded(self@),
    {
        let target = match path {
            Some(given) => given,
            None => {
                proof {
                    reveal_strlit("/");
                }
                let mut target = self.path.clone();
                target.append("/");
                target.append(self.filename.as_str());
                assert(target@ =~= self.store_file());
                target
            },
        };
        let mut entries: Vec<(String, Vec<LinkModel>)> = Vec::new();
        let len = map_len(&self.bookmarks);
        let mut count: usize = 0;
        while count < len
            invariant
                count <= len,
                len == self@.len(),
                entries.len() == count,
                forall|j: int|
                    0 <= j < count ==> (#[trigger] entries@[j]).0@ == stored_key(j as nat, self@[j].0)
                        && links_view(entries@[j].1@) == self@[j].1,
            decreases len - count,
        {
            if let Some((name, links)) = map_get_index(&self.bookmarks, count) {
                entries.push((encode_key(count, name.as_str()), clone_links(links)));
            }
            count += 1;
        }
        assert(entries_view(entries@) =~= encoded(self@));
        (target, entries)
    }

    /// What is to be written to export the store to the file at `path`: that
    /// path, and the store's stored form.
    pub fn export_bookmarks(&self, path: &str) -> (written: (String, Vec<(String, Vec<LinkModel>)>))
        ensures
            written.0@ == path@,
            entries_view(written.1@) == encoded(self@),
    {
        self.save_bookmarks(Some(path.to_owned()))
    }

    /// Adds `topic` with no links, last in order, unless a topic of that name
    /// is there already; then nothing changes. Returns whether the topic was
    /// added, which is when the store is to be written out.
    pub fn add_topic(&mut self, topic: TopicModel) -> (persist: bool)
        requires
            old(self).wf(),
        ensures
            final(self).wf(),
            final(self).same_file(old(self)),
            final(self)@ == with_topic(old(self)@, topic@),
            persist == !has_name(old(self)@, topic@),
    {
        match map_get_index_of(&self.bookmarks, &topic.name) {
            Some(_) => false,
            None => {
                proof {
                    lemma_insert_unique(self@, self@.len() as int, (topic@, Seq::empty()));
                    assert(self@.insert(self@.len() as int, (topic@, Seq::<LinkView>::empty()))
                        =~= self@.push((topic@, Seq::<LinkView>::empty())));
                    assert(links_view(Seq::<LinkModel>::empty()) =~= Seq::<LinkView>::empty());
                }
                map_insert(&mut self.bookmarks, topic.name, Vec::new());
                true
            },
        }
    }

    /// Removes the topic named as `topic` with all its links; the other
    /// topics keep their order. The store is to be written out afterwards in
    /// any case.
    pub fn remove_topic(&mut self, topic: TopicModel) -> (persist: bool)
        requires
            old(self).wf(),
        ensures
            final(self).wf(),
            final(self).same_file(old(self)),
            final(self)@ == without_topic(old(self)@, topic@),
            !has_name(final(self)@, topic@),
            persist,
    {
        proof {
            if has_name(self@, topic@) {
                let i = index_of_name(self@, topic@);
                lemma_index_of_name(self@, i);
                lemma_remove_unique(self@, i);
                assert forall|j: int| 0 <= j < self@.len() && (#[trigger] self@[j]).0 == topic@ implies j
                    == i by {
                    lemma_index_of_name(self@, j);
                }
            }
        }
        map_shift_remove(&mut self.bookmarks, &topic.name);
        true
    }

    /// Renames the topic named as `old_topic` to the name of `new_topic`.
    /// The topic keeps its place in the order and its links; see `renamed`
    /// for what becomes of another topic that has the new name already.
    /// Nothing changes where the store has no topic named as `old_topic`.
    /// Returns whether the topic was found, which is when the store is to be
    /// written out.
    pub fn edit_topic(&mut self, old_topic: TopicModel, new_topic: TopicModel) -> (persist: bool)
        requires
            old(self).wf(),
        ensures
            final(self).wf(),
            final(self).same_file(old(self)),
            final(self)@ == renamed(old(self)@, old_topic@, new_topic@),
            persist == has_name(old(self)@, old_topic@),
    {
        let at = match map_get_index_of(&self.bookmarks, &old_topic.name) {
            Some(at) => at,
            None => {
                return false;
            },
        };
        let links = self.links_at(at);
        proof {
            lemma_index_of_name(self@, at as int);
            lemma_remove_unique(self@, at as int);
            assert forall|j: int| 0 <= j < self@.len() && (#[trigger] self@[j]).0 == old_topic@ implies j
                == at by {
                lemma_index_of_name(self@, j);
            }
        }
        map_shift_remove(&mut self.bookmarks, &old_topic.name);
        let ghost rest = self@;
        let len = map_len(&self.bookmarks);
        let target = match map_get_index_of(&self.bookmarks, &new_topic.name) {
            Some(other) => {
                proof {
                    lemma_index_of_name(rest, other as int);
                    lemma_remove_unique(rest, other as int);
                    assert forall|j: int| 0 <= j < rest.len() && (#[trigger] rest[j]).0
                        == new_topic@ implies j == other by {
                        lemma_index_of_name(rest, j);
                    }
                }
                if at < len - 1 {
                    at
                } else {
                    len - 1
                }
            },
            None => at,
        };
        proof {
            if has_name(rest, new_topic@) {
                let other = index_of_name(rest, new_topic@);
                lemma_insert_unique(
                    rest.remove(other),
                    target as int,
                    (new_topic@, links_view(links@)),
                );
            } else {
                lemma_insert_unique(rest, target as int, (new_topic@, links_view(links@)));
            }
        }
        map_shift_insert(&mut self.bookmarks, target, new_topic.name, links);
        true
    }

    /// Takes the topic at `old_index` out and puts it back at `new_index`;
    /// the topics between the two places shift by one. The store is to be
    /// written out afterwards.
    pub fn reorder_topics(&mut self, old_index: usize, new_index: usize) -> (persist: bool)
        requires
            old(self).wf(),
            old_index < old(self)@.len(),
            new_index < old(self)@.len(),
        ensures
            final(self).wf(),
            final(self).same_file(old(self)),
            final(self)@ == moved(old(self)@, old_index as int, new_index as int),
            persist,
    {
        proof {
            lemma_remove_unique(self@, old_index as int);
            lemma_insert_unique(self@.remove(old_index as int), new_index as int, self@[old_index as int]);
        }
        if let Some((name, links)) = map_shift_remove_index(&mut self.bookmarks, old_index) {
            map_shift_insert(&mut self.bookmarks, new_index, name, links);
        }
        true
    }

    /// Appends `link` to the links of `topic`; a topic that the store does
    /// not have yet is added first, last in order. A link equal to one that
    /// is there already is appended all the same. The store is to be written
    /// out afterwards.
    pub fn add_link(&mut self, topic: TopicModel, link: LinkModel) -> (persist: bool)
        requires
            old(self).wf(),
        ensures
            final(self).wf(),
            final(self).same_file(old(self)),
            final(self)@ == with_link(old(self)@, topic@, link@),
            persist,
    {
        let ghost link_view = link@;
        match map_get_index_of(&self.bookmarks, &topic.name) {
            Some(at) => {
                let mut links = self.links_at(at);
                links.push(link);
                proof {
                    lemma_index_of_name(self@, at as int);
                    assert(links_view(links@) =~= self@[at as int].1.push(link_view));
                }
                self.set_links(at, topic.name, links);
            },
            None => {
                let mut links: Vec<LinkModel> = Vec::new();
                links.push(link);
                proof {
                    assert(links_view(links@) =~= seq![link_view]);
                    lemma_insert_unique(self@, self@.len() as int, (topic@, seq![link_view]));
                    assert(self@.insert(self@.len() as int, (topic@, seq![link_view])) =~= self@.push(
                        (topic@, seq![link_view]),
                    ));
                }
                map_insert(&mut self.bookmarks, topic.name, links);
            },
        }
        true
    }

    /// Replaces the first link under `topic` that has the title and URL of
    /// `old_link` by `new_link`, in place. Nothing changes where the store
    /// has no such topic or the topic no such link. The store is to be
    /// written out afterwards in any case.
    pub fn edit_link(&mut self, topic: TopicModel, old_link: LinkModel, new_link: LinkModel) -> (persist:
        bool)
        requires
            old(self).wf(),
        ensures
            final(self).wf(),
            final(self).same_file(old(self)),
            final(self)@ == with_links(
                old(self)@,
                topic@,
                links_with_edit(links_of(old(self)@, topic@), old_link@, new_link@),
            ),
            persist,
    {
        if let Some(at) = map_get_index_of(&self.bookmarks, &topic.name) {
            let mut links = self.links_at(at);
            proof {
                lemma_index_of_name(self@, at as int);
            }
            match position_of(&links, &old_link) {
                Some(k) => {
                    proof {
                        lemma_first_link(links_view(links@), old_link@, k as int);
                    }
                    let ghost before = links@;
                    links.set(k, new_link);
                    assert(links_view(links@) =~= links_view(before).update(k as int, new_link@));
                    self.set_links(at, topic.name, links);
                },
                None => {
                    assert(self@.update(at as int, (topic@, self@[at as int].1)) =~= self@);
                },
            }
        }
        true
    }

    /// Removes the first link under `topic` that has the title and URL of
    /// `link`. Nothing changes where the store has no such topic or the
    /// topic no such link. The store is to be written out afterwards in any
    /// case.
    pub fn remove_link(&mut self, topic: TopicModel, link: LinkModel) -> (persist: bool)
        requires
            old(self).wf(),
        ensures
            final(self).wf(),
            final(self).same_file(old(self)),
            final(self)@ == with_links(
                old(self)@,
                topic@,
                links_without(links_of(old(self)@, topic@), link@),
            ),
            persist,
    {
        if let Some(at) = map_get_index_of(&self.bookmarks, &topic.name) {
            let mut links = self.links_at(at);
            proof {
                lemma_index_of_name(self@, at as int);
            }
            match position_of(&links, &link) {
                Some(k) => {
                    proof {
                        lemma_first_link(links_view(links@), link@, k as int);
                    }
                    let ghost before = links@;
                    links.remove(k);
                    assert(links_view(links@) =~= links_view(before).remove(k as int));
                    self.set_links(at, topic.name, links);
                },
                None => {
                    assert(self@.update(at as int, (topic@, self@[at as int].1)) =~= self@);
                },
            }
        }
        true
    }

    /// Takes the link at `old_index` under `topic` out and puts it back at
    /// `new_index`; the links between the two places shift by one. Nothing
    /// changes where the store has no such topic. The store is to be written
    /// out afterwards in any case.
    pub fn reorder_links(&mut self, topic: TopicModel, old_index: usize, new_index: usize) -> (persist:
        bool)
        requires
            old(self).wf(),
            has_name(old(self)@, topic@) ==> old_index < links_of(old(self)@, topic@).len()
                && new_index < links_of(old(self)@, topic@).len(),
        ensures
            final(self).wf(),
            final(self).same_file(old(self)),
            final(self)@ == with_links(
                old(self)@,
                topic@,
                moved(links_of(old(self)@, topic@), old_index as int, new_index as int),
            ),
            persist,
    {
        if let Some(at) = map_get_index_of(&self.bookmarks, &topic.name) {
            let mut links = self.links_at(at);
            proof {
                lemma_index_of_name(self@, at as int);
            }
            let ghost before = links@;
            let link = links.remove(old_index);
            links.insert(new_index, link);
            assert(links_view(links@) =~= moved(
                links_view(before),
                old_index as int,
                new_index as int,
            ));
            self.set_links(at, topic.name, links);
        }
        true
    }

    /// A copy of the links of the topic at place `at`.
    fn links_at(&self, at: usize) -> (links: Vec<LinkModel>)
        requires
            at < self@.len(),
        ensures
            links_view(links@) == self@[at as int].1,
    {
        match map_get_index(&self.bookmarks, at) {
            Some((_, links)) => clone_links(links),
            None => Vec::new(),
        }
    }

    /// Gives the topic at place `at`, whose name is `name`, the links `links`.
    fn set_links(&mut self, at: usize, name: String, links: Vec<LinkModel>)
        requires
            old(self).wf(),
            at < old(self)@.len(),
            old(self)@[at as int].0 == name@,
        ensures
            final(self).wf(),
            final(self).same_file(old(self)),
            final(self)@ == old(self)@.update(at as int, (name@, links_view(links@))),
    {
        proof {
            lemma_index_of_name(self@, at as int);
            lemma_update_unique(self@, at as int, links_view(links@));
            assert forall|j: int| 0 <= j < self@.len() && (#[trigger] self@[j]).0 == name@ implies j
                == at by {
                lemma_index_of_name(self@, j);
            }
        }
        map_insert(&mut self.bookmarks, name, links);
    }

    /// Whether the store has a topic named `name`.
    pub fn has_topic(&self, name: &String) -> (found: bool)
        ensures
            found == has_name(self@, name@),
    {
        map_get_index_of(&self.bookmarks, name).is_some()
    }

    /// The topics, in store order.
    pub fn get_topics(&self) -> (topics: Vec<TopicModel>)
        ensures
            topics@.map_values(|t: TopicModel| t@) == names(self@),
    {
        let mut topics: Vec<TopicModel> = Vec::new();
        let len = map_len(&self.bookmarks);
        let mut i: usize = 0;
        while i < len
            invariant
                i <= len,
                len == self@.len(),
                topics.len() == i,
                forall|j: int| 0 <= j < i ==> (#[trigger] topics@[j])@ == self@[j].0,
            decreases len - i,
        {
            if let Some((name, _)) = map_get_index(&self.bookmarks, i) {
                topics.push(TopicModel::new(name.clone()));
            }
            i += 1;
        }
        assert(topics@.map_values(|t: TopicModel| t@) =~= names(self@));
        topics
    }

    /// The links filed under `topic`, in order; none where the store has no
    /// such topic.
    pub fn get_links_for_topic(&self, topic: &TopicModel) -> (links: Vec<LinkModel>)
        requires
            self.wf(),
        ensures
            links_view(links@) == links_of(self@, topic@),
    {
        match map_get_index_of(&self.bookmarks, &topic.name) {
            Some(i) => {
                proof {
                    lemma_index_of_name(self@, i as int);
                }
                match map_get_index(&self.bookmarks, i) {
                    Some((_, links)) => clone_links(links),
                    None => Vec::new(),
                }
            },
            None => {
                assert(links_view(Seq::<LinkModel>::empty()) =~= Seq::<LinkView>::empty());
                Vec::new()
            },
        }
    }
}

} // verus!
