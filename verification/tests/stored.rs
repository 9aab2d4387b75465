use stash::backend::bookmark_manager::BookmarkManager;
use stash::backend::models::{LinkModel, TopicModel};
use stash::backend::stored_form::decode_entries;
use stash::backend::stored_key::{decode_key, encode_key, DecodeError};

fn topic(name: &str) -> TopicModel {
    TopicModel::new(name.to_string())
}

fn link(title: &str, url: &str) -> LinkModel {
    LinkModel::new(title.to_string(), url.to_string(), None)
}

fn entry(key: &str, titles: &[&str]) -> (String, Vec<LinkModel>) {
    (key.to_string(), titles.iter().map(|t| link(t, "http://x")).collect())
}

fn names(store: &BookmarkManager) -> Vec<String> {
    store.get_topics().into_iter().map(|t| t.name).collect()
}

fn titles(store: &BookmarkManager, name: &str) -> Vec<String> {
    store.get_links_for_topic(&topic(name)).into_iter().map(|l| l.title).collect()
}

#[test]
fn encode_key_writes_ordinal_underscore_name() {
    assert_eq!(encode_key(0, "a"), "0_a");
    assert_eq!(encode_key(7, "My Topic"), "7_My Topic");
    assert_eq!(encode_key(10, "x_y"), "10_x_y");
    assert_eq!(encode_key(1203, ""), "1203_");
    assert_eq!(encode_key(usize::MAX, "z"), format!("{}_z", usize::MAX));
}

#[test]
fn decode_key_keeps_underscores_of_the_name() {
    assert_eq!(decode_key("3_My_Topic"), Ok((3, "My_Topic".to_string())));
    assert_eq!(decode_key("0__"), Ok((0, "_".to_string())));
    assert_eq!(decode_key("12_"), Ok((12, String::new())));
    assert_eq!(decode_key("007_b\u{e9}b\u{e9}_\u{1F600}"), Ok((7, "b\u{e9}b\u{e9}_\u{1F600}".to_string())));
}

#[test]
fn decode_key_accepts_a_plus_sign() {
    assert_eq!(decode_key("+3_a"), Ok((3, "a".to_string())));
}

#[test]
fn decode_key_without_underscore_fails() {
    assert_eq!(decode_key("abc"), Err(DecodeError::MissingSeparator));
    assert_eq!(decode_key("5"), Err(DecodeError::MissingSeparator));
    assert_eq!(decode_key(""), Err(DecodeError::MissingSeparator));
}

#[test]
fn decode_key_with_bad_ordinal_fails() {
    for key in ["x_abc", "_abc", "+_a", "-1_a", "1 _a", " 1_a", "1.5_a", "++1_a", "1+_a", "\u{662}_a"] {
        assert_eq!(decode_key(key), Err(DecodeError::BadOrdinal), "{}", key);
    }
}

#[test]
fn decode_key_bounds_the_ordinal() {
    let max = format!("{}_a", usize::MAX);
    assert_eq!(decode_key(&max), Ok((usize::MAX, "a".to_string())));
    let over = format!("{}0_a", usize::MAX);
    assert_eq!(decode_key(&over), Err(DecodeError::BadOrdinal));
    assert_eq!(decode_key("99999999999999999999999999_a"), Err(DecodeError::BadOrdinal));
    let next = format!("{}_a", usize::MAX as u128 + 1);
    assert_eq!(decode_key(&next), Err(DecodeError::BadOrdinal));
}

#[test]
fn decode_key_reads_ordinals_as_the_standard_parser_does() {
    for prefix in ["0", "1", "9", "10", "0010", "+0", "+", "", "-", "-0", "a", "1a", "18446744073709551615",
        "18446744073709551616", "+18446744073709551615", "000000000000000000000000001"] {
        let key = format!("{}_n", prefix);
        let expected = prefix.parse::<usize>().ok();
        assert_eq!(decode_key(&key).ok().map(|p| p.0), expected, "{}", prefix);
    }
}

#[test]
fn decode_key_undoes_encode_key() {
    for ordinal in [0usize, 1, 9, 10, 11, 99, 100, 12345, usize::MAX] {
        for name in ["", "a", "_", "a_b", "1_2", "+", "t\u{f6}pic"] {
            assert_eq!(decode_key(&encode_key(ordinal, name)), Ok((ordinal, name.to_string())));
        }
    }
}

#[test]
fn decode_entries_sorts_by_number() {
    let stored = vec![entry("10_x", &["x"]), entry("2_y", &["y"]), entry("1_z", &[])];
    let records = decode_entries(&stored).unwrap();
    let got: Vec<(usize, &str)> = records.iter().map(|r| (r.0, r.1.as_str())).collect();
    assert_eq!(got, vec![(1, "z"), (2, "y"), (10, "x")]);
    assert_eq!(records[1].2, vec![link("y", "http://x")]);
}

#[test]
fn decode_entries_keeps_order_of_equal_ordinals() {
    let stored = vec![entry("1_b", &[]), entry("0_a", &[]), entry("01_c", &[]), entry("+1_d", &[])];
    let records = decode_entries(&stored).unwrap();
    let got: Vec<&str> = records.iter().map(|r| r.1.as_str()).collect();
    assert_eq!(got, vec!["a", "b", "c", "d"]);
}

#[test]
fn decode_entries_reports_first_bad_key() {
    let stored = vec![entry("0_a", &[]), entry("x_b", &[]), entry("nounderscore", &[])];
    assert_eq!(decode_entries(&stored).err(), Some(DecodeError::BadOrdinal));
    let stored = vec![entry("nounderscore", &[]), entry("x_b", &[])];
    assert_eq!(decode_entries(&stored).err(), Some(DecodeError::MissingSeparator));
}

#[test]
fn load_orders_topics_by_ordinal() {
    let stored = vec![entry("2_C", &["c"]), entry("0_A", &["a1", "a2"]), entry("1_B_b", &[])];
    let store = BookmarkManager::new("dir".to_string(), false, Some(stored)).unwrap();
    assert_eq!(names(&store), vec!["A", "B_b", "C"]);
    assert_eq!(titles(&store, "A"), vec!["a1", "a2"]);
    assert_eq!(titles(&store, "C"), vec!["c"]);
}

#[test]
fn load_of_empty_file_is_empty_store() {
    let store = BookmarkManager::new("dir".to_string(), false, Some(Vec::new())).unwrap();
    assert!(store.get_topics().is_empty());
}

#[test]
fn load_fails_on_bad_key() {
    let stored = vec![entry("0_A", &[]), entry("B", &[])];
    assert_eq!(
        BookmarkManager::new("dir".to_string(), false, Some(stored)).err(),
        Some(DecodeError::MissingSeparator)
    );
}

#[test]
fn load_merges_entries_of_the_same_name() {
    let stored = vec![entry("0_A", &["first"]), entry("1_B", &[]), entry("2_A", &["second"])];
    let store = BookmarkManager::new("dir".to_string(), false, Some(stored)).unwrap();
    assert_eq!(names(&store), vec!["A", "B"]);
    assert_eq!(titles(&store, "A"), vec!["second"]);
}

#[test]
fn save_numbers_topics_in_store_order() {
    let mut store = BookmarkManager::new("dir".to_string(), false, None).unwrap();
    store.add_link(topic("B"), link("b", "http://x"));
    store.add_topic(topic("A_1"));
    store.reorder_topics(1, 0);
    let (target, entries) = store.save_bookmarks(None);
    assert_eq!(target, "dir/bookmarks.json");
    assert_eq!(entries, vec![entry("0_A_1", &[]), entry("1_B", &["b"])]);
}

#[test]
fn save_to_given_path() {
    let store = BookmarkManager::new("dir".to_string(), false, None).unwrap();
    let (target, _) = store.save_bookmarks(Some("/tmp/out.json".to_string()));
    assert_eq!(target, "/tmp/out.json");
}

#[test]
fn export_writes_the_same_form_elsewhere() {
    let mut store = BookmarkManager::new("dir".to_string(), false, None).unwrap();
    store.add_link(topic("A"), link("a", "http://x"));
    let (target, entries) = store.export_bookmarks("/elsewhere/b.json");
    assert_eq!(target, "/elsewhere/b.json");
    assert_eq!(entries, store.save_bookmarks(None).1);
}

#[test]
fn store_survives_save_and_load() {
    let mut store = BookmarkManager::new("dir".to_string(), false, None).unwrap();
    for name in ["zeta", "a_b_c", "", "10", "_", "alpha", "3_x", "b", "c", "d", "e", "f"] {
        store.add_topic(topic(name));
    }
    store.add_link(
        topic("a_b_c"),
        LinkModel::new("t".to_string(), "u".to_string(), Some("p".to_string())),
    );
    store.add_link(topic("a_b_c"), link("t2", "u2"));
    store.add_link(topic(""), link("dup", "d"));
    store.add_link(topic(""), link("dup", "d"));
    let (_, written) = store.save_bookmarks(None);

    let mut shuffled = written.clone();
    shuffled.reverse();
    shuffled.swap(0, 5);
    shuffled.swap(3, 7);
    for read in [written, shuffled] {
        let loaded = BookmarkManager::new("dir".to_string(), false, Some(read)).unwrap();
        assert_eq!(loaded.get_topics(), store.get_topics());
        for t in store.get_topics() {
            assert_eq!(loaded.get_links_for_topic(&t), store.get_links_for_topic(&t));
        }
    }
}

#[test]
fn import_merges_and_overwrites() {
    let mut store = BookmarkManager::new("dir".to_string(), false, None).unwrap();
    store.add_link(topic("A"), link("old", "http://x"));
    store.add_topic(topic("B"));
    let read = vec![entry("1_C", &["c"]), entry("0_A", &["new"])];
    assert_eq!(store.import_bookmarks(Some(read)), Ok(true));
    assert_eq!(names(&store), vec!["A", "B", "C"]);
    assert_eq!(titles(&store, "A"), vec!["new"]);
    assert_eq!(titles(&store, "C"), vec!["c"]);
}

#[test]
fn import_files_in_order_of_ordinals() {
    let mut store = BookmarkManager::new("dir".to_string(), false, None).unwrap();
    let read = vec![entry("10_late", &[]), entry("9_early", &[])];
    assert_eq!(store.import_bookmarks(Some(read)), Ok(true));
    assert_eq!(names(&store), vec!["early", "late"]);
}

#[test]
fn import_of_missing_file_changes_nothing() {
    let mut store = BookmarkManager::new("dir".to_string(), false, None).unwrap();
    store.add_topic(topic("A"));
    assert_eq!(store.import_bookmarks(None), Ok(false));
    assert_eq!(names(&store), vec!["A"]);
}

#[test]
fn import_with_bad_key_changes_nothing() {
    let mut store = BookmarkManager::new("dir".to_string(), false, None).unwrap();
    store.add_topic(topic("A"));
    let read = vec![entry("0_B", &[]), entry("one_C", &[])];
    assert_eq!(store.import_bookmarks(Some(read)), Err(DecodeError::BadOrdinal));
    assert_eq!(names(&store), vec!["A"]);
}
