use stash::app::{StashApp, WindowLevel};
use stash::backend::bookmark_manager::BookmarkManager;
use stash::backend::models::{LinkModel, TopicModel};
use stash::enums::TrayMessage;
use stash::ui::about::AboutViewport;
use stash::ui::add_link::AddLinkViewport;
use stash::ui::add_topic::AddTopicViewport;
use stash::ui::link_viewport::LinkViewport;
use stash::ui::topic_viewport::TopicViewport;
use stash::utils::enums::{AppMessage, AppPage, AppTheme, BookmarkItem, OpenLocationType};

fn topic(name: &str) -> TopicModel {
    TopicModel::new(name.to_string())
}

fn link(title: &str, url: &str) -> LinkModel {
    LinkModel::new(title.to_string(), url.to_string(), None)
}

fn app_of(names: &[&str]) -> StashApp {
    let mut store = BookmarkManager::new("dir".to_string(), true, None).unwrap();
    for name in names {
        store.add_topic(topic(name));
    }
    StashApp::new(true, store)
}

fn names(app: &StashApp) -> Vec<String> {
    app.bookmark_manager.get_topics().into_iter().map(|t| t.name).collect()
}

#[test]
fn tray_message_labels_and_ids() {
    assert_eq!(TrayMessage::ShowHide.to_str(), "Show/Hide");
    assert_eq!(TrayMessage::Quit.to_str(), "Quit");
    assert_eq!(TrayMessage::ShowHide.to_menu_id(), "show");
    assert_eq!(TrayMessage::Quit.to_menu_id(), "quit");
}

#[test]
fn tray_message_from_its_id() {
    assert_eq!(TrayMessage::from_string("show".to_string()), TrayMessage::ShowHide);
    assert_eq!(TrayMessage::from_string("quit".to_string()), TrayMessage::Quit);
    for m in [TrayMessage::ShowHide, TrayMessage::Quit] {
        assert_eq!(TrayMessage::from_string(m.to_menu_id()), m);
        assert_eq!(TrayMessage::try_from_string(&m.to_menu_id()), Some(m));
    }
    assert_eq!(TrayMessage::try_from_string(&"about".to_string()), None);
    assert_eq!(TrayMessage::try_from_string(&"Show".to_string()), None);
}

#[test]
fn theme_names_and_values() {
    let all = AppTheme::values();
    assert_eq!(
        all,
        [AppTheme::Light, AppTheme::Dark, AppTheme::LATTE, AppTheme::FRAPPE, AppTheme::MACCHIATO, AppTheme::MOCHA]
    );
    let shown: Vec<&str> = all.iter().map(|t| t.name()).collect();
    assert_eq!(shown, vec!["Light", "Dark", "Latte", "Frappe", "Macchiato", "Mocha"]);
}

#[test]
fn plain_enums_compare() {
    assert_ne!(AppPage::Main, AppPage::Settings);
    assert_ne!(BookmarkItem::Topic(topic("a")), BookmarkItem::Link(link("a", "a")));
    assert_ne!(OpenLocationType::Documents, OpenLocationType::Custom("x".to_string()));
    assert_eq!(AboutViewport::default(), AboutViewport {});
}

#[test]
fn topic_form_adds_or_renames() {
    let mut form = TopicViewport::default();
    assert_eq!(form.message(), None);
    form.set_new_name("New".to_string());
    assert_eq!(form.message(), Some(AppMessage::AddTopic(topic("New"))));
    form.set_old_name("Old".to_string());
    form.set_editing(true);
    assert_eq!(form.message(), Some(AppMessage::EditTopic(topic("Old"), topic("New"))));
}

#[test]
fn topic_form_closes_after_edit_or_cancel() {
    let mut form = TopicViewport::default();
    form.set_new_name("New".to_string());
    assert!(!form.clear_exit_viewport(false));
    assert_eq!(form.new_name, "");
    form.set_new_name("New".to_string());
    assert!(form.clear_exit_viewport(true));
    form.set_editing(true);
    assert!(form.clear_exit_viewport(false));
    assert!(!form.is_editing);
}

#[test]
fn add_topic_form_sends_its_name() {
    let mut form = AddTopicViewport::default();
    assert_eq!(form.message(), None);
    form.name = "T".to_string();
    assert_eq!(form.message(), Some(AppMessage::AddTopic(topic("T"))));
}

#[test]
fn link_form_adds_or_edits() {
    let mut form = LinkViewport::default();
    form.set_topic_name("T".to_string());
    form.set_new_title("title".to_string());
    assert_eq!(form.message(), None);
    form.set_new_url("url".to_string());
    assert_eq!(form.message(), Some(AppMessage::AddLink("T".to_string(), link("title", "url"))));
    form.set_old_title("was".to_string());
    form.set_old_url("were".to_string());
    form.set_is_editing(true);
    assert_eq!(
        form.message(),
        Some(AppMessage::EditLink("T".to_string(), link("was", "were"), link("title", "url")))
    );
    form.set_new_title(String::new());
    assert_eq!(form.message(), None);
}

#[test]
fn link_form_empties_itself() {
    let mut form = LinkViewport::default();
    form.set_topic_name("T".to_string());
    form.set_new_title("title".to_string());
    form.set_new_url("url".to_string());
    assert!(!form.exit_viewport(false));
    assert_eq!(form.topic_name, "T");
    assert_eq!(form.new_title, "");
    assert_eq!(form.new_url, "");
    form.set_old_title("was".to_string());
    form.set_is_editing(true);
    assert!(form.exit_viewport(false));
    assert_eq!(form, LinkViewport::default());
    form.set_topic_name("T".to_string());
    assert!(form.exit_viewport(true));
    assert_eq!(form, LinkViewport::default());
}

#[test]
fn add_link_form_sends_and_empties() {
    let mut form = AddLinkViewport::default();
    form.set_topic_name("T".to_string());
    form.set_title("title".to_string());
    assert_eq!(form.message(), None);
    form.set_url("url".to_string());
    assert_eq!(form.message(), Some(AppMessage::AddLink("T".to_string(), link("title", "url"))));
    form.exit_viewport();
    assert_eq!(form, AddLinkViewport::default());
}

#[test]
fn program_starts_collapsed() {
    let app = app_of(&["A", "B", "C"]);
    assert_eq!(app.expanded_topics, vec![false, false, false]);
    assert_eq!(app.window_level, WindowLevel::Normal);
    assert!(!app.is_about_open && !app.is_add_topic_open && !app.is_add_link_open);
    assert!(app.links_to_open.is_empty());
    assert!(app.is_debug);
}

#[test]
fn apply_without_message_does_nothing() {
    let mut app = app_of(&["A"]);
    let effect = app.apply(None);
    assert!(!effect.persist && !effect.repaint);
    assert_eq!(effect.title, None);
    assert_eq!(effect.window_level, None);
    assert_eq!(names(&app), vec!["A"]);
}

#[test]
fn apply_handles_topic_messages() {
    let mut app = app_of(&["A"]);
    let effect = app.apply(Some(AppMessage::AddTopic(topic("B"))));
    assert!(effect.persist && effect.repaint);
    assert_eq!(names(&app), vec!["A", "B"]);
    assert_eq!(app.expanded_topics, vec![false, false]);
    let effect = app.apply(Some(AppMessage::AddTopic(topic("B"))));
    assert!(!effect.persist && effect.repaint);
    assert_eq!(app.expanded_topics, vec![false, false, false]);
    let effect = app.apply(Some(AppMessage::EditTopic(topic("A"), topic("Z"))));
    assert!(effect.persist);
    assert_eq!(names(&app), vec!["Z", "B"]);
    assert!(!app.apply(Some(AppMessage::EditTopic(topic("A"), topic("Y")))).persist);
    app.apply(Some(AppMessage::ToggleCollapsed(1)));
    let effect = app.apply(Some(AppMessage::RemoveTopic(topic("Z"))));
    assert!(effect.persist);
    assert_eq!(names(&app), vec!["B"]);
    assert_eq!(app.expanded_topics, vec![true, false]);
}

#[test]
fn apply_handles_link_messages() {
    let mut app = app_of(&["A"]);
    assert!(app.apply(Some(AppMessage::AddLink("A".to_string(), link("one", "u")))).persist);
    assert!(app.apply(Some(AppMessage::AddLink("A".to_string(), link("two", "u")))).persist);
    assert!(app
        .apply(Some(AppMessage::EditLink("A".to_string(), link("one", "u"), link("uno", "u"))))
        .persist);
    assert_eq!(app.bookmark_manager.get_links_for_topic(&topic("A")), vec![link("uno", "u"), link("two", "u")]);
    assert!(app.apply(Some(AppMessage::RemoveLink("A".to_string(), link("uno", "u")))).persist);
    assert_eq!(app.bookmark_manager.get_links_for_topic(&topic("A")), vec![link("two", "u")]);
}

#[test]
fn apply_toggles_expansion() {
    let mut app = app_of(&["A", "B"]);
    let effect = app.apply(Some(AppMessage::ToggleCollapsed(1)));
    assert!(!effect.persist && effect.repaint);
    assert_eq!(app.expanded_topics, vec![false, true]);
    app.apply(Some(AppMessage::ToggleCollapsed(1)));
    assert_eq!(app.expanded_topics, vec![false, false]);
}

#[test]
fn apply_toggles_window_level() {
    let mut app = app_of(&[]);
    let effect = app.apply(Some(AppMessage::ToggleAlwaysOnTop));
    assert_eq!(app.window_level, WindowLevel::AlwaysOnTop);
    assert_eq!(effect.title, Some("Stash: AlwaysOnTop".to_string()));
    assert_eq!(effect.window_level, Some(WindowLevel::AlwaysOnTop));
    assert!(!effect.persist);
    let effect = app.apply(Some(AppMessage::ToggleAlwaysOnTop));
    assert_eq!(app.window_level, WindowLevel::Normal);
    assert_eq!(effect.title, Some("Stash".to_string()));
    app.window_level = WindowLevel::AlwaysOnBottom;
    let effect = app.apply(Some(AppMessage::ToggleAlwaysOnTop));
    assert_eq!(app.window_level, WindowLevel::Normal);
    assert_eq!(effect.title, None);
    assert_eq!(effect.window_level, Some(WindowLevel::Normal));
}

#[test]
fn accepts_tells_what_apply_can_take() {
    let mut app = app_of(&["A"]);
    assert!(app.accepts(&AppMessage::AddLink("A".to_string(), link("a", "b"))));
    assert!(!app.accepts(&AppMessage::AddLink("X".to_string(), link("a", "b"))));
    assert!(!app.accepts(&AppMessage::EditLink("X".to_string(), link("a", "b"), link("a", "b"))));
    assert!(!app.accepts(&AppMessage::RemoveLink("X".to_string(), link("a", "b"))));
    assert!(app.accepts(&AppMessage::ToggleCollapsed(0)));
    assert!(!app.accepts(&AppMessage::ToggleCollapsed(1)));
    assert!(app.accepts(&AppMessage::RemoveTopic(topic("X"))));
    assert!(app.accepts(&AppMessage::AddTopic(topic("X"))));
    assert!(app.accepts(&AppMessage::ToggleAlwaysOnTop));
    app.expanded_topics.clear();
    assert!(!app.accepts(&AppMessage::RemoveTopic(topic("A"))));
}

#[test]
fn forms_open_filled_in() {
    let mut app = app_of(&["A"]);
    app.open_edit_topic_viewport("A".to_string());
    assert!(app.is_add_topic_open);
    assert_eq!(app.topic_viewport.old_name, "A");
    assert_eq!(app.topic_viewport.new_name, "A");
    assert!(app.topic_viewport.is_editing);
    app.open_add_topic_viewport();
    assert_eq!(app.topic_viewport, TopicViewport::default());
    app.open_edit_link_viewport("A".to_string(), "t".to_string(), "u".to_string());
    assert!(app.is_add_link_open);
    assert_eq!(app.link_viewport.topic_name, "A");
    assert_eq!(app.link_viewport.old_title, "t");
    assert_eq!(app.link_viewport.new_title, "t");
    assert_eq!(app.link_viewport.old_url, "u");
    assert_eq!(app.link_viewport.new_url, "u");
    assert!(app.link_viewport.is_editing);
    app.open_add_link_viewport("B".to_string());
    assert_eq!(app.link_viewport.topic_name, "B");
    assert_eq!(app.link_viewport.new_title, "");
    assert!(!app.link_viewport.is_editing);
}

#[test]
fn update_takes_one_message_a_step() {
    let mut app = app_of(&["A"]);
    app.tx.send(AppMessage::AddTopic(topic("B"))).unwrap();
    app.tx.send(AppMessage::AddTopic(topic("C"))).unwrap();
    let effect = app.update().unwrap();
    assert!(effect.persist && effect.repaint);
    assert_eq!(names(&app), vec!["A", "B"]);
    let effect = app.update().unwrap();
    assert!(effect.persist && effect.repaint);
    assert_eq!(names(&app), vec!["A", "B", "C"]);
    let effect = app.update().unwrap();
    assert!(!effect.persist && !effect.repaint);
    assert_eq!(names(&app), vec!["A", "B", "C"]);
}

#[test]
fn update_hands_back_what_it_cannot_take() {
    let mut app = app_of(&["A"]);
    let message = AppMessage::AddLink("X".to_string(), link("a", "b"));
    app.tx.send(message.clone()).unwrap();
    assert_eq!(app.update().err(), Some(message));
    assert_eq!(names(&app), vec!["A"]);
    app.tx.send(AppMessage::ToggleCollapsed(7)).unwrap();
    assert_eq!(app.update().err(), Some(AppMessage::ToggleCollapsed(7)));
    assert_eq!(app.expanded_topics, vec![false]);
}

#[test]
fn topic_form_sends_and_is_left() {
    let mut app = app_of(&["A"]);
    let mut form = TopicViewport::default();
    assert!(!form.send_topic(&app.tx));
    assert!(app.rx.try_recv().is_err());
    form.set_new_name("B".to_string());
    assert!(!form.send_topic(&app.tx));
    assert_eq!(form.new_name, "");
    assert_eq!(app.rx.try_recv().ok(), Some(AppMessage::AddTopic(topic("B"))));
    form.set_old_name("A".to_string());
    form.set_new_name("Z".to_string());
    form.set_editing(true);
    assert!(form.send_topic(&app.tx));
    assert!(!form.is_editing);
    app.update().unwrap();
    assert_eq!(names(&app), vec!["Z"]);
}

#[test]
fn topic_form_stays_when_nobody_listens() {
    let (tx, rx) = crossbeam::channel::unbounded::<AppMessage>();
    drop(rx);
    let mut form = TopicViewport::default();
    form.set_new_name("B".to_string());
    assert!(!form.send_topic(&tx));
    assert_eq!(form.new_name, "B");
    assert!(!form.after_send(false));
    assert_eq!(form.new_name, "B");
    assert!(!form.after_send(true));
    assert_eq!(form.new_name, "");
}

#[test]
fn add_topic_form_sends_and_closes() {
    let app = app_of(&[]);
    let mut form = AddTopicViewport::default();
    assert!(!form.send_topic(&app.tx));
    form.name = "T".to_string();
    assert!(form.send_topic(&app.tx));
    assert_eq!(form.name, "");
    assert_eq!(app.rx.try_recv().ok(), Some(AppMessage::AddTopic(topic("T"))));
}

#[test]
fn link_form_sends_and_is_left() {
    let mut app = app_of(&["T"]);
    app.open_add_link_viewport("T".to_string());
    app.link_viewport.set_new_title("title".to_string());
    assert!(!app.link_viewport.send_link(&app.tx));
    assert_eq!(app.link_viewport.new_title, "title");
    app.link_viewport.set_new_url("url".to_string());
    assert!(!app.link_viewport.send_link(&app.tx));
    assert_eq!(app.link_viewport.new_title, "");
    assert_eq!(app.link_viewport.topic_name, "T");
    app.update().unwrap();
    assert_eq!(app.bookmark_manager.get_links_for_topic(&topic("T")), vec![link("title", "url")]);
    app.open_edit_link_viewport("T".to_string(), "title".to_string(), "url".to_string());
    app.link_viewport.set_new_title("other".to_string());
    assert!(app.link_viewport.send_link(&app.tx));
    assert_eq!(app.link_viewport, LinkViewport::default());
    app.update().unwrap();
    assert_eq!(app.bookmark_manager.get_links_for_topic(&topic("T")), vec![link("other", "url")]);
}

#[test]
fn add_link_form_sends_through_the_queue() {
    let app = app_of(&["T"]);
    let mut form = AddLinkViewport::default();
    form.set_topic_name("T".to_string());
    form.set_title("title".to_string());
    assert!(!form.send_link(&app.tx));
    form.set_url("url".to_string());
    assert!(form.send_link(&app.tx));
    assert_eq!(form, AddLinkViewport::default());
    assert_eq!(app.rx.try_recv().ok(), Some(AppMessage::AddLink("T".to_string(), link("title", "url"))));
}

#[test]
fn links_wait_to_be_opened() {
    let mut app = app_of(&["A", "B"]);
    app.bookmark_manager.add_link(topic("A"), link("one", "http://one"));
    app.bookmark_manager.add_link(topic("A"), link("two", "http://two"));
    app.bookmark_manager.add_link(topic("B"), link("three", "http://three"));
    app.queue_topic_links(&topic("B"));
    app.queue_topic_links(&topic("A"));
    app.queue_topic_links(&topic("X"));
    assert_eq!(app.links_to_open, vec!["http://three", "http://one", "http://two"]);
    assert_eq!(app.take_links_to_open(), vec!["http://three", "http://one", "http://two"]);
    assert!(app.links_to_open.is_empty());
}

#[test]
fn question_counts_the_links() {
    let mut app = app_of(&["A"]);
    assert_eq!(app.open_links_question(), "Are you sure you want to open 0 links?");
    app.links_to_open.push("http://one".to_string());
    assert_eq!(app.open_links_question(), "Are you sure you want to open 1 link?");
    for _ in 0..11 {
        app.links_to_open.push("http://more".to_string());
    }
    assert_eq!(app.open_links_question(), "Are you sure you want to open 12 links?");
}

#[test]
fn store_is_cloned_with_its_order() {
    let mut app = app_of(&["B", "A", "C"]);
    app.bookmark_manager.add_link(topic("A"), link("one", "http://one"));
    let copy = app.bookmark_manager.clone();
    app.bookmark_manager.remove_topic(topic("B"));
    assert_eq!(copy.get_topics(), vec![topic("B"), topic("A"), topic("C")]);
    assert_eq!(copy.get_links_for_topic(&topic("A")), vec![link("one", "http://one")]);
    assert_eq!(copy.filename(), "bookmarks_debug.json");
    assert_eq!(copy.save_bookmarks(None).0, "dir/bookmarks_debug.json");
}

#[test]
fn messages_are_taken_in_the_order_sent() {
    let mut app = app_of(&["A", "B"]);
    assert!(app.send(AppMessage::ToggleCollapsed(1)));
    assert!(app.send(AppMessage::RemoveTopic(topic("A"))));
    assert_eq!(app.expanded_topics, vec![false, false]);
    app.update().unwrap();
    assert_eq!(app.expanded_topics, vec![false, true]);
    assert_eq!(names(&app), vec!["A", "B"]);
    app.update().unwrap();
    assert_eq!(app.expanded_topics, vec![true]);
    assert_eq!(names(&app), vec!["B"]);
}

#[test]
fn state_always_delivers_its_messages() {
    let mut app = app_of(&["A"]);
    for i in 0..50 {
        assert!(app.send(AppMessage::AddTopic(topic(&format!("T{}", i)))));
    }
    for _ in 0..50 {
        assert!(app.update().unwrap().repaint);
    }
    assert!(!app.update().unwrap().repaint);
    assert_eq!(names(&app).len(), 51);
    assert_eq!(names(&app)[50], "T49");
}

#[test]
fn step_applies_what_the_state_can_take() {
    let mut app = app_of(&["A"]);
    let effect = app.step(Some(AppMessage::AddTopic(topic("B")))).unwrap();
    assert!(effect.persist && effect.repaint);
    assert_eq!(names(&app), vec!["A", "B"]);
    assert_eq!(app.expanded_topics, vec![false, false]);
    let effect = app.step(None).unwrap();
    assert!(!effect.persist && !effect.repaint);
    assert_eq!(effect.title, None);
    assert_eq!(effect.window_level, None);
    assert_eq!(names(&app), vec!["A", "B"]);
    let effect = app.step(Some(AppMessage::AddLink("B".to_string(), link("t", "u")))).unwrap();
    assert!(effect.persist);
    assert_eq!(app.bookmark_manager.get_links_for_topic(&topic("B")), vec![link("t", "u")]);
}

#[test]
fn step_hands_back_what_the_state_cannot_take() {
    let mut app = app_of(&["A"]);
    app.links_to_open.push("http://waiting".to_string());
    let refused = [
        AppMessage::AddLink("X".to_string(), link("t", "u")),
        AppMessage::EditLink("X".to_string(), link("t", "u"), link("v", "w")),
        AppMessage::RemoveLink("X".to_string(), link("t", "u")),
        AppMessage::ToggleCollapsed(1),
    ];
    for message in refused {
        assert_eq!(app.step(Some(message.clone())), Err(message));
        assert_eq!(names(&app), vec!["A"]);
        assert_eq!(app.expanded_topics, vec![false]);
        assert_eq!(app.links_to_open, vec!["http://waiting"]);
        assert!(app.bookmark_manager.get_links_for_topic(&topic("A")).is_empty());
    }
    app.expanded_topics.clear();
    let message = AppMessage::RemoveTopic(topic("A"));
    assert_eq!(app.step(Some(message.clone())), Err(message));
    assert_eq!(names(&app), vec!["A"]);
}
