use vstd::prelude::*;
use vstd::string::StringExecFns;
use crossbeam::channel::{Receiver, Sender};
use crate::backend::bookmark_manager::BookmarkManager;
use crate::channel::{never_full, new_channel, same_channel, send_message, try_receive};
use crate::backend::entries::{
    has_name, links_of, links_with_edit, links_without, renamed, with_link, with_links, with_topic,
    without_topic,
};
use crate::backend::models::{LinkView, TopicModel, links_view};
use crate::backend::stored_key::{decimal, push_decimal};
use crate::ui::link_viewport::LinkViewport;
use crate::ui::topic_viewport::TopicViewport;
use crate::utils::enums::AppMessage;

verus! {

/// Where the main window stands among the other windows of the desktop.
#[derive(Debug, Clone, Copy, PartialEq, Eq, Structural)]
pub enum WindowLevel {
    Normal,
    AlwaysOnBottom,
    AlwaysOnTop,
}

/// What the one who runs the window is to do after an update.
#[derive(Debug, Clone, PartialEq)]
pub struct Effect {
    /// Whether the store is to be written out.
    pub persist: bool,
    /// Whether the window is to be drawn again.
    pub repaint: bool,
    /// The new title of the main window, where it changes.
    pub title: Option<String>,
    /// The level that the main window is to take, where one was asked for.
    pub window_level: Option<WindowLevel>,
}

/// The state of the program: the store, which topics are shown expanded,
/// the links that wait to be opened, and the forms with their windows.
#[derive(Debug)]
pub struct StashApp {
    pub is_debug: bool,
    pub window_level: WindowLevel,
    pub is_about_open: bool,
    pub is_add_topic_open: bool,
    pub is_add_link_open: bool,
    pub bookmark_manager: BookmarkManager,
    pub expanded_topics: Vec<bool>,
    pub links_to_open: Vec<String>,
    pub topic_viewport: TopicViewport,
    pub link_viewport: LinkViewport,
    /// The end of the message queue at which the forms and the window put
    /// their messages.
    pub tx: Sender<AppMessage>,
    /// The end of the message queue from which `update` takes them.
    pub rx: Receiver<AppMessage>,
}

impl StashApp {
    /// The state's invariant: the store's own, and the two ends of one
    /// message queue that is never full.
    pub open spec fn wf(&self) -> bool {
        self.bookmark_manager.wf() && never_full(self.tx) && same_channel(self.tx, self.rx)
    }

    /// Whether `self` and `other` agree in everything but the store, the
    /// expanded topics and the window level.
    pub open spec fn same_windows(&self, other: &StashApp) -> bool {
        &&& self.tx == other.tx
        &&& self.rx == other.rx
        &&& self.is_debug == other.is_debug
        &&& self.is_about_open == other.is_about_open
        &&& self.is_add_topic_open == other.is_add_topic_open
        &&& self.is_add_link_open == other.is_add_link_open
        &&& self.links_to_open == other.links_to_open
        &&& self.topic_viewport == other.topic_viewport
        &&& self.link_viewport == other.link_viewport
    }

    /// Whether `self` and `other` agree in everything but the two forms and
    /// whether their windows are open.
    pub open spec fn same_but_forms(&self, other: &StashApp) -> bool {
        &&& self.tx == other.tx
        &&& self.rx == other.rx
        &&& self.is_debug == other.is_debug
        &&& self.window_level == other.window_level
        &&& self.is_about_open == other.is_about_open
        &&& self.bookmark_manager == other.bookmark_manager
        &&& self.expanded_topics == other.expanded_topics
        &&& self.links_to_open == other.links_to_open
    }

    /// The state at the program's start: the store as it was loaded, every
    /// topic collapsed, no window but the main one open, and a new message
    /// queue.
    pub fn new(is_debug: bool, bookmark_manager: BookmarkManager) -> (app: Self)
        requires
            bookmark_manager.wf(),
        ensures
            app.wf(),
            app.bookmark_manager == bookmark_manager,
            app.is_debug == is_debug,
            app.window_level == WindowLevel::Normal,
            !app.is_about_open && !app.is_add_topic_open && !app.is_add_link_open,
            app.expanded_topics@ == Seq::new(bookmark_manager@.len(), |i: int| false),
            app.links_to_open@.len() == 0,
            app.topic_viewport.old_name@.len() == 0 && app.topic_viewport.new_name@.len() == 0
                && !app.topic_viewport.is_editing,
            app.link_viewport.topic_name@.len() == 0 && app.link_viewport.old_title@.len() == 0
                && app.link_viewport.old_url@.len() == 0 && app.link_viewport.new_title@.len() == 0
                && app.link_viewport.new_url@.len() == 0 && app.link_viewport.preview is None
                && !app.link_viewport.is_editing,
    {
        let topics = bookmark_manager.get_topics();
        assert(topics@.len() == topics@.map_values(|t: TopicModel| t@).len());
        let mut expanded_topics: Vec<bool> = Vec::new();
        let mut i: usize = 0;
        while i < topics.len()
            invariant
                i <= topics.len(),
                expanded_topics@ == Seq::new(i as nat, |i: int| false),
            decreases topics.len() - i,
        {
            expanded_topics.push(false);
            assert(expanded_topics@ =~= Seq::new((i + 1) as nat, |i: int| false));
            i += 1;
        }
        let (tx, rx) = new_channel();
        Self {
            tx,
            rx,
            is_debug,
            window_level: WindowLevel::Normal,
            is_about_open: false,
            is_add_topic_open: false,
            is_add_link_open: false,
            bookmark_manager,
            expanded_topics,
            links_to_open: Vec::new(),
            topic_viewport: TopicViewport::default(),
            link_viewport: LinkViewport::default(),
        }
    }

    /// Opens the topic form, empty, to add a topic.
    pub fn open_add_topic_viewport(&mut self)
        ensures
            final(self).is_add_topic_open,
            final(self).is_add_link_open == old(self).is_add_link_open,
            final(self).link_viewport == old(self).link_viewport,
            final(self).topic_viewport.old_name@.len() == 0,
            final(self).topic_viewport.new_name@.len() == 0,
            !final(self).topic_viewport.is_editing,
            final(self).same_but_forms(old(self)),
    {
        self.topic_viewport.set_old_name(String::new());
        self.topic_viewport.set_new_name(String::new());
        self.topic_viewport.set_editing(false);
        self.is_add_topic_open = true;
    }

    /// Opens the topic form to rename the topic `topic_name`, with that name
    /// filled in.
    pub fn open_edit_topic_viewport(&mut self, topic_name: String)
        ensures
            final(self).is_add_topic_open,
            final(self).is_add_link_open == old(self).is_add_link_open,
            final(self).link_viewport == old(self).link_viewport,
            final(self).topic_viewport.old_name@ == topic_name@,
            final(self).topic_viewport.new_name@ == topic_name@,
            final(self).topic_viewport.is_editing,
            final(self).same_but_forms(old(self)),
    {
        self.topic_viewport.set_old_name(topic_name.clone());
        self.topic_viewport.set_new_name(topic_name);
        self.topic_viewport.set_editing(true);
        self.is_add_topic_open = true;
    }

    /// Opens the link form, empty, to add a link to the topic `topic_name`.
    pub fn open_add_link_viewport(&mut self, topic_name: String)
        ensures
            final(self).is_add_link_open,
            final(self).is_add_topic_open == old(self).is_add_topic_open,
            final(self).topic_viewport == old(self).topic_viewport,
            final(self).link_viewport.topic_name@ == topic_name@,
            final(self).link_viewport.old_title@.len() == 0,
            final(self).link_viewport.old_url@.len() == 0,
            final(self).link_viewport.new_title@.len() == 0,
            final(self).link_viewport.new_url@.len() == 0,
            final(self).link_viewport.preview == old(self).link_viewport.preview,
            !final(self).link_viewport.is_editing,
            final(self).same_but_forms(old(self)),
    {
        self.link_viewport.set_topic_name(topic_name);
        self.link_viewport.set_old_title(String::new());
        self.link_viewport.set_old_url(String::new());
        self.link_viewport.set_new_title(String::new());
        self.link_viewport.set_new_url(String::new());
        self.link_viewport.set_is_editing(false);
        self.is_add_link_open = true;
    }

    /// Opens the link form to edit the link with the given title and URL
    /// under the topic `topic_name`, with both filled in.
    pub fn open_edit_link_viewport(&mut self, topic_name: String, title: String, url: String)
        ensures
            final(self).is_add_link_open,
            final(self).is_add_topic_open == old(self).is_add_topic_open,
            final(self).topic_viewport == old(self).topic_viewport,
            final(self).link_viewport.topic_name@ == topic_name@,
            final(self).link_viewport.old_title@ == title@,
            final(self).link_viewport.old_url@ == url@,
            final(self).link_viewport.new_title@ == title@,
            final(self).link_viewport.new_url@ == url@,
            final(self).link_viewport.preview == old(self).link_viewport.preview,
            final(self).link_viewport.is_editing,
            final(self).same_but_forms(old(self)),
    {
        self.link_viewport.set_topic_name(topic_name);
        self.link_viewport.set_old_title(title.clone());
        self.link_viewport.set_old_url(url.clone());
        self.link_viewport.set_new_title(title);
        self.link_viewport.set_new_url(url);
        self.link_viewport.set_is_editing(true);
        self.is_add_link_open = true;
    }

    /// Puts `message` on the queue, from which `update` takes it off later.
    /// The message is always delivered, and the result says so: the state
    /// holds the queue's receiving end, so the queue cannot be closed.
    pub fn send(&self, message: AppMessage) -> (delivered: bool)
        requires
            self.wf(),
        ensures
            delivered,
    {
        send_message(&self.tx, Some(&self.rx), message)
    }

    /// Puts the URLs of all links of `topic` on the list of links that wait
    /// to be opened, behind those that wait already.
    pub fn queue_topic_links(&mut self, topic: &TopicModel)
        requires
            old(self).bookmark_manager.wf(),
        ensures
            final(self).links_to_open@.map_values(|url: String| url@) == old(self).links_to_open@.map_values(
                |url: String| url@,
            ) + links_of(
                old(self).bookmark_manager@,
                topic@,
            ).map_values(|link: LinkView| link.url),
            final(self).tx == old(self).tx,
            final(self).rx == old(self).rx,
            final(self).bookmark_manager == old(self).bookmark_manager,
            final(self).expanded_topics == old(self).expanded_topics,
            final(self).window_level == old(self).window_level,
            final(self).is_debug == old(self).is_debug,
            final(self).is_about_open == old(self).is_about_open,
            final(self).is_add_topic_open == old(self).is_add_topic_open,
            final(self).is_add_link_open == old(self).is_add_link_open,
            final(self).topic_viewport == old(self).topic_viewport,
            final(self).link_viewport == old(self).link_viewport,
    {
        let links = self.bookmark_manager.get_links_for_topic(topic);
        let ghost before = self.links_to_open@.map_values(|url: String| url@);
        let ghost urls = links_view(links@).map_values(|link: LinkView| link.url);
        let mut i: usize = 0;
        while i < links.len()
            invariant
                i <= links.len(),
                urls == links_view(links@).map_values(|link: LinkView| link.url),
                self.links_to_open@.map_values(|url: String| url@) == before + urls.take(i as int),
                self.tx == old(self).tx,
                self.rx == old(self).rx,
                self.bookmark_manager == old(self).bookmark_manager,
                self.expanded_topics == old(self).expanded_topics,
                self.window_level == old(self).window_level,
                self.is_debug == old(self).is_debug,
                self.is_about_open == old(self).is_about_open,
                self.is_add_topic_open == old(self).is_add_topic_open,
                self.is_add_link_open == old(self).is_add_link_open,
                self.topic_viewport == old(self).topic_viewport,
                self.link_viewport == old(self).link_viewport,
            decreases links.len() - i,
        {
            let ghost waiting = self.links_to_open@.map_values(|url: String| url@);
            self.links_to_open.push(links[i].url.clone());
            assert(self.links_to_open@.map_values(|url: String| url@) =~= waiting.push(urls[i as int]));
            assert(urls.take(i + 1) =~= urls.take(i as int).push(urls[i as int]));
            i += 1;
        }
        assert(urls.take(i as int) =~= urls);
    }

    /// The question that is put before `count` links are opened.
    pub open spec fn question_for(count: nat) -> Seq<char> {
        "Are you sure you want to open "@ + decimal(count) + " "@ + (if count == 1 {
            "link"@
        } else {
            "links"@
        }) + "?"@
    }

    /// The question that is put before the links that wait are opened: it
    /// names their number, and speaks of one link or of several.
    pub fn open_links_question(&self) -> (question: String)
        ensures
            question@ == Self::question_for(self.links_to_open@.len()),
    {
        let count = self.links_to_open.len();
        let mut question = "Are you sure you want to open ".to_owned();
        push_decimal(&mut question, count);
        question.append(" ");
        if count == 1 {
            question.append("link");
        } else {
            question.append("links");
        }
        question.append("?");
        question
    }

    /// Hands out the links that wait to be opened, in the order in which
    /// they were put on the list, and empties the list.
    pub fn take_links_to_open(&mut self) -> (urls: Vec<String>)
        ensures
            urls == old(self).links_to_open,
            final(self).links_to_open@.len() == 0,
            final(self).tx == old(self).tx,
            final(self).rx == old(self).rx,
            final(self).bookmark_manager == old(self).bookmark_manager,
            final(self).expanded_topics == old(self).expanded_topics,
            final(self).window_level == old(self).window_level,
            final(self).is_debug == old(self).is_debug,
            final(self).is_about_open == old(self).is_about_open,
            final(self).is_add_topic_open == old(self).is_add_topic_open,
            final(self).is_add_link_open == old(self).is_add_link_open,
            final(self).topic_viewport == old(self).topic_viewport,
            final(self).link_viewport == old(self).link_viewport,
    {
        let mut urls: Vec<String> = Vec::new();
        std::mem::swap(&mut urls, &mut self.links_to_open);
        urls
    }

    /// Whether the state can take the message `message`: removing a topic
    /// takes an expanded-flag away, so there must be one; a message about a
    /// link names a topic that the store has; a toggle names a topic's place.
    pub open spec fn takes(&self, message: AppMessage) -> bool {
        match message {
            AppMessage::RemoveTopic(_) => self.expanded_topics@.len() > 0,
            AppMessage::AddLink(name, _) => has_name(self.bookmark_manager@, name@),
            AppMessage::EditLink(name, _, _) => has_name(self.bookmark_manager@, name@),
            AppMessage::RemoveLink(name, _) => has_name(self.bookmark_manager@, name@),
            AppMessage::ToggleCollapsed(index) => index < self.expanded_topics@.len(),
            _ => true,
        }
    }

    /// Whether the state can take the message `message`.
    pub fn accepts(&self, message: &AppMessage) -> (ok: bool)
        ensures
            ok == self.takes(*message),
    {
        match message {
            AppMessage::RemoveTopic(_) => self.expanded_topics.len() > 0,
            AppMessage::AddLink(name, _) => self.bookmark_manager.has_topic(name),
            AppMessage::EditLink(name, _, _) => self.bookmark_manager.has_topic(name),
            AppMessage::RemoveLink(name, _) => self.bookmark_manager.has_topic(name),
            AppMessage::ToggleCollapsed(index) => *index < self.expanded_topics.len(),
            _ => true,
        }
    }

    /// The store after `message`.
    pub open spec fn store_after(s: Seq<(Seq<char>, Seq<LinkView>)>, message: AppMessage) -> Seq<
        (Seq<char>, Seq<LinkView>),
    > {
        match message {
            AppMessage::AddTopic(topic) => with_topic(s, topic@),
            AppMessage::EditTopic(old_topic, new_topic) => renamed(s, old_topic@, new_topic@),
            AppMessage::RemoveTopic(topic) => without_topic(s, topic@),
            AppMessage::AddLink(name, link) => with_link(s, name@, link@),
            AppMessage::EditLink(name, old_link, link) => with_links(
                s,
                name@,
                links_with_edit(links_of(s, name@), old_link@, link@),
            ),
            AppMessage::RemoveLink(name, link) => with_links(
                s,
                name@,
                links_without(links_of(s, name@), link@),
            ),
            AppMessage::ToggleCollapsed(_) => s,
            AppMessage::ToggleAlwaysOnTop => s,
        }
    }

    /// Which topics are shown expanded after `message`: a topic that is
    /// added brings a flag, at the end; a topic that is removed takes the
    /// first flag away; a toggle turns the flag at its place over.
    pub open spec fn expanded_after(expanded: Seq<bool>, message: AppMessage) -> Seq<bool> {
        match message {
            AppMessage::AddTopic(_) => expanded.push(false),
            AppMessage::RemoveTopic(_) => expanded.remove(0),
            AppMessage::ToggleCollapsed(index) => expanded.update(index as int, !expanded[index as int]),
            _ => expanded,
        }
    }

    /// Whether the store is to be written out after `message`.
    pub open spec fn persists(s: Seq<(Seq<char>, Seq<LinkView>)>, message: AppMessage) -> bool {
        match message {
            AppMessage::AddTopic(topic) => !has_name(s, topic@),
            AppMessage::EditTopic(old_topic, _) => has_name(s, old_topic@),
            AppMessage::ToggleCollapsed(_) => false,
            AppMessage::ToggleAlwaysOnTop => false,
            _ => true,
        }
    }

    /// The level of the main window after a toggle: on top where it was
    /// normal, normal otherwise.
    pub open spec fn toggled(level: WindowLevel) -> WindowLevel {
        match level {
            WindowLevel::Normal => WindowLevel::AlwaysOnTop,
            _ => WindowLevel::Normal,
        }
    }

    /// The title that the main window takes with a toggle from `level`, if
    /// it takes one.
    pub open spec fn title_after_toggle(level: WindowLevel) -> Option<Seq<char>> {
        match level {
            WindowLevel::Normal => Some("Stash: AlwaysOnTop"@),
            WindowLevel::AlwaysOnTop => Some("Stash"@),
            WindowLevel::AlwaysOnBottom => None,
        }
    }

    /// Whether `self` is `before` after the message `received` was applied
    /// to it, if one was received, with `effect` as what is to be done about
    /// it: the store, the expanded topics and the window level are those
    /// after the message, and nothing else has changed.
    pub open spec fn applied(&self, before: &StashApp, received: Option<AppMessage>, effect: &Effect) -> bool {
        &&& self.bookmark_manager.wf()
        &&& self.bookmark_manager.same_file(&before.bookmark_manager)
        &&& self.same_windows(before)
        &&& effect.repaint == (received is Some)
        &&& match received {
            None => self.bookmark_manager@ == before.bookmark_manager@ && self.expanded_topics@
                == before.expanded_topics@ && self.window_level == before.window_level
                && !effect.persist && effect.title is None && effect.window_level is None,
            Some(message) => self.bookmark_manager@ == Self::store_after(
                before.bookmark_manager@,
                message,
            ) && self.expanded_topics@ == Self::expanded_after(before.expanded_topics@, message)
                && effect.persist == Self::persists(before.bookmark_manager@, message)
                && match message {
                AppMessage::ToggleAlwaysOnTop => self.window_level == Self::toggled(
                    before.window_level,
                ) && effect.window_level == Some(self.window_level) && match effect.title {
                    Some(title) => Self::title_after_toggle(before.window_level) == Some(title@),
                    None => Self::title_after_toggle(before.window_level) is None,
                },
                _ => self.window_level == before.window_level && effect.title is None
                    && effect.window_level is None,
            },
        }
    }

    /// Applies the message that was received, if one was, and says what is
    /// to be done about it.
    pub fn apply(&mut self, received: Option<AppMessage>) -> (effect: Effect)
        requires
            old(self).wf(),
            received is Some ==> old(self).takes(received->0),
        ensures
            final(self).wf(),
            final(self).applied(old(self), received, &effect),
    {
        let mut effect = Effect { persist: false, repaint: false, title: None, window_level: None };
        let message = match received {
            Some(message) => message,
            None => {
                return effect;
            },
        };
        effect.repaint = true;
        match message {
            AppMessage::AddTopic(topic) => {
                effect.persist = self.bookmark_manager.add_topic(topic);
                self.expanded_topics.push(false);
            },
            AppMessage::EditTopic(old_topic, new_topic) => {
                effect.persist = self.bookmark_manager.edit_topic(old_topic, new_topic);
            },
            AppMessage::RemoveTopic(topic) => {
                effect.persist = self.bookmark_manager.remove_topic(topic);
                self.expanded_topics.remove(0);
            },
            AppMessage::AddLink(name, link) => {
                effect.persist = self.bookmark_manager.add_link(TopicModel::new(name), link);
            },
            AppMessage::EditLink(name, old_link, link) => {
                effect.persist = self.bookmark_manager.edit_link(TopicModel::new(name), old_link, link);
            },
            AppMessage::RemoveLink(name, link) => {
                effect.persist = self.bookmark_manager.remove_link(TopicModel::new(name), link);
            },
            AppMessage::ToggleCollapsed(index) => {
                let is_expanded = self.expanded_topics[index];
                self.expanded_topics.set(index, !is_expanded);
            },
            AppMessage::ToggleAlwaysOnTop => {
                match self.window_level {
                    WindowLevel::Normal => {
                        effect.title = Some("Stash: AlwaysOnTop".to_owned());
                        self.window_level = WindowLevel::AlwaysOnTop;
                    },
                    WindowLevel::AlwaysOnTop => {
                        effect.title = Some("Stash".to_owned());
                        self.window_level = WindowLevel::Normal;
                    },
                    WindowLevel::AlwaysOnBottom => {
                        self.window_level = WindowLevel::Normal;
                    },
                }
                effect.window_level = Some(self.window_level);
            },
        }
        effect
    }

    /// Whether `self` is `before` after one step in which `received` came off
    /// the queue, with `outcome` as the step's result. A message that
    /// `before` cannot take is handed back as the error, and nothing has
    /// changed. Otherwise the outcome is the effect of applying what was
    /// received, which may be nothing, as `applied` says.
    pub open spec fn stepped(
        &self,
        before: &StashApp,
        received: Option<AppMessage>,
        outcome: Result<Effect, AppMessage>,
    ) -> bool {
        if received is Some && !before.takes(received->0) {
            outcome == Err::<Effect, AppMessage>(received->0) && *self == *before
        } else {
            outcome is Ok && self.applied(before, received, &outcome->Ok_0)
        }
    }

    /// One step of the program on what came off the queue: a message that
    /// the state can take is applied, as is the absence of one; a message
    /// that the state cannot take is handed back, and nothing changes.
    pub fn step(&mut self, received: Option<AppMessage>) -> (outcome: Result<Effect, AppMessage>)
        requires
            old(self).wf(),
        ensures
            final(self).wf(),
            final(self).stepped(old(self), received, outcome),
    {
        match received {
            Some(message) => {
                if self.accepts(&message) {
                    Ok(self.apply(Some(message)))
                } else {
                    Err(message)
                }
            },
            None => Ok(self.apply(None)),
        }
    }

    /// One step of the program: takes at most one message off the queue,
    /// without waiting, and does with it what `step` says.
    pub fn update(&mut self) -> (outcome: Result<Effect, AppMessage>)
        requires
            old(self).wf(),
        ensures
            final(self).wf(),
            exists|received: Option<AppMessage>| #[trigger]
                final(self).stepped(old(self), received, outcome),
    {
        let received = try_receive(&self.rx);
        self.step(received)
    }
}

} // verus!
