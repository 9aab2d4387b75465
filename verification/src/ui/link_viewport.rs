use vstd::prelude::*;
use crossbeam::channel::Sender;
use crate::backend::models::{LinkModel, LinkView, clone_text, text_view};
use crate::channel::{never_full, send_message};
use crate::utils::enums::AppMessage;

verus! {

/// The form in which a link is added to a topic or edited.
#[derive(Debug, Clone, PartialEq)]
pub struct LinkViewport {
    pub topic_name: String,
    pub old_title: String,
    pub old_url: String,
    pub new_title: String,
    pub new_url: String,
    pub preview: Option<String>,
    pub is_editing: bool,
}

impl Default for LinkViewport {
    fn default() -> (viewport: Self)
        ensures
            viewport.topic_name@.len() == 0,
            viewport.old_title@.len() == 0,
            viewport.old_url@.len() == 0,
            viewport.new_title@.len() == 0,
            viewport.new_url@.len() == 0,
            viewport.preview is None,
            !viewport.is_editing,
    {
        LinkViewport {
            topic_name: String::new(),
            old_title: String::new(),
            old_url: String::new(),
            new_title: String::new(),
            new_url: String::new(),
            preview: None,
            is_editing: false,
        }
    }
}

impl LinkViewport {
    /// Whether `self` and `other` agree in every field but those named.
    pub open spec fn same_but(
        &self,
        other: &LinkViewport,
        topic_name: bool,
        old_link: bool,
        new_link: bool,
        is_editing: bool,
    ) -> bool {
        &&& topic_name || self.topic_name == other.topic_name
        &&& old_link || (self.old_title == other.old_title && self.old_url == other.old_url)
        &&& new_link || (self.new_title == other.new_title && self.new_url == other.new_url
            && self.preview == other.preview)
        &&& is_editing || self.is_editing == other.is_editing
    }

    pub fn set_topic_name(&mut self, header: String)
        ensures
            final(self).topic_name == header,
            final(self).same_but(old(self), true, false, false, false),
    {
        self.topic_name = header;
    }

    pub fn set_old_title(&mut self, title: String)
        ensures
            final(self).old_title == title,
            final(self).old_url == old(self).old_url,
            final(self).same_but(old(self), false, true, false, false),
    {
        self.old_title = title;
    }

    pub fn set_old_url(&mut self, url: String)
        ensures
            final(self).old_url == url,
            final(self).old_title == old(self).old_title,
            final(self).same_but(old(self), false, true, false, false),
    {
        self.old_url = url;
    }

    pub fn set_new_title(&mut self, title: String)
        ensures
            final(self).new_title == title,
            final(self).new_url == old(self).new_url,
            final(self).preview == old(self).preview,
            final(self).same_but(old(self), false, false, true, false),
    {
        self.new_title = title;
    }

    pub fn set_new_url(&mut self, url: String)
        ensures
            final(self).new_url == url,
            final(self).new_title == old(self).new_title,
            final(self).preview == old(self).preview,
            final(self).same_but(old(self), false, false, true, false),
    {
        self.new_url = url;
    }

    pub fn set_is_editing(&mut self, is_editing: bool)
        ensures
            final(self).is_editing == is_editing,
            final(self).same_but(old(self), false, false, false, true),
    {
        self.is_editing = is_editing;
    }

    /// Whether title and URL are both filled in.
    pub open spec fn is_complete(&self) -> bool {
        self.new_title@.len() > 0 && self.new_url@.len() > 0
    }

    /// The link that the form's fields describe.
    pub open spec fn new_link(&self) -> LinkView {
        LinkView { title: self.new_title@, url: self.new_url@, preview: text_view(self.preview) }
    }

    /// The link that the form set out to edit; it has no preview.
    pub open spec fn old_link(&self) -> LinkView {
        LinkView { title: self.old_title@, url: self.old_url@, preview: None }
    }

    /// The message that the form stands for: none while title or URL is
    /// empty; otherwise the replacement of the old link by the new one where
    /// the form edits, and the new link for the form's topic where it adds.
    pub fn message(&self) -> (message: Option<AppMessage>)
        ensures
            match message {
                None => !self.is_complete(),
                Some(AppMessage::AddLink(name, link)) => self.is_complete() && !self.is_editing
                    && name@ == self.topic_name@ && link@ == self.new_link(),
                Some(AppMessage::EditLink(name, old_link, link)) => self.is_complete()
                    && self.is_editing && name@ == self.topic_name@ && old_link@ == self.old_link()
                    && link@ == self.new_link(),
                Some(_) => false,
            },
    {
        if self.new_title.as_str().is_empty() || self.new_url.as_str().is_empty() {
            return None;
        }
        let link = LinkModel::new(
            self.new_title.clone(),
            self.new_url.clone(),
            clone_text(&self.preview),
        );
        if self.is_editing {
            let old_link = LinkModel::new(self.old_title.clone(), self.old_url.clone(), None);
            Some(AppMessage::EditLink(self.topic_name.clone(), old_link, link))
        } else {
            Some(AppMessage::AddLink(self.topic_name.clone(), link))
        }
    }

    /// Whether `self` is `before` after it was left: the fields of the new
    /// link are emptied; where the form was editing or was given up
    /// (`should_exit`), the topic and the old link are emptied too and the
    /// form edits no longer; otherwise they stay.
    pub open spec fn left(&self, before: &LinkViewport, should_exit: bool) -> bool {
        &&& self.new_title@.len() == 0
        &&& self.new_url@.len() == 0
        &&& self.preview is None
        &&& if before.is_editing || should_exit {
            &&& self.topic_name@.len() == 0
            &&& self.old_title@.len() == 0
            &&& self.old_url@.len() == 0
            &&& !self.is_editing
        } else {
            self.same_but(before, false, false, true, false)
        }
    }

    /// Empties the fields of the new link once the form's message is sent or
    /// the form is given up (`should_exit`). Returns whether the form's
    /// window is to close: it is where the form was editing, or was given
    /// up, and then the topic and the old link are emptied too.
    pub fn exit_viewport(&mut self, should_exit: bool) -> (close: bool)
        ensures
            close == (old(self).is_editing || should_exit),
            final(self).left(old(self), should_exit),
    {
        self.new_title = String::new();
        self.new_url = String::new();
        self.preview = None;
        if self.is_editing || should_exit {
            self.topic_name = String::new();
            self.old_title = String::new();
            self.old_url = String::new();
            self.is_editing = false;
            true
        } else {
            false
        }
    }

    /// What follows an attempt to send the form's message: where it was
    /// delivered, the form is left; where it was not, the form stays as it
    /// is. Returns whether the form's window is to close.
    pub fn after_send(&mut self, delivered: bool) -> (close: bool)
        ensures
            delivered ==> close == old(self).is_editing && final(self).left(old(self), false),
            !delivered ==> !close && *final(self) == *old(self),
    {
        if delivered {
            self.exit_viewport(false)
        } else {
            false
        }
    }

    /// Sends the message that the form stands for, if it stands for one, and
    /// leaves the form where the message was delivered. Returns whether the
    /// form's window is to close. Nothing happens while title or URL is
    /// empty.
    pub fn send_link(&mut self, tx: &Sender<AppMessage>) -> (close: bool)
        requires
            never_full(*tx),
        ensures
            !old(self).is_complete() ==> !close && *final(self) == *old(self),
            (!close && *final(self) == *old(self)) || (close == old(self).is_editing
                && final(self).left(old(self), false)),
    {
        match self.message() {
            None => false,
            Some(message) => {
                let delivered = send_message(tx, None, message);
                self.after_send(delivered)
            },
        }
    }
}

} // verus!
