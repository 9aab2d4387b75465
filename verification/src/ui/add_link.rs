use vstd::prelude::*;
use crossbeam::channel::Sender;
use crate::backend::models::{LinkModel, LinkView, clone_text, text_view};
use crate::channel::{never_full, send_message};
use crate::utils::enums::AppMessage;

verus! {

/// The form in which a link is added to a topic.
#[derive(Debug, Clone, PartialEq)]
pub struct AddLinkViewport {
    pub topic_name: String,
    pub title: String,
    pub url: String,
    pub preview: Option<String>,
}

impl Default for AddLinkViewport {
    fn default() -> (viewport: Self)
        ensures
            viewport.is_blank(),
    {
        AddLinkViewport {
            topic_name: String::new(),
            title: String::new(),
            url: String::new(),
            preview: None,
        }
    }
}

impl AddLinkViewport {
    /// Whether every field of the form is empty.
    pub open spec fn is_blank(&self) -> bool {
        &&& self.topic_name@.len() == 0
        &&& self.title@.len() == 0
        &&& self.url@.len() == 0
        &&& self.preview is None
    }

    pub fn set_topic_name(&mut self, header: String)
        ensures
            final(self).topic_name == header,
            final(self).title == old(self).title,
            final(self).url == old(self).url,
            final(self).preview == old(self).preview,
    {
        self.topic_name = header;
    }

    pub fn set_title(&mut self, title: String)
        ensures
            final(self).title == title,
            final(self).topic_name == old(self).topic_name,
            final(self).url == old(self).url,
            final(self).preview == old(self).preview,
    {
        self.title = title;
    }

    pub fn set_url(&mut self, url: String)
        ensures
            final(self).url == url,
            final(self).topic_name == old(self).topic_name,
            final(self).title == old(self).title,
            final(self).preview == old(self).preview,
    {
        self.url = url;
    }

    /// The message that the form stands for: none while title or URL is
    /// empty, otherwise the new link for the form's topic.
    pub fn message(&self) -> (message: Option<AppMessage>)
        ensures
            match message {
                None => self.title@.len() == 0 || self.url@.len() == 0,
                Some(AppMessage::AddLink(name, link)) => self.title@.len() > 0 && self.url@.len() > 0
                    && name@ == self.topic_name@ && link@ == (LinkView {
                    title: self.title@,
                    url: self.url@,
                    preview: text_view(self.preview),
                }),
                Some(_) => false,
            },
    {
        if self.title.as_str().is_empty() || self.url.as_str().is_empty() {
            return None;
        }
        let link = LinkModel::new(self.title.clone(), self.url.clone(), clone_text(&self.preview));
        Some(AppMessage::AddLink(self.topic_name.clone(), link))
    }

    /// Empties the form once its message is sent; its window is then to close.
    pub fn exit_viewport(&mut self)
        ensures
            final(self).is_blank(),
    {
        self.topic_name = String::new();
        self.title = String::new();
        self.url = String::new();
        self.preview = None;
    }

    /// What follows an attempt to send the form's message: where it was
    /// delivered, the form is emptied and its window is to close; where it
    /// was not, the form stays as it is.
    pub fn after_send(&mut self, delivered: bool) -> (close: bool)
        ensures
            close == delivered,
            delivered ==> final(self).is_blank(),
            !delivered ==> *final(self) == *old(self),
    {
        if delivered {
            self.exit_viewport();
        }
        delivered
    }

    /// Sends the message that the form stands for, if it stands for one, and
    /// empties the form where the message was delivered. Returns whether the
    /// form's window is to close. Nothing happens while title or URL is
    /// empty.
    pub fn send_link(&mut self, tx: &Sender<AppMessage>) -> (close: bool)
        requires
            never_full(*tx),
        ensures
            (old(self).title@.len() == 0 || old(self).url@.len() == 0) ==> !close,
            close ==> final(self).is_blank(),
            !close ==> *final(self) == *old(self),
    {
        match self.message() {
            None => false,
            Some(message) => {
                let delivered = send_message(tx, None, message);
                self.after_send(delivered)
            },
        }
    }
}

} // verus!
