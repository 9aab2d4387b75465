use vstd::prelude::*;
use crossbeam::channel::Sender;
use crate::backend::models::TopicModel;
use crate::channel::{never_full, send_message};
use crate::utils::enums::AppMessage;

verus! {

/// The form in which a new topic is named.
#[derive(Debug, Clone, PartialEq)]
pub struct AddTopicViewport {
    pub name: String,
}

impl Default for AddTopicViewport {
    fn default() -> (viewport: Self)
        ensures
            viewport.name@.len() == 0,
    {
        AddTopicViewport { name: String::new() }
    }
}

impl AddTopicViewport {
    /// The message that the form stands for: none while the name is empty,
    /// otherwise a new topic of that name.
    pub fn message(&self) -> (message: Option<AppMessage>)
        ensures
            match message {
                None => self.name@.len() == 0,
                Some(AppMessage::AddTopic(topic)) => self.name@.len() > 0 && topic@ == self.name@,
                Some(_) => false,
            },
    {
        if self.name.as_str().is_empty() {
            None
        } else {
            Some(AppMessage::AddTopic(TopicModel::new(self.name.clone())))
        }
    }

    /// What follows an attempt to send the form's message: where it was
    /// delivered, the name is emptied and the form's window is to close;
    /// where it was not, the form stays as it is.
    pub fn after_send(&mut self, delivered: bool) -> (close: bool)
        ensures
            close == delivered,
            delivered ==> final(self).name@.len() == 0,
            !delivered ==> *final(self) == *old(self),
    {
        if delivered {
            self.name = String::new();
        }
        delivered
    }

    /// Sends the message that the form stands for, if it stands for one, and
    /// empties the form where the message was delivered. Returns whether the
    /// form's window is to close. Nothing happens while the name is empty.
    pub fn send_topic(&mut self, tx: &Sender<AppMessage>) -> (close: bool)
        requires
            never_full(*tx),
        ensures
            old(self).name@.len() == 0 ==> !close,
            close ==> final(self).name@.len() == 0,
            !close ==> *final(self) == *old(self),
    {
        match self.message() {
            None => false,
            Some(message) => {
                let delivered = send_message(tx, None, message);
                self.after_send(delivered)
            },
        }
    }
}

} // verus!
