use vstd::prelude::*;
use crossbeam::channel::Sender;
use crate::backend::models::TopicModel;
use crate::channel::{never_full, send_message};
use crate::utils::enums::AppMessage;

verus! {

/// The form in which a topic is named or renamed.
#[derive(Debug, Clone, PartialEq)]
pub struct TopicViewport {
    pub old_name: String,
    pub new_name: String,
    pub is_editing: bool,
}

impl Default for TopicViewport {
    fn default() -> (viewport: Self)
        ensures
            viewport.old_name@.len() == 0,
            viewport.new_name@.len() == 0,
            !viewport.is_editing,
    {
        TopicViewport { old_name: String::new(), new_name: String::new(), is_editing: false }
    }
}

impl TopicViewport {
    pub fn set_old_name(&mut self, name: String)
        ensures
            final(self).old_name == name,
            final(self).new_name == old(self).new_name,
            final(self).is_editing == old(self).is_editing,
    {
        self.old_name = name;
    }

    pub fn set_new_name(&mut self, name: String)
        ensures
            final(self).new_name == name,
            final(self).old_name == old(self).old_name,
            final(self).is_editing == old(self).is_editing,
    {
        self.new_name = name;
    }

    pub fn set_editing(&mut self, is_editing: bool)
        ensures
            final(self).is_editing == is_editing,
            final(self).old_name == old(self).old_name,
            final(self).new_name == old(self).new_name,
    {
        self.is_editing = is_editing;
    }

    /// The message that the form stands for: none while the name is empty;
    /// otherwise a rename of the topic with the old name where the form
    /// edits, and a new topic where it adds.
    pub fn message(&self) -> (message: Option<AppMessage>)
        ensures
            match message {
                None => self.new_name@.len() == 0,
                Some(AppMessage::AddTopic(topic)) => self.new_name@.len() > 0 && !self.is_editing
                    && topic@ == self.new_name@,
                Some(AppMessage::EditTopic(old_topic, new_topic)) => self.new_name@.len() > 0
                    && self.is_editing && old_topic@ == self.old_name@ && new_topic@
                    == self.new_name@,
                Some(_) => false,
            },
    {
        if self.new_name.as_str().is_empty() {
            return None;
        }
        let new_topic = TopicModel::new(self.new_name.clone());
        if self.is_editing {
            Some(AppMessage::EditTopic(TopicModel::new(self.old_name.clone()), new_topic))
        } else {
            Some(AppMessage::AddTopic(new_topic))
        }
    }

    /// Whether `self` is `before` after it was left: the new name is
    /// emptied, and the form edits no longer where it was editing or was
    /// given up (`should_exit`).
    pub open spec fn left(&self, before: &TopicViewport, should_exit: bool) -> bool {
        &&& self.new_name@.len() == 0
        &&& self.old_name == before.old_name
        &&& self.is_editing == (before.is_editing && !(before.is_editing || should_exit))
    }

    /// Empties the form's field once its message is sent or the form is
    /// given up (`should_exit`). Returns whether the form's window is to
    /// close: it is where the form was editing, or was given up.
    pub fn clear_exit_viewport(&mut self, should_exit: bool) -> (close: bool)
        ensures
            close == (old(self).is_editing || should_exit),
            final(self).left(old(self), should_exit),
    {
        self.new_name = String::new();
        if self.is_editing || should_exit {
            self.is_editing = false;
            true
        } else {
            false
        }
    }

    /// What follows an attempt to send the form's message: where it was
    /// delivered, the form is left; where it was not, the form stays as it
    /// is. Returns whether the form's window is to close.
    pub fn after_send(&mut self, delivered: bool) -> (close: bool)
        ensures
            delivered ==> close == old(self).is_editing && final(self).left(old(self), false),
            !delivered ==> !close && *final(self) == *old(self),
    {
        if delivered {
            self.clear_exit_viewport(false)
        } else {
            false
        }
    }

    /// Sends the message that the form stands for, if it stands for one, and
    /// leaves the form where the message was delivered. Returns whether the
    /// form's window is to close. Nothing happens while the name is empty.
    pub fn send_topic(&mut self, tx: &Sender<AppMessage>) -> (close: bool)
        requires
            never_full(*tx),
        ensures
            old(self).new_name@.len() == 0 ==> !close && *final(self) == *old(self),
            (!close && *final(self) == *old(self)) || (close == old(self).is_editing
                && final(self).left(old(self), false)),
    {
        match self.message() {
            None => false,
            Some(message) => {
                let delivered = send_message(tx, None, message);
                self.after_send(delivered)
            },
        }
    }
}

} // verus!
