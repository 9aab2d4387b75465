use vstd::prelude::*;

verus! {

/// What the tray icon's menu can ask for.
#[derive(Debug, Clone, Copy, PartialEq, Eq, Structural)]
pub enum TrayMessage {
    ShowHide,
    Quit,
}

impl TrayMessage {
    /// The identifier of the menu item that stands for `self`.
    pub open spec fn menu_id(self) -> Seq<char> {
        match self {
            TrayMessage::ShowHide => "show"@,
            TrayMessage::Quit => "quit"@,
        }
    }

    /// The label of the menu item that stands for `self`.
    pub open spec fn label(self) -> Seq<char> {
        match self {
            TrayMessage::ShowHide => "Show/Hide"@,
            TrayMessage::Quit => "Quit"@,
        }
    }

    /// The identifier under which the menu item of `self` is registered.
    pub fn to_menu_id(self) -> (id: String)
        ensures
            id@ == self.menu_id(),
    {
        match self {
            TrayMessage::ShowHide => "show".to_owned(),
            TrayMessage::Quit => "quit".to_owned(),
        }
    }

    pub fn to_str(self) -> (label: &'static str)
        ensures
            label@ == self.label(),
    {
        match self {
            TrayMessage::ShowHide => "Show/Hide",
            TrayMessage::Quit => "Quit",
        }
    }

    /// The message of the menu item with the identifier `s`, which is one
    /// of the two identifiers that `to_menu_id` gives.
    pub fn from_string(s: String) -> (message: Self)
        requires
            s@ == TrayMessage::ShowHide.menu_id() || s@ == TrayMessage::Quit.menu_id(),
        ensures
            message.menu_id() == s@,
    {
        if s == "show".to_owned() {
            TrayMessage::ShowHide
        } else {
            TrayMessage::Quit
        }
    }

    /// The message of the menu item with the identifier `s`, or `None`
    /// where no menu item has that identifier.
    pub fn try_from_string(s: &String) -> (message: Option<Self>)
        ensures
            match message {
                Some(m) => m.menu_id() == s@,
                None => s@ != TrayMessage::ShowHide.menu_id() && s@ != TrayMessage::Quit.menu_id(),
            },
    {
        if *s == "show".to_owned() {
            Some(TrayMessage::ShowHide)
        } else if *s == "quit".to_owned() {
            Some(TrayMessage::Quit)
        } else {
            None
        }
    }
}

/// The two menu items have different identifiers, so a message is found
/// again by its identifier.
pub proof fn lemma_menu_ids_differ()
    ensures
        TrayMessage::ShowHide.menu_id() != TrayMessage::Quit.menu_id(),
        forall|a: TrayMessage, b: TrayMessage| a.menu_id() == b.menu_id() ==> a == b,
{
    reveal_strlit("show");
    reveal_strlit("quit");
    assert("show"@[0] != "quit"@[0]);
}

} // verus!
