use vstd::prelude::*;
use crate::backend::models::{LinkModel, TopicModel};

verus! {

/// The pages of the main window.
#[derive(Debug, Clone, Copy, PartialEq, Eq, Structural)]
pub enum AppPage {
    Main,
    Settings,
}

/// What the user asked for, queued by the window and applied by the
/// controller, one message at a time.
#[derive(Debug, Clone, PartialEq)]
pub enum AppMessage {
    AddTopic(TopicModel),
    EditTopic(TopicModel, TopicModel),
    RemoveTopic(TopicModel),
    AddLink(String, LinkModel),
    EditLink(String, LinkModel, LinkModel),
    RemoveLink(String, LinkModel),
    ToggleCollapsed(usize),
    ToggleAlwaysOnTop,
}

/// Either kind of thing that a store holds.
#[derive(Debug, Clone, PartialEq, Eq, Hash)]
pub enum BookmarkItem {
    Topic(TopicModel),
    Link(LinkModel),
}

/// Which place the file browser is to show: the store's directory, or a
/// file given by its path.
#[derive(Debug, Clone, PartialEq)]
pub enum OpenLocationType {
    Documents,
    Custom(String),
}

/// The colour themes on offer.
#[derive(Debug, Clone, Copy, PartialEq, Eq, Structural)]
pub enum AppTheme {
    Light,
    Dark,
    LATTE,
    FRAPPE,
    MACCHIATO,
    MOCHA,
}

impl AppTheme {
    /// The name under which the theme is shown.
    pub open spec fn shown_name(self) -> Seq<char> {
        match self {
            AppTheme::Light => "Light"@,
            AppTheme::Dark => "Dark"@,
            AppTheme::LATTE => "Latte"@,
            AppTheme::FRAPPE => "Frappe"@,
            AppTheme::MACCHIATO => "Macchiato"@,
            AppTheme::MOCHA => "Mocha"@,
        }
    }

    pub fn name(&self) -> (name: &str)
        ensures
            name@ == self.shown_name(),
    {
        match self {
            AppTheme::Light => "Light",
            AppTheme::Dark => "Dark",
            AppTheme::LATTE => "Latte",
            AppTheme::FRAPPE => "Frappe",
            AppTheme::MACCHIATO => "Macchiato",
            AppTheme::MOCHA => "Mocha",
        }
    }

    /// All themes, each once, in the order in which they are offered.
    pub fn values() -> (all: [AppTheme; 6])
        ensures
            all@ == seq![
                AppTheme::Light,
                AppTheme::Dark,
                AppTheme::LATTE,
                AppTheme::FRAPPE,
                AppTheme::MACCHIATO,
                AppTheme::MOCHA,
            ],
    {
        let all = [
            AppTheme::Light,
            AppTheme::Dark,
            AppTheme::LATTE,
            AppTheme::FRAPPE,
            AppTheme::MACCHIATO,
            AppTheme::MOCHA,
        ];
        assert(all@ =~= seq![
            AppTheme::Light,
            AppTheme::Dark,
            AppTheme::LATTE,
            AppTheme::FRAPPE,
            AppTheme::MACCHIATO,
            AppTheme::MOCHA,
        ]);
        all
    }
}

} // verus!
