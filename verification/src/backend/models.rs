use vstd::prelude::*;

verus! {

/// A named grouping of links. Two topics are the same topic when their names
/// are the same sequence of characters.
#[derive(Debug, PartialEq, Eq, Hash)]
pub struct TopicModel {
    pub name: String,
}

impl View for TopicModel {
    type V = Seq<char>;

    open spec fn view(&self) -> Seq<char> {
        self.name@
    }
}

impl Clone for TopicModel {
    fn clone(&self) -> (copy: Self)
        ensures
            copy@ == self@,
    {
        TopicModel { name: self.name.clone() }
    }
}

impl TopicModel {
    pub fn new(name: String) -> (topic: Self)
        ensures
            topic@ == name@,
            topic.name == name,
    {
        Self { name }
    }

    pub fn empty() -> (topic: Self)
        ensures
            topic@ == Seq::<char>::empty(),
    {
        Self::new(String::new())
    }
}

/// What a link is, as mathematics: its three fields as character sequences.
pub struct LinkView {
    pub title: Seq<char>,
    pub url: Seq<char>,
    pub preview: Option<Seq<char>>,
}

/// A titled URL with an optional preview text.
#[derive(Debug, PartialEq, Eq, Hash)]
pub struct LinkModel {
    pub title: String,
    pub url: String,
    pub preview: Option<String>,
}

/// The characters of a text that may be missing.
pub open spec fn text_view(text: Option<String>) -> Option<Seq<char>> {
    match text {
        Some(text) => Some(text@),
        None => None,
    }
}

/// A copy of a text that may be missing.
pub fn clone_text(text: &Option<String>) -> (copy: Option<String>)
    ensures
        text_view(copy) == text_view(*text),
{
    match text {
        Some(text) => Some(text.clone()),
        None => None,
    }
}

impl View for LinkModel {
    type V = LinkView;

    open spec fn view(&self) -> LinkView {
        LinkView { title: self.title@, url: self.url@, preview: text_view(self.preview) }
    }
}

impl Clone for LinkModel {
    fn clone(&self) -> (copy: Self)
        ensures
            copy@ == self@,
    {
        LinkModel {
            title: self.title.clone(),
            url: self.url.clone(),
            preview: clone_text(&self.preview),
        }
    }
}

/// Two links are the same link when title and URL agree; the preview does
/// not take part in a link's identity.
pub open spec fn same_link(a: LinkView, b: LinkView) -> bool {
    a.title == b.title && a.url == b.url
}

/// The views of a list of links, in order.
pub open spec fn links_view(links: Seq<LinkModel>) -> Seq<LinkView> {
    links.map_values(|link: LinkModel| link@)
}

impl LinkModel {
    pub fn new(title: String, url: String, preview: Option<String>) -> (link: Self)
        ensures
            link.title == title,
            link.url == url,
            link.preview == preview,
    {
        Self { title, url, preview }
    }

    /// Whether `self` and `other` are the same link: same title, same URL.
    pub fn same_as(&self, other: &LinkModel) -> (same: bool)
        ensures
            same == same_link(self@, other@),
    {
        self.title == other.title && self.url == other.url
    }
}

/// A copy of a list of links.
pub fn clone_links(links: &Vec<LinkModel>) -> (copy: Vec<LinkModel>)
    ensures
        links_view(copy@) == links_view(links@),
{
    let mut copy: Vec<LinkModel> = Vec::new();
    let mut i: usize = 0;
    while i < links.len()
        invariant
            i <= links.len(),
            copy.len() == i,
            forall|j: int| 0 <= j < i ==> copy@[j]@ == links@[j]@,
        decreases links.len() - i,
    {
        copy.push(links[i].clone());
        i += 1;
    }
    assert(links_view(copy@) =~= links_view(links@));
    copy
}

} // verus!
