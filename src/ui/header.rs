use vstd::prelude::*;

use crate::ui::title::{Title, TitleMessage};

verus! {

/// What the header's controls send.
#[derive(Clone, Debug)]
pub enum HeaderMessage {
    Title(TitleMessage),
    Undo,
    Redo,
    Cursor,
    Select,
    ResetZoom,
    FitZoom,
    Table,
    Refer,
    Note,
    View,
    Layout,
    Export,
    Share,
    Revert,
    SignUp,
    Property,
}

/// The state of the header: the project title. Its buttons hold no state.
pub struct Header {
    title: Title,
}

impl Header {
    pub closed spec fn title_view(&self) -> (Seq<char>, Seq<char>) {
        (self.title.name_view(), self.title.version_view())
    }

    pub fn new() -> (r: Header)
        ensures
            r.title_view() == ("Untitled project*"@, "initial version"@),
    {
        Header { title: Title::new() }
    }

    pub fn title(&self) -> (r: &Title)
        ensures
            (r.name_view(), r.version_view()) == self.title_view(),
    {
        &self.title
    }

    /// Passes title edits on to the title; the buttons change nothing here.
    pub fn update(&mut self, message: HeaderMessage)
        ensures
            match message {
                HeaderMessage::Title(TitleMessage::NameInput(s)) => final(self).title_view() == (
                    s@,
                    old(self).title_view().1,
                ),
                HeaderMessage::Title(TitleMessage::VersionInput(s)) => final(self).title_view() == (
                    old(self).title_view().0,
                    s@,
                ),
                _ => final(self).title_view() == old(self).title_view(),
            },
    {
        match message {
            HeaderMessage::Title(message) => self.title.update(message),
            _ => {},
        }
    }
}

impl Default for Header {
    fn default() -> (r: Header)
        ensures
            r.title_view() == ("Untitled project*"@, "initial version"@),
    {
        Header::new()
    }
}

} // verus!
