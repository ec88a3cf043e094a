use vstd::prelude::*;

use crate::ui::header::{Header, HeaderMessage};
use crate::ui::title::TitleMessage;

verus! {

/// What the content area sends: so far only a request to repaint it.
#[derive(Clone, Debug)]
pub enum ContentMessage {
    Refresh,
}

/// The content area, under development: it holds no state.
pub struct Content {}

impl Content {
    pub fn update(&mut self, message: ContentMessage) {
        match message {
            ContentMessage::Refresh => {},
        }
    }
}

/// What the primary area sends: its header's and its content's messages.
#[derive(Clone, Debug)]
pub enum PrimaryMessage {
    Header(HeaderMessage),
    Content(ContentMessage),
}

/// The primary area: a header above the content.
pub struct Primary {
    header: Header,
    content: Content,
}

impl Primary {
    pub closed spec fn title_view(&self) -> (Seq<char>, Seq<char>) {
        self.header.title_view()
    }

    pub fn new() -> (r: Primary)
        ensures
            r.title_view() == ("Untitled project*"@, "initial version"@),
    {
        Primary { header: Header::new(), content: Content {  } }
    }

    pub fn header(&self) -> (r: &Header)
        ensures
            r.title_view() == self.title_view(),
    {
        &self.header
    }

    /// Routes a message to the header or the content.
    pub fn update(&mut self, message: PrimaryMessage)
        ensures
            match message {
                PrimaryMessage::Header(m) => match m {
                    HeaderMessage::Title(TitleMessage::NameInput(s)) => final(self).title_view()
                        == (s@, old(self).title_view().1),
                    HeaderMessage::Title(TitleMessage::VersionInput(s)) => final(self).title_view()
                        == (old(self).title_view().0, s@),
                    _ => final(self).title_view() == old(self).title_view(),
                },
                PrimaryMessage::Content(_) => final(self).title_view() == old(self).title_view(),
            },
    {
        match message {
            PrimaryMessage::Header(message) => self.header.update(message),
            PrimaryMessage::Content(message) => self.content.update(message),
        }
    }
}

} // verus!
