use vstd::prelude::*;

verus! {

/// The sidebar's entries.
#[derive(Clone, Copy, Debug, PartialEq, Eq, Structural)]
pub enum SidebarMessage {
    Logo,
    Diagram,
    Table,
    Database,
    Script,
    Export,
    Help,
}

/// Which sidebar entry is active; the logo never is.
pub struct Sidebar {
    active: Option<SidebarMessage>,
}

impl Sidebar {
    pub closed spec fn active_view(&self) -> Option<SidebarMessage> {
        self.active
    }

    /// A sidebar with the diagram entry active.
    pub fn new() -> (r: Sidebar)
        ensures
            r.active_view() == Some(SidebarMessage::Diagram),
    {
        Sidebar { active: Some(SidebarMessage::Diagram) }
    }

    /// Makes the pressed entry the only active one; the logo changes nothing.
    pub fn update(&mut self, message: SidebarMessage)
        ensures
            final(self).active_view() == if message == SidebarMessage::Logo {
                old(self).active_view()
            } else {
                Some(message)
            },
    {
        match message {
            SidebarMessage::Logo => {},
            _ => {
                self.inactive();
                self.active = Some(message);
            },
        }
    }

    /// Whether an entry is active.
    pub fn is_active(&self, entry: SidebarMessage) -> (r: bool)
        ensures
            r == (self.active_view() == Some(entry)),
    {
        match self.active {
            Some(a) => a == entry,
            None => false,
        }
    }

    fn inactive(&mut self)
        ensures
            final(self).active_view() is None,
    {
        self.active = None;
    }
}

} // verus!
