use vstd::prelude::*;

verus! {

/// Edits of the project title.
#[derive(Clone, Debug)]
pub enum TitleMessage {
    NameInput(String),
    VersionInput(String),
}

/// The project's name and version, as shown in the header.
pub struct Title {
    name: String,
    version: String,
}

impl Title {
    pub closed spec fn name_view(&self) -> Seq<char> {
        self.name@
    }

    pub closed spec fn version_view(&self) -> Seq<char> {
        self.version@
    }

    /// An untitled project at its initial version.
    pub fn new() -> (r: Title)
        ensures
            r.name_view() == "Untitled project*"@,
            r.version_view() == "initial version"@,
    {
        Title {
            name: String::from_str("Untitled project*"),
            version: String::from_str("initial version"),
        }
    }

    /// Takes the edited name or version.
    pub fn update(&mut self, message: TitleMessage)
        ensures
            match message {
                TitleMessage::NameInput(s) => final(self).name_view() == s@
                    && final(self).version_view() == old(self).version_view(),
                TitleMessage::VersionInput(s) => final(self).version_view() == s@
                    && final(self).name_view() == old(self).name_view(),
            },
    {
        match message {
            TitleMessage::NameInput(name) => {
                self.name = name;
            },
            TitleMessage::VersionInput(version) => {
                self.version = version;
            },
        }
    }

    pub fn name(&self) -> (r: &String)
        ensures
            r@ == self.name_view(),
    {
        &self.name
    }

    pub fn version(&self) -> (r: &String)
        ensures
            r@ == self.version_view(),
    {
        &self.version
    }
}

impl Default for Title {
    fn default() -> (r: Title)
        ensures
            r.name_view() == "Untitled project*"@,
            r.version_view() == "initial version"@,
    {
        Title::new()
    }
}

} // verus!
