use vstd::prelude::*;

verus! {

/// A package found by one package manager.
#[derive(Debug)]
pub struct SearchResult {
    /// Name of the package manager that found this package ("dnf", "flatpak", "cargo").
    pub backend: String,
    /// The name shown to the user.
    pub name: String,
    /// The identifier handed back to the package manager to install the package.
    pub identifier: String,
    /// A one-line description of the package.
    pub description: String,
    /// The version, when the package manager reports one.
    pub version: Option<String>,
}

/// The mathematical value of a [`SearchResult`].
pub struct RecordView {
    pub backend: Seq<char>,
    pub name: Seq<char>,
    pub identifier: Seq<char>,
    pub description: Seq<char>,
    pub version: Option<Seq<char>>,
}

impl View for SearchResult {
    type V = RecordView;

    open spec fn view(&self) -> RecordView {
        RecordView {
            backend: self.backend@,
            name: self.name@,
            identifier: self.identifier@,
            description: self.description@,
            version: match self.version {
                Some(v) => Some(v@),
                None => None,
            },
        }
    }
}

/// The description given to a package whose package manager reports none.
pub open spec fn no_description() -> Seq<char> {
    "No description available"@
}

/// The values of a sequence of records.
pub open spec fn views(s: Seq<SearchResult>) -> Seq<RecordView> {
    s.map_values(|r: SearchResult| r@)
}

impl SearchResult {
    /// A field-by-field copy of this record.
    pub fn duplicate(&self) -> (r: SearchResult)
        ensures
            r == *self,
    {
        let version = match &self.version {
            Some(v) => Some(v.clone()),
            None => None,
        };
        SearchResult {
            backend: self.backend.clone(),
            name: self.name.clone(),
            identifier: self.identifier.clone(),
            description: self.description.clone(),
            version,
        }
    }
}

impl Clone for SearchResult {
    fn clone(&self) -> (r: SearchResult)
        ensures
            r == *self,
    {
        self.duplicate()
    }
}

} // verus!
