use crate::text::{push_str, string_of};
use vstd::prelude::*;

verus! {

/// Kind of file that a comic is exported to.
#[derive(Debug, Clone, Copy, PartialEq, Eq, Structural)]
pub enum Archive {
    Cbz,
    Pdf,
}

impl Archive {
    /// The extension of the kind, as a sequence of characters.
    pub open spec fn spec_extension(self) -> Seq<char> {
        match self {
            Archive::Cbz => "cbz"@,
            Archive::Pdf => "pdf"@,
        }
    }

    /// The extension of files of this kind.
    pub fn extension(&self) -> (ext: &'static str)
        ensures
            ext@ == self.spec_extension(),
    {
        match self {
            Archive::Cbz => "cbz",
            Archive::Pdf => "pdf",
        }
    }

    /// The name of the file that a comic is exported to: the name of its
    /// directory, a full stop and the extension.
    pub fn file_name(&self, dir_name: &str) -> (name: String)
        ensures
            name@ == dir_name@ + seq!['.'] + self.spec_extension(),
    {
        let mut name: Vec<char> = Vec::new();
        push_str(&mut name, dir_name);
        name.push('.');
        push_str(&mut name, self.extension());
        string_of(name.as_slice())
    }
}

} // verus!
