use vstd::prelude::*;

verus! {

/// Image format that a download task fetches and stores.
#[derive(Debug, Clone, Copy, PartialEq, Eq, Structural)]
pub enum DownloadFormat {
    Webp,
    Avif,
}

impl DownloadFormat {
    /// File extension of the format, as a sequence of characters.
    pub open spec fn spec_extension(self) -> Seq<char> {
        match self {
            DownloadFormat::Webp => "webp"@,
            DownloadFormat::Avif => "avif"@,
        }
    }

    /// On-disk extension of files stored in this format.
    pub fn to_extension(&self) -> (ext: &'static str)
        ensures
            ext@ == self.spec_extension(),
    {
        match self {
            DownloadFormat::Webp => "webp",
            DownloadFormat::Avif => "avif",
        }
    }
}

impl Default for DownloadFormat {
    fn default() -> (format: Self)
        ensures
            format == DownloadFormat::Webp,
    {
        DownloadFormat::Webp
    }
}

} // verus!
