use crate::text::{join, spec_join, string_of, string_views};
use crate::types::comic::{Comic, Tag};
use vstd::prelude::*;

verus! {

/// The description of a comic that goes into an archive as `ComicInfo.xml`.
#[derive(Debug)]
pub struct ComicInfo {
    pub manga: String,
    /// Title of the comic.
    pub series: String,
    pub writer: String,
    pub publisher: String,
    pub genre: String,
    pub tags: String,
    /// Number of the chapter.
    pub number: Option<String>,
    /// Number of the volume.
    pub volume: Option<String>,
    /// `Special` marks the chapter as a special issue.
    pub format: Option<String>,
    /// Number of pages.
    pub page_count: i64,
    /// Number of chapters in all.
    pub count: i64,
}

/// The names of a list of tags.
pub open spec fn tag_names(tags: Seq<Tag>) -> Seq<Seq<char>> {
    tags.map_values(|t: Tag| t.tag@)
}

/// The number of pages of a comic; it stops at `i64::MAX`.
pub open spec fn spec_page_count(files: int) -> i64 {
    if files > i64::MAX {
        i64::MAX
    } else {
        files as i64
    }
}

impl ComicInfo {
    /// The description of a comic: a manga of the publisher `Hitomi`, with
    /// the title as series, the artists as writer, the type as genre, the
    /// tag names as tags, as the one special issue of its series.
    pub fn from(comic: Comic) -> (info: ComicInfo)
        ensures
            info.manga@ == "Yes"@,
            info.series == comic.title,
            info.writer@ == spec_join(string_views(comic.artists@), ", "@),
            info.publisher@ == "Hitomi"@,
            info.genre == comic.type_field,
            info.tags@ == spec_join(tag_names(comic.tags@), ", "@),
            info.number matches Some(n) && n@ == "1"@,
            info.volume is None,
            info.format matches Some(f) && f@ == "Special"@,
            info.page_count == spec_page_count(comic.files@.len() as int),
            info.count == 1,
    {
        let writer = join(comic.artists.as_slice(), ", ");
        let files = comic.files.len() as u64;
        let page_count: i64 = if files > (i64::MAX as u64) {
            i64::MAX
        } else {
            files as i64
        };
        let ghost all = comic.tags@;
        let mut names: Vec<String> = Vec::new();
        for tag in it: comic.tags
            invariant
                all == it.seq(),
                names@.len() == it.index(),
                forall|i: int| 0 <= i < names@.len() ==> (#[trigger] names@[i])@ == all[i].tag@,
        {
            names.push(tag.tag);
        }
        assert(string_views(names@) =~= tag_names(all));
        let tags = join(names.as_slice(), ", ");
        ComicInfo {
            manga: String::from_str("Yes"),
            series: comic.title,
            writer: string_of(writer.as_slice()),
            publisher: String::from_str("Hitomi"),
            genre: comic.type_field,
            tags: string_of(tags.as_slice()),
            number: Some(String::from_str("1")),
            volume: None,
            format: Some(String::from_str("Special")),
            page_count,
            count: 1,
        }
    }
}

} // verus!
