use crate::errors::HitomiError;
use crate::hitomi::common::{
    spec_url_from_url_from_hash, url_from_url_from_hash, Artist, Character, GalleryFiles,
    GalleryInfo, Group, Parody,
};
use crate::hitomi::gg::{GGView, GG};
use crate::template::{render_template, template_rendered};
use crate::text::{decimal, join, push_str, spec_decimal, spec_join, string_of, string_views};
use crate::utils::{filename_filter, spec_filename_filter};
use vstd::prelude::*;

verus! {

/// Directory of the cover thumbnails.
pub const COVER_DIR: &'static str = "webpbigtn";

/// What stands in front of the directory name of a download in progress.
pub const TEMP_PREFIX: &'static str = ".downloading-";

/// A tag of a comic.
#[derive(Debug, Clone)]
pub struct Tag {
    pub tag: String,
    pub female: i32,
    pub male: i32,
}

/// A version of a comic in another language.
#[derive(Debug, Clone)]
pub struct Language {
    pub galleryid: i32,
    pub language_localname: String,
    pub name: String,
}

/// A gallery as the downloader keeps it.
#[derive(Debug, Clone)]
pub struct Comic {
    pub id: i32,
    pub title: String,
    pub japanese_title: String,
    pub language: String,
    pub language_localname: String,
    pub type_field: String,
    pub date: String,
    pub artists: Vec<String>,
    pub groups: Vec<String>,
    pub parodys: Vec<String>,
    pub tags: Vec<Tag>,
    pub related: Vec<i32>,
    pub languages: Vec<Language>,
    pub characters: Vec<String>,
    pub scene_indexes: Vec<i32>,
    pub files: Vec<GalleryFiles>,
    pub cover_url: String,
    pub is_downloaded: Option<bool>,
    pub dir_name: String,
}

/// A downloaded comic found on disk: the id in its metadata and the name of
/// the directory that holds it.
#[derive(Debug)]
pub struct DownloadedEntry {
    pub id: i32,
    pub dir_name: String,
}

/// The variables of the directory name template.
#[derive(Debug)]
pub struct DirNameFmtParams {
    pub id: i32,
    pub title: String,
    pub language: String,
    pub language_localname: String,
    pub artists: String,
}

/// The text of an optional string; nothing for none.
pub open spec fn text_or_empty(text: Option<String>) -> Seq<char> {
    match text {
        Some(t) => t@,
        None => Seq::empty(),
    }
}

/// The names of the artists of a gallery.
pub open spec fn artist_names(artists: Option<Vec<Artist>>) -> Seq<Seq<char>> {
    match artists {
        Some(list) => list@.map_values(|a: Artist| a.artist@),
        None => Seq::empty(),
    }
}

/// The names of the groups of a gallery.
pub open spec fn group_names(groups: Option<Vec<Group>>) -> Seq<Seq<char>> {
    match groups {
        Some(list) => list@.map_values(|g: Group| g.group@),
        None => Seq::empty(),
    }
}

/// The names of the parodies of a gallery.
pub open spec fn parody_names(parodys: Option<Vec<Parody>>) -> Seq<Seq<char>> {
    match parodys {
        Some(list) => list@.map_values(|p: Parody| p.parody@),
        None => Seq::empty(),
    }
}

/// The names of the characters of a gallery.
pub open spec fn character_names(characters: Option<Vec<Character>>) -> Seq<Seq<char>> {
    match characters {
        Some(list) => list@.map_values(|c: Character| c.character@),
        None => Seq::empty(),
    }
}

/// The tags of a gallery, in the service's form.
pub open spec fn gallery_tags(tags: Option<Vec<crate::hitomi::common::Tag>>) -> Seq<
    crate::hitomi::common::Tag,
> {
    match tags {
        Some(list) => list@,
        None => Seq::empty(),
    }
}

/// A comic's tags are those of the gallery, without their links.
pub open spec fn tags_match(tags: Seq<Tag>, from: Seq<crate::hitomi::common::Tag>) -> bool {
    &&& tags.len() == from.len()
    &&& forall|i: int|
        0 <= i < tags.len() ==> (#[trigger] tags[i]).tag@ == from[i].tag@ && tags[i].female
            == from[i].female && tags[i].male == from[i].male
}

/// A comic's language versions are those of the gallery, without their links.
pub open spec fn languages_match(
    languages: Seq<Language>,
    from: Seq<crate::hitomi::common::Language>,
) -> bool {
    &&& languages.len() == from.len()
    &&& forall|i: int|
        0 <= i < languages.len() ==> (#[trigger] languages[i]).galleryid == from[i].galleryid
            && languages[i].language_localname@ == from[i].language_localname@
            && languages[i].name@ == from[i].name@
}

/// The address of the cover of a gallery: the thumbnail of its first file.
pub open spec fn spec_cover_url(files: Seq<GalleryFiles>, table: GGView) -> Result<
    Seq<char>,
    HitomiError,
> {
    if files.len() == 0 {
        Err(HitomiError::EmptyGallery)
    } else {
        spec_url_from_url_from_hash(
            files[0],
            Some(COVER_DIR@),
            Some("webp"@),
            Some("tn"@),
            table,
        )
    }
}

/// The comic is the projection of the gallery: the same fields, lists of
/// names in place of lists of records, nothing for what is absent.
pub open spec fn is_projection(comic: Comic, info: GalleryInfo) -> bool {
    &&& comic.id == info.id
    &&& comic.title == info.title
    &&& comic.japanese_title@ == text_or_empty(info.japanese_title)
    &&& comic.language@ == text_or_empty(info.language)
    &&& comic.language_localname@ == text_or_empty(info.language_localname)
    &&& comic.type_field == info.type_field
    &&& comic.date == info.date
    &&& string_views(comic.artists@) == artist_names(info.artists)
    &&& string_views(comic.groups@) == group_names(info.groups)
    &&& string_views(comic.parodys@) == parody_names(info.parodys)
    &&& string_views(comic.characters@) == character_names(info.characters)
    &&& tags_match(comic.tags@, gallery_tags(info.tags))
    &&& languages_match(comic.languages@, info.languages@)
    &&& comic.related == info.related
    &&& comic.scene_indexes == info.scene_indexes
    &&& comic.files == info.files
    &&& comic.is_downloaded is None
    &&& comic.dir_name@.len() == 0
}

fn take_text(text: Option<String>) -> (out: String)
    ensures
        out@ == text_or_empty(text),
{
    match text {
        Some(t) => t,
        None => String::new(),
    }
}

fn take_artists(artists: Option<Vec<Artist>>) -> (names: Vec<String>)
    ensures
        string_views(names@) == artist_names(artists),
{
    let mut names: Vec<String> = Vec::new();
    if let Some(list) = artists {
        let ghost all = list@;
        for item in it: list
            invariant
                all == it.seq(),
                names@.len() == it.index(),
                forall|i: int| 0 <= i < names@.len() ==> (#[trigger] names@[i])@ == all[i].artist@,
        {
            names.push(item.artist);
        }
        assert(string_views(names@) =~= all.map_values(|a: Artist| a.artist@));
    } else {
        assert(string_views(names@) =~= Seq::<Seq<char>>::empty());
    }
    names
}

fn take_groups(groups: Option<Vec<Group>>) -> (names: Vec<String>)
    ensures
        string_views(names@) == group_names(groups),
{
    let mut names: Vec<String> = Vec::new();
    if let Some(list) = groups {
        let ghost all = list@;
        for item in it: list
            invariant
                all == it.seq(),
                names@.len() == it.index(),
                forall|i: int| 0 <= i < names@.len() ==> (#[trigger] names@[i])@ == all[i].group@,
        {
            names.push(item.group);
        }
        assert(string_views(names@) =~= all.map_values(|g: Group| g.group@));
    } else {
        assert(string_views(names@) =~= Seq::<Seq<char>>::empty());
    }
    names
}

fn take_parodys(parodys: Option<Vec<Parody>>) -> (names: Vec<String>)
    ensures
        string_views(names@) == parody_names(parodys),
{
    let mut names: Vec<String> = Vec::new();
    if let Some(list) = parodys {
        let ghost all = list@;
        for item in it: list
            invariant
                all == it.seq(),
                names@.len() == it.index(),
                forall|i: int| 0 <= i < names@.len() ==> (#[trigger] names@[i])@ == all[i].parody@,
        {
            names.push(item.parody);
        }
        assert(string_views(names@) =~= all.map_values(|p: Parody| p.parody@));
    } else {
        assert(string_views(names@) =~= Seq::<Seq<char>>::empty());
    }
    names
}

fn take_characters(characters: Option<Vec<Character>>) -> (names: Vec<String>)
    ensures
        string_views(names@) == character_names(characters),
{
    let mut names: Vec<String> = Vec::new();
    if let Some(list) = characters {
        let ghost all = list@;
        for item in it: list
            invariant
                all == it.seq(),
                names@.len() == it.index(),
                forall|i: int| 0 <= i < names@.len() ==> (#[trigger] names@[i])@ == all[i].character@,
        {
            names.push(item.character);
        }
        assert(string_views(names@) =~= all.map_values(|c: Character| c.character@));
    } else {
        assert(string_views(names@) =~= Seq::<Seq<char>>::empty());
    }
    names
}

fn take_tags(tags: Option<Vec<crate::hitomi::common::Tag>>) -> (out: Vec<Tag>)
    ensures
        tags_match(out@, gallery_tags(tags)),
{
    let mut out: Vec<Tag> = Vec::new();
    if let Some(list) = tags {
        for item in it: list
            invariant
                out@.len() == it.index(),
                forall|i: int|
                    0 <= i < out@.len() ==> (#[trigger] out@[i]).tag@ == it.seq()[i].tag@
                        && out@[i].female == it.seq()[i].female && out@[i].male
                        == it.seq()[i].male,
        {
            out.push(Tag { tag: item.tag, female: item.female, male: item.male });
        }
    }
    out
}

fn take_languages(languages: Vec<crate::hitomi::common::Language>) -> (out: Vec<Language>)
    ensures
        languages_match(out@, languages@),
{
    let mut out: Vec<Language> = Vec::new();
    for item in it: languages
        invariant
            out@.len() == it.index(),
            forall|i: int|
                0 <= i < out@.len() ==> (#[trigger] out@[i]).galleryid == it.seq()[i].galleryid
                    && out@[i].language_localname@ == it.seq()[i].language_localname@
                    && out@[i].name@ == it.seq()[i].name@,
    {
        out.push(
            Language {
                galleryid: item.galleryid,
                language_localname: item.language_localname,
                name: item.name,
            },
        );
    }
    out
}

/// The names of the variables of the directory name template.
pub open spec fn spec_template_names() -> Seq<Seq<char>> {
    seq!["id"@, "title"@, "language"@, "language_localname"@, "artists"@]
}

/// The values of the variables of the directory name template.
pub open spec fn spec_template_values(params: DirNameFmtParams) -> Seq<Seq<char>> {
    seq![
        spec_decimal(params.id as int),
        params.title@,
        params.language@,
        params.language_localname@,
        params.artists@,
    ]
}

/// The directory name that a template gives for the values of its
/// variables: the template rendered with them, then made usable as a file
/// name. A template that cannot be rendered is refused.
pub open spec fn spec_render_dir_name(template: Seq<char>, values: Seq<Seq<char>>) -> Result<
    Seq<char>,
    HitomiError,
> {
    match template_rendered(template, spec_template_names(), values) {
        Some(name) => Ok(spec_filename_filter(name)),
        None => Err(HitomiError::Template),
    }
}

/// The directory name that a template gives for the given variables.
pub open spec fn spec_dir_name(template: Seq<char>, params: DirNameFmtParams) -> Result<
    Seq<char>,
    HitomiError,
> {
    spec_render_dir_name(template, spec_template_values(params))
}

/// The values of the variables of the directory name template for a comic:
/// its id in decimal, its title, its language, the local name of the
/// language, and its artists joined by a comma and a blank.
pub open spec fn spec_comic_values(comic: Comic) -> Seq<Seq<char>> {
    seq![
        spec_decimal(comic.id as int),
        comic.title@,
        comic.language@,
        comic.language_localname@,
        spec_join(string_views(comic.artists@), ", "@),
    ]
}

/// The directory name that a template gives a comic.
pub open spec fn spec_comic_dir_name(comic: Comic, template: Seq<char>) -> Result<
    Seq<char>,
    HitomiError,
> {
    spec_render_dir_name(template, spec_comic_values(comic))
}

/// The variables of the directory name template for a comic.
pub open spec fn spec_fmt_params(comic: Comic, params: DirNameFmtParams) -> bool {
    &&& params.id == comic.id
    &&& params.title@ == comic.title@
    &&& params.language@ == comic.language@
    &&& params.language_localname@ == comic.language_localname@
    &&& params.artists@ == spec_join(string_views(comic.artists@), ", "@)
}

impl Comic {
    /// Projects a gallery into a comic; the cover address comes from the
    /// first file by the routing table. A gallery without files is refused.
    pub fn from_gallery_info(gallery_info: GalleryInfo, gg: &GG) -> (r: Result<Comic, HitomiError>)
        ensures
            match r {
                Ok(comic) => is_projection(comic, gallery_info) && spec_cover_url(
                    gallery_info.files@,
                    gg@,
                ) == Ok::<Seq<char>, HitomiError>(comic.cover_url@),
                Err(e) => spec_cover_url(gallery_info.files@, gg@) == Err::<
                    Seq<char>,
                    HitomiError,
                >(e),
            },
    {
        if gallery_info.files.len() == 0 {
            return Err(HitomiError::EmptyGallery);
        }
        let cover_url = url_from_url_from_hash(
            gallery_info.id,
            &gallery_info.files[0],
            Some(COVER_DIR),
            Some("webp"),
            Some("tn"),
            gg,
        )?;
        let comic = Comic {
            id: gallery_info.id,
            title: gallery_info.title,
            japanese_title: take_text(gallery_info.japanese_title),
            language: take_text(gallery_info.language),
            language_localname: take_text(gallery_info.language_localname),
            type_field: gallery_info.type_field,
            date: gallery_info.date,
            artists: take_artists(gallery_info.artists),
            groups: take_groups(gallery_info.groups),
            parodys: take_parodys(gallery_info.parodys),
            tags: take_tags(gallery_info.tags),
            related: gallery_info.related,
            languages: take_languages(gallery_info.languages),
            characters: take_characters(gallery_info.characters),
            scene_indexes: gallery_info.scene_indexes,
            files: gallery_info.files,
            cover_url,
            is_downloaded: None,
            dir_name: String::new(),
        };
        Ok(comic)
    }

    /// Marks a comic read from a metadata file as downloaded into the
    /// directory that holds the file.
    pub fn from_metadata(comic: Comic, dir_name: String) -> (out: Comic)
        ensures
            out == (Comic { is_downloaded: Some(true), dir_name, ..comic }),
    {
        let mut out = comic;
        out.is_downloaded = Some(true);
        out.dir_name = dir_name;
        out
    }

    /// The first entry on disk that holds this comic, if any.
    pub open spec fn spec_found(self, found: Seq<DownloadedEntry>) -> Option<int> {
        if exists|i: int| self.is_first_match(found, i) {
            Some(choose|i: int| self.is_first_match(found, i))
        } else {
            None
        }
    }

    /// `i` is the first entry with the id of this comic.
    pub open spec fn is_first_match(self, found: Seq<DownloadedEntry>, i: int) -> bool {
        &&& 0 <= i < found.len()
        &&& found[i].id == self.id
        &&& forall|j: int| 0 <= j < i ==> (#[trigger] found[j]).id != self.id
    }

    /// Brings the download fields in line with the comics found on disk:
    /// the first entry with this id gives the directory name and marks the
    /// comic as downloaded; without such an entry nothing changes.
    pub fn update_fields(&mut self, found: &[DownloadedEntry])
        ensures
            match old(self).spec_found(found@) {
                Some(i) => *final(self) == (Comic {
                    is_downloaded: Some(true),
                    dir_name: final(self).dir_name,
                    ..*old(self)
                }) && final(self).dir_name@ == found@[i].dir_name@ && old(self).is_first_match(
                    found@,
                    i,
                ),
                None => *final(self) == *old(self),
            },
    {
        let mut i: usize = 0;
        while i < found.len()
            invariant
                i <= found@.len(),
                *self == *old(self),
                forall|j: int| 0 <= j < i ==> (#[trigger] found@[j]).id != self.id,
            decreases found.len() - i,
        {
            if found[i].id == self.id {
                proof {
                    let w = i as int;
                    assert(old(self).is_first_match(found@, w));
                    let c = choose|c: int| old(self).is_first_match(found@, c);
                    if c < w {
                        assert(found@[c].id != self.id);
                    } else if w < c {
                        assert(found@[w].id != self.id);
                    }
                }
                self.dir_name = found[i].dir_name.clone();
                self.is_downloaded = Some(true);
                return ;
            }
            i += 1;
        }
        proof {
            assert forall|c: int| !old(self).is_first_match(found@, c) by {
                if 0 <= c < found@.len() {
                    assert(found@[c].id != self.id);
                }
            }
        }
    }

    /// The name of the directory that holds the downloaded comic; an error
    /// where the comic has none.
    pub fn get_comic_download_dir_name(&self) -> (r: Result<String, HitomiError>)
        ensures
            match r {
                Ok(name) => name@ == self.dir_name@ && self.dir_name@.len() > 0,
                Err(e) => e == HitomiError::MissingDirName && self.dir_name@.len() == 0,
            },
    {
        if self.dir_name.as_str().unicode_len() == 0 {
            return Err(HitomiError::MissingDirName);
        }
        Ok(self.dir_name.clone())
    }

    /// The name of the directory, beside the final one, that holds the
    /// comic while it is downloaded: `.downloading-` and the directory name.
    pub fn get_temp_download_dir(&self) -> (r: Result<String, HitomiError>)
        ensures
            match r {
                Ok(name) => name@ == TEMP_PREFIX@ + self.dir_name@ && self.dir_name@.len() > 0,
                Err(e) => e == HitomiError::MissingDirName && self.dir_name@.len() == 0,
            },
    {
        let dir_name = self.get_comic_download_dir_name()?;
        let mut name: Vec<char> = Vec::new();
        push_str(&mut name, TEMP_PREFIX);
        push_str(&mut name, dir_name.as_str());
        Ok(string_of(name.as_slice()))
    }

    /// The comic as its metadata file records it: without the download
    /// flag and the directory name.
    pub fn into_metadata(self) -> (out: Comic)
        ensures
            out.is_downloaded is None,
            out.dir_name@.len() == 0,
            out == (Comic { is_downloaded: None, dir_name: out.dir_name, ..self }),
    {
        let mut out = self;
        out.is_downloaded = None;
        out.dir_name = String::new();
        out
    }

    /// The variables of the directory name template for this comic.
    pub fn fmt_params(&self) -> (params: DirNameFmtParams)
        ensures
            spec_fmt_params(*self, params),
            spec_template_values(params) == spec_comic_values(*self),
    {
        let artists = join(self.artists.as_slice(), ", ");
        DirNameFmtParams {
            id: self.id,
            title: self.title.clone(),
            language: self.language.clone(),
            language_localname: self.language_localname.clone(),
            artists: string_of(artists.as_slice()),
        }
    }

    /// Renders the directory name template with the given variables.
    pub fn get_dir_name_by_fmt(template: &str, fmt_params: &DirNameFmtParams) -> (r: Result<
        String,
        HitomiError,
    >)
        ensures
            match r {
                Ok(name) => spec_dir_name(template@, *fmt_params) == Ok::<Seq<char>, HitomiError>(
                    name@,
                ),
                Err(e) => spec_dir_name(template@, *fmt_params) == Err::<Seq<char>, HitomiError>(
                    e,
                ),
            },
    {
        let mut names: Vec<String> = Vec::new();
        names.push(String::from_str("id"));
        names.push(String::from_str("title"));
        names.push(String::from_str("language"));
        names.push(String::from_str("language_localname"));
        names.push(String::from_str("artists"));
        assert(string_views(names@) =~= spec_template_names());
        let id = decimal(fmt_params.id as i64);
        let mut values: Vec<String> = Vec::new();
        values.push(string_of(id.as_slice()));
        values.push(fmt_params.title.clone());
        values.push(fmt_params.language.clone());
        values.push(fmt_params.language_localname.clone());
        values.push(fmt_params.artists.clone());
        assert(string_views(values@) =~= spec_template_values(*fmt_params));
        match render_template(template, &names, &values) {
            Ok(rendered) => Ok(filename_filter(rendered.as_str())),
            Err(_) => Err(HitomiError::Template),
        }
    }

    /// Sets the directory name of the comic by the template. Where the
    /// template cannot be rendered the comic stays as it was.
    pub fn update_dir_name_fields_by_fmt(&mut self, template: &str) -> (r: Result<(), HitomiError>)
        ensures
            match r {
                Ok(()) => *final(self) == (Comic { dir_name: final(self).dir_name, ..*old(self) })
                    && spec_comic_dir_name(*old(self), template@) == Ok::<Seq<char>, HitomiError>(
                    final(self).dir_name@,
                ),
                Err(e) => *final(self) == *old(self) && spec_comic_dir_name(*old(self), template@)
                    == Err::<Seq<char>, HitomiError>(e),
            },
    {
        let params = self.fmt_params();
        match Comic::get_dir_name_by_fmt(template, &params) {
            Ok(name) => {
                self.dir_name = name;
                Ok(())
            },
            Err(e) => Err(e),
        }
    }
}

} // verus!
