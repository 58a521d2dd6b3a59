use crate::errors::HitomiError;
use crate::hitomi::gg::{routing_number, spec_routing_number, spec_s, GGView, GG};
use crate::pattern::{lite_captures, lite_find, lite_replace, lite_replaced};
use crate::json::{json_integer, read_integer};
use crate::text::{
    chars_of, decimal, last_segment, parse_i32, push_chars, push_str, replace_text, replaced_text,
    same_text, spec_decimal, spec_last_segment, spec_parse_i32, spec_wrap_i32, string_of,
    wrap_i32,
};
use vstd::prelude::*;

verus! {

pub const PROTOCOL: &'static str = "https:";

pub const DOMAIN: &'static str = "ltn.gold-usergeneratedcontent.net";

pub const GALLERY_BLOCK_EXTENSION: &'static str = ".html";

pub const GALLERY_BLOCK_DIR: &'static str = "galleryblock";

pub const NOZOMI_EXTENSION: &'static str = ".nozomi";

/// Start of every image address before the sub-domain is set.
pub const IMAGE_ROOT: &'static str = "https://a.gold-usergeneratedcontent.net/";

/// Finds the routing characters of the hash in an image address.
pub const SUBDOMAIN_PATTERN: &'static str = "/[0-9a-f]{61}([0-9a-f]{2})([0-9a-f])";

/// Finds the host of an image address.
pub const HOST_PATTERN: &'static str = "//..?\\.(?:gold-usergeneratedcontent\\.net|hitomi\\.la)/";

/// Splits a hash before its last three characters.
pub const REAL_PATH_PATTERN: &'static str = "^.*(..)(.)$";

/// What the script of a gallery puts in front of its document.
pub const GALLERY_PREFIX: &'static str = "var galleryinfo = ";

#[derive(Debug)]
pub struct Artist {
    pub artist: String,
    pub url: String,
}

#[derive(Debug)]
pub struct Group {
    pub group: String,
    pub url: String,
}

#[derive(Debug)]
pub struct Parody {
    pub parody: String,
    pub url: String,
}

#[derive(Debug)]
pub struct Character {
    pub character: String,
    pub url: String,
}

#[derive(Debug)]
pub struct Tag {
    pub tag: String,
    pub url: String,
    pub female: i32,
    pub male: i32,
}

#[derive(Debug, Clone)]
pub struct Language {
    pub galleryid: i32,
    pub url: String,
    pub language_localname: String,
    pub name: String,
}

/// One image of a gallery.
#[derive(Debug, Clone)]
pub struct GalleryFiles {
    pub width: i32,
    pub hash: String,
    pub haswebp: i32,
    pub hasavif: i32,
    pub hasjxl: i32,
    pub name: String,
    pub height: i32,
}

/// A gallery as the service describes it.
#[derive(Debug)]
pub struct GalleryInfo {
    pub id: i32,
    pub title: String,
    pub japanese_title: Option<String>,
    pub language: Option<String>,
    pub language_localname: Option<String>,
    pub type_field: String,
    pub date: String,
    pub artists: Option<Vec<Artist>>,
    pub groups: Option<Vec<Group>>,
    pub parodys: Option<Vec<Parody>>,
    pub tags: Option<Vec<Tag>>,
    pub related: Vec<i32>,
    pub languages: Vec<Language>,
    pub characters: Option<Vec<Character>>,
    pub scene_indexes: Vec<i32>,
    pub files: Vec<GalleryFiles>,
}

/// Image format of an address.
#[derive(Debug, Clone, Copy, PartialEq, Eq, Structural)]
pub enum Ext {
    Webp,
    Avif,
}

/// The text of an optional string.
pub open spec fn opt_view(text: Option<&str>) -> Option<Seq<char>> {
    match text {
        Some(t) => Some(t@),
        None => None,
    }
}

/// Whether `code` is a Unicode scalar value.
pub open spec fn is_scalar(code: int) -> bool {
    0 <= code < 0xD800 || 0xDFFF < code <= 0x10FFFF
}

/// Calls `char::from_u32`, which gives the character of a Unicode scalar
/// value and `None` for every other number.
#[verifier::external_body]
fn char_from_u32(code: u32) -> (c: Option<char>)
    ensures
        match c {
            Some(ch) => ch == code as char && ch as u32 == code && is_scalar(code as int),
            None => !is_scalar(code as int),
        },
{
    char::from_u32(code)
}

/// The start of a sub-domain: `w` or `a` for the directories `webp` and
/// `avif` where no base is given, else nothing.
pub open spec fn spec_seed(base: Option<Seq<char>>, dir: Option<Seq<char>>) -> Seq<char> {
    let plain = base is None || base->0.len() == 0;
    if plain && dir == Some("webp"@) {
        "w"@
    } else if plain && dir == Some("avif"@) {
        "a"@
    } else {
        Seq::empty()
    }
}

/// The sub-domain for a routing number `g`: without a base the seed and
/// then `1 + m(g)` in decimal, with a base the letter number `m(g)` of the
/// alphabet and then the base.
pub open spec fn spec_subdomain_for(
    g: i32,
    base: Option<Seq<char>>,
    dir: Option<Seq<char>>,
    table: GGView,
) -> Result<Seq<char>, HitomiError> {
    let m = table.m(g);
    if base is None || base->0.len() == 0 {
        Ok(spec_seed(base, dir) + spec_decimal(1 + m))
    } else if is_scalar(97 + m) {
        Ok(seq![((97 + m) as u32) as char] + base->0)
    } else {
        Err(HitomiError::InvalidCharacter)
    }
}

/// The sub-domain that serves the image at `url`.
pub open spec fn spec_subdomain_from_url(
    url: Seq<char>,
    base: Option<Seq<char>>,
    dir: Option<Seq<char>>,
    table: GGView,
) -> Result<Seq<char>, HitomiError> {
    if base is None && dir is None {
        Ok(Seq::empty())
    } else {
        match lite_captures(SUBDOMAIN_PATTERN@, url) {
            None => Err(HitomiError::Pattern),
            Some(None) => Ok(Seq::empty()),
            Some(Some(groups)) => match spec_routing_number(groups) {
                Ok(g) => spec_subdomain_for(g, base, dir, table),
                Err(_) => Ok(spec_seed(base, dir)),
            },
        }
    }
}

/// The start of a sub-domain for a base and a directory.
pub fn seed(base: Option<&str>, dir: Option<&str>) -> (out: Vec<char>)
    ensures
        out@ == spec_seed(opt_view(base), opt_view(dir)),
{
    let plain = match base {
        None => true,
        Some(b) => chars_of(b).len() == 0,
    };
    let mut out: Vec<char> = Vec::new();
    if plain {
        match dir {
            Some(d) => {
                if same_text(d, "webp") {
                    push_str(&mut out, "w");
                    assert(out@ =~= "w"@);
                } else if same_text(d, "avif") {
                    push_str(&mut out, "a");
                    assert(out@ =~= "a"@);
                }
            },
            None => {},
        }
    }
    out
}

/// The sub-domain for the routing number `g` of an image.
pub fn subdomain_for(g: i32, base: Option<&str>, dir: Option<&str>, gg: &GG) -> (r: Result<
    String,
    HitomiError,
>)
    ensures
        match r {
            Ok(sub) => spec_subdomain_for(g, opt_view(base), opt_view(dir), gg@) == Ok::<
                Seq<char>,
                HitomiError,
            >(sub@),
            Err(e) => spec_subdomain_for(g, opt_view(base), opt_view(dir), gg@) == Err::<
                Seq<char>,
                HitomiError,
            >(e),
        },
{
    let m = gg.m(g);
    let base_chars = match base {
        None => Vec::new(),
        Some(b) => chars_of(b),
    };
    if base_chars.len() == 0 {
        let mut out = seed(base, dir);
        let number = decimal(1 + (m as i64));
        push_chars(&mut out, number.as_slice());
        return Ok(string_of(out.as_slice()));
    }
    let code = 97 + (m as i64);
    if code < 0 || code > 0x10FFFF {
        return Err(HitomiError::InvalidCharacter);
    }
    match char_from_u32(code as u32) {
        Some(c) => {
            let mut out: Vec<char> = Vec::new();
            out.push(c);
            push_chars(&mut out, base_chars.as_slice());
            assert(out@ =~= seq![c] + base_chars@);
            Ok(string_of(out.as_slice()))
        },
        None => Err(HitomiError::InvalidCharacter),
    }
}

/// The sub-domain that serves the image at `url`, by the routing table.
pub fn subdomain_from_url(url: &str, base: Option<&str>, dir: Option<&str>, gg: &GG) -> (r: Result<
    String,
    HitomiError,
>)
    ensures
        match r {
            Ok(sub) => spec_subdomain_from_url(url@, opt_view(base), opt_view(dir), gg@) == Ok::<
                Seq<char>,
                HitomiError,
            >(sub@),
            Err(e) => spec_subdomain_from_url(url@, opt_view(base), opt_view(dir), gg@) == Err::<
                Seq<char>,
                HitomiError,
            >(e),
        },
{
    if base.is_none() && dir.is_none() {
        return Ok(String::new());
    }
    let found = match lite_find(SUBDOMAIN_PATTERN, url) {
        Ok(found) => found,
        Err(_) => {
            return Err(HitomiError::Pattern);
        },
    };
    let groups = match found {
        Some(groups) => groups,
        None => {
            return Ok(String::new());
        },
    };
    match routing_number(groups.as_slice()) {
        Ok(g) => subdomain_for(g, base, dir, gg),
        Err(_) => {
            let out = seed(base, dir);
            Ok(string_of(out.as_slice()))
        },
    }
}

/// The host part that carries a sub-domain.
pub open spec fn spec_host(sub: Seq<char>) -> Seq<char> {
    "//"@ + sub + ".gold-usergeneratedcontent.net/"@
}

/// The address `url` with its host replaced by the one of the sub-domain
/// that serves it.
pub open spec fn spec_url_from_url(
    url: Seq<char>,
    base: Option<Seq<char>>,
    dir: Option<Seq<char>>,
    table: GGView,
) -> Result<Seq<char>, HitomiError> {
    match spec_subdomain_from_url(url, base, dir, table) {
        Err(e) => Err(e),
        Ok(sub) => match lite_replaced(HOST_PATTERN@, url, spec_host(sub)) {
            Some(out) => Ok(out),
            None => Err(HitomiError::Pattern),
        },
    }
}

/// Rewrites the host of an image address to the sub-domain that serves it.
pub fn url_from_url(url: &str, base: Option<&str>, dir: Option<&str>, gg: &GG) -> (r: Result<
    String,
    HitomiError,
>)
    ensures
        match r {
            Ok(out) => spec_url_from_url(url@, opt_view(base), opt_view(dir), gg@) == Ok::<
                Seq<char>,
                HitomiError,
            >(out@),
            Err(e) => spec_url_from_url(url@, opt_view(base), opt_view(dir), gg@) == Err::<
                Seq<char>,
                HitomiError,
            >(e),
        },
{
    let sub = subdomain_from_url(url, base, dir, gg)?;
    let mut host: Vec<char> = Vec::new();
    push_str(&mut host, "//");
    push_str(&mut host, sub.as_str());
    push_str(&mut host, ".gold-usergeneratedcontent.net/");
    let host = string_of(host.as_slice());
    match lite_replace(HOST_PATTERN, url, host.as_str()) {
        Ok(out) => Ok(out),
        Err(_) => Err(HitomiError::Pattern),
    }
}

/// The path of an image below the image root: the prefix of the table, the
/// routing directory of the hash, a slash and the hash.
pub open spec fn spec_full_path_from_hash(hash: Seq<char>, table: GGView) -> Result<
    Seq<char>,
    HitomiError,
> {
    match spec_s(hash) {
        Ok(s) => Ok(table.b + s + seq!['/'] + hash),
        Err(e) => Err(e),
    }
}

/// The path of the image with this hash below the image root.
pub fn full_path_from_hash(hash: &str, gg: &GG) -> (r: Result<String, HitomiError>)
    ensures
        match r {
            Ok(path) => spec_full_path_from_hash(hash@, gg@) == Ok::<Seq<char>, HitomiError>(
                path@,
            ),
            Err(e) => spec_full_path_from_hash(hash@, gg@) == Err::<Seq<char>, HitomiError>(e),
        },
{
    let b = gg.b();
    let s = GG::s(hash)?;
    let mut path: Vec<char> = Vec::new();
    push_str(&mut path, b.as_str());
    push_str(&mut path, s.as_str());
    path.push('/');
    push_str(&mut path, hash);
    assert(path@ =~= gg@.b + s@ + seq!['/'] + hash@);
    Ok(string_of(path.as_slice()))
}

/// The path of a thumbnail: for a hash that ends in `XYZ` it is `Z/XY/`
/// and the hash.
pub open spec fn spec_real_full_path_from_hash(hash: Seq<char>) -> Result<Seq<char>, HitomiError> {
    match lite_replaced(REAL_PATH_PATTERN@, hash, "$2/$1/"@ + hash) {
        Some(path) => Ok(path),
        None => Err(HitomiError::Pattern),
    }
}

/// The path of the thumbnail with this hash.
pub fn real_full_path_from_hash(hash: &str) -> (r: Result<String, HitomiError>)
    ensures
        match r {
            Ok(path) => spec_real_full_path_from_hash(hash@) == Ok::<Seq<char>, HitomiError>(
                path@,
            ),
            Err(e) => spec_real_full_path_from_hash(hash@) == Err::<Seq<char>, HitomiError>(e),
        },
{
    let mut rep: Vec<char> = Vec::new();
    push_str(&mut rep, "$2/$1/");
    push_str(&mut rep, hash);
    let rep = string_of(rep.as_slice());
    match lite_replace(REAL_PATH_PATTERN, hash, rep.as_str()) {
        Ok(path) => Ok(path),
        Err(_) => Err(HitomiError::Pattern),
    }
}

/// The extension of an address: the one given, else the directory, else
/// what follows the last full stop of the file's name.
pub open spec fn spec_ext(name: Seq<char>, dir: Option<Seq<char>>, ext: Option<Seq<char>>) -> Seq<
    char,
> {
    match (ext, dir) {
        (Some(e), _) => e,
        (None, Some(d)) => d,
        (None, None) => spec_last_segment(name),
    }
}

/// Whether a directory is written into the address: `webp` and `avif` are
/// not.
pub open spec fn spec_dir_shown(dir: Option<Seq<char>>) -> bool {
    dir is Some && dir != Some("webp"@) && dir != Some("avif"@)
}

/// The address of an image before its host is set: the image root, the
/// directory where it is shown, the path and the extension.
pub open spec fn spec_url_from_hash(
    image: GalleryFiles,
    dir: Option<Seq<char>>,
    ext: Option<Seq<char>>,
    table: GGView,
) -> Result<Seq<char>, HitomiError> {
    match spec_full_path_from_hash(image.hash@, table) {
        Err(e) => Err(e),
        Ok(path) => Ok(
            IMAGE_ROOT@ + (if spec_dir_shown(dir) {
                dir->0 + seq!['/']
            } else {
                Seq::empty()
            }) + path + seq!['.'] + spec_ext(image.name@, dir, ext),
        ),
    }
}

/// The address of an image on the default host.
pub fn url_from_hash(
    _gallery_id: i32,
    image: &GalleryFiles,
    dir: Option<&str>,
    ext: Option<&str>,
    gg: &GG,
) -> (r: Result<String, HitomiError>)
    ensures
        match r {
            Ok(url) => spec_url_from_hash(*image, opt_view(dir), opt_view(ext), gg@) == Ok::<
                Seq<char>,
                HitomiError,
            >(url@),
            Err(e) => spec_url_from_hash(*image, opt_view(dir), opt_view(ext), gg@) == Err::<
                Seq<char>,
                HitomiError,
            >(e),
        },
{
    let ext_chars = match (ext, dir) {
        (Some(e), _) => chars_of(e),
        (None, Some(d)) => chars_of(d),
        (None, None) => {
            let name = chars_of(image.name.as_str());
            last_segment(name.as_slice())
        },
    };
    let mut url: Vec<char> = Vec::new();
    push_str(&mut url, IMAGE_ROOT);
    let ghost shown = Seq::<char>::empty();
    if let Some(d) = dir {
        if !same_text(d, "webp") && !same_text(d, "avif") {
            push_str(&mut url, d);
            url.push('/');
            proof {
                shown = d@ + seq!['/'];
            }
        }
    }
    assert(url@ =~= IMAGE_ROOT@ + shown);
    let path = full_path_from_hash(image.hash.as_str(), gg)?;
    push_str(&mut url, path.as_str());
    url.push('.');
    push_chars(&mut url, ext_chars.as_slice());
    assert(url@ =~= IMAGE_ROOT@ + shown + path@ + seq!['.'] + ext_chars@);
    Ok(string_of(url.as_slice()))
}

/// The address of a thumbnail on the default host.
pub open spec fn spec_thumbnail_url(path: Seq<char>, dir: Seq<char>, ext: Seq<char>) -> Seq<char> {
    IMAGE_ROOT@ + dir + seq!['/'] + path + seq!['.'] + ext
}

/// The address of an image or, with the base `tn`, of a thumbnail, on the
/// host that serves it.
pub open spec fn spec_url_from_url_from_hash(
    image: GalleryFiles,
    dir: Option<Seq<char>>,
    ext: Option<Seq<char>>,
    base: Option<Seq<char>>,
    table: GGView,
) -> Result<Seq<char>, HitomiError> {
    if base == Some("tn"@) {
        match spec_real_full_path_from_hash(image.hash@) {
            Err(e) => Err(e),
            Ok(path) => if dir is None {
                Err(HitomiError::MissingDir)
            } else if ext is None {
                Err(HitomiError::MissingExt)
            } else {
                spec_url_from_url(spec_thumbnail_url(path, dir->0, ext->0), base, None, table)
            },
        }
    } else {
        match spec_url_from_hash(image, dir, ext, table) {
            Err(e) => Err(e),
            Ok(url) => spec_url_from_url(url, base, dir, table),
        }
    }
}

/// The address of an image of a gallery, or of its thumbnail where `base`
/// is `tn`.
pub fn url_from_url_from_hash(
    gallery_id: i32,
    image: &GalleryFiles,
    dir: Option<&str>,
    ext: Option<&str>,
    base: Option<&str>,
    gg: &GG,
) -> (r: Result<String, HitomiError>)
    ensures
        match r {
            Ok(url) => spec_url_from_url_from_hash(
                *image,
                opt_view(dir),
                opt_view(ext),
                opt_view(base),
                gg@,
            ) == Ok::<Seq<char>, HitomiError>(url@),
            Err(e) => spec_url_from_url_from_hash(
                *image,
                opt_view(dir),
                opt_view(ext),
                opt_view(base),
                gg@,
            ) == Err::<Seq<char>, HitomiError>(e),
        },
{
    let thumbnail = match base {
        Some(b) => same_text(b, "tn"),
        None => false,
    };
    if thumbnail {
        let path = real_full_path_from_hash(image.hash.as_str())?;
        let dir = match dir {
            Some(dir) => dir,
            None => {
                return Err(HitomiError::MissingDir);
            },
        };
        let ext = match ext {
            Some(ext) => ext,
            None => {
                return Err(HitomiError::MissingExt);
            },
        };
        let mut url: Vec<char> = Vec::new();
        push_str(&mut url, IMAGE_ROOT);
        push_str(&mut url, dir);
        url.push('/');
        push_str(&mut url, path.as_str());
        url.push('.');
        push_str(&mut url, ext);
        assert(url@ =~= spec_thumbnail_url(path@, dir@, ext@));
        let url = string_of(url.as_slice());
        url_from_url(url.as_str(), base, None, gg)
    } else {
        let url = url_from_hash(gallery_id, image, dir, ext, gg)?;
        url_from_url(url.as_str(), base, dir, gg)
    }
}

/// The directory name of a format.
pub open spec fn spec_ext_dir(ext: Ext) -> Seq<char> {
    match ext {
        Ext::Webp => "webp"@,
        Ext::Avif => "avif"@,
    }
}

/// The address from which the image is downloaded in the given format.
pub fn image_url_from_image(gallery_id: i32, image: &GalleryFiles, ext: Ext, gg: &GG) -> (r: Result<
    String,
    HitomiError,
>)
    ensures
        match r {
            Ok(url) => spec_url_from_url_from_hash(
                *image,
                Some(spec_ext_dir(ext)),
                None,
                None,
                gg@,
            ) == Ok::<Seq<char>, HitomiError>(url@),
            Err(e) => spec_url_from_url_from_hash(
                *image,
                Some(spec_ext_dir(ext)),
                None,
                None,
                gg@,
            ) == Err::<Seq<char>, HitomiError>(e),
        },
{
    match ext {
        Ext::Webp => url_from_url_from_hash(gallery_id, image, Some("webp"), None, None, gg),
        Ext::Avif => url_from_url_from_hash(gallery_id, image, Some("avif"), None, None, gg),
    }
}


/// A JSON value where a number is expected.
#[derive(Debug)]
pub enum NumericField {
    /// A number; its value where it is an integer that an `i64` holds.
    Number(Option<i64>),
    /// A string.
    Text(String),
    /// Any other value.
    Other,
}

/// The `i32` of a numeric field: of a number its low 32 bits, 0 where it is
/// no integer; of a string the decimal number that it holds, 0 where it
/// holds none. Any other value is refused.
pub open spec fn spec_string_to_i32(value: NumericField) -> Result<i32, HitomiError> {
    match value {
        NumericField::Number(Some(n)) => Ok(spec_wrap_i32(n as int) as i32),
        NumericField::Number(None) => Ok(0),
        NumericField::Text(text) => match spec_parse_i32(text@, 10) {
            Some(n) => Ok(n),
            None => Ok(0),
        },
        NumericField::Other => Err(HitomiError::NotNumeric),
    }
}

/// Reads an `i32` that the service writes as a number or as a string.
pub fn string_to_i32(value: &NumericField) -> (r: Result<i32, HitomiError>)
    ensures
        r == spec_string_to_i32(*value),
{
    match value {
        NumericField::Number(Some(n)) => Ok(wrap_i32(*n)),
        NumericField::Number(None) => Ok(0),
        NumericField::Text(text) => {
            let chars = chars_of(text.as_str());
            match parse_i32(chars.as_slice(), 10) {
                Some(n) => Ok(n),
                None => Ok(0),
            }
        },
        NumericField::Other => Err(HitomiError::NotNumeric),
    }
}

/// The address of the script that describes a gallery.
pub open spec fn spec_gallery_url(gallery_id: i32) -> Seq<char> {
    PROTOCOL@ + "//"@ + DOMAIN@ + "/galleries/"@ + spec_decimal(gallery_id as int) + ".js"@
}

/// The address of the script that describes the gallery with this id.
pub fn gallery_url(gallery_id: i32) -> (url: String)
    ensures
        url@ == spec_gallery_url(gallery_id),
{
    let mut url: Vec<char> = Vec::new();
    push_str(&mut url, PROTOCOL);
    push_str(&mut url, "//");
    push_str(&mut url, DOMAIN);
    push_str(&mut url, "/galleries/");
    let id = decimal(gallery_id as i64);
    push_chars(&mut url, id.as_slice());
    push_str(&mut url, ".js");
    string_of(url.as_slice())
}

/// The JSON document in the script of a gallery: the script without the
/// assignment in front of the document.
pub fn get_gallery_info(script: &str) -> (json: String)
    ensures
        json@ == replaced_text(script@, GALLERY_PREFIX@, Seq::empty()),
{
    proof {
        reveal_strlit("");
        assert(""@ =~= Seq::<char>::empty());
    }
    replace_text(script, GALLERY_PREFIX, "")
}

/// The id in the metadata of a downloaded comic: the low 32 bits of the
/// integer member `id`. A text that is no JSON document or has no such
/// member is refused.
pub open spec fn spec_metadata_id(text: Seq<char>) -> Result<i32, HitomiError> {
    match json_integer(text, "id"@) {
        Some(Some(id)) => Ok(spec_wrap_i32(id as int) as i32),
        _ => Err(HitomiError::Json),
    }
}

/// Reads the id of a comic from the text of its metadata file.
pub fn metadata_id(text: &str) -> (r: Result<i32, HitomiError>)
    ensures
        r == spec_metadata_id(text@),
{
    match read_integer(text, "id") {
        Ok(Some(id)) => Ok(wrap_i32(id)),
        _ => Err(HitomiError::Json),
    }
}

} // verus!
