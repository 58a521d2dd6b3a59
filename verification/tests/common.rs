use hitomi_downloader::errors::HitomiError;
use hitomi_downloader::hitomi::common::{
    full_path_from_hash, gallery_url, get_gallery_info, image_url_from_image, metadata_id,
    real_full_path_from_hash, seed, string_to_i32, subdomain_for, subdomain_from_url,
    url_from_hash, url_from_url, url_from_url_from_hash, Ext, GalleryFiles, NumericField,
};
use hitomi_downloader::hitomi::gg::GG;

const HASH: &str = "ab34cd78ef0123456789abcdef0123456789abcdef0123456789abcdef012ab7";

fn table() -> GG {
    let mut gg = GG::new();
    let script = "var o = 0;\ncase 1479:\ncase 5:\no = 1; break;\nb: '1733979601/'\n";
    gg.refresh(script, 0).unwrap();
    gg
}

fn image(hash: &str, name: &str) -> GalleryFiles {
    GalleryFiles {
        width: 100,
        hash: hash.to_string(),
        haswebp: 1,
        hasavif: 1,
        hasjxl: 0,
        name: name.to_string(),
        height: 200,
    }
}

fn picked(v: Vec<char>) -> String {
    v.into_iter().collect()
}

#[test]
fn seed_depends_on_base_and_directory() {
    assert_eq!(picked(seed(None, Some("webp"))), "w");
    assert_eq!(picked(seed(None, Some("avif"))), "a");
    assert_eq!(picked(seed(Some(""), Some("webp"))), "w");
    assert_eq!(picked(seed(Some("tn"), Some("webp"))), "");
    assert_eq!(picked(seed(None, Some("webpbigtn"))), "");
    assert_eq!(picked(seed(None, None)), "");
}

#[test]
fn subdomain_for_a_routing_number() {
    let gg = table();
    assert_eq!(subdomain_for(1963, None, Some("webp"), &gg).unwrap(), "w1");
    assert_eq!(subdomain_for(1479, None, Some("webp"), &gg).unwrap(), "w2");
    assert_eq!(subdomain_for(1479, None, Some("avif"), &gg).unwrap(), "a2");
    assert_eq!(subdomain_for(1963, Some("tn"), None, &gg).unwrap(), "atn");
    assert_eq!(subdomain_for(5, Some("tn"), None, &gg).unwrap(), "btn");
    assert_eq!(subdomain_for(5, Some(""), None, &gg).unwrap(), "2");
}

#[test]
fn subdomain_for_a_bucket_that_is_no_character() {
    let mut gg = GG::new();
    gg.m_default = -98;
    assert_eq!(subdomain_for(1, Some("tn"), None, &gg), Err(HitomiError::InvalidCharacter));
    gg.m_default = i32::MAX;
    assert_eq!(subdomain_for(1, Some("tn"), None, &gg), Err(HitomiError::InvalidCharacter));
    assert_eq!(subdomain_for(1, None, None, &gg).unwrap(), "2147483648");
    gg.m_default = 0xD800 - 97;
    assert_eq!(subdomain_for(1, Some("tn"), None, &gg), Err(HitomiError::InvalidCharacter));
    gg.m_default = -97;
    assert_eq!(subdomain_for(1, Some("x"), None, &gg).unwrap(), "\u{0}x");
}

#[test]
fn subdomain_seed_webp() {
    let gg = table();
    let url = format!("https://a.gold-usergeneratedcontent.net/1733979601/1963/{}.webp", HASH);
    assert_eq!(subdomain_from_url(&url, None, Some("webp"), &gg).unwrap(), "w1");
    assert_eq!(subdomain_from_url(&url, None, Some("avif"), &gg).unwrap(), "a1");
    assert_eq!(subdomain_from_url(&url, Some("tn"), None, &gg).unwrap(), "atn");
    assert_eq!(
        url_from_url(&url, None, Some("webp"), &gg).unwrap(),
        format!("https://w1.gold-usergeneratedcontent.net/1733979601/1963/{}.webp", HASH)
    );
}

#[test]
fn subdomain_is_empty_without_base_and_directory_or_without_a_hash() {
    let gg = table();
    let url = format!("https://a.gold-usergeneratedcontent.net/{}.webp", HASH);
    assert_eq!(subdomain_from_url(&url, None, None, &gg).unwrap(), "");
    assert_eq!(
        subdomain_from_url("https://a.hitomi.la/short.webp", None, Some("webp"), &gg).unwrap(),
        ""
    );
    assert_eq!(subdomain_from_url("", Some("tn"), Some("x"), &gg).unwrap(), "");
}

#[test]
fn url_from_url_rewrites_both_hosts() {
    let gg = table();
    let old = format!("https://aa.hitomi.la/webp/{}.webp", HASH);
    assert_eq!(
        url_from_url(&old, None, Some("webp"), &gg).unwrap(),
        format!("https://w1.gold-usergeneratedcontent.net/webp/{}.webp", HASH)
    );
    let other = format!("https://example.org/{}.webp", HASH);
    assert_eq!(url_from_url(&other, None, Some("webp"), &gg).unwrap(), other);
}

#[test]
fn hash_routing() {
    let gg = table();
    assert_eq!(full_path_from_hash(HASH, &gg).unwrap(), format!("1733979601/1963/{}", HASH));
    assert_eq!(full_path_from_hash("ab", &gg), Err(HitomiError::InvalidHash));
    assert_eq!(full_path_from_hash("zzz", &gg), Err(HitomiError::InvalidNumber));
}

#[test]
fn real_full_path_puts_the_last_characters_in_front() {
    assert_eq!(real_full_path_from_hash(HASH).unwrap(), format!("7/ab/{}", HASH));
    assert_eq!(real_full_path_from_hash("xyz").unwrap(), "z/xy/xyz");
    assert_eq!(real_full_path_from_hash("ab").unwrap(), "ab");
}

#[test]
fn url_from_hash_shows_the_directory_unless_it_is_a_format() {
    let gg = table();
    let img = image(HASH, "001.jpg");
    assert_eq!(
        url_from_hash(1, &img, Some("webp"), None, &gg).unwrap(),
        format!("https://a.gold-usergeneratedcontent.net/1733979601/1963/{}.webp", HASH)
    );
    assert_eq!(
        url_from_hash(1, &img, Some("avif"), None, &gg).unwrap(),
        format!("https://a.gold-usergeneratedcontent.net/1733979601/1963/{}.avif", HASH)
    );
    assert_eq!(
        url_from_hash(1, &img, Some("images"), None, &gg).unwrap(),
        format!("https://a.gold-usergeneratedcontent.net/images/1733979601/1963/{}.images", HASH)
    );
    assert_eq!(
        url_from_hash(1, &img, Some("images"), Some("png"), &gg).unwrap(),
        format!("https://a.gold-usergeneratedcontent.net/images/1733979601/1963/{}.png", HASH)
    );
    assert_eq!(
        url_from_hash(1, &img, None, None, &gg).unwrap(),
        format!("https://a.gold-usergeneratedcontent.net/1733979601/1963/{}.jpg", HASH)
    );
    assert_eq!(url_from_hash(1, &image("ab", "x"), None, None, &gg), Err(HitomiError::InvalidHash));
}

#[test]
fn thumbnail_addresses() {
    let gg = table();
    let img = image(HASH, "001.jpg");
    assert_eq!(
        url_from_url_from_hash(1, &img, Some("webpbigtn"), Some("webp"), Some("tn"), &gg).unwrap(),
        format!("https://atn.gold-usergeneratedcontent.net/webpbigtn/7/ab/{}.webp", HASH)
    );
    assert_eq!(
        url_from_url_from_hash(1, &img, None, Some("webp"), Some("tn"), &gg),
        Err(HitomiError::MissingDir)
    );
    assert_eq!(
        url_from_url_from_hash(1, &img, Some("webpbigtn"), None, Some("tn"), &gg),
        Err(HitomiError::MissingExt)
    );
    assert_eq!(
        url_from_url_from_hash(1, &img, None, None, Some("tn"), &gg),
        Err(HitomiError::MissingDir)
    );
}

#[test]
fn image_addresses_for_download() {
    let gg = table();
    let img = image(HASH, "001.jpg");
    assert_eq!(
        image_url_from_image(1, &img, Ext::Webp, &gg).unwrap(),
        format!("https://w1.gold-usergeneratedcontent.net/1733979601/1963/{}.webp", HASH)
    );
    assert_eq!(
        image_url_from_image(1, &img, Ext::Avif, &gg).unwrap(),
        format!("https://a1.gold-usergeneratedcontent.net/1733979601/1963/{}.avif", HASH)
    );
    let routed = format!("{}c75", &HASH[..61]);
    assert_eq!(
        image_url_from_image(1, &image(&routed, "x"), Ext::Webp, &gg).unwrap(),
        format!("https://w2.gold-usergeneratedcontent.net/1733979601/1479/{}.webp", routed)
    );
    assert_eq!(
        image_url_from_image(1, &image("ab", "x"), Ext::Webp, &gg),
        Err(HitomiError::InvalidHash)
    );
}

#[test]
fn numeric_fields_are_numbers_or_strings() {
    assert_eq!(string_to_i32(&NumericField::Number(Some(12))), Ok(12));
    assert_eq!(string_to_i32(&NumericField::Number(Some(-1))), Ok(-1));
    assert_eq!(string_to_i32(&NumericField::Number(Some(4294967298))), Ok(2));
    assert_eq!(string_to_i32(&NumericField::Number(None)), Ok(0));
    assert_eq!(string_to_i32(&NumericField::Text("345".into())), Ok(345));
    assert_eq!(string_to_i32(&NumericField::Text("-345".into())), Ok(-345));
    assert_eq!(string_to_i32(&NumericField::Text("".into())), Ok(0));
    assert_eq!(string_to_i32(&NumericField::Text("12x".into())), Ok(0));
    assert_eq!(string_to_i32(&NumericField::Text("99999999999".into())), Ok(0));
    assert_eq!(string_to_i32(&NumericField::Other), Err(HitomiError::NotNumeric));
}

#[test]
fn gallery_script_address_and_document() {
    assert_eq!(gallery_url(123), "https://ltn.gold-usergeneratedcontent.net/galleries/123.js");
    assert_eq!(gallery_url(-4), "https://ltn.gold-usergeneratedcontent.net/galleries/-4.js");
    assert_eq!(get_gallery_info("var galleryinfo = {\"id\": 1}"), "{\"id\": 1}");
    assert_eq!(get_gallery_info("{\"id\": 1}"), "{\"id\": 1}");
    assert_eq!(get_gallery_info("var galleryinfo = var galleryinfo = x"), "x");
}

#[test]
fn metadata_ids() {
    assert_eq!(metadata_id("{\"id\": 42, \"title\": \"t\"}"), Ok(42));
    assert_eq!(metadata_id("{\"id\": -42}"), Ok(-42));
    assert_eq!(metadata_id("{\"id\": 4294967299}"), Ok(3));
    assert_eq!(metadata_id("{\"id\": \"42\"}"), Err(HitomiError::Json));
    assert_eq!(metadata_id("{\"id\": 1.5}"), Err(HitomiError::Json));
    assert_eq!(metadata_id("{\"title\": \"t\"}"), Err(HitomiError::Json));
    assert_eq!(metadata_id("[1, 2]"), Err(HitomiError::Json));
    assert_eq!(metadata_id("not json"), Err(HitomiError::Json));
}
