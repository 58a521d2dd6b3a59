use hitomi_downloader::hitomi::search::{
    b_search, compare_arrays, data_range, decode_gallery_ids, decode_node, decode_nozomi,
    encode_search_query_for_url, galleries_data_url, get_gallery_ids_for_query,
    get_index_version, get_suggestions_for_query, hash_term, index_url, is_leaf, key_of_digest,
    locate_key, node_range, nozomi_address, nozomi_ids, range_header, read_i32_at, read_i64_at,
    sanitize, suggestion_link, suggestion_url, ByteRange, DecodeError, Node, NozomiRequest,
    QueryPlan, SearchStep,
};
use hitomi_downloader::errors::HitomiError;

fn node_bytes(keys: &[&[u8]], datas: &[(i64, i32)], subs: &[i64]) -> Vec<u8> {
    let mut out = Vec::new();
    out.extend_from_slice(&(keys.len() as i32).to_be_bytes());
    for key in keys {
        out.extend_from_slice(&(key.len() as i32).to_be_bytes());
        out.extend_from_slice(key);
    }
    out.extend_from_slice(&(datas.len() as i32).to_be_bytes());
    for (offset, length) in datas {
        out.extend_from_slice(&offset.to_be_bytes());
        out.extend_from_slice(&length.to_be_bytes());
    }
    for sub in subs {
        out.extend_from_slice(&sub.to_be_bytes());
    }
    out
}

fn leaf_node(keys: &[&[u8]], datas: &[(i64, i32)]) -> Node {
    decode_node(&node_bytes(keys, datas, &[0; 17])).unwrap()
}

#[test]
fn read_i32_at_reads_big_endian() {
    let data = [0xff, 0xff, 0x7a, 0x33, 0x00, 0x00, 0x00, 0x2a];
    assert_eq!(read_i32_at(&data, 0), Some(-34253));
    assert_eq!(read_i32_at(&data, 4), Some(42));
    assert_eq!(read_i32_at(&data, 1), Some(i32::from_be_bytes([0xff, 0x7a, 0x33, 0x00])));
    assert_eq!(read_i32_at(&data, 5), None);
    assert_eq!(read_i32_at(&data, usize::MAX), None);
    assert_eq!(read_i32_at(&[], 0), None);
}

#[test]
fn read_i64_at_reads_big_endian() {
    let data = [0x80, 0, 0, 0, 0, 0, 0, 0, 1];
    assert_eq!(read_i64_at(&data, 0), Some(i64::MIN));
    assert_eq!(read_i64_at(&data, 1), Some(1));
    assert_eq!(read_i64_at(&data, 2), None);
    let other = 0x0102030405060708i64.to_be_bytes();
    assert_eq!(read_i64_at(&other, 0), Some(0x0102030405060708));
}

#[test]
fn decode_node_reads_keys_datas_and_addresses() {
    let subs: Vec<i64> = (0..17).map(|i| i * 464).collect();
    let bytes = node_bytes(
        &[&[1, 2, 3, 4], &[9, 9, 9, 9]],
        &[(100, 20), (-5, 7)],
        &subs,
    );
    let node = decode_node(&bytes).unwrap();
    assert_eq!(node.keys, vec![vec![1u8, 2, 3, 4], vec![9u8, 9, 9, 9]]);
    assert_eq!(node.datas, vec![(100i64, 20i32), (-5, 7)]);
    assert_eq!(node.sub_node_addresses, subs);
}

#[test]
fn decode_node_ignores_what_follows_the_node() {
    let mut bytes = node_bytes(&[&[7]], &[(1, 2)], &[0; 17]);
    bytes.resize(464, 0xee);
    let node = decode_node(&bytes).unwrap();
    assert_eq!(node.keys, vec![vec![7u8]]);
    assert_eq!(node.datas, vec![(1i64, 2i32)]);
    assert_eq!(node.sub_node_addresses.len(), 17);
}

#[test]
fn decode_node_refuses_bad_key_sizes() {
    for size in [0i32, 33, -1, i32::MIN, i32::MAX] {
        let mut bytes = Vec::new();
        bytes.extend_from_slice(&1i32.to_be_bytes());
        bytes.extend_from_slice(&size.to_be_bytes());
        bytes.extend_from_slice(&[0u8; 600]);
        assert_eq!(decode_node(&bytes).unwrap_err(), DecodeError::KeySize);
    }
    let key = [5u8; 32];
    let ok = node_bytes(&[&key], &[(0, 1)], &[0; 17]);
    assert_eq!(decode_node(&ok).unwrap().keys[0].len(), 32);
}

#[test]
fn decode_node_refuses_truncated_buffers() {
    let bytes = node_bytes(&[&[1, 2, 3, 4]], &[(100, 20)], &[0; 17]);
    for len in 0..bytes.len() {
        assert_eq!(decode_node(&bytes[..len]).unwrap_err(), DecodeError::Truncated, "{}", len);
    }
    assert!(decode_node(&bytes).is_ok());
}

#[test]
fn decode_node_takes_negative_counts_as_zero() {
    let mut bytes = Vec::new();
    bytes.extend_from_slice(&(-3i32).to_be_bytes());
    bytes.extend_from_slice(&(-1i32).to_be_bytes());
    bytes.extend_from_slice(&[0u8; 17 * 8]);
    let node = decode_node(&bytes).unwrap();
    assert!(node.keys.is_empty());
    assert!(node.datas.is_empty());
    assert_eq!(node.sub_node_addresses, vec![0i64; 17]);
}

#[test]
fn node_without_keys_gives_no_match() {
    let node = decode_node(&node_bytes(&[], &[], &[5; 17])).unwrap();
    assert_eq!(b_search(&[1, 2, 3, 4], &node), Ok(SearchStep::Missing));
    let leaf = decode_node(&node_bytes(&[], &[], &[0; 17])).unwrap();
    assert_eq!(b_search(&[], &leaf), Ok(SearchStep::Missing));
}

#[test]
fn compare_arrays_orders_by_first_difference() {
    assert_eq!(compare_arrays(&[1, 2, 3], &[1, 2, 4]), -1);
    assert_eq!(compare_arrays(&[1, 3, 0], &[1, 2, 9]), 1);
    assert_eq!(compare_arrays(&[1, 2, 3], &[1, 2, 3]), 0);
    assert_eq!(compare_arrays(&[1, 2], &[1, 2, 3]), -1);
    assert_eq!(compare_arrays(&[1, 2, 3], &[1, 2]), 1);
    assert_eq!(compare_arrays(&[], &[1]), -1);
    assert_eq!(compare_arrays(&[1], &[]), 1);
    assert_eq!(compare_arrays(&[], &[]), 0);
    assert_eq!(compare_arrays(&[2], &[1, 9]), 1);
    assert_eq!(compare_arrays(&[0xff], &[0x00]), 1);
}

#[test]
fn locate_key_finds_the_first_slot_not_before_the_key() {
    let node = leaf_node(&[&[10], &[20], &[30]], &[(1, 1), (2, 2), (3, 3)]);
    assert_eq!(locate_key(&[5], &node), (false, 0));
    assert_eq!(locate_key(&[10], &node), (true, 0));
    assert_eq!(locate_key(&[15], &node), (false, 1));
    assert_eq!(locate_key(&[20], &node), (true, 1));
    assert_eq!(locate_key(&[30], &node), (true, 2));
    assert_eq!(locate_key(&[31], &node), (false, 3));
}

#[test]
fn is_leaf_needs_every_address_zero() {
    assert!(is_leaf(&leaf_node(&[&[1]], &[(1, 1)])));
    let mut subs = [0i64; 17];
    subs[16] = 464;
    let inner = decode_node(&node_bytes(&[&[1]], &[(1, 1)], &subs)).unwrap();
    assert!(!is_leaf(&inner));
}

#[test]
fn b_search_finds_data_or_names_the_sub_node() {
    let subs: Vec<i64> = (1..=17).map(|i| i * 1000).collect();
    let node = decode_node(&node_bytes(
        &[&[10], &[20], &[30]],
        &[(100, 1), (200, 2), (300, 3)],
        &subs,
    ))
    .unwrap();
    assert_eq!(b_search(&[20], &node), Ok(SearchStep::Found { offset: 200, length: 2 }));
    assert_eq!(b_search(&[5], &node), Ok(SearchStep::Descend { address: 1000 }));
    assert_eq!(b_search(&[25], &node), Ok(SearchStep::Descend { address: 3000 }));
    assert_eq!(b_search(&[35], &node), Ok(SearchStep::Descend { address: 4000 }));
    let leaf = leaf_node(&[&[10], &[20]], &[(100, 1), (200, 2)]);
    assert_eq!(b_search(&[15], &leaf), Ok(SearchStep::Missing));
    assert_eq!(b_search(&[10], &leaf), Ok(SearchStep::Found { offset: 100, length: 1 }));
}

#[test]
fn b_search_refuses_a_node_without_the_data_of_its_key() {
    let node = leaf_node(&[&[10], &[20]], &[(100, 1)]);
    assert_eq!(b_search(&[20], &node), Err(DecodeError::NodeShape));
    assert_eq!(b_search(&[10], &node), Ok(SearchStep::Found { offset: 100, length: 1 }));
}

#[test]
fn search_is_monotone_within_a_node() {
    let keys: Vec<Vec<u8>> = vec![vec![0, 0, 0, 1], vec![0, 0, 2, 0], vec![0, 3, 0, 0], vec![4, 0, 0, 0]];
    let refs: Vec<&[u8]> = keys.iter().map(|k| k.as_slice()).collect();
    let node = leaf_node(&refs, &[(10, 1), (20, 1), (30, 1), (40, 1)]);
    for (i, k1) in keys.iter().enumerate() {
        for (j, k2) in keys.iter().enumerate() {
            if compare_arrays(k1, k2) < 0 {
                let (there1, slot1) = locate_key(k1, &node);
                let (there2, slot2) = locate_key(k2, &node);
                assert!(there1 && there2);
                assert!(slot1 < slot2);
                assert!(i < j);
            }
        }
    }
}

#[test]
fn compare_arrays_agrees_with_the_order_of_slices() {
    let samples: Vec<Vec<u8>> =
        vec![vec![], vec![0], vec![1], vec![1, 0], vec![1, 2], vec![1, 2, 3], vec![2], vec![255, 1]];
    for a in &samples {
        for b in &samples {
            let expected = match a.cmp(b) {
                std::cmp::Ordering::Less => -1,
                std::cmp::Ordering::Equal => 0,
                std::cmp::Ordering::Greater => 1,
            };
            assert_eq!(compare_arrays(a, b), expected);
        }
    }
}

#[test]
fn a_key_matches_only_the_same_key() {
    let node = leaf_node(&[&[1], &[1, 2], &[1, 3]], &[(10, 1), (20, 1), (30, 1)]);
    assert_eq!(locate_key(&[1], &node), (true, 0));
    assert_eq!(locate_key(&[1, 2], &node), (true, 1));
    assert_eq!(locate_key(&[1, 3], &node), (true, 2));
    assert_eq!(locate_key(&[1, 2, 0], &node), (false, 2));
    assert_eq!(locate_key(&[], &node), (false, 0));
    assert_eq!(locate_key(&[1, 4], &node), (false, 3));
}

#[test]
fn node_range_covers_464_bytes() {
    assert_eq!(node_range(0), Ok(ByteRange { start: 0, end: 464 }));
    assert_eq!(node_range(928), Ok(ByteRange { start: 928, end: 1392 }));
    assert_eq!(
        node_range(i64::MAX),
        Ok(ByteRange { start: i64::MAX as u64, end: i64::MAX as u64 + 464 })
    );
    assert_eq!(node_range(-1), Err(DecodeError::Address));
}

#[test]
fn data_length_boundaries() {
    assert_eq!(data_range(0, 0), Err(DecodeError::DataLength));
    assert_eq!(data_range(0, -1), Err(DecodeError::DataLength));
    assert_eq!(data_range(0, 100_000_001), Err(DecodeError::DataLength));
    assert_eq!(data_range(10, 100_000_000), Ok(ByteRange { start: 10, end: 100_000_010 }));
    assert_eq!(data_range(10, 1), Ok(ByteRange { start: 10, end: 11 }));
    assert_eq!(data_range(-1, 4), Err(DecodeError::Address));
    assert_eq!(data_range(i64::MAX, 1), Err(DecodeError::Address));
    assert_eq!(
        data_range(i64::MAX - 1, 1),
        Ok(ByteRange { start: i64::MAX as u64 - 1, end: i64::MAX as u64 })
    );
}

#[test]
fn range_header_names_first_and_last_byte() {
    assert_eq!(range_header(&ByteRange { start: 0, end: 464 }).unwrap(), "bytes=0-463");
    assert_eq!(range_header(&ByteRange { start: 928, end: 1392 }).unwrap(), "bytes=928-1391");
    assert_eq!(range_header(&ByteRange { start: 5, end: 6 }).unwrap(), "bytes=5-5");
    assert_eq!(range_header(&ByteRange { start: 5, end: 5 }), None);
    assert_eq!(range_header(&ByteRange { start: 0, end: 0 }), None);
    assert_eq!(range_header(&ByteRange { start: 7, end: 3 }), None);
}

fn ids_bytes(count: i32, ids: &[i32]) -> Vec<u8> {
    let mut out = Vec::new();
    out.extend_from_slice(&count.to_be_bytes());
    for id in ids {
        out.extend_from_slice(&id.to_be_bytes());
    }
    out
}

#[test]
fn decode_gallery_ids_keeps_order_and_drops_repeats() {
    let set = decode_gallery_ids(&ids_bytes(5, &[30, 10, 30, -2, 10])).unwrap();
    assert_eq!(set.to_vec(), vec![30, 10, -2]);
    let one = decode_gallery_ids(&ids_bytes(1, &[7, 8, 9])).unwrap();
    assert_eq!(one.to_vec(), vec![7]);
}

#[test]
fn decode_gallery_ids_checks_the_count() {
    assert_eq!(decode_gallery_ids(&ids_bytes(0, &[])).unwrap_err(), DecodeError::GalleryCount);
    assert_eq!(decode_gallery_ids(&ids_bytes(-1, &[1])).unwrap_err(), DecodeError::GalleryCount);
    assert_eq!(
        decode_gallery_ids(&ids_bytes(10_000_001, &[1])).unwrap_err(),
        DecodeError::GalleryCount
    );
    assert_eq!(
        decode_gallery_ids(&ids_bytes(10_000_000, &[1])).unwrap_err(),
        DecodeError::Truncated
    );
    assert_eq!(decode_gallery_ids(&ids_bytes(3, &[1, 2])).unwrap_err(), DecodeError::Truncated);
    assert_eq!(decode_gallery_ids(&[0, 0, 1]).unwrap_err(), DecodeError::Truncated);
    assert_eq!(decode_gallery_ids(&[]).unwrap_err(), DecodeError::Truncated);
}

#[test]
fn decode_nozomi_reads_whole_ids_only() {
    let mut bytes = Vec::new();
    for id in [5i32, 3, 5, 1] {
        bytes.extend_from_slice(&id.to_be_bytes());
    }
    bytes.extend_from_slice(&[9, 9, 9]);
    assert_eq!(decode_nozomi(&bytes).to_vec(), vec![5, 3, 1]);
    assert!(decode_nozomi(&[]).is_empty());
    assert!(decode_nozomi(&[1, 2, 3]).is_empty());
}

#[test]
fn nozomi_ids_are_empty_unless_the_status_is_200() {
    let bytes = 77i32.to_be_bytes();
    assert_eq!(nozomi_ids(200, &bytes).to_vec(), vec![77]);
    assert!(nozomi_ids(404, &bytes).is_empty());
    assert!(nozomi_ids(500, &bytes).is_empty());
    assert!(nozomi_ids(201, &bytes).is_empty());
}

#[test]
fn hash_term_is_the_start_of_the_sha256_digest() {
    assert_eq!(hash_term("abc"), vec![0xba, 0x78, 0x16, 0xbf]);
    assert_eq!(hash_term(""), vec![0xe3, 0xb0, 0xc4, 0x42]);
    assert_ne!(hash_term("artist a"), hash_term("artist b"));
    assert_eq!(hash_term("artist a").len(), 4);
}

#[test]
fn key_of_digest_takes_four_bytes() {
    assert_eq!(key_of_digest(&[1, 2, 3, 4, 5, 6]), vec![1, 2, 3, 4]);
    assert_eq!(key_of_digest(&[1, 2]), vec![1, 2]);
    assert_eq!(key_of_digest(&[]), Vec::<u8>::new());
}

#[test]
fn index_urls_by_field() {
    assert_eq!(
        index_url("galleries", "t1", "g2"),
        "https://ltn.gold-usergeneratedcontent.net/galleriesindex/galleries.g2.index"
    );
    assert_eq!(
        index_url("languages", "t1", "g2"),
        "https://ltn.gold-usergeneratedcontent.net/galleriesindex/languages.g2.index"
    );
    assert_eq!(
        index_url("nozomiurl", "t1", "g2"),
        "https://ltn.gold-usergeneratedcontent.net/galleriesindex/nozomiurl.g2.index"
    );
    assert_eq!(
        index_url("female", "t1", "g2"),
        "https://ltn.gold-usergeneratedcontent.net/tagindex/female.t1.index"
    );
    assert_eq!(
        index_url("global", "", "g2"),
        "https://ltn.gold-usergeneratedcontent.net/tagindex/global..index"
    );
}

#[test]
fn version_and_data_urls() {
    assert_eq!(
        get_index_version("tagindex", 1700000000123),
        "https://ltn.gold-usergeneratedcontent.net/tagindex/version?_=1700000000123"
    );
    assert_eq!(
        get_index_version("galleriesindex", 0),
        "https://ltn.gold-usergeneratedcontent.net/galleriesindex/version?_=0"
    );
    assert_eq!(
        galleries_data_url("1690000000"),
        "https://ltn.gold-usergeneratedcontent.net/galleriesindex/galleries.1690000000.data"
    );
}

#[test]
fn nozomi_addresses() {
    let plain = NozomiRequest { area: None, tag: "index".into(), language: "english".into() };
    assert_eq!(
        nozomi_address(&plain),
        "https://ltn.gold-usergeneratedcontent.net/n/index-english.nozomi"
    );
    let area = NozomiRequest {
        area: Some("tag".into()),
        tag: "female:big hat".into(),
        language: "all".into(),
    };
    assert_eq!(
        nozomi_address(&area),
        "https://ltn.gold-usergeneratedcontent.net/n/tag/female:big hat-all.nozomi"
    );
}

fn plan_parts(plan: QueryPlan) -> (Option<String>, String, String) {
    match plan {
        QueryPlan::Nozomi(r) => (r.area, r.tag, r.language),
        QueryPlan::Galleries { .. } => panic!("expected a nozomi request"),
    }
}

#[test]
fn query_terms_with_a_name_space_name_a_nozomi_file() {
    assert_eq!(
        plan_parts(get_gallery_ids_for_query("female:big_hat")),
        (Some("tag".to_string()), "female:big hat".to_string(), "all".to_string())
    );
    assert_eq!(
        plan_parts(get_gallery_ids_for_query("male:x")),
        (Some("tag".to_string()), "male:x".to_string(), "all".to_string())
    );
    assert_eq!(
        plan_parts(get_gallery_ids_for_query("language:english")),
        (None, "index".to_string(), "english".to_string())
    );
    assert_eq!(
        plan_parts(get_gallery_ids_for_query("artist:some_one")),
        (Some("artist".to_string()), "some one".to_string(), "all".to_string())
    );
    assert_eq!(
        plan_parts(get_gallery_ids_for_query("a:b:c")),
        (Some("a".to_string()), "b:c".to_string(), "all".to_string())
    );
    assert_eq!(
        plan_parts(get_gallery_ids_for_query(":x")),
        (Some("".to_string()), "x".to_string(), "all".to_string())
    );
}

#[test]
fn query_terms_without_a_name_space_are_looked_up_by_hash() {
    match get_gallery_ids_for_query("artist_a") {
        QueryPlan::Galleries { key } => assert_eq!(key, hash_term("artist a")),
        QueryPlan::Nozomi(_) => panic!("expected a key"),
    }
    match get_gallery_ids_for_query("") {
        QueryPlan::Galleries { key } => assert_eq!(key, hash_term("")),
        QueryPlan::Nozomi(_) => panic!("expected a key"),
    }
}

#[test]
fn encode_search_query_for_url_maps_three_characters() {
    assert_eq!(encode_search_query_for_url(' '), "_");
    assert_eq!(encode_search_query_for_url('/'), "slash");
    assert_eq!(encode_search_query_for_url('.'), "dot");
    assert_eq!(encode_search_query_for_url('a'), "a");
    assert_eq!(encode_search_query_for_url('\u{3042}'), "\u{3042}");
}

#[test]
fn suggestion_urls() {
    assert_eq!(suggestion_url("ab"), "https://tagindex.hitomi.la/global/a/b.json");
    assert_eq!(suggestion_url("female:b_c"), "https://tagindex.hitomi.la/female/b/_/c.json");
    assert_eq!(suggestion_url("artist:"), "https://tagindex.hitomi.la/artist.json");
    assert_eq!(suggestion_url(""), "https://tagindex.hitomi.la/global.json");
    assert_eq!(
        suggestion_url("a/b.c"),
        "https://tagindex.hitomi.la/global/a/slash/b/dot/c.json"
    );
}

#[test]
fn sanitize_strips_slash_and_number_sign() {
    assert_eq!(sanitize("a/b#c").unwrap(), "abc");
    assert_eq!(sanitize("plain").unwrap(), "plain");
    assert_eq!(sanitize("##//").unwrap(), "");
    assert_eq!(sanitize("").unwrap(), "");
}

#[test]
fn suggestion_links_by_name_space() {
    assert_eq!(suggestion_link("female", "big hat"), "/tag/female:big hat-1.html");
    assert_eq!(suggestion_link("male", "x"), "/tag/male:x-1.html");
    assert_eq!(suggestion_link("language", "english"), "/index-english-1.html");
    assert_eq!(suggestion_link("artist", "some one"), "/artist/some one-all-1.html");
    assert_eq!(suggestion_link("", "t"), "//t-all-1.html");
}

#[test]
fn suggestions_are_read_from_the_rows_of_the_response() {
    let body = r#"[["big hat", 120, "female"], ["english", 5, "language"],
        ["a/b#c", 4294967297, "artist"], ["short", 1], "text", [1, "x", 3], []]"#;
    let list = get_suggestions_for_query(200, body).unwrap();
    assert_eq!(list.len(), 4);
    assert_eq!(list[0].s, "big hat");
    assert_eq!(list[0].t, 120);
    assert_eq!(list[0].u, "/tag/female:big hat-1.html");
    assert_eq!(list[0].n, "female");
    assert_eq!(list[1].u, "/index-english-1.html");
    assert_eq!(list[2].s, "a/b#c");
    assert_eq!(list[2].t, 1);
    assert_eq!(list[2].u, "/artist/abc-all-1.html");
    assert_eq!(list[3].s, "");
    assert_eq!(list[3].t, 0);
    assert_eq!(list[3].n, "");
    assert_eq!(list[3].u, "//-all-1.html");
}

#[test]
fn suggestions_of_other_documents() {
    assert!(get_suggestions_for_query(200, "[]").unwrap().is_empty());
    assert!(get_suggestions_for_query(200, "{\"a\": 1}").unwrap().is_empty());
    assert!(get_suggestions_for_query(200, "null").unwrap().is_empty());
    assert_eq!(get_suggestions_for_query(200, "not json").unwrap_err(), HitomiError::Json);
    assert_eq!(get_suggestions_for_query(200, "").unwrap_err(), HitomiError::Json);
}

#[test]
fn suggestions_by_status() {
    let body = r#"[["big hat", 120, "female"]]"#;
    assert_eq!(get_suggestions_for_query(200, body).unwrap().len(), 1);
    assert!(get_suggestions_for_query(404, body).unwrap().is_empty());
    assert!(get_suggestions_for_query(404, "not json").unwrap().is_empty());
    for status in [0u16, 201, 301, 403, 500, 503] {
        assert_eq!(
            get_suggestions_for_query(status, body).unwrap_err(),
            HitomiError::UnexpectedStatus
        );
    }
}
