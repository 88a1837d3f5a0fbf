use npm_mirror::codec::{decode, encode, seal, unseal, INDEX_LEVEL};
use npm_mirror::error::ErrorKind;
use npm_mirror::meta_cache::MetaCache;
use npm_mirror::metadata::package_index::{store_frame, write_package_idx};

#[test]
fn frame_round_trips() {
    let payload: Vec<u8> = (0..2000u32).map(|i| (i % 251) as u8).collect();
    let frame = encode(&payload).unwrap();
    assert_eq!(decode(&frame).unwrap(), payload);
}

#[test]
fn frame_of_nothing_round_trips() {
    let frame = encode(&[]).unwrap();
    assert_eq!(&frame[..8], &[0u8; 8]);
    assert_eq!(decode(&frame).unwrap(), Vec::<u8>::new());
}

#[test]
fn frame_starts_with_the_length_highest_byte_first() {
    let payload = vec![9u8; 0x0102];
    let frame = encode(&payload).unwrap();
    assert_eq!(&frame[..8], &[0, 0, 0, 0, 0, 0, 1, 2]);
}

#[test]
fn frame_holds_a_zstd_stream_of_the_payload() {
    let payload = b"hello hello hello hello hello".to_vec();
    let frame = encode(&payload).unwrap();
    assert_eq!(zstd::decode_all(&frame[8..]).unwrap(), payload);
    assert_eq!(&frame[8..], &zstd::encode_all(&payload[..], 3).unwrap()[..]);
    assert_eq!(INDEX_LEVEL, 3);
}

#[test]
fn frame_compresses() {
    let payload = vec![0u8; 100_000];
    let frame = encode(&payload).unwrap();
    assert!(frame.len() < 1000);
    assert_eq!(decode(&frame).unwrap().len(), 100_000);
}

#[test]
fn decode_refuses_a_short_frame() {
    assert!(matches!(decode(&[]), Err(ErrorKind::Io(_))));
    assert!(matches!(decode(&[0, 0, 0, 0, 0, 0, 0]), Err(ErrorKind::Io(_))));
}

#[test]
fn decode_refuses_what_is_no_zstd_stream() {
    let bytes = [0u8, 0, 0, 0, 0, 0, 0, 3, 1, 2, 3];
    assert!(matches!(decode(&bytes), Err(ErrorKind::Io(_))));
}

#[test]
fn decode_refuses_a_wrong_length() {
    let payload = b"some payload".to_vec();
    let mut frame = encode(&payload).unwrap();
    frame[7] += 1;
    assert!(matches!(decode(&frame), Err(ErrorKind::Bitcode(_))));
}

#[test]
fn meta_cache_starts_empty() {
    let cache = MetaCache::new();
    assert_eq!(cache.size(), 0);
    assert!(!cache.contains("a"));
    assert!(cache.blob("a").is_none());
    assert!(cache.get("a").is_none());
}

#[test]
fn meta_cache_stores_blobs_one_after_the_other() {
    let mut cache = MetaCache::new();
    assert!(cache.insert("a", &[1, 2, 3]));
    assert!(cache.insert("b", &[]));
    assert!(cache.insert("c", &[4, 5]));
    assert_eq!(cache.size(), 5);
    assert_eq!(cache.blob("a").unwrap(), vec![1, 2, 3]);
    assert_eq!(cache.blob("b").unwrap(), Vec::<u8>::new());
    assert_eq!(cache.blob("c").unwrap(), vec![4, 5]);
    assert!(cache.blob("d").is_none());
}

#[test]
fn meta_cache_is_append_only() {
    let mut cache = MetaCache::new();
    let first = encode(b"first").unwrap();
    let second = encode(b"second").unwrap();
    assert!(cache.insert("k", &first));
    let size = cache.size();
    assert!(!cache.insert("k", &second));
    assert_eq!(cache.size(), size);
    assert_eq!(cache.blob("k").unwrap(), first);
    assert_eq!(cache.get("k").unwrap().unwrap(), b"first".to_vec());
}

#[test]
fn meta_cache_get_takes_the_payload_out_of_the_frame() {
    let mut cache = MetaCache::new();
    cache.insert("other", &encode(b"zzz").unwrap());
    cache.insert("pkg", &encode(b"the index").unwrap());
    assert_eq!(cache.get("pkg").unwrap().unwrap(), b"the index".to_vec());
    assert_eq!(cache.get("other").unwrap().unwrap(), b"zzz".to_vec());
}

#[test]
fn meta_cache_get_reports_a_corrupt_blob() {
    let mut cache = MetaCache::new();
    cache.insert("bad", &[1, 2, 3]);
    assert!(matches!(cache.get("bad"), Some(Err(_))));
}

#[test]
fn write_package_idx_stores_the_frame_in_the_cache() {
    let mut cache = MetaCache::new();
    let frame = write_package_idx("pkg", b"payload", &mut cache).unwrap();
    assert_eq!(frame, encode(b"payload").unwrap());
    assert_eq!(cache.blob("pkg").unwrap(), frame);
    assert_eq!(cache.get("pkg").unwrap().unwrap(), b"payload".to_vec());
}

#[test]
fn write_package_idx_does_not_overwrite() {
    let mut cache = MetaCache::new();
    write_package_idx("pkg", b"old", &mut cache).unwrap();
    let frame = write_package_idx("pkg", b"new", &mut cache).unwrap();
    assert_eq!(decode(&frame).unwrap(), b"new".to_vec());
    assert_eq!(cache.get("pkg").unwrap().unwrap(), b"old".to_vec());
}

#[test]
fn seal_puts_the_length_before_the_compressed_bytes() {
    let frame = seal(0x0102030405060708, Ok(vec![9, 8, 7])).unwrap();
    assert_eq!(frame, vec![1, 2, 3, 4, 5, 6, 7, 8, 9, 8, 7]);
    assert_eq!(seal(0, Ok(Vec::new())).unwrap(), vec![0u8; 8]);
    assert_eq!(seal(u64::MAX, Ok(vec![1])).unwrap(), vec![255, 255, 255, 255, 255, 255, 255, 255, 1]);
}

#[test]
fn seal_passes_the_error_of_the_compressor_on() {
    assert!(matches!(seal(3, Err("out of memory".to_string())), Err(ErrorKind::Io(m)) if m == "out of memory"));
}

#[test]
fn unseal_checks_the_length() {
    assert_eq!(unseal(3, Ok(vec![1, 2, 3])).unwrap(), vec![1, 2, 3]);
    assert_eq!(unseal(0, Ok(Vec::new())).unwrap(), Vec::<u8>::new());
    assert!(matches!(unseal(4, Ok(vec![1, 2, 3])), Err(ErrorKind::Bitcode(m)) if m == "length mismatch"));
    assert!(matches!(unseal(2, Ok(vec![1, 2, 3])), Err(ErrorKind::Bitcode(_))));
    assert!(matches!(unseal(3, Err("bad frame".to_string())), Err(ErrorKind::Io(m)) if m == "bad frame"));
}

#[test]
fn decode_names_a_frame_that_is_too_short() {
    assert!(matches!(decode(&[1, 2, 3]), Err(ErrorKind::Io(m)) if m == "frame too short"));
    let mut cache = MetaCache::new();
    cache.insert("short", &[1, 2, 3]);
    assert!(matches!(cache.get("short"), Some(Err(ErrorKind::Io(m))) if m == "frame too short"));
}

#[test]
fn store_frame_stores_a_frame_and_hands_it_back() {
    let mut cache = MetaCache::new();
    let frame = store_frame("pkg", Ok(vec![1, 2, 3]), &mut cache).unwrap();
    assert_eq!(frame, vec![1, 2, 3]);
    assert_eq!(cache.blob("pkg").unwrap(), vec![1, 2, 3]);
    let again = store_frame("pkg", Ok(vec![4]), &mut cache).unwrap();
    assert_eq!(again, vec![4]);
    assert_eq!(cache.blob("pkg").unwrap(), vec![1, 2, 3]);
}

#[test]
fn store_frame_stores_nothing_for_an_error() {
    let mut cache = MetaCache::new();
    let failed = store_frame("pkg", Err(ErrorKind::Io("full".to_string())), &mut cache);
    assert!(matches!(failed, Err(ErrorKind::Io(m)) if m == "full"));
    assert!(!cache.contains("pkg"));
    assert_eq!(cache.size(), 0);
}
