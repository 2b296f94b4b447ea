use rocksdb_metadata::keys::key_le_exec;
use rocksdb_metadata::name::{decode_name, name_bytes};
use rocksdb_metadata::{ColumnFamilyMetaData, LevelMetaData, SstFileMetaData};

fn file(name: &[u8], size: usize, smallest: &[u8], largest: &[u8]) -> SstFileMetaData {
    SstFileMetaData::new(name.to_vec(), size, smallest.to_vec(), largest.to_vec())
        .expect("ordered key range")
}

fn sample() -> ColumnFamilyMetaData {
    let l0 = LevelMetaData::new(vec![
        file(b"000011.sst\0", 1024, b"a", b"m"),
        file(b"000012.sst\0", 2048, b"c", b"z"),
    ]);
    let l1 = LevelMetaData::new(vec![]);
    let l2 = LevelMetaData::new(vec![
        file(b"000007.sst\0", 10, b"a", b"f"),
        file(b"000008.sst\0", 20, b"g", b"p"),
        file(b"000009.sst\0", 30, b"q", b"zz"),
    ]);
    ColumnFamilyMetaData::from_levels(vec![l0, l1, l2])
}

#[test]
fn level_index_past_the_end_counts_zero() {
    let cf = sample();
    assert_eq!(cf.get_level_files_count(3), 0);
    assert_eq!(cf.get_level_files_count(4), 0);
    assert_eq!(cf.get_level_files_count(100), 0);
    assert_eq!(cf.get_level_files_count(usize::MAX), 0);
}

#[test]
fn level_counts_match_file_lists() {
    let cf = sample();
    let levels = cf.get_levels();
    assert_eq!(levels.len(), 3);
    let mut total = 0;
    let mut sum = 0;
    for (i, level) in levels.iter().enumerate() {
        let n = level.get_files().len();
        assert_eq!(n, cf.get_level_files_count(i));
        total += n;
        sum += cf.get_level_files_count(i);
    }
    assert_eq!(cf.get_level_files_count(0), 2);
    assert_eq!(cf.get_level_files_count(1), 0);
    assert_eq!(cf.get_level_files_count(2), 3);
    assert_eq!(total, 5);
    assert_eq!(sum, 5);
}

#[test]
fn empty_column_family_has_no_levels_and_no_files() {
    let cf = ColumnFamilyMetaData::from_levels(vec![]);
    assert_eq!(cf.get_levels().len(), 0);
    assert_eq!(cf.get_level_files_count(0), 0);
}

#[test]
fn files_come_out_in_order() {
    let cf = sample();
    let levels = cf.get_levels();
    let files = levels[2].get_files();
    let names: Vec<String> = files.iter().map(|f| f.get_name()).collect();
    assert_eq!(names, vec!["000007.sst", "000008.sst", "000009.sst"]);
    let sizes: Vec<usize> = files.iter().map(|f| f.get_size()).collect();
    assert_eq!(sizes, vec![10, 20, 30]);
    assert_eq!(files[2].get_smallestkey(), b"q");
    assert_eq!(files[2].get_largestkey(), b"zz");
}

#[test]
fn smallest_key_never_sorts_after_largest() {
    let cf = sample();
    for level in cf.get_levels() {
        for f in level.get_files() {
            assert!(f.get_smallestkey() <= f.get_largestkey());
        }
    }
}

#[test]
fn reversed_key_range_is_rejected() {
    assert!(SstFileMetaData::new(b"1.sst\0".to_vec(), 1, b"b".to_vec(), b"a".to_vec()).is_none());
    assert!(SstFileMetaData::new(b"1.sst\0".to_vec(), 1, b"ab".to_vec(), b"a".to_vec()).is_none());
    assert!(SstFileMetaData::new(b"1.sst\0".to_vec(), 1, b"a\xff".to_vec(), b"b".to_vec()).is_some());
}

#[test]
fn equal_keys_form_a_range() {
    let f = file(b"2.sst\0", 7, b"k_0200", b"k_0200");
    assert_eq!(f.get_smallestkey(), b"k_0200");
    assert_eq!(f.get_largestkey(), b"k_0200");
    let e = file(b"3.sst\0", 0, b"", b"");
    assert_eq!(e.get_smallestkey(), b"");
    assert_eq!(e.get_largestkey(), b"");
}

#[test]
fn binary_keys_keep_their_bytes() {
    let f = file(b"4.sst\0", 3, b"\x00\x01\x00", b"\x00\x01\xff\x00");
    assert_eq!(f.get_smallestkey(), &[0u8, 1, 0][..]);
    assert_eq!(f.get_largestkey(), &[0u8, 1, 255, 0][..]);
}

#[test]
fn key_order_is_byte_lexicographic() {
    assert!(key_le_exec(b"", b""));
    assert!(key_le_exec(b"", b"a"));
    assert!(!key_le_exec(b"a", b""));
    assert!(key_le_exec(b"abc", b"abd"));
    assert!(!key_le_exec(b"abd", b"abc"));
    assert!(key_le_exec(b"ab", b"abc"));
    assert!(!key_le_exec(b"abc", b"ab"));
    assert!(key_le_exec(b"\x7f", b"\x80"));
    assert!(key_le_exec(b"k_0200", b"k_0201"));
}

#[test]
fn name_stops_at_terminator() {
    assert_eq!(name_bytes(b"000012.sst\0junk"), b"000012.sst".to_vec());
    assert_eq!(name_bytes(b"no_terminator"), b"no_terminator".to_vec());
    assert_eq!(name_bytes(b"\0after"), Vec::<u8>::new());
    assert_eq!(name_bytes(b""), Vec::<u8>::new());
    assert_eq!(decode_name(b"/db/000012.sst\0\0"), "/db/000012.sst");
}

#[test]
fn name_decoding_replaces_invalid_bytes() {
    assert_eq!(decode_name(b"\xff.sst\0"), "\u{FFFD}.sst");
    assert_eq!(decode_name(b"a\xc3\0"), "a\u{FFFD}");
    let f = file(b"\xe9t\xc3\xa9.sst\0", 1, b"a", b"b");
    assert_eq!(f.get_name(), "\u{FFFD}t\u{e9}.sst");
}

#[test]
fn empty_name_decodes_to_empty_text() {
    let f = file(b"\0", 1, b"a", b"b");
    assert_eq!(f.get_name(), "");
}
