use std::io::Write;

use transcribe_rs::engines::kokoro::model::KokoroError;
use transcribe_rs::engines::kokoro::voices::{entry_voice, parse_npy, VoiceStore};
use zip::write::SimpleFileOptions;
use zip::ZipWriter;

/// An array file with the given header length and payload.
fn npy_file(header_len: u16, payload: &[u8]) -> Vec<u8> {
    let mut data = vec![0x93, b'N', b'U', b'M', b'P', b'Y', 1, 0];
    data.extend_from_slice(&header_len.to_le_bytes());
    data.extend(std::iter::repeat(b' ').take(header_len as usize));
    data.extend_from_slice(payload);
    data
}

/// The payload of `rows` style vectors; component `j` of row `i` is `i * 1000 + j`.
fn payload(rows: usize) -> Vec<u8> {
    let mut bytes = Vec::new();
    for i in 0..rows {
        for j in 0..256 {
            bytes.extend_from_slice(&((i * 1000 + j) as f32).to_le_bytes());
        }
    }
    bytes
}

fn component(style: &[u32; 256], j: usize) -> f32 {
    f32::from_bits(style[j])
}

fn archive(entries: &[(&str, Vec<u8>)], directories: &[&str]) -> Vec<u8> {
    let mut writer = ZipWriter::new(std::io::Cursor::new(Vec::new()));
    for dir in directories {
        writer.add_directory(*dir, SimpleFileOptions::default()).expect("directory");
    }
    for (name, data) in entries {
        writer.start_file(*name, SimpleFileOptions::default()).expect("entry");
        writer.write_all(data).expect("entry data");
    }
    writer.finish().expect("archive").into_inner()
}

fn parse_error(r: Result<Vec<[u32; 256]>, KokoroError>) -> String {
    match r {
        Err(KokoroError::VoiceParse(reason)) => reason,
        Err(other) => panic!("unexpected error {:?}", other),
        Ok(_) => panic!("expected a parse error"),
    }
}

fn load_error(r: Result<VoiceStore, KokoroError>) -> String {
    match r {
        Err(KokoroError::VoiceParse(reason)) => reason,
        Err(other) => panic!("unexpected error {:?}", other),
        Ok(_) => panic!("expected a parse error"),
    }
}

#[test]
fn parse_npy_reads_rows_of_little_endian_floats() {
    let data = npy_file(118, &payload(3));
    let styles = parse_npy(&data, "af_heart.npy").expect("valid array");
    assert_eq!(styles.len(), 3);
    for (i, style) in styles.iter().enumerate() {
        assert_eq!(style.len(), 256);
        for j in 0..256 {
            assert_eq!(component(style, j), (i * 1000 + j) as f32);
        }
    }
}

#[test]
fn parse_npy_word_is_little_endian() {
    let mut bytes = vec![0u8; 1024];
    bytes[0] = 0x01;
    bytes[1] = 0x02;
    bytes[2] = 0x03;
    bytes[3] = 0x04;
    bytes[1020] = 0xff;
    bytes[1021] = 0xff;
    bytes[1022] = 0xff;
    bytes[1023] = 0xff;
    let styles = parse_npy(&npy_file(0, &bytes), "v.npy").expect("valid array");
    assert_eq!(styles.len(), 1);
    assert_eq!(styles[0][0], 0x0403_0201);
    assert_eq!(styles[0][1], 0);
    assert_eq!(styles[0][255], 0xffff_ffff);
}

#[test]
fn parse_npy_accepts_an_empty_array() {
    let styles = parse_npy(&npy_file(70, &[]), "v.npy").expect("valid array");
    assert_eq!(styles.len(), 0);
}

#[test]
fn parse_npy_header_length_uses_both_bytes() {
    let data = npy_file(300, &payload(1));
    let styles = parse_npy(&data, "v.npy").expect("valid array");
    assert_eq!(styles.len(), 1);
    assert_eq!(component(&styles[0], 255), 255.0);
}

#[test]
fn parse_npy_rejects_short_files() {
    assert_eq!(parse_error(parse_npy(&[], "a.npy")), "a.npy: file too short (0 bytes)");
    assert_eq!(
        parse_error(parse_npy(&[0x93, b'N', b'U', b'M', b'P', b'Y', 1, 0, 0], "a.npy")),
        "a.npy: file too short (9 bytes)"
    );
}

#[test]
fn parse_npy_rejects_wrong_magic() {
    let mut data = npy_file(10, &payload(1));
    data[0] = 0x92;
    assert_eq!(parse_error(parse_npy(&data, "b.npy")), "b.npy: invalid numpy magic bytes");
    let mut data = npy_file(10, &payload(1));
    data[5] = b'X';
    assert_eq!(parse_error(parse_npy(&data, "b.npy")), "b.npy: invalid numpy magic bytes");
}

#[test]
fn parse_npy_rejects_truncated_header() {
    let mut data = npy_file(0, &[]);
    data[8] = 0x10;
    data[9] = 0x01;
    data.extend_from_slice(&[0u8; 5]);
    assert_eq!(
        parse_error(parse_npy(&data, "c.npy")),
        "c.npy: header truncated (need 282 bytes, got 15)"
    );
}

#[test]
fn parse_npy_rejects_payload_that_is_no_whole_number_of_floats() {
    let mut bytes = payload(1);
    bytes.push(0);
    assert_eq!(
        parse_error(parse_npy(&npy_file(4, &bytes), "d.npy")),
        "d.npy: float data length 1025 is not a multiple of 4"
    );
}

#[test]
fn parse_npy_rejects_payload_that_is_no_whole_number_of_rows() {
    let mut bytes = payload(2);
    bytes.extend_from_slice(&[0u8; 4]);
    assert_eq!(
        parse_error(parse_npy(&npy_file(4, &bytes), "d.npy")),
        "d.npy: float count 513 is not a multiple of 256 (style vector dim)"
    );
    assert_eq!(
        parse_error(parse_npy(&npy_file(4, &[0u8; 1020]), "e.npy")),
        "e.npy: float count 255 is not a multiple of 256 (style vector dim)"
    );
}

#[test]
fn entry_names_give_voice_names() {
    assert_eq!(entry_voice("af_heart.npy"), Some("af_heart".to_string()));
    assert_eq!(entry_voice("af_heart"), Some("af_heart".to_string()));
    assert_eq!(entry_voice("a.npy.npy"), Some("a".to_string()));
    assert_eq!(entry_voice("dir/a.npy"), Some("dir/a".to_string()));
    assert_eq!(entry_voice("a.npz"), Some("a.npz".to_string()));
    assert_eq!(entry_voice("voices/"), None);
    assert_eq!(entry_voice("a.npy/"), None);
    assert_eq!(entry_voice(".npy"), None);
    assert_eq!(entry_voice(""), None);
    assert_eq!(entry_voice("//"), None);
}

#[test]
fn store_returns_styles_and_clamps_the_index() {
    let mut store = VoiceStore::new();
    let styles = parse_npy(&npy_file(0, &payload(3)), "v.npy").expect("valid array");
    store.insert("af_heart".to_string(), styles);
    for idx in 0..3 {
        let style = store.get_style("af_heart", idx).expect("voice is loaded");
        assert_eq!(style.len(), 256);
        assert_eq!(component(&style, 0), (idx * 1000) as f32);
        assert_eq!(component(&style, 255), (idx * 1000 + 255) as f32);
    }
    let last = store.get_style("af_heart", 2).expect("voice is loaded");
    for idx in [3, 4, 510, 100_000, usize::MAX] {
        assert_eq!(store.get_style("af_heart", idx), Ok(last));
    }
}

#[test]
fn store_reports_unknown_voices() {
    let mut store = VoiceStore::new();
    assert_eq!(
        store.get_style("af_heart", 0),
        Err(KokoroError::VoiceNotFound("af_heart".to_string()))
    );
    store.insert("af_heart".to_string(), parse_npy(&npy_file(0, &payload(1)), "v").unwrap());
    assert_eq!(
        store.get_style("af_hear", 0),
        Err(KokoroError::VoiceNotFound("af_hear".to_string()))
    );
    assert_eq!(
        store.get_style("af_heart2", 0),
        Err(KokoroError::VoiceNotFound("af_heart2".to_string()))
    );
    assert!(store.get_style("af_heart", 7).is_ok());
}

#[test]
fn voice_without_styles_is_not_found() {
    let mut store = VoiceStore::new();
    store.insert("empty".to_string(), Vec::new());
    assert_eq!(store.list_voices(), vec!["empty"]);
    assert_eq!(
        store.get_style("empty", 0),
        Err(KokoroError::VoiceNotFound("empty".to_string()))
    );
}

#[test]
fn store_lists_voices_in_sorted_order() {
    let mut store = VoiceStore::new();
    assert_eq!(store.list_voices(), Vec::<&str>::new());
    for name in ["zf_xiaobei", "af_heart", "bm_george", "af", "af_bella", "\u{00e9}", "B"] {
        store.insert(name.to_string(), parse_npy(&npy_file(0, &payload(1)), name).unwrap());
    }
    let mut expected = vec!["zf_xiaobei", "af_heart", "bm_george", "af", "af_bella", "\u{00e9}", "B"];
    expected.sort_unstable();
    assert_eq!(store.list_voices(), expected);
    assert_eq!(
        store.list_voices(),
        vec!["B", "af", "af_bella", "af_heart", "bm_george", "zf_xiaobei", "\u{00e9}"]
    );
}

#[test]
fn inserting_a_voice_again_replaces_its_styles() {
    let mut store = VoiceStore::new();
    store.insert("v".to_string(), parse_npy(&npy_file(0, &payload(1)), "v").unwrap());
    store.insert("w".to_string(), parse_npy(&npy_file(0, &payload(1)), "w").unwrap());
    store.insert("v".to_string(), parse_npy(&npy_file(0, &payload(4)), "v").unwrap());
    assert_eq!(store.list_voices(), vec!["v", "w"]);
    assert_eq!(component(&store.get_style("v", 3).unwrap(), 1), 3001.0);
    assert_eq!(component(&store.get_style("w", 3).unwrap(), 1), 1.0);
}

#[test]
fn load_reads_every_array_entry() {
    let bytes = archive(
        &[
            ("bf_emma.npy", npy_file(118, &payload(2))),
            ("af_heart.npy", npy_file(118, &payload(5))),
        ],
        &["extra/"],
    );
    let store = VoiceStore::load(bytes).expect("valid archive");
    assert_eq!(store.list_voices(), vec!["af_heart", "bf_emma"]);
    assert_eq!(component(&store.get_style("af_heart", 4).unwrap(), 7), 4007.0);
    assert_eq!(component(&store.get_style("af_heart", 99).unwrap(), 7), 4007.0);
    assert_eq!(component(&store.get_style("bf_emma", 1).unwrap(), 0), 1000.0);
    assert_eq!(component(&store.get_style("bf_emma", 510).unwrap(), 0), 1000.0);
    assert_eq!(
        store.get_style("extra", 0),
        Err(KokoroError::VoiceNotFound("extra".to_string()))
    );
}

#[test]
fn load_accepts_an_archive_without_entries() {
    let store = VoiceStore::load(archive(&[], &[])).expect("valid archive");
    assert_eq!(store.list_voices(), Vec::<&str>::new());
}

#[test]
fn load_rejects_what_is_no_archive() {
    let reason = load_error(VoiceStore::load(b"this is not a zip file".to_vec()));
    assert!(reason.starts_with("Failed to open zip archive: "), "{}", reason);
    let reason = load_error(VoiceStore::load(Vec::new()));
    assert!(reason.starts_with("Failed to open zip archive: "), "{}", reason);
}

#[test]
fn load_rejects_an_entry_with_a_ragged_payload() {
    let mut ragged = payload(1);
    ragged.extend_from_slice(&[0u8; 512]);
    let bytes = archive(
        &[("af_heart.npy", npy_file(118, &payload(1))), ("bad.npy", npy_file(118, &ragged))],
        &[],
    );
    assert_eq!(
        load_error(VoiceStore::load(bytes)),
        "bad.npy: float count 384 is not a multiple of 256 (style vector dim)"
    );
    let bytes = archive(&[("odd.npy", npy_file(118, &[0u8; 1023]))], &[]);
    assert_eq!(
        load_error(VoiceStore::load(bytes)),
        "odd.npy: float data length 1023 is not a multiple of 4"
    );
}

#[test]
fn load_rejects_an_entry_that_is_no_array() {
    let bytes = archive(&[("readme.txt", b"voices for kokoro".to_vec())], &[]);
    assert_eq!(load_error(VoiceStore::load(bytes)), "readme.txt: invalid numpy magic bytes");
}

fn stored_archive(name: &str, data: &[u8]) -> Vec<u8> {
    let mut writer = ZipWriter::new(std::io::Cursor::new(Vec::new()));
    let options = SimpleFileOptions::default().compression_method(zip::CompressionMethod::Stored);
    writer.start_file(name, options).expect("entry");
    writer.write_all(data).expect("entry data");
    writer.finish().expect("archive").into_inner()
}

#[test]
fn load_reports_an_entry_that_cannot_be_opened() {
    let mut bytes = stored_archive("af_heart.npy", &npy_file(0, &payload(1)));
    // Break the signature of the entry's local header.
    assert_eq!(&bytes[..4], b"PK\x03\x04");
    bytes[0] = b'X';
    let reason = load_error(VoiceStore::load(bytes));
    assert!(reason.starts_with("Failed to read zip entry 0: "), "{}", reason);
    assert!(reason.len() > "Failed to read zip entry 0: ".len());
}

#[test]
fn load_reports_an_entry_that_cannot_be_read() {
    let data = npy_file(0, &payload(1));
    let mut bytes = stored_archive("af_heart.npy", &data);
    // Change a byte of the stored data: the checksum no longer matches.
    let at = bytes.windows(6).position(|w| w == &data[..6]).expect("stored data") + 100;
    bytes[at] ^= 0xff;
    let reason = load_error(VoiceStore::load(bytes));
    assert!(reason.starts_with("Failed to read af_heart.npy: "), "{}", reason);
    assert!(reason.len() > "Failed to read af_heart.npy: ".len());
}

#[test]
fn load_does_not_read_directories() {
    let store = VoiceStore::load(archive(&[("voices/af_heart.npy", npy_file(0, &payload(1)))], &["voices/"]))
        .expect("valid archive");
    assert_eq!(store.list_voices(), vec!["voices/af_heart"]);
}

#[test]
fn later_entry_replaces_an_earlier_voice_of_the_same_name() {
    let bytes = archive(
        &[("v.npy", npy_file(0, &payload(1))), ("v.npy.npy", npy_file(0, &payload(3)))],
        &[],
    );
    let store = VoiceStore::load(bytes).expect("valid archive");
    assert_eq!(store.list_voices(), vec!["v"]);
    assert_eq!(component(&store.get_style("v", 2).unwrap(), 0), 2000.0);
}
