use microvm::chunks::{
    chunk_file_name, chunk_size_in_bytes, chunk_to_write, digest_name, BlockMapping, Chunk,
};
use microvm::text::parse_usize;

const ABCD: &str = "88d4266fd4e6338d13b845fcf289579d209c897823b9217da3e161936f031589";
const EF: &str = "6467b00bfe876a47c4874fed649fc0ece26eff2ffb0df6546ef39419450b1068";
const ABC: &str = "ba7816bf8f01cfea414140de5dae2223b00361a396177a9cb410ff61f20015ad";

#[test]
fn file_is_cut_into_padded_chunks_named_by_their_digest() {
    let mut mapping = BlockMapping::new();
    let chunks = mapping.add_file("d/file", &b"abcdef".to_vec(), 4);
    assert_eq!(
        chunks,
        vec![
            Chunk { name: ABCD.to_string(), data: b"abcd".to_vec() },
            Chunk { name: EF.to_string(), data: b"ef\0\0".to_vec() },
        ]
    );
    assert_eq!(
        mapping.blocks,
        vec![
            ("d/file".to_string(), 0, ABCD.to_string()),
            ("d/file".to_string(), 1, EF.to_string()),
        ]
    );
    assert_eq!(mapping.lengths, vec![("d/file".to_string(), 6)]);
}

#[test]
fn file_of_whole_chunks_is_not_padded() {
    let mut mapping = BlockMapping::new();
    let chunks = mapping.add_file("a", &b"abcabc".to_vec(), 3);
    assert_eq!(chunks.len(), 2);
    assert_eq!(chunks[0].name, ABC);
    assert_eq!(chunks[0], chunks[1]);
}

#[test]
fn empty_file_has_no_chunk() {
    let mut mapping = BlockMapping::new();
    assert!(mapping.add_file("a", &vec![], 512 * 1024).is_empty());
    assert!(mapping.blocks.is_empty());
    assert_eq!(mapping.lengths, vec![("a".to_string(), 0)]);
}

#[test]
fn same_bytes_have_the_same_name_in_every_file() {
    let mut mapping = BlockMapping::new();
    let first = mapping.add_file("a", &b"abcd....".to_vec(), 4);
    let second = mapping.add_file("b", &b"----abcd".to_vec(), 4);
    assert_eq!(first[0], second[1]);
    assert_ne!(first[1].name, second[0].name);
}

#[test]
fn file_is_reconstructed_from_mapping_and_chunks() {
    let mut mapping = BlockMapping::new();
    let mut store: Vec<Chunk> = Vec::new();
    let files = [("a", "hello, world"), ("b", "hell"), ("c", "hello, again"), ("d", ""), ("e", "\0")];
    for (path, content) in files {
        for chunk in mapping.add_file(path, &content.as_bytes().to_vec(), 5) {
            let taken = store.iter().any(|known| known.name == chunk.name);
            store.extend(chunk_to_write(chunk, taken));
        }
    }
    for (path, content) in files {
        let mut bytes: Vec<u8> = Vec::new();
        for (_, _, name) in mapping.blocks.iter().filter(|block| block.0 == path) {
            bytes.extend(&store.iter().find(|chunk| chunk.name == *name).unwrap().data);
        }
        let length = mapping.lengths.iter().find(|file| file.0 == path).unwrap().1;
        assert!(bytes[length..].iter().all(|&b| b == 0));
        assert_eq!(bytes.len() % 5, 0);
        bytes.truncate(length);
        assert_eq!(bytes, content.as_bytes());
    }
    assert!(mapping.lengths.iter().all(|file| file.0 != "f"));
    // The first chunk of `a` and of `c` is the same one.
    assert_eq!(store.len(), mapping.blocks.len() - 1);
}

#[test]
fn mappings_of_different_contents_differ() {
    let mut short = BlockMapping::new();
    let mut long = BlockMapping::new();
    assert_eq!(short.add_file("a", &vec![1], 4), long.add_file("a", &vec![1, 0], 4));
    assert_eq!(short.blocks, long.blocks);
    assert_ne!(short, long);
    assert_ne!(short.to_json().unwrap(), long.to_json().unwrap());
}

#[test]
fn blocks_are_in_the_order_of_path_and_number() {
    let mut mapping = BlockMapping::new();
    for (path, content) in [("a", "12345"), ("b", ""), ("b/c", "123"), ("d", "1")] {
        mapping.add_file(path, &content.as_bytes().to_vec(), 2);
    }
    let places: Vec<(&str, usize)> =
        mapping.blocks.iter().map(|block| (block.0.as_str(), block.1)).collect();
    let mut sorted = places.clone();
    sorted.sort();
    sorted.dedup();
    assert_eq!(places, sorted);
    assert_eq!(places.len(), 6);
}

#[test]
fn chunk_is_written_once() {
    let chunk = || Chunk { name: ABC.to_string(), data: b"abc".to_vec() };
    assert_eq!(chunk_to_write(chunk(), false), Some(chunk()));
    assert_eq!(chunk_to_write(chunk(), true), None);
}

#[test]
fn mapping_is_stored_as_indented_json() {
    let mut mapping = BlockMapping::new();
    assert_eq!(mapping.to_json().unwrap(), "[\n  [],\n  []\n]");
    mapping.add_file("a \"b\"", &b"abc".to_vec(), 3);
    assert_eq!(
        mapping.to_json().unwrap(),
        format!(
            "[\n  [\n    [\n      \"a \\\"b\\\"\",\n      0,\n      \"{ABC}\"\n    ]\n  ],\n  \
             [\n    [\n      \"a \\\"b\\\"\",\n      3\n    ]\n  ]\n]"
        )
    );
    let read: (Vec<(String, usize, String)>, Vec<(String, usize)>) =
        serde_json::from_str(&mapping.to_json().unwrap()).unwrap();
    assert_eq!(read, (mapping.blocks, mapping.lengths));
}

#[test]
fn digest_is_written_in_lower_case() {
    let mut digest = [0u8; 32];
    digest[0] = 0x0f;
    digest[31] = 0xa9;
    let name = digest_name(&digest);
    assert_eq!(name.len(), 64);
    assert!(name.starts_with("0f00"));
    assert!(name.ends_with("00a9"));
}

#[test]
fn chunk_file_has_a_suffix() {
    assert_eq!(chunk_file_name(ABC), format!("{ABC}.chunk"));
}

#[test]
fn chunk_size_is_given_in_kilobytes() {
    assert_eq!(chunk_size_in_bytes(512), 524288);
    assert_eq!(chunk_size_in_bytes(0), 0);
    assert_eq!(parse_usize("512"), Some(512));
    assert_eq!(parse_usize("+007"), Some(7));
    assert_eq!(parse_usize("18446744073709551615"), Some(usize::MAX));
    for text in ["", "+", "-1", "++1", " 1", "1k", "18446744073709551616", "99999999999999999999999"] {
        assert_eq!(parse_usize(text), None);
        assert!(text.parse::<usize>().is_err());
    }
}
