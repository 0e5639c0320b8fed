use rvpacker_txt::json::{generate_file, generated_name, is_generated_file, skips_generation, write_file, DataError};
use std::io::Write;
use rvpacker_txt::text::with_extension_of;

// A Marshal stream of the array [1, 2, 3].
const ARRAY_STREAM: [u8; 10] = [0x04, 0x08, 0x5b, 0x08, 0x69, 0x06, 0x69, 0x07, 0x69, 0x08];

#[test]
fn generate_file_gives_json() {
    let text = generate_file(&ARRAY_STREAM, "Actors.rvdata2").ok().unwrap();
    assert!(text.contains('1') && text.contains('3'));
    assert_ne!(text.as_bytes(), &ARRAY_STREAM[..]);
}

#[test]
fn generate_file_refuses_other_bytes() {
    assert!(matches!(generate_file(b"not marshal", "Items.rxdata"), Err(DataError::MarshalLoad(_))));
}

#[test]
fn write_file_reverses_generate_file() {
    let text = generate_file(&ARRAY_STREAM, "Map001.rvdata2").ok().unwrap();
    let bytes = write_file(&text).ok().unwrap();
    assert_eq!(bytes, ARRAY_STREAM.to_vec());
}

#[test]
fn write_file_refuses_other_text() {
    assert!(matches!(write_file("{ not json"), Err(DataError::JsonParse(_))));
}

#[test]
fn generated_names() {
    assert_eq!(generated_name("Actors.rvdata2"), "Actors.json");
    assert_eq!(generated_name("Scripts.rxdata"), "Scripts.rb");
    assert_eq!(generated_name("Map001"), "Map001.json");
    assert!(skips_generation(false, true));
    assert!(!skips_generation(true, true));
    assert!(!skips_generation(false, false));
}

#[test]
fn file_name_extensions() {
    assert_eq!(with_extension_of("a.b.c", "txt"), "a.b.txt");
    assert_eq!(with_extension_of(".hidden", "txt"), ".hidden.txt");
    assert_eq!(with_extension_of("name.", "txt"), "name.txt");
    assert_eq!(with_extension_of("name.json", ""), "name");
    assert_eq!(with_extension_of("..", "txt"), "..");
    assert_eq!(with_extension_of("", "txt"), "");
}

fn zlib(data: &[u8]) -> Vec<u8> {
    let mut e = flate2::write::ZlibEncoder::new(Vec::new(), flate2::Compression::default());
    e.write_all(data).unwrap();
    e.finish().unwrap()
}

fn scripts_stream(entries: &[(i32, &str, &[u8])]) -> Vec<u8> {
    let mut arena = marshal_rs::Arena::builder();
    let mut ids = Vec::new();
    for (number, name, code) in entries {
        let n = arena.push_fixnum(*number);
        let s = arena.push_string(name.to_string());
        let c = arena.push_bytes(code.to_vec());
        ids.push(arena.push_array(&[n, s, c]).unwrap());
    }
    let root = arena.push_array(&ids).unwrap();
    assert!(arena.set_root(root));
    marshal_rs::dump(&arena)
}

#[test]
fn generate_file_gives_scripts_text() {
    let bytes = scripts_stream(&[(7, "Main", &zlib(b"puts 1\r\nputs 2")), (-3, "Game_Temp", &zlib(b"x = 1\n"))]);
    let text = generate_file(&bytes, "Scripts.rvdata2").ok().unwrap();
    assert_eq!(text, "<!-- SCRIPT: 7, Main -->\nputs 1\nputs 2\n<!-- SCRIPT: -3, Game_Temp -->\nx = 1\n");
}

#[test]
fn generate_file_refuses_malformed_scripts() {
    let bytes = scripts_stream(&[(1, "A", b"not zlib")]);
    assert!(matches!(generate_file(&bytes, "Scripts.rxdata"), Err(DataError::InvalidScripts)));
    assert!(matches!(generate_file(b"junk", "Scripts.rxdata"), Err(DataError::MarshalLoad(_))));
    assert!(matches!(generate_file(&ARRAY_STREAM, "Scripts.rxdata"), Err(DataError::InvalidScripts)));
}

#[test]
fn generated_files_are_chosen_by_extension() {
    assert!(is_generated_file("Actors.json"));
    assert!(is_generated_file("Scripts.rb"));
    assert!(!is_generated_file("Actors.rvdata2"));
    assert!(!is_generated_file("json"));
    assert!(!is_generated_file(".json"));
}
