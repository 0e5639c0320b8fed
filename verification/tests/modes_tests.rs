use rvpacker_txt::text::str_equals;
use rvpacker_txt::modes::{
    DUPLICATE_MODE_NAME_ERROR, MODE_BYTE_ERROR, READ_MODE_BYTE_ERROR,
    READ_MODE_NAME_ERROR,
};
use rvpacker_txt::{DuplicateMode, GameType, Mode, ReadMode};

#[test]
fn read_mode_bytes() {
    assert_eq!(ReadMode::Default { force: false }.to_u8(), 0);
    assert_eq!(ReadMode::Default { force: true }.to_u8(), 1);
    assert_eq!(ReadMode::Append { force: false }.to_u8(), 2);
    assert_eq!(ReadMode::Append { force: true }.to_u8(), 3);
    assert_eq!(u8::from(ReadMode::Append { force: true }), 3);
    for v in 0u8..=3 {
        let m = ReadMode::try_from_u8(v).unwrap();
        assert_eq!(m.to_u8(), v);
    }
    assert_eq!(ReadMode::try_from_u8(4), Err(READ_MODE_BYTE_ERROR));
    assert_eq!(ReadMode::try_from(255u8), Err("Expected a number from 0 to 3"));
}

#[test]
fn read_mode_names() {
    assert_eq!(ReadMode::parse("default"), Ok(ReadMode::Default { force: false }));
    assert_eq!(ReadMode::parse("append"), Ok(ReadMode::Append { force: false }));
    assert_eq!(ReadMode::parse("force"), Ok(ReadMode::Default { force: true }));
    assert_eq!(ReadMode::parse("force-append"), Ok(ReadMode::Append { force: true }));
    assert_eq!(ReadMode::parse("Force"), Err(READ_MODE_NAME_ERROR));
    assert_eq!(ReadMode::parse(""), Err(READ_MODE_NAME_ERROR));
}

#[test]
fn read_mode_predicates() {
    let df = ReadMode::Default { force: false };
    let dt = ReadMode::Default { force: true };
    let af = ReadMode::Append { force: false };
    let at = ReadMode::Append { force: true };
    assert!(df.is_default() && dt.is_default() && !af.is_default());
    assert!(af.is_append() && at.is_append() && !dt.is_append());
    assert!(df.is_default_default() && !dt.is_default_default());
    assert!(af.is_append_default() && !at.is_append_default());
    assert!(dt.is_force() && !df.is_force() && !at.is_force());
    assert!(at.is_force_append() && !af.is_force_append());
    assert_eq!(ReadMode::default_mode(), df);
}

#[test]
fn mode_bytes_and_collision() {
    assert_eq!(Mode::Write.to_u8(), 3);
    assert_eq!(Mode::Purge.to_u8(), 4);
    assert_eq!(Mode::Read(ReadMode::Default { force: true }).to_u8(), 1);
    // Reading in append mode with force shares its byte with writing.
    assert_eq!(Mode::Read(ReadMode::Append { force: true }).to_u8(), 3);
    assert_eq!(Mode::try_from_u8(3), Ok(Mode::Write));
    assert_eq!(Mode::try_from_u8(4), Ok(Mode::Purge));
    assert_eq!(Mode::try_from_u8(2), Ok(Mode::Read(ReadMode::Append { force: false })));
    assert_eq!(Mode::try_from_u8(0), Ok(Mode::Read(ReadMode::Default { force: false })));
    assert_eq!(Mode::try_from_u8(5), Err(MODE_BYTE_ERROR));
    assert_eq!(Mode::try_from(9u8), Err("invalid ReadMode value"));
    assert_eq!(u8::from(Mode::Purge), 4);
}

#[test]
fn mode_predicates() {
    let m = Mode::default_mode();
    assert!(m.is_read() && m.is_default() && m.is_default_default());
    assert!(!m.is_write() && !m.is_purge() && !m.is_append());
    assert!(Mode::Read(ReadMode::Append { force: true }).is_force_append());
    assert!(Mode::Read(ReadMode::Default { force: true }).is_force());
    assert!(Mode::Read(ReadMode::Append { force: false }).is_append_default());
    assert!(!Mode::Write.is_default() && !Mode::Write.is_append());
    assert!(Mode::Write.is_write() && Mode::Purge.is_purge());
    assert_eq!(Mode::variant_names(), ["read", "write", "purge"]);
}

#[test]
fn duplicate_mode_conversions() {
    assert_eq!(DuplicateMode::parse("allow"), Ok(DuplicateMode::Allow));
    assert_eq!(DuplicateMode::parse("remove"), Ok(DuplicateMode::Remove));
    assert_eq!(DuplicateMode::parse("Allow"), Err(DUPLICATE_MODE_NAME_ERROR));
    assert_eq!(DuplicateMode::Remove.to_u8(), 1);
    assert_eq!(DuplicateMode::try_from_u8(0), Ok(DuplicateMode::Allow));
    assert_eq!(DuplicateMode::try_from_u8(7), Err(7));
    assert!(DuplicateMode::default_mode().is_allow());
    assert!(DuplicateMode::Remove.is_remove());
    assert_eq!(DuplicateMode::variant_names(), ["allow", "remove"]);
}

#[test]
fn game_type_conversions() {
    assert_eq!(GameType::LisaRPG.to_u8(), 2);
    assert_eq!(GameType::try_from_u8(1), Ok(GameType::Termina));
    assert_eq!(GameType::try_from_u8(3), Err(3));
    assert!(GameType::default_type().is_standard());
    assert!(GameType::Termina.is_termina() && GameType::LisaRPG.is_lisa_rpg());
}

#[test]
fn string_equality() {
    assert!(str_equals("abc", "abc"));
    assert!(!str_equals("abc", "abd"));
    assert!(!str_equals("abc", "ab"));
    assert!(str_equals("", ""));
}

#[test]
fn mode_defaults_and_parsing_traits() {
    assert_eq!(Mode::default(), Mode::Read(ReadMode::Default { force: false }));
    assert_eq!(ReadMode::default(), ReadMode::Default { force: false });
    assert_eq!(DuplicateMode::default(), DuplicateMode::Allow);
    assert_eq!(GameType::default(), GameType::Standard);
    assert_eq!("force-append".parse::<ReadMode>(), Ok(ReadMode::Append { force: true }));
    assert_eq!("remove".parse::<DuplicateMode>(), Ok(DuplicateMode::Remove));
    assert_eq!(ReadMode::variant_names(), ["default", "append"]);
    assert_eq!(u8::from(GameType::Termina), 1);
    assert_eq!(GameType::try_from(2u8), Ok(GameType::LisaRPG));
    assert_eq!(DuplicateMode::try_from(1u8), Ok(DuplicateMode::Remove));
    assert_eq!(u8::from(DuplicateMode::Allow), 0);
}
