use rvpacker_txt::types::{file_name_key, Code, Labels, Variable, FILE_FLAGS_NAME_ERROR};
use rvpacker_txt::{CommentPos, EngineType, FileFlags, ProcessedData, RPGMFileType, TranslationEntry};

#[test]
fn file_type_from_filename() {
    assert_eq!(RPGMFileType::from_filename("Actors.json"), RPGMFileType::Actors);
    assert_eq!(RPGMFileType::from_filename("armors.rvdata2"), RPGMFileType::Armors);
    assert_eq!(RPGMFileType::from_filename("CLASSES.rxdata"), RPGMFileType::Classes);
    assert_eq!(RPGMFileType::from_filename("CommonEvents.json"), RPGMFileType::Events);
    assert_eq!(RPGMFileType::from_filename("Enemies.json"), RPGMFileType::Enemies);
    assert_eq!(RPGMFileType::from_filename("Items.json"), RPGMFileType::Items);
    assert_eq!(RPGMFileType::from_filename("Map001.json"), RPGMFileType::Maps);
    assert_eq!(RPGMFileType::from_filename("MapInfos.json"), RPGMFileType::Maps);
    assert_eq!(RPGMFileType::from_filename("Skills.json"), RPGMFileType::Skills);
    assert_eq!(RPGMFileType::from_filename("States.json"), RPGMFileType::States);
    assert_eq!(RPGMFileType::from_filename("System.json"), RPGMFileType::System);
    assert_eq!(RPGMFileType::from_filename("Troops.json"), RPGMFileType::Troops);
    assert_eq!(RPGMFileType::from_filename("Weapons.json"), RPGMFileType::Weapons);
    assert_eq!(RPGMFileType::from_filename("Scripts.rvdata2"), RPGMFileType::Scripts);
    assert_eq!(RPGMFileType::from_filename("plugins.js"), RPGMFileType::Plugins);
    assert_eq!(RPGMFileType::from_filename("Tilesets.json"), RPGMFileType::Invalid);
    assert_eq!(RPGMFileType::from_filename("ma"), RPGMFileType::Invalid);
    assert_eq!(RPGMFileType::from_filename(""), RPGMFileType::Invalid);
    // Three bytes that are one character.
    assert_eq!(RPGMFileType::from_filename("日本"), RPGMFileType::Invalid);
}

#[test]
fn file_name_keys() {
    assert_eq!(file_name_key("MAP001"), Some(('m', 'a', 'p')));
    assert_eq!(file_name_key("ab"), None);
    assert_eq!(file_name_key("aé"), None);
}

#[test]
fn file_type_groups() {
    assert!(RPGMFileType::Actors.is_other() && RPGMFileType::Events.is_other());
    assert!(!RPGMFileType::Maps.is_other() && !RPGMFileType::System.is_other());
    assert!(RPGMFileType::Maps.is_main() && RPGMFileType::Troops.is_main());
    assert!(!RPGMFileType::Scripts.is_main());
    assert!(RPGMFileType::System.is_misc() && RPGMFileType::Plugins.is_misc());
    assert!(RPGMFileType::Scripts.is_misc() && !RPGMFileType::Items.is_misc());
    assert!(RPGMFileType::default_type().is_invalid());
    assert_eq!(RPGMFileType::Maps.to_str(), "Map");
    assert_eq!(RPGMFileType::Events.to_str(), "Events");
}

#[test]
fn file_type_bytes() {
    assert_eq!(RPGMFileType::Invalid.to_u8(), 0);
    assert_eq!(RPGMFileType::Maps.to_u8(), 7);
    assert_eq!(RPGMFileType::Plugins.to_u8(), 14);
    for v in 0u8..=14 {
        assert_eq!(RPGMFileType::try_from_u8(v).unwrap().to_u8(), v);
    }
    assert_eq!(RPGMFileType::try_from_u8(15), Err(15));
}

#[test]
fn file_flags_from_filename() {
    assert_eq!(FileFlags::from_filename("Map002.rvdata2").unwrap().bits(), 1);
    assert_eq!(FileFlags::from_filename("CommonEvents.json").unwrap().bits(), 16);
    assert_eq!(FileFlags::from_filename("Scripts.rxdata").unwrap().bits(), 4096);
    assert_eq!(FileFlags::from_filename("plugins.js").unwrap().bits(), 4096);
    assert_eq!(FileFlags::from_filename("SYSTEM.json").unwrap().bits(), 2048);
    assert_eq!(FileFlags::from_filename("Tilesets.json"), Err(FILE_FLAGS_NAME_ERROR));
    assert_eq!(FileFlags::from_filename("ab"), Err(FILE_FLAGS_NAME_ERROR));
}

#[test]
fn engine_type_names() {
    assert_eq!(EngineType::from_extension("json"), Some(EngineType::New));
    assert_eq!(EngineType::from_extension("rxdata"), Some(EngineType::XP));
    assert_eq!(EngineType::from_extension("rvdata"), Some(EngineType::VX));
    assert_eq!(EngineType::from_extension("rvdata2"), Some(EngineType::VXAce));
    assert_eq!(EngineType::from_extension("txt"), None);
    for e in [EngineType::New, EngineType::VXAce, EngineType::VX, EngineType::XP] {
        assert_eq!(EngineType::from_extension(e.extension()), Some(e));
        assert_eq!(EngineType::try_from_u8(e.to_u8()), Ok(e));
    }
    assert_eq!(EngineType::New.to_str(), "MV/MZ");
    assert_eq!(EngineType::VXAce.to_str(), "VX Ace");
    assert_eq!(EngineType::VX.to_str(), "VX");
    assert_eq!(EngineType::XP.to_str(), "XP");
    assert_eq!(EngineType::try_from_u8(4), Err(4));
    assert!(EngineType::default_type().is_new());
    assert!(EngineType::XP.is_xp() && EngineType::VX.is_vx() && EngineType::VXAce.is_vx_ace());
}

#[test]
fn labels_per_engine() {
    let d = Labels::default_labels();
    assert_eq!(d.equip_types, "equipTypes");
    assert_eq!(d.display_name, "");
    assert_eq!(d.currency_unit, "currency_unit");
    let n = Labels::new(EngineType::New);
    assert_eq!(n.display_name, "displayName");
    assert_eq!(n.game_title, "gameTitle");
    assert_eq!(n.terms, "terms");
    assert_eq!(n.events, "events");
    let x = Labels::new(EngineType::XP);
    assert_eq!(x.terms, "words");
    assert_eq!(x.armor_types, "armor_types");
    let a = Labels::new(EngineType::VXAce);
    assert_eq!(a.terms, "terms");
    assert_eq!(a.weapon_types, "weapon_types");
    assert_eq!(a.equip_types, "equipTypes");
}

#[test]
fn codes_and_variables() {
    assert_eq!(Code::from_number(401), Code::Dialogue);
    assert_eq!(Code::from_number(655), Code::Shop);
    assert_eq!(Code::from_number(7), Code::Bad);
    assert!(Code::from_number(320).is_any_misc() && Code::from_number(324).is_any_misc());
    assert!(!Code::from_number(356).is_any_misc());
    assert!(Code::from_number(101).is_any_dialogue() && Code::from_number(405).is_any_dialogue());
    assert!(!Code::from_number(102).is_any_dialogue());
    assert!(Variable::Message3.is_any_message() && !Variable::Note.is_any_message());
}

#[test]
fn processed_data_bytes() {
    let a = ProcessedData::RPGMData(vec![1, 2, 3]);
    let b = ProcessedData::TranslationData(vec![9]);
    assert_eq!(a.as_bytes(), &[1, 2, 3]);
    assert_eq!(b.as_bytes(), &[9]);
}

#[test]
fn translation_entries() {
    let e = TranslationEntry::from_text("hello");
    assert_eq!(e.text(), "hello");
    assert!(e.comments.is_empty());
    let f = TranslationEntry::from_string(String::from("bye"));
    assert_eq!(f.translation, "bye");
    assert!(TranslationEntry::empty().translation.is_empty());
}

#[test]
fn comment_positions() {
    let name = "<!-- NAME -->";
    let order = "<!-- ORDER -->";
    let display = "<!-- DISPLAY: ";
    assert_eq!(CommentPos::from_str("<!-- NAME --> x", name, order, display), CommentPos::Name);
    assert_eq!(CommentPos::from_str("<!-- ORDER -->", name, order, display), CommentPos::Order);
    assert_eq!(CommentPos::from_str("<!-- DISPLAY: Town", name, order, display), CommentPos::DisplayName);
    assert_eq!(CommentPos::from_str("plain text", name, order, display), CommentPos::Plain);
}

#[test]
fn file_flag_follows_file_type() {
    let names = [
        "Actors.json", "Armors.json", "Classes.json", "CommonEvents.json", "Enemies.json",
        "Items.json", "Map012.json", "Skills.json", "States.json", "System.json", "Troops.json",
        "Weapons.json", "Scripts.rvdata2", "plugins.js", "Tilesets.json", "Animations.json", "x",
    ];
    let expected: [u16; 17] = [2, 4, 8, 16, 32, 64, 1, 128, 256, 2048, 512, 1024, 4096, 4096, 0, 0, 0];
    for (name, bits) in names.iter().zip(expected) {
        let t = RPGMFileType::from_filename(name);
        match FileFlags::from_filename(name) {
            Ok(f) => {
                assert!(t != RPGMFileType::Invalid);
                assert_eq!(f.bits(), bits);
            }
            Err(_) => {
                assert_eq!(t, RPGMFileType::Invalid);
                assert_eq!(bits, 0);
            }
        }
        let other = FileFlags::other().bits();
        assert_eq!(t.is_other(), bits & other != 0);
        assert_eq!(t.is_misc(), bits & 6144 != 0);
    }
}

#[test]
fn default_values() {
    assert_eq!(RPGMFileType::default(), RPGMFileType::Invalid);
    assert_eq!(EngineType::default(), EngineType::New);
    assert_eq!(u8::from(RPGMFileType::Plugins), 14);
    assert_eq!(RPGMFileType::try_from(3u8), Ok(RPGMFileType::Classes));
    assert_eq!(EngineType::try_from(2u8), Ok(EngineType::VX));
    assert_eq!(u8::from(EngineType::XP), 3);
}

#[test]
fn std_conversions() {
    let d = Labels::default();
    assert_eq!(d.equip_types, "equipTypes");
    assert_eq!(d.display_name, "");
    assert_eq!(Code::from(102u16), Code::ChoiceArray);
    let c: Code = 999u16.into();
    assert_eq!(c, Code::Bad);
}
