//! Kinds of RPG Maker files and engines, and the classification of file
//! names.
use vstd::prelude::*;
use crate::flags::FileFlags;
use crate::text::str_equals;
use crate::text::{chars_of, has_prefix, starts_with};

verus! {

/// The kind of an RPG Maker data file, as told by its name.
#[derive(Debug, Clone, Copy, PartialEq, Eq, Hash, Structural)]
pub enum RPGMFileType {
    Invalid,
    Actors,
    Armors,
    Classes,
    Events,
    Enemies,
    Items,
    Maps,
    Skills,
    States,
    System,
    Troops,
    Weapons,
    Scripts,
    Plugins,
}

/// The byte that stands for a file type: its position in the declaration,
/// from `0` for `Invalid` to `14` for `Plugins`.
pub open spec fn file_type_byte(t: RPGMFileType) -> u8 {
    match t {
        RPGMFileType::Invalid => 0,
        RPGMFileType::Actors => 1,
        RPGMFileType::Armors => 2,
        RPGMFileType::Classes => 3,
        RPGMFileType::Events => 4,
        RPGMFileType::Enemies => 5,
        RPGMFileType::Items => 6,
        RPGMFileType::Maps => 7,
        RPGMFileType::Skills => 8,
        RPGMFileType::States => 9,
        RPGMFileType::System => 10,
        RPGMFileType::Troops => 11,
        RPGMFileType::Weapons => 12,
        RPGMFileType::Scripts => 13,
        RPGMFileType::Plugins => 14,
    }
}

/// The file type that a byte stands for, if any.
pub open spec fn file_type_of_byte(v: u8) -> Option<RPGMFileType> {
    if v == 0 {
        Some(RPGMFileType::Invalid)
    } else if v == 1 {
        Some(RPGMFileType::Actors)
    } else if v == 2 {
        Some(RPGMFileType::Armors)
    } else if v == 3 {
        Some(RPGMFileType::Classes)
    } else if v == 4 {
        Some(RPGMFileType::Events)
    } else if v == 5 {
        Some(RPGMFileType::Enemies)
    } else if v == 6 {
        Some(RPGMFileType::Items)
    } else if v == 7 {
        Some(RPGMFileType::Maps)
    } else if v == 8 {
        Some(RPGMFileType::Skills)
    } else if v == 9 {
        Some(RPGMFileType::States)
    } else if v == 10 {
        Some(RPGMFileType::System)
    } else if v == 11 {
        Some(RPGMFileType::Troops)
    } else if v == 12 {
        Some(RPGMFileType::Weapons)
    } else if v == 13 {
        Some(RPGMFileType::Scripts)
    } else if v == 14 {
        Some(RPGMFileType::Plugins)
    } else {
        None
    }
}

/// ASCII case folding: `A` to `Z` become `a` to `z`; every other character
/// stays.
pub open spec fn ascii_lower(c: char) -> char {
    if 'A' <= c <= 'Z' {
        ((c as int) + 32) as char
    } else {
        c
    }
}

/// The lowercase first three characters of a file name, when the name has
/// three and they are ASCII. A name whose first three bytes are not three
/// ASCII characters matches no kind of file.
pub open spec fn name_key(s: Seq<char>) -> Option<(char, char, char)> {
    if s.len() >= 3 && (s[0] as int) < 128 && (s[1] as int) < 128 && (s[2] as int) < 128 {
        Some((ascii_lower(s[0]), ascii_lower(s[1]), ascii_lower(s[2])))
    } else {
        None
    }
}

/// Cutting the name after its third byte does not split a character (or
/// the name is shorter than three bytes).
pub open spec fn name_prefix_cuttable(s: &str) -> bool {
    let bytes = vstd::string::StringSliceAdditionalSpecFns::spec_bytes(s);
    bytes.len() < 3 || vstd::utf8::is_char_boundary(bytes, 3)
}

/// The file type of a three-letter key.
pub open spec fn file_type_of_key(k: (char, char, char)) -> RPGMFileType {
    match k {
        ('a', 'c', 't') => RPGMFileType::Actors,
        ('a', 'r', 'm') => RPGMFileType::Armors,
        ('c', 'l', 'a') => RPGMFileType::Classes,
        ('c', 'o', 'm') => RPGMFileType::Events,
        ('e', 'n', 'e') => RPGMFileType::Enemies,
        ('i', 't', 'e') => RPGMFileType::Items,
        ('m', 'a', 'p') => RPGMFileType::Maps,
        ('s', 'k', 'i') => RPGMFileType::Skills,
        ('s', 't', 'a') => RPGMFileType::States,
        ('s', 'y', 's') => RPGMFileType::System,
        ('t', 'r', 'o') => RPGMFileType::Troops,
        ('w', 'e', 'a') => RPGMFileType::Weapons,
        ('s', 'c', 'r') => RPGMFileType::Scripts,
        ('p', 'l', 'u') => RPGMFileType::Plugins,
        _ => RPGMFileType::Invalid,
    }
}

/// The file type of a file name.
pub open spec fn file_type_of_name(s: Seq<char>) -> RPGMFileType {
    match name_key(s) {
        Some(k) => file_type_of_key(k),
        None => RPGMFileType::Invalid,
    }
}

/// The file flag of a three-letter key, if any.
pub open spec fn file_flag_of_key(k: (char, char, char)) -> Option<u16> {
    match k {
        ('a', 'c', 't') => Some(2u16),
        ('a', 'r', 'm') => Some(4u16),
        ('c', 'l', 'a') => Some(8u16),
        ('c', 'o', 'm') => Some(16u16),
        ('e', 'n', 'e') => Some(32u16),
        ('i', 't', 'e') => Some(64u16),
        ('m', 'a', 'p') => Some(1u16),
        ('s', 'k', 'i') => Some(128u16),
        ('s', 't', 'a') => Some(256u16),
        ('s', 'y', 's') => Some(2048u16),
        ('t', 'r', 'o') => Some(512u16),
        ('w', 'e', 'a') => Some(1024u16),
        ('s', 'c', 'r') => Some(4096u16),
        ('p', 'l', 'u') => Some(4096u16),
        _ => None,
    }
}

/// The file flag that governs a file type: `CommonEvents` for events,
/// `Scripts` for both scripts and plugins, and none for `Invalid`.
pub open spec fn flag_of_file_type(t: RPGMFileType) -> u16 {
    match t {
        RPGMFileType::Invalid => 0,
        RPGMFileType::Actors => 2,
        RPGMFileType::Armors => 4,
        RPGMFileType::Classes => 8,
        RPGMFileType::Events => 16,
        RPGMFileType::Enemies => 32,
        RPGMFileType::Items => 64,
        RPGMFileType::Maps => 1,
        RPGMFileType::Skills => 128,
        RPGMFileType::States => 256,
        RPGMFileType::System => 2048,
        RPGMFileType::Troops => 512,
        RPGMFileType::Weapons => 1024,
        RPGMFileType::Scripts => 4096,
        RPGMFileType::Plugins => 4096,
    }
}

fn ascii_lower_char(c: char) -> (r: char)
    ensures
        r == ascii_lower(c),
{
    if 'A' <= c && c <= 'Z' {
        ((c as u8) + 32) as char
    } else {
        c
    }
}

/// The lowercase first three characters of a file name, when it has three
/// and they are ASCII.
pub fn file_name_key(s: &str) -> (r: Option<(char, char, char)>)
    ensures
        r == name_key(s@),
{
    if s.unicode_len() < 3 {
        return None;
    }
    let a = s.get_char(0);
    let b = s.get_char(1);
    let c = s.get_char(2);
    if (a as u32) < 128 && (b as u32) < 128 && (c as u32) < 128 {
        Some((ascii_lower_char(a), ascii_lower_char(b), ascii_lower_char(c)))
    } else {
        None
    }
}

impl RPGMFileType {
    /// The default: `Invalid`.
    pub fn default_type() -> (r: RPGMFileType)
        ensures
            r == RPGMFileType::Invalid,
    {
        RPGMFileType::Invalid
    }

    /// Encodes the file type as a byte.
    pub fn to_u8(self) -> (r: u8)
        ensures
            r == file_type_byte(self),
    {
        match self {
            RPGMFileType::Invalid => 0,
            RPGMFileType::Actors => 1,
            RPGMFileType::Armors => 2,
            RPGMFileType::Classes => 3,
            RPGMFileType::Events => 4,
            RPGMFileType::Enemies => 5,
            RPGMFileType::Items => 6,
            RPGMFileType::Maps => 7,
            RPGMFileType::Skills => 8,
            RPGMFileType::States => 9,
            RPGMFileType::System => 10,
            RPGMFileType::Troops => 11,
            RPGMFileType::Weapons => 12,
            RPGMFileType::Scripts => 13,
            RPGMFileType::Plugins => 14,
        }
    }

    /// Decodes a byte; any byte above `14` is handed back as the error.
    pub fn try_from_u8(value: u8) -> (r: Result<RPGMFileType, u8>)
        ensures
            match file_type_of_byte(value) {
                Some(t) => r == Ok::<RPGMFileType, u8>(t),
                None => r == Err::<RPGMFileType, u8>(value),
            },
    {
        match value {
            0 => Ok(RPGMFileType::Invalid),
            1 => Ok(RPGMFileType::Actors),
            2 => Ok(RPGMFileType::Armors),
            3 => Ok(RPGMFileType::Classes),
            4 => Ok(RPGMFileType::Events),
            5 => Ok(RPGMFileType::Enemies),
            6 => Ok(RPGMFileType::Items),
            7 => Ok(RPGMFileType::Maps),
            8 => Ok(RPGMFileType::Skills),
            9 => Ok(RPGMFileType::States),
            10 => Ok(RPGMFileType::System),
            11 => Ok(RPGMFileType::Troops),
            12 => Ok(RPGMFileType::Weapons),
            13 => Ok(RPGMFileType::Scripts),
            14 => Ok(RPGMFileType::Plugins),
            _ => Err(value),
        }
    }

    /// The file type of a three-letter key.
    pub fn from_key(k: (char, char, char)) -> (r: RPGMFileType)
        ensures
            r == file_type_of_key(k),
    {
        match k {
            ('a', 'c', 't') => RPGMFileType::Actors,
            ('a', 'r', 'm') => RPGMFileType::Armors,
            ('c', 'l', 'a') => RPGMFileType::Classes,
            ('c', 'o', 'm') => RPGMFileType::Events,
            ('e', 'n', 'e') => RPGMFileType::Enemies,
            ('i', 't', 'e') => RPGMFileType::Items,
            ('m', 'a', 'p') => RPGMFileType::Maps,
            ('s', 'k', 'i') => RPGMFileType::Skills,
            ('s', 't', 'a') => RPGMFileType::States,
            ('s', 'y', 's') => RPGMFileType::System,
            ('t', 'r', 'o') => RPGMFileType::Troops,
            ('w', 'e', 'a') => RPGMFileType::Weapons,
            ('s', 'c', 'r') => RPGMFileType::Scripts,
            ('p', 'l', 'u') => RPGMFileType::Plugins,
            _ => RPGMFileType::Invalid,
        }
    }

    /// Tells the kind of a file from the first three letters of its name,
    /// in any case: `act` for actors, `com` for common events, `plu` for
    /// plugins, and so on; `Invalid` for any other name.
    pub fn from_filename(filename: &str) -> (r: RPGMFileType)
        requires
            name_prefix_cuttable(filename),
        ensures
            r == file_type_of_name(filename@),
    {
        match file_name_key(filename) {
            Some(k) => RPGMFileType::from_key(k),
            None => RPGMFileType::Invalid,
        }
    }

    /// The name of the variant.
    pub fn to_str(self) -> (r: &'static str)
        ensures
            match self {
                RPGMFileType::Invalid => r@ == "Invalid"@,
                RPGMFileType::Actors => r@ == "Actors"@,
                RPGMFileType::Armors => r@ == "Armors"@,
                RPGMFileType::Classes => r@ == "Classes"@,
                RPGMFileType::Events => r@ == "Events"@,
                RPGMFileType::Enemies => r@ == "Enemies"@,
                RPGMFileType::Items => r@ == "Items"@,
                RPGMFileType::Maps => r@ == "Map"@,
                RPGMFileType::Skills => r@ == "Skills"@,
                RPGMFileType::States => r@ == "States"@,
                RPGMFileType::System => r@ == "System"@,
                RPGMFileType::Troops => r@ == "Troops"@,
                RPGMFileType::Weapons => r@ == "Weapons"@,
                RPGMFileType::Scripts => r@ == "Scripts"@,
                RPGMFileType::Plugins => r@ == "Plugins"@,
            },
    {
        match self {
            RPGMFileType::Invalid => "Invalid",
            RPGMFileType::Actors => "Actors",
            RPGMFileType::Armors => "Armors",
            RPGMFileType::Classes => "Classes",
            RPGMFileType::Events => "Events",
            RPGMFileType::Enemies => "Enemies",
            RPGMFileType::Items => "Items",
            RPGMFileType::Maps => "Map",
            RPGMFileType::Skills => "Skills",
            RPGMFileType::States => "States",
            RPGMFileType::System => "System",
            RPGMFileType::Troops => "Troops",
            RPGMFileType::Weapons => "Weapons",
            RPGMFileType::Scripts => "Scripts",
            RPGMFileType::Plugins => "Plugins",
        }
    }

    /// Actors, armors, classes, events, enemies, items, skills, states,
    /// troops or weapons.
    pub fn is_other(self) -> (r: bool)
        ensures
            r == (self is Actors || self is Armors || self is Classes || self is Events
                || self is Enemies || self is Items || self is Skills || self is States
                || self is Troops || self is Weapons),
    {
        matches!(
            self,
            RPGMFileType::Actors | RPGMFileType::Armors | RPGMFileType::Classes
                | RPGMFileType::Events | RPGMFileType::Enemies | RPGMFileType::Items
                | RPGMFileType::Skills | RPGMFileType::States | RPGMFileType::Troops
                | RPGMFileType::Weapons
        )
    }

    /// A map or an other file.
    pub fn is_main(self) -> (r: bool)
        ensures
            r == (self is Maps || (self is Actors || self is Armors || self is Classes
                || self is Events || self is Enemies || self is Items || self is Skills
                || self is States || self is Troops || self is Weapons)),
    {
        self.is_map() || self.is_other()
    }

    /// System, plugins or scripts.
    pub fn is_misc(self) -> (r: bool)
        ensures
            r == (self is System || self is Plugins || self is Scripts),
    {
        matches!(self, RPGMFileType::System | RPGMFileType::Plugins | RPGMFileType::Scripts)
    }

    pub fn is_invalid(self) -> (r: bool)
        ensures
            r == (self is Invalid),
    {
        matches!(self, RPGMFileType::Invalid)
    }

    pub fn is_actors(self) -> (r: bool)
        ensures
            r == (self is Actors),
    {
        matches!(self, RPGMFileType::Actors)
    }

    pub fn is_armors(self) -> (r: bool)
        ensures
            r == (self is Armors),
    {
        matches!(self, RPGMFileType::Armors)
    }

    pub fn is_classes(self) -> (r: bool)
        ensures
            r == (self is Classes),
    {
        matches!(self, RPGMFileType::Classes)
    }

    pub fn is_events(self) -> (r: bool)
        ensures
            r == (self is Events),
    {
        matches!(self, RPGMFileType::Events)
    }

    pub fn is_enemies(self) -> (r: bool)
        ensures
            r == (self is Enemies),
    {
        matches!(self, RPGMFileType::Enemies)
    }

    pub fn is_items(self) -> (r: bool)
        ensures
            r == (self is Items),
    {
        matches!(self, RPGMFileType::Items)
    }

    pub fn is_map(self) -> (r: bool)
        ensures
            r == (self is Maps),
    {
        matches!(self, RPGMFileType::Maps)
    }

    pub fn is_skills(self) -> (r: bool)
        ensures
            r == (self is Skills),
    {
        matches!(self, RPGMFileType::Skills)
    }

    pub fn is_states(self) -> (r: bool)
        ensures
            r == (self is States),
    {
        matches!(self, RPGMFileType::States)
    }

    pub fn is_system(self) -> (r: bool)
        ensures
            r == (self is System),
    {
        matches!(self, RPGMFileType::System)
    }

    pub fn is_troops(self) -> (r: bool)
        ensures
            r == (self is Troops),
    {
        matches!(self, RPGMFileType::Troops)
    }

    pub fn is_weapons(self) -> (r: bool)
        ensures
            r == (self is Weapons),
    {
        matches!(self, RPGMFileType::Weapons)
    }

    pub fn is_scripts(self) -> (r: bool)
        ensures
            r == (self is Scripts),
    {
        matches!(self, RPGMFileType::Scripts)
    }

    pub fn is_plugins(self) -> (r: bool)
        ensures
            r == (self is Plugins),
    {
        matches!(self, RPGMFileType::Plugins)
    }
}

/// The message of a name that no file flag stands for.
pub const FILE_FLAGS_NAME_ERROR: &'static str = "FileFlags require valid RPG Maker data file name to parse from.";

impl FileFlags {
    /// The flag of a file name, told by its first three letters as for
    /// `RPGMFileType::from_filename`, with `com` for common events and both
    /// `scr` and `plu` for scripts; an error for any other name.
    pub fn from_filename(filename: &str) -> (r: Result<FileFlags, &'static str>)
        requires
            name_prefix_cuttable(filename),
        ensures
            match name_key(filename@) {
                Some(k) => match file_flag_of_key(k) {
                    Some(b) => r is Ok && r->Ok_0@ == b,
                    None => r == Err::<FileFlags, &'static str>(FILE_FLAGS_NAME_ERROR),
                },
                None => r == Err::<FileFlags, &'static str>(FILE_FLAGS_NAME_ERROR),
            },
    {
        let k = match file_name_key(filename) {
            Some(k) => k,
            None => return Err(FILE_FLAGS_NAME_ERROR),
        };
        match k {
            ('a', 'c', 't') => Ok(FileFlags::actors()),
            ('a', 'r', 'm') => Ok(FileFlags::armors()),
            ('c', 'l', 'a') => Ok(FileFlags::classes()),
            ('c', 'o', 'm') => Ok(FileFlags::common_events()),
            ('e', 'n', 'e') => Ok(FileFlags::enemies()),
            ('i', 't', 'e') => Ok(FileFlags::items()),
            ('m', 'a', 'p') => Ok(FileFlags::map()),
            ('s', 'k', 'i') => Ok(FileFlags::skills()),
            ('s', 't', 'a') => Ok(FileFlags::states()),
            ('s', 'y', 's') => Ok(FileFlags::system()),
            ('t', 'r', 'o') => Ok(FileFlags::troops()),
            ('w', 'e', 'a') => Ok(FileFlags::weapons()),
            ('s', 'c', 'r') => Ok(FileFlags::scripts()),
            ('p', 'l', 'u') => Ok(FileFlags::scripts()),
            _ => Err(FILE_FLAGS_NAME_ERROR),
        }
    }
}

/// A file name has a file flag exactly when it names a kind of file, and
/// the flag is the one that governs that kind.
pub proof fn law_file_flag_matches_file_type(s: Seq<char>)
    ensures
        match name_key(s) {
            Some(k) => match file_flag_of_key(k) {
                Some(b) => file_type_of_name(s) !is Invalid && b == flag_of_file_type(file_type_of_name(s)),
                None => file_type_of_name(s) is Invalid,
            },
            None => file_type_of_name(s) is Invalid,
        },
{
}

/// The file types that `is_other` accepts are exactly those whose flag is
/// among `FileFlags::other()`, and `is_misc` those of the system and
/// scripts flags.
pub proof fn law_file_type_groups(t: RPGMFileType)
    ensures
        (t is Actors || t is Armors || t is Classes || t is Events || t is Enemies || t is Items
            || t is Skills || t is States || t is Troops || t is Weapons) <==> flag_of_file_type(t)
            & 2046 != 0,
        (t is System || t is Plugins || t is Scripts) <==> flag_of_file_type(t) & 6144 != 0,
        t is Maps <==> flag_of_file_type(t) & 1 != 0,
{
    let b = flag_of_file_type(t);
    assert(b == 0u16 ==> b & 2046 == 0 && b & 6144 == 0 && b & 1 == 0) by (bit_vector);
    assert(b == 1u16 ==> b & 2046 == 0 && b & 6144 == 0 && b & 1 != 0) by (bit_vector);
    assert((b == 2u16 || b == 4u16 || b == 8u16 || b == 16u16 || b == 32u16 || b == 64u16 || b == 128u16 || b == 256u16
        || b == 512u16 || b == 1024u16) ==> b & 2046 != 0 && b & 6144 == 0 && b & 1 == 0) by (bit_vector);
    assert((b == 2048u16 || b == 4096u16) ==> b & 2046 == 0 && b & 6144 != 0 && b & 1 == 0) by (bit_vector);
}

/// Encoding a file type as a byte and decoding it gives it back, and the
/// bytes that decode are exactly `0` to `14`, each the encoding of what it
/// decodes to.
pub proof fn law_file_type_byte_roundtrip(t: RPGMFileType, v: u8)
    ensures
        file_type_of_byte(file_type_byte(t)) == Some(t),
        file_type_of_byte(v) is Some <==> v <= 14,
        file_type_of_byte(v) matches Some(u) ==> file_type_byte(u) == v,
{
}


/// The engine of a game: MV/MZ (`New`), VX Ace, VX or XP.
#[derive(Debug, Clone, Copy, PartialEq, Eq, Hash, Structural)]
pub enum EngineType {
    New,
    VXAce,
    VX,
    XP,
}

/// The extension of the data files of an engine.
pub open spec fn engine_extension(e: EngineType) -> Seq<char> {
    match e {
        EngineType::New => "json"@,
        EngineType::VXAce => "rvdata2"@,
        EngineType::VX => "rvdata"@,
        EngineType::XP => "rxdata"@,
    }
}

/// The engine whose data files have the extension `ext`, if any.
pub open spec fn engine_of_extension(ext: Seq<char>) -> Option<EngineType> {
    if ext == "json"@ {
        Some(EngineType::New)
    } else if ext == "rxdata"@ {
        Some(EngineType::XP)
    } else if ext == "rvdata"@ {
        Some(EngineType::VX)
    } else if ext == "rvdata2"@ {
        Some(EngineType::VXAce)
    } else {
        None
    }
}

impl EngineType {
    /// The default: MV/MZ.
    pub fn default_type() -> (r: EngineType)
        ensures
            r == EngineType::New,
    {
        EngineType::New
    }

    /// `New` is `0`, `VXAce` is `1`, `VX` is `2`, `XP` is `3`.
    pub fn to_u8(self) -> (r: u8)
        ensures
            r == match self {
                EngineType::New => 0u8,
                EngineType::VXAce => 1u8,
                EngineType::VX => 2u8,
                EngineType::XP => 3u8,
            },
    {
        match self {
            EngineType::New => 0,
            EngineType::VXAce => 1,
            EngineType::VX => 2,
            EngineType::XP => 3,
        }
    }

    /// Decodes `0` to `3`; any other byte is handed back as the error.
    pub fn try_from_u8(value: u8) -> (r: Result<EngineType, u8>)
        ensures
            value == 0 ==> r == Ok::<EngineType, u8>(EngineType::New),
            value == 1 ==> r == Ok::<EngineType, u8>(EngineType::VXAce),
            value == 2 ==> r == Ok::<EngineType, u8>(EngineType::VX),
            value == 3 ==> r == Ok::<EngineType, u8>(EngineType::XP),
            value > 3 ==> r == Err::<EngineType, u8>(value),
    {
        match value {
            0 => Ok(EngineType::New),
            1 => Ok(EngineType::VXAce),
            2 => Ok(EngineType::VX),
            3 => Ok(EngineType::XP),
            _ => Err(value),
        }
    }

    /// The engine of a data-file extension: `json`, `rxdata`, `rvdata` or
    /// `rvdata2`.
    pub fn from_extension(extension: &str) -> (r: Option<EngineType>)
        ensures
            r == engine_of_extension(extension@),
    {
        if str_equals(extension, "json") {
            Some(EngineType::New)
        } else if str_equals(extension, "rxdata") {
            Some(EngineType::XP)
        } else if str_equals(extension, "rvdata") {
            Some(EngineType::VX)
        } else if str_equals(extension, "rvdata2") {
            Some(EngineType::VXAce)
        } else {
            None
        }
    }

    /// The display name of the engine.
    pub fn to_str(self) -> (r: &'static str)
        ensures
            self is New ==> r@ == "MV/MZ"@,
            self is VX ==> r@ == "VX"@,
            self is VXAce ==> r@ == "VX Ace"@,
            self is XP ==> r@ == "XP"@,
    {
        match self {
            EngineType::New => "MV/MZ",
            EngineType::VX => "VX",
            EngineType::VXAce => "VX Ace",
            EngineType::XP => "XP",
        }
    }

    /// The extension of the engine's data files.
    pub fn extension(self) -> (r: &'static str)
        ensures
            r@ == engine_extension(self),
    {
        match self {
            EngineType::New => "json",
            EngineType::VXAce => "rvdata2",
            EngineType::VX => "rvdata",
            EngineType::XP => "rxdata",
        }
    }

    pub fn is_new(self) -> (r: bool)
        ensures
            r == (self is New),
    {
        matches!(self, EngineType::New)
    }

    pub fn is_vx_ace(self) -> (r: bool)
        ensures
            r == (self is VXAce),
    {
        matches!(self, EngineType::VXAce)
    }

    pub fn is_vx(self) -> (r: bool)
        ensures
            r == (self is VX),
    {
        matches!(self, EngineType::VX)
    }

    pub fn is_xp(self) -> (r: bool)
        ensures
            r == (self is XP),
    {
        matches!(self, EngineType::XP)
    }
}

/// The extension of an engine's data files leads back to the engine.
pub proof fn law_engine_extension_roundtrip(e: EngineType)
    ensures
        engine_of_extension(engine_extension(e)) == Some(e),
{
    reveal_strlit("json");
    reveal_strlit("rxdata");
    reveal_strlit("rvdata");
    reveal_strlit("rvdata2");
    assert("json"@.len() == 4);
    assert("rxdata"@.len() == 6);
    assert("rvdata"@.len() == 6);
    assert("rvdata2"@.len() == 7);
    assert("rxdata"@[1] != "rvdata"@[1]);
}

/// Event command codes of the text a data file holds.
///
/// 401 is a dialogue line, 101 the start of one (XP only), 102 an array of
/// choices and 402 one choice of it (written only), 405 a credits line, 356
/// a system line, 320 and 324 lines used in game, and 655 a line shown in a
/// shop from an outside script. Any other number is `Bad`.
#[derive(Debug, Clone, Copy, PartialEq, Eq, Structural)]
pub enum Code {
    Dialogue,
    DialogueStart,
    Credit,
    ChoiceArray,
    Choice,
    System,
    Misc1,
    Misc2,
    Shop,
    Bad,
}

/// The code that an event command number stands for.
pub open spec fn code_of_number(v: u16) -> Code {
    if v == 401 {
        Code::Dialogue
    } else if v == 101 {
        Code::DialogueStart
    } else if v == 405 {
        Code::Credit
    } else if v == 102 {
        Code::ChoiceArray
    } else if v == 402 {
        Code::Choice
    } else if v == 356 {
        Code::System
    } else if v == 320 {
        Code::Misc1
    } else if v == 324 {
        Code::Misc2
    } else if v == 655 {
        Code::Shop
    } else {
        Code::Bad
    }
}

impl Code {
    /// The code of an event command number; `Bad` for an unknown one.
    pub fn from_number(v: u16) -> (r: Code)
        ensures
            r == code_of_number(v),
    {
        match v {
            401 => Code::Dialogue,
            101 => Code::DialogueStart,
            405 => Code::Credit,
            102 => Code::ChoiceArray,
            402 => Code::Choice,
            356 => Code::System,
            320 => Code::Misc1,
            324 => Code::Misc2,
            655 => Code::Shop,
            _ => Code::Bad,
        }
    }

    /// One of the two in-game line codes.
    pub fn is_any_misc(self) -> (r: bool)
        ensures
            r == (self is Misc1 || self is Misc2),
    {
        matches!(self, Code::Misc1 | Code::Misc2)
    }

    /// A dialogue line, the start of one, or a credits line.
    pub fn is_any_dialogue(self) -> (r: bool)
        ensures
            r == (self is Dialogue || self is DialogueStart || self is Credit),
    {
        matches!(self, Code::Dialogue | Code::DialogueStart | Code::Credit)
    }
}

/// The text fields of database entries.
#[derive(Debug, Clone, Copy, PartialEq, Eq, Structural)]
pub enum Variable {
    Name,
    Nickname,
    Description,
    Message1,
    Message2,
    Message3,
    Message4,
    Note,
}

impl Variable {
    /// One of the four message fields.
    pub fn is_any_message(self) -> (r: bool)
        ensures
            r == (self is Message1 || self is Message2 || self is Message3 || self is Message4),
    {
        matches!(self, Variable::Message1 | Variable::Message2 | Variable::Message3 | Variable::Message4)
    }
}

/// The keys that all engines share; the engine-specific ones are empty,
/// except `equipTypes`.
pub open spec fn is_default_labels(r: Labels) -> bool {
    &&& r.display_name@ == ""@
    &&& r.events@ == "events"@
    &&& r.pages@ == "pages"@
    &&& r.list@ == "list"@
    &&& r.code@ == "code"@
    &&& r.parameters@ == "parameters"@
    &&& r.name@ == "name"@
    &&& r.nickname@ == "nickname"@
    &&& r.description@ == "description"@
    &&& r.message1@ == "message1"@
    &&& r.message2@ == "message2"@
    &&& r.message3@ == "message3"@
    &&& r.message4@ == "message4"@
    &&& r.note@ == "note"@
    &&& r.armor_types@ == ""@
    &&& r.elements@ == "elements"@
    &&& r.skill_types@ == ""@
    &&& r.terms@ == ""@
    &&& r.weapon_types@ == ""@
    &&& r.game_title@ == ""@
    &&& r.equip_types@ == "equipTypes"@
    &&& r.currency_unit@ == "currency_unit"@
}

/// The keys under which an engine's data files keep their fields.
#[derive(Clone, Copy)]
pub struct Labels {
    pub display_name: &'static str,
    pub events: &'static str,
    pub pages: &'static str,
    pub list: &'static str,
    pub code: &'static str,
    pub parameters: &'static str,
    pub name: &'static str,
    pub nickname: &'static str,
    pub description: &'static str,
    pub message1: &'static str,
    pub message2: &'static str,
    pub message3: &'static str,
    pub message4: &'static str,
    pub note: &'static str,
    pub armor_types: &'static str,
    pub elements: &'static str,
    pub skill_types: &'static str,
    pub terms: &'static str,
    pub weapon_types: &'static str,
    pub game_title: &'static str,
    pub equip_types: &'static str,
    pub currency_unit: &'static str,
}

impl Labels {
    /// The keys that all engines share; the engine-specific ones are empty,
    /// except `equipTypes`.
    pub fn default_labels() -> (r: Labels)
        ensures
            is_default_labels(r),
    {
        Labels {
            display_name: "",
            events: "events",
            pages: "pages",
            list: "list",
            code: "code",
            parameters: "parameters",
            name: "name",
            nickname: "nickname",
            description: "description",
            message1: "message1",
            message2: "message2",
            message3: "message3",
            message4: "message4",
            note: "note",
            armor_types: "",
            elements: "elements",
            skill_types: "",
            terms: "",
            weapon_types: "",
            game_title: "",
            equip_types: "equipTypes",
            currency_unit: "currency_unit",
        }
    }

    /// The keys of `engine_type`: camel case for MV/MZ, snake case for the
    /// older engines, with `words` in place of `terms` on XP.
    pub fn new(engine_type: EngineType) -> (r: Labels)
        ensures
            r.events@ == "events"@,
            r.pages@ == "pages"@,
            r.list@ == "list"@,
            r.code@ == "code"@,
            r.parameters@ == "parameters"@,
            r.name@ == "name"@,
            r.nickname@ == "nickname"@,
            r.description@ == "description"@,
            r.message1@ == "message1"@,
            r.message2@ == "message2"@,
            r.message3@ == "message3"@,
            r.message4@ == "message4"@,
            r.note@ == "note"@,
            r.elements@ == "elements"@,
            r.equip_types@ == "equipTypes"@,
            r.currency_unit@ == "currency_unit"@,
            engine_type is New ==> r.display_name@ == "displayName"@ && r.armor_types@ == "armorTypes"@
                && r.skill_types@ == "skillTypes"@ && r.terms@ == "terms"@ && r.weapon_types@
                == "weaponTypes"@ && r.game_title@ == "gameTitle"@,
            !(engine_type is New) ==> r.display_name@ == "display_name"@ && r.armor_types@
                == "armor_types"@ && r.skill_types@ == "skill_types"@ && r.weapon_types@
                == "weapon_types"@ && r.game_title@ == "game_title"@,
            engine_type is XP ==> r.terms@ == "words"@,
            engine_type is VX || engine_type is VXAce ==> r.terms@ == "terms"@,
    {
        let d = Labels::default_labels();
        if engine_type.is_new() {
            Labels {
                display_name: "displayName",
                armor_types: "armorTypes",
                skill_types: "skillTypes",
                terms: "terms",
                weapon_types: "weaponTypes",
                game_title: "gameTitle",
                ..d
            }
        } else {
            Labels {
                display_name: "display_name",
                armor_types: "armor_types",
                skill_types: "skill_types",
                terms: if engine_type.is_xp() {
                    "words"
                } else {
                    "terms"
                },
                weapon_types: "weapon_types",
                game_title: "game_title",
                ..d
            }
        }
    }
}

/// Either the bytes of an RPG Maker data file or the bytes of translation
/// text.
pub enum ProcessedData {
    RPGMData(Vec<u8>),
    TranslationData(Vec<u8>),
}

impl ProcessedData {
    /// The bytes, whichever kind they are.
    pub fn as_bytes(&self) -> (r: &[u8])
        ensures
            r@ == match self {
                ProcessedData::RPGMData(v) => v@,
                ProcessedData::TranslationData(v) => v@,
            },
    {
        match self {
            ProcessedData::RPGMData(v) => v.as_slice(),
            ProcessedData::TranslationData(v) => v.as_slice(),
        }
    }
}

/// A translation, with the comments that stand above it.
pub struct TranslationEntry {
    pub comments: Vec<String>,
    pub translation: String,
}

impl TranslationEntry {
    /// An empty translation without comments.
    pub fn empty() -> (r: TranslationEntry)
        ensures
            r.comments@.len() == 0,
            r.translation@.len() == 0,
    {
        TranslationEntry { comments: Vec::new(), translation: String::new() }
    }

    /// The translation `translation`, without comments.
    pub fn from_text(translation: &str) -> (r: TranslationEntry)
        ensures
            r.comments@.len() == 0,
            r.translation@ == translation@,
    {
        TranslationEntry { comments: Vec::new(), translation: translation.to_owned() }
    }

    /// The translation `translation`, without comments.
    pub fn from_string(translation: String) -> (r: TranslationEntry)
        ensures
            r.comments@.len() == 0,
            r.translation@ == translation@,
    {
        TranslationEntry { comments: Vec::new(), translation }
    }

    /// The translation text.
    pub fn text(&self) -> (r: &String)
        ensures
            r@ == self.translation@,
    {
        &self.translation
    }
}

/// Which comment a line of a translation file is: the name comment, the
/// order comment, a displayed-name comment, or none of them (`Plain`).
#[derive(Debug, Clone, Copy, PartialEq, Eq, Structural)]
pub enum CommentPos {
    Plain,
    Name,
    Order,
    DisplayName,
}

impl CommentPos {
    /// The comment that `line` opens, tested in the order name, order,
    /// displayed name; `name_comment`, `order_comment` and
    /// `display_name_prefix` are the markers that open each of them.
    pub fn from_str(
        line: &str,
        name_comment: &str,
        order_comment: &str,
        display_name_prefix: &str,
    ) -> (r: CommentPos)
        ensures
            r == (if starts_with(line@, name_comment@) {
                CommentPos::Name
            } else if starts_with(line@, order_comment@) {
                CommentPos::Order
            } else if starts_with(line@, display_name_prefix@) {
                CommentPos::DisplayName
            } else {
                CommentPos::Plain
            }),
    {
        let cs = chars_of(line);
        if has_prefix(cs.as_slice(), name_comment) {
            CommentPos::Name
        } else if has_prefix(cs.as_slice(), order_comment) {
            CommentPos::Order
        } else if has_prefix(cs.as_slice(), display_name_prefix) {
            CommentPos::DisplayName
        } else {
            CommentPos::Plain
        }
    }
}

} // verus!

verus! {

impl Default for RPGMFileType {
    fn default() -> (r: RPGMFileType)
        ensures
            r == RPGMFileType::Invalid,
    {
        RPGMFileType::Invalid
    }
}

impl Default for Labels {
    fn default() -> (r: Labels)
        ensures
            is_default_labels(r),
    {
        Labels::default_labels()
    }
}

impl From<u16> for Code {
    fn from(v: u16) -> (r: Code) {
        Code::from_number(v)
    }
}

impl vstd::std_specs::convert::FromSpecImpl<u16> for Code {
    open spec fn obeys_from_spec() -> bool {
        true
    }

    open spec fn from_spec(v: u16) -> Code {
        code_of_number(v)
    }
}

impl Default for EngineType {
    fn default() -> (r: EngineType)
        ensures
            r == EngineType::New,
    {
        EngineType::New
    }
}

impl From<RPGMFileType> for u8 {
    fn from(val: RPGMFileType) -> (r: u8) {
        val.to_u8()
    }
}

impl vstd::std_specs::convert::FromSpecImpl<RPGMFileType> for u8 {
    open spec fn obeys_from_spec() -> bool {
        true
    }

    open spec fn from_spec(v: RPGMFileType) -> u8 {
        file_type_byte(v)
    }
}

impl TryFrom<u8> for RPGMFileType {
    type Error = u8;

    fn try_from(value: u8) -> (r: Result<RPGMFileType, u8>) {
        RPGMFileType::try_from_u8(value)
    }
}

impl vstd::std_specs::convert::TryFromSpecImpl<u8> for RPGMFileType {
    open spec fn obeys_try_from_spec() -> bool {
        true
    }

    open spec fn try_from_spec(v: u8) -> Result<RPGMFileType, u8> {
        match file_type_of_byte(v) {
            Some(t) => Ok(t),
            None => Err(v),
        }
    }
}

impl From<EngineType> for u8 {
    fn from(val: EngineType) -> (r: u8) {
        val.to_u8()
    }
}

impl vstd::std_specs::convert::FromSpecImpl<EngineType> for u8 {
    open spec fn obeys_from_spec() -> bool {
        true
    }

    open spec fn from_spec(v: EngineType) -> u8 {
        match v {
            EngineType::New => 0,
            EngineType::VXAce => 1,
            EngineType::VX => 2,
            EngineType::XP => 3,
        }
    }
}

impl TryFrom<u8> for EngineType {
    type Error = u8;

    fn try_from(value: u8) -> (r: Result<EngineType, u8>) {
        EngineType::try_from_u8(value)
    }
}

impl vstd::std_specs::convert::TryFromSpecImpl<u8> for EngineType {
    open spec fn obeys_try_from_spec() -> bool {
        true
    }

    open spec fn try_from_spec(v: u8) -> Result<EngineType, u8> {
        if v == 0 {
            Ok(EngineType::New)
        } else if v == 1 {
            Ok(EngineType::VXAce)
        } else if v == 2 {
            Ok(EngineType::VX)
        } else if v == 3 {
            Ok(EngineType::XP)
        } else {
            Err(v)
        }
    }
}

} // verus!
