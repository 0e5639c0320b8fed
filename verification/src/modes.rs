//! Processing modes: how a run reads, writes or purges, how duplicates are
//! treated, and which game gets custom processing.
//!
//! Every enum here travels through configuration files as a single byte, so
//! each one has a total encoding into `u8` and a decoding that accepts
//! exactly the encodings.
use vstd::prelude::*;
use crate::text::str_equals;

verus! {

/// The two ways of reading game files into translation files.
///
/// - `Default` parses the text and refuses to overwrite existing translation
///   files unless `force` is set.
/// - `Append` adds new text to existing translation files; `force` bypasses
///   the hashes of a previous read.
#[derive(Debug, Clone, Copy, PartialEq, Eq, Structural)]
pub enum ReadMode {
    Default { force: bool },
    Append { force: bool },
}

/// The byte that stands for a read mode: `0`/`1` for `Default` without and
/// with force, `2`/`3` for `Append` without and with force.
pub open spec fn read_mode_byte(m: ReadMode) -> u8 {
    match m {
        ReadMode::Default { force } => if force { 1 } else { 0 },
        ReadMode::Append { force } => if force { 3 } else { 2 },
    }
}

/// The read mode that a byte stands for, if any.
pub open spec fn read_mode_of_byte(v: u8) -> Option<ReadMode> {
    if v <= 1 {
        Some(ReadMode::Default { force: v != 0 })
    } else if v <= 3 {
        Some(ReadMode::Append { force: v != 2 })
    } else {
        None
    }
}

/// The message of a byte that stands for no read mode.
pub const READ_MODE_BYTE_ERROR: &'static str = "Expected a number from 0 to 3";

/// The message of a name that stands for no read mode.
pub const READ_MODE_NAME_ERROR: &'static str = "Expected `default`, `append`, `force` or `force-append` string";

/// The textual names of the read modes, as the command line spells them.
pub open spec fn read_mode_of_name(s: Seq<char>) -> Option<ReadMode> {
    if s == "default"@ {
        Some(ReadMode::Default { force: false })
    } else if s == "append"@ {
        Some(ReadMode::Append { force: false })
    } else if s == "force"@ {
        Some(ReadMode::Default { force: true })
    } else if s == "force-append"@ {
        Some(ReadMode::Append { force: true })
    } else {
        None
    }
}

impl ReadMode {
    /// The default read mode: `Default` without force.
    pub fn default_mode() -> (r: ReadMode)
        ensures
            r == (ReadMode::Default { force: false }),
    {
        ReadMode::Default { force: false }
    }

    /// Encodes the mode as a byte.
    pub fn to_u8(self) -> (r: u8)
        ensures
            r == read_mode_byte(self),
    {
        match self {
            ReadMode::Default { force } => if force { 1 } else { 0 },
            ReadMode::Append { force } => if force { 3 } else { 2 },
        }
    }

    /// Decodes a byte; fails on every byte above `3`.
    pub fn try_from_u8(value: u8) -> (r: Result<ReadMode, &'static str>)
        ensures
            match read_mode_of_byte(value) {
                Some(m) => r == Ok::<ReadMode, &'static str>(m),
                None => r == Err::<ReadMode, &'static str>(READ_MODE_BYTE_ERROR),
            },
    {
        if value <= 1 {
            Ok(ReadMode::Default { force: value != 0 })
        } else if value <= 3 {
            Ok(ReadMode::Append { force: value != 2 })
        } else {
            Err(READ_MODE_BYTE_ERROR)
        }
    }

    /// Parses `default`, `append`, `force` or `force-append`.
    pub fn parse(s: &str) -> (r: Result<ReadMode, &'static str>)
        ensures
            match read_mode_of_name(s@) {
                Some(m) => r == Ok::<ReadMode, &'static str>(m),
                None => r == Err::<ReadMode, &'static str>(READ_MODE_NAME_ERROR),
            },
    {
        if str_equals(s, "default") {
            Ok(ReadMode::Default { force: false })
        } else if str_equals(s, "append") {
            Ok(ReadMode::Append { force: false })
        } else if str_equals(s, "force") {
            Ok(ReadMode::Default { force: true })
        } else if str_equals(s, "force-append") {
            Ok(ReadMode::Append { force: true })
        } else {
            Err(READ_MODE_NAME_ERROR)
        }
    }

    /// `Default` with any force.
    pub fn is_default(self) -> (r: bool)
        ensures
            r == (self is Default),
    {
        matches!(self, ReadMode::Default { .. })
    }

    /// `Append` with any force.
    pub fn is_append(self) -> (r: bool)
        ensures
            r == (self is Append),
    {
        matches!(self, ReadMode::Append { .. })
    }

    /// `Default` without force.
    pub fn is_default_default(self) -> (r: bool)
        ensures
            r == (self == ReadMode::Default { force: false }),
    {
        matches!(self, ReadMode::Default { force: false })
    }

    /// `Append` without force.
    pub fn is_append_default(self) -> (r: bool)
        ensures
            r == (self == ReadMode::Append { force: false }),
    {
        matches!(self, ReadMode::Append { force: false })
    }

    /// `Default` with force.
    pub fn is_force(self) -> (r: bool)
        ensures
            r == (self == ReadMode::Default { force: true }),
    {
        matches!(self, ReadMode::Default { force: true })
    }

    /// `Append` with force.
    pub fn is_force_append(self) -> (r: bool)
        ensures
            r == (self == ReadMode::Append { force: true }),
    {
        matches!(self, ReadMode::Append { force: true })
    }

    /// The lowercase names of the variants.
    pub fn variant_names() -> (r: [&'static str; 2])
        ensures
            r@[0]@ == "default"@,
            r@[1]@ == "append"@,
    {
        ["default", "append"]
    }
}

} // verus!

verus! {

impl From<ReadMode> for u8 {
    fn from(val: ReadMode) -> (r: u8) {
        val.to_u8()
    }
}

impl vstd::std_specs::convert::FromSpecImpl<ReadMode> for u8 {
    open spec fn obeys_from_spec() -> bool {
        true
    }

    open spec fn from_spec(v: ReadMode) -> u8 {
        read_mode_byte(v)
    }
}

impl TryFrom<u8> for ReadMode {
    type Error = &'static str;

    fn try_from(value: u8) -> (r: Result<ReadMode, &'static str>) {
        ReadMode::try_from_u8(value)
    }
}

impl vstd::std_specs::convert::TryFromSpecImpl<u8> for ReadMode {
    open spec fn obeys_try_from_spec() -> bool {
        true
    }

    open spec fn try_from_spec(v: u8) -> Result<ReadMode, &'static str> {
        match read_mode_of_byte(v) {
            Some(m) => Ok(m),
            None => Err(READ_MODE_BYTE_ERROR),
        }
    }
}

} // verus!

verus! {

/// What a run does with the game files.
///
/// - `Read` extracts text into translation files, in the given read mode.
/// - `Write` writes translations back into game files.
/// - `Purge` removes lines with empty translations.
#[derive(Debug, Clone, Copy, PartialEq, Eq, Structural)]
pub enum Mode {
    Read(ReadMode),
    Write,
    Purge,
}

/// The byte that stands for a mode: a read mode's own byte, `3` for
/// `Write` and `4` for `Purge`.
///
/// `Read(Append { force: true })` and `Write` share the byte `3`.
pub open spec fn mode_byte(m: Mode) -> u8 {
    match m {
        Mode::Read(r) => read_mode_byte(r),
        Mode::Write => 3,
        Mode::Purge => 4,
    }
}

/// The mode that a byte stands for: `3` is `Write`, `4` is `Purge`, the
/// bytes of read modes stand for those, and every other byte for none.
pub open spec fn mode_of_byte(v: u8) -> Option<Mode> {
    if v == 3 {
        Some(Mode::Write)
    } else if v == 4 {
        Some(Mode::Purge)
    } else {
        match read_mode_of_byte(v) {
            Some(r) => Some(Mode::Read(r)),
            None => None,
        }
    }
}

/// The message of a byte that stands for no mode.
pub const MODE_BYTE_ERROR: &'static str = "invalid ReadMode value";

impl Mode {
    /// The default mode: reading in `ReadMode::Default` without force.
    pub fn default_mode() -> (r: Mode)
        ensures
            r == Mode::Read(ReadMode::Default { force: false }),
    {
        Mode::Read(ReadMode::Default { force: false })
    }

    /// Encodes the mode as a byte.
    pub fn to_u8(self) -> (r: u8)
        ensures
            r == mode_byte(self),
    {
        match self {
            Mode::Read(m) => m.to_u8(),
            Mode::Write => 3,
            Mode::Purge => 4,
        }
    }

    /// Decodes a byte; fails on every byte above `4`.
    pub fn try_from_u8(value: u8) -> (r: Result<Mode, &'static str>)
        ensures
            match mode_of_byte(value) {
                Some(m) => r == Ok::<Mode, &'static str>(m),
                None => r == Err::<Mode, &'static str>(MODE_BYTE_ERROR),
            },
    {
        if value == 3 {
            Ok(Mode::Write)
        } else if value == 4 {
            Ok(Mode::Purge)
        } else {
            match ReadMode::try_from_u8(value) {
                Ok(r) => Ok(Mode::Read(r)),
                Err(_) => Err(MODE_BYTE_ERROR),
            }
        }
    }

    /// The mode reads, in any read mode.
    pub fn is_read(self) -> (r: bool)
        ensures
            r == (self is Read),
    {
        matches!(self, Mode::Read(_))
    }

    /// The mode writes.
    pub fn is_write(self) -> (r: bool)
        ensures
            r == (self is Write),
    {
        matches!(self, Mode::Write)
    }

    /// The mode purges.
    pub fn is_purge(self) -> (r: bool)
        ensures
            r == (self is Purge),
    {
        matches!(self, Mode::Purge)
    }

    /// Reading in `ReadMode::Default`, with any force.
    pub fn is_default(self) -> (r: bool)
        ensures
            r == (self matches Mode::Read(m) && m is Default),
    {
        matches!(self, Mode::Read(ReadMode::Default { .. }))
    }

    /// Reading in `ReadMode::Append`, with any force.
    pub fn is_append(self) -> (r: bool)
        ensures
            r == (self matches Mode::Read(m) && m is Append),
    {
        matches!(self, Mode::Read(ReadMode::Append { .. }))
    }

    /// Reading in `ReadMode::Default` without force.
    pub fn is_default_default(self) -> (r: bool)
        ensures
            r == (self == Mode::Read(ReadMode::Default { force: false })),
    {
        matches!(self, Mode::Read(ReadMode::Default { force: false }))
    }

    /// Reading in `ReadMode::Append` without force.
    pub fn is_append_default(self) -> (r: bool)
        ensures
            r == (self == Mode::Read(ReadMode::Append { force: false })),
    {
        matches!(self, Mode::Read(ReadMode::Append { force: false }))
    }

    /// Reading in `ReadMode::Default` with force.
    pub fn is_force(self) -> (r: bool)
        ensures
            r == (self == Mode::Read(ReadMode::Default { force: true })),
    {
        matches!(self, Mode::Read(ReadMode::Default { force: true }))
    }

    /// Reading in `ReadMode::Append` with force.
    pub fn is_force_append(self) -> (r: bool)
        ensures
            r == (self == Mode::Read(ReadMode::Append { force: true })),
    {
        matches!(self, Mode::Read(ReadMode::Append { force: true }))
    }

    /// The lowercase names of the variants.
    pub fn variant_names() -> (r: [&'static str; 3])
        ensures
            r@[0]@ == "read"@,
            r@[1]@ == "write"@,
            r@[2]@ == "purge"@,
    {
        ["read", "write", "purge"]
    }
}

impl From<Mode> for u8 {
    fn from(val: Mode) -> (r: u8) {
        val.to_u8()
    }
}

impl vstd::std_specs::convert::FromSpecImpl<Mode> for u8 {
    open spec fn obeys_from_spec() -> bool {
        true
    }

    open spec fn from_spec(v: Mode) -> u8 {
        mode_byte(v)
    }
}

impl TryFrom<u8> for Mode {
    type Error = &'static str;

    fn try_from(value: u8) -> (r: Result<Mode, &'static str>) {
        Mode::try_from_u8(value)
    }
}

impl vstd::std_specs::convert::TryFromSpecImpl<u8> for Mode {
    open spec fn obeys_try_from_spec() -> bool {
        true
    }

    open spec fn try_from_spec(v: u8) -> Result<Mode, &'static str> {
        match mode_of_byte(v) {
            Some(m) => Ok(m),
            None => Err(MODE_BYTE_ERROR),
        }
    }
}

/// What to do with duplicate lines in map and other files.
///
/// - `Allow` parses each map or event into its own table, so equal lines in
///   different places keep separate translations.
/// - `Remove` keeps one entry per distinct line, and writes its translation
///   everywhere the line is used.
#[derive(Debug, Clone, Copy, PartialEq, Eq, Hash, Structural)]
pub enum DuplicateMode {
    Allow,
    Remove,
}

/// The message of a name that stands for no duplicate mode.
pub const DUPLICATE_MODE_NAME_ERROR: &'static str = "Expected `allow` or `remove` string";

impl DuplicateMode {
    /// The default: `Allow`.
    pub fn default_mode() -> (r: DuplicateMode)
        ensures
            r == DuplicateMode::Allow,
    {
        DuplicateMode::Allow
    }

    /// `Allow` is `0`, `Remove` is `1`.
    pub fn to_u8(self) -> (r: u8)
        ensures
            r == (if self is Allow { 0u8 } else { 1u8 }),
    {
        match self {
            DuplicateMode::Allow => 0,
            DuplicateMode::Remove => 1,
        }
    }

    /// Decodes `0` and `1`; any other byte is handed back as the error.
    pub fn try_from_u8(value: u8) -> (r: Result<DuplicateMode, u8>)
        ensures
            value == 0 ==> r == Ok::<DuplicateMode, u8>(DuplicateMode::Allow),
            value == 1 ==> r == Ok::<DuplicateMode, u8>(DuplicateMode::Remove),
            value > 1 ==> r == Err::<DuplicateMode, u8>(value),
    {
        if value == 0 {
            Ok(DuplicateMode::Allow)
        } else if value == 1 {
            Ok(DuplicateMode::Remove)
        } else {
            Err(value)
        }
    }

    /// Parses `allow` or `remove`.
    pub fn parse(s: &str) -> (r: Result<DuplicateMode, &'static str>)
        ensures
            s@ == "allow"@ ==> r == Ok::<DuplicateMode, &'static str>(DuplicateMode::Allow),
            s@ == "remove"@ ==> r == Ok::<DuplicateMode, &'static str>(DuplicateMode::Remove),
            s@ != "allow"@ && s@ != "remove"@ ==> r == Err::<DuplicateMode, &'static str>(
                DUPLICATE_MODE_NAME_ERROR,
            ),
    {
        proof {
            reveal_strlit("allow");
            reveal_strlit("remove");
            assert("allow"@.len() == 5);
            assert("remove"@.len() == 6);
        }
        if str_equals(s, "allow") {
            Ok(DuplicateMode::Allow)
        } else if str_equals(s, "remove") {
            Ok(DuplicateMode::Remove)
        } else {
            Err(DUPLICATE_MODE_NAME_ERROR)
        }
    }

    pub fn is_allow(self) -> (r: bool)
        ensures
            r == (self is Allow),
    {
        matches!(self, DuplicateMode::Allow)
    }

    pub fn is_remove(self) -> (r: bool)
        ensures
            r == (self is Remove),
    {
        matches!(self, DuplicateMode::Remove)
    }

    /// The lowercase names of the variants.
    pub fn variant_names() -> (r: [&'static str; 2])
        ensures
            r@[0]@ == "allow"@,
            r@[1]@ == "remove"@,
    {
        ["allow", "remove"]
    }
}

/// The game that custom processing is tailored to: `Standard` for none, or
/// Fear & Hunger 2:
/// Termina, or the LisaRPG series.
#[derive(Debug, Clone, Copy, PartialEq, Eq, Hash, Structural)]
pub enum GameType {
    Standard,
    Termina,
    LisaRPG,
}

impl GameType {
    /// The default: no custom processing.
    pub fn default_type() -> (r: GameType)
        ensures
            r == GameType::Standard,
    {
        GameType::Standard
    }

    /// `None` is `0`, `Termina` is `1`, `LisaRPG` is `2`.
    pub fn to_u8(self) -> (r: u8)
        ensures
            r == match self {
                GameType::Standard => 0u8,
                GameType::Termina => 1u8,
                GameType::LisaRPG => 2u8,
            },
    {
        match self {
            GameType::Standard => 0,
            GameType::Termina => 1,
            GameType::LisaRPG => 2,
        }
    }

    /// Decodes `0` to `2`; any other byte is handed back as the error.
    pub fn try_from_u8(value: u8) -> (r: Result<GameType, u8>)
        ensures
            value == 0 ==> r == Ok::<GameType, u8>(GameType::Standard),
            value == 1 ==> r == Ok::<GameType, u8>(GameType::Termina),
            value == 2 ==> r == Ok::<GameType, u8>(GameType::LisaRPG),
            value > 2 ==> r == Err::<GameType, u8>(value),
    {
        if value == 0 {
            Ok(GameType::Standard)
        } else if value == 1 {
            Ok(GameType::Termina)
        } else if value == 2 {
            Ok(GameType::LisaRPG)
        } else {
            Err(value)
        }
    }

    pub fn is_standard(self) -> (r: bool)
        ensures
            r == (self is Standard),
    {
        matches!(self, GameType::Standard)
    }

    pub fn is_termina(self) -> (r: bool)
        ensures
            r == (self is Termina),
    {
        matches!(self, GameType::Termina)
    }

    pub fn is_lisa_rpg(self) -> (r: bool)
        ensures
            r == (self is LisaRPG),
    {
        matches!(self, GameType::LisaRPG)
    }
}

} // verus!

verus! {

/// Encoding a read mode as a byte and decoding it gives it back; the bytes
/// that decode are exactly `0` to `3`, each the encoding of what it decodes
/// to.
pub proof fn law_read_mode_byte_roundtrip(m: ReadMode, v: u8)
    ensures
        read_mode_of_byte(read_mode_byte(m)) == Some(m),
        read_mode_of_byte(v) is Some <==> v <= 3,
        read_mode_of_byte(v) matches Some(r) ==> read_mode_byte(r) == v,
{
}

/// Encoding a mode as a byte and decoding it gives it back, except for
/// reading in append mode with force, whose byte `3` decodes to `Write`.
/// The bytes that decode are exactly `0` to `4`, each the encoding of what
/// it decodes to.
pub proof fn law_mode_byte_roundtrip(m: Mode, v: u8)
    ensures
        m != Mode::Read(ReadMode::Append { force: true }) ==> mode_of_byte(mode_byte(m)) == Some(m),
        mode_of_byte(mode_byte(Mode::Read(ReadMode::Append { force: true }))) == Some(Mode::Write),
        mode_of_byte(v) is Some <==> v <= 4,
        mode_of_byte(v) matches Some(r) ==> mode_byte(r) == v,
{
}

} // verus!

verus! {

impl Default for ReadMode {
    fn default() -> (r: ReadMode)
        ensures
            r == (ReadMode::Default { force: false }),
    {
        ReadMode::default_mode()
    }
}

impl Default for Mode {
    fn default() -> (r: Mode)
        ensures
            r == Mode::Read(ReadMode::Default { force: false }),
    {
        Mode::default_mode()
    }
}

impl Default for DuplicateMode {
    fn default() -> (r: DuplicateMode)
        ensures
            r == DuplicateMode::Allow,
    {
        DuplicateMode::Allow
    }
}

impl Default for GameType {
    fn default() -> (r: GameType)
        ensures
            r == GameType::Standard,
    {
        GameType::Standard
    }
}

impl std::str::FromStr for ReadMode {
    type Err = &'static str;

    fn from_str(s: &str) -> (r: Result<ReadMode, &'static str>)
        ensures
            match read_mode_of_name(s@) {
                Some(m) => r == Ok::<ReadMode, &'static str>(m),
                None => r == Err::<ReadMode, &'static str>(READ_MODE_NAME_ERROR),
            },
    {
        ReadMode::parse(s)
    }
}

impl std::str::FromStr for DuplicateMode {
    type Err = &'static str;

    fn from_str(s: &str) -> (r: Result<DuplicateMode, &'static str>)
        ensures
            s@ == "allow"@ ==> r == Ok::<DuplicateMode, &'static str>(DuplicateMode::Allow),
            s@ == "remove"@ ==> r == Ok::<DuplicateMode, &'static str>(DuplicateMode::Remove),
            s@ != "allow"@ && s@ != "remove"@ ==> r == Err::<DuplicateMode, &'static str>(
                DUPLICATE_MODE_NAME_ERROR,
            ),
    {
        DuplicateMode::parse(s)
    }
}

impl From<DuplicateMode> for u8 {
    fn from(val: DuplicateMode) -> (r: u8) {
        val.to_u8()
    }
}

impl vstd::std_specs::convert::FromSpecImpl<DuplicateMode> for u8 {
    open spec fn obeys_from_spec() -> bool {
        true
    }

    open spec fn from_spec(v: DuplicateMode) -> u8 {
        if v is Allow { 0 } else { 1 }
    }
}

impl TryFrom<u8> for DuplicateMode {
    type Error = u8;

    fn try_from(value: u8) -> (r: Result<DuplicateMode, u8>) {
        DuplicateMode::try_from_u8(value)
    }
}

impl vstd::std_specs::convert::TryFromSpecImpl<u8> for DuplicateMode {
    open spec fn obeys_try_from_spec() -> bool {
        true
    }

    open spec fn try_from_spec(v: u8) -> Result<DuplicateMode, u8> {
        if v == 0 {
            Ok(DuplicateMode::Allow)
        } else if v == 1 {
            Ok(DuplicateMode::Remove)
        } else {
            Err(v)
        }
    }
}

impl From<GameType> for u8 {
    fn from(val: GameType) -> (r: u8) {
        val.to_u8()
    }
}

impl vstd::std_specs::convert::FromSpecImpl<GameType> for u8 {
    open spec fn obeys_from_spec() -> bool {
        true
    }

    open spec fn from_spec(v: GameType) -> u8 {
        match v {
            GameType::Standard => 0,
            GameType::Termina => 1,
            GameType::LisaRPG => 2,
        }
    }
}

impl TryFrom<u8> for GameType {
    type Error = u8;

    fn try_from(value: u8) -> (r: Result<GameType, u8>) {
        GameType::try_from_u8(value)
    }
}

impl vstd::std_specs::convert::TryFromSpecImpl<u8> for GameType {
    open spec fn obeys_try_from_spec() -> bool {
        true
    }

    open spec fn try_from_spec(v: u8) -> Result<GameType, u8> {
        if v == 0 {
            Ok(GameType::Standard)
        } else if v == 1 {
            Ok(GameType::Termina)
        } else if v == 2 {
            Ok(GameType::LisaRPG)
        } else {
            Err(v)
        }
    }
}

} // verus!
