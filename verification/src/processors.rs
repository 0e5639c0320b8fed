//! Readers, writers and purgers: the settings of a processing run, and the
//! decisions a run takes that do not touch the file system.
use vstd::prelude::*;
use crate::flags::{BaseFlags, FileFlags};
use crate::hashes::{pairs_map, FileHashes};
use crate::modes::{DuplicateMode, GameType, Mode, ReadMode};
use crate::text::{chars_of, lemma_with_extension_start, string_push, with_extension, with_extension_of};
use crate::types::{ascii_lower, file_type_of_key, file_type_of_name, name_key, EngineType, RPGMFileType};

verus! {

/// The settings of a processing run.
pub struct Processor {
    /// Which files to process.
    pub file_flags: FileFlags,
    /// Read (in which read mode), write or purge.
    pub mode: Mode,
    /// The game that custom processing is tailored to.
    pub game_type: GameType,
    /// How to process the text.
    pub flags: BaseFlags,
    /// What to do with duplicate lines.
    pub duplicate_mode: DuplicateMode,
    /// The hashes of the files of a previous read, by file key.
    pub hashes: FileHashes,
    /// Indices of maps to leave alone.
    pub skip_maps: Vec<u16>,
    /// Indices of events to leave alone, per kind of file.
    pub skip_events: Vec<(RPGMFileType, Vec<u16>)>,
    /// Whether to note the metadata of map events as comments.
    pub map_events: bool,
    /// A game title that overrides the one of the system file.
    pub game_title: String,
}

/// The index of the first `c` in `s`, or the length of `s` when there is none.
pub open spec fn first_index_of(s: Seq<char>, c: char) -> int
    decreases s.len(),
{
    if s.len() == 0 {
        0
    } else if s[0] == c {
        0
    } else {
        1 + first_index_of(s.drop_first(), c)
    }
}

proof fn lemma_first_index_of(s: Seq<char>, c: char, i: int)
    requires
        0 <= i <= s.len(),
        forall|j: int| 0 <= j < i ==> s[j] != c,
        i == s.len() || s[i] == c,
    ensures
        first_index_of(s, c) == i,
    decreases i,
{
    if i > 0 {
        lemma_first_index_of(s.drop_first(), c, i - 1);
    }
}

/// The key under which a file's hash is kept: its name up to the first dot,
/// in ASCII lowercase.
pub open spec fn file_key(name: Seq<char>) -> Seq<char> {
    name.take(first_index_of(name, '.')).map_values(|c: char| ascii_lower(c))
}

/// The first `k` characters of `cs`, in ASCII lowercase.
fn ascii_lower_prefix(cs: &Vec<char>, k: usize) -> (r: String)
    requires
        k <= cs@.len(),
    ensures
        r@ == cs@.take(k as int).map_values(|c: char| ascii_lower(c)),
{
    let mut r = String::new();
    let mut i: usize = 0;
    while i < k
        invariant
            k <= cs@.len(),
            i <= k,
            r@ == cs@.take(i as int).map_values(|c: char| ascii_lower(c)),
        decreases k - i,
    {
        let c = cs[i];
        let l = if 'A' <= c && c <= 'Z' {
            ((c as u8) + 32) as char
        } else {
            c
        };
        string_push(&mut r, l);
        i = i + 1;
        assert(r@ =~= cs@.take(i as int).map_values(|c: char| ascii_lower(c)));
    }
    r
}

/// The key under which the hash of the file `name` is kept.
pub fn hash_key(name: &str) -> (r: String)
    ensures
        r@ == file_key(name@),
{
    let cs = chars_of(name);
    let n = cs.len();
    let mut i: usize = 0;
    while i < n && cs[i] != '.'
        invariant
            n == cs@.len(),
            cs@ == name@,
            i <= n,
            forall|j: int| 0 <= j < i ==> cs@[j] != '.',
        decreases n - i,
    {
        i = i + 1;
    }
    proof {
        lemma_first_index_of(name@, '.', i as int);
    }
    ascii_lower_prefix(&cs, i)
}

/// A file whose hash is unchanged since the last read is skipped, in
/// append mode without force only.
pub open spec fn skips_file(hashes: Map<Seq<char>, u64>, mode: Mode, key: Seq<char>, hash: u64) -> bool {
    hashes.contains_key(key) && hashes[key] == hash && mode == Mode::Read(ReadMode::Append { force: false })
}

/// The settings of a run in `mode` with everything else at its default: all
/// files, no custom processing, no flags, duplicates allowed, no hashes,
/// nothing skipped, no map event metadata, no title.
pub open spec fn default_settings(p: Processor, mode: Mode) -> bool {
    &&& p.file_flags@ == 8191
    &&& p.mode == mode
    &&& p.game_type == GameType::Standard
    &&& p.flags@ == 0
    &&& p.duplicate_mode == DuplicateMode::Allow
    &&& p.hashes@ == Map::<Seq<char>, u64>::empty()
    &&& p.skip_maps@.len() == 0
    &&& p.skip_events@.len() == 0
    &&& !p.map_events
    &&& p.game_title@.len() == 0
}

impl Processor {
    /// The settings of a run in `mode` with everything else at its default:
    /// all files, no custom processing, no flags, duplicates allowed, no
    /// hashes, nothing skipped, no map event metadata, no title.
    pub fn with_mode(mode: Mode) -> (r: Processor)
        ensures
            default_settings(r, mode),
    {
        Processor {
            file_flags: FileFlags::all(),
            mode,
            game_type: GameType::Standard,
            flags: BaseFlags::empty(),
            duplicate_mode: DuplicateMode::Allow,
            hashes: FileHashes::new(),
            skip_maps: Vec::new(),
            skip_events: Vec::new(),
            map_events: false,
            game_title: String::new(),
        }
    }

    /// Records the hash of the file `name`, and tells whether to skip the
    /// file: it is skipped when its hash is the one recorded before, in
    /// append mode without force.
    pub fn record_hash(&mut self, name: &str, hash: u64) -> (skip: bool)
        ensures
            skip == skips_file(old(self).hashes@, old(self).mode, file_key(name@), hash),
            skip ==> old(self).hashes@.contains_key(file_key(name@)) && old(self).hashes@[file_key(name@)]
                == hash,
            !old(self).hashes@.contains_key(file_key(name@)) ==> !skip,
            final(self).hashes@ == old(self).hashes@.insert(file_key(name@), hash),
            final(self).file_flags == old(self).file_flags,
            final(self).mode == old(self).mode,
            final(self).game_type == old(self).game_type,
            final(self).flags == old(self).flags,
            final(self).duplicate_mode == old(self).duplicate_mode,
            final(self).skip_maps == old(self).skip_maps,
            final(self).skip_events == old(self).skip_events,
            final(self).map_events == old(self).map_events,
            final(self).game_title == old(self).game_title,
    {
        let key = hash_key(name);
        let unchanged = match self.hashes.get(key.as_str()) {
            Some(old_hash) => old_hash == hash,
            None => false,
        };
        self.hashes.insert(key, hash);
        unchanged && self.mode.is_append_default()
    }

    /// A run reads the ignore file when it uses ignore entries or creates
    /// the ignore file.
    pub fn uses_ignore_file(&self) -> (r: bool)
        ensures
            r == (self.flags@ & 12 != 0),
    {
        let both = BaseFlags::create_ignore().union(BaseFlags::ignore());
        assert(8u8 | 4u8 == 12u8) by (bit_vector);
        self.flags.intersects(both)
    }

    /// A missing ignore file stops the run only when the run uses ignore
    /// entries.
    pub fn ignore_file_required(&self) -> (r: bool)
        ensures
            r == (self.flags@ & 4 == 4),
    {
        self.flags.contains(BaseFlags::ignore())
    }

    /// Existing translation is loaded in every mode but reading in the
    /// default read mode.
    pub fn loads_translation(&self) -> (r: bool)
        ensures
            r == !(self.mode matches Mode::Read(m) && m is Default),
    {
        !self.mode.is_default()
    }

    /// A file whose translation file already exists is left alone when
    /// reading in the default read mode without force.
    pub fn skips_existing_translation(&self, exists: bool) -> (r: bool)
        ensures
            r == (exists && self.mode == Mode::Read(ReadMode::Default { force: false })),
    {
        self.mode.is_default_default() && exists
    }
}

/// The name of the folder of data files: `data` for MV/MZ, `Data` for the
/// older engines.
pub fn data_dir_name(engine_type: EngineType) -> (r: &'static str)
    ensures
        engine_type is New ==> r@ == "data"@,
        !(engine_type is New) ==> r@ == "Data"@,
{
    if engine_type.is_new() {
        "data"
    } else {
        "Data"
    }
}

/// What a run decides before it looks at any file.
pub struct RunPlan {
    /// No kind of file is selected, so the run does nothing.
    pub nothing_to_do: bool,
    /// The run writes into the translation folder (reading) rather than
    /// the output folder.
    pub output_is_translation: bool,
    /// The run creates the data folder inside the output folder (writing).
    pub creates_data_dir: bool,
}

/// What the run with the settings `p` decides before it looks at any file.
pub fn run_plan(p: &Processor) -> (r: RunPlan)
    ensures
        r.nothing_to_do == (p.file_flags@ == 0),
        r.output_is_translation == (p.mode is Read),
        r.creates_data_dir == (p.mode is Write),
{
    RunPlan {
        nothing_to_do: p.file_flags.is_empty(),
        output_is_translation: p.mode.is_read(),
        creates_data_dir: p.mode.is_write(),
    }
}

/// The name of the translation file of a data file of kind `t` named
/// `filename`: one file each for maps, the system file, plugins and
/// scripts; for every other kind, the data file's name in ASCII lowercase
/// with the extension `txt`.
pub open spec fn translation_name(t: RPGMFileType, filename: Seq<char>) -> Seq<char> {
    match t {
        RPGMFileType::Maps => "maps.txt"@,
        RPGMFileType::System => "system.txt"@,
        RPGMFileType::Plugins => "plugins.txt"@,
        RPGMFileType::Scripts => "scripts.txt"@,
        _ => with_extension(filename.map_values(|c: char| ascii_lower(c)), "txt"@),
    }
}

/// The translation file of a data file of a known kind starts with the
/// three letters that name that kind (`map`, `sys`, `sta`, `act`, ...), in
/// lowercase.
pub proof fn law_translation_name_starts_with_kind(filename: Seq<char>)
    requires
        file_type_of_name(filename) != RPGMFileType::Invalid,
    ensures
        ({
            let k = name_key(filename)->0;
            let t = translation_name(file_type_of_name(filename), filename);
            t.len() >= 3 && t.take(3) == seq![k.0, k.1, k.2]
        }),
{
    let k = name_key(filename)->0;
    let t = file_type_of_name(filename);
    assert(name_key(filename) is Some);
    assert(file_type_of_key(k) == t);
    match t {
        RPGMFileType::Maps => {
            reveal_strlit("maps.txt");
            assert("maps.txt"@.take(3) =~= seq!['m', 'a', 'p']);
        },
        RPGMFileType::System => {
            reveal_strlit("system.txt");
            assert("system.txt"@.take(3) =~= seq!['s', 'y', 's']);
        },
        RPGMFileType::Plugins => {
            reveal_strlit("plugins.txt");
            assert("plugins.txt"@.take(3) =~= seq!['p', 'l', 'u']);
        },
        RPGMFileType::Scripts => {
            reveal_strlit("scripts.txt");
            assert("scripts.txt"@.take(3) =~= seq!['s', 'c', 'r']);
        },
        _ => {
            let lower = filename.map_values(|c: char| ascii_lower(c));
            assert(lower.take(3) =~= seq![k.0, k.1, k.2]);
            assert(lower[0] != '.' && lower[1] != '.' && lower[2] != '.');
            reveal_strlit("txt");
            lemma_with_extension_start(lower, "txt"@, 3);
        },
    }
}

/// Data files of two different kinds never share a translation file: the
/// text of one kind (such as `States`) never goes into the file of another
/// (such as `System`).
pub proof fn law_translation_names_distinct(f1: Seq<char>, f2: Seq<char>)
    requires
        file_type_of_name(f1) != RPGMFileType::Invalid,
        file_type_of_name(f2) != RPGMFileType::Invalid,
        file_type_of_name(f1) != file_type_of_name(f2),
    ensures
        translation_name(file_type_of_name(f1), f1) != translation_name(file_type_of_name(f2), f2),
{
    law_translation_name_starts_with_kind(f1);
    law_translation_name_starts_with_kind(f2);
    let k1 = name_key(f1)->0;
    let k2 = name_key(f2)->0;
    assert(k1 != k2);
    let t1 = translation_name(file_type_of_name(f1), f1);
    let t2 = translation_name(file_type_of_name(f2), f2);
    if t1 == t2 {
        assert(seq![k1.0, k1.1, k1.2] == seq![k2.0, k2.1, k2.2]);
        assert(seq![k1.0, k1.1, k1.2][0] == k2.0);
        assert(seq![k1.0, k1.1, k1.2][1] == k2.1);
        assert(seq![k1.0, k1.1, k1.2][2] == k2.2);
    }
}

/// The name of the translation file of the data file `filename` of kind
/// `t`.
pub fn translation_file_name(t: RPGMFileType, filename: &str) -> (r: String)
    ensures
        r@ == translation_name(t, filename@),
{
    match t {
        RPGMFileType::Maps => String::from_str("maps.txt"),
        RPGMFileType::System => String::from_str("system.txt"),
        RPGMFileType::Plugins => String::from_str("plugins.txt"),
        RPGMFileType::Scripts => String::from_str("scripts.txt"),
        _ => {
            let cs = chars_of(filename);
            let lower = ascii_lower_prefix(&cs, cs.len());
            proof {
                assert(cs@.take(cs@.len() as int) =~= cs@);
            }
            with_extension_of(lower.as_str(), "txt")
        },
    }
}

/// The messages logged before and after each file of a run.
pub fn progress_messages(mode: Mode) -> (r: (&'static str, &'static str))
    ensures
        mode is Read ==> r.0@ == "Started reading."@ && r.1@ == "Successfully read."@,
        mode is Write ==> r.0@ == "Started writing."@ && r.1@ == "Successfully written."@,
        mode is Purge ==> r.0@ == "Started purging."@ && r.1@ == "Successfully purged."@,
{
    match mode {
        Mode::Read(_) => ("Started reading.", "Successfully read."),
        Mode::Write => ("Started writing.", "Successfully written."),
        Mode::Purge => ("Started purging.", "Successfully purged."),
    }
}

/// The text of an ignore file: for each file, its name and a line feed,
/// then each of its ignored lines followed by a line feed.
pub open spec fn ignore_text(entries: Seq<(Seq<char>, Seq<Seq<char>>)>) -> Seq<char>
    decreases entries.len(),
{
    if entries.len() == 0 {
        Seq::empty()
    } else {
        ignore_text(entries.drop_last()) + entries.last().0 + seq!['\n'] + lines_text(entries.last().1)
    }
}

/// Each line followed by a line feed.
pub open spec fn lines_text(lines: Seq<Seq<char>>) -> Seq<char>
    decreases lines.len(),
{
    if lines.len() == 0 {
        Seq::empty()
    } else {
        lines_text(lines.drop_last()) + lines.last() + seq!['\n']
    }
}

/// The plain view of ignore entries.
pub open spec fn ignore_entries_view(entries: Seq<(String, Vec<String>)>) -> Seq<(Seq<char>, Seq<Seq<char>>)> {
    entries.map_values(|e: (String, Vec<String>)| (e.0@, e.1@.map_values(|l: String| l@)))
}

/// The text of an ignore file for `entries`.
pub fn ignore_file_text(entries: &Vec<(String, Vec<String>)>) -> (r: String)
    ensures
        r@ == ignore_text(ignore_entries_view(entries@)),
{
    let ghost v = ignore_entries_view(entries@);
    let mut r = String::new();
    let n = entries.len();
    let mut i: usize = 0;
    while i < n
        invariant
            n == entries@.len(),
            v == ignore_entries_view(entries@),
            i <= n,
            r@ == ignore_text(v.take(i as int)),
        decreases n - i,
    {
        let ghost before = r@;
        r.append(entries[i].0.as_str());
        string_push(&mut r, '\n');
        let lines = &entries[i].1;
        let ghost lv = lines@.map_values(|l: String| l@);
        let m = lines.len();
        let mut j: usize = 0;
        let ghost mid = r@;
        while j < m
            invariant
                m == lines@.len(),
                lv == lines@.map_values(|l: String| l@),
                j <= m,
                r@ == mid + lines_text(lv.take(j as int)),
            decreases m - j,
        {
            r.append(lines[j].as_str());
            string_push(&mut r, '\n');
            j = j + 1;
            proof {
                assert(lv.take(j as int).drop_last() =~= lv.take(j - 1));
                assert(r@ =~= mid + lines_text(lv.take(j as int)));
            }
        }
        i = i + 1;
        proof {
            assert(lv.take(m as int) =~= lv);
            assert(v[i - 1] == (entries@[i - 1].0@, lv));
            assert(v.take(i as int).drop_last() =~= v.take(i - 1));
            assert(r@ =~= ignore_text(v.take(i as int)));
        }
    }
    proof {
        assert(v.take(n as int) =~= v);
    }
    r
}

/// A file is skipped only when a hash is already recorded under its key and
/// equals the new hash, in append mode without force: a file whose key has
/// no recorded hash (such as one that a game update added) is never
/// skipped, whatever the other keys hold, and neither is a changed file.
pub proof fn law_skip_needs_recorded_equal_hash(
    hashes: Map<Seq<char>, u64>,
    mode: Mode,
    key: Seq<char>,
    hash: u64,
)
    ensures
        skips_file(hashes, mode, key, hash) ==> hashes.contains_key(key) && hashes[key] == hash && mode
            == Mode::Read(ReadMode::Append { force: false }),
        !hashes.contains_key(key) ==> !skips_file(hashes, mode, key, hash),
        hashes.contains_key(key) && hashes[key] != hash ==> !skips_file(hashes, mode, key, hash),
{
}

/// Recording the hash of a file and recording it again skips the file the
/// second time exactly in append mode without force; a different hash is
/// never skipped.
pub proof fn law_unchanged_file_is_skipped(
    hashes: Map<Seq<char>, u64>,
    mode: Mode,
    key: Seq<char>,
    hash: u64,
    other: u64,
)
    ensures
        skips_file(hashes.insert(key, hash), mode, key, hash) == (mode == Mode::Read(
            ReadMode::Append { force: false },
        )),
        other != hash ==> !skips_file(hashes.insert(key, hash), mode, key, other),
{
}

/// Settings for extracting the text of RPG Maker files into translation
/// files.
pub struct Reader {
    processor: Processor,
}

impl Reader {
    /// The settings of this reader.
    pub closed spec fn settings(&self) -> Processor {
        self.processor
    }

    /// A reader with default settings: the default read mode without force, all files, no
    /// flags, duplicates allowed, and every other option off.
    pub fn new() -> (r: Reader)
        ensures
            default_settings(r.settings(), Mode::Read(ReadMode::Default { force: false })),
    {
        Reader { processor: Processor::with_mode(Mode::Read(ReadMode::Default { force: false })) }
    }

    /// Sets which files to process.
    pub fn set_files(&mut self, flags: FileFlags)
        ensures
            final(self).settings() == (Processor { file_flags: flags, ..old(self).settings() }),
            final(self).settings() == apply_step(old(self).settings(), BuilderStep::Files(flags)),
    {
        self.processor.file_flags = flags;
    }

    /// Sets the read mode.
    pub fn set_read_mode(&mut self, mode: ReadMode)
        ensures
            final(self).settings() == (Processor { mode: Mode::Read(mode), ..old(self).settings() }),
            final(self).settings() == apply_step(old(self).settings(), BuilderStep::Reading(mode)),
    {
        self.processor.mode = Mode::Read(mode);
    }

    /// Sets the game that custom processing is tailored to.
    pub fn set_game_type(&mut self, game_type: GameType)
        ensures
            final(self).settings() == (Processor { game_type: game_type, ..old(self).settings() }),
            final(self).settings() == apply_step(old(self).settings(), BuilderStep::Game(game_type)),
    {
        self.processor.game_type = game_type;
    }

    /// Sets a game title that overrides the one of the system file.
    pub fn set_game_title(&mut self, game_title: &str)
        ensures
            final(self).settings().game_title@ == game_title@,
            final(self).settings() == (Processor { game_title: final(self).settings().game_title, ..old(self).settings() }),
    {
        self.processor.game_title = game_title.to_owned();
    }

    /// Sets how to process the text.
    pub fn set_flags(&mut self, flags: BaseFlags)
        ensures
            final(self).settings() == (Processor { flags: flags, ..old(self).settings() }),
            final(self).settings() == apply_step(old(self).settings(), BuilderStep::Flags(flags)),
    {
        self.processor.flags = flags;
    }

    /// Sets what to do with duplicate lines; it must be the one that the read used.
    pub fn set_duplicate_mode(&mut self, mode: DuplicateMode)
        ensures
            final(self).settings() == (Processor { duplicate_mode: mode, ..old(self).settings() }),
            final(self).settings() == apply_step(old(self).settings(), BuilderStep::Duplicates(mode)),
    {
        self.processor.duplicate_mode = mode;
    }

    /// Sets the indices of maps to leave alone.
    pub fn set_skip_maps(&mut self, map_indices: Vec<u16>)
        ensures
            final(self).settings() == (Processor { skip_maps: map_indices, ..old(self).settings() }),
            final(self).settings() == apply_step(old(self).settings(), BuilderStep::SkipMaps(map_indices)),
    {
        self.processor.skip_maps = map_indices;
    }

    /// Sets the indices of events to leave alone, per kind of file.
    pub fn set_skip_events(&mut self, event_indices: Vec<(RPGMFileType, Vec<u16>)>)
        ensures
            final(self).settings() == (Processor { skip_events: event_indices, ..old(self).settings() }),
            final(self).settings() == apply_step(old(self).settings(), BuilderStep::SkipEvents(event_indices)),
    {
        self.processor.skip_events = event_indices;
    }

    /// Sets whether to note the metadata of map events as comments.
    pub fn set_map_events(&mut self, enabled: bool)
        ensures
            final(self).settings() == (Processor { map_events: enabled, ..old(self).settings() }),
            final(self).settings() == apply_step(old(self).settings(), BuilderStep::MapEvents(enabled)),
    {
        self.processor.map_events = enabled;
    }

    /// Sets the hashes of a previous read; a later pair replaces an earlier one with the same key.
    pub fn set_hashes(&mut self, hashes: Vec<(String, u64)>)
        ensures
            final(self).settings().hashes@ == pairs_map(hashes@),
            final(self).settings() == (Processor { hashes: final(self).settings().hashes, ..old(self).settings() }),
    {
        self.processor.hashes = FileHashes::from_pairs(hashes);
    }

    /// Hands out the hashes of the processed files, each file once, and
    /// forgets them.
    pub fn hashes(&mut self) -> (r: Vec<(String, u64)>)
        ensures
            pairs_map(r@) == old(self).settings().hashes@,
            crate::hashes::distinct_keys(r@),
            final(self).settings().hashes@ == Map::<Seq<char>, u64>::empty(),
            final(self).settings() == (Processor { hashes: final(self).settings().hashes, ..old(self).settings() }),
    {
        self.processor.hashes.take_pairs()
    }
}

/// Settings for writing translations back into RPG Maker files; they should
/// match those of the read.
pub struct Writer {
    processor: Processor,
}

impl Writer {
    /// The settings of this writer.
    pub closed spec fn settings(&self) -> Processor {
        self.processor
    }

    /// A writer with default settings: writing, all files, no
    /// flags, duplicates allowed, and every other option off.
    pub fn new() -> (r: Writer)
        ensures
            default_settings(r.settings(), Mode::Write),
    {
        Writer { processor: Processor::with_mode(Mode::Write) }
    }

    /// Sets which files to process.
    pub fn set_files(&mut self, flags: FileFlags)
        ensures
            final(self).settings() == (Processor { file_flags: flags, ..old(self).settings() }),
    {
        self.processor.file_flags = flags;
    }

    /// Sets how to process the text.
    pub fn set_flags(&mut self, flags: BaseFlags)
        ensures
            final(self).settings() == (Processor { flags: flags, ..old(self).settings() }),
    {
        self.processor.flags = flags;
    }

    /// Sets what to do with duplicate lines; it must be the one that the read used.
    pub fn set_duplicate_mode(&mut self, mode: DuplicateMode)
        ensures
            final(self).settings() == (Processor { duplicate_mode: mode, ..old(self).settings() }),
    {
        self.processor.duplicate_mode = mode;
    }

    /// Sets the game that custom processing is tailored to.
    pub fn set_game_type(&mut self, game_type: GameType)
        ensures
            final(self).settings() == (Processor { game_type: game_type, ..old(self).settings() }),
    {
        self.processor.game_type = game_type;
    }

    /// Sets the hashes of a previous read; a later pair replaces an earlier one with the same key.
    pub fn set_hashes(&mut self, hashes: Vec<(String, u64)>)
        ensures
            final(self).settings().hashes@ == pairs_map(hashes@),
            final(self).settings() == (Processor { hashes: final(self).settings().hashes, ..old(self).settings() }),
    {
        self.processor.hashes = FileHashes::from_pairs(hashes);
    }

    /// Sets the indices of maps to leave alone.
    pub fn set_skip_maps(&mut self, map_indices: Vec<u16>)
        ensures
            final(self).settings() == (Processor { skip_maps: map_indices, ..old(self).settings() }),
    {
        self.processor.skip_maps = map_indices;
    }

    /// Sets the indices of events to leave alone, per kind of file.
    pub fn set_skip_events(&mut self, event_indices: Vec<(RPGMFileType, Vec<u16>)>)
        ensures
            final(self).settings() == (Processor { skip_events: event_indices, ..old(self).settings() }),
    {
        self.processor.skip_events = event_indices;
    }
}

/// Settings for removing lines with empty translations from translation
/// files.
pub struct Purger {
    processor: Processor,
}

impl Purger {
    /// The settings of this purger.
    pub closed spec fn settings(&self) -> Processor {
        self.processor
    }

    /// A purger with default settings: purging, all files, no
    /// flags, duplicates allowed, and every other option off.
    pub fn new() -> (r: Purger)
        ensures
            default_settings(r.settings(), Mode::Purge),
    {
        Purger { processor: Processor::with_mode(Mode::Purge) }
    }

    /// Sets which files to process.
    pub fn set_files(&mut self, flags: FileFlags)
        ensures
            final(self).settings() == (Processor { file_flags: flags, ..old(self).settings() }),
    {
        self.processor.file_flags = flags;
    }

    /// Sets how to process the text.
    pub fn set_flags(&mut self, flags: BaseFlags)
        ensures
            final(self).settings() == (Processor { flags: flags, ..old(self).settings() }),
    {
        self.processor.flags = flags;
    }

    /// Sets what to do with duplicate lines; it must be the one that the read used.
    pub fn set_duplicate_mode(&mut self, mode: DuplicateMode)
        ensures
            final(self).settings() == (Processor { duplicate_mode: mode, ..old(self).settings() }),
    {
        self.processor.duplicate_mode = mode;
    }

    /// Sets the game that custom processing is tailored to.
    pub fn set_game_type(&mut self, game_type: GameType)
        ensures
            final(self).settings() == (Processor { game_type: game_type, ..old(self).settings() }),
    {
        self.processor.game_type = game_type;
    }

    /// Sets the hashes of a previous read; a later pair replaces an earlier one with the same key.
    pub fn set_hashes(&mut self, hashes: Vec<(String, u64)>)
        ensures
            final(self).settings().hashes@ == pairs_map(hashes@),
            final(self).settings() == (Processor { hashes: final(self).settings().hashes, ..old(self).settings() }),
    {
        self.processor.hashes = FileHashes::from_pairs(hashes);
    }

    /// Sets the indices of maps to leave alone.
    pub fn set_skip_maps(&mut self, map_indices: Vec<u16>)
        ensures
            final(self).settings() == (Processor { skip_maps: map_indices, ..old(self).settings() }),
    {
        self.processor.skip_maps = map_indices;
    }

    /// Sets the indices of events to leave alone, per kind of file.
    pub fn set_skip_events(&mut self, event_indices: Vec<(RPGMFileType, Vec<u16>)>)
        ensures
            final(self).settings() == (Processor { skip_events: event_indices, ..old(self).settings() }),
    {
        self.processor.skip_events = event_indices;
    }
}

/// Builds a [`Reader`] step by step.
pub struct ReaderBuilder {
    reader: Reader,
}

impl ReaderBuilder {
    /// The settings that the built reader will have.
    pub closed spec fn settings(&self) -> Processor {
        self.reader.settings()
    }

    /// A builder with the settings of `Reader::new`.
    pub fn new() -> (r: ReaderBuilder)
        ensures
            default_settings(r.settings(), Mode::Read(ReadMode::Default { force: false })),
    {
        ReaderBuilder { reader: Reader::new() }
    }

    /// Sets which files to process.
    pub fn with_files(self, flags: FileFlags) -> (r: ReaderBuilder)
        ensures
            r.settings() == (Processor { file_flags: flags, ..self.settings() }),
            r.settings() == apply_step(self.settings(), BuilderStep::Files(flags)),
    {
        let mut b = self;
        b.reader.set_files(flags);
        b
    }

    /// Sets how to process the text.
    pub fn with_flags(self, flags: BaseFlags) -> (r: ReaderBuilder)
        ensures
            r.settings() == (Processor { flags: flags, ..self.settings() }),
            r.settings() == apply_step(self.settings(), BuilderStep::Flags(flags)),
    {
        let mut b = self;
        b.reader.set_flags(flags);
        b
    }

    /// Sets the read mode.
    pub fn read_mode(self, mode: ReadMode) -> (r: ReaderBuilder)
        ensures
            r.settings() == (Processor { mode: Mode::Read(mode), ..self.settings() }),
            r.settings() == apply_step(self.settings(), BuilderStep::Reading(mode)),
    {
        let mut b = self;
        b.reader.set_read_mode(mode);
        b
    }

    /// Sets what to do with duplicate lines.
    pub fn duplicate_mode(self, mode: DuplicateMode) -> (r: ReaderBuilder)
        ensures
            r.settings() == (Processor { duplicate_mode: mode, ..self.settings() }),
            r.settings() == apply_step(self.settings(), BuilderStep::Duplicates(mode)),
    {
        let mut b = self;
        b.reader.set_duplicate_mode(mode);
        b
    }

    /// Sets the game that custom processing is tailored to.
    pub fn game_type(self, game_type: GameType) -> (r: ReaderBuilder)
        ensures
            r.settings() == (Processor { game_type: game_type, ..self.settings() }),
            r.settings() == apply_step(self.settings(), BuilderStep::Game(game_type)),
    {
        let mut b = self;
        b.reader.set_game_type(game_type);
        b
    }

    /// Sets a game title that overrides the one of the system file.
    pub fn game_title(self, game_title: &str) -> (r: ReaderBuilder)
        ensures
            r.settings().game_title@ == game_title@,
            r.settings() == (Processor { game_title: r.settings().game_title, ..self.settings() }),
    {
        let mut b = self;
        b.reader.set_game_title(game_title);
        b
    }

    /// Sets the hashes of a previous read.
    pub fn hashes(self, hashes: Vec<(String, u64)>) -> (r: ReaderBuilder)
        ensures
            r.settings().hashes@ == pairs_map(hashes@),
            r.settings() == (Processor { hashes: r.settings().hashes, ..self.settings() }),
    {
        let mut b = self;
        b.reader.set_hashes(hashes);
        b
    }

    /// Sets the indices of maps to leave alone.
    pub fn skip_maps(self, map_indices: Vec<u16>) -> (r: ReaderBuilder)
        ensures
            r.settings() == (Processor { skip_maps: map_indices, ..self.settings() }),
            r.settings() == apply_step(self.settings(), BuilderStep::SkipMaps(map_indices)),
    {
        let mut b = self;
        b.reader.set_skip_maps(map_indices);
        b
    }

    /// Sets the indices of events to leave alone, per kind of file.
    pub fn skip_events(self, skip_events: Vec<(RPGMFileType, Vec<u16>)>) -> (r: ReaderBuilder)
        ensures
            r.settings() == (Processor { skip_events: skip_events, ..self.settings() }),
            r.settings() == apply_step(self.settings(), BuilderStep::SkipEvents(skip_events)),
    {
        let mut b = self;
        b.reader.set_skip_events(skip_events);
        b
    }

    /// Sets whether to note the metadata of map events as comments.
    pub fn map_events(self, enabled: bool) -> (r: ReaderBuilder)
        ensures
            r.settings() == (Processor { map_events: enabled, ..self.settings() }),
            r.settings() == apply_step(self.settings(), BuilderStep::MapEvents(enabled)),
    {
        let mut b = self;
        b.reader.set_map_events(enabled);
        b
    }

    /// The reader.
    pub fn build(self) -> (r: Reader)
        ensures
            r.settings() == self.settings(),
    {
        self.reader
    }
}

/// One setting call on a reader, writer or purger builder, with its
/// argument. The read mode and map events are set on readers only.
pub ghost enum BuilderStep {
    Files(FileFlags),
    Flags(BaseFlags),
    Duplicates(DuplicateMode),
    Game(GameType),
    SkipMaps(Vec<u16>),
    SkipEvents(Vec<(RPGMFileType, Vec<u16>)>),
    Reading(ReadMode),
    MapEvents(bool),
}

/// Which setting a step sets: files, flags, duplicate mode, game type,
/// skipped maps, skipped events, read mode, map events, in this order.
pub open spec fn step_kind(s: BuilderStep) -> int {
    match s {
        BuilderStep::Files(_) => 0,
        BuilderStep::Flags(_) => 1,
        BuilderStep::Duplicates(_) => 2,
        BuilderStep::Game(_) => 3,
        BuilderStep::SkipMaps(_) => 4,
        BuilderStep::SkipEvents(_) => 5,
        BuilderStep::Reading(_) => 6,
        BuilderStep::MapEvents(_) => 7,
    }
}

/// The settings after one step.
pub open spec fn apply_step(p: Processor, s: BuilderStep) -> Processor {
    match s {
        BuilderStep::Files(f) => Processor { file_flags: f, ..p },
        BuilderStep::Flags(f) => Processor { flags: f, ..p },
        BuilderStep::Duplicates(d) => Processor { duplicate_mode: d, ..p },
        BuilderStep::Game(g) => Processor { game_type: g, ..p },
        BuilderStep::SkipMaps(m) => Processor { skip_maps: m, ..p },
        BuilderStep::SkipEvents(e) => Processor { skip_events: e, ..p },
        BuilderStep::Reading(m) => Processor { mode: Mode::Read(m), ..p },
        BuilderStep::MapEvents(e) => Processor { map_events: e, ..p },
    }
}

/// The settings after the steps, one after the other.
pub open spec fn apply_steps(p: Processor, steps: Seq<BuilderStep>) -> Processor
    decreases steps.len(),
{
    if steps.len() == 0 {
        p
    } else {
        apply_step(apply_steps(p, steps.drop_last()), steps.last())
    }
}

/// The index of the last step of kind `k`, or `-1` when there is none.
pub open spec fn last_step_of(steps: Seq<BuilderStep>, k: int) -> int
    decreases steps.len(),
{
    if steps.len() == 0 {
        -1
    } else if step_kind(steps.last()) == k {
        steps.len() - 1
    } else {
        last_step_of(steps.drop_last(), k)
    }
}

/// Each setting of `p` is the argument of the last step that sets it (for
/// the mode, reading in the last read mode set), or the setting of `p0`
/// when no step sets it; the hashes and title are those of `p0`.
pub open spec fn follows_steps(p0: Processor, steps: Seq<BuilderStep>, p: Processor) -> bool {
    let i0 = last_step_of(steps, 0);
    let i1 = last_step_of(steps, 1);
    let i2 = last_step_of(steps, 2);
    let i3 = last_step_of(steps, 3);
    let i4 = last_step_of(steps, 4);
    let i5 = last_step_of(steps, 5);
    let i6 = last_step_of(steps, 6);
    let i7 = last_step_of(steps, 7);
    &&& p.hashes == p0.hashes
    &&& p.game_title == p0.game_title
    &&& if i6 < 0 { p.mode == p0.mode } else { steps[i6] matches BuilderStep::Reading(m) && p.mode == Mode::Read(m) }
    &&& if i7 < 0 { p.map_events == p0.map_events } else { steps[i7] == BuilderStep::MapEvents(p.map_events) }
    &&& if i0 < 0 { p.file_flags == p0.file_flags } else { steps[i0] == BuilderStep::Files(p.file_flags) }
    &&& if i1 < 0 { p.flags == p0.flags } else { steps[i1] == BuilderStep::Flags(p.flags) }
    &&& if i2 < 0 {
        p.duplicate_mode == p0.duplicate_mode
    } else {
        steps[i2] == BuilderStep::Duplicates(p.duplicate_mode)
    }
    &&& if i3 < 0 { p.game_type == p0.game_type } else { steps[i3] == BuilderStep::Game(p.game_type) }
    &&& if i4 < 0 { p.skip_maps == p0.skip_maps } else { steps[i4] == BuilderStep::SkipMaps(p.skip_maps) }
    &&& if i5 < 0 {
        p.skip_events == p0.skip_events
    } else {
        steps[i5] == BuilderStep::SkipEvents(p.skip_events)
    }
}

proof fn lemma_last_step_bounds(steps: Seq<BuilderStep>, k: int)
    ensures
        -1 <= last_step_of(steps, k) < steps.len(),
        last_step_of(steps, k) >= 0 ==> step_kind(steps[last_step_of(steps, k)]) == k,
    decreases steps.len(),
{
    if steps.len() > 0 {
        lemma_last_step_bounds(steps.drop_last(), k);
    }
}

/// Whatever setting calls a builder gets, in whatever order, each setting
/// ends as the argument of the last call that sets it, and the settings that
/// no call sets stay as they were.
pub proof fn law_builder_steps(p0: Processor, steps: Seq<BuilderStep>)
    ensures
        follows_steps(p0, steps, apply_steps(p0, steps)),
    decreases steps.len(),
{
    if steps.len() > 0 {
        let prev = steps.drop_last();
        law_builder_steps(p0, prev);
        lemma_last_step_bounds(prev, 0);
        lemma_last_step_bounds(prev, 1);
        lemma_last_step_bounds(prev, 2);
        lemma_last_step_bounds(prev, 3);
        lemma_last_step_bounds(prev, 4);
        lemma_last_step_bounds(prev, 5);
        lemma_last_step_bounds(prev, 6);
        lemma_last_step_bounds(prev, 7);
    }
}

/// Steps that a writer or purger builder takes: none sets the read mode or
/// map events.
pub open spec fn shared_steps(steps: Seq<BuilderStep>) -> bool {
    forall|i: int| 0 <= i < steps.len() ==> step_kind(#[trigger] steps[i]) < 6
}

proof fn lemma_no_step_of(steps: Seq<BuilderStep>, k: int)
    requires
        shared_steps(steps),
        k >= 6,
    ensures
        last_step_of(steps, k) == -1,
{
    lemma_last_step_bounds(steps, k);
}

/// A reader builder, from `ReaderBuilder::new()` through any setting calls
/// (a title and hashes aside), builds a reader whose every setting is the
/// argument of the last call that sets it, and is that of `Reader::new()`
/// otherwise: the mode reads in the last read mode set, or in the default
/// read mode.
pub proof fn law_reader_builder(p0: Processor, steps: Seq<BuilderStep>)
    requires
        default_settings(p0, Mode::Read(ReadMode::Default { force: false })),
    ensures
        follows_steps(p0, steps, apply_steps(p0, steps)),
        apply_steps(p0, steps).mode is Read,
{
    law_builder_steps(p0, steps);
    lemma_last_step_bounds(steps, 6);
}

/// A writer builder, from `WriterBuilder::new()` through any setting calls,
/// builds a writer: its mode is `Write`, each setting is the argument of the
/// last call that sets it, and every other setting is that of
/// `Writer::new()`.
pub proof fn law_writer_builder(p0: Processor, steps: Seq<BuilderStep>)
    requires
        default_settings(p0, Mode::Write),
        shared_steps(steps),
    ensures
        apply_steps(p0, steps).mode == Mode::Write,
        follows_steps(p0, steps, apply_steps(p0, steps)),
{
    law_builder_steps(p0, steps);
    lemma_no_step_of(steps, 6);
}

/// A purger builder, from `PurgerBuilder::new()` through any setting calls,
/// builds a purger: its mode is `Purge`, each setting is the argument of the
/// last call that sets it, and every other setting is that of
/// `Purger::new()`.
pub proof fn law_purger_builder(p0: Processor, steps: Seq<BuilderStep>)
    requires
        default_settings(p0, Mode::Purge),
        shared_steps(steps),
    ensures
        apply_steps(p0, steps).mode == Mode::Purge,
        follows_steps(p0, steps, apply_steps(p0, steps)),
{
    law_builder_steps(p0, steps);
    lemma_no_step_of(steps, 6);
}

/// Builds a [`Writer`] step by step.
pub struct WriterBuilder {
    writer: Writer,
}

impl WriterBuilder {
    /// The settings that the built writer will have.
    pub closed spec fn settings(&self) -> Processor {
        self.writer.settings()
    }

    /// A builder with the settings of `Writer::new`.
    pub fn new() -> (r: WriterBuilder)
        ensures
            default_settings(r.settings(), Mode::Write),
    {
        WriterBuilder { writer: Writer::new() }
    }

    /// Sets which files to process.
    pub fn with_files(self, flags: FileFlags) -> (r: WriterBuilder)
        ensures
            r.settings() == (Processor { file_flags: flags, ..self.settings() }),
            r.settings() == apply_step(self.settings(), BuilderStep::Files(flags)),
    {
        let mut b = self;
        b.writer.set_files(flags);
        b
    }

    /// Sets how to process the text.
    pub fn with_flags(self, flags: BaseFlags) -> (r: WriterBuilder)
        ensures
            r.settings() == (Processor { flags: flags, ..self.settings() }),
            r.settings() == apply_step(self.settings(), BuilderStep::Flags(flags)),
    {
        let mut b = self;
        b.writer.set_flags(flags);
        b
    }

    /// Sets what to do with duplicate lines.
    pub fn duplicate_mode(self, mode: DuplicateMode) -> (r: WriterBuilder)
        ensures
            r.settings() == (Processor { duplicate_mode: mode, ..self.settings() }),
            r.settings() == apply_step(self.settings(), BuilderStep::Duplicates(mode)),
    {
        let mut b = self;
        b.writer.set_duplicate_mode(mode);
        b
    }

    /// Sets the game that custom processing is tailored to.
    pub fn game_type(self, game_type: GameType) -> (r: WriterBuilder)
        ensures
            r.settings() == (Processor { game_type: game_type, ..self.settings() }),
            r.settings() == apply_step(self.settings(), BuilderStep::Game(game_type)),
    {
        let mut b = self;
        b.writer.set_game_type(game_type);
        b
    }

    /// Sets the indices of maps to leave alone.
    pub fn skip_maps(self, map_indices: Vec<u16>) -> (r: WriterBuilder)
        ensures
            r.settings() == (Processor { skip_maps: map_indices, ..self.settings() }),
            r.settings() == apply_step(self.settings(), BuilderStep::SkipMaps(map_indices)),
    {
        let mut b = self;
        b.writer.set_skip_maps(map_indices);
        b
    }

    /// Sets the indices of events to leave alone, per kind of file.
    pub fn skip_events(self, skip_events: Vec<(RPGMFileType, Vec<u16>)>) -> (r: WriterBuilder)
        ensures
            r.settings() == (Processor { skip_events: skip_events, ..self.settings() }),
            r.settings() == apply_step(self.settings(), BuilderStep::SkipEvents(skip_events)),
    {
        let mut b = self;
        b.writer.set_skip_events(skip_events);
        b
    }

    /// The writer.
    pub fn build(self) -> (r: Writer)
        ensures
            r.settings() == self.settings(),
    {
        self.writer
    }
}

/// Builds a [`Purger`] step by step.
pub struct PurgerBuilder {
    purger: Purger,
}

impl PurgerBuilder {
    /// The settings that the built purger will have.
    pub closed spec fn settings(&self) -> Processor {
        self.purger.settings()
    }

    /// A builder with the settings of `Purger::new`.
    pub fn new() -> (r: PurgerBuilder)
        ensures
            default_settings(r.settings(), Mode::Purge),
    {
        PurgerBuilder { purger: Purger::new() }
    }

    /// Sets which files to process.
    pub fn with_files(self, flags: FileFlags) -> (r: PurgerBuilder)
        ensures
            r.settings() == (Processor { file_flags: flags, ..self.settings() }),
            r.settings() == apply_step(self.settings(), BuilderStep::Files(flags)),
    {
        let mut b = self;
        b.purger.set_files(flags);
        b
    }

    /// Sets how to process the text.
    pub fn with_flags(self, flags: BaseFlags) -> (r: PurgerBuilder)
        ensures
            r.settings() == (Processor { flags: flags, ..self.settings() }),
            r.settings() == apply_step(self.settings(), BuilderStep::Flags(flags)),
    {
        let mut b = self;
        b.purger.set_flags(flags);
        b
    }

    /// Sets what to do with duplicate lines.
    pub fn duplicate_mode(self, mode: DuplicateMode) -> (r: PurgerBuilder)
        ensures
            r.settings() == (Processor { duplicate_mode: mode, ..self.settings() }),
            r.settings() == apply_step(self.settings(), BuilderStep::Duplicates(mode)),
    {
        let mut b = self;
        b.purger.set_duplicate_mode(mode);
        b
    }

    /// Sets the game that custom processing is tailored to.
    pub fn game_type(self, game_type: GameType) -> (r: PurgerBuilder)
        ensures
            r.settings() == (Processor { game_type: game_type, ..self.settings() }),
            r.settings() == apply_step(self.settings(), BuilderStep::Game(game_type)),
    {
        let mut b = self;
        b.purger.set_game_type(game_type);
        b
    }

    /// Sets the indices of maps to leave alone.
    pub fn skip_maps(self, map_indices: Vec<u16>) -> (r: PurgerBuilder)
        ensures
            r.settings() == (Processor { skip_maps: map_indices, ..self.settings() }),
            r.settings() == apply_step(self.settings(), BuilderStep::SkipMaps(map_indices)),
    {
        let mut b = self;
        b.purger.set_skip_maps(map_indices);
        b
    }

    /// Sets the indices of events to leave alone, per kind of file.
    pub fn skip_events(self, skip_events: Vec<(RPGMFileType, Vec<u16>)>) -> (r: PurgerBuilder)
        ensures
            r.settings() == (Processor { skip_events: skip_events, ..self.settings() }),
            r.settings() == apply_step(self.settings(), BuilderStep::SkipEvents(skip_events)),
    {
        let mut b = self;
        b.purger.set_skip_events(skip_events);
        b
    }

    /// The purger.
    pub fn build(self) -> (r: Purger)
        ensures
            r.settings() == self.settings(),
    {
        self.purger
    }
}

impl Default for Reader {
    fn default() -> (r: Reader)
        ensures
            default_settings(r.settings(), Mode::Read(ReadMode::Default { force: false })),
    {
        Reader::new()
    }
}

impl Default for Writer {
    fn default() -> (r: Writer)
        ensures
            default_settings(r.settings(), Mode::Write),
    {
        Writer::new()
    }
}

impl Default for Purger {
    fn default() -> (r: Purger)
        ensures
            default_settings(r.settings(), Mode::Purge),
    {
        Purger::new()
    }
}

impl Default for ReaderBuilder {
    fn default() -> (r: ReaderBuilder)
        ensures
            default_settings(r.settings(), Mode::Read(ReadMode::Default { force: false })),
    {
        ReaderBuilder::new()
    }
}

impl Default for WriterBuilder {
    fn default() -> (r: WriterBuilder)
        ensures
            default_settings(r.settings(), Mode::Write),
    {
        WriterBuilder::new()
    }
}

impl Default for PurgerBuilder {
    fn default() -> (r: PurgerBuilder)
        ensures
            default_settings(r.settings(), Mode::Purge),
    {
        PurgerBuilder::new()
    }
}

} // verus!
