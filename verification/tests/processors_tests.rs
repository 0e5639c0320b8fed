use rvpacker_txt::processors::{
    data_dir_name, hash_key, ignore_file_text, progress_messages, run_plan, translation_file_name, Processor,
};
use rvpacker_txt::{
    BaseFlags, DuplicateMode, EngineType, FileFlags, FileHashes, GameType, Mode, Purger,
    PurgerBuilder, RPGMFileType, ReadMode, Reader, ReaderBuilder, Writer, WriterBuilder,
};

fn sorted(mut v: Vec<(String, u64)>) -> Vec<(String, u64)> {
    v.sort();
    v
}

#[test]
fn file_hashes_map() {
    let mut h = FileHashes::new();
    assert_eq!(h.len(), 0);
    h.insert(String::from("map001"), 5);
    h.insert(String::from("system"), 6);
    h.insert(String::from("map001"), 7);
    assert_eq!(h.len(), 2);
    assert_eq!(h.get("map001"), Some(7));
    assert_eq!(h.get("system"), Some(6));
    assert_eq!(h.get("actors"), None);
    let pairs = h.take_pairs();
    assert_eq!(sorted(pairs), vec![(String::from("map001"), 7), (String::from("system"), 6)]);
    assert_eq!(h.len(), 0);
}

#[test]
fn file_hashes_from_pairs_later_wins() {
    let h = FileHashes::from_pairs(vec![
        (String::from("a"), 1),
        (String::from("b"), 2),
        (String::from("a"), 3),
    ]);
    assert_eq!(h.len(), 2);
    assert_eq!(h.get("a"), Some(3));
    assert_eq!(h.get("b"), Some(2));
}

#[test]
fn hash_keys() {
    assert_eq!(hash_key("Map001.rvdata2"), "map001");
    assert_eq!(hash_key("plugins.js"), "plugins");
    assert_eq!(hash_key("NoDot"), "nodot");
    assert_eq!(hash_key(".hidden"), "");
}

#[test]
fn unchanged_file_is_skipped_in_append_mode() {
    let mut p = Processor::with_mode(Mode::Read(ReadMode::Append { force: false }));
    assert!(!p.record_hash("System.json", 10));
    assert!(p.record_hash("system.json", 10));
    assert!(!p.record_hash("System.json", 11));
    assert_eq!(p.hashes.get("system"), Some(11));
    let mut q = Processor::with_mode(Mode::Read(ReadMode::Append { force: true }));
    assert!(!q.record_hash("System.json", 10));
    assert!(!q.record_hash("System.json", 10));
}

#[test]
fn processor_decisions() {
    let mut p = Processor::with_mode(Mode::Read(ReadMode::Default { force: false }));
    assert!(!p.uses_ignore_file());
    assert!(!p.loads_translation());
    assert!(p.skips_existing_translation(true));
    assert!(!p.skips_existing_translation(false));
    p.flags = BaseFlags::create_ignore();
    assert!(p.uses_ignore_file());
    assert!(!p.ignore_file_required());
    p.flags = BaseFlags::ignore();
    assert!(p.uses_ignore_file() && p.ignore_file_required());
    let w = Processor::with_mode(Mode::Write);
    assert!(w.loads_translation());
    assert!(!w.skips_existing_translation(true));
    let f = Processor::with_mode(Mode::Read(ReadMode::Default { force: true }));
    assert!(!f.loads_translation());
    assert!(!f.skips_existing_translation(true));
    assert_eq!(data_dir_name(EngineType::New), "data");
    assert_eq!(data_dir_name(EngineType::XP), "Data");
    assert_eq!(progress_messages(Mode::Purge), ("Started purging.", "Successfully purged."));
    assert_eq!(progress_messages(Mode::Write).1, "Successfully written.");
}

#[test]
fn ignore_file_contents() {
    let entries = vec![
        (String::from("<!-- File: maps -->"), vec![String::from("a"), String::from("b")]),
        (String::from("<!-- File: system -->"), vec![]),
    ];
    assert_eq!(ignore_file_text(&entries), "<!-- File: maps -->\na\nb\n<!-- File: system -->\n");
}

#[test]
fn reader_settings() {
    let mut r = Reader::new();
    r.set_files(FileFlags::map().union(FileFlags::other()));
    r.set_read_mode(ReadMode::Append { force: true });
    r.set_game_type(GameType::Termina);
    r.set_game_title("Title");
    r.set_flags(BaseFlags::trim());
    r.set_duplicate_mode(DuplicateMode::Remove);
    r.set_skip_maps(vec![1, 2]);
    r.set_skip_events(vec![(RPGMFileType::Troops, vec![3])]);
    r.set_map_events(true);
    r.set_hashes(vec![(String::from("map001"), 4), (String::from("map001"), 5)]);
    let h = r.hashes();
    assert_eq!(h, vec![(String::from("map001"), 5)]);
    assert!(r.hashes().is_empty());
}

#[test]
fn builders_build() {
    let r = ReaderBuilder::new()
        .with_files(FileFlags::system())
        .with_flags(BaseFlags::romanize())
        .read_mode(ReadMode::Default { force: true })
        .duplicate_mode(DuplicateMode::Allow)
        .game_type(GameType::LisaRPG)
        .game_title("T")
        .hashes(vec![(String::from("x"), 1)])
        .skip_maps(vec![9])
        .skip_events(vec![])
        .map_events(false)
        .build();
    let mut r = r;
    assert_eq!(r.hashes(), vec![(String::from("x"), 1)]);
    let _w: Writer = WriterBuilder::new()
        .with_files(FileFlags::all())
        .with_flags(BaseFlags::empty())
        .duplicate_mode(DuplicateMode::Remove)
        .game_type(GameType::Standard)
        .skip_maps(vec![])
        .skip_events(vec![])
        .build();
    let _p: Purger = PurgerBuilder::new().with_files(FileFlags::map()).build();
    let mut w = Writer::new();
    w.set_hashes(vec![]);
    w.set_files(FileFlags::empty());
    let mut p = Purger::new();
    p.set_flags(BaseFlags::create_ignore());
    p.set_skip_maps(vec![1]);
}

#[test]
fn run_plans() {
    let mut r = Processor::with_mode(Mode::Read(ReadMode::Append { force: false }));
    let plan = run_plan(&r);
    assert!(!plan.nothing_to_do && plan.output_is_translation && !plan.creates_data_dir);
    r.file_flags = FileFlags::empty();
    assert!(run_plan(&r).nothing_to_do);
    let w = Processor::with_mode(Mode::Write);
    let plan = run_plan(&w);
    assert!(!plan.nothing_to_do && !plan.output_is_translation && plan.creates_data_dir);
    let p = Processor::with_mode(Mode::Purge);
    let plan = run_plan(&p);
    assert!(!plan.output_is_translation && !plan.creates_data_dir);
}

#[test]
fn translation_file_names() {
    assert_eq!(translation_file_name(RPGMFileType::Maps, "Map001.rvdata2"), "maps.txt");
    assert_eq!(translation_file_name(RPGMFileType::System, "System.json"), "system.txt");
    assert_eq!(translation_file_name(RPGMFileType::Plugins, "plugins.js"), "plugins.txt");
    assert_eq!(translation_file_name(RPGMFileType::Scripts, "Scripts.rxdata"), "scripts.txt");
    assert_eq!(translation_file_name(RPGMFileType::Actors, "Actors.json"), "actors.txt");
    assert_eq!(translation_file_name(RPGMFileType::Events, "CommonEvents.rvdata2"), "commonevents.txt");
}
