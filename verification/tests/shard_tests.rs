use wiki_extract::shard::{shard_dir, shard_path, DirEntry, DirSet, EnsureNested};

#[test]
fn shard_path_two_level_prefix() {
    assert_eq!(shard_dir("out", "Rust.html"), "out/R/u");
    assert_eq!(shard_path("out", "Rust.html"), "out/R/u/Rust.html");
}

#[test]
fn shard_path_single_character_name() {
    assert_eq!(shard_dir("out", "A"), "out/A");
    assert_eq!(shard_path("out", "A"), "out/A/A");
}

#[test]
fn shard_path_empty_name() {
    assert_eq!(shard_dir("out", ""), "out");
    assert_eq!(shard_path("out", ""), "out/");
}

#[test]
fn shard_path_deterministic() {
    assert_eq!(shard_path("out", "Rust.html"), shard_path("out", "Rust.html"));
}

#[test]
fn shard_path_unicode_prefixes() {
    assert_eq!(shard_path("out", "Ζεύς.html"), "out/Ζ/ε/Ζεύς.html");
}

#[test]
fn dir_set_remembers_paths() {
    let mut dirs = DirSet::new();
    let p = String::from("out/R/u");
    assert!(!dirs.check_and_insert(&p));
    assert!(dirs.check_and_insert(&p));
    let q = String::from("out/A/b");
    assert!(!dirs.check_and_insert(&q));
}

#[test]
fn plan_moves_relocates_flat_files_only() {
    let cmd = EnsureNested { target_dir: String::from("t") };
    let entries = vec![
        DirEntry { name: String::from("Ab.html"), is_dir: false },
        DirEntry { name: String::from("R"), is_dir: true },
        DirEntry { name: String::from(""), is_dir: false },
    ];
    let moves = cmd.plan_moves(&entries);
    assert_eq!(moves.len(), 1);
    assert_eq!(moves[0].name, "Ab.html");
    assert_eq!(moves[0].dest_dir, "t/A/b");
    assert_eq!(moves[0].dest_path, "t/A/b/Ab.html");
}

#[test]
fn second_retrofit_pass_moves_nothing() {
    let cmd = EnsureNested { target_dir: String::from("t") };
    // What one pass leaves at the top level: the shard directories it
    // created and the entries it skipped.
    let after_first_pass = vec![
        DirEntry { name: String::from("A"), is_dir: true },
        DirEntry { name: String::from("R"), is_dir: true },
        DirEntry { name: String::from(""), is_dir: false },
    ];
    let moves = cmd.plan_moves(&after_first_pass);
    assert_eq!(moves.len(), 0);
}

#[test]
fn dropped_directory_is_retried() {
    let cmd = EnsureNested { target_dir: String::from("t") };
    let mut dirs = DirSet::new();
    let first = cmd.plan_entry("Ab.html", false, &mut dirs).unwrap();
    assert!(first.1);
    // Creation failed: the caller drops the directory again, so the
    // next file in the same shard asks for it anew.
    dirs.remove(&first.0.dest_dir);
    let second = cmd.plan_entry("Abc.html", false, &mut dirs).unwrap();
    assert!(second.1, "a dropped directory is not elided");
    let p = String::from("t/A/b");
    assert!(dirs.check_and_insert(&p), "the retry remembered it again");
}

#[test]
fn plan_entry_memoizes_shard_directories() {
    let cmd = EnsureNested { target_dir: String::from("t") };
    let mut dirs = DirSet::new();
    let first = cmd.plan_entry("Ab.html", false, &mut dirs).unwrap();
    assert!(first.1, "first file in a shard directory needs mkdir");
    assert_eq!(first.0.dest_path, "t/A/b/Ab.html");
    let second = cmd.plan_entry("Abc.html", false, &mut dirs).unwrap();
    assert!(!second.1, "the shard directory is already known");
    assert_eq!(second.0.dest_path, "t/A/b/Abc.html");
    assert!(cmd.plan_entry("sub", true, &mut dirs).is_none());
    assert!(cmd.plan_entry("", false, &mut dirs).is_none());
}
