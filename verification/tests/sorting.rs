use ultimate64_manager::file_types::{sort_by_clicked, SortColumn, SortOrder};
use ultimate64_manager::music_player::{order_browser_entries, BrowserEntry, BrowserEntryType, MusicFileType};
use ultimate64_manager::profile_repo::{sort_baseline_names, sort_profile_entries, ProfileEntry};
use ultimate64_manager::remote_browser::{sort_remote_files, RemoteFileEntry};
use ultimate64_manager::sorting::{compare_keys, sort_by_keys, stable_sort_order, SortKey};

fn file(name: &str, is_dir: bool, size: u64) -> RemoteFileEntry {
    RemoteFileEntry { name: name.to_string(), is_dir, size, path: format!("/{}", name) }
}

fn names(files: &[RemoteFileEntry]) -> Vec<&str> {
    files.iter().map(|f| f.name.as_str()).collect()
}

fn key(group: u8, text: &str, number: u64) -> SortKey {
    SortKey { group, text: text.chars().collect(), number }
}

#[test]
fn remote_files_sort_directories_first_by_name() {
    let files = vec![
        file("zeta.prg", false, 10),
        file("Games", true, 0),
        file("alpha.d64", false, 20),
        file("demos", true, 0),
    ];
    let sorted = sort_remote_files(files, SortColumn::Name, SortOrder::Ascending);
    assert_eq!(names(&sorted), vec!["demos", "Games", "alpha.d64", "zeta.prg"]);
}

#[test]
fn remote_files_sort_descending_keeps_directories_first() {
    let files = vec![
        file("a.prg", false, 1),
        file("b.prg", false, 2),
        file("dir", true, 0),
    ];
    let sorted = sort_remote_files(files, SortColumn::Name, SortOrder::Descending);
    assert_eq!(names(&sorted), vec!["dir", "b.prg", "a.prg"]);
}

#[test]
fn remote_files_sort_by_size_and_type() {
    let files = vec![
        file("big.prg", false, 300),
        file("small.d64", false, 5),
        file("mid.crt", false, 40),
    ];
    let by_size = sort_remote_files(files.clone(), SortColumn::Size, SortOrder::Ascending);
    assert_eq!(names(&by_size), vec!["small.d64", "mid.crt", "big.prg"]);
    let by_type = sort_remote_files(files, SortColumn::Type, SortOrder::Ascending);
    assert_eq!(names(&by_type), vec!["mid.crt", "small.d64", "big.prg"]);
}

#[test]
fn remote_files_sort_is_stable_for_equal_keys() {
    let files = vec![file("B.prg", false, 1), file("b.prg", false, 2), file("a.prg", false, 3)];
    let sorted = sort_remote_files(files, SortColumn::Name, SortOrder::Ascending);
    assert_eq!(names(&sorted), vec!["a.prg", "B.prg", "b.prg"]);
    let sizes: Vec<u64> = sorted.iter().map(|f| f.size).collect();
    assert_eq!(sizes, vec![3, 1, 2]);
}

#[test]
fn compare_keys_orders_group_text_number() {
    assert_eq!(compare_keys(&key(0, "z", 9), &key(1, "a", 0), false), -1);
    assert_eq!(compare_keys(&key(1, "a", 0), &key(1, "b", 0), false), -1);
    assert_eq!(compare_keys(&key(1, "ab", 0), &key(1, "a", 0), false), 1);
    assert_eq!(compare_keys(&key(1, "a", 3), &key(1, "a", 2), false), 1);
    assert_eq!(compare_keys(&key(1, "a", 2), &key(1, "a", 2), false), 0);
    assert_eq!(compare_keys(&key(1, "a", 0), &key(1, "b", 0), true), 1);
    assert_eq!(compare_keys(&key(0, "z", 0), &key(1, "a", 0), true), -1);
}

#[test]
fn stable_sort_order_gives_permutation() {
    let keys = vec![key(0, "c", 0), key(0, "a", 0), key(0, "b", 0), key(0, "a", 0)];
    assert_eq!(stable_sort_order(&keys, false), vec![1, 3, 2, 0]);
    assert_eq!(stable_sort_order(&keys, true), vec![0, 2, 1, 3]);
    let items = vec!["c", "a1", "b", "a2"];
    assert_eq!(sort_by_keys(items, &keys, false), vec!["a1", "a2", "b", "c"]);
}

#[test]
fn browser_entries_directories_then_files_by_name() {
    let entry = |name: &str, t: BrowserEntryType| BrowserEntry {
        path: format!("/music/{}", name),
        name: name.to_string(),
        entry_type: t,
        subsongs: 1,
        sid_tooltip: None,
    };
    let sorted = order_browser_entries(vec![
        entry("Zak.sid", BrowserEntryType::MusicFile(MusicFileType::Sid)),
        entry("hubbard", BrowserEntryType::Directory),
        entry("axel.mod", BrowserEntryType::MusicFile(MusicFileType::Mod)),
        entry("Galway", BrowserEntryType::Directory),
    ]);
    let got: Vec<&str> = sorted.iter().map(|e| e.name.as_str()).collect();
    assert_eq!(got, vec!["Galway", "hubbard", "axel.mod", "Zak.sid"]);
}

#[test]
fn profile_entries_sorted_by_lowercase_name() {
    let entry = |id: &str, name: &str| ProfileEntry {
        id: id.to_string(),
        name: name.to_string(),
        category: "games".to_string(),
        mode: "full".to_string(),
        config_categories: 0,
        setting_count: 0,
        tags: Vec::new(),
        path: format!("/p/{}/profile.json", id),
        screenshot_path: None,
    };
    let sorted = sort_profile_entries(vec![entry("1", "beta"), entry("2", "Alpha"), entry("3", "gamma")]);
    let got: Vec<&str> = sorted.iter().map(|e| e.id.as_str()).collect();
    assert_eq!(got, vec!["2", "1", "3"]);
}

#[test]
fn baseline_names_sorted_bytewise() {
    let sorted = sort_baseline_names(vec!["b".to_string(), "B".to_string(), "a".to_string()]);
    assert_eq!(sorted, vec!["B".to_string(), "a".to_string(), "b".to_string()]);
}

#[test]
fn clicking_columns_toggles_or_switches() {
    assert_eq!(SortOrder::Ascending.toggle(), SortOrder::Descending);
    assert_eq!(SortOrder::Descending.toggle(), SortOrder::Ascending);
    assert_eq!(
        sort_by_clicked(SortColumn::Name, SortOrder::Ascending, SortColumn::Name),
        (SortColumn::Name, SortOrder::Descending)
    );
    assert_eq!(
        sort_by_clicked(SortColumn::Name, SortOrder::Descending, SortColumn::Size),
        (SortColumn::Size, SortOrder::Ascending)
    );
}
