use std::collections::HashMap;
use ultimate64_manager::music_ops::format_total_duration;
use ultimate64_manager::music_player::{
    browser_entry_kind, entry_duration_text, playlist_badge, search_hit, BrowserClick, SidMetadata, BrowserEntry, BrowserEntryType, MusicFileType,
    SongLengthsEvent, MusicPlayer, PlaybackState,
    PlaylistEntry, SongEndAction, DEFAULT_SONG_DURATION,
};

fn entry(name: &str, file_type: MusicFileType, duration: Option<u32>) -> PlaylistEntry {
    PlaylistEntry {
        path: format!("/music/{}", name),
        name: name.to_string(),
        file_type,
        duration,
        subsong: 1,
        max_subsongs: 1,
        md5_hash: None,
        sid_metadata: None,
    }
}

fn player(n: usize) -> MusicPlayer {
    let mut p = MusicPlayer::new("/music".to_string());
    for i in 0..n {
        p.add_to_playlist(entry(&format!("song{}.sid", i), MusicFileType::Sid, None));
    }
    p
}

#[test]
fn new_player_is_idle() {
    let p = MusicPlayer::new("/home".to_string());
    assert_eq!(p.playback_state, PlaybackState::Stopped);
    assert_eq!(p.current_playing, None);
    assert_eq!(p.default_song_duration, DEFAULT_SONG_DURATION);
    assert_eq!(p.status_message, "Ready");
}

#[test]
fn sequential_queue_walks_forward_and_wraps_backward() {
    let mut p = player(3);
    p.next_track();
    assert_eq!(p.current_playing, Some(0));
    p.next_track();
    p.next_track();
    assert_eq!(p.current_playing, Some(2));
    p.next_track();
    assert_eq!(p.current_playing, None);
    p.previous_track();
    assert_eq!(p.current_playing, Some(0));
    p.previous_track();
    assert_eq!(p.current_playing, Some(2));
}

#[test]
fn previous_undoes_next() {
    let mut p = player(4);
    p.current_playing = Some(1);
    p.next_track();
    p.previous_track();
    assert_eq!(p.current_playing, Some(1));
}

#[test]
fn empty_playlist_has_no_current_entry() {
    let mut p = player(0);
    p.current_playing = Some(3);
    p.next_track();
    assert_eq!(p.current_playing, None);
}

#[test]
fn shuffle_order_is_a_permutation() {
    let mut p = player(20);
    p.toggle_shuffle();
    assert!(p.shuffle_enabled);
    let mut order = p.shuffle_order.clone();
    order.sort();
    assert_eq!(order, (0..20).collect::<Vec<usize>>());
}

#[test]
fn shuffle_queue_follows_the_order() {
    let mut p = player(3);
    p.shuffle_enabled = true;
    p.shuffle_order = vec![2, 0, 1];
    p.next_track();
    assert_eq!(p.current_playing, Some(2));
    p.next_track();
    assert_eq!(p.current_playing, Some(0));
    p.previous_track();
    assert_eq!(p.current_playing, Some(2));
    p.previous_track();
    assert_eq!(p.current_playing, Some(1));
}

#[test]
fn song_duration_prefers_the_database() {
    let mut p = player(0);
    let mut e = entry("a.sid", MusicFileType::Sid, Some(99));
    assert_eq!(p.get_song_duration(&e), 99);
    e.md5_hash = Some(7);
    let mut db = HashMap::new();
    db.insert(7u128, vec![10, 20]);
    p.load_song_lengths(db);
    assert_eq!(p.get_song_duration(&e), 10);
    p.current_subsong = 2;
    assert_eq!(p.get_song_duration(&e), 20);
    p.current_subsong = 3;
    assert_eq!(p.get_song_duration(&e), DEFAULT_SONG_DURATION);
    p.set_default_song_duration(60);
    assert_eq!(p.get_song_duration(&e), 60);
}

#[test]
fn loading_song_lengths_updates_the_playlist() {
    let mut p = player(0);
    let mut e = entry("a.sid", MusicFileType::Sid, None);
    e.md5_hash = Some(1);
    p.add_to_playlist(e);
    let mut db = HashMap::new();
    db.insert(1u128, vec![30, 40, 50]);
    p.load_song_lengths(db);
    assert_eq!(p.playlist[0].max_subsongs, 3);
    assert_eq!(p.playlist[0].duration, Some(30));
    assert_eq!(p.song_lengths_status, "1 entries");
    assert!(p.song_lengths_loaded);
}

#[test]
fn play_starts_the_first_entry() {
    let mut p = player(2);
    let req = p.play().unwrap();
    assert_eq!(req.path, "/music/song0.sid");
    assert_eq!(req.subsong, 1);
    assert_eq!(req.file_type, MusicFileType::Sid);
    assert_eq!(p.playback_state, PlaybackState::Playing);
    assert_eq!(p.status_message, "Playing: song0.sid");
    p.pause();
    assert_eq!(p.playback_state, PlaybackState::Paused);
    assert!(p.play().is_none());
    assert_eq!(p.playback_state, PlaybackState::Playing);
}

#[test]
fn play_names_an_unnamed_entry_by_its_file() {
    let mut p = player(0);
    let mut e = entry("", MusicFileType::Mod, None);
    e.path = "/music/tune.mod".to_string();
    p.add_to_playlist(e);
    p.play();
    assert_eq!(p.status_message, "Playing: tune.mod");
}

#[test]
fn subsongs_step_within_the_file() {
    let mut p = player(1);
    p.playlist[0].max_subsongs = 3;
    p.play();
    assert_eq!(p.max_subsongs, 3);
    let req = p.next_subsong().unwrap();
    assert_eq!(req.subsong, 2);
    assert_eq!(p.current_subsong, 2);
    assert!(p.previous_subsong().is_some());
    assert_eq!(p.current_subsong, 1);
    assert!(p.previous_subsong().is_none());
    assert!(p.set_song_number(4).is_none());
    assert!(p.set_song_number(3).is_some());
    assert_eq!(p.current_subsong, 3);
}

#[test]
fn song_end_moves_on_and_the_playlist_ends() {
    let mut p = player(2);
    p.play();
    match p.song_ended(true) {
        SongEndAction::Play(Some(req)) => assert_eq!(req.path, "/music/song1.sid"),
        other => panic!("unexpected {:?}", other),
    }
    assert!(matches!(p.song_ended(true), SongEndAction::Reboot));
    assert_eq!(p.playback_state, PlaybackState::Stopped);
    assert_eq!(p.status_message, "Playlist ended");
}

#[test]
fn song_end_repeats_and_resets_after_a_mod() {
    let mut p = MusicPlayer::new("/m".to_string());
    p.add_to_playlist(entry("a.mod", MusicFileType::Mod, Some(1)));
    p.repeat_enabled = true;
    p.play();
    assert!(matches!(p.song_ended(true), SongEndAction::ResetThenPlay));
    assert_eq!(p.current_playing, Some(0));
    p.play();
    assert!(matches!(p.song_ended(false), SongEndAction::Play(Some(_))));
}

#[test]
fn timer_ends_the_song_at_its_duration() {
    let mut p = player(0);
    p.add_to_playlist(entry("a.sid", MusicFileType::Sid, Some(2)));
    p.play();
    assert!(matches!(p.timer_tick(false), SongEndAction::Nothing));
    assert_eq!(p.elapsed_seconds, 1);
    assert!(matches!(p.timer_tick(false), SongEndAction::Nothing));
    assert_eq!(p.playback_state, PlaybackState::Stopped);
}

#[test]
fn removing_entries_keeps_the_current_one() {
    let mut p = player(3);
    p.current_playing = Some(2);
    p.remove_from_playlist(0);
    assert_eq!(p.current_playing, Some(1));
    assert_eq!(p.status_message, "Removed: song0.sid");
    p.playback_state = PlaybackState::Playing;
    p.remove_from_playlist(1);
    assert_eq!(p.current_playing, None);
    assert_eq!(p.playback_state, PlaybackState::Stopped);
    p.remove_from_playlist(9);
    assert_eq!(p.playlist.len(), 1);
}

#[test]
fn moving_down_then_up_restores_the_order() {
    let mut p = player(3);
    p.current_playing = Some(1);
    p.move_playlist_item_down(1);
    assert_eq!(p.playlist[2].name, "song1.sid");
    assert_eq!(p.current_playing, Some(2));
    p.move_playlist_item_up(2);
    assert_eq!(p.playlist[1].name, "song1.sid");
    assert_eq!(p.current_playing, Some(1));
    assert_eq!(p.playlist_selected, Some(1));
    p.move_playlist_item_up(0);
    assert_eq!(p.playlist[0].name, "song0.sid");
}

#[test]
fn clearing_stops_playback() {
    let mut p = player(2);
    p.play();
    p.clear_playlist();
    assert!(p.playlist.is_empty());
    assert_eq!(p.playback_state, PlaybackState::Stopped);
    assert_eq!(p.status_message, "Playlist cleared");
}

#[test]
fn total_duration_formats_hours_minutes_seconds() {
    let entries = vec![
        entry("a", MusicFileType::Sid, Some(3600)),
        entry("b", MusicFileType::Sid, None),
        entry("c", MusicFileType::Sid, Some(5)),
    ];
    assert_eq!(format_total_duration(&entries, 180), "1h 3m 5s");
    assert_eq!(format_total_duration(&entries[1..], 180), "3m 5s");
    assert_eq!(format_total_duration(&[], 180), "0m 0s");
}

#[test]
fn browser_lists_music_files_and_directories() {
    assert_eq!(browser_entry_kind(".hidden", true), None);
    assert_eq!(browser_entry_kind("Hubbard", true), Some(BrowserEntryType::Directory));
    assert_eq!(browser_entry_kind("Commando.SID", false), Some(BrowserEntryType::MusicFile(MusicFileType::Sid)));
    assert_eq!(browser_entry_kind("song.mod", false), Some(BrowserEntryType::MusicFile(MusicFileType::Mod)));
    assert_eq!(browser_entry_kind("demo.prg", false), Some(BrowserEntryType::MusicFile(MusicFileType::Prg)));
    assert_eq!(browser_entry_kind("notes.txt", false), None);
    assert_eq!(browser_entry_kind("README", false), None);
}

#[test]
fn search_hits_match_lowercased_names_and_paths() {
    assert_eq!(
        search_hit("Hubbard_Rob", "MUSICIANS/H/Hubbard_Rob", true, "hubbard"),
        Some((BrowserEntryType::Directory, "[DIR] MUSICIANS/H/Hubbard_Rob".to_string()))
    );
    assert_eq!(search_hit("Galway", "MUSICIANS/G/Galway", true, "hubbard"), None);
    assert_eq!(
        search_hit("Commando.sid", "MUSICIANS/H/Hubbard_Rob/Commando.sid", false, "hubbard"),
        Some((BrowserEntryType::MusicFile(MusicFileType::Sid), "MUSICIANS/H/Hubbard_Rob/Commando.sid".to_string()))
    );
    assert_eq!(search_hit("x.txt", "hubbard/x.txt", false, "hubbard"), None);
    assert_eq!(search_hit(".git", ".git", true, "git"), None);
}

fn line(name: &str, kind: BrowserEntryType) -> BrowserEntry {
    BrowserEntry {
        path: format!("/music/{}", name),
        name: name.to_string(),
        entry_type: kind,
        subsongs: 1,
        sid_tooltip: None,
    }
}

#[test]
fn browser_clicks_select_enter_and_play() {
    let mut p = MusicPlayer::new("/music".to_string());
    p.set_browser_directory(
        "/music".to_string(),
        vec![line("Hubbard", BrowserEntryType::Directory), line("a.sid", BrowserEntryType::MusicFile(MusicFileType::Sid))],
    );
    assert!(matches!(p.browser_item_clicked(0), BrowserClick::Navigate(ref d) if d == "/music/Hubbard"));
    assert!(matches!(p.browser_item_clicked(1), BrowserClick::Selected));
    assert_eq!(p.browser_selected, Some(1));
    assert!(matches!(p.browser_item_clicked(1), BrowserClick::AddAndPlay(1)));
    assert!(matches!(p.browser_item_clicked(7), BrowserClick::Nothing));
    assert_eq!(p.parent_directory().as_deref(), Some("/"));
}

#[test]
fn browser_search_flow() {
    let mut p = MusicPlayer::new("/music".to_string());
    p.browser_filter_changed("   ".to_string());
    assert_eq!(p.browser_search(), None);
    assert_eq!(p.status_message, "Enter a search term first");
    p.browser_filter_changed(" Hubbard ".to_string());
    assert_eq!(p.browser_search().as_deref(), Some("hubbard"));
    assert_eq!(p.status_message, "Searching for \" Hubbard \"...");
    p.browser_search_complete(vec![
        line("[DIR] Hubbard", BrowserEntryType::Directory),
        line("x.sid", BrowserEntryType::MusicFile(MusicFileType::Sid)),
        line("y.mod", BrowserEntryType::MusicFile(MusicFileType::Mod)),
    ]);
    assert_eq!(p.status_message, "Found 2 music files");
    assert!(p.browser_search_active);
    p.browser_clear_search(Vec::new());
    assert!(!p.browser_search_active);
    assert_eq!(p.status_message, "Ready");
}

#[test]
fn add_and_play_and_add_all() {
    let mut p = MusicPlayer::new("/music".to_string());
    p.add_all_to_playlist(Vec::new());
    assert_eq!(p.status_message, "No music files in current directory");
    p.add_all_to_playlist(vec![entry("one", MusicFileType::Sid, Some(10)), entry("two", MusicFileType::Mod, None)]);
    assert_eq!(p.status_message, "Added 2 files to playlist");
    let req = p.add_and_play(entry("three", MusicFileType::Sid, Some(30))).unwrap();
    assert_eq!(req.path, "/music/three");
    assert_eq!(p.current_playing, Some(2));
    assert_eq!(p.playback_state, PlaybackState::Playing);
    let req = p.playlist_item_double_click(0).unwrap();
    assert_eq!(req.path, "/music/one");
    assert_eq!(p.current_playing, Some(0));
}

#[test]
fn playlist_save_load_and_song_length_status() {
    let mut p = MusicPlayer::new("/music".to_string());
    p.playlist_saved(Ok("/tmp/a.json".to_string()));
    assert_eq!(p.status_message, "Playlist saved: /tmp/a.json");
    p.playlist_loaded(Err("bad json".to_string()));
    assert_eq!(p.status_message, "Load failed: bad json");
    let mut db = HashMap::new();
    db.insert(7u128, vec![100, 200, 300]);
    p.load_song_lengths(db);
    let mut e = entry("s", MusicFileType::Sid, None);
    e.md5_hash = Some(7);
    p.playlist_loaded(Ok(vec![e, entry("t", MusicFileType::Mod, None)]));
    assert_eq!(p.status_message, "Loaded playlist with 2 entries");
    assert_eq!(p.playlist[0].duration, Some(100));
    assert_eq!(p.playlist[0].max_subsongs, 3);
    assert_eq!(p.playlist[1].duration, None);
    assert_eq!(p.song_lengths_event(SongLengthsEvent::Downloaded(Ok("/tmp/db.md5".to_string()))).as_deref(), Some("/tmp/db.md5"));
    assert_eq!(p.song_lengths_status, "Downloaded to: /tmp/db.md5");
    assert_eq!(p.song_lengths_event(SongLengthsEvent::LoadFailed("x".to_string())), None);
    assert_eq!(p.song_lengths_status, "Load failed: x");
    p.playback_completed(Err("offline".to_string()));
    assert_eq!(p.status_message, "Playback error: offline");
}

#[test]
fn pane_texts() {
    let mut p = MusicPlayer::new("/music".to_string());
    p.elapsed_seconds = 65;
    p.current_song_duration = 185;
    assert_eq!(p.time_display(), "1:05 / 3:05 (-2:00)");
    p.elapsed_seconds = 200;
    assert_eq!(p.time_display(), "3:20 / 3:05 (-0:00)");
    p.current_subsong = 2;
    p.max_subsongs = 7;
    assert_eq!(p.tune_display(), "Tune 2/7");
    let mut e = entry("a", MusicFileType::Sid, Some(125));
    assert_eq!(entry_duration_text(&e), "2:05");
    assert_eq!(entry_duration_text(&entry("b", MusicFileType::Mod, None)), "3:00");
    assert_eq!(playlist_badge(&e), "S");
    e.max_subsongs = 3;
    e.sid_metadata = Some(SidMetadata { video_std: "NTSC".to_string(), num_sids: 2, ..Default::default() });
    assert_eq!(playlist_badge(&e), "S NTSC 2SID x3");
    assert_eq!(playlist_badge(&entry("m", MusicFileType::Mod, None)), "M");
    assert_eq!(playlist_badge(&entry("p", MusicFileType::Prg, None)), "P");
    p.set_browser_directory(
        "/music".to_string(),
        vec![line("Dir", BrowserEntryType::Directory), line("Tune.sid", BrowserEntryType::MusicFile(MusicFileType::Sid))],
    );
    assert_eq!(p.music_count_display(), "1 music files");
    p.browser_filter_changed("TUNE".to_string());
    assert_eq!(p.visible_entries(), vec![1]);
    p.browser_filter_changed(String::new());
    assert_eq!(p.visible_entries(), vec![0, 1]);
}

#[test]
fn search_ignores_the_query_case() {
    assert_eq!(
        search_hit("Hubbard_Rob", "MUSICIANS/H/Hubbard_Rob", true, "HUBBARD"),
        Some((BrowserEntryType::Directory, "[DIR] MUSICIANS/H/Hubbard_Rob".to_string()))
    );
}

#[test]
fn now_playing_shows_tag_name_and_sid_facts() {
    let mut p = MusicPlayer::new("/music".to_string());
    assert_eq!(p.now_playing_text(), "No track selected");
    assert_eq!(p.now_playing_meta(), "");
    let mut e = entry("", MusicFileType::Sid, None);
    e.path = "/music/Commando.sid".to_string();
    e.max_subsongs = 11;
    e.sid_metadata = Some(SidMetadata {
        title: "Commando".to_string(),
        author: "Rob Hubbard".to_string(),
        released: "1985 Elite".to_string(),
        video_std: "PAL".to_string(),
        num_sids: 2,
        sid_info: "2xSID @ $D420".to_string(),
    });
    p.add_to_playlist(e);
    p.current_playing = Some(0);
    assert_eq!(p.now_playing_text(), "[SID] Commando.sid");
    assert_eq!(p.now_playing_meta(), "PAL | 2xSID @ $D420 | 11 tunes | © 1985 Elite");
}

#[test]
fn transport_labels_follow_the_state() {
    let mut p = MusicPlayer::new("/music".to_string());
    assert_eq!(p.play_button(), ("▶", "Start or resume playback"));
    assert_eq!(p.shuffle_label(), "↭ Shuffle");
    assert_eq!(p.repeat_label(), "⟳ Repeat");
    p.playback_state = PlaybackState::Playing;
    p.shuffle_enabled = true;
    p.repeat_enabled = true;
    assert_eq!(p.play_button(), ("‖", "Pause playback"));
    assert_eq!(p.shuffle_label(), "↭ Shuffle: ON");
    assert_eq!(p.repeat_label(), "⟳ Repeat: ON");
}
