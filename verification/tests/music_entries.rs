use ultimate64_manager::music_player::start_directory;
use std::collections::HashMap;
use ultimate64_manager::music_player::{
    BrowserEntry, BrowserEntryType, MusicFileType, MusicPlayer, SidFacts, SidMetadata,
};

fn browser(name: &str, ty: MusicFileType, subsongs: u8) -> BrowserEntry {
    BrowserEntry {
        path: format!("/music/{}", name),
        name: name.to_string(),
        entry_type: BrowserEntryType::MusicFile(ty),
        subsongs,
        sid_tooltip: None,
    }
}

#[test]
fn prg_entry_plays_default_time() {
    let p = MusicPlayer::new("/music".to_string());
    let e = p.create_playlist_entry(&browser("demo.prg", MusicFileType::Prg, 1), MusicFileType::Prg, None, None);
    assert_eq!(e.name, "demo.prg");
    assert_eq!(e.duration, Some(p.default_song_duration));
    assert_eq!(e.subsong, 1);
}

#[test]
fn sid_entry_takes_header_and_database() {
    let mut p = MusicPlayer::new("/music".to_string());
    let mut db = HashMap::new();
    db.insert(0xABCDu128, vec![95u32, 30, 40, 50]);
    p.load_song_lengths(db);
    let facts = SidFacts {
        header: Some((2, SidMetadata { title: "Comic Bakery".to_string(), ..Default::default() })),
        md5: 0xABCD,
    };
    let e = p.create_playlist_entry(
        &browser("comic.sid", MusicFileType::Sid, 1),
        MusicFileType::Sid,
        None,
        Some(facts),
    );
    assert_eq!(e.name, "comic.sid");
    assert_eq!(e.max_subsongs, 4);
    assert_eq!(e.duration, Some(95));
    assert_eq!(e.md5_hash, Some(0xABCD));
    assert_eq!(e.sid_metadata.unwrap().title, "Comic Bakery");

    let unread = p.create_playlist_entry(&browser("x.sid", MusicFileType::Sid, 3), MusicFileType::Sid, None, None);
    assert_eq!(unread.max_subsongs, 3);
    assert_eq!(unread.duration, None);
    assert_eq!(unread.name, "x.sid");
}

#[test]
fn mod_entry_from_contents() {
    let p = MusicPlayer::new("/music".to_string());
    let short = p.create_playlist_entry(
        &browser("tiny.mod", MusicFileType::Mod, 1),
        MusicFileType::Mod,
        Some(&[0u8; 100]),
        None,
    );
    assert_eq!(short.name, "");
    assert_eq!(short.duration, None);

    let mut data = vec![0u8; 1084];
    data[..8].copy_from_slice(b"TESTSONG");
    data[950] = 1;
    data[1080..1084].copy_from_slice(b"M.K.");
    let e = p.create_playlist_entry(
        &browser("song.mod", MusicFileType::Mod, 1),
        MusicFileType::Mod,
        Some(&data),
        None,
    );
    assert_eq!(e.name, "TESTSONG");
    assert!(e.duration.is_some());
}

#[test]
fn start_directory_falls_back_to_home_then_root() {
    assert_eq!(start_directory(Some("/music".to_string()), true, Some("/home/u".to_string())), "/music");
    assert_eq!(start_directory(Some("/gone".to_string()), false, Some("/home/u".to_string())), "/home/u");
    assert_eq!(start_directory(None, true, None), "/");
}
