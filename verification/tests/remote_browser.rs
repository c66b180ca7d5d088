use ultimate64_manager::remote_browser::{
    is_remote_image_file, is_remote_pdf_file, is_remote_text_file, pick_cover, pick_screenshot,
    primary_runnable, remote_basename, remote_favorite_label, stem_lower, RemoteFileEntry,
};

fn entry(name: &str, is_dir: bool) -> RemoteFileEntry {
    RemoteFileEntry { name: name.to_string(), is_dir, size: 0, path: format!("/games/{}", name) }
}

#[test]
fn pick_cover_none_when_no_images() {
    let files = vec![entry("game.prg", false), entry("readme.txt", false)];
    assert_eq!(pick_cover(&files, None), None);
}

#[test]
fn pick_cover_prefers_stem_match_to_selection() {
    let files = vec![entry("cover.jpg", false), entry("game.png", false), entry("game.prg", false)];
    assert_eq!(pick_cover(&files, Some("game")).as_deref(), Some("/games/game.png"));
}

#[test]
fn pick_cover_falls_back_to_conventional_name() {
    let files = vec![entry("aaa_screenshot.jpg", false), entry("box.png", false)];
    assert_eq!(pick_cover(&files, None).as_deref(), Some("/games/box.png"));
}

#[test]
fn pick_cover_falls_back_to_first_image() {
    let files = vec![entry("zzz.jpg", false), entry("aaa.png", false)];
    assert_eq!(pick_cover(&files, None).as_deref(), Some("/games/zzz.jpg"));
}

#[test]
fn pick_cover_is_case_insensitive() {
    let files = vec![entry("COVER.JPG", false)];
    assert_eq!(pick_cover(&files, None).as_deref(), Some("/games/COVER.JPG"));
}

#[test]
fn stem_lower_strips_extension() {
    assert_eq!(stem_lower("Game.PRG"), "game");
    assert_eq!(stem_lower("no_ext"), "no_ext");
    assert_eq!(stem_lower(".hidden"), ".hidden");
}

#[test]
fn pick_screenshot_skips_the_cover() {
    let files = vec![entry("cover.jpg", false), entry("play.png", false)];
    let cover = pick_cover(&files, None);
    assert_eq!(cover.as_deref(), Some("/games/cover.jpg"));
    assert_eq!(pick_screenshot(&files, cover.as_deref()).as_deref(), Some("/games/play.png"));
}

#[test]
fn pick_screenshot_prefers_hint_names() {
    let files = vec![entry("cover.jpg", false), entry("aaa.png", false), entry("ingame.png", false)];
    let cover = pick_cover(&files, None);
    assert_eq!(pick_screenshot(&files, cover.as_deref()).as_deref(), Some("/games/ingame.png"));
}

#[test]
fn pick_screenshot_none_with_single_image() {
    let files = vec![entry("cover.jpg", false), entry("game.prg", false)];
    let cover = pick_cover(&files, None);
    assert_eq!(pick_screenshot(&files, cover.as_deref()), None);
}

#[test]
fn primary_runnable_prefers_prg_then_crt_then_disk() {
    let disk_only = vec![entry("game.d64", false), entry("readme.txt", false)];
    assert_eq!(primary_runnable(&disk_only).map(|f| f.name.as_str()), Some("game.d64"));

    let crt_and_disk = vec![entry("game.d64", false), entry("game.crt", false)];
    assert_eq!(primary_runnable(&crt_and_disk).map(|f| f.name.as_str()), Some("game.crt"));

    let all = vec![entry("game.d64", false), entry("game.crt", false), entry("loader.prg", false)];
    assert_eq!(primary_runnable(&all).map(|f| f.name.as_str()), Some("loader.prg"));

    let none = vec![entry("cover.jpg", false), entry("readme.txt", false)];
    assert!(primary_runnable(&none).is_none());
}

#[test]
fn images_inside_directories_are_not_covers() {
    let files = vec![entry("cover.jpg", true)];
    assert_eq!(pick_cover(&files, None), None);
}

#[test]
fn remote_basename_takes_the_last_segment() {
    assert_eq!(remote_basename("/Usb0/games/"), "games");
    assert_eq!(remote_basename("/Usb0/games/ninja.d64"), "ninja.d64");
    assert_eq!(remote_basename("/"), "/");
    assert_eq!(remote_basename(""), "/");
    assert_eq!(remote_basename("plain"), "plain");
}

#[test]
fn remote_favorite_label_names_the_root() {
    assert_eq!(remote_favorite_label(""), "/");
    assert_eq!(remote_favorite_label("/Usb0"), "/Usb0");
}

#[test]
fn remote_file_kinds_follow_the_extension() {
    assert!(is_remote_text_file("README.TXT"));
    assert!(is_remote_image_file("shot.Png"));
    assert!(is_remote_pdf_file("manual.pdf"));
    assert!(!is_remote_pdf_file("manual.pdf.d64"));
}

#[test]
fn pick_cover_matches_the_selection_ignoring_case() {
    let files = vec![entry("cover.jpg", false), entry("game.png", false)];
    assert_eq!(pick_cover(&files, Some("GAME")).as_deref(), Some("/games/game.png"));
}
