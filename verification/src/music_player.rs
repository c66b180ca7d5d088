//! Playlist and playback state of the music player: the queue order
//! (sequential or shuffled), subsongs and their durations from the song
//! length database, and the playlist edits.
//!
//! The player decides; whoever drives it performs what a transition asks
//! for (start a file on the device, reset or reboot the machine).
use vstd::prelude::*;
use vstd::std_specs::hash::obeys_key_model;
use std::collections::HashMap;
use rand::seq::SliceRandom;
use crate::text::{chars_of, push_str, string_from_chars};

verus! {

/// Seconds a song plays when its length is unknown.
pub const DEFAULT_SONG_DURATION: u32 = 180;

/// Kind of a playable music file.
#[derive(Debug, Clone, Copy, PartialEq, Eq, Structural)]
pub enum MusicFileType {
    Sid,
    Mod,
    Prg,
}

/// Whether something plays.
#[derive(Debug, Clone, Copy, PartialEq, Eq, Structural)]
pub enum PlaybackState {
    Stopped,
    Playing,
    Paused,
}

/// What a browser line shows.
#[derive(Debug, Clone, Copy, PartialEq, Eq, Structural)]
pub enum BrowserEntryType {
    Directory,
    MusicFile(MusicFileType),
}

/// SID metadata extracted from a file header, kept with playlist entries.
#[derive(Debug, Clone, Default)]
pub struct SidMetadata {
    pub title: String,
    pub author: String,
    pub released: String,
    /// "PAL" or "NTSC".
    pub video_std: String,
    /// 1, 2 or 3.
    pub num_sids: usize,
    /// e.g. "1xSID" or "2xSID @ $D420".
    pub sid_info: String,
}

/// One line of the playlist.
#[derive(Debug, Clone)]
pub struct PlaylistEntry {
    pub path: String,
    /// Display name (from the SID header or the file name).
    pub name: String,
    pub file_type: MusicFileType,
    /// Duration of subsong 1 in seconds.
    pub duration: Option<u32>,
    pub subsong: u8,
    /// Number of subsongs in the file.
    pub max_subsongs: u8,
    /// The file's MD5 digest, its 16 bytes read as a big-endian number.
    pub md5_hash: Option<u128>,
    pub sid_metadata: Option<SidMetadata>,
}

/// One line of the file browser.
#[derive(Debug, Clone)]
pub struct BrowserEntry {
    pub path: String,
    pub name: String,
    pub entry_type: BrowserEntryType,
    /// Number of subsongs (1 for anything but a multi-song SID).
    pub subsongs: u8,
    /// Tooltip with SID header information.
    pub sid_tooltip: Option<String>,
}

/// A playlist as saved to disk.
#[derive(Debug, Clone)]
pub struct SavedPlaylist {
    pub name: String,
    pub entries: Vec<PlaylistEntry>,
}

/// A file to start on the device.
#[derive(Debug, Clone)]
pub struct PlayRequest {
    pub path: String,
    pub subsong: u8,
    pub file_type: MusicFileType,
}

/// What the end of a song asks for.
#[derive(Debug)]
pub enum SongEndAction {
    /// Start this file (`None`: nothing to start).
    Play(Option<PlayRequest>),
    /// Reset the machine (a MOD or PRG keeps running otherwise), then play
    /// the current entry.
    ResetThenPlay,
    /// The playlist ended: reboot the machine to silence it.
    Reboot,
    /// Nothing to do.
    Nothing,
}

/// Music player state: browser, playlist, queue and playback.
pub struct MusicPlayer {
    pub browser_directory: String,
    pub browser_entries: Vec<BrowserEntry>,
    pub browser_selected: Option<usize>,
    pub browser_filter: String,
    pub browser_search_active: bool,
    pub playlist: Vec<PlaylistEntry>,
    pub playlist_selected: Option<usize>,
    pub current_playing: Option<usize>,
    pub playlist_name: String,
    pub playback_state: PlaybackState,
    pub shuffle_enabled: bool,
    pub repeat_enabled: bool,
    pub current_subsong: u8,
    pub max_subsongs: u8,
    pub shuffle_order: Vec<usize>,
    pub elapsed_seconds: u32,
    pub current_song_duration: u32,
    pub default_song_duration: u32,
    /// Song lengths per file digest, one per subsong.
    pub song_lengths: HashMap<u128, Vec<u32>>,
    pub song_lengths_loaded: bool,
    pub song_lengths_status: String,
    pub status_message: String,
}

// ── Queue order ───────────────────────────────────────────────────

/// Position of the first occurrence of `x` in `s`.
pub open spec fn position_of(s: Seq<usize>, x: usize) -> Option<int>
    decreases s.len(),
{
    if s.len() == 0 {
        None
    } else if s[0] == x {
        Some(0)
    } else {
        match position_of(s.drop_first(), x) {
            Some(i) => Some(i + 1),
            None => None,
        }
    }
}

/// `position_of` finds the first occurrence, and one exactly when `x`
/// occurs.
pub proof fn lemma_position_of(s: Seq<usize>, x: usize)
    ensures
        match position_of(s, x) {
            Some(i) => 0 <= i < s.len() && s[i] == x && forall|j: int| 0 <= j < i ==> s[j] != x,
            None => forall|j: int| 0 <= j < s.len() ==> s[j] != x,
        },
    decreases s.len(),
{
    if s.len() > 0 {
        lemma_position_of(s.drop_first(), x);
        if s[0] != x {
            assert forall|j: int| 0 < j < s.len() implies s[j] == s.drop_first()[j - 1] by {}
        }
    }
}

/// The entry played after `current` in a playlist of `len` entries: the
/// next one of the shuffle order when shuffling (its first when `current`
/// is not in it), else the next position; `None` past the end.
pub open spec fn next_spec(len: nat, shuffle: bool, order: Seq<usize>, current: Option<usize>)
    -> Option<usize> {
    if len == 0 {
        None
    } else if shuffle && order.len() > 0 {
        match current {
            Some(c) => match position_of(order, c) {
                Some(pos) => if pos + 1 < order.len() {
                    Some(order[pos + 1])
                } else {
                    None
                },
                None => Some(order[0]),
            },
            None => Some(order[0]),
        }
    } else {
        match current {
            Some(i) => if i + 1 < len {
                Some((i + 1) as usize)
            } else {
                None
            },
            None => Some(0),
        }
    }
}

/// The entry played before `current`: the previous one of the shuffle
/// order (wrapping to its last), else the previous position (wrapping to
/// the last entry).
pub open spec fn previous_spec(
    len: nat,
    shuffle: bool,
    order: Seq<usize>,
    current: Option<usize>,
) -> Option<usize> {
    if len == 0 {
        None
    } else if shuffle && order.len() > 0 {
        match current {
            Some(c) => match position_of(order, c) {
                Some(pos) => if pos == 0 {
                    Some(order[order.len() - 1])
                } else {
                    Some(order[pos - 1])
                },
                None => Some(order[0]),
            },
            None => Some(order[0]),
        }
    } else {
        match current {
            Some(i) => if i == 0 {
                Some((len - 1) as usize)
            } else {
                Some((i - 1) as usize)
            },
            None => Some(0),
        }
    }
}

/// The order a fresh shuffle starts from: `0, 1, …, n - 1`.
pub open spec fn indices(n: nat) -> Seq<usize> {
    Seq::new(n, |i: int| i as usize)
}

/// Shuffles the vector in place with `rand::seq::SliceRandom::shuffle`
/// (rand) driven by `rand::thread_rng()`: the outcome is random, and all
/// that is claimed of it is that it holds the same elements, each as often
/// as before.
#[verifier::external_body]
fn shuffle_in_place(v: &mut Vec<usize>)
    ensures
        final(v)@.to_multiset() == old(v)@.to_multiset(),
{
    v.shuffle(&mut rand::thread_rng());
}

// ── Song lengths ──────────────────────────────────────────────────

/// The song lengths the database holds for an entry's file.
pub open spec fn db_lengths(db: Map<u128, Vec<u32>>, e: PlaylistEntry) -> Option<Seq<u32>> {
    match e.md5_hash {
        Some(h) => if db.contains_key(h) {
            Some(db[h]@)
        } else {
            None
        },
        None => None,
    }
}

/// Index of a (1-based) subsong in the list of song lengths.
pub open spec fn subsong_index(subsong: u8) -> int {
    if subsong >= 1 {
        subsong - 1
    } else {
        0
    }
}

/// How long a subsong of an entry plays: the database's length for it,
/// else the entry's own duration for subsong 1, else the default.
pub open spec fn song_duration_spec(
    db: Map<u128, Vec<u32>>,
    subsong: u8,
    default_duration: u32,
    e: PlaylistEntry,
) -> u32 {
    let from_db = match db_lengths(db, e) {
        Some(ls) => if subsong_index(subsong) < ls.len() {
            Some(ls[subsong_index(subsong)])
        } else {
            None
        },
        None => None,
    };
    match from_db {
        Some(d) => d,
        None => if subsong == 1 && e.duration is Some {
            e.duration->0
        } else {
            default_duration
        },
    }
}

/// The database's length of subsong `subsong` of the entry, if it has one.
fn db_length_of(db: &HashMap<u128, Vec<u32>>, e: &PlaylistEntry, subsong: u8) -> (r: Option<u32>)
    ensures
        r == (match db_lengths(db@, *e) {
            Some(ls) => if subsong_index(subsong) < ls.len() {
                Some(ls[subsong_index(subsong)])
            } else {
                None::<u32>
            },
            None => None,
        }),
{
    broadcast use vstd::std_specs::hash::group_hash_axioms;

    assert(obeys_key_model::<u128>());
    match e.md5_hash {
        Some(h) => match db.get(&h) {
            Some(lengths) => {
                let idx: usize = if subsong >= 1 {
                    (subsong - 1) as usize
                } else {
                    0
                };
                if idx < lengths.len() {
                    Some(lengths[idx])
                } else {
                    None
                }
            },
            None => None,
        },
        None => None,
    }
}

/// The folder the player starts in: the given one where it exists as a
/// directory, else the home folder, else `/`.
pub open spec fn start_directory_spec(
    start_dir: Option<Seq<char>>,
    start_is_dir: bool,
    home: Option<Seq<char>>,
) -> Seq<char> {
    match start_dir {
        Some(d) if start_is_dir => d,
        _ => match home {
            Some(h) => h,
            None => "/"@,
        },
    }
}

/// The folder the player starts in (see `start_directory_spec`), given the
/// folder asked for, whether it exists as a directory, and the home folder.
pub fn start_directory(start_dir: Option<String>, start_is_dir: bool, home: Option<String>) -> (d:
    String)
    ensures
        d@ == start_directory_spec(crate::text::opt_str(start_dir), start_is_dir, crate::text::opt_str(home)),
{
    match start_dir {
        Some(d) if start_is_dir => d,
        _ => match home {
            Some(h) => h,
            None => String::from_str("/"),
        },
    }
}

impl MusicPlayer {
    /// A player browsing `initial_dir`, with an empty playlist, nothing
    /// playing and no song length database.
    pub fn new(initial_dir: String) -> (p: Self)
        ensures
            p.browser_directory@ == initial_dir@,
            p.browser_entries@.len() == 0,
            p.playlist@.len() == 0,
            p.current_playing is None,
            p.playback_state == PlaybackState::Stopped,
            !p.shuffle_enabled,
            !p.repeat_enabled,
            p.current_subsong == 1,
            p.max_subsongs == 1,
            p.shuffle_order@.len() == 0,
            p.elapsed_seconds == 0,
            p.current_song_duration == DEFAULT_SONG_DURATION,
            p.default_song_duration == DEFAULT_SONG_DURATION,
            p.song_lengths@.len() == 0,
            !p.song_lengths_loaded,
            p.song_lengths_status@ == "Song lengths not loaded"@,
            p.playlist_name@ == "My Playlist"@,
            p.status_message@ == "Ready"@,
    {
        MusicPlayer {
            browser_directory: initial_dir,
            browser_entries: Vec::new(),
            browser_selected: None,
            browser_filter: String::new(),
            browser_search_active: false,
            playlist: Vec::new(),
            playlist_selected: None,
            current_playing: None,
            playlist_name: String::from_str("My Playlist"),
            playback_state: PlaybackState::Stopped,
            shuffle_enabled: false,
            repeat_enabled: false,
            current_subsong: 1,
            max_subsongs: 1,
            shuffle_order: Vec::new(),
            elapsed_seconds: 0,
            current_song_duration: DEFAULT_SONG_DURATION,
            default_song_duration: DEFAULT_SONG_DURATION,
            song_lengths: HashMap::new(),
            song_lengths_loaded: false,
            song_lengths_status: String::from_str("Song lengths not loaded"),
            status_message: String::from_str("Ready"),
        }
    }

    /// Set the duration used for songs of unknown length.
    pub fn set_default_song_duration(&mut self, duration: u32)
        ensures
            final(self).default_song_duration == duration,
            final(self).playlist@ == old(self).playlist@,
            final(self).current_playing == old(self).current_playing,
            final(self).current_subsong == old(self).current_subsong,
            final(self).playback_state == old(self).playback_state,
    {
        self.default_song_duration = duration;
    }

    /// How long the current subsong of `entry` plays.
    pub fn get_song_duration(&self, entry: &PlaylistEntry) -> (d: u32)
        ensures
            d == song_duration_spec(
                self.song_lengths@,
                self.current_subsong,
                self.default_song_duration,
                *entry,
            ),
    {
        if let Some(d) = db_length_of(&self.song_lengths, entry, self.current_subsong) {
            return d;
        }
        if self.current_subsong == 1 {
            if let Some(dur) = entry.duration {
                return dur;
            }
        }
        self.default_song_duration
    }

    /// Move to the entry after the current one (see `next_spec`).
    pub fn next_track(&mut self)
        ensures
            final(self)@ == (PlayerView {
                current: next_spec(
                    old(self).playlist@.len(),
                    old(self).shuffle_enabled,
                    old(self).shuffle_order@,
                    old(self).current_playing,
                ),
                ..old(self)@
            }),
            same_browser(old(self), final(self)),
    {
        let len = self.playlist.len();
        if len == 0 {
            self.current_playing = None;
            return;
        }
        if self.shuffle_enabled && self.shuffle_order.len() > 0 {
            self.current_playing = match self.current_playing {
                Some(c) => match find_position(&self.shuffle_order, c) {
                    Some(pos) => {
                        if pos < self.shuffle_order.len() - 1 {
                            Some(self.shuffle_order[pos + 1])
                        } else {
                            None
                        }
                    },
                    None => Some(self.shuffle_order[0]),
                },
                None => Some(self.shuffle_order[0]),
            };
        } else {
            self.current_playing = match self.current_playing {
                Some(i) => {
                    if i < len - 1 {
                        Some(i + 1)
                    } else {
                        None
                    }
                },
                None => Some(0),
            };
        }
    }

    /// Move to the entry before the current one (see `previous_spec`).
    pub fn previous_track(&mut self)
        ensures
            final(self)@ == (PlayerView {
                current: previous_spec(
                    old(self).playlist@.len(),
                    old(self).shuffle_enabled,
                    old(self).shuffle_order@,
                    old(self).current_playing,
                ),
                ..old(self)@
            }),
            same_browser(old(self), final(self)),
    {
        let len = self.playlist.len();
        if len == 0 {
            self.current_playing = None;
            return;
        }
        if self.shuffle_enabled && self.shuffle_order.len() > 0 {
            self.current_playing = match self.current_playing {
                Some(c) => match find_position(&self.shuffle_order, c) {
                    Some(pos) => {
                        if pos == 0 {
                            Some(self.shuffle_order[self.shuffle_order.len() - 1])
                        } else {
                            Some(self.shuffle_order[pos - 1])
                        }
                    },
                    None => Some(self.shuffle_order[0]),
                },
                None => Some(self.shuffle_order[0]),
            };
        } else {
            self.current_playing = match self.current_playing {
                Some(i) => {
                    if i == 0 {
                        Some(len - 1)
                    } else {
                        Some(i - 1)
                    }
                },
                None => Some(0),
            };
        }
    }

    /// Draw a new random shuffle order over all playlist positions.
    pub fn generate_shuffle_order(&mut self)
        ensures
            final(self).shuffle_order@.to_multiset() == indices(
                old(self).playlist@.len(),
            ).to_multiset(),
            final(self).shuffle_order@.len() == old(self).playlist@.len(),
            final(self).shuffle_order@.no_duplicates(),
            forall|i: int|
                0 <= i < final(self).shuffle_order@.len() ==> #[trigger] final(self).shuffle_order@[i] < old(self).playlist@.len(),
            final(self).playlist@ == old(self).playlist@,
            final(self).current_playing == old(self).current_playing,
            final(self).shuffle_enabled == old(self).shuffle_enabled,
            final(self).playback_state == old(self).playback_state,
    {
        let n = self.playlist.len();
        let mut order: Vec<usize> = Vec::new();
        let mut i: usize = 0;
        while i < n
            invariant
                i <= n,
                order@ == indices(i as nat),
            decreases n - i,
        {
            order.push(i);
            assert(order@ =~= indices(i as nat + 1));
            i = i + 1;
        }
        let ghost sorted = order@;
        shuffle_in_place(&mut order);
        proof {
            lemma_permutation_of_indices(sorted, order@, n as nat);
        }
        self.shuffle_order = order;
    }

    /// Flip shuffling; turning it on draws a new shuffle order.
    pub fn toggle_shuffle(&mut self)
        ensures
            final(self).shuffle_enabled == !old(self).shuffle_enabled,
            final(self).shuffle_enabled ==> final(self).shuffle_order@.to_multiset() == indices(
                old(self).playlist@.len(),
            ).to_multiset(),
            !final(self).shuffle_enabled ==> final(self).shuffle_order@ == old(self).shuffle_order@,
            final(self).playlist@ == old(self).playlist@,
            final(self).current_playing == old(self).current_playing,
    {
        self.shuffle_enabled = !self.shuffle_enabled;
        if self.shuffle_enabled {
            self.generate_shuffle_order();
        }
    }

    /// Flip repeating the playlist at its end.
    pub fn toggle_repeat(&mut self)
        ensures
            final(self).repeat_enabled == !old(self).repeat_enabled,
            final(self).playlist@ == old(self).playlist@,
            final(self).current_playing == old(self).current_playing,
    {
        self.repeat_enabled = !self.repeat_enabled;
    }

    /// Remove a playlist entry; the current position follows the entries
    /// after it, and playback stops when the current entry goes.  An index
    /// past the end changes nothing.
    pub fn remove_from_playlist(&mut self, index: usize)
        ensures
            index < old(self).playlist@.len() ==> {
                &&& final(self).playlist@ == old(self).playlist@.remove(index as int)
                &&& final(self).status_message@ == "Removed: "@ + old(self).playlist@[index as int].name@
                &&& final(self).current_playing == match old(self).current_playing {
                    Some(c) => if index < c {
                        Some((c - 1) as usize)
                    } else if index == c {
                        None
                    } else {
                        Some(c)
                    },
                    None => None,
                }
                &&& final(self).playback_state == (if old(self).current_playing == Some(index) {
                    PlaybackState::Stopped
                } else {
                    old(self).playback_state
                })
            },
            index >= old(self).playlist@.len() ==> {
                &&& final(self).playlist@ == old(self).playlist@
                &&& final(self).current_playing == old(self).current_playing
                &&& final(self).playback_state == old(self).playback_state
                &&& final(self).status_message == old(self).status_message
            },
            final(self).shuffle_order@ == old(self).shuffle_order@,
    {
        if index < self.playlist.len() {
            let removed = self.playlist.remove(index);
            let mut msg: Vec<char> = Vec::new();
            push_str(&mut msg, "Removed: ");
            push_str(&mut msg, removed.name.as_str());
            self.status_message = string_from_chars(&msg);
            if let Some(current) = self.current_playing {
                if index < current {
                    self.current_playing = Some(current - 1);
                } else if index == current {
                    self.current_playing = None;
                    self.playback_state = PlaybackState::Stopped;
                }
            }
        }
    }

    /// Empty the playlist and stop.
    pub fn clear_playlist(&mut self)
        ensures
            final(self).playlist@.len() == 0,
            final(self).current_playing is None,
            final(self).playlist_selected is None,
            final(self).playback_state == PlaybackState::Stopped,
            final(self).status_message@ == "Playlist cleared"@,
    {
        self.playlist.clear();
        self.current_playing = None;
        self.playlist_selected = None;
        self.playback_state = PlaybackState::Stopped;
        self.status_message = String::from_str("Playlist cleared");
    }

    /// Select a playlist line.
    pub fn select_playlist_item(&mut self, index: usize)
        ensures
            final(self).playlist_selected == Some(index),
            final(self).playlist@ == old(self).playlist@,
            final(self).current_playing == old(self).current_playing,
    {
        self.playlist_selected = Some(index);
    }

    /// Swap an entry with the one above it; the selection and the current
    /// position follow the moved entries.  Nothing changes for the first
    /// entry or an index past the end.
    pub fn move_playlist_item_up(&mut self, index: usize)
        ensures
            0 < index < old(self).playlist@.len() ==> {
                &&& final(self).playlist@ == swapped(old(self).playlist@, index - 1)
                &&& final(self).playlist_selected == Some((index - 1) as usize)
                &&& final(self).current_playing == follow_swap(
                    old(self).current_playing,
                    (index - 1) as usize,
                )
            },
            !(0 < index < old(self).playlist@.len()) ==> {
                &&& final(self).playlist@ == old(self).playlist@
                &&& final(self).playlist_selected == old(self).playlist_selected
                &&& final(self).current_playing == old(self).current_playing
            },
            final(self).playback_state == old(self).playback_state,
    {
        if index > 0 && index < self.playlist.len() {
            self.swap_with_next(index - 1);
            self.playlist_selected = Some(index - 1);
        }
    }

    /// Swap an entry with the one below it; the selection and the current
    /// position follow the moved entries.  Nothing changes for the last
    /// entry or an index past the end.
    pub fn move_playlist_item_down(&mut self, index: usize)
        ensures
            index + 1 < old(self).playlist@.len() ==> {
                &&& final(self).playlist@ == swapped(old(self).playlist@, index as int)
                &&& final(self).playlist_selected == Some((index + 1) as usize)
                &&& final(self).current_playing == follow_swap(old(self).current_playing, index)
            },
            !(index + 1 < old(self).playlist@.len()) ==> {
                &&& final(self).playlist@ == old(self).playlist@
                &&& final(self).playlist_selected == old(self).playlist_selected
                &&& final(self).current_playing == old(self).current_playing
            },
            final(self).playback_state == old(self).playback_state,
    {
        if index < self.playlist.len() && index + 1 < self.playlist.len() {
            self.swap_with_next(index);
            self.playlist_selected = Some(index + 1);
        }
    }

    /// Swap entries `i` and `i + 1`, the current position following them.
    fn swap_with_next(&mut self, i: usize)
        requires
            i + 1 < old(self).playlist@.len(),
        ensures
            final(self).playlist@ == swapped(old(self).playlist@, i as int),
            final(self).current_playing == follow_swap(old(self).current_playing, i),
            final(self).playlist_selected == old(self).playlist_selected,
            final(self).playback_state == old(self).playback_state,
    {
        let ghost before = self.playlist@;
        let n = self.playlist.len();
        assert(i + 1 < n);
        let e = self.playlist.remove(i + 1);
        self.playlist.insert(i, e);
        assert(self.playlist@ =~= swapped(before, i as int));
        if let Some(c) = self.current_playing {
            if c == i {
                self.current_playing = Some(i + 1);
            } else if c == i + 1 {
                self.current_playing = Some(i);
            }
        }
    }
}

/// The sequence with the elements at `i` and `i + 1` exchanged.
pub open spec fn swapped<T>(s: Seq<T>, i: int) -> Seq<T> {
    s.update(i, s[i + 1]).update(i + 1, s[i])
}

/// Where a position goes when positions `i` and `i + 1` are exchanged.
pub open spec fn follow_swap(current: Option<usize>, i: usize) -> Option<usize> {
    match current {
        Some(c) => if c == i {
            Some((i + 1) as usize)
        } else if c == i + 1 {
            Some(i)
        } else {
            Some(c)
        },
        None => None,
    }
}

/// The first position of `x` in `order`.
fn find_position(order: &Vec<usize>, x: usize) -> (r: Option<usize>)
    ensures
        match r {
            Some(p) => position_of(order@, x) == Some(p as int) && p < order@.len(),
            None => position_of(order@, x) is None,
        },
{
    proof {
        lemma_position_of(order@, x);
    }
    let mut i: usize = 0;
    while i < order.len()
        invariant
            i <= order@.len(),
            forall|j: int| 0 <= j < i ==> order@[j] != x,
            match position_of(order@, x) {
                Some(k) => 0 <= k < order@.len() && order@[k] == x && forall|j: int|
                    0 <= j < k ==> order@[j] != x,
                None => forall|j: int| 0 <= j < order@.len() ==> order@[j] != x,
            },
        decreases order@.len() - i,
    {
        if order[i] == x {
            return Some(i);
        }
        i = i + 1;
    }
    None
}

/// A rearrangement of `0, …, n - 1` holds each of them exactly once.
proof fn lemma_permutation_of_indices(sorted: Seq<usize>, v: Seq<usize>, n: nat)
    requires
        n <= usize::MAX,
        sorted == indices(n),
        v.to_multiset() == sorted.to_multiset(),
    ensures
        v.len() == n,
        v.no_duplicates(),
        forall|i: int| 0 <= i < v.len() ==> #[trigger] v[i] < n,
{
    broadcast use vstd::seq_lib::group_to_multiset_ensures;

    assert(sorted.no_duplicates());
    sorted.lemma_multiset_has_no_duplicates();
    v.lemma_multiset_has_no_duplicates_conv();
    assert(v.len() == v.to_multiset().len());
    assert(sorted.len() == sorted.to_multiset().len());
    assert forall|i: int| 0 <= i < v.len() implies #[trigger] v[i] < n by {
        assert(v.contains(v[i]));
        assert(v.to_multiset().count(v[i]) > 0);
        assert(sorted.contains(v[i]));
    }
}


// ── Playback ──────────────────────────────────────────────────────

/// The model of the playback state: the queue, the position in it and in
/// the file's subsongs, the clock, the song length database and the status
/// line.
pub struct PlayerView {
    pub playlist: Seq<PlaylistEntry>,
    pub current: Option<usize>,
    pub selected: Option<usize>,
    pub state: PlaybackState,
    pub shuffle: bool,
    pub repeat: bool,
    pub subsong: u8,
    pub max_subsongs: u8,
    pub order: Seq<usize>,
    pub elapsed: u32,
    pub duration: u32,
    pub default_duration: u32,
    pub db: Map<u128, Vec<u32>>,
    pub status: Seq<char>,
}

impl View for MusicPlayer {
    type V = PlayerView;

    open spec fn view(&self) -> PlayerView {
        PlayerView {
            playlist: self.playlist@,
            current: self.current_playing,
            selected: self.playlist_selected,
            state: self.playback_state,
            shuffle: self.shuffle_enabled,
            repeat: self.repeat_enabled,
            subsong: self.current_subsong,
            max_subsongs: self.max_subsongs,
            order: self.shuffle_order@,
            elapsed: self.elapsed_seconds,
            duration: self.current_song_duration,
            default_duration: self.default_song_duration,
            db: self.song_lengths@,
            status: self.status_message@,
        }
    }
}

/// The model of a request to start a file: path, subsong, kind.
pub type RequestView = (Seq<char>, u8, MusicFileType);

/// The model of an optional request.
pub open spec fn request_view(r: Option<PlayRequest>) -> Option<RequestView> {
    match r {
        Some(q) => Some((q.path@, q.subsong, q.file_type)),
        None => None,
    }
}

/// The model of what the end of a song asks for.
pub enum EndView {
    Play(Option<RequestView>),
    ResetThenPlay,
    Reboot,
    Nothing,
}

/// The model of a `SongEndAction`.
pub open spec fn end_view(a: SongEndAction) -> EndView {
    match a {
        SongEndAction::Play(r) => EndView::Play(request_view(r)),
        SongEndAction::ResetThenPlay => EndView::ResetThenPlay,
        SongEndAction::Reboot => EndView::Reboot,
        SongEndAction::Nothing => EndView::Nothing,
    }
}

/// What `Path::file_name` (std) gives for a path: its last normal
/// component, if any.
pub uninterp spec fn path_file_name(path: Seq<char>) -> Option<Seq<char>>;

/// Calls `Path::file_name` (std) on the path, turning the component back
/// into a string (lossless: the path came from a string).
#[verifier::external_body]
pub(crate) fn file_name_of(path: &str) -> (r: Option<String>)
    ensures
        match r {
            Some(s) => path_file_name(path@) == Some(s@),
            None => path_file_name(path@) is None,
        },
{
    match std::path::Path::new(path).file_name() {
        Some(n) => Some(n.to_string_lossy().to_string()),
        None => None,
    }
}

/// The name shown for a playing entry: its name, else its file name, else
/// "Unknown".
pub open spec fn now_playing_spec(e: PlaylistEntry) -> Seq<char> {
    if e.name@.len() == 0 {
        match path_file_name(e.path@) {
            Some(n) => n,
            None => "Unknown"@,
        }
    } else {
        e.name@
    }
}

/// The status line while an entry plays.
pub open spec fn playing_status(e: PlaylistEntry) -> Seq<char> {
    "Playing: "@ + now_playing_spec(e)
}

/// Play the current entry: a paused entry resumes; otherwise it starts
/// from the beginning with its subsong count and duration, and is asked
/// for.  Nothing happens without a current entry in the playlist.
pub open spec fn play_current_spec(v: PlayerView) -> (PlayerView, Option<RequestView>) {
    match v.current {
        Some(idx) => if idx < v.playlist.len() {
            let e = v.playlist[idx as int];
            if v.state == PlaybackState::Paused {
                (PlayerView { state: PlaybackState::Playing, status: playing_status(e), ..v }, None)
            } else {
                (
                    PlayerView {
                        elapsed: 0,
                        state: PlaybackState::Playing,
                        max_subsongs: e.max_subsongs,
                        duration: song_duration_spec(v.db, v.subsong, v.default_duration, e),
                        status: playing_status(e),
                        ..v
                    },
                    Some((e.path@, v.subsong, e.file_type)),
                )
            }
        } else {
            (v, None)
        },
        None => (v, None),
    }
}

/// Play: without a current entry, the first entry of a non-empty playlist
/// becomes current (subsong 1), then it plays as `play_current_spec` says.
pub open spec fn play_spec(v: PlayerView) -> (PlayerView, Option<RequestView>) {
    if v.current is None && v.playlist.len() > 0 {
        play_current_spec(PlayerView { current: Some(0), subsong: 1, elapsed: 0, ..v })
    } else {
        play_current_spec(v)
    }
}

/// Go to subsong `s` of the current file: the clock restarts, and the
/// duration becomes the database's length of that subsong when it has one.
pub open spec fn with_subsong(v: PlayerView, s: u8) -> PlayerView {
    let d = match v.current {
        Some(idx) => if idx < v.playlist.len() {
            match db_lengths(v.db, v.playlist[idx as int]) {
                Some(ls) => if subsong_index(s) < ls.len() {
                    ls[subsong_index(s)]
                } else {
                    v.duration
                },
                None => v.duration,
            }
        } else {
            v.duration
        },
        None => v.duration,
    };
    PlayerView { subsong: s, elapsed: 0, duration: d, ..v }
}

/// After a subsong change: play on when playing.
pub open spec fn continue_spec(v: PlayerView) -> (PlayerView, Option<RequestView>) {
    if v.state == PlaybackState::Playing {
        play_spec(v)
    } else {
        (v, None)
    }
}

/// Next subsong of the current file, when there is one.
pub open spec fn next_subsong_spec(v: PlayerView) -> (PlayerView, Option<RequestView>) {
    if v.subsong < v.max_subsongs {
        continue_spec(with_subsong(v, (v.subsong + 1) as u8))
    } else {
        (v, None)
    }
}

/// Previous subsong of the current file, when there is one.
pub open spec fn previous_subsong_spec(v: PlayerView) -> (PlayerView, Option<RequestView>) {
    if v.subsong > 1 {
        continue_spec(with_subsong(v, (v.subsong - 1) as u8))
    } else {
        (v, None)
    }
}

/// Jump to subsong `num` (`1..=max_subsongs`), else nothing.
pub open spec fn set_song_number_spec(v: PlayerView, num: u8) -> (PlayerView, Option<RequestView>) {
    if 1 <= num && num <= v.max_subsongs {
        continue_spec(with_subsong(v, num))
    } else {
        (v, None)
    }
}

/// A new current entry starts at subsong 1 and plays on when playing.
pub open spec fn moved_spec(v: PlayerView, current: Option<usize>) -> (
    PlayerView,
    Option<RequestView>,
) {
    let v1 = PlayerView { current, ..v };
    if current is Some {
        continue_spec(PlayerView { elapsed: 0, subsong: 1, ..v1 })
    } else {
        (v1, None)
    }
}

/// Next file of the queue.
pub open spec fn next_file_spec(v: PlayerView) -> (PlayerView, Option<RequestView>) {
    moved_spec(v, next_spec(v.playlist.len(), v.shuffle, v.order, v.current))
}

/// Previous file of the queue.
pub open spec fn previous_file_spec(v: PlayerView) -> (PlayerView, Option<RequestView>) {
    moved_spec(v, previous_spec(v.playlist.len(), v.shuffle, v.order, v.current))
}

/// Whether the current entry is a MOD or PRG, which keep the machine busy
/// until it is reset.
pub open spec fn playing_mod_or_prg(v: PlayerView) -> bool {
    match v.current {
        Some(idx) => idx < v.playlist.len() && (v.playlist[idx as int].file_type
            == MusicFileType::Mod || v.playlist[idx as int].file_type == MusicFileType::Prg),
        None => false,
    }
}

/// Start the entry that became current at the end of a song: reset first
/// after a MOD or PRG when a device is connected, else play it now.
pub open spec fn start_after_end(v: PlayerView, was_mod: bool, connected: bool) -> (
    PlayerView,
    EndView,
) {
    if was_mod && connected {
        (v, EndView::ResetThenPlay)
    } else {
        (play_spec(v).0, EndView::Play(play_spec(v).1))
    }
}

/// The end of a song: the next subsong of the file, else the next file of
/// the queue, else (repeating) the first file again, else the playlist
/// ends and the machine is rebooted when connected.
pub open spec fn song_ended_spec(v: PlayerView, connected: bool) -> (PlayerView, EndView) {
    if v.subsong < v.max_subsongs {
        let v1 = with_subsong(v, (v.subsong + 1) as u8);
        (play_spec(v1).0, EndView::Play(play_spec(v1).1))
    } else {
        let was_mod = playing_mod_or_prg(v);
        let v1 = PlayerView {
            current: next_spec(v.playlist.len(), v.shuffle, v.order, v.current),
            ..v
        };
        if v1.current is Some {
            start_after_end(PlayerView { elapsed: 0, subsong: 1, ..v1 }, was_mod, connected)
        } else if v.repeat && v.playlist.len() > 0 {
            start_after_end(
                PlayerView { current: Some(0), elapsed: 0, subsong: 1, ..v1 },
                was_mod,
                connected,
            )
        } else {
            (
                PlayerView { state: PlaybackState::Stopped, status: "Playlist ended"@, ..v1 },
                if connected {
                    EndView::Reboot
                } else {
                    EndView::Nothing
                },
            )
        }
    }
}

/// One second of playback: the clock advances while playing, and the song
/// ends when it reaches the duration.
pub open spec fn timer_tick_spec(v: PlayerView, connected: bool) -> (PlayerView, EndView) {
    if v.state == PlaybackState::Playing {
        let v1 = PlayerView { elapsed: (v.elapsed + 1) as u32, ..v };
        if v1.elapsed >= v1.duration {
            song_ended_spec(v1, connected)
        } else {
            (v1, EndView::Nothing)
        }
    } else {
        (v, EndView::Nothing)
    }
}

/// An entry with the subsong count and first duration the database gives
/// for its file: the count only grows, up to 256 subsongs.
pub open spec fn refreshed_entry(db: Map<u128, Vec<u32>>, e: PlaylistEntry) -> PlaylistEntry {
    match db_lengths(db, e) {
        Some(ls) => PlaylistEntry {
            max_subsongs: if ls.len() > e.max_subsongs && ls.len() <= 256 {
                ls.len() as u8
            } else {
                e.max_subsongs
            },
            duration: if ls.len() > 0 {
                Some(ls[0])
            } else {
                e.duration
            },
            ..e
        },
        None => e,
    }
}

/// The fields of the player that playback transitions leave alone.
pub open spec fn same_browser(a: &MusicPlayer, b: &MusicPlayer) -> bool {
    &&& a.browser_directory == b.browser_directory
    &&& a.browser_entries@ == b.browser_entries@
    &&& a.browser_selected == b.browser_selected
    &&& a.browser_filter == b.browser_filter
    &&& a.browser_search_active == b.browser_search_active
    &&& a.playlist_name == b.playlist_name
    &&& a.song_lengths_loaded == b.song_lengths_loaded
    &&& a.song_lengths_status == b.song_lengths_status
}

fn playing_status_of(e: &PlaylistEntry) -> (s: String)
    ensures
        s@ == playing_status(*e),
{
    let mut out: Vec<char> = Vec::new();
    push_str(&mut out, "Playing: ");
    if e.name.as_str().is_empty() {
        match file_name_of(e.path.as_str()) {
            Some(n) => push_str(&mut out, n.as_str()),
            None => push_str(&mut out, "Unknown"),
        }
    } else {
        push_str(&mut out, e.name.as_str());
    }
    string_from_chars(&out)
}

impl MusicPlayer {
    /// Play the current entry (see `play_current_spec`).
    fn play_current(&mut self) -> (r: Option<PlayRequest>)
        ensures
            (final(self)@, request_view(r)) == play_current_spec(old(self)@),
            same_browser(old(self), final(self)),
    {
        if let Some(idx) = self.current_playing {
            if idx < self.playlist.len() {
                let status = playing_status_of(&self.playlist[idx]);
                if self.playback_state == PlaybackState::Paused {
                    self.playback_state = PlaybackState::Playing;
                    self.status_message = status;
                    return None;
                }
                let duration = self.get_song_duration(&self.playlist[idx]);
                let max = self.playlist[idx].max_subsongs;
                let req = PlayRequest {
                    path: self.playlist[idx].path.clone(),
                    subsong: self.current_subsong,
                    file_type: self.playlist[idx].file_type,
                };
                self.elapsed_seconds = 0;
                self.playback_state = PlaybackState::Playing;
                self.max_subsongs = max;
                self.current_song_duration = duration;
                self.status_message = status;
                return Some(req);
            }
        }
        None
    }

    /// Play (see `play_spec`); the result is the file to start, if any.
    pub fn play(&mut self) -> (r: Option<PlayRequest>)
        ensures
            (final(self)@, request_view(r)) == play_spec(old(self)@),
            same_browser(old(self), final(self)),
    {
        if self.current_playing.is_none() && self.playlist.len() > 0 {
            self.current_playing = Some(0);
            self.current_subsong = 1;
            self.elapsed_seconds = 0;
        }
        self.play_current()
    }

    /// Pause playback.
    pub fn pause(&mut self)
        ensures
            final(self)@ == (PlayerView {
                state: PlaybackState::Paused,
                status: "Paused"@,
                ..old(self)@
            }),
            same_browser(old(self), final(self)),
    {
        self.playback_state = PlaybackState::Paused;
        self.status_message = String::from_str("Paused");
    }

    /// Stop playback: back to subsong 1 with the clock at zero.
    pub fn stop(&mut self)
        ensures
            final(self)@ == (PlayerView {
                state: PlaybackState::Stopped,
                elapsed: 0,
                subsong: 1,
                status: "Stopped"@,
                ..old(self)@
            }),
            same_browser(old(self), final(self)),
    {
        self.playback_state = PlaybackState::Stopped;
        self.elapsed_seconds = 0;
        self.current_subsong = 1;
        self.status_message = String::from_str("Stopped");
    }

    /// Go to subsong `s` (see `with_subsong`).
    fn go_to_subsong(&mut self, s: u8)
        ensures
            final(self)@ == with_subsong(old(self)@, s),
            same_browser(old(self), final(self)),
    {
        self.current_subsong = s;
        self.elapsed_seconds = 0;
        if let Some(idx) = self.current_playing {
            if idx < self.playlist.len() {
                if let Some(d) = db_length_of(&self.song_lengths, &self.playlist[idx], s) {
                    self.current_song_duration = d;
                }
            }
        }
    }

    fn continue_playing(&mut self) -> (r: Option<PlayRequest>)
        ensures
            (final(self)@, request_view(r)) == continue_spec(old(self)@),
            same_browser(old(self), final(self)),
    {
        if self.playback_state == PlaybackState::Playing {
            self.play()
        } else {
            None
        }
    }

    /// Next subsong (see `next_subsong_spec`).
    pub fn next_subsong(&mut self) -> (r: Option<PlayRequest>)
        ensures
            (final(self)@, request_view(r)) == next_subsong_spec(old(self)@),
            same_browser(old(self), final(self)),
    {
        if self.current_subsong < self.max_subsongs {
            self.go_to_subsong(self.current_subsong + 1);
            self.continue_playing()
        } else {
            None
        }
    }

    /// Previous subsong (see `previous_subsong_spec`).
    pub fn previous_subsong(&mut self) -> (r: Option<PlayRequest>)
        ensures
            (final(self)@, request_view(r)) == previous_subsong_spec(old(self)@),
            same_browser(old(self), final(self)),
    {
        if self.current_subsong > 1 {
            self.go_to_subsong(self.current_subsong - 1);
            self.continue_playing()
        } else {
            None
        }
    }

    /// Jump to a subsong (see `set_song_number_spec`).
    pub fn set_song_number(&mut self, num: u8) -> (r: Option<PlayRequest>)
        ensures
            (final(self)@, request_view(r)) == set_song_number_spec(old(self)@, num),
            same_browser(old(self), final(self)),
    {
        if num >= 1 && num <= self.max_subsongs {
            self.go_to_subsong(num);
            self.continue_playing()
        } else {
            None
        }
    }

    fn after_move(&mut self) -> (r: Option<PlayRequest>)
        ensures
            (final(self)@, request_view(r)) == moved_spec(old(self)@, old(self).current_playing),
            same_browser(old(self), final(self)),
    {
        if self.current_playing.is_some() {
            self.elapsed_seconds = 0;
            self.current_subsong = 1;
            self.continue_playing()
        } else {
            None
        }
    }

    /// Next file of the queue (see `next_file_spec`).
    pub fn next_file(&mut self) -> (r: Option<PlayRequest>)
        ensures
            (final(self)@, request_view(r)) == next_file_spec(old(self)@),
            same_browser(old(self), final(self)),
    {
        self.next_track();
        self.after_move()
    }

    /// Previous file of the queue (see `previous_file_spec`).
    pub fn previous_file(&mut self) -> (r: Option<PlayRequest>)
        ensures
            (final(self)@, request_view(r)) == previous_file_spec(old(self)@),
            same_browser(old(self), final(self)),
    {
        self.previous_track();
        self.after_move()
    }

    fn start_after_song_end(&mut self, was_mod: bool, connected: bool) -> (a: SongEndAction)
        ensures
            (final(self)@, end_view(a)) == start_after_end(old(self)@, was_mod, connected),
            same_browser(old(self), final(self)),
    {
        if was_mod && connected {
            SongEndAction::ResetThenPlay
        } else {
            SongEndAction::Play(self.play())
        }
    }

    /// The current song ended (see `song_ended_spec`); `connected` tells
    /// whether a device is attached.
    pub fn song_ended(&mut self, connected: bool) -> (a: SongEndAction)
        ensures
            (final(self)@, end_view(a)) == song_ended_spec(old(self)@, connected),
            same_browser(old(self), final(self)),
    {
        if self.current_subsong < self.max_subsongs {
            self.go_to_subsong(self.current_subsong + 1);
            return SongEndAction::Play(self.play());
        }
        let was_mod = match self.current_playing {
            Some(idx) => idx < self.playlist.len() && (self.playlist[idx].file_type
                == MusicFileType::Mod || self.playlist[idx].file_type == MusicFileType::Prg),
            None => false,
        };
        self.next_track();
        if self.current_playing.is_some() {
            self.elapsed_seconds = 0;
            self.current_subsong = 1;
            self.start_after_song_end(was_mod, connected)
        } else if self.repeat_enabled && self.playlist.len() > 0 {
            self.current_playing = Some(0);
            self.elapsed_seconds = 0;
            self.current_subsong = 1;
            self.start_after_song_end(was_mod, connected)
        } else {
            self.playback_state = PlaybackState::Stopped;
            self.status_message = String::from_str("Playlist ended");
            if connected {
                SongEndAction::Reboot
            } else {
                SongEndAction::Nothing
            }
        }
    }

    /// One second passed (see `timer_tick_spec`).
    pub fn timer_tick(&mut self, connected: bool) -> (a: SongEndAction)
        requires
            old(self).playback_state == PlaybackState::Playing ==> old(self).elapsed_seconds
                < u32::MAX,
        ensures
            (final(self)@, end_view(a)) == timer_tick_spec(old(self)@, connected),
            same_browser(old(self), final(self)),
    {
        if self.playback_state == PlaybackState::Playing {
            self.elapsed_seconds = self.elapsed_seconds + 1;
            if self.elapsed_seconds >= self.current_song_duration {
                return self.song_ended(connected);
            }
        }
        SongEndAction::Nothing
    }

    /// Take a freshly loaded song length database: it replaces the old
    /// one, and every playlist entry takes the subsong count and first
    /// duration it gives for its file.
    pub fn load_song_lengths(&mut self, db: HashMap<u128, Vec<u32>>)
        ensures
            final(self).song_lengths@ == db@,
            final(self).song_lengths_loaded,
            final(self).song_lengths_status@ == crate::text::decimal(db@.len()) + " entries"@,
            final(self).playlist@ == old(self).playlist@.map_values(
                |e: PlaylistEntry| refreshed_entry(db@, e),
            ),
            final(self).current_playing == old(self).current_playing,
            final(self).playback_state == old(self).playback_state,
    {
        broadcast use vstd::std_specs::hash::group_hash_axioms;

        let count = db.len();
        self.song_lengths = db;
        self.song_lengths_loaded = true;
        let mut status: Vec<char> = Vec::new();
        crate::text::push_decimal(&mut status, count as u64);
        push_str(&mut status, " entries");
        self.song_lengths_status = string_from_chars(&status);
        let ghost dbv = self.song_lengths@;
        let mut rest: Vec<PlaylistEntry> = Vec::new();
        std::mem::swap(&mut rest, &mut self.playlist);
        let ghost orig = rest@;
        let mut out: Vec<PlaylistEntry> = Vec::new();
        while rest.len() > 0
            invariant
                dbv == self.song_lengths@,
                orig.len() == out@.len() + rest@.len(),
                rest@ == orig.skip(out@.len() as int),
                out@ == orig.take(out@.len() as int).map_values(
                    |e: PlaylistEntry| refreshed_entry(dbv, e),
                ),
            decreases rest@.len(),
        {
            let ghost k = out@.len() as int;
            let mut e = rest.remove(0);
            assert(e == orig[k]);
            let ghost e0 = e;
            if let Some(h) = e.md5_hash {
                assert(obeys_key_model::<u128>());
                if let Some(lengths) = self.song_lengths.get(&h) {
                    if lengths.len() > e.max_subsongs as usize && lengths.len() <= 256 {
                        e.max_subsongs = lengths.len() as u8;
                    }
                    if lengths.len() > 0 {
                        e.duration = Some(lengths[0]);
                    }
                }
            }
            assert(e == refreshed_entry(dbv, e0));
            out.push(e);
            assert(rest@ =~= orig.skip(out@.len() as int));
            assert(out@ =~= orig.take(out@.len() as int).map_values(
                |e: PlaylistEntry| refreshed_entry(dbv, e),
            ));
        }
        assert(orig.take(out@.len() as int) =~= orig);
        self.playlist = out;
    }

    /// Append an entry to the playlist.
    pub fn add_to_playlist(&mut self, entry: PlaylistEntry)
        ensures
            final(self).playlist@ == old(self).playlist@.push(entry),
            final(self).status_message@ == "Added: "@ + entry.name@,
            final(self).current_playing == old(self).current_playing,
            final(self).playback_state == old(self).playback_state,
    {
        let mut msg: Vec<char> = Vec::new();
        push_str(&mut msg, "Added: ");
        push_str(&mut msg, entry.name.as_str());
        self.status_message = string_from_chars(&msg);
        self.playlist.push(entry);
    }
}

// ── Laws of the queue ─────────────────────────────────────────────

/// In playlist order, stepping back after stepping forward returns to the
/// entry one started from, unless forward ran past the end.
pub proof fn lemma_previous_undoes_next(len: nat, c: usize)
    requires
        c + 1 < len,
        len <= usize::MAX,
    ensures
        previous_spec(len, false, Seq::empty(), next_spec(len, false, Seq::empty(), Some(c)))
            == Some(c),
{
}

/// In playlist order, stepping forward after stepping back returns to the
/// entry one started from, unless back wrapped around the start.
pub proof fn lemma_next_undoes_previous(len: nat, c: usize)
    requires
        0 < c < len,
        len <= usize::MAX,
    ensures
        next_spec(len, false, Seq::empty(), previous_spec(len, false, Seq::empty(), Some(c)))
            == Some(c),
{
}

/// With a shuffle order without repeats, stepping back after stepping
/// forward returns to the entry one started from, unless it was the last
/// of the order.
pub proof fn lemma_shuffle_previous_undoes_next(len: nat, order: Seq<usize>, c: usize, pos: int)
    requires
        len > 0,
        order.no_duplicates(),
        0 <= pos < order.len() - 1,
        order[pos] == c,
    ensures
        previous_spec(len, true, order, next_spec(len, true, order, Some(c))) == Some(c),
{
    lemma_position_of(order, c);
    lemma_position_of(order, order[pos + 1]);
}

/// The queue never points outside the playlist: from a position inside it
/// (or none), the next and the previous entries are inside it too, as long
/// as the shuffle order only holds playlist positions.
pub proof fn lemma_queue_stays_in_playlist(
    len: nat,
    shuffle: bool,
    order: Seq<usize>,
    current: Option<usize>,
)
    requires
        forall|i: int| 0 <= i < order.len() ==> order[i] < len,
        current matches Some(c) ==> c < len,
    ensures
        next_spec(len, shuffle, order, current) matches Some(n) ==> n < len,
        previous_spec(len, shuffle, order, current) matches Some(p) ==> p < len,
{
    if let Some(c) = current {
        lemma_position_of(order, c);
    }
}

/// Moving an entry down and then up again (or up and then down) restores
/// the playlist and the current position.
pub proof fn lemma_swap_undoes_itself<T>(s: Seq<T>, i: int, current: Option<usize>)
    requires
        0 <= i < i + 1 < s.len(),
        i + 1 <= usize::MAX,
    ensures
        swapped(swapped(s, i), i) == s,
        follow_swap(follow_swap(current, i as usize), i as usize) == current,
{
    assert(swapped(swapped(s, i), i) =~= s);
}


// ── Browser order ─────────────────────────────────────────────────

/// The sort key of a browser line: directories first, then the name
/// lower-cased.
pub open spec fn browser_key(e: BrowserEntry) -> crate::sorting::KeyView {
    (
        if e.entry_type == BrowserEntryType::Directory {
            0u8
        } else {
            1u8
        },
        crate::text::unicode_lowercase(e.name@),
        0u64,
    )
}

/// The sort keys of browser lines.
pub open spec fn browser_keys(entries: Seq<BrowserEntry>) -> Seq<crate::sorting::KeyView> {
    entries.map_values(|e: BrowserEntry| browser_key(e))
}

/// Browser lines in the order they are shown: directories, then music
/// files, each by lower-cased name; equal names keep their order.
pub fn order_browser_entries(entries: Vec<BrowserEntry>) -> (r: Vec<BrowserEntry>)
    ensures
        crate::sorting::sorted_by_keys(r@, entries@, browser_keys(entries@), false),
{
    let mut keys: Vec<crate::sorting::SortKey> = Vec::new();
    let mut i: usize = 0;
    while i < entries.len()
        invariant
            i <= entries@.len(),
            crate::sorting::key_views(keys@) == browser_keys(entries@).take(i as int),
        decreases entries@.len() - i,
    {
        let e = &entries[i];
        let group: u8 = if e.entry_type == BrowserEntryType::Directory {
            0
        } else {
            1
        };
        let key = crate::sorting::SortKey {
            group,
            text: crate::sorting::lowercase_chars(e.name.as_str()),
            number: 0,
        };
        assert(crate::sorting::key_view(key) == browser_key(entries@[i as int]));
        let ghost prev = keys@;
        keys.push(key);
        assert(crate::sorting::key_views(keys@) =~= crate::sorting::key_views(prev).push(
            crate::sorting::key_view(key),
        ));
        assert(crate::sorting::key_views(keys@) =~= browser_keys(entries@).take(i as int + 1));
        i = i + 1;
    }
    assert(browser_keys(entries@).take(i as int) =~= browser_keys(entries@));
    crate::sorting::sort_by_keys(entries, &keys, false)
}


// ── Browsing and searching local music ────────────────────────────

/// The music kind of a lower-cased extension.
pub open spec fn music_kind(ext: Seq<char>) -> Option<MusicFileType> {
    if ext == "sid"@ {
        Some(MusicFileType::Sid)
    } else if ext == "mod"@ {
        Some(MusicFileType::Mod)
    } else if ext == "prg"@ {
        Some(MusicFileType::Prg)
    } else {
        None
    }
}

/// What the browser lists for a directory entry: nothing for a hidden name
/// (leading `.`), a directory as such, a file only where its extension,
/// lower-cased, is `sid`, `mod` or `prg`.
pub open spec fn entry_kind(name: Seq<char>, is_dir: bool) -> Option<BrowserEntryType> {
    if name.len() > 0 && name[0] == '.' {
        None
    } else if is_dir {
        Some(BrowserEntryType::Directory)
    } else {
        match crate::file_types::extension(name) {
            Some(e) => match music_kind(crate::text::unicode_lowercase(e)) {
                Some(k) => Some(BrowserEntryType::MusicFile(k)),
                None => None,
            },
            None => None,
        }
    }
}

/// The kind of a directory entry in the browser (see `entry_kind`).
pub fn browser_entry_kind(name: &str, is_dir: bool) -> (r: Option<BrowserEntryType>)
    ensures
        r == entry_kind(name@, is_dir),
{
    let cs = chars_of(name);
    if cs.len() > 0 && cs[0] == '.' {
        return None;
    }
    if is_dir {
        return Some(BrowserEntryType::Directory);
    }
    proof {
        reveal_strlit("sid");
        reveal_strlit("mod");
        reveal_strlit("prg");
    }
    match crate::file_types::name_extension(name) {
        Some(e) => {
            let lower = crate::text::to_lowercase(e.as_str());
            if crate::text::str_eq(lower.as_str(), "sid") {
                Some(BrowserEntryType::MusicFile(MusicFileType::Sid))
            } else if crate::text::str_eq(lower.as_str(), "mod") {
                Some(BrowserEntryType::MusicFile(MusicFileType::Mod))
            } else if crate::text::str_eq(lower.as_str(), "prg") {
                Some(BrowserEntryType::MusicFile(MusicFileType::Prg))
            } else {
                None
            }
        },
        None => None,
    }
}

/// A search hit, ignoring case (both sides lower-cased): a directory whose
/// name holds the query (shown as `[DIR] ` and its path from the search
/// root), or a music file whose path from the root holds it (shown as that
/// path).
pub open spec fn search_hit_spec(name: Seq<char>, rel: Seq<char>, is_dir: bool, query: Seq<char>) -> Option<
    (BrowserEntryType, Seq<char>),
> {
    match entry_kind(name, is_dir) {
        Some(BrowserEntryType::Directory) => if crate::text::contains_seq(
            crate::text::unicode_lowercase(name),
            crate::text::unicode_lowercase(query),
        ) {
            Some((BrowserEntryType::Directory, "[DIR] "@ + rel))
        } else {
            None
        },
        Some(k) => if crate::text::contains_seq(
            crate::text::unicode_lowercase(rel),
            crate::text::unicode_lowercase(query),
        ) {
            Some((k, rel))
        } else {
            None
        },
        None => None,
    }
}

/// Whether a directory entry met in a search is a hit, and how it is
/// shown (see `search_hit_spec`).
pub fn search_hit(name: &str, rel: &str, is_dir: bool, query: &str) -> (r: Option<(BrowserEntryType, String)>)
    ensures
        match r {
            Some((k, shown)) => search_hit_spec(name@, rel@, is_dir, query@) == Some((k, shown@)),
            None => search_hit_spec(name@, rel@, is_dir, query@) is None,
        },
{
    let q = chars_of(crate::text::to_lowercase(query).as_str());
    match browser_entry_kind(name, is_dir) {
        Some(BrowserEntryType::Directory) => {
            let lower = chars_of(crate::text::to_lowercase(name).as_str());
            if crate::text::contains(&lower, &q) {
                Some((BrowserEntryType::Directory, crate::text::join2("[DIR] ", rel)))
            } else {
                None
            }
        },
        Some(k) => {
            let lower = chars_of(crate::text::to_lowercase(rel).as_str());
            if crate::text::contains(&lower, &q) {
                Some((k, rel.to_owned()))
            } else {
                None
            }
        },
        None => None,
    }
}


/// What a click on a browser line asks for.
#[derive(Debug, Clone)]
pub enum BrowserClick {
    /// Enter this directory (list it, then `set_browser_directory`).
    Navigate(String),
    /// A second click on the selected music file: add it and play it.
    AddAndPlay(usize),
    /// The line is selected now.
    Selected,
    /// No line there.
    Nothing,
}

/// The number of music files among browser lines.
pub open spec fn music_count(entries: Seq<BrowserEntry>) -> nat
    decreases entries.len(),
{
    if entries.len() == 0 {
        0
    } else {
        music_count(entries.drop_last()) + if entries.last().entry_type is MusicFile {
            1nat
        } else {
            0nat
        }
    }
}

impl MusicPlayer {
    /// Show a directory's lines (the app lists it): nothing selected, no
    /// search shown.
    pub fn set_browser_directory(&mut self, directory: String, entries: Vec<BrowserEntry>)
        ensures
            *final(self) == (MusicPlayer {
                browser_directory: directory,
                browser_entries: entries,
                browser_selected: None,
                browser_search_active: false,
                ..*old(self)
            }),
    {
        self.browser_directory = directory;
        self.browser_entries = entries;
        self.browser_selected = None;
        self.browser_search_active = false;
    }

    /// The parent of the browsed directory, if it has one.
    pub fn parent_directory(&self) -> (r: Option<String>)
        ensures
            crate::text::opt_str(r) == crate::remote_browser::parent_path(self.browser_directory@),
    {
        crate::remote_browser::path_parent(self.browser_directory.as_str())
    }

    /// The browser's filter field was edited.
    pub fn browser_filter_changed(&mut self, value: String)
        ensures
            *final(self) == (MusicPlayer { browser_filter: value, ..*old(self) }),
    {
        self.browser_filter = value;
    }

    /// Start a search below the browsed directory for the filter, trimmed
    /// and lower-cased; an empty query asks for one instead.
    pub fn browser_search(&mut self) -> (query: Option<String>)
        ensures
            ({
                let q = crate::text::unicode_lowercase(crate::text::trim(old(self).browser_filter@));
                &&& q.len() == 0 ==> query is None && final(self).status_message@
                    == "Enter a search term first"@
                &&& q.len() > 0 ==> crate::text::opt_str(query) == Some(q) && final(self).status_message@
                    == "Searching for \""@ + old(self).browser_filter@ + "\"..."@
            }),
            *final(self) == (MusicPlayer { status_message: final(self).status_message, ..*old(self) }),
    {
        let trimmed = string_from_chars(&crate::text::trim_chars(&chars_of(self.browser_filter.as_str())));
        let query = crate::text::to_lowercase(trimmed.as_str());
        if query.as_str().unicode_len() == 0 {
            self.status_message = String::from_str("Enter a search term first");
            return None;
        }
        self.status_message = crate::text::join3("Searching for \"", self.browser_filter.as_str(), "\"...");
        Some(query)
    }

    /// Search results arrived: they are shown, with the number of music
    /// files among them.
    pub fn browser_search_complete(&mut self, results: Vec<BrowserEntry>)
        ensures
            final(self).status_message@ == "Found "@ + crate::text::decimal(music_count(results@))
                + " music files"@,
            *final(self) == (MusicPlayer {
                browser_entries: results,
                browser_selected: None,
                browser_search_active: true,
                status_message: final(self).status_message,
                ..*old(self)
            }),
    {
        let mut count: usize = 0;
        let mut i: usize = 0;
        while i < results.len()
            invariant
                i <= results@.len(),
                count == music_count(results@.take(i as int)),
                count <= i,
            decreases results@.len() - i,
        {
            assert(results@.take(i as int + 1).drop_last() =~= results@.take(i as int));
            if let BrowserEntryType::MusicFile(_) = results[i].entry_type {
                count = count + 1;
            }
            i = i + 1;
        }
        assert(results@.take(i as int) =~= results@);
        let mut out: Vec<char> = Vec::new();
        push_str(&mut out, "Found ");
        crate::text::push_decimal(&mut out, count as u64);
        push_str(&mut out, " music files");
        self.browser_entries = results;
        self.browser_selected = None;
        self.browser_search_active = true;
        self.status_message = string_from_chars(&out);
    }

    /// Leave the search: the browsed directory's lines (listed again by the
    /// app) are shown.
    pub fn browser_clear_search(&mut self, entries: Vec<BrowserEntry>)
        ensures
            final(self).status_message@ == "Ready"@,
            *final(self) == (MusicPlayer {
                browser_entries: entries,
                browser_selected: None,
                browser_search_active: false,
                status_message: final(self).status_message,
                ..*old(self)
            }),
    {
        self.browser_search_active = false;
        self.browser_selected = None;
        self.browser_entries = entries;
        self.status_message = String::from_str("Ready");
    }

    /// A click on a browser line: a directory is entered, a music file is
    /// selected, and a second click on the selected file adds and plays it.
    pub fn browser_item_clicked(&mut self, index: usize) -> (c: BrowserClick)
        ensures
            index >= old(self).browser_entries@.len() ==> c is Nothing && *final(self) == *old(self),
            index < old(self).browser_entries@.len() ==> match old(self).browser_entries@[index as int].entry_type {
                BrowserEntryType::Directory => (c matches BrowserClick::Navigate(p) && p@ == old(
                    self,
                ).browser_entries@[index as int].path@) && *final(self) == *old(self),
                BrowserEntryType::MusicFile(_) => if old(self).browser_selected == Some(index) {
                    (c matches BrowserClick::AddAndPlay(i) && i == index) && *final(self) == *old(self)
                } else {
                    c is Selected && *final(self) == (MusicPlayer {
                        browser_selected: Some(index),
                        ..*old(self)
                    })
                },
            },
    {
        if index >= self.browser_entries.len() {
            return BrowserClick::Nothing;
        }
        match self.browser_entries[index].entry_type {
            BrowserEntryType::Directory => BrowserClick::Navigate(self.browser_entries[index].path.clone()),
            BrowserEntryType::MusicFile(_) => {
                if self.browser_selected == Some(index) {
                    BrowserClick::AddAndPlay(index)
                } else {
                    self.browser_selected = Some(index);
                    BrowserClick::Selected
                }
            },
        }
    }

    /// Add an entry and play it at once, from its first subsong.
    pub fn add_and_play(&mut self, entry: PlaylistEntry) -> (r: Option<PlayRequest>)
        requires
            old(self).playlist@.len() < usize::MAX,
        ensures
            ({
                let added = MusicPlayer {
                    playlist: final(self).playlist,
                    current_playing: Some(old(self).playlist@.len() as usize),
                    elapsed_seconds: 0,
                    current_subsong: 1,
                    playback_state: PlaybackState::Playing,
                    status_message: final(self).status_message,
                    ..*old(self)
                };
                &&& final(self).playlist@ == old(self).playlist@.push(entry)
                &&& (final(self)@, request_view(r)) == play_spec(added@)
                &&& same_browser(old(self), final(self))
            }),
    {
        let status = crate::text::join2("Playing: ", entry.name.as_str());
        self.playlist.push(entry);
        self.current_playing = Some(self.playlist.len() - 1);
        self.elapsed_seconds = 0;
        self.current_subsong = 1;
        self.playback_state = PlaybackState::Playing;
        self.status_message = status;
        self.play()
    }

    /// Add entries (the music files of the browsed directory) to the
    /// playlist.
    pub fn add_all_to_playlist(&mut self, entries: Vec<PlaylistEntry>)
        ensures
            final(self).playlist@ == old(self).playlist@ + entries@,
            final(self).status_message@ == if entries@.len() > 0 {
                "Added "@ + crate::text::decimal(entries@.len()) + " files to playlist"@
            } else {
                "No music files in current directory"@
            },
            *final(self) == (MusicPlayer {
                playlist: final(self).playlist,
                status_message: final(self).status_message,
                ..*old(self)
            }),
    {
        let count = entries.len();
        let ghost start = self.playlist@;
        let ghost all = entries@;
        let mut rest = entries;
        while rest.len() > 0
            invariant
                all.len() == count,
                self.playlist@.len() == start.len() + (count - rest@.len()),
                rest@ == all.skip(count - rest@.len()),
                self.playlist@ == start + all.take(count - rest@.len()),
                *self == (MusicPlayer { playlist: self.playlist, ..*old(self) }),
                start == old(self).playlist@,
            decreases rest@.len(),
        {
            let ghost k = count - rest@.len();
            let e = rest.remove(0);
            assert(e == all[k as int]);
            self.playlist.push(e);
            assert(rest@ =~= all.skip(k + 1));
            assert(self.playlist@ =~= start + all.take(k + 1));
        }
        assert(all.take(count as int) =~= all);
        if count > 0 {
            let mut out: Vec<char> = Vec::new();
            push_str(&mut out, "Added ");
            crate::text::push_decimal(&mut out, count as u64);
            push_str(&mut out, " files to playlist");
            self.status_message = string_from_chars(&out);
        } else {
            self.status_message = String::from_str("No music files in current directory");
        }
    }

    /// A double click on a playlist entry plays it from its first subsong.
    pub fn playlist_item_double_click(&mut self, index: usize) -> (r: Option<PlayRequest>)
        ensures
            ({
                let chosen = MusicPlayer {
                    current_playing: Some(index),
                    elapsed_seconds: 0,
                    current_subsong: 1,
                    playback_state: PlaybackState::Playing,
                    ..*old(self)
                };
                &&& (final(self)@, request_view(r)) == play_spec(chosen@)
                &&& same_browser(old(self), final(self))
            }),
    {
        self.current_playing = Some(index);
        self.elapsed_seconds = 0;
        self.current_subsong = 1;
        self.playback_state = PlaybackState::Playing;
        self.play()
    }

    /// The playlist name field was edited.
    pub fn playlist_name_changed(&mut self, name: String)
        ensures
            *final(self) == (MusicPlayer { playlist_name: name, ..*old(self) }),
    {
        self.playlist_name = name;
    }

    /// A playlist save ended.
    pub fn playlist_saved(&mut self, result: Result<String, String>)
        ensures
            final(self).status_message@ == match result {
                Ok(path) => "Playlist saved: "@ + path@,
                Err(e) => "Save failed: "@ + e@,
            },
            *final(self) == (MusicPlayer { status_message: final(self).status_message, ..*old(self) }),
    {
        self.status_message = match result {
            Ok(path) => crate::text::join2("Playlist saved: ", path.as_str()),
            Err(e) => crate::text::join2("Save failed: ", e.as_str()),
        };
    }

    /// A playlist was loaded (its entries' digests computed by the app):
    /// it replaces the playlist, each entry taking what the song length
    /// database gives for its file; nothing is playing or selected then.
    pub fn playlist_loaded(&mut self, result: Result<Vec<PlaylistEntry>, String>)
        ensures
            match result {
                Ok(entries) => {
                    &&& final(self).playlist@ == entries@.map_values(
                        |e: PlaylistEntry| refreshed_entry(old(self).song_lengths@, e),
                    )
                    &&& final(self).status_message@ == "Loaded playlist with "@ + crate::text::decimal(
                        entries@.len(),
                    ) + " entries"@
                    &&& *final(self) == (MusicPlayer {
                        playlist: final(self).playlist,
                        current_playing: None,
                        playlist_selected: None,
                        status_message: final(self).status_message,
                        ..*old(self)
                    })
                },
                Err(e) => final(self).status_message@ == "Load failed: "@ + e@ && *final(self) == (
                MusicPlayer { status_message: final(self).status_message, ..*old(self) }),
            },
    {
        broadcast use vstd::std_specs::hash::group_hash_axioms;

        match result {
            Ok(entries) => {
                let count = entries.len();
                let ghost dbv = self.song_lengths@;
                let ghost orig = entries@;
                let mut rest = entries;
                let mut out: Vec<PlaylistEntry> = Vec::new();
                while rest.len() > 0
                    invariant
                        dbv == self.song_lengths@,
                        orig.len() == out@.len() + rest@.len(),
                        rest@ == orig.skip(out@.len() as int),
                        out@ == orig.take(out@.len() as int).map_values(
                            |e: PlaylistEntry| refreshed_entry(dbv, e),
                        ),
                    decreases rest@.len(),
                {
                    let ghost k = out@.len() as int;
                    let mut e = rest.remove(0);
                    assert(e == orig[k]);
                    let ghost e0 = e;
                    if let Some(h) = e.md5_hash {
                        assert(obeys_key_model::<u128>());
                        if let Some(lengths) = self.song_lengths.get(&h) {
                            if lengths.len() > e.max_subsongs as usize && lengths.len() <= 256 {
                                e.max_subsongs = lengths.len() as u8;
                            }
                            if lengths.len() > 0 {
                                e.duration = Some(lengths[0]);
                            }
                        }
                    }
                    assert(e == refreshed_entry(dbv, e0));
                    out.push(e);
                    assert(rest@ =~= orig.skip(out@.len() as int));
                    assert(out@ =~= orig.take(out@.len() as int).map_values(
                        |e: PlaylistEntry| refreshed_entry(dbv, e),
                    ));
                }
                assert(orig.take(out@.len() as int) =~= orig);
                self.playlist = out;
                self.current_playing = None;
                self.playlist_selected = None;
                let mut msg: Vec<char> = Vec::new();
                push_str(&mut msg, "Loaded playlist with ");
                crate::text::push_decimal(&mut msg, count as u64);
                push_str(&mut msg, " entries");
                self.status_message = string_from_chars(&msg);
            },
            Err(e) => {
                self.status_message = crate::text::join2("Load failed: ", e.as_str());
            },
        }
    }

    /// Show the song length database's state: a download or a file pick
    /// starting, a download's result, a load failure or a progress line.
    pub fn song_lengths_event(&mut self, event: SongLengthsEvent) -> (parse: Option<String>)
        ensures
            final(self).song_lengths_status@ == song_lengths_text(event),
            crate::text::opt_str(parse) == match event {
                SongLengthsEvent::Downloaded(Ok(path)) => Some(path@),
                _ => None,
            },
            *final(self) == (MusicPlayer { song_lengths_status: final(self).song_lengths_status, ..*old(self) }),
    {
        match event {
            SongLengthsEvent::DownloadStarted => {
                self.song_lengths_status = String::from_str("Downloading song lengths database...");
                None
            },
            SongLengthsEvent::Downloaded(Ok(path)) => {
                self.song_lengths_status = crate::text::join2("Downloaded to: ", path.as_str());
                Some(path)
            },
            SongLengthsEvent::Downloaded(Err(e)) => {
                self.song_lengths_status = crate::text::join2("Download failed: ", e.as_str());
                None
            },
            SongLengthsEvent::FileRequested => {
                self.song_lengths_status = String::from_str("Select song lengths file...");
                None
            },
            SongLengthsEvent::LoadFailed(e) => {
                self.song_lengths_status = crate::text::join2("Load failed: ", e.as_str());
                None
            },
            SongLengthsEvent::Progress(m) => {
                self.song_lengths_status = m;
                None
            },
        }
    }

    /// A playback request ended: a failure is shown.
    pub fn playback_completed(&mut self, result: Result<(), String>)
        ensures
            match result {
                Ok(()) => *final(self) == *old(self),
                Err(e) => final(self).status_message@ == "Playback error: "@ + e@ && *final(self) == (
                MusicPlayer { status_message: final(self).status_message, ..*old(self) }),
            },
    {
        if let Err(e) = result {
            self.status_message = crate::text::join2("Playback error: ", e.as_str());
        }
    }
}

/// What happens to the song length database.
#[derive(Debug)]
pub enum SongLengthsEvent {
    /// A download starts.
    DownloadStarted,
    /// A download ended: the path of the file, or the error.
    Downloaded(Result<String, String>),
    /// A file is to be picked.
    FileRequested,
    /// Reading or parsing the database failed.
    LoadFailed(String),
    /// A progress line.
    Progress(String),
}

/// The status line of the song length database after an event.
pub open spec fn song_lengths_text(event: SongLengthsEvent) -> Seq<char> {
    match event {
        SongLengthsEvent::DownloadStarted => "Downloading song lengths database..."@,
        SongLengthsEvent::Downloaded(Ok(path)) => "Downloaded to: "@ + path@,
        SongLengthsEvent::Downloaded(Err(e)) => "Download failed: "@ + e@,
        SongLengthsEvent::FileRequested => "Select song lengths file..."@,
        SongLengthsEvent::LoadFailed(e) => "Load failed: "@ + e@,
        SongLengthsEvent::Progress(m) => m@,
    }
}


/// The positions of the browser lines shown: all of them for search
/// results, else those whose names pass the filter (see
/// `remote_browser::name_passes`).
pub open spec fn shown_entries(entries: Seq<BrowserEntry>, filter: Seq<char>, search: bool) -> Seq<usize>
    decreases entries.len(),
{
    if entries.len() == 0 {
        Seq::empty()
    } else {
        let rest = shown_entries(entries.drop_last(), filter, search);
        if search || crate::remote_browser::name_passes(entries.last().name@, filter) {
            rest.push((entries.len() - 1) as usize)
        } else {
            rest
        }
    }
}

impl MusicPlayer {
    /// The positions of the browser lines shown (see `shown_entries`).
    pub fn visible_entries(&self) -> (r: Vec<usize>)
        ensures
            r@ == shown_entries(self.browser_entries@, self.browser_filter@, self.browser_search_active),
    {
        let mut r: Vec<usize> = Vec::new();
        let mut i: usize = 0;
        while i < self.browser_entries.len()
            invariant
                i <= self.browser_entries@.len(),
                r@ == shown_entries(
                    self.browser_entries@.take(i as int),
                    self.browser_filter@,
                    self.browser_search_active,
                ),
            decreases self.browser_entries@.len() - i,
        {
            assert(self.browser_entries@.take(i as int + 1).drop_last() =~= self.browser_entries@.take(
                i as int,
            ));
            if self.browser_search_active || crate::remote_browser::name_passes_filter(
                self.browser_entries[i].name.as_str(),
                self.browser_filter.as_str(),
            ) {
                r.push(i);
            }
            i = i + 1;
        }
        assert(self.browser_entries@.take(i as int) =~= self.browser_entries@);
        r
    }
}


// ── Texts of the player pane ──────────────────────────────────────

/// A number below 100 with at least two digits (`{:02}`).
pub open spec fn two_digits(n: nat) -> Seq<char> {
    if n < 10 {
        "0"@ + crate::text::decimal(n)
    } else {
        crate::text::decimal(n)
    }
}

/// A number of seconds as `m:ss`.
pub open spec fn clock(t: nat) -> Seq<char> {
    crate::text::decimal(t / 60) + ":"@ + two_digits(t % 60)
}

fn push_clock(out: &mut Vec<char>, t: u32)
    ensures
        final(out)@ == old(out)@ + clock(t as nat),
{
    crate::text::push_decimal(out, (t / 60) as u64);
    out.push(':');
    let sec = t % 60;
    if sec < 10 {
        out.push('0');
    }
    crate::text::push_decimal(out, sec as u64);
    proof {
        reveal_strlit(":");
        reveal_strlit("0");
    }
    assert(final(out)@ =~= old(out)@ + clock(t as nat)) by {
        reveal_strlit(":");
        reveal_strlit("0");
    }
}

/// The shown length of a playlist entry: its duration as `m:ss`, or
/// `3:00` when it has none.
pub fn entry_duration_text(e: &PlaylistEntry) -> (t: String)
    ensures
        t@ == match e.duration {
            Some(d) => clock(d as nat),
            None => "3:00"@,
        },
{
    match e.duration {
        Some(d) => {
            let mut out: Vec<char> = Vec::new();
            push_clock(&mut out, d);
            assert(out@ =~= clock(d as nat));
            string_from_chars(&out)
        },
        None => String::from_str("3:00"),
    }
}

/// The parts of a playlist entry's badge.
pub open spec fn badge_parts(e: PlaylistEntry) -> Seq<Seq<char>> {
    let meta = match e.sid_metadata {
        Some(m) => (if m.video_std@ == "NTSC"@ {
            seq!["NTSC"@]
        } else {
            Seq::empty()
        }) + (if m.num_sids > 1 {
            seq![crate::text::decimal(m.num_sids as nat) + "SID"@]
        } else {
            Seq::empty()
        }),
        None => Seq::empty(),
    };
    seq!["S"@] + meta + if e.max_subsongs > 1 {
        seq!["x"@ + crate::text::decimal(e.max_subsongs as nat)]
    } else {
        Seq::empty()
    }
}

/// The badge of a playlist entry: for a SID, `S`, then `NTSC` (PAL is
/// left out), the number of SID chips when more than one and the number
/// of subsongs when more than one, separated by spaces; `M` for a MOD,
/// `P` for a program.
pub open spec fn badge_spec(e: PlaylistEntry) -> Seq<char> {
    match e.file_type {
        MusicFileType::Sid => crate::text::join_with(badge_parts(e), " "@),
        MusicFileType::Mod => "M"@,
        MusicFileType::Prg => "P"@,
    }
}

/// The badge of a playlist entry (see `badge_spec`).
pub fn playlist_badge(e: &PlaylistEntry) -> (b: String)
    ensures
        b@ == badge_spec(*e),
{
    match e.file_type {
        MusicFileType::Mod => String::from_str("M"),
        MusicFileType::Prg => String::from_str("P"),
        MusicFileType::Sid => {
            let mut parts: Vec<String> = Vec::new();
            parts.push(String::from_str("S"));
            let ghost p1 = crate::text::str_views(parts@);
            assert(p1 =~= seq!["S"@]);
            match &e.sid_metadata {
                Some(m) => {
                    proof {
                        reveal_strlit("NTSC");
                    }
                    if crate::text::str_eq(m.video_std.as_str(), "NTSC") {
                        parts.push(String::from_str("NTSC"));
                    }
                    if m.num_sids > 1 {
                        let mut t: Vec<char> = Vec::new();
                        crate::text::push_decimal(&mut t, m.num_sids as u64);
                        push_str(&mut t, "SID");
                        parts.push(string_from_chars(&t));
                    }
                },
                None => {},
            }
            if e.max_subsongs > 1 {
                let mut t: Vec<char> = Vec::new();
                push_str(&mut t, "x");
                crate::text::push_decimal(&mut t, e.max_subsongs as u64);
                parts.push(string_from_chars(&t));
            }
            assert(crate::text::str_views(parts@) =~= badge_parts(*e));
            crate::text::join_strings(&parts, " ")
        },
    }
}

impl MusicPlayer {
    /// The clock line: elapsed, length and remaining time, each `m:ss`
    /// (`e / d (-r)`); the remaining time does not go below zero.
    pub fn time_display(&self) -> (t: String)
        ensures
            t@ == clock(self.elapsed_seconds as nat) + " / "@ + clock(self.current_song_duration as nat)
                + " (-"@ + clock(
                if self.current_song_duration >= self.elapsed_seconds {
                    (self.current_song_duration - self.elapsed_seconds) as nat
                } else {
                    0
                },
            ) + ")"@,
    {
        let remaining: u32 = if self.current_song_duration >= self.elapsed_seconds {
            self.current_song_duration - self.elapsed_seconds
        } else {
            0
        };
        let mut out: Vec<char> = Vec::new();
        push_clock(&mut out, self.elapsed_seconds);
        push_str(&mut out, " / ");
        push_clock(&mut out, self.current_song_duration);
        push_str(&mut out, " (-");
        push_clock(&mut out, remaining);
        push_str(&mut out, ")");
        string_from_chars(&out)
    }

    /// The subsong line: `Tune <current>/<count>`.
    pub fn tune_display(&self) -> (t: String)
        ensures
            t@ == "Tune "@ + crate::text::decimal(self.current_subsong as nat) + "/"@ + crate::text::decimal(
                self.max_subsongs as nat,
            ),
    {
        let mut out: Vec<char> = Vec::new();
        push_str(&mut out, "Tune ");
        crate::text::push_decimal(&mut out, self.current_subsong as u64);
        push_str(&mut out, "/");
        crate::text::push_decimal(&mut out, self.max_subsongs as u64);
        string_from_chars(&out)
    }

    /// The browser's count line: `<n> music files`, with `found` after a
    /// search.
    pub fn music_count_display(&self) -> (t: String)
        ensures
            t@ == crate::text::decimal(music_count(self.browser_entries@)) + if self.browser_search_active {
                " music files found"@
            } else {
                " music files"@
            },
    {
        let mut count: usize = 0;
        let mut i: usize = 0;
        while i < self.browser_entries.len()
            invariant
                i <= self.browser_entries@.len(),
                count == music_count(self.browser_entries@.take(i as int)),
                count <= i,
            decreases self.browser_entries@.len() - i,
        {
            assert(self.browser_entries@.take(i as int + 1).drop_last() =~= self.browser_entries@.take(
                i as int,
            ));
            if let BrowserEntryType::MusicFile(_) = self.browser_entries[i].entry_type {
                count = count + 1;
            }
            i = i + 1;
        }
        assert(self.browser_entries@.take(i as int) =~= self.browser_entries@);
        let mut out: Vec<char> = Vec::new();
        crate::text::push_decimal(&mut out, count as u64);
        if self.browser_search_active {
            push_str(&mut out, " music files found");
        } else {
            push_str(&mut out, " music files");
        }
        string_from_chars(&out)
    }
}

/// What reading a SID file gives: the subsong count and metadata of its
/// header, where the header parses, and the MD5 digest of the file (its
/// 16 bytes read as a big-endian number).
pub struct SidFacts {
    pub header: Option<(u8, SidMetadata)>,
    pub md5: u128,
}

/// An entry as a SID file's facts and the song length database make it.
pub open spec fn sid_entry(db: Map<u128, Vec<u32>>, base: PlaylistEntry, sid: Option<SidFacts>) -> PlaylistEntry {
    match sid {
        Some(f) => refreshed_entry(
            db,
            PlaylistEntry {
                max_subsongs: match f.header {
                    Some(h) => h.0,
                    None => base.max_subsongs,
                },
                sid_metadata: match f.header {
                    Some(h) => Some(h.1),
                    None => None,
                },
                md5_hash: Some(f.md5),
                ..base
            },
        ),
        None => base,
    }
}

/// The title a MOD file gets in the playlist: "author - name" where the
/// file names an author, else its name, else the file's own name.
pub open spec fn mod_title(data: Seq<u8>, fallback: Seq<char>) -> Seq<char> {
    let name = crate::mod_info::mod_string(data.subrange(0, 20));
    match crate::mod_info::mod_author(data) {
        Some(a) => a + " - "@ + name,
        None => if name.len() > 0 {
            name
        } else {
            fallback
        },
    }
}

/// How long a MOD file plays, as `parse_mod` works it out.
pub open spec fn mod_length(data: Seq<u8>) -> int {
    let song_len = data[950] as int;
    crate::mod_info::mod_duration(
        data,
        song_len,
        crate::mod_info::pattern_count(data.subrange(952, 1080), song_len),
        crate::mod_info::channels_of(data.subrange(1080, 1084)) as int,
    )
}

/// The database's subsong count and first length applied to an entry (see
/// `refreshed_entry`).
fn refresh_entry(db: &HashMap<u128, Vec<u32>>, e: PlaylistEntry) -> (r: PlaylistEntry)
    ensures
        r == refreshed_entry(db@, e),
{
    broadcast use vstd::std_specs::hash::group_hash_axioms;

    let mut e = e;
    if let Some(h) = e.md5_hash {
        assert(obeys_key_model::<u128>());
        if let Some(lengths) = db.get(&h) {
            if lengths.len() > e.max_subsongs as usize && lengths.len() <= 256 {
                e.max_subsongs = lengths.len() as u8;
            }
            if lengths.len() > 0 {
                e.duration = Some(lengths[0]);
            }
        }
    }
    e
}

impl MusicPlayer {
    /// The playlist entry for a file of the browser. A SID file takes its
    /// header's subsong count and metadata and its digest from `sid` (the
    /// facts of reading it, where it could be read), then what the song
    /// length database holds for it. A MOD file is named and timed from its
    /// contents `data` (no name and no length where it could not be read or
    /// is too small); a PRG file plays for the default time; any other
    /// entry keeps the file's name.
    pub fn create_playlist_entry(
        &self,
        browser_entry: &BrowserEntry,
        file_type: MusicFileType,
        data: Option<&[u8]>,
        sid: Option<SidFacts>,
    ) -> (e: PlaylistEntry)
        requires
            file_type == MusicFileType::Mod ==> (data matches Some(d) ==> crate::mod_info::mod_parsable(d@)),
        ensures
            e.path == browser_entry.path,
            e.file_type == file_type,
            e.subsong == 1,
            ({
                let base = PlaylistEntry {
                    path: browser_entry.path,
                    name: e.name,
                    file_type: file_type,
                    duration: None,
                    subsong: 1,
                    max_subsongs: browser_entry.subsongs,
                    md5_hash: None,
                    sid_metadata: None,
                };
                match file_type {
                    MusicFileType::Sid => {
                        &&& e == (PlaylistEntry { name: e.name, ..sid_entry(self.song_lengths@, base, sid) })
                        &&& e.name@ == browser_entry.name@
                    },
                    MusicFileType::Mod => {
                        &&& e == (PlaylistEntry { name: e.name, duration: e.duration, ..base })
                        &&& match data {
                            Some(d) => if d@.len() >= 1084 {
                                &&& e.name@ == mod_title(d@, browser_entry.name@)
                                &&& e.duration == Some(mod_length(d@) as u32)
                            } else {
                                e.name@.len() == 0 && e.duration is None
                            },
                            None => e.name@.len() == 0 && e.duration is None,
                        }
                    },
                    MusicFileType::Prg => {
                        &&& e == (PlaylistEntry {
                            name: e.name,
                            duration: Some(self.default_song_duration),
                            ..base
                        })
                        &&& e.name@ == browser_entry.name@
                    },
                }
            }),
    {
        proof {
            reveal_strlit("");
        }
        let mut entry = PlaylistEntry {
            path: browser_entry.path.clone(),
            name: String::from_str(""),
            file_type,
            duration: None,
            subsong: 1,
            max_subsongs: browser_entry.subsongs,
            md5_hash: None,
            sid_metadata: None,
        };
        if file_type == MusicFileType::Sid {
            if let Some(f) = sid {
                if let Some((songs, meta)) = f.header {
                    entry.max_subsongs = songs;
                    entry.sid_metadata = Some(meta);
                }
                entry.md5_hash = Some(f.md5);
                entry = refresh_entry(&self.song_lengths, entry);
            }
        }
        if file_type == MusicFileType::Mod {
            if let Some(d) = data {
                if let Ok(info) = crate::mod_info::parse_mod(d) {
                    entry.name = match info.author {
                        Some(author) => crate::text::join3(author.as_str(), " - ", info.name.as_str()),
                        None => {
                            let cs = crate::text::chars_of(info.name.as_str());
                            if cs.len() > 0 {
                                info.name
                            } else {
                                browser_entry.name.clone()
                            }
                        },
                    };
                    entry.duration = Some(info.duration_seconds);
                }
            }
        } else if file_type == MusicFileType::Prg {
            entry.name = browser_entry.name.clone();
            entry.duration = Some(self.default_song_duration);
        } else {
            entry.name = browser_entry.name.clone();
        }
        entry
    }
}


/// The tag shown before a playing file's name.
pub open spec fn type_tag(t: MusicFileType) -> Seq<char> {
    match t {
        MusicFileType::Sid => "[SID]"@,
        MusicFileType::Mod => "[MOD]"@,
        MusicFileType::Prg => "[PRG]"@,
    }
}

/// The parts of the metadata line of a playing SID: video standard, chip
/// line, the number of tunes where more than one, and the release where
/// known.
pub open spec fn meta_parts(e: PlaylistEntry) -> Seq<Seq<char>> {
    match e.sid_metadata {
        Some(m) => seq![m.video_std@, m.sid_info@] + (if e.max_subsongs > 1 {
            seq![crate::text::decimal(e.max_subsongs as nat) + " tunes"@]
        } else {
            Seq::empty()
        }) + (if m.released@.len() > 0 {
            seq!["© "@ + m.released@]
        } else {
            Seq::empty()
        }),
        None => Seq::empty(),
    }
}

/// The entry that plays, where the playing index is in the playlist.
pub open spec fn playing_entry(p: MusicPlayer) -> Option<PlaylistEntry> {
    match p.current_playing {
        Some(i) => if i < p.playlist@.len() {
            Some(p.playlist@[i as int])
        } else {
            None
        },
        None => None,
    }
}

fn type_tag_of(t: &MusicFileType) -> (s: &'static str)
    ensures
        s@ == type_tag(*t),
{
    match t {
        MusicFileType::Sid => "[SID]",
        MusicFileType::Mod => "[MOD]",
        MusicFileType::Prg => "[PRG]",
    }
}

impl MusicPlayer {
    /// The now-playing line: the playing file's tag and name, or "No
    /// track selected".
    pub fn now_playing_text(&self) -> (t: String)
        ensures
            t@ == match playing_entry(*self) {
                Some(e) => type_tag(e.file_type) + " "@ + now_playing_spec(e),
                None => "No track selected"@,
            },
    {
        match self.current_playing {
            Some(i) => if i < self.playlist.len() {
                let e = &self.playlist[i];
                let mut out: Vec<char> = Vec::new();
                push_str(&mut out, type_tag_of(&e.file_type));
                push_str(&mut out, " ");
                if e.name.as_str().is_empty() {
                    match file_name_of(e.path.as_str()) {
                        Some(n) => push_str(&mut out, n.as_str()),
                        None => push_str(&mut out, "Unknown"),
                    }
                } else {
                    push_str(&mut out, e.name.as_str());
                }
                string_from_chars(&out)
            } else {
                String::from_str("No track selected")
            },
            None => String::from_str("No track selected"),
        }
    }

    /// The metadata line of the playing SID, its parts joined by ` | `;
    /// empty for other files or when nothing plays.
    pub fn now_playing_meta(&self) -> (t: String)
        ensures
            t@ == match playing_entry(*self) {
                Some(e) => crate::text::join_with(meta_parts(e), " | "@),
                None => Seq::empty(),
            },
    {
        match self.current_playing {
            Some(i) => if i < self.playlist.len() {
                let e = &self.playlist[i];
                match &e.sid_metadata {
                    Some(m) => {
                        let mut parts: Vec<String> = Vec::new();
                        parts.push(m.video_std.clone());
                        parts.push(m.sid_info.clone());
                        if e.max_subsongs > 1 {
                            let mut out: Vec<char> = Vec::new();
                            crate::text::push_decimal(&mut out, e.max_subsongs as u64);
                            push_str(&mut out, " tunes");
                            parts.push(string_from_chars(&out));
                        }
                        if !m.released.as_str().is_empty() {
                            let mut out: Vec<char> = Vec::new();
                            push_str(&mut out, "© ");
                            push_str(&mut out, m.released.as_str());
                            parts.push(string_from_chars(&out));
                        }
                        assert(crate::text::str_views(parts@) =~= meta_parts(*e));
                        crate::text::join_strings(&parts, " | ")
                    },
                    None => {
                        assert(meta_parts(*e) =~= Seq::<Seq<char>>::empty());
                        String::new()
                    },
                }
            } else {
                String::new()
            },
            None => String::new(),
        }
    }

    /// The play button's label and tooltip: pause while playing, else play.
    pub fn play_button(&self) -> (r: (&'static str, &'static str))
        ensures
            self.playback_state == PlaybackState::Playing ==> r.0@ == "‖"@ && r.1@
                == "Pause playback"@,
            self.playback_state != PlaybackState::Playing ==> r.0@ == "▶"@ && r.1@
                == "Start or resume playback"@,
    {
        match self.playback_state {
            PlaybackState::Playing => ("‖", "Pause playback"),
            _ => ("▶", "Start or resume playback"),
        }
    }

    /// The shuffle toggle's label.
    pub fn shuffle_label(&self) -> (s: &'static str)
        ensures
            s@ == if self.shuffle_enabled {
                "↭ Shuffle: ON"@
            } else {
                "↭ Shuffle"@
            },
    {
        if self.shuffle_enabled {
            "↭ Shuffle: ON"
        } else {
            "↭ Shuffle"
        }
    }

    /// The repeat toggle's label.
    pub fn repeat_label(&self) -> (s: &'static str)
        ensures
            s@ == if self.repeat_enabled {
                "⟳ Repeat: ON"@
            } else {
                "⟳ Repeat"@
            },
    {
        if self.repeat_enabled {
            "⟳ Repeat: ON"
        } else {
            "⟳ Repeat"
        }
    }
}

} // verus!
