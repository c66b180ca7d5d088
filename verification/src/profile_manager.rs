//! Decisions of the profile editor that do not depend on a device profile:
//! which pane is shown, the remote file picker that fills path-like
//! configuration values by browsing the device, and the heuristic that
//! tells such values apart.
use vstd::prelude::*;
use crate::profile_api::{bare_host_pub, bare_host_spec};
use crate::config_tree::{ConfigTree, ConfigValue, settings_of};
use crate::profile_repo::ProfileEntry;
use crate::remote_browser::RemoteFileEntry;
use crate::text::{
    decimal,
    join_strings,
    join_with,
    push_chars,
    push_decimal,
    push_str,
    string_from_chars,
    str_views,
    trim,
    trim_chars,
    before_last,
    before_last_of,
    chars_of,
    contains,
    contains_seq,
    str_eq,
    to_lowercase,
    trim_start,
    trim_start_index,
    unicode_lowercase,
};

verus! {

/// Which pane of the profile manager is shown.
#[derive(Debug, Clone, Copy, PartialEq, Eq, Structural)]
pub enum ViewMode {
    ProfileList,
    ProfileEditor,
    DiffView,
    RawJson,
    RenderedCfg,
}

/// The remote file picker: the configuration value it writes into, the
/// device directory being browsed and its listing.
pub struct RemotePickerState {
    /// The configuration category the picker writes into.
    pub target_category: String,
    /// The configuration key being edited.
    pub target_key: String,
    /// The device directory being browsed.
    pub current_path: String,
    /// The typed path (for mount points the root listing hides).
    pub path_input: String,
    /// The listing of `current_path`.
    pub entries: Vec<RemoteFileEntry>,
    /// Whether a listing is on its way.
    pub is_loading: bool,
    /// Why the last listing failed.
    pub error: Option<String>,
}

/// A directory listing to fetch from the device: the host without its
/// scheme, and the directory.
pub struct PickerFetch {
    pub host: String,
    pub path: String,
}

/// The directory above `p`: what comes before its last `/`, or the root
/// where that is empty or there is no `/`.
pub open spec fn parent_or_root(p: Seq<char>) -> Seq<char> {
    match before_last(p, '/') {
        Some(parent) => if parent.len() > 0 {
            parent
        } else {
            "/"@
        },
        None => "/"@,
    }
}

/// Where the picker starts browsing for a value: the root for an empty
/// value, a value ending in `/` as it is, and otherwise the directory of
/// the file it names.
pub open spec fn picker_start(start: Seq<char>) -> Seq<char> {
    if start.len() == 0 {
        "/"@
    } else if start.last() == '/' {
        start
    } else {
        parent_or_root(start)
    }
}

/// The message the picker reports when no device is connected.
pub open spec fn not_connected_message() -> Seq<char> {
    "Not connected to device"@
}

/// The directory above `p` (see `parent_or_root`).
pub fn parent_or_root_of(p: &str) -> (r: String)
    ensures
        r@ == parent_or_root(p@),
{
    match before_last_of(p, '/') {
        Some(parent) => {
            let cs = chars_of(parent.as_str());
            if cs.len() > 0 {
                parent
            } else {
                String::from_str("/")
            }
        },
        None => String::from_str("/"),
    }
}

/// Where the picker starts browsing for the value `start` (see
/// `picker_start`).
pub fn picker_start_path(start: &str) -> (r: String)
    ensures
        r@ == picker_start(start@),
{
    let cs = chars_of(start);
    if cs.len() == 0 {
        String::from_str("/")
    } else if cs[cs.len() - 1] == '/' {
        String::from_str(start)
    } else {
        parent_or_root_of(start)
    }
}

/// The listing request for `path` on the device at `host_url`.
fn fetch_for(host_url: &str, path: &str) -> (f: PickerFetch)
    ensures
        f.host@ == bare_host_spec(host_url@),
        f.path@ == path@,
{
    PickerFetch { host: String::from_str(bare_host_pub(host_url)), path: String::from_str(path) }
}

impl RemotePickerState {
    /// Open the picker for `category`/`key`, starting from the value
    /// `start_path`, and ask for the listing of the start directory. Without
    /// a device it fails with "Not connected to device".
    pub fn open(category: String, key: String, start_path: &str, host_url: Option<&str>) -> (r:
        Result<(RemotePickerState, PickerFetch), String>)
        ensures
            match host_url {
                None => r matches Err(e) && e@ == not_connected_message(),
                Some(h) => r matches Ok((p, f)) && {
                    &&& p.target_category == category
                    &&& p.target_key == key
                    &&& p.current_path@ == picker_start(start_path@)
                    &&& p.path_input@ == picker_start(start_path@)
                    &&& p.entries@.len() == 0
                    &&& p.is_loading
                    &&& p.error is None
                    &&& f.host@ == bare_host_spec(h@)
                    &&& f.path@ == picker_start(start_path@)
                },
            },
    {
        match host_url {
            None => Err(String::from_str("Not connected to device")),
            Some(h) => {
                let initial = picker_start_path(start_path);
                let fetch = fetch_for(h, initial.as_str());
                let picker = RemotePickerState {
                    target_category: category,
                    target_key: key,
                    current_path: initial.clone(),
                    path_input: initial,
                    entries: Vec::new(),
                    is_loading: true,
                    error: None,
                };
                Ok((picker, fetch))
            },
        }
    }

    /// Browse `path`: the picker shows it as loading and asks for its
    /// listing. Without a device nothing happens.
    pub fn navigate(&mut self, path: String, host_url: Option<&str>) -> (f: Option<PickerFetch>)
        ensures
            match host_url {
                None => f is None && *final(self) == *old(self),
                Some(h) => f matches Some(x) && {
                    &&& x.host@ == bare_host_spec(h@)
                    &&& x.path@ == path@
                    &&& *final(self) == (RemotePickerState {
                        current_path: final(self).current_path,
                        path_input: final(self).path_input,
                        is_loading: true,
                        error: None,
                        ..*old(self)
                    })
                    &&& final(self).current_path@ == path@
                    &&& final(self).path_input@ == path@
                },
            },
    {
        match host_url {
            None => None,
            Some(h) => {
                let fetch = fetch_for(h, path.as_str());
                self.is_loading = true;
                self.current_path = path.clone();
                self.path_input = path;
                self.error = None;
                Some(fetch)
            },
        }
    }

    /// The typed path changed.
    pub fn path_input_changed(&mut self, input: String)
        ensures
            *final(self) == (RemotePickerState { path_input: input, ..*old(self) }),
    {
        self.path_input = input;
    }

    /// Browse the typed path (as `navigate` does).
    pub fn go_to_path(&mut self, host_url: Option<&str>) -> (f: Option<PickerFetch>)
        ensures
            match host_url {
                None => f is None && *final(self) == *old(self),
                Some(h) => f matches Some(x) && {
                    &&& x.host@ == bare_host_spec(h@)
                    &&& x.path@ == old(self).path_input@
                    &&& *final(self) == (RemotePickerState {
                        current_path: final(self).current_path,
                        path_input: final(self).path_input,
                        is_loading: true,
                        error: None,
                        ..*old(self)
                    })
                    &&& final(self).current_path@ == old(self).path_input@
                    &&& final(self).path_input@ == old(self).path_input@
                },
            },
    {
        let path = self.path_input.clone();
        self.navigate(path, host_url)
    }

    /// A listing arrived: on success the picker shows that directory and
    /// its entries; on failure it keeps the error and shows no entries.
    pub fn listed(&mut self, result: Result<(String, Vec<RemoteFileEntry>), String>)
        ensures
            !final(self).is_loading,
            final(self).target_category == old(self).target_category,
            final(self).target_key == old(self).target_key,
            final(self).path_input == old(self).path_input,
            match result {
                Ok((path, entries)) => {
                    &&& final(self).current_path == path
                    &&& final(self).entries == entries
                    &&& final(self).error is None
                },
                Err(e) => {
                    &&& final(self).current_path == old(self).current_path
                    &&& final(self).entries@.len() == 0
                    &&& final(self).error == Some(e)
                },
            },
    {
        self.is_loading = false;
        match result {
            Ok((path, entries)) => {
                self.current_path = path;
                self.entries = entries;
                self.error = None;
            },
            Err(e) => {
                self.error = Some(e);
                self.entries = Vec::new();
            },
        }
    }

    /// A file was chosen: the picker closes, giving the category, the key
    /// and the chosen path to write into the profile.
    pub fn select(self, path: String) -> (r: (String, String, String))
        ensures
            r.0 == self.target_category,
            r.1 == self.target_key,
            r.2 == path,
    {
        (self.target_category, self.target_key, path)
    }

    /// The directory the "Up" button goes to; none at the root.
    pub fn up_target(&self) -> (r: Option<String>)
        ensures
            self.current_path@ == "/"@ ==> r is None,
            self.current_path@ != "/"@ ==> (r matches Some(p) && p@ == parent_or_root(
                self.current_path@,
            )),
    {
        proof {
            reveal_strlit("/");
        }
        if str_eq(self.current_path.as_str(), "/") {
            None
        } else {
            Some(parent_or_root_of(self.current_path.as_str()))
        }
    }
}

/// The words in a key's name that mark it as a device path.
pub open spec fn path_hint_words() -> Seq<Seq<char>> {
    seq!["path"@, "image"@, "file"@, "dir"@, "directory"@]
}

/// Whether a configuration value looks like a device path: its key's
/// lower-cased name holds one of the hint words, or its value is a string
/// that starts with `/` after leading whitespace.
pub open spec fn path_field(key: Seq<char>, value_str: Option<Seq<char>>) -> bool {
    let lower = unicode_lowercase(key);
    if exists|i: int| 0 <= i < path_hint_words().len() && contains_seq(lower, path_hint_words()[i]) {
        true
    } else {
        match value_str {
            Some(s) => trim_start(s).len() > 0 && trim_start(s)[0] == '/',
            None => false,
        }
    }
}

/// Whether the configuration value of `key` is a device path (see
/// `path_field`); `value_str` is the value where it is a string.
pub fn is_path_field(key: &str, value_str: Option<&str>) -> (b: bool)
    ensures
        b == path_field(key@, match value_str {
            Some(s) => Some(s@),
            None => None,
        }),
{
    let lower = to_lowercase(key);
    let lc = chars_of(lower.as_str());
    let words: Vec<&str> = vec!["path", "image", "file", "dir", "directory"];
    proof {
        reveal_strlit("path");
        reveal_strlit("image");
        reveal_strlit("file");
        reveal_strlit("dir");
        reveal_strlit("directory");
    }
    let mut i: usize = 0;
    while i < words.len()
        invariant
            i <= words.len(),
            words@.len() == path_hint_words().len(),
            forall|k: int| 0 <= k < words@.len() ==> #[trigger] words@[k]@ == path_hint_words()[k],
            lc@ == unicode_lowercase(key@),
            forall|k: int| 0 <= k < i ==> !contains_seq(lc@, #[trigger] path_hint_words()[k]),
        decreases words.len() - i,
    {
        let w = chars_of(words[i]);
        if contains(&lc, &w) {
            return true;
        }
        i = i + 1;
    }
    match value_str {
        Some(s) => {
            let cs = chars_of(s);
            let k = trim_start_index(&cs, cs.len());
            proof {
                assert(cs@.take(cs@.len() as int) =~= cs@);
            }
            k < cs.len() && cs[k] == '/'
        },
        None => false,
    }
}

/// The pieces of `s` read so far when splitting at `c`: the finished
/// pieces, and the piece being read.
pub open spec fn split_acc(s: Seq<char>, c: char) -> (Seq<Seq<char>>, Seq<char>)
    decreases s.len(),
{
    if s.len() == 0 {
        (Seq::empty(), Seq::empty())
    } else {
        let (done, cur) = split_acc(s.drop_last(), c);
        if s.last() == c {
            (done.push(cur), Seq::empty())
        } else {
            (done, cur.push(s.last()))
        }
    }
}

/// The pieces of `s` between the separators `c`, in order (`str::split`).
pub open spec fn split_on(s: Seq<char>, c: char) -> Seq<Seq<char>> {
    split_acc(s, c).0.push(split_acc(s, c).1)
}

/// The pieces, each trimmed, without those that trim to nothing.
pub open spec fn trimmed_nonempty(pieces: Seq<Seq<char>>) -> Seq<Seq<char>>
    decreases pieces.len(),
{
    if pieces.len() == 0 {
        Seq::empty()
    } else {
        let rest = trimmed_nonempty(pieces.drop_last());
        if trim(pieces.last()).len() > 0 {
            rest.push(trim(pieces.last()))
        } else {
            rest
        }
    }
}

/// The tags typed as a comma-separated list.
pub open spec fn tags_of(input: Seq<char>) -> Seq<Seq<char>> {
    trimmed_nonempty(split_on(input, ','))
}

/// The tags of a comma-separated list: each piece trimmed, empty pieces
/// dropped.
pub fn parse_tags(input: &str) -> (r: Vec<String>)
    ensures
        str_views(r@) == tags_of(input@),
{
    let cs = chars_of(input);
    let mut out: Vec<String> = Vec::new();
    let mut cur: Vec<char> = Vec::new();
    let mut i: usize = 0;
    while i < cs.len()
        invariant
            i <= cs.len(),
            cs@ == input@,
            str_views(out@) == trimmed_nonempty(split_acc(cs@.take(i as int), ',').0),
            cur@ == split_acc(cs@.take(i as int), ',').1,
        decreases cs.len() - i,
    {
        proof {
            assert(cs@.take(i as int + 1).drop_last() =~= cs@.take(i as int));
        }
        if cs[i] == ',' {
            let t = trim_chars(&cur);
            if t.len() > 0 {
                let ghost before = out@;
                out.push(string_from_chars(&t));
                proof {
                    assert(str_views(out@) =~= str_views(before).push(t@));
                }
            }
            cur = Vec::new();
            proof {
                let pre = split_acc(cs@.take(i as int), ',');
                assert(pre.0.push(pre.1).drop_last() =~= pre.0);
                assert(cur@ =~= Seq::<char>::empty());
            }
        } else {
            cur.push(cs[i]);
        }
        i = i + 1;
    }
    proof {
        assert(cs@.take(i as int) =~= input@);
    }
    let t = trim_chars(&cur);
    if t.len() > 0 {
        let ghost before = out@;
        out.push(string_from_chars(&t));
        proof {
            assert(str_views(out@) =~= str_views(before).push(t@));
        }
    }
    proof {
        let pre = split_acc(input@, ',');
        assert(pre.0.push(pre.1).drop_last() =~= pre.0);
    }
    out
}

/// How a profile is applied: all of its settings, or only over the
/// baseline.
#[derive(Debug, Clone, Copy, PartialEq, Eq, Structural)]
pub enum ProfileMode {
    Full,
    Overlay,
}

/// The mode chosen by name: "Overlay", or otherwise full.
pub open spec fn mode_named(name: Seq<char>) -> ProfileMode {
    if name == "Overlay"@ {
        ProfileMode::Overlay
    } else {
        ProfileMode::Full
    }
}

/// A medium a profile mounts: its kind ("disk" or "cartridge"), where it
/// is, and whether it is started once mounted.
pub struct MountEntry {
    pub media_type: String,
    pub path: String,
    pub autoload: bool,
}

/// Which medium of a profile.
#[derive(Debug, Clone, Copy, PartialEq, Eq, Structural)]
pub enum MountSlot {
    DriveA,
    DriveB,
    Cartridge,
}

/// The media a profile mounts.
pub struct ProfileMounts {
    pub drive_a: Option<MountEntry>,
    pub drive_b: Option<MountEntry>,
    pub cartridge: Option<MountEntry>,
}

/// The parts of a device profile that the editor changes.
pub struct EditedProfile {
    pub name: String,
    pub description: String,
    pub tags: Vec<String>,
    pub mode: ProfileMode,
    pub config: ConfigTree,
    pub mounts: ProfileMounts,
    /// Restore the baseline before applying.
    pub restore_baseline_first: bool,
    /// Reset the machine once applied.
    pub reset_after_apply: bool,
    /// The screenshot's file name, empty for none.
    pub screenshot: String,
}

impl ProfileMounts {
    /// The medium in `slot`.
    pub open spec fn slot(&self, slot: MountSlot) -> Option<MountEntry> {
        match slot {
            MountSlot::DriveA => self.drive_a,
            MountSlot::DriveB => self.drive_b,
            MountSlot::Cartridge => self.cartridge,
        }
    }

    /// The media with `slot` holding `m` and the others unchanged.
    pub open spec fn with_slot(self, slot: MountSlot, m: Option<MountEntry>) -> ProfileMounts {
        match slot {
            MountSlot::DriveA => ProfileMounts { drive_a: m, ..self },
            MountSlot::DriveB => ProfileMounts { drive_b: m, ..self },
            MountSlot::Cartridge => ProfileMounts { cartridge: m, ..self },
        }
    }

    fn take_slot(&mut self, slot: MountSlot) -> (m: Option<MountEntry>)
        ensures
            m == old(self).slot(slot),
            *final(self) == old(self).with_slot(slot, None),
    {
        match slot {
            MountSlot::DriveA => self.drive_a.take(),
            MountSlot::DriveB => self.drive_b.take(),
            MountSlot::Cartridge => self.cartridge.take(),
        }
    }

    fn put_slot(&mut self, slot: MountSlot, m: Option<MountEntry>)
        ensures
            *final(self) == old(self).with_slot(slot, m),
    {
        match slot {
            MountSlot::DriveA => self.drive_a = m,
            MountSlot::DriveB => self.drive_b = m,
            MountSlot::Cartridge => self.cartridge = m,
        }
    }
}

/// The kind of medium a slot mounts.
pub open spec fn slot_media(slot: MountSlot) -> Seq<char> {
    match slot {
        MountSlot::Cartridge => "cartridge"@,
        _ => "disk"@,
    }
}

/// A new, empty overlay profile named "New Profile".
pub open spec fn fresh_profile(p: EditedProfile) -> bool {
    &&& p.name@ == "New Profile"@
    &&& p.description@.len() == 0
    &&& p.tags@.len() == 0
    &&& p.mode == ProfileMode::Overlay
    &&& p.config.well_formed()
    &&& p.config@ == Map::<Seq<char>, Map<Seq<char>, ConfigValue>>::empty()
    &&& p.mounts.drive_a is None
    &&& p.mounts.drive_b is None
    &&& p.mounts.cartridge is None
    &&& !p.restore_baseline_first
    &&& !p.reset_after_apply
    &&& p.screenshot@.len() == 0
}

impl EditedProfile {
    /// A full profile named `name` holding a configuration read from the
    /// device, with nothing else set.
    pub fn from_snapshot(name: String, config: ConfigTree) -> (p: EditedProfile)
        requires
            config.well_formed(),
        ensures
            p.name == name,
            p.config == config,
            p.mode == ProfileMode::Full,
            p.description@.len() == 0,
            p.tags@.len() == 0,
            p.mounts.drive_a is None && p.mounts.drive_b is None && p.mounts.cartridge is None,
            !p.restore_baseline_first && !p.reset_after_apply,
            p.screenshot@.len() == 0,
    {
        proof {
            reveal_strlit("");
        }
        EditedProfile {
            name,
            description: String::from_str(""),
            tags: Vec::new(),
            mode: ProfileMode::Full,
            config,
            mounts: ProfileMounts { drive_a: None, drive_b: None, cartridge: None },
            restore_baseline_first: false,
            reset_after_apply: false,
            screenshot: String::from_str(""),
        }
    }

    /// A new, empty overlay profile (see `fresh_profile`).
    pub fn new_overlay() -> (p: EditedProfile)
        ensures
            fresh_profile(p),
    {
        proof {
            reveal_strlit("");
        }
        EditedProfile {
            name: String::from_str("New Profile"),
            description: String::from_str(""),
            tags: Vec::new(),
            mode: ProfileMode::Overlay,
            config: ConfigTree::new(),
            mounts: ProfileMounts { drive_a: None, drive_b: None, cartridge: None },
            restore_baseline_first: false,
            reset_after_apply: false,
            screenshot: String::from_str(""),
        }
    }
}

/// The state of the profile editor: the repository's profiles, the profile
/// being edited and what the editor shows.
pub struct ProfileEditor {
    pub repo_initialized: bool,
    pub profiles: Vec<ProfileEntry>,
    pub current: Option<EditedProfile>,
    /// The category folder the profile is saved under.
    pub save_category: String,
    pub is_dirty: bool,
    pub selected_category: Option<String>,
    pub search_filter: String,
    pub new_category_input: String,
    pub tags_input: String,
    pub remote_picker: Option<RemotePickerState>,
    /// The device configuration captured as the baseline.
    pub baseline: Option<ConfigTree>,
    pub show_diff: bool,
    pub view_mode: ViewMode,
    pub is_loading: bool,
    /// The apply dialog: for the edited profile (`Some(None)`) or for a
    /// listed one (`Some(Some(index))`).
    pub apply_confirm: Option<Option<usize>>,
    pub status_message: Option<String>,
    pub error_message: Option<String>,
    pub git_history: Vec<String>,
}

/// The characters of an optional message.
pub open spec fn msg(m: Option<String>) -> Option<Seq<char>> {
    match m {
        Some(s) => Some(s@),
        None => None,
    }
}

/// A message built from its parts.
fn message(parts: &Vec<char>) -> (m: Option<String>)
    ensures
        msg(m) == Some(parts@),
{
    Some(string_from_chars(parts))
}

/// A prefix followed by a text, as a message.
fn prefixed(prefix: &str, text: &str) -> (m: Option<String>)
    ensures
        msg(m) == Some(prefix@ + text@),
{
    let mut out: Vec<char> = Vec::new();
    push_str(&mut out, prefix);
    push_str(&mut out, text);
    message(&out)
}

/// "Loaded 'name': n categories, m settings" and the like.
pub open spec fn counts_message(lead: Seq<char>, name: Seq<char>, categories: nat, settings: nat) -> Seq<char> {
    lead + name + "': "@ + decimal(categories) + " categories, "@ + decimal(settings) + " settings"@
}

/// The number of settings a profile holds, as `ConfigTree::setting_count`
/// gives it.
pub open spec fn counted_settings(p: EditedProfile) -> nat {
    if crate::config_tree::settings_total(p.config.categories@) <= usize::MAX {
        crate::config_tree::settings_total(p.config.categories@)
    } else {
        usize::MAX as nat
    }
}

/// The editor as a fresh start shows it: the stored profiles and baseline,
/// the profile list, and a message that says whether a baseline is there.
pub open spec fn editor_started(e: ProfileEditor, repo_initialized: bool, profiles: Seq<ProfileEntry>, baseline: Option<ConfigTree>) -> bool {
    &&& e.repo_initialized == repo_initialized
    &&& e.profiles@ == profiles
    &&& e.current is None
    &&& e.save_category@ == "uncategorized"@
    &&& !e.is_dirty
    &&& e.selected_category is None
    &&& e.search_filter@.len() == 0
    &&& e.new_category_input@.len() == 0
    &&& e.tags_input@.len() == 0
    &&& e.remote_picker is None
    &&& e.baseline == baseline
    &&& !e.show_diff
    &&& e.view_mode == ViewMode::ProfileList
    &&& !e.is_loading
    &&& e.apply_confirm is None
    &&& msg(e.status_message) == Some(
        if baseline is Some {
            "Baseline loaded from repository"@
        } else {
            "Initialize repository and snapshot device baseline to begin"@
        },
    )
    &&& e.error_message is None
    &&& e.git_history@.len() == 0
}

impl ProfileEditor {
    /// The editor at start, given what the repository holds: without an
    /// initialized repository there are no profiles and no baseline.
    pub fn new(repo_initialized: bool, profiles: Vec<ProfileEntry>, baseline: Option<ConfigTree>) -> (e: ProfileEditor)
        requires
            !repo_initialized ==> profiles@.len() == 0 && baseline is None,
        ensures
            editor_started(e, repo_initialized, profiles@, baseline),
    {
        proof {
            reveal_strlit("");
        }
        let status = if baseline.is_some() {
            String::from_str("Baseline loaded from repository")
        } else {
            String::from_str("Initialize repository and snapshot device baseline to begin")
        };
        ProfileEditor {
            repo_initialized,
            profiles,
            current: None,
            save_category: String::from_str("uncategorized"),
            is_dirty: false,
            selected_category: None,
            search_filter: String::from_str(""),
            new_category_input: String::from_str(""),
            tags_input: String::from_str(""),
            remote_picker: None,
            baseline,
            show_diff: false,
            view_mode: ViewMode::ProfileList,
            is_loading: false,
            apply_confirm: None,
            status_message: Some(status),
            error_message: None,
            git_history: Vec::new(),
        }
    }

    /// The profile being edited (and the baseline) are well formed.
    pub open spec fn well_formed(&self) -> bool {
        &&& (self.current matches Some(p) ==> p.config.well_formed())
        &&& (self.baseline matches Some(b) ==> b.well_formed())
    }

    /// Start a new, empty overlay profile.
    pub fn new_profile(&mut self)
        ensures
            final(self).current matches Some(p) && fresh_profile(p),
            final(self).tags_input@.len() == 0,
            final(self).save_category@ == "uncategorized"@,
            final(self).is_dirty,
            final(self).view_mode == ViewMode::ProfileEditor,
            msg(final(self).status_message) == Some("New empty profile created"@),
            *final(self) == (ProfileEditor {
                current: final(self).current,
                tags_input: final(self).tags_input,
                save_category: final(self).save_category,
                is_dirty: true,
                view_mode: ViewMode::ProfileEditor,
                status_message: final(self).status_message,
                ..*old(self)
            }),
    {
        proof {
            reveal_strlit("");
        }
        self.current = Some(EditedProfile::new_overlay());
        self.tags_input = String::from_str("");
        self.save_category = String::from_str("uncategorized");
        self.is_dirty = true;
        self.view_mode = ViewMode::ProfileEditor;
        self.status_message = Some(String::from_str("New empty profile created"));
    }

    /// Change the profile's name.
    pub fn edit_name(&mut self, name: String)
        ensures
            match old(self).current {
                Some(p) => *final(self) == (ProfileEditor {
                    current: Some(EditedProfile { name: name, ..p }),
                    is_dirty: true,
                    ..*old(self)
                }),
                None => *final(self) == *old(self),
            },
    {
        if let Some(p) = self.current.take() {
            let mut p = p;
            p.name = name;
            self.current = Some(p);
            self.is_dirty = true;
        }
    }

    /// Change the profile's description.
    pub fn edit_description(&mut self, description: String)
        ensures
            match old(self).current {
                Some(p) => *final(self) == (ProfileEditor {
                    current: Some(EditedProfile { description: description, ..p }),
                    is_dirty: true,
                    ..*old(self)
                }),
                None => *final(self) == *old(self),
            },
    {
        if let Some(p) = self.current.take() {
            let mut p = p;
            p.description = description;
            self.current = Some(p);
            self.is_dirty = true;
        }
    }

    /// Change the category folder the profile is saved under.
    pub fn edit_category(&mut self, category: String)
        ensures
            *final(self) == (ProfileEditor { save_category: category, is_dirty: true, ..*old(self) }),
    {
        self.save_category = category;
        self.is_dirty = true;
    }

    /// The tags field changed: the profile's tags become the parsed list.
    pub fn edit_tags_input(&mut self, input: String)
        ensures
            final(self).tags_input == input,
            match old(self).current {
                Some(p) => final(self).current matches Some(q) && str_views(q.tags@) == tags_of(input@)
                    && q == (EditedProfile { tags: q.tags, ..p }) && *final(self) == (ProfileEditor {
                    current: final(self).current,
                    tags_input: input,
                    is_dirty: true,
                    ..*old(self)
                }),
                None => *final(self) == (ProfileEditor { tags_input: input, ..*old(self) }),
            },
    {
        let tags = parse_tags(input.as_str());
        self.tags_input = input;
        if let Some(p) = self.current.take() {
            let mut p = p;
            p.tags = tags;
            self.current = Some(p);
            self.is_dirty = true;
        }
    }

    /// Choose the profile's mode by name (see `mode_named`).
    pub fn set_profile_mode(&mut self, mode: &str)
        ensures
            match old(self).current {
                Some(p) => *final(self) == (ProfileEditor {
                    current: Some(EditedProfile { mode: mode_named(mode@), ..p }),
                    is_dirty: true,
                    ..*old(self)
                }),
                None => *final(self) == *old(self),
            },
    {
        if let Some(p) = self.current.take() {
            let mut p = p;
            p.mode = if str_eq(mode, "Overlay") {
                ProfileMode::Overlay
            } else {
                ProfileMode::Full
            };
            self.current = Some(p);
            self.is_dirty = true;
        }
    }

    /// Show the settings of a category (the search starts over).
    pub fn select_config_category(&mut self, category: String)
        ensures
            final(self).selected_category == Some(category),
            final(self).search_filter@.len() == 0,
            *final(self) == (ProfileEditor {
                selected_category: Some(category),
                search_filter: final(self).search_filter,
                ..*old(self)
            }),
    {
        proof {
            reveal_strlit("");
        }
        self.selected_category = Some(category);
        self.search_filter = String::from_str("");
    }

    /// Back to the category picker (the search starts over).
    pub fn deselect_config_category(&mut self)
        ensures
            final(self).selected_category is None,
            final(self).search_filter@.len() == 0,
            *final(self) == (ProfileEditor {
                selected_category: None,
                search_filter: final(self).search_filter,
                ..*old(self)
            }),
    {
        proof {
            reveal_strlit("");
        }
        self.selected_category = None;
        self.search_filter = String::from_str("");
    }

    /// The search text changed.
    pub fn search_changed(&mut self, filter: String)
        ensures
            *final(self) == (ProfileEditor { search_filter: filter, ..*old(self) }),
    {
        self.search_filter = filter;
    }

    /// The new-category field changed.
    pub fn new_category_input_changed(&mut self, input: String)
        ensures
            *final(self) == (ProfileEditor { new_category_input: input, ..*old(self) }),
    {
        self.new_category_input = input;
    }

    /// Switch pane.
    pub fn switch_view(&mut self, mode: ViewMode)
        ensures
            *final(self) == (ProfileEditor { view_mode: mode, ..*old(self) }),
    {
        self.view_mode = mode;
    }

    /// Show or hide the differences from the baseline.
    pub fn toggle_diff_view(&mut self)
        ensures
            *final(self) == (ProfileEditor { show_diff: !old(self).show_diff, ..*old(self) }),
    {
        self.show_diff = !self.show_diff;
    }
}

impl ProfileEditor {
    /// A setting of the edited profile changed.
    pub fn config_value_changed(&mut self, category: String, key: String, value: ConfigValue)
        requires
            old(self).well_formed(),
        ensures
            final(self).well_formed(),
            match old(self).current {
                Some(p) => final(self).current matches Some(q) && q.config@ == p.config@.insert(
                    category@,
                    settings_of(p.config@, category@).insert(key@, value),
                ) && q == (EditedProfile { config: q.config, ..p }) && *final(self) == (
                ProfileEditor { current: final(self).current, is_dirty: true, ..*old(self) }),
                None => *final(self) == *old(self),
            },
    {
        if let Some(p) = self.current.take() {
            let mut p = p;
            p.config.set(category, key, value);
            self.current = Some(p);
            self.is_dirty = true;
        }
    }

    /// Add a category, and show it. An empty name does nothing; the input
    /// field is cleared either way but for an empty name.
    pub fn add_category(&mut self, name: String)
        requires
            old(self).well_formed(),
        ensures
            final(self).well_formed(),
            name@.len() == 0 ==> *final(self) == *old(self),
            name@.len() > 0 ==> {
                &&& final(self).new_category_input@.len() == 0
                &&& match old(self).current {
                    Some(p) => final(self).current matches Some(q) && q.config@ == (
                    if p.config@.contains_key(name@) {
                        p.config@
                    } else {
                        p.config@.insert(name@, Map::empty())
                    }) && q == (EditedProfile { config: q.config, ..p }) && *final(self) == (
                    ProfileEditor {
                        current: final(self).current,
                        is_dirty: true,
                        selected_category: Some(name),
                        new_category_input: final(self).new_category_input,
                        ..*old(self)
                    }),
                    None => *final(self) == (ProfileEditor {
                        new_category_input: final(self).new_category_input,
                        ..*old(self)
                    }),
                }
            },
    {
        proof {
            reveal_strlit("");
        }
        let cs = chars_of(name.as_str());
        if cs.len() > 0 {
            if let Some(p) = self.current.take() {
                let mut p = p;
                p.config.ensure_category(name.clone());
                self.current = Some(p);
                self.is_dirty = true;
                self.selected_category = Some(name);
            }
            self.new_category_input = String::from_str("");
        }
    }

    /// Add a category named by the device's schema (with no settings yet),
    /// and show it.
    pub fn add_category_from_schema(&mut self, name: String)
        requires
            old(self).well_formed(),
        ensures
            final(self).well_formed(),
            match old(self).current {
                Some(p) => final(self).current matches Some(q) && q.config@ == (
                if p.config@.contains_key(name@) {
                    p.config@
                } else {
                    p.config@.insert(name@, Map::empty())
                }) && q == (EditedProfile { config: q.config, ..p }) && *final(self) == (
                ProfileEditor {
                    current: final(self).current,
                    is_dirty: true,
                    selected_category: Some(name),
                    ..*old(self)
                }),
                None => *final(self) == *old(self),
            },
    {
        if let Some(p) = self.current.take() {
            let mut p = p;
            p.config.ensure_category(name.clone());
            self.current = Some(p);
            self.is_dirty = true;
            self.selected_category = Some(name);
        }
    }

    /// Override one setting, starting from its baseline value (an empty
    /// text where the baseline does not have it).
    pub fn add_key_from_schema(&mut self, category: String, key: String)
        requires
            old(self).well_formed(),
        ensures
            final(self).well_formed(),
            match old(self).current {
                Some(p) => final(self).current matches Some(q) && exists|v: ConfigValue|
                    from_baseline(old(self).baseline, category@, key@, v) && q.config@
                        == p.config@.insert(
                        category@,
                        settings_of(p.config@, category@).insert(key@, v),
                    ) && q == (EditedProfile { config: q.config, ..p }) && *final(self) == (
                ProfileEditor { current: final(self).current, is_dirty: true, ..*old(self) }),
                None => *final(self) == *old(self),
            },
    {
        proof {
            reveal_strlit("");
        }
        if let Some(p) = self.current.take() {
            let mut p = p;
            let value = match &self.baseline {
                Some(b) => match b.get(category.as_str(), key.as_str()) {
                    Some(v) => v.duplicate(),
                    None => ConfigValue::Text(String::from_str("")),
                },
                None => ConfigValue::Text(String::from_str("")),
            };
            let ghost v = value;
            let ghost c = category@;
            let ghost k = key@;
            proof {
                assert(from_baseline(self.baseline, c, k, v));
            }
            p.config.set(category, key, value);
            self.current = Some(p);
            self.is_dirty = true;
            proof {
                assert(from_baseline(old(self).baseline, c, k, v));
            }
        }
    }

    /// Override every setting of a category with its baseline value.
    pub fn add_all_keys_from_schema(&mut self, category: String)
        requires
            old(self).well_formed(),
        ensures
            final(self).well_formed(),
            match old(self).current {
                Some(p) => final(self).current matches Some(q) && q.config@ == p.config@.insert(
                    category@,
                    settings_of(p.config@, category@).union_prefer_right(
                        baseline_category(old(self).baseline, category@),
                    ),
                ) && q == (EditedProfile { config: q.config, ..p }) && *final(self) == (
                ProfileEditor { current: final(self).current, is_dirty: true, ..*old(self) }),
                None => *final(self) == *old(self),
            },
    {
        if let Some(p) = self.current.take() {
            let mut p = p;
            match &self.baseline {
                Some(b) => {
                    p.config.copy_category_from(b, category);
                },
                None => {
                    let ghost before = p.config@;
                    p.config.ensure_category(category);
                    proof {
                        assert(settings_of(before, category@).union_prefer_right(Map::empty())
                            =~= settings_of(before, category@));
                        assert(p.config@ =~= before.insert(
                            category@,
                            settings_of(before, category@).union_prefer_right(Map::empty()),
                        ));
                    }
                },
            }
            self.current = Some(p);
            self.is_dirty = true;
        }
    }

    /// Drop a category from the profile (and from the selection, where it
    /// is the one shown).
    pub fn remove_category(&mut self, name: String)
        requires
            old(self).well_formed(),
        ensures
            final(self).well_formed(),
            match old(self).current {
                Some(p) => final(self).current matches Some(q) && q.config@ == p.config@.remove(
                    name@,
                ) && q == (EditedProfile { config: q.config, ..p }) && *final(self) == (
                ProfileEditor {
                    current: final(self).current,
                    is_dirty: true,
                    selected_category: if old(self).selected_category matches Some(c) && c@
                        == name@ {
                        None
                    } else {
                        old(self).selected_category
                    },
                    ..*old(self)
                }),
                None => *final(self) == *old(self),
            },
    {
        if let Some(p) = self.current.take() {
            let mut p = p;
            p.config.remove_category(name.as_str());
            self.current = Some(p);
            let selected = match &self.selected_category {
                Some(c) => str_eq(c.as_str(), name.as_str()),
                None => false,
            };
            if selected {
                self.selected_category = None;
            }
            self.is_dirty = true;
        }
    }

    /// Drop one setting from the profile.
    pub fn remove_key(&mut self, category: String, key: String)
        requires
            old(self).well_formed(),
        ensures
            final(self).well_formed(),
            match old(self).current {
                Some(p) => final(self).current matches Some(q) && q.config@ == (
                if p.config@.contains_key(category@) {
                    p.config@.insert(category@, p.config@[category@].remove(key@))
                } else {
                    p.config@
                }) && q == (EditedProfile { config: q.config, ..p }) && *final(self) == (
                ProfileEditor { current: final(self).current, is_dirty: true, ..*old(self) }),
                None => *final(self) == *old(self),
            },
    {
        if let Some(p) = self.current.take() {
            let mut p = p;
            p.config.remove_key(category.as_str(), key.as_str());
            self.current = Some(p);
            self.is_dirty = true;
        }
    }

    /// The path of a medium changed: an empty path removes it; otherwise the
    /// medium gets that path (a new one, not started, where there was none).
    pub fn mount_path_changed(&mut self, slot: MountSlot, path: String)
        ensures
            match old(self).current {
                Some(p) => final(self).current matches Some(q) && q == (EditedProfile {
                    mounts: q.mounts,
                    ..p
                }) && *final(self) == (ProfileEditor {
                    current: final(self).current,
                    is_dirty: true,
                    ..*old(self)
                }) && if path@.len() == 0 {
                    q.mounts == p.mounts.with_slot(slot, None)
                } else {
                    q.mounts.slot(slot) matches Some(m) && m.path == path && q.mounts == p.mounts.with_slot(slot, q.mounts.slot(slot)) && match p.mounts.slot(slot) {
                        Some(old_m) => m.media_type == old_m.media_type && m.autoload == old_m.autoload,
                        None => m.media_type@ == slot_media(slot) && !m.autoload,
                    }
                },
                None => *final(self) == *old(self),
            },
    {
        if let Some(p) = self.current.take() {
            let mut p = p;
            let cs = chars_of(path.as_str());
            let previous = p.mounts.take_slot(slot);
            if cs.len() == 0 {
                p.mounts.put_slot(slot, None);
            } else {
                let entry = match previous {
                    Some(m) => MountEntry { media_type: m.media_type, path: path, autoload: m.autoload },
                    None => MountEntry {
                        media_type: match slot {
                            MountSlot::Cartridge => String::from_str("cartridge"),
                            _ => String::from_str("disk"),
                        },
                        path: path,
                        autoload: false,
                    },
                };
                p.mounts.put_slot(slot, Some(entry));
            }
            self.current = Some(p);
            self.is_dirty = true;
        }
    }

    /// Whether a medium starts once mounted (only where the slot holds one).
    pub fn mount_autoload_changed(&mut self, slot: MountSlot, autoload: bool)
        ensures
            match old(self).current {
                Some(p) => match p.mounts.slot(slot) {
                    Some(m) => final(self).current matches Some(q) && q == (EditedProfile {
                        mounts: p.mounts.with_slot(slot, Some(MountEntry { autoload: autoload, ..m })),
                        ..p
                    }) && *final(self) == (ProfileEditor {
                        current: final(self).current,
                        is_dirty: true,
                        ..*old(self)
                    }),
                    None => *final(self) == *old(self),
                },
                None => *final(self) == *old(self),
            },
    {
        if let Some(p) = self.current.take() {
            let mut p = p;
            let previous = p.mounts.take_slot(slot);
            match previous {
                Some(m) => {
                    p.mounts.put_slot(slot, Some(MountEntry { autoload: autoload, ..m }));
                    self.is_dirty = true;
                },
                None => {
                    p.mounts.put_slot(slot, None);
                    proof {
                        assert(p.mounts == old(self).current->0.mounts);
                    }
                },
            }
            self.current = Some(p);
        }
    }

    /// Remove a medium.
    pub fn clear_mount(&mut self, slot: MountSlot)
        ensures
            match old(self).current {
                Some(p) => final(self).current matches Some(q) && q == (EditedProfile {
                    mounts: p.mounts.with_slot(slot, None),
                    ..p
                }) && *final(self) == (ProfileEditor {
                    current: final(self).current,
                    is_dirty: true,
                    ..*old(self)
                }),
                None => *final(self) == *old(self),
            },
    {
        if let Some(p) = self.current.take() {
            let mut p = p;
            p.mounts.put_slot(slot, None);
            self.current = Some(p);
            self.is_dirty = true;
        }
    }

    /// Whether the baseline is restored before applying.
    pub fn restore_baseline_changed(&mut self, value: bool)
        ensures
            match old(self).current {
                Some(p) => *final(self) == (ProfileEditor {
                    current: Some(EditedProfile { restore_baseline_first: value, ..p }),
                    is_dirty: true,
                    ..*old(self)
                }),
                None => *final(self) == *old(self),
            },
    {
        if let Some(p) = self.current.take() {
            let mut p = p;
            p.restore_baseline_first = value;
            self.current = Some(p);
            self.is_dirty = true;
        }
    }

    /// Whether the machine is reset once the profile is applied.
    pub fn reset_after_apply_changed(&mut self, value: bool)
        ensures
            match old(self).current {
                Some(p) => *final(self) == (ProfileEditor {
                    current: Some(EditedProfile { reset_after_apply: value, ..p }),
                    is_dirty: true,
                    ..*old(self)
                }),
                None => *final(self) == *old(self),
            },
    {
        if let Some(p) = self.current.take() {
            let mut p = p;
            p.reset_after_apply = value;
            self.current = Some(p);
            self.is_dirty = true;
        }
    }
}

/// Whether the baseline has a value for a setting.
pub open spec fn baseline_has(baseline: Option<ConfigTree>, category: Seq<char>, key: Seq<char>) -> bool {
    baseline matches Some(b) && b@.contains_key(category) && b@[category].contains_key(key)
}

/// Whether `v` is the value a setting starts from: the baseline's value, or
/// an empty text where the baseline does not have it.
pub open spec fn from_baseline(baseline: Option<ConfigTree>, category: Seq<char>, key: Seq<char>, v: ConfigValue) -> bool {
    if baseline_has(baseline, category, key) {
        v == baseline->0@[category][key]
    } else {
        v matches ConfigValue::Text(t) && t@.len() == 0
    }
}

/// The baseline's settings of a category (none without a baseline).
pub open spec fn baseline_category(baseline: Option<ConfigTree>, category: Seq<char>) -> Map<Seq<char>, ConfigValue> {
    match baseline {
        Some(b) => settings_of(b@, category),
        None => Map::empty(),
    }
}

/// A lead, a text and a tail, as a message.
fn framed(lead: &str, text: &str, tail: &str) -> (m: Option<String>)
    ensures
        msg(m) == Some(lead@ + text@ + tail@),
{
    let mut out: Vec<char> = Vec::new();
    push_str(&mut out, lead);
    push_str(&mut out, text);
    push_str(&mut out, tail);
    message(&out)
}

/// "lead" + name + "': n categories, m settings" (see `counts_message`).
fn counts_text(lead: &str, name: &str, categories: usize, settings: usize) -> (m: Option<String>)
    ensures
        msg(m) == Some(counts_message(lead@, name@, categories as nat, settings as nat)),
{
    let mut out: Vec<char> = Vec::new();
    push_str(&mut out, lead);
    push_str(&mut out, name);
    push_str(&mut out, "': ");
    push_decimal(&mut out, categories as u64);
    push_str(&mut out, " categories, ");
    push_decimal(&mut out, settings as u64);
    push_str(&mut out, " settings");
    message(&out)
}

/// What the apply status says first for a pre-clean mode chosen in the
/// editor.
pub open spec fn apply_mode_label(mode: u8) -> Seq<char> {
    if mode == 1 {
        "Rebooting then "@
    } else if mode == 2 {
        "Loading flash defaults then "@
    } else {
        ""@
    }
}

/// What the apply status says first for a pre-clean mode chosen in the
/// profile list.
pub open spec fn list_mode_label(mode: u8) -> Seq<char> {
    if mode == 1 {
        "Rebooting then "@
    } else if mode == 2 {
        "Loading flash then "@
    } else {
        ""@
    }
}

/// What follows a repository initialisation.
#[derive(Debug, Clone, Copy, PartialEq, Eq, Structural)]
pub enum RepoFollowUp {
    /// Nothing: it failed.
    Nothing,
    /// List the profiles.
    Refresh,
    /// List the profiles and capture the device's baseline.
    RefreshAndSnapshot,
}

/// The name a cloned profile gets.
pub open spec fn copy_name(name: Seq<char>) -> Seq<char> {
    name + " (copy)"@
}

/// Whether a loaded profile is a clone that still needs saving.
pub open spec fn is_copy_name(name: Seq<char>) -> bool {
    crate::text::ends_with_seq(name, " (copy)"@)
}

/// Turn a loaded profile into a copy of it named after `original`: the name
/// gets " (copy)" and the screenshot is not inherited.
pub fn mark_as_copy(p: &mut EditedProfile, original: &str)
    ensures
        final(p).name@ == copy_name(original@),
        final(p).screenshot@.len() == 0,
        *final(p) == (EditedProfile { name: final(p).name, screenshot: final(p).screenshot, ..*old(p) }),
{
    proof {
        reveal_strlit("");
    }
    let mut out: Vec<char> = Vec::new();
    push_str(&mut out, original);
    push_str(&mut out, " (copy)");
    p.name = string_from_chars(&out);
    p.screenshot = String::from_str("");
}

impl ProfileEditor {
    /// Start initialising the repository.
    pub fn init_repo(&mut self)
        ensures
            msg(final(self).status_message) == Some("Initializing repository..."@),
            *final(self) == (ProfileEditor {
                is_loading: true,
                status_message: final(self).status_message,
                ..*old(self)
            }),
    {
        self.is_loading = true;
        self.status_message = Some(String::from_str("Initializing repository..."));
    }

    /// Ask for the list of profiles.
    pub fn refresh_profiles(&mut self)
        ensures
            *final(self) == (ProfileEditor { is_loading: true, ..*old(self) }),
    {
        self.is_loading = true;
    }

    /// Ask to capture the device's configuration as the baseline: possible
    /// only with a device.
    pub fn snapshot_baseline(&mut self, connected: bool) -> (started: bool)
        ensures
            started == connected,
            connected ==> msg(final(self).status_message) == Some(
                "Snapshotting device config + schema (one-time)..."@,
            ) && *final(self) == (ProfileEditor {
                is_loading: true,
                status_message: final(self).status_message,
                ..*old(self)
            }),
            !connected ==> msg(final(self).error_message) == Some("Not connected to device"@)
                && *final(self) == (ProfileEditor {
                error_message: final(self).error_message,
                ..*old(self)
            }),
    {
        if connected {
            self.is_loading = true;
            self.status_message = Some(
                String::from_str("Snapshotting device config + schema (one-time)..."),
            );
            true
        } else {
            self.error_message = Some(String::from_str("Not connected to device"));
            false
        }
    }

    /// The repository was initialised (or not): on success the profiles
    /// are listed, and the baseline captured where a device is connected
    /// and none is stored.
    pub fn repo_initialized(&mut self, result: Result<String, String>, connected: bool) -> (next: RepoFollowUp)
        ensures
            match result {
                Ok(m) => {
                    &&& final(self).repo_initialized
                    &&& final(self).error_message is None
                    &&& final(self).is_loading
                    &&& if connected && old(self).baseline is None {
                        &&& next == RepoFollowUp::RefreshAndSnapshot
                        &&& msg(final(self).status_message) == Some(
                            "Snapshotting device config + schema (one-time)..."@,
                        )
                    } else {
                        &&& next == RepoFollowUp::Refresh
                        &&& final(self).status_message == Some(m)
                    }
                    &&& *final(self) == (ProfileEditor {
                        repo_initialized: true,
                        error_message: None,
                        is_loading: true,
                        status_message: final(self).status_message,
                        ..*old(self)
                    })
                },
                Err(e) => {
                    &&& next == RepoFollowUp::Nothing
                    &&& msg(final(self).error_message) == Some("Init failed: "@ + e@)
                    &&& *final(self) == (ProfileEditor {
                        is_loading: false,
                        error_message: final(self).error_message,
                        ..*old(self)
                    })
                },
            },
    {
        self.is_loading = false;
        match result {
            Ok(m) => {
                self.repo_initialized = true;
                self.status_message = Some(m);
                self.error_message = None;
                self.refresh_profiles();
                if connected && self.baseline.is_none() {
                    self.snapshot_baseline(connected);
                    RepoFollowUp::RefreshAndSnapshot
                } else {
                    RepoFollowUp::Refresh
                }
            },
            Err(e) => {
                self.error_message = prefixed("Init failed: ", e.as_str());
                RepoFollowUp::Nothing
            },
        }
    }

    /// The list of profiles arrived (or did not).
    pub fn profiles_loaded(&mut self, result: Result<Vec<ProfileEntry>, String>)
        ensures
            match result {
                Ok(ps) => {
                    &&& final(self).profiles == ps
                    &&& msg(final(self).status_message) == Some(
                        decimal(ps@.len()) + " profiles in repository"@,
                    )
                    &&& *final(self) == (ProfileEditor {
                        is_loading: false,
                        profiles: ps,
                        status_message: final(self).status_message,
                        error_message: None,
                        ..*old(self)
                    })
                },
                Err(e) => {
                    &&& msg(final(self).error_message) == Some("Failed to load profiles: "@ + e@)
                    &&& *final(self) == (ProfileEditor {
                        is_loading: false,
                        error_message: final(self).error_message,
                        ..*old(self)
                    })
                },
            },
    {
        self.is_loading = false;
        match result {
            Ok(ps) => {
                let mut out: Vec<char> = Vec::new();
                push_decimal(&mut out, ps.len() as u64);
                push_str(&mut out, " profiles in repository");
                self.status_message = message(&out);
                self.profiles = ps;
                self.error_message = None;
            },
            Err(e) => {
                self.error_message = prefixed("Failed to load profiles: ", e.as_str());
            },
        }
    }

    /// Ask to load the listed profile at `index` as a copy: it keeps the
    /// source's category folder. Gives the file to load, none for an index
    /// past the list.
    pub fn clone_profile(&mut self, index: usize) -> (path: Option<String>)
        ensures
            index >= old(self).profiles@.len() ==> path is None && *final(self) == *old(self),
            index < old(self).profiles@.len() ==> {
                let entry = old(self).profiles@[index as int];
                &&& path == Some(entry.path)
                &&& msg(final(self).status_message) == Some("Cloning '"@ + entry.name@ + "'..."@)
                &&& *final(self) == (ProfileEditor {
                    save_category: entry.category,
                    is_loading: true,
                    status_message: final(self).status_message,
                    ..*old(self)
                })
            },
    {
        if index < self.profiles.len() {
            let name = self.profiles[index].name.clone();
            let path = self.profiles[index].path.clone();
            self.save_category = self.profiles[index].category.clone();
            self.is_loading = true;
            self.status_message = framed("Cloning '", name.as_str(), "'...");
            Some(path)
        } else {
            None
        }
    }

    /// Ask to load the listed profile at `index` for editing: it is saved
    /// back under its category folder. Gives the file to load, none for an
    /// index past the list.
    pub fn select_profile(&mut self, index: usize) -> (path: Option<String>)
        ensures
            index >= old(self).profiles@.len() ==> path is None && *final(self) == *old(self),
            index < old(self).profiles@.len() ==> {
                let entry = old(self).profiles@[index as int];
                &&& path == Some(entry.path)
                &&& msg(final(self).status_message) == Some("Loading '"@ + entry.name@ + "'..."@)
                &&& *final(self) == (ProfileEditor {
                    save_category: entry.category,
                    is_loading: true,
                    status_message: final(self).status_message,
                    ..*old(self)
                })
            },
    {
        if index < self.profiles.len() {
            let name = self.profiles[index].name.clone();
            let path = self.profiles[index].path.clone();
            self.save_category = self.profiles[index].category.clone();
            self.is_loading = true;
            self.status_message = framed("Loading '", name.as_str(), "'...");
            Some(path)
        } else {
            None
        }
    }

    /// Put a profile that arrived into the editor: its tags fill the tags
    /// field, and the editor shows it.
    fn open_profile(&mut self, p: EditedProfile, status: Option<String>, dirty: bool)
        requires
            p.config.well_formed(),
            old(self).well_formed(),
        ensures
            final(self).well_formed(),
            final(self).tags_input@ == join_with(str_views(p.tags@), ", "@),
            *final(self) == (ProfileEditor {
                current: Some(p),
                tags_input: final(self).tags_input,
                status_message: status,
                is_dirty: dirty,
                view_mode: ViewMode::ProfileEditor,
                error_message: None,
                is_loading: false,
                ..*old(self)
            }),
    {
        self.is_loading = false;
        self.tags_input = join_strings(&p.tags, ", ");
        self.status_message = status;
        self.current = Some(p);
        self.is_dirty = dirty;
        self.view_mode = ViewMode::ProfileEditor;
        self.error_message = None;
    }

    /// A profile loaded from the repository arrived (or did not). A copy
    /// (its name ends in " (copy)") needs saving; a loaded profile does not.
    pub fn profile_loaded(&mut self, result: Result<EditedProfile, String>)
        requires
            old(self).well_formed(),
            result matches Ok(p) ==> p.config.well_formed(),
        ensures
            final(self).well_formed(),
            match result {
                Ok(p) => {
                    &&& final(self).tags_input@ == join_with(str_views(p.tags@), ", "@)
                    &&& msg(final(self).status_message) == Some(
                        counts_message("Loaded '"@, p.name@, p.config@.dom().len(), counted_settings(p)),
                    )
                    &&& *final(self) == (ProfileEditor {
                        current: Some(p),
                        tags_input: final(self).tags_input,
                        status_message: final(self).status_message,
                        is_dirty: is_copy_name(p.name@),
                        view_mode: ViewMode::ProfileEditor,
                        error_message: None,
                        is_loading: false,
                        ..*old(self)
                    })
                },
                Err(e) => {
                    &&& msg(final(self).error_message) == Some("Load failed: "@ + e@)
                    &&& *final(self) == (ProfileEditor {
                        is_loading: false,
                        error_message: final(self).error_message,
                        ..*old(self)
                    })
                },
            },
    {
        self.is_loading = false;
        match result {
            Ok(p) => {
                let name = chars_of(p.name.as_str());
                let suffix = chars_of(" (copy)");
                let is_clone = crate::text::ends_with(&name, &suffix);
                let status = counts_text(
                    "Loaded '",
                    p.name.as_str(),
                    p.config.category_count(),
                    p.config.setting_count(),
                );
                self.open_profile(p, status, is_clone);
            },
            Err(e) => {
                self.error_message = prefixed("Load failed: ", e.as_str());
            },
        }
    }

    /// A profile imported from a file arrived (or did not); it needs saving.
    pub fn profile_imported(&mut self, result: Result<EditedProfile, String>)
        requires
            old(self).well_formed(),
            result matches Ok(p) ==> p.config.well_formed(),
        ensures
            final(self).well_formed(),
            match result {
                Ok(p) => {
                    &&& final(self).tags_input@ == join_with(str_views(p.tags@), ", "@)
                    &&& msg(final(self).status_message) == Some(
                        counts_message("Imported '"@, p.name@, p.config@.dom().len(), counted_settings(p)),
                    )
                    &&& *final(self) == (ProfileEditor {
                        current: Some(p),
                        tags_input: final(self).tags_input,
                        status_message: final(self).status_message,
                        is_dirty: true,
                        view_mode: ViewMode::ProfileEditor,
                        error_message: None,
                        is_loading: false,
                        ..*old(self)
                    })
                },
                Err(e) => {
                    &&& msg(final(self).error_message) == Some("Import failed: "@ + e@)
                    &&& *final(self) == (ProfileEditor {
                        is_loading: false,
                        error_message: final(self).error_message,
                        ..*old(self)
                    })
                },
            },
    {
        self.is_loading = false;
        match result {
            Ok(p) => {
                let status = counts_text(
                    "Imported '",
                    p.name.as_str(),
                    p.config.category_count(),
                    p.config.setting_count(),
                );
                self.open_profile(p, status, true);
            },
            Err(e) => {
                self.error_message = prefixed("Import failed: ", e.as_str());
            },
        }
    }

    /// Ask to read the whole configuration of the device as a new profile:
    /// possible only with a device.
    pub fn snapshot_from_device(&mut self, connected: bool) -> (started: bool)
        ensures
            started == connected,
            connected ==> msg(final(self).status_message) == Some(
                "Reading all config from device..."@,
            ) && *final(self) == (ProfileEditor {
                is_loading: true,
                status_message: final(self).status_message,
                ..*old(self)
            }),
            !connected ==> msg(final(self).error_message) == Some("Not connected to device"@)
                && *final(self) == (ProfileEditor {
                error_message: final(self).error_message,
                ..*old(self)
            }),
    {
        if connected {
            self.is_loading = true;
            self.status_message = Some(String::from_str("Reading all config from device..."));
            true
        } else {
            self.error_message = Some(String::from_str("Not connected to device"));
            false
        }
    }

    /// The device's configuration arrived as a profile (or did not); it
    /// needs saving.
    pub fn snapshot_complete(&mut self, result: Result<EditedProfile, String>)
        requires
            old(self).well_formed(),
            result matches Ok(p) ==> p.config.well_formed(),
        ensures
            final(self).well_formed(),
            match result {
                Ok(p) => {
                    &&& final(self).tags_input@ == join_with(str_views(p.tags@), ", "@)
                    &&& msg(final(self).status_message) == Some(
                        "Snapshot: "@ + decimal(p.config@.dom().len()) + " categories, "@
                            + decimal(counted_settings(p)) + " settings"@,
                    )
                    &&& *final(self) == (ProfileEditor {
                        current: Some(p),
                        tags_input: final(self).tags_input,
                        status_message: final(self).status_message,
                        is_dirty: true,
                        view_mode: ViewMode::ProfileEditor,
                        error_message: None,
                        is_loading: false,
                        ..*old(self)
                    })
                },
                Err(e) => {
                    &&& msg(final(self).error_message) == Some("Snapshot failed: "@ + e@)
                    &&& *final(self) == (ProfileEditor {
                        is_loading: false,
                        error_message: final(self).error_message,
                        ..*old(self)
                    })
                },
            },
    {
        self.is_loading = false;
        match result {
            Ok(p) => {
                let mut out: Vec<char> = Vec::new();
                push_str(&mut out, "Snapshot: ");
                push_decimal(&mut out, p.config.category_count() as u64);
                push_str(&mut out, " categories, ");
                push_decimal(&mut out, p.config.setting_count() as u64);
                push_str(&mut out, " settings");
                let status = message(&out);
                self.open_profile(p, status, true);
            },
            Err(e) => {
                self.error_message = prefixed("Snapshot failed: ", e.as_str());
            },
        }
    }
}

impl ProfileEditor {
    /// Ask to save the edited profile; without one it fails with "No
    /// profile to save".
    pub fn save_profile(&mut self) -> (started: bool)
        ensures
            started == old(self).current is Some,
            started ==> msg(final(self).status_message) == Some("Saving profile..."@)
                && *final(self) == (ProfileEditor {
                is_loading: true,
                status_message: final(self).status_message,
                ..*old(self)
            }),
            !started ==> msg(final(self).error_message) == Some("No profile to save"@)
                && *final(self) == (ProfileEditor {
                error_message: final(self).error_message,
                ..*old(self)
            }),
    {
        if self.current.is_some() {
            self.is_loading = true;
            self.status_message = Some(String::from_str("Saving profile..."));
            true
        } else {
            self.error_message = Some(String::from_str("No profile to save"));
            false
        }
    }

    /// The save finished (or failed). A saved profile is clean, and the
    /// list is asked for again: the answer says whether it was.
    pub fn save_complete(&mut self, result: Result<String, String>) -> (refresh: bool)
        ensures
            refresh == result is Ok,
            match result {
                Ok(m) => *final(self) == (ProfileEditor {
                    is_loading: true,
                    status_message: Some(m),
                    is_dirty: false,
                    error_message: None,
                    ..*old(self)
                }),
                Err(e) => msg(final(self).error_message) == Some("Save failed: "@ + e@)
                    && *final(self) == (ProfileEditor {
                    is_loading: false,
                    error_message: final(self).error_message,
                    ..*old(self)
                }),
            },
    {
        self.is_loading = false;
        match result {
            Ok(m) => {
                self.status_message = Some(m);
                self.is_dirty = false;
                self.error_message = None;
                self.refresh_profiles();
                true
            },
            Err(e) => {
                self.error_message = prefixed("Save failed: ", e.as_str());
                false
            },
        }
    }

    /// Ask to delete the listed profile at `index`. Gives its file and
    /// name, none for an index past the list.
    pub fn delete_profile_from_list(&mut self, index: usize) -> (target: Option<(String, String)>)
        ensures
            index >= old(self).profiles@.len() ==> target is None && *final(self) == *old(self),
            index < old(self).profiles@.len() ==> {
                let entry = old(self).profiles@[index as int];
                &&& target == Some((entry.path, entry.name))
                &&& msg(final(self).status_message) == Some("Deleting '"@ + entry.name@ + "'..."@)
                &&& *final(self) == (ProfileEditor {
                    is_loading: true,
                    status_message: final(self).status_message,
                    ..*old(self)
                })
            },
    {
        if index < self.profiles.len() {
            let name = self.profiles[index].name.clone();
            let path = self.profiles[index].path.clone();
            self.is_loading = true;
            self.status_message = framed("Deleting '", name.as_str(), "'...");
            Some((path, name))
        } else {
            None
        }
    }

    /// The delete finished (or failed). On success the editor closes the
    /// profile, shows the list and asks for it again: the answer says
    /// whether it did.
    pub fn delete_complete(&mut self, result: Result<String, String>) -> (refresh: bool)
        ensures
            refresh == result is Ok,
            match result {
                Ok(m) => *final(self) == (ProfileEditor {
                    is_loading: true,
                    status_message: Some(m),
                    current: None,
                    view_mode: ViewMode::ProfileList,
                    error_message: None,
                    ..*old(self)
                }),
                Err(e) => msg(final(self).error_message) == Some("Delete failed: "@ + e@)
                    && *final(self) == (ProfileEditor {
                    is_loading: false,
                    error_message: final(self).error_message,
                    ..*old(self)
                }),
            },
    {
        self.is_loading = false;
        match result {
            Ok(m) => {
                self.status_message = Some(m);
                self.current = None;
                self.view_mode = ViewMode::ProfileList;
                self.error_message = None;
                self.refresh_profiles();
                true
            },
            Err(e) => {
                self.error_message = prefixed("Delete failed: ", e.as_str());
                false
            },
        }
    }

    /// Ask to export the edited profile; without one it fails with "No
    /// profile loaded".
    pub fn export_requested(&mut self) -> (started: bool)
        ensures
            started == old(self).current is Some,
            started ==> *final(self) == *old(self),
            !started ==> msg(final(self).error_message) == Some("No profile loaded"@)
                && *final(self) == (ProfileEditor {
                error_message: final(self).error_message,
                ..*old(self)
            }),
    {
        if self.current.is_some() {
            true
        } else {
            self.error_message = Some(String::from_str("No profile loaded"));
            false
        }
    }

    /// An export finished: its message is shown, or its error.
    pub fn export_complete(&mut self, result: Result<String, String>)
        ensures
            match result {
                Ok(m) => *final(self) == (ProfileEditor {
                    status_message: Some(m),
                    error_message: None,
                    ..*old(self)
                }),
                Err(e) => *final(self) == (ProfileEditor { error_message: Some(e), ..*old(self) }),
            },
    {
        match result {
            Ok(m) => {
                self.status_message = Some(m);
                self.error_message = None;
            },
            Err(e) => self.error_message = Some(e),
        }
    }

    /// Ask to commit the repository.
    pub fn commit_changes(&mut self)
        ensures
            *final(self) == (ProfileEditor { is_loading: true, ..*old(self) }),
    {
        self.is_loading = true;
    }

    /// The commit finished: its message is shown, or its error.
    pub fn commit_complete(&mut self, result: Result<String, String>)
        ensures
            match result {
                Ok(m) => *final(self) == (ProfileEditor {
                    is_loading: false,
                    status_message: Some(m),
                    error_message: None,
                    ..*old(self)
                }),
                Err(e) => *final(self) == (ProfileEditor {
                    is_loading: false,
                    error_message: Some(e),
                    ..*old(self)
                }),
            },
    {
        self.is_loading = false;
        match result {
            Ok(m) => {
                self.status_message = Some(m);
                self.error_message = None;
            },
            Err(e) => self.error_message = Some(e),
        }
    }

    /// The repository's history arrived (or did not).
    pub fn history_loaded(&mut self, result: Result<Vec<String>, String>)
        ensures
            match result {
                Ok(log) => *final(self) == (ProfileEditor {
                    git_history: log,
                    error_message: None,
                    ..*old(self)
                }),
                Err(e) => *final(self) == (ProfileEditor { error_message: Some(e), ..*old(self) }),
            },
    {
        match result {
            Ok(log) => {
                self.git_history = log;
                self.error_message = None;
            },
            Err(e) => self.error_message = Some(e),
        }
    }

    /// Open the apply dialog, for the edited profile (`None`) or a listed
    /// one; not while something is loading.
    pub fn show_apply_dialog(&mut self, target: Option<usize>)
        ensures
            old(self).is_loading ==> *final(self) == *old(self),
            !old(self).is_loading ==> *final(self) == (ProfileEditor {
                apply_confirm: Some(target),
                ..*old(self)
            }),
    {
        if !self.is_loading {
            self.apply_confirm = Some(target);
        }
    }

    /// Open the apply dialog for the listed profile at `index` (from the
    /// list's own button, whatever is loading).
    pub fn apply_from_list(&mut self, index: usize)
        ensures
            *final(self) == (ProfileEditor { apply_confirm: Some(Some(index)), ..*old(self) }),
    {
        self.apply_confirm = Some(Some(index));
    }

    /// Close the apply dialog.
    pub fn dismiss_apply_dialog(&mut self)
        ensures
            *final(self) == (ProfileEditor { apply_confirm: None, ..*old(self) }),
    {
        self.apply_confirm = None;
    }

    /// The apply dialog was confirmed for the edited profile, with a
    /// pre-clean mode (1: reboot first, 2: load flash defaults first) and
    /// `diff_count`, the number of settings the apply changes. Nothing
    /// happens while loading; otherwise it fails without a device, a
    /// profile or a baseline, in that order, and else starts.
    pub fn apply_confirmed(&mut self, pre_clean_mode: u8, connected: bool, diff_count: usize) -> (started: bool)
        ensures
            old(self).is_loading ==> !started && *final(self) == (ProfileEditor {
                apply_confirm: None,
                ..*old(self)
            }),
            !old(self).is_loading ==> {
                if !connected {
                    &&& !started
                    &&& msg(final(self).error_message) == Some("Not connected to device"@)
                    &&& *final(self) == (ProfileEditor {
                        apply_confirm: None,
                        error_message: final(self).error_message,
                        ..*old(self)
                    })
                } else if old(self).current is None {
                    &&& !started
                    &&& msg(final(self).error_message) == Some("No profile loaded"@)
                    &&& *final(self) == (ProfileEditor {
                        apply_confirm: None,
                        error_message: final(self).error_message,
                        ..*old(self)
                    })
                } else if old(self).baseline is None {
                    &&& !started
                    &&& msg(final(self).error_message) == Some(
                        "No baseline stored. Click 'Snapshot Baseline' first."@,
                    )
                    &&& *final(self) == (ProfileEditor {
                        apply_confirm: None,
                        error_message: final(self).error_message,
                        ..*old(self)
                    })
                } else {
                    &&& started
                    &&& msg(final(self).status_message) == Some(
                        apply_mode_label(pre_clean_mode) + "Applying '"@
                            + old(self).current->0.name@ + "' — "@ + decimal(diff_count as nat)
                            + " settings to change..."@,
                    )
                    &&& *final(self) == (ProfileEditor {
                        apply_confirm: None,
                        is_loading: true,
                        status_message: final(self).status_message,
                        ..*old(self)
                    })
                }
            },
    {
        self.apply_confirm = None;
        if self.is_loading {
            return false;
        }
        if !connected {
            self.error_message = Some(String::from_str("Not connected to device"));
            return false;
        }
        let name = match &self.current {
            Some(p) => p.name.clone(),
            None => {
                self.error_message = Some(String::from_str("No profile loaded"));
                return false;
            },
        };
        if self.baseline.is_none() {
            self.error_message = Some(
                String::from_str("No baseline stored. Click 'Snapshot Baseline' first."),
            );
            return false;
        }
        proof {
            reveal_strlit("");
        }
        let label = if pre_clean_mode == 1 {
            "Rebooting then "
        } else if pre_clean_mode == 2 {
            "Loading flash defaults then "
        } else {
            ""
        };
        let mut out: Vec<char> = Vec::new();
        push_str(&mut out, label);
        push_str(&mut out, "Applying '");
        push_str(&mut out, name.as_str());
        push_str(&mut out, "' — ");
        push_decimal(&mut out, diff_count as u64);
        push_str(&mut out, " settings to change...");
        self.is_loading = true;
        self.status_message = message(&out);
        true
    }

    /// The apply dialog was confirmed for the listed profile at `index`,
    /// with a pre-clean mode. Nothing happens while loading or for an index
    /// past the list; otherwise it fails without a device or a baseline,
    /// and else starts, giving the file of the profile to apply.
    pub fn apply_from_list_confirmed(&mut self, index: usize, pre_clean_mode: u8, connected: bool) -> (path: Option<String>)
        ensures
            (old(self).is_loading || index >= old(self).profiles@.len()) ==> path is None
                && *final(self) == (ProfileEditor { apply_confirm: None, ..*old(self) }),
            !(old(self).is_loading || index >= old(self).profiles@.len()) ==> {
                let entry = old(self).profiles@[index as int];
                if !connected {
                    &&& path is None
                    &&& msg(final(self).error_message) == Some("Not connected to device"@)
                    &&& *final(self) == (ProfileEditor {
                        apply_confirm: None,
                        error_message: final(self).error_message,
                        ..*old(self)
                    })
                } else if old(self).baseline is None {
                    &&& path is None
                    &&& msg(final(self).error_message) == Some(
                        "No baseline. Click 'Snapshot Baseline' first."@,
                    )
                    &&& *final(self) == (ProfileEditor {
                        apply_confirm: None,
                        error_message: final(self).error_message,
                        ..*old(self)
                    })
                } else {
                    &&& path == Some(entry.path)
                    &&& msg(final(self).status_message) == Some(
                        list_mode_label(pre_clean_mode) + "Running '"@ + entry.name@ + "'..."@,
                    )
                    &&& *final(self) == (ProfileEditor {
                        apply_confirm: None,
                        is_loading: true,
                        status_message: final(self).status_message,
                        ..*old(self)
                    })
                }
            },
    {
        self.apply_confirm = None;
        if self.is_loading || index >= self.profiles.len() {
            return None;
        }
        if !connected {
            self.error_message = Some(String::from_str("Not connected to device"));
            return None;
        }
        if self.baseline.is_none() {
            self.error_message = Some(
                String::from_str("No baseline. Click 'Snapshot Baseline' first."),
            );
            return None;
        }
        proof {
            reveal_strlit("");
        }
        let name = self.profiles[index].name.clone();
        let path = self.profiles[index].path.clone();
        let label = if pre_clean_mode == 1 {
            "Rebooting then "
        } else if pre_clean_mode == 2 {
            "Loading flash then "
        } else {
            ""
        };
        let mut out: Vec<char> = Vec::new();
        push_str(&mut out, label);
        push_str(&mut out, "Running '");
        push_str(&mut out, name.as_str());
        push_str(&mut out, "'...");
        self.is_loading = true;
        self.status_message = message(&out);
        Some(path)
    }

    /// An apply finished: its summary is shown, or why it failed.
    pub fn apply_complete(&mut self, result: Result<String, String>)
        ensures
            match result {
                Ok(m) => *final(self) == (ProfileEditor {
                    is_loading: false,
                    status_message: Some(m),
                    error_message: None,
                    ..*old(self)
                }),
                Err(e) => msg(final(self).error_message) == Some("Apply failed: "@ + e@)
                    && *final(self) == (ProfileEditor {
                    is_loading: false,
                    error_message: final(self).error_message,
                    ..*old(self)
                }),
            },
    {
        self.is_loading = false;
        match result {
            Ok(m) => {
                self.status_message = Some(m);
                self.error_message = None;
            },
            Err(e) => {
                self.error_message = prefixed("Apply failed: ", e.as_str());
            },
        }
    }

    /// The baseline arrived with the number of its schema entries (or did
    /// not): it is kept, and the message counts what it holds.
    pub fn baseline_snapshotted(&mut self, result: Result<(ConfigTree, usize), String>)
        requires
            old(self).well_formed(),
            result matches Ok((b, n)) ==> b.well_formed(),
        ensures
            final(self).well_formed(),
            match result {
                Ok((b, schema_entries)) => {
                    &&& msg(final(self).status_message) == Some(
                        "Baseline stored: "@ + decimal(b@.dom().len()) + " categories, "@
                            + decimal(
                            if crate::config_tree::settings_total(b.categories@) <= usize::MAX {
                                crate::config_tree::settings_total(b.categories@)
                            } else {
                                usize::MAX as nat
                            },
                        ) + " settings, "@ + decimal(schema_entries as nat)
                            + " schema entries"@,
                    )
                    &&& *final(self) == (ProfileEditor {
                        is_loading: false,
                        baseline: Some(b),
                        status_message: final(self).status_message,
                        error_message: None,
                        ..*old(self)
                    })
                },
                Err(e) => {
                    &&& msg(final(self).error_message) == Some("Baseline snapshot failed: "@ + e@)
                    &&& *final(self) == (ProfileEditor {
                        is_loading: false,
                        error_message: final(self).error_message,
                        ..*old(self)
                    })
                },
            },
    {
        self.is_loading = false;
        match result {
            Ok((b, schema_entries)) => {
                let mut out: Vec<char> = Vec::new();
                push_str(&mut out, "Baseline stored: ");
                push_decimal(&mut out, b.category_count() as u64);
                push_str(&mut out, " categories, ");
                push_decimal(&mut out, b.setting_count() as u64);
                push_str(&mut out, " settings, ");
                push_decimal(&mut out, schema_entries as u64);
                push_str(&mut out, " schema entries");
                self.status_message = message(&out);
                self.baseline = Some(b);
                self.error_message = None;
            },
            Err(e) => {
                self.error_message = prefixed("Baseline snapshot failed: ", e.as_str());
            },
        }
    }

    /// Open the remote file picker for a setting (see
    /// `RemotePickerState::open`); without a device its error is shown.
    pub fn open_remote_picker(&mut self, category: String, key: String, start_path: &str, host_url: Option<&str>) -> (f: Option<PickerFetch>)
        ensures
            match host_url {
                None => f is None && msg(final(self).error_message) == Some(not_connected_message())
                    && *final(self) == (ProfileEditor {
                    error_message: final(self).error_message,
                    ..*old(self)
                }),
                Some(h) => f matches Some(x) && final(self).remote_picker matches Some(p) && {
                    &&& p.target_category == category
                    &&& p.target_key == key
                    &&& p.current_path@ == picker_start(start_path@)
                    &&& p.path_input@ == picker_start(start_path@)
                    &&& p.entries@.len() == 0
                    &&& p.is_loading
                    &&& p.error is None
                    &&& x.host@ == bare_host_spec(h@)
                    &&& x.path@ == picker_start(start_path@)
                    &&& *final(self) == (ProfileEditor {
                        remote_picker: final(self).remote_picker,
                        ..*old(self)
                    })
                },
            },
    {
        match RemotePickerState::open(category, key, start_path, host_url) {
            Ok((p, f)) => {
                self.remote_picker = Some(p);
                Some(f)
            },
            Err(e) => {
                self.error_message = Some(e);
                None
            },
        }
    }

    /// A file was chosen in the picker: the picker closes and the setting
    /// it was opened for takes the chosen path as text.
    pub fn remote_picker_select(&mut self, path: String)
        requires
            old(self).well_formed(),
        ensures
            final(self).well_formed(),
            final(self).remote_picker is None,
            match (old(self).remote_picker, old(self).current) {
                (Some(pk), Some(p)) => final(self).current matches Some(q)
                    && q.config@ == p.config@.insert(
                    pk.target_category@,
                    settings_of(p.config@, pk.target_category@).insert(
                        pk.target_key@,
                        ConfigValue::Text(path),
                    ),
                ) && q == (EditedProfile { config: q.config, ..p }) && *final(self) == (
                ProfileEditor {
                    remote_picker: None,
                    current: final(self).current,
                    is_dirty: true,
                    ..*old(self)
                }),
                _ => *final(self) == (ProfileEditor { remote_picker: None, ..*old(self) }),
            },
    {
        if let Some(pk) = self.remote_picker.take() {
            if let Some(p) = self.current.take() {
                let mut p = p;
                let (category, key, chosen) = pk.select(path);
                p.config.set(category, key, ConfigValue::Text(chosen));
                self.current = Some(p);
                self.is_dirty = true;
            }
        }
    }

    /// Close the picker without choosing.
    pub fn remote_picker_close(&mut self)
        ensures
            *final(self) == (ProfileEditor { remote_picker: None, ..*old(self) }),
    {
        self.remote_picker = None;
    }
}

impl ProfileEditor {
    /// Browse `path` in the picker (see `RemotePickerState::navigate`);
    /// with a device the listing is asked for even when no picker is open.
    pub fn remote_picker_navigate(&mut self, path: String, host_url: Option<&str>) -> (f: Option<PickerFetch>)
        ensures
            match host_url {
                None => f is None && *final(self) == *old(self),
                Some(h) => f matches Some(x) && x.host@ == bare_host_spec(h@) && x.path@ == path@
                    && match old(self).remote_picker {
                    Some(p) => final(self).remote_picker matches Some(q) && q == (
                    RemotePickerState {
                        current_path: q.current_path,
                        path_input: q.path_input,
                        is_loading: true,
                        error: None,
                        ..p
                    }) && q.current_path@ == path@ && q.path_input@ == path@ && *final(self) == (
                    ProfileEditor { remote_picker: final(self).remote_picker, ..*old(self) }),
                    None => *final(self) == *old(self),
                },
            },
    {
        match host_url {
            None => None,
            Some(h) => match self.remote_picker.take() {
                Some(p) => {
                    let mut p = p;
                    let f = p.navigate(path, host_url);
                    self.remote_picker = Some(p);
                    f
                },
                None => Some(fetch_for(h, path.as_str())),
            },
        }
    }

    /// The picker's typed path changed.
    pub fn remote_picker_path_input_changed(&mut self, input: String)
        ensures
            match old(self).remote_picker {
                Some(p) => *final(self) == (ProfileEditor {
                    remote_picker: Some(RemotePickerState { path_input: input, ..p }),
                    ..*old(self)
                }),
                None => *final(self) == *old(self),
            },
    {
        if let Some(p) = self.remote_picker.take() {
            let mut p = p;
            p.path_input_changed(input);
            self.remote_picker = Some(p);
        }
    }

    /// Browse the picker's typed path; nothing without a picker.
    pub fn remote_picker_go_to_path(&mut self, host_url: Option<&str>) -> (f: Option<PickerFetch>)
        ensures
            match old(self).remote_picker {
                None => f is None && *final(self) == *old(self),
                Some(p) => match host_url {
                    None => f is None && *final(self) == *old(self),
                    Some(h) => {
                        &&& f matches Some(x) && x.host@ == bare_host_spec(h@) && x.path@
                            == p.path_input@
                        &&& final(self).remote_picker matches Some(q) && q == (RemotePickerState {
                            current_path: q.current_path,
                            path_input: q.path_input,
                            is_loading: true,
                            error: None,
                            ..p
                        }) && q.current_path@ == p.path_input@ && q.path_input@ == p.path_input@
                        &&& *final(self) == (ProfileEditor {
                            remote_picker: final(self).remote_picker,
                            ..*old(self)
                        })
                    },
                },
            },
    {
        match self.remote_picker.take() {
            Some(p) => {
                let mut p = p;
                let f = p.go_to_path(host_url);
                self.remote_picker = Some(p);
                f
            },
            None => None,
        }
    }

    /// A listing for the picker arrived (see `RemotePickerState::listed`).
    pub fn remote_picker_listed(&mut self, result: Result<(String, Vec<RemoteFileEntry>), String>)
        ensures
            match old(self).remote_picker {
                Some(p) => final(self).remote_picker matches Some(q) && !q.is_loading
                    && q.target_category == p.target_category && q.target_key == p.target_key
                    && q.path_input == p.path_input && match result {
                    Ok((path, entries)) => q.current_path == path && q.entries == entries
                        && q.error is None,
                    Err(e) => q.current_path == p.current_path && q.entries@.len() == 0 && q.error
                        == Some(e),
                } && *final(self) == (ProfileEditor {
                    remote_picker: final(self).remote_picker,
                    ..*old(self)
                }),
                None => *final(self) == *old(self),
            },
    {
        if let Some(p) = self.remote_picker.take() {
            let mut p = p;
            p.listed(result);
            self.remote_picker = Some(p);
        }
    }
}

/// A tag that survives being listed and read back: not empty, without
/// whitespace at either end, and without a comma.
pub open spec fn tag_ok(t: Seq<char>) -> bool {
    &&& t.len() > 0
    &&& !crate::text::is_ws(t[0])
    &&& !crate::text::is_ws(t.last())
    &&& !t.contains(',')
}

/// The pieces of tags listed with ", ": the first as it is, the others
/// after a space.
spec fn listed_pieces(tags: Seq<Seq<char>>) -> Seq<Seq<char>> {
    Seq::new(
        tags.len(),
        |i: int|
            if i == 0 {
                tags[0]
            } else {
                seq![' '] + tags[i]
            },
    )
}

proof fn lemma_split_without_separator(s: Seq<char>, c: char)
    requires
        !s.contains(c),
    ensures
        split_acc(s, c) == (Seq::<Seq<char>>::empty(), s),
    decreases s.len(),
{
    if s.len() == 0 {
        assert(s =~= Seq::<char>::empty());
    } else {
        let init = s.drop_last();
        assert(!init.contains(c)) by {
            if init.contains(c) {
                let i = choose|i: int| 0 <= i < init.len() && init[i] == c;
                assert(s[i] == c);
            }
        }
        assert(s.last() != c) by {
            assert(s[s.len() - 1] == s.last());
        }
        lemma_split_without_separator(init, c);
        assert(init.push(s.last()) =~= s);
    }
}

proof fn lemma_split_after_separator(a: Seq<char>, b: Seq<char>, c: char)
    requires
        !b.contains(c),
    ensures
        split_acc(a.push(c) + b, c) == (split_on(a, c), b),
    decreases b.len(),
{
    if b.len() == 0 {
        assert(a.push(c) + b =~= a.push(c));
        assert(a.push(c).drop_last() =~= a);
        assert(b =~= Seq::<char>::empty());
    } else {
        let init = b.drop_last();
        assert(!init.contains(c)) by {
            if init.contains(c) {
                let i = choose|i: int| 0 <= i < init.len() && init[i] == c;
                assert(b[i] == c);
            }
        }
        assert(b.last() != c) by {
            assert(b[b.len() - 1] == b.last());
        }
        lemma_split_after_separator(a, init, c);
        assert((a.push(c) + b).drop_last() =~= a.push(c) + init);
        assert((a.push(c) + b).last() == b.last());
        assert(init.push(b.last()) =~= b);
    }
}

proof fn lemma_split_listed(tags: Seq<Seq<char>>)
    requires
        tags.len() >= 1,
        forall|i: int| 0 <= i < tags.len() ==> tag_ok(#[trigger] tags[i]),
    ensures
        split_on(join_with(tags, ", "@), ',') == listed_pieces(tags),
    decreases tags.len(),
{
    reveal_strlit(", ");
    if tags.len() == 1 {
        assert(tag_ok(tags[0]));
        lemma_split_without_separator(tags[0], ',');
        assert(split_pieces_one(tags));
    } else {
        let init = tags.drop_last();
        let last = tags.last();
        assert(tag_ok(tags[tags.len() - 1]));
        assert forall|i: int| 0 <= i < init.len() implies tag_ok(#[trigger] init[i]) by {
            assert(tag_ok(tags[i]));
        }
        lemma_split_listed(init);
        let j = join_with(init, ", "@);
        assert(j + ", "@ + last =~= j.push(',') + (seq![' '] + last));
        assert(!(seq![' '] + last).contains(',')) by {
            if (seq![' '] + last).contains(',') {
                let i = choose|i: int| 0 <= i < (seq![' '] + last).len() && (seq![' '] + last)[i]
                    == ',';
                if i > 0 {
                    assert(last[i - 1] == ',');
                }
            }
        }
        lemma_split_after_separator(j, seq![' '] + last, ',');
        assert(listed_pieces(tags) =~= listed_pieces(init).push(seq![' '] + last));
    }
}

spec fn split_pieces_one(tags: Seq<Seq<char>>) -> bool {
    listed_pieces(tags) =~= seq![tags[0]]
}

proof fn lemma_trim_tag(t: Seq<char>)
    requires
        tag_ok(t),
    ensures
        trim(t) == t,
        trim(seq![' '] + t) == t,
{
    let sp = seq![' '] + t;
    assert(crate::text::is_ws(' '));
    assert(crate::text::trim_end(t) == t);
    assert(crate::text::trim_start(t) == t);
    assert(sp.last() == t.last());
    assert(crate::text::trim_end(sp) == sp);
    assert(sp.drop_first() =~= t);
    assert(crate::text::trim_start(sp) == crate::text::trim_start(t));
}

proof fn lemma_trim_listed(tags: Seq<Seq<char>>)
    requires
        tags.len() >= 1,
        forall|i: int| 0 <= i < tags.len() ==> tag_ok(#[trigger] tags[i]),
    ensures
        trimmed_nonempty(listed_pieces(tags)) == tags,
    decreases tags.len(),
{
    if tags.len() == 1 {
        assert(tag_ok(tags[0]));
        lemma_trim_tag(tags[0]);
        assert(listed_pieces(tags).drop_last() =~= Seq::<Seq<char>>::empty());
        assert(listed_pieces(tags).last() == tags[0]);
        assert(trimmed_nonempty(Seq::<Seq<char>>::empty()) == Seq::<Seq<char>>::empty());
        assert(trimmed_nonempty(listed_pieces(tags)) == Seq::<Seq<char>>::empty().push(tags[0]));
        assert(Seq::<Seq<char>>::empty().push(tags[0]) =~= tags);
    } else {
        let init = tags.drop_last();
        assert forall|i: int| 0 <= i < init.len() implies tag_ok(#[trigger] init[i]) by {
            assert(tag_ok(tags[i]));
        }
        lemma_trim_listed(init);
        assert(tag_ok(tags[tags.len() - 1]));
        lemma_trim_tag(tags.last());
        assert(listed_pieces(tags).drop_last() =~= listed_pieces(init));
        assert(listed_pieces(tags).last() == seq![' '] + tags.last());
        assert(trimmed_nonempty(listed_pieces(tags)) == trimmed_nonempty(listed_pieces(init)).push(
            tags.last(),
        ));
        assert(init.push(tags.last()) =~= tags);
    }
}

/// Tags listed with ", " (as the tags field shows a loaded profile's tags)
/// read back as the same tags, provided each is a tag that survives (see
/// `tag_ok`).
pub proof fn law_tags_round_trip(tags: Seq<Seq<char>>)
    requires
        forall|i: int| 0 <= i < tags.len() ==> tag_ok(#[trigger] tags[i]),
    ensures
        tags_of(join_with(tags, ", "@)) == tags,
{
    if tags.len() == 0 {
        let e = Seq::<char>::empty();
        assert(join_with(tags, ", "@) == e);
        assert(split_acc(e, ',') == (Seq::<Seq<char>>::empty(), e));
        assert(split_on(e, ',') =~= seq![e]);
        assert(trim(e) == e);
        assert(seq![e].drop_last() =~= Seq::<Seq<char>>::empty());
        assert(trimmed_nonempty(Seq::<Seq<char>>::empty()) == Seq::<Seq<char>>::empty());
        assert(trimmed_nonempty(seq![e]) == Seq::<Seq<char>>::empty());
        assert(tags =~= Seq::<Seq<char>>::empty());
    } else {
        lemma_split_listed(tags);
        lemma_trim_listed(tags);
    }
}

/// The settings column of a listed profile: its setting count, then its
/// tags in brackets where it has any.
pub open spec fn entry_summary_spec(entry: ProfileEntry) -> Seq<char> {
    decimal(entry.setting_count as nat) + " settings"@ + if entry.tags@.len() == 0 {
        ""@
    } else {
        " ["@ + join_with(str_views(entry.tags@), ", "@) + "]"@
    }
}

/// The settings column of a listed profile (see `entry_summary_spec`).
pub fn entry_summary(entry: &ProfileEntry) -> (t: String)
    ensures
        t@ == entry_summary_spec(*entry),
{
    proof {
        reveal_strlit("");
    }
    let mut out: Vec<char> = Vec::new();
    push_decimal(&mut out, entry.setting_count as u64);
    push_str(&mut out, " settings");
    if entry.tags.len() == 0 {
        push_str(&mut out, "");
    } else {
        let joined = join_strings(&entry.tags, ", ");
        push_str(&mut out, " [");
        push_str(&mut out, joined.as_str());
        push_str(&mut out, "]");
    }
    string_from_chars(&out)
}

impl ProfileEditor {
    /// What the profile list says when it is empty.
    pub fn empty_list_message(&self) -> (t: &'static str)
        ensures
            t@ == if self.repo_initialized {
                "No profiles yet. Import a .cfg or .json, or snapshot from device."@
            } else {
                "Click 'Init Repo' to create the profile repository."@
            },
    {
        if self.repo_initialized {
            "No profiles yet. Import a .cfg or .json, or snapshot from device."
        } else {
            "Click 'Init Repo' to create the profile repository."
        }
    }

    /// Whether a new profile can be started: only once a baseline exists.
    pub fn can_create(&self) -> (b: bool)
        ensures
            b == self.baseline is Some,
    {
        self.baseline.is_some()
    }

    /// Whether a listed profile can be run: with a device and a baseline.
    pub fn can_run(&self, connected: bool) -> (b: bool)
        ensures
            b == (connected && self.baseline is Some),
    {
        connected && self.baseline.is_some()
    }
}

/// The sign and the digits of an integer text: a leading `-` or `+`
/// taken off.
pub open spec fn signed_parts(s: Seq<char>) -> (bool, Seq<char>) {
    if s.len() > 0 && s[0] == '-' {
        (true, s.skip(1))
    } else if s.len() > 0 && s[0] == '+' {
        (false, s.skip(1))
    } else {
        (false, s)
    }
}

/// What `str::parse::<i64>` gives: an optional sign, then at least one
/// decimal digit and nothing else, within the range of `i64`.
pub open spec fn parse_i64_spec(s: Seq<char>) -> Option<i64> {
    let (neg, body) = signed_parts(s);
    if body.len() > 0 && crate::memory_editor::all_digits(body) {
        let v: int = if neg {
            -(crate::memory_editor::dec_number(body) as int)
        } else {
            crate::memory_editor::dec_number(body) as int
        };
        if i64::MIN <= v <= i64::MAX {
            Some(v as i64)
        } else {
            None
        }
    } else {
        None
    }
}

proof fn lemma_dec_number_grows(s: Seq<char>)
    requires
        s.len() > 0,
        crate::memory_editor::is_digit_char(s.last()),
    ensures
        crate::memory_editor::dec_number(s) >= 10 * crate::memory_editor::dec_number(s.drop_last()),
{
}

/// An integer text parsed as `str::parse::<i64>` does (see
/// `parse_i64_spec`).
pub fn parse_i64(s: &str) -> (r: Option<i64>)
    ensures
        r == parse_i64_spec(s@),
{
    let cs = chars_of(s);
    let ghost parts = signed_parts(s@);
    let mut neg = false;
    let mut start: usize = 0;
    if cs.len() > 0 && cs[0] == '-' {
        neg = true;
        start = 1;
    } else if cs.len() > 0 && cs[0] == '+' {
        start = 1;
    }
    assert(parts.0 == neg);
    assert(parts.1 =~= cs@.skip(start as int));
    if start >= cs.len() {
        return None;
    }
    let cap: u128 = 0x8000_0000_0000_0001;
    let mut acc: u128 = 0;
    let mut i: usize = start;
    assert(cs@.subrange(start as int, start as int) =~= Seq::<char>::empty());
    while i < cs.len()
        invariant
            start <= i <= cs@.len(),
            cs@ == s@,
            parts.1 == cs@.skip(start as int),
            parts == signed_parts(s@),
            cap == 0x8000_0000_0000_0001u128,
            crate::memory_editor::all_digits(cs@.subrange(start as int, i as int)),
            acc == if crate::memory_editor::dec_number(cs@.subrange(start as int, i as int)) > cap {
                cap as nat
            } else {
                crate::memory_editor::dec_number(cs@.subrange(start as int, i as int))
            },
        decreases cs@.len() - i,
    {
        let c = cs[i];
        if !('0' <= c && c <= '9') {
            assert(!crate::memory_editor::all_digits(parts.1)) by {
                assert(parts.1[i - start] == c);
            }
            return None;
        }
        let ghost pre = cs@.subrange(start as int, i as int);
        let ghost next = cs@.subrange(start as int, i + 1);
        assert(next.drop_last() =~= pre);
        assert(crate::memory_editor::all_digits(next));
        proof {
            lemma_dec_number_grows(next);
        }
        let d = (c as u32 - 48) as u128;
        let grown = 10 * acc + d;
        acc = if grown > cap {
            cap
        } else {
            grown
        };
        i = i + 1;
    }
    assert(cs@.subrange(start as int, i as int) =~= parts.1);
    if neg {
        if acc > 0x8000_0000_0000_0000 {
            None
        } else {
            let v = acc as i128;
            Some((-v) as i64)
        }
    } else {
        if acc > 0x7fff_ffff_ffff_ffff {
            None
        } else {
            Some(acc as i64)
        }
    }
}

/// A signed integer in decimal (`i64::to_string`).
pub open spec fn int_text(n: i64) -> Seq<char> {
    if n < 0 {
        "-"@ + decimal((-n) as nat)
    } else {
        decimal(n as nat)
    }
}

fn int_string(n: i64) -> (t: String)
    ensures
        t@ == int_text(n),
{
    let mut out: Vec<char> = Vec::new();
    if n < 0 {
        push_str(&mut out, "-");
        let m: u64 = (-(n as i128)) as u64;
        push_decimal(&mut out, m);
    } else {
        push_decimal(&mut out, n as u64);
    }
    string_from_chars(&out)
}

/// The editing control a setting gets from the device's schema.
pub enum ConfigControl {
    /// A choice among the valid values, with the current value's text
    /// where it is a text or a number.
    Choice { options: Vec<String>, current: Option<String> },
    /// A slider over the range, at the current value, with the unit shown
    /// after it.
    Slider { min: i64, max: i64, current: i64, unit: String },
    /// A text field with preset values; the text is the value where it is
    /// a text (other values are shown by the caller's formatting).
    Presets { presets: Vec<String>, current_text: Option<String> },
    /// No schema-driven control: the plain editor.
    Plain,
}

/// The text a choice list shows as selected: the value where it is a
/// text, a number's decimal or JSON text, else nothing.
pub open spec fn choice_current(v: ConfigValue) -> Option<Seq<char>> {
    match v {
        ConfigValue::Text(s) => Some(s@),
        ConfigValue::Integer(n) => Some(int_text(n)),
        ConfigValue::Number(t) => Some(t@),
        _ => None,
    }
}

/// Where a slider stands: an integer value, a text that parses as one once
/// trimmed, else the minimum.
pub open spec fn slider_current(v: ConfigValue, min: i64) -> i64 {
    match v {
        ConfigValue::Integer(n) => n,
        ConfigValue::Text(s) => match parse_i64_spec(trim(s@)) {
            Some(n) => n,
            None => min,
        },
        _ => min,
    }
}

/// The unit a slider shows for a format: " dB" where it mentions dB, "%"
/// where it ends in one, " ppm" where it mentions ppm, else none.
pub open spec fn slider_unit(format: Option<Seq<char>>) -> Seq<char> {
    match format {
        Some(f) => if contains_seq(f, "dB"@) {
            " dB"@
        } else if f.len() > 0 && f.last() == '%' {
            "%"@
        } else if contains_seq(f, "ppm"@) {
            " ppm"@
        } else {
            ""@
        },
        None => ""@,
    }
}

/// The control of a setting with a schema: a choice when there are valid
/// values, else a slider when there is a range, else presets when there
/// are some, else the plain editor.
pub open spec fn config_control_spec(
    options: Option<Seq<Seq<char>>>,
    min: Option<i64>,
    max: Option<i64>,
    format: Option<Seq<char>>,
    presets: Option<Seq<Seq<char>>>,
    value: ConfigValue,
    c: ConfigControl,
) -> bool {
    if options matches Some(o) && o.len() > 0 {
        c matches ConfigControl::Choice { options: co, current } && str_views(co@) == options->0
            && crate::text::opt_str(current) == choice_current(value)
    } else if min is Some && max is Some {
        c matches ConfigControl::Slider { min: a, max: b, current, unit } && a == min->0 && b
            == max->0 && current == slider_current(value, min->0) && unit@ == slider_unit(format)
    } else if presets matches Some(p) && p.len() > 0 {
        c matches ConfigControl::Presets { presets: cp, current_text } && str_views(cp@)
            == presets->0 && crate::text::opt_str(current_text) == (match value {
            ConfigValue::Text(s) => Some(s@),
            _ => None,
        })
    } else {
        c is Plain
    }
}

fn copy_strings(v: &Vec<String>) -> (r: Vec<String>)
    ensures
        str_views(r@) == str_views(v@),
{
    let mut out: Vec<String> = Vec::new();
    let mut i: usize = 0;
    while i < v.len()
        invariant
            i <= v@.len(),
            str_views(out@) == str_views(v@.take(i as int)),
        decreases v@.len() - i,
    {
        let ghost before = out@;
        out.push(v[i].clone());
        assert(str_views(out@) =~= str_views(before).push(v@[i as int]@));
        assert(str_views(v@.take(i as int + 1)) =~= str_views(v@.take(i as int)).push(v@[i as int]@));
        i = i + 1;
    }
    assert(v@.take(i as int) =~= v@);
    out
}

/// The control of a setting with a schema (see `config_control_spec`):
/// its valid values, range, display format and presets, and its value.
pub fn config_control(
    options: Option<Vec<String>>,
    min: Option<i64>,
    max: Option<i64>,
    format: Option<String>,
    presets: Option<Vec<String>>,
    value: &ConfigValue,
) -> (c: ConfigControl)
    ensures
        config_control_spec(
            match options {
                Some(v) => Some(str_views(v@)),
                None => None,
            },
            min,
            max,
            crate::text::opt_str(format),
            match presets {
                Some(v) => Some(str_views(v@)),
                None => None,
            },
            *value,
            c,
        ),
{
    proof {
        reveal_strlit("");
    }
    if let Some(o) = &options {
        if o.len() > 0 {
            let current = match value {
                ConfigValue::Text(s) => Some(s.clone()),
                ConfigValue::Integer(n) => Some(int_string(*n)),
                ConfigValue::Number(t) => Some(t.clone()),
                _ => None,
            };
            return ConfigControl::Choice { options: copy_strings(o), current };
        }
    }
    if let (Some(a), Some(b)) = (min, max) {
        let current = match value {
            ConfigValue::Integer(n) => *n,
            ConfigValue::Text(s) => {
                let t = string_from_chars(&trim_chars(&chars_of(s.as_str())));
                match parse_i64(t.as_str()) {
                    Some(n) => n,
                    None => a,
                }
            },
            _ => a,
        };
        let unit = match &format {
            Some(f) => {
                let fc = chars_of(f.as_str());
                if contains(&fc, &chars_of("dB")) {
                    String::from_str(" dB")
                } else if fc.len() > 0 && fc[fc.len() - 1] == '%' {
                    String::from_str("%")
                } else if contains(&fc, &chars_of("ppm")) {
                    String::from_str(" ppm")
                } else {
                    String::from_str("")
                }
            },
            None => String::from_str(""),
        };
        return ConfigControl::Slider { min: a, max: b, current, unit };
    }
    if let Some(p) = &presets {
        if p.len() > 0 {
            let current_text = match value {
                ConfigValue::Text(s) => Some(s.clone()),
                _ => None,
            };
            return ConfigControl::Presets { presets: copy_strings(p), current_text };
        }
    }
    ConfigControl::Plain
}

} // verus!
