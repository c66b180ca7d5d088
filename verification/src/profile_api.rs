//! Decisions taken when a device profile is applied: the bare host of a
//! device URL, whether a configuration diff needs a full reboot of the
//! Ultimate, whether a mount path lies on the device's own filesystem, the
//! steps of an apply and their summary, and the steps of mounting media
//! and of running a program from the cartridge slot.
use vstd::prelude::*;
use vstd::string::StrSliceExecFns;
use crate::config_tree::{assoc, key_at, lemma_assoc_at, ConfigTree, ConfigValue};
use crate::text::{
    chars_of, contains, contains_seq, starts_with, starts_with_seq, str_eq, string_from_chars,
    to_lowercase,
};

verus! {

/// A host URL without a leading `http://` or, failing that, `https://`.
pub open spec fn bare_host_spec(u: Seq<char>) -> Seq<char> {
    if crate::text::starts_with_seq(u, "http://"@) {
        u.skip(7)
    } else if crate::text::starts_with_seq(u, "https://"@) {
        u.skip(8)
    } else {
        u
    }
}

/// The host (IP or host name) of a URL such as `http://192.168.1.91`:
/// the device API functions prepend the scheme themselves.
pub fn bare_host_pub(host_url: &str) -> (h: &str)
    ensures
        h@ == bare_host_spec(host_url@),
{
    bare_host(host_url)
}

fn bare_host(host_url: &str) -> (h: &str)
    ensures
        h@ == bare_host_spec(host_url@),
{
    proof {
        reveal_strlit("http://");
        reveal_strlit("https://");
    }
    let cs = chars_of(host_url);
    let n = host_url.unicode_len();
    if starts_with(&cs, &chars_of("http://")) {
        host_url.substring_char(7, n)
    } else if starts_with(&cs, &chars_of("https://")) {
        host_url.substring_char(8, n)
    } else {
        host_url
    }
}

/// A lower-cased setting key names a ROM image loaded at boot.
pub open spec fn rom_key(k: Seq<char>) -> bool {
    contains_seq(k, "rom"@) && (contains_seq(k, "kernal"@) || contains_seq(k, "basic"@)
        || contains_seq(k, "char"@) || contains_seq(k, "1541"@) || contains_seq(k, "1571"@)
        || contains_seq(k, "1581"@))
}

/// Changing this setting (category, key) only takes effect after the
/// Ultimate reboots: ROM images, drive "ROM for …" keys, and the cartridge
/// of a cartridge category.  Keys and categories are compared lower-cased.
pub open spec fn reboot_setting(category: Seq<char>, key: Seq<char>) -> bool {
    let k = crate::text::unicode_lowercase(key);
    let c = crate::text::unicode_lowercase(category);
    rom_key(k) || crate::text::starts_with_seq(k, "rom for "@) || (k == "cartridge"@
        && crate::text::contains_seq(c, "cartridge"@))
}

/// Some setting of the diff needs a reboot.
pub open spec fn diff_needs_reboot(diff: Map<Seq<char>, Map<Seq<char>, ConfigValue>>) -> bool {
    exists|c: Seq<char>, k: Seq<char>|
        diff.contains_key(c) && #[trigger] diff[c].contains_key(k) && reboot_setting(c, k)
}

/// Law: a diff that changes a ROM image (a key whose lower-cased text
/// contains "rom" and one of "kernal", "basic", "char", "1541", "1571",
/// "1581") needs a reboot, whatever else it holds.
pub proof fn law_rom_images_need_reboot(
    diff: Map<Seq<char>, Map<Seq<char>, ConfigValue>>,
    category: Seq<char>,
    key: Seq<char>,
)
    requires
        diff.contains_key(category),
        diff[category].contains_key(key),
        contains_seq(crate::text::unicode_lowercase(key), "rom"@),
        contains_seq(crate::text::unicode_lowercase(key), "kernal"@) || contains_seq(
            crate::text::unicode_lowercase(key),
            "basic"@,
        ) || contains_seq(crate::text::unicode_lowercase(key), "char"@) || contains_seq(
            crate::text::unicode_lowercase(key),
            "1541"@,
        ) || contains_seq(crate::text::unicode_lowercase(key), "1571"@) || contains_seq(
            crate::text::unicode_lowercase(key),
            "1581"@,
        ),
    ensures
        diff_needs_reboot(diff),
{
    assert(reboot_setting(category, key));
    assert(diff.contains_key(category) && diff[category].contains_key(key) && reboot_setting(category, key));
}

/// Law: a diff that changes a drive's "ROM for …" setting, or the cartridge
/// of a cartridge category, needs a reboot.
pub proof fn law_drive_roms_and_cartridges_need_reboot(
    diff: Map<Seq<char>, Map<Seq<char>, ConfigValue>>,
    category: Seq<char>,
    key: Seq<char>,
)
    requires
        diff.contains_key(category),
        diff[category].contains_key(key),
        starts_with_seq(crate::text::unicode_lowercase(key), "rom for "@) || (
        crate::text::unicode_lowercase(key) == "cartridge"@ && contains_seq(
            crate::text::unicode_lowercase(category),
            "cartridge"@,
        )),
    ensures
        diff_needs_reboot(diff),
{
    assert(reboot_setting(category, key));
    assert(diff.contains_key(category) && diff[category].contains_key(key) && reboot_setting(category, key));
}

fn has(s: &Vec<char>, lit: &str) -> (b: bool)
    ensures
        b == crate::text::contains_seq(s@, lit@),
{
    contains(s, &chars_of(lit))
}

fn begins(s: &Vec<char>, lit: &str) -> (b: bool)
    ensures
        b == starts_with_seq(s@, lit@),
{
    starts_with(s, &chars_of(lit))
}

fn needs_reboot_for(category: &str, key: &str) -> (b: bool)
    ensures
        b == reboot_setting(category@, key@),
{
    let lower_key = to_lowercase(key);
    let lower_cat = to_lowercase(category);
    let k = chars_of(lower_key.as_str());
    let c = chars_of(lower_cat.as_str());
    if has(&k, "rom") && (has(&k, "kernal") || has(&k, "basic") || has(&k, "char") || has(
        &k,
        "1541",
    ) || has(&k, "1571") || has(&k, "1581")) {
        return true;
    }
    if starts_with(&k, &chars_of("rom for ")) {
        return true;
    }
    str_eq(lower_key.as_str(), "cartridge") && has(&c, "cartridge")
}

/// Whether a configuration diff contains a setting that only takes effect
/// after a full reboot of the Ultimate (not just a C64 reset).
pub fn requires_reboot(diff: &ConfigTree) -> (b: bool)
    requires
        diff.well_formed(),
    ensures
        b == diff_needs_reboot(diff@),
{
    let cats = &diff.categories;
    let mut i: usize = 0;
    while i < cats.len()
        invariant
            i <= cats@.len(),
            *cats == diff.categories,
            diff.well_formed(),
            forall|a: int, j: int|
                0 <= a < i && 0 <= j < cats@[a].1@.len() ==> !reboot_setting(
                    cats@[a].0@,
                    #[trigger] cats@[a].1@[j].0@,
                ),
        decreases cats@.len() - i,
    {
        let (category, items) = &cats[i];
        let mut j: usize = 0;
        while j < items.len()
            invariant
                i < cats@.len(),
                j <= items@.len(),
                *cats == diff.categories,
                diff.well_formed(),
                *items == cats@[i as int].1,
                *category == cats@[i as int].0,
                forall|a: int, jj: int|
                    0 <= a < i && 0 <= jj < cats@[a].1@.len() ==> !reboot_setting(
                        cats@[a].0@,
                        #[trigger] cats@[a].1@[jj].0@,
                    ),
                forall|jj: int| 0 <= jj < j ==> !reboot_setting(category@, #[trigger] items@[jj].0@),
            decreases items@.len() - j,
        {
            if needs_reboot_for(category.as_str(), items[j].0.as_str()) {
                proof {
                    lemma_assoc_at(cats@, i as int);
                    lemma_assoc_at(items@, j as int);
                    let c = category@;
                    let k = items@[j as int].0@;
                    assert(diff@[c] == assoc(items@));
                    assert(diff@.contains_key(c) && diff@[c].contains_key(k) && reboot_setting(c, k));
                }
                return true;
            }
            j = j + 1;
        }
        i = i + 1;
    }
    proof {
        assert forall|c: Seq<char>, k: Seq<char>|
            diff@.contains_key(c) && #[trigger] diff@[c].contains_key(k) implies !reboot_setting(c, k) by {
            let a = key_at(cats@, c);
            assert(cats@[a].0@ == c);
            assert(diff@[c] == assoc(cats@[a].1@));
            let jj = key_at(cats@[a].1@, k);
            assert(cats@[a].1@[jj].0@ == k);
        }
    }
    false
}

/// The path without its leading `/` characters.
pub open spec fn trim_leading_slashes(p: Seq<char>) -> Seq<char>
    decreases p.len(),
{
    if p.len() > 0 && p[0] == '/' {
        trim_leading_slashes(p.drop_first())
    } else {
        p
    }
}

/// Lower-cased names of the device filesystem roots.
pub open spec fn device_root(lower: Seq<char>) -> bool {
    starts_with_seq(lower, "usb"@) || starts_with_seq(lower, "sd"@) || starts_with_seq(
        lower,
        "flash"@,
    ) || starts_with_seq(lower, "temp"@) || starts_with_seq(lower, "net"@) || starts_with_seq(
        lower,
        "ramdisk"@,
    )
}

/// Whether a path lies on the device's own filesystem (`/Usb…`, `/Sd…`,
/// `/Flash…`, `/Temp…`, `/Net…`, `/Ramdisk…`, any case, leading slashes
/// optional).
pub fn is_device_path(path: &str) -> (b: bool)
    ensures
        b == device_root(crate::text::unicode_lowercase(trim_leading_slashes(path@))),
{
    let cs = chars_of(path);
    let mut k: usize = 0;
    assert(cs@.skip(0) =~= cs@);
    while k < cs.len() && cs[k] == '/'
        invariant
            k <= cs@.len(),
            cs@ == path@,
            trim_leading_slashes(path@) == trim_leading_slashes(cs@.skip(k as int)),
        decreases cs@.len() - k,
    {
        assert(cs@.skip(k as int).drop_first() =~= cs@.skip(k as int + 1));
        k = k + 1;
    }
    let rest = path.substring_char(k, path.unicode_len());
    assert(rest@ =~= cs@.skip(k as int));
    let lower = to_lowercase(rest);
    let l = chars_of(lower.as_str());
    begins(&l, "usb") || begins(&l, "sd") || begins(&l, "flash") || begins(&l, "temp") || begins(
        &l,
        "net",
    ) || begins(&l, "ramdisk")
}


// ── Applying a profile ────────────────────────────────────────────

/// A step of applying a profile to the device, in the order they run.
#[derive(Debug, Clone, Copy, PartialEq, Eq, Structural)]
pub enum ApplyStep {
    /// Ask the Ultimate to reboot first (not waited for).
    RebootFirst,
    /// Load the flash defaults first.
    LoadFlashDefaults,
    /// Restore the flash baseline; a failure ends the apply.
    RestoreBaseline,
    /// Nothing differs from the baseline: no request.
    NoChanges,
    /// Send the changed settings; a failure ends the apply.
    ApplyConfig,
    /// Ask for a reboot because ROM settings changed (not waited for).
    RebootForRom,
    /// Mount the profile's media, one outcome per mount.
    Mounts,
    /// Build the HTTP client for the reset; a failure ends the apply.
    ResetClient,
    /// Reset the machine.
    Reset,
}

/// The steps of applying a profile: the pre-clean (mode 1 reboots, mode 2
/// loads the flash defaults, any other mode does nothing), the baseline
/// restore when asked, the settings (or nothing when none changed), a
/// reboot for changed ROMs unless the pre-clean rebooted, the mounts, and
/// a reset (its client built first) when asked and no reboot is needed.
pub open spec fn apply_plan_spec(
    pre_clean_mode: u8,
    restore_baseline_first: bool,
    diff_count: nat,
    needs_reboot: bool,
    reset_after_apply: bool,
) -> Seq<ApplyStep> {
    (if pre_clean_mode == 1 {
        seq![ApplyStep::RebootFirst]
    } else if pre_clean_mode == 2 {
        seq![ApplyStep::LoadFlashDefaults]
    } else {
        Seq::empty()
    }) + (if restore_baseline_first {
        seq![ApplyStep::RestoreBaseline]
    } else {
        Seq::empty()
    }) + (if diff_count == 0 {
        seq![ApplyStep::NoChanges]
    } else {
        seq![ApplyStep::ApplyConfig]
    }) + (if needs_reboot && diff_count > 0 && pre_clean_mode != 1 {
        seq![ApplyStep::RebootForRom]
    } else {
        Seq::empty()
    }) + seq![ApplyStep::Mounts] + (if reset_after_apply && !needs_reboot {
        seq![ApplyStep::ResetClient, ApplyStep::Reset]
    } else {
        Seq::empty()
    })
}

/// The steps of applying a profile (see `apply_plan_spec`).
pub fn apply_plan(
    pre_clean_mode: u8,
    restore_baseline_first: bool,
    diff_count: usize,
    needs_reboot: bool,
    reset_after_apply: bool,
) -> (r: Vec<ApplyStep>)
    ensures
        r@ == apply_plan_spec(
            pre_clean_mode,
            restore_baseline_first,
            diff_count as nat,
            needs_reboot,
            reset_after_apply,
        ),
{
    let mut r: Vec<ApplyStep> = Vec::new();
    if pre_clean_mode == 1 {
        r.push(ApplyStep::RebootFirst);
    } else if pre_clean_mode == 2 {
        r.push(ApplyStep::LoadFlashDefaults);
    }
    if restore_baseline_first {
        r.push(ApplyStep::RestoreBaseline);
    }
    if diff_count == 0 {
        r.push(ApplyStep::NoChanges);
    } else {
        r.push(ApplyStep::ApplyConfig);
    }
    if needs_reboot && diff_count > 0 && pre_clean_mode != 1 {
        r.push(ApplyStep::RebootForRom);
    }
    r.push(ApplyStep::Mounts);
    if reset_after_apply && !needs_reboot {
        r.push(ApplyStep::ResetClient);
        r.push(ApplyStep::Reset);
    }
    assert(r@ =~= apply_plan_spec(
        pre_clean_mode,
        restore_baseline_first,
        diff_count as nat,
        needs_reboot,
        reset_after_apply,
    ));
    r
}

/// The note a step's outcome adds to the apply summary, if any.
pub open spec fn step_note(step: ApplyStep, outcome: Result<String, String>) -> Option<Seq<char>> {
    match step {
        ApplyStep::RebootFirst => Some("Reboot sent — device may be offline briefly"@),
        ApplyStep::LoadFlashDefaults => if outcome is Ok {
            Some("Loaded flash defaults"@)
        } else {
            None
        },
        ApplyStep::RestoreBaseline => if outcome is Ok {
            Some("Restored flash baseline"@)
        } else {
            None
        },
        ApplyStep::NoChanges => Some("No changes needed"@),
        ApplyStep::ApplyConfig => match outcome {
            Ok(r) => Some(r@),
            Err(_) => None,
        },
        ApplyStep::RebootForRom => if outcome is Ok {
            Some("Reboot sent for ROM change — device may take up to 3 min to come back"@)
        } else {
            None
        },
        ApplyStep::Mounts => match outcome {
            Ok(m) => Some(m@),
            Err(_) => None,
        },
        ApplyStep::ResetClient => None,
        ApplyStep::Reset => if outcome is Ok {
            Some("Machine reset"@)
        } else {
            None
        },
    }
}

/// The error that ends the apply after a step's outcome, if any: only a
/// failed baseline restore, a failed settings request, or a reset client
/// that could not be built.
pub open spec fn step_stop(step: ApplyStep, outcome: Result<String, String>) -> Option<Seq<char>> {
    match (step, outcome) {
        (ApplyStep::RestoreBaseline, Err(e)) => Some(e@),
        (ApplyStep::ApplyConfig, Err(e)) => Some(e@),
        (ApplyStep::ResetClient, Err(e)) => Some(e@),
        _ => None,
    }
}

/// A profile being applied: the notes its steps have added so far.
#[derive(Debug, Clone)]
pub struct ApplyRun {
    pub name: String,
    pub notes: Vec<String>,
}

impl ApplyRun {
    /// An apply of the named profile with no step done yet.
    pub fn new(name: String) -> (r: Self)
        ensures
            r.name == name,
            r.notes@.len() == 0,
    {
        ApplyRun { name, notes: Vec::new() }
    }

    /// Take a step's outcome: its note is added, and the error that ends
    /// the apply is returned where there is one.
    pub fn record(&mut self, step: ApplyStep, outcome: Result<String, String>) -> (stop: Option<String>)
        ensures
            final(self).name == old(self).name,
            crate::text::str_views(final(self).notes@) == match step_note(step, outcome) {
                Some(n) => crate::text::str_views(old(self).notes@).push(n),
                None => crate::text::str_views(old(self).notes@),
            },
            crate::text::opt_str(stop) == step_stop(step, outcome),
    {
        let ghost prev = self.notes@;
        let (note, stop): (Option<String>, Option<String>) = match step {
            ApplyStep::RebootFirst => (Some(String::from_str("Reboot sent — device may be offline briefly")), None),
            ApplyStep::LoadFlashDefaults => (
                if outcome.is_ok() {
                    Some(String::from_str("Loaded flash defaults"))
                } else {
                    None
                },
                None,
            ),
            ApplyStep::RestoreBaseline => match outcome {
                Ok(_) => (Some(String::from_str("Restored flash baseline")), None),
                Err(e) => (None, Some(e)),
            },
            ApplyStep::NoChanges => (Some(String::from_str("No changes needed")), None),
            ApplyStep::ApplyConfig => match outcome {
                Ok(r) => (Some(r), None),
                Err(e) => (None, Some(e)),
            },
            ApplyStep::RebootForRom => (
                if outcome.is_ok() {
                    Some(String::from_str("Reboot sent for ROM change — device may take up to 3 min to come back"))
                } else {
                    None
                },
                None,
            ),
            ApplyStep::Mounts => match outcome {
                Ok(m) => (Some(m), None),
                Err(_) => (None, None),
            },
            ApplyStep::ResetClient => match outcome {
                Ok(_) => (None, None),
                Err(e) => (None, Some(e)),
            },
            ApplyStep::Reset => (
                if outcome.is_ok() {
                    Some(String::from_str("Machine reset"))
                } else {
                    None
                },
                None,
            ),
        };
        if let Some(n) = note {
            self.notes.push(n);
            assert(crate::text::str_views(self.notes@) =~= crate::text::str_views(
                prev,
            ).push(n@));
        }
        stop
    }

    /// The message of a finished apply:
    /// `Applied profile '<name>': <notes joined by ", ">`.
    pub fn summary(&self) -> (m: String)
        ensures
            m@ == "Applied profile '"@ + self.name@ + "': "@ + crate::text::join_with(
                crate::text::str_views(self.notes@),
                ", "@,
            ),
    {
        let mut out: Vec<char> = Vec::new();
        crate::text::push_str(&mut out, "Applied profile '");
        crate::text::push_str(&mut out, self.name.as_str());
        crate::text::push_str(&mut out, "': ");
        crate::text::push_str(&mut out, crate::text::join_strings(&self.notes, ", ").as_str());
        string_from_chars(&out)
    }
}

// ── Mounting media ────────────────────────────────────────────────

/// A medium a profile asks to mount.
#[derive(Debug, Clone)]
pub enum MountJob {
    /// A disk image on drive `a` or `b`, run after mounting when `autoload`.
    Drive { path: String, drive: String, autoload: bool },
    /// A program run from the cartridge slot.
    Cartridge { path: String },
}

/// The model of a mount job: kind, path, drive, autoload.
pub open spec fn job_view(j: MountJob) -> (bool, Seq<char>, Seq<char>, bool) {
    match j {
        MountJob::Drive { path, drive, autoload } => (true, path@, drive@, autoload),
        MountJob::Cartridge { path } => (false, path@, Seq::empty(), false),
    }
}

/// The mounts of a profile's drive A, drive B and cartridge slots, in that
/// order; a slot with an empty path is skipped.
pub open spec fn mount_jobs_spec(
    drive_a: Option<(Seq<char>, bool)>,
    drive_b: Option<(Seq<char>, bool)>,
    cartridge: Option<Seq<char>>,
) -> Seq<(bool, Seq<char>, Seq<char>, bool)> {
    (match drive_a {
        Some((p, auto)) => if p.len() > 0 {
            seq![(true, p, "a"@, auto)]
        } else {
            Seq::empty()
        },
        None => Seq::empty(),
    }) + (match drive_b {
        Some((p, auto)) => if p.len() > 0 {
            seq![(true, p, "b"@, auto)]
        } else {
            Seq::empty()
        },
        None => Seq::empty(),
    }) + (match cartridge {
        Some(p) => if p.len() > 0 {
            seq![(false, p, Seq::<char>::empty(), false)]
        } else {
            Seq::empty()
        },
        None => Seq::empty(),
    })
}

/// The model of an optional slot.
pub open spec fn slot_view(s: Option<(String, bool)>) -> Option<(Seq<char>, bool)> {
    match s {
        Some((p, a)) => Some((p@, a)),
        None => None,
    }
}

/// The mounts a profile asks for (see `mount_jobs_spec`).
pub fn mount_jobs(
    drive_a: Option<(String, bool)>,
    drive_b: Option<(String, bool)>,
    cartridge: Option<String>,
) -> (r: Vec<MountJob>)
    ensures
        r@.map_values(|j: MountJob| job_view(j)) == mount_jobs_spec(
            slot_view(drive_a),
            slot_view(drive_b),
            crate::text::opt_str(cartridge),
        ),
{
    proof {
        reveal_strlit("a");
        reveal_strlit("b");
    }
    let mut r: Vec<MountJob> = Vec::new();
    if let Some((p, auto)) = drive_a {
        if p.as_str().unicode_len() > 0 {
            r.push(MountJob::Drive { path: p, drive: String::from_str("a"), autoload: auto });
        }
    }
    let ghost after_a = r@;
    if let Some((p, auto)) = drive_b {
        if p.as_str().unicode_len() > 0 {
            r.push(MountJob::Drive { path: p, drive: String::from_str("b"), autoload: auto });
        }
    }
    let ghost after_b = r@;
    if let Some(p) = cartridge {
        if p.as_str().unicode_len() > 0 {
            r.push(MountJob::Cartridge { path: p });
        }
    }
    assert(r@.map_values(|j: MountJob| job_view(j)) =~= mount_jobs_spec(
        slot_view(drive_a),
        slot_view(drive_b),
        crate::text::opt_str(cartridge),
    ));
    r
}

/// The settings category of a drive: `Drive A Settings` for `a`, else
/// `Drive B Settings`.
pub open spec fn drive_category_spec(drive: Seq<char>) -> Seq<char> {
    if drive == "a"@ {
        "Drive A Settings"@
    } else {
        "Drive B Settings"@
    }
}

/// The settings category of a drive (see `drive_category_spec`).
pub fn drive_category(drive: &str) -> (c: String)
    ensures
        c@ == drive_category_spec(drive@),
{
    if str_eq(drive, "a") {
        String::from_str("Drive A Settings")
    } else {
        String::from_str("Drive B Settings")
    }
}

/// Whether a drive is on, from the current text of its `Drive` setting:
/// anything but `disabled` (any case) is on, and so is a value that is
/// not text.
pub fn drive_is_enabled(current: Option<&str>) -> (b: bool)
    ensures
        b == match current {
            Some(s) => crate::text::unicode_lowercase(s@) != "disabled"@,
            None => true,
        },
{
    match current {
        Some(s) => !str_eq(to_lowercase(s).as_str(), "disabled"),
        None => true,
    }
}

/// The IEC device number of a drive: 8 for `a`, else 9.
pub open spec fn device_number(drive: Seq<char>) -> Seq<char> {
    if drive == "a"@ {
        "8"@
    } else {
        "9"@
    }
}

/// Where a mount-and-run is.
#[derive(Debug, Clone, Copy, PartialEq, Eq, Structural)]
pub enum MountStage {
    EnableDrive,
    CheckLocal,
    Mount,
    Reset,
    TypeLoad,
    TypeRun,
    Done,
}

/// The outside work a mount-and-run asks for next.
#[derive(Debug)]
pub enum MountAction {
    /// Switch the drive on if it is off (see `drive_is_enabled`); its
    /// outcome does not matter.
    EnableDrive { category: String },
    /// Say whether the local file exists (`Ok`) or not (`Err`).
    CheckLocalFile { path: String },
    /// Mount a file of the device's filesystem.
    MountOnDevice { path: String, drive: String, mode: String },
    /// Upload a local file and mount it.
    UploadAndMount { path: String, drive: String, mode: String },
    /// Reset the machine.
    Reset,
    /// Type text on the C64 keyboard.
    TypeText { text: String },
    /// The mount-and-run is over, with this result.
    Finish { result: Result<String, String> },
}

/// A disk image being mounted on a drive, and run when `autoload`.
#[derive(Debug, Clone)]
pub struct MountRun {
    pub path: String,
    pub drive: String,
    pub autoload: bool,
    /// Whether the path lies on the device (see `is_device_path`).
    pub on_device: bool,
    pub stage: MountStage,
}

/// The mount mode: read-only when the disk is run, else read-write.
pub open spec fn mount_mode(autoload: bool) -> Seq<char> {
    if autoload {
        "readonly"@
    } else {
        "readwrite"@
    }
}

/// The model of a mount action.
pub open spec fn mount_action_view(a: MountAction) -> (u8, Seq<char>, Seq<char>, Seq<char>, Option<Result<Seq<char>, Seq<char>>>) {
    match a {
        MountAction::EnableDrive { category } => (0, category@, Seq::empty(), Seq::empty(), None),
        MountAction::CheckLocalFile { path } => (1, path@, Seq::empty(), Seq::empty(), None),
        MountAction::MountOnDevice { path, drive, mode } => (2, path@, drive@, mode@, None),
        MountAction::UploadAndMount { path, drive, mode } => (3, path@, drive@, mode@, None),
        MountAction::Reset => (4, Seq::empty(), Seq::empty(), Seq::empty(), None),
        MountAction::TypeText { text } => (5, text@, Seq::empty(), Seq::empty(), None),
        MountAction::Finish { result } => (6, Seq::empty(), Seq::empty(), Seq::empty(), Some(
            match result {
                Ok(m) => Ok(m@),
                Err(e) => Err(e@),
            },
        )),
    }
}

/// A finished mount-and-run with the given result.
pub open spec fn finish_view(r: Result<Seq<char>, Seq<char>>) -> (u8, Seq<char>, Seq<char>, Seq<char>, Option<Result<Seq<char>, Seq<char>>>) {
    (6, Seq::empty(), Seq::empty(), Seq::empty(), Some(r))
}

/// The mount of the image: on the device, or uploaded.
pub open spec fn mount_step_view(r: MountRun) -> (u8, Seq<char>, Seq<char>, Seq<char>, Option<Result<Seq<char>, Seq<char>>>) {
    (if r.on_device {
        2u8
    } else {
        3u8
    }, r.path@, r.drive@, mount_mode(r.autoload), None)
}

/// The step after a mount-and-run's current one, given its outcome: the
/// next stage and what to do.
pub open spec fn mount_next(r: MountRun, outcome: Result<String, String>) -> (MountStage, (u8, Seq<char>, Seq<char>, Seq<char>, Option<Result<Seq<char>, Seq<char>>>)) {
    let name = crate::text::after_last(r.path@, '/');
    match r.stage {
        MountStage::EnableDrive => if r.on_device {
            (MountStage::Mount, mount_step_view(r))
        } else {
            (MountStage::CheckLocal, (1, r.path@, Seq::empty(), Seq::empty(), None))
        },
        MountStage::CheckLocal => if outcome is Ok {
            (MountStage::Mount, mount_step_view(r))
        } else {
            (MountStage::Done, finish_view(Err("Local file not found: "@ + r.path@)))
        },
        MountStage::Mount => match outcome {
            Err(e) => (MountStage::Done, finish_view(Err(e@))),
            Ok(m) => if r.autoload {
                (MountStage::Reset, (4, Seq::empty(), Seq::empty(), Seq::empty(), None))
            } else if r.on_device {
                (MountStage::Done, finish_view(Ok(m@)))
            } else {
                (MountStage::Done, finish_view(Ok("Uploaded and mounted: "@ + name)))
            },
        },
        MountStage::Reset => match outcome {
            Err(e) => (MountStage::Done, finish_view(Err(e@))),
            Ok(_) => (
                MountStage::TypeLoad,
                (5, "load \"*\","@ + device_number(r.drive@) + ",1\n"@, Seq::empty(), Seq::empty(), None),
            ),
        },
        MountStage::TypeLoad => match outcome {
            Err(e) => (MountStage::Done, finish_view(Err("Type LOAD failed: "@ + e@))),
            Ok(_) => (MountStage::TypeRun, (5, "run\n"@, Seq::empty(), Seq::empty(), None)),
        },
        MountStage::TypeRun => match outcome {
            Err(e) => (MountStage::Done, finish_view(Err("Type RUN failed: "@ + e@))),
            Ok(_) => (MountStage::Done, finish_view(Ok("Mounted and running: "@ + name))),
        },
        MountStage::Done => (MountStage::Done, finish_view(Err("Mount already finished"@))),
    }
}

impl MountRun {
    /// Start mounting `path` on `drive`: first the drive is switched on.
    pub fn start(path: String, drive: String, autoload: bool) -> (r: (MountRun, MountAction))
        ensures
            r.0.path == path,
            r.0.drive == drive,
            r.0.autoload == autoload,
            r.0.on_device == device_root(crate::text::unicode_lowercase(trim_leading_slashes(path@))),
            r.0.stage == MountStage::EnableDrive,
            mount_action_view(r.1) == (0u8, drive_category_spec(drive@), Seq::<char>::empty(), Seq::<char>::empty(), None::<Result<Seq<char>, Seq<char>>>),
    {
        let on_device = is_device_path(path.as_str());
        let category = drive_category(drive.as_str());
        (MountRun { path, drive, autoload, on_device, stage: MountStage::EnableDrive }, MountAction::EnableDrive { category })
    }

    /// Take the outcome of the last action and say what to do next (see
    /// `mount_next`).
    pub fn resume(&mut self, outcome: Result<String, String>) -> (a: MountAction)
        ensures
            (final(self).stage, mount_action_view(a)) == mount_next(*old(self), outcome),
            final(self).path == old(self).path,
            final(self).drive == old(self).drive,
            final(self).autoload == old(self).autoload,
            final(self).on_device == old(self).on_device,
    {
        proof {
            reveal_strlit("a");
            reveal_strlit("readonly");
            reveal_strlit("readwrite");
        }
        match self.stage {
            MountStage::EnableDrive => {
                if self.on_device {
                    self.stage = MountStage::Mount;
                    self.mount_action()
                } else {
                    self.stage = MountStage::CheckLocal;
                    MountAction::CheckLocalFile { path: self.path.clone() }
                }
            },
            MountStage::CheckLocal => {
                if outcome.is_ok() {
                    self.stage = MountStage::Mount;
                    self.mount_action()
                } else {
                    self.stage = MountStage::Done;
                    MountAction::Finish { result: Err(crate::text::join2("Local file not found: ", self.path.as_str())) }
                }
            },
            MountStage::Mount => match outcome {
                Err(e) => {
                    self.stage = MountStage::Done;
                    MountAction::Finish { result: Err(e) }
                },
                Ok(m) => {
                    if self.autoload {
                        self.stage = MountStage::Reset;
                        MountAction::Reset
                    } else if self.on_device {
                        self.stage = MountStage::Done;
                        MountAction::Finish { result: Ok(m) }
                    } else {
                        self.stage = MountStage::Done;
                        let name = crate::text::after_last_of(self.path.as_str(), '/');
                        MountAction::Finish { result: Ok(crate::text::join2("Uploaded and mounted: ", name.as_str())) }
                    }
                },
            },
            MountStage::Reset => match outcome {
                Err(e) => {
                    self.stage = MountStage::Done;
                    MountAction::Finish { result: Err(e) }
                },
                Ok(_) => {
                    self.stage = MountStage::TypeLoad;
                    let n = if str_eq(self.drive.as_str(), "a") {
                        "8"
                    } else {
                        "9"
                    };
                    MountAction::TypeText { text: crate::text::join3("load \"*\",", n, ",1\n") }
                },
            },
            MountStage::TypeLoad => match outcome {
                Err(e) => {
                    self.stage = MountStage::Done;
                    MountAction::Finish { result: Err(crate::text::join2("Type LOAD failed: ", e.as_str())) }
                },
                Ok(_) => {
                    self.stage = MountStage::TypeRun;
                    MountAction::TypeText { text: String::from_str("run\n") }
                },
            },
            MountStage::TypeRun => match outcome {
                Err(e) => {
                    self.stage = MountStage::Done;
                    MountAction::Finish { result: Err(crate::text::join2("Type RUN failed: ", e.as_str())) }
                },
                Ok(_) => {
                    self.stage = MountStage::Done;
                    let name = crate::text::after_last_of(self.path.as_str(), '/');
                    MountAction::Finish { result: Ok(crate::text::join2("Mounted and running: ", name.as_str())) }
                },
            },
            MountStage::Done => MountAction::Finish { result: Err(String::from_str("Mount already finished")) },
        }
    }

    fn mount_action(&self) -> (a: MountAction)
        ensures
            mount_action_view(a) == mount_step_view(*self),
    {
        let mode = if self.autoload {
            String::from_str("readonly")
        } else {
            String::from_str("readwrite")
        };
        if self.on_device {
            MountAction::MountOnDevice { path: self.path.clone(), drive: self.drive.clone(), mode }
        } else {
            MountAction::UploadAndMount { path: self.path.clone(), drive: self.drive.clone(), mode }
        }
    }
}

// ── Programs in the cartridge slot ────────────────────────────────

/// What `Path::extension` (std) gives for a path: the part of its last
/// component after the last `.`, if it has one that is not leading.
pub uninterp spec fn path_extension(path: Seq<char>) -> Option<Seq<char>>;

/// Calls `Path::extension` (std) on the path, turning the result back into
/// a string (lossless: the path came from a string).
#[verifier::external_body]
fn extension_of(path: &str) -> (r: Option<String>)
    ensures
        crate::text::opt_str(r) == path_extension(path@),
{
    match std::path::Path::new(path).extension() {
        Some(e) => Some(e.to_string_lossy().to_string()),
        None => None,
    }
}

/// How a program in the cartridge slot is run.
#[derive(Debug, Clone)]
pub enum CartridgeRun {
    /// A file on the device, started by the device's own runner.
    OnDevice { kind: crate::remote_browser::RunKind },
    /// A local file that does not exist.
    Missing { message: String },
    /// A local file to upload to a runner (`run_crt`, `run_prg`,
    /// `sidplay`), with the message of success.
    Upload { runner: String, message: String },
    /// A local file of another type.
    Unsupported { message: String },
}

/// The model of a cartridge run.
pub open spec fn cartridge_view(c: CartridgeRun) -> (u8, Option<crate::remote_browser::RunKind>, Seq<char>, Seq<char>) {
    match c {
        CartridgeRun::OnDevice { kind } => (0, Some(kind), Seq::empty(), Seq::empty()),
        CartridgeRun::Missing { message } => (1, None, Seq::empty(), message@),
        CartridgeRun::Upload { runner, message } => (2, None, runner@, message@),
        CartridgeRun::Unsupported { message } => (3, None, Seq::empty(), message@),
    }
}

/// How a program in the cartridge slot is run: a device file by its
/// lower-cased extension (`prg` runs, `sid` plays, anything else is run
/// as a cartridge); a local file, when it exists, by its lower-cased
/// extension (`crt`, `prg`, `sid`), else refused.
pub open spec fn cartridge_spec(path: Seq<char>, local_exists: bool) -> (u8, Option<crate::remote_browser::RunKind>, Seq<char>, Seq<char>) {
    let ext = match path_extension(path) {
        Some(e) => Some(crate::text::unicode_lowercase(e)),
        None => None,
    };
    let name = match crate::music_player::path_file_name(path) {
        Some(n) => n,
        None => path,
    };
    if device_root(crate::text::unicode_lowercase(trim_leading_slashes(path))) {
        if ext == Some("prg"@) {
            (0, Some(crate::remote_browser::RunKind::RunPrg), Seq::empty(), Seq::empty())
        } else if ext == Some("sid"@) {
            (0, Some(crate::remote_browser::RunKind::PlaySid), Seq::empty(), Seq::empty())
        } else {
            (0, Some(crate::remote_browser::RunKind::RunCrt), Seq::empty(), Seq::empty())
        }
    } else if !local_exists {
        (1, None, Seq::empty(), "Local file not found: "@ + path)
    } else if ext == Some("crt"@) {
        (2, None, "run_crt"@, "Running cartridge: "@ + name)
    } else if ext == Some("prg"@) {
        (2, None, "run_prg"@, "Running PRG: "@ + name)
    } else if ext == Some("sid"@) {
        (2, None, "sidplay"@, "Playing SID: "@ + name)
    } else {
        (
            3,
            None,
            Seq::empty(),
            "Unsupported file type '"@ + match ext {
                Some(e) => e,
                None => "(none)"@,
            } + "' for cartridge slot — use .crt, .prg, or .sid"@,
        )
    }
}

/// Whether an optional text is the given one.
fn opt_is(o: &Option<String>, lit: &str) -> (b: bool)
    ensures
        b == (crate::text::opt_str(*o) == Some(lit@)),
{
    match o {
        Some(e) => str_eq(e.as_str(), lit),
        None => false,
    }
}

/// How to run a program from the cartridge slot (see `cartridge_spec`);
/// `local_exists` says whether a local path names an existing file.
pub fn cartridge_run(path: &str, local_exists: bool) -> (r: CartridgeRun)
    ensures
        cartridge_view(r) == cartridge_spec(path@, local_exists),
{
    proof {
        reveal_strlit("prg");
        reveal_strlit("sid");
        reveal_strlit("crt");
    }
    let ext = match extension_of(path) {
        Some(e) => Some(to_lowercase(e.as_str())),
        None => None,
    };
    if is_device_path(path) {
        let kind = if opt_is(&ext, "prg") {
            crate::remote_browser::RunKind::RunPrg
        } else if opt_is(&ext, "sid") {
            crate::remote_browser::RunKind::PlaySid
        } else {
            crate::remote_browser::RunKind::RunCrt
        };
        return CartridgeRun::OnDevice { kind };
    }
    if !local_exists {
        return CartridgeRun::Missing { message: crate::text::join2("Local file not found: ", path) };
    }
    let name = match crate::music_player::file_name_of(path) {
        Some(n) => n,
        None => path.to_owned(),
    };
    if opt_is(&ext, "crt") {
        CartridgeRun::Upload {
            runner: String::from_str("run_crt"),
            message: crate::text::join2("Running cartridge: ", name.as_str()),
        }
    } else if opt_is(&ext, "prg") {
        CartridgeRun::Upload {
            runner: String::from_str("run_prg"),
            message: crate::text::join2("Running PRG: ", name.as_str()),
        }
    } else if opt_is(&ext, "sid") {
        CartridgeRun::Upload {
            runner: String::from_str("sidplay"),
            message: crate::text::join2("Playing SID: ", name.as_str()),
        }
    } else {
        let shown = match &ext {
            Some(e) => e.clone(),
            None => String::from_str("(none)"),
        };
        CartridgeRun::Unsupported {
            message: crate::text::join3(
                "Unsupported file type '",
                shown.as_str(),
                "' for cartridge slot — use .crt, .prg, or .sid",
            ),
        }
    }
}

/// A setting as the device lists it: its name, its current value, and
/// whether the device describes it (valid values, range) in its schema.
pub struct ConfigItem {
    pub name: String,
    pub current_value: crate::config_tree::ConfigValue,
    pub has_details: bool,
}

/// The settings of a listing: each name with its current value.
pub open spec fn item_pairs(items: Seq<ConfigItem>) -> Seq<(String, crate::config_tree::ConfigValue)> {
    items.map_values(|it: ConfigItem| (it.name, it.current_value))
}

/// The described settings of a listing, each marked in the schema.
pub open spec fn detail_pairs(items: Seq<ConfigItem>) -> Seq<(String, crate::config_tree::ConfigValue)>
    decreases items.len(),
{
    if items.len() == 0 {
        Seq::empty()
    } else if items.last().has_details {
        detail_pairs(items.drop_last()).push(
            (items.last().name, crate::config_tree::ConfigValue::Flag(true)),
        )
    } else {
        detail_pairs(items.drop_last())
    }
}

/// What to do next while reading the device's whole configuration.
pub enum SnapshotStep {
    /// List the settings of this category (after a pause, but for the
    /// first).
    Fetch(String),
    /// Reading failed; the message says where.
    Failed(String),
    /// Every category was read.
    Done,
}

/// Reading the device's whole configuration, one category at a time: the
/// categories, how many were read, the configuration read so far, and the
/// schema (each described setting marked).
pub struct SnapshotRun {
    pub categories: Vec<String>,
    pub next: usize,
    pub config: crate::config_tree::ConfigTree,
    pub schema: crate::config_tree::ConfigTree,
}

impl SnapshotRun {
    /// The run is consistent: the trees are well formed and no more
    /// categories were read than there are.
    pub open spec fn well_formed(&self) -> bool {
        &&& self.config.well_formed()
        &&& self.schema.well_formed()
        &&& self.next <= self.categories@.len()
    }

    /// The names of the categories read so far.
    pub open spec fn read_categories(&self) -> Set<Seq<char>> {
        Set::new(|c: Seq<char>| exists|i: int| 0 <= i < self.next && (#[trigger] self.categories@[i])@ == c)
    }

    /// The configuration holds exactly the categories read so far.
    pub open spec fn covers_read(&self) -> bool {
        self.config@.dom() == self.read_categories()
    }

    /// The step asked for once `next` categories were read.
    pub open spec fn step_after(categories: Seq<String>, next: nat, step: SnapshotStep) -> bool {
        if next < categories.len() {
            step matches SnapshotStep::Fetch(c) && c == categories[next as int]
        } else {
            step is Done
        }
    }

    /// Start reading the listed categories.
    pub fn start(categories: Vec<String>) -> (r: (SnapshotRun, SnapshotStep))
        ensures
            r.0.well_formed(),
            r.0.categories == categories,
            r.0.next == 0,
            r.0.covers_read(),
            r.0.config@ == Map::<Seq<char>, Map<Seq<char>, crate::config_tree::ConfigValue>>::empty(),
            r.0.schema@ == Map::<Seq<char>, Map<Seq<char>, crate::config_tree::ConfigValue>>::empty(),
            SnapshotRun::step_after(categories@, 0, r.1),
    {
        let step = if categories.len() > 0 {
            SnapshotStep::Fetch(categories[0].clone())
        } else {
            SnapshotStep::Done
        };
        let run = SnapshotRun {
            categories,
            next: 0,
            config: crate::config_tree::ConfigTree::new(),
            schema: crate::config_tree::ConfigTree::new(),
        };
        proof {
            assert(run.config@.dom() =~= run.read_categories());
        }
        (run, step)
    }

    /// The listing of the category asked for arrived (or did not). It
    /// replaces that category in the configuration, and in the schema where
    /// it describes any setting; a failure stops the run with "Failed to
    /// read 'category': error".
    pub fn resume(&mut self, outcome: Result<Vec<ConfigItem>, String>) -> (step: SnapshotStep)
        requires
            old(self).well_formed(),
            old(self).next < old(self).categories@.len(),
            old(self).covers_read(),
        ensures
            final(self).well_formed(),
            final(self).covers_read(),
            final(self).categories == old(self).categories,
            match outcome {
                Err(e) => {
                    &&& step matches SnapshotStep::Failed(m) && m@ == "Failed to read '"@
                        + old(self).categories@[old(self).next as int]@ + "': "@ + e@
                    &&& final(self).next == old(self).next
                    &&& final(self).config@ == old(self).config@
                    &&& final(self).schema@ == old(self).schema@
                },
                Ok(items) => {
                    let cat = old(self).categories@[old(self).next as int]@;
                    &&& final(self).next == old(self).next + 1
                    &&& final(self).config@ == old(self).config@.insert(
                        cat,
                        crate::config_tree::pairs_map(item_pairs(items@)),
                    )
                    &&& final(self).schema@ == if detail_pairs(items@).len() > 0 {
                        old(self).schema@.insert(
                            cat,
                            crate::config_tree::pairs_map(detail_pairs(items@)),
                        )
                    } else {
                        old(self).schema@
                    }
                    &&& SnapshotRun::step_after(final(self).categories@, final(self).next as nat, step)
                },
            },
    {
        let n = self.next;
        let count = self.categories.len();
        let category = self.categories[n].clone();
        match outcome {
            Err(e) => {
                let mut out: Vec<char> = Vec::new();
                crate::text::push_str(&mut out, "Failed to read '");
                crate::text::push_str(&mut out, category.as_str());
                crate::text::push_str(&mut out, "': ");
                crate::text::push_str(&mut out, e.as_str());
                SnapshotStep::Failed(string_from_chars(&out))
            },
            Ok(items) => {
                let mut pairs: Vec<(String, crate::config_tree::ConfigValue)> = Vec::new();
                let mut details: Vec<(String, crate::config_tree::ConfigValue)> = Vec::new();
                let mut i: usize = 0;
                while i < items.len()
                    invariant
                        i <= items@.len(),
                        self.next < self.categories@.len(),
                        self.categories == old(self).categories,
                        self.next == old(self).next,
                        self.config == old(self).config,
                        self.schema == old(self).schema,
                        category@ == self.categories@[self.next as int]@,
                        pairs@ == item_pairs(items@.take(i as int)),
                        details@ == detail_pairs(items@.take(i as int)),
                    decreases items@.len() - i,
                {
                    proof {
                        assert(items@.take(i as int + 1).drop_last() =~= items@.take(i as int));
                    }
                    pairs.push((items[i].name.clone(), items[i].current_value.duplicate()));
                    if items[i].has_details {
                        details.push(
                            (items[i].name.clone(), crate::config_tree::ConfigValue::Flag(true)),
                        );
                    }
                    i = i + 1;
                    assert(pairs@ =~= item_pairs(items@.take(i as int)));
                }
                proof {
                    assert(items@.take(i as int) =~= items@);
                }
                self.config.put_category(category.clone(), &pairs);
                if details.len() > 0 {
                    self.schema.put_category(category, &details);
                }
                assert(n < count);
                self.next = n + 1;
                proof {
                    assert(self.config@.dom() =~= self.read_categories()) by {
                        assert forall|c: Seq<char>| self.read_categories().contains(c) implies #[trigger] self.config@.dom().contains(c) by {
                            let i = choose|i: int| 0 <= i < self.next && (#[trigger] self.categories@[i])@ == c;
                            if i < n {
                                assert(old(self).read_categories().contains(c));
                            }
                        }
                        assert forall|c: Seq<char>| #[trigger] self.config@.dom().contains(c) implies self.read_categories().contains(c) by {
                            if c == category@ {
                                assert(self.categories@[n as int]@ == c);
                            } else {
                                assert(old(self).config@.dom().contains(c));
                                assert(old(self).read_categories().contains(c));
                                let i = choose|i: int| 0 <= i < old(self).next && (#[trigger] old(self).categories@[i])@ == c;
                                assert(self.categories@[i]@ == c);
                            }
                        }
                    }
                }
                if self.next < self.categories.len() {
                    SnapshotStep::Fetch(self.categories[self.next].clone())
                } else {
                    SnapshotStep::Done
                }
            },
        }
    }
}

/// Once every listed category was read, the configuration holds each of
/// them and nothing else.
pub proof fn law_snapshot_holds_every_category(run: SnapshotRun)
    requires
        run.covers_read(),
        run.next == run.categories@.len(),
    ensures
        forall|i: int| 0 <= i < run.categories@.len() ==> run.config@.contains_key(
            #[trigger] run.categories@[i]@,
        ),
        forall|c: Seq<char>| #[trigger] run.config@.contains_key(c) ==> exists|i: int|
            0 <= i < run.categories@.len() && run.categories@[i]@ == c,
{
    assert forall|i: int| 0 <= i < run.categories@.len() implies run.config@.contains_key(
        #[trigger] run.categories@[i]@,
    ) by {
        assert(run.read_categories().contains(run.categories@[i]@));
    }
}

} // verus!
