//! The profile repository: where profiles live (`profiles/<category>/<id>/`),
//! whether the repository is set up, whether git versioning is available,
//! and the decisions taken around its git commands.
use vstd::prelude::*;
use crate::text::{chars_of, contains, push_str, string_from_chars, trim_chars};

verus! {

/// Summary of a profile stored in the repository.
#[derive(Debug, Clone)]
pub struct ProfileEntry {
    /// Profile id (its directory name).
    pub id: String,
    pub name: String,
    /// Category folder ("games", "demos/intros", "uncategorized", …).
    pub category: String,
    /// "full" or "overlay".
    pub mode: String,
    pub config_categories: usize,
    pub setting_count: usize,
    pub tags: Vec<String>,
    /// Path of its `profile.json`.
    pub path: String,
    pub screenshot_path: Option<String>,
}

/// A profile repository on disk.
pub struct ProfileRepo {
    root: String,
    initialized: bool,
    git_available: bool,
}

impl ProfileRepo {
    /// The repository's root directory.
    pub closed spec fn root_spec(&self) -> Seq<char> {
        self.root@
    }

    /// Whether the directory structure exists.
    pub closed spec fn initialized_spec(&self) -> bool {
        self.initialized
    }

    /// Whether the `git` program can be used.
    pub closed spec fn git_spec(&self) -> bool {
        self.git_available
    }

    /// The repository at `root`: it counts as set up when it has a `.git`
    /// or a `profiles` directory, git or not.
    pub fn new(root: String, has_git_dir: bool, has_profiles_dir: bool, git_available: bool) -> (r:
        Self)
        ensures
            r.root_spec() == root@,
            r.initialized_spec() == (has_git_dir || has_profiles_dir),
            r.git_spec() == git_available,
    {
        ProfileRepo { root, initialized: has_git_dir || has_profiles_dir, git_available }
    }

    /// Root directory of the repository.
    pub fn root(&self) -> (r: &str)
        ensures
            r@ == self.root_spec(),
    {
        self.root.as_str()
    }

    /// Whether the repository is set up.
    pub fn is_initialized(&self) -> (b: bool)
        ensures
            b == self.initialized_spec(),
    {
        self.initialized
    }

    /// Whether git versioning is available.
    pub fn git_available(&self) -> (b: bool)
        ensures
            b == self.git_spec(),
    {
        self.git_available
    }

    /// Record that the directory structure now exists.
    pub fn mark_initialized(&mut self)
        ensures
            final(self).initialized_spec(),
            final(self).root_spec() == old(self).root_spec(),
            final(self).git_spec() == old(self).git_spec(),
    {
        self.initialized = true;
    }

    /// Whether a commit should be attempted at all: only with git.
    pub fn commit_wanted(&self) -> (b: bool)
        ensures
            b == self.git_spec(),
    {
        self.git_available
    }

    /// Whether a remote can be asked for: only in a set-up repository with
    /// git.
    pub fn remote_checkable(&self) -> (b: bool)
        ensures
            b == (self.initialized_spec() && self.git_spec()),
    {
        self.initialized && self.git_available
    }
}

/// The category a profile is listed under: its folder, or "uncategorized"
/// at the top level.
pub open spec fn listed_category(category: Seq<char>) -> Seq<char> {
    if category.len() == 0 {
        "uncategorized"@
    } else {
        category
    }
}

/// The category a profile is listed under.
pub fn entry_category(category: &str) -> (r: String)
    ensures
        r@ == listed_category(category@),
{
    if category.is_empty() {
        String::from_str("uncategorized")
    } else {
        category.to_owned()
    }
}

/// The category of a sub-folder `dir_name` of category `category`.
pub open spec fn nested_category(category: Seq<char>, dir_name: Seq<char>) -> Seq<char> {
    if category.len() == 0 {
        dir_name
    } else {
        category + "/"@ + dir_name
    }
}

/// The category of a sub-folder.
pub fn sub_category(category: &str, dir_name: &str) -> (r: String)
    ensures
        r@ == nested_category(category@, dir_name@),
{
    if category.is_empty() {
        dir_name.to_owned()
    } else {
        let mut out: Vec<char> = Vec::new();
        push_str(&mut out, category);
        push_str(&mut out, "/");
        push_str(&mut out, dir_name);
        string_from_chars(&out)
    }
}

/// The folder a profile is saved under: its category, or "uncategorized".
pub fn save_category(category: &str) -> (r: &str)
    ensures
        r@ == listed_category(category@),
{
    if category.is_empty() {
        "uncategorized"
    } else {
        category
    }
}

/// `git status --porcelain` output that lists nothing to commit.
pub fn nothing_to_commit(status: &str) -> (b: bool)
    ensures
        b == (crate::text::trim(status@).len() == 0),
{
    let t = trim_chars(&chars_of(status));
    t.len() == 0
}

/// A failed `git commit` that only found nothing to commit, which is no
/// error.
pub fn commit_failure_is_benign(stderr: &str) -> (b: bool)
    ensures
        b == crate::text::contains_seq(stderr@, "nothing to commit"@),
{
    contains(&chars_of(stderr), &chars_of("nothing to commit"))
}

/// The history without git: empty.
pub fn history_without_git() -> (r: Vec<String>)
    ensures
        r@.len() == 0,
{
    Vec::new()
}


/// The sort key of a listed profile: its name lower-cased.
pub open spec fn entry_key(e: ProfileEntry) -> crate::sorting::KeyView {
    (0u8, crate::text::unicode_lowercase(e.name@), 0u64)
}

/// The sort keys of listed profiles.
pub open spec fn entry_keys(entries: Seq<ProfileEntry>) -> Seq<crate::sorting::KeyView> {
    entries.map_values(|e: ProfileEntry| entry_key(e))
}

/// Profiles in listing order: by lower-cased name, equal names keeping
/// their order.
pub fn sort_profile_entries(entries: Vec<ProfileEntry>) -> (r: Vec<ProfileEntry>)
    ensures
        crate::sorting::sorted_by_keys(r@, entries@, entry_keys(entries@), false),
{
    let mut keys: Vec<crate::sorting::SortKey> = Vec::new();
    let mut i: usize = 0;
    while i < entries.len()
        invariant
            i <= entries@.len(),
            crate::sorting::key_views(keys@) == entry_keys(entries@).take(i as int),
        decreases entries@.len() - i,
    {
        let key = crate::sorting::SortKey {
            group: 0,
            text: crate::sorting::lowercase_chars(entries[i].name.as_str()),
            number: 0,
        };
        assert(crate::sorting::key_view(key) == entry_key(entries@[i as int]));
        let ghost prev = keys@;
        keys.push(key);
        assert(crate::sorting::key_views(keys@) =~= crate::sorting::key_views(prev).push(
            crate::sorting::key_view(key),
        ));
        assert(crate::sorting::key_views(keys@) =~= entry_keys(entries@).take(i as int + 1));
        i = i + 1;
    }
    assert(entry_keys(entries@).take(i as int) =~= entry_keys(entries@));
    crate::sorting::sort_by_keys(entries, &keys, false)
}

/// The sort key of a baseline name: the name itself.
pub open spec fn name_key(n: String) -> crate::sorting::KeyView {
    (0u8, n@, 0u64)
}

/// The sort keys of baseline names.
pub open spec fn name_keys(names: Seq<String>) -> Seq<crate::sorting::KeyView> {
    names.map_values(|n: String| name_key(n))
}

/// Baseline names in the order of `str`.
pub fn sort_baseline_names(names: Vec<String>) -> (r: Vec<String>)
    ensures
        crate::sorting::sorted_by_keys(r@, names@, name_keys(names@), false),
{
    let mut keys: Vec<crate::sorting::SortKey> = Vec::new();
    let mut i: usize = 0;
    while i < names.len()
        invariant
            i <= names@.len(),
            crate::sorting::key_views(keys@) == name_keys(names@).take(i as int),
        decreases names@.len() - i,
    {
        let key = crate::sorting::SortKey {
            group: 0,
            text: chars_of(names[i].as_str()),
            number: 0,
        };
        assert(crate::sorting::key_view(key) == name_key(names@[i as int]));
        let ghost prev = keys@;
        keys.push(key);
        assert(crate::sorting::key_views(keys@) =~= crate::sorting::key_views(prev).push(
            crate::sorting::key_view(key),
        ));
        assert(crate::sorting::key_views(keys@) =~= name_keys(names@).take(i as int + 1));
        i = i + 1;
    }
    assert(name_keys(names@).take(i as int) =~= name_keys(names@));
    crate::sorting::sort_by_keys(names, &keys, false)
}

} // verus!
