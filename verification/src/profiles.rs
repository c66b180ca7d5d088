//! Named connection profiles: a list of profiles with unique names, one of
//! which is active.
use vstd::prelude::*;
use crate::text::str_eq;

verus! {

/// How to reach the device.
#[derive(Debug)]
pub struct ConnectionSettings {
    pub host: String,
    pub password: Option<String>,
}

/// Application settings kept in a profile.
#[derive(Debug)]
pub struct AppSettings {
    pub connection: ConnectionSettings,
}

/// The model of settings: host and optional password.
pub type SettingsView = (Seq<char>, Option<Seq<char>>);

/// The model of a profile: its name and its settings.
pub type ProfileView = (Seq<char>, SettingsView);

impl View for AppSettings {
    type V = SettingsView;

    open spec fn view(&self) -> SettingsView {
        (
            self.connection.host@,
            match self.connection.password {
                Some(p) => Some(p@),
                None => None,
            },
        )
    }
}

/// The settings of a new profile: no host, no password.
pub open spec fn default_settings() -> SettingsView {
    (Seq::empty(), None)
}

impl Default for AppSettings {
    fn default() -> (s: Self)
        ensures
            s@ == default_settings(),
    {
        AppSettings { connection: ConnectionSettings { host: String::new(), password: None } }
    }
}

/// A copy of the settings.
pub fn copy_settings(s: &AppSettings) -> (r: AppSettings)
    ensures
        r@ == s@,
{
    let password = match &s.connection.password {
        Some(p) => Some(p.clone()),
        None => None,
    };
    AppSettings { connection: ConnectionSettings { host: s.connection.host.clone(), password } }
}

/// A named configuration profile.
#[derive(Debug)]
pub struct Profile {
    pub name: String,
    pub settings: AppSettings,
}

impl View for Profile {
    type V = ProfileView;

    open spec fn view(&self) -> ProfileView {
        (self.name@, self.settings@)
    }
}

impl Profile {
    /// A profile with the given name and default settings.
    pub fn new(name: String) -> (p: Self)
        ensures
            p@ == (name@, default_settings()),
    {
        Profile { name, settings: AppSettings::default() }
    }
}

/// The models of a sequence of profiles.
pub open spec fn views(ps: Seq<Profile>) -> Seq<ProfileView> {
    ps.map_values(|p: Profile| p@)
}

/// The names of a sequence of profile models.
pub open spec fn names(ps: Seq<ProfileView>) -> Seq<Seq<char>> {
    ps.map_values(|p: ProfileView| p.0)
}

/// The characters of each string.
pub open spec fn string_views(v: Seq<String>) -> Seq<Seq<char>> {
    v.map_values(|s: String| s@)
}

/// Whether some profile is named `n`.
pub open spec fn has_name(ps: Seq<ProfileView>, n: Seq<char>) -> bool {
    exists|i: int| 0 <= i < ps.len() && ps[i].0 == n
}

/// Position of the first profile named `n`.
pub open spec fn index_of_name(ps: Seq<ProfileView>, n: Seq<char>) -> Option<int>
    decreases ps.len(),
{
    if ps.len() == 0 {
        None
    } else if ps[0].0 == n {
        Some(0)
    } else {
        match index_of_name(ps.drop_first(), n) {
            Some(i) => Some(i + 1),
            None => None,
        }
    }
}

/// No two profiles share a name.
pub open spec fn unique_names(ps: Seq<ProfileView>) -> bool {
    forall|i: int, j: int| 0 <= i < j < ps.len() ==> ps[i].0 != ps[j].0
}

/// `index_of_name` finds the first profile with the name, and finds one
/// exactly when there is one.
pub proof fn lemma_index_of_name(ps: Seq<ProfileView>, n: Seq<char>)
    ensures
        match index_of_name(ps, n) {
            Some(i) => 0 <= i < ps.len() && ps[i].0 == n && forall|j: int|
                0 <= j < i ==> ps[j].0 != n,
            None => forall|j: int| 0 <= j < ps.len() ==> ps[j].0 != n,
        },
        index_of_name(ps, n) is Some <==> has_name(ps, n),
    decreases ps.len(),
{
    if ps.len() > 0 {
        lemma_index_of_name(ps.drop_first(), n);
        if ps[0].0 != n {
            assert forall|j: int| 0 < j < ps.len() implies ps[j] == ps.drop_first()[j - 1] by {}
        }
    }
}

/// A position that holds the first profile named `n` is what
/// `index_of_name` gives.
proof fn lemma_index_of_name_at(ps: Seq<ProfileView>, n: Seq<char>, k: int)
    requires
        0 <= k < ps.len(),
        ps[k].0 == n,
        forall|j: int| 0 <= j < k ==> ps[j].0 != n,
    ensures
        index_of_name(ps, n) == Some(k),
{
    lemma_index_of_name(ps, n);
    match index_of_name(ps, n) {
        Some(i) => {
            if i < k {
            } else if i > k {
            }
        },
        None => {},
    }
}

/// Manages multiple configuration profiles.
#[derive(Debug)]
pub struct ProfileManager {
    pub profiles: Vec<Profile>,
    pub active_profile: String,
}

impl View for ProfileManager {
    type V = (Seq<ProfileView>, Seq<char>);

    open spec fn view(&self) -> (Seq<ProfileView>, Seq<char>) {
        (views(self.profiles@), self.active_profile@)
    }
}

/// Find the first profile named `name`.
fn position_of(profiles: &Vec<Profile>, name: &str) -> (r: Option<usize>)
    ensures
        match r {
            Some(i) => index_of_name(views(profiles@), name@) == Some(i as int),
            None => index_of_name(views(profiles@), name@) is None,
        },
{
    let ghost ps = views(profiles@);
    let mut i: usize = 0;
    while i < profiles.len()
        invariant
            i <= profiles@.len(),
            ps == views(profiles@),
            forall|j: int| 0 <= j < i ==> ps[j].0 != name@,
        decreases profiles@.len() - i,
    {
        if str_eq(profiles[i].name.as_str(), name) {
            proof {
                lemma_index_of_name_at(ps, name@, i as int);
            }
            return Some(i);
        }
        i = i + 1;
    }
    proof {
        lemma_index_of_name(ps, name@);
    }
    None
}

/// A copy of a profile.
fn copy_profile(p: &Profile) -> (r: Profile)
    ensures
        r@ == p@,
{
    Profile { name: p.name.clone(), settings: copy_settings(&p.settings) }
}

impl Default for ProfileManager {
    fn default() -> (m: Self)
        ensures
            m@ == (seq![("Default"@, default_settings())], "Default"@),
            m.well_formed(),
    {
        let mut profiles: Vec<Profile> = Vec::new();
        profiles.push(Profile::new(String::from_str("Default")));
        let m = ProfileManager { profiles, active_profile: String::from_str("Default") };
        assert(views(m.profiles@) =~= seq![("Default"@, default_settings())]);
        assert(m.profiles_view()[0].0 == m.active_profile@);
        m
    }
}

impl ProfileManager {
    /// The profile models.
    pub open spec fn profiles_view(&self) -> Seq<ProfileView> {
        views(self.profiles@)
    }

    /// A well-formed manager: at least one profile, unique names, and the
    /// active name names one of them.
    pub open spec fn well_formed(&self) -> bool {
        &&& self.profiles@.len() > 0
        &&& unique_names(self.profiles_view())
        &&& has_name(self.profiles_view(), self.active_profile@)
    }

    /// Position of the profile whose settings are in effect: the first with
    /// the active name, else the first profile.
    pub open spec fn active_index(&self) -> int {
        match index_of_name(self.profiles_view(), self.active_profile@) {
            Some(i) => i,
            None => 0,
        }
    }

    /// The manager that loading starts from: the stored one when it could
    /// be read; else the default one, whose profile takes over the legacy
    /// settings when those could be read.
    pub fn load(stored: Option<ProfileManager>, legacy: Option<AppSettings>) -> (m: Self)
        ensures
            match stored {
                Some(s) => m@ == s@,
                None => m@ == Self::migrated(
                    match legacy {
                        Some(l) => Some(l@),
                        None => None,
                    },
                ),
            },
    {
        match stored {
            Some(s) => s,
            None => Self::migrate_from_legacy(legacy),
        }
    }

    /// The manager migrated from legacy settings, as a model.
    pub open spec fn migrated(legacy: Option<SettingsView>) -> (Seq<ProfileView>, Seq<char>) {
        match legacy {
            Some(l) => (seq![("Default"@, l)], "Default"@),
            None => (seq![("Default"@, default_settings())], "Default"@),
        }
    }

    /// The default manager, with the legacy settings (if any) moved into
    /// its one profile.
    pub fn migrate_from_legacy(legacy: Option<AppSettings>) -> (m: Self)
        ensures
            m@ == Self::migrated(
                match legacy {
                    Some(l) => Some(l@),
                    None => None,
                },
            ),
            m.well_formed(),
    {
        match legacy {
            Some(settings) => {
                let mut profiles: Vec<Profile> = Vec::new();
                profiles.push(Profile { name: String::from_str("Default"), settings });
                let m = ProfileManager { profiles, active_profile: String::from_str("Default") };
                assert(views(m.profiles@) =~= seq![("Default"@, settings@)]);
                assert(m.profiles_view()[0].0 == m.active_profile@);
                m
            },
            None => Self::default(),
        }
    }

    /// The settings in effect: those of the first profile with the active
    /// name, else those of the first profile.
    pub fn active_settings(&self) -> (s: &AppSettings)
        requires
            self.profiles@.len() > 0,
        ensures
            *s == self.profiles@[self.active_index()].settings,
    {
        proof {
            lemma_index_of_name(self.profiles_view(), self.active_profile@);
        }
        match position_of(&self.profiles, self.active_profile.as_str()) {
            Some(i) => &self.profiles[i].settings,
            None => &self.profiles[0].settings,
        }
    }

    /// Mutable access to the settings in effect (see `active_settings`).
    pub fn active_settings_mut(&mut self) -> (s: &mut AppSettings)
        requires
            old(self).profiles@.len() > 0,
        ensures
            *s == old(self).profiles@[old(self).active_index()].settings,
            final(self).active_profile == old(self).active_profile,
            final(self).profiles@ == old(self).profiles@.update(
                old(self).active_index(),
                Profile {
                    name: old(self).profiles@[old(self).active_index()].name,
                    settings: *final(s),
                },
            ),
    {
        proof {
            lemma_index_of_name(self.profiles_view(), self.active_profile@);
        }
        let index = match position_of(&self.profiles, self.active_profile.as_str()) {
            Some(i) => i,
            None => 0,
        };
        &mut self.profiles[index].settings
    }

    /// The names of all profiles, in order.
    pub fn profile_names(&self) -> (r: Vec<String>)
        ensures
            string_views(r@) == names(self.profiles_view()),
    {
        let mut r: Vec<String> = Vec::new();
        let mut i: usize = 0;
        while i < self.profiles.len()
            invariant
                i <= self.profiles@.len(),
                string_views(r@) == names(self.profiles_view()).take(i as int),
            decreases self.profiles@.len() - i,
        {
            let ghost prev = r@;
            r.push(self.profiles[i].name.clone());
            assert(string_views(r@) =~= string_views(prev).push(self.profiles@[i as int].name@));
            assert(names(self.profiles_view())[i as int] == self.profiles@[i as int].name@);
            assert(string_views(r@) =~= names(self.profiles_view()).take(
                i as int + 1,
            ));
            i = i + 1;
        }
        assert(names(self.profiles_view()).take(i as int) =~= names(self.profiles_view()));
        r
    }

    /// Add a profile with default settings; refused (`false`, nothing
    /// changed) when the name is taken.
    pub fn add_profile(&mut self, name: String) -> (added: bool)
        ensures
            added == !has_name(old(self).profiles_view(), name@),
            added ==> final(self).profiles_view() == old(self).profiles_view().push(
                (name@, default_settings()),
            ),
            !added ==> final(self)@ == old(self)@,
            final(self).active_profile@ == old(self).active_profile@,
            old(self).well_formed() ==> final(self).well_formed(),
    {
        proof {
            lemma_index_of_name(self.profiles_view(), name@);
        }
        if position_of(&self.profiles, name.as_str()).is_some() {
            return false;
        }
        let ghost before = self.profiles_view();
        let ghost n = name@;
        self.profiles.push(Profile::new(name));
        assert(self.profiles_view() =~= before.push((n, default_settings())));
        proof {
            if has_name(before, self.active_profile@) {
                let k = choose|k: int| 0 <= k < before.len() && before[k].0 == self.active_profile@;
                assert(self.profiles_view()[k] == before[k]);
            }
        }
        true
    }

    /// Add a copy of the first profile named `source_name` under
    /// `new_name`; refused when `new_name` is taken or no profile is named
    /// `source_name`.
    pub fn duplicate_profile(&mut self, source_name: &str, new_name: String) -> (added: bool)
        ensures
            added == (!has_name(old(self).profiles_view(), new_name@) && has_name(
                old(self).profiles_view(),
                source_name@,
            )),
            added ==> final(self).profiles_view() == old(self).profiles_view().push(
                (
                    new_name@,
                    old(self).profiles_view()[index_of_name(
                        old(self).profiles_view(),
                        source_name@,
                    )->0].1,
                ),
            ),
            !added ==> final(self)@ == old(self)@,
            final(self).active_profile@ == old(self).active_profile@,
            old(self).well_formed() ==> final(self).well_formed(),
    {
        proof {
            lemma_index_of_name(self.profiles_view(), new_name@);
            lemma_index_of_name(self.profiles_view(), source_name@);
        }
        if position_of(&self.profiles, new_name.as_str()).is_some() {
            return false;
        }
        match position_of(&self.profiles, source_name) {
            Some(i) => {
                let ghost before = self.profiles_view();
                let ghost n = new_name@;
                let settings = copy_settings(&self.profiles[i].settings);
                self.profiles.push(Profile { name: new_name, settings });
                assert(self.profiles_view() =~= before.push((n, before[i as int].1)));
                proof {
                    if has_name(before, self.active_profile@) {
                        let k = choose|k: int|
                            0 <= k < before.len() && before[k].0 == self.active_profile@;
                        assert(self.profiles_view()[k] == before[k]);
                    }
                }
                true
            },
            None => false,
        }
    }

    /// Remove every profile named `name`; refused when only one profile is
    /// left or `name` is the active profile.
    pub fn delete_profile(&mut self, name: &str) -> (deleted: bool)
        ensures
            deleted == (old(self).profiles@.len() > 1 && name@ != old(self).active_profile@),
            deleted ==> final(self).profiles_view() == old(self).profiles_view().filter(
                |p: ProfileView| p.0 != name@,
            ),
            deleted ==> !has_name(final(self).profiles_view(), name@),
            !deleted ==> final(self)@ == old(self)@,
            final(self).active_profile@ == old(self).active_profile@,
            old(self).well_formed() ==> final(self).well_formed(),
    {
        if self.profiles.len() <= 1 || str_eq(name, self.active_profile.as_str()) {
            return false;
        }
        let ghost before = self.profiles_view();
        let ghost pred = |p: ProfileView| p.0 != name@;
        let mut kept: Vec<Profile> = Vec::new();
        let mut i: usize = 0;
        while i < self.profiles.len()
            invariant
                i <= self.profiles@.len(),
                before == self.profiles_view(),
                pred == (|p: ProfileView| p.0 != name@),
                views(kept@) == before.take(i as int).filter(pred),
            decreases self.profiles@.len() - i,
        {
            let keep = !str_eq(self.profiles[i].name.as_str(), name);
            let ghost prev = views(kept@);
            if keep {
                kept.push(copy_profile(&self.profiles[i]));
                assert(views(kept@) =~= prev.push(before[i as int]));
            } else {
                assert(views(kept@) =~= prev);
            }
            proof {
                reveal(Seq::filter);
                assert(before.take(i as int + 1).drop_last() =~= before.take(i as int));
            }
            i = i + 1;
        }
        assert(before.take(i as int) =~= before);
        self.profiles = kept;
        proof {
            let after = self.profiles_view();
            assert forall|j: int| 0 <= j < after.len() implies after[j].0 != name@ by {
                before.lemma_filter_pred(pred, j);
            }
            assert forall|a: int, b: int| 0 <= a < b < after.len() && unique_names(
                before,
            ) implies after[a].0 != after[b].0 by {
                // The filtered sequence is a subsequence of the original.
                lemma_filter_subsequence(before, pred, a, b);
            }
            if has_name(before, self.active_profile@) {
                let k = choose|k: int| 0 <= k < before.len() && before[k].0 == self.active_profile@;
                before.lemma_filter_contains(pred, k);
                let m = choose|m: int| 0 <= m < after.len() && after[m] == before[k];
                assert(after[m].0 == self.active_profile@);
            }
        }
        true
    }

    /// Rename the first profile named `old_name` to `new_name`, moving the
    /// active name along; refused when `new_name` is taken or no profile is
    /// named `old_name`.
    pub fn rename_profile(&mut self, old_name: &str, new_name: String) -> (renamed: bool)
        ensures
            renamed == (!has_name(old(self).profiles_view(), new_name@) && has_name(
                old(self).profiles_view(),
                old_name@,
            )),
            renamed ==> {
                let k = index_of_name(old(self).profiles_view(), old_name@)->0;
                &&& final(self).profiles_view() == old(self).profiles_view().update(
                    k,
                    (new_name@, old(self).profiles_view()[k].1),
                )
                &&& final(self).active_profile@ == (if old(self).active_profile@ == old_name@ {
                    new_name@
                } else {
                    old(self).active_profile@
                })
            },
            !renamed ==> final(self)@ == old(self)@,
            old(self).well_formed() ==> final(self).well_formed(),
    {
        proof {
            lemma_index_of_name(self.profiles_view(), new_name@);
            lemma_index_of_name(self.profiles_view(), old_name@);
        }
        if position_of(&self.profiles, new_name.as_str()).is_some() {
            return false;
        }
        match position_of(&self.profiles, old_name) {
            Some(k) => {
                let ghost before = self.profiles_view();
                let ghost act = self.active_profile@;
                if str_eq(self.active_profile.as_str(), old_name) {
                    self.active_profile = new_name.clone();
                }
                let settings = copy_settings(&self.profiles[k].settings);
                let ghost sv = settings@;
                let ghost n = new_name@;
                self.profiles.set(k, Profile { name: new_name, settings });
                assert(self.profiles_view() =~= before.update(k as int, (n, before[k as int].1)));
                proof {
                    let after = self.profiles_view();
                    if has_name(before, act) {
                        let w = choose|w: int| 0 <= w < before.len() && before[w].0 == act;
                        if act == old_name@ {
                            assert(after[k as int].0 == self.active_profile@);
                        } else {
                            assert(w != k);
                            assert(after[w].0 == self.active_profile@);
                        }
                    }
                    if unique_names(before) {
                        assert forall|a: int, b: int| 0 <= a < b < after.len() implies after[a].0
                            != after[b].0 by {
                            if a == k {
                                assert(before[b].0 != n);
                            } else if b == k {
                                assert(before[a].0 != n);
                            }
                        }
                    }
                }
                true
            },
            None => false,
        }
    }

    /// Make `name` the active profile; refused when no profile has it.
    pub fn switch_profile(&mut self, name: &str) -> (switched: bool)
        ensures
            switched == has_name(old(self).profiles_view(), name@),
            switched ==> final(self).active_profile@ == name@,
            !switched ==> final(self)@ == old(self)@,
            final(self).profiles@ == old(self).profiles@,
            old(self).well_formed() ==> final(self).well_formed(),
    {
        proof {
            lemma_index_of_name(self.profiles_view(), name@);
        }
        if position_of(&self.profiles, name).is_some() {
            self.active_profile = name.to_owned();
            true
        } else {
            false
        }
    }
}

/// Two positions of a filtered sequence come from two positions of the
/// original in the same order.
proof fn lemma_filter_subsequence(
    s: Seq<ProfileView>,
    pred: spec_fn(ProfileView) -> bool,
    a: int,
    b: int,
)
    requires
        0 <= a < b < s.filter(pred).len(),
        unique_names(s),
    ensures
        s.filter(pred)[a].0 != s.filter(pred)[b].0,
    decreases s.len(),
{
    reveal(Seq::filter);
    let f = s.filter(pred);
    let rest = s.drop_last().filter(pred);
    assert(unique_names(s.drop_last()));
    if pred(s.last()) && b == f.len() - 1 {
        assert(f =~= rest.push(s.last()));
        assert(f[a] == rest[a]);
        lemma_filter_member(s.drop_last(), pred, a);
        let i = choose|i: int| 0 <= i < s.drop_last().len() && s.drop_last()[i] == rest[a];
        assert(s[i] == f[a]);
        assert(f[b] == s[s.len() - 1]);
    } else {
        assert(b < rest.len());
        assert(f[a] == rest[a]);
        assert(f[b] == rest[b]);
        lemma_filter_subsequence(s.drop_last(), pred, a, b);
    }
}

/// Every element of a filtered sequence occurs in the original.
proof fn lemma_filter_member(s: Seq<ProfileView>, pred: spec_fn(ProfileView) -> bool, a: int)
    requires
        0 <= a < s.filter(pred).len(),
    ensures
        exists|i: int| 0 <= i < s.len() && s[i] == s.filter(pred)[a],
{
    s.lemma_filter_contains_rev(pred, s.filter(pred)[a]);
    assert(s.filter(pred).contains(s.filter(pred)[a]));
}

} // verus!
