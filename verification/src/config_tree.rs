//! A device configuration as a profile holds it: categories, each with its
//! settings, each setting a value. Stored as association lists whose names
//! are distinct; seen as a map from category name to a map from setting
//! name to value.
use vstd::prelude::*;
use crate::text::str_eq;

verus! {

/// Whether the list holds an entry named `k`.
pub open spec fn has_key<W>(s: Seq<(String, W)>, k: Seq<char>) -> bool {
    exists|i: int| 0 <= i < s.len() && (#[trigger] s[i]).0@ == k
}

/// The position of an entry named `k` (meaningful when there is one).
pub open spec fn key_at<W>(s: Seq<(String, W)>, k: Seq<char>) -> int {
    choose|i: int| 0 <= i < s.len() && (#[trigger] s[i]).0@ == k
}

/// No two entries of the list share a name.
pub open spec fn distinct_keys<W>(s: Seq<(String, W)>) -> bool {
    forall|i: int, j: int|
        0 <= i < s.len() && 0 <= j < s.len() && i != j ==> (#[trigger] s[i]).0@ != (#[trigger] s[j]).0@
}

/// The map that an association list stands for.
pub open spec fn assoc<W>(s: Seq<(String, W)>) -> Map<Seq<char>, W> {
    Map::new(|k: Seq<char>| has_key(s, k), |k: Seq<char>| s[key_at(s, k)].1)
}

/// The entry at `i` is what the map holds under its name.
pub proof fn lemma_assoc_at<W>(s: Seq<(String, W)>, i: int)
    requires
        distinct_keys(s),
        0 <= i < s.len(),
    ensures
        assoc(s).contains_key(s[i].0@),
        assoc(s)[s[i].0@] == s[i].1,
{
    let k = s[i].0@;
    assert(has_key(s, k));
    let j = key_at(s, k);
    assert(s[j].0@ == k);
    assert(j == i);
}

/// The empty list stands for the empty map.
pub proof fn lemma_assoc_empty<W>()
    ensures
        assoc(Seq::<(String, W)>::empty()) == Map::<Seq<char>, W>::empty(),
{
    assert(assoc(Seq::<(String, W)>::empty()) =~= Map::<Seq<char>, W>::empty());
}

/// Replacing the entry at `i` by one of the same name replaces its value
/// in the map.
pub proof fn lemma_assoc_update<W>(s: Seq<(String, W)>, i: int, name: String, w: W)
    requires
        distinct_keys(s),
        0 <= i < s.len(),
        name@ == s[i].0@,
    ensures
        distinct_keys(s.update(i, (name, w))),
        assoc(s.update(i, (name, w))) == assoc(s).insert(s[i].0@, w),
{
    let t = s.update(i, (name, w));
    let key = s[i].0@;
    assert(forall|j: int| 0 <= j < s.len() ==> (#[trigger] t[j]).0@ == s[j].0@);
    assert forall|a: int, b: int|
        0 <= a < t.len() && 0 <= b < t.len() && a != b implies (#[trigger] t[a]).0@ != (
    #[trigger] t[b]).0@ by {
        assert(t[a].0@ == s[a].0@);
        assert(t[b].0@ == s[b].0@);
    }
    let m = assoc(s).insert(key, w);
    assert forall|k: Seq<char>| #[trigger] assoc(t).contains_key(k) <==> m.contains_key(k) by {
        if has_key(t, k) {
            let j = choose|j: int| 0 <= j < t.len() && (#[trigger] t[j]).0@ == k;
            assert(s[j].0@ == k);
        }
        if has_key(s, k) {
            let j = choose|j: int| 0 <= j < s.len() && (#[trigger] s[j]).0@ == k;
            assert(t[j].0@ == k);
        }
        if k == key {
            assert(t[i].0@ == k);
        }
    }
    assert forall|k: Seq<char>| #[trigger] assoc(t).contains_key(k) implies assoc(t)[k] == m[k] by {
        let j = key_at(t, k);
        assert(t[j].0@ == k);
        if k == key {
            assert(j == i);
        } else {
            assert(j != i);
            assert(s[j].0@ == k);
            lemma_assoc_at(s, j);
        }
    }
    assert(assoc(t) =~= m);
}

/// Appending an entry under a new name adds it to the map.
pub proof fn lemma_assoc_push<W>(s: Seq<(String, W)>, k: String, w: W)
    requires
        distinct_keys(s),
        !has_key(s, k@),
    ensures
        distinct_keys(s.push((k, w))),
        assoc(s.push((k, w))) == assoc(s).insert(k@, w),
{
    let t = s.push((k, w));
    let n = s.len() as int;
    assert forall|a: int, b: int|
        0 <= a < t.len() && 0 <= b < t.len() && a != b implies (#[trigger] t[a]).0@ != (
    #[trigger] t[b]).0@ by {
        if a < n && b < n {
            assert(t[a] == s[a]);
            assert(t[b] == s[b]);
        } else if a < n {
            assert(t[a] == s[a]);
            assert(s[a].0@ != k@);
        } else {
            assert(t[b] == s[b]);
            assert(s[b].0@ != k@);
        }
    }
    let m = assoc(s).insert(k@, w);
    assert forall|q: Seq<char>| #[trigger] assoc(t).contains_key(q) <==> m.contains_key(q) by {
        if has_key(t, q) {
            let j = choose|j: int| 0 <= j < t.len() && (#[trigger] t[j]).0@ == q;
            if j < n {
                assert(t[j] == s[j]);
            }
        }
        if has_key(s, q) {
            let j = choose|j: int| 0 <= j < s.len() && (#[trigger] s[j]).0@ == q;
            assert(t[j] == s[j]);
        }
        if q == k@ {
            assert(t[n].0@ == q);
        }
    }
    assert forall|q: Seq<char>| #[trigger] assoc(t).contains_key(q) implies assoc(t)[q] == m[q] by {
        let j = key_at(t, q);
        assert(t[j].0@ == q);
        if q == k@ {
            if j < n {
                assert(t[j] == s[j]);
            }
            assert(j == n);
        } else {
            assert(j < n);
            assert(t[j] == s[j]);
            lemma_assoc_at(s, j);
        }
    }
    assert(assoc(t) =~= m);
}

/// Removing the entry at `i` removes its name from the map.
pub proof fn lemma_assoc_remove<W>(s: Seq<(String, W)>, i: int)
    requires
        distinct_keys(s),
        0 <= i < s.len(),
    ensures
        distinct_keys(s.remove(i)),
        assoc(s.remove(i)) == assoc(s).remove(s[i].0@),
{
    let t = s.remove(i);
    let key = s[i].0@;
    assert(forall|j: int| 0 <= j < i ==> #[trigger] t[j] == s[j]);
    assert(forall|j: int| i <= j < t.len() ==> #[trigger] t[j] == s[j + 1]);
    assert forall|a: int, b: int|
        0 <= a < t.len() && 0 <= b < t.len() && a != b implies (#[trigger] t[a]).0@ != (
    #[trigger] t[b]).0@ by {
        let sa = if a < i {
            a
        } else {
            a + 1
        };
        let sb = if b < i {
            b
        } else {
            b + 1
        };
        assert(t[a] == s[sa]);
        assert(t[b] == s[sb]);
    }
    let m = assoc(s).remove(key);
    assert forall|q: Seq<char>| #[trigger] assoc(t).contains_key(q) <==> m.contains_key(q) by {
        if has_key(t, q) {
            let j = choose|j: int| 0 <= j < t.len() && (#[trigger] t[j]).0@ == q;
            let sj = if j < i {
                j
            } else {
                j + 1
            };
            assert(t[j] == s[sj]);
            assert(s[sj].0@ == q);
            assert(sj != i);
        }
        if has_key(s, q) && q != key {
            let j = choose|j: int| 0 <= j < s.len() && (#[trigger] s[j]).0@ == q;
            assert(j != i);
            if j < i {
                assert(t[j] == s[j]);
            } else {
                assert(t[j - 1] == s[j]);
            }
        }
    }
    assert forall|q: Seq<char>| #[trigger] assoc(t).contains_key(q) implies assoc(t)[q] == m[q] by {
        let j = key_at(t, q);
        assert(t[j].0@ == q);
        let sj = if j < i {
            j
        } else {
            j + 1
        };
        assert(t[j] == s[sj]);
        lemma_assoc_at(s, sj);
    }
    assert(assoc(t) =~= m);
}

/// The position of the entry named `k`, if there is one.
pub fn find_key<W>(s: &Vec<(String, W)>, k: &str) -> (r: Option<usize>)
    ensures
        match r {
            Some(i) => i < s.len() && s@[i as int].0@ == k@,
            None => !has_key(s@, k@),
        },
{
    let mut i: usize = 0;
    while i < s.len()
        invariant
            i <= s.len(),
            forall|j: int| 0 <= j < i ==> (#[trigger] s@[j]).0@ != k@,
        decreases s.len() - i,
    {
        if str_eq(s[i].0.as_str(), k) {
            return Some(i);
        }
        i = i + 1;
    }
    None
}

/// A finite list with distinct names stands for a finite map with as many
/// names as the list has entries.
pub proof fn lemma_assoc_len<W>(s: Seq<(String, W)>)
    requires
        distinct_keys(s),
    ensures
        assoc(s).dom().finite(),
        assoc(s).dom().len() == s.len(),
    decreases s.len(),
{
    if s.len() == 0 {
        lemma_assoc_empty::<W>();
        assert(s =~= Seq::<(String, W)>::empty());
    } else {
        let init = s.drop_last();
        let last = s.last();
        assert(init.push(last) =~= s);
        assert(distinct_keys(init)) by {
            assert forall|a: int, b: int|
                0 <= a < init.len() && 0 <= b < init.len() && a != b implies (
            #[trigger] init[a]).0@ != (#[trigger] init[b]).0@ by {
                assert(init[a] == s[a]);
                assert(init[b] == s[b]);
            }
        }
        assert(!has_key(init, last.0@)) by {
            if has_key(init, last.0@) {
                let j = choose|j: int| 0 <= j < init.len() && (#[trigger] init[j]).0@ == last.0@;
                assert(init[j] == s[j]);
                assert(s[s.len() - 1] == last);
            }
        }
        lemma_assoc_len(init);
        lemma_assoc_push(init, last.0, last.1);
        assert(assoc(s).dom() =~= assoc(init).dom().insert(last.0@));
    }
}

/// A setting's value.
#[derive(Debug, Clone, PartialEq)]
pub enum ConfigValue {
    /// A string.
    Text(String),
    /// An integer.
    Integer(i64),
    /// A boolean.
    Flag(bool),
    /// A number that is not an `i64`, as its JSON text.
    Number(String),
    /// Any other value, as its JSON text.
    Json(String),
}

impl ConfigValue {
    /// The same value.
    pub fn duplicate(&self) -> (r: ConfigValue)
        ensures
            r == *self,
    {
        match self {
            ConfigValue::Text(t) => ConfigValue::Text(t.clone()),
            ConfigValue::Integer(n) => ConfigValue::Integer(*n),
            ConfigValue::Flag(b) => ConfigValue::Flag(*b),
            ConfigValue::Number(t) => ConfigValue::Number(t.clone()),
            ConfigValue::Json(t) => ConfigValue::Json(t.clone()),
        }
    }
}

/// A configuration: categories, each with its settings. Names are distinct
/// within each list (see `ConfigTree::well_formed`).
pub struct ConfigTree {
    pub categories: Vec<(String, Vec<(String, ConfigValue)>)>,
}

/// The settings of category `c`, or none where it is absent.
pub open spec fn settings_of(
    m: Map<Seq<char>, Map<Seq<char>, ConfigValue>>,
    c: Seq<char>,
) -> Map<Seq<char>, ConfigValue> {
    if m.contains_key(c) {
        m[c]
    } else {
        Map::empty()
    }
}

/// The number of settings over all categories of a list.
pub open spec fn settings_total(s: Seq<(String, Vec<(String, ConfigValue)>)>) -> nat
    decreases s.len(),
{
    if s.len() == 0 {
        0
    } else {
        settings_total(s.drop_last()) + s.last().1@.len()
    }
}

impl View for ConfigTree {
    type V = Map<Seq<char>, Map<Seq<char>, ConfigValue>>;

    open spec fn view(&self) -> Map<Seq<char>, Map<Seq<char>, ConfigValue>> {
        assoc(self.categories@).map_values(
            |items: Vec<(String, ConfigValue)>| assoc(items@),
        )
    }
}

impl ConfigTree {
    /// Category names are distinct, and setting names within each category.
    pub open spec fn well_formed(&self) -> bool {
        &&& distinct_keys(self.categories@)
        &&& forall|i: int|
            0 <= i < self.categories@.len() ==> distinct_keys((#[trigger] self.categories@[i]).1@)
    }

    /// An empty configuration.
    pub fn new() -> (t: ConfigTree)
        ensures
            t.well_formed(),
            t@ == Map::<Seq<char>, Map<Seq<char>, ConfigValue>>::empty(),
    {
        let t = ConfigTree { categories: Vec::new() };
        proof {
            lemma_assoc_empty::<Vec<(String, ConfigValue)>>();
            assert(t@ =~= Map::<Seq<char>, Map<Seq<char>, ConfigValue>>::empty());
        }
        t
    }

    /// The value of `key` in `category`, if it is set.
    pub fn get(&self, category: &str, key: &str) -> (r: Option<&ConfigValue>)
        requires
            self.well_formed(),
        ensures
            match r {
                Some(v) => self@.contains_key(category@) && self@[category@].contains_key(key@)
                    && *v == self@[category@][key@],
                None => !(self@.contains_key(category@) && self@[category@].contains_key(key@)),
            },
    {
        match find_key(&self.categories, category) {
            Some(i) => {
                proof {
                    lemma_assoc_at(self.categories@, i as int);
                }
                let items = &self.categories[i].1;
                match find_key(items, key) {
                    Some(j) => {
                        proof {
                            lemma_assoc_at(items@, j as int);
                        }
                        Some(&items[j].1)
                    },
                    None => None,
                }
            },
            None => None,
        }
    }

    /// Set `key` in `category` to `value`, adding the category where it is
    /// absent.
    pub fn set(&mut self, category: String, key: String, value: ConfigValue)
        requires
            old(self).well_formed(),
        ensures
            final(self).well_formed(),
            final(self)@ == with_setting(old(self)@, category@, key@, value),
    {
        let ghost before = self.categories@;
        match find_key(&self.categories, category.as_str()) {
            Some(i) => {
                let (name, mut items) = self.categories.remove(i);
                proof {
                    assert(before[i as int] == (name, items));
                    lemma_assoc_at(before, i as int);
                }
                let ghost old_items = items@;
                set_item(&mut items, key, value);
                self.categories.insert(i, (name, items));
                proof {
                    assert(self.categories@ =~= before.update(i as int, (name, items)));
                    lemma_assoc_update(before, i as int, name, items);
                    assert forall|j: int| 0 <= j < self.categories@.len() implies distinct_keys(
                        (#[trigger] self.categories@[j]).1@,
                    ) by {
                        if j != i {
                            assert(self.categories@[j] == before[j]);
                        }
                    }
                    assert(self@ =~= old(self)@.insert(
                        category@,
                        settings_of(old(self)@, category@).insert(key@, value),
                    ));
                }
            },
            None => {
                let mut items: Vec<(String, ConfigValue)> = Vec::new();
                let ghost k = key;
                items.push((key, value));
                proof {
                    lemma_assoc_empty::<ConfigValue>();
                    lemma_assoc_push(Seq::<(String, ConfigValue)>::empty(), k, value);
                    assert(items@ =~= Seq::<(String, ConfigValue)>::empty().push((k, value)));
                }
                let ghost c = category;
                self.categories.push((category, items));
                proof {
                    lemma_assoc_push(before, c, items);
                    assert forall|j: int| 0 <= j < self.categories@.len() implies distinct_keys(
                        (#[trigger] self.categories@[j]).1@,
                    ) by {
                        if j < before.len() {
                            assert(self.categories@[j] == before[j]);
                        }
                    }
                    assert(self@ =~= old(self)@.insert(
                        category@,
                        settings_of(old(self)@, category@).insert(key@, value),
                    ));
                }
            },
        }
    }

    /// Add `category` with no settings where it is absent.
    pub fn ensure_category(&mut self, category: String)
        requires
            old(self).well_formed(),
        ensures
            final(self).well_formed(),
            final(self)@ == if old(self)@.contains_key(category@) {
                old(self)@
            } else {
                old(self)@.insert(category@, Map::empty())
            },
    {
        let ghost before = self.categories@;
        match find_key(&self.categories, category.as_str()) {
            Some(i) => {
                proof {
                    lemma_assoc_at(before, i as int);
                }
            },
            None => {
                let items: Vec<(String, ConfigValue)> = Vec::new();
                let ghost c = category;
                self.categories.push((category, items));
                proof {
                    lemma_assoc_empty::<ConfigValue>();
                    lemma_assoc_push(before, c, items);
                    assert forall|j: int| 0 <= j < self.categories@.len() implies distinct_keys(
                        (#[trigger] self.categories@[j]).1@,
                    ) by {
                        if j < before.len() {
                            assert(self.categories@[j] == before[j]);
                        }
                    }
                    assert(self@ =~= old(self)@.insert(category@, Map::empty()));
                }
            },
        }
    }

    /// Remove `category` and its settings.
    pub fn remove_category(&mut self, category: &str)
        requires
            old(self).well_formed(),
        ensures
            final(self).well_formed(),
            final(self)@ == old(self)@.remove(category@),
    {
        let ghost before = self.categories@;
        match find_key(&self.categories, category) {
            Some(i) => {
                self.categories.remove(i);
                proof {
                    lemma_assoc_remove(before, i as int);
                    assert forall|j: int| 0 <= j < self.categories@.len() implies distinct_keys(
                        (#[trigger] self.categories@[j]).1@,
                    ) by {
                        if j < i {
                            assert(self.categories@[j] == before[j]);
                        } else {
                            assert(self.categories@[j] == before[j + 1]);
                        }
                    }
                    assert(self@ =~= old(self)@.remove(category@));
                }
            },
            None => {
                proof {
                    assert(self@ =~= old(self)@.remove(category@));
                }
            },
        }
    }

    /// Remove `key` from `category` (the category stays).
    pub fn remove_key(&mut self, category: &str, key: &str)
        requires
            old(self).well_formed(),
        ensures
            final(self).well_formed(),
            final(self)@ == without_setting(old(self)@, category@, key@),
    {
        let ghost before = self.categories@;
        match find_key(&self.categories, category) {
            Some(i) => {
                let (name, mut items) = self.categories.remove(i);
                proof {
                    assert(before[i as int] == (name, items));
                    lemma_assoc_at(before, i as int);
                }
                let ghost old_items = items@;
                match find_key(&items, key) {
                    Some(j) => {
                        items.remove(j);
                        proof {
                            lemma_assoc_remove(old_items, j as int);
                        }
                    },
                    None => {
                        proof {
                            assert(assoc(old_items).remove(key@) =~= assoc(old_items));
                        }
                    },
                }
                self.categories.insert(i, (name, items));
                proof {
                    assert(self.categories@ =~= before.update(i as int, (name, items)));
                    lemma_assoc_update(before, i as int, name, items);
                    assert forall|j: int| 0 <= j < self.categories@.len() implies distinct_keys(
                        (#[trigger] self.categories@[j]).1@,
                    ) by {
                        if j != i {
                            assert(self.categories@[j] == before[j]);
                        }
                    }
                    assert(self@ =~= old(self)@.insert(
                        category@,
                        old(self)@[category@].remove(key@),
                    ));
                }
            },
            None => {},
        }
    }

    /// The number of categories.
    pub fn category_count(&self) -> (n: usize)
        requires
            self.well_formed(),
        ensures
            self@.dom().finite(),
            n == self@.dom().len(),
    {
        proof {
            lemma_assoc_len(self.categories@);
            assert(self@.dom() =~= assoc(self.categories@).dom());
        }
        self.categories.len()
    }

    /// The number of settings over all categories (saturating at the
    /// largest `usize`).
    pub fn setting_count(&self) -> (n: usize)
        ensures
            n == if settings_total(self.categories@) <= usize::MAX {
                settings_total(self.categories@)
            } else {
                usize::MAX as nat
            },
    {
        let mut total: usize = 0;
        let mut i: usize = 0;
        while i < self.categories.len()
            invariant
                i <= self.categories@.len(),
                total == if settings_total(self.categories@.take(i as int)) <= usize::MAX {
                    settings_total(self.categories@.take(i as int))
                } else {
                    usize::MAX as nat
                },
            decreases self.categories@.len() - i,
        {
            proof {
                assert(self.categories@.take(i as int + 1).drop_last() =~= self.categories@.take(
                    i as int,
                ));
            }
            total = total.saturating_add(self.categories[i].1.len());
            i = i + 1;
        }
        proof {
            assert(self.categories@.take(i as int) =~= self.categories@);
        }
        total
    }

    /// Copy every setting of `category` in `baseline` into this
    /// configuration (over any value already set), adding the category
    /// where it is absent.
    pub fn copy_category_from(&mut self, baseline: &ConfigTree, category: String)
        requires
            old(self).well_formed(),
            baseline.well_formed(),
        ensures
            final(self).well_formed(),
            final(self)@ == old(self)@.insert(
                category@,
                settings_of(old(self)@, category@).union_prefer_right(
                    settings_of(baseline@, category@),
                ),
            ),
    {
        let ghost cat = category@;
        let ghost start = old(self)@;
        let name = category.clone();
        self.ensure_category(category);
        match find_key(&baseline.categories, name.as_str()) {
            Some(b) => {
                proof {
                    lemma_assoc_at(baseline.categories@, b as int);
                }
                let items = &baseline.categories[b].1;
                let ghost src = items@;
                let mut j: usize = 0;
                proof {
                    lemma_assoc_empty::<ConfigValue>();
                    assert(src.take(0) =~= Seq::<(String, ConfigValue)>::empty());
                    assert(settings_of(start, cat).union_prefer_right(Map::empty()) =~= settings_of(
                        start,
                        cat,
                    ));
                    assert(self@ =~= start.insert(
                        cat,
                        settings_of(start, cat).union_prefer_right(assoc(src.take(0))),
                    ));
                }
                while j < items.len()
                    invariant
                        j <= items@.len(),
                        src == items@,
                        distinct_keys(src),
                        name@ == cat,
                        self.well_formed(),
                        self@ == start.insert(
                            cat,
                            settings_of(start, cat).union_prefer_right(assoc(src.take(j as int))),
                        ),
                    decreases items@.len() - j,
                {
                    let k = items[j].0.clone();
                    let v = items[j].1.duplicate();
                    proof {
                        let pre = src.take(j as int);
                        assert(src.take(j as int + 1) =~= pre.push(src[j as int]));
                        assert(!has_key(pre, src[j as int].0@)) by {
                            if has_key(pre, src[j as int].0@) {
                                let w = choose|w: int|
                                    0 <= w < pre.len() && (#[trigger] pre[w]).0@ == src[j as int].0@;
                                assert(pre[w] == src[w]);
                            }
                        }
                        assert(distinct_keys(pre)) by {
                            assert forall|a: int, c: int|
                                0 <= a < pre.len() && 0 <= c < pre.len() && a != c implies (
                            #[trigger] pre[a]).0@ != (#[trigger] pre[c]).0@ by {
                                assert(pre[a] == src[a]);
                                assert(pre[c] == src[c]);
                            }
                        }
                        lemma_assoc_push(pre, src[j as int].0, src[j as int].1);
                    }
                    let ghost prev = self@;
                    self.set(name.clone(), k, v);
                    proof {
                        let pre = src.take(j as int);
                        assert(settings_of(prev, cat) == settings_of(start, cat).union_prefer_right(
                            assoc(pre),
                        ));
                        assert(settings_of(start, cat).union_prefer_right(assoc(pre)).insert(
                            k@,
                            v,
                        ) =~= settings_of(start, cat).union_prefer_right(
                            assoc(src.take(j as int + 1)),
                        ));
                        assert(self@ =~= start.insert(
                            cat,
                            settings_of(start, cat).union_prefer_right(
                                assoc(src.take(j as int + 1)),
                            ),
                        ));
                    }
                    j = j + 1;
                }
                proof {
                    assert(src.take(j as int) =~= src);
                }
            },
            None => {
                proof {
                    assert(settings_of(baseline@, cat) =~= Map::empty());
                    assert(settings_of(start, cat).union_prefer_right(Map::empty()) =~= settings_of(
                        start,
                        cat,
                    ));
                    assert(self@ =~= start.insert(
                        cat,
                        settings_of(start, cat).union_prefer_right(settings_of(baseline@, cat)),
                    ));
                }
            },
        }
    }
}

/// Set `key` to `value` in a list of settings.
fn set_item(items: &mut Vec<(String, ConfigValue)>, key: String, value: ConfigValue)
    requires
        distinct_keys(old(items)@),
    ensures
        distinct_keys(final(items)@),
        assoc(final(items)@) == assoc(old(items)@).insert(key@, value),
{
    let ghost before = items@;
    match find_key(items, key.as_str()) {
        Some(i) => {
            items.set(i, (key, value));
            proof {
                lemma_assoc_update(before, i as int, key, value);
            }
        },
        None => {
            let ghost k = key;
            items.push((key, value));
            proof {
                lemma_assoc_push(before, k, value);
            }
        },
    }
}

/// The configuration `m` with `key` of `category` set to `v` (what
/// `ConfigTree::set` makes of it).
pub open spec fn with_setting(
    m: Map<Seq<char>, Map<Seq<char>, ConfigValue>>,
    category: Seq<char>,
    key: Seq<char>,
    v: ConfigValue,
) -> Map<Seq<char>, Map<Seq<char>, ConfigValue>> {
    m.insert(category, settings_of(m, category).insert(key, v))
}

/// The configuration `m` without `key` of `category` (what
/// `ConfigTree::remove_key` makes of it).
pub open spec fn without_setting(
    m: Map<Seq<char>, Map<Seq<char>, ConfigValue>>,
    category: Seq<char>,
    key: Seq<char>,
) -> Map<Seq<char>, Map<Seq<char>, ConfigValue>> {
    if m.contains_key(category) {
        m.insert(category, m[category].remove(key))
    } else {
        m
    }
}

/// A setting reads back as the value it was set to, and every other
/// setting reads as before.
pub proof fn law_read_after_set(
    m: Map<Seq<char>, Map<Seq<char>, ConfigValue>>,
    category: Seq<char>,
    key: Seq<char>,
    v: ConfigValue,
    other_category: Seq<char>,
    other_key: Seq<char>,
)
    ensures
        with_setting(m, category, key, v).contains_key(category),
        with_setting(m, category, key, v)[category].contains_key(key),
        with_setting(m, category, key, v)[category][key] == v,
        (other_category != category || other_key != key) ==> {
            &&& settings_of(with_setting(m, category, key, v), other_category).contains_key(other_key)
                == settings_of(m, other_category).contains_key(other_key)
            &&& settings_of(m, other_category).contains_key(other_key) ==> settings_of(
                with_setting(m, category, key, v),
                other_category,
            )[other_key] == settings_of(m, other_category)[other_key]
        },
{
}

/// Setting a value twice leaves only the second.
pub proof fn law_set_twice(
    m: Map<Seq<char>, Map<Seq<char>, ConfigValue>>,
    category: Seq<char>,
    key: Seq<char>,
    first: ConfigValue,
    second: ConfigValue,
)
    ensures
        with_setting(with_setting(m, category, key, first), category, key, second)
            == with_setting(m, category, key, second),
{
    let a = with_setting(with_setting(m, category, key, first), category, key, second);
    let b = with_setting(m, category, key, second);
    assert(a[category] =~= b[category]);
    assert(a =~= b);
}

/// Removing a setting that was not there before it was set, in a category
/// that was, gives back the configuration as it was.
pub proof fn law_remove_undoes_set(
    m: Map<Seq<char>, Map<Seq<char>, ConfigValue>>,
    category: Seq<char>,
    key: Seq<char>,
    v: ConfigValue,
)
    requires
        m.contains_key(category),
        !m[category].contains_key(key),
    ensures
        without_setting(with_setting(m, category, key, v), category, key) == m,
{
    let a = without_setting(with_setting(m, category, key, v), category, key);
    assert(a[category] =~= m[category]);
    assert(a =~= m);
}

/// Removing a category that was added empty, where it was absent, gives
/// back the configuration as it was.
pub proof fn law_remove_category_undoes_add(
    m: Map<Seq<char>, Map<Seq<char>, ConfigValue>>,
    category: Seq<char>,
)
    requires
        !m.contains_key(category),
    ensures
        m.insert(category, Map::empty()).remove(category) == m,
{
    assert(m.insert(category, Map::empty()).remove(category) =~= m);
}

/// The settings a list of name/value pairs gives, a later pair winning
/// over an earlier one of the same name.
pub open spec fn pairs_map(s: Seq<(String, ConfigValue)>) -> Map<Seq<char>, ConfigValue>
    decreases s.len(),
{
    if s.len() == 0 {
        Map::empty()
    } else {
        pairs_map(s.drop_last()).insert(s.last().0@, s.last().1)
    }
}

impl ConfigTree {
    /// Make `category` hold exactly the settings of `pairs` (a later pair
    /// winning over an earlier one of the same name), replacing what it
    /// held.
    pub fn put_category(&mut self, category: String, pairs: &Vec<(String, ConfigValue)>)
        requires
            old(self).well_formed(),
        ensures
            final(self).well_formed(),
            final(self)@ == old(self)@.insert(category@, pairs_map(pairs@)),
    {
        let mut items: Vec<(String, ConfigValue)> = Vec::new();
        let mut i: usize = 0;
        proof {
            lemma_assoc_empty::<ConfigValue>();
            assert(pairs@.take(0) =~= Seq::<(String, ConfigValue)>::empty());
        }
        while i < pairs.len()
            invariant
                i <= pairs@.len(),
                distinct_keys(items@),
                assoc(items@) == pairs_map(pairs@.take(i as int)),
            decreases pairs@.len() - i,
        {
            let k = pairs[i].0.clone();
            let v = pairs[i].1.duplicate();
            set_item(&mut items, k, v);
            proof {
                assert(pairs@.take(i as int + 1).drop_last() =~= pairs@.take(i as int));
            }
            i = i + 1;
        }
        proof {
            assert(pairs@.take(i as int) =~= pairs@);
        }
        let ghost before = self.categories@;
        match find_key(&self.categories, category.as_str()) {
            Some(j) => {
                let ghost name = self.categories@[j as int].0;
                let ghost it = items;
                self.categories.set(j, (category, items));
                proof {
                    lemma_assoc_update(before, j as int, category, it);
                    assert forall|q: int| 0 <= q < self.categories@.len() implies distinct_keys(
                        (#[trigger] self.categories@[q]).1@,
                    ) by {
                        if q != j {
                            assert(self.categories@[q] == before[q]);
                        }
                    }
                    assert(self@ =~= old(self)@.insert(category@, pairs_map(pairs@)));
                }
            },
            None => {
                let ghost c = category;
                let ghost it = items;
                self.categories.push((category, items));
                proof {
                    lemma_assoc_push(before, c, it);
                    assert forall|q: int| 0 <= q < self.categories@.len() implies distinct_keys(
                        (#[trigger] self.categories@[q]).1@,
                    ) by {
                        if q < before.len() {
                            assert(self.categories@[q] == before[q]);
                        }
                    }
                    assert(self@ =~= old(self)@.insert(category@, pairs_map(pairs@)));
                }
            },
        }
    }
}

} // verus!
