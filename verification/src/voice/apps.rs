//! The table of launchable applications: built-in names, overridden or
//! extended by the user's configuration, and the lookup of a spoken name.
use crate::text::{chars_eq, chars_of, contains, trim_vec};
use vstd::prelude::*;

verus! {

/// The built-in table, name then command.
pub open spec fn builtin_table() -> Seq<(&'static str, &'static str)> {
    seq![
        ("计算器", "calc.exe"),
        ("记事本", "notepad.exe"),
        ("画图", "mspaint.exe"),
        ("控制面板", "control"),
        ("我的电脑", "explorer"),
        ("命令提示符", "cmd"),
        ("回收站", "explorer shell:RecycleBinFolder"),
        ("音乐", "wmplayer.exe"),
        ("媒体播放器", "wmplayer.exe"),
    ]
}

/// The built-in applications (name → command or path).
pub fn builtin_apps() -> (res: Vec<(&'static str, &'static str)>)
    ensures
        res@ == builtin_table(),
{
    let v = vec![
        ("计算器", "calc.exe"),
        ("记事本", "notepad.exe"),
        ("画图", "mspaint.exe"),
        ("控制面板", "control"),
        ("我的电脑", "explorer"),
        ("命令提示符", "cmd"),
        ("回收站", "explorer shell:RecycleBinFolder"),
        ("音乐", "wmplayer.exe"),
        ("媒体播放器", "wmplayer.exe"),
    ];
    assert(v@ =~= builtin_table());
    v
}

/// An application table: names with their commands, each name once, in the
/// order in which they were first entered.
pub struct AppMap {
    entries: Vec<(String, String)>,
}

/// The position of the entry named `k`, searching from `i`.
pub open spec fn key_index_from(e: Seq<(Seq<char>, Seq<char>)>, k: Seq<char>, i: int) -> Option<
    int,
>
    decreases e.len() - i,
{
    if i < 0 || i >= e.len() {
        None
    } else if e[i].0 == k {
        Some(i)
    } else {
        key_index_from(e, k, i + 1)
    }
}

/// The command under the name `k`.
pub open spec fn lookup(e: Seq<(Seq<char>, Seq<char>)>, k: Seq<char>) -> Option<Seq<char>> {
    match key_index_from(e, k, 0) {
        Some(i) => Some(e[i].1),
        None => None,
    }
}

/// The position of the first entry, from `i` on, whose name occurs in `n`.
pub open spec fn contained_index_from(
    e: Seq<(Seq<char>, Seq<char>)>,
    n: Seq<char>,
    i: int,
) -> Option<int>
    decreases e.len() - i,
{
    if i < 0 || i >= e.len() {
        None
    } else if crate::text::has_sub(n, e[i].0) {
        Some(i)
    } else {
        contained_index_from(e, n, i + 1)
    }
}

pub open spec fn distinct_keys(e: Seq<(Seq<char>, Seq<char>)>) -> bool {
    forall|i: int, j: int| 0 <= i < j < e.len() ==> e[i].0 != e[j].0
}

/// The table with `k` set to `v`: replaced in place when `k` is there,
/// added at the end otherwise.
pub open spec fn with_entry(e: Seq<(Seq<char>, Seq<char>)>, k: Seq<char>, v: Seq<char>) -> Seq<
    (Seq<char>, Seq<char>),
> {
    match key_index_from(e, k, 0) {
        Some(i) => e.update(i, (k, v)),
        None => e.push((k, v)),
    }
}

proof fn lemma_key_index_from(e: Seq<(Seq<char>, Seq<char>)>, k: Seq<char>, i: int)
    requires
        0 <= i,
    ensures
        key_index_from(e, k, i) matches Some(j) ==> i <= j < e.len() && e[j].0 == k && forall|
            m: int,
        |
            i <= m < j ==> e[m].0 != k,
        key_index_from(e, k, i) is None ==> forall|m: int| i <= m < e.len() ==> e[m].0 != k,
    decreases e.len() - i,
{
    if i < e.len() && e[i].0 != k {
        lemma_key_index_from(e, k, i + 1);
    }
}

proof fn lemma_contained_index_from(e: Seq<(Seq<char>, Seq<char>)>, n: Seq<char>, i: int)
    requires
        0 <= i,
    ensures
        contained_index_from(e, n, i) matches Some(j) ==> i <= j < e.len()
            && crate::text::has_sub(n, e[j].0) && forall|m: int|
            i <= m < j ==> !crate::text::has_sub(n, #[trigger] e[m].0),
        contained_index_from(e, n, i) is None ==> forall|m: int|
            i <= m < e.len() ==> !crate::text::has_sub(n, #[trigger] e[m].0),
    decreases e.len() - i,
{
    if i < e.len() && !crate::text::has_sub(n, e[i].0) {
        lemma_contained_index_from(e, n, i + 1);
    }
}

impl AppMap {
    /// The entries, as names and commands.
    pub closed spec fn view(&self) -> Seq<(Seq<char>, Seq<char>)> {
        self.entries@.map_values(|p: (String, String)| (p.0@, p.1@))
    }

    pub closed spec fn wf(&self) -> bool {
        distinct_keys(self.view())
    }

    pub fn new() -> (res: AppMap)
        ensures
            res.wf(),
            res.view() == Seq::<(Seq<char>, Seq<char>)>::empty(),
    {
        let res = AppMap { entries: Vec::new() };
        assert(res.view() =~= Seq::<(Seq<char>, Seq<char>)>::empty());
        res
    }

    /// The number of names.
    pub fn len(&self) -> (res: usize)
        ensures
            res == self.view().len(),
    {
        self.entries.len()
    }

    fn index_of(&self, key: &Vec<char>) -> (res: Option<usize>)
        ensures
            match res {
                Some(i) => key_index_from(self.view(), key@, 0) == Some(i as int),
                None => key_index_from(self.view(), key@, 0) is None,
            },
    {
        let mut i: usize = 0;
        while i < self.entries.len()
            invariant
                i <= self.entries.len(),
                key_index_from(self.view(), key@, 0) == key_index_from(self.view(), key@, i as int),
            decreases self.entries.len() - i,
        {
            let k = chars_of(self.entries[i].0.as_str());
            assert(self.view()[i as int].0 == self.entries@[i as int].0@);
            if chars_eq(&k, key) {
                return Some(i);
            }
            i = i + 1;
        }
        None
    }

    /// Sets `key` to `value`, replacing an earlier command for `key`.
    pub fn insert(&mut self, key: String, value: String)
        requires
            old(self).wf(),
        ensures
            final(self).wf(),
            final(self).view() == with_entry(old(self).view(), key@, value@),
    {
        let kv = chars_of(key.as_str());
        proof {
            lemma_key_index_from(self.view(), key@, 0);
        }
        match self.index_of(&kv) {
            Some(i) => {
                self.entries.set(i, (key, value));
                assert(self.view() =~= old(self).view().update(i as int, (kv@, value@)));
            },
            None => {
                self.entries.push((key, value));
                assert(self.view() =~= old(self).view().push((kv@, value@)));
            },
        }
    }

    /// The command under `key`.
    pub fn get(&self, key: &str) -> (res: Option<&String>)
        ensures
            match res {
                Some(v) => lookup(self.view(), key@) == Some(v@),
                None => lookup(self.view(), key@) is None,
            },
    {
        let kv = chars_of(key);
        match self.index_of(&kv) {
            Some(i) => {
                proof {
                    lemma_key_index_from(self.view(), key@, 0);
                }
                assert(self.view()[i as int].1 == self.entries@[i as int].1@);
                Some(&self.entries[i].1)
            },
            None => None,
        }
    }

    /// Whether `key` has a command.
    pub fn contains_key(&self, key: &str) -> (res: bool)
        ensures
            res == (lookup(self.view(), key@) is Some),
    {
        self.get(key).is_some()
    }
}

/// The table of `apps` entered in order, a later entry replacing an
/// earlier one of the same name.
pub open spec fn entered(apps: Seq<(Seq<char>, Seq<char>)>) -> Seq<(Seq<char>, Seq<char>)>
    decreases apps.len(),
{
    if apps.len() == 0 {
        Seq::empty()
    } else {
        with_entry(entered(apps.drop_last()), apps.last().0, apps.last().1)
    }
}

/// The built-in table as names and commands.
pub open spec fn builtin_entries() -> Seq<(Seq<char>, Seq<char>)> {
    builtin_table().map_values(|p: (&'static str, &'static str)| (p.0@, p.1@))
}

/// The merged table: the built-in applications, then each configured
/// `(name, command)` in order, replacing a built-in command of that name or
/// adding a new name.
pub fn app_map(overrides: &Vec<(String, String)>) -> (res: AppMap)
    ensures
        res.wf(),
        res.view() == entered(
            builtin_entries() + overrides@.map_values(|p: (String, String)| (p.0@, p.1@)),
        ),
{
    let builtin = builtin_apps();
    let mut map = AppMap::new();
    let ghost all = builtin_entries() + overrides@.map_values(
        |p: (String, String)| (p.0@, p.1@),
    );
    let mut i: usize = 0;
    while i < builtin.len()
        invariant
            builtin@ == builtin_table(),
            i <= builtin.len(),
            all == builtin_entries() + overrides@.map_values(|p: (String, String)| (p.0@, p.1@)),
            map.wf(),
            map.view() == entered(all.subrange(0, i as int)),
        decreases builtin.len() - i,
    {
        let (k, v) = builtin[i];
        map.insert(k.to_string(), v.to_string());
        assert(all.subrange(0, i + 1).drop_last() =~= all.subrange(0, i as int));
        assert(all[i as int] == (k@, v@));
        i = i + 1;
    }
    let mut j: usize = 0;
    while j < overrides.len()
        invariant
            builtin@ == builtin_table(),
            builtin.len() == builtin_entries().len(),
            j <= overrides.len(),
            all == builtin_entries() + overrides@.map_values(|p: (String, String)| (p.0@, p.1@)),
            map.wf(),
            map.view() == entered(all.subrange(0, builtin.len() + j)),
        decreases overrides.len() - j,
    {
        map.insert(overrides[j].0.clone(), overrides[j].1.clone());
        assert(all.subrange(0, builtin.len() + j + 1).drop_last() =~= all.subrange(
            0,
            builtin.len() + j,
        ));
        j = j + 1;
    }
    assert(all.subrange(0, all.len() as int) =~= all);
    map
}

/// What `resolve_app` finds for the spoken name `name`: the command under
/// the trimmed name; failing that, the command of the first name in the
/// table that the trimmed name contains.
pub open spec fn resolved(e: Seq<(Seq<char>, Seq<char>)>, name: Seq<char>) -> Option<Seq<char>> {
    let n = crate::text::trim(name);
    match lookup(e, n) {
        Some(v) => Some(v),
        None => match contained_index_from(e, n, 0) {
            Some(i) => Some(e[i].1),
            None => None,
        },
    }
}

pub fn resolve_app<'a>(map: &'a AppMap, name: &str) -> (res: Option<&'a String>)
    ensures
        match res {
            Some(v) => resolved(map.view(), name@) == Some(v@),
            None => resolved(map.view(), name@) is None,
        },
{
    let nv = chars_of(name);
    let n = trim_vec(&nv);
    let found = map.index_of(&n);
    if let Some(i) = found {
        proof {
            lemma_key_index_from(map.view(), n@, 0);
        }
        assert(map.view()[i as int].1 == map.entries@[i as int].1@);
        return Some(&map.entries[i].1);
    }
    assert(lookup(map.view(), n@) is None);
    let mut i: usize = 0;
    while i < map.entries.len()
        invariant
            i <= map.entries.len(),
            n@ == crate::text::trim(name@),
            lookup(map.view(), n@) is None,
            contained_index_from(map.view(), n@, 0) == contained_index_from(
                map.view(),
                n@,
                i as int,
            ),
        decreases map.entries.len() - i,
    {
        let k = chars_of(map.entries[i].0.as_str());
        assert(map.view()[i as int] == (map.entries@[i as int].0@, map.entries@[i as int].1@));
        if contains(&n, &k) {
            assert(contained_index_from(map.view(), n@, i as int) == Some(i as int));
            return Some(&map.entries[i].1);
        }
        i = i + 1;
    }
    None
}


/// Setting a name gives the name its new command, leaves every other name
/// as it was, and keeps each name once.
pub proof fn law_insert_then_lookup(
    e: Seq<(Seq<char>, Seq<char>)>,
    k: Seq<char>,
    v: Seq<char>,
    other: Seq<char>,
)
    requires
        distinct_keys(e),
    ensures
        lookup(with_entry(e, k, v), k) == Some(v),
        other != k ==> lookup(with_entry(e, k, v), other) == lookup(e, other),
        distinct_keys(with_entry(e, k, v)),
{
    lemma_key_index_from(e, k, 0);
    lemma_key_index_from(e, other, 0);
    let n = with_entry(e, k, v);
    lemma_key_index_from(n, k, 0);
    lemma_key_index_from(n, other, 0);
    match key_index_from(e, k, 0) {
        Some(i) => {
            assert(n[i].0 == k);
            if key_index_from(n, k, 0) != Some(i) {
                let j = key_index_from(n, k, 0)->0;
                assert(j < i ==> n[j] == e[j]);
            }
            assert(key_index_from(n, k, 0) == Some(i));
            if other != k {
                match key_index_from(e, other, 0) {
                    Some(j) => {
                        assert(n[j] == e[j]);
                        if key_index_from(n, other, 0) != Some(j) {
                            let q = key_index_from(n, other, 0)->0;
                            assert(q != i ==> n[q] == e[q]);
                        }
                    },
                    None => {
                        if key_index_from(n, other, 0) is Some {
                            let q = key_index_from(n, other, 0)->0;
                            assert(q != i ==> n[q] == e[q]);
                        }
                    },
                }
            }
            assert forall|a: int, b: int| 0 <= a < b < n.len() implies n[a].0 != n[b].0 by {
                if a != i && b != i {
                    assert(n[a] == e[a] && n[b] == e[b]);
                } else if a == i {
                    assert(n[b] == e[b]);
                } else {
                    assert(n[a] == e[a]);
                }
            }
        },
        None => {
            assert(n[e.len() as int].0 == k);
            if key_index_from(n, k, 0) != Some(e.len() as int) {
                let j = key_index_from(n, k, 0)->0;
                assert(j < e.len() ==> n[j] == e[j]);
            }
            if other != k {
                match key_index_from(e, other, 0) {
                    Some(j) => {
                        assert(n[j] == e[j]);
                        if key_index_from(n, other, 0) != Some(j) {
                            let q = key_index_from(n, other, 0)->0;
                            assert(q < e.len() ==> n[q] == e[q]);
                        }
                    },
                    None => {
                        if key_index_from(n, other, 0) is Some {
                            let q = key_index_from(n, other, 0)->0;
                            assert(q < e.len() ==> n[q] == e[q]);
                        }
                    },
                }
            }
        },
    }
}

/// A name that is in the table resolves to its own command.
pub proof fn law_exact_name_resolves(e: Seq<(Seq<char>, Seq<char>)>, name: Seq<char>)
    requires
        lookup(e, crate::text::trim(name)) is Some,
    ensures
        resolved(e, name) == lookup(e, crate::text::trim(name)),
{
}

} // verus!
