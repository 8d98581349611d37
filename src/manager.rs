use vstd::multiset::Multiset;
use vstd::prelude::*;

use crate::config::Config;
use crate::errors::AppError;
use crate::metadata::{capitalized, decode_lossy, lossy_of, meta_name, normalize_name, parse_meta_name};
use crate::paginator::Paginator;
use crate::text::{
    decimal,
    decimal_string,
    join,
    join_path,
    less_than,
    lemma_str_less_irreflexive,
    lemma_str_less_transitive,
    parse_u64,
    parse_u64_spec,
    str_less,
};

verus! {

broadcast use vstd::seq_lib::group_to_multiset_ensures;

/// An installed add-on: its numeric id (the name of its directory), its
/// display name, and whether it is enabled in this session.
#[derive(Debug, Clone)]
pub struct Mod {
    pub id: u64,
    pub name: String,
    pub enabled: bool,
}

/// The mathematical value of a mod.
pub open spec fn mod_key(m: Mod) -> (u64, Seq<char>, bool) {
    (m.id, m.name@, m.enabled)
}

impl Mod {
    pub fn new(id: u64, name: String) -> (r: Mod)
        ensures
            r.id == id,
            r.name == name,
            !r.enabled,
    {
        Mod { id, name, enabled: false }
    }

    /// Where this mod lives under the directory `path`: `path/<id>`.
    pub fn get_path(&self, path: &str) -> (r: String)
        ensures
            r@ == join_path(path@, decimal(self.id as nat)),
    {
        let leaf = decimal_string(self.id);
        join(path, leaf.as_str())
    }
}

/// What was found of a mod's `meta.cpp`.
#[derive(Debug, Clone)]
pub enum MetaFile {
    /// There is no such file.
    Missing,
    /// The file exists but could not be read.
    Unreadable,
    /// The file's bytes.
    Content(Vec<u8>),
}

/// One entry of the workshop directory, as listed.
#[derive(Debug, Clone)]
pub struct WorkshopEntry {
    /// The entry's name, when it is valid text.
    pub file_name: Option<String>,
    pub is_dir: bool,
    pub meta: MetaFile,
}

/// The id of an entry that may hold a mod: a directory whose name is an
/// unsigned 64-bit number.
pub open spec fn entry_id(e: WorkshopEntry) -> Option<u64> {
    if e.is_dir && e.file_name is Some {
        parse_u64_spec(e.file_name->0@)
    } else {
        None
    }
}

/// The mod (id and display name) that an entry yields, if any.
pub open spec fn entry_mod(e: WorkshopEntry) -> Option<(u64, Seq<char>)> {
    match entry_id(e) {
        Some(id) => match e.meta {
            MetaFile::Content(bytes) => match meta_name(lossy_of(bytes@)) {
                Some(v) => Some((id, capitalized(v))),
                None => None,
            },
            _ => None,
        },
        None => None,
    }
}

/// The id of a mod whose metadata file could not be read.
pub open spec fn entry_problem(e: WorkshopEntry) -> Option<u64> {
    match entry_id(e) {
        Some(id) => match e.meta {
            MetaFile::Unreadable => Some(id),
            _ => None,
        },
        None => None,
    }
}

/// The mods that a listing yields, in listing order, each disabled.
pub open spec fn found_mods(entries: Seq<WorkshopEntry>) -> Seq<(u64, Seq<char>, bool)>
    decreases entries.len(),
{
    if entries.len() == 0 {
        Seq::empty()
    } else {
        let rest = found_mods(entries.drop_last());
        match entry_mod(entries.last()) {
            Some(m) => rest.push((m.0, m.1, false)),
            None => rest,
        }
    }
}

/// The ids whose metadata could not be read, in listing order.
pub open spec fn found_problems(entries: Seq<WorkshopEntry>) -> Seq<u64>
    decreases entries.len(),
{
    if entries.len() == 0 {
        Seq::empty()
    } else {
        let rest = found_problems(entries.drop_last());
        match entry_problem(entries.last()) {
            Some(id) => rest.push(id),
            None => rest,
        }
    }
}

/// Mods in order of their names.
pub open spec fn sorted_by_name(s: Seq<Mod>) -> bool {
    forall|i: int, j: int| 0 <= i < j < s.len() ==> !str_less(#[trigger] s[j].name@, #[trigger] s[i].name@)
}

/// What a scan of the workshop directory yields: the mods, sorted by name,
/// and one `MissingMeta` for each mod whose metadata could not be read.
#[derive(Debug, Clone)]
pub struct ScanReport {
    pub mods: Vec<Mod>,
    pub problems: Vec<AppError>,
}

proof fn lemma_insert_to_multiset<A>(s: Seq<A>, p: int, x: A)
    requires
        0 <= p <= s.len(),
    ensures
        s.insert(p, x).to_multiset() =~= s.to_multiset().insert(x),
{
    let t = s.insert(p, x);
    assert(t.remove(p) =~= s);
    assert(t[p] == x);
    assert(t.to_multiset().count(x) > 0);
}

/// Sorts mods by name, keeping mods of equal names in their order.
pub fn sort_by_name(v: Vec<Mod>) -> (r: Vec<Mod>)
    ensures
        sorted_by_name(r@),
        r@.map_values(|m: Mod| mod_key(m)).to_multiset() == v@.map_values(|m: Mod| mod_key(m)).to_multiset(),
{
    let mut v = v;
    let ghost orig = v@;
    let mut r: Vec<Mod> = Vec::new();
    // Take the items from the back so that each removal is cheap.
    while v.len() > 0
        invariant
            v@ == orig.take(v@.len() as int),
            v@.len() <= orig.len(),
            sorted_by_name(r@),
            r@.map_values(|m: Mod| mod_key(m)).to_multiset() == orig.skip(v@.len() as int).map_values(|m: Mod| mod_key(m)).to_multiset(),
        decreases v@.len(),
    {
        let ghost k = v@.len() - 1;
        let x = v.pop().unwrap();
        assert(v@ =~= orig.take(k));
        assert(x == orig[k]);
        // Insert before the first item that sorts strictly after `x`, and
        // before every item that was placed earlier with the same name.
        let mut p: usize = 0;
        while p < r.len() && !less_than(x.name.as_str(), r[p].name.as_str())
            invariant
                p <= r@.len(),
                forall|q: int| 0 <= q < p ==> !str_less(x.name@, #[trigger] r@[q].name@),
            decreases r@.len() - p,
        {
            p = p + 1;
        }
        let ghost old_r = r@;
        r.insert(p, x);
        proof {
            assert(r@ == old_r.insert(p as int, x));
            assert forall|i: int, j: int| 0 <= i < j < r@.len() implies !str_less(
                #[trigger] r@[j].name@,
                #[trigger] r@[i].name@,
            ) by {
                if j == p {
                    assert(r@[i] == old_r[i]);
                } else if i == p {
                    assert(r@[j] == old_r[j - 1]);
                    assert(p < old_r.len());
                    assert(str_less(x.name@, old_r[p as int].name@));
                    if p < j - 1 {
                        assert(!str_less(old_r[j - 1].name@, old_r[p as int].name@));
                    } else {
                        lemma_str_less_irreflexive(old_r[p as int].name@);
                    }
                    if str_less(old_r[j - 1].name@, x.name@) {
                        lemma_str_less_transitive(old_r[j - 1].name@, x.name@, old_r[p as int].name@);
                    }
                } else {
                    let i0 = if i < p { i } else { i - 1 };
                    let j0 = if j < p { j } else { j - 1 };
                    assert(r@[i] == old_r[i0]);
                    assert(r@[j] == old_r[j0]);
                }
            }
            let f = |m: Mod| mod_key(m);
            assert(r@.map_values(f) =~= old_r.map_values(f).insert(p as int, f(x)));
            lemma_insert_to_multiset(old_r.map_values(f), p as int, f(x));
            assert(orig.skip(k).map_values(f) =~= seq![f(x)] + orig.skip(k + 1).map_values(f));
            vstd::seq_lib::lemma_multiset_commutative(seq![f(x)], orig.skip(k + 1).map_values(f));
            assert(seq![f(x)].to_multiset() =~= Multiset::empty().insert(f(x))) by {
                assert(seq![f(x)] =~= Seq::<(u64, Seq<char>, bool)>::empty().push(f(x)));
            }
        }
    }
    assert(orig.skip(0) =~= orig);
    r
}

/// The part of a scan that reads one entry: `Ok` with a mod, `Err` with the
/// id of a mod whose metadata could not be read, or nothing.
fn scan_entry(e: &WorkshopEntry) -> (r: Option<Result<Mod, u64>>)
    ensures
        match r {
            Some(Ok(m)) => entry_mod(*e) == Some((m.id, m.name@)) && !m.enabled,
            Some(Err(id)) => entry_problem(*e) == Some(id) && entry_mod(*e) is None,
            None => entry_mod(*e) is None && entry_problem(*e) is None,
        },
{
    if !e.is_dir {
        return None;
    }
    let id = match &e.file_name {
        Some(name) => match parse_u64(name.as_str()) {
            Some(id) => id,
            None => return None,
        },
        None => return None,
    };
    match &e.meta {
        MetaFile::Missing => None,
        MetaFile::Unreadable => Some(Err(id)),
        MetaFile::Content(bytes) => {
            let text = decode_lossy(bytes.as_slice());
            match parse_meta_name(text.as_str()) {
                Some(raw) => Some(Ok(Mod::new(id, normalize_name(raw.as_str())))),
                None => None,
            }
        },
    }
}

/// The mods of a workshop directory and the problems met on the way.
pub open spec fn scan_result(entries: Seq<WorkshopEntry>, r: ScanReport) -> bool {
    &&& sorted_by_name(r.mods@)
    &&& r.mods@.map_values(|m: Mod| mod_key(m)).to_multiset() == found_mods(entries).to_multiset()
    &&& r.problems@ == found_problems(entries).map_values(|id: u64| AppError::MissingMeta(id))
}

/// `new` holds the mods of `old` in the same order, each enabled exactly
/// when its id is among `ids`.
pub open spec fn marked(old: Seq<Mod>, new: Seq<Mod>, ids: Seq<u64>) -> bool {
    &&& new.len() == old.len()
    &&& forall|i: int|
        0 <= i < old.len() ==> {
            &&& (#[trigger] new[i]).id == old[i].id
            &&& new[i].name == old[i].name
            &&& new[i].enabled == ids.contains(old[i].id)
        }
}

fn contains_id(ids: &Vec<u64>, id: u64) -> (r: bool)
    ensures
        r == ids@.contains(id),
{
    let mut i: usize = 0;
    while i < ids.len()
        invariant
            i <= ids@.len(),
            forall|j: int| 0 <= j < i ==> ids@[j] != id,
        decreases ids@.len() - i,
    {
        if ids[i] == id {
            return true;
        }
        i = i + 1;
    }
    false
}

/// Sets each mod's `enabled` from the saved ids.
fn mark_enabled(mods: &mut Vec<Mod>, ids: &Vec<u64>)
    ensures
        marked(old(mods)@, final(mods)@, ids@),
{
    let ghost start = mods@;
    let mut i: usize = 0;
    while i < mods.len()
        invariant
            i <= mods@.len(),
            mods@.len() == start.len(),
            forall|j: int|
                0 <= j < start.len() ==> {
                    &&& (#[trigger] mods@[j]).id == start[j].id
                    &&& mods@[j].name == start[j].name
                    &&& j < i ==> mods@[j].enabled == ids@.contains(start[j].id)
                    &&& j >= i ==> mods@[j].enabled == start[j].enabled
                },
        decreases mods@.len() - i,
    {
        let on = contains_id(ids, mods[i].id);
        mods[i].enabled = on;
        i = i + 1;
    }
}

#[derive(Debug)]
pub struct ModManager {
    pub config: Config,
    pub loaded_mods: Paginator<Mod>,
}

impl ModManager {
    /// A manager for the mods found in the workshop directory, shown
    /// `page_size` to a page, with the mods whose ids the configuration
    /// saved marked enabled.
    pub fn new(config: Config, mods: Vec<Mod>, page_size: usize) -> (r: Self)
        requires
            page_size > 0,
        ensures
            r.config == config,
            marked(mods@, r.loaded_mods.items(), config.enabled_mods@),
            r.loaded_mods.wf(),
            r.loaded_mods.page_size == page_size,
            r.loaded_mods.current_page == 0,
            r.loaded_mods.page_in_range(),
    {
        let mut mods = mods;
        mark_enabled(&mut mods, &config.enabled_mods);
        ModManager { config, loaded_mods: Paginator::new(mods, page_size) }
    }

    /// Replaces the whole list with a fresh scan, back on the first page,
    /// enabled marks taken again from the configuration.
    pub fn refresh_mods(&mut self, mods: Vec<Mod>)
        requires
            old(self).loaded_mods.wf(),
        ensures
            final(self).config == old(self).config,
            marked(mods@, final(self).loaded_mods.items(), old(self).config.enabled_mods@),
            final(self).loaded_mods.wf(),
            final(self).loaded_mods.page_size == old(self).loaded_mods.page_size,
            final(self).loaded_mods.current_page == 0,
            final(self).loaded_mods.page_in_range(),
    {
        let mut mods = mods;
        mark_enabled(&mut mods, &self.config.enabled_mods);
        self.loaded_mods = Paginator::new(mods, self.loaded_mods.page_size);
    }

    /// Turns a listing of the workshop directory into its mods. Entries that
    /// are not directories, whose names are not numbers, that have no
    /// `meta.cpp` or whose `meta.cpp` declares no name are skipped; an
    /// unreadable `meta.cpp` is reported and the scan goes on.
    pub fn get_installed_mods(entries: &Vec<WorkshopEntry>) -> (r: ScanReport)
        ensures
            scan_result(entries@, r),
    {
        let mut mods: Vec<Mod> = Vec::new();
        let mut problems: Vec<AppError> = Vec::new();
        let mut i: usize = 0;
        while i < entries.len()
            invariant
                i <= entries@.len(),
                mods@.map_values(|m: Mod| mod_key(m)) == found_mods(entries@.take(i as int)),
                problems@ == found_problems(entries@.take(i as int)).map_values(|id: u64| AppError::MissingMeta(id)),
            decreases entries@.len() - i,
        {
            let ghost pre = entries@.take(i as int);
            let ghost cur = entries@.take(i as int + 1);
            assert(cur.drop_last() =~= pre);
            assert(cur.last() == entries@[i as int]);
            match scan_entry(&entries[i]) {
                Some(Ok(m)) => {
                    mods.push(m);
                    assert(mods@.map_values(|m: Mod| mod_key(m)) =~= found_mods(cur));
                    assert(problems@ =~= found_problems(cur).map_values(|id: u64| AppError::MissingMeta(id)));
                },
                Some(Err(id)) => {
                    problems.push(AppError::MissingMeta(id));
                    assert(mods@.map_values(|m: Mod| mod_key(m)) =~= found_mods(cur));
                    assert(problems@ =~= found_problems(cur).map_values(|id: u64| AppError::MissingMeta(id)));
                },
                None => {
                    assert(mods@.map_values(|m: Mod| mod_key(m)) =~= found_mods(cur));
                    assert(problems@ =~= found_problems(cur).map_values(|id: u64| AppError::MissingMeta(id)));
                },
            }
            i = i + 1;
        }
        assert(entries@.take(entries@.len() as int) =~= entries@);
        let mods = sort_by_name(mods);
        ScanReport { mods, problems }
    }
}

} // verus!
