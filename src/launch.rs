use vstd::prelude::*;
use vstd::string::{StrSliceExecFns, StringExecFns};

use crate::text::{decimal, decimal_string, join, join_path};

verus! {

/// The application bundle that must stand in the game directory.
pub const GAME_APP: &'static str = "arma3.app";

/// The program that starts the game bundle.
pub const OPENER: &'static str = "open";

/// One entry found directly in the game directory.
#[derive(Debug, Clone)]
pub struct GameDirEntry {
    pub name: String,
    pub is_symlink: bool,
}

/// What a launch does to the game directory: the names of the links to
/// remove, then the ids of the mods to link.
#[derive(Debug, Clone)]
pub struct LinkPlan {
    pub remove: Vec<String>,
    pub create: Vec<u64>,
}

/// The names of the entries that are not symbolic links (plain files and
/// fixed directories).
pub open spec fn real_names(entries: Seq<GameDirEntry>) -> Set<Seq<char>> {
    Set::new(|k: Seq<char>| exists|i: int| 0 <= i < entries.len() && !entries[i].is_symlink && #[trigger] entries[i].name@ == k)
}

/// The names of the symbolic links, in listing order.
pub open spec fn link_names(entries: Seq<GameDirEntry>) -> Seq<Seq<char>>
    decreases entries.len(),
{
    if entries.len() == 0 {
        Seq::empty()
    } else {
        let rest = link_names(entries.drop_last());
        if entries.last().is_symlink {
            rest.push(entries.last().name@)
        } else {
            rest
        }
    }
}

/// Some id of `ids` has the link name `name`.
pub open spec fn has_name(ids: Seq<u64>, name: Seq<char>) -> bool {
    exists|t: int| 0 <= t < ids.len() && decimal(#[trigger] ids[t] as nat) == name
}

/// The ids that get a new link, in order: each id whose name is neither
/// taken by a real entry nor by a link made for an earlier id.
pub open spec fn creations(fixed: Set<Seq<char>>, ids: Seq<u64>) -> Seq<u64>
    decreases ids.len(),
{
    if ids.len() == 0 {
        Seq::empty()
    } else {
        let done = creations(fixed, ids.drop_last());
        let name = decimal(ids.last() as nat);
        if fixed.contains(name) || has_name(done, name) {
            done
        } else {
            done.push(ids.last())
        }
    }
}

/// A game directory as a map from entry name to whether it is a link.
pub open spec fn dir_of(entries: Seq<GameDirEntry>) -> Map<Seq<char>, bool> {
    Map::new(
        |k: Seq<char>| exists|i: int| 0 <= i < entries.len() && #[trigger] entries[i].name@ == k,
        |k: Seq<char>| !real_names(entries).contains(k),
    )
}

/// The real (non-link) names of a directory.
pub open spec fn real_of(d: Map<Seq<char>, bool>) -> Set<Seq<char>> {
    d.dom().filter(|k: Seq<char>| !d[k])
}

/// A directory after reconciliation with the ids `ids`: every link is
/// gone, real entries stay, and each id gets a link unless its name is
/// taken by a real entry.
pub open spec fn reconcile(d: Map<Seq<char>, bool>, ids: Seq<u64>) -> Map<Seq<char>, bool> {
    let fixed = real_of(d);
    Map::new(
        |k: Seq<char>| fixed.contains(k) || has_name(creations(fixed, ids), k),
        |k: Seq<char>| !fixed.contains(k),
    )
}

/// A directory after a plan is carried out: the listed links removed, then
/// the planned links made. Removal touches links only.
pub open spec fn apply_plan(d: Map<Seq<char>, bool>, remove: Seq<Seq<char>>, create: Seq<u64>) -> Map<
    Seq<char>,
    bool,
> {
    Map::new(
        |k: Seq<char>| (d.contains_key(k) && (!d[k] || !remove.contains(k))) || has_name(create, k),
        |k: Seq<char>|
            if d.contains_key(k) && (!d[k] || !remove.contains(k)) {
                d[k]
            } else {
                true
            },
    )
}

proof fn lemma_created_names(fixed: Set<Seq<char>>, ids: Seq<u64>, k: Seq<char>)
    ensures
        has_name(creations(fixed, ids), k) <==> !fixed.contains(k) && has_name(ids, k),
    decreases ids.len(),
{
    if ids.len() > 0 {
        let prev = ids.drop_last();
        lemma_created_names(fixed, prev, k);
        let done = creations(fixed, prev);
        let name = decimal(ids.last() as nat);
        let now = creations(fixed, ids);
        if !(fixed.contains(name) || has_name(done, name)) {
            assert(now == done.push(ids.last()));
            if has_name(now, k) {
                let t = choose|t: int| 0 <= t < now.len() && decimal(#[trigger] now[t] as nat) == k;
                if t < done.len() {
                    assert(done[t] == now[t]);
                }
            }
            if has_name(done, k) {
                let t = choose|t: int| 0 <= t < done.len() && decimal(#[trigger] done[t] as nat) == k;
                assert(now[t] == done[t]);
            }
            if k == name {
                assert(now[now.len() - 1] == ids.last());
            }
        }
        if has_name(ids, k) {
            let j = choose|j: int| 0 <= j < ids.len() && decimal(#[trigger] ids[j] as nat) == k;
            if j < ids.len() - 1 {
                assert(prev[j] == ids[j]);
            } else {
                assert(k == name);
            }
        }
        if has_name(prev, k) {
            let j = choose|j: int| 0 <= j < prev.len() && decimal(#[trigger] prev[j] as nat) == k;
            assert(ids[j] == prev[j]);
        }
        if k == name {
            assert(ids[ids.len() - 1] == ids.last());
        }
    }
}

/// After a launch, the links under the game directory are exactly one per
/// enabled mod whose name no real entry takes, and real entries stay.
pub proof fn lemma_reconcile_links(d: Map<Seq<char>, bool>, ids: Seq<u64>, k: Seq<char>)
    ensures
        (reconcile(d, ids).contains_key(k) && reconcile(d, ids)[k]) <==> (!(d.contains_key(k)
            && !d[k]) && has_name(ids, k)),
        (d.contains_key(k) && !d[k]) ==> (reconcile(d, ids).contains_key(k) && !reconcile(d, ids)[k]),
{
    lemma_created_names(real_of(d), ids, k);
}

/// Launching twice in a row with the same enabled mods leaves the game
/// directory as the first launch left it.
pub proof fn lemma_relaunch_idempotent(d: Map<Seq<char>, bool>, ids: Seq<u64>)
    ensures
        reconcile(reconcile(d, ids), ids) == reconcile(d, ids),
{
    let once = reconcile(d, ids);
    assert(real_of(once) =~= real_of(d));
    assert(reconcile(once, ids) =~= once);
}

/// Whether a fixed entry of the directory carries the name `name`.
fn is_real_name(entries: &Vec<GameDirEntry>, name: &String) -> (r: bool)
    ensures
        r == real_names(entries@).contains(name@),
{
    let mut i: usize = 0;
    while i < entries.len()
        invariant
            i <= entries@.len(),
            forall|j: int| 0 <= j < i ==> !(!entries@[j].is_symlink && #[trigger] entries@[j].name@ == name@),
        decreases entries@.len() - i,
    {
        if !entries[i].is_symlink && entries[i].name == *name {
            return true;
        }
        i = i + 1;
    }
    false
}

/// Works out how to bring the game directory in line with the enabled mods
/// `ids`: remove every symbolic link, then link each id whose name is free.
pub fn plan_links(entries: &Vec<GameDirEntry>, ids: &Vec<u64>) -> (r: LinkPlan)
    ensures
        r.remove@.map_values(|s: String| s@) == link_names(entries@),
        r.create@ == creations(real_names(entries@), ids@),
        apply_plan(dir_of(entries@), link_names(entries@), r.create@) == reconcile(dir_of(entries@), ids@),
{
    let mut remove: Vec<String> = Vec::new();
    let mut i: usize = 0;
    while i < entries.len()
        invariant
            i <= entries@.len(),
            remove@.map_values(|s: String| s@) == link_names(entries@.take(i as int)),
        decreases entries@.len() - i,
    {
        let ghost cur = entries@.take(i as int + 1);
        assert(cur.drop_last() =~= entries@.take(i as int));
        if entries[i].is_symlink {
            remove.push(entries[i].name.clone());
        }
        assert(remove@.map_values(|s: String| s@) =~= link_names(cur));
        i = i + 1;
    }
    assert(entries@.take(entries@.len() as int) =~= entries@);
    let ghost fixed = real_names(entries@);
    let mut create: Vec<u64> = Vec::new();
    let mut made: Vec<String> = Vec::new();
    let mut j: usize = 0;
    while j < ids.len()
        invariant
            j <= ids@.len(),
            fixed == real_names(entries@),
            create@ == creations(fixed, ids@.take(j as int)),
            made@.len() == create@.len(),
            forall|t: int| 0 <= t < made@.len() ==> #[trigger] made@[t]@ == decimal(create@[t] as nat),
        decreases ids@.len() - j,
    {
        let ghost cur = ids@.take(j as int + 1);
        assert(cur.drop_last() =~= ids@.take(j as int));
        assert(cur.last() == ids@[j as int]);
        let name = decimal_string(ids[j]);
        let mut taken = is_real_name(entries, &name);
        let mut q: usize = 0;
        while q < made.len() && !taken
            invariant
                q <= made@.len(),
                made@.len() == create@.len(),
                forall|t: int| 0 <= t < made@.len() ==> #[trigger] made@[t]@ == decimal(create@[t] as nat),
                taken ==> fixed.contains(name@) || has_name(create@, name@),
                !taken ==> !fixed.contains(name@),
                !taken ==> forall|t: int| 0 <= t < q ==> decimal(#[trigger] create@[t] as nat) != name@,
            decreases made@.len() - q,
        {
            if made[q] == name {
                assert(made@[q as int]@ == name@);
                taken = true;
            }
            q = q + 1;
        }
        if !taken {
            create.push(ids[j]);
            made.push(name);
        }
        assert(create@ == creations(fixed, cur));
        j = j + 1;
    }
    assert(ids@.take(ids@.len() as int) =~= ids@);
    proof {
        let d = dir_of(entries@);
        lemma_link_names_are_links(entries@);
        assert(real_of(d) =~= fixed);
        assert forall|k: Seq<char>| #[trigger] has_name(create@, k) implies !fixed.contains(k) by {
            lemma_created_names(fixed, ids@, k);
        }
        assert forall|k: Seq<char>| d.contains_key(k) && #[trigger] d[k] implies link_names(
            entries@,
        ).contains(k) by {
            let i = choose|i: int| 0 <= i < entries@.len() && #[trigger] entries@[i].name@ == k;
            if !entries@[i].is_symlink {
                assert(fixed.contains(k));
            }
        }
        assert(apply_plan(d, link_names(entries@), create@) =~= reconcile(d, ids@));
    }
    LinkPlan { remove, create }
}

proof fn lemma_link_names_are_links(entries: Seq<GameDirEntry>)
    ensures
        forall|k: Seq<char>|
            #[trigger] link_names(entries).contains(k) <==> exists|i: int|
                0 <= i < entries.len() && entries[i].is_symlink && #[trigger] entries[i].name@ == k,
    decreases entries.len(),
{
    if entries.len() > 0 {
        let prev = entries.drop_last();
        lemma_link_names_are_links(prev);
        assert forall|k: Seq<char>| #[trigger] link_names(entries).contains(k) <==> exists|i: int|
            0 <= i < entries.len() && entries[i].is_symlink && #[trigger] entries[i].name@ == k by {
            if link_names(entries).contains(k) {
                if entries.last().is_symlink && k == entries.last().name@ {
                    assert(entries[entries.len() - 1].name@ == k);
                } else {
                    let t = choose|t: int| 0 <= t < link_names(entries).len() && link_names(entries)[t] == k;
                    assert(link_names(prev)[t] == k);
                    assert(link_names(prev).contains(k));
                    let i = choose|i: int| 0 <= i < prev.len() && prev[i].is_symlink && #[trigger] prev[i].name@ == k;
                    assert(entries[i] == prev[i]);
                }
            }
            if exists|i: int| 0 <= i < entries.len() && entries[i].is_symlink && #[trigger] entries[i].name@ == k {
                let i = choose|i: int| 0 <= i < entries.len() && entries[i].is_symlink && #[trigger] entries[i].name@ == k;
                if i == entries.len() - 1 {
                    assert(link_names(entries)[link_names(entries).len() - 1] == k);
                } else {
                    assert(prev[i] == entries[i]);
                    assert(link_names(prev).contains(k));
                    let t = choose|t: int| 0 <= t < link_names(prev).len() && link_names(prev)[t] == k;
                    if entries.last().is_symlink {
                        assert(link_names(entries)[t] == k);
                    }
                    assert(link_names(entries).contains(k));
                }
            }
        }
    }
}

/// The enabled ids in decimal, separated by `;`.
pub open spec fn joined_ids(ids: Seq<u64>) -> Seq<char>
    decreases ids.len(),
{
    if ids.len() == 0 {
        Seq::empty()
    } else if ids.len() == 1 {
        decimal(ids[0] as nat)
    } else {
        joined_ids(ids.drop_last()) + seq![';'] + decimal(ids.last() as nat)
    }
}

/// The flag that names the mods to load: `-mod=<id>;<id>;...`.
pub open spec fn mod_flag(ids: Seq<u64>) -> Seq<char> {
    seq!['-', 'm', 'o', 'd', '='] + joined_ids(ids)
}

/// The arguments handed to the opener: the bundle, and when mods are
/// enabled, `--args`, the default arguments when there are any, and the
/// mod flag.
pub open spec fn launch_args_spec(app: Seq<char>, default_args: Seq<char>, ids: Seq<u64>) -> Seq<
    Seq<char>,
> {
    let head = seq![seq!['-', 'a'], app];
    if ids.len() == 0 {
        head
    } else {
        let extra = if default_args.len() > 0 {
            seq![default_args]
        } else {
            Seq::empty()
        };
        head + seq![seq!['-', '-', 'a', 'r', 'g', 's']] + extra + seq![mod_flag(ids)]
    }
}

/// Writes the mod flag for the ids, in the order given.
pub fn mod_flag_string(ids: &Vec<u64>) -> (r: String)
    requires
        ids@.len() > 0,
    ensures
        r@ == mod_flag(ids@),
{
    let prefix = "-mod=";
    let sep = ";";
    proof {
        reveal_strlit("-mod=");
        reveal_strlit(";");
    }
    assert(prefix@ =~= seq!['-', 'm', 'o', 'd', '=']);
    assert(sep@ =~= seq![';']);
    let mut r = String::from_str(prefix);
    let first = decimal_string(ids[0]);
    r.append(first.as_str());
    let mut i: usize = 1;
    assert(ids@.take(1) =~= seq![ids@[0]]);
    while i < ids.len()
        invariant
            1 <= i <= ids@.len(),
            sep@ == seq![';'],
            r@ == seq!['-', 'm', 'o', 'd', '='] + joined_ids(ids@.take(i as int)),
        decreases ids@.len() - i,
    {
        let ghost cur = ids@.take(i as int + 1);
        assert(cur.drop_last() =~= ids@.take(i as int));
        assert(cur.last() == ids@[i as int]);
        r.append(sep);
        let d = decimal_string(ids[i]);
        r.append(d.as_str());
        assert(r@ =~= seq!['-', 'm', 'o', 'd', '='] + joined_ids(cur));
        i = i + 1;
    }
    assert(ids@.take(ids@.len() as int) =~= ids@);
    r
}

/// Builds the opener's argument list for the bundle at `app`.
pub fn launch_args(app: &str, default_args: &str, ids: &Vec<u64>) -> (r: Vec<String>)
    ensures
        r@.map_values(|s: String| s@) == launch_args_spec(app@, default_args@, ids@),
{
    let dash_a = "-a";
    let dash_args = "--args";
    proof {
        reveal_strlit("-a");
        reveal_strlit("--args");
    }
    assert(dash_a@ =~= seq!['-', 'a']);
    assert(dash_args@ =~= seq!['-', '-', 'a', 'r', 'g', 's']);
    let mut r: Vec<String> = Vec::new();
    r.push(String::from_str(dash_a));
    r.push(String::from_str(app));
    if ids.len() > 0 {
        r.push(String::from_str(dash_args));
        if default_args.unicode_len() > 0 {
            r.push(String::from_str(default_args));
        }
        r.push(mod_flag_string(ids));
    }
    assert(r@.map_values(|s: String| s@) =~= launch_args_spec(app@, default_args@, ids@));
    r
}

/// Where the game bundle stands under the game directory.
pub fn game_app_path(game_path: &str) -> (r: String)
    ensures
        r@ == join_path(game_path@, GAME_APP@),
{
    join(game_path, GAME_APP)
}

} // verus!
