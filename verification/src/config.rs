//! The per-category list of pinned apps, where it lives, and which category
//! a launch belongs to.
use vstd::prelude::*;
use crate::text::{eq_ignore_ascii_case, eq_ignore_ascii_case_spec};

verus! {

/// A pinned app: the label shown under its tile and the executable it runs.
pub struct AppEntry {
    pub name: String,
    pub path: String,
}

impl View for AppEntry {
    type V = (Seq<char>, Seq<char>);

    open spec fn view(&self) -> (Seq<char>, Seq<char>) {
        (self.name@, self.path@)
    }
}

impl Clone for AppEntry {
    fn clone(&self) -> (r: Self)
        ensures
            r == *self,
    {
        AppEntry { name: self.name.clone(), path: self.path.clone() }
    }
}

/// The pinned apps of one drawer, with the file they are kept in.
pub struct Config {
    pub apps: Vec<AppEntry>,
    path: String,
}

/// Some pinned app runs the executable `path`.
pub open spec fn has_path(apps: Seq<AppEntry>, path: Seq<char>) -> bool {
    exists|i: int| 0 <= i < apps.len() && (#[trigger] apps[i]).path@ == path
}

/// The list after pinning `e`: unchanged when its executable is already
/// pinned, otherwise `e` appended at the end.
pub open spec fn add_app_spec(apps: Seq<AppEntry>, e: AppEntry) -> Seq<AppEntry> {
    if has_path(apps, e.path@) {
        apps
    } else {
        apps.push(e)
    }
}

/// The list after unpinning `path`: every entry for that executable gone,
/// the others kept in order.
pub open spec fn remove_app_spec(apps: Seq<AppEntry>, path: Seq<char>) -> Seq<AppEntry> {
    apps.filter(|a: AppEntry| a.path@ != path)
}

/// No executable is pinned twice.
pub open spec fn unique_paths(apps: Seq<AppEntry>) -> bool {
    forall|i: int, j: int|
        0 <= i < apps.len() && 0 <= j < apps.len() && i != j ==> (#[trigger] apps[i]).path@
            != (#[trigger] apps[j]).path@
}

impl View for Config {
    type V = Seq<AppEntry>;

    /// The pinned apps, in tile order.
    closed spec fn view(&self) -> Seq<AppEntry> {
        self.apps@
    }
}

impl Config {
    /// The file this list is saved to.
    pub closed spec fn file(&self) -> Seq<char> {
        self.path@
    }

    /// An empty list kept in the file at `path`: what a drawer starts with
    /// when its file is missing or unreadable.
    pub fn new(path: String) -> (r: Config)
        ensures
            r@.len() == 0,
            r.file() == path@,
    {
        Config { apps: Vec::new(), path }
    }

    /// The list `apps`, kept in the file at `path`.
    pub fn with_apps(apps: Vec<AppEntry>, path: String) -> (r: Config)
        ensures
            r@ == apps@,
            r.file() == path@,
    {
        Config { apps, path }
    }

    /// The pinned apps, in tile order.
    pub fn app_list(&self) -> (r: &Vec<AppEntry>)
        ensures
            r@ == self@,
    {
        &self.apps
    }

    /// The file this list is saved to.
    pub fn path(&self) -> (r: &String)
        ensures
            r@ == self.file(),
    {
        &self.path
    }

    /// Pins `path` under the label `name` unless that executable is already
    /// pinned. Returns whether the list changed, i.e. whether it must be
    /// saved.
    pub fn add_app(&mut self, name: String, path: String) -> (added: bool)
        ensures
            added == !has_path(old(self)@, path@),
            final(self)@ == add_app_spec(old(self)@, AppEntry { name, path }),
            final(self).file() == old(self).file(),
    {
        let n = self.apps.len();
        let mut i: usize = 0;
        while i < n
            invariant
                n == self.apps@.len(),
                self.apps@ == old(self)@,
                self.path == old(self).path,
                i <= n,
                forall|k: int| 0 <= k < i ==> (#[trigger] self.apps@[k]).path@ != path@,
            decreases n - i,
        {
            if self.apps[i].path == path {
                assert(has_path(self.apps@, path@)) by {
                    assert(self.apps@[i as int].path@ == path@);
                }
                return false;
            }
            i = i + 1;
        }
        self.apps.push(AppEntry { name, path });
        true
    }

    /// Unpins every entry that runs `path`, keeping the others in order.
    pub fn remove_app(&mut self, path: &str)
        ensures
            final(self)@ == remove_app_spec(old(self)@, path@),
            final(self).file() == old(self).file(),
    {
        let target = path.to_owned();
        let ghost old_apps = self.apps@;
        let mut kept: Vec<AppEntry> = Vec::new();
        let n = self.apps.len();
        let mut i: usize = 0;
        while i < n
            invariant
                n == old_apps.len(),
                self.apps@ == old_apps,
                target@ == path@,
                i <= n,
                kept@ == remove_app_spec(old_apps.take(i as int), path@),
            decreases n - i,
        {
            let e = &self.apps[i];
            proof {
                assert(old_apps.take(i + 1).drop_last() =~= old_apps.take(i as int));
                reveal_with_fuel(Seq::filter, 1);
            }
            if !(e.path == target) {
                kept.push(e.clone());
            }
            i = i + 1;
        }
        proof {
            assert(old_apps.take(n as int) =~= old_apps);
        }
        self.apps = kept;
    }
}

/// Pinning an executable that is already pinned changes nothing, so pinning
/// the same app twice has the effect of pinning it once.
pub proof fn lemma_add_app_idempotent(apps: Seq<AppEntry>, e: AppEntry)
    ensures
        add_app_spec(add_app_spec(apps, e), e) == add_app_spec(apps, e),
{
    if !has_path(apps, e.path@) {
        let a = apps.push(e);
        assert(a[apps.len() as int].path@ == e.path@);
    }
}

/// After pinning, the executable is pinned.
pub proof fn lemma_add_app_pins(apps: Seq<AppEntry>, e: AppEntry)
    ensures
        has_path(add_app_spec(apps, e), e.path@),
{
    if !has_path(apps, e.path@) {
        let a = apps.push(e);
        assert(a[apps.len() as int].path@ == e.path@);
    }
}

/// Unpinning removes the executable from the list entirely, keeps every
/// other entry and never grows the list.
pub proof fn lemma_remove_app_unpins(apps: Seq<AppEntry>, path: Seq<char>)
    ensures
        !has_path(remove_app_spec(apps, path), path),
        remove_app_spec(apps, path).len() <= apps.len(),
        forall|i: int|
            0 <= i < apps.len() && (#[trigger] apps[i]).path@ != path ==> remove_app_spec(
                apps,
                path,
            ).contains(apps[i]),
{
    broadcast use vstd::seq_lib::group_filter_ensures;

    let pred = |a: AppEntry| a.path@ != path;
    assert forall|i: int|
        0 <= i < apps.len() && (#[trigger] apps[i]).path@ != path implies remove_app_spec(
        apps,
        path,
    ).contains(apps[i]) by {
        apps.lemma_filter_contains(pred, i);
    }
}

/// Unpinning an executable that is not pinned leaves the list as it is.
pub proof fn lemma_remove_absent(apps: Seq<AppEntry>, path: Seq<char>)
    requires
        !has_path(apps, path),
    ensures
        remove_app_spec(apps, path) == apps,
    decreases apps.len(),
{
    reveal_with_fuel(Seq::filter, 1);
    if apps.len() > 0 {
        let d = apps.drop_last();
        assert(!has_path(d, path)) by {
            if has_path(d, path) {
                let i = choose|i: int| 0 <= i < d.len() && (#[trigger] d[i]).path@ == path;
                assert(apps[i] == d[i]);
            }
        }
        lemma_remove_absent(d, path);
        assert(apps.last() == apps[apps.len() - 1]);
        assert(d.push(apps.last()) =~= apps);
    } else {
        assert(apps.filter(|a: AppEntry| a.path@ != path) =~= apps);
    }
}

/// Pinning a new executable and then unpinning it gives back the list as it
/// was.
pub proof fn lemma_add_then_remove(apps: Seq<AppEntry>, e: AppEntry)
    requires
        !has_path(apps, e.path@),
    ensures
        remove_app_spec(add_app_spec(apps, e), e.path@) == apps,
{
    reveal_with_fuel(Seq::filter, 1);
    let a = apps.push(e);
    assert(a.drop_last() =~= apps);
    lemma_remove_absent(apps, e.path@);
}

/// Pinning and unpinning keep a list free of duplicate executables.
pub proof fn lemma_unique_paths_kept(apps: Seq<AppEntry>, e: AppEntry, path: Seq<char>)
    requires
        unique_paths(apps),
    ensures
        unique_paths(add_app_spec(apps, e)),
        unique_paths(remove_app_spec(apps, path)),
{
    if !has_path(apps, e.path@) {
        let a = apps.push(e);
        assert forall|i: int, j: int|
            0 <= i < a.len() && 0 <= j < a.len() && i != j implies (#[trigger] a[i]).path@
            != (#[trigger] a[j]).path@ by {
            if i == apps.len() {
                assert(a[j] == apps[j]);
            } else if j == apps.len() {
                assert(a[i] == apps[i]);
            } else {
                assert(a[i] == apps[i] && a[j] == apps[j]);
            }
        }
    }
    lemma_filter_unique(apps, path);
}

/// Every entry left after unpinning was in the list before.
proof fn lemma_remove_keeps_only(apps: Seq<AppEntry>, path: Seq<char>, i: int)
    requires
        0 <= i < remove_app_spec(apps, path).len(),
    ensures
        exists|k: int| 0 <= k < apps.len() && apps[k] == remove_app_spec(apps, path)[i],
    decreases apps.len(),
{
    reveal_with_fuel(Seq::filter, 1);
    let d = apps.drop_last();
    let f = remove_app_spec(d, path);
    if i < f.len() {
        lemma_remove_keeps_only(d, path, i);
        let k = choose|k: int| 0 <= k < d.len() && d[k] == f[i];
        assert(apps[k] == d[k]);
    } else {
        assert(apps[apps.len() - 1] == remove_app_spec(apps, path)[i]);
    }
}

proof fn lemma_filter_unique(apps: Seq<AppEntry>, path: Seq<char>)
    requires
        unique_paths(apps),
    ensures
        unique_paths(remove_app_spec(apps, path)),
    decreases apps.len(),
{
    reveal_with_fuel(Seq::filter, 1);
    if apps.len() > 0 {
        let d = apps.drop_last();
        assert(unique_paths(d)) by {
            assert forall|i: int, j: int|
                0 <= i < d.len() && 0 <= j < d.len() && i != j implies (#[trigger] d[i]).path@
                != (#[trigger] d[j]).path@ by {
                assert(d[i] == apps[i] && d[j] == apps[j]);
            }
        }
        lemma_filter_unique(d, path);
        let f = remove_app_spec(d, path);
        let last = apps.last();
        if last.path@ != path {
            let g = f.push(last);
            assert(!has_path(f, last.path@)) by {
                if has_path(f, last.path@) {
                    let i = choose|i: int| 0 <= i < f.len() && (#[trigger] f[i]).path@ == last.path@;
                    lemma_remove_keeps_only(d, path, i);
                    let k = choose|k: int| 0 <= k < d.len() && d[k] == f[i];
                    assert(apps[k] == d[k]);
                    assert(apps[apps.len() - 1] == last);
                }
            }
            assert forall|i: int, j: int|
                0 <= i < g.len() && 0 <= j < g.len() && i != j implies (#[trigger] g[i]).path@
                != (#[trigger] g[j]).path@ by {
                if i == f.len() {
                    assert(g[j] == f[j]);
                } else if j == f.len() {
                    assert(g[i] == f[i]);
                } else {
                    assert(g[i] == f[i] && g[j] == f[j]);
                }
            }
        }
    }
}

/// The folder of a drawer's files, as path components below the per-user
/// application data folder: `OnyxLauncher` for the main drawer and
/// `OnyxLauncher\categories\<name>` for a category.
pub open spec fn config_dir_spec(category: Option<Seq<char>>) -> Seq<Seq<char>> {
    match category {
        Some(name) => seq!["OnyxLauncher"@, "categories"@, name],
        None => seq!["OnyxLauncher"@],
    }
}

/// The file of a drawer's app list: `apps.json` in its folder.
pub open spec fn config_path_spec(category: Option<Seq<char>>) -> Seq<Seq<char>> {
    config_dir_spec(category).push("apps.json"@)
}

/// The characters of an optional string.
pub open spec fn opt_view(o: Option<&str>) -> Option<Seq<char>> {
    match o {
        Some(s) => Some(s@),
        None => None,
    }
}

/// The views of a list of strings.
pub open spec fn strings_view(v: Seq<String>) -> Seq<Seq<char>> {
    v.map_values(|s: String| s@)
}

/// The folder of the drawer for `category` (`None` for the main drawer),
/// as components below the per-user application data folder.
pub fn config_dir(category: Option<&str>) -> (r: Vec<String>)
    ensures
        strings_view(r@) == config_dir_spec(opt_view(category)),
{
    let mut out: Vec<String> = Vec::new();
    out.push("OnyxLauncher".to_owned());
    match category {
        Some(name) => {
            out.push("categories".to_owned());
            out.push(name.to_owned());
        },
        None => {},
    }
    assert(strings_view(out@) =~= config_dir_spec(opt_view(category)));
    out
}

/// The app-list file of the drawer for `category`, as components below the
/// per-user application data folder.
pub fn config_path(category: Option<&str>) -> (r: Vec<String>)
    ensures
        strings_view(r@) == config_path_spec(opt_view(category)),
{
    let mut out = config_dir(category);
    out.push("apps.json".to_owned());
    assert(strings_view(out@) =~= config_path_spec(opt_view(category)));
    out
}

/// Every drawer keeps its own app list: different categories, and a
/// category and the main drawer, never share a file.
pub proof fn lemma_config_paths_distinct(a: Option<Seq<char>>, b: Option<Seq<char>>)
    requires
        a != b,
    ensures
        config_path_spec(a) != config_path_spec(b),
{
    match (a, b) {
        (Some(x), Some(y)) => {
            assert(config_path_spec(a)[2] == x);
            assert(config_path_spec(b)[2] == y);
        },
        _ => {
            assert(config_path_spec(a).len() != config_path_spec(b).len());
        },
    }
}

/// The category of a launch, from the file stem of the running executable:
/// the stock `onyx-launcher` (in any ASCII case) is the main drawer, any
/// other name is a category of that name.
pub open spec fn category_name_spec(stem: Seq<char>) -> Option<Seq<char>> {
    if eq_ignore_ascii_case_spec(stem, "onyx-launcher"@) {
        None
    } else {
        Some(stem)
    }
}

/// Which category this launch is, given the file stem of its executable.
pub fn category_name(stem: &str) -> (r: Option<String>)
    ensures
        match r {
            Some(s) => category_name_spec(stem@) == Some(s@),
            None => category_name_spec(stem@) is None,
        },
{
    if eq_ignore_ascii_case(stem, "onyx-launcher") {
        None
    } else {
        Some(stem.to_owned())
    }
}

} // verus!
