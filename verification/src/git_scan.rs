//! Looking for repositories on disk.

use crate::outside::{lowercase, to_lowercase};
use crate::text::{
    after_prefix, list_has, opt_text, same, starts, starts_with, strip_prefix, texts, trim, trimmed,
};
use vstd::prelude::*;

verus! {

// ---------------------------------------------------------------------------
// The root of a path
// ---------------------------------------------------------------------------

/// How many directories are looked at on the way up.
pub const ROOT_LEVELS: usize = 50;

/// The next step of the way up from a path to the root of its repository.
#[derive(Debug, PartialEq, Eq, Structural, Clone, Copy)]
pub enum RootStep {
    /// Look at the directory this many levels up.
    Look(usize),
    /// The directory this many levels up is the root.
    Found(usize),
    /// There is no root.
    Absent,
}

/// The way up: `seen` says of each directory so far, from the path itself
/// upward, whether it holds `.git`; `has_parent` says whether the last of them
/// has a parent. The lowest such directory is the root, among the first fifty.
pub open spec fn way_up(seen: Seq<bool>, has_parent: bool) -> RootStep {
    if seen.len() > 0 && seen.last() {
        RootStep::Found((seen.len() - 1) as usize)
    } else if seen.len() >= 50 || (seen.len() > 0 && !has_parent) {
        RootStep::Absent
    } else {
        RootStep::Look(seen.len() as usize)
    }
}

pub fn git_root(seen: &Vec<bool>, has_parent: bool) -> (r: RootStep)
    ensures
        r == way_up(seen@, has_parent),
{
    let n: usize = seen.len();
    if n > 0 && seen[n - 1] {
        RootStep::Found(n - 1)
    } else if n >= ROOT_LEVELS || (n > 0 && !has_parent) {
        RootStep::Absent
    } else {
        RootStep::Look(n)
    }
}

// ---------------------------------------------------------------------------
// Scanning below roots
// ---------------------------------------------------------------------------

pub struct ScanReposOptions {
    pub max_depth: Option<i32>,
    pub enabled: Option<bool>,
    pub exclude_paths: Option<Vec<String>>,
}

/// A repository that was found.
pub struct RepoHit {
    pub root: String,
    pub label: String,
}

#[verifier::ext_equal]
pub struct HitV {
    pub root: Seq<char>,
    pub label: Seq<char>,
}

impl View for RepoHit {
    type V = HitV;

    open spec fn view(&self) -> HitV {
        HitV { root: self.root@, label: self.label@ }
    }
}

pub open spec fn hit_views(v: Seq<RepoHit>) -> Seq<HitV> {
    v.map_values(|h: RepoHit| h@)
}

/// How deep a scan goes: three levels unless it is told otherwise, and none when
/// it is switched off.
pub open spec fn scan_depth_of(o: ScanReposOptions) -> Option<nat> {
    if o.enabled == Some(false) {
        None
    } else {
        match o.max_depth {
            Some(d) => Some(
                if d < 0 {
                    0
                } else {
                    d as nat
                },
            ),
            None => Some(3),
        }
    }
}

pub fn scan_depth(options: &ScanReposOptions) -> (r: Option<usize>)
    ensures
        scan_depth_of(*options) == (match r {
            Some(d) => Some(d as nat),
            None => None,
        }),
{
    if let Some(false) = options.enabled {
        return None;
    }
    match options.max_depth {
        Some(d) => if d < 0 {
            Some(0)
        } else {
            Some(d as usize)
        },
        None => Some(3),
    }
}

/// Where a root that was typed lies.
pub enum ScanRoot {
    Home,
    /// Below the home directory.
    BelowHome(String),
    /// As it is when it is absolute, else below the home directory.
    Given(String),
}

pub enum ScanRootV {
    Home,
    BelowHome(Seq<char>),
    Given(Seq<char>),
}

impl View for ScanRoot {
    type V = ScanRootV;

    open spec fn view(&self) -> ScanRootV {
        match self {
            ScanRoot::Home => ScanRootV::Home,
            ScanRoot::BelowHome(s) => ScanRootV::BelowHome(s@),
            ScanRoot::Given(s) => ScanRootV::Given(s@),
        }
    }
}

/// A tilde stands for the home directory, alone or before a slash of either kind.
pub open spec fn expanded(raw: Seq<char>) -> ScanRootV {
    let t = trimmed(raw);
    if t == "~"@ {
        ScanRootV::Home
    } else {
        match after_prefix(t, "~/"@) {
            Some(rest) => ScanRootV::BelowHome(rest),
            None => match after_prefix(t, "~\\"@) {
                Some(rest) => ScanRootV::BelowHome(rest),
                None => ScanRootV::Given(t),
            },
        }
    }
}

pub fn expand_home(raw: &str) -> (r: ScanRoot)
    ensures
        r@ == expanded(raw@),
{
    let t = trim(raw);
    if same(&t, "~") {
        return ScanRoot::Home;
    }
    if let Some(rest) = strip_prefix(&t, "~/") {
        return ScanRoot::BelowHome(rest);
    }
    if let Some(rest) = strip_prefix(&t, "~\\") {
        return ScanRoot::BelowHome(rest);
    }
    ScanRoot::Given(t)
}

/// Directories that hold no repositories of the user's own.
pub open spec fn junk(name: Seq<char>) -> bool {
    name == "Applications"@ || name == "Library"@ || name == "node_modules"@ || name
        == "site-packages"@ || name == "vendor"@ || name == "venv"@
}

/// Whether a scan goes into a directory of this name.
pub open spec fn entered(name: Seq<char>) -> bool {
    !starts(name, "."@) && !junk(name)
}

pub fn enters(name: &str) -> (r: bool)
    ensures
        r == entered(name@),
{
    !starts_with(name, ".") && !same(name, "Applications") && !same(name, "Library") && !same(
        name,
        "node_modules",
    ) && !same(name, "site-packages") && !same(name, "vendor") && !same(name, "venv")
}

/// One entry of a listing.
pub struct ScanEntry {
    pub name: String,
    pub path: String,
    pub is_dir: bool,
}

#[verifier::ext_equal]
pub struct ScanEntryV {
    pub name: Seq<char>,
    pub path: Seq<char>,
    pub is_dir: bool,
}

impl View for ScanEntry {
    type V = ScanEntryV;

    open spec fn view(&self) -> ScanEntryV {
        ScanEntryV { name: self.name@, path: self.path@, is_dir: self.is_dir }
    }
}

pub open spec fn scan_entry_views(v: Seq<ScanEntry>) -> Seq<ScanEntryV> {
    v.map_values(|e: ScanEntry| e@)
}

/// A directory that is still to be listed, with its depth below its root.
pub struct Pending {
    pub path: String,
    pub depth: usize,
}

pub open spec fn pending_views(v: Seq<Pending>) -> Seq<(Seq<char>, nat)> {
    v.map_values(|p: Pending| (p.path@, p.depth as nat))
}

/// A scan under way. The directory that is listed next is the last pending one.
pub struct Scan {
    pub max_depth: usize,
    pub pending: Vec<Pending>,
    pub found: Vec<RepoHit>,
    /// The lower-case paths of what was found.
    pub seen: Vec<String>,
}

#[verifier::ext_equal]
pub struct ScanV {
    pub max_depth: nat,
    pub pending: Seq<(Seq<char>, nat)>,
    pub found: Seq<HitV>,
    pub seen: Seq<Seq<char>>,
}

impl View for Scan {
    type V = ScanV;

    open spec fn view(&self) -> ScanV {
        ScanV {
            max_depth: self.max_depth as nat,
            pending: pending_views(self.pending@),
            found: hit_views(self.found@),
            seen: texts(self.seen@),
        }
    }
}

/// What holds all along: nothing pending lies too deep, and what was found is
/// recorded under its lower-case path, each once.
pub open spec fn scan_sound(s: ScanV) -> bool {
    &&& forall|i: int| 0 <= i < s.pending.len() ==> (#[trigger] s.pending[i]).1 <= s.max_depth
    &&& s.seen.len() == s.found.len()
    &&& forall|i: int| 0 <= i < s.found.len() ==> s.seen[i] == lowercase((#[trigger] s.found[i]).root)
    &&& s.seen.no_duplicates()
}

/// Whether a listing shows a repository.
pub open spec fn shows_repo(listing: Seq<ScanEntryV>) -> bool {
    exists|i: int|
        0 <= i < listing.len() && (#[trigger] listing[i]).name == ".git"@ && listing[i].is_dir
}

/// The directories to go into, the last of a listing first.
pub open spec fn below(listing: Seq<ScanEntryV>, depth: nat) -> Seq<(Seq<char>, nat)>
    decreases listing.len(),
{
    if listing.len() == 0 {
        Seq::empty()
    } else {
        let rest = below(listing.drop_first(), depth);
        if entered(listing[0].name) && listing[0].is_dir {
            rest.push((listing[0].path, depth))
        } else {
            rest
        }
    }
}

/// The scan after its next directory was listed. A repository is recorded and
/// not gone into; an unreadable directory is passed over. `name` is the last
/// part of the path, when it has one.
pub open spec fn visited(s: ScanV, listing: Option<Seq<ScanEntryV>>, name: Option<Seq<char>>) -> ScanV {
    let (path, depth) = s.pending.last();
    let rest = s.pending.drop_last();
    match listing {
        None => ScanV { pending: rest, ..s },
        Some(l) => if shows_repo(l) {
            if s.seen.contains(lowercase(path)) {
                ScanV { pending: rest, ..s }
            } else {
                ScanV {
                    pending: rest,
                    found: s.found.push(
                        HitV {
                            root: path,
                            label: match name {
                                Some(n) => n,
                                None => path,
                            },
                        },
                    ),
                    seen: s.seen.push(lowercase(path)),
                    ..s
                }
            }
        } else if depth < s.max_depth {
            ScanV { pending: rest + below(l, depth + 1), ..s }
        } else {
            ScanV { pending: rest, ..s }
        },
    }
}

fn has_git_dir(listing: &Vec<ScanEntry>) -> (r: bool)
    ensures
        r == shows_repo(scan_entry_views(listing@)),
{
    let ghost l = scan_entry_views(listing@);
    let mut i: usize = 0;
    while i < listing.len()
        invariant
            i <= listing@.len(),
            l == scan_entry_views(listing@),
            forall|j: int|
                0 <= j < i ==> !((#[trigger] l[j]).name == ".git"@ && l[j].is_dir),
        decreases listing@.len() - i,
    {
        assert(l[i as int] == listing@[i as int]@);
        if same(&listing[i].name, ".git") && listing[i].is_dir {
            return true;
        }
        i += 1;
    }
    false
}

impl Scan {
    /// A scan of the given roots, in their order.
    pub fn start(roots: &Vec<String>, max_depth: usize) -> (r: Scan)
        ensures
            r@.max_depth == max_depth,
            r@.pending == texts(roots@).reverse().map_values(|p: Seq<char>| (p, 0nat)),
            r@.found.len() == 0,
            scan_sound(r@),
    {
        let ghost want = texts(roots@).reverse().map_values(|p: Seq<char>| (p, 0nat));
        let mut pending: Vec<Pending> = Vec::new();
        let mut n: usize = roots.len();
        assert(pending_views(pending@) =~= want.take(0));
        while n > 0
            invariant
                n <= roots@.len(),
                want == texts(roots@).reverse().map_values(|p: Seq<char>| (p, 0nat)),
                pending_views(pending@) == want.take(roots@.len() - n),
            decreases n,
        {
            let ghost before = pending_views(pending@);
            n -= 1;
            let p = Pending { path: roots[n].clone(), depth: 0 };
            pending.push(p);
            assert(pending_views(pending@) =~= before.push((p.path@, 0)));
            assert(want[roots@.len() - 1 - n] == (roots@[n as int]@, 0nat));
            assert(want.take(roots@.len() - n) =~= before.push(want[roots@.len() - 1 - n]));
        }
        assert(want.take(roots@.len() as int) =~= want);
        let found: Vec<RepoHit> = Vec::new();
        let seen: Vec<String> = Vec::new();
        Scan { max_depth, pending, found, seen }
    }

    /// The directory that is listed next.
    pub fn next(&self) -> (r: Option<String>)
        ensures
            opt_text(r) == if self@.pending.len() == 0 {
                None
            } else {
                Some(self@.pending.last().0)
            },
    {
        let n: usize = self.pending.len();
        if n == 0 {
            None
        } else {
            assert(self@.pending[n - 1].0 == self.pending@[n - 1].path@);
            Some(self.pending[n - 1].path.clone())
        }
    }

    /// Takes in the listing of the next directory.
    pub fn visit(&mut self, listing: &Option<Vec<ScanEntry>>, name: &Option<String>)
        requires
            old(self)@.pending.len() > 0,
            scan_sound(old(self)@),
        ensures
            final(self)@ == visited(
                old(self)@,
                match *listing {
                    Some(l) => Some(scan_entry_views(l@)),
                    None => None,
                },
                opt_text(*name),
            ),
            scan_sound(final(self)@),
    {
        let ghost start = self@;
        let n: usize = self.pending.len();
        let dir = self.pending.remove(n - 1);
        assert(start.pending.last() == (dir.path@, dir.depth as nat));
        assert(pending_views(self.pending@) =~= start.pending.drop_last());
        assert forall|i: int| 0 <= i < self.pending@.len() implies (#[trigger] pending_views(
            self.pending@,
        )[i]).1 <= self.max_depth by {
            assert(pending_views(self.pending@)[i] == start.pending[i]);
        }
        if let Some(l) = listing {
            if has_git_dir(l) {
                let key = to_lowercase(&dir.path);
                if !list_has(&self.seen, &key) {
                    let label = match name {
                        Some(s) => s.clone(),
                        None => dir.path.clone(),
                    };
                    let ghost hits = hit_views(self.found@);
                    let ghost keys = texts(self.seen@);
                    let hit = RepoHit { root: dir.path, label };
                    self.found.push(hit);
                    assert(hit_views(self.found@) =~= hits.push(hit@));
                    self.seen.push(key);
                    assert(texts(self.seen@) =~= keys.push(key@));
                    assert(keys.push(key@).no_duplicates()) by {
                        assert(!keys.contains(key@));
                    }
                }
            } else if dir.depth < self.max_depth {
                let ghost rest = pending_views(self.pending@);
                let ghost all = scan_entry_views(l@);
                let ghost d = (dir.depth + 1) as nat;
                let mut k: usize = l.len();
                assert(all.skip(k as int) =~= Seq::empty());
                assert(rest + below(all.skip(k as int), d) =~= rest);
                while k > 0
                    invariant
                        k <= l@.len(),
                        all == scan_entry_views(l@),
                        d == dir.depth + 1,
                        dir.depth < self.max_depth,
                        self.max_depth == start.max_depth,
                        self.found == old(self).found,
                        self.seen == old(self).seen,
                        start == old(self)@,
                        pending_views(self.pending@) == rest + below(all.skip(k as int), d),
                        forall|i: int|
                            0 <= i < self.pending@.len() ==> (#[trigger] pending_views(
                                self.pending@,
                            )[i]).1 <= self.max_depth,
                    decreases k,
                {
                    k -= 1;
                    let ghost from = all.skip(k as int);
                    assert(from[0] == l@[k as int]@);
                    assert(from.drop_first() =~= all.skip(k + 1));
                    if enters(&l[k].name) && l[k].is_dir {
                        let ghost before = pending_views(self.pending@);
                        let p = Pending { path: l[k].path.clone(), depth: dir.depth + 1 };
                        self.pending.push(p);
                        assert(pending_views(self.pending@) =~= before.push((p.path@, d)));
                        assert(before.push((p.path@, d)) =~= rest + below(from, d));
                        assert forall|i: int| 0 <= i < self.pending@.len() implies (
                        #[trigger] pending_views(self.pending@)[i]).1 <= self.max_depth by {
                            if i < before.len() {
                                assert(before[i].1 <= self.max_depth);
                            }
                        }
                    }
                }
                assert(all.skip(0) =~= all);
            }
        }
    }
}

/// However the directories turn out to be, no repository is reported twice, not
/// even under a path in other letter case.
pub proof fn law_no_repository_is_found_twice(s: ScanV, i: int, j: int)
    requires
        scan_sound(s),
        0 <= i < j < s.found.len(),
    ensures
        lowercase(s.found[i].root) != lowercase(s.found[j].root),
{
    assert(s.seen[i] == lowercase(s.found[i].root));
    assert(s.seen[j] == lowercase(s.found[j].root));
}

} // verus!
