//! What holds of the review of changes and of the search for repositories.

use crate::git_review::{
    any_staged, capped, context_diff, counted, entries_of, known_pr, last_shown,
    law_review_is_sorted, letter_of, opened_pr, path_order, range_file, review_of, scope_of,
    staged_change, uncommitted_list, uncommitted_of, untracked_paths, with_untracked,
    with_untracked_line, EntryV, ReviewScopeV, ReviewV,
};
use crate::git_scan::{
    below, entered, expanded, scan_depth_of, shows_repo, visited, way_up, RootStep, ScanEntryV,
    ScanReposOptions, ScanRootV, ScanV,
};
use crate::git_status::{at_most, FileCountV};
use crate::json::{field, str_field, JsonV};
use crate::outside::{lowercase, uppercase};
use crate::text::{before, starts, Class};
use crate::text_laws::{
    law_a_piece_is_itself, law_blank_trims_to_nothing, law_trimming_takes_off_the_ends,
    lemma_as_it_is, only, trim_text,
};
use crate::windows::cut_bytes;
use vstd::prelude::*;
use vstd::utf8::encode_utf8;

verus! {

// ---------------------------------------------------------------------------
// The review of changes
// ---------------------------------------------------------------------------

/// The letter of a file is that of the index where there is one, else that of
/// the working tree; a new file has a question mark.
pub proof fn law_a_file_is_shown_by_its_letter(e: EntryV)
    ensures
        e.untracked ==> letter_of(e) == "?"@,
        !e.untracked && e.index != ' ' ==> letter_of(e) == uppercase(seq![e.index]),
        !e.untracked && e.index == ' ' && e.working != ' ' ==> letter_of(e) == uppercase(
            seq![e.working],
        ),
        !e.untracked && e.index == ' ' && e.working == ' ' ==> letter_of(e) == uppercase(
            seq!['M'],
        ),
{
}

/// The lines of a file are those of its staged and of its unstaged changes
/// together; other files do not count.
pub proof fn law_staged_and_unstaged_lines_add_up(
    e: EntryV,
    s: Seq<FileCountV>,
    u: Seq<FileCountV>,
    a: FileCountV,
    b: FileCountV,
    other: FileCountV,
)
    requires
        a.path == e.path,
        b.path == e.path,
        other.path != e.path,
    ensures
        ({
            let r = review_of(e, s.push(a), u.push(b));
            &&& r.path == e.path
            &&& r.added == a.added + b.added
            &&& r.removed == a.removed + b.removed
            &&& r.status == letter_of(e)
            &&& r.staged <==> e.index != ' ' && e.index != '?'
        }),
        review_of(e, s.push(other), u) == review_of(e, s, u),
        review_of(e, s, u.push(other)) == review_of(e, s, u),
        review_of(e, Seq::empty(), Seq::empty()).added == 0,
        review_of(e, Seq::empty(), Seq::empty()).removed == 0,
{
    assert(s.push(a).drop_last() =~= s);
    assert(u.push(b).drop_last() =~= u);
    assert(s.push(other).drop_last() =~= s);
    assert(u.push(other).drop_last() =~= u);
}

/// Every line of a status that tells of a file has its review, in turn.
pub proof fn law_every_changed_file_is_reviewed(
    out: Seq<char>,
    s: Seq<FileCountV>,
    u: Seq<FileCountV>,
    i: int,
)
    requires
        0 <= i < entries_of(out).len(),
    ensures
        uncommitted_of(out, s, u).len() == entries_of(out).len(),
        uncommitted_of(out, s, u)[i].path == entries_of(out)[i].path,
        uncommitted_of(out, s, u)[i] == review_of(entries_of(out)[i], s, u),
{
}

/// A list holds the first two thousand files and no other, in the order of their
/// paths.
pub proof fn law_a_review_lists_every_file(all: Seq<ReviewV>, i: int, j: int)
    requires
        0 <= i < j < uncommitted_list(all).len(),
    ensures
        all.len() <= 2000 ==> uncommitted_list(all).to_multiset() == all.to_multiset(),
        all.len() > 2000 ==> uncommitted_list(all).to_multiset() == all.take(2000).to_multiset(),
        !before(uncommitted_list(all)[j].path, uncommitted_list(all)[i].path),
{
    law_review_is_sorted(at_most(all, 2000));
    let v = uncommitted_list(all);
    assert(!(path_order())(v[j], v[i]));
    if all.len() <= 2000 {
        assert(at_most(all, 2000) =~= all);
    } else {
        assert(at_most(all, 2000) =~= all.take(2000));
    }
}

/// A new file gets the lines that were counted for it; any other file keeps its
/// own.
pub proof fn law_only_new_files_are_counted(f: ReviewV, n: u64)
    ensures
        f.status == "?"@ && f.added == 0 && f.removed == 0 ==> counted(f, n).added == n,
        f.status != "?"@ || f.added != 0 || f.removed != 0 ==> counted(f, n) == f,
        counted(f, n).path == f.path && counted(f, n).removed == f.removed && counted(f, n).status
            == f.status && counted(f, n).staged == f.staged,
{
}

/// The files of a range are shown as changed, with the lines that were counted,
/// and new files are added behind them once, where there is room.
pub proof fn law_a_range_shows_its_files(c: FileCountV, v: Seq<ReviewV>, p: Seq<char>, o: Seq<char>)
    requires
        trim_text(p),
        v.len() < 2000,
        !starts(o, "? "@),
    ensures
        range_file(c).path == c.path && range_file(c).added == c.added && range_file(c).removed
            == c.removed && range_file(c).status == "M"@ && !range_file(c).staged,
        (forall|i: int| 0 <= i < v.len() ==> (#[trigger] v[i]).path != p) ==> {
            let w = with_untracked_line(v, "? "@ + p);
            &&& w.len() == v.len() + 1 && w.drop_last() == v
            &&& w.last().path == p && w.last().status == "?"@ && w.last().added == 0
                && w.last().removed == 0 && !w.last().staged
        },
        (exists|i: int| 0 <= i < v.len() && (#[trigger] v[i]).path == p) ==> with_untracked_line(
            v,
            "? "@ + p,
        ) == v,
        with_untracked_line(v, o) == v,
{
    reveal_strlit("? ");
    assert("? "@.len() == 2);
    let s = "? "@ + p;
    assert(s.take(2) =~= "? "@);
    assert(s.skip(2) =~= p);
    lemma_as_it_is(p);
    if forall|i: int| 0 <= i < v.len() ==> (#[trigger] v[i]).path != p {
        assert(with_untracked_line(v, s).drop_last() =~= v);
    }
}

/// A branch is reviewed from where it left its base, the last turn from where it
/// began, with new files; without a base there is nothing to review. Anything
/// else is the working tree.
pub proof fn law_a_scope_starts_at_its_base(
    scope: Seq<char>,
    base: Option<Seq<char>>,
    turn: Option<Seq<char>>,
    b: Seq<char>,
)
    ensures
        scope_of("branch"@, Some(b), turn) == (ReviewScopeV::Range {
            base: b,
            range: b + "...HEAD"@,
            with_untracked: false,
        }),
        scope_of("lastTurn"@, base, Some(b)) == (ReviewScopeV::Range {
            base: b,
            range: b,
            with_untracked: true,
        }),
        scope_of("branch"@, None, turn) == ReviewScopeV::Nothing,
        scope_of("lastTurn"@, base, None) == ReviewScopeV::Nothing,
        scope != "branch"@ && scope != "lastTurn"@ ==> scope_of(scope, base, turn)
            == ReviewScopeV::Uncommitted,
{
    reveal_strlit("branch");
    reveal_strlit("lastTurn");
    assert("branch"@.len() == 6 && "lastTurn"@.len() == 8);
}

/// A change counts as staged where the index has a letter for it.
pub proof fn law_staged_is_what_the_index_has(e: Seq<EntryV>, x: EntryV)
    ensures
        staged_change(x) <==> x.index != ' ' && x.index != '?' && x.index != '.',
        any_staged(e.push(x)) <==> any_staged(e) || staged_change(x),
        !any_staged(Seq::empty()),
{
    let v = e.push(x);
    if any_staged(e) {
        let i = choose|i: int| 0 <= i < e.len() && staged_change(#[trigger] e[i]);
        assert(v[i] == e[i]);
    }
    if staged_change(x) {
        assert(v[e.len() as int] == x);
    }
    if any_staged(v) {
        let i = choose|i: int| 0 <= i < v.len() && staged_change(#[trigger] v[i]);
        if i < e.len() {
            assert(e[i] == v[i]);
        }
    }
}

/// A short diff is given whole, and a long one up to its limit. New files are
/// noted behind it, by their paths and in their order.
pub proof fn law_a_diff_is_given_up_to_its_limit(
    text: Seq<char>,
    max: nat,
    label: Seq<char>,
    e: Seq<EntryV>,
    x: EntryV,
)
    ensures
        encode_utf8(text).len() <= max ==> capped(text, max, label) == text,
        x.untracked ==> untracked_paths(e.push(x)) == untracked_paths(e).push(x.path),
        !x.untracked ==> untracked_paths(e.push(x)) == untracked_paths(e),
        untracked_paths(Seq::empty()) == Seq::<Seq<char>>::empty(),
        entries_of(label).len() == 0 && encode_utf8(text).len() > 120000 ==> context_diff(
            text,
            label,
        ).take(cut_bytes(text, 120000).len() as int) == cut_bytes(text, 120000),
        entries_of(label).len() == 0 && encode_utf8(text).len() <= 120000 ==> context_diff(
            text,
            label,
        ) == text,
{
    assert(e.push(x).drop_last() =~= e);
    if entries_of(label).len() == 0 && encode_utf8(text).len() > 120000 {
        let c = cut_bytes(text, 120000);
        assert(context_diff(text, label).take(c.len() as int) =~= c);
    }
}

/// A pull request is known by its address, its state and its number, and only
/// where `gh` may be used.
pub proof fn law_a_pull_request_is_known_by_its_address(j: JsonV, u: Seq<char>)
    ensures
        str_field(j, "url"@) == Some(u) ==> (known_pr(true, Some(j)) matches Some(p) && p.0 == u
            && (str_field(j, "state"@) matches Some(s) ==> p.1 == s) && (field(j, "number"@)
            matches Some(JsonV::Int(n)) ==> p.2 == n)),
        str_field(j, "url"@) is None ==> known_pr(true, Some(j)) is None,
        known_pr(false, Some(j)) is None,
        known_pr(true, None) is None,
{
}

/// The address of a new pull request is the last line that was printed; where the
/// run failed there is none.
pub proof fn law_a_new_pull_request_is_the_last_line(
    l: Seq<Seq<char>>,
    u: Seq<char>,
    w: Seq<char>,
    out: Seq<char>,
)
    requires
        trim_text(u),
        only(w, Class::White),
        !u.contains('\n'),
    ensures
        last_shown(l.push(u)) == u,
        last_shown(l.push(w)) == last_shown(l),
        opened_pr(true, u + seq!['\n']) == Ok::<Seq<char>, Seq<char>>(u),
        opened_pr(false, out) is Err,
{
    lemma_as_it_is(u);
    law_blank_trims_to_nothing(w, Class::White);
    assert(l.push(u).drop_last() =~= l);
    assert(l.push(w).drop_last() =~= l);
    law_trimming_takes_off_the_ends(Seq::empty(), u, seq!['\n'], Class::White);
    assert(Seq::<char>::empty() + u + seq!['\n'] =~= u + seq!['\n']);
    law_a_piece_is_itself(u, '\n');
    assert(Seq::<Seq<char>>::empty().push(u) =~= seq![u]);
    assert(seq![u].last() == u);
}

// ---------------------------------------------------------------------------
// The search for repositories
// ---------------------------------------------------------------------------

/// The root is the lowest directory on the way up that holds a repository; there
/// is none above the top, and none beyond fifty directories.
pub proof fn law_the_root_is_the_lowest_repository(seen: Seq<bool>, parent: bool)
    ensures
        seen.len() < 0x1_0000 ==> way_up(seen.push(true), parent) == RootStep::Found(
            seen.len() as usize,
        ),
        way_up(Seq::empty(), parent) == RootStep::Look(0),
        seen.len() < 49 ==> way_up(seen.push(false), true) == RootStep::Look(
            (seen.len() + 1) as usize,
        ),
        way_up(seen.push(false), false) == RootStep::Absent,
        seen.len() >= 49 ==> way_up(seen.push(false), parent) == RootStep::Absent,
{
}

/// A scan that is switched off finds nothing; otherwise it goes as deep as it is
/// told, and three levels where it is not told.
pub proof fn law_a_scan_goes_as_deep_as_told(o: ScanReposOptions, d: i32)
    ensures
        o.enabled == Some(false) ==> scan_depth_of(o) is None,
        o.enabled != Some(false) && o.max_depth is None ==> scan_depth_of(o) == Some(3nat),
        o.enabled != Some(false) && o.max_depth == Some(d) && d >= 0 ==> scan_depth_of(o) == Some(
            d as nat,
        ),
        o.enabled != Some(false) && o.max_depth == Some(d) && d < 0 ==> scan_depth_of(o) == Some(
            0nat,
        ),
{
}

/// A tilde stands for the home, and what follows its slash lies below it; any
/// other path is itself.
pub proof fn law_a_tilde_is_the_home(p: Seq<char>)
    requires
        trim_text(p),
        p[0] != '~',
    ensures
        expanded("~"@) == ScanRootV::Home,
        expanded("~/"@ + p) == ScanRootV::BelowHome(p),
        expanded("~\\"@ + p) == ScanRootV::BelowHome(p),
        expanded(p) == ScanRootV::Given(p),
{
    reveal_strlit("~");
    reveal_strlit("~/");
    reveal_strlit("~\\");
    assert("~"@.len() == 1 && "~"@[0] == '~');
    assert("~/"@.len() == 2 && "~/"@[0] == '~' && "~/"@[1] == '/');
    assert("~\\"@.len() == 2 && "~\\"@[0] == '~' && "~\\"@[1] == '\\');
    lemma_as_it_is("~"@);
    lemma_as_it_is(p);
    let a = "~/"@ + p;
    let b = "~\\"@ + p;
    assert(trim_text(a)) by {
        assert(a[0] == '~' && a.last() == p.last());
    }
    assert(trim_text(b)) by {
        assert(b[0] == '~' && b.last() == p.last());
    }
    lemma_as_it_is(a);
    lemma_as_it_is(b);
    assert(a.take(2) =~= "~/"@ && a.skip(2) =~= p);
    assert(b.take(2) =~= "~\\"@ && b.skip(2) =~= p);
    assert("~/"@ != "~\\"@);
    if p.len() >= 2 {
        assert(p.take(2)[0] == p[0]);
    }
}

/// A directory that holds a repository is found under its own path and name,
/// once, and is not gone into.
pub proof fn law_a_repository_is_found_where_it_lies(
    s: ScanV,
    l: Seq<ScanEntryV>,
    name: Option<Seq<char>>,
    path: Seq<char>,
    depth: nat,
    i: int,
)
    requires
        s.pending.len() > 0,
        s.pending.last() == (path, depth),
        0 <= i < l.len(),
        l[i].name == ".git"@ && l[i].is_dir,
    ensures
        ({
            let n = visited(s, Some(l), name);
            &&& n.pending == s.pending.drop_last()
            &&& !s.seen.contains(lowercase(path)) ==> n.found.len() == s.found.len() + 1
                && n.found.drop_last() == s.found && n.found.last().root == path && (name matches
                Some(x) ==> n.found.last().label == x) && (name is None ==> n.found.last().label
                == path)
            &&& s.seen.contains(lowercase(path)) ==> n.found == s.found
        }),
{
    assert(shows_repo(l));
    let n = visited(s, Some(l), name);
    if !s.seen.contains(lowercase(path)) {
        assert(n.found.drop_last() =~= s.found);
    }
}

/// A directory without a repository is gone into while there is depth left; what
/// cannot be read, or lies too deep, is passed over and nothing is found in it.
pub proof fn law_other_directories_are_gone_into(
    s: ScanV,
    l: Seq<ScanEntryV>,
    name: Option<Seq<char>>,
    path: Seq<char>,
    depth: nat,
)
    requires
        s.pending.len() > 0,
        s.pending.last() == (path, depth),
        forall|i: int| 0 <= i < l.len() ==> (#[trigger] l[i]).name != ".git"@,
    ensures
        visited(s, Some(l), name).found == s.found,
        depth < s.max_depth ==> visited(s, Some(l), name).pending == s.pending.drop_last() + below(
            l,
            depth + 1,
        ),
        depth >= s.max_depth ==> visited(s, Some(l), name).pending == s.pending.drop_last(),
        visited(s, None, name).pending == s.pending.drop_last(),
        visited(s, None, name).found == s.found,
{
}

/// Of a listing the plain directories are gone into, the first of them next;
/// hidden ones, files and those that hold what others made are not.
pub proof fn law_plain_directories_are_gone_into(e: ScanEntryV, l: Seq<ScanEntryV>, depth: nat)
    ensures
        e.is_dir && entered(e.name) ==> below(seq![e] + l, depth) == below(l, depth).push(
            (e.path, depth),
        ),
        !e.is_dir || !entered(e.name) ==> below(seq![e] + l, depth) == below(l, depth),
        below(Seq::empty(), depth) == Seq::<(Seq<char>, nat)>::empty(),
        starts(e.name, "."@) ==> !entered(e.name),
        !entered("node_modules"@) && !entered("vendor"@) && !entered("venv"@) && !entered(
            "site-packages"@,
        ) && !entered("Library"@) && !entered("Applications"@),
        !starts(e.name, "."@) && e.name.len() < 4 ==> entered(e.name),
{
    assert((seq![e] + l).drop_first() =~= l);
    reveal_strlit("Applications");
    reveal_strlit("Library");
    reveal_strlit("node_modules");
    reveal_strlit("site-packages");
    reveal_strlit("vendor");
    reveal_strlit("venv");
    assert("Applications"@.len() == 12 && "Library"@.len() == 7 && "node_modules"@.len() == 12);
    assert("site-packages"@.len() == 13 && "vendor"@.len() == 6 && "venv"@.len() == 4);
}

} // verus!
