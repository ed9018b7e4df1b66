//! The review of changes: which files changed and by how much, what a commit
//! message is written from, and the pull request of a branch.

use crate::git::REVIEW_FILE_CAP;
use crate::git_status::{
    at_most, changed_path, count_views, read_changed_path, read_unmerged_path, unmerged_path,
    FileCount, FileCountV,
};
use crate::json::{field, str_field, Json, JsonV};
use crate::order::{in_order, insert_by, lemma_sorted_by, sorted_by};
use crate::outside::{to_uppercase, uppercase};
use crate::text::{
    after_prefix, before, chars_of, dec, decimal, is_before, join, join_of, lemma_before_total,
    lemma_before_transitive, lines, lines_of, opt_text, or_empty, pick, same, split, split_of,
    starts, starts_with, strip_prefix, texts, trim, trimmed, words, words_of, Class,
};
use crate::windows::{byte_len, cut_bytes, cuts_cleanly, truncate_bytes};
use vstd::prelude::*;
use vstd::utf8::encode_utf8;

verus! {

// ---------------------------------------------------------------------------
// Status entries
// ---------------------------------------------------------------------------

/// One line of `git status --porcelain=v2`.
pub struct StatusEntry {
    pub path: String,
    pub index: char,
    pub working: char,
    pub untracked: bool,
}

#[verifier::ext_equal]
pub struct EntryV {
    pub path: Seq<char>,
    pub index: char,
    pub working: char,
    pub untracked: bool,
}

impl View for StatusEntry {
    type V = EntryV;

    open spec fn view(&self) -> EntryV {
        EntryV {
            path: self.path@,
            index: self.index,
            working: self.working,
            untracked: self.untracked,
        }
    }
}

pub open spec fn status_entry_views(v: Seq<StatusEntry>) -> Seq<EntryV> {
    v.map_values(|e: StatusEntry| e@)
}

/// The character of a code at an index; a space stands for an absent one.
pub open spec fn code_char(code: Seq<char>, i: int) -> char {
    if i < code.len() {
        code[i]
    } else {
        ' '
    }
}

/// What a status line says of one path.
pub open spec fn entry_of(line: Seq<char>) -> Option<EntryV> {
    match after_prefix(line, "? "@) {
        Some(rest) => Some(
            EntryV { path: trimmed(rest), index: '?', working: '?', untracked: true },
        ),
        None => {
            let cols = words_of(line, Class::AsciiWhite);
            if starts(line, "1 "@) || starts(line, "2 "@) {
                if cols.len() < 3 {
                    None
                } else {
                    Some(
                        EntryV {
                            path: changed_path(line),
                            index: code_char(cols[1], 0),
                            working: code_char(cols[1], 1),
                            untracked: false,
                        },
                    )
                }
            } else if starts(line, "u "@) {
                match unmerged_path(line) {
                    Some(p) => Some(EntryV { path: p, index: 'U', working: 'U', untracked: false }),
                    None => None,
                }
            } else {
                None
            }
        },
    }
}

pub fn parse_status_v2(line: &str) -> (r: Option<StatusEntry>)
    ensures
        match r {
            Some(e) => entry_of(line@) == Some(e@),
            None => entry_of(line@) is None,
        },
{
    if let Some(rest) = strip_prefix(line, "? ") {
        return Some(
            StatusEntry { path: trim(&rest), index: '?', working: '?', untracked: true },
        );
    }
    let cols = words(line, Class::AsciiWhite);
    let ghost cs = words_of(line@, Class::AsciiWhite);
    assert(cs.len() == cols@.len());
    if starts_with(line, "1 ") || starts_with(line, "2 ") {
        if cols.len() < 3 {
            return None;
        }
        assert(texts(cols@)[1] == cols@[1]@);
        let code = chars_of(&cols[1]);
        let index = if code.len() > 0 {
            code[0]
        } else {
            ' '
        };
        let working = if code.len() > 1 {
            code[1]
        } else {
            ' '
        };
        return Some(
            StatusEntry { path: read_changed_path(line), index, working, untracked: false },
        );
    }
    if starts_with(line, "u ") {
        if let Some(p) = read_unmerged_path(line) {
            return Some(StatusEntry { path: p, index: 'U', working: 'U', untracked: false });
        }
    }
    None
}

pub open spec fn entries_of(out: Seq<char>) -> Seq<EntryV> {
    pick(lines_of(out), |l: Seq<char>| entry_of(l))
}

pub fn parse_status_v2_lines(out: &str) -> (r: Vec<StatusEntry>)
    ensures
        status_entry_views(r@) == entries_of(out@),
{
    let all = lines(out);
    let ghost l = lines_of(out@);
    let ghost f = |l: Seq<char>| entry_of(l);
    let mut res: Vec<StatusEntry> = Vec::new();
    assert(status_entry_views(res@) =~= pick(l.take(0), f));
    let mut i: usize = 0;
    while i < all.len()
        invariant
            i <= all@.len(),
            texts(all@) == l,
            f == (|l: Seq<char>| entry_of(l)),
            status_entry_views(res@) == pick(l.take(i as int), f),
        decreases all@.len() - i,
    {
        assert(l.take(i + 1).drop_last() =~= l.take(i as int));
        assert(l.take(i + 1).last() == all@[i as int]@) by {
            assert(texts(all@)[i as int] == all@[i as int]@);
        }
        if let Some(e) = parse_status_v2(&all[i]) {
            let ghost before = status_entry_views(res@);
            res.push(e);
            assert(status_entry_views(res@) =~= before.push(e@));
        }
        i += 1;
    }
    assert(l.take(i as int) =~= l);
    res
}

/// The letter shown for an entry: its index code, else its working code, else
/// `M`.
pub open spec fn letter_of(e: EntryV) -> Seq<char> {
    if e.untracked {
        "?"@
    } else {
        let code = if e.index != ' ' {
            e.index
        } else {
            e.working
        };
        uppercase(
            seq![
                if code == ' ' {
                    'M'
                } else {
                    code
                },
            ],
        )
    }
}

pub fn status_letter(e: &StatusEntry) -> (r: String)
    ensures
        r@ == letter_of(e@),
{
    if e.untracked {
        return "?".to_string();
    }
    let code = if e.index != ' ' {
        e.index
    } else {
        e.working
    };
    let mut one = String::new();
    one.push(
        if code == ' ' {
            'M'
        } else {
            code
        },
    );
    assert(one@ =~= seq![
        if code == ' ' {
            'M'
        } else {
            code
        },
    ]);
    to_uppercase(&one)
}

pub open spec fn in_index(e: EntryV) -> bool {
    e.index != ' ' && e.index != '?'
}

// ---------------------------------------------------------------------------
// Changed files
// ---------------------------------------------------------------------------

pub struct ReviewFile {
    pub path: String,
    pub added: u64,
    pub removed: u64,
    pub status: String,
    pub staged: bool,
}

#[verifier::ext_equal]
pub struct ReviewV {
    pub path: Seq<char>,
    pub added: int,
    pub removed: int,
    pub status: Seq<char>,
    pub staged: bool,
}

impl View for ReviewFile {
    type V = ReviewV;

    open spec fn view(&self) -> ReviewV {
        ReviewV {
            path: self.path@,
            added: self.added as int,
            removed: self.removed as int,
            status: self.status@,
            staged: self.staged,
        }
    }
}

pub open spec fn review_views(v: Seq<ReviewFile>) -> Seq<ReviewV> {
    v.map_values(|f: ReviewFile| f@)
}

pub struct ReviewList {
    pub files: Vec<ReviewFile>,
    pub base: Option<String>,
}

/// The order of the paths.
pub open spec fn path_order() -> spec_fn(ReviewV, ReviewV) -> bool {
    |a: ReviewV, b: ReviewV| before(a.path, b.path)
}

fn insert_file(v: &mut Vec<ReviewFile>, f: ReviewFile)
    ensures
        review_views(final(v)@) == insert_by(review_views(old(v)@), f@, path_order()),
{
    let ghost start = v@;
    let ghost s = review_views(start);
    let ghost x = f@;
    let ghost less = path_order();
    let mut n: usize = v.len();
    assert(s.take(n as int) =~= s);
    assert(insert_by(s.take(n as int), x, less) + s.skip(n as int) =~= insert_by(s, x, less));
    while n > 0 && is_before(&f.path, &v[n - 1].path)
        invariant
            n <= v@.len(),
            v@ == start,
            start == old(v)@,
            s == review_views(start),
            x == f@,
            less == path_order(),
            insert_by(s, x, less) == insert_by(s.take(n as int), x, less) + s.skip(n as int),
        decreases n,
    {
        let ghost t = s.take(n as int);
        assert(t.drop_last() =~= s.take(n - 1));
        assert(t.last() == v@[n - 1]@);
        assert(insert_by(t, x, less) + s.skip(n as int) =~= insert_by(s.take(n - 1), x, less)
            + s.skip(n - 1));
        n -= 1;
    }
    let ghost t = s.take(n as int);
    assert(n > 0 ==> t.last() == v@[n - 1]@);
    v.insert(n, f);
    assert(review_views(v@) =~= t.push(x) + s.skip(n as int));
}

/// The files in the order of their paths.
pub fn sort_files(files: Vec<ReviewFile>) -> (r: Vec<ReviewFile>)
    ensures
        review_views(r@) == sorted_by(review_views(files@), path_order()),
{
    let mut out: Vec<ReviewFile> = Vec::new();
    let ghost all = review_views(files@);
    assert(review_views(out@) =~= sorted_by(all.take(0), path_order()));
    let mut i: usize = 0;
    while i < files.len()
        invariant
            i <= files@.len(),
            all == review_views(files@),
            review_views(out@) == sorted_by(all.take(i as int), path_order()),
        decreases files@.len() - i,
    {
        let f = copy_file(&files[i]);
        assert(f@ == all[i as int]);
        assert(all.take(i + 1).drop_last() =~= all.take(i as int));
        insert_file(&mut out, f);
        i += 1;
    }
    assert(all.take(i as int) =~= all);
    out
}

fn copy_file(f: &ReviewFile) -> (r: ReviewFile)
    ensures
        r@ == f@,
{
    ReviewFile {
        path: f.path.clone(),
        added: f.added,
        removed: f.removed,
        status: f.status.clone(),
        staged: f.staged,
    }
}

/// A review lists exactly the files it was given, in the order of their paths.
pub proof fn law_review_is_sorted(v: Seq<ReviewV>)
    ensures
        in_order(sorted_by(v, path_order()), path_order()),
        sorted_by(v, path_order()).to_multiset() == v.to_multiset(),
{
    let less = path_order();
    assert forall|a: ReviewV, b: ReviewV| #[trigger] less(a, b) implies !less(b, a) by {
        lemma_before_total(a.path, b.path);
    }
    assert forall|a: ReviewV, b: ReviewV, c: ReviewV|
        #![trigger less(b, a), less(c, b)]
        !less(b, a) && !less(c, b) implies !less(c, a) by {
        lemma_before_transitive(a.path, b.path, c.path);
    }
    lemma_sorted_by(v, less);
}

/// The counts of a path: those of its last entry.
pub open spec fn counts_for(v: Seq<FileCountV>, path: Seq<char>) -> (u64, u64)
    decreases v.len(),
{
    if v.len() == 0 {
        (0, 0)
    } else if v.last().path == path {
        (v.last().added, v.last().removed)
    } else {
        counts_for(v.drop_last(), path)
    }
}

fn find_counts(v: &Vec<FileCount>, path: &str) -> (r: (u64, u64))
    ensures
        r == counts_for(count_views(v@), path@),
{
    let ghost s = count_views(v@);
    let mut n: usize = v.len();
    assert(s.take(n as int) =~= s);
    while n > 0
        invariant
            n <= v@.len(),
            s == count_views(v@),
            counts_for(s, path@) == counts_for(s.take(n as int), path@),
        decreases n,
    {
        assert(s.take(n as int).last() == v@[n - 1]@);
        assert(s.take(n as int).drop_last() =~= s.take(n - 1));
        if same(&v[n - 1].path, path) {
            return (v[n - 1].added, v[n - 1].removed);
        }
        n -= 1;
    }
    (0, 0)
}

/// A changed file, with its staged and unstaged lines together.
pub open spec fn review_of(
    e: EntryV,
    staged: Seq<FileCountV>,
    unstaged: Seq<FileCountV>,
) -> ReviewV {
    let s = counts_for(staged, e.path);
    let u = counts_for(unstaged, e.path);
    ReviewV {
        path: e.path,
        added: s.0 + u.0,
        removed: s.1 + u.1,
        status: letter_of(e),
        staged: in_index(e),
    }
}

pub open spec fn fits(f: ReviewV) -> bool {
    f.added <= u64::MAX && f.removed <= u64::MAX
}

pub open spec fn uncommitted_of(
    status_out: Seq<char>,
    staged: Seq<FileCountV>,
    unstaged: Seq<FileCountV>,
) -> Seq<ReviewV> {
    entries_of(status_out).map_values(|e: EntryV| review_of(e, staged, unstaged))
}

/// At most two thousand files, in the order of their paths.
pub open spec fn uncommitted_list(all: Seq<ReviewV>) -> Seq<ReviewV> {
    sorted_by(at_most(all, 2000), path_order())
}

/// The uncommitted files: at most two thousand, in the order of their paths.
/// `None` when the lines of a file do not fit.
pub fn review_list_uncommitted(
    status_out: &str,
    staged: &Vec<FileCount>,
    unstaged: &Vec<FileCount>,
) -> (r: Option<Vec<ReviewFile>>)
    ensures
        ({
            let all = uncommitted_of(status_out@, count_views(staged@), count_views(unstaged@));
            match r {
                Some(v) => {
                    &&& forall|i: int| 0 <= i < all.len() ==> fits(#[trigger] all[i])
                    &&& review_views(v@) == uncommitted_list(all)
                },
                None => exists|i: int| 0 <= i < all.len() && !fits(#[trigger] all[i]),
            }
        }),
{
    let entries = parse_status_v2_lines(status_out);
    let ghost es = entries_of(status_out@);
    let ghost all = uncommitted_of(status_out@, count_views(staged@), count_views(unstaged@));
    let mut files: Vec<ReviewFile> = Vec::new();
    assert(review_views(files@) =~= all.take(0));
    let mut i: usize = 0;
    while i < entries.len()
        invariant
            i <= entries@.len(),
            status_entry_views(entries@) == es,
            es == entries_of(status_out@),
            all == uncommitted_of(status_out@, count_views(staged@), count_views(unstaged@)),
            review_views(files@) == all.take(i as int),
            forall|j: int| 0 <= j < i ==> fits(#[trigger] all[j]),
        decreases entries@.len() - i,
    {
        let ghost e = es[i as int];
        assert(entries@[i as int]@ == e);
        let (sa, sr) = find_counts(staged, &entries[i].path);
        let (ua, ur) = find_counts(unstaged, &entries[i].path);
        let ghost want = review_of(e, count_views(staged@), count_views(unstaged@));
        assert(all[i as int] == want);
        match (sa.checked_add(ua), sr.checked_add(ur)) {
            (Some(added), Some(removed)) => {
                let in_idx = entries[i].index != ' ' && entries[i].index != '?';
                let f = ReviewFile {
                    path: entries[i].path.clone(),
                    added,
                    removed,
                    status: status_letter(&entries[i]),
                    staged: in_idx,
                };
                let ghost before = review_views(files@);
                assert(f@ =~= want);
                files.push(f);
                assert(review_views(files@) =~= before.push(want));
                assert(all.take(i + 1) =~= all.take(i as int).push(want));
            },
            _ => {
                assert(!fits(all[i as int]));
                return None;
            },
        }
        i += 1;
    }
    assert(all.take(i as int) =~= all);
    files.truncate(REVIEW_FILE_CAP);
    assert(review_views(files@) =~= at_most(all, 2000));
    Some(sort_files(files))
}

/// A file whose lines are still to be counted.
pub open spec fn uncounted(f: ReviewV) -> bool {
    f.status == "?"@ && f.added == 0 && f.removed == 0
}

pub fn needs_count(f: &ReviewFile) -> (r: bool)
    ensures
        r == uncounted(f@),
{
    same(&f.status, "?") && f.added == 0 && f.removed == 0
}

/// A file with the lines that were counted for it, where it lacks them.
pub open spec fn counted(f: ReviewV, lines: u64) -> ReviewV {
    if uncounted(f) {
        ReviewV { added: lines as int, ..f }
    } else {
        f
    }
}

/// Gives untracked files the lines that were counted for them, file by file.
pub fn fill_untracked_counts(files: Vec<ReviewFile>, counts: &Vec<u64>) -> (r: Vec<ReviewFile>)
    requires
        counts@.len() == files@.len(),
    ensures
        r@.len() == files@.len(),
        forall|i: int|
            0 <= i < files@.len() ==> (#[trigger] r@[i])@ == counted(files@[i]@, counts@[i]),
{
    let mut out: Vec<ReviewFile> = Vec::new();
    let mut i: usize = 0;
    while i < files.len()
        invariant
            i <= files@.len(),
            counts@.len() == files@.len(),
            out@.len() == i,
            forall|j: int|
                0 <= j < i ==> (#[trigger] out@[j])@ == if uncounted(files@[j]@) {
                    ReviewV { added: counts@[j] as int, ..files@[j]@ }
                } else {
                    files@[j]@
                },
        decreases files@.len() - i,
    {
        let mut f = copy_file(&files[i]);
        if needs_count(&f) {
            f.added = counts[i];
        }
        assert(f@ =~= if uncounted(files@[i as int]@) {
            ReviewV { added: counts@[i as int] as int, ..files@[i as int]@ }
        } else {
            files@[i as int]@
        });
        out.push(f);
        i += 1;
    }
    out
}

/// A file of a range of commits.
pub open spec fn range_file(c: FileCountV) -> ReviewV {
    ReviewV {
        path: c.path,
        added: c.added as int,
        removed: c.removed as int,
        status: "M"@,
        staged: false,
    }
}

pub open spec fn has_path(v: Seq<ReviewV>, path: Seq<char>) -> bool {
    exists|i: int| 0 <= i < v.len() && (#[trigger] v[i]).path == path
}

/// One more status line: an untracked file that is not listed yet is added,
/// while there is room.
pub open spec fn with_untracked_line(v: Seq<ReviewV>, line: Seq<char>) -> Seq<ReviewV> {
    if v.len() >= 2000 {
        v
    } else {
        match after_prefix(line, "? "@) {
            Some(rest) => if has_path(v, trimmed(rest)) {
                v
            } else {
                v.push(
                    ReviewV {
                        path: trimmed(rest),
                        added: 0,
                        removed: 0,
                        status: "?"@,
                        staged: false,
                    },
                )
            },
            None => v,
        }
    }
}

pub open spec fn with_untracked(v: Seq<ReviewV>, l: Seq<Seq<char>>) -> Seq<ReviewV>
    decreases l.len(),
{
    if l.len() == 0 {
        v
    } else {
        with_untracked_line(with_untracked(v, l.drop_last()), l.last())
    }
}

/// The files of a range, at most two thousand; with the untracked ones of a
/// status when one is given. In the order of their paths.
pub open spec fn range_list_of(counts: Seq<FileCountV>, status_out: Option<Seq<char>>) -> Seq<
    ReviewV,
> {
    let files = at_most(counts.map_values(|c: FileCountV| range_file(c)), 2000);
    sorted_by(
        match status_out {
            Some(s) => with_untracked(files, lines_of(s)),
            None => files,
        },
        path_order(),
    )
}

fn list_has_path(v: &Vec<ReviewFile>, path: &str) -> (r: bool)
    ensures
        r == has_path(review_views(v@), path@),
{
    let ghost s = review_views(v@);
    let mut i: usize = 0;
    while i < v.len()
        invariant
            i <= v@.len(),
            s == review_views(v@),
            forall|j: int| 0 <= j < i ==> (#[trigger] s[j]).path != path@,
        decreases v@.len() - i,
    {
        if same(&v[i].path, path) {
            assert(s[i as int].path == path@);
            return true;
        }
        i += 1;
    }
    false
}

pub fn review_list_range(counts: &Vec<FileCount>, status_out: &Option<String>) -> (r: Vec<
    ReviewFile,
>)
    ensures
        review_views(r@) == range_list_of(count_views(counts@), opt_text(*status_out)),
{
    let ghost cs = count_views(counts@);
    let ghost all = cs.map_values(|c: FileCountV| range_file(c));
    let mut files: Vec<ReviewFile> = Vec::new();
    assert(review_views(files@) =~= all.take(0));
    let mut i: usize = 0;
    while i < counts.len()
        invariant
            i <= counts@.len(),
            cs == count_views(counts@),
            all == cs.map_values(|c: FileCountV| range_file(c)),
            review_views(files@) == all.take(i as int),
        decreases counts@.len() - i,
    {
        let ghost before = review_views(files@);
        let f = ReviewFile {
            path: counts[i].path.clone(),
            added: counts[i].added,
            removed: counts[i].removed,
            status: "M".to_string(),
            staged: false,
        };
        assert(cs[i as int] == counts@[i as int]@);
        assert(f@ =~= all[i as int]);
        files.push(f);
        assert(review_views(files@) =~= before.push(f@));
        assert(all.take(i + 1) =~= all.take(i as int).push(all[i as int]));
        i += 1;
    }
    assert(all.take(i as int) =~= all);
    files.truncate(REVIEW_FILE_CAP);
    let ghost base = at_most(all, 2000);
    assert(review_views(files@) =~= base);
    if let Some(status) = status_out {
        let l = lines(status);
        let ghost ls = lines_of(status@);
        assert(ls.take(0) =~= Seq::<Seq<char>>::empty());
        let mut j: usize = 0;
        while j < l.len()
            invariant
                j <= l@.len(),
                texts(l@) == ls,
                review_views(files@) == with_untracked(base, ls.take(j as int)),
            decreases l@.len() - j,
        {
            assert(ls.take(j + 1).drop_last() =~= ls.take(j as int));
            assert(ls.take(j + 1).last() == l@[j as int]@) by {
                assert(texts(l@)[j as int] == l@[j as int]@);
            }
            if files.len() < REVIEW_FILE_CAP {
                if let Some(rest) = strip_prefix(&l[j], "? ") {
                    let p = trim(&rest);
                    if !list_has_path(&files, &p) {
                        let ghost before = review_views(files@);
                        let f = ReviewFile {
                            path: p,
                            added: 0,
                            removed: 0,
                            status: "?".to_string(),
                            staged: false,
                        };
                        files.push(f);
                        assert(review_views(files@) =~= before.push(f@));
                    }
                }
            }
            j += 1;
        }
        assert(ls.take(j as int) =~= ls);
    }
    sort_files(files)
}

/// What a review looks at.
pub enum ReviewScope {
    /// The working tree.
    Uncommitted,
    /// A range without a known base.
    Nothing,
    /// What changed since `base`; the untracked files too, for the last turn.
    Range { base: String, range: String, with_untracked: bool },
}

pub enum ReviewScopeV {
    Uncommitted,
    Nothing,
    Range { base: Seq<char>, range: Seq<char>, with_untracked: bool },
}

impl View for ReviewScope {
    type V = ReviewScopeV;

    open spec fn view(&self) -> ReviewScopeV {
        match self {
            ReviewScope::Uncommitted => ReviewScopeV::Uncommitted,
            ReviewScope::Nothing => ReviewScopeV::Nothing,
            ReviewScope::Range { base, range, with_untracked } => ReviewScopeV::Range {
                base: base@,
                range: range@,
                with_untracked: *with_untracked,
            },
        }
    }
}

pub open spec fn scope_of(
    scope: Seq<char>,
    branch_base: Option<Seq<char>>,
    base_ref: Option<Seq<char>>,
) -> ReviewScopeV {
    if scope == "branch"@ {
        match branch_base {
            Some(b) => ReviewScopeV::Range {
                base: b,
                range: b + "...HEAD"@,
                with_untracked: false,
            },
            None => ReviewScopeV::Nothing,
        }
    } else if scope == "lastTurn"@ {
        match base_ref {
            Some(b) => ReviewScopeV::Range { base: b, range: b, with_untracked: true },
            None => ReviewScopeV::Nothing,
        }
    } else {
        ReviewScopeV::Uncommitted
    }
}

/// The scope of a review. The merge base matters for a branch, the recorded
/// ref for the last turn.
pub fn review_scope(
    scope: &str,
    branch_base: &Option<String>,
    base_ref: &Option<String>,
) -> (r: ReviewScope)
    ensures
        r@ == scope_of(scope@, opt_text(*branch_base), opt_text(*base_ref)),
{
    if same(scope, "branch") {
        match branch_base {
            Some(b) => {
                let mut range = b.clone();
                range.append("...HEAD");
                ReviewScope::Range { base: b.clone(), range, with_untracked: false }
            },
            None => ReviewScope::Nothing,
        }
    } else if same(scope, "lastTurn") {
        match base_ref {
            Some(b) => ReviewScope::Range {
                base: b.clone(),
                range: b.clone(),
                with_untracked: true,
            },
            None => ReviewScope::Nothing,
        }
    } else {
        ReviewScope::Uncommitted
    }
}

// ---------------------------------------------------------------------------
// Commit context
// ---------------------------------------------------------------------------

pub const COMMIT_CONTEXT_DIFF_MAX_CHARS: usize = 120000;

pub const COMMIT_CONTEXT_UNTRACKED_MAX: usize = 80;

pub struct CommitContext {
    pub diff: String,
    pub recent: String,
}

/// A text of at most `max` bytes, with a note on what was left out.
pub open spec fn capped(text: Seq<char>, max: nat, label: Seq<char>) -> Seq<char> {
    let n = encode_utf8(text).len();
    if n <= max {
        text
    } else {
        cut_bytes(text, max) + "\n# "@ + label + ": "@ + dec((n - max) as nat)
            + " chars omitted\n"@
    }
}

/// Cuts a text after `max` bytes. The cut must not split a character.
pub fn cap_text(text: &str, max: usize, label: &str) -> (r: String)
    requires
        cuts_cleanly(text@, max as nat),
    ensures
        r@ == capped(text@, max as nat, label@),
{
    let n: usize = byte_len(text);
    if n <= max {
        return text.to_string();
    }
    let mut out = truncate_bytes(text, max);
    out.append("\n# ");
    out.append(label);
    out.append(": ");
    out.append(&decimal((n - max) as u128));
    out.append(" chars omitted\n");
    out
}

/// The paths of the untracked entries.
pub open spec fn untracked_paths(e: Seq<EntryV>) -> Seq<Seq<char>>
    decreases e.len(),
{
    if e.len() == 0 {
        Seq::empty()
    } else if e.last().untracked {
        untracked_paths(e.drop_last()).push(e.last().path)
    } else {
        untracked_paths(e.drop_last())
    }
}

/// The note on new files: the first eighty by name, the rest by number.
pub open spec fn untracked_note(paths: Seq<Seq<char>>) -> Seq<char> {
    let shown = at_most(paths, 80);
    let listed = "\n# New (untracked) files:\n"@ + join_of(
        shown.map_values(|p: Seq<char>| "#   "@ + p),
        "\n"@,
    );
    let omitted = paths.len() - shown.len();
    (if omitted > 0 {
        listed + ("\n#   ... "@ + dec(omitted as nat) + " more omitted"@)
    } else {
        listed
    }).push('\n')
}

/// A change that is in the index: a dot stands for none.
pub open spec fn staged_change(e: EntryV) -> bool {
    in_index(e) && e.index != '.'
}

/// Whether anything is staged.
pub open spec fn any_staged(e: Seq<EntryV>) -> bool {
    exists|i: int| 0 <= i < e.len() && staged_change(#[trigger] e[i])
}

pub fn has_staged(entries: &Vec<StatusEntry>) -> (r: bool)
    ensures
        r == any_staged(status_entry_views(entries@)),
{
    let ghost es = status_entry_views(entries@);
    let mut i: usize = 0;
    while i < entries.len()
        invariant
            i <= entries@.len(),
            es == status_entry_views(entries@),
            forall|j: int| 0 <= j < i ==> !staged_change(#[trigger] es[j]),
        decreases entries@.len() - i,
    {
        if entries[i].index != ' ' && entries[i].index != '?' && entries[i].index != '.' {
            assert(staged_change(es[i as int]));
            return true;
        }
        i += 1;
    }
    false
}

fn list_untracked(entries: &Vec<StatusEntry>) -> (r: Vec<String>)
    ensures
        texts(r@) == untracked_paths(status_entry_views(entries@)),
{
    let ghost es = status_entry_views(entries@);
    let mut out: Vec<String> = Vec::new();
    assert(texts(out@) =~= untracked_paths(es.take(0)));
    let mut i: usize = 0;
    while i < entries.len()
        invariant
            i <= entries@.len(),
            es == status_entry_views(entries@),
            texts(out@) == untracked_paths(es.take(i as int)),
        decreases entries@.len() - i,
    {
        assert(es.take(i + 1).drop_last() =~= es.take(i as int));
        assert(es.take(i + 1).last() == entries@[i as int]@);
        if entries[i].untracked {
            let ghost before = texts(out@);
            let p = entries[i].path.clone();
            out.push(p);
            assert(texts(out@) =~= before.push(p@));
        }
        i += 1;
    }
    assert(es.take(i as int) =~= es);
    out
}

fn write_untracked_note(paths: &Vec<String>) -> (r: String)
    ensures
        r@ == untracked_note(texts(paths@)),
{
    let ghost ps = texts(paths@);
    let n: usize = if paths.len() <= COMMIT_CONTEXT_UNTRACKED_MAX {
        paths.len()
    } else {
        COMMIT_CONTEXT_UNTRACKED_MAX
    };
    let ghost shown = at_most(ps, 80);
    assert(shown =~= ps.take(n as int));
    let ghost f = |p: Seq<char>| "#   "@ + p;
    let mut rows: Vec<String> = Vec::new();
    assert(texts(rows@) =~= shown.map_values(f).take(0));
    let mut i: usize = 0;
    while i < n
        invariant
            i <= n,
            n <= paths@.len(),
            ps == texts(paths@),
            shown == ps.take(n as int),
            f == (|p: Seq<char>| "#   "@ + p),
            texts(rows@) == shown.map_values(f).take(i as int),
        decreases n - i,
    {
        let ghost before = texts(rows@);
        let mut row = "#   ".to_string();
        row.append(&paths[i]);
        assert(texts(paths@)[i as int] == paths@[i as int]@);
        assert(row@ =~= f(shown[i as int]));
        rows.push(row);
        assert(texts(rows@) =~= before.push(row@));
        assert(shown.map_values(f).take(i + 1) =~= shown.map_values(f).take(i as int).push(
            f(shown[i as int]),
        ));
        i += 1;
    }
    assert(shown.map_values(f).take(i as int) =~= shown.map_values(f));
    let mut note = "\n# New (untracked) files:\n".to_string();
    note.append(&join(&rows, "\n"));
    let omitted: usize = paths.len() - n;
    if omitted > 0 {
        let mut more = "\n#   ... ".to_string();
        more.append(&decimal(omitted as u128));
        more.append(" more omitted");
        note.append(&more);
    }
    note.push('\n');
    note
}

pub open spec fn context_diff(diff: Seq<char>, status_out: Seq<char>) -> Seq<char> {
    let paths = untracked_paths(entries_of(status_out));
    let body = capped(diff, 120000, "diff truncated for commit-message generation"@);
    if paths.len() == 0 {
        body
    } else {
        body + untracked_note(paths)
    }
}

/// What a commit message is written from: the diff, cut to size, the untracked
/// files, and the recent subjects.
pub fn commit_context(diff: &str, status_out: &str, recent: &str) -> (r: CommitContext)
    requires
        cuts_cleanly(diff@, 120000),
    ensures
        r.diff@ == context_diff(diff@, status_out@),
        r.recent@ == trimmed(recent@),
{
    let mut body = cap_text(
        diff,
        COMMIT_CONTEXT_DIFF_MAX_CHARS,
        "diff truncated for commit-message generation",
    );
    let entries = parse_status_v2_lines(status_out);
    let paths = list_untracked(&entries);
    assert(texts(paths@).len() == paths@.len());
    if paths.len() > 0 {
        body.append(&write_untracked_note(&paths));
    }
    CommitContext { diff: body, recent: trim(recent) }
}

// ---------------------------------------------------------------------------
// Pull requests
// ---------------------------------------------------------------------------

pub struct ReviewPr {
    pub url: String,
    pub state: String,
    pub number: i64,
}

pub struct ReviewShipInfo {
    pub gh_ready: bool,
    pub pr: Option<ReviewPr>,
}

pub open spec fn pr_of(j: JsonV) -> Option<(Seq<char>, Seq<char>, i64)> {
    match str_field(j, "url"@) {
        Some(url) => Some(
            (
                url,
                or_empty(str_field(j, "state"@)),
                match field(j, "number"@) {
                    Some(JsonV::Int(n)) => n,
                    _ => 0i64,
                },
            ),
        ),
        None => None,
    }
}

pub open spec fn pr_view(p: Option<ReviewPr>) -> Option<(Seq<char>, Seq<char>, i64)> {
    match p {
        Some(p) => Some((p.url@, p.state@, p.number)),
        None => None,
    }
}

/// The pull request that `gh` knows of, where it can be used.
pub open spec fn known_pr(authenticated: bool, view: Option<JsonV>) -> Option<
    (Seq<char>, Seq<char>, i64),
> {
    match view {
        Some(j) => if authenticated {
            pr_of(j)
        } else {
            None
        },
        None => None,
    }
}

/// Whether `gh` can be used, and the pull request it knows of. `view` is the
/// value that it printed, when it printed one.
pub fn ship_info(authenticated: bool, view: &Option<Json>) -> (r: ReviewShipInfo)
    ensures
        r.gh_ready == authenticated,
        pr_view(r.pr) == known_pr(authenticated, crate::registry::opt_json(*view)),
{
    if !authenticated {
        return ReviewShipInfo { gh_ready: false, pr: None };
    }
    let pr = match view {
        Some(v) => match v.get_str("url") {
            Some(url) => {
                let state = match v.get_str("state") {
                    Some(s) => s,
                    None => String::new(),
                };
                assert(state@ =~= or_empty(str_field(v@, "state"@)));
                let number: i64 = match v.get("number") {
                    Some(Json::Int(n)) => *n,
                    _ => 0,
                };
                Some(ReviewPr { url, state, number })
            },
            None => None,
        },
        None => None,
    };
    ReviewShipInfo { gh_ready: true, pr }
}

/// The last line that is not blank.
pub open spec fn last_shown(l: Seq<Seq<char>>) -> Seq<char>
    decreases l.len(),
{
    if l.len() == 0 {
        Seq::empty()
    } else if trimmed(l.last()).len() > 0 {
        l.last()
    } else {
        last_shown(l.drop_last())
    }
}

/// The address of a pull request that was just opened.
pub open spec fn opened_pr(ok: bool, stdout: Seq<char>) -> Result<Seq<char>, Seq<char>> {
    if ok {
        Ok(last_shown(split_of(trimmed(stdout), '\n')))
    } else {
        Err("gh pr create failed (is gh installed and authenticated?)"@)
    }
}

pub fn created_pr_url(ok: bool, stdout: &str) -> (r: Result<String, String>)
    ensures
        crate::text::text_result(r) == opened_pr(ok, stdout@),
{
    if !ok {
        return Err("gh pr create failed (is gh installed and authenticated?)".to_string());
    }
    let t = trim(stdout);
    let l = split(&t, '\n');
    let ghost ls = split_of(t@, '\n');
    let mut n: usize = l.len();
    assert(ls.take(n as int) =~= ls);
    while n > 0
        invariant
            n <= l@.len(),
            texts(l@) == ls,
            ok,
            ls == split_of(trimmed(stdout@), '\n'),
            last_shown(ls) == last_shown(ls.take(n as int)),
        decreases n,
    {
        assert(ls.take(n as int).last() == l@[n - 1]@) by {
            assert(texts(l@)[n - 1] == l@[n - 1]@);
        }
        assert(ls.take(n as int).drop_last() =~= ls.take(n - 1));
        let shown = trim(&l[n - 1]);
        if !shown.as_str().is_empty() {
            return Ok(l[n - 1].clone());
        }
        n -= 1;
    }
    let none = String::new();
    assert(none@ =~= Seq::<char>::empty());
    Ok(none)
}

} // verus!
