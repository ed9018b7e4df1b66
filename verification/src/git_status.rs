//! The state of a working tree: the compact status of the coding rail, change
//! counts, and the names that renames lead to.

use crate::git::UNTRACKED_LINE_MAX_BYTES;
use crate::text::{
    after_prefix, chars_of, contains, contains_of, find_char, find_chars, find_from, find_of,
    index_of, lines, lines_of, opt_text, or_empty, parse_i64, parse_int_of, parse_nat_of, parse_u64,
    pick, split, split_of, starts, starts_with, strip_prefix, text_of, text_or_empty, text_range,
    texts, trim, trimmed, words, words_of, Class,
};
use vstd::prelude::*;
use vstd::utf8::encode_utf8;

verus! {

// ---------------------------------------------------------------------------
// Numbers in columns
// ---------------------------------------------------------------------------

/// The value of an unsigned column.
pub open spec fn count_of_text(s: Seq<char>) -> Option<nat> {
    match parse_nat_of(s, 10) {
        Some(n) => if n <= u64::MAX {
            Some(n)
        } else {
            None
        },
        None => None,
    }
}

pub fn parse_count(s: &str) -> (r: Option<u64>)
    ensures
        match r {
            Some(n) => count_of_text(s@) == Some(n as nat),
            None => count_of_text(s@) is None,
        },
{
    parse_u64(s, 10)
}

/// The value of a signed column.
pub open spec fn signed_of_text(s: Seq<char>) -> Option<int> {
    match parse_int_of(s) {
        Some(n) => if i64::MIN <= n <= i64::MAX {
            Some(n)
        } else {
            None
        },
        None => None,
    }
}

/// The column at an index.
pub open spec fn column(cols: Seq<Seq<char>>, i: int) -> Option<Seq<char>> {
    if 0 <= i < cols.len() {
        Some(cols[i])
    } else {
        None
    }
}

pub fn column_at(cols: &Vec<String>, i: usize) -> (r: Option<String>)
    ensures
        opt_text(r) == column(texts(cols@), i as int),
{
    if i < cols.len() {
        assert(texts(cols@)[i as int] == cols@[i as int]@);
        Some(cols[i].clone())
    } else {
        None
    }
}

// ---------------------------------------------------------------------------
// Compact status
// ---------------------------------------------------------------------------

pub struct RepoStatusFile {
    pub path: String,
    pub staged: bool,
    pub unstaged: bool,
    pub untracked: bool,
    pub conflicted: bool,
}

#[verifier::ext_equal]
pub struct StatusFileV {
    pub path: Seq<char>,
    pub staged: bool,
    pub unstaged: bool,
    pub untracked: bool,
    pub conflicted: bool,
}

impl View for RepoStatusFile {
    type V = StatusFileV;

    open spec fn view(&self) -> StatusFileV {
        StatusFileV {
            path: self.path@,
            staged: self.staged,
            unstaged: self.unstaged,
            untracked: self.untracked,
            conflicted: self.conflicted,
        }
    }
}

pub open spec fn file_views(v: Seq<RepoStatusFile>) -> Seq<StatusFileV> {
    v.map_values(|f: RepoStatusFile| f@)
}

/// What the lines of a status say.
pub struct StatusParse {
    pub branch: Option<String>,
    pub ahead: i64,
    pub behind: i64,
    pub files: Vec<RepoStatusFile>,
    pub untracked: Vec<String>,
}

#[verifier::ext_equal]
pub struct StatusParseV {
    pub branch: Option<Seq<char>>,
    pub ahead: int,
    pub behind: int,
    pub files: Seq<StatusFileV>,
    pub untracked: Seq<Seq<char>>,
}

impl View for StatusParse {
    type V = StatusParseV;

    open spec fn view(&self) -> StatusParseV {
        StatusParseV {
            branch: opt_text(self.branch),
            ahead: self.ahead as int,
            behind: self.behind as int,
            files: file_views(self.files@),
            untracked: texts(self.untracked@),
        }
    }
}

/// A count with its sign, out of the `branch.ab` line.
pub open spec fn signed_part(
    parts: Seq<Seq<char>>,
    i: int,
    sign: Seq<char>,
    default: int,
) -> int {
    match column(parts, i) {
        Some(p) => match after_prefix(p, sign) {
            Some(n) => match signed_of_text(n) {
                Some(v) => v,
                None => default,
            },
            None => default,
        },
        None => default,
    }
}

/// The byte of a code at an index; a dot stands for an absent one.
pub open spec fn code_byte(code: Seq<char>, i: int) -> u8 {
    if i < encode_utf8(code).len() {
        encode_utf8(code)[i]
    } else {
        46u8
    }
}

/// What stands behind the `n`th `c` of a text.
pub open spec fn past(s: Seq<char>, c: char, n: nat) -> Option<Seq<char>>
    decreases s.len(),
{
    if n == 0 {
        Some(s)
    } else if s.len() == 0 {
        None
    } else {
        past(
            s.drop_first(),
            c,
            if s[0] == c {
                (n - 1) as nat
            } else {
                n
            },
        )
    }
}

/// A text up to its first `c`.
pub open spec fn up_to(s: Seq<char>, c: char) -> Seq<char> {
    match index_of(s, c) {
        Some(i) => s.take(i),
        None => s,
    }
}

/// The path of a `1` or `2` line: all that stands behind the eighth space; after
/// a rename all behind the ninth, up to the tab in front of the former path.
/// Empty when the line is too short.
pub open spec fn changed_path(line: Seq<char>) -> Seq<char> {
    if starts(line, "2 "@) {
        up_to(or_empty(past(line, ' ', 9)), '\t')
    } else {
        or_empty(past(line, ' ', 8))
    }
}

/// The path of a `u` line: all that stands behind the tenth space.
pub open spec fn unmerged_path(line: Seq<char>) -> Option<Seq<char>> {
    past(line, ' ', 10)
}

/// The file of a `1` or `2` line, with its code in the second column.
pub open spec fn changed_file(line: Seq<char>) -> Option<StatusFileV> {
    let cols = words_of(line, Class::AsciiWhite);
    if cols.len() < 3 {
        None
    } else {
        let x = code_byte(cols[1], 0);
        let y = code_byte(cols[1], 1);
        Some(
            StatusFileV {
                path: changed_path(line),
                staged: x != 46,
                unstaged: y != 46,
                untracked: false,
                conflicted: x == 85 || y == 85,
            },
        )
    }
}

pub open spec fn status_line(p: StatusParseV, line: Seq<char>) -> StatusParseV {
    match after_prefix(line, "# branch.head "@) {
        Some(rest) => StatusParseV { branch: Some(trimmed(rest)), ..p },
        None => match after_prefix(line, "# branch.ab "@) {
            Some(rest) => {
                let parts = words_of(trimmed(rest), Class::White);
                StatusParseV {
                    ahead: signed_part(parts, 0, "+"@, p.ahead),
                    behind: signed_part(parts, 1, "-"@, p.behind),
                    ..p
                }
            },
            None => match after_prefix(line, "? "@) {
                Some(rest) => StatusParseV { untracked: p.untracked.push(trimmed(rest)), ..p },
                None => if starts(line, "1 "@) || starts(line, "2 "@) {
                    match changed_file(line) {
                        Some(f) => StatusParseV { files: p.files.push(f), ..p },
                        None => p,
                    }
                } else if starts(line, "u "@) {
                    match unmerged_path(line) {
                        Some(path) => StatusParseV {
                            files: p.files.push(
                                StatusFileV {
                                    path,
                                    staged: false,
                                    unstaged: false,
                                    untracked: false,
                                    conflicted: true,
                                },
                            ),
                            ..p
                        },
                        None => p,
                    }
                } else {
                    p
                },
            },
        },
    }
}

pub open spec fn empty_status() -> StatusParseV {
    StatusParseV {
        branch: None,
        ahead: 0,
        behind: 0,
        files: Seq::empty(),
        untracked: Seq::empty(),
    }
}

pub open spec fn status_of(l: Seq<Seq<char>>) -> StatusParseV
    decreases l.len(),
{
    if l.len() == 0 {
        empty_status()
    } else {
        status_line(status_of(l.drop_last()), l.last())
    }
}

fn parse_signed_part(parts: &Vec<String>, i: usize, sign: &str, default: i64) -> (r: i64)
    ensures
        r == signed_part(texts(parts@), i as int, sign@, default as int),
{
    match column_at(parts, i) {
        Some(p) => match strip_prefix(&p, sign) {
            Some(n) => match parse_i64(&n) {
                Some(v) => v,
                None => default,
            },
            None => default,
        },
        None => default,
    }
}

fn byte_or_dot(code: &Vec<u8>, i: usize) -> (r: u8)
    ensures
        r == if i < code@.len() {
            code@[i as int]
        } else {
            46u8
        },
{
    if i < code.len() {
        code[i]
    } else {
        46
    }
}

fn text_past(s: &str, c: char, n: usize) -> (r: Option<String>)
    ensures
        opt_text(r) == past(s@, c, n as nat),
{
    let v = chars_of(s);
    let mut left: usize = n;
    let mut i: usize = 0;
    assert(s@.skip(0) =~= s@);
    while left > 0
        invariant
            i <= v@.len(),
            v@ == s@,
            past(s@, c, n as nat) == past(s@.skip(i as int), c, left as nat),
        decreases v@.len() - i, left,
    {
        if i == v.len() {
            return None;
        }
        assert(s@.skip(i as int).drop_first() =~= s@.skip(i + 1));
        if v[i] == c {
            left -= 1;
        }
        i += 1;
    }
    assert(v@.subrange(i as int, v@.len() as int) =~= s@.skip(i as int));
    Some(text_range(&v, i, v.len()))
}

fn text_up_to(s: &str, c: char) -> (r: String)
    ensures
        r@ == up_to(s@, c),
{
    let v = chars_of(s);
    match find_char(&v, c) {
        Some(i) => {
            assert(v@.subrange(0, i as int) =~= s@.take(i as int));
            text_range(&v, 0, i)
        },
        None => s.to_string(),
    }
}

/// The path of a `1` or `2` line.
pub fn read_changed_path(line: &str) -> (r: String)
    ensures
        r@ == changed_path(line@),
{
    if starts_with(line, "2 ") {
        text_up_to(&text_or_empty(&text_past(line, ' ', 9)), '\t')
    } else {
        text_or_empty(&text_past(line, ' ', 8))
    }
}

/// The path of a `u` line.
pub fn read_unmerged_path(line: &str) -> (r: Option<String>)
    ensures
        opt_text(r) == unmerged_path(line@),
{
    text_past(line, ' ', 10)
}

fn parse_changed_file(line: &str) -> (r: Option<RepoStatusFile>)
    ensures
        match r {
            Some(f) => changed_file(line@) == Some(f@),
            None => changed_file(line@) is None,
        },
{
    let cols = words(line, Class::AsciiWhite);
    let ghost cs = words_of(line@, Class::AsciiWhite);
    assert(cs.len() == cols@.len());
    if cols.len() < 3 {
        return None;
    }
    assert(texts(cols@)[1] == cols@[1]@);
    let code = cols[1].as_str().as_bytes_vec();
    let x: u8 = byte_or_dot(&code, 0);
    let y: u8 = byte_or_dot(&code, 1);
    Some(
        RepoStatusFile {
            path: read_changed_path(line),
            staged: x != 46,
            unstaged: y != 46,
            untracked: false,
            conflicted: x == 85 || y == 85,
        },
    )
}

/// Reads `git status --porcelain=v2 --branch`.
pub fn parse_repo_status(out: &str) -> (r: StatusParse)
    ensures
        r@ == status_of(lines_of(out@)),
{
    let all = lines(out);
    let ghost l = lines_of(out@);
    let mut p = StatusParse {
        branch: None,
        ahead: 0,
        behind: 0,
        files: Vec::new(),
        untracked: Vec::new(),
    };
    assert(p@ =~= status_of(l.take(0))) by {
        assert(file_views(p.files@) =~= Seq::<StatusFileV>::empty());
        assert(texts(p.untracked@) =~= Seq::<Seq<char>>::empty());
    }
    let mut i: usize = 0;
    while i < all.len()
        invariant
            i <= all@.len(),
            texts(all@) == l,
            p@ == status_of(l.take(i as int)),
        decreases all@.len() - i,
    {
        assert(l.take(i + 1).drop_last() =~= l.take(i as int));
        assert(l.take(i + 1).last() == all@[i as int]@) by {
            assert(texts(all@)[i as int] == all@[i as int]@);
        }
        let ghost start = p@;
        let line = &all[i];
        if let Some(rest) = strip_prefix(line, "# branch.head ") {
            p.branch = Some(trim(&rest));
        } else if let Some(rest) = strip_prefix(line, "# branch.ab ") {
            let parts = words(&trim(&rest), Class::White);
            p.ahead = parse_signed_part(&parts, 0, "+", p.ahead);
            p.behind = parse_signed_part(&parts, 1, "-", p.behind);
        } else if let Some(rest) = strip_prefix(line, "? ") {
            let name = trim(&rest);
            p.untracked.push(name);
            assert(texts(p.untracked@) =~= start.untracked.push(name@));
        } else if starts_with(line, "1 ") || starts_with(line, "2 ") {
            if let Some(f) = parse_changed_file(line) {
                p.files.push(f);
                assert(file_views(p.files@) =~= start.files.push(f@));
            }
        } else if starts_with(line, "u ") {
            if let Some(path) = read_unmerged_path(line) {
                let f = RepoStatusFile {
                    path,
                    staged: false,
                    unstaged: false,
                    untracked: false,
                    conflicted: true,
                };
                p.files.push(f);
                assert(file_views(p.files@) =~= start.files.push(f@));
            }
        }
        assert(p@ =~= status_line(start, all@[i as int]@));
        i += 1;
    }
    assert(l.take(i as int) =~= l);
    p
}

/// How many elements satisfy the predicate.
pub open spec fn how_many(v: Seq<StatusFileV>, p: spec_fn(StatusFileV) -> bool) -> nat
    decreases v.len(),
{
    if v.len() == 0 {
        0
    } else {
        how_many(v.drop_last(), p) + if p(v.last()) {
            1nat
        } else {
            0nat
        }
    }
}

// ---------------------------------------------------------------------------
// Lines of new files
// ---------------------------------------------------------------------------

pub open spec fn newlines(b: Seq<u8>) -> nat
    decreases b.len(),
{
    if b.len() == 0 {
        0
    } else {
        newlines(b.drop_last()) + if b.last() == 10 {
            1nat
        } else {
            0nat
        }
    }
}

/// The lines of a text file: one for each line end, and one for a last line
/// without an end. A file with a NUL byte counts as binary, and has none.
pub open spec fn inserted_lines(b: Seq<u8>) -> nat {
    if b.contains(0u8) {
        0
    } else {
        newlines(b) + if b.len() > 0 && b.last() != 10 {
            1nat
        } else {
            0nat
        }
    }
}

/// The lines that an untracked file adds. `content` is what could be read of
/// it, and `regular` and `len` say what it is.
pub open spec fn insertions_of(regular: bool, len: u64, content: Option<Seq<u8>>) -> nat {
    if !regular || len > 1048576 {
        0
    } else {
        match content {
            Some(b) => inserted_lines(b),
            None => 0,
        }
    }
}

pub fn untracked_insertions(regular: bool, len: u64, content: &Option<Vec<u8>>) -> (r: u64)
    ensures
        r == insertions_of(
            regular,
            len,
            match *content {
                Some(b) => Some(b@),
                None => None,
            },
        ),
{
    if !regular || len > UNTRACKED_LINE_MAX_BYTES {
        return 0;
    }
    let b = match content {
        Some(b) => b,
        None => {
            return 0;
        },
    };
    let mut n: u64 = 0;
    let size: usize = b.len();
    let mut i: usize = 0;
    while i < size
        invariant
            i <= size,
            size == b@.len(),
            n <= i,
            n == newlines(b@.take(i as int)),
            forall|j: int| 0 <= j < i ==> #[trigger] b@[j] != 0u8,
            regular,
            len <= 1048576,
            *content == Some(*b),
        decreases size - i,
    {
        assert(b@.take(i + 1).drop_last() =~= b@.take(i as int));
        if b[i] == 0 {
            assert(b@.contains(b@[i as int]));
            return 0;
        }
        if b[i] == 10 {
            n += 1;
        }
        i += 1;
    }
    assert(b@.take(i as int) =~= b@);
    assert(!b@.contains(0u8));
    proof {
        lemma_newlines_room(b@);
    }
    if size > 0 && b[size - 1] != 10 {
        n += 1;
    }
    n
}

proof fn lemma_newlines_room(b: Seq<u8>)
    ensures
        newlines(b) <= b.len(),
        b.len() > 0 && b.last() != 10 ==> newlines(b) < b.len(),
    decreases b.len(),
{
    if b.len() > 0 {
        lemma_newlines_room(b.drop_last());
    }
}

// ---------------------------------------------------------------------------
// Change counts
// ---------------------------------------------------------------------------

/// The sum of one column over the lines that have three.
pub open spec fn column_sum(l: Seq<Seq<char>>, col: int) -> nat
    decreases l.len(),
{
    if l.len() == 0 {
        0
    } else {
        let cols = split_of(l.last(), '\t');
        column_sum(l.drop_last(), col) + if cols.len() >= 3 {
            match count_of_text(cols[col]) {
                Some(n) => n,
                None => 0,
            }
        } else {
            0
        }
    }
}

proof fn lemma_column_sum_grows(l: Seq<Seq<char>>, i: int, col: int)
    requires
        0 <= i <= l.len(),
    ensures
        column_sum(l.take(i), col) <= column_sum(l, col),
    decreases l.len() - i,
{
    if i < l.len() {
        lemma_column_sum_grows(l, i + 1, col);
        assert(l.take(i + 1).drop_last() =~= l.take(i));
    } else {
        assert(l.take(i) =~= l);
    }
}

/// Lines added and removed in all of `git diff --numstat`; `None` when a sum
/// does not fit.
pub fn diff_numstat(out: &str) -> (r: Option<(u64, u64)>)
    ensures
        ({
            let added = column_sum(lines_of(out@), 0);
            let removed = column_sum(lines_of(out@), 1);
            match r {
                Some((a, d)) => a == added && d == removed,
                None => added > u64::MAX || removed > u64::MAX,
            }
        }),
{
    let all = lines(out);
    let ghost l = lines_of(out@);
    let mut added: u64 = 0;
    let mut removed: u64 = 0;
    let mut i: usize = 0;
    while i < all.len()
        invariant
            i <= all@.len(),
            texts(all@) == l,
            l == lines_of(out@),
            added == column_sum(l.take(i as int), 0),
            removed == column_sum(l.take(i as int), 1),
        decreases all@.len() - i,
    {
        let ghost t = l.take(i + 1);
        assert(t.drop_last() =~= l.take(i as int));
        assert(t.last() == all@[i as int]@) by {
            assert(texts(all@)[i as int] == all@[i as int]@);
        }
        proof {
            lemma_column_sum_grows(l, i + 1, 0);
            lemma_column_sum_grows(l, i + 1, 1);
        }
        let cols = split(&all[i], '\t');
        let ghost cs = split_of(all@[i as int]@, '\t');
        assert(cs.len() == cols@.len());
        if cols.len() >= 3 {
            assert(cols@[0]@ == cs[0] && cols@[1]@ == cs[1]) by {
                assert(texts(cols@)[0] == cols@[0]@);
                assert(texts(cols@)[1] == cols@[1]@);
            }
            if let Some(a) = parse_count(&cols[0]) {
                match added.checked_add(a) {
                    Some(s) => {
                        added = s;
                    },
                    None => {
                        return None;
                    },
                }
            }
            if let Some(d) = parse_count(&cols[1]) {
                match removed.checked_add(d) {
                    Some(s) => {
                        removed = s;
                    },
                    None => {
                        return None;
                    },
                }
            }
        }
        i += 1;
    }
    assert(l.take(i as int) =~= l);
    Some((added, removed))
}

/// Runs of slashes made into single ones.
pub open spec fn single_slashes(s: Seq<char>) -> Seq<char>
    decreases s.len(),
{
    if s.len() < 2 {
        s
    } else if s.last() == '/' && s[s.len() - 2] == '/' {
        single_slashes(s.drop_last())
    } else {
        single_slashes(s.drop_last()).push(s.last())
    }
}

fn collapse_slashes(v: &Vec<char>) -> (r: String)
    ensures
        r@ == single_slashes(v@),
{
    let mut out = String::new();
    let mut i: usize = 0;
    while i < v.len()
        invariant
            i <= v@.len(),
            out@ == single_slashes(v@.take(i as int)),
        decreases v@.len() - i,
    {
        let ghost t = v@.take(i + 1);
        assert(t.drop_last() =~= v@.take(i as int));
        if i > 0 && v[i] == '/' && v[i - 1] == '/' {
        } else {
            out.push(v[i]);
            if i == 0 {
                assert(v@.take(0) =~= Seq::<char>::empty());
                assert(out@ =~= t);
            }
        }
        i += 1;
    }
    assert(v@.take(i as int) =~= v@);
    out
}

/// What follows the last arrow, taking arrows from the left.
pub open spec fn after_arrows(s: Seq<char>) -> Seq<char>
    decreases s.len(),
{
    match find_of(s, " => "@) {
        Some(i) => if 0 <= i && i + 4 <= s.len() {
            after_arrows(s.skip(i + 4))
        } else {
            s
        },
        None => s,
    }
}

/// The new path of a rename that `git` prints as `old => new` or
/// `dir/{old => new}/file`.
pub open spec fn renamed_to(raw: Seq<char>) -> Seq<char> {
    let path = trimmed(raw);
    if !contains_of(path, " => "@) {
        path
    } else {
        match (index_of(path, '{'), find_of(path, " => "@), index_of(path, '}')) {
            (Some(open), Some(arrow), Some(close)) => if open < arrow < close {
                single_slashes(
                    path.take(open) + path.subrange(arrow + 4, close) + path.skip(close + 1),
                )
            } else {
                trimmed(after_arrows(path))
            },
            _ => trimmed(after_arrows(path)),
        }
    }
}

proof fn lemma_find_in_range(s: Seq<char>, p: Seq<char>, i: int)
    requires
        0 <= i <= s.len(),
    ensures
        match find_from(s, p, i) {
            Some(k) => i <= k && k + p.len() <= s.len() && s.subrange(k, k + p.len()) == p,
            None => true,
        },
    decreases s.len() - i,
{
    if i + p.len() <= s.len() && !crate::text::occurs_at(s, p, i) && i < s.len() {
        lemma_find_in_range(s, p, i + 1);
    }
}

fn text_after_arrows(s: &str) -> (r: String)
    ensures
        r@ == after_arrows(s@),
{
    let arrow = chars_of(" => ");
    proof {
        reveal_strlit(" => ");
    }
    let mut cur = chars_of(s);
    loop
        invariant
            arrow@ == " => "@,
            arrow@.len() == 4,
            after_arrows(s@) == after_arrows(cur@),
        decreases cur@.len(),
    {
        proof {
            lemma_find_in_range(cur@, " => "@, 0);
        }
        match find_chars(&cur, &arrow, 0) {
            Some(i) => {
                let n: usize = cur.len();
                let rest = text_range(&cur, i + 4, n);
                assert(rest@ =~= cur@.skip(i + 4));
                cur = chars_of(&rest);
            },
            None => {
                return text_of(&cur);
            },
        }
    }
}

pub fn resolve_rename(raw: &str) -> (r: String)
    ensures
        r@ == renamed_to(raw@),
{
    let path = trim(raw);
    let v = chars_of(&path);
    let arrow_text = chars_of(" => ");
    proof {
        reveal_strlit(" => ");
        lemma_find_in_range(path@, " => "@, 0);
        crate::text::lemma_index_from(path@, '{', 0);
        crate::text::lemma_index_from(path@, '}', 0);
    }
    let found = find_chars(&v, &arrow_text, 0);
    if found.is_none() {
        return path;
    }
    match (find_char(&v, '{'), found, find_char(&v, '}')) {
        (Some(open), Some(arrow), Some(close)) => {
            if open < arrow && arrow < close {
                let n: usize = v.len();
                proof {
                    let a = arrow as int;
                    let sub = path@.subrange(a, a + 4);
                    assert(sub[0] == ' ' && sub[1] == '=' && sub[2] == '>' && sub[3] == ' ');
                    assert(path@[a] == sub[0] && path@[a + 1] == sub[1] && path@[a + 2] == sub[2]
                        && path@[a + 3] == sub[3]);
                    assert(path@[close as int] == '}');
                    assert(close >= arrow + 4);
                }
                let mut s = text_range(&v, 0, open);
                s.append(&text_range(&v, arrow + 4, close));
                s.append(&text_range(&v, close + 1, n));
                assert(s@ =~= path@.take(open as int) + path@.subrange(arrow + 4, close as int)
                    + path@.skip(close + 1));
                return collapse_slashes(&chars_of(&s));
            }
        },
        _ => {},
    }
    trim(&text_after_arrows(&path))
}

/// Lines added to and removed from one file.
pub struct FileCount {
    pub path: String,
    pub added: u64,
    pub removed: u64,
}

#[verifier::ext_equal]
pub struct FileCountV {
    pub path: Seq<char>,
    pub added: u64,
    pub removed: u64,
}

impl View for FileCount {
    type V = FileCountV;

    open spec fn view(&self) -> FileCountV {
        FileCountV { path: self.path@, added: self.added, removed: self.removed }
    }
}

pub open spec fn count_views(v: Seq<FileCount>) -> Seq<FileCountV> {
    v.map_values(|c: FileCount| c@)
}

pub open spec fn count_or_zero(s: Seq<char>) -> u64 {
    match count_of_text(s) {
        Some(n) => n as u64,
        None => 0,
    }
}

/// One line of `git diff --numstat`. A binary file has no counts.
pub open spec fn count_line(line: Seq<char>) -> Option<FileCountV> {
    let cols = split_of(line, '\t');
    if cols.len() < 3 {
        None
    } else {
        Some(
            FileCountV {
                path: renamed_to(cols[2]),
                added: count_or_zero(cols[0]),
                removed: count_or_zero(cols[1]),
            },
        )
    }
}

pub open spec fn file_counts(out: Seq<char>) -> Seq<FileCountV> {
    pick(lines_of(out), |l: Seq<char>| count_line(l))
}

pub fn diff_numstat_files(out: &str) -> (r: Vec<FileCount>)
    ensures
        count_views(r@) == file_counts(out@),
{
    let all = lines(out);
    let ghost l = lines_of(out@);
    let ghost f = |l: Seq<char>| count_line(l);
    let mut res: Vec<FileCount> = Vec::new();
    assert(count_views(res@) =~= pick(l.take(0), f));
    let mut i: usize = 0;
    while i < all.len()
        invariant
            i <= all@.len(),
            texts(all@) == l,
            f == (|l: Seq<char>| count_line(l)),
            count_views(res@) == pick(l.take(i as int), f),
        decreases all@.len() - i,
    {
        assert(l.take(i + 1).drop_last() =~= l.take(i as int));
        assert(l.take(i + 1).last() == all@[i as int]@) by {
            assert(texts(all@)[i as int] == all@[i as int]@);
        }
        let cols = split(&all[i], '\t');
        let ghost cs = split_of(all@[i as int]@, '\t');
        assert(cs.len() == cols@.len());
        if cols.len() >= 3 {
            assert(cols@[0]@ == cs[0] && cols@[1]@ == cs[1] && cols@[2]@ == cs[2]) by {
                assert(texts(cols@)[0] == cols@[0]@);
                assert(texts(cols@)[1] == cols@[1]@);
                assert(texts(cols@)[2] == cols@[2]@);
            }
            let added: u64 = match parse_count(&cols[0]) {
                Some(n) => n,
                None => 0,
            };
            let removed: u64 = match parse_count(&cols[1]) {
                Some(n) => n,
                None => 0,
            };
            let ghost before = count_views(res@);
            let c = FileCount { path: resolve_rename(&cols[2]), added, removed };
            res.push(c);
            assert(count_views(res@) =~= before.push(c@));
        }
        i += 1;
    }
    assert(l.take(i as int) =~= l);
    res
}

// ---------------------------------------------------------------------------
// The whole status
// ---------------------------------------------------------------------------

pub struct RepoStatus {
    pub branch: Option<String>,
    pub default_branch: Option<String>,
    pub detached: bool,
    pub ahead: i64,
    pub behind: i64,
    pub staged: usize,
    pub unstaged: usize,
    pub untracked: usize,
    pub conflicted: usize,
    pub changed: usize,
    pub added: u64,
    pub removed: u64,
    pub files: Vec<RepoStatusFile>,
}

#[verifier::ext_equal]
pub struct RepoStatusV {
    pub branch: Option<Seq<char>>,
    pub default_branch: Option<Seq<char>>,
    pub detached: bool,
    pub ahead: int,
    pub behind: int,
    pub staged: nat,
    pub unstaged: nat,
    pub untracked: nat,
    pub conflicted: nat,
    pub changed: nat,
    pub added: int,
    pub removed: int,
    pub files: Seq<StatusFileV>,
}

impl View for RepoStatus {
    type V = RepoStatusV;

    open spec fn view(&self) -> RepoStatusV {
        RepoStatusV {
            branch: opt_text(self.branch),
            default_branch: opt_text(self.default_branch),
            detached: self.detached,
            ahead: self.ahead as int,
            behind: self.behind as int,
            staged: self.staged as nat,
            unstaged: self.unstaged as nat,
            untracked: self.untracked as nat,
            conflicted: self.conflicted as nat,
            changed: self.changed as nat,
            added: self.added as int,
            removed: self.removed as int,
            files: file_views(self.files@),
        }
    }
}

pub open spec fn sum_of(v: Seq<u64>) -> nat
    decreases v.len(),
{
    if v.len() == 0 {
        0
    } else {
        sum_of(v.drop_last()) + v.last() as nat
    }
}

proof fn lemma_sum_grows(v: Seq<u64>, i: int)
    requires
        0 <= i <= v.len(),
    ensures
        sum_of(v.take(i)) <= sum_of(v),
    decreases v.len() - i,
{
    if i < v.len() {
        lemma_sum_grows(v, i + 1);
        assert(v.take(i + 1).drop_last() =~= v.take(i));
    } else {
        assert(v.take(i) =~= v);
    }
}

fn count_files(files: &Vec<RepoStatusFile>) -> (r: (usize, usize, usize))
    ensures
        r.0 == how_many(file_views(files@), |f: StatusFileV| f.staged),
        r.1 == how_many(file_views(files@), |f: StatusFileV| f.unstaged),
        r.2 == how_many(file_views(files@), |f: StatusFileV| f.conflicted),
{
    let ghost v = file_views(files@);
    let ghost p = |f: StatusFileV| f.staged;
    let ghost q = |f: StatusFileV| f.unstaged;
    let ghost c = |f: StatusFileV| f.conflicted;
    let mut staged: usize = 0;
    let mut unstaged: usize = 0;
    let mut conflicted: usize = 0;
    let mut i: usize = 0;
    while i < files.len()
        invariant
            i <= files@.len(),
            v == file_views(files@),
            p == (|f: StatusFileV| f.staged),
            q == (|f: StatusFileV| f.unstaged),
            c == (|f: StatusFileV| f.conflicted),
            staged <= i,
            unstaged <= i,
            conflicted <= i,
            staged == how_many(v.take(i as int), p),
            unstaged == how_many(v.take(i as int), q),
            conflicted == how_many(v.take(i as int), c),
        decreases files@.len() - i,
    {
        assert(v.take(i + 1).drop_last() =~= v.take(i as int));
        assert(v.take(i + 1).last() == files@[i as int]@);
        if files[i].staged {
            staged += 1;
        }
        if files[i].unstaged {
            unstaged += 1;
        }
        if files[i].conflicted {
            conflicted += 1;
        }
        i += 1;
    }
    assert(v.take(i as int) =~= v);
    (staged, unstaged, conflicted)
}

/// How many untracked files are counted line by line.
pub const UNTRACKED_COUNTED: usize = 500;

/// How many changed files a status lists.
pub const STATUS_FILES_SHOWN: usize = 200;

pub open spec fn at_most<A>(v: Seq<A>, n: int) -> Seq<A> {
    if v.len() <= n {
        v
    } else {
        v.take(n)
    }
}

/// The status that the lines, the change counts and the lines of the untracked
/// files come to; `None` when the sum of the added lines does not fit.
pub open spec fn whole_status(
    p: StatusParseV,
    added: u64,
    removed: u64,
    insertions: Seq<u64>,
    default_branch: Option<Seq<char>>,
) -> Option<RepoStatusV> {
    let total = added + sum_of(at_most(insertions, 500));
    if total > u64::MAX {
        None
    } else {
        Some(
            RepoStatusV {
                branch: p.branch,
                default_branch,
                detached: p.branch is None,
                ahead: p.ahead,
                behind: p.behind,
                staged: how_many(p.files, |f: StatusFileV| f.staged),
                unstaged: how_many(p.files, |f: StatusFileV| f.unstaged),
                untracked: p.untracked.len(),
                conflicted: how_many(p.files, |f: StatusFileV| f.conflicted),
                changed: at_most(p.files, 200).len(),
                added: total,
                removed: removed as int,
                files: at_most(p.files, 200),
            },
        )
    }
}

/// Puts a status together. `insertions` holds the lines of the untracked files,
/// of which the first five hundred count as added. `None` when the sum does not
/// fit.
pub fn repo_status(
    parse: StatusParse,
    added: u64,
    removed: u64,
    insertions: &Vec<u64>,
    default_branch: Option<String>,
) -> (r: Option<RepoStatus>)
    ensures
        (match r {
            Some(s) => Some(s@),
            None => None,
        }) == whole_status(parse@, added, removed, insertions@, opt_text(default_branch)),
        r is Some ==> r->0.default_branch == default_branch,
{
    let n: usize = if insertions.len() <= UNTRACKED_COUNTED {
        insertions.len()
    } else {
        UNTRACKED_COUNTED
    };
    let ghost shown = at_most(insertions@, 500);
    assert(shown =~= insertions@.take(n as int));
    let mut total: u64 = added;
    let mut i: usize = 0;
    while i < n
        invariant
            i <= n,
            n <= insertions@.len(),
            shown == insertions@.take(n as int),
            shown == at_most(insertions@, 500),
            total == added + sum_of(shown.take(i as int)),
        decreases n - i,
    {
        assert(shown.take(i + 1).drop_last() =~= shown.take(i as int));
        assert(shown.take(i + 1).last() == insertions@[i as int]);
        proof {
            lemma_sum_grows(shown, i + 1);
        }
        match total.checked_add(insertions[i]) {
            Some(s) => {
                total = s;
            },
            None => {
                return None;
            },
        }
        i += 1;
    }
    assert(shown.take(i as int) =~= shown);
    let (staged, unstaged, conflicted) = count_files(&parse.files);
    let untracked: usize = parse.untracked.len();
    let detached = parse.branch.is_none();
    let mut files = parse.files;
    let ghost all = file_views(files@);
    files.truncate(STATUS_FILES_SHOWN);
    assert(file_views(files@) =~= at_most(all, 200));
    let changed: usize = files.len();
    Some(
        RepoStatus {
            branch: parse.branch,
            default_branch,
            detached,
            ahead: parse.ahead,
            behind: parse.behind,
            staged,
            unstaged,
            untracked,
            conflicted,
            changed,
            added: total,
            removed,
            files,
        },
    )
}

} // verus!
