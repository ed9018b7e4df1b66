//! What the status of a repository says of the lines that git prints, line by
//! line and letter by letter.

use crate::git::{
    base_branch_view, branch_view, checked_of, path_of_branch, quiet_of, short_ref, worktrees_of,
    OutV, WorktreeV,
};
use crate::git_review::{entry_of, EntryV};
use crate::git_status::{
    at_most, changed_file, changed_path, code_byte, column_sum, count_line, how_many,
    inserted_lines, newlines, past, status_line, status_of, whole_status, FileCountV, StatusFileV,
    StatusParseV,
};
use crate::text::{
    after_prefix, ascii_white, contains_of, dec, in_class, index_of, lemma_dec_value,
    lemma_index_from, lemma_split_append, lemma_split_one, lemma_trim_fixed, number_text, split_of,
    starts, trimmed, white_space, words_of, Class,
};
use crate::text_laws::{law_a_word_is_itself, law_numbers_read_back, law_words_part_at_a_separator};
use vstd::prelude::*;
use vstd::utf8::{encode_utf8, is_ascii_chars};

verus! {

// ---------------------------------------------------------------------------
// Lines as git writes them
// ---------------------------------------------------------------------------

/// Fields, each followed by a space.
pub open spec fn spaced_out(f: Seq<Seq<char>>) -> Seq<char>
    decreases f.len(),
{
    if f.len() == 0 {
        Seq::empty()
    } else {
        f[0] + seq![' '] + spaced_out(f.drop_first())
    }
}

/// A field: something, without white space.
pub open spec fn plain_field(w: Seq<char>) -> bool {
    w.len() > 0 && forall|i: int| 0 <= i < w.len() ==> !ascii_white(#[trigger] w[i])
}

pub open spec fn plain_fields(f: Seq<Seq<char>>) -> bool {
    forall|i: int| 0 <= i < f.len() ==> plain_field(#[trigger] f[i])
}

/// A letter of the two-letter status: a printed character of ASCII.
pub open spec fn status_letter(c: char) -> bool {
    33 <= c as u32 && (c as u32) < 127
}

/// The line of a changed file: `1`, the letters of the index and of the working
/// tree, the submodule, three modes, two hashes, and the path.
pub open spec fn written_change(x: char, y: char, f: Seq<Seq<char>>, path: Seq<char>) -> Seq<char> {
    seq!['1', ' ', x, y, ' '] + spaced_out(f) + path
}

/// The line of a renamed or copied file: `2`, the same fields and a score, then
/// the path, a tab and the former path.
pub open spec fn written_rename(
    x: char,
    y: char,
    f: Seq<Seq<char>>,
    path: Seq<char>,
    former: Seq<char>,
) -> Seq<char> {
    seq!['2', ' ', x, y, ' '] + spaced_out(f) + path + seq!['\t'] + former
}

proof fn lemma_past_fields(f: Seq<Seq<char>>, rest: Seq<char>)
    requires
        plain_fields(f),
    ensures
        past(spaced_out(f) + rest, ' ', f.len()) == Some(rest),
    decreases f.len(),
{
    let s = spaced_out(f) + rest;
    if f.len() == 0 {
        assert(s =~= rest);
    } else {
        let tail = spaced_out(f.drop_first()) + rest;
        assert(plain_fields(f.drop_first())) by {
            assert forall|i: int| 0 <= i < f.drop_first().len() implies plain_field(
                #[trigger] f.drop_first()[i],
            ) by {
                assert(f.drop_first()[i] == f[i + 1]);
            }
        }
        lemma_past_fields(f.drop_first(), rest);
        assert(plain_field(f[0]));
        assert(s =~= f[0] + seq![' '] + tail);
        lemma_past_word(f[0], tail, f.len());
    }
}

proof fn lemma_past_word(w: Seq<char>, rest: Seq<char>, n: nat)
    requires
        n > 0,
        forall|i: int| 0 <= i < w.len() ==> !ascii_white(#[trigger] w[i]),
    ensures
        past(w + seq![' '] + rest, ' ', n) == past(rest, ' ', (n - 1) as nat),
    decreases w.len(),
{
    let s = w + seq![' '] + rest;
    if w.len() == 0 {
        assert(s[0] == ' ');
        assert(s.drop_first() =~= rest);
    } else {
        assert(s[0] == w[0]);
        assert(!ascii_white(w[0]));
        assert(s.drop_first() =~= w.drop_first() + seq![' '] + rest);
        lemma_past_word(w.drop_first(), rest, n);
    }
}

proof fn lemma_spaced_words(f: Seq<Seq<char>>, rest: Seq<char>)
    requires
        plain_fields(f),
    ensures
        words_of(spaced_out(f) + rest, Class::AsciiWhite) == f + words_of(rest, Class::AsciiWhite),
    decreases f.len(),
{
    if f.len() == 0 {
        assert(spaced_out(f) + rest =~= rest);
        assert(f + words_of(rest, Class::AsciiWhite) =~= words_of(rest, Class::AsciiWhite));
    } else {
        let g = f.drop_first();
        assert(plain_fields(g)) by {
            assert forall|i: int| 0 <= i < g.len() implies plain_field(#[trigger] g[i]) by {
                assert(g[i] == f[i + 1]);
            }
        }
        lemma_spaced_words(g, rest);
        let tail = spaced_out(g) + rest;
        assert(plain_field(f[0]));
        assert(spaced_out(f) + rest =~= f[0] + seq![' '] + tail);
        law_words_part_at_a_separator(f[0], ' ', tail, Class::AsciiWhite);
        law_a_word_is_itself(f[0], Class::AsciiWhite);
        assert(seq![f[0]] + (g + words_of(rest, Class::AsciiWhite)) =~= f + words_of(
            rest,
            Class::AsciiWhite,
        ));
    }
}

proof fn lemma_head_fields(kind: char, x: char, y: char, f: Seq<Seq<char>>)
    requires
        kind == '1' || kind == '2',
        status_letter(x),
        status_letter(y),
        plain_fields(f),
        f.len() >= 1,
    ensures
        plain_fields(seq![seq![kind], seq![x, y]] + f),
        seq![kind, ' ', x, y, ' '] + spaced_out(f) == spaced_out(
            seq![seq![kind], seq![x, y]] + f,
        ),
{
    let a = seq![kind];
    let b = seq![x, y];
    let g = seq![a, b] + f;
    assert forall|i: int| 0 <= i < g.len() implies plain_field(#[trigger] g[i]) by {
        if i >= 2 {
            assert(g[i] == f[i - 2]);
        }
    }
    assert(g.drop_first() =~= seq![b] + f);
    assert((seq![b] + f).drop_first() =~= f);
    assert(spaced_out(seq![b] + f) =~= b + seq![' '] + spaced_out(f));
    assert(spaced_out(g) =~= a + seq![' '] + spaced_out(seq![b] + f));
    assert(spaced_out(g) =~= seq![kind, ' ', x, y, ' '] + spaced_out(f));
}

proof fn lemma_status_line_start(line: Seq<char>)
    requires
        line.len() >= 2,
        line[1] == ' ',
        line[0] == '1' || line[0] == '2' || line[0] == 'u',
    ensures
        starts(line, "1 "@) == (line[0] == '1'),
        starts(line, "2 "@) == (line[0] == '2'),
        starts(line, "u "@) == (line[0] == 'u'),
        after_prefix(line, "# branch.head "@) is None,
        after_prefix(line, "# branch.ab "@) is None,
        after_prefix(line, "? "@) is None,
{
    reveal_strlit("1 ");
    reveal_strlit("2 ");
    reveal_strlit("u ");
    reveal_strlit("? ");
    reveal_strlit("# branch.head ");
    reveal_strlit("# branch.ab ");
    assert(line[0] == '1' ==> line.take(2) =~= "1 "@);
    assert(line[0] == '2' ==> line.take(2) =~= "2 "@);
    assert(line[0] == 'u' ==> line.take(2) =~= "u "@);
    assert(line.take(2)[0] == line[0]);
    if line.len() >= 14 {
        assert(line.take(14)[0] == line[0]);
    }
    if line.len() >= 12 {
        assert(line.take(12)[0] == line[0]);
    }
}

proof fn lemma_code_bytes(x: char, y: char)
    requires
        status_letter(x),
        status_letter(y),
    ensures
        code_byte(seq![x, y], 0) == x as u32,
        code_byte(seq![x, y], 1) == y as u32,
{
    let s = seq![x, y];
    assert(is_ascii_chars(s));
    vstd::utf8::is_ascii_chars_encode_utf8(s);
    assert(encode_utf8(s).len() == 2);
    assert(encode_utf8(s)[0] == s[0] as u8);
    assert(encode_utf8(s)[1] == s[1] as u8);
}

// ---------------------------------------------------------------------------
// The compact status
// ---------------------------------------------------------------------------

/// The lines are read one by one: the files and the untracked paths of two
/// outputs are those of the first and then those of the second.
pub proof fn law_status_goes_line_by_line(a: Seq<Seq<char>>, b: Seq<Seq<char>>)
    ensures
        status_of(a + b).files == status_of(a).files + status_of(b).files,
        status_of(a + b).untracked == status_of(a).untracked + status_of(b).untracked,
    decreases b.len(),
{
    if b.len() == 0 {
        assert(a + b =~= a);
        assert(status_of(a).files + status_of(b).files =~= status_of(a).files);
        assert(status_of(a).untracked + status_of(b).untracked =~= status_of(a).untracked);
    } else {
        law_status_goes_line_by_line(a, b.drop_last());
        assert((a + b).drop_last() =~= a + b.drop_last());
        assert((a + b).last() == b.last());
        assert(status_of(a + b).files =~= status_of(a).files + status_of(b).files);
        assert(status_of(a + b).untracked =~= status_of(a).untracked + status_of(b).untracked);
    }
}

proof fn lemma_one_line(line: Seq<char>)
    ensures
        status_of(seq![line]) == status_line(status_of(Seq::empty()), line),
{
    assert(seq![line].drop_last() =~= Seq::<Seq<char>>::empty());
}

/// A changed file is listed once, where its line stands, under its whole path. It
/// is staged exactly when the letter of the index is no dot, and unstaged exactly
/// when that of the working tree is none: `M.` is staged only, `.M` unstaged
/// only, `MM` both, and so for every letter. It is conflicted exactly when one of
/// them is `U`, and never untracked.
pub proof fn law_a_change_is_staged_by_its_letters(
    above: Seq<Seq<char>>,
    below: Seq<Seq<char>>,
    x: char,
    y: char,
    f: Seq<Seq<char>>,
    path: Seq<char>,
)
    requires
        status_letter(x),
        status_letter(y),
        f.len() == 6,
        plain_fields(f),
    ensures
        ({
            let s = status_of(above + seq![written_change(x, y, f, path)] + below);
            let n = status_of(above).files.len();
            &&& s.files.len() == n + 1 + status_of(below).files.len()
            &&& s.files[n as int].path == path
            &&& s.files[n as int].staged == (x != '.')
            &&& s.files[n as int].unstaged == (y != '.')
            &&& s.files[n as int].conflicted == (x == 'U' || y == 'U')
            &&& !s.files[n as int].untracked
            &&& s.untracked == status_of(above).untracked + status_of(below).untracked
        }),
{
    let line = written_change(x, y, f, path);
    let g = seq![seq!['1'], seq![x, y]] + f;
    lemma_head_fields('1', x, y, f);
    assert(line =~= spaced_out(g) + path);
    lemma_spaced_words(g, path);
    lemma_past_fields(g, path);
    lemma_code_bytes(x, y);
    assert(line[0] == '1' && line[1] == ' ');
    lemma_status_line_start(line);
    let cols = words_of(line, Class::AsciiWhite);
    assert(cols[1] == seq![x, y]);
    assert(changed_path(line) == path);
    lemma_one_line(line);
    let one = status_of(seq![line]);
    assert(one.files =~= seq![changed_file(line)->0]);
    law_status_goes_line_by_line(above, seq![line]);
    law_status_goes_line_by_line(above + seq![line], below);
    assert(status_of(above).untracked + one.untracked =~= status_of(above).untracked);
}

/// A renamed or copied file is listed under its new path, staged and unstaged by
/// its letters as any other.
pub proof fn law_a_rename_is_listed_under_its_new_path(
    above: Seq<Seq<char>>,
    below: Seq<Seq<char>>,
    x: char,
    y: char,
    f: Seq<Seq<char>>,
    path: Seq<char>,
    former: Seq<char>,
)
    requires
        status_letter(x),
        status_letter(y),
        f.len() == 7,
        plain_fields(f),
        !path.contains('\t'),
    ensures
        ({
            let s = status_of(above + seq![written_rename(x, y, f, path, former)] + below);
            let n = status_of(above).files.len();
            &&& s.files.len() == n + 1 + status_of(below).files.len()
            &&& s.files[n as int].path == path
            &&& s.files[n as int].staged == (x != '.')
            &&& s.files[n as int].unstaged == (y != '.')
            &&& s.files[n as int].conflicted == (x == 'U' || y == 'U')
            &&& !s.files[n as int].untracked
        }),
{
    let line = written_rename(x, y, f, path, former);
    let tail = path + seq!['\t'] + former;
    let g = seq![seq!['2'], seq![x, y]] + f;
    lemma_head_fields('2', x, y, f);
    assert(line =~= spaced_out(g) + tail);
    lemma_spaced_words(g, tail);
    lemma_past_fields(g, tail);
    lemma_code_bytes(x, y);
    assert(line[0] == '2' && line[1] == ' ');
    lemma_status_line_start(line);
    let cols = words_of(line, Class::AsciiWhite);
    assert(cols[1] == seq![x, y]);
    lemma_index_from(tail, '\t', 0);
    assert(tail[path.len() as int] == '\t');
    let k = index_of(tail, '\t')->0;
    if k < path.len() {
        assert(path[k] == '\t');
    }
    assert(tail.take(path.len() as int) =~= path);
    assert(changed_path(line) == path);
    lemma_one_line(line);
    let one = status_of(seq![line]);
    assert(one.files =~= seq![changed_file(line)->0]);
    law_status_goes_line_by_line(above, seq![line]);
    law_status_goes_line_by_line(above + seq![line], below);
}

/// An unmerged file is a conflict, listed under its whole path, and neither
/// staged nor unstaged.
pub proof fn law_an_unmerged_file_is_a_conflict(
    above: Seq<Seq<char>>,
    below: Seq<Seq<char>>,
    f: Seq<Seq<char>>,
    path: Seq<char>,
)
    requires
        f.len() == 9,
        plain_fields(f),
    ensures
        ({
            let s = status_of(above + seq![seq!['u', ' '] + spaced_out(f) + path] + below);
            let n = status_of(above).files.len();
            &&& s.files.len() == n + 1 + status_of(below).files.len()
            &&& s.files[n as int].path == path
            &&& s.files[n as int].conflicted
            &&& !s.files[n as int].staged && !s.files[n as int].unstaged
            &&& !s.files[n as int].untracked
        }),
{
    let line = seq!['u', ' '] + spaced_out(f) + path;
    let u = seq!['u'];
    let g = seq![u] + f;
    assert forall|i: int| 0 <= i < g.len() implies plain_field(#[trigger] g[i]) by {
        if i >= 1 {
            assert(g[i] == f[i - 1]);
        }
    }
    assert(g.drop_first() =~= f);
    assert(line =~= spaced_out(g) + path);
    lemma_past_fields(g, path);
    assert(line[0] == 'u' && line[1] == ' ');
    lemma_status_line_start(line);
    lemma_one_line(line);
    let one = status_of(seq![line]);
    assert(one.files.len() == 1);
    law_status_goes_line_by_line(above, seq![line]);
    law_status_goes_line_by_line(above + seq![line], below);
}

/// An untracked file is listed among the untracked ones and nowhere else.
pub proof fn law_an_untracked_file_is_listed_as_such(
    above: Seq<Seq<char>>,
    below: Seq<Seq<char>>,
    path: Seq<char>,
)
    requires
        trimmed(path) == path,
    ensures
        ({
            let s = status_of(above + seq![seq!['?', ' '] + path] + below);
            &&& s.untracked == status_of(above).untracked + seq![path] + status_of(below).untracked
            &&& s.files == status_of(above).files + status_of(below).files
        }),
{
    let line = seq!['?', ' '] + path;
    reveal_strlit("? ");
    reveal_strlit("# branch.head ");
    reveal_strlit("# branch.ab ");
    assert(line.take(2) =~= "? "@);
    assert(line.skip(2) =~= path);
    if line.len() >= 14 {
        assert(line.take(14)[0] == '?');
    }
    if line.len() >= 12 {
        assert(line.take(12)[0] == '?');
    }
    lemma_one_line(line);
    let one = status_of(seq![line]);
    assert(one.untracked =~= seq![path]);
    law_status_goes_line_by_line(above, seq![line]);
    law_status_goes_line_by_line(above + seq![line], below);
    assert(status_of(above).files + one.files =~= status_of(above).files);
}

/// The branch is the one of the last header that names it, whatever else is
/// printed.
pub proof fn law_the_branch_is_the_one_named(above: Seq<Seq<char>>, name: Seq<char>)
    requires
        trimmed(name) == name,
    ensures
        ({
            let s = status_of(above.push("# branch.head "@ + name));
            &&& s.branch == Some(name)
            &&& s.files == status_of(above).files
            &&& s.untracked == status_of(above).untracked
            &&& s.ahead == status_of(above).ahead && s.behind == status_of(above).behind
        }),
{
    let line = "# branch.head "@ + name;
    assert(above.push(line).drop_last() =~= above);
    assert(line.take("# branch.head "@.len() as int) =~= "# branch.head "@);
    assert(line.skip("# branch.head "@.len() as int) =~= name);
}

/// How far the branch is ahead and behind is what the header says.
pub proof fn law_ahead_and_behind_are_the_ones_printed(
    above: Seq<Seq<char>>,
    ahead: nat,
    behind: nat,
)
    requires
        ahead <= i64::MAX,
        behind <= i64::MAX,
    ensures
        ({
            let s = status_of(
                above.push("# branch.ab +"@ + dec(ahead) + seq![' ', '-'] + dec(behind)),
            );
            &&& s.ahead == ahead
            &&& s.behind == behind
            &&& s.branch == status_of(above).branch
            &&& s.files == status_of(above).files
            &&& s.untracked == status_of(above).untracked
        }),
{
    let line = "# branch.ab +"@ + dec(ahead) + seq![' ', '-'] + dec(behind);
    assert(above.push(line).drop_last() =~= above);
    reveal_strlit("# branch.ab +");
    reveal_strlit("# branch.ab ");
    reveal_strlit("# branch.head ");
    reveal_strlit("+");
    reveal_strlit("-");
    assert(line.take(12) =~= "# branch.ab "@);
    if line.len() >= 14 {
        assert(line.take(14)[9] == line[9]);
        assert("# branch.head "@[9] == 'h');
        assert(line[9] == 'a');
    }
    lemma_dec_value(ahead);
    lemma_dec_value(behind);
    let a = seq!['+'] + dec(ahead);
    let b = seq!['-'] + dec(behind);
    let rest = a + seq![' '] + b;
    assert(line.skip(12) =~= rest);
    assert forall|i: int| 0 <= i < a.len() implies !in_class(Class::White, #[trigger] a[i]) by {
        if i > 0 {
            assert(a[i] == dec(ahead)[i - 1]);
            assert(crate::text::digit(dec(ahead)[i - 1]));
        }
    }
    assert forall|i: int| 0 <= i < b.len() implies !in_class(Class::White, #[trigger] b[i]) by {
        if i > 0 {
            assert(b[i] == dec(behind)[i - 1]);
            assert(crate::text::digit(dec(behind)[i - 1]));
        }
    }
    assert(rest[0] == a[0] && rest.last() == b.last());
    crate::text::lemma_trim_fixed(rest, Class::White);
    law_words_part_at_a_separator(a, ' ', b, Class::White);
    law_a_word_is_itself(a, Class::White);
    law_a_word_is_itself(b, Class::White);
    let parts = words_of(trimmed(rest), Class::White);
    assert(parts =~= seq![a, b]);
    assert(a.take(1) =~= "+"@);
    assert(b.take(1) =~= "-"@);
    assert(a.skip(1) =~= dec(ahead));
    assert(b.skip(1) =~= dec(behind));
    crate::text_laws::law_numbers_read_back(ahead as int);
    crate::text_laws::law_numbers_read_back(behind as int);
    assert(crate::text::digit(dec(ahead)[0]) && crate::text::digit(dec(behind)[0]));
}

/// Each file counts once under what it is, and not otherwise.
pub proof fn law_counts_are_of_the_files(
    v: Seq<StatusFileV>,
    w: Seq<StatusFileV>,
    p: spec_fn(StatusFileV) -> bool,
)
    ensures
        how_many(v, p) == v.filter(p).len(),
        how_many(v + w, p) == how_many(v, p) + how_many(w, p),
    decreases w.len(), v.len(),
{
    reveal(Seq::filter);
    if v.len() > 0 {
        law_counts_are_of_the_files(v.drop_last(), Seq::empty(), p);
    }
    if w.len() == 0 {
        assert(v + w =~= v);
    } else {
        law_counts_are_of_the_files(v, w.drop_last(), p);
        assert((v + w).drop_last() =~= v + w.drop_last());
        assert((v + w).last() == w.last());
    }
}

// ---------------------------------------------------------------------------
// The lines of a review
// ---------------------------------------------------------------------------

/// A review sees the letters of a changed file as they are printed, and its whole
/// path.
pub proof fn law_a_review_sees_the_letters(
    x: char,
    y: char,
    f: Seq<Seq<char>>,
    path: Seq<char>,
)
    requires
        status_letter(x),
        status_letter(y),
        f.len() == 6,
        plain_fields(f),
    ensures
        entry_of(written_change(x, y, f, path)) == Some(
            EntryV { path, index: x, working: y, untracked: false },
        ),
{
    let line = written_change(x, y, f, path);
    let g = seq![seq!['1'], seq![x, y]] + f;
    lemma_head_fields('1', x, y, f);
    assert(line =~= spaced_out(g) + path);
    lemma_spaced_words(g, path);
    lemma_past_fields(g, path);
    assert(line[0] == '1' && line[1] == ' ');
    lemma_status_line_start(line);
    assert(words_of(line, Class::AsciiWhite)[1] == seq![x, y]);
    assert(changed_path(line) == path);
}

/// A review sees an untracked file as such, under its path.
pub proof fn law_a_review_sees_untracked_files(path: Seq<char>)
    requires
        trimmed(path) == path,
    ensures
        entry_of(seq!['?', ' '] + path) == Some(
            EntryV { path, index: '?', working: '?', untracked: true },
        ),
{
    let line = seq!['?', ' '] + path;
    reveal_strlit("? ");
    assert(line.take(2) =~= "? "@);
    assert(line.skip(2) =~= path);
}

/// A review sees an unmerged file as one with `U` on both sides.
pub proof fn law_a_review_sees_unmerged_files(f: Seq<Seq<char>>, path: Seq<char>)
    requires
        f.len() == 9,
        plain_fields(f),
    ensures
        entry_of(seq!['u', ' '] + spaced_out(f) + path) == Some(
            EntryV { path, index: 'U', working: 'U', untracked: false },
        ),
{
    let line = seq!['u', ' '] + spaced_out(f) + path;
    let u = seq!['u'];
    let g = seq![u] + f;
    assert forall|i: int| 0 <= i < g.len() implies plain_field(#[trigger] g[i]) by {
        if i >= 1 {
            assert(g[i] == f[i - 1]);
        }
    }
    assert(g.drop_first() =~= f);
    assert(line =~= spaced_out(g) + path);
    lemma_past_fields(g, path);
    assert(line[0] == 'u' && line[1] == ' ');
    lemma_status_line_start(line);
}

// ---------------------------------------------------------------------------
// The whole status
// ---------------------------------------------------------------------------

/// One more file raises the counts of what it is by one, and no others; what is
/// counted is every file, also where not all are listed.
pub proof fn law_a_file_raises_its_counts(
    p: StatusParseV,
    f: StatusFileV,
    added: u64,
    removed: u64,
    insertions: Seq<u64>,
    trunk: Option<Seq<char>>,
)
    ensures
        ({
            let q = StatusParseV { files: p.files.push(f), ..p };
            let s = whole_status(p, added, removed, insertions, trunk);
            let t = whole_status(q, added, removed, insertions, trunk);
            &&& s is Some == t is Some
            &&& s is Some ==> {
                &&& t->0.staged - s->0.staged == if f.staged {
                    1int
                } else {
                    0
                }
                &&& t->0.unstaged - s->0.unstaged == if f.unstaged {
                    1int
                } else {
                    0
                }
                &&& t->0.conflicted - s->0.conflicted == if f.conflicted {
                    1int
                } else {
                    0
                }
                &&& t->0.untracked == s->0.untracked
                &&& t->0.added == s->0.added && t->0.removed == s->0.removed
                &&& p.files.len() < 200 ==> t->0.files == s->0.files.push(f) && t->0.changed
                    == s->0.changed + 1
                &&& p.files.len() >= 200 ==> t->0.files == s->0.files && t->0.changed == 200
            }
        }),
{
    let q = p.files.push(f);
    assert(q.drop_last() =~= p.files);
    if p.files.len() >= 200 {
        assert(q.take(200) =~= p.files.take(200));
    }
}

/// A clean tree counts nothing; and what the headers say is passed on: the
/// branch, whether there is one, how far it is ahead and behind, the default
/// branch, and every untracked path.
pub proof fn law_a_status_passes_the_headers_on(
    p: StatusParseV,
    added: u64,
    removed: u64,
    trunk: Option<Seq<char>>,
)
    ensures
        whole_status(p, added, removed, Seq::empty(), trunk) matches Some(s) && {
            &&& s.branch == p.branch
            &&& s.detached <==> p.branch is None
            &&& s.ahead == p.ahead && s.behind == p.behind
            &&& s.default_branch == trunk
            &&& s.untracked == p.untracked.len()
            &&& s.added == added && s.removed == removed
            &&& p.files.len() == 0 ==> s.staged == 0 && s.unstaged == 0 && s.conflicted == 0
                && s.changed == 0 && s.files.len() == 0
        },
{
    assert(at_most(Seq::<u64>::empty(), 500) =~= Seq::<u64>::empty());
}

/// The lines of an untracked file count as added, for the first five hundred
/// such files.
pub proof fn law_untracked_lines_count_as_added(
    p: StatusParseV,
    added: u64,
    removed: u64,
    insertions: Seq<u64>,
    more: u64,
    trunk: Option<Seq<char>>,
)
    requires
        whole_status(p, added, removed, insertions.push(more), trunk) is Some,
    ensures
        whole_status(p, added, removed, insertions, trunk) is Some,
        whole_status(p, added, removed, insertions.push(more), trunk)->0.added == whole_status(
            p,
            added,
            removed,
            insertions,
            trunk,
        )->0.added + if insertions.len() < 500 {
            more as int
        } else {
            0
        },
{
    let v = insertions.push(more);
    if insertions.len() < 500 {
        assert(v.drop_last() =~= insertions);
    } else {
        assert(v.take(500) =~= insertions.take(500));
        assert(insertions.len() == 500 ==> insertions.take(500) =~= insertions);
    }
}

// ---------------------------------------------------------------------------
// Change counts
// ---------------------------------------------------------------------------

proof fn lemma_three_columns(a: Seq<char>, b: Seq<char>, path: Seq<char>)
    requires
        !a.contains('\t'),
        !b.contains('\t'),
        !path.contains('\t'),
    ensures
        split_of(a + seq!['\t'] + b + seq!['\t'] + path, '\t') == seq![a, b, path],
{
    assert forall|i: int| 0 <= i < a.len() implies #[trigger] a[i] != '\t' by {
        assert(a.contains(a[i]));
    }
    assert forall|i: int| 0 <= i < b.len() implies #[trigger] b[i] != '\t' by {
        assert(b.contains(b[i]));
    }
    assert forall|i: int| 0 <= i < path.len() implies #[trigger] path[i] != '\t' by {
        assert(path.contains(path[i]));
    }
    lemma_split_one(a, '\t');
    lemma_split_append(a, b, '\t');
    lemma_split_append(a + seq!['\t'] + b, path, '\t');
    assert(seq![a].push(b).push(path) =~= seq![a, b, path]);
}

proof fn lemma_dec_has_no_tab(n: nat)
    ensures
        !dec(n).contains('\t'),
{
    lemma_dec_value(n);
    if dec(n).contains('\t') {
        let i = choose|i: int| 0 <= i < dec(n).len() && dec(n)[i] == '\t';
        assert(crate::text::digit(dec(n)[i]));
    }
}

/// The line of a file with `added` and `removed` lines.
pub open spec fn written_count(added: nat, removed: nat, path: Seq<char>) -> Seq<char> {
    dec(added) + seq!['\t'] + dec(removed) + seq!['\t'] + path
}

/// A file adds its added lines to the first sum and its removed lines to the
/// second.
pub proof fn law_a_counted_file_adds_its_lines(
    l: Seq<Seq<char>>,
    added: nat,
    removed: nat,
    path: Seq<char>,
)
    requires
        added <= u64::MAX,
        removed <= u64::MAX,
        !path.contains('\t'),
    ensures
        column_sum(l.push(written_count(added, removed, path)), 0) == column_sum(l, 0) + added,
        column_sum(l.push(written_count(added, removed, path)), 1) == column_sum(l, 1) + removed,
{
    lemma_dec_has_no_tab(added);
    lemma_dec_has_no_tab(removed);
    lemma_three_columns(dec(added), dec(removed), path);
    law_numbers_read_back(added as int);
    law_numbers_read_back(removed as int);
    assert(l.push(written_count(added, removed, path)).drop_last() =~= l);
}

/// A binary file, which has dashes for its counts, adds nothing.
pub proof fn law_a_binary_file_adds_nothing(l: Seq<Seq<char>>, path: Seq<char>, col: int)
    requires
        !path.contains('\t'),
        col == 0 || col == 1,
    ensures
        column_sum(l.push(seq!['-', '\t', '-', '\t'] + path), col) == column_sum(l, col),
{
    let line = seq!['-', '\t', '-', '\t'] + path;
    let d = seq!['-'];
    lemma_three_columns(d, d, path);
    assert(line =~= d + seq!['\t'] + d + seq!['\t'] + path);
    assert(l.push(line).drop_last() =~= l);
    assert(!crate::text::digit_in('-', 10));
    assert(d[0] == '-');
    assert(!number_text(d, 10));
}

/// The counts of a file are the ones printed, under the path printed.
pub proof fn law_a_count_is_the_one_printed(added: nat, removed: nat, path: Seq<char>)
    requires
        added <= u64::MAX,
        removed <= u64::MAX,
        !path.contains('\t'),
        trimmed(path) == path,
        !contains_of(path, " => "@),
    ensures
        count_line(written_count(added, removed, path)) == Some(
            FileCountV { path, added: added as u64, removed: removed as u64 },
        ),
{
    lemma_dec_has_no_tab(added);
    lemma_dec_has_no_tab(removed);
    lemma_three_columns(dec(added), dec(removed), path);
    law_numbers_read_back(added as int);
    law_numbers_read_back(removed as int);
}

/// Every line end of a text file is a line, and so is what follows the last.
pub proof fn law_lines_of_a_new_file(a: Seq<u8>, b: Seq<u8>)
    ensures
        newlines(a + b) == newlines(a) + newlines(b),
        newlines(seq![10u8]) == 1,
        forall|x: u8| x != 10 ==> newlines(#[trigger] seq![x]) == 0,
        a.contains(0u8) || b.contains(0u8) ==> inserted_lines(a + b) == 0,
        !a.contains(0u8) && !b.contains(0u8) ==> inserted_lines(a + seq![10u8] + b) == newlines(a)
            + 1 + inserted_lines(b),
        inserted_lines(Seq::empty()) == 0,
    decreases b.len(),
{
    assert(newlines(Seq::<u8>::empty()) == 0);
    assert forall|x: u8| x != 10 implies newlines(#[trigger] seq![x]) == 0 by {
        assert(seq![x].drop_last() =~= Seq::<u8>::empty());
    }
    assert(seq![10u8].drop_last() =~= Seq::<u8>::empty());
    lemma_newlines_add(a, b);
    lemma_newlines_add(a + seq![10u8], b);
    lemma_newlines_add(a, seq![10u8]);
    let s = a + b;
    if a.contains(0u8) {
        let i = choose|i: int| 0 <= i < a.len() && a[i] == 0u8;
        assert(s[i] == 0u8);
    }
    if b.contains(0u8) {
        let i = choose|i: int| 0 <= i < b.len() && b[i] == 0u8;
        assert(s[a.len() + i] == 0u8);
    }
    let t = a + seq![10u8] + b;
    if !a.contains(0u8) && !b.contains(0u8) && t.contains(0u8) {
        let i = choose|i: int| 0 <= i < t.len() && t[i] == 0u8;
        if i < a.len() {
            assert(a[i] == 0u8);
        } else if i > a.len() {
            assert(b[i - a.len() - 1] == 0u8);
        }
    }
    assert(b.len() > 0 ==> t.last() == b.last());
    assert(b.len() == 0 ==> t.last() == 10u8);
}

proof fn lemma_newlines_add(a: Seq<u8>, b: Seq<u8>)
    ensures
        newlines(a + b) == newlines(a) + newlines(b),
    decreases b.len(),
{
    if b.len() == 0 {
        assert(a + b =~= a);
    } else {
        lemma_newlines_add(a, b.drop_last());
        assert((a + b).drop_last() =~= a + b.drop_last());
        assert((a + b).last() == b.last());
    }
}

// ---------------------------------------------------------------------------
// Worktrees and branches
// ---------------------------------------------------------------------------

/// A worktree is listed with the path and the branch that are printed for it,
/// behind those that were printed before; only the first is the main one.
pub proof fn law_a_worktree_is_listed_as_printed(
    above: Seq<Seq<char>>,
    path: Seq<char>,
    branch: Seq<char>,
)
    requires
        trimmed(path) == path,
        trimmed(branch) == branch,
        !starts(branch, "refs/heads/"@),
        branch.len() > 0 ==> !white_space(branch.last()),
    ensures
        worktrees_of(
            above.push("worktree "@ + path).push("branch refs/heads/"@ + branch),
        ) == worktrees_of(above).push(
            WorktreeV {
                path,
                branch: Some(branch),
                is_main: worktrees_of(above).len() == 0,
                detached: false,
                locked: false,
            },
        ),
{
    let l1 = "worktree "@ + path;
    let l2 = "branch refs/heads/"@ + branch;
    reveal_strlit("worktree ");
    reveal_strlit("branch ");
    reveal_strlit("refs/heads/");
    reveal_strlit("branch refs/heads/");
    let one = above.push(l1);
    assert(one.drop_last() =~= above);
    assert(one.push(l2).drop_last() =~= one);
    assert(l1.take(9) =~= "worktree "@);
    assert(l1.skip(9) =~= path);
    assert(l2.take(7) =~= "branch "@);
    assert(l2.take(9)[0] == 'b');
    let rest = "refs/heads/"@ + branch;
    assert(l2.skip(7) =~= rest);
    assert(rest[0] == 'r');
    assert(rest.last() == if branch.len() > 0 {
        branch.last()
    } else {
        '/'
    });
    lemma_trim_fixed(rest, Class::White);
    assert(rest.take(11) =~= "refs/heads/"@);
    assert(rest.skip(11) =~= branch);
    assert(short_ref(rest, "refs/heads/"@) == branch) by {
        reveal_with_fuel(short_ref, 3);
    }
    let trees = worktrees_of(one);
    assert(trees.drop_last() =~= worktrees_of(above));
}

/// A detached or locked worktree is marked so, and nothing else about it or any
/// other changes.
pub proof fn law_a_worktree_is_marked_as_printed(above: Seq<Seq<char>>)
    requires
        worktrees_of(above).len() > 0,
    ensures
        ({
            let t = worktrees_of(above);
            let n = t.len() - 1;
            &&& worktrees_of(above.push("detached"@)) == t.update(
                n,
                WorktreeV { detached: true, ..t[n] },
            )
            &&& worktrees_of(above.push("locked"@)) == t.update(
                n,
                WorktreeV { locked: true, ..t[n] },
            )
            &&& worktrees_of(above.push(Seq::empty())) == t
        }),
{
    let t = worktrees_of(above);
    reveal_strlit("worktree ");
    reveal_strlit("branch ");
    reveal_strlit("detached");
    reveal_strlit("locked");
    assert(above.push("detached"@).drop_last() =~= above);
    assert(above.push("locked"@).drop_last() =~= above);
    assert(above.push(Seq::empty()).drop_last() =~= above);
    assert("detached"@.take(7)[0] == 'd');
    assert("detached"@.take(6)[0] == 'd');
    assert("locked"@.take(6) =~= "locked"@);
    assert("locked"@.len() < 7);
    let n = t.len() - 1;
    assert(worktrees_of(above.push("detached"@)) =~= t.update(n, WorktreeV { detached: true, ..t[n] }));
    assert(worktrees_of(above.push("locked"@)) =~= t.update(n, WorktreeV { locked: true, ..t[n] }));
    assert(worktrees_of(above.push(Seq::empty())) =~= t);
}

/// A branch is checked out exactly when some worktree has it, and then it is
/// shown with the path of such a worktree.
pub proof fn law_a_branch_is_shown_where_it_is_checked_out(
    name: Seq<char>,
    t: Seq<WorktreeV>,
    trunk: Option<Seq<char>>,
)
    ensures
        branch_view(name, t, trunk).name == name,
        branch_view(name, t, trunk).is_default <==> trunk == Some(name),
        branch_view(name, t, trunk).checked_out <==> exists|i: int|
            0 <= i < t.len() && (#[trigger] t[i]).branch == Some(name),
        branch_view(name, t, trunk).worktree_path matches Some(p) ==> exists|i: int|
            0 <= i < t.len() && (#[trigger] t[i]).branch == Some(name) && t[i].path == p,
        branch_view(name, t, trunk).worktree_path is Some <==> branch_view(
            name,
            t,
            trunk,
        ).checked_out,
{
    lemma_path_of_branch(t, name);
}

proof fn lemma_path_of_branch(t: Seq<WorktreeV>, name: Seq<char>)
    ensures
        match path_of_branch(t, name) {
            Some(p) => exists|i: int|
                0 <= i < t.len() && (#[trigger] t[i]).branch == Some(name) && t[i].path == p,
            None => forall|i: int| 0 <= i < t.len() ==> (#[trigger] t[i]).branch != Some(name),
        },
    decreases t.len(),
{
    if t.len() > 0 {
        lemma_path_of_branch(t.drop_last(), name);
        if t.last().branch == Some(name) {
            assert(t[t.len() - 1].branch == Some(name));
        } else if let Some(p) = path_of_branch(t.drop_last(), name) {
            let i = choose|i: int|
                0 <= i < t.drop_last().len() && (#[trigger] t.drop_last()[i]).branch == Some(name)
                    && t.drop_last()[i].path == p;
            assert(t[i].branch == Some(name) && t[i].path == p);
        } else {
            assert forall|i: int| 0 <= i < t.len() implies (#[trigger] t[i]).branch != Some(name) by {
                if i < t.len() - 1 {
                    assert(t.drop_last()[i].branch != Some(name));
                }
            }
        }
    }
}

/// A base is remote exactly when it is of `origin`; there is at most one default,
/// the remote's where that is known.
pub proof fn law_base_branches_are_told_apart(
    name: Seq<char>,
    remote: Seq<char>,
    local: Option<Seq<char>>,
)
    ensures
        base_branch_view(name, remote, local).name == name,
        base_branch_view(name, remote, local).is_remote <==> exists|rest: Seq<char>|
            name == #[trigger] ("origin/"@ + rest),
        remote.len() > 0 ==> (base_branch_view(name, remote, local).is_default <==> name
            == remote),
        remote.len() == 0 ==> (base_branch_view(name, remote, local).is_default <==> local
            == Some(name)),
{
    if starts(name, "origin/"@) {
        assert(name =~= "origin/"@ + name.skip("origin/"@.len() as int));
    }
    if exists|rest: Seq<char>| name == #[trigger] ("origin/"@ + rest) {
        let rest = choose|rest: Seq<char>| name == #[trigger] ("origin/"@ + rest);
        assert(name.take("origin/"@.len() as int) =~= "origin/"@);
    }
}

/// A run is judged by its code: a success gives its output, a failure none, and
/// its complaint where it made one.
pub proof fn law_a_run_is_judged_by_its_code(o: OutV)
    ensures
        o.code == 0 <==> checked_of(o) is Ok,
        o.code == 0 ==> checked_of(o) == Ok::<Seq<char>, Seq<char>>(trimmed(o.stdout)),
        o.code == 0 ==> quiet_of(o) == trimmed(o.stdout),
        o.code != 0 ==> quiet_of(o).len() == 0,
        o.code != 0 && trimmed(o.stderr).len() > 0 ==> checked_of(o) == Err::<
            Seq<char>,
            Seq<char>,
        >(trimmed(o.stderr)),
        checked_of(o) matches Err(e) ==> e.len() > 0,
{
    reveal_strlit("git exited ");
}

} // verus!
