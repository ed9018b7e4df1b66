//! The labels and addresses of the renderer's windows.

use crate::escape::{escape, escape_of, Keep};
use crate::outside::{is_letter_or_number, letter_or_number};
use crate::text::{
    chars_of, dec, decimal, lemma_trim_end, lemma_trim_start, opt_text, take_chars, text_of, trim,
    trim_class, trim_end_char, trim_end_of, trim_of, trim_start_of, trimmed, Class,
};
use vstd::prelude::*;
use vstd::utf8::{decode_utf8, encode_utf8, is_char_boundary};

verus! {

pub struct SessionWindowOptions {
    pub watch: bool,
}

/// A session id as a route segment.
pub fn encode_route_segment(raw: &str) -> (r: String)
    ensures
        r@ == escape_of(Keep::Unreserved, raw@),
{
    escape(Keep::Unreserved, raw)
}

/// The flags of a window, before its route.
pub open spec fn window_query(session: bool, watch: bool) -> Seq<char> {
    if session && watch {
        "?win=secondary&watch=1"@
    } else if session {
        "?win=secondary"@
    } else {
        Seq::empty()
    }
}

pub open spec fn window_url(base: Seq<char>, session: Option<Seq<char>>, watch: bool) -> Seq<char> {
    trim_end_of(base, Class::One('/')) + "/"@ + window_query(session is Some, watch)
        + match session {
        Some(s) => "#/"@ + escape_of(Keep::Unreserved, s),
        None => Seq::empty(),
    }
}

/// The address of a window: a session window carries its flags and route.
pub fn build_window_url(base: &str, session_id: &Option<String>, watch: bool) -> (r: String)
    ensures
        r@ == window_url(base@, opt_text(*session_id), watch),
{
    let mut out = trim_end_char(base, '/');
    out.append("/");
    match session_id {
        Some(s) => {
            if watch {
                out.append("?win=secondary&watch=1");
            } else {
                out.append("?win=secondary");
            }
            let mut route = "#/".to_string();
            route.append(&encode_route_segment(s));
            out.append(&route);
        },
        None => {
            assert(out@ =~= out@ + Seq::<char>::empty() + Seq::<char>::empty());
        },
    }
    out
}

/// The characters of an id with everything but letters and numbers as dashes.
pub open spec fn dashed(s: Seq<char>) -> Seq<char> {
    s.map_values(
        |c: char|
            if letter_or_number(c) {
                c
            } else {
                '-'
            },
    )
}

/// An id reduced to letters, numbers and inner dashes.
pub open spec fn label_body(s: Seq<char>) -> Seq<char> {
    trim_of(dashed(s), Class::One('-'))
}

/// Whether cutting the text after `n` bytes splits no character.
pub open spec fn cuts_cleanly(s: Seq<char>, n: nat) -> bool {
    encode_utf8(s).len() <= n || is_char_boundary(encode_utf8(s), n as int)
}

/// The text of the first `n` bytes, or all of it when it is no longer.
pub open spec fn cut_bytes(s: Seq<char>, n: nat) -> Seq<char> {
    if encode_utf8(s).len() <= n {
        s
    } else {
        decode_utf8(encode_utf8(s).take(n as int))
    }
}

/// The longest start of a text that takes at most `n` bytes.
pub open spec fn fit_bytes(s: Seq<char>, n: nat) -> Seq<char>
    decreases s.len(),
{
    if s.len() == 0 || encode_utf8(s).len() <= n {
        s
    } else {
        fit_bytes(s.drop_last(), n)
    }
}

/// The label of an id: at most forty-eight bytes, and never empty.
pub open spec fn label_of(s: Seq<char>) -> Seq<char> {
    let cut = fit_bytes(label_body(s), 48);
    if cut.len() == 0 {
        "win"@
    } else {
        cut
    }
}

/// Reduces an id to letters, numbers and inner dashes.
pub fn label_text(session_id: &str) -> (r: String)
    ensures
        r@ == label_body(session_id@),
{
    let v = chars_of(session_id);
    let mut out: Vec<char> = Vec::new();
    let mut i: usize = 0;
    while i < v.len()
        invariant
            i <= v@.len(),
            v@ == session_id@,
            out@ == dashed(session_id@).take(i as int),
        decreases v@.len() - i,
    {
        if is_letter_or_number(v[i]) {
            out.push(v[i]);
        } else {
            out.push('-');
        }
        i += 1;
    }
    assert(out@ =~= dashed(session_id@));
    trim_class(&text_of(&out), Class::One('-'))
}

/// How many bytes a text takes in UTF-8.
pub fn byte_len(s: &str) -> (r: usize)
    ensures
        r == encode_utf8(s@).len(),
{
    s.as_bytes_vec().len()
}

/// Cuts a text after `n` bytes.
pub fn truncate_bytes(s: &str, n: usize) -> (r: String)
    requires
        cuts_cleanly(s@, n as nat),
    ensures
        r@ == cut_bytes(s@, n as nat),
{
    if byte_len(s) <= n {
        s.to_string()
    } else {
        let (head, _) = s.split_at(n);
        proof {
            vstd::utf8::encode_utf8_decode_utf8(head@);
            assert(encode_utf8(head@) =~= encode_utf8(s@).take(n as int));
        }
        head.to_string()
    }
}

/// A character takes at least one byte.
proof fn lemma_bytes_at_least(s: Seq<char>)
    ensures
        encode_utf8(s).len() >= s.len(),
    decreases s.len(),
{
    if s.len() > 0 {
        lemma_bytes_at_least(s.drop_first());
    }
}

/// What fits is a start of the text, fits, and is not empty where there is room
/// for any one character.
proof fn lemma_fit(s: Seq<char>, n: nat)
    ensures
        fit_bytes(s, n).len() <= s.len(),
        fit_bytes(s, n) == s.take(fit_bytes(s, n).len() as int),
        encode_utf8(fit_bytes(s, n)).len() <= n,
        n >= 4 && s.len() > 0 ==> fit_bytes(s, n).len() > 0,
    decreases s.len(),
{
    if s.len() > 0 && encode_utf8(s).len() > n {
        lemma_fit(s.drop_last(), n);
        assert(s.drop_last().take(fit_bytes(s, n).len() as int) =~= s.take(
            fit_bytes(s, n).len() as int,
        ));
        if s.len() == 1 {
            assert(encode_utf8(s.drop_first()).len() == 0);
            assert(encode_utf8(s).len() <= 4);
        }
    } else {
        assert(s.take(s.len() as int) =~= s);
    }
}

/// No more characters fit than there is room for bytes.
proof fn lemma_fit_within(s: Seq<char>, n: nat)
    ensures
        s.len() >= n ==> fit_bytes(s, n) == fit_bytes(s.take(n as int), n),
    decreases s.len(),
{
    if s.len() > n {
        lemma_bytes_at_least(s);
        lemma_fit_within(s.drop_last(), n);
        assert(s.drop_last().take(n as int) =~= s.take(n as int));
    } else if s.len() == n {
        assert(s.take(n as int) =~= s);
    }
}

/// Cuts a text to at most `n` bytes, between two characters.
pub fn cut_to_fit(s: &str, n: usize) -> (r: String)
    ensures
        r@ == fit_bytes(s@, n as nat),
{
    let mut cut = take_chars(s, n);
    proof {
        lemma_fit_within(s@, n as nat);
    }
    let mut left: usize = chars_of(&cut).len();
    while left > 0 && byte_len(&cut) > n
        invariant
            left == cut@.len(),
            fit_bytes(s@, n as nat) == fit_bytes(cut@, n as nat),
        decreases left,
    {
        let ghost before = cut@;
        left -= 1;
        cut = take_chars(&cut, left);
        assert(cut@ =~= before.drop_last());
    }
    cut
}

/// A short label for the window of a session.
pub fn slug_label(session_id: &str) -> (r: String)
    ensures
        r@ == label_of(session_id@),
{
    let slug = cut_to_fit(&label_text(session_id), 48);
    if slug.as_str().is_empty() {
        "win".to_string()
    } else {
        slug
    }
}

/// Every session has a label: it is not empty, takes at most forty-eight bytes,
/// holds letters, numbers and dashes, and does not start with a dash. Where the
/// id has no letter and no number it is `win`.
pub proof fn law_every_session_has_a_label(id: Seq<char>)
    ensures
        label_of(id).len() > 0,
        encode_utf8(label_of(id)).len() <= 48,
        label_of(id)[0] != '-',
        label_of(id) == "win"@ || forall|i: int|
            0 <= i < label_of(id).len() ==> letter_or_number(#[trigger] label_of(id)[i])
                || label_of(id)[i] == '-',
        (forall|i: int| 0 <= i < id.len() ==> !letter_or_number(#[trigger] id[i])) ==> label_of(id)
            == "win"@,
{
    let k = Class::One('-');
    let d = dashed(id);
    let front = trim_start_of(d, k);
    let body = label_body(id);
    lemma_trim_start(d, k);
    lemma_trim_end(front, k);
    lemma_fit(body, 48);
    reveal_strlit("win");
    assert(encode_utf8("win"@).len() <= 48) by {
        vstd::utf8::is_ascii_chars_encode_utf8("win"@);
    }
    let cut = fit_bytes(body, 48);
    assert forall|i: int| 0 <= i < cut.len() implies letter_or_number(#[trigger] cut[i]) || cut[i]
        == '-' by {
        assert(cut[i] == front[i]);
        assert(front[i] == d[i + d.len() - front.len()]);
    }
    if cut.len() > 0 {
        assert(cut[0] == front[0]);
    }
    if forall|i: int| 0 <= i < id.len() ==> !letter_or_number(#[trigger] id[i]) {
        if front.len() > 0 {
            let at = d.len() - front.len();
            assert(front[0] == d[at]);
            assert(!letter_or_number(id[at]));
            assert(d[at] == '-');
        }
    }
}

/// The label of a session's window.
pub open spec fn session_label_of(session_id: Seq<char>) -> Seq<char> {
    "session-"@ + label_of(session_id)
}

/// The label of the `n`th instance window.
pub open spec fn instance_label_of(n: nat) -> Seq<char> {
    "instance-"@ + dec(n)
}

pub fn session_label(session_id: &str) -> (r: String)
    ensures
        r@ == session_label_of(session_id@),
{
    let mut out = "session-".to_string();
    out.append(&slug_label(session_id));
    out
}

/// The session that a request names; an empty name is refused.
pub open spec fn session_named(id: Seq<char>) -> Result<Seq<char>, Seq<char>> {
    if trimmed(id).len() == 0 {
        Err("sessionId is required."@)
    } else {
        Ok(trimmed(id))
    }
}

pub fn session_key(session_id: &str) -> (r: Result<String, String>)
    ensures
        crate::text::text_result(r) == session_named(session_id@),
{
    let key = trim(session_id);
    if key.as_str().is_empty() {
        Err("sessionId is required.".to_string())
    } else {
        Ok(key)
    }
}

/// The label of the `n`th instance window.
pub fn instance_label(n: usize) -> (r: String)
    ensures
        r@ == instance_label_of(n as nat),
{
    let mut out = "instance-".to_string();
    out.append(&decimal(n as u128));
    out
}

/// Instance windows never share a label.
pub proof fn law_instance_labels_differ(a: nat, b: nat)
    requires
        a != b,
    ensures
        "instance-"@ + dec(a) != "instance-"@ + dec(b),
{
    if "instance-"@ + dec(a) == "instance-"@ + dec(b) {
        let n = "instance-"@.len() as int;
        assert(dec(a) =~= ("instance-"@ + dec(a)).skip(n));
        assert(dec(b) =~= ("instance-"@ + dec(b)).skip(n));
        crate::text::lemma_dec_injective(a, b);
    }
}

} // verus!
