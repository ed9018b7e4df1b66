//! How the backend is found, started and watched, and what the desktop does with
//! hosts, links, logs, images and settings.

use crate::commands::{default_backend_base, BackendV};
use crate::desktop_misc::{
    answered_title, bare_host, bare_name, be_bytes, dir_label, dotted_v4, group_words, guard_of,
    hermes_home_of, hex_group, image_ext, image_file_name, image_write_of, last_segment,
    link_size_guard, local_host, numeric_v4, octet_of, part_value, picked_dir, picker_of,
    private_v4, private_v6, quad_of, recent_lines, rename_guard, saved_dir, side_words, stem_of,
    tail_of, title_of, v6_words, Ipv4, Picker,
};
use crate::gateway::{
    after_announce, announced_port, ended, exit_action, first_usable, gateway_env_of, goes_ahead,
    heard, install_of, lemma_first_usable, located, next_backoff, polled, serve_args_of, watched,
    AfterExitV, AnnounceV, ChildEvent, InstallStepV, LaunchV, Waited, Watch,
};
use crate::json::{field, lemma_found_after_put, JsonV};
use crate::outside::{first_group_of, lossy_text, lowercase, UrlV};
use crate::text::{
    alnum, ascii_lower, dec, digit, ends, every, find_from, find_of, hex_of, in_class, index_of,
    last_index_of, lemma_dec_value, lemma_last_index_of, lines_of, number_text, occurs_at, starts,
    trimmed, value_of, Class,
};
use crate::text_laws::{
    law_a_word_is_itself, law_blank_trims_to_nothing, law_numbers_read_back,
    law_trimming_takes_off_the_ends, lemma_as_it_is, lemma_find_from, only, trim_text,
};
use vstd::prelude::*;

verus! {

// ---------------------------------------------------------------------------
// Finding and starting the backend
// ---------------------------------------------------------------------------

/// The first candidate that can be used is launched, and only where none can be
/// used is nothing.
pub proof fn law_the_first_usable_candidate_is_launched(v: Seq<(LaunchV, bool)>, i: int)
    ensures
        0 <= i < v.len() && v[i].1 && (forall|j: int| 0 <= j < i ==> !(#[trigger] v[j]).1)
            ==> first_usable(v) == Some(v[i].0),
        (forall|j: int| 0 <= j < v.len() ==> !(#[trigger] v[j]).1) ==> first_usable(v) is None,
    decreases v.len(),
{
    if v.len() > 0 {
        let w = v.drop_first();
        law_the_first_usable_candidate_is_launched(w, i - 1);
        if forall|j: int| 0 <= j < v.len() ==> !(#[trigger] v[j]).1 {
            assert forall|j: int| 0 <= j < w.len() implies !(#[trigger] w[j]).1 by {
                assert(w[j] == v[j + 1]);
            }
        }
        if 0 < i < v.len() && v[i].1 && (forall|j: int| 0 <= j < i ==> !(#[trigger] v[j]).1) {
            assert(!v[0].1);
            assert(w[i - 1] == v[i]);
            assert forall|j: int| 0 <= j < i - 1 implies !(#[trigger] w[j]).1 by {
                assert(w[j] == v[j + 1]);
            }
        }
    }
}

/// A backend that came with the application goes before one that is named, that
/// before one at home, and that before one on the path.
pub proof fn law_backends_are_looked_for_in_order(
    bundled: Seq<(LaunchV, bool)>,
    named: Seq<(LaunchV, bool)>,
    at_home: Seq<(LaunchV, bool)>,
    on_path: Seq<(LaunchV, bool)>,
)
    ensures
        first_usable(bundled) is Some ==> located(bundled, named, at_home, on_path) == first_usable(
            bundled,
        ),
        first_usable(bundled) is None && first_usable(named) is Some ==> located(
            bundled,
            named,
            at_home,
            on_path,
        ) == first_usable(named),
        first_usable(bundled) is None && first_usable(named) is None && first_usable(at_home)
            is Some ==> located(bundled, named, at_home, on_path) == first_usable(at_home),
        first_usable(bundled) is None && first_usable(named) is None && first_usable(at_home)
            is None ==> located(bundled, named, at_home, on_path) == first_usable(on_path),
{
    lemma_first_usable(bundled, named);
    lemma_first_usable(bundled + named, at_home);
    lemma_first_usable(bundled + named + at_home, on_path);
}

/// An installation is tried twice, the second time with a mirror; the first
/// success ends it.
pub proof fn law_an_installation_is_tried_twice(tried: Seq<bool>)
    ensures
        install_of(Seq::empty()) == InstallStepV::Try(None),
        install_of(tried.push(true)) == InstallStepV::Installed,
        install_of(seq![false]) matches InstallStepV::Try(Some(_)),
        tried.len() >= 1 ==> install_of(tried.push(false)) == InstallStepV::Failed,
{
}

/// The backend serves on the local machine only, at a port of its choice, after
/// the arguments of its own, and is told the token to ask for.
pub proof fn law_the_backend_serves_locally(pre: Seq<Seq<char>>, t: Seq<char>, i: int)
    ensures
        serve_args_of(pre).take(pre.len() as int) == pre,
        serve_args_of(pre).skip(pre.len() as int) == seq![
            "serve"@,
            "--host"@,
            "127.0.0.1"@,
            "--port"@,
            "0"@,
        ],
        gateway_env_of(t).contains(("HERMES_DASHBOARD_SESSION_TOKEN"@, t)),
        gateway_env_of(t).contains(("HERMES_SERVE_HEADLESS"@, "1"@)),
        gateway_env_of(t).contains(("HERMES_DESKTOP"@, "1"@)),
{
    assert(serve_args_of(pre).take(pre.len() as int) =~= pre);
    assert(serve_args_of(pre).skip(pre.len() as int) =~= seq![
        "serve"@,
        "--host"@,
        "127.0.0.1"@,
        "--port"@,
        "0"@,
    ]);
    let e = gateway_env_of(t);
    assert(e[0] == ("HERMES_DESKTOP"@, "1"@));
    assert(e[1] == ("HERMES_SERVE_HEADLESS"@, "1"@));
    assert(e[2] == ("HERMES_DASHBOARD_SESSION_TOKEN"@, t));
}

proof fn lemma_announced(m: Seq<char>, p: u16)
    requires
        m.len() > 0,
        !in_class(Class::White, m[0]) && !in_class(Class::White, m.last()),
        forall|i: int| 0 <= i < m.len() ==> #[trigger] m[i] != 'p',
        ends(m, "HERMES_BACKEND_READY"@) || ends(m, "HERMES_DASHBOARD_READY"@),
    ensures
        announced_port(m + seq![' '] + "port="@ + dec(p as nat)) == Some(p as nat),
{
    reveal_strlit("port=");
    let k = "port="@;
    assert(k.len() == 5 && k[0] == 'p');
    let d = dec(p as nat);
    lemma_dec_value(p as nat);
    law_numbers_read_back(p as int);
    let t = m + seq![' '] + k + d;
    assert(d.len() > 0);
    assert(digit(d[d.len() - 1]));
    assert(t[0] == m[0] && t.last() == d.last());
    assert(trim_text(t));
    lemma_as_it_is(t);
    let at = m.len() as int + 1;
    assert(t.subrange(at, at + 5) =~= k);
    assert(occurs_at(t, k, at));
    lemma_find_from(t, k, 0, at);
    let i = find_of(t, k)->0;
    if i < at {
        assert(t.subrange(i, i + 5)[0] == t[i]);
        if i < m.len() {
            assert(t[i] == m[i]);
        }
    }
    assert(i == at);
    assert(t.take(at) =~= m + seq![' ']);
    law_trimming_takes_off_the_ends(Seq::empty(), m, seq![' '], Class::White);
    assert(Seq::<char>::empty() + m + seq![' '] =~= m + seq![' ']);
    assert(t.skip(at + 5) =~= d);
    assert forall|j: int| 0 <= j < d.len() implies !in_class(Class::White, #[trigger] d[j]) by {
        assert(digit(d[j]));
    }
    law_a_word_is_itself(d, Class::White);
}

/// A line that ends in a mark, `port=` and a number announces that port, and the
/// backend is then asked there with the token that it was given.
pub proof fn law_an_announced_port_is_dialled(
    m: Seq<char>,
    p: u16,
    b: BackendV,
    t: Seq<char>,
)
    requires
        m.len() > 0,
        !in_class(Class::White, m[0]) && !in_class(Class::White, m.last()),
        forall|i: int| 0 <= i < m.len() ==> #[trigger] m[i] != 'p',
        ends(m, "HERMES_BACKEND_READY"@) || ends(m, "HERMES_DASHBOARD_READY"@),
        t.len() > 0,
    ensures
        ({
            let line = m + seq![' '] + "port="@ + dec(p as nat);
            let a = after_announce(b, heard(line, false, true), t);
            &&& heard(line, false, true) is Ready
            &&& a.ready
            &&& a.base_url == "http://127.0.0.1:"@ + dec(p as nat)
            &&& a.token == Some(t)
        }),
{
    lemma_announced(m, p);
}

/// Any other line changes nothing. Once the wait is over, or the output ends, the
/// default address is taken, without a token.
pub proof fn law_a_silent_backend_is_taken_at_its_default(
    line: Seq<char>,
    b: BackendV,
    t: Seq<char>,
)
    ensures
        announced_port(line) is None ==> after_announce(b, heard(line, false, true), t) == b,
        ({
            let a = after_announce(b, ended(true), t);
            a.ready && a.token is None && a.base_url == default_backend_base()
        }),
        heard(line, true, true) == ended(true),
        ended(false) == AnnounceV::Superseded,
{
}

// ---------------------------------------------------------------------------
// Watching the backend
// ---------------------------------------------------------------------------

/// What waiting found is what is seen of a child that is looked after; a child
/// that was taken away was stopped.
pub proof fn law_a_child_is_seen_as_it_is(code: Option<i32>, waited: Waited)
    ensures
        polled(true, Waited::Ended(code)) == ChildEvent::Exited(code),
        polled(true, Waited::StillRuns) == ChildEvent::Running,
        polled(true, Waited::WaitFailed) == ChildEvent::Exited(None),
        polled(false, waited) == ChildEvent::Stopped,
{
}

/// An exit that nobody asked for is acted on with its code; while the child runs
/// it is looked at again; a stop is left alone.
pub proof fn law_only_an_unwanted_exit_is_acted_on(event: ChildEvent, stopping: bool)
    ensures
        watched(event, stopping) is Gone <==> !stopping && event is Exited,
        watched(event, stopping) matches Watch::Gone(c) ==> event == ChildEvent::Exited(c),
        watched(event, stopping) == Watch::Keep <==> !stopping && event == ChildEvent::Running,
{
}

/// A backend that asks to be started again is, after the wait that is due; any
/// other exit is reported with its code and not revived. A restart goes ahead
/// only while a window is open and nothing is being torn down.
pub proof fn law_only_a_requested_restart_revives(backoff: u64, code: Option<i32>, up: u64)
    ensures
        code == Some(75i32) && up < 60 * 1000 ==> exit_action(backoff, code, up)
            == AfterExitV::RespawnAfter(backoff),
        code == Some(75i32) && up >= 60 * 1000 ==> exit_action(backoff, code, up)
            == AfterExitV::RespawnAfter(1000) && next_backoff(backoff, code, up) == 2000,
        code != Some(75i32) ==> (exit_action(backoff, code, up) matches AfterExitV::Report(j)
            && field(j, "code"@) == Some(
            match code {
                Some(c) => JsonV::Int(c as i64),
                None => JsonV::Null,
            },
        )),
        code != Some(75i32) && up < 60 * 1000 ==> next_backoff(backoff, code, up) == backoff,
        goes_ahead(false, true),
        !goes_ahead(true, true) && !goes_ahead(false, false) && !goes_ahead(true, false),
{
    broadcast use lemma_found_after_put;

    reveal_strlit("code");
    reveal_strlit("signal");
    assert("code"@.len() == 4 && "signal"@.len() == 6);
}

// ---------------------------------------------------------------------------
// Hosts
// ---------------------------------------------------------------------------

/// An address as one number.
pub open spec fn number_of(q: Ipv4) -> nat {
    (q.a * 0x100_0000 + q.b * 0x1_0000 + q.c * 0x100 + q.d) as nat
}

/// The private addresses are those of the ranges `0/8`, `10/8`, `100.64/10`,
/// `127/8`, `169.254/16`, `172.16/12` and `192.168/16`.
pub proof fn law_private_addresses_are_ranges(q: Ipv4)
    ensures
        ({
            let n = number_of(q);
            private_v4(q) <==> {
                ||| n <= 0x00ff_ffff
                ||| 0x0a00_0000 <= n <= 0x0aff_ffff
                ||| 0x6440_0000 <= n <= 0x647f_ffff
                ||| 0x7f00_0000 <= n <= 0x7fff_ffff
                ||| 0xa9fe_0000 <= n <= 0xa9fe_ffff
                ||| 0xac10_0000 <= n <= 0xac1f_ffff
                ||| 0xc0a8_0000 <= n <= 0xc0a8_ffff
            }
        }),
{
}

/// Fewer than four numbers are read as resolvers do: each but the last is an
/// octet, and the last is all that is left. The address has the value that the
/// numbers make up.
pub proof fn law_numbers_make_up_an_address(a: nat, b: nat, c: nat, d: nat)
    ensures
        a <= 0xffff_ffff ==> (quad_of(seq![a]) matches Some(q) && number_of(q) == a),
        a > 0xffff_ffff ==> quad_of(seq![a]) is None,
        a <= 255 && b <= 0xff_ffff ==> (quad_of(seq![a, b]) matches Some(q) && number_of(q) == a
            * 0x100_0000 + b),
        a <= 255 && b <= 255 && c <= 0xffff ==> (quad_of(seq![a, b, c]) matches Some(q)
            && number_of(q) == a * 0x100_0000 + b * 0x1_0000 + c),
        a <= 255 && b <= 255 && c <= 255 && d <= 255 ==> (quad_of(seq![a, b, c, d]) matches Some(q)
            && number_of(q) == a * 0x100_0000 + b * 0x1_0000 + c * 0x100 + d),
        a > 255 || b > 255 || c > 255 || d > 255 ==> quad_of(seq![a, b, c, d]) is None,
        quad_of(Seq::empty()) is None,
        quad_of(seq![a, b, c, d, a]) is None,
{
}

proof fn lemma_digits_trim(s: Seq<char>, radix: nat)
    requires
        number_text(s, radix),
        radix <= 16,
    ensures
        !in_class(Class::White, s[0]) && !in_class(Class::White, s.last()),
        s[0] != '+',
{
    assert(crate::text::digit_in(s[0], radix));
    assert(crate::text::digit_in(s[s.len() - 1], radix));
}

/// A part of a host is read in hexadecimal after `0x`, in octal after a zero and
/// in decimal otherwise, up to thirty-two bits.
pub proof fn law_parts_of_a_host_are_numbers(n: nat, x: Seq<char>)
    requires
        number_text(x, 16),
    ensures
        n <= 0xffff_ffff ==> part_value(dec(n)) == Some(n),
        n > 0xffff_ffff ==> part_value(dec(n)) is None,
        value_of(x, 16) <= 0xffff_ffff ==> part_value("0x"@ + x) == Some(value_of(x, 16)),
        value_of(x, 16) > 0xffff_ffff ==> part_value("0x"@ + x) is None,
        number_text(x, 8) && value_of(seq!['0'] + x, 8) <= 0xffff_ffff ==> part_value(
            seq!['0'] + x,
        ) == Some(value_of(seq!['0'] + x, 8)),
{
    reveal_strlit("0x");
    reveal_strlit("0X");
    assert("0x"@.len() == 2 && "0x"@[0] == '0' && "0x"@[1] == 'x');
    assert("0X"@.len() == 2 && "0X"@[1] == 'X');
    lemma_digits_trim(x, 16);
    let h = "0x"@ + x;
    assert(h[0] == '0' && h.last() == x.last());
    assert(trim_text(h));
    lemma_as_it_is(h);
    assert(h.take(2) =~= "0x"@);
    assert(h.skip(2) =~= x);
    let d = dec(n);
    lemma_dec_value(n);
    law_numbers_read_back(n as int);
    lemma_digits_trim(d, 10);
    lemma_as_it_is(d);
    assert(d.len() >= 2 ==> digit(d[1]));
    if d.len() >= 2 {
        assert(d.take(2)[1] == d[1]);
    }
    lemma_no_leading_zero(n);
    if number_text(x, 8) {
        let o = seq!['0'] + x;
        assert(o[0] == '0' && o.last() == x.last());
        assert(trim_text(o));
        lemma_as_it_is(o);
        assert(crate::text::digit_in(x[0], 8));
        assert(o[1] == x[0]);
        assert(o.take(2)[1] == o[1]);
        assert forall|i: int| 0 <= i < o.len() implies crate::text::digit_in(
            #[trigger] o[i],
            8,
        ) by {
            if i > 0 {
                assert(crate::text::digit_in(x[i - 1], 8));
            }
        }
        let p = |c: char| digit(c);
        assert forall|i: int| 0 <= i < o.len() implies #[trigger] p(o[i]) by {
            assert(crate::text::digit_in(o[i], 8));
        }
        assert(every(o, p));
    }
}

proof fn lemma_no_leading_zero(n: nat)
    ensures
        dec(n).len() > 1 ==> dec(n)[0] != '0',
        dec(n).len() > 0,
        n > 0 ==> dec(n)[0] != '0',
    decreases n,
{
    lemma_dec_value(n);
    if n >= 10 {
        lemma_no_leading_zero(n / 10);
        assert(dec(n)[0] == dec(n / 10)[0]);
    } else if n > 0 {
        assert(dec(n).len() == 1);
        if dec(n)[0] == '0' {
            assert(dec(n) =~= seq!['0']);
            reveal_with_fuel(value_of, 2);
            assert(value_of(dec(n), 10) == 0);
        }
    }
}

/// Of the addresses of the newer kind the private ones are the loopback, those of
/// `fc00::/7` and of `fe80::/10`, and the ones that stand for a private address of
/// the older kind.
pub proof fn law_private_v6_addresses_are_prefixes(w: Seq<u16>, q: Ipv4)
    requires
        w.len() == 8,
    ensures
        w[0] / 0x200 == 0x7e || w[0] / 0x40 == 0x3fa ==> private_v6(w),
        w[0] != 0 ==> (private_v6(w) <==> w[0] / 0x200 == 0x7e || w[0] / 0x40 == 0x3fa),
        private_v6(
            seq![
                0u16,
                0u16,
                0u16,
                0u16,
                0u16,
                0xffffu16,
                (q.a * 256 + q.b) as u16,
                (q.c * 256 + q.d) as u16,
            ],
        ) <==> private_v4(q),
        w[0] == 0 && w[5] == 0 ==> (private_v6(w) <==> w[7] == 1 && (forall|i: int|
            0 <= i < 7 ==> #[trigger] w[i] == 0)),
{
    if w[7] == 1 && (forall|i: int| 0 <= i < 7 ==> #[trigger] w[i] == 0) {
        assert(w =~= seq![0u16, 0u16, 0u16, 0u16, 0u16, 0u16, 0u16, 1u16]);
    }
}

/// A group is one to four hexadecimal digits and stands for their value; an octet
/// is a decimal number up to 255 without a leading zero.
pub proof fn law_groups_and_octets_are_numbers(x: Seq<char>, n: nat)
    ensures
        number_text(x, 16) && x.len() <= 4 ==> (hex_group(x) matches Some(g) && g == value_of(
            x,
            16,
        )),
        !number_text(x, 16) || x.len() > 4 ==> hex_group(x) is None,
        n <= 255 ==> octet_of(dec(n)) == Some(n as u8),
        n > 255 ==> octet_of(dec(n)) is None,
        octet_of(seq!['0'] + dec(n)) is None,
{
    if number_text(x, 16) && x.len() <= 4 {
        lemma_value_bound(x);
    }
    lemma_dec_value(n);
    lemma_no_leading_zero(n);
    if n <= 255 {
        lemma_short_decimal(n);
    }
    let z = seq!['0'] + dec(n);
    assert(z[0] == '0' && z.len() >= 2);
}

proof fn lemma_value_bound(x: Seq<char>)
    requires
        number_text(x, 16),
        x.len() <= 4,
    ensures
        value_of(x, 16) <= 65535,
{
    reveal_with_fuel(value_of, 5);
    assert(crate::text::digit_in(x[x.len() - 1], 16));
    if x.len() >= 2 {
        assert(crate::text::digit_in(x[x.len() - 2], 16));
    }
    if x.len() >= 3 {
        assert(crate::text::digit_in(x[x.len() - 3], 16));
    }
    if x.len() >= 4 {
        assert(crate::text::digit_in(x[x.len() - 4], 16));
    }
}

proof fn lemma_short_decimal(n: nat)
    requires
        n <= 999,
    ensures
        1 <= dec(n).len() <= 3,
{
    reveal_with_fuel(dec, 4);
}

/// Groups are read one by one; only where it is allowed may the last be an
/// address of the older kind, which makes up two words.
pub proof fn law_groups_are_read_in_order(
    p: Seq<Seq<char>>,
    w: Seq<u16>,
    x: Seq<char>,
    v4: bool,
    q: Ipv4,
)
    requires
        group_words(p, false) == Some(w),
    ensures
        hex_group(x) matches Some(g) ==> group_words(p.push(x), v4) == Some(w.push(g)),
        hex_group(x) is None ==> group_words(p.push(x), false) is None,
        hex_group(x) is None && dotted_v4(x) == Some(q) ==> group_words(p.push(x), true) == Some(
            w.push((q.a * 256 + q.b) as u16).push((q.c * 256 + q.d) as u16),
        ),
        hex_group(x) is None && dotted_v4(x) is None ==> group_words(p.push(x), v4) is None,
        group_words(Seq::empty(), v4) == Some(Seq::<u16>::empty()),
{
    assert(p.push(x).drop_last() =~= p);
}

proof fn lemma_one_group(x: Seq<char>, g: u16, v4: bool)
    requires
        hex_group(x) == Some(g),
    ensures
        !x.contains(':'),
        side_words(x, v4) == Some(seq![g]),
{
    if x.contains(':') {
        let i = choose|i: int| 0 <= i < x.len() && x[i] == ':';
        assert(crate::text::digit_in(x[i], 16));
    }
    crate::text_laws::law_a_piece_is_itself(x, ':');
    let p = Seq::<Seq<char>>::empty();
    law_groups_are_read_in_order(p, Seq::empty(), x, v4, (Ipv4 { a: 0, b: 0, c: 0, d: 0 }));
    assert(p.push(x) =~= seq![x]);
    assert(Seq::<u16>::empty().push(g) =~= seq![g]);
}

proof fn lemma_colons_before(y: Seq<char>, h: u16)
    requires
        hex_group(y) == Some(h),
    ensures
        v6_words("::"@ + y) == Some(seq![0u16, 0u16, 0u16, 0u16, 0u16, 0u16, 0u16, h]),
{
    reveal_strlit("::");
    let k = "::"@;
    assert(k.len() == 2);
    lemma_one_group(y, h, true);
    let s = k + y;
    assert(s.subrange(0, 2) =~= k);
    assert(occurs_at(s, k, 0));
    lemma_find_from(s, k, 0, 0);
    assert(find_of(s, k) == Some(0int));
    let a = s.take(0);
    let b = s.skip(2);
    assert(a.len() == 0);
    assert(b =~= y);
    assert(side_words(a, false) == Some(Seq::<u16>::empty()));
    let z = Seq::<u16>::empty() + Seq::new(7, |i: int| 0u16) + seq![h];
    assert(z =~= seq![0u16, 0u16, 0u16, 0u16, 0u16, 0u16, 0u16, h]);
    assert(v6_words(s) == Some(z));
}

proof fn lemma_colons_found(x: Seq<char>, y: Seq<char>)
    requires
        !x.contains(':'),
    ensures
        find_of(x + "::"@ + y, "::"@) == Some(x.len() as int),
        (x + "::"@ + y).take(x.len() as int) == x,
        (x + "::"@ + y).skip(x.len() as int + 2) == y,
{
    reveal_strlit("::");
    let k = "::"@;
    assert(k.len() == 2 && k[0] == ':');
    let t = x + k + y;
    let at = x.len() as int;
    assert(t.take(at) =~= x);
    assert(t.skip(at + 2) =~= y);
    assert(occurs_at(t, k, at)) by {
        assert(t.subrange(at, at + 2) =~= k);
    }
    assert forall|i: int| 0 <= i < at implies #[trigger] t[i] != ':' by {
        assert(t[i] == x[i]);
        assert(x.contains(x[i]));
    }
    lemma_first_there(t, k, 0, at);
}

proof fn lemma_first_there(t: Seq<char>, k: Seq<char>, i: int, at: int)
    requires
        0 <= i <= at,
        k.len() == 2,
        k[0] == ':',
        occurs_at(t, k, at),
        forall|j: int| 0 <= j < at ==> #[trigger] t[j] != ':',
    ensures
        find_from(t, k, i) == Some(at),
    decreases at - i,
{
    if i < at {
        assert(t[i] != ':');
        assert(t.subrange(i, i + 2)[0] == t[i]);
        lemma_first_there(t, k, i + 1, at);
    }
}

proof fn lemma_colons_between(x: Seq<char>, y: Seq<char>, g: u16, h: u16)
    requires
        hex_group(x) == Some(g),
        hex_group(y) == Some(h),
    ensures
        v6_words(x + "::"@ + y) == Some(seq![g, 0u16, 0u16, 0u16, 0u16, 0u16, 0u16, h]),
{
    reveal_strlit("::");
    let k = "::"@;
    assert(k.len() == 2 && k[0] == ':');
    lemma_one_group(x, g, false);
    lemma_one_group(y, h, true);
    let t = x + k + y;
    lemma_colons_found(x, y);
    let z = seq![g] + Seq::new(6, |i: int| 0u16) + seq![h];
    assert(z =~= seq![g, 0u16, 0u16, 0u16, 0u16, 0u16, 0u16, h]);
    assert(v6_words(t) == Some(z));
}

/// Two colons stand for all the zero words that are missing, before a group and
/// between two; one group alone is no address.
pub proof fn law_two_colons_stand_for_zeros(x: Seq<char>, y: Seq<char>, g: u16, h: u16)
    requires
        hex_group(x) == Some(g),
        hex_group(y) == Some(h),
    ensures
        v6_words("::"@ + y) == Some(seq![0u16, 0u16, 0u16, 0u16, 0u16, 0u16, 0u16, h]),
        v6_words(x + "::"@ + y) == Some(seq![g, 0u16, 0u16, 0u16, 0u16, 0u16, 0u16, h]),
        v6_words(x) is None,
{
    lemma_colons_before(y, h);
    lemma_colons_between(x, y, g, h);
    reveal_strlit("::");
    let k = "::"@;
    assert(k.len() == 2 && k[0] == ':');
    lemma_one_group(x, g, true);
    lemma_found_occurs(x, k, 0);
    if let Some(j) = find_of(x, k) {
        assert(x.subrange(j, j + 2)[0] == x[j]);
        assert(x.contains(':'));
    }
}

proof fn lemma_found_occurs(s: Seq<char>, p: Seq<char>, i: int)
    ensures
        find_from(s, p, i) matches Some(j) ==> occurs_at(s, p, j),
    decreases s.len() - i,
{
    if 0 <= i && i + p.len() <= s.len() && !occurs_at(s, p, i) && i < s.len() {
        lemma_found_occurs(s, p, i + 1);
    }
}

/// The machine itself is local by its name, in any case, and so is a plain number;
/// brackets around a host and dots behind it do not matter. What is neither a
/// name of the machine nor an address is not local.
pub proof fn law_the_machine_itself_is_local(h: Seq<char>)
    requires
        h.len() > 0,
        h[0] != '[' && h[0] != ']' && h.last() != ']' && h.last() != '.',
    ensures
        ascii_lower(h) == "localhost"@ ==> local_host(h),
        (forall|i: int| 0 <= i < h.len() ==> digit(#[trigger] h[i])) ==> local_host(h),
        local_host(seq!['['] + h + seq![']']) == local_host(h),
        local_host(h + seq!['.']) == local_host(h),
        (starts(h, "0x"@) || index_of(h, '.') is Some) && ascii_lower(h) != "localhost"@ && !(forall|
            i: int,
        |
            0 <= i < h.len() ==> digit(#[trigger] h[i])) ==> (numeric_v4(h) matches Some(q)
            ==> local_host(h) == private_v4(q)),
        ascii_lower(h) != "localhost"@ && !(forall|i: int|
            0 <= i < h.len() ==> digit(#[trigger] h[i])) && numeric_v4(h) is None && v6_words(h)
            is None ==> !local_host(h),
{
    lemma_bare_host(h);
    let p = |c: char| digit(c);
    if forall|i: int| 0 <= i < h.len() ==> digit(#[trigger] h[i]) {
        assert(every(h, p));
    } else {
        let i = choose|i: int| 0 <= i < h.len() && !digit(#[trigger] h[i]);
        assert(!p(h[i]));
        assert(!every(h, p));
    }
}

proof fn lemma_bare_host(h: Seq<char>)
    requires
        h.len() > 0,
        h[0] != '[' && h.last() != ']' && h.last() != '.',
    ensures
        bare_host(h) == h,
        bare_host(seq!['['] + h + seq![']']) == h,
        bare_host(h + seq!['.']) == h,
{
    let b = seq!['['] + h + seq![']'];
    assert(b.drop_first() =~= h + seq![']']);
    assert((h + seq![']']).drop_last() =~= h);
    assert((h + seq!['.']).drop_last() =~= h);
    reveal_with_fuel(crate::text::trim_start_of, 3);
    reveal_with_fuel(crate::text::trim_end_of, 3);
}

/// A page is fetched only where its address is one of the web and its host is no
/// local one.
pub proof fn law_only_public_pages_are_fetched(noun: Seq<char>, u: UrlV, h: Seq<char>)
    requires
        u.host_str == Some(h),
    ensures
        guard_of(noun, Some(u)) is Ok <==> (u.scheme == "http"@ || u.scheme == "https"@)
            && !local_host(h),
        guard_of(noun, None) is Err,
{
}

// ---------------------------------------------------------------------------
// Links, names and logs
// ---------------------------------------------------------------------------

/// A title is the text between the tags without the white space around it; a
/// page without one, or that could not be fetched, has the empty title. No more
/// than half a mebibyte is read.
pub proof fn law_a_title_is_the_text_found(t: Seq<char>, e: Seq<char>, body: Seq<u8>, n: u64)
    requires
        trim_text(t),
    ensures
        title_of(Ok(Some(seq![' '] + t + seq![' ']))) == Ok::<Seq<char>, Seq<char>>(t),
        title_of(Ok(None)) == Ok::<Seq<char>, Seq<char>>(Seq::empty()),
        title_of(Err(e)) == Err::<Seq<char>, Seq<char>>(e),
        answered_title(None) == Ok::<Seq<char>, Seq<char>>(Seq::empty()),
        body.len() > 512 * 1024 ==> answered_title(Some(body)) is Err,
        body.len() <= 512 * 1024 && first_group_of(
            "(?is)<title[^>]*>(.*?)</title>"@,
            lossy_text(body),
        ) == Ok::<Option<Seq<char>>, Seq<char>>(Some(t)) ==> answered_title(Some(body)) == Ok::<
            Seq<char>,
            Seq<char>,
        >(t),
        link_size_guard(n) is Ok <==> n <= 512 * 1024,
{
    law_trimming_takes_off_the_ends(seq![' '], t, seq![' '], Class::White);
    lemma_as_it_is(t);
}

/// A rename is allowed exactly to a name that has no separator and is not one of
/// the names of a directory itself.
pub proof fn law_a_rename_stays_in_its_directory(name: Seq<char>)
    ensures
        rename_guard(name) is Ok ==> name.len() > 0 && name != "."@ && name != ".."@
            && !name.contains('/') && !name.contains('\\') && !name.contains(':'),
        name.len() > 0 && name != "."@ && name != ".."@ && !name.contains('/') && !name.contains(
            '\\',
        ) && !name.contains(':') ==> rename_guard(name) is Ok,
{
    if !name.contains('/') && !name.contains('\\') && !name.contains(':') {
        assert forall|i: int| 0 <= i < name.len() implies (#[trigger] name[i]) != '/' && name[i]
            != '\\' && name[i] != ':' by {
            if name[i] == '/' {
                assert(name.contains('/'));
            }
            if name[i] == '\\' {
                assert(name.contains('\\'));
            }
            if name[i] == ':' {
                assert(name.contains(':'));
            }
        }
    }
}

/// The tail of a log is its last lines in their order: all of them where there
/// are no more than asked for, and as many as asked for otherwise.
pub proof fn law_a_tail_is_the_last_lines(s: Seq<char>, n: int)
    requires
        n >= 0,
    ensures
        tail_of(s, n).len() == if lines_of(s).len() <= n {
            lines_of(s).len() as int
        } else {
            n
        },
        forall|k: int|
            #![trigger tail_of(s, n)[tail_of(s, n).len() - k]]
            1 <= k <= tail_of(s, n).len() ==> tail_of(s, n)[tail_of(s, n).len() - k] == lines_of(
                s,
            )[lines_of(s).len() - k],
        field(recent_lines(Some(s)), "lines"@) matches Some(JsonV::Arr(v)) && v.len() == tail_of(
            s,
            40,
        ).len() && forall|i: int|
            0 <= i < v.len() ==> #[trigger] v[i] == JsonV::Str(tail_of(s, 40)[i]),
        field(recent_lines(None), "lines"@) matches Some(JsonV::Arr(v)) && v.len() == 0,
{
    broadcast use lemma_found_after_put;

}

// ---------------------------------------------------------------------------
// Images
// ---------------------------------------------------------------------------

/// An image keeps a short extension of letters and digits, with or without its
/// dot; anything else becomes a PNG.
pub proof fn law_an_image_keeps_a_plain_extension(ext: Seq<char>, bare: Seq<char>)
    requires
        bare.len() > 0,
        forall|i: int| 0 <= i < bare.len() ==> alnum(#[trigger] bare[i]),
    ensures
        bare.len() <= 5 && lowercase(trimmed(ext)) == bare ==> image_ext(ext) == "."@ + bare,
        bare.len() <= 5 && lowercase(trimmed(ext)) == "."@ + bare ==> image_ext(ext) == "."@ + bare,
        bare.len() > 5 && lowercase(trimmed(ext)) == bare ==> image_ext(ext) == ".png"@,
        lowercase(trimmed(ext)).contains('/') ==> image_ext(ext) == ".png"@,
{
    reveal_strlit(".");
    let dot = "."@;
    assert(dot.len() == 1 && dot[0] == '.');
    let p = |c: char| alnum(c);
    assert(every(bare, p));
    if bare.take(1) == dot {
        assert(bare.take(1)[0] == bare[0]);
        assert(alnum(bare[0]));
    }
    let d = dot + bare;
    assert(d.take(1) =~= dot);
    assert(d.skip(1) =~= bare);
    let raw = lowercase(trimmed(ext));
    if raw.contains('/') {
        let i = choose|i: int| 0 <= i < raw.len() && raw[i] == '/';
        if starts(raw, dot) {
            assert(raw.take(1)[0] == raw[0]);
            assert(raw.skip(1)[i - 1] == '/');
            assert(!p(raw.skip(1)[i - 1]));
        } else {
            assert(!p(raw[i]));
        }
    }
}

/// The stem of a name is what precedes its last dot.
pub proof fn law_a_stem_precedes_the_last_dot(stem: Seq<char>, ext: Seq<char>, name: Seq<char>)
    requires
        stem.len() > 0,
        !ext.contains('.'),
        !name.contains('.'),
    ensures
        stem_of(stem + seq!['.'] + ext) == stem,
        stem_of(name) == name,
{
    let s = stem + seq!['.'] + ext;
    lemma_last_index_of(s, '.');
    lemma_last_index_of(name, '.');
    let at = stem.len() as int;
    assert(s[at] == '.');
    if let Some(i) = last_index_of(s, '.') {
        if i > at {
            assert(ext[i - at - 1] == '.');
        }
        assert(i == at);
        assert(s.take(at) =~= stem);
    }
    if let Some(i) = last_index_of(name, '.') {
        assert(name[i] == '.');
    }
}

/// Of a path only what follows its last separator counts.
pub proof fn law_only_the_last_segment_counts(dir: Seq<char>, sep: char, name: Seq<char>)
    requires
        sep == '/' || sep == '\\',
        forall|i: int| 0 <= i < name.len() ==> #[trigger] name[i] != '/' && name[i] != '\\',
    ensures
        last_segment(dir + seq![sep] + name) == name,
        last_segment(name) == name,
    decreases name.len(),
{
    if name.len() == 0 {
        assert((dir + seq![sep] + name).last() == sep);
        assert(name =~= Seq::<char>::empty());
    } else {
        let m = name.drop_last();
        law_only_the_last_segment_counts(dir, sep, m);
        let s = dir + seq![sep] + name;
        assert(s.drop_last() =~= dir + seq![sep] + m);
        assert(s.last() == name.last());
        assert(m.push(name.last()) =~= name);
    }
}

/// The white space around the last segment of a name does not count.
pub proof fn law_a_bare_name_is_trimmed(n: Seq<char>, w: Seq<char>)
    requires
        trim_text(n),
        only(w, Class::White),
        forall|i: int| 0 <= i < n.len() ==> #[trigger] n[i] != '/' && n[i] != '\\',
    ensures
        bare_name(n + w, false) == n,
        bare_name(seq!['/'] + (n + w), false) == n,
{
    let s = n + w;
    assert forall|i: int| 0 <= i < s.len() implies #[trigger] s[i] != '/' && s[i] != '\\' by {
        if i < n.len() {
            assert(s[i] == n[i]);
        } else {
            assert(in_class(Class::White, w[i - n.len()]));
        }
    }
    law_only_the_last_segment_counts(Seq::empty(), '/', s);
    assert(Seq::<char>::empty() + seq!['/'] + s =~= seq!['/'] + s);
    law_trimming_takes_off_the_ends(Seq::empty(), n, w, Class::White);
    assert(Seq::<char>::empty() + n + w =~= n + w);
}

/// A pasted image is called by the name that it came with, without the path and
/// the extension, followed by the time and the number that tell it apart.
pub proof fn law_an_image_is_called_by_its_name(
    dir: Seq<char>,
    stem: Seq<char>,
    ext: Seq<char>,
    millis: nat,
    suffix: u32,
    kind: Seq<char>,
)
    requires
        trim_text(stem + seq!['.'] + ext),
        stem.len() > 0,
        ext.len() > 0,
        !ext.contains('.'),
        forall|i: int|
            0 <= i < stem.len() ==> #[trigger] stem[i] != '/' && stem[i] != '\\' && stem[i] != ':',
        forall|i: int|
            0 <= i < ext.len() ==> #[trigger] ext[i] != '/' && ext[i] != '\\' && ext[i] != ':',
    ensures
        image_file_name(
            Some(dir + seq!['/'] + (stem + seq!['.'] + ext)),
            false,
            millis,
            suffix,
            kind,
        ) == stem + "_"@ + dec(millis) + "_"@ + hex_of(be_bytes(suffix)) + image_ext(kind),
        image_file_name(None, false, millis, suffix, kind) == "composer"@ + "_"@ + dec(millis)
            + "_"@ + hex_of(be_bytes(suffix)) + image_ext(kind),
{
    let n = stem + seq!['.'] + ext;
    assert forall|i: int| 0 <= i < n.len() implies #[trigger] n[i] != '/' && n[i] != '\\' by {
        if i < stem.len() {
            assert(n[i] == stem[i]);
        } else if i > stem.len() {
            assert(n[i] == ext[i - stem.len() - 1]);
        }
    }
    law_only_the_last_segment_counts(dir, '/', n);
    lemma_as_it_is(n);
    law_a_stem_precedes_the_last_dot(stem, ext, Seq::empty());
    reveal_strlit(".");
    reveal_strlit("..");
    assert("."@.len() == 1 && ".."@.len() == 2);
    assert(n.len() >= 3);
}

/// An image is written with the bytes that were decoded, under the name and in
/// the directory that are given; without bytes, with bad ones, and in a directory
/// that is not absolute it is refused.
pub proof fn law_an_image_is_written_as_decoded(
    bytes: Seq<u8>,
    e: Seq<char>,
    dir: Seq<char>,
    name: Seq<char>,
    absolute: bool,
)
    requires
        bytes.len() > 0,
        trim_text(dir),
    ensures
        image_write_of(Ok(bytes), Some(dir), true, name) == Ok::<
            (Option<Seq<char>>, Seq<char>, Seq<u8>),
            Seq<char>,
        >((Some(dir), name, bytes)),
        image_write_of(Ok(bytes), None, absolute, name) == Ok::<
            (Option<Seq<char>>, Seq<char>, Seq<u8>),
            Seq<char>,
        >((None, name, bytes)),
        image_write_of(Ok(bytes), Some(dir), false, name) is Err,
        image_write_of(Ok(Seq::empty()), Some(dir), absolute, name) is Err,
        image_write_of(Err(e), Some(dir), absolute, name) is Err,
{
    lemma_as_it_is(dir);
}

// ---------------------------------------------------------------------------
// Directories and settings
// ---------------------------------------------------------------------------

/// The home of the agent is the one that is set; otherwise it is below the data
/// of the user, where the platform keeps it.
pub proof fn law_the_set_home_counts(
    over: Seq<char>,
    windows: bool,
    data: Option<Seq<char>>,
    profile: Option<Seq<char>>,
    home: Seq<char>,
    d: Seq<char>,
)
    requires
        over.len() > 0,
    ensures
        hermes_home_of(Some(over), windows, data, profile, Some(home)) == (
            over,
            Seq::<Seq<char>>::empty(),
        ),
        hermes_home_of(None, false, data, profile, Some(home)) == (home, seq![".hermes"@]),
        hermes_home_of(Some(Seq::empty()), false, data, profile, Some(home)) == (
            home,
            seq![".hermes"@],
        ),
        hermes_home_of(None, true, Some(d), profile, Some(home)) == (d, seq!["hermes"@]),
        hermes_home_of(None, true, None, Some(d), Some(home)) == (
            d,
            seq!["AppData"@, "Local"@, "hermes"@],
        ),
{
}

/// Folders are picked exactly where they are asked for, and several exactly where
/// that is.
pub proof fn law_the_picker_is_the_one_asked_for(directories: Option<bool>, multiple: Option<bool>)
    ensures
        ({
            let p = picker_of(directories, multiple);
            &&& (p == Picker::Folders || p == Picker::Folder) <==> directories == Some(true)
            &&& (p == Picker::Folders || p == Picker::Files) <==> multiple == Some(true)
        }),
{
}

/// A directory that is set is read back without the white space around it; a
/// blank one is the default. What is picked is answered; nothing picked is a
/// cancel.
pub proof fn law_a_set_directory_is_read_back(dir: Seq<char>, w: Seq<char>)
    requires
        trim_text(dir),
        only(w, Class::White),
    ensures
        saved_dir(Some(dir + w)) == Some(dir),
        saved_dir(Some(w)) is None,
        saved_dir(None) is None,
        dir_label(Some(dir)) == "Custom"@,
        dir_label(Some(w)) == "Default"@,
        dir_label(None) == "Default"@,
        field(picked_dir(Some(dir)), "dir"@) == Some(JsonV::Str(dir)),
        field(picked_dir(Some(dir)), "canceled"@) == Some(JsonV::Bool(false)),
        field(picked_dir(None), "dir"@) == Some(JsonV::Null),
        field(picked_dir(None), "canceled"@) == Some(JsonV::Bool(true)),
{
    broadcast use lemma_found_after_put;

    law_trimming_takes_off_the_ends(Seq::empty(), dir, w, Class::White);
    assert(Seq::<char>::empty() + dir + w =~= dir + w);
    lemma_as_it_is(dir);
    law_blank_trims_to_nothing(w, Class::White);
    reveal_strlit("dir");
    reveal_strlit("canceled");
    assert("dir"@.len() == 3 && "canceled"@.len() == 8);
}

} // verus!
