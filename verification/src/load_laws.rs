//! How names, ids and SSH hosts are read, and what becomes of each entry of a
//! stored registry.

use crate::connection_config::{base_url_of, BlockV, ConfigV};
use crate::connections::url_key_of;
use crate::json::{field, lemma_found_after_put, str_field, JsonV};
use crate::registry_migrate::{
    has_url, healed, migrated, resolved, with_gateway, with_profiles, StoredFile,
};
use crate::registry_store::conn_json;
use crate::outside::{lowercase, spaced, UrlV};
use crate::registry::{
    all_digits, first_free, first_free_id, has_id, host_label_of_parts, id_for_label, id_taken,
    ids_of, keys_of, label_base, label_key_of, labels_of, numbered_id, slug_of, slug_run, small_int,
    ssh_fields_of, ssh_port_split, ssh_text, unique_label_of, ConnV, QuarantinedV, RegistryV, SshV,
};
use crate::registry_load::{
    carried, entry_body, first_entries, lemma_kinds_differ, load_item, load_items, loaded,
    normalized, port_of, read_entry, set_aside, EntryRead, LoadV,
};
use crate::text::{
    alnum, count_of, dec, dec_int, digit, index_from, lemma_dec_value, trimmed, Class,
};
use crate::text_laws::{
    law_blank_trims_to_nothing, law_numbers_read_back, law_trimming_takes_off_the_ends,
    lemma_as_it_is, only, trim_text,
};
use vstd::prelude::*;

verus! {

// ---------------------------------------------------------------------------
// Names and ids
// ---------------------------------------------------------------------------

/// A name that nothing else has stays as it is. One that is taken gets the number
/// two, where that is free, and the number three where only that is.
pub proof fn law_a_free_name_stays(name: Seq<char>, taken: Seq<Seq<char>>)
    requires
        trim_text(name),
        name.len() <= 60,
    ensures
        !keys_of(taken).contains(label_key_of(name)) ==> unique_label_of(name, taken) == name,
        keys_of(taken).contains(label_key_of(name)) && !keys_of(taken).contains(
            label_key_of(name + seq![' '] + dec(2)),
        ) ==> unique_label_of(name, taken) == name + seq![' '] + dec(2),
        keys_of(taken).contains(label_key_of(name)) && keys_of(taken).contains(
            label_key_of(name + seq![' '] + dec(2)),
        ) && !keys_of(taken).contains(label_key_of(name + seq![' '] + dec(3)))
            ==> unique_label_of(name, taken) == name + seq![' '] + dec(3),
{
    lemma_as_it_is(name);
    let used = keys_of(taken);
    assert(label_base(name) == name);
    if used.contains(label_key_of(name)) {
        if !used.contains(label_key_of(spaced(name, dec(2)))) {
            assert(first_free(name, used, 2));
            let n = choose|n: nat| first_free(name, used, n);
            if n > 2 {
                assert(used.contains(label_key_of(spaced(name, dec(2)))));
            }
        } else if !used.contains(label_key_of(spaced(name, dec(3)))) {
            assert(first_free(name, used, 3));
            let n = choose|n: nat| first_free(name, used, n);
            if n > 3 {
                assert(used.contains(label_key_of(spaced(name, dec(3)))));
            }
        }
    }
}

/// Names are compared without regard to the white space around them.
pub proof fn law_names_are_compared_trimmed(a: Seq<char>, name: Seq<char>, z: Seq<char>)
    requires
        trim_text(name),
        only(a, Class::White),
        only(z, Class::White),
    ensures
        label_key_of(a + name + z) == lowercase(name),
{
    law_trimming_takes_off_the_ends(a, name, z, Class::White);
}

/// An id is the slug of its name where that is free, and the slug with a number
/// where it is not; the local id is never free.
pub proof fn law_an_id_is_made_of_the_name(label: Seq<char>, taken: Seq<Seq<char>>)
    ensures
        !taken.contains(slug_of(label)) && slug_of(label) != "local"@ ==> id_for_label(label, taken)
            == slug_of(label),
        (taken.contains(slug_of(label)) || slug_of(label) == "local"@) && !taken.contains(
            slug_of(label) + seq!['-'] + dec(2),
        ) && slug_of(label) + seq!['-'] + dec(2) != "local"@ ==> id_for_label(label, taken)
            == slug_of(label) + seq!['-'] + dec(2),
{
    let base = slug_of(label);
    if id_taken(taken, base) && !id_taken(taken, numbered_id(base, 2)) {
        assert(first_free_id(base, taken, 2));
        let n = choose|n: nat| first_free_id(base, taken, n);
        if n > 2 {
            assert(id_taken(taken, numbered_id(base, 2)));
        }
    }
}

proof fn lemma_slug_of_letters(s: Seq<char>)
    requires
        forall|i: int| 0 <= i < s.len() ==> alnum(#[trigger] s[i]),
    ensures
        slug_run(s) == (s, false),
    decreases s.len(),
{
    if s.len() > 0 {
        lemma_slug_of_letters(s.drop_last());
        assert(s.drop_last().push(s.last()) =~= s);
    }
}

proof fn lemma_slug_gap(a: Seq<char>, g: Seq<char>)
    requires
        a.len() > 0,
        forall|i: int| 0 <= i < a.len() ==> alnum(#[trigger] a[i]),
        g.len() > 0,
        forall|i: int| 0 <= i < g.len() ==> !alnum(#[trigger] g[i]),
    ensures
        slug_run(a + g) == (a.push('-'), true),
    decreases g.len(),
{
    assert((a + g).drop_last() =~= a + g.drop_last());
    assert((a + g).last() == g.last());
    if g.len() == 1 {
        assert(a + g.drop_last() =~= a);
        lemma_slug_of_letters(a);
    } else {
        lemma_slug_gap(a, g.drop_last());
    }
}

proof fn lemma_slug_two(a: Seq<char>, g: Seq<char>, b: Seq<char>)
    requires
        a.len() > 0,
        forall|i: int| 0 <= i < a.len() ==> alnum(#[trigger] a[i]),
        g.len() > 0,
        forall|i: int| 0 <= i < g.len() ==> !alnum(#[trigger] g[i]),
        forall|i: int| 0 <= i < b.len() ==> alnum(#[trigger] b[i]),
    ensures
        slug_run(a + g + b).0 == a.push('-') + b,
    decreases b.len(),
{
    if b.len() == 0 {
        lemma_slug_gap(a, g);
        assert(a + g + b =~= a + g);
        assert(a.push('-') + b =~= a.push('-'));
    } else {
        lemma_slug_two(a, g, b.drop_last());
        assert((a + g + b).drop_last() =~= a + g + b.drop_last());
        assert((a + g + b).last() == b.last());
        assert((a.push('-') + b.drop_last()).push(b.last()) =~= a.push('-') + b);
    }
}

/// Words of letters and digits are joined by one dash, whatever stood between
/// them; what has no letter or digit is called `connection`.
pub proof fn law_a_slug_joins_words(label: Seq<char>, a: Seq<char>, g: Seq<char>, b: Seq<char>)
    requires
        a.len() > 0,
        forall|i: int| 0 <= i < a.len() ==> alnum(#[trigger] a[i]),
        g.len() > 0,
        forall|i: int| 0 <= i < g.len() ==> !alnum(#[trigger] g[i]),
        b.len() > 0,
        forall|i: int| 0 <= i < b.len() ==> alnum(#[trigger] b[i]),
        a.len() + 1 + b.len() <= 48,
    ensures
        lowercase(trimmed(label)) == a ==> slug_of(label) == a,
        lowercase(trimmed(label)) == a + g + b ==> slug_of(label) == a + seq!['-'] + b,
        lowercase(trimmed(label)).len() == 0 ==> slug_of(label) == "connection"@,
{
    let k = Class::One('-');
    if lowercase(trimmed(label)) == a {
        lemma_slug_of_letters(a);
        assert(alnum(a[0]) && alnum(a.last()));
        law_trimming_takes_off_the_ends(Seq::empty(), a, Seq::empty(), k);
        assert(Seq::<char>::empty() + a + Seq::<char>::empty() =~= a);
    }
    if lowercase(trimmed(label)) == a + g + b {
        lemma_slug_two(a, g, b);
        let t = a.push('-') + b;
        assert(t =~= a + seq!['-'] + b);
        assert(t[0] == a[0] && t.last() == b.last());
        assert(alnum(a[0]) && alnum(b.last()));
        law_trimming_takes_off_the_ends(Seq::empty(), t, Seq::empty(), k);
        assert(Seq::<char>::empty() + t + Seq::<char>::empty() =~= t);
    }
    if lowercase(trimmed(label)).len() == 0 {
        law_blank_trims_to_nothing(slug_run(lowercase(trimmed(label))).0, k);
    }
}

/// A gateway is called by its host, with the port where that is not the usual
/// one of the web.
pub proof fn law_a_gateway_is_called_by_its_host(u: UrlV, h: Seq<char>)
    requires
        u.host_str == Some(h),
        h.len() > 0,
    ensures
        u.port is None || u.port == Some(80u16) || u.port == Some(443u16) ==> host_label_of_parts(
            Some(u),
        ) == Some(h),
        u.port matches Some(p) ==> p != 80 && p != 443 ==> host_label_of_parts(Some(u)) == Some(
            h + ":"@ + dec(p as nat),
        ),
        host_label_of_parts(None) is None,
        host_label_of_parts(Some((UrlV { host_str: None, ..u }))) is None,
{
    reveal_strlit(":");
    assert(":"@ =~= seq![':']);
}

// ---------------------------------------------------------------------------
// SSH hosts
// ---------------------------------------------------------------------------

/// A host or a user as it is typed: no white space at its ends and none of the
/// characters that part the fields.
pub open spec fn plain_part(s: Seq<char>) -> bool {
    &&& trim_text(s)
    &&& forall|i: int|
        0 <= i < s.len() ==> #[trigger] s[i] != '@' && s[i] != ':' && s[i] != '[' && s[i] != ']'
            && s[i] != ' '
}

proof fn lemma_index_from(s: Seq<char>, c: char, i: int)
    requires
        0 <= i <= s.len(),
    ensures
        match index_from(s, c, i) {
            Some(k) => i <= k < s.len() && s[k] == c && forall|j: int|
                i <= j < k ==> #[trigger] s[j] != c,
            None => forall|j: int| i <= j < s.len() ==> #[trigger] s[j] != c,
        },
    decreases s.len() - i,
{
    if i < s.len() && s[i] != c {
        lemma_index_from(s, c, i + 1);
    }
}

proof fn lemma_count_none(s: Seq<char>, c: char)
    requires
        forall|i: int| 0 <= i < s.len() ==> #[trigger] s[i] != c,
    ensures
        count_of(s, c) == 0,
    decreases s.len(),
{
    if s.len() > 0 {
        lemma_count_none(s.drop_last(), c);
    }
}

proof fn lemma_count_one(a: Seq<char>, c: char, b: Seq<char>)
    requires
        forall|i: int| 0 <= i < a.len() ==> #[trigger] a[i] != c,
        forall|i: int| 0 <= i < b.len() ==> #[trigger] b[i] != c,
    ensures
        count_of(a + seq![c] + b, c) == 1,
    decreases b.len(),
{
    let s = a + seq![c] + b;
    if b.len() == 0 {
        assert(s.drop_last() =~= a);
        lemma_count_none(a, c);
    } else {
        assert(s.drop_last() =~= a + seq![c] + b.drop_last());
        lemma_count_one(a, c, b.drop_last());
    }
}

proof fn lemma_port_text(p: u16)
    ensures
        dec(p as nat).len() > 0,
        all_digits(dec(p as nat)),
        small_int(dec(p as nat)) == Some(p as i64),
{
    law_numbers_read_back(p as int);
    lemma_dec_value(p as nat);
    assert(dec_int(p as int) == dec(p as nat));
}

proof fn lemma_typed_host(h: Seq<char>, p: u16)
    requires
        plain_part(h),
    ensures
        ssh_port_split(h + seq![':'] + dec(p as nat)) == (h, Some(p as i64)),
        ssh_port_split(h) == (h, None::<i64>),
{
    reveal_strlit("[");
    lemma_port_text(p);
    let d = dec(p as nat);
    let s = h + seq![':'] + d;
    assert(s[0] == h[0]);
    assert(h[0] != '[');
    assert("["@.len() == 1 && "["@[0] == '[');
    if s.take(1) == "["@ {
        assert(s.take(1)[0] == s[0]);
    }
    if h.take(1) == "["@ {
        assert(h.take(1)[0] == h[0]);
    }
    lemma_count_one(h, ':', d);
    lemma_count_none(h, ':');
    lemma_index_from(s, ':', 0);
    assert(s[h.len() as int] == ':');
    assert forall|j: int| 0 <= j < h.len() implies s[j] != ':' by {
        assert(s[j] == h[j]);
    }
    assert(s.skip(h.len() as int + 1) =~= d);
    assert(s.take(h.len() as int) =~= h);
}

proof fn lemma_typed_text(t: Seq<char>)
    requires
        trim_text(t),
        forall|i: int| 0 <= i < t.len() ==> #[trigger] t[i] != ' ',
    ensures
        ssh_text(t) == t,
{
    lemma_as_it_is(t);
    reveal_strlit("ssh ");
    reveal_strlit("SSH ");
    if t.len() >= 4 {
        assert("ssh "@[3] == ' ');
        assert("SSH "@[3] == ' ');
        assert(t.take(4)[3] == t[3]);
    }
}

/// A host that is typed as `user@host:port` goes to that host, as that user and
/// at that port; the usual port is not stored.
pub proof fn law_a_typed_host_is_taken_apart(u: Seq<char>, h: Seq<char>, p: u16)
    requires
        plain_part(u),
        plain_part(h),
        0 < p,
    ensures
        ({
            let typed = u + seq!['@'] + h + seq![':'] + dec(p as nat);
            ssh_fields_of(Some(typed), None, None, None, None, None) == Some(
                (SshV {
                    host: h,
                    user: Some(u),
                    port: if p == 22 {
                        None
                    } else {
                        Some(p as i64)
                    },
                    key_path: None,
                    remote_hermes_path: None,
                    remote_profile: None,
                }),
            )
        }),
        ssh_fields_of(Some(h), None, None, None, None, None) == Some(
            (SshV {
                host: h,
                user: None,
                port: None,
                key_path: None,
                remote_hermes_path: None,
                remote_profile: None,
            }),
        ),
{
    let d = dec(p as nat);
    lemma_port_text(p);
    let rest = h + seq![':'] + d;
    let typed = u + seq!['@'] + h + seq![':'] + d;
    assert(typed =~= u + seq!['@'] + rest);
    assert(typed[0] == u[0]);
    assert(typed.last() == d.last());
    assert(digit(d[d.len() - 1]));
    assert forall|i: int| 0 <= i < typed.len() implies #[trigger] typed[i] != ' ' by {
        if i < u.len() {
            assert(typed[i] == u[i]);
        } else if i == u.len() {
        } else if i < u.len() + 1 + h.len() {
            assert(typed[i] == h[i - u.len() - 1]);
        } else if i == u.len() + 1 + h.len() {
        } else {
            assert(typed[i] == d[i - u.len() - 1 - h.len() - 1]);
        }
    }
    lemma_typed_text(typed);
    lemma_index_from(typed, '@', 0);
    assert(typed[u.len() as int] == '@');
    assert forall|j: int| 0 <= j < u.len() implies typed[j] != '@' by {
        assert(typed[j] == u[j]);
    }
    assert(typed.skip(u.len() as int + 1) =~= rest);
    assert(typed.take(u.len() as int) =~= u);
    lemma_typed_host(h, p);
    assert(rest.len() > 0);
    lemma_typed_text(h);
    lemma_index_from(h, '@', 0);
}

/// A host in brackets goes without them, with the port behind them where there is
/// one.
pub proof fn law_brackets_hold_a_host(h: Seq<char>, p: u16)
    requires
        h.len() > 0,
        !h.contains(']'),
    ensures
        ssh_port_split(seq!['['] + h + seq![']']) == (h, None::<i64>),
        ssh_port_split(seq!['['] + h + seq![']', ':'] + dec(p as nat)) == (h, Some(p as i64)),
{
    reveal_strlit("[");
    reveal_strlit("]");
    assert("["@ =~= seq!['[']);
    assert("]"@ =~= seq![']']);
    let a = seq!['['] + h + seq![']'];
    assert(a.take(1) =~= "["@);
    assert(a.skip(1) =~= h + seq![']']);
    assert((h + seq![']']).skip(h.len() as int) =~= "]"@);
    assert((h + seq![']']).take(h.len() as int) =~= h);
    lemma_port_text(p);
    let d = dec(p as nat);
    let b = seq!['['] + h + seq![']', ':'] + d;
    assert(b.take(1) =~= "["@);
    let r = b.skip(1);
    assert(r.last() == d.last());
    assert(digit(d[d.len() - 1]));
    if r.skip(r.len() - 1) == "]"@ {
        assert(r.skip(r.len() - 1)[0] == r.last());
    }
    lemma_index_from(b, ']', 0);
    let at = h.len() as int + 1;
    assert(b[at] == ']');
    assert forall|j: int| 0 <= j < at implies b[j] != ']' by {
        if j > 0 {
            assert(b[j] == h[j - 1]);
            assert(h.contains(h[j - 1]));
        }
    }
    assert(b.skip(at + 2) =~= d);
    assert(b.subrange(1, at) =~= h);
}

/// Two addresses are the same one whatever white space and trailing slashes they
/// are written with.
pub proof fn law_addresses_are_compared_bare(a: Seq<char>, u: Seq<char>, s: Seq<char>, z: Seq<char>)
    requires
        trim_text(u),
        u[0] != '/' && u.last() != '/',
        only(a, Class::White),
        only(z, Class::White),
        only(s, Class::One('/')),
    ensures
        url_key_of(a + (u + s) + z) == lowercase(u),
{
    let t = u + s;
    assert(t[0] == u[0]);
    if s.len() > 0 {
        assert(t.last() == s.last());
        assert(crate::text::in_class(Class::One('/'), s[s.len() - 1]));
    } else {
        assert(t =~= u);
    }
    law_trimming_takes_off_the_ends(a, t, z, Class::White);
    law_trimming_takes_off_the_ends(Seq::empty(), u, s, Class::One('/'));
}

/// Fields of their own come before what the host names: the user, and the port
/// where it is a port. Text that is blank is no field.
pub proof fn law_own_ssh_fields_come_first(
    u: Seq<char>,
    h: Seq<char>,
    own: Seq<char>,
    p: i64,
    key: Seq<char>,
    path: Seq<char>,
)
    requires
        plain_part(u),
        plain_part(h),
        trim_text(own),
        trim_text(key),
        trim_text(path),
    ensures
        ({
            let typed = u + seq!['@'] + h;
            let f = ssh_fields_of(Some(typed), Some(own), Some(p), Some(key), Some(path), None);
            &&& f is Some
            &&& f->0.host == h
            &&& f->0.user == Some(own)
            &&& f->0.port == if 0 < p <= 65535 && p != 22 {
                Some(p)
            } else {
                None
            }
            &&& f->0.key_path == Some(key)
            &&& f->0.remote_hermes_path == Some(path)
            &&& f->0.remote_profile is None
        }),
        ssh_fields_of(None, Some(own), Some(p), Some(key), Some(path), None) is None,
{
    let typed = u + seq!['@'] + h;
    lemma_as_it_is(own);
    lemma_as_it_is(key);
    lemma_as_it_is(path);
    assert(typed[0] == u[0]);
    assert(typed.last() == h.last());
    assert forall|i: int| 0 <= i < typed.len() implies #[trigger] typed[i] != ' ' by {
        if i < u.len() {
            assert(typed[i] == u[i]);
        } else if i > u.len() {
            assert(typed[i] == h[i - u.len() - 1]);
        }
    }
    lemma_typed_text(typed);
    lemma_index_from(typed, '@', 0);
    assert(typed[u.len() as int] == '@');
    assert forall|j: int| 0 <= j < u.len() implies typed[j] != '@' by {
        assert(typed[j] == u[j]);
    }
    assert(typed.skip(u.len() as int + 1) =~= h);
    assert(typed.take(u.len() as int) =~= u);
    lemma_typed_host(h, 1);
    law_blank_trims_to_nothing(Seq::empty(), Class::White);
    reveal_strlit("ssh ");
    reveal_strlit("SSH ");
    assert("ssh "@.len() == 4 && "SSH "@.len() == 4);
}

/// A port is a number, or the text of one.
pub proof fn law_a_port_is_a_number_or_its_text(item: JsonV, p: u16)
    ensures
        field(item, "port"@) == Some(JsonV::Int(p as i64)) ==> port_of(item) == Some(p as i64),
        field(item, "port"@) == Some(JsonV::Str(dec(p as nat))) ==> port_of(item) == Some(
            p as i64,
        ),
        field(item, "port"@) is None ==> port_of(item) is None,
{
    lemma_port_text(p);
    let d = dec(p as nat);
    assert(digit(d[0]) && digit(d[d.len() - 1]));
    lemma_as_it_is(d);
}

// ---------------------------------------------------------------------------
// Entries of a stored registry
// ---------------------------------------------------------------------------

/// A stored gateway is read with its own id, name, address, login, token and
/// organisation.
pub proof fn law_a_stored_gateway_is_read_as_stored(
    item: JsonV,
    labels: Seq<Seq<char>>,
    ids: Seq<Seq<char>>,
    id: Seq<char>,
    label: Seq<char>,
    url: Seq<char>,
)
    requires
        item is Obj,
        str_field(item, "kind"@) == Some("remote"@) || str_field(item, "kind"@) == Some("cloud"@),
        str_field(item, "id"@) == Some(id) && trim_text(id) && !ids.contains(id) && id != "local"@,
        str_field(item, "label"@) == Some(label) && trim_text(label) && label.len() <= 60
            && !keys_of(labels).contains(label_key_of(label)),
        str_field(item, "url"@) == Some(url) && trim_text(url),
    ensures
        ({
            let r = read_entry(item, labels, ids);
            &&& r is Add
            &&& r->Add_0.id == id
            &&& Some(r->Add_0.kind) == str_field(item, "kind"@)
            &&& r->Add_0.label == label
            &&& r->Add_0.url == Some(url)
            &&& r->Add_0.token == field(item, "token"@)
            &&& r->Add_0.auth_mode == Some(
                if str_field(item, "authMode"@) == Some("oauth"@) {
                    "oauth"@
                } else {
                    "token"@
                },
            )
            &&& field(item, "headers"@) is None ==> r->Add_0.headers is None
            &&& str_field(item, "kind"@) == Some("cloud"@) ==> (str_field(item, "org"@) matches Some(
                o,
            ) ==> trim_text(o) ==> r->Add_0.org == Some(o))
            &&& str_field(item, "kind"@) == Some("remote"@) ==> r->Add_0.org is None
            &&& r->Add_0.host is None && r->Add_0.user is None && r->Add_0.port is None
                && r->Add_0.key_path is None
        }),
{
    lemma_kinds_differ();
    lemma_as_it_is(id);
    lemma_as_it_is(label);
    lemma_as_it_is(url);
    law_a_free_name_stays(label, labels);
    if let Some(o) = str_field(item, "org"@) {
        if trim_text(o) {
            lemma_as_it_is(o);
        }
    }
}

/// A stored SSH entry is read with its own id and name, and goes where its host
/// says.
pub proof fn law_a_stored_ssh_entry_goes_where_it_says(
    item: JsonV,
    labels: Seq<Seq<char>>,
    ids: Seq<Seq<char>>,
    id: Seq<char>,
    label: Seq<char>,
    u: Seq<char>,
    h: Seq<char>,
    p: u16,
)
    requires
        item is Obj,
        str_field(item, "kind"@) == Some("ssh"@),
        str_field(item, "id"@) == Some(id) && trim_text(id) && !ids.contains(id) && id != "local"@,
        str_field(item, "label"@) == Some(label) && trim_text(label) && label.len() <= 60
            && !keys_of(labels).contains(label_key_of(label)),
        plain_part(u) && plain_part(h) && 0 < p && p != 22,
        str_field(item, "host"@) == Some(u + seq!['@'] + h + seq![':'] + dec(p as nat)),
        str_field(item, "user"@) is None && field(item, "port"@) is None,
        str_field(item, "keyPath"@) is None && str_field(item, "remoteHermesPath"@) is None,
        str_field(item, "remoteProfile"@) is None,
    ensures
        ({
            let r = read_entry(item, labels, ids);
            &&& r is Add
            &&& r->Add_0.id == id
            &&& r->Add_0.kind == "ssh"@
            &&& r->Add_0.label == label
            &&& r->Add_0.host == Some(h)
            &&& r->Add_0.user == Some(u)
            &&& r->Add_0.port == Some(p as i64)
            &&& r->Add_0.url is None && r->Add_0.token is None
        }),
{
    lemma_kinds_differ();
    lemma_as_it_is(id);
    lemma_as_it_is(label);
    law_a_free_name_stays(label, labels);
    law_a_typed_host_is_taken_apart(u, h, p);
}

/// What cannot be used is set aside as it was found, with the reason; nothing is
/// made of it.
pub proof fn law_what_cannot_be_used_is_set_aside(st: LoadV, item: JsonV, why: Seq<char>)
    requires
        st.quarantined.len() < 20,
        ({
            ||| why == "entry-malformed"@ && (item is Int || item is Str || item is Arr)
            ||| why == "entry-unrecognized-kind"@ && item is Obj && str_field(item, "kind"@) is None
            ||| why == "entry-unrecognized-kind"@ && item is Obj && (str_field(item, "kind"@)
                matches Some(k) && k != "local"@ && k != "remote"@ && k != "cloud"@ && k != "ssh"@)
        }),
    ensures
        load_item(st, item).connections == st.connections,
        load_item(st, item).quarantined == st.quarantined.push(
            (QuarantinedV { reason: why, entry: item }),
        ),
{
    reveal_strlit("local");
    reveal_strlit("remote");
    reveal_strlit("cloud");
    reveal_strlit("ssh");
    assert("local"@.len() == 5 && "remote"@.len() == 6 && "cloud"@.len() == 5 && "ssh"@.len() == 3);
}

/// A gateway without an address and an SSH entry without a host are set aside
/// under reasons of their own; no more than twenty entries are.
pub proof fn law_incomplete_entries_are_set_aside(
    item: JsonV,
    kind: Seq<char>,
    id: Seq<char>,
    label: Seq<char>,
    q: Seq<QuarantinedV>,
    why: Seq<char>,
)
    ensures
        (kind == "remote"@ || kind == "cloud"@) && str_field(item, "url"@) is None ==> entry_body(
            item,
            kind,
            id,
            label,
        ) == EntryRead::Quarantine("entry-missing-url"@),
        kind == "ssh"@ && str_field(item, "host"@) is None ==> entry_body(item, kind, id, label)
            == EntryRead::Quarantine("entry-missing-ssh-host"@),
        q.len() >= 20 ==> set_aside(q, why, item) == q,
        q.len() < 20 ==> set_aside(q, why, item) == q.push(
            (QuarantinedV { reason: why, entry: item }),
        ),
{
    lemma_kinds_differ();
    law_blank_trims_to_nothing(Seq::empty(), Class::White);
    reveal_strlit("ssh ");
    reveal_strlit("SSH ");
    assert("ssh "@.len() == 4 && "SSH "@.len() == 4);
}

/// Entries are read one after another, each behind those before it, and
/// what stands for nothing changes nothing.
pub proof fn law_entries_are_read_in_order(st: LoadV, v: Seq<JsonV>, item: JsonV)
    ensures
        load_items(st, v.push(item)) == load_item(load_items(st, v), item),
        load_items(st, Seq::empty()) == st,
        item is Null || item is Bool ==> load_items(st, v.push(item)) == load_items(st, v),
        read_entry(
            item,
            labels_of(load_items(st, v).connections),
            ids_of(load_items(st, v).connections),
        ) matches EntryRead::Add(c) ==> load_items(st, v.push(item)).connections == load_items(
            st,
            v,
        ).connections.push(c) && load_items(st, v.push(item)).quarantined == load_items(
            st,
            v,
        ).quarantined,
{
    assert(v.push(item).drop_last() =~= v);
}

/// What was set aside before stays set aside, with its reason, in its order.
pub proof fn law_what_was_set_aside_stays(v: Seq<JsonV>, item: JsonV, entry: JsonV, why: Seq<char>)
    requires
        carried(v).len() < 20,
    ensures
        field(item, "entry"@) == Some(entry) && str_field(item, "reason"@) == Some(why) ==> carried(
            v.push(item),
        ) == carried(v).push((QuarantinedV { reason: why, entry })),
        field(item, "entry"@) is None ==> carried(v.push(item)) == carried(v),
        carried(Seq::empty()) == Seq::<QuarantinedV>::empty(),
{
    assert(v.push(item).drop_last() =~= v);
}

/// The stored choices hold where they name an entry that was read; otherwise
/// windows open on the local connection, and on the chosen one when none was
/// used last.
pub proof fn law_stored_choices_hold_where_they_can(
    raw: JsonV,
    first: Seq<char>,
    last: Seq<char>,
)
    requires
        raw is Obj,
        str_field(raw, "primary"@) == Some(first) && trim_text(first),
        str_field(raw, "lastUsed"@) == Some(last) && trim_text(last),
    ensures
        ({
            let r = normalized(raw);
            &&& r.connections == loaded(raw).connections
            &&& has_id(r.connections, first) ==> r.primary == first
            &&& !has_id(r.connections, first) ==> r.primary == "local"@
            &&& has_id(r.connections, last) ==> r.last_used == last
            &&& !has_id(r.connections, last) ==> r.last_used == r.primary
            &&& r.launch_mode == "last-used"@ <==> str_field(raw, "launchMode"@) == Some(
                "last-used"@,
            )
            &&& r.launch_mode == "last-used"@ || r.launch_mode == "primary"@
            &&& loaded(raw).quarantined.len() > 0 ==> r.quarantined == Some(
                loaded(raw).quarantined,
            )
            &&& loaded(raw).quarantined.len() == 0 ==> r.quarantined is None
        }),
{
    lemma_as_it_is(first);
    lemma_as_it_is(last);
    reveal_strlit("last-used");
    reveal_strlit("primary");
    assert("last-used"@.len() == 9 && "primary"@.len() == 7);
}

/// Where no stored entry is local, one is put before all the others; anything
/// that is no object stands for that entry alone.
pub proof fn law_there_is_always_a_local_entry(v: Seq<JsonV>, raw: JsonV)
    ensures
        (forall|i: int|
            0 <= i < v.len() ==> str_field(#[trigger] v[i], "kind"@) != Some("local"@))
            ==> first_entries(v).len() == 1 && first_entries(v)[0].id == "local"@
            && first_entries(v)[0].kind == "local"@ && first_entries(v)[0].label == "This device"@,
        (exists|i: int|
            0 <= i < v.len() && str_field(#[trigger] v[i], "kind"@) == Some("local"@))
            ==> first_entries(v).len() == 0,
        !(raw is Obj) ==> normalized(raw).connections.len() == 1
            && normalized(raw).connections[0].kind == "local"@ && normalized(raw).primary
            == "local"@ && normalized(raw).quarantined is None,
{
    reveal_strlit("local");
    assert("local"@.len() == 5);
    if exists|i: int| 0 <= i < v.len() && str_field(#[trigger] v[i], "kind"@) == Some("local"@) {
        let i = choose|i: int|
            0 <= i < v.len() && str_field(#[trigger] v[i], "kind"@) == Some("local"@);
        assert(crate::json::str_field_or_empty(v[i], "kind"@) == "local"@);
    }
}

// ---------------------------------------------------------------------------
// Import, drift and files
// ---------------------------------------------------------------------------

proof fn lemma_gateway_names()
    ensures
        "remote"@.len() == 6,
        "cloud"@.len() == 5 && "cloud"@[0] == 'c',
        "local"@.len() == 5 && "local"@[0] == 'l',
        "oauth"@.len() == 5,
        "token"@.len() == 5,
{
    reveal_strlit("remote");
    reveal_strlit("cloud");
    reveal_strlit("local");
    reveal_strlit("oauth");
    reveal_strlit("token");
}

/// The gateway of a block is added behind the others with the address, the
/// login, the token and the organisation of the block; once, and not at all
/// where it has no address.
pub proof fn law_a_gateway_is_taken_over_once(
    c: Seq<ConnV>,
    mode: Seq<char>,
    block: BlockV,
    url: Seq<char>,
)
    requires
        block.url == url,
        trim_text(url),
    ensures
        ({
            let d = with_gateway(c, mode, block);
            &&& (forall|i: int| 0 <= i < c.len() ==> (#[trigger] c[i]).url != Some(url)) ==> {
                &&& d.len() == c.len() + 1
                &&& d.drop_last() == c
                &&& d.last().url == Some(url)
                &&& d.last().kind == if mode == "cloud"@ {
                    "cloud"@
                } else {
                    "remote"@
                }
                &&& d.last().auth_mode == Some(
                    if block.auth_mode == "oauth"@ {
                        "oauth"@
                    } else {
                        "token"@
                    },
                )
                &&& block.token matches Some(t) ==> trim_text(t) ==> d.last().token == Some(
                    JsonV::Str(t),
                )
                &&& block.token is None ==> d.last().token is None
                &&& mode == "cloud"@ && trim_text(block.org) ==> d.last().org == Some(block.org)
                &&& mode != "cloud"@ ==> d.last().org is None
            }
            &&& (exists|i: int| 0 <= i < c.len() && (#[trigger] c[i]).url == Some(url)) ==> d == c
            &&& with_gateway(c, mode, (BlockV { url: Seq::empty(), ..block })) == c
            &&& with_gateway(d, mode, block) == d
        }),
{
    lemma_gateway_names();
    lemma_as_it_is(url);
    law_blank_trims_to_nothing(Seq::empty(), Class::White);
    if let Some(t) = block.token {
        if trim_text(t) {
            lemma_as_it_is(t);
        }
    }
    if trim_text(block.org) {
        lemma_as_it_is(block.org);
    }
    let d = with_gateway(c, mode, block);
    if !has_url(c, url) {
        assert(d.drop_last() =~= c);
        assert(d[c.len() as int].url == Some(url));
    }
}

/// An import starts with the local entry. A global gateway comes next and is the
/// one that windows open on; without one they open on the local entry. The
/// gateways of the profiles follow in their order.
pub proof fn law_an_import_opens_on_the_global_gateway(config: ConfigV)
    requires
        config.profiles.len() == 0,
    ensures
        ({
            let r = migrated(config);
            &&& r.connections.len() >= 1 && r.connections[0].id == "local"@
            &&& r.last_used == r.primary
            &&& (config.mode == "remote"@ || config.mode == "cloud"@) && trim_text(
                config.remote.url,
            ) ==> r.connections.len() == 2 && r.connections[1].url == Some(config.remote.url)
                && r.primary == r.connections[1].id
            &&& config.mode != "remote"@ && config.mode != "cloud"@ ==> r.connections.len() == 1
                && r.primary == "local"@
        }),
{
    lemma_gateway_names();
    if trim_text(config.remote.url) {
        let first = crate::registry::default_registry().connections;
        law_a_gateway_is_taken_over_once(first, config.mode, config.remote, config.remote.url);
    }
}

/// The profiles are imported one by one; one that is not remote adds nothing.
pub proof fn law_profiles_are_imported_in_order(
    c: Seq<ConnV>,
    p: Seq<(Seq<char>, BlockV)>,
    name: Seq<char>,
    block: BlockV,
)
    ensures
        block.mode == "remote"@ || block.mode == "cloud"@ ==> with_profiles(
            c,
            p.push((name, block)),
        ) == with_gateway(with_profiles(c, p), block.mode, block),
        block.mode != "remote"@ && block.mode != "cloud"@ ==> with_profiles(
            c,
            p.push((name, block)),
        ) == with_profiles(c, p),
        with_profiles(c, Seq::empty()) == c,
{
    assert(p.push((name, block)).drop_last() =~= p);
}

/// A saved route that no gateway has becomes the entry that windows open on,
/// behind all the others, which stay. One that a gateway has changes nothing.
pub proof fn law_a_missing_route_is_added(config: ConfigV, r: RegistryV, i: int)
    requires
        config.mode == "remote"@ || config.mode == "cloud"@,
        trim_text(base_url_of(config.remote.url)),
    ensures
        ({
            let url = base_url_of(config.remote.url);
            let h = healed(config, r);
            &&& h matches Some(n) ==> {
                &&& n.connections.drop_last() == r.connections
                &&& n.connections.len() == r.connections.len() + 1
                &&& n.connections.last().url == Some(url)
                &&& n.primary == n.connections.last().id
                &&& n.last_used == n.connections.last().id
                &&& n.launch_mode == r.launch_mode
                &&& n.quarantined == r.quarantined
            }
            &&& (forall|j: int|
                0 <= j < r.connections.len() ==> (#[trigger] r.connections[j]).url is None)
                ==> h is Some
            &&& 0 <= i < r.connections.len() && (r.connections[i].kind == "remote"@
                || r.connections[i].kind == "cloud"@) && (r.connections[i].url matches Some(u)
                && base_url_of(u) == url) ==> h is None
        }),
        healed((ConfigV { mode: "local"@, ..config }), r) is None,
{
    lemma_gateway_names();
    lemma_as_it_is(base_url_of(config.remote.url));
    if let Some(n) = healed(config, r) {
        assert(n.connections.drop_last() =~= r.connections);
    }
}

/// A missing file is imported and written. A file that was read is left alone
/// unless it drifted; one that cannot be read counts as the fresh registry.
pub proof fn law_files_are_written_where_they_differ(file: StoredFile, config: ConfigV)
    ensures
        file is Missing ==> resolved(file, config) == (migrated(config), true),
        file matches StoredFile::Parsed(j) ==> healed(config, normalized(j@)) is None ==> resolved(
            file,
            config,
        ) == (normalized(j@), false),
        file matches StoredFile::Parsed(j) ==> (healed(config, normalized(j@)) matches Some(h)
            ==> resolved(file, config) == (h, true)),
        file is Corrupt && config.mode != "remote"@ && config.mode != "cloud"@ ==> resolved(
            file,
            config,
        ).0.connections.len() == 1 && !resolved(file, config).1,
{
}

proof fn lemma_stored_names()
    ensures
        "id"@.len() == 2,
        "org"@.len() == 3 && "org"@[0] == 'o',
        "url"@.len() == 3 && "url"@[0] == 'u',
        "host"@.len() == 4 && "host"@[0] == 'h',
        "kind"@.len() == 4 && "kind"@[0] == 'k',
        "port"@.len() == 4 && "port"@[0] == 'p',
        "user"@.len() == 4 && "user"@[0] == 'u',
        "label"@.len() == 5 && "label"@[0] == 'l',
        "token"@.len() == 5 && "token"@[0] == 't',
        "headers"@.len() == 7 && "headers"@[0] == 'h',
        "keyPath"@.len() == 7 && "keyPath"@[0] == 'k',
        "authMode"@.len() == 8,
        "remoteProfile"@.len() == 13,
        "remoteHermesPath"@.len() == 16,
{
    reveal_strlit("id");
    reveal_strlit("org");
    reveal_strlit("url");
    reveal_strlit("host");
    reveal_strlit("kind");
    reveal_strlit("port");
    reveal_strlit("user");
    reveal_strlit("label");
    reveal_strlit("token");
    reveal_strlit("headers");
    reveal_strlit("keyPath");
    reveal_strlit("authMode");
    reveal_strlit("remoteProfile");
    reveal_strlit("remoteHermesPath");
}

/// What is written of an entry is what it has, under the names that are read.
#[verifier::rlimit(80)]
#[verifier::spinoff_prover]
pub proof fn law_an_entry_is_written_as_it_is(c: ConnV)
    ensures
        ({
            let j = conn_json(c);
            &&& field(j, "id"@) == Some(JsonV::Str(c.id))
            &&& field(j, "kind"@) == Some(JsonV::Str(c.kind))
            &&& field(j, "label"@) == Some(JsonV::Str(c.label))
            &&& str_field(j, "url"@) == c.url
            &&& str_field(j, "authMode"@) == c.auth_mode
            &&& field(j, "token"@) == c.token
            &&& str_field(j, "org"@) == c.org
            &&& str_field(j, "host"@) == c.host
            &&& str_field(j, "user"@) == c.user
            &&& str_field(j, "keyPath"@) == c.key_path
            &&& str_field(j, "remoteHermesPath"@) == c.remote_hermes_path
            &&& str_field(j, "remoteProfile"@) == c.remote_profile
            &&& c.headers matches Some(h) ==> field(j, "headers"@) == Some(JsonV::Obj(h))
            &&& c.port matches Some(p) ==> field(j, "port"@) == Some(JsonV::Int(p))
            &&& c.port is None ==> field(j, "port"@) is None
        }),
{
    broadcast use lemma_found_after_put;

    lemma_stored_names();
}

} // verus!
