//! What a restart leaves of the registry: which registries are read back as
//! they were written, and which edits survive it.

use crate::connections::{
    conn_with_id, edited_entry, edited_headers, first_where, inherit, lemma_removed_sound,
    lemma_upsert_distinct, lemma_upsert_sound, lemma_without_id, merged_input, name_clash, removed,
    saved_entry, stored_headers_of, typed_entry, upserted, with_connections, with_token, without_id,
};
use crate::json::{field, lemma_lookup_put, lookup, put, str_field_or_empty, Fields, JsonV};
use crate::registry::{
    bare_conn, has_id, ids_of, keys_of, label_base, label_key_of, labels_of, lemma_made_id,
    lemma_position, local_conn, position_of, storable_header, unique_label_of, usable_header, ConnV,
    RegistryV,
};
use crate::registry_load::{
    carried, distinct, entry_body, entry_id, entry_label, first_entries, has_local, known_kind,
    lemma_first_local, lemma_kinds_differ, lemma_local_has_id, list_of, lists_local, load_items,
    loaded, normalized, read_entry, sound, ssh_of, stored_headers, usable_entry, EntryRead, LoadV,
};
use crate::registry_store::{
    conn_json, conn_list, lemma_conn_fields, lemma_listed_local, lemma_registry_fields,
    lemma_settled_reads_back, opt_int_value, opt_obj_value, opt_str_value, registry_json, settled,
    settled_body, settled_entry,
};
use crate::text::{
    before, dec, in_class, lemma_before_total, lemma_dec_value, lemma_trim_ends, lemma_trim_fixed,
    lemma_trim_idempotent, trimmed, Class,
};
use vstd::prelude::*;

verus! {

// ---------------------------------------------------------------------------
// Names that were made
// ---------------------------------------------------------------------------

/// A name that was made unique is never blank.
proof fn lemma_made_label(candidate: Seq<char>, taken: Seq<Seq<char>>)
    ensures
        trimmed(unique_label_of(candidate, taken)).len() > 0,
{
    let label = unique_label_of(candidate, taken);
    let base = label_base(candidate);
    lemma_trim_ends(candidate, Class::White);
    let k = if base.len() > 0 && label == base {
        0int
    } else {
        let n = choose|n: nat| crate::registry::first_free(base, keys_of(taken), n);
        lemma_dec_value(n);
        assert(crate::text::digit(dec(n)[dec(n).len() - 1]));
        assert(label.last() == dec(n).last());
        label.len() - 1
    };
    assert(!in_class(Class::White, label[k]));
    if trimmed(label).len() == 0 {
        crate::text::lemma_trim_start(label, Class::White);
        let t = crate::text::trim_start_of(label, Class::White);
        crate::text::lemma_trim_end(t, Class::White);
        if k >= label.len() - t.len() {
            assert(t[k - (label.len() - t.len())] == label[k]);
        }
    }
}

// ---------------------------------------------------------------------------
// Exactly the settled registries are read back unchanged
// ---------------------------------------------------------------------------

proof fn lemma_read_back_settles(c: ConnV, labels: Seq<Seq<char>>, ids: Seq<Seq<char>>)
    requires
        read_entry(conn_json(c), labels, ids) == EntryRead::Add(c),
    ensures
        settled_entry(c, labels, ids),
{
    let item = conn_json(c);
    lemma_conn_fields(c);
    lemma_kinds_differ();
    let kind = str_field_or_empty(item, "kind"@);
    assert(kind == c.kind);
    let label = unique_label_of(entry_label(item, kind), labels);
    let id = entry_id(item, kind, label, ids);
    assert(entry_body(item, kind, id, label) == EntryRead::Add(c));
    assert(c.label == label && c.id == id);
    assert(str_field_or_empty(item, "label"@) == c.label);
    lemma_made_label(entry_label(item, kind), labels);
    lemma_trim_idempotent(c.label, Class::White);
    assert(label_base(trimmed(c.label)) == label_base(c.label));
    assert(str_field_or_empty(item, "id"@) == c.id);
    lemma_trim_idempotent(c.id, Class::White);
    lemma_made_id(label, ids);
    if kind == "local"@ {
        reveal_strlit("local");
        lemma_trim_fixed("local"@, Class::White);
    }
    if c.kind == "remote"@ || c.kind == "cloud"@ {
        lemma_trim_idempotent(str_field_or_empty(item, "url"@), Class::White);
        assert(c.url is Some);
        assert(str_field_or_empty(item, "url"@) == c.url->0);
        if c.org is Some {
            assert(str_field_or_empty(item, "org"@) == c.org->0);
        }
    } else if c.kind == "ssh"@ {
        assert(ssh_of(item) is Some);
        assert(crate::json::str_field(item, "host"@) == c.host);
        assert(crate::json::str_field(item, "user"@) == c.user);
        assert(crate::registry_load::port_of(item) == c.port);
        assert(crate::json::str_field(item, "keyPath"@) == c.key_path);
        assert(crate::json::str_field(item, "remoteHermesPath"@) == c.remote_hermes_path);
        assert(crate::json::str_field(item, "remoteProfile"@) == c.remote_profile);
    }
}

proof fn lemma_load_bound(start: LoadV, v: Seq<JsonV>)
    requires
        start.connections.len() == 0,
    ensures
        load_items(start, v).connections.len() <= v.len(),
    decreases v.len(),
{
    if v.len() > 0 {
        lemma_load_bound(start, v.drop_last());
    }
}

/// When as many entries come out as went in, each of them was added as it is.
proof fn lemma_all_added(start: LoadV, c: Seq<ConnV>, n: int)
    requires
        start.connections.len() == 0,
        0 <= n <= c.len(),
        load_items(start, conn_list(c.take(n))).connections == c.take(n),
    ensures
        forall|i: int|
            0 <= i < n ==> settled_entry(
                #[trigger] c[i],
                labels_of(c.take(i)),
                ids_of(c.take(i)),
            ),
        load_items(start, conn_list(c.take(n))).quarantined == start.quarantined,
    decreases n,
{
    let v = conn_list(c.take(n));
    if n > 0 {
        let w = conn_list(c.take(n - 1));
        assert(v.drop_last() =~= w);
        assert(v.last() == conn_json(c[n - 1]));
        let before = load_items(start, w);
        lemma_load_bound(start, w);
        let read = read_entry(v.last(), labels_of(before.connections), ids_of(before.connections));
        let x = read->Add_0;
        assert(read is Add);
        assert(before.connections.push(x) == c.take(n));
        assert(before.connections =~= c.take(n).drop_last());
        assert(c.take(n).drop_last() =~= c.take(n - 1));
        assert(x == c.take(n).last());
        lemma_read_back_settles(c[n - 1], labels_of(c.take(n - 1)), ids_of(c.take(n - 1)));
        lemma_all_added(start, c, n - 1);
    } else {
        assert(v =~= Seq::<JsonV>::empty());
    }
}

proof fn lemma_carried_bound(v: Seq<JsonV>)
    ensures
        carried(v).len() <= 20,
    decreases v.len(),
{
    if v.len() > 0 {
        lemma_carried_bound(v.drop_last());
    }
}

/// A registry is read back exactly as it was written if and only if it is in
/// settled form.
pub proof fn law_saved_registry_loads_unchanged(r: RegistryV)
    ensures
        normalized(registry_json(r)) == r <==> settled(r),
{
    let raw = registry_json(r);
    if settled(r) {
        lemma_settled_reads_back(r);
    }
    if normalized(raw) == r {
        lemma_registry_fields(r);
        lemma_kinds_differ();
        let c = r.connections;
        let l = loaded(raw);
        let kept = carried(list_of(field(raw, "quarantined"@)));
        let start = LoadV { quarantined: kept, connections: first_entries(conn_list(c)) };
        lemma_carried_bound(list_of(field(raw, "quarantined"@)));
        lemma_listed_local(c);
        if !has_local(c) {
            // A local entry would have been put in, and would have stayed.
            lemma_start_stays(start, conn_list(c));
            assert(c[0] == start.connections[0]);
            assert(c[0].kind == "local"@);
        }
        assert(start.connections =~= Seq::<ConnV>::empty());
        let n = c.len() as int;
        assert(c.take(n) =~= c);
        lemma_all_added(start, c, n);
        let k = choose|k: int| 0 <= k < c.len() && (#[trigger] c[k]).kind == "local"@;
        assert(settled_entry(c[k], labels_of(c.take(k)), ids_of(c.take(k))));
        assert(c[k].id == "local"@);
        assert(has_id(c, "local"@));
        reveal_strlit("local");
        lemma_trim_fixed("local"@, Class::White);
        lemma_trim_idempotent(r.primary, Class::White);
        lemma_trim_idempotent(r.last_used, Class::White);
    }
}

/// What was there first stays.
proof fn lemma_start_stays(start: LoadV, v: Seq<JsonV>)
    ensures
        load_items(start, v).connections.len() >= start.connections.len(),
        forall|i: int|
            0 <= i < start.connections.len() ==> #[trigger] load_items(start, v).connections[i]
                == start.connections[i],
    decreases v.len(),
{
    if v.len() > 0 {
        lemma_start_stays(start, v.drop_last());
    }
}

// ---------------------------------------------------------------------------
// Edits survive a restart
// ---------------------------------------------------------------------------

/// A name that is read back the same whatever other names there are.
pub open spec fn plain_name(label: Seq<char>) -> bool {
    0 < label.len() <= 60 && trimmed(label) == label
}

pub open spec fn plain_names(c: Seq<ConnV>) -> bool {
    forall|i: int| 0 <= i < c.len() ==> plain_name((#[trigger] c[i]).label)
}

/// An entry that is read back as it is, but for clashes with others.
spec fn settled_alone(c: ConnV) -> bool {
    &&& known_kind(c.kind)
    &&& plain_name(c.label)
    &&& c.kind == "local"@ <==> c.id == "local"@
    &&& c.id.len() > 0 && trimmed(c.id) == c.id
    &&& settled_body(c)
}

spec fn settled_apart(c: Seq<ConnV>) -> bool {
    &&& forall|i: int| 0 <= i < c.len() ==> settled_alone(#[trigger] c[i])
    &&& distinct(ids_of(c))
    &&& distinct(keys_of(labels_of(c)))
}

proof fn lemma_plain_is_free(label: Seq<char>, labels: Seq<Seq<char>>)
    requires
        plain_name(label),
    ensures
        unique_label_of(label, labels) == label <==> !keys_of(labels).contains(
            label_key_of(label),
        ),
{
    assert(label_base(label) =~= label);
    if keys_of(labels).contains(label_key_of(label)) {
        assert(unique_label_of(label, labels).len() > label.len());
    }
}

proof fn lemma_settled_apart(c: Seq<ConnV>)
    requires
        plain_names(c),
    ensures
        settled_apart(c) <==> forall|i: int|
            0 <= i < c.len() ==> settled_entry(
                #[trigger] c[i],
                labels_of(c.take(i)),
                ids_of(c.take(i)),
            ),
{
    let ids = ids_of(c);
    let keys = keys_of(labels_of(c));
    if settled_apart(c) {
        assert forall|i: int| 0 <= i < c.len() implies settled_entry(
            #[trigger] c[i],
            labels_of(c.take(i)),
            ids_of(c.take(i)),
        ) by {
            assert(settled_alone(c[i]));
            let labels = labels_of(c.take(i));
            lemma_plain_is_free(c[i].label, labels);
            assert(ids[i] == c[i].id && keys[i] == label_key_of(c[i].label));
            if keys_of(labels).contains(label_key_of(c[i].label)) {
                let j = choose|j: int|
                    0 <= j < keys_of(labels).len() && keys_of(labels)[j] == label_key_of(
                        c[i].label,
                    );
                assert(keys[j] == keys_of(labels)[j]);
            }
            if ids_of(c.take(i)).contains(c[i].id) {
                let j = choose|j: int|
                    0 <= j < ids_of(c.take(i)).len() && ids_of(c.take(i))[j] == c[i].id;
                assert(ids[j] == ids_of(c.take(i))[j]);
            }
        }
    }
    if forall|i: int|
        0 <= i < c.len() ==> settled_entry(
            #[trigger] c[i],
            labels_of(c.take(i)),
            ids_of(c.take(i)),
        ) {
        assert forall|i: int| 0 <= i < c.len() implies settled_alone(#[trigger] c[i]) by {
            assert(settled_entry(c[i], labels_of(c.take(i)), ids_of(c.take(i))));
            assert(plain_name(c[i].label));
        }
        assert forall|i: int, j: int| 0 <= i < j < ids.len() implies #[trigger] ids[i]
            != #[trigger] ids[j] by {
            assert(settled_entry(c[j], labels_of(c.take(j)), ids_of(c.take(j))));
            assert(ids_of(c.take(j))[i] == ids[i]);
        }
        assert forall|i: int, j: int| 0 <= i < j < keys.len() implies #[trigger] keys[i]
            != #[trigger] keys[j] by {
            assert(settled_entry(c[j], labels_of(c.take(j)), ids_of(c.take(j))));
            assert(plain_name(c[j].label));
            lemma_plain_is_free(c[j].label, labels_of(c.take(j)));
            assert(keys_of(labels_of(c.take(j)))[i] == keys[i]);
        }
    }
}

proof fn lemma_settled_sound(r: RegistryV)
    requires
        settled(r),
    ensures
        sound(r),
{
    lemma_kinds_differ();
    let c = r.connections;
    assert forall|i: int| 0 <= i < c.len() implies usable_entry(#[trigger] c[i]) by {
        assert(settled_entry(c[i], labels_of(c.take(i)), ids_of(c.take(i))));
    }
}

/// Choosing a primary connection, remembering the last one and choosing a launch
/// mode all survive a restart.
pub proof fn law_choices_survive_reload(r: RegistryV, id: Seq<char>)
    requires
        settled(r),
        has_id(r.connections, trimmed(id)),
    ensures
        ({
            let chosen = RegistryV { primary: trimmed(id), ..r };
            let used = RegistryV { last_used: trimmed(id), ..r };
            let first = RegistryV { launch_mode: "primary"@, ..r };
            let last = RegistryV { launch_mode: "last-used"@, ..r };
            &&& normalized(registry_json(chosen)) == chosen
            &&& normalized(registry_json(used)) == used
            &&& normalized(registry_json(first)) == first
            &&& normalized(registry_json(last)) == last
        }),
{
    lemma_trim_idempotent(id, Class::White);
    law_saved_registry_loads_unchanged(RegistryV { primary: trimmed(id), ..r });
    law_saved_registry_loads_unchanged(RegistryV { last_used: trimmed(id), ..r });
    law_saved_registry_loads_unchanged(RegistryV { launch_mode: "primary"@, ..r });
    law_saved_registry_loads_unchanged(RegistryV { launch_mode: "last-used"@, ..r });
}

proof fn lemma_without_id_keys(c: Seq<ConnV>, id: Seq<char>)
    requires
        distinct(keys_of(labels_of(c))),
    ensures
        distinct(keys_of(labels_of(without_id(c, id)))),
    decreases c.len(),
{
    if c.len() > 0 {
        let b = c.drop_last();
        let kc = keys_of(labels_of(c));
        let kb = keys_of(labels_of(b));
        assert forall|i: int, j: int| 0 <= i < j < kb.len() implies #[trigger] kb[i]
            != #[trigger] kb[j] by {
            assert(kb[i] == kc[i] && kb[j] == kc[j]);
        }
        lemma_without_id_keys(b, id);
        lemma_without_id(b, id);
        let w = without_id(b, id);
        let d = without_id(c, id);
        let kw = keys_of(labels_of(w));
        let kd = keys_of(labels_of(d));
        assert forall|i: int, j: int| 0 <= i < j < kd.len() implies #[trigger] kd[i]
            != #[trigger] kd[j] by {
            if j < w.len() {
                assert(kd[i] == kw[i] && kd[j] == kw[j]);
            } else {
                assert(d[i] == w[i]);
                assert(b.contains(w[i]));
                let k = choose|k: int| 0 <= k < b.len() && b[k] == w[i];
                assert(kc[k] == kd[i] && kc[c.len() - 1] == kd[j]);
            }
        }
    }
}

/// A removal survives a restart: the entry stays away, and every other one is as
/// it was. A name of more than sixty characters owes its number to the others,
/// so the names are shorter.
pub proof fn law_removal_survives_reload(r: RegistryV, id: Seq<char>)
    requires
        settled(r),
        plain_names(r.connections),
        conn_with_id(r.connections, id) is Some,
        conn_with_id(r.connections, id)->0.kind != "local"@,
    ensures
        normalized(registry_json(removed(r, id))) == removed(r, id),
{
    let c = r.connections;
    let d = without_id(c, id);
    let next = removed(r, id);
    lemma_settled_sound(r);
    lemma_settled_apart(c);
    lemma_removed_sound(r, id);
    lemma_without_id(c, id);
    lemma_without_id_keys(c, id);
    assert forall|i: int| 0 <= i < d.len() implies settled_alone(#[trigger] d[i]) && plain_name(
        d[i].label,
    ) by {
        assert(c.contains(d[i]));
        let k = choose|k: int| 0 <= k < c.len() && c[k] == d[i];
        assert(settled_alone(c[k]));
    }
    lemma_settled_apart(d);
    reveal_strlit("local");
    lemma_trim_fixed("local"@, Class::White);
    law_saved_registry_loads_unchanged(next);
}

/// Fields in the order of their names, each name once.
spec fn in_name_order(o: Fields) -> bool {
    forall|i: int, j: int| 0 <= i < j < o.len() ==> before((#[trigger] o[i]).0, (#[trigger] o[j]).0)
}

/// Header names as they are stored.
spec fn stored_names(o: Fields) -> bool {
    forall|i: int|
        0 <= i < o.len() ==> storable_header((#[trigger] o[i]).0) && trimmed(o[i].0) == o[i].0
}

proof fn lemma_put_keeps_order(o: Fields, k: Seq<char>, v: JsonV)
    requires
        in_name_order(o),
        stored_names(o),
        storable_header(k),
        trimmed(k) == k,
    ensures
        in_name_order(put(o, k, v)),
        stored_names(put(o, k, v)),
        forall|i: int|
            0 <= i < put(o, k, v).len() ==> (#[trigger] put(o, k, v)[i]).0 == k || exists|j: int|
                0 <= j < o.len() && (#[trigger] o[j]).0 == put(o, k, v)[i].0,
    decreases o.len(),
{
    let p = put(o, k, v);
    if o.len() > 0 {
        let t = o.drop_first();
        let first = o[0].0;
        assert forall|i: int, j: int| 0 <= i < j < t.len() implies before(
            (#[trigger] t[i]).0,
            (#[trigger] t[j]).0,
        ) by {
            assert(t[i] == o[i + 1] && t[j] == o[j + 1]);
        }
        assert forall|i: int| 0 <= i < t.len() implies storable_header((#[trigger] t[i]).0)
            && trimmed(t[i].0) == t[i].0 by {
            assert(t[i] == o[i + 1]);
        }
        if first == k {
            assert forall|i: int| 0 <= i < p.len() implies (#[trigger] p[i]).0 == o[i].0 by {
                if i > 0 {
                    assert(p[i] == t[i - 1]);
                }
            }
        } else if before(k, first) {
            assert forall|i: int, j: int| 0 <= i < j < p.len() implies before(
                (#[trigger] p[i]).0,
                (#[trigger] p[j]).0,
            ) by {
                assert(p[j] == o[j - 1]);
                if i > 0 {
                    assert(p[i] == o[i - 1]);
                } else if j > 1 {
                    lemma_before_chain(k, first, o[j - 1].0);
                }
            }
            assert forall|i: int| 0 <= i < p.len() implies storable_header((#[trigger] p[i]).0)
                && trimmed(p[i].0) == p[i].0 by {
                if i > 0 {
                    assert(p[i] == o[i - 1]);
                }
            }
        } else {
            lemma_put_keeps_order(t, k, v);
            lemma_before_total(k, first);
            let q = put(t, k, v);
            assert forall|i: int| 0 <= i < q.len() implies before(first, (#[trigger] q[i]).0) by {
                if q[i].0 != k {
                    let j = choose|j: int| 0 <= j < t.len() && (#[trigger] t[j]).0 == q[i].0;
                    assert(t[j] == o[j + 1]);
                }
            }
            assert forall|i: int, j: int| 0 <= i < j < p.len() implies before(
                (#[trigger] p[i]).0,
                (#[trigger] p[j]).0,
            ) by {
                assert(p[j] == q[j - 1]);
                if i > 0 {
                    assert(p[i] == q[i - 1]);
                }
            }
            assert forall|i: int| 0 <= i < p.len() implies storable_header((#[trigger] p[i]).0)
                && trimmed(p[i].0) == p[i].0 by {
                if i > 0 {
                    assert(p[i] == q[i - 1]);
                }
            }
            assert forall|i: int| 0 <= i < p.len() implies (#[trigger] p[i]).0 == k
                || exists|j: int| 0 <= j < o.len() && (#[trigger] o[j]).0 == p[i].0 by {
                if i == 0 {
                    assert(o[0].0 == p[0].0);
                } else {
                    assert(p[i] == q[i - 1]);
                    if q[i - 1].0 != k {
                        let j = choose|j: int|
                            0 <= j < t.len() && (#[trigger] t[j]).0 == q[i - 1].0;
                        assert(o[j + 1].0 == p[i].0);
                    }
                }
            }
        }
        if first == k || before(k, first) {
            assert forall|i: int| 0 <= i < p.len() implies (#[trigger] p[i]).0 == k
                || exists|j: int| 0 <= j < o.len() && (#[trigger] o[j]).0 == p[i].0 by {
                if i > 0 {
                    let j = if first == k {
                        i
                    } else {
                        i - 1
                    };
                    assert(p[i] == o[j]);
                    assert(o[j].0 == p[i].0);
                }
            }
        }
    }
}

proof fn lemma_before_chain(a: Seq<char>, b: Seq<char>, c: Seq<char>)
    requires
        before(a, b),
        before(b, c),
    ensures
        before(a, c),
{
    lemma_before_total(a, b);
    lemma_before_total(b, c);
    lemma_before_total(a, c);
    if before(c, a) || a == c {
        // c <= a and a <= b would put c before b or equal to it.
        crate::text::lemma_before_transitive(c, a, b);
    }
}

/// A field with the last of the names goes to the end.
proof fn lemma_put_last(o: Fields, k: Seq<char>, v: JsonV)
    requires
        forall|i: int| 0 <= i < o.len() ==> before((#[trigger] o[i]).0, k),
    ensures
        put(o, k, v) == o.push((k, v)),
    decreases o.len(),
{
    if o.len() > 0 {
        let t = o.drop_first();
        assert forall|i: int| 0 <= i < t.len() implies before((#[trigger] t[i]).0, k) by {
            assert(t[i] == o[i + 1]);
        }
        lemma_put_last(t, k, v);
        lemma_before_total(o[0].0, k);
        assert(put(o, k, v) =~= o.push((k, v)));
    } else {
        assert(put(o, k, v) =~= o.push((k, v)));
    }
}

proof fn lemma_stored_headers_kept(o: Fields)
    requires
        in_name_order(o),
        stored_names(o),
    ensures
        stored_headers(o) == o,
    decreases o.len(),
{
    if o.len() > 0 {
        let b = o.drop_last();
        lemma_stored_headers_kept(b);
        lemma_put_last(b, o.last().0, o.last().1);
        assert(b.push(o.last()) =~= o);
    } else {
        assert(stored_headers(o) =~= o);
    }
}

proof fn lemma_edited_headers(o: Fields, stored: Option<Fields>)
    ensures
        in_name_order(edited_headers(o, stored)),
        stored_names(edited_headers(o, stored)),
    decreases o.len(),
{
    if o.len() > 0 {
        lemma_edited_headers(o.drop_last(), stored);
        let rest = edited_headers(o.drop_last(), stored);
        let name = trimmed(o.last().0);
        lemma_trim_idempotent(o.last().0, Class::White);
        if storable_header(name) {
            let value = if o.last().1 is Null {
                match stored {
                    Some(s) => lookup(s, name),
                    None => None,
                }
            } else {
                opt_str_value(usable_header(o.last().1))
            };
            if let Some(j) = value {
                lemma_put_keeps_order(rest, name, j);
            }
        }
    }
}

proof fn lemma_inherit_other(o: Fields, k: Seq<char>, stored: Option<JsonV>, q: Seq<char>)
    requires
        q != k,
    ensures
        lookup(inherit(o, k, stored), q) == lookup(o, q),
{
    if lookup(o, k) is None {
        if let Some(j) = stored {
            lemma_lookup_put(o, k, j, q);
        }
    }
}

/// The id that an edit names is the one that its merged form names.
proof fn lemma_merged_id(payload: JsonV, existing: Option<ConnV>)
    ensures
        str_field_or_empty(merged_input(with_token(payload, existing), existing), "id"@)
            == str_field_or_empty(payload, "id"@),
{
    let q = "id"@;
    reveal_strlit("id");
    reveal_strlit("token");
    reveal_strlit("url");
    reveal_strlit("authMode");
    reveal_strlit("org");
    reveal_strlit("host");
    reveal_strlit("keyPath");
    reveal_strlit("remoteHermesPath");
    reveal_strlit("remoteProfile");
    reveal_strlit("headers");
    reveal_strlit("user");
    reveal_strlit("port");
    assert(q.len() == 2);
    assert("token"@.len() == 5 && "url"@.len() == 3 && "authMode"@.len() == 8 && "org"@.len() == 3);
    assert("host"@.len() == 4 && "keyPath"@.len() == 7 && "remoteHermesPath"@.len() == 16);
    assert("remoteProfile"@.len() == 13 && "headers"@.len() == 7 && "user"@.len() == 4);
    assert("port"@.len() == 4);
    let settled_token = with_token(payload, existing);
    if let JsonV::Obj(o) = payload {
        if let Some(t) = crate::json::str_field(payload, "token"@) {
            lemma_lookup_put(o, "token"@, JsonV::Str(trimmed(t)), q);
        } else if let Some(e) = existing {
            if let Some(t) = e.token {
                lemma_lookup_put(o, "token"@, t, q);
            }
        }
        assert(str_field_or_empty(settled_token, q) == str_field_or_empty(payload, q));
        if let Some(e) = existing {
            let o0 = settled_token->Obj_0;
            let o1 = inherit(o0, "url"@, opt_str_value(e.url));
            let o2 = inherit(o1, "authMode"@, opt_str_value(e.auth_mode));
            let o3 = inherit(o2, "org"@, opt_str_value(e.org));
            let o4 = inherit(o3, "host"@, opt_str_value(e.host));
            let o5 = inherit(o4, "keyPath"@, opt_str_value(e.key_path));
            let o6 = inherit(o5, "remoteHermesPath"@, opt_str_value(e.remote_hermes_path));
            let o7 = inherit(o6, "remoteProfile"@, opt_str_value(e.remote_profile));
            let o8 = inherit(o7, "headers"@, opt_obj_value(e.headers));
            let o9 = inherit(o8, "user"@, opt_str_value(e.user));
            lemma_inherit_other(o0, "url"@, opt_str_value(e.url), q);
            lemma_inherit_other(o1, "authMode"@, opt_str_value(e.auth_mode), q);
            lemma_inherit_other(o2, "org"@, opt_str_value(e.org), q);
            lemma_inherit_other(o3, "host"@, opt_str_value(e.host), q);
            lemma_inherit_other(o4, "keyPath"@, opt_str_value(e.key_path), q);
            lemma_inherit_other(o5, "remoteHermesPath"@, opt_str_value(e.remote_hermes_path), q);
            lemma_inherit_other(o6, "remoteProfile"@, opt_str_value(e.remote_profile), q);
            lemma_inherit_other(o7, "headers"@, opt_obj_value(e.headers), q);
            lemma_inherit_other(o8, "user"@, opt_str_value(e.user), q);
            lemma_inherit_other(o9, "port"@, opt_int_value(e.port), q);
        }
    }
}

proof fn lemma_first_where_none(c: Seq<ConnV>, p: spec_fn(ConnV) -> bool)
    requires
        first_where(c, p) is None,
    ensures
        forall|i: int| 0 <= i < c.len() ==> !p(#[trigger] c[i]),
    decreases c.len(),
{
    if c.len() > 0 {
        let t = c.drop_first();
        lemma_first_where_none(t, p);
        assert forall|i: int| 0 <= i < c.len() implies !p(#[trigger] c[i]) by {
            if i > 0 {
                assert(t[i - 1] == c[i]);
            }
        }
    }
}

/// What a save stores is read back as it is, where its address needs no more
/// trimming and its SSH fields need no more taking apart.
pub open spec fn reads_back(c: ConnV) -> bool {
    &&& plain_name(c.label)
    &&& trimmed(c.id) == c.id
    &&& c.url is Some ==> trimmed(c.url->0) == c.url->0
    &&& c.kind == "ssh"@ ==> settled_body(c)
}

/// What holds of an entry that was typed in.
proof fn lemma_typed_entry(m: JsonV, r: RegistryV)
    requires
        typed_entry(m, r) is Ok,
        reads_back(typed_entry(m, r)->Ok_0),
    ensures
        ({
            let c = typed_entry(m, r)->Ok_0;
            let input_id = str_field_or_empty(m, "id"@);
            &&& settled_alone(c)
            &&& usable_entry(c)
            &&& c.id == "local"@ ==> c.kind == "local"@
            &&& c.kind != "local"@ && input_id.len() > 0 ==> c.id == input_id
            &&& forall|i: int|
                0 <= i < r.connections.len() && (#[trigger] r.connections[i]).id != input_id
                    ==> label_key_of(r.connections[i].label) != label_key_of(c.label)
        }),
{
    let c = typed_entry(m, r)->Ok_0;
    let label = trimmed(str_field_or_empty(m, "label"@));
    let input_id = str_field_or_empty(m, "id"@);
    lemma_kinds_differ();
    lemma_made_id(label, ids_of(r.connections));
    reveal_strlit("local");
    lemma_trim_fixed("local"@, Class::White);
    let p = |x: ConnV| label_key_of(x.label) == label_key_of(label) && x.id != input_id;
    assert(name_clash(r.connections, label, input_id) == first_where(r.connections, p));
    lemma_first_where_none(r.connections, p);
    assert(c.label == label);
    assert forall|i: int|
        0 <= i < r.connections.len() && (#[trigger] r.connections[i]).id != input_id implies
        label_key_of(r.connections[i].label) != label_key_of(c.label) by {
        assert(!p(r.connections[i]));
    }
    if c.kind == "remote"@ || c.kind == "cloud"@ {
        lemma_trim_idempotent(str_field_or_empty(m, "org"@), Class::White);
        let stored = stored_headers_of(r.connections, c.id, input_id);
        if let Some(JsonV::Obj(o)) = field(m, "headers"@) {
            lemma_edited_headers(o, stored);
            lemma_stored_headers_kept(edited_headers(o, stored));
        }
        assert(settled_body(c));
    }
}

/// A save survives a restart: the entry is read back as it was stored, and every
/// other one as it was. The name of a local entry is checked under the id that
/// the edit carries, which may be another's, so that it is free is asked for.
pub proof fn law_save_survives_reload(payload: JsonV, r: RegistryV)
    requires
        settled(r),
        plain_names(r.connections),
        saved_entry(payload, r) is Ok,
        reads_back(saved_entry(payload, r)->Ok_0),
        saved_entry(payload, r)->Ok_0.kind == "local"@ ==> name_clash(
            r.connections,
            saved_entry(payload, r)->Ok_0.label,
            "local"@,
        ) is None,
    ensures
        ({
            let next = with_connections(
                r,
                upserted(r.connections, saved_entry(payload, r)->Ok_0),
            );
            normalized(registry_json(next)) == next
        }),
{
    let entry = saved_entry(payload, r)->Ok_0;
    let existing = edited_entry(payload, r);
    let m = merged_input(with_token(payload, existing), existing);
    let input_id = str_field_or_empty(payload, "id"@);
    lemma_merged_id(payload, existing);
    lemma_typed_entry(m, r);
    let c = r.connections;
    let d = upserted(c, entry);
    let next = with_connections(r, d);
    lemma_settled_sound(r);
    lemma_settled_apart(c);
    lemma_upsert_sound(r, entry);
    lemma_upsert_distinct(c, entry);
    lemma_position(c, entry.id, 0);
    let at = match position_of(c, entry.id) {
        Some(i) => i,
        None => c.len() as int,
    };
    assert forall|i: int| 0 <= i < d.len() implies settled_alone(#[trigger] d[i]) && plain_name(
        d[i].label,
    ) by {
        if i != at {
            assert(d[i] == c[i]);
            assert(settled_alone(c[i]));
        } else {
            assert(d[i] == entry);
        }
    }
    let kc = keys_of(labels_of(c));
    let kd = keys_of(labels_of(d));
    assert(kd[at] == label_key_of(entry.label));
    let p = |x: ConnV| label_key_of(x.label) == label_key_of(entry.label) && x.id != "local"@;
    if entry.kind == "local"@ {
        assert(name_clash(c, entry.label, "local"@) == first_where(c, p));
        lemma_first_where_none(c, p);
    }
    assert forall|i: int| 0 <= i < d.len() && i != at implies #[trigger] kd[i] != kd[at] by {
        assert(d[i] == c[i]);
        assert(settled_alone(c[i]));
        assert(c[i].id != entry.id) by {
            if at < c.len() {
                assert(ids_of(c)[i] == c[i].id && ids_of(c)[at] == c[at].id);
                if i < at {
                    assert(ids_of(c)[i] != ids_of(c)[at]);
                } else {
                    assert(ids_of(c)[at] != ids_of(c)[i]);
                }
            }
        }
        if entry.kind == "local"@ {
            assert(!p(c[i]));
        } else {
            assert(c[i].id != input_id);
        }
    }
    assert forall|i: int, j: int| 0 <= i < j < kd.len() implies #[trigger] kd[i]
        != #[trigger] kd[j] by {
        if i != at && j != at {
            assert(kd[i] == kc[i] && kd[j] == kc[j]);
        }
    }
    lemma_settled_apart(d);
    law_saved_registry_loads_unchanged(next);
}

// ---------------------------------------------------------------------------
// A second load changes nothing
// ---------------------------------------------------------------------------

/// A name that reading made and reads again as it is: no white space around it,
/// and no more than sixty characters but for a number behind a full name.
pub open spec fn kept_name(label: Seq<char>) -> bool {
    trimmed(label) == label && (label.len() <= 60 || label[60] == ' ')
}

/// Entries of which nothing more is taken off when they are read again.
pub open spec fn taken_apart(c: Seq<ConnV>) -> bool {
    forall|i: int|
        0 <= i < c.len() ==> kept_name((#[trigger] c[i]).label) && (c[i].kind == "ssh"@
            ==> settled_body(c[i]))
}

/// What holds of an entry that was read, behind entries with these names and ids.
spec fn made_entry(c: ConnV, labels: Seq<Seq<char>>, ids: Seq<Seq<char>>) -> bool {
    &&& known_kind(c.kind)
    &&& exists|s: Seq<char>| c.label == #[trigger] unique_label_of(s, labels)
    &&& c.kind == "local"@ <==> c.id == "local"@
    &&& c.id.len() > 0 && trimmed(c.id) == c.id
    &&& !ids.contains(c.id)
    &&& c.kind != "ssh"@ ==> settled_body(c)
}

spec fn made_entries(c: Seq<ConnV>) -> bool {
    forall|i: int|
        0 <= i < c.len() ==> made_entry(
            #[trigger] c[i],
            labels_of(c.take(i)),
            ids_of(c.take(i)),
        )
}

proof fn lemma_stored_headers_form(o: Fields)
    ensures
        in_name_order(stored_headers(o)),
        stored_names(stored_headers(o)),
    decreases o.len(),
{
    if o.len() > 0 {
        lemma_stored_headers_form(o.drop_last());
        let name = trimmed(o.last().0);
        lemma_trim_idempotent(o.last().0, Class::White);
        if storable_header(name) {
            lemma_put_keeps_order(stored_headers(o.drop_last()), name, o.last().1);
        }
    }
}

proof fn lemma_read_makes(item: JsonV, labels: Seq<Seq<char>>, ids: Seq<Seq<char>>)
    ensures
        match read_entry(item, labels, ids) {
            EntryRead::Add(c) => made_entry(c, labels, ids),
            _ => true,
        },
{
    if let EntryRead::Add(c) = read_entry(item, labels, ids) {
        lemma_kinds_differ();
        reveal_strlit("local");
        lemma_trim_fixed("local"@, Class::White);
        let kind = str_field_or_empty(item, "kind"@);
        let label = unique_label_of(entry_label(item, kind), labels);
        let id = entry_id(item, kind, label, ids);
        lemma_made_id(label, ids);
        lemma_trim_idempotent(str_field_or_empty(item, "id"@), Class::White);
        assert(c.label == label && c.id == id && c.kind == kind);
        if kind == "remote"@ || kind == "cloud"@ {
            lemma_trim_idempotent(str_field_or_empty(item, "url"@), Class::White);
            lemma_trim_idempotent(str_field_or_empty(item, "org"@), Class::White);
            if let Some(JsonV::Obj(o)) = field(item, "headers"@) {
                lemma_stored_headers_form(o);
                lemma_stored_headers_kept(stored_headers(o));
            }
            assert(settled_body(c));
        }
    }
}

proof fn lemma_load_makes(start: LoadV, v: Seq<JsonV>)
    requires
        made_entries(start.connections),
        start.quarantined.len() <= 20,
    ensures
        made_entries(load_items(start, v).connections),
        load_items(start, v).quarantined.len() <= 20,
    decreases v.len(),
{
    if v.len() > 0 {
        lemma_load_makes(start, v.drop_last());
        let b = load_items(start, v.drop_last()).connections;
        let c = load_items(start, v).connections;
        lemma_read_makes(v.last(), labels_of(b), ids_of(b));
        assert forall|i: int| 0 <= i < c.len() implies made_entry(
            #[trigger] c[i],
            labels_of(c.take(i)),
            ids_of(c.take(i)),
        ) by {
            if i < b.len() {
                assert(c[i] == b[i]);
                assert(c.take(i) =~= b.take(i));
            } else {
                assert(c.take(i) =~= b);
            }
        }
    }
}

/// The local entry that is put in is made like any other.
proof fn lemma_local_made(c: Seq<ConnV>)
    requires
        c == seq![local_conn("This device"@)],
    ensures
        made_entries(c),
{
    let none = Seq::<Seq<char>>::empty();
    reveal_strlit("This device");
    reveal_strlit("local");
    lemma_kinds_differ();
    lemma_trim_fixed("This device"@, Class::White);
    lemma_trim_fixed("local"@, Class::White);
    assert(label_base("This device"@) =~= "This device"@);
    assert(labels_of(c.take(0)) =~= none);
    assert(ids_of(c.take(0)) =~= none);
    assert(keys_of(none) =~= none);
    assert(!keys_of(none).contains(label_key_of("This device"@)));
    assert(unique_label_of("This device"@, none) == "This device"@);
    assert(c[0] =~= bare_conn(c[0].id, c[0].kind, c[0].label));
}

/// A kept name is made of itself again, where no other goes by it.
proof fn lemma_kept_name(s: Seq<char>, labels: Seq<Seq<char>>)
    requires
        kept_name(unique_label_of(s, labels)),
        !keys_of(labels).contains(label_key_of(unique_label_of(s, labels))),
    ensures
        unique_label_of(unique_label_of(s, labels), labels) == unique_label_of(s, labels),
{
    let label = unique_label_of(s, labels);
    let base = label_base(s);
    lemma_made_label(s, labels);
    if label.len() <= 60 {
        lemma_plain_is_free(label, labels);
    } else {
        let n = choose|n: nat| crate::registry::first_free(base, keys_of(labels), n);
        assert(label == crate::outside::spaced(base, dec(n)));
        lemma_dec_value(n);
        if base.len() < 60 {
            assert(label[60] == dec(n)[60 - base.len() - 1]);
            assert(crate::text::digit(dec(n)[60 - base.len() - 1]));
        }
        assert(label_base(label) =~= base);
    }
}

/// A second load changes nothing: what was read is read again as it is, once it
/// has been written. Left out are registries with a name that loses its end when
/// it is read again, or with SSH fields that can be taken apart once more. That
/// no two names are alike holds of whatever is read.
pub proof fn law_second_load_changes_nothing(raw: JsonV)
    requires
        distinct(keys_of(labels_of(normalized(raw).connections))),
        taken_apart(normalized(raw).connections),
    ensures
        normalized(registry_json(normalized(raw))) == normalized(raw),
{
    let r = normalized(raw);
    let c = r.connections;
    lemma_kinds_differ();
    reveal_strlit("local");
    lemma_trim_fixed("local"@, Class::White);
    let v = list_of(field(raw, "connections"@));
    let q = list_of(field(raw, "quarantined"@));
    let first = first_entries(v);
    if raw is Obj {
        lemma_carried_bound(q);
        if lists_local(v) {
            assert(made_entries(first));
        } else {
            lemma_local_made(first);
        }
        let start = LoadV { quarantined: carried(q), connections: first };
        lemma_load_makes(start, v);
        lemma_first_local(raw);
        lemma_local_has_id(c);
        lemma_trim_idempotent(str_field_or_empty(raw, "primary"@), Class::White);
        lemma_trim_idempotent(str_field_or_empty(raw, "lastUsed"@), Class::White);
    } else {
        assert(c =~= seq![local_conn("This device"@)]);
        lemma_local_made(c);
        assert(c[0].kind == "local"@);
        assert(c[0].id == "local"@);
        assert(has_id(c, "local"@));
    }
    let keys = keys_of(labels_of(c));
    assert forall|i: int| 0 <= i < c.len() implies settled_entry(
        #[trigger] c[i],
        labels_of(c.take(i)),
        ids_of(c.take(i)),
    ) by {
        let labels = labels_of(c.take(i));
        assert(made_entry(c[i], labels, ids_of(c.take(i))));
        let s = choose|s: Seq<char>| c[i].label == #[trigger] unique_label_of(s, labels);
        lemma_made_label(s, labels);
        assert(keys[i] == label_key_of(c[i].label));
        if keys_of(labels).contains(label_key_of(c[i].label)) {
            let j = choose|j: int|
                0 <= j < keys_of(labels).len() && keys_of(labels)[j] == label_key_of(c[i].label);
            assert(keys[j] == keys_of(labels)[j]);
        }
        lemma_kept_name(s, labels);
    }
    law_saved_registry_loads_unchanged(r);
}

} // verus!
