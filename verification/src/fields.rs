use vstd::prelude::*;

verus! {

/// An object's fields after setting `key` to `value`: the field of that name is
/// replaced in place, or the pair is added at the end.
pub open spec fn upsert<V>(entries: Seq<(Seq<char>, V)>, key: Seq<char>, value: V) -> Seq<(Seq<char>, V)>
    decreases entries.len(),
{
    if entries.len() == 0 {
        seq![(key, value)]
    } else if entries[0].0 == key {
        entries.update(0, (key, value))
    } else {
        seq![entries[0]] + upsert(entries.drop_first(), key, value)
    }
}

/// Sets each pair of `source` in turn.
pub open spec fn upsert_all<V>(entries: Seq<(Seq<char>, V)>, source: Seq<(Seq<char>, V)>) -> Seq<(Seq<char>, V)>
    decreases source.len(),
{
    if source.len() == 0 {
        entries
    } else {
        upsert(upsert_all(entries, source.drop_last()), source.last().0, source.last().1)
    }
}

/// The value of the first field named `key`.
pub open spec fn lookup<V>(entries: Seq<(Seq<char>, V)>, key: Seq<char>) -> Option<V>
    decreases entries.len(),
{
    if entries.len() == 0 {
        None
    } else if entries[0].0 == key {
        Some(entries[0].1)
    } else {
        lookup(entries.drop_first(), key)
    }
}

pub open spec fn fields_view<V>(v: Seq<(String, V)>) -> Seq<(Seq<char>, V)> {
    Seq::new(v.len(), |i: int| (v[i].0@, v[i].1))
}

pub proof fn lemma_upsert_absent<V>(entries: Seq<(Seq<char>, V)>, key: Seq<char>, value: V)
    requires
        forall|i: int| 0 <= i < entries.len() ==> #[trigger] entries[i].0 != key,
    ensures
        upsert(entries, key, value) == entries.push((key, value)),
    decreases entries.len(),
{
    if entries.len() == 0 {
        assert(seq![(key, value)] =~= entries.push((key, value)));
    } else {
        assert(entries[0].0 != key);
        let t = entries.drop_first();
        assert forall|i: int| 0 <= i < t.len() implies #[trigger] t[i].0 != key by {
            assert(t[i] == entries[i + 1]);
        }
        lemma_upsert_absent(t, key, value);
        assert(seq![entries[0]] + t.push((key, value)) =~= entries.push((key, value)));
    }
}

pub proof fn lemma_upsert_replace<V>(entries: Seq<(Seq<char>, V)>, key: Seq<char>, value: V, j: int)
    requires
        0 <= j < entries.len(),
        entries[j].0 == key,
        forall|i: int| 0 <= i < j ==> #[trigger] entries[i].0 != key,
    ensures
        upsert(entries, key, value) == entries.update(j, (key, value)),
    decreases entries.len(),
{
    if j == 0 {
    } else {
        assert(entries[0].0 != key);
        let t = entries.drop_first();
        assert(t[j - 1] == entries[j]);
        assert forall|i: int| 0 <= i < j - 1 implies #[trigger] t[i].0 != key by {
            assert(t[i] == entries[i + 1]);
        }
        lemma_upsert_replace(t, key, value, j - 1);
        assert(seq![entries[0]] + t.update(j - 1, (key, value)) =~= entries.update(j, (key, value)));
    }
}

/// After setting a field, looking it up gives the value set.
pub proof fn lemma_upsert_lookup_same<V>(entries: Seq<(Seq<char>, V)>, key: Seq<char>, value: V)
    ensures
        lookup(upsert(entries, key, value), key) == Some(value),
    decreases entries.len(),
{
    if entries.len() > 0 && entries[0].0 != key {
        lemma_upsert_lookup_same(entries.drop_first(), key, value);
        assert((seq![entries[0]] + upsert(entries.drop_first(), key, value)).drop_first()
            =~= upsert(entries.drop_first(), key, value));
    }
}

/// Setting a field leaves the other fields as they were.
pub proof fn lemma_upsert_lookup_other<V>(entries: Seq<(Seq<char>, V)>, key: Seq<char>, value: V, other: Seq<char>)
    requires
        other != key,
    ensures
        lookup(upsert(entries, key, value), other) == lookup(entries, other),
    decreases entries.len(),
{
    let u = upsert(entries, key, value);
    if entries.len() == 0 {
        assert(u[0].0 == key);
        assert(u.drop_first() =~= Seq::<(Seq<char>, V)>::empty());
        assert(lookup(u, other) == lookup(u.drop_first(), other));
    } else if entries[0].0 == key {
        assert(u[0].0 == key);
        assert(u.drop_first() =~= entries.drop_first());
        assert(lookup(u, other) == lookup(u.drop_first(), other));
    } else {
        lemma_upsert_lookup_other(entries.drop_first(), key, value, other);
        assert(u[0] == entries[0]);
        assert(u.drop_first() =~= upsert(entries.drop_first(), key, value));
    }
}

/// The value of the last pair of `source` named `key`.
pub open spec fn last_value<V>(source: Seq<(Seq<char>, V)>, key: Seq<char>) -> Option<V>
    decreases source.len(),
{
    if source.len() == 0 {
        None
    } else if source.last().0 == key {
        Some(source.last().1)
    } else {
        last_value(source.drop_last(), key)
    }
}

/// After setting each pair of `source` in turn, a field reads back as the last
/// value that `source` gives it, or as before when `source` does not name it.
pub proof fn lemma_upsert_all_lookup<V>(entries: Seq<(Seq<char>, V)>, source: Seq<(Seq<char>, V)>, key: Seq<char>)
    ensures
        lookup(upsert_all(entries, source), key) == match last_value(source, key) {
            Some(v) => Some(v),
            None => lookup(entries, key),
        },
    decreases source.len(),
{
    if source.len() > 0 {
        lemma_upsert_all_lookup(entries, source.drop_last(), key);
        let prev = upsert_all(entries, source.drop_last());
        if source.last().0 == key {
            lemma_upsert_lookup_same(prev, key, source.last().1);
        } else {
            lemma_upsert_lookup_other(prev, source.last().0, source.last().1, key);
        }
    }
}

/// No two fields share a name.
pub open spec fn keys_distinct<V>(entries: Seq<(Seq<char>, V)>) -> bool {
    forall|i: int, j: int| 0 <= i < j < entries.len() ==> entries[i].0 != entries[j].0
}

/// Setting a field keeps the names of an object's fields distinct.
pub proof fn lemma_upsert_distinct<V>(entries: Seq<(Seq<char>, V)>, key: Seq<char>, value: V)
    requires
        keys_distinct(entries),
    ensures
        keys_distinct(upsert(entries, key, value)),
{
    if exists|j: int| 0 <= j < entries.len() && entries[j].0 == key {
        let j = choose|j: int| 0 <= j < entries.len() && entries[j].0 == key;
        assert forall|i: int| 0 <= i < j implies #[trigger] entries[i].0 != key by {
            assert(entries[i].0 != entries[j].0);
        }
        lemma_upsert_replace(entries, key, value, j);
        let u = entries.update(j, (key, value));
        assert forall|a: int, b: int| 0 <= a < b < u.len() implies u[a].0 != u[b].0 by {
            assert(u[a].0 == entries[a].0 && u[b].0 == entries[b].0);
        }
    } else {
        assert forall|i: int| 0 <= i < entries.len() implies #[trigger] entries[i].0 != key by {}
        lemma_upsert_absent(entries, key, value);
        let u = entries.push((key, value));
        assert forall|a: int, b: int| 0 <= a < b < u.len() implies u[a].0 != u[b].0 by {
            if b < entries.len() {
                assert(u[a] == entries[a] && u[b] == entries[b]);
            } else {
                assert(u[a] == entries[a]);
            }
        }
    }
}

fn key_eq(a: &String, b: &String) -> (r: bool)
    ensures
        r == (a@ == b@),
{
    crate::text::chars_eq(&crate::text::chars_of(a.as_str()), &crate::text::chars_of(b.as_str()))
}

/// Sets the field named `key` of an object to `value`: the field of that name
/// is replaced in place, or the pair is added at the end.
pub fn upsert_field<V>(fields: &mut Vec<(String, V)>, key: String, value: V)
    ensures
        fields_view(final(fields)@) == upsert(fields_view(old(fields)@), key@, value),
{
    let ghost before = fields_view(fields@);
    let n = fields.len();
    let mut found: Option<usize> = None;
    for i in 0..n
        invariant
            n == fields.len(),
            before == fields_view(fields@),
            match found {
                Some(j) => j < i && fields@[j as int].0@ == key@ && forall|k: int|
                    0 <= k < j ==> fields@[k].0@ != key@,
                None => forall|j: int| 0 <= j < i ==> fields@[j].0@ != key@,
            },
    {
        if found.is_none() && key_eq(&fields[i].0, &key) {
            found = Some(i);
        }
    }
    let ghost kv = key@;
    match found {
        Some(j) => {
            proof {
                assert forall|k: int| 0 <= k < j implies #[trigger] before[k].0 != kv by {
                    assert(before[k].0 == fields@[k].0@);
                }
                lemma_upsert_replace(before, kv, value, j as int);
            }
            fields.set(j, (key, value));
            assert(fields_view(fields@) =~= before.update(j as int, (kv, value)));
        },
        None => {
            proof {
                assert forall|i: int| 0 <= i < before.len() implies #[trigger] before[i].0 != kv by {
                    assert(before[i].0 == fields@[i].0@);
                }
                lemma_upsert_absent(before, kv, value);
            }
            fields.push((key, value));
            assert(fields_view(fields@) =~= before.push((kv, value)));
        },
    }
}

/// The fields with each value mapped by `f`.
pub open spec fn map_values<V, W>(entries: Seq<(Seq<char>, V)>, f: spec_fn(V) -> W) -> Seq<(Seq<char>, W)> {
    Seq::new(entries.len(), |i: int| (entries[i].0, f(entries[i].1)))
}

/// Mapping the values commutes with setting a field.
pub proof fn lemma_upsert_map<V, W>(entries: Seq<(Seq<char>, V)>, key: Seq<char>, value: V, f: spec_fn(V) -> W)
    ensures
        map_values(upsert(entries, key, value), f) == upsert(map_values(entries, f), key, f(value)),
    decreases entries.len(),
{
    if entries.len() == 0 {
        assert(map_values(upsert(entries, key, value), f) =~= seq![(key, f(value))]);
    } else if entries[0].0 == key {
        assert(map_values(upsert(entries, key, value), f) =~= map_values(entries, f).update(
            0,
            (key, f(value)),
        ));
    } else {
        lemma_upsert_map(entries.drop_first(), key, value, f);
        assert(map_values(entries, f).drop_first() =~= map_values(entries.drop_first(), f));
        assert(map_values(upsert(entries, key, value), f) =~= seq![map_values(entries, f)[0]]
            + map_values(upsert(entries.drop_first(), key, value), f));
    }
}

} // verus!
