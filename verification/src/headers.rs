//! The Header Materializer: parses the serialized header list (a JSON array
//! of `{key, value, checked?}` entries) and collates it into a header set
//! with one value per key, the last value seen winning.

use vstd::prelude::*;

use crate::errors::RelayError;
use crate::jsonval::{
    json_parsed, json_view, json_view_fields, json_view_items, parse_json, Json, JsonData,
};
use crate::text::str_eq;

verus! {

/// One caller-supplied header entry. `checked` is caller metadata, ignored by
/// the encoding logic but carried through unchanged.
pub struct HeaderEntry {
    pub key: String,
    pub value: String,
    pub checked: Option<bool>,
}

/// Mathematical image of a [`HeaderEntry`].
pub struct HeaderEntryData {
    pub key: Seq<char>,
    pub value: Seq<char>,
    pub checked: Option<bool>,
}

impl View for HeaderEntry {
    type V = HeaderEntryData;

    open spec fn view(&self) -> HeaderEntryData {
        HeaderEntryData { key: self.key@, value: self.value@, checked: self.checked }
    }
}

/// The value of the last field named `name`, if any.
pub open spec fn lookup_field(fields: Seq<(Seq<char>, JsonData)>, name: Seq<char>) -> Option<
    JsonData,
>
    decreases fields.len(),
{
    if fields.len() == 0 {
        None
    } else if fields.last().0 == name {
        Some(fields.last().1)
    } else {
        lookup_field(fields.drop_last(), name)
    }
}

/// The header entry described by one JSON value: an object whose `key` and
/// `value` fields are strings, and whose `checked` field, if present, is a
/// boolean. Anything else is rejected.
pub open spec fn entry_of(d: JsonData) -> Option<HeaderEntryData> {
    match d {
        JsonData::Obj(fields) => match (lookup_field(fields, "key"@), lookup_field(
            fields,
            "value"@,
        )) {
            (Some(JsonData::Str(k)), Some(JsonData::Str(v))) => match lookup_field(
                fields,
                "checked"@,
            ) {
                None => Some(HeaderEntryData { key: k, value: v, checked: None }),
                Some(JsonData::Bool(b)) => Some(
                    HeaderEntryData { key: k, value: v, checked: Some(b) },
                ),
                Some(_) => None,
            },
            _ => None,
        },
        _ => None,
    }
}

/// The entries described by a sequence of JSON values; `None` as soon as one
/// is rejected.
pub open spec fn entries_of_items(items: Seq<JsonData>) -> Option<Seq<HeaderEntryData>>
    decreases items.len(),
{
    if items.len() == 0 {
        Some(Seq::empty())
    } else {
        match (entries_of_items(items.drop_last()), entry_of(items.last())) {
            (Some(front), Some(e)) => Some(front.push(e)),
            _ => None,
        }
    }
}

/// The entries described by one JSON document: it must be an array.
pub open spec fn entries_of(d: JsonData) -> Option<Seq<HeaderEntryData>> {
    match d {
        JsonData::Arr(items) => entries_of_items(items),
        _ => None,
    }
}

/// What the `headers` field of a request spec describes: `None` where it is
/// not JSON at all or not a list of header entries.
pub open spec fn parsed_header_entries(s: Seq<char>) -> Option<Seq<HeaderEntryData>> {
    match json_parsed(s) {
        Some(d) => entries_of(d),
        None => None,
    }
}

/// The header mapping that a list of entries collapses to: one value per
/// key, the last value seen winning.
pub open spec fn header_map(entries: Seq<HeaderEntryData>) -> Map<Seq<char>, Seq<char>>
    decreases entries.len(),
{
    if entries.len() == 0 {
        Map::empty()
    } else {
        header_map(entries.drop_last()).insert(entries.last().key, entries.last().value)
    }
}

/// The views of a sequence of exec header entries.
pub open spec fn entry_views(s: Seq<HeaderEntry>) -> Seq<HeaderEntryData> {
    Seq::new(s.len(), |i: int| s[i]@)
}

/// The views of a sequence of exec string pairs.
pub open spec fn pair_views(s: Seq<(String, String)>) -> Seq<(Seq<char>, Seq<char>)> {
    Seq::new(s.len(), |i: int| (s[i].0@, s[i].1@))
}

/// The mapping holding each pair of the sequence, later pairs winning.
pub open spec fn pairs_map(ps: Seq<(Seq<char>, Seq<char>)>) -> Map<Seq<char>, Seq<char>>
    decreases ps.len(),
{
    if ps.len() == 0 {
        Map::empty()
    } else {
        pairs_map(ps.drop_last()).insert(ps.last().0, ps.last().1)
    }
}

pub proof fn lemma_json_view_items(items: Seq<Json>)
    ensures
        json_view_items(items).len() == items.len(),
        forall|i: int|
            0 <= i < items.len() ==> #[trigger] json_view_items(items)[i] == json_view(items[i]),
    decreases items.len(),
{
    if items.len() > 0 {
        lemma_json_view_items(items.drop_last());
    }
}

pub proof fn lemma_json_view_fields(fields: Seq<(String, Json)>)
    ensures
        json_view_fields(fields).len() == fields.len(),
        forall|i: int|
            0 <= i < fields.len() ==> #[trigger] json_view_fields(fields)[i] == (
                fields[i].0@,
                json_view(fields[i].1),
            ),
    decreases fields.len(),
{
    if fields.len() > 0 {
        lemma_json_view_fields(fields.drop_last());
    }
}

/// Find the last field of the object named `name`.
fn obj_lookup<'a>(fields: &'a Vec<(String, Json)>, name: &str) -> (r: Option<&'a Json>)
    ensures
        match r {
            Some(j) => lookup_field(json_view_fields(fields@), name@) == Some(json_view(*j)),
            None => lookup_field(json_view_fields(fields@), name@) is None,
        },
{
    proof {
        lemma_json_view_fields(fields@);
        assert(json_view_fields(fields@).take(fields@.len() as int) =~= json_view_fields(
            fields@,
        ));
    }
    let ghost vf = json_view_fields(fields@);
    let mut i: usize = fields.len();
    while i > 0
        invariant
            vf == json_view_fields(fields@),
            vf.len() == fields@.len(),
            forall|k: int|
                0 <= k < fields@.len() ==> #[trigger] vf[k] == (
                    fields@[k].0@,
                    json_view(fields@[k].1),
                ),
            i <= fields@.len(),
            lookup_field(vf, name@) == lookup_field(vf.take(i as int), name@),
        decreases i,
    {
        i -= 1;
        if str_eq(fields[i].0.as_str(), name) {
            proof {
                assert(vf.take(i + 1 as int).last() == vf[i as int]);
            }
            return Some(&fields[i].1);
        }
        proof {
            assert(vf.take(i + 1 as int).drop_last() =~= vf.take(i as int));
            assert(vf.take(i + 1 as int).last() == vf[i as int]);
        }
    }
    proof {
        assert(vf.take(0) =~= Seq::<(Seq<char>, JsonData)>::empty());
    }
    None
}

/// Read one header entry out of one JSON value.
fn entry_from_json(j: &Json) -> (r: Option<HeaderEntry>)
    ensures
        match r {
            Some(e) => entry_of(json_view(*j)) == Some(e@),
            None => entry_of(json_view(*j)) is None,
        },
{
    let fields = match j {
        Json::Obj(fields) => fields,
        _ => {
            return None;
        },
    };
    let key = match obj_lookup(fields, "key") {
        Some(Json::Str(k)) => k.clone(),
        _ => {
            return None;
        },
    };
    let value = match obj_lookup(fields, "value") {
        Some(Json::Str(v)) => v.clone(),
        _ => {
            return None;
        },
    };
    let checked = match obj_lookup(fields, "checked") {
        None => None,
        Some(Json::Bool(b)) => Some(*b),
        Some(_) => {
            return None;
        },
    };
    Some(HeaderEntry { key, value, checked })
}

/// Read the whole header entry list out of one JSON document.
fn entries_from_json(j: &Json) -> (r: Option<Vec<HeaderEntry>>)
    ensures
        match r {
            Some(es) => entries_of(json_view(*j)) == Some(entry_views(es@)),
            None => entries_of(json_view(*j)) is None,
        },
{
    match j {
        Json::Arr(items) => entries_from_items(items),
        _ => None,
    }
}

/// Read a header entry list out of a vector of JSON values.
fn entries_from_items(items: &Vec<Json>) -> (r: Option<Vec<HeaderEntry>>)
    ensures
        match r {
            Some(es) => entries_of_items(json_view_items(items@)) == Some(entry_views(es@)),
            None => entries_of_items(json_view_items(items@)) is None,
        },
{
    proof {
        lemma_json_view_items(items@);
    }
    let ghost vi = json_view_items(items@);
    let mut out: Vec<HeaderEntry> = Vec::new();
    let n = items.len();
    let mut i: usize = 0;
    while i < n
        invariant
            vi == json_view_items(items@),
            vi.len() == items@.len(),
            n == items@.len(),
            forall|k: int|
                0 <= k < items@.len() ==> #[trigger] vi[k] == json_view(items@[k]),
            i <= n,
            entries_of_items(vi.take(i as int)) == Some(entry_views(out@)),
        decreases n - i,
    {
        let e = match entry_from_json(&items[i]) {
            Some(e) => e,
            None => {
                proof {
                    assert(vi[i as int] == json_view(items@[i as int]));
                    lemma_entries_of_items_reject(vi, i as int);
                }
                return None;
            },
        };
        out.push(e);
        proof {
            assert(vi.take(i + 1 as int).drop_last() =~= vi.take(i as int));
            assert(vi.take(i + 1 as int).last() == vi[i as int]);
            assert(entry_views(out@) =~= entry_views(out@.drop_last()).push(e@));
        }
        i += 1;
    }
    proof {
        assert(vi.take(n as int) =~= vi);
    }
    Some(out)
}

/// Where one item is rejected, the whole list is.
proof fn lemma_entries_of_items_reject(items: Seq<JsonData>, i: int)
    requires
        0 <= i < items.len(),
        entry_of(items[i]) is None,
    ensures
        entries_of_items(items) is None,
    decreases items.len(),
{
    if items.len() > 0 {
        if i < items.len() - 1 {
            lemma_entries_of_items_reject(items.drop_last(), i);
        }
    }
}

/// Parse the `headers` field of a request spec.
///
/// Returns the entry list exactly when the field is a JSON array of header
/// entries, and `MalformedHeaders` otherwise.
pub fn parse_header_entries(s: &str) -> (r: Result<Vec<HeaderEntry>, RelayError>)
    ensures
        match r {
            Ok(es) => parsed_header_entries(s@) == Some(entry_views(es@)),
            Err(e) => parsed_header_entries(s@) is None && e == RelayError::MalformedHeaders,
        },
{
    let j = match parse_json(s) {
        Some(j) => j,
        None => {
            return Err(RelayError::MalformedHeaders);
        },
    };
    match entries_from_json(&j) {
        Some(es) => Ok(es),
        None => Err(RelayError::MalformedHeaders),
    }
}

/// `pairs_map` of an updated sequence: where the keys are unique and `j`
/// holds the key, updating position `j` is inserting into the mapping.
proof fn lemma_pairs_map_update(ps: Seq<(Seq<char>, Seq<char>)>, j: int, k: Seq<char>, v: Seq<char>)
    requires
        0 <= j < ps.len(),
        ps[j].0 == k,
        forall|i: int| 0 <= i < ps.len() && i != j ==> (#[trigger] ps[i]).0 != k,
    ensures
        pairs_map(ps.update(j, (k, v))) =~= pairs_map(ps).insert(k, v),
    decreases ps.len(),
{
    let upd = ps.update(j, (k, v));
    if j == ps.len() - 1 {
        assert(upd.drop_last() =~= ps.drop_last());
        assert(upd.last() == (k, v));
    } else {
        assert(upd.drop_last() =~= ps.drop_last().update(j, (k, v)));
        lemma_pairs_map_update(ps.drop_last(), j, k, v);
        assert(upd.last() == ps.last());
    }
}

/// The domain of `pairs_map` is exactly the keys of the sequence.
proof fn lemma_pairs_map_dom(ps: Seq<(Seq<char>, Seq<char>)>, k: Seq<char>)
    ensures
        pairs_map(ps).contains_key(k) <==> exists|i: int|
            0 <= i < ps.len() && (#[trigger] ps[i]).0 == k,
    decreases ps.len(),
{
    if ps.len() > 0 {
        lemma_pairs_map_dom(ps.drop_last(), k);
        if ps.last().0 == k {
            assert(ps[ps.len() - 1].0 == k);
        } else {
            if exists|i: int| 0 <= i < ps.drop_last().len() && (#[trigger] ps.drop_last()[i]).0
                == k {
                let i = choose|i: int|
                    0 <= i < ps.drop_last().len() && (#[trigger] ps.drop_last()[i]).0 == k;
                assert(ps[i].0 == k);
            }
            if exists|i: int| 0 <= i < ps.len() && (#[trigger] ps[i]).0 == k {
                let i = choose|i: int| 0 <= i < ps.len() && (#[trigger] ps[i]).0 == k;
                assert(ps.drop_last()[i].0 == k);
            }
        }
    }
}

/// Collate a header entry list into a header set with one value per key.
///
/// The result has no repeated key, and holds exactly the mapping in which
/// the last value seen for each distinct key wins.
pub fn materialize_headers(entries: &Vec<HeaderEntry>) -> (r: Vec<(String, String)>)
    ensures
        forall|i: int, j: int|
            0 <= i < j < r@.len() ==> (#[trigger] r@[i]).0@ != (#[trigger] r@[j]).0@,
        pairs_map(pair_views(r@)) == header_map(entry_views(entries@)),
{
    let ghost ev = entry_views(entries@);
    let mut out: Vec<(String, String)> = Vec::new();
    let n = entries.len();
    let mut idx: usize = 0;
    while idx < n
        invariant
            ev == entry_views(entries@),
            n == entries@.len(),
            idx <= n,
            forall|i: int, j: int|
                0 <= i < j < out@.len() ==> (#[trigger] out@[i]).0@ != (#[trigger] out@[j]).0@,
            pairs_map(pair_views(out@)) == header_map(ev.take(idx as int)),
        decreases n - idx,
    {
        let key = entries[idx].key.clone();
        let value = entries[idx].value.clone();
        let m = out.len();
        let mut j: usize = 0;
        let mut found = false;
        while j < m && !found
            invariant
                m == out@.len(),
                j <= m,
                !found ==> forall|i: int| 0 <= i < j ==> (#[trigger] out@[i]).0@ != key@,
                found ==> j < m && out@[j as int].0@ == key@,
            decreases m - j + (if found { 0int } else { 1int }),
        {
            if str_eq(out[j].0.as_str(), key.as_str()) {
                found = true;
            } else {
                j += 1;
            }
        }
        proof {
            assert(ev.take(idx + 1 as int).drop_last() =~= ev.take(idx as int));
            assert(ev.take(idx + 1 as int).last() == ev[idx as int]);
            assert(ev[idx as int] == entries@[idx as int]@);
        }
        if found {
            let ghost before = pair_views(out@);
            out[j] = (key, value);
            proof {
                assert(pair_views(out@) =~= before.update(
                    j as int,
                    (entries@[idx as int].key@, entries@[idx as int].value@),
                ));
                lemma_pairs_map_update(
                    before,
                    j as int,
                    entries@[idx as int].key@,
                    entries@[idx as int].value@,
                );
            }
        } else {
            let ghost before = pair_views(out@);
            out.push((key, value));
            proof {
                assert(pair_views(out@) =~= before.push(
                    (entries@[idx as int].key@, entries@[idx as int].value@),
                ));
                assert(pair_views(out@).drop_last() =~= before);
                lemma_pairs_map_dom(before, entries@[idx as int].key@);
            }
        }
        idx += 1;
    }
    proof {
        assert(ev.take(n as int) =~= ev);
    }
    out
}

/// The Header Materializer's law: for every valid header entry list, the
/// materialized mapping holds exactly the keys that occur in the list, and
/// for each such key the last value seen.
#[verifier::rlimit(50)]
pub proof fn lemma_header_map_last_wins(entries: Seq<HeaderEntryData>, k: Seq<char>)
    ensures
        header_map(entries).contains_key(k) <==> exists|i: int|
            0 <= i < entries.len() && (#[trigger] entries[i]).key == k,
        forall|i: int|
            0 <= i < entries.len() && (#[trigger] entries[i]).key == k && (forall|j: int|
                i < j < entries.len() ==> (#[trigger] entries[j]).key != k) ==> header_map(
                entries,
            )[k] == entries[i].value,
    decreases entries.len(),
{
    if entries.len() > 0 {
        lemma_header_map_last_wins(entries.drop_last(), k);
        let front = entries.drop_last();
        if entries.last().key == k {
            assert(entries[entries.len() - 1].key == k);
        } else {
            if exists|i: int| 0 <= i < front.len() && (#[trigger] front[i]).key == k {
                let i = choose|i: int| 0 <= i < front.len() && (#[trigger] front[i]).key == k;
                assert(entries[i].key == k);
            }
            if exists|i: int| 0 <= i < entries.len() && (#[trigger] entries[i]).key == k {
                let i = choose|i: int| 0 <= i < entries.len() && (#[trigger] entries[i]).key == k;
                assert(front[i].key == k);
            }
        }
        assert forall|i: int|
            0 <= i < entries.len() && (#[trigger] entries[i]).key == k && (forall|j: int|
                i < j < entries.len() ==> (#[trigger] entries[j]).key != k) implies header_map(
            entries,
        )[k] == entries[i].value by {
            if i == entries.len() - 1 {
            } else {
                assert(entries[entries.len() - 1].key != k);
                assert(forall|j: int| i < j < front.len() ==> (#[trigger] front[j]).key != k);
                assert(front[i].key == k);
            }
        }
    }
}

} // verus!
