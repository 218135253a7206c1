use vstd::prelude::*;

use crate::text::{
    chars_of, has_prefix, has_suffix, replaced_ends_with_replacement, lower_of, lowercase, push_tail, replace_all, replaced, same_text,
    starts_with, trim_leading, without_leading,
};

verus! {

/// A flat JSON object of string members, in insertion order, keys unique.
pub struct Document {
    pub entries: Vec<(String, String)>,
}

pub open spec fn pairs_view(v: Seq<(String, String)>) -> Seq<(Seq<char>, Seq<char>)> {
    v.map_values(|e: (String, String)| (e.0@, e.1@))
}

impl View for Document {
    type V = Seq<(Seq<char>, Seq<char>)>;

    open spec fn view(&self) -> Seq<(Seq<char>, Seq<char>)> {
        pairs_view(self.entries@)
    }
}

/// `d` with member `k` set to `v`: an existing member keeps its place and
/// takes the new value; a new one goes last.
pub open spec fn put(d: Seq<(Seq<char>, Seq<char>)>, k: Seq<char>, v: Seq<char>) -> Seq<
    (Seq<char>, Seq<char>),
>
    decreases d.len(),
{
    if d.len() == 0 {
        seq![(k, v)]
    } else if d[0].0 == k {
        d.update(0, (k, v))
    } else {
        seq![d[0]] + put(d.skip(1), k, v)
    }
}

/// Whether member `k` is set in `d` to `v`.
pub open spec fn has_member(d: Seq<(Seq<char>, Seq<char>)>, k: Seq<char>, v: Seq<char>) -> bool {
    exists|i: int| 0 <= i < d.len() && #[trigger] d[i] == (k, v)
}

/// Whether no two members of `d` share a key.
pub open spec fn keys_unique(d: Seq<(Seq<char>, Seq<char>)>) -> bool {
    forall|i: int, j: int| 0 <= i < j < d.len() ==> #[trigger] d[i].0 != #[trigger] d[j].0
}

/// A key after its leading dots are gone and the `source` / `message.`
/// renames are applied; the input is already dotted and lower case.
pub open spec fn renamed_key(lowered: Seq<char>) -> Seq<char> {
    let t = without_leading(lowered, '.');
    if t == "source"@ {
        "originator"@
    } else if has_prefix(t, "message."@) {
        "originator."@ + t.skip("message."@.len() as int)
    } else {
        t
    }
}

/// The document key for a raw record field name.
pub open spec fn normalized_key(raw: Seq<char>) -> Seq<char> {
    renamed_key(lower_of(replaced(raw, "_"@, "."@)))
}

/// `d` with every record field set, in order, under its normalized key.
pub open spec fn put_fields(d: Seq<(Seq<char>, Seq<char>)>, fields: Seq<(Seq<char>, Seq<char>)>) -> Seq<
    (Seq<char>, Seq<char>),
>
    decreases fields.len(),
{
    if fields.len() == 0 {
        d
    } else {
        let f = fields.last();
        put(put_fields(d, fields.drop_last()), normalized_key(f.0), f.1)
    }
}

/// `d` with the delivery members set: the time text under `@timestamp` and
/// `source.timestamp`, and the cursor under `source.cursor`.
pub open spec fn with_delivery_members(
    d: Seq<(Seq<char>, Seq<char>)>,
    stamp: Seq<char>,
    cursor: Seq<char>,
) -> Seq<(Seq<char>, Seq<char>)> {
    put(put(put(d, "@timestamp"@, stamp), "source.timestamp"@, stamp), "source.cursor"@, cursor)
}

/// The document for a record with the given fields, cursor and time text:
/// every field under its normalized key, then the delivery members, which
/// take the place of any field whose key is one of theirs.
pub open spec fn document_of(
    fields: Seq<(Seq<char>, Seq<char>)>,
    cursor: Seq<char>,
    stamp: Seq<char>,
) -> Seq<(Seq<char>, Seq<char>)> {
    with_delivery_members(put_fields(Seq::empty(), fields), stamp, cursor)
}

/// What chrono's `to_rfc3339` gives for the UTC instant `micros`
/// microseconds after the Unix epoch; `None` where chrono has no such instant.
pub uninterp spec fn rfc3339_of(micros: int) -> Option<Seq<char>>;

/// An RFC 3339 text with the UTC offset written as `Z`.
pub open spec fn zulu(t: Seq<char>) -> Seq<char> {
    replaced(t, "+00:00"@, "Z"@)
}

/// The time text of a record: its own time when the source gave one that
/// can be written, else the current time.
pub open spec fn stamp_of(source_micros: Option<i64>, now_micros: i64) -> Seq<char> {
    let own = match source_micros {
        Some(t) => rfc3339_of(t as int),
        None => None,
    };
    match own {
        Some(t) => zulu(t),
        None => match rfc3339_of(now_micros as int) {
            Some(t) => zulu(t),
            None => Seq::empty(),
        },
    }
}

/// What serde_json writes, compact, for an object with these string members.
pub uninterp spec fn json_text_of(entries: Seq<(Seq<char>, Seq<char>)>) -> Seq<char>;

/// Relies on `chrono::DateTime::from_timestamp_micros` and `to_rfc3339`:
/// the UTC instant written in RFC 3339, `None` out of chrono's range; the
/// offset comes last and is written `+00:00` for UTC.
#[verifier::external_body]
fn rfc3339_text(micros: i64) -> (r: Option<String>)
    ensures
        rfc3339_of(micros as int) == match r {
            Some(t) => Some(t@),
            None => None::<Seq<char>>,
        },
        r matches Some(t) ==> has_suffix(t@, "+00:00"@),
{
    match chrono::DateTime::from_timestamp_micros(micros) {
        Some(d) => Some(d.to_rfc3339()),
        None => None,
    }
}

/// Relies on serde_json's compact writer (`Value::to_string`) for an object
/// of string members; it escapes line breaks inside strings, so the text
/// holds no raw newline.
#[verifier::external_body]
fn json_text(doc: &Document) -> (r: String)
    ensures
        r@ == json_text_of(doc@),
        !r@.contains('\n'),
{
    let mut map = serde_json::Map::new();
    for (k, v) in doc.entries.iter() {
        map.insert(k.clone(), serde_json::Value::String(v.clone()));
    }
    serde_json::Value::Object(map).to_string()
}

pub open spec fn keys_of(d: Seq<(Seq<char>, Seq<char>)>) -> Seq<Seq<char>> {
    d.map_values(|e: (Seq<char>, Seq<char>)| e.0)
}

/// Setting a member keeps the keys of a document unique, leaves `k` set to
/// `v`, and adds no key but `k`.
pub proof fn put_keeps_keys_unique(d: Seq<(Seq<char>, Seq<char>)>, k: Seq<char>, v: Seq<char>)
    requires
        keys_unique(d),
    ensures
        keys_unique(put(d, k, v)),
        has_member(put(d, k, v), k, v),
        forall|x: Seq<char>| #[trigger]
            keys_of(put(d, k, v)).contains(x) ==> x == k || keys_of(d).contains(x),
    decreases d.len(),
{
    let r = put(d, k, v);
    if d.len() == 0 {
        assert(r[0] == (k, v));
        assert forall|x: Seq<char>| #[trigger] keys_of(r).contains(x) implies x == k by {
            let i = choose|i: int| 0 <= i < keys_of(r).len() && keys_of(r)[i] == x;
        }
    } else if d[0].0 == k {
        assert(r[0] == (k, v));
        assert forall|x: Seq<char>| #[trigger] keys_of(r).contains(x) implies x == k || keys_of(
            d,
        ).contains(x) by {
            let i = choose|i: int| 0 <= i < keys_of(r).len() && keys_of(r)[i] == x;
            assert(keys_of(d)[i] == x);
        }
    } else {
        let d1 = d.skip(1);
        assert forall|i: int, j: int| 0 <= i < j < d1.len() implies #[trigger] d1[i].0
            != #[trigger] d1[j].0 by {
            assert(d1[i] == d[i + 1] && d1[j] == d[j + 1]);
        }
        put_keeps_keys_unique(d1, k, v);
        let r1 = put(d1, k, v);
        assert(r =~= seq![d[0]] + r1);
        assert forall|x: Seq<char>| #[trigger] keys_of(r1).contains(x) implies x != d[0].0 by {
            if keys_of(d1).contains(x) {
                let j = choose|j: int| 0 <= j < keys_of(d1).len() && keys_of(d1)[j] == x;
                assert(d[0].0 != d[j + 1].0);
            }
        }
        assert forall|i: int, j: int| 0 <= i < j < r.len() implies #[trigger] r[i].0
            != #[trigger] r[j].0 by {
            if i == 0 {
                assert(r[j] == r1[j - 1]);
                assert(keys_of(r1)[j - 1] == r[j].0);
                assert(keys_of(r1).contains(r[j].0));
            } else {
                assert(r[i] == r1[i - 1] && r[j] == r1[j - 1]);
            }
        }
        let m = choose|m: int| 0 <= m < r1.len() && #[trigger] r1[m] == (k, v);
        assert(r[m + 1] == (k, v));
        assert forall|x: Seq<char>| #[trigger] keys_of(r).contains(x) implies x == k || keys_of(
            d,
        ).contains(x) by {
            let i = choose|i: int| 0 <= i < keys_of(r).len() && keys_of(r)[i] == x;
            if i == 0 {
                assert(keys_of(d)[0] == x);
            } else {
                assert(keys_of(r1)[i - 1] == x);
                assert(keys_of(r1).contains(x));
                if x != k {
                    let j = choose|j: int| 0 <= j < keys_of(d1).len() && keys_of(d1)[j] == x;
                    assert(keys_of(d)[j + 1] == x);
                }
            }
        }
    }
}

/// Setting member `k` leaves every member under another key in place.
pub proof fn put_keeps_other_members(
    d: Seq<(Seq<char>, Seq<char>)>,
    k: Seq<char>,
    v: Seq<char>,
    k2: Seq<char>,
    v2: Seq<char>,
)
    requires
        has_member(d, k2, v2),
        k2 != k,
    ensures
        has_member(put(d, k, v), k2, v2),
    decreases d.len(),
{
    let i = choose|i: int| 0 <= i < d.len() && #[trigger] d[i] == (k2, v2);
    let r = put(d, k, v);
    if d[0].0 == k {
        assert(i != 0);
        assert(r[i] == (k2, v2));
    } else if i == 0 {
        assert(r[0] == (k2, v2));
    } else {
        let d1 = d.skip(1);
        assert(d1[i - 1] == (k2, v2));
        put_keeps_other_members(d1, k, v, k2, v2);
        let j = choose|j: int| 0 <= j < put(d1, k, v).len() && #[trigger] put(d1, k, v)[j] == (
            k2,
            v2,
        );
        assert(r =~= seq![d[0]] + put(d1, k, v));
        assert(r[j + 1] == (k2, v2));
    }
}

proof fn lemma_fields_keys_unique(fields: Seq<(Seq<char>, Seq<char>)>)
    ensures
        keys_unique(put_fields(Seq::empty(), fields)),
    decreases fields.len(),
{
    if fields.len() > 0 {
        lemma_fields_keys_unique(fields.drop_last());
        let f = fields.last();
        put_keeps_keys_unique(put_fields(Seq::empty(), fields.drop_last()), normalized_key(f.0), f.1);
    }
}

/// No two members of a document share a key, whatever the record's fields,
/// and the document always carries the delivery members: the time text
/// under `@timestamp` and `source.timestamp`, the cursor under `source.cursor`.
pub proof fn document_keys_unique(
    fields: Seq<(Seq<char>, Seq<char>)>,
    cursor: Seq<char>,
    stamp: Seq<char>,
)
    ensures
        keys_unique(document_of(fields, cursor, stamp)),
        has_member(document_of(fields, cursor, stamp), "@timestamp"@, stamp),
        has_member(document_of(fields, cursor, stamp), "source.timestamp"@, stamp),
        has_member(document_of(fields, cursor, stamp), "source.cursor"@, cursor),
{
    reveal_strlit("@timestamp");
    reveal_strlit("source.timestamp");
    reveal_strlit("source.cursor");
    let d0 = put_fields(Seq::empty(), fields);
    let d1 = put(d0, "@timestamp"@, stamp);
    let d2 = put(d1, "source.timestamp"@, stamp);
    lemma_fields_keys_unique(fields);
    put_keeps_keys_unique(d0, "@timestamp"@, stamp);
    put_keeps_keys_unique(d1, "source.timestamp"@, stamp);
    put_keeps_keys_unique(d2, "source.cursor"@, cursor);
    assert("@timestamp"@.len() != "source.timestamp"@.len());
    assert("@timestamp"@.len() != "source.cursor"@.len());
    assert("source.timestamp"@.len() != "source.cursor"@.len());
    put_keeps_other_members(d1, "source.timestamp"@, stamp, "@timestamp"@, stamp);
    put_keeps_other_members(d2, "source.cursor"@, cursor, "@timestamp"@, stamp);
    put_keeps_other_members(d2, "source.cursor"@, cursor, "source.timestamp"@, stamp);
}

/// Two documents that satisfy the contract of `transform` for the same
/// record, cursor and times are the same document: transforming depends on
/// nothing else.
pub proof fn transform_is_deterministic(
    fields: Seq<(Seq<char>, Seq<char>)>,
    cursor: Seq<char>,
    source_micros: Option<i64>,
    now_micros: i64,
    a: Seq<(Seq<char>, Seq<char>)>,
    b: Seq<(Seq<char>, Seq<char>)>,
)
    requires
        a == document_of(fields, cursor, stamp_of(source_micros, now_micros)),
        b == document_of(fields, cursor, stamp_of(source_micros, now_micros)),
    ensures
        a == b,
{
}

proof fn lemma_dots_dropped(dots: nat, rest: Seq<char>)
    requires
        rest.len() == 0 || rest[0] != '.',
    ensures
        without_leading(Seq::new(dots, |i: int| '.') + rest, '.') == rest,
    decreases dots,
{
    let s = Seq::new(dots, |i: int| '.') + rest;
    if dots > 0 {
        assert(s.skip(1) =~= Seq::new((dots - 1) as nat, |i: int| '.') + rest);
        lemma_dots_dropped((dots - 1) as nat, rest);
    } else {
        assert(s =~= rest);
    }
}

/// A name that reads `source` once its leading dots are gone is renamed
/// `originator`; any other name renamed `originator` already read so.
pub proof fn source_becomes_originator(lowered: Seq<char>)
    ensures
        (without_leading(lowered, '.') == "source"@) ==> renamed_key(lowered) == "originator"@,
        (without_leading(lowered, '.') != "source"@ && renamed_key(lowered) == "originator"@)
            ==> without_leading(lowered, '.') == "originator"@,
{
    reveal_strlit("source");
    reveal_strlit("originator");
    reveal_strlit("originator.");
    reveal_strlit("message.");
    let t = without_leading(lowered, '.');
    if t != "source"@ && has_prefix(t, "message."@) {
        let r = "originator."@ + t.skip(8);
        assert(r.len() >= 11);
    }
}

/// After any run of leading dots, a `message.` prefix is replaced by
/// `originator.` and the rest of the name is kept.
pub proof fn message_prefix_becomes_originator(dots: nat, rest: Seq<char>)
    ensures
        renamed_key(Seq::new(dots, |i: int| '.') + "message."@ + rest) == "originator."@ + rest,
{
    reveal_strlit("message.");
    reveal_strlit("source");
    let t = "message."@ + rest;
    assert(Seq::new(dots, |i: int| '.') + "message."@ + rest =~= Seq::new(dots, |i: int| '.') + t);
    assert(t[0] == 'm');
    lemma_dots_dropped(dots, t);
    assert(t.subrange(0, 8) =~= "message."@);
    assert(t.skip(8) =~= rest);
    assert(t.len() != 6 || t[0] != "source"@[0]);
}

/// A name without leading dots that is neither `source` nor starts with
/// `message.` is kept as it is.
pub proof fn other_names_kept(lowered: Seq<char>)
    requires
        lowered.len() == 0 || lowered[0] != '.',
        lowered != "source"@,
        !has_prefix(lowered, "message."@),
    ensures
        renamed_key(lowered) == lowered,
{
    lemma_dots_dropped(0, lowered);
    assert(Seq::new(0, |i: int| '.') + lowered =~= lowered);
}

impl Document {
    pub fn new() -> (r: Document)
        ensures
            r@ == Seq::<(Seq<char>, Seq<char>)>::empty(),
    {
        Document { entries: Vec::new() }
    }

    /// Sets member `key` to `value`.
    pub fn insert(&mut self, key: String, value: String)
        ensures
            final(self)@ == put(old(self)@, key@, value@),
    {
        let ghost d = self@;
        let mut i: usize = 0;
        assert(d.skip(0) =~= d);
        assert(d.subrange(0, 0) =~= Seq::<(Seq<char>, Seq<char>)>::empty());
        while i < self.entries.len()
            invariant
                i <= self.entries@.len(),
                self@ == d,
                d == old(self)@,
                put(d, key@, value@) == d.subrange(0, i as int) + put(d.skip(i as int), key@, value@),
            decreases self.entries.len() - i,
        {
            let ghost tail = d.skip(i as int);
            if same_text(self.entries[i].0.as_str(), key.as_str()) {
                let ghost newd = d.update(i as int, (key@, value@));
                assert(tail[0] == d[i as int]);
                assert(d[i as int].0 == self.entries@[i as int].0@);
                self.entries.set(i, (key, value));
                assert(self@ =~= newd);
                assert(put(tail, key@, value@) == tail.update(0, (key@, value@)));
                assert(d.subrange(0, i as int) + tail.update(0, (key@, value@)) =~= newd);
                return;
            }
            assert(tail.skip(1) =~= d.skip(i + 1));
            assert(d.subrange(0, i + 1) =~= d.subrange(0, i as int) + seq![tail[0]]);
            i = i + 1;
        }
        assert(d.skip(i as int) =~= Seq::<(Seq<char>, Seq<char>)>::empty());
        self.entries.push((key, value));
        assert(d.subrange(0, i as int) =~= d);
        assert(self@ =~= d.push((key@, value@)));
    }
}

/// The key rules on a name that is already dotted and lower case: leading
/// dots go, `source` becomes `originator`, and a `message.` prefix becomes
/// `originator.`.
pub fn rename_lowered(key: &str) -> (r: String)
    ensures
        r@ == renamed_key(key@),
{
    let t = trim_leading(key, '.');
    if same_text(t.as_str(), "source") {
        String::from_str("originator")
    } else if starts_with(t.as_str(), "message.") {
        proof {
            reveal_strlit("message.");
        }
        let tv = chars_of(t.as_str());
        let mut out = String::from_str("originator.");
        push_tail(&mut out, &tv, 8);
        out
    } else {
        t
    }
}

/// The document key for a raw field name: `_` becomes `.`, then lower case,
/// then the rules of `rename_lowered`.
pub fn normalize_key(raw: &str) -> (r: String)
    ensures
        r@ == normalized_key(raw@),
{
    proof {
        reveal_strlit("_");
    }
    let dotted = replace_all(raw, "_", ".");
    let low = lowercase(dotted.as_str());
    rename_lowered(low.as_str())
}

/// `t` with every `+00:00` written as `Z`.
pub fn zulu_form(t: &str) -> (r: String)
    ensures
        r@ == zulu(t@),
        has_suffix(t@, "+00:00"@) ==> r@.len() > 0 && r@.last() == 'Z',
{
    proof {
        reveal_strlit("+00:00");
        reveal_strlit("Z");
        if has_suffix(t@, "+00:00"@) {
            replaced_ends_with_replacement(t@, "+00:00"@, "Z"@);
            let z = zulu(t@);
            assert(z.subrange(z.len() - 1, z.len() as int)[0] == z.last());
        }
    }
    replace_all(t, "+00:00", "Z")
}

/// The time text of a record: its source time if there is one that can be
/// written, else `now_micros`; both in microseconds since the Unix epoch.
pub fn timestamp_text(source_micros: Option<i64>, now_micros: i64) -> (r: String)
    ensures
        r@ == stamp_of(source_micros, now_micros),
        r@.len() > 0 ==> r@.last() == 'Z',
{
    let own = match source_micros {
        Some(t) => rfc3339_text(t),
        None => None,
    };
    match own {
        Some(t) => zulu_form(t.as_str()),
        None => match rfc3339_text(now_micros) {
            Some(t) => zulu_form(t.as_str()),
            None => String::new(),
        },
    }
}

/// The document for a record, given the time text to stamp it with.
pub fn assemble(fields: &Vec<(String, String)>, cursor: &str, stamp: &str) -> (r: Document)
    ensures
        r@ == document_of(pairs_view(fields@), cursor@, stamp@),
{
    let mut doc = Document::new();
    let ghost fv = pairs_view(fields@);
    assert(fv.subrange(0, 0) =~= Seq::<(Seq<char>, Seq<char>)>::empty());
    let mut i: usize = 0;
    while i < fields.len()
        invariant
            i <= fields@.len(),
            fv == pairs_view(fields@),
            doc@ == put_fields(Seq::empty(), fv.subrange(0, i as int)),
        decreases fields.len() - i,
    {
        let key = normalize_key(fields[i].0.as_str());
        let value = fields[i].1.clone();
        proof {
            let s = fv.subrange(0, i + 1);
            assert(s.drop_last() =~= fv.subrange(0, i as int));
            assert(s.last() == fv[i as int]);
        }
        doc.insert(key, value);
        i = i + 1;
    }
    assert(fv.subrange(0, i as int) =~= fv);
    doc.insert(String::from_str("@timestamp"), String::from_str(stamp));
    doc.insert(String::from_str("source.timestamp"), String::from_str(stamp));
    doc.insert(String::from_str("source.cursor"), String::from_str(cursor));
    doc
}

/// Turns a record into the document that is delivered for it: the time
/// members, the cursor member, and every field under its normalized key.
/// The record's own time is used where the source gave one, else `now_micros`.
pub fn transform(
    fields: &Vec<(String, String)>,
    cursor: &str,
    source_micros: Option<i64>,
    now_micros: i64,
) -> (r: Document)
    ensures
        r@ == document_of(pairs_view(fields@), cursor@, stamp_of(source_micros, now_micros)),
{
    let stamp = timestamp_text(source_micros, now_micros);
    assemble(fields, cursor, stamp.as_str())
}

/// The wire form of a document: its compact JSON text and one newline,
/// the only newline in the line.
pub fn encode_line(doc: &Document) -> (r: String)
    ensures
        r@ == json_text_of(doc@).push('\n'),
        !json_text_of(doc@).contains('\n'),
{
    let mut line = json_text(doc);
    crate::text::push_char(&mut line, '\n');
    line
}

} // verus!
