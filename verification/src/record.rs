//! The run-time behaviour of a record that a schema declares: the stored
//! data, the changes cast onto it, and the errors its validation found.
//!
//! Values are held as their JSON text, and compared as JSON values
//! (see `json`).

use vstd::prelude::*;
use crate::table::{Table, map_of, keys_distinct, lemma_map_of};
use crate::text::texts;
use crate::json::{same, json_equal};

verus! {

/// What a record holds: its stored data, its pending changes and the errors
/// of its last validation.
pub struct RecordView {
    pub data: Map<Seq<char>, Seq<char>>,
    pub changeset: Map<Seq<char>, Seq<char>>,
    pub errors: Map<Seq<char>, Seq<char>>,
}

/// The key under which a row keeps its identifier.
pub open spec fn id_key() -> Seq<char> {
    seq!['i', 'd']
}

/// The JSON text of the absent value.
pub open spec fn null_text() -> Seq<char> {
    seq!['n', 'u', 'l', 'l']
}

/// The message recorded for a required field that has no value.
pub open spec fn require_text() -> Seq<char> {
    seq!['R', 'e', 'q', 'u', 'i', 'r', 'e']
}

/// The changes that casting `incoming` onto a record with `data` records:
/// each incoming key that is one of the `fields` and whose value differs, as
/// a JSON value, from the stored one (or is not stored), with its incoming
/// value.
pub open spec fn cast_changes(
    data: Map<Seq<char>, Seq<char>>,
    fields: Seq<Seq<char>>,
    incoming: Map<Seq<char>, Seq<char>>,
) -> Map<Seq<char>, Seq<char>> {
    Map::new(
        |k: Seq<char>|
            incoming.contains_key(k) && fields.contains(k) && !(data.contains_key(k)
                && json_equal(data[k], incoming[k])),
        |k: Seq<char>| incoming[k],
    )
}

/// The record after casting `incoming` onto `r`.
pub open spec fn cast_spec(
    r: RecordView,
    fields: Seq<Seq<char>>,
    incoming: Map<Seq<char>, Seq<char>>,
) -> RecordView {
    RecordView {
        data: r.data,
        changeset: r.changeset.union_prefer_right(cast_changes(r.data, fields, incoming)),
        errors: r.errors,
    }
}

/// The errors of validating `r` against the required fields: each required
/// field that is neither in the changes nor in the data, with "Require".
pub open spec fn missing_required(r: RecordView, required: Seq<Seq<char>>) -> Map<
    Seq<char>,
    Seq<char>,
> {
    Map::new(
        |k: Seq<char>|
            required.contains(k) && !r.data.contains_key(k) && !r.changeset.contains_key(k),
        |k: Seq<char>| require_text(),
    )
}

/// The record after validation: its errors replaced by the missing fields.
pub open spec fn validate_spec(r: RecordView, required: Seq<Seq<char>>) -> RecordView {
    RecordView { data: r.data, changeset: r.changeset, errors: missing_required(r, required) }
}

/// A record is valid when it holds no error.
pub open spec fn valid_spec(r: RecordView) -> bool {
    r.errors == Map::<Seq<char>, Seq<char>>::empty()
}

/// What is written back: the data without its identifier, overlaid with the
/// changes.
pub open spec fn content_spec(r: RecordView) -> Map<Seq<char>, Seq<char>> {
    r.data.remove(id_key()).union_prefer_right(r.changeset)
}

/// The value stored under `key`, or the JSON text of null.
pub open spec fn value_spec(r: RecordView, key: Seq<char>) -> Seq<char> {
    if r.data.contains_key(key) {
        r.data[key]
    } else {
        null_text()
    }
}

/// The members of a JSON value that is an object, or `None` for any other
/// value.
pub open spec fn object_view(object: Option<Table>) -> Option<Map<Seq<char>, Seq<char>>> {
    match object {
        Some(t) => Some(t@),
        None => None,
    }
}

/// The record read from a JSON value with the members `object`: those
/// members as its data (none when the value is not an object), no change and
/// no error.
pub open spec fn read_spec(object: Option<Map<Seq<char>, Seq<char>>>) -> RecordView {
    RecordView {
        data: match object {
            Some(m) => m,
            None => Map::empty(),
        },
        changeset: Map::empty(),
        errors: Map::empty(),
    }
}

/// A record of a schema: stored data, pending changes, validation errors.
pub struct Record {
    data: Table,
    changeset: Table,
    errors: Table,
}

impl View for Record {
    type V = RecordView;

    closed spec fn view(&self) -> RecordView {
        RecordView { data: self.data@, changeset: self.changeset@, errors: self.errors@ }
    }
}

/// Whether `key` is one of `list`.
pub fn list_contains(list: &Vec<String>, key: &String) -> (r: bool)
    ensures
        r == texts(list@).contains(key@),
{
    let n = list.len();
    let mut i: usize = 0;
    while i < n
        invariant
            n == list@.len(),
            i <= n,
            forall|j: int| 0 <= j < i ==> list@[j]@ != key@,
        decreases n - i,
    {
        if list[i] == *key {
            assert(texts(list@)[i as int] == key@);
            return true;
        }
        i = i + 1;
    }
    proof {
        if texts(list@).contains(key@) {
            let j = choose|j: int| 0 <= j < texts(list@).len() && texts(list@)[j] == key@;
            assert(list@[j]@ == key@);
        }
    }
    false
}

impl Record {
    /// A record with no data, no change and no error.
    pub fn new() -> (r: Record)
        ensures
            r@.data == Map::<Seq<char>, Seq<char>>::empty(),
            r@.changeset == Map::<Seq<char>, Seq<char>>::empty(),
            r@.errors == Map::<Seq<char>, Seq<char>>::empty(),
    {
        Record { data: Table::new(), changeset: Table::new(), errors: Table::new() }
    }

    /// The record read from a JSON value: the members of an object become its
    /// data (`object` is `None` for any other value, which gives no data).
    pub fn from_object(object: Option<Table>) -> (r: Record)
        ensures
            r@.data == match object {
                Some(t) => t@,
                None => Map::<Seq<char>, Seq<char>>::empty(),
            },
            r@.changeset == Map::<Seq<char>, Seq<char>>::empty(),
            r@.errors == Map::<Seq<char>, Seq<char>>::empty(),
    {
        let data = match object {
            Some(t) => t,
            None => Table::new(),
        };
        Record { data, changeset: Table::new(), errors: Table::new() }
    }

    /// The records read from a list of JSON values, one for each, in order.
    pub fn from_objects(objects: &Vec<Option<Table>>) -> (r: Vec<Record>)
        ensures
            r@.len() == objects@.len(),
            forall|i: int|
                0 <= i < r@.len() ==> (#[trigger] r@[i])@ == read_spec(object_view(objects@[i])),
            forall|i: int|
                0 <= i < r@.len() ==> (#[trigger] r@[i])@.data == match objects@[i] {
                    Some(t) => t@,
                    None => Map::<Seq<char>, Seq<char>>::empty(),
                } && r@[i]@.changeset == Map::<Seq<char>, Seq<char>>::empty()
                    && r@[i]@.errors == Map::<Seq<char>, Seq<char>>::empty(),
    {
        proof {
            assert forall|o: Option<Table>| #[trigger] read_spec(object_view(o)).data == match o {
                Some(t) => t@,
                None => Map::<Seq<char>, Seq<char>>::empty(),
            } by {
                match o {
                    Some(t) => law_read_keeps_every_member(t@),
                    None => law_read_keeps_every_member(Map::empty()),
                }
            }
        }
        let n = objects.len();
        let mut out: Vec<Record> = Vec::new();
        let mut i: usize = 0;
        while i < n
            invariant
                n == objects@.len(),
                i <= n,
                out@.len() == i,
                forall|j: int|
                    0 <= j < i ==> (#[trigger] out@[j])@ == read_spec(object_view(objects@[j])),
            decreases n - i,
        {
            let object = match &objects[i] {
                Some(t) => Some(t.duplicate()),
                None => None,
            };
            let r = Record::from_object(object);
            proof {
                assert(r@ == read_spec(object_view(objects@[i as int])));
            }
            out.push(r);
            i = i + 1;
        }
        out
    }

    /// A record made of its three maps.
    pub fn from_parts(data: Table, changeset: Table, errors: Table) -> (r: Record)
        ensures
            r@ == (RecordView { data: data@, changeset: changeset@, errors: errors@ }),
    {
        Record { data, changeset, errors }
    }

    /// The stored data.
    pub fn data(&self) -> (r: Table)
        ensures
            r@ == self@.data,
    {
        self.data.duplicate()
    }

    /// The pending changes.
    pub fn changeset(&self) -> (r: Table)
        ensures
            r@ == self@.changeset,
    {
        self.changeset.duplicate()
    }

    /// The errors of the last validation.
    pub fn errors(&self) -> (r: Table)
        ensures
            r@ == self@.errors,
    {
        self.errors.duplicate()
    }

    /// The stored value of a field, or null when the data has none.
    pub fn value_of(&self, key: &String) -> (r: String)
        ensures
            r@ == value_spec(self@, key@),
            self@.data.contains_key(key@) ==> r@ == self@.data[key@],
            !self@.data.contains_key(key@) ==> r@ == seq!['n', 'u', 'l', 'l'],
    {
        proof {
            law_value_reads_the_data(self@, key@);
        }
        match self.data.get(key) {
            Some(v) => v,
            None => {
                let r = String::from_str("null");
                proof {
                    reveal_strlit("null");
                    assert(r@ =~= null_text());
                }
                r
            },
        }
    }

    /// Casts `incoming` onto the record: every incoming key that is one of the
    /// schema's `fields` and whose value differs from the stored one is
    /// recorded as a change; the data and the errors stay as they are.
    pub fn cast(&self, fields: &Vec<String>, incoming: &Table) -> (r: Record)
        ensures
            r@ == cast_spec(self@, texts(fields@), incoming@),
            r@.data == self@.data,
            r@.errors == self@.errors,
            forall|k: Seq<char>|
                !incoming@.contains_key(k) ==> (#[trigger] r@.changeset.contains_key(k)
                    == self@.changeset.contains_key(k) && (self@.changeset.contains_key(k)
                    ==> r@.changeset[k] == self@.changeset[k])),
    {
        proof {
            assert forall|k: Seq<char>| !incoming@.contains_key(k) implies (#[trigger] cast_spec(
                self@,
                texts(fields@),
                incoming@,
            ).changeset.contains_key(k) == self@.changeset.contains_key(k) && (
            self@.changeset.contains_key(k) ==> cast_spec(
                self@,
                texts(fields@),
                incoming@,
            ).changeset[k] == self@.changeset[k])) by {
                law_cast_changes_pointwise(self@, texts(fields@), incoming@, k);
            }
        }
        let entries = incoming.entries();
        let mut changes = self.changeset.duplicate();
        let n = entries.len();
        let ghost f = texts(fields@);
        let ghost data = self.data@;
        let mut i: usize = 0;
        while i < n
            invariant
                n == entries@.len(),
                i <= n,
                keys_distinct(entries@),
                map_of(entries@) == incoming@,
                data == self.data@,
                f == texts(fields@),
                changes@ == self.changeset@.union_prefer_right(
                    cast_changes(data, f, map_of(entries@.subrange(0, i as int))),
                ),
            decreases n - i,
        {
            let ghost pre = entries@.subrange(0, i as int);
            let ghost post = entries@.subrange(0, i + 1);
            proof {
                assert(post.drop_last() =~= pre);
                assert(keys_distinct(post));
                assert(keys_distinct(pre));
                lemma_map_of(pre);
                lemma_map_of(entries@);
            }
            let key = &entries[i].0;
            let value = &entries[i].1;
            let wanted = list_contains(fields, key);
            let differs = match self.data.get(key) {
                Some(old) => !same(&old, value),
                None => true,
            };
            proof {
                assert(!map_of(pre).contains_key(key@)) by {
                    if map_of(pre).contains_key(key@) {
                        let j = choose|j: int| 0 <= j < pre.len() && pre[j].0@ == key@;
                        assert(entries@[j].0@ == entries@[i as int].0@);
                    }
                }
            }
            if wanted && differs {
                changes.insert(key.clone(), value.clone());
                proof {
                    assert(changes@ =~= self.changeset@.union_prefer_right(
                        cast_changes(data, f, map_of(post)),
                    ));
                }
            } else {
                proof {
                    assert(changes@ =~= self.changeset@.union_prefer_right(
                        cast_changes(data, f, map_of(post)),
                    ));
                }
            }
            i = i + 1;
        }
        proof {
            assert(entries@.subrange(0, n as int) =~= entries@);
        }
        Record { data: self.data.duplicate(), changeset: changes, errors: self.errors.duplicate() }
    }

    /// Validates the record: its errors become exactly the required fields
    /// that neither the changes nor the data hold, each with "Require".
    pub fn validate(&self, required: &Vec<String>) -> (r: Record)
        ensures
            r@ == validate_spec(self@, texts(required@)),
    {
        let mut errors = Table::new();
        let n = required.len();
        let ghost req = texts(required@);
        let mut i: usize = 0;
        while i < n
            invariant
                n == required@.len(),
                i <= n,
                req == texts(required@),
                errors@ == missing_required(self@, req.subrange(0, i as int)),
            decreases n - i,
        {
            let field = &required[i];
            if !self.changeset.contains_key(field) && !self.data.contains_key(field) {
                let msg = String::from_str("Require");
                proof {
                    reveal_strlit("Require");
                    assert(msg@ =~= require_text());
                }
                errors.insert(field.clone(), msg);
            }
            proof {
                let a = req.subrange(0, i as int);
                let b = req.subrange(0, i + 1);
                assert(b =~= a.push(field@));
                assert forall|k: Seq<char>| b.contains(k) <==> (a.contains(k) || k == field@) by {
                    if b.contains(k) {
                        let j = choose|j: int| 0 <= j < b.len() && b[j] == k;
                        if j < i {
                            assert(a[j] == k);
                        }
                    }
                    if a.contains(k) {
                        let j = choose|j: int| 0 <= j < a.len() && a[j] == k;
                        assert(b[j] == k);
                    }
                    if k == field@ {
                        assert(b[i as int] == k);
                    }
                }
                assert(errors@ =~= missing_required(self@, b));
            }
            i = i + 1;
        }
        proof {
            assert(req.subrange(0, n as int) =~= req);
        }
        Record { data: self.data.duplicate(), changeset: self.changeset.duplicate(), errors }
    }

    /// Whether the record holds no error.
    pub fn is_valid(&self) -> (r: bool)
        ensures
            r == valid_spec(self@),
    {
        let n = self.errors.len();
        proof {
            if n == 0 {
                vstd::set_lib::lemma_set_empty_equivalency_len(self.errors@.dom());
                assert(self.errors@ =~= Map::<Seq<char>, Seq<char>>::empty());
            } else {
                assert(self.errors@.dom().len() != 0);
            }
        }
        n == 0
    }

    /// What is written back: the data without its `id`, with each change
    /// replacing or adding its field.
    pub fn content(&self) -> (r: Table)
        ensures
            r@ == content_spec(self@),
    {
        let mut out = self.data.duplicate();
        let id = String::from_str("id");
        proof {
            reveal_strlit("id");
            assert(id@ =~= id_key());
        }
        out.remove(&id);
        let entries = self.changeset.entries();
        let n = entries.len();
        let mut i: usize = 0;
        while i < n
            invariant
                n == entries@.len(),
                i <= n,
                keys_distinct(entries@),
                map_of(entries@) == self.changeset@,
                out@ == self.data@.remove(id_key()).union_prefer_right(
                    map_of(entries@.subrange(0, i as int)),
                ),
            decreases n - i,
        {
            let ghost pre = entries@.subrange(0, i as int);
            let ghost post = entries@.subrange(0, i + 1);
            proof {
                assert(post.drop_last() =~= pre);
            }
            out.insert(entries[i].0.clone(), entries[i].1.clone());
            proof {
                assert(out@ =~= self.data@.remove(id_key()).union_prefer_right(map_of(post)));
            }
            i = i + 1;
        }
        proof {
            assert(entries@.subrange(0, n as int) =~= entries@);
        }
        out
    }
}

/// Casting twice with the same fields and values changes nothing more than
/// casting once.
pub proof fn law_cast_idempotent(
    r: RecordView,
    fields: Seq<Seq<char>>,
    incoming: Map<Seq<char>, Seq<char>>,
)
    ensures
        cast_spec(cast_spec(r, fields, incoming), fields, incoming) == cast_spec(
            r,
            fields,
            incoming,
        ),
{
    let once = cast_spec(r, fields, incoming);
    let twice = cast_spec(once, fields, incoming);
    assert(twice.changeset =~= once.changeset);
}

/// Casting records a change only for a field of the schema whose incoming
/// value differs, as a JSON value, from the stored one, with the incoming
/// value, and leaves the data, the errors and every other change as they
/// were.
pub proof fn law_cast_touches_only_fields(
    r: RecordView,
    fields: Seq<Seq<char>>,
    incoming: Map<Seq<char>, Seq<char>>,
    k: Seq<char>,
)
    ensures
        cast_spec(r, fields, incoming).data == r.data,
        cast_spec(r, fields, incoming).errors == r.errors,
        !fields.contains(k) ==> (cast_spec(r, fields, incoming).changeset.contains_key(k)
            == r.changeset.contains_key(k) && (r.changeset.contains_key(k) ==> cast_spec(
            r,
            fields,
            incoming,
        ).changeset[k] == r.changeset[k])),
        fields.contains(k) && incoming.contains_key(k) && !(r.data.contains_key(k)
            && json_equal(r.data[k], incoming[k])) ==> cast_spec(r, fields, incoming).changeset[k]
            == incoming[k],
        r.data.contains_key(k) && incoming.contains_key(k) && json_equal(r.data[k], incoming[k])
            ==> (cast_spec(r, fields, incoming).changeset.contains_key(k)
            == r.changeset.contains_key(k) && (r.changeset.contains_key(k) ==> cast_spec(
            r,
            fields,
            incoming,
        ).changeset[k] == r.changeset[k])),
{
}

/// After validation, a record is valid exactly when every required field is
/// held by its changes or by its data.
pub proof fn law_validate_valid_iff_required_present(r: RecordView, required: Seq<Seq<char>>)
    ensures
        valid_spec(validate_spec(r, required)) <==> (forall|i: int|
            0 <= i < required.len() ==> r.data.contains_key(#[trigger] required[i])
                || r.changeset.contains_key(required[i])),
{
    let v = validate_spec(r, required);
    if valid_spec(v) {
        assert forall|i: int| 0 <= i < required.len() implies r.data.contains_key(
            #[trigger] required[i],
        ) || r.changeset.contains_key(required[i]) by {
            assert(required.contains(required[i]));
            assert(!v.errors.contains_key(required[i]));
        }
    }
    if forall|i: int|
        0 <= i < required.len() ==> r.data.contains_key(#[trigger] required[i])
            || r.changeset.contains_key(required[i]) {
        assert(v.errors =~= Map::<Seq<char>, Seq<char>>::empty());
    }
}

/// Casting never adds a validation error: the fields missing after a cast
/// were missing before it.
pub proof fn law_cast_never_adds_errors(
    r: RecordView,
    fields: Seq<Seq<char>>,
    incoming: Map<Seq<char>, Seq<char>>,
    required: Seq<Seq<char>>,
)
    ensures
        missing_required(cast_spec(r, fields, incoming), required).dom().subset_of(
            missing_required(r, required).dom(),
        ),
{
}

/// The content holds each change, and otherwise the stored value, except
/// for a stored `id`.
pub proof fn law_content_prefers_changes(r: RecordView, k: Seq<char>)
    ensures
        r.changeset.contains_key(k) ==> content_spec(r).contains_key(k) && content_spec(r)[k]
            == r.changeset[k],
        !r.changeset.contains_key(k) && k != id_key() ==> (content_spec(r).contains_key(k)
            == r.data.contains_key(k) && (r.data.contains_key(k) ==> content_spec(r)[k]
            == r.data[k])),
        !r.changeset.contains_key(id_key()) ==> !content_spec(r).contains_key(id_key()),
{
}

/// Casting decides each key on its own. A key holds a change after casting
/// exactly when it held one before, or it comes in, is a field of the schema,
/// and its incoming value is not the same JSON value as the stored one; such a
/// key takes the incoming value, and every other change keeps its value. In
/// particular a pending change whose key does not come in is kept as it was.
pub proof fn law_cast_changes_pointwise(
    r: RecordView,
    fields: Seq<Seq<char>>,
    incoming: Map<Seq<char>, Seq<char>>,
    k: Seq<char>,
)
    ensures
        ({
            let after = cast_spec(r, fields, incoming).changeset;
            let changed = incoming.contains_key(k) && fields.contains(k) && !(r.data.contains_key(
                k,
            ) && json_equal(r.data[k], incoming[k]));
            &&& after.contains_key(k) == (r.changeset.contains_key(k) || changed)
            &&& changed ==> after[k] == incoming[k]
            &&& !changed && r.changeset.contains_key(k) ==> after[k] == r.changeset[k]
            &&& !incoming.contains_key(k) ==> (after.contains_key(k)
                == r.changeset.contains_key(k) && (r.changeset.contains_key(k) ==> after[k]
                == r.changeset[k]))
        }),
{
}

/// What a record gives as a field's stored value depends on its data alone:
/// the stored text when the data holds the field, and `null` when it does
/// not, whatever the pending changes and the errors hold.
pub proof fn law_value_reads_the_data(r: RecordView, key: Seq<char>)
    ensures
        r.data.contains_key(key) ==> value_spec(r, key) == r.data[key],
        !r.data.contains_key(key) ==> value_spec(r, key) == seq!['n', 'u', 'l', 'l'],
        forall|s: RecordView| s.data == r.data ==> #[trigger] value_spec(s, key) == value_spec(r, key),
{
}

/// A record read from a JSON object holds every member of the object as its
/// data, its identifier included, and no change and no error; one read from
/// any other value holds nothing.
pub proof fn law_read_keeps_every_member(m: Map<Seq<char>, Seq<char>>)
    ensures
        read_spec(Some(m)).data == m,
        read_spec(Some(m)).changeset == Map::<Seq<char>, Seq<char>>::empty(),
        read_spec(Some(m)).errors == Map::<Seq<char>, Seq<char>>::empty(),
        read_spec(None).data == Map::<Seq<char>, Seq<char>>::empty(),
        read_spec(None).changeset == Map::<Seq<char>, Seq<char>>::empty(),
        read_spec(None).errors == Map::<Seq<char>, Seq<char>>::empty(),
{
}

/// Validation keeps the data and the changes, and replaces the errors by
/// exactly the required fields that neither the data nor the changes hold,
/// each with the message "Require"; errors from before are dropped.
pub proof fn law_validate_pointwise(r: RecordView, required: Seq<Seq<char>>, k: Seq<char>)
    ensures
        validate_spec(r, required).data == r.data,
        validate_spec(r, required).changeset == r.changeset,
        validate_spec(r, required).errors.contains_key(k) == (required.contains(k)
            && !r.data.contains_key(k) && !r.changeset.contains_key(k)),
        validate_spec(r, required).errors.contains_key(k) ==> validate_spec(r, required).errors[k]
            == seq!['R', 'e', 'q', 'u', 'i', 'r', 'e'],
{
}

/// A record is valid exactly when it holds no error.
pub proof fn law_valid_means_no_error(r: RecordView)
    ensures
        valid_spec(r) <==> (forall|k: Seq<char>| !#[trigger] r.errors.contains_key(k)),
{
    if forall|k: Seq<char>| !#[trigger] r.errors.contains_key(k) {
        assert(r.errors =~= Map::<Seq<char>, Seq<char>>::empty());
    }
}

} // verus!
