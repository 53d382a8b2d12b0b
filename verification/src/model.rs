//! What a schema declaration expands to: the record type's name, its field
//! list, its required fields, the name of its vector converter, and one
//! accessor per column with the conversion the accessor applies.

use vstd::prelude::*;
use crate::parse::{
    Schema, SchemaV, Column, ColumnV, Constraint, ConstraintV, LitValue, LitValueV, ParseError, schema_of,
    columns_view, constraints_view,
};
use crate::shape::{Conversion, ConversionV, conversion_of, classify};
use crate::text::{eq_lit, join, lowercase, lowercase_of, texts};
use crate::token::Token;

verus! {

/// An accessor, as text.
pub struct AccessorV {
    pub field: Seq<char>,
    pub value_fn: Seq<char>,
    pub ty: Seq<Token>,
    pub conversion: ConversionV,
}

/// The expansion of a schema, as text.
pub struct ModelV {
    pub name: Seq<char>,
    pub fields: Seq<Seq<char>>,
    pub required: Seq<Seq<char>>,
    pub to_vec_fn: Seq<char>,
    pub accessors: Seq<AccessorV>,
}

/// The two accessors of a column: `<field>_value` gives the stored JSON value
/// (null when there is none), `<field>` converts it into the column's type.
#[derive(Debug)]
pub struct Accessor {
    pub field: String,
    pub value_fn: String,
    pub ty: Vec<Token>,
    pub conversion: Conversion,
}

/// What a schema declaration expands to.
#[derive(Debug)]
pub struct Model {
    /// The record type's name, also the table's name.
    pub name: String,
    /// The names of the columns, in order.
    pub fields: Vec<String>,
    /// The names of the columns marked `require: true`, in order.
    pub required: Vec<String>,
    /// The name of the function that converts a vector of JSON values.
    pub to_vec_fn: String,
    /// One accessor per column, in order.
    pub accessors: Vec<Accessor>,
}

/// Why a declaration does not expand.
#[derive(Debug)]
pub enum DeriveError {
    /// It is not a schema declaration.
    Parse(ParseError),
    /// The type of this column (by position) has a shape no accessor handles.
    Unsupported { column: usize },
}

impl View for Accessor {
    type V = AccessorV;

    open spec fn view(&self) -> AccessorV {
        AccessorV {
            field: self.field@,
            value_fn: self.value_fn@,
            ty: self.ty@,
            conversion: self.conversion@,
        }
    }
}

impl View for Model {
    type V = ModelV;

    open spec fn view(&self) -> ModelV {
        ModelV {
            name: self.name@,
            fields: texts(self.fields@),
            required: texts(self.required@),
            to_vec_fn: self.to_vec_fn@,
            accessors: self.accessors@.map_values(|a: Accessor| a@),
        }
    }
}

/// The key of the constraint that marks a column as required.
pub open spec fn require_key() -> Seq<char> {
    seq!['r', 'e', 'q', 'u', 'i', 'r', 'e']
}

/// The suffix of the accessor that gives the stored value.
pub open spec fn value_suffix() -> Seq<char> {
    seq!['_', 'v', 'a', 'l', 'u', 'e']
}

/// The prefix of the vector converter's name.
pub open spec fn to_vec_prefix() -> Seq<char> {
    seq!['t', 'o', '_', 'v', 'e', 'c', '_']
}

/// How many of the constraints are `require: true`.
pub open spec fn require_count(cs: Seq<ConstraintV>) -> nat
    decreases cs.len(),
{
    if cs.len() == 0 {
        0
    } else {
        require_count(cs.drop_last()) + if cs.last().key == require_key() && cs.last().value
            == LitValueV::Bool(true) {
            1nat
        } else {
            0nat
        }
    }
}

/// The names of the columns, in order.
pub open spec fn fields_of(cols: Seq<ColumnV>) -> Seq<Seq<char>> {
    cols.map_values(|c: ColumnV| c.name)
}

/// The required fields: each column's name, once for each of its
/// `require: true` constraints, in order.
pub open spec fn required_of(cols: Seq<ColumnV>) -> Seq<Seq<char>>
    decreases cols.len(),
{
    if cols.len() == 0 {
        seq![]
    } else {
        required_of(cols.drop_last()) + Seq::new(
            require_count(cols.last().constraints),
            |_i: int| cols.last().name,
        )
    }
}

/// Every column's type has a supported shape.
pub open spec fn supported(s: SchemaV) -> bool {
    forall|i: int| 0 <= i < s.columns.len() ==> #[trigger] conversion_of(s.columns[i].kind) is Some
}

/// The first column whose type has no supported shape is the one at `i`.
pub open spec fn first_unsupported(s: SchemaV, i: int) -> bool {
    &&& 0 <= i < s.columns.len()
    &&& conversion_of(s.columns[i].kind) is None
    &&& forall|j: int| 0 <= j < i ==> #[trigger] conversion_of(s.columns[j].kind) is Some
}

/// The accessor of a column.
pub open spec fn accessor_of(c: ColumnV) -> AccessorV {
    AccessorV {
        field: c.name,
        value_fn: c.name + value_suffix(),
        ty: c.ty,
        conversion: conversion_of(c.kind).unwrap(),
    }
}

/// What a schema expands to, given the lower-case text of its name.
pub open spec fn model_of(s: SchemaV, lower_name: Seq<char>) -> ModelV {
    ModelV {
        name: s.name,
        fields: fields_of(s.columns),
        required: required_of(s.columns),
        to_vec_fn: to_vec_prefix() + lower_name,
        accessors: s.columns.map_values(|c: ColumnV| accessor_of(c)),
    }
}

/// How many of the constraints are `require: true`.
fn count_required(cs: &Vec<Constraint>) -> (r: usize)
    ensures
        r == require_count(constraints_view(cs@)),
{
    let n = cs.len();
    let mut i: usize = 0;
    let mut count: usize = 0;
    proof {
        reveal_strlit("require");
        assert("require"@ =~= require_key());
    }
    while i < n
        invariant
            n == cs@.len(),
            i <= n,
            count <= i,
            "require"@ == require_key(),
            count == require_count(constraints_view(cs@.subrange(0, i as int))),
        decreases n - i,
    {
        let yes = match &cs[i].value {
            LitValue::Bool(b) => *b,
            LitValue::Other(_) => false,
        };
        let hit = eq_lit(&cs[i].key, "require") && yes;
        proof {
            assert(constraints_view(cs@.subrange(0, i + 1)).drop_last() =~= constraints_view(
                cs@.subrange(0, i as int),
            ));
        }
        if hit {
            count = count + 1;
        }
        i = i + 1;
    }
    proof {
        assert(cs@.subrange(0, n as int) =~= cs@);
    }
    count
}

impl Schema {
    /// The position of the first column whose type has no supported shape.
    pub fn first_unsupported(&self) -> (r: Option<usize>)
        ensures
            match r {
                Some(i) => first_unsupported(self@, i as int),
                None => supported(self@),
            },
    {
        let cols = self.columns();
        let n = cols.len();
        let mut i: usize = 0;
        while i < n
            invariant
                n == cols@.len(),
                i <= n,
                columns_view(cols@) == self@.columns,
                forall|j: int| 0 <= j < i ==> #[trigger] conversion_of(self@.columns[j].kind) is Some,
            decreases n - i,
        {
            match classify(&cols[i].kind) {
                None => {
                    return Some(i);
                },
                Some(_) => {},
            }
            i = i + 1;
        }
        None
    }
}

/// The accessor of a column whose type has a supported shape.
fn accessor(c: &Column) -> (r: Accessor)
    requires
        conversion_of(c@.kind) is Some,
    ensures
        r@ == accessor_of(c@),
{
    let conversion = match classify(&c.kind) {
        Some(conversion) => conversion,
        None => Conversion::Fallback,
    };
    let value_fn = join(&c.name, "_value");
    proof {
        reveal_strlit("_value");
        assert("_value"@ =~= value_suffix());
    }
    let mut ty: Vec<Token> = Vec::new();
    let n = c.ty.len();
    let mut k: usize = 0;
    while k < n
        invariant
            n == c.ty@.len(),
            k <= n,
            ty@ == c.ty@.subrange(0, k as int),
        decreases n - k,
    {
        ty.push(c.ty[k].duplicate());
        proof {
            assert(ty@ =~= c.ty@.subrange(0, k + 1));
        }
        k = k + 1;
    }
    proof {
        assert(ty@ =~= c.ty@);
    }
    Accessor { field: c.name.clone(), value_fn, ty, conversion }
}

/// What a schema whose column types all have supported shapes expands to,
/// given the lower-case text of its name.
pub fn plan(schema: &Schema, lower_name: &String) -> (m: Model)
    requires
        supported(schema@),
    ensures
        m@ == model_of(schema@, lower_name@),
{
    let cols = schema.columns();
    let n = cols.len();
    let ghost sv = schema@;
    let ghost cv = sv.columns;

    let mut fields: Vec<String> = Vec::new();
    let mut required: Vec<String> = Vec::new();
    let mut accessors: Vec<Accessor> = Vec::new();
    let mut i: usize = 0;
    while i < n
        invariant
            n == cols@.len(),
            i <= n,
            columns_view(cols@) == cv,
            cv == sv.columns,
            supported(sv),
            fields@.len() == i,
            accessors@.len() == i,
            texts(fields@) == fields_of(cv.subrange(0, i as int)),
            texts(required@) == required_of(cv.subrange(0, i as int)),
            accessors@.map_values(|a: Accessor| a@) == cv.subrange(0, i as int).map_values(
                |c: ColumnV| accessor_of(c),
            ),
        decreases n - i,
    {
        let col = &cols[i];
        let ghost pre = cv.subrange(0, i as int);
        let ghost post = cv.subrange(0, i + 1);
        proof {
            assert(post.drop_last() =~= pre);
            assert(post.last() == col@);
            assert(conversion_of(cv[i as int].kind) is Some);
        }
        let ghost f_before = fields@;
        fields.push(col.name.clone());
        assert(fields@.len() == i + 1);
        proof {
            assert forall|j: int| 0 <= j < i + 1 implies #[trigger] texts(fields@)[j] == fields_of(
                post,
            )[j] by {
                if j < i {
                    assert(texts(f_before)[j] == fields_of(pre)[j]);
                    assert(pre[j] == post[j]);
                    assert(fields@[j] == f_before[j]);
                } else {
                    assert(fields@[j]@ == col.name@);
                    assert(cv[j] == cols@[j]@);
                }
            }
            assert(texts(fields@) =~= fields_of(post));
        }
        let times = count_required(&col.constraints);
        let ghost r_before = required@;
        let mut t: usize = 0;
        while t < times
            invariant
                t <= times,
                required@.len() == r_before.len() + t,
                forall|q: int| 0 <= q < r_before.len() ==> required@[q] == r_before[q],
                forall|q: int| r_before.len() <= q < required@.len() ==> #[trigger] required@[q]@
                    == col.name@,
            decreases times - t,
        {
            required.push(col.name.clone());
            t = t + 1;
        }
        proof {
            assert(texts(required@) =~= required_of(pre) + Seq::new(
                require_count(post.last().constraints),
                |_i: int| post.last().name,
            ));
        }
        let ghost a_before = accessors@;
        accessors.push(accessor(col));
        proof {
            let am = accessors@.map_values(|a: Accessor| a@);
            let pm = post.map_values(|c: ColumnV| accessor_of(c));
            let bm = a_before.map_values(|a: Accessor| a@);
            let qm = pre.map_values(|c: ColumnV| accessor_of(c));
            assert forall|j: int| 0 <= j < i + 1 implies #[trigger] am[j] == pm[j] by {
                if j < i {
                    assert(bm[j] == qm[j]);
                    assert(pre[j] == post[j]);
                    assert(accessors@[j] == a_before[j]);
                }
            }
            assert(accessors@.map_values(|a: Accessor| a@) =~= post.map_values(
                |c: ColumnV| accessor_of(c),
            ));
        }
        i = i + 1;
    }
    proof {
        assert(cv.subrange(0, n as int) =~= cv);
    }
    let prefix = String::from_str("to_vec_");
    proof {
        reveal_strlit("to_vec_");
        assert(prefix@ =~= to_vec_prefix());
    }
    let to_vec_fn = join(&prefix, lower_name.as_str());
    Model { name: schema.name().clone(), fields, required, to_vec_fn, accessors }
}

/// Expands a schema declaration: reads it, checks that every column type has
/// a supported shape, and plans the expansion, with the vector converter
/// named after the lower-case name of the schema.
pub fn derive(toks: &Vec<Token>) -> (r: Result<Model, DeriveError>)
    requires
        toks@.len() <= usize::MAX - 4,
    ensures
        match r {
            Ok(m) => schema_of(toks@) matches Ok(s) && supported(s) && m@ == model_of(
                s,
                lowercase_of(s.name),
            ),
            Err(DeriveError::Parse(p)) => schema_of(toks@) == Err::<SchemaV, int>(p.at as int),
            Err(DeriveError::Unsupported { column }) => schema_of(toks@) matches Ok(s)
                && first_unsupported(s, column as int),
        },
{
    let schema = match Schema::parse(toks) {
        Ok(s) => s,
        Err(p) => {
            return Err(DeriveError::Parse(p));
        },
    };
    match schema.first_unsupported() {
        Some(column) => {
            return Err(DeriveError::Unsupported { column });
        },
        None => {},
    }
    let lower = lowercase(schema.name());
    Ok(plan(&schema, &lower))
}

/// Every required field is one of the fields.
pub proof fn law_required_are_fields(cols: Seq<ColumnV>)
    ensures
        forall|i: int|
            0 <= i < required_of(cols).len() ==> fields_of(cols).contains(
                #[trigger] required_of(cols)[i],
            ),
    decreases cols.len(),
{
    if cols.len() > 0 {
        let pre = cols.drop_last();
        law_required_are_fields(pre);
        assert forall|i: int|
            0 <= i < required_of(cols).len() implies fields_of(cols).contains(
            #[trigger] required_of(cols)[i],
        ) by {
            if i < required_of(pre).len() {
                let x = required_of(pre)[i];
                assert(required_of(cols)[i] == x);
                let j = choose|j: int| 0 <= j < fields_of(pre).len() && fields_of(pre)[j] == x;
                assert(fields_of(cols)[j] == x);
            } else {
                assert(required_of(cols)[i] == cols.last().name);
                assert(fields_of(cols)[cols.len() - 1] == cols.last().name);
            }
        }
    }
}

/// A column with a `require: true` constraint is among the required fields,
/// and a column without one is not (unless another column has its name).
pub proof fn law_required_iff_marked(cols: Seq<ColumnV>, i: int)
    requires
        0 <= i < cols.len(),
    ensures
        require_count(cols[i].constraints) > 0 ==> required_of(cols).contains(cols[i].name),
        (forall|j: int| 0 <= j < cols.len() && j != i ==> #[trigger] cols[j].name != cols[i].name)
            ==> (required_of(cols).contains(cols[i].name) ==> require_count(cols[i].constraints)
            > 0),
    decreases cols.len(),
{
    let pre = cols.drop_last();
    let last = cols.len() - 1;
    let tail = Seq::new(require_count(cols.last().constraints), |_i: int| cols.last().name);
    assert(required_of(cols) == required_of(pre) + tail);
    if i < last {
        assert(pre[i] == cols[i]);
        law_required_iff_marked(pre, i);
        if require_count(cols[i].constraints) > 0 {
            let k = choose|k: int| 0 <= k < required_of(pre).len() && required_of(pre)[k] == cols[i].name;
            assert(required_of(cols)[k] == cols[i].name);
        }
        if (forall|j: int| 0 <= j < cols.len() && j != i ==> #[trigger] cols[j].name != cols[i].name)
            && required_of(cols).contains(cols[i].name) {
            let k = choose|k: int| 0 <= k < required_of(cols).len() && required_of(cols)[k] == cols[i].name;
            if k >= required_of(pre).len() {
                assert(required_of(cols)[k] == cols[last].name);
                assert(cols[last].name != cols[i].name);
            } else {
                assert(required_of(pre)[k] == cols[i].name);
                assert forall|j: int| 0 <= j < pre.len() && j != i implies #[trigger] pre[j].name
                    != pre[i].name by {
                    assert(pre[j] == cols[j]);
                }
            }
        }
    } else {
        if require_count(cols[i].constraints) > 0 {
            assert(required_of(cols)[required_of(pre).len() as int] == cols[i].name);
        }
        if (forall|j: int| 0 <= j < cols.len() && j != i ==> #[trigger] cols[j].name != cols[i].name)
            && required_of(cols).contains(cols[i].name) && require_count(cols[i].constraints) == 0 {
            let k = choose|k: int| 0 <= k < required_of(cols).len() && required_of(cols)[k] == cols[i].name;
            assert(tail.len() == 0);
            assert(required_of(pre)[k] == cols[i].name);
            law_required_are_fields(pre);
            let j = choose|j: int| 0 <= j < fields_of(pre).len() && fields_of(pre)[j] == cols[i].name;
            assert(cols[j].name == cols[i].name);
        }
    }
}

/// A schema expands to a record of its own name, with its column names as
/// the fields in order, a vector converter named `to_vec_` followed by the
/// lower-case name, and for each column, in order, the accessor named after
/// the column, the value accessor named after the column followed by
/// `_value`, the column's type, and the conversion of its shape.
pub proof fn law_model_parts(s: SchemaV, lower_name: Seq<char>)
    ensures
        ({
            let m = model_of(s, lower_name);
            &&& m.name == s.name
            &&& m.to_vec_fn == seq!['t', 'o', '_', 'v', 'e', 'c', '_'] + lower_name
            &&& m.fields.len() == s.columns.len()
            &&& m.accessors.len() == s.columns.len()
            &&& forall|i: int|
                0 <= i < s.columns.len() ==> {
                    &&& #[trigger] m.fields[i] == s.columns[i].name
                    &&& m.accessors[i].field == s.columns[i].name
                    &&& m.accessors[i].value_fn == s.columns[i].name + seq![
                        '_',
                        'v',
                        'a',
                        'l',
                        'u',
                        'e',
                    ]
                    &&& m.accessors[i].ty == s.columns[i].ty
                    &&& m.accessors[i].conversion == conversion_of(s.columns[i].kind).unwrap()
                }
        }),
{
}

/// A column is required as many times as it has constraints `require: true`;
/// other keys and values do not count.
pub proof fn law_require_counts_require_true(cs: Seq<ConstraintV>)
    ensures
        require_count(cs) == cs.filter(
            |c: ConstraintV|
                c.key == seq!['r', 'e', 'q', 'u', 'i', 'r', 'e'] && c.value == LitValueV::Bool(
                    true,
                ),
        ).len(),
    decreases cs.len(),
{
    let f = |c: ConstraintV|
        c.key == seq!['r', 'e', 'q', 'u', 'i', 'r', 'e'] && c.value == LitValueV::Bool(true);
    if cs.len() > 0 {
        law_require_counts_require_true(cs.drop_last());
        assert(cs =~= cs.drop_last().push(cs.last()));
        cs.drop_last().lemma_filter_len_push(f, cs.last());
    } else {
        cs.lemma_filter_len(f);
    }
}

} // verus!
