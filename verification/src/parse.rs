//! The grammar of a schema declaration:
//!
//! ```text
//! schema     := name '{' columns '}'
//! columns    := (column (',' column)* ','?)?
//! column     := name ':' type ('~' '{' constraints '}')?
//! constraints:= (constraint (',' constraint)* ','?)?
//! constraint := name ':' literal
//! literal    := LITERAL | 'true' | 'false' | '-' NUMBER
//! ```
//!
//! A name is an identifier that is not a keyword. A column's type is a Rust
//! type, read by the grammar of `rtype`: it ends where that type ends, and
//! within a schema the column must then be followed by a comma or by the end
//! of the braces.

use vstd::prelude::*;
use crate::token::{
    Token, Delim, is_punct, ident_is, ident_text, is_number, is_keyword, keyword, punct_is,
    ident_eq, number_is, punct_at, punct_here,
};
use crate::rtype::{TyKind, ty_at, ty_x, progress};
use crate::text::join;

verus! {

/// The value of a constraint: a boolean, or any other literal by its text.
#[derive(Debug)]
pub enum LitValue {
    Bool(bool),
    Other(String),
}

/// The value of a constraint, as text.
pub enum LitValueV {
    Bool(bool),
    Other(Seq<char>),
}

impl View for LitValue {
    type V = LitValueV;

    open spec fn view(&self) -> LitValueV {
        match self {
            LitValue::Bool(b) => LitValueV::Bool(*b),
            LitValue::Other(s) => LitValueV::Other(s@),
        }
    }
}

/// A constraint of a column, as text.
pub struct ConstraintV {
    pub key: Seq<char>,
    pub value: LitValueV,
}

/// A column, as text and tokens.
pub struct ColumnV {
    pub name: Seq<char>,
    pub ty: Seq<Token>,
    pub kind: TyKind,
    pub constraints: Seq<ConstraintV>,
}

/// A schema, as text.
pub struct SchemaV {
    pub name: Seq<char>,
    pub columns: Seq<ColumnV>,
}

/// A constraint of a column: `key: value`.
#[derive(Debug)]
pub struct Constraint {
    pub key: String,
    pub value: LitValue,
}

/// A column: its name, the tokens of its type and what kind of type they
/// form, its constraints.
#[derive(Debug)]
pub struct Column {
    pub name: String,
    pub ty: Vec<Token>,
    pub kind: TyKind,
    pub constraints: Vec<Constraint>,
}

/// A schema: its name and its columns, in order.
#[derive(Debug)]
pub struct Schema {
    pub name: String,
    columns: Vec<Column>,
}

/// Where a declaration stopped being one: the position of the token (or of
/// the end) that does not fit the grammar.
#[derive(Debug, PartialEq, Eq, Structural, Clone, Copy)]
pub struct ParseError {
    pub at: usize,
}

impl View for Constraint {
    type V = ConstraintV;

    open spec fn view(&self) -> ConstraintV {
        ConstraintV { key: self.key@, value: self.value@ }
    }
}

/// The views of a list of constraints.
pub open spec fn constraints_view(v: Seq<Constraint>) -> Seq<ConstraintV> {
    v.map_values(|c: Constraint| c@)
}

impl View for Column {
    type V = ColumnV;

    open spec fn view(&self) -> ColumnV {
        ColumnV {
            name: self.name@,
            ty: self.ty@,
            kind: self.kind,
            constraints: constraints_view(self.constraints@),
        }
    }
}

/// The views of a list of columns.
pub open spec fn columns_view(v: Seq<Column>) -> Seq<ColumnV> {
    v.map_values(|c: Column| c@)
}

impl View for Schema {
    type V = SchemaV;

    closed spec fn view(&self) -> SchemaV {
        SchemaV { name: self.name@, columns: columns_view(self.columns@) }
    }
}

// ---------------------------------------------------------------- the grammar

/// The token at `i` is a name: an identifier that is not a keyword.
pub open spec fn name_at(toks: Seq<Token>, i: int) -> bool {
    0 <= i < toks.len() && toks[i] is Ident && !is_keyword(ident_text(toks[i]))
}

/// The literal at `i`, and the position after it.
pub open spec fn lit_at(toks: Seq<Token>, i: int) -> Result<(LitValueV, int), int> {
    if 0 <= i < toks.len() && toks[i] is Literal {
        Ok((LitValueV::Other(toks[i]->Literal_0@), i + 1))
    } else if 0 <= i < toks.len() && ident_is(toks[i], seq!['t', 'r', 'u', 'e']) {
        Ok((LitValueV::Bool(true), i + 1))
    } else if 0 <= i < toks.len() && ident_is(toks[i], seq!['f', 'a', 'l', 's', 'e']) {
        Ok((LitValueV::Bool(false), i + 1))
    } else if 0 <= i && i + 1 < toks.len() && is_punct(toks[i], '-') && is_number(toks[i + 1]) {
        Ok((LitValueV::Other(seq!['-'] + toks[i + 1]->Literal_0@), i + 2))
    } else {
        Err(i)
    }
}

/// The constraint at `i`, and the position after it.
pub open spec fn constraint_at(toks: Seq<Token>, i: int) -> Result<(ConstraintV, int), int> {
    if !name_at(toks, i) {
        Err(i)
    } else if !punct_at(toks, i + 1, ':') {
        Err(i + 1)
    } else {
        match lit_at(toks, i + 2) {
            Ok((v, j)) => Ok((ConstraintV { key: ident_text(toks[i]), value: v }, j)),
            Err(e) => Err(e),
        }
    }
}

/// The constraints from `i` to the end of their group, and the position of
/// that end.
pub open spec fn constraints_from(toks: Seq<Token>, i: int) -> Result<
    (Seq<ConstraintV>, int),
    int,
>
    decreases toks.len() - i,
{
    if i < 0 || i >= toks.len() {
        Err(i)
    } else if toks[i] is Close {
        Ok((seq![], i))
    } else {
        match constraint_at(toks, i) {
            Err(e) => Err(e),
            Ok((c, j)) => if j >= toks.len() {
                Err(j)
            } else if toks[j] is Close {
                Ok((seq![c], j))
            } else if is_punct(toks[j], ',') {
                match constraints_from(toks, j + 1) {
                    Ok((cs, e)) => Ok((seq![c] + cs, e)),
                    Err(e) => Err(e),
                }
            } else {
                Err(j)
            },
        }
    }
}

/// The column at `i`, and the position after it: its type ends where the
/// Rust type that starts after the colon ends.
pub open spec fn column_at(toks: Seq<Token>, i: int) -> Result<(ColumnV, int), int> {
    if !name_at(toks, i) {
        Err(i)
    } else if !punct_at(toks, i + 1, ':') {
        Err(i + 1)
    } else {
        match progress(ty_at(toks, i + 2, true), i + 2) {
            Err(x) => Err(x),
            Ok((kind, e)) => if punct_at(toks, e, '~') {
                if e + 1 < toks.len() && toks[e + 1] == Token::Open(Delim::Brace) {
                    match constraints_from(toks, e + 2) {
                        Ok((cs, c)) => Ok(
                            (
                                ColumnV {
                                    name: ident_text(toks[i]),
                                    ty: toks.subrange(i + 2, e),
                                    kind,
                                    constraints: cs,
                                },
                                c + 1,
                            ),
                        ),
                        Err(x) => Err(x),
                    }
                } else {
                    Err(e + 1)
                }
            } else {
                Ok(
                    (
                        ColumnV {
                            name: ident_text(toks[i]),
                            ty: toks.subrange(i + 2, e),
                            kind,
                            constraints: seq![],
                        },
                        e,
                    ),
                )
            },
        }
    }
}

/// The columns from `i` to the end of their group, and the position of that
/// end.
pub open spec fn columns_from(toks: Seq<Token>, i: int) -> Result<(Seq<ColumnV>, int), int>
    decreases toks.len() - i,
{
    if i < 0 || i >= toks.len() {
        Err(i)
    } else if toks[i] is Close {
        Ok((seq![], i))
    } else {
        match column_at(toks, i) {
            Err(e) => Err(e),
            Ok((c, j)) => {
                proof {
                    lemma_column_advances(toks, i);
                }
                if j >= toks.len() {
                    Err(j)
                } else if toks[j] is Close {
                    Ok((seq![c], j))
                } else if is_punct(toks[j], ',') {
                    match columns_from(toks, j + 1) {
                        Ok((cs, e)) => Ok((seq![c] + cs, e)),
                        Err(e) => Err(e),
                    }
                } else {
                    Err(j)
                }
            },
        }
    }
}

/// The schema that the whole of `toks` declares, or where it stops being one.
pub open spec fn schema_of(toks: Seq<Token>) -> Result<SchemaV, int> {
    if !name_at(toks, 0) {
        Err(0)
    } else if !(1 < toks.len() && toks[1] == Token::Open(Delim::Brace)) {
        Err(1)
    } else {
        match columns_from(toks, 2) {
            Ok((cols, c)) => if c + 1 == toks.len() {
                Ok(SchemaV { name: ident_text(toks[0]), columns: cols })
            } else {
                Err(c + 1)
            },
            Err(e) => Err(e),
        }
    }
}


// ------------------------------------------------------------- the parser

/// Whether the token at `i` is a name.
fn name_here(toks: &Vec<Token>, i: usize) -> (r: bool)
    ensures
        r == name_at(toks@, i as int),
{
    if i < toks.len() {
        match &toks[i] {
            Token::Ident(x) => !keyword(x),
            _ => false,
        }
    } else {
        false
    }
}

/// Whether the token at `i` ends a group.
fn close_here(toks: &Vec<Token>, i: usize) -> (r: bool)
    requires
        i < toks@.len(),
    ensures
        r == (toks@[i as int] is Close),
{
    match &toks[i] {
        Token::Close(_) => true,
        _ => false,
    }
}

/// The text of the name at `i`.
fn name_text(toks: &Vec<Token>, i: usize) -> (r: String)
    requires
        name_at(toks@, i as int),
    ensures
        r@ == ident_text(toks@[i as int]),
{
    match &toks[i] {
        Token::Ident(x) => x.clone(),
        _ => String::new(),
    }
}

/// The tokens from `s` up to `e`.
fn copy_range(toks: &Vec<Token>, s: usize, e: usize) -> (r: Vec<Token>)
    requires
        s <= e <= toks@.len(),
    ensures
        r@ == toks@.subrange(s as int, e as int),
{
    let mut out: Vec<Token> = Vec::new();
    let mut k = s;
    while k < e
        invariant
            s <= k <= e <= toks@.len(),
            out@ == toks@.subrange(s as int, k as int),
        decreases e - k,
    {
        out.push(toks[k].duplicate());
        proof {
            assert(out@ =~= toks@.subrange(s as int, k + 1));
        }
        k = k + 1;
    }
    out
}

/// The literal at `i`, and the position after it.
fn lit_parse(toks: &Vec<Token>, i: usize) -> (r: Result<(LitValue, usize), usize>)
    requires
        i <= toks@.len(),
    ensures
        match r {
            Ok((v, j)) => lit_at(toks@, i as int) == Ok::<(LitValueV, int), int>((v@, j as int)),
            Err(e) => lit_at(toks@, i as int) == Err::<(LitValueV, int), int>(e as int),
        },
{
    proof {
        reveal_strlit("true");
        reveal_strlit("false");
        reveal_strlit("-");
        assert("true"@ =~= seq!['t', 'r', 'u', 'e']);
        assert("false"@ =~= seq!['f', 'a', 'l', 's', 'e']);
        assert("-"@ =~= seq!['-']);
    }
    let n = toks.len();
    if i < n {
        match &toks[i] {
            Token::Literal(x) => {
                return Ok((LitValue::Other(x.clone()), i + 1));
            },
            _ => {},
        }
        if ident_eq(&toks[i], "true") {
            return Ok((LitValue::Bool(true), i + 1));
        }
        if ident_eq(&toks[i], "false") {
            return Ok((LitValue::Bool(false), i + 1));
        }
        if i + 1 < n && punct_is(&toks[i], '-') && number_is(&toks[i + 1]) {
            match &toks[i + 1] {
                Token::Literal(x) => {
                    let minus = String::from_str("-");
                    return Ok((LitValue::Other(join(&minus, x.as_str())), i + 2));
                },
                _ => {},
            }
        }
    }
    Err(i)
}

impl Constraint {
    /// The constraint at `i` (`key: value`), and the position after it.
    pub fn parse(toks: &Vec<Token>, i: usize) -> (r: Result<(Constraint, usize), usize>)
        requires
            i <= toks@.len(),
        ensures
            match r {
                Ok((c, j)) => constraint_at(toks@, i as int) == Ok::<(ConstraintV, int), int>(
                    (c@, j as int),
                ),
                Err(e) => constraint_at(toks@, i as int) == Err::<(ConstraintV, int), int>(
                    e as int,
                ),
            },
    {
        let n = toks.len();
        if !name_here(toks, i) {
            return Err(i);
        }
        if !punct_here(toks, i + 1, ':') {
            return Err(i + 1);
        }
        let key = name_text(toks, i);
        match lit_parse(toks, i + 2) {
            Ok((value, j)) => Ok((Constraint { key, value }, j)),
            Err(e) => Err(e),
        }
    }

    /// The constraints from `i` up to the end of their group, and the position
    /// of that end.
    pub fn parse_list(toks: &Vec<Token>, i: usize) -> (r: Result<(Vec<Constraint>, usize), usize>)
        requires
            i <= toks@.len(),
        ensures
            match r {
                Ok((cs, e)) => constraints_from(toks@, i as int) == Ok::<
                    (Seq<ConstraintV>, int),
                    int,
                >((constraints_view(cs@), e as int)),
                Err(e) => constraints_from(toks@, i as int) == Err::<(Seq<ConstraintV>, int), int>(
                    e as int,
                ),
            },
    {
        let n = toks.len();
        let mut acc: Vec<Constraint> = Vec::new();
        let mut k = i;
        loop
            invariant
                n == toks@.len(),
                i <= k <= n,
                match constraints_from(toks@, k as int) {
                    Ok((cs, e)) => constraints_from(toks@, i as int) == Ok::<
                        (Seq<ConstraintV>, int),
                        int,
                    >((constraints_view(acc@) + cs, e)),
                    Err(x) => constraints_from(toks@, i as int) == Err::<
                        (Seq<ConstraintV>, int),
                        int,
                    >(x),
                },
            decreases n - k,
        {
            if k >= n {
                return Err(k);
            }
            if close_here(toks, k) {
                proof {
                    assert(constraints_view(acc@) + seq![] =~= constraints_view(acc@));
                }
                return Ok((acc, k));
            }
            match Constraint::parse(toks, k) {
                Err(e) => {
                    return Err(e);
                },
                Ok((c, j)) => {
                    if j >= n {
                        return Err(j);
                    }
                    let ghost before = acc@;
                    let ghost cv = c@;
                    if close_here(toks, j) {
                        acc.push(c);
                        proof {
                            assert(constraints_view(acc@) =~= constraints_view(before) + seq![cv]);
                        }
                        return Ok((acc, j));
                    }
                    if !punct_is(&toks[j], ',') {
                        return Err(j);
                    }
                    acc.push(c);
                    proof {
                        assert(constraints_view(acc@) =~= constraints_view(before) + seq![cv]);
                        match constraints_from(toks@, j + 1) {
                            Ok((cs, e)) => {
                                assert(constraints_view(before) + (seq![cv] + cs)
                                    =~= constraints_view(acc@) + cs);
                            },
                            Err(_) => {},
                        }
                    }
                    k = j + 1;
                },
            }
        }
    }
}

impl Column {
    /// The column at `i` (`name: type`, then optionally `~{constraints}`),
    /// and the position after it.
    pub fn parse(toks: &Vec<Token>, i: usize) -> (r: Result<(Column, usize), usize>)
        requires
            toks@.len() <= usize::MAX - 4,
            i <= toks@.len(),
        ensures
            match r {
                Ok((c, j)) => column_at(toks@, i as int) == Ok::<(ColumnV, int), int>(
                    (c@, j as int),
                ),
                Err(e) => column_at(toks@, i as int) == Err::<(ColumnV, int), int>(e as int),
            },
    {
        let n = toks.len();
        if !name_here(toks, i) {
            return Err(i);
        }
        if !punct_here(toks, i + 1, ':') {
            return Err(i + 1);
        }
        let name = name_text(toks, i);
        let (kind, e) = match ty_x(toks, i + 2, true) {
            Ok(x) => x,
            Err(x) => {
                return Err(x);
            },
        };
        if e <= i + 2 {
            return Err(i + 2);
        }
        let ty = copy_range(toks, i + 2, e);
        if punct_here(toks, e, '~') {
            let brace = e + 1 < n && match &toks[e + 1] {
                Token::Open(d) => *d == Delim::Brace,
                _ => false,
            };
            if !brace {
                return Err(e + 1);
            }
            proof {
                lemma_constraints_end(toks@, e + 2);
            }
            match Constraint::parse_list(toks, e + 2) {
                Ok((constraints, c)) => Ok((Column { name, ty, kind, constraints }, c + 1)),
                Err(x) => Err(x),
            }
        } else {
            let constraints: Vec<Constraint> = Vec::new();
            proof {
                assert(constraints_view(constraints@) =~= seq![]);
            }
            Ok((Column { name, ty, kind, constraints }, e))
        }
    }

    /// The columns from `i` up to the end of their group, and the position of
    /// that end.
    pub fn parse_list(toks: &Vec<Token>, i: usize) -> (r: Result<(Vec<Column>, usize), usize>)
        requires
            toks@.len() <= usize::MAX - 4,
            i <= toks@.len(),
        ensures
            match r {
                Ok((cs, e)) => columns_from(toks@, i as int) == Ok::<(Seq<ColumnV>, int), int>(
                    (columns_view(cs@), e as int),
                ),
                Err(e) => columns_from(toks@, i as int) == Err::<(Seq<ColumnV>, int), int>(
                    e as int,
                ),
            },
    {
        let n = toks.len();
        let mut acc: Vec<Column> = Vec::new();
        let mut k = i;
        loop
            invariant
                n == toks@.len(),
                n <= usize::MAX - 4,
                i <= k <= n,
                match columns_from(toks@, k as int) {
                    Ok((cs, e)) => columns_from(toks@, i as int) == Ok::<
                        (Seq<ColumnV>, int),
                        int,
                    >((columns_view(acc@) + cs, e)),
                    Err(x) => columns_from(toks@, i as int) == Err::<(Seq<ColumnV>, int), int>(
                        x,
                    ),
                },
            decreases n - k,
        {
            if k >= n {
                return Err(k);
            }
            if close_here(toks, k) {
                proof {
                    assert(columns_view(acc@) + seq![] =~= columns_view(acc@));
                }
                return Ok((acc, k));
            }
            proof {
                lemma_column_advances(toks@, k as int);
            }
            match Column::parse(toks, k) {
                Err(e) => {
                    return Err(e);
                },
                Ok((c, j)) => {
                    if j >= n {
                        return Err(j);
                    }
                    let ghost before = acc@;
                    let ghost cv = c@;
                    if close_here(toks, j) {
                        acc.push(c);
                        proof {
                            assert(columns_view(acc@) =~= columns_view(before) + seq![cv]);
                        }
                        return Ok((acc, j));
                    }
                    if !punct_is(&toks[j], ',') {
                        return Err(j);
                    }
                    acc.push(c);
                    proof {
                        assert(columns_view(acc@) =~= columns_view(before) + seq![cv]);
                        match columns_from(toks@, j + 1) {
                            Ok((cs, e)) => {
                                assert(columns_view(before) + (seq![cv] + cs)
                                    =~= columns_view(acc@) + cs);
                            },
                            Err(_) => {},
                        }
                    }
                    k = j + 1;
                },
            }
        }
    }
}

impl Schema {
    /// Reads a schema declaration: a name, then its columns within braces.
    /// The tokens are the whole input of the macro, which must end after the
    /// braces: what follows them is an error at its first token, as the
    /// macro's entry point reports it for a declaration that does not use up
    /// its input.
    pub fn parse(toks: &Vec<Token>) -> (r: Result<Schema, ParseError>)
        requires
            toks@.len() <= usize::MAX - 4,
        ensures
            match r {
                Ok(s) => schema_of(toks@) == Ok::<SchemaV, int>(s@),
                Err(p) => schema_of(toks@) == Err::<SchemaV, int>(p.at as int),
            },
    {
        let n = toks.len();
        if !name_here(toks, 0) {
            return Err(ParseError { at: 0 });
        }
        let brace = 1 < n && match &toks[1] {
            Token::Open(d) => *d == Delim::Brace,
            _ => false,
        };
        if !brace {
            return Err(ParseError { at: 1 });
        }
        let name = name_text(toks, 0);
        proof {
            lemma_columns_end(toks@, 2);
        }
        match Column::parse_list(toks, 2) {
            Ok((columns, c)) => {
                if c + 1 == n {
                    Ok(Schema { name, columns })
                } else {
                    Err(ParseError { at: c + 1 })
                }
            },
            Err(e) => Err(ParseError { at: e }),
        }
    }

    /// The schema's name.
    pub fn name(&self) -> (r: &String)
        ensures
            r@ == self@.name,
    {
        &self.name
    }

    /// The columns, in order.
    pub fn columns(&self) -> (r: &Vec<Column>)
        ensures
            columns_view(r@) == self@.columns,
    {
        &self.columns
    }
}

/// The end of a constraint list is a token at or after its start.
pub proof fn lemma_constraints_end(toks: Seq<Token>, i: int)
    ensures
        constraints_from(toks, i) matches Ok((_, e)) ==> i <= e < toks.len(),
    decreases toks.len() - i,
{
    if 0 <= i < toks.len() && !(toks[i] is Close) {
        if let Ok((c, j)) = constraint_at(toks, i) {
            if j < toks.len() && !(toks[j] is Close) && is_punct(toks[j], ',') {
                lemma_constraints_end(toks, j + 1);
            }
        }
    }
}

/// The end of a column list is a token at or after its start.
pub proof fn lemma_columns_end(toks: Seq<Token>, i: int)
    ensures
        columns_from(toks, i) matches Ok((_, e)) ==> i <= e < toks.len(),
    decreases toks.len() - i,
{
    if 0 <= i < toks.len() && !(toks[i] is Close) {
        lemma_column_advances(toks, i);
        if let Ok((c, j)) = column_at(toks, i) {
            if j < toks.len() && !(toks[j] is Close) && is_punct(toks[j], ',') {
                lemma_columns_end(toks, j + 1);
            }
        }
    }
}

/// A column ends after it starts.
pub proof fn lemma_column_advances(toks: Seq<Token>, i: int)
    ensures
        column_at(toks, i) matches Ok((_, j)) ==> i < j,
{
    if name_at(toks, i) && punct_at(toks, i + 1, ':') {
        if let Ok((_, e)) = progress(ty_at(toks, i + 2, true), i + 2) {
            lemma_constraints_end(toks, e + 2);
        }
    }
}

/// The columns `cols` are read one after another from `first` up to the group
/// close at `close`: the first column starts at `first`, each next one right
/// after the comma that ends the one before, and the last is followed by the
/// close, with or without a comma before it. Column `i` starts at `starts[i]`
/// and ends at `ends[i]`.
pub open spec fn entries(
    toks: Seq<Token>,
    first: int,
    starts: Seq<int>,
    ends: Seq<int>,
    cols: Seq<ColumnV>,
    close: int,
) -> bool {
    let n = cols.len();
    &&& starts.len() == n
    &&& ends.len() == n
    &&& 0 <= close < toks.len()
    &&& toks[close] is Close
    &&& n == 0 ==> close == first
    &&& n > 0 ==> starts[0] == first
    &&& forall|i: int|
        0 <= i < n ==> column_at(toks, #[trigger] starts[i]) == Ok::<(ColumnV, int), int>(
            (cols[i], ends[i]),
        )
    &&& forall|i: int|
        0 <= i < n - 1 ==> punct_at(toks, #[trigger] ends[i], ',') && starts[i + 1] == ends[i]
            + 1
    &&& n > 0 ==> (ends[n - 1] == close || (punct_at(toks, ends[n - 1], ',') && ends[n - 1] + 1
        == close))
}

/// Columns read one after another are what the column list reads.
proof fn lemma_entries_read(
    toks: Seq<Token>,
    first: int,
    starts: Seq<int>,
    ends: Seq<int>,
    cols: Seq<ColumnV>,
    close: int,
)
    requires
        entries(toks, first, starts, ends, cols, close),
    ensures
        columns_from(toks, first) == Ok::<(Seq<ColumnV>, int), int>((cols, close)),
    decreases cols.len(),
{
    let n = cols.len();
    if n == 0 {
        assert(cols =~= seq![]);
    } else {
        assert(column_at(toks, starts[0]) == Ok::<(ColumnV, int), int>((cols[0], ends[0])));
        lemma_column_advances(toks, first);
        let j = ends[0];
        if n == 1 {
            if j == close {
                assert(cols =~= seq![cols[0]]);
            } else {
                assert(columns_from(toks, j + 1) == Ok::<(Seq<ColumnV>, int), int>((seq![], close)));
                assert(cols =~= seq![cols[0]] + seq![]);
            }
        } else {
            assert(punct_at(toks, ends[0], ','));
            let s2 = starts.drop_first();
            let e2 = ends.drop_first();
            let c2 = cols.drop_first();
            assert forall|i: int| 0 <= i < c2.len() implies column_at(toks, #[trigger] s2[i])
                == Ok::<(ColumnV, int), int>((c2[i], e2[i])) by {
                assert(column_at(toks, starts[i + 1]) == Ok::<(ColumnV, int), int>(
                    (cols[i + 1], ends[i + 1]),
                ));
            }
            assert forall|i: int| 0 <= i < c2.len() - 1 implies punct_at(toks, #[trigger] e2[i], ',')
                && s2[i + 1] == e2[i] + 1 by {
                assert(punct_at(toks, ends[i + 1], ',') && starts[i + 2] == ends[i + 1] + 1);
            }
            assert(starts[1] == ends[0] + 1);
            lemma_entries_read(toks, j + 1, s2, e2, c2, close);
            assert(cols =~= seq![cols[0]] + c2);
        }
    }
}

/// What the column list reads are columns read one after another: their
/// starts and ends.
proof fn lemma_read_entries(toks: Seq<Token>, first: int) -> (w: (Seq<int>, Seq<int>))
    requires
        columns_from(toks, first) is Ok,
    ensures
        entries(
            toks,
            first,
            w.0,
            w.1,
            columns_from(toks, first)->Ok_0.0,
            columns_from(toks, first)->Ok_0.1,
        ),
    decreases toks.len() - first,
{
    if toks[first] is Close {
        (seq![], seq![])
    } else {
        lemma_column_advances(toks, first);
        let (c, j) = column_at(toks, first)->Ok_0;
        if toks[j] is Close {
            (seq![first], seq![j])
        } else {
            let rest = columns_from(toks, j + 1)->Ok_0;
            let w = lemma_read_entries(toks, j + 1);
            let starts = seq![first] + w.0;
            let ends = seq![j] + w.1;
            let cols = seq![c] + rest.0;
            assert(columns_from(toks, first)->Ok_0.0 == cols);
            assert forall|i: int| 0 <= i < cols.len() implies column_at(toks, #[trigger] starts[i])
                == Ok::<(ColumnV, int), int>((cols[i], ends[i])) by {
                if i > 0 {
                    assert(starts[i] == w.0[i - 1]);
                    assert(column_at(toks, w.0[i - 1]) == Ok::<(ColumnV, int), int>(
                        (rest.0[i - 1], w.1[i - 1]),
                    ));
                }
            }
            assert forall|i: int| 0 <= i < cols.len() - 1 implies punct_at(
                toks,
                #[trigger] ends[i],
                ',',
            ) && starts[i + 1] == ends[i] + 1 by {
                if i > 0 {
                    assert(ends[i] == w.1[i - 1]);
                    assert(punct_at(toks, w.1[i - 1], ',') && w.0[i] == w.1[i - 1] + 1);
                }
            }
            (starts, ends)
        }
    }
}

/// A declaration whose name is followed by braces that hold columns read one
/// after another, and by nothing else, is the schema of that name with those
/// columns, in order.
pub proof fn law_schema_from_entries(
    toks: Seq<Token>,
    starts: Seq<int>,
    ends: Seq<int>,
    cols: Seq<ColumnV>,
)
    requires
        name_at(toks, 0),
        1 < toks.len(),
        toks[1] == Token::Open(Delim::Brace),
        entries(toks, 2, starts, ends, cols, toks.len() - 1),
    ensures
        schema_of(toks) == Ok::<SchemaV, int>(SchemaV { name: ident_text(toks[0]), columns: cols }),
{
    lemma_entries_read(toks, 2, starts, ends, cols, toks.len() - 1);
}

/// A schema's columns are read one after another from its braces, which end
/// the declaration.
pub proof fn law_schema_entries(toks: Seq<Token>) -> (w: (Seq<int>, Seq<int>))
    requires
        schema_of(toks) is Ok,
    ensures
        name_at(toks, 0),
        toks[1] == Token::Open(Delim::Brace),
        schema_of(toks)->Ok_0.name == ident_text(toks[0]),
        entries(toks, 2, w.0, w.1, schema_of(toks)->Ok_0.columns, toks.len() - 1),
{
    lemma_read_entries(toks, 2)
}

/// A constraint's value keeps its literal: the identifiers `true` and
/// `false` are the booleans, a literal token is kept by its text, and a minus
/// sign before a number is kept in front of the number's text.
pub proof fn law_literal_values(toks: Seq<Token>, i: int)
    requires
        0 <= i < toks.len(),
    ensures
        toks[i] matches Token::Literal(x) ==> lit_at(toks, i) == Ok::<(LitValueV, int), int>(
            (LitValueV::Other(x@), i + 1),
        ),
        toks[i] matches Token::Ident(x) && x@ == seq!['t', 'r', 'u', 'e'] ==> lit_at(toks, i)
            == Ok::<(LitValueV, int), int>((LitValueV::Bool(true), i + 1)),
        toks[i] matches Token::Ident(x) && x@ == seq!['f', 'a', 'l', 's', 'e'] ==> lit_at(toks, i)
            == Ok::<(LitValueV, int), int>((LitValueV::Bool(false), i + 1)),
        i + 1 < toks.len() && is_punct(toks[i], '-') && is_number(toks[i + 1]) ==> lit_at(toks, i)
            == Ok::<(LitValueV, int), int>(
            (LitValueV::Other(seq!['-'] + toks[i + 1]->Literal_0@), i + 2),
        ),
{
}

} // verus!
