use proc_macro2::{Delimiter, Spacing, TokenStream, TokenTree};
use unco::model::{DeriveError, Model};
use unco::parse::{Column, Constraint, LitValue, Schema};
use unco::record::Record;
use unco::shape::Conversion;
use unco::table::Table;
use unco::token::{Delim, Token};

fn flatten(ts: TokenStream, out: &mut Vec<Token>) {
    for tt in ts {
        match tt {
            TokenTree::Ident(i) => out.push(Token::Ident(i.to_string())),
            TokenTree::Punct(p) => out.push(Token::Punct(p.as_char(), p.spacing() == Spacing::Joint)),
            TokenTree::Literal(l) => out.push(Token::Literal(l.to_string())),
            TokenTree::Group(g) => {
                let d = match g.delimiter() {
                    Delimiter::Parenthesis => Some(Delim::Paren),
                    Delimiter::Brace => Some(Delim::Brace),
                    Delimiter::Bracket => Some(Delim::Bracket),
                    Delimiter::None => None,
                };
                match d {
                    Some(d) => {
                        out.push(Token::Open(d));
                        flatten(g.stream(), out);
                        out.push(Token::Close(d));
                    }
                    None => flatten(g.stream(), out),
                }
            }
        }
    }
}

fn lex(src: &str) -> Vec<Token> {
    let ts: TokenStream = src.parse().unwrap();
    let mut out = Vec::new();
    flatten(ts, &mut out);
    out
}

fn model(src: &str) -> Model {
    match unco::model::derive(&lex(src)) {
        Ok(m) => m,
        Err(e) => panic!("{:?}", e),
    }
}

fn strings(v: &[&str]) -> Vec<String> {
    v.iter().map(|s| s.to_string()).collect()
}

fn table(entries: &[(&str, &str)]) -> Table {
    let mut t = Table::new();
    for (k, v) in entries {
        t.insert(k.to_string(), v.to_string());
    }
    t
}

fn is_typed(c: &Conversion, name: &str) -> bool {
    matches!(c, Conversion::Typed(s) if s == name)
}

fn is_list(c: &Conversion, name: &str) -> bool {
    matches!(c, Conversion::List(s) if s == name)
}

const POST: &str = "Post {
    id: UncoId,
    title: String ~{require: true},
    des: String ~{require: true},
    count: i64,
    valid: bool,
    array_number: Vec<i64>,
    array_string: Vec<String>,
}";

#[test]
fn schema_test_create() {
    let m = model(POST);
    assert_eq!(m.name, "Post");
    assert_eq!(
        m.fields,
        strings(&["id", "title", "des", "count", "valid", "array_number", "array_string"])
    );
    assert_eq!(m.required, strings(&["title", "des"]));
    assert_eq!(m.to_vec_fn, "to_vec_post");
    assert_eq!(m.accessors.len(), 7);
    assert!(is_typed(&m.accessors[0].conversion, "UncoId"));
    assert!(matches!(m.accessors[1].conversion, Conversion::Text));
    assert!(matches!(m.accessors[2].conversion, Conversion::Text));
    assert!(is_typed(&m.accessors[3].conversion, "i64"));
    assert!(is_typed(&m.accessors[4].conversion, "bool"));
    assert!(is_list(&m.accessors[5].conversion, "i64"));
    assert!(is_list(&m.accessors[6].conversion, "String"));
    assert_eq!(m.accessors[1].value_fn, "title_value");

    // A default record holds nothing: every stored value is null.
    let post = Record::new();
    assert_eq!(post.value_of(&"title".to_string()), "null");

    let json = table(&[
        ("title", "\"Title\""),
        ("des", "\"Description\""),
        ("count", "1"),
        ("valid", "true"),
        ("array_number", "[1,2]"),
        ("array_string", "[\"aaa\",\"bb\"]"),
        ("id", "{\"id\":{\"String\":\"xfvpol2uogqmdrznflb4\"},\"tb\":\"Post\"}"),
    ]);
    let post_json = Record::from_object(Some(json));
    assert_eq!(post_json.value_of(&"title".to_string()), "\"Title\"");
    assert_eq!(post_json.value_of(&"count".to_string()), "1");
    assert_eq!(post_json.value_of(&"valid".to_string()), "true");
    assert_eq!(post_json.value_of(&"array_number".to_string()), "[1,2]");
    assert_eq!(post_json.value_of(&"array_string".to_string()), "[\"aaa\",\"bb\"]");
    assert_eq!(
        post_json.value_of(&"id".to_string()),
        "{\"id\":{\"String\":\"xfvpol2uogqmdrznflb4\"},\"tb\":\"Post\"}"
    );
}

#[test]
fn test_cast() {
    let m = model(POST);
    let json_id = table(&[("title", "\"Title json\""), ("des", "\"Description json\"")]);
    let post = Record::from_object(Some(json_id));

    let hmap = table(&[("title", "\"Title Change\""), ("no_title", "\"Dont cast\"")]);
    let changes = post.cast(&m.fields, &hmap);

    let validate = changes.validate(&m.required);

    let changeset = validate.changeset();
    assert_eq!(changeset.len(), 1);
    assert_eq!(changeset.get(&"title".to_string()), Some("\"Title Change\"".to_string()));
    assert_eq!(changeset.get(&"no_title".to_string()), None);

    let data = validate.data();
    assert_eq!(data.len(), 2);
    assert_eq!(data.get(&"title".to_string()), Some("\"Title json\"".to_string()));

    assert!(validate.is_valid());
}

#[test]
fn relate_test_create() {
    let post = model(
        "Post {
            id: UncoId,
            title: String ~{require: true},
            des: String ~{require: true},
            cat: Category
        }",
    );
    let category = model(
        "Category {
            id: UncoId,
            title: String ~{require: true},
        }",
    );
    assert_eq!(post.fields, strings(&["id", "title", "des", "cat"]));
    assert!(matches!(&post.accessors[3].conversion, Conversion::Convert(s) if s == "Category"));
    assert_eq!(post.accessors[3].value_fn, "cat_value");
    assert_eq!(category.fields, strings(&["id", "title"]));
    assert_eq!(category.required, strings(&["title"]));
    assert_eq!(category.to_vec_fn, "to_vec_category");

    let json = table(&[
        ("title", "\"Title\""),
        ("des", "\"Description\""),
        ("id", "{\"id\":{\"String\":\"xfvpol2uogqmdrznflb4\"},\"tb\":\"Account\"}"),
        (
            "cat",
            "{\"id\":{\"id\":{\"String\":\"xfvpol2uogqmdrznfl34\"},\"tb\":\"Account\"},\"title\":\"Drupal\"}",
        ),
    ]);
    let post_json = Record::from_object(Some(json));
    let cat_value = post_json.value_of(&"cat".to_string());
    assert_eq!(
        cat_value,
        "{\"id\":{\"id\":{\"String\":\"xfvpol2uogqmdrznfl34\"},\"tb\":\"Account\"},\"title\":\"Drupal\"}"
    );
}

#[test]
fn parse_errors_point_at_the_token() {
    // A keyword cannot name a column.
    match unco::model::derive(&lex("Post { type: String }")) {
        Err(DeriveError::Parse(p)) => assert_eq!(p.at, 2),
        _ => panic!("expected a parse error"),
    }
    // A missing colon.
    match unco::model::derive(&lex("Post { title String }")) {
        Err(DeriveError::Parse(p)) => assert_eq!(p.at, 3),
        _ => panic!("expected a parse error"),
    }
    // Nothing may follow the columns.
    match unco::model::derive(&lex("Post { title: String } extra")) {
        Err(DeriveError::Parse(p)) => assert_eq!(p.at, 6),
        _ => panic!("expected a parse error"),
    }
    // A tilde must be followed by braces.
    match unco::model::derive(&lex("Post { title: String ~ require }")) {
        Err(DeriveError::Parse(p)) => assert_eq!(p.at, 6),
        _ => panic!("expected a parse error"),
    }
    // A constraint value must be a literal.
    match unco::model::derive(&lex("Post { title: String ~{require: yes} }")) {
        Err(DeriveError::Parse(p)) => assert_eq!(p.at, 9),
        _ => panic!("expected a parse error"),
    }
    // An empty type.
    match unco::model::derive(&lex("Post { title: , }")) {
        Err(DeriveError::Parse(p)) => assert_eq!(p.at, 4),
        _ => panic!("expected a parse error"),
    }
    // The schema needs a name.
    match unco::model::derive(&lex("{ title: String }")) {
        Err(DeriveError::Parse(p)) => assert_eq!(p.at, 0),
        _ => panic!("expected a parse error"),
    }
}

#[test]
fn constraints_and_required_fields() {
    let m = model(
        "Item { a: i64 ~{require: false, max: 3}, b: u64 ~{min: -1, require: true,}, c: f64 ~{} }",
    );
    assert_eq!(m.fields, strings(&["a", "b", "c"]));
    assert_eq!(m.required, strings(&["b"]));
    assert!(is_typed(&m.accessors[2].conversion, "f64"));
    // Two `require: true` constraints list the column twice.
    let m = model("Item { a: String ~{require: true, require: true} }");
    assert_eq!(m.required, strings(&["a", "a"]));
    // An empty schema.
    let m = model("Empty {}");
    assert!(m.fields.is_empty());
    assert_eq!(m.to_vec_fn, "to_vec_empty");
}

#[test]
fn type_shapes() {
    let m = model(
        "Shapes {
            map: HashMap<String, i64>,
            opt: Option<String>,
            tuple: (i64, i64),
            r: &'static str,
            f: fn(i64) -> i64,
            custom: Category,
            lead: ::Vec<i64>,
            turbo: Vec::<u64>,
        }",
    );
    let kinds: Vec<&Conversion> = m.accessors.iter().map(|a| &a.conversion).collect();
    assert!(matches!(kinds[0], Conversion::Fallback));
    assert!(matches!(kinds[1], Conversion::Fallback));
    assert!(matches!(kinds[2], Conversion::Fallback));
    assert!(matches!(kinds[3], Conversion::Fallback));
    assert!(matches!(kinds[4], Conversion::Fallback));
    assert!(matches!(kinds[5], Conversion::Convert(s) if s == "Category"));
    assert!(is_list(kinds[6], "i64"));
    assert!(is_list(kinds[7], "u64"));
    assert_eq!(m.accessors[0].ty.len(), 6);
}

#[test]
fn unsupported_shapes_are_refused() {
    for (src, col) in [
        ("S { a: i64, b: Vec<Vec<i64>> }", 1),
        ("S { a: Option<Vec<i64>> }", 0),
        ("S { a: std::string::String }", 0),
        ("S { a: Vec<i64, u8> }", 0),
        ("S { a: Vec<_> }", 0),
        ("S { a: <T as X>::Y }", 0),
        ("S { a: i64, b: Box<dyn Fn(i64) -> i64> }", 1),
    ] {
        match unco::model::derive(&lex(src)) {
            Err(DeriveError::Unsupported { column }) => assert_eq!(column, col, "{}", src),
            _ => panic!("expected an unsupported shape: {}", src),
        }
    }
}

#[test]
fn schema_parse_keeps_columns() {
    let s = Schema::parse(&lex("Post { title: String ~{require: true}, n: i64 }")).unwrap();
    assert_eq!(s.name(), "Post");
    assert_eq!(s.columns().len(), 2);
    assert_eq!(s.columns()[0].name, "title");
    assert_eq!(s.columns()[0].constraints.len(), 1);
    assert_eq!(s.columns()[0].constraints[0].key, "require");
    assert_eq!(s.columns()[1].ty.len(), 1);
    assert!(s.first_unsupported().is_none());
}

#[test]
fn lower_case_name_of_the_converter() {
    assert_eq!(model("MyPost { a: i64 }").to_vec_fn, "to_vec_mypost");
}

#[test]
fn a_column_type_ends_where_the_rust_type_ends() {
    // Two columns without a comma between them.
    match unco::model::derive(&lex("Post { a: i64 b: i64 }")) {
        Err(DeriveError::Parse(p)) => assert_eq!(p.at, 5),
        _ => panic!("expected a parse error"),
    }
    // A single column leaves what follows its type unread.
    let (c, next) = Column::parse(&lex("a: i64 b"), 0).unwrap();
    assert_eq!(c.name, "a");
    assert_eq!(c.ty.len(), 1);
    assert!(c.constraints.is_empty());
    assert_eq!(next, 3);
    // A generic type ends at its closing angle bracket.
    let (c, next) = Column::parse(&lex("m: HashMap<String, Vec<i64>>, n: i64"), 0).unwrap();
    assert_eq!(c.ty.len(), 9);
    assert_eq!(next, 11);
    // A type cannot be empty, nor end in an open generic list.
    assert!(Column::parse(&lex("a: ~{}"), 0).is_err());
    assert!(Column::parse(&lex("a: Vec<i64"), 0).is_err());
    // Constraints follow the type.
    let (c, next) = Column::parse(&lex("a: String ~{require: true, max: 10,}"), 0).unwrap();
    assert_eq!(c.constraints.len(), 2);
    assert_eq!(next, 14);
    let (c, _) = Column::parse(&lex("a: String ~{}"), 0).unwrap();
    assert!(c.constraints.is_empty());
}

#[test]
fn a_trait_object_converts_through_text() {
    let m = model("S { a: Vec<i64> + Send, b: dyn Send, c: (Vec<i64>) }");
    assert!(matches!(m.accessors[0].conversion, Conversion::Fallback));
    assert!(matches!(m.accessors[1].conversion, Conversion::Fallback));
    assert!(matches!(m.accessors[2].conversion, Conversion::Fallback));
    assert_eq!(m.accessors[0].ty.len(), 6);
}

#[test]
fn constraint_values_keep_their_literal() {
    let (k, next) = Constraint::parse(&lex("max: 10"), 0).unwrap();
    assert_eq!(k.key, "max");
    assert!(matches!(&k.value, LitValue::Other(t) if t == "10"));
    assert_eq!(next, 3);
    let (k, _) = Constraint::parse(&lex("label: \"x\""), 0).unwrap();
    assert!(matches!(&k.value, LitValue::Other(t) if t == "\"x\""));
    let (k, next) = Constraint::parse(&lex("min: -1"), 0).unwrap();
    assert!(matches!(&k.value, LitValue::Other(t) if t == "-1"));
    assert_eq!(next, 4);
    let (k, _) = Constraint::parse(&lex("require: true"), 0).unwrap();
    assert!(matches!(k.value, LitValue::Bool(true)));
    let (k, _) = Constraint::parse(&lex("require: false"), 0).unwrap();
    assert!(matches!(k.value, LitValue::Bool(false)));
    assert!(Constraint::parse(&lex("require: yes"), 0).is_err());
}

#[test]
fn binders_and_maybe_bounds() {
    let m = model(
        "S { f: for<'a> fn(&'a str) -> i64, g: (?Sized), h: for<'a, 'b: 'a> Foo<'a, 'b> + Send, k: (?Sized) + Send, q: (for<'a> Foo<'a>) + Send }",
    );
    for a in &m.accessors {
        assert!(matches!(a.conversion, Conversion::Fallback));
    }
    // A trait object needs a trait, a binder cannot go with `?`.
    for (src, at) in [
        ("S { a: dyn 'static }", 4),
        ("S { a: for<'a> ?Sized }", 9),
        ("S { a: (for<'a> ?Sized) }", 10),
        ("S { a: for<'a> dyn Send }", 9),
        ("S { a: for<'a> Fn(&'a i64) }", 10),
    ] {
        match unco::model::derive(&lex(src)) {
            Err(DeriveError::Parse(p)) => assert_eq!(p.at, at, "{}", src),
            _ => panic!("expected a parse error: {}", src),
        }
    }
}

#[test]
fn const_bounds_and_captures_of_impl_types() {
    let m = model(
        "S { m: impl [const] Clone + use<'a, T> + 'a, n: impl const Send, o: Option<i64, dyn Iterator<Item: const Clone + >>, p: Option<i64, dyn Iterator<Item:>> }",
    );
    for a in &m.accessors {
        assert!(matches!(a.conversion, Conversion::Fallback));
    }
    for (src, at) in [
        ("S { a: impl use<'a> }", 4),
        ("S { a: dyn const Send }", 5),
        ("S { a: dyn use<'a> + Send }", 5),
    ] {
        match unco::model::derive(&lex(src)) {
            Err(DeriveError::Parse(p)) => assert_eq!(p.at, at, "{}", src),
            _ => panic!("expected a parse error: {}", src),
        }
    }
}
