use unco::id::{StringId, UncoId};
use unco::record::Record;
use unco::table::Table;

fn table(entries: &[(&str, &str)]) -> Table {
    let mut t = Table::new();
    for (k, v) in entries {
        t.insert(k.to_string(), v.to_string());
    }
    t
}

fn strings(v: &[&str]) -> Vec<String> {
    v.iter().map(|s| s.to_string()).collect()
}

fn s(x: &str) -> String {
    x.to_string()
}

#[test]
fn id_text_and_key() {
    let id = UncoId::new(s("Account"), StringId::new(s("xfvpol2uogqmdrznflb4")));
    assert_eq!(id.to_string(), "Account:xfvpol2uogqmdrznflb4");
    assert_eq!(id.get_id(), "xfvpol2uogqmdrznflb4");
    assert_eq!(id.tb(), "Account");
    let d = UncoId::default();
    assert_eq!(d.to_string(), ":");
    assert_eq!(d.get_id(), "");
    assert_eq!(StringId::new(s("k")).to_string(), "k");
}

#[test]
fn table_reads_what_it_wrote() {
    let mut t = Table::new();
    t.insert(s("a"), s("1"));
    t.insert(s("b"), s("2"));
    t.insert(s("a"), s("3"));
    assert_eq!(t.len(), 2);
    assert_eq!(t.get(&s("a")), Some(s("3")));
    assert!(t.contains_key(&s("b")));
    t.remove(&s("a"));
    assert_eq!(t.get(&s("a")), None);
    assert_eq!(t.len(), 1);
    let mut keys = t.keys();
    keys.sort();
    assert_eq!(keys, strings(&["b"]));
    assert_eq!(t.entries(), vec![(s("b"), s("2"))]);
}

#[test]
fn cast_records_only_changed_fields() {
    let fields = strings(&["id", "title", "count"]);
    let r = Record::from_object(Some(table(&[("title", "\"T\""), ("count", "1")])));
    let incoming = table(&[("title", "\"T\""), ("count", "2"), ("other", "3")]);
    let c = r.cast(&fields, &incoming);
    let cs = c.changeset();
    assert_eq!(cs.len(), 1);
    assert_eq!(cs.get(&s("count")), Some(s("2")));
    // Casting again records nothing new.
    let c2 = c.cast(&fields, &incoming);
    assert_eq!(c2.changeset().len(), 1);
    assert_eq!(c2.data().len(), 2);
}

#[test]
fn validation_names_missing_required_fields() {
    let required = strings(&["title", "des"]);
    let r = Record::from_object(Some(table(&[("title", "\"T\"")])));
    let v = r.validate(&required);
    assert!(!v.is_valid());
    let errors = v.errors();
    assert_eq!(errors.len(), 1);
    assert_eq!(errors.get(&s("des")), Some(s("Require")));
    // A change provides the field.
    let c = v.cast(&required, &table(&[("des", "\"D\"")]));
    let v2 = c.validate(&required);
    assert!(v2.is_valid());
    // A value that is not an object gives no data.
    let empty = Record::from_object(None);
    assert_eq!(empty.data().len(), 0);
    assert!(!empty.validate(&required).is_valid());
    assert!(empty.is_valid());
}

#[test]
fn content_drops_id_and_prefers_changes() {
    let fields = strings(&["id", "title", "des"]);
    let r = Record::from_object(Some(table(&[("id", "{}"), ("title", "\"A\""), ("des", "\"B\"")])));
    let c = r.cast(&fields, &table(&[("title", "\"C\"")]));
    let content = c.content();
    assert_eq!(content.len(), 2);
    assert_eq!(content.get(&s("title")), Some(s("\"C\"")));
    assert_eq!(content.get(&s("des")), Some(s("\"B\"")));
    assert_eq!(content.get(&s("id")), None);
    assert_eq!(c.value_of(&s("title")), "\"A\"");
    assert_eq!(c.value_of(&s("missing")), "null");
    let parts = Record::from_parts(c.data(), c.changeset(), c.errors());
    assert_eq!(parts.content().len(), 2);
}

#[test]
fn cast_compares_values_not_texts() {
    let fields = strings(&["z", "w", "s", "v"]);
    let r = Record::from_object(Some(table(&[
        ("z", "0.0"),
        ("w", "[1,-0.0]"),
        ("s", "\"-0.0\""),
        ("v", "-0.05"),
    ])));
    // Negative zero is the same value as zero, also within an array.
    let incoming = table(&[("z", "-0.0"), ("w", "[1,0.0]")]);
    assert_eq!(r.cast(&fields, &incoming).changeset().len(), 0);
    // Text in a string is compared as it is; other numbers are kept apart.
    let incoming = table(&[("s", "\"0.0\""), ("v", "0.05")]);
    let c = r.cast(&fields, &incoming);
    assert_eq!(c.changeset().len(), 2);
    assert_eq!(c.changeset().get(&s("v")), Some(s("0.05")));
}

#[test]
fn cast_ignores_the_order_of_object_keys() {
    let fields = strings(&["x", "y"]);
    let r = Record::from_object(Some(table(&[("x", "{\"a\":1,\"b\":2}"), ("y", "[1,2]")])));
    let incoming = table(&[("x", "{\"b\":2,\"a\":1}"), ("y", "[2,1]")]);
    let c = r.cast(&fields, &incoming);
    assert_eq!(c.changeset().len(), 1);
    assert_eq!(c.changeset().get(&s("y")), Some(s("[2,1]")));
    // Whitespace does not make a value differ; 1 and 1.0 are different numbers.
    let r = Record::from_object(Some(table(&[("x", "{ \"a\" : 1 }"), ("y", "1")])));
    let c = r.cast(&fields, &table(&[("x", "{\"a\":1}"), ("y", "1.0")]));
    assert_eq!(c.changeset().len(), 1);
    assert!(c.changeset().contains_key(&s("y")));
}

#[test]
fn records_read_from_a_list_keep_its_order() {
    let rs = Record::from_objects(&vec![Some(table(&[("a", "1")])), None, Some(table(&[]))]);
    assert_eq!(rs.len(), 3);
    assert_eq!(rs[0].value_of(&s("a")), "1");
    assert_eq!(rs[1].data().len(), 0);
    assert_eq!(rs[2].data().len(), 0);
    assert_eq!(rs[0].changeset().len(), 0);
    assert!(rs[1].is_valid());
}
