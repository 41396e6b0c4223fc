use doit::error::{Error, Missing};
use doit::locate::{find, locate};
use doit::model::{Alias, AliasDef, AliasTable, Entry, Value};

fn listed(items: Vec<Value>) -> Value {
    Value::List(items, String::new())
}

fn def(tag: &str) -> AliasDef {
    AliasDef {
        entries: vec![Entry {
            key: "command".to_string(),
            value: listed(vec![Value::Text(tag.to_string())]),
        }],
    }
}

fn alias(name: &str) -> Alias {
    Alias { name: name.to_string(), def: Some(def(name)) }
}

fn table() -> AliasTable {
    AliasTable {
        aliases: vec![
            alias("zebra"),
            alias("apple"),
            Alias { name: "version".to_string(), def: None },
            alias("@9"),
            alias("mango"),
        ],
    }
}

fn missing(reference: &str, why: Missing) {
    assert_eq!(
        locate(&table(), reference),
        Err(Error::AliasNotFound { reference: reference.to_string(), why }),
        "{:?}",
        reference
    );
    assert_eq!(find(&table(), reference), Err(why));
}

fn not_found(reference: &str) {
    missing(reference, Missing::NoDefinition);
}

fn no_such_name(reference: &str) {
    missing(reference, Missing::NoSuchName);
}

fn found(reference: &str, index: usize, name: &str) {
    let t = table();
    let (got, canonical) = locate(&t, reference).unwrap();
    assert_eq!(got, &def(name));
    assert_eq!(canonical, name);
    assert_eq!(find(&t, reference), Ok(index));
}

#[test]
fn name_resolves_to_its_definition() {
    found("zebra", 0, "zebra");
    found("apple", 1, "apple");
    found("mango", 4, "mango");
}

#[test]
fn unknown_name_is_not_found() {
    no_such_name("pear");
    no_such_name("");
    no_such_name("Zebra");
    no_such_name("zebra ");
}

#[test]
fn first_position_is_the_first_inserted_entry() {
    found("@1", 0, "zebra");
}

#[test]
fn positions_follow_insertion_order() {
    found("@2", 1, "apple");
    found("@4", 3, "@9");
    found("@5", 4, "mango");
}

#[test]
fn position_gives_the_canonical_name() {
    let t = table();
    let (_, canonical) = locate(&t, "@2").unwrap();
    assert_eq!(canonical, "apple");
}

#[test]
fn position_zero_is_not_found() {
    not_found("@0");
    not_found("@00");
}

#[test]
fn position_behind_the_table_is_not_found() {
    not_found("@6");
    not_found("@7");
    not_found("@60");
    not_found("@100");
}

#[test]
fn position_of_a_slot_without_definition_is_not_found() {
    not_found("@3");
    not_found("version");
}

#[test]
fn huge_position_is_not_found() {
    not_found("@18446744073709551615");
    missing("@18446744073709551616", Missing::BadPosition);
    missing("@99999999999999999999999999999999999999", Missing::BadPosition);
    missing("@000018446744073709551616", Missing::BadPosition);
    not_found("@000018446744073709551615");
}

#[test]
fn leading_zeros_do_not_matter() {
    found("@01", 0, "zebra");
    found("@0005", 4, "mango");
}

#[test]
fn positional_form_wins_over_a_name_of_that_form() {
    not_found("@9");
}

#[test]
fn other_references_with_an_at_sign_are_names() {
    no_such_name("@");
    no_such_name("@x");
    no_such_name("@1x");
    no_such_name("@ 1");
    no_such_name("@-1");
    no_such_name("@+1");
    no_such_name("1");
    let t = AliasTable { aliases: vec![alias("zebra"), alias("@"), alias("@1x")] };
    assert_eq!(find(&t, "@"), Ok(1));
    assert_eq!(find(&t, "@1x"), Ok(2));
}

#[test]
fn empty_table_has_nothing() {
    let t = AliasTable { aliases: vec![] };
    assert_eq!(find(&t, "@1"), Err(Missing::NoDefinition));
    assert_eq!(find(&t, "@0"), Err(Missing::NoDefinition));
    assert_eq!(find(&t, "x"), Err(Missing::NoSuchName));
}

#[test]
fn first_of_two_equal_names_is_found() {
    let t = AliasTable { aliases: vec![alias("a"), alias("b"), alias("a")] };
    assert_eq!(find(&t, "a"), Ok(0));
    assert_eq!(find(&t, "@3"), Ok(2));
}
