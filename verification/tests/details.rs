use doit::details::{details_of, list_cmds, show_details, Details};
use doit::invocation::invocation;
use doit::error::{Error, Malformed, Missing};
use doit::model::{Alias, AliasDef, AliasTable, Context, Entry, Value};
use doit::stages::RenderError;

fn malformed(malformed: Malformed) -> Error {
    Error::MalformedDefinition { name: "x".to_string(), malformed }
}

fn listed(items: Vec<Value>) -> Value {
    Value::List(items, String::new())
}

fn words(items: &[&str]) -> Vec<String> {
    items.iter().map(|w| w.to_string()).collect()
}

fn list(items: &[&str]) -> Value {
    listed(items.iter().map(|w| Value::Text(w.to_string())).collect())
}

fn entry(key: &str, value: Value) -> Entry {
    Entry { key: key.to_string(), value }
}

fn text(value: &str) -> Value {
    Value::Text(value.to_string())
}

fn context() -> Context {
    Context { vars: vec![], home: "/home/me/".to_string(), users: vec![] }
}

fn greet() -> AliasDef {
    AliasDef {
        entries: vec![
            entry("command", list(&["echo", ":Hello, %name%!"])),
            entry("args", list(&[":~/x", "plain", ":%name%"])),
            entry("description", text("Says hello")),
            entry("name", text("Ada")),
        ],
    }
}

fn table() -> AliasTable {
    AliasTable {
        aliases: vec![
            Alias { name: "greet".to_string(), def: Some(greet()) },
            Alias { name: "title".to_string(), def: None },
            Alias {
                name: "bare".to_string(),
                def: Some(AliasDef {
                    entries: vec![entry("command", list(&["ls"])), entry("description", text("Lists"))],
                }),
            },
        ],
    }
}

#[test]
fn details_are_rendered() {
    let details = details_of(&greet(), &context(), "@1", "greet").unwrap();
    assert_eq!(
        details,
        Details {
            given: "@1".to_string(),
            actual: "greet".to_string(),
            command: "echo Hello, Ada!".to_string(),
            arguments: "/home/me/x plain Ada".to_string(),
            description: "Says hello".to_string(),
            errors: vec![],
        }
    );
}

#[test]
fn details_text_has_one_line_for_each_part() {
    let details = details_of(&greet(), &context(), "@1", "greet").unwrap();
    assert_eq!(
        details.text(),
        "Given: @1\nActual: greet\nCommand: echo Hello, Ada!\nArguments:/home/me/x plain Ada\nDescription: Says hello\n"
    );
}

#[test]
fn details_without_args_have_no_arguments() {
    let t = table();
    let details = details_of(t.aliases[2].def.as_ref().unwrap(), &context(), "bare", "bare").unwrap();
    assert_eq!(details.arguments, "");
    assert_eq!(details.command, "ls");
    assert_eq!(details.text(), "Given: bare\nActual: bare\nCommand: ls\nArguments:\nDescription: Lists\n");
}

#[test]
fn args_that_are_no_list_are_not_shown() {
    let def = AliasDef {
        entries: vec![
            entry("command", list(&["ls"])),
            entry("args", text("-l")),
            entry("description", text("Lists")),
        ],
    };
    assert_eq!(details_of(&def, &context(), "x", "x").unwrap().arguments, "");
}

#[test]
fn rendering_problems_are_collected_and_marked() {
    let def = AliasDef {
        entries: vec![
            entry("command", list(&["echo", ":%a% %b%", "ok", ":%c%"])),
            entry("args", listed(vec![text(":~nobody/"), Value::Other("42".to_string()), text("fine")])),
            entry("description", text("Broken")),
        ],
    };
    let details = details_of(&def, &context(), "x", "x").unwrap();
    assert_eq!(details.command, "echo ???? ok ????");
    assert_eq!(details.arguments, "???? ???? fine");
    assert_eq!(
        details.errors,
        vec![
            RenderError::UnknownKey("a".to_string()),
            RenderError::UnknownKey("b".to_string()),
            RenderError::UnknownKey("c".to_string()),
            RenderError::UnknownUser("nobody".to_string()),
        ]
    );
}

#[test]
fn details_need_a_command() {
    let def = AliasDef { entries: vec![entry("description", text("x"))] };
    assert_eq!(
        details_of(&def, &context(), "x", "x"),
        Err(malformed(Malformed::MissingCommand))
    );
    let def = AliasDef { entries: vec![entry("command", text("ls")), entry("description", text("x"))] };
    assert_eq!(
        details_of(&def, &context(), "x", "x"),
        Err(malformed(Malformed::CommandNotList))
    );
}

#[test]
fn details_need_a_description() {
    let def = AliasDef { entries: vec![entry("command", list(&["ls"]))] };
    assert_eq!(details_of(&def, &context(), "x", "x"), Err(Error::NoDescription));
    let def = AliasDef {
        entries: vec![entry("command", list(&["ls"])), entry("description", list(&["x"]))],
    };
    assert_eq!(details_of(&def, &context(), "x", "x"), Err(Error::DescriptionNotText));
}

#[test]
fn show_details_resolves_the_reference() {
    let mut ctx = context();
    let details = show_details(&table(), &mut ctx, "@3").unwrap();
    assert_eq!(details.given, "@3");
    assert_eq!(details.actual, "bare");
    assert_eq!(details.command, "ls");
    assert_eq!(ctx, context());
}

#[test]
fn show_details_fails_for_what_is_not_there() {
    let mut ctx = context();
    for (reference, why) in [
        ("nope", Missing::NoSuchName),
        ("@0", Missing::NoDefinition),
        ("@4", Missing::NoDefinition),
        ("@2", Missing::NoDefinition),
        ("title", Missing::NoDefinition),
    ] {
        assert_eq!(
            show_details(&table(), &mut ctx, reference),
            Err(Error::AliasNotFound { reference: reference.to_string(), why })
        );
    }
}

#[test]
fn list_has_one_line_for_each_slot() {
    assert_eq!(list_cmds(&table()), words(&["@1 : greet", "@2 : title", "@3 : bare"]));
    assert_eq!(list_cmds(&AliasTable { aliases: vec![] }), Vec::<String>::new());
}

#[test]
fn list_counts_past_nine() {
    let t = AliasTable {
        aliases: (0..12).map(|i| Alias { name: format!("a{}", i), def: None }).collect(),
    };
    let lines = list_cmds(&t);
    assert_eq!(lines.len(), 12);
    assert_eq!(lines[8], "@9 : a8");
    assert_eq!(lines[9], "@10 : a9");
    assert_eq!(lines[11], "@12 : a11");
}

#[test]
fn invocation_drops_the_program_and_its_leading_words() {
    assert_eq!(invocation(&words(&["/usr/bin/doit", "build", "-j"])), words(&["build", "-j"]));
    assert_eq!(invocation(&words(&["x", "doit", "do", "--", "build", "do"])), words(&["build", "do"]));
    assert_eq!(invocation(&words(&["x", "--", "--", "--cmds"])), words(&["--cmds"]));
    assert_eq!(invocation(&words(&["x", "do"])), words(&[]));
    assert_eq!(invocation(&words(&["x"])), words(&[]));
    assert_eq!(invocation(&words(&[])), words(&[]));
    assert_eq!(invocation(&words(&["do", "it"])), words(&["it"]));
    assert_eq!(invocation(&words(&["x", "Do", "do"])), words(&["Do", "do"]));
}

#[test]
fn details_name_the_alias_as_it_was_given() {
    let def = AliasDef { entries: vec![entry("description", text("x"))] };
    let e = details_of(&def, &context(), "@7", "build").unwrap_err();
    assert_eq!(
        e,
        Error::MalformedDefinition { name: "@7".to_string(), malformed: Malformed::MissingCommand }
    );
    assert_eq!(e.message(), "@7: missing command array");
    assert_eq!(e.details_message(), "@7: missing command array");
}
