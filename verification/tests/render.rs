use doit::model::{AliasDef, Context, Entry, EnvVar, UserHome, Value};
use doit::stages::RenderError;
use doit::template::{note_user, referred_users, render, render_in};

fn listed(items: Vec<Value>) -> Value {
    Value::List(items, String::new())
}

fn text(key: &str, value: &str) -> Entry {
    Entry { key: key.to_string(), value: Value::Text(value.to_string()) }
}

fn scope() -> AliasDef {
    AliasDef {
        entries: vec![
            text("name", "Ada"),
            text("dir", "~/work"),
            text("pct", "100%%"),
            text("nested", "%name%"),
            Entry { key: "command".to_string(), value: listed(vec![]) },
            Entry { key: "count".to_string(), value: Value::Other("42".to_string()) },
        ],
    }
}

fn context() -> Context {
    Context {
        vars: vec![
            EnvVar { name: "SHELL".to_string(), value: "/bin/sh".to_string() },
            EnvVar { name: "KEYREF".to_string(), value: "%name%".to_string() },
            EnvVar { name: "TILDE".to_string(), value: "~/x".to_string() },
            EnvVar { name: "EMPTY".to_string(), value: String::new() },
        ],
        home: "/home/me/".to_string(),
        users: vec![UserHome { name: "bob".to_string(), home: "/home/bob".to_string() }],
    }
}

fn ok(raw: &str) -> String {
    render_in(&scope(), &context(), raw).unwrap()
}

fn err(raw: &str) -> Vec<RenderError> {
    render_in(&scope(), &context(), raw).unwrap_err()
}

#[test]
fn plain_strings_pass_through() {
    assert_eq!(ok("hello"), "hello");
    assert_eq!(ok(""), "");
    assert_eq!(ok("%name%"), "%name%");
    assert_eq!(ok("~/x %%"), "~/x %%");
    assert_eq!(ok(" :%name%"), " :%name%");
    assert_eq!(ok("%missing% ~nobody/"), "%missing% ~nobody/");
}

#[test]
fn sentinel_alone_renders_empty() {
    assert_eq!(ok(":"), "");
}

#[test]
fn sentinel_is_stripped() {
    assert_eq!(ok(":hello"), "hello");
    assert_eq!(ok("::"), ":");
}

#[test]
fn escaped_percent_collapses() {
    assert_eq!(ok(":100%%"), "100%");
    assert_eq!(ok(":%%name%%"), "%name%");
    assert_eq!(ok(":%%%%"), "%%");
    assert_eq!(ok(":a%%b%%c"), "a%b%c");
}

#[test]
fn lone_percent_is_text() {
    assert_eq!(ok(":50% off"), "50% off");
    assert_eq!(ok(":%%%"), "%%");
}

#[test]
fn percent_pairs_are_taken_left_to_right() {
    assert_eq!(ok(":%%%name%"), "%Ada");
    assert_eq!(err(":%name%%%"), vec![RenderError::UnknownKey("name%".to_string())]);
    assert_eq!(err(":%name%%name%"), vec![RenderError::UnknownKey("name%name".to_string())]);
}

#[test]
fn sentinel_characters_in_the_text_stay() {
    assert_eq!(ok(":\u{1a}\u{1}"), "\u{1a}\u{1}");
    assert_eq!(ok(":a\u{1a}\u{1}%%"), "a\u{1a}\u{1}%");
}

#[test]
fn scope_variable_is_substituted() {
    assert_eq!(ok(":Hello, %name%!"), "Hello, Ada!");
    assert_eq!(ok(":%name%-%name%"), "Ada-Ada");
    assert_eq!(ok(":%name% and %name%"), "Ada and Ada");
}

#[test]
fn substituted_text_is_not_scanned_again_by_its_stage() {
    assert_eq!(ok(":%nested%"), "%name%");
    assert_eq!(ok(":%pct%"), "100%%");
}

#[test]
fn substituted_text_is_scanned_by_later_stages() {
    assert_eq!(ok(":%env:KEYREF%"), "Ada");
    assert_eq!(ok(":%env:KEYREF:x%"), "Ada");
    assert_eq!(ok(":%dir%"), "/home/me/work");
    assert_eq!(ok(":%env:TILDE%"), "/home/me/x");
}

#[test]
fn unknown_key_is_an_error() {
    assert_eq!(err(":%missing%"), vec![RenderError::UnknownKey("missing".to_string())]);
    assert_eq!(err(":% %"), vec![RenderError::UnknownKey(" ".to_string())]);
}

#[test]
fn key_that_is_no_string_is_an_error() {
    assert_eq!(err(":%count%"), vec![RenderError::NotAString("count".to_string())]);
    assert_eq!(err(":%command%"), vec![RenderError::NotAString("command".to_string())]);
}

#[test]
fn two_unknown_keys_are_both_reported() {
    assert_eq!(
        err(":%first% and %second%"),
        vec![
            RenderError::UnknownKey("first".to_string()),
            RenderError::UnknownKey("second".to_string()),
        ]
    );
}

#[test]
fn problems_of_all_stages_are_collected_in_stage_order() {
    assert_eq!(
        err(":~nobody/ %missing% %env:UNSET% %count%"),
        vec![
            RenderError::UnknownEnvVar("UNSET".to_string()),
            RenderError::UnknownKey("missing".to_string()),
            RenderError::NotAString("count".to_string()),
            RenderError::UnknownUser("nobody".to_string()),
        ]
    );
}

#[test]
fn failed_placeholder_becomes_nothing_for_the_next_stage() {
    assert_eq!(err(":%na%env:UNSET%me%"), vec![RenderError::UnknownEnvVar("UNSET".to_string())]);
    assert_eq!(
        err(":%a%env:UNSET%b%"),
        vec![
            RenderError::UnknownEnvVar("UNSET".to_string()),
            RenderError::UnknownKey("ab".to_string()),
        ]
    );
}

#[test]
fn env_with_default_uses_the_value() {
    assert_eq!(ok(":%env:SHELL:/bin/false%"), "/bin/sh");
    assert_eq!(ok(":%env:EMPTY:fallback%"), "");
}

#[test]
fn env_with_default_uses_the_default() {
    assert_eq!(ok(":%env:UNSET:fallback%"), "fallback");
    assert_eq!(ok(":%env:UNSET:%"), "");
    assert_eq!(ok(":%env:UNSET:a:b%"), "a:b");
    assert_eq!(ok(":[%env:UNSET:x%][%env:UNSET:y%]"), "[x][y]");
}

#[test]
fn env_default_keeps_escaped_percent() {
    assert_eq!(ok(":%env:UNSET:100%%%"), "100%");
}

#[test]
fn env_name_runs_to_the_first_colon() {
    assert_eq!(ok(":%env:SHELL% and %env:UNSET:dflt%"), "UNSET:dflt");
    assert_eq!(ok(":%env:SHELL%:x%"), "x");
}

#[test]
fn env_required_uses_the_value() {
    assert_eq!(ok(":%env:SHELL%"), "/bin/sh");
    assert_eq!(ok(":<%env:EMPTY%>"), "<>");
}

#[test]
fn env_required_unset_is_an_error() {
    assert_eq!(err(":%env:UNSET%"), vec![RenderError::UnknownEnvVar("UNSET".to_string())]);
    assert_eq!(err(":%env:%"), vec![RenderError::UnknownEnvVar(String::new())]);
}

#[test]
fn placeholders_do_not_cross_lines() {
    assert_eq!(ok(":%na\nme%"), "%na\nme%");
    assert_eq!(ok(":%env:SHELL\n%"), "%env:SHELL\n%");
    assert_eq!(ok(":%env:UNSET:a\nb%"), "%env:UNSET:a\nb%");
    assert_eq!(ok(":%\n%name%"), "%\nAda");
}

#[test]
fn home_is_expanded() {
    assert_eq!(ok(":~/bin"), "/home/me/bin");
    assert_eq!(ok(":~/"), "/home/me/");
    assert_eq!(ok(":a~/b~/c"), "a/home/me/b/home/me/c");
}

#[test]
fn tilde_without_slash_is_text() {
    assert_eq!(ok(":~"), "~");
    assert_eq!(ok(":~bob"), "~bob");
    assert_eq!(ok(":~ /"), "~ /");
    assert_eq!(ok(":~Bob/"), "~Bob/");
    assert_eq!(ok(":~9lives/"), "~9lives/");
}

#[test]
fn named_user_home_is_expanded() {
    assert_eq!(ok(":~bob/bin"), "/home/bob/bin");
    assert_eq!(ok(":~bob/~/"), "/home/bob//home/me/");
}

#[test]
fn unknown_user_is_an_error() {
    assert_eq!(err(":~alice/bin"), vec![RenderError::UnknownUser("alice".to_string())]);
    assert_eq!(err(":~_x-9/"), vec![RenderError::UnknownUser("_x-9".to_string())]);
}

#[test]
fn user_names_have_at_most_thirty_one_characters() {
    let longest = "a".repeat(31);
    let too_long = "a".repeat(32);
    assert_eq!(
        err(&format!(":~{}/", longest)),
        vec![RenderError::UnknownUser(longest.clone())]
    );
    assert_eq!(ok(&format!(":~{}/", too_long)), format!("~{}/", too_long));
}

#[test]
fn non_ascii_text_is_kept() {
    assert_eq!(ok(":größe %name% ☃"), "größe Ada ☃");
    assert_eq!(err(":%schlüssel%"), vec![RenderError::UnknownKey("schlüssel".to_string())]);
}

#[test]
fn first_entry_of_a_key_wins() {
    let def = AliasDef { entries: vec![text("k", "first"), text("k", "second")] };
    assert_eq!(render_in(&def, &context(), ":%k%").unwrap(), "first");
}

#[test]
fn render_leaves_the_context_alone_for_plain_strings() {
    let mut ctx = context();
    assert_eq!(render(&scope(), &mut ctx, "~nobody_zz9/").unwrap(), "~nobody_zz9/");
    assert_eq!(ctx, context());
}

#[test]
fn render_uses_users_it_already_knows() {
    let mut ctx = context();
    assert_eq!(render(&scope(), &mut ctx, ":~bob/x").unwrap(), "/home/bob/x");
    assert_eq!(ctx, context());
}

#[test]
fn render_reports_a_user_the_system_lacks() {
    let mut ctx = context();
    assert_eq!(
        render(&scope(), &mut ctx, ":~no_such_user_zz9/x").unwrap_err(),
        vec![RenderError::UnknownUser("no_such_user_zz9".to_string())]
    );
    assert_eq!(ctx, context());
}

#[test]
fn render_learns_users_from_the_system() {
    let mut ctx = context();
    match render(&scope(), &mut ctx, ":~root/x") {
        Ok(text) => {
            assert_eq!(ctx.users.len(), 2);
            assert_eq!(ctx.users[0], context().users[0]);
            assert_eq!(ctx.users[1].name, "root");
            assert_eq!(text, format!("{}/x", ctx.users[1].home));
        }
        Err(errors) => {
            assert_eq!(errors, vec![RenderError::UnknownUser("root".to_string())]);
            assert_eq!(ctx, context());
        }
    }
    assert_eq!(ctx.vars, context().vars);
    assert_eq!(ctx.home, context().home);
}

#[test]
fn two_unknown_keys_with_a_word_between() {
    assert_eq!(
        err(":%a%between%b%"),
        vec![RenderError::UnknownKey("a".to_string()), RenderError::UnknownKey("b".to_string())]
    );
    assert_eq!(
        err(":%alpha beta% and %gamma%"),
        vec![
            RenderError::UnknownKey("alpha beta".to_string()),
            RenderError::UnknownKey("gamma".to_string()),
        ]
    );
}

fn names(raw: &str) -> Vec<String> {
    referred_users(&scope(), &context(), raw)
}

#[test]
fn referred_users_come_in_the_order_of_the_text() {
    assert_eq!(names(":~bob/ ~alice/x ~/ ~bob/"), vec!["bob", "alice", "bob"]);
    assert_eq!(names(":~/ ~ ~x ~Bob/"), Vec::<String>::new());
    assert_eq!(names(":"), Vec::<String>::new());
}

#[test]
fn referred_users_are_those_of_the_substituted_text() {
    let def = AliasDef { entries: vec![text("who", "~carol/"), text("u", "dave")] };
    let mut ctx = context();
    ctx.vars.push(EnvVar { name: "WHERE".to_string(), value: "~erin/".to_string() });
    assert_eq!(
        referred_users(&def, &ctx, ":%env:UNSET:~frank/% %who% ~%u%/ %env:WHERE%"),
        vec!["frank", "carol", "dave", "erin"]
    );
}

#[test]
fn plain_strings_refer_to_no_user() {
    assert_eq!(names("~bob/"), Vec::<String>::new());
    assert_eq!(names(""), Vec::<String>::new());
}

#[test]
fn noting_a_found_user_adds_it_at_the_end() {
    let mut ctx = context();
    note_user(&mut ctx, "alice".to_string(), Some("/home/alice".to_string()));
    let mut expected = context();
    expected.users.push(UserHome { name: "alice".to_string(), home: "/home/alice".to_string() });
    assert_eq!(ctx, expected);
    assert_eq!(render_in(&scope(), &ctx, ":~alice/x").unwrap(), "/home/alice/x");
}

#[test]
fn noting_a_listed_user_changes_nothing() {
    let mut ctx = context();
    note_user(&mut ctx, "bob".to_string(), Some("/elsewhere".to_string()));
    assert_eq!(ctx, context());
}

#[test]
fn noting_an_unknown_user_changes_nothing() {
    let mut ctx = context();
    note_user(&mut ctx, "alice".to_string(), None);
    assert_eq!(ctx, context());
}

#[test]
fn context_is_made_with_a_slash_at_the_end_of_home() {
    let vars = vec![EnvVar { name: "A".to_string(), value: "b".to_string() }];
    let ctx = Context::new(vars.clone(), Some("/home/u".to_string())).unwrap();
    assert_eq!(ctx, Context { vars, home: "/home/u/".to_string(), users: vec![] });
    assert!(ctx.is_well_formed());
    assert_eq!(render_in(&scope(), &ctx, ":~/bin/tool").unwrap(), "/home/u/bin/tool");
}

#[test]
fn no_context_without_a_home() {
    assert_eq!(Context::new(vec![], None), None);
}

#[test]
fn well_formed_means_home_ends_in_a_slash() {
    let with_home = |home: &str| Context { vars: vec![], home: home.to_string(), users: vec![] };
    assert!(with_home("/").is_well_formed());
    assert!(with_home("/home/u/").is_well_formed());
    assert!(!with_home("/home/u").is_well_formed());
    assert!(!with_home("").is_well_formed());
}

#[test]
fn current_context_has_a_home_that_ends_in_a_slash() {
    let vars = vec![EnvVar { name: "A".to_string(), value: "b".to_string() }];
    match Context::current(vars.clone()) {
        Some(ctx) => {
            assert!(ctx.is_well_formed());
            assert_eq!(ctx.vars, vars);
            assert!(ctx.users.is_empty());
        }
        None => {}
    }
}
