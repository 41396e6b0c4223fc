use doit::error::{Error, Malformed, Missing, Phase};
use doit::model::{Alias, AliasDef, AliasTable, Context, Entry, Value};
use doit::pipeline::{begin, begin_in, primary, resume, resume_in, Pending, Started, Turn};
use doit::stages::RenderError;
use doit::step::{Builtin, Outcome, Step};

fn malformed(malformed: Malformed) -> Error {
    Error::MalformedDefinition { name: "alias".to_string(), malformed }
}

fn listed(items: Vec<Value>) -> Value {
    Value::List(items, String::new())
}

fn words(items: &[&str]) -> Vec<String> {
    items.iter().map(|w| w.to_string()).collect()
}

fn list(items: &[&str]) -> Value {
    listed(items.iter().map(|w| Value::Text(w.to_string())).collect())
}

fn steps(all: &[&[&str]]) -> Value {
    listed(all.iter().map(|s| list(s)).collect())
}

fn entry(key: &str, value: Value) -> Entry {
    Entry { key: key.to_string(), value }
}

fn context() -> Context {
    Context { vars: vec![], home: "/home/me/".to_string(), users: vec![] }
}

fn spawn(phase: Phase, index: usize, argv: &[&str]) -> Turn {
    Turn::Launch(Pending {
        phase,
        index,
        step: Step::Spawn { program: argv[0].to_string(), args: words(&argv[1..]), ignore_exit: false },
        argv: words(argv),
    })
}

fn pending(turn: Turn) -> Pending {
    match turn {
        Turn::Launch(p) => p,
        Turn::Done(r) => panic!("pipeline is over: {:?}", r),
    }
}

/// Runs the pipeline, answering each launch with the next outcome, and
/// gives the argument vectors launched and how the pipeline ended.
fn run(def: &AliasDef, extra: &[&str], outcomes: Vec<Outcome>) -> (Vec<Vec<String>>, Result<(), Error>) {
    let ctx = context();
    let extra = words(extra);
    let mut launched = Vec::new();
    let mut outcomes = outcomes.into_iter();
    let mut turn = begin_in(def, "alias", &ctx, &extra);
    loop {
        match turn {
            Turn::Done(result) => return (launched, result),
            Turn::Launch(p) => {
                launched.push(p.argv.clone());
                let outcome = outcomes.next().expect("one outcome for each launch");
                turn = resume_in(def, "alias", &ctx, &extra, p, outcome);
            }
        }
    }
}

fn exit(code: i32) -> Outcome {
    Outcome::Exited(Some(code))
}

fn full() -> AliasDef {
    AliasDef {
        entries: vec![
            entry("pre", steps(&[&["echo", "one"], &["echo", "two"]])),
            entry("command", list(&["make", ":%target%"])),
            entry("post", steps(&[&["echo", "three"], &["echo", "four"]])),
            entry("target", Value::Text("all".to_string())),
        ],
    }
}

#[test]
fn steps_run_in_order() {
    let (launched, result) = run(&full(), &["-j", ":%x%"], vec![exit(0), exit(0), exit(0), exit(0), exit(0)]);
    assert_eq!(
        launched,
        vec![
            words(&["echo", "one"]),
            words(&["echo", "two"]),
            words(&["make", "all", "-j", ":%x%"]),
            words(&["echo", "three"]),
            words(&["echo", "four"]),
        ]
    );
    assert_eq!(result, Ok(()));
}

#[test]
fn first_turn_is_the_first_pre_step() {
    assert_eq!(begin_in(&full(), "alias", &context(), &vec![]), spawn(Phase::Pre, 0, &["echo", "one"]));
}

#[test]
fn turns_carry_phase_and_index() {
    let def = full();
    let ctx = context();
    let extra = vec![];
    let t0 = begin_in(&def, "alias", &ctx, &extra);
    let t1 = resume_in(&def, "alias", &ctx, &extra, pending(t0), exit(0));
    assert_eq!(t1, spawn(Phase::Pre, 1, &["echo", "two"]));
    let t2 = resume_in(&def, "alias", &ctx, &extra, pending(t1), exit(0));
    assert_eq!(t2, spawn(Phase::Main, 0, &["make", "all"]));
    let t3 = resume_in(&def, "alias", &ctx, &extra, pending(t2), exit(0));
    assert_eq!(t3, spawn(Phase::Post, 0, &["echo", "three"]));
    let t4 = resume_in(&def, "alias", &ctx, &extra, pending(t3), exit(0));
    assert_eq!(t4, spawn(Phase::Post, 1, &["echo", "four"]));
    let t5 = resume_in(&def, "alias", &ctx, &extra, pending(t4), exit(0));
    assert_eq!(t5, Turn::Done(Ok(())));
}

#[test]
fn failing_first_pre_step_stops_everything() {
    let (launched, result) = run(&full(), &[], vec![exit(7)]);
    assert_eq!(launched, vec![words(&["echo", "one"])]);
    assert_eq!(result, Err(Error::NonZeroExit { argv: words(&["echo", "one"]), code: 7 }));
}

#[test]
fn failing_second_pre_step_stops_main_and_post() {
    let (launched, result) = run(&full(), &[], vec![exit(0), exit(1)]);
    assert_eq!(launched, vec![words(&["echo", "one"]), words(&["echo", "two"])]);
    assert_eq!(result, Err(Error::NonZeroExit { argv: words(&["echo", "two"]), code: 1 }));
}

#[test]
fn failing_main_step_skips_post() {
    let (launched, result) = run(&full(), &[], vec![exit(0), exit(0), exit(2)]);
    assert_eq!(launched.len(), 3);
    assert_eq!(launched[2], words(&["make", "all"]));
    assert_eq!(result, Err(Error::NonZeroExit { argv: words(&["make", "all"]), code: 2 }));
}

#[test]
fn failing_post_step_is_reported() {
    let (launched, result) = run(&full(), &[], vec![exit(0), exit(0), exit(0), exit(9)]);
    assert_eq!(launched.len(), 4);
    assert_eq!(result, Err(Error::NonZeroExit { argv: words(&["echo", "three"]), code: 9 }));
}

#[test]
fn spawn_failure_stops_the_pipeline() {
    let (launched, result) = run(&full(), &[], vec![Outcome::SpawnFailed("not found".to_string())]);
    assert_eq!(launched.len(), 1);
    assert_eq!(result, Err(Error::ProcessSpawnFailure("not found".to_string())));
}

#[test]
fn greeting_renders_its_argument() {
    let def = AliasDef {
        entries: vec![
            entry("command", list(&[":Hello, %name%!"])),
            entry("name", Value::Text("Ada".to_string())),
        ],
    };
    let (launched, result) = run(&def, &[], vec![exit(0)]);
    assert_eq!(launched, vec![words(&["Hello, Ada!"])]);
    assert_eq!(result, Ok(()));
    assert_eq!(begin_in(&def, "alias", &context(), &vec![]), spawn(Phase::Main, 0, &["Hello, Ada!"]));
}

#[test]
fn failing_build_reports_its_exit_code() {
    let def = AliasDef {
        entries: vec![
            entry("pre", steps(&[&["echo", "starting"]])),
            entry("command", list(&["make"])),
            entry("post", steps(&[&["echo", "done"]])),
        ],
    };
    let (launched, result) = run(&def, &[], vec![exit(0), exit(2)]);
    assert_eq!(launched, vec![words(&["echo", "starting"]), words(&["make"])]);
    assert_eq!(result, Err(Error::NonZeroExit { argv: words(&["make"]), code: 2 }));
}

#[test]
fn ignored_exit_code_lets_the_pipeline_go_on() {
    let def = AliasDef {
        entries: vec![
            entry("pre", steps(&[&["-rc", "false"]])),
            entry("command", list(&["make"])),
        ],
    };
    let (launched, result) = run(&def, &[], vec![exit(1), exit(0)]);
    assert_eq!(launched, vec![words(&["-rc", "false"]), words(&["make"])]);
    assert_eq!(result, Ok(()));
}

#[test]
fn steps_that_ask_for_nothing_are_passed_over() {
    let def = AliasDef {
        entries: vec![
            entry("pre", steps(&[&["#", "a comment"], &["-rc"], &["echo", "real"], &["#"]])),
            entry("command", list(&["#", "not even the main step runs"])),
            entry("post", steps(&[&["#"], &["echo", "after"]])),
        ],
    };
    let (launched, result) = run(&def, &["extra"], vec![exit(0), exit(0)]);
    assert_eq!(launched, vec![words(&["echo", "real"]), words(&["echo", "after"])]);
    assert_eq!(result, Ok(()));
    assert_eq!(begin_in(&def, "alias", &context(), &vec![]), spawn(Phase::Pre, 2, &["echo", "real"]));
}

#[test]
fn pipeline_of_comments_launches_nothing() {
    let def = AliasDef {
        entries: vec![entry("pre", steps(&[&["#", "x"]])), entry("command", list(&["#", "anything"]))],
    };
    assert_eq!(begin_in(&def, "alias", &context(), &vec![]), Turn::Done(Ok(())));
}

#[test]
fn command_alone_is_a_pipeline() {
    let def = AliasDef { entries: vec![entry("command", list(&["ls"]))] };
    let (launched, result) = run(&def, &["-l", "~/"], vec![exit(0)]);
    assert_eq!(launched, vec![words(&["ls", "-l", "~/"])]);
    assert_eq!(result, Ok(()));
}

#[test]
fn extra_arguments_go_to_the_main_step_only() {
    let def = AliasDef {
        entries: vec![
            entry("pre", steps(&[&["a"]])),
            entry("command", list(&["b"])),
            entry("post", steps(&[&["c"]])),
        ],
    };
    let (launched, _) = run(&def, &["x", "y"], vec![exit(0), exit(0), exit(0)]);
    assert_eq!(launched, vec![words(&["a"]), words(&["b", "x", "y"]), words(&["c"])]);
}

#[test]
fn extra_argument_can_make_a_comment_of_nothing() {
    let def = AliasDef { entries: vec![entry("command", list(&["-rc"]))] };
    let (launched, result) = run(&def, &["false"], vec![exit(1)]);
    assert_eq!(launched, vec![words(&["-rc", "false"])]);
    assert_eq!(result, Ok(()));
}

#[test]
fn builtin_step_is_launched_as_builtin() {
    let def = AliasDef { entries: vec![entry("command", list(&["&write-file", "x"]))] };
    let turn = begin_in(&def, "alias", &context(), &vec![]);
    assert_eq!(
        turn,
        Turn::Launch(Pending {
            phase: Phase::Main,
            index: 0,
            step: Step::Builtin { builtin: Builtin::WriteFile, args: words(&["x"]) },
            argv: words(&["&write-file", "x"]),
        })
    );
    assert_eq!(
        resume_in(&def, "alias", &context(), &vec![], pending(turn), Outcome::BuiltinFailed("no".to_string())),
        Turn::Done(Err(Error::BuiltinFailure("no".to_string())))
    );
}

#[test]
fn unknown_builtin_ends_the_pipeline() {
    let def = AliasDef {
        entries: vec![entry("pre", steps(&[&["a"], &["&nope"]])), entry("command", list(&["b"]))],
    };
    let (launched, result) = run(&def, &[], vec![exit(0)]);
    assert_eq!(launched, vec![words(&["a"])]);
    assert_eq!(result, Err(Error::UnknownBuiltin("nope".to_string())));
}

#[test]
fn render_error_ends_the_pipeline_where_it_occurs() {
    let def = AliasDef {
        entries: vec![
            entry("pre", steps(&[&["a"], &["b", ":%x% %y%", ":%z%"]])),
            entry("command", list(&["c"])),
        ],
    };
    let (launched, result) = run(&def, &[], vec![exit(0)]);
    assert_eq!(launched, vec![words(&["a"])]);
    assert_eq!(
        result,
        Err(Error::Render(vec![
            RenderError::UnknownKey("x".to_string()),
            RenderError::UnknownKey("y".to_string()),
        ]))
    );
}

#[test]
fn missing_command_is_malformed() {
    let def = AliasDef { entries: vec![entry("pre", steps(&[&["a"]]))] };
    let (launched, result) = run(&def, &[], vec![exit(0)]);
    assert_eq!(launched, vec![words(&["a"])]);
    assert_eq!(result, Err(malformed(Malformed::MissingCommand)));
    let empty = AliasDef { entries: vec![] };
    assert_eq!(
        begin_in(&empty, "alias", &context(), &vec![]),
        Turn::Done(Err(malformed(Malformed::MissingCommand)))
    );
}

#[test]
fn command_that_is_no_list_is_malformed() {
    let def = AliasDef { entries: vec![entry("command", Value::Text("make".to_string()))] };
    assert_eq!(
        begin_in(&def, "alias", &context(), &vec![]),
        Turn::Done(Err(malformed(Malformed::CommandNotList)))
    );
}

#[test]
fn empty_command_is_malformed() {
    let def = AliasDef { entries: vec![entry("command", list(&[]))] };
    assert_eq!(
        begin_in(&def, "alias", &context(), &words(&["x"])),
        Turn::Done(Err(malformed(Malformed::EmptyStep { phase: Phase::Main, index: 0 })))
    );
}

#[test]
fn steps_that_are_no_list_are_malformed() {
    let def = AliasDef {
        entries: vec![entry("pre", Value::Text("echo".to_string())), entry("command", list(&["c"]))],
    };
    assert_eq!(
        begin_in(&def, "alias", &context(), &vec![]),
        Turn::Done(Err(malformed(Malformed::StepsNotList(Phase::Pre))))
    );
    let def = AliasDef { entries: vec![entry("command", list(&["c"])), entry("post", Value::Other("42".to_string()))] };
    let (launched, result) = run(&def, &[], vec![exit(0)]);
    assert_eq!(launched, vec![words(&["c"])]);
    assert_eq!(result, Err(malformed(Malformed::StepsNotList(Phase::Post))));
}

#[test]
fn step_that_is_no_list_is_malformed() {
    let def = AliasDef {
        entries: vec![
            entry("pre", listed(vec![list(&["a"]), Value::Text("b".to_string())])),
            entry("command", list(&["c"])),
        ],
    };
    let (launched, result) = run(&def, &[], vec![exit(0)]);
    assert_eq!(launched, vec![words(&["a"])]);
    assert_eq!(
        result,
        Err(malformed(Malformed::StepNotList { phase: Phase::Pre, index: 1 }))
    );
}

#[test]
fn empty_step_is_malformed() {
    let def = AliasDef {
        entries: vec![entry("command", list(&["c"])), entry("post", steps(&[&["a"], &[]]))],
    };
    let (launched, result) = run(&def, &[], vec![exit(0), exit(0)]);
    assert_eq!(launched.len(), 2);
    assert_eq!(
        result,
        Err(malformed(Malformed::EmptyStep { phase: Phase::Post, index: 1 }))
    );
}

#[test]
fn argument_that_is_no_string_is_malformed() {
    let def = AliasDef {
        entries: vec![entry(
            "command",
            listed(vec![Value::Text("a".to_string()), Value::Text("b".to_string()), Value::Other("42".to_string())]),
        )],
    };
    assert_eq!(
        begin_in(&def, "alias", &context(), &vec![]),
        Turn::Done(Err(malformed(Malformed::ArgumentNotText {
            phase: Phase::Main,
            index: 0,
            position: 2,
            shown: "42".to_string(),
        })))
    );
}

#[test]
fn first_bad_element_of_a_step_decides() {
    let def = AliasDef {
        entries: vec![entry(
            "command",
            listed(vec![Value::Text(":%x%".to_string()), Value::Other("42".to_string())]),
        )],
    };
    assert_eq!(
        begin_in(&def, "alias", &context(), &vec![]),
        Turn::Done(Err(Error::Render(vec![RenderError::UnknownKey("x".to_string())])))
    );
    let def = AliasDef {
        entries: vec![entry(
            "command",
            listed(vec![Value::List(vec![], "[ ]".to_string()), Value::Text(":%x%".to_string())]),
        )],
    };
    assert_eq!(
        begin_in(&def, "alias", &context(), &vec![]),
        Turn::Done(Err(malformed(Malformed::ArgumentNotText {
            phase: Phase::Main,
            index: 0,
            position: 0,
            shown: "[ ]".to_string(),
        })))
    );
}

#[test]
fn pending_with_the_largest_index_goes_on_to_the_next_phase() {
    let forged = Pending {
        phase: Phase::Pre,
        index: usize::MAX,
        step: Step::Spawn { program: "x".to_string(), args: vec![], ignore_exit: false },
        argv: words(&["x"]),
    };
    assert_eq!(
        resume_in(&full(), "alias", &context(), &vec![], forged, exit(0)),
        spawn(Phase::Main, 0, &["make", "all"])
    );
}

#[test]
fn begin_and_resume_agree_with_the_pure_machine() {
    let def = full();
    let mut ctx = context();
    let extra = words(&["x"]);
    let t0 = begin(&def, "alias", &mut ctx, &extra);
    assert_eq!(t0, begin_in(&def, "alias", &context(), &extra));
    let t1 = resume(&def, "alias", &mut ctx, &extra, pending(t0), exit(0));
    assert_eq!(t1, spawn(Phase::Pre, 1, &["echo", "two"]));
    assert_eq!(ctx, context());
}

#[test]
fn begin_reports_users_the_system_lacks() {
    let def = AliasDef { entries: vec![entry("command", list(&["ls", ":~no_such_user_zz9/"]))] };
    let mut ctx = context();
    assert_eq!(
        begin(&def, "alias", &mut ctx, &vec![]),
        Turn::Done(Err(Error::Render(vec![RenderError::UnknownUser("no_such_user_zz9".to_string())])))
    );
    assert_eq!(ctx, context());
}

fn table() -> AliasTable {
    AliasTable {
        aliases: vec![
            Alias { name: "build".to_string(), def: Some(full()) },
            Alias { name: "note".to_string(), def: None },
            Alias {
                name: "greet".to_string(),
                def: Some(AliasDef {
                    entries: vec![
                        entry("command", list(&[":Hello, %name%!"])),
                        entry("name", Value::Text("Ada".to_string())),
                    ],
                }),
            },
        ],
    }
}

#[test]
fn primary_begins_the_named_alias() {
    let mut ctx = context();
    assert_eq!(
        primary(&table(), &mut ctx, "greet", &vec![]),
        Ok(Started { index: 2, name: "greet".to_string(), turn: spawn(Phase::Main, 0, &["Hello, Ada!"]) })
    );
}

#[test]
fn primary_begins_the_alias_at_a_position() {
    let mut ctx = context();
    assert_eq!(
        primary(&table(), &mut ctx, "@1", &words(&["x"])),
        Ok(Started { index: 0, name: "build".to_string(), turn: spawn(Phase::Pre, 0, &["echo", "one"]) })
    );
    assert_eq!(
        primary(&table(), &mut ctx, "@3", &words(&["x"])),
        Ok(Started {
            index: 2,
            name: "greet".to_string(),
            turn: spawn(Phase::Main, 0, &["Hello, Ada!", "x"])
        })
    );
}

#[test]
fn primary_fails_for_what_is_not_there() {
    let mut ctx = context();
    for (reference, why) in [
        ("nope", Missing::NoSuchName),
        ("", Missing::NoSuchName),
        ("@0", Missing::NoDefinition),
        ("@4", Missing::NoDefinition),
        ("@2", Missing::NoDefinition),
        ("note", Missing::NoDefinition),
        ("@99999999999999999999999999", Missing::BadPosition),
    ] {
        assert_eq!(
            primary(&table(), &mut ctx, reference, &vec![]),
            Err(Error::AliasNotFound { reference: reference.to_string(), why })
        );
    }
}

#[test]
fn malformed_command_names_the_alias() {
    let def = AliasDef { entries: vec![entry("pre", steps(&[&["#"]]))] };
    assert_eq!(
        begin_in(&def, "build", &context(), &vec![]),
        Turn::Done(Err(Error::MalformedDefinition {
            name: "build".to_string(),
            malformed: Malformed::MissingCommand
        }))
    );
    let mut ctx = context();
    let table = AliasTable { aliases: vec![Alias { name: "build".to_string(), def: Some(def) }] };
    match primary(&table, &mut ctx, "@1", &vec![]).unwrap().turn {
        Turn::Done(Err(e)) => assert_eq!(e.message(), "build: missing command array"),
        other => panic!("{:?}", other),
    }
}
