//! The step runner's decisions: what kind of step an argument vector is, and
//! what the outcome of running it means.

use crate::error::{Error, Failure};
use crate::text::texts;
use crate::text::{chars_of, same_text, string_of};
use vstd::prelude::*;

verus! {

/// The builtins that a step can ask for.
#[derive(Clone, Copy, Debug, PartialEq, Eq)]
pub enum Builtin {
    /// `&write-file`
    WriteFile,
}

/// What a step asks for, decided once from its argument vector.
#[derive(Clone, Debug, PartialEq, Eq)]
pub enum Step {
    /// Nothing: a comment, an empty vector, or a lone `-rc`.
    Nothing,
    /// An external process.
    Spawn { program: String, args: Vec<String>, ignore_exit: bool },
    /// A builtin.
    Builtin { builtin: Builtin, args: Vec<String> },
}

/// The mathematical content of a [`Step`].
pub enum Plan {
    Nothing,
    Spawn { program: Seq<char>, args: Seq<Seq<char>>, ignore_exit: bool },
    Builtin { builtin: Builtin, args: Seq<Seq<char>> },
}

impl View for Step {
    type V = Plan;

    open spec fn view(&self) -> Plan {
        match *self {
            Step::Nothing => Plan::Nothing,
            Step::Spawn { program, args, ignore_exit } => Plan::Spawn {
                program: program@,
                args: texts(args@),
                ignore_exit,
            },
            Step::Builtin { builtin, args } => Plan::Builtin { builtin, args: texts(args@) },
        }
    }
}

/// How running a step ended.
#[derive(Clone, Debug, PartialEq, Eq)]
pub enum Outcome {
    /// The process ran and ended, with this exit code if it has one.
    Exited(Option<i32>),
    /// The process could not be started.
    SpawnFailed(String),
    /// The process was started, but waiting for it failed.
    WaitFailed(String),
    /// The builtin did its work.
    BuiltinDone,
    /// The builtin reported that it failed.
    BuiltinFailed(String),
}

/// The mathematical content of an [`Outcome`].
pub enum Ending {
    Exited(Option<i32>),
    SpawnFailed(Seq<char>),
    WaitFailed(Seq<char>),
    BuiltinDone,
    BuiltinFailed(Seq<char>),
}

impl View for Outcome {
    type V = Ending;

    open spec fn view(&self) -> Ending {
        match *self {
            Outcome::Exited(code) => Ending::Exited(code),
            Outcome::SpawnFailed(why) => Ending::SpawnFailed(why@),
            Outcome::WaitFailed(why) => Ending::WaitFailed(why@),
            Outcome::BuiltinDone => Ending::BuiltinDone,
            Outcome::BuiltinFailed(why) => Ending::BuiltinFailed(why@),
        }
    }
}

/// The first element of a step that is a comment.
pub open spec fn comment_marker() -> Seq<char> {
    "#"@
}

/// The first element of a step whose exit code is ignored.
pub open spec fn ignore_marker() -> Seq<char> {
    "-rc"@
}

/// Whether `argv` begins with the marker that makes its exit code ignored.
pub open spec fn ignores_exit(argv: Seq<Seq<char>>) -> bool {
    argv.len() > 0 && argv[0] == ignore_marker()
}

/// The builtin called `name`, if there is one.
pub open spec fn builtin_named(name: Seq<char>) -> Option<Builtin> {
    if name == "write-file"@ {
        Some(Builtin::WriteFile)
    } else {
        None
    }
}

/// What the argument vector `argv` asks for.
///
/// An empty vector and one that begins with `#` ask for nothing. A leading
/// `-rc` is taken off and makes the exit code ignored; alone it asks for
/// nothing. What then comes first names a builtin if it begins with `&`, and
/// a program otherwise; the rest are its arguments.
pub open spec fn classify_spec(argv: Seq<Seq<char>>) -> Result<Plan, Failure> {
    if argv.len() == 0 || argv[0] == comment_marker() {
        Ok(Plan::Nothing)
    } else if ignores_exit(argv) && argv.len() == 1 {
        Ok(Plan::Nothing)
    } else {
        let at: int = if ignores_exit(argv) {
            1
        } else {
            0
        };
        let head = argv[at];
        let rest = argv.skip(at + 1);
        if head.len() > 0 && head[0] == '&' {
            match builtin_named(head.skip(1)) {
                Some(builtin) => Ok(Plan::Builtin { builtin, args: rest }),
                None => Err(Failure::UnknownBuiltin(head.skip(1))),
            }
        } else {
            Ok(Plan::Spawn { program: head, args: rest, ignore_exit: ignores_exit(argv) })
        }
    }
}

/// Whether the exit code of a step with this plan is ignored.
pub open spec fn plan_ignores_exit(plan: Plan) -> bool {
    match plan {
        Plan::Spawn { ignore_exit, .. } => ignore_exit,
        _ => false,
    }
}

/// What the ending `ending` of the step `argv` means.
///
/// A process that could not be started and a builtin that failed are
/// failures whatever the step says. Where the exit code is ignored,
/// everything else is a success. Otherwise a lost process is a failure, and
/// so is an exit code other than zero; a process without an exit code counts
/// as exit code one.
pub open spec fn settle_spec(ignore_exit: bool, argv: Seq<Seq<char>>, ending: Ending) -> Result<
    (),
    Failure,
> {
    match ending {
        Ending::SpawnFailed(why) => Err(Failure::ProcessSpawnFailure(why)),
        Ending::BuiltinFailed(why) => Err(Failure::BuiltinFailure(why)),
        Ending::BuiltinDone => Ok(()),
        Ending::WaitFailed(why) => if ignore_exit {
            Ok(())
        } else {
            Err(Failure::ProcessWaitFailure(why))
        },
        Ending::Exited(code) => {
            let status = match code {
                Some(c) => c,
                None => 1i32,
            };
            if ignore_exit || status == 0 {
                Ok(())
            } else {
                Err(Failure::NonZeroExit { argv, code: status })
            }
        },
    }
}

/// Copies of the strings of `argv` from position `from` on.
pub(crate) fn tail_of(argv: &Vec<String>, from: usize) -> (out: Vec<String>)
    requires
        from <= argv.len(),
    ensures
        texts(out@) == texts(argv@).skip(from as int),
{
    let mut out: Vec<String> = Vec::new();
    let mut i: usize = from;
    while i < argv.len()
        invariant
            from <= i <= argv.len(),
            texts(out@) == texts(argv@).subrange(from as int, i as int),
        decreases argv.len() - i,
    {
        let item: &String = &argv[i];
        let copy = item.clone();
        let ghost before = out@;
        out.push(copy);
        proof {
            assert(copy@ == argv@[i as int]@);
            assert(out@ == before.push(copy));
            assert(texts(before).len() == i - from);
            assert(texts(out@) =~= texts(argv@).subrange(from as int, i + 1));
        }
        i += 1;
    }
    proof {
        assert(texts(argv@).subrange(from as int, argv@.len() as int) =~= texts(argv@).skip(
            from as int,
        ));
    }
    out
}

/// Decides what the argument vector `argv` asks for.
pub fn classify(argv: &Vec<String>) -> (r: Result<Step, Error>)
    ensures
        match classify_spec(texts(argv@)) {
            Ok(plan) => r matches Ok(step) && step@ == plan,
            Err(failure) => r matches Err(e) && e@ == failure,
        },
{
    if argv.len() == 0 || same_text(argv[0].as_str(), "#") {
        return Ok(Step::Nothing);
    }
    let ignore_exit = same_text(argv[0].as_str(), "-rc");
    if ignore_exit && argv.len() == 1 {
        return Ok(Step::Nothing);
    }
    let at: usize = if ignore_exit {
        1
    } else {
        0
    };
    let head = chars_of(argv[at].as_str());
    let args = tail_of(argv, at + 1);
    if head.len() > 0 && head[0] == '&' {
        let name = string_of(vstd::slice::slice_subrange(head.as_slice(), 1, head.len()));
        proof {
            assert(name@ =~= texts(argv@)[at as int].skip(1));
        }
        if same_text(name.as_str(), "write-file") {
            Ok(Step::Builtin { builtin: Builtin::WriteFile, args })
        } else {
            Err(Error::UnknownBuiltin(name))
        }
    } else {
        Ok(Step::Spawn { program: argv[at].clone(), args, ignore_exit })
    }
}

/// Whether the exit code of `step` is ignored.
pub fn ignores_exit_code(step: &Step) -> (b: bool)
    ensures
        b == plan_ignores_exit(step@),
{
    match step {
        Step::Spawn { ignore_exit, .. } => *ignore_exit,
        _ => false,
    }
}

/// Decides what the outcome of running the step `argv` means. On a failure
/// by exit code the error takes `argv` with it.
pub fn settle(ignore_exit: bool, argv: Vec<String>, outcome: Outcome) -> (r: Result<(), Error>)
    ensures
        match settle_spec(ignore_exit, texts(argv@), outcome@) {
            Ok(()) => r is Ok,
            Err(failure) => r matches Err(e) && e@ == failure,
        },
{
    match outcome {
        Outcome::SpawnFailed(why) => Err(Error::ProcessSpawnFailure(why)),
        Outcome::BuiltinFailed(why) => Err(Error::BuiltinFailure(why)),
        Outcome::BuiltinDone => Ok(()),
        Outcome::WaitFailed(why) => if ignore_exit {
            Ok(())
        } else {
            Err(Error::ProcessWaitFailure(why))
        },
        Outcome::Exited(code) => {
            let status: i32 = match code {
                Some(c) => c,
                None => 1,
            };
            if ignore_exit || status == 0 {
                Ok(())
            } else {
                Err(Error::NonZeroExit { argv, code: status })
            }
        },
    }
}

} // verus!
