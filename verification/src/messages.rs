//! The text of every error, as it is shown to the user.

use crate::error::{Error, Failure, Flaw, Malformed, Missing, Phase};
use crate::stages::{problems, Problem, RenderError};
use crate::text::{join, join_spec, numeral, push_decimal, push_signed, signed_numeral, texts};
use vstd::prelude::*;

verus! {

/// The text that `{:?}` gives for a vector of strings with these contents:
/// the strings in double quotes, escaped as the standard library escapes
/// them, separated by a comma and a space, in square brackets.
pub uninterp spec fn debug_text(argv: Seq<Seq<char>>) -> Seq<char>;

/// Formats `argv` with the standard library's `Debug` for `Vec<String>`.
/// The text is a function of the strings' contents alone.
#[verifier::external_body]
fn debug_of(argv: &Vec<String>) -> (out: String)
    ensures
        out@ == debug_text(texts(argv@)),
{
    format!("{:?}", argv)
}

/// How messages call a phase.
pub open spec fn phase_name(phase: Phase) -> Seq<char> {
    match phase {
        Phase::Pre => "pre"@,
        Phase::Main => "main"@,
        Phase::Post => "post"@,
    }
}

/// The message of one problem of a template.
pub open spec fn problem_text(problem: Problem) -> Seq<char> {
    match problem {
        Problem::UnknownEnvVar(name) => "(Unknown ENV variable: "@ + name
            + ": environment variable not found"@,
        Problem::UnknownKey(key) => "(Unknown table key: "@ + key + ")"@,
        Problem::NotAString(key) => "(Failed to convert value to string for key: "@ + key + ")"@,
        Problem::UnknownUser(name) => "user '"@ + name + "' not found!"@,
    }
}

/// The messages of a list of problems.
pub open spec fn problem_texts(found: Seq<Problem>) -> Seq<Seq<char>> {
    Seq::new(found.len(), |i: int| problem_text(found[i]))
}

/// The message of a malformed definition of the alias `name`. What is
/// wrong with `command` is said of the alias by name; an element that is no
/// string is shown as the definition writes it.
pub open spec fn malformed_text(name: Seq<char>, flaw: Flaw) -> Seq<char> {
    match flaw {
        Flaw::MissingCommand => name + ": missing command array"@,
        Flaw::CommandNotList => name + ": command is not an array"@,
        Flaw::StepsNotList(phase) => phase_name(phase) + " is not an array"@,
        Flaw::StepNotList { phase, index } => phase_name(phase) + "["@ + numeral(index as nat)
            + "] is not an array"@,
        Flaw::EmptyStep { phase, index } => phase_name(phase) + "["@ + numeral(index as nat)
            + "] arg vector is empty"@,
        Flaw::ArgumentNotText { shown, .. } => "Unable to extract argument "@ + shown
            + " as a string"@,
    }
}

/// The message for a reference that resolves to no alias: that it was not
/// found and, for a name that the table lacks and for a position that is no
/// number of the machine, why.
pub open spec fn not_found_text(reference: Seq<char>, why: Missing) -> Seq<char> {
    match why {
        Missing::NoSuchName => reference + " not found: "@ + reference
            + " not found in the doit.toml"@,
        Missing::BadPosition => reference + " not found: INDEX"@,
        Missing::NoDefinition => reference + " not found"@,
    }
}

/// The message of a step that ended with the exit code `code`, where
/// `shown` is how its argument vector is shown.
pub open spec fn exit_status_text_spec(shown: Seq<char>, code: i32) -> Seq<char> {
    shown + "\nfailed with exit status: "@ + signed_numeral(code as int)
}

/// The message of an error. The problems of a template stand one per line.
pub open spec fn failure_text(failure: Failure) -> Seq<char> {
    match failure {
        Failure::AliasNotFound { reference, why } => not_found_text(reference, why),
        Failure::MalformedDefinition { name, flaw } => malformed_text(name, flaw),
        Failure::Render(found) => join_spec(problem_texts(found), "\n"@),
        Failure::UnknownBuiltin(name) => name + " is not a known builtin."@,
        Failure::ProcessSpawnFailure(why) => why,
        Failure::ProcessWaitFailure(why) => why,
        Failure::BuiltinFailure(why) => why,
        Failure::NonZeroExit { argv, code } => exit_status_text_spec(debug_text(argv), code),
        Failure::NoDescription => "No description provided"@,
        Failure::DescriptionNotText => "description must be a string"@,
    }
}

/// The message of an error as the details of an alias report it: a
/// reference that was not found is called a command.
pub open spec fn details_failure_text(failure: Failure) -> Seq<char> {
    match failure {
        Failure::AliasNotFound { .. } => "Command "@ + failure_text(failure),
        _ => failure_text(failure),
    }
}

/// How messages call a phase.
fn name_of(phase: Phase) -> (name: &'static str)
    ensures
        name@ == phase_name(phase),
{
    match phase {
        Phase::Pre => "pre",
        Phase::Main => "main",
        Phase::Post => "post",
    }
}

impl RenderError {
    /// The message of this error.
    pub fn message(&self) -> (out: String)
        ensures
            out@ == problem_text(self@),
    {
        let mut out = String::new();
        match self {
            RenderError::UnknownEnvVar(name) => {
                out.append("(Unknown ENV variable: ");
                out.append(name.as_str());
                out.append(": environment variable not found");
            },
            RenderError::UnknownKey(key) => {
                out.append("(Unknown table key: ");
                out.append(key.as_str());
                out.append(")");
            },
            RenderError::NotAString(key) => {
                out.append("(Failed to convert value to string for key: ");
                out.append(key.as_str());
                out.append(")");
            },
            RenderError::UnknownUser(name) => {
                out.append("user '");
                out.append(name.as_str());
                out.append("' not found!");
            },
        }
        proof {
            assert(out@ =~= problem_text(self@));
        }
        out
    }
}

/// The messages of a list of errors, one per line.
pub fn render_messages(errors: &Vec<RenderError>) -> (out: String)
    ensures
        out@ == join_spec(problem_texts(problems(errors@)), "\n"@),
{
    let mut lines: Vec<String> = Vec::new();
    let mut i: usize = 0;
    while i < errors.len()
        invariant
            i <= errors.len(),
            texts(lines@) == problem_texts(problems(errors@)).take(i as int),
        decreases errors.len() - i,
    {
        let line = errors[i].message();
        let ghost before = lines@;
        lines.push(line);
        proof {
            assert(texts(lines@) =~= texts(before).push(line@));
            assert(texts(lines@) =~= problem_texts(problems(errors@)).take(i + 1));
        }
        i += 1;
    }
    proof {
        assert(problem_texts(problems(errors@)).take(errors@.len() as int) =~= problem_texts(
            problems(errors@),
        ));
    }
    join(&lines, "\n")
}

impl Malformed {
    /// The message of this error, for the alias `name`.
    pub fn message(&self, name: &str) -> (out: String)
        ensures
            out@ == malformed_text(name@, self@),
    {
        let mut out = String::new();
        match self {
            Malformed::MissingCommand => {
                out.append(name);
                out.append(": missing command array");
            },
            Malformed::CommandNotList => {
                out.append(name);
                out.append(": command is not an array");
            },
            Malformed::StepsNotList(phase) => {
                out.append(name_of(*phase));
                out.append(" is not an array");
            },
            Malformed::StepNotList { phase, index } => {
                out.append(name_of(*phase));
                out.append("[");
                push_decimal(&mut out, *index as u64);
                out.append("] is not an array");
            },
            Malformed::EmptyStep { phase, index } => {
                out.append(name_of(*phase));
                out.append("[");
                push_decimal(&mut out, *index as u64);
                out.append("] arg vector is empty");
            },
            Malformed::ArgumentNotText { shown, .. } => {
                out.append("Unable to extract argument ");
                out.append(shown.as_str());
                out.append(" as a string");
            },
        }
        proof {
            assert(out@ =~= malformed_text(name@, self@));
        }
        out
    }
}

/// The message for the reference `reference` that resolves to no alias.
pub fn not_found_message(reference: &str, why: Missing) -> (out: String)
    ensures
        out@ == not_found_text(reference@, why),
{
    let mut out = String::new();
    out.append(reference);
    match why {
        Missing::NoSuchName => {
            out.append(" not found: ");
            out.append(reference);
            out.append(" not found in the doit.toml");
        },
        Missing::BadPosition => {
            out.append(" not found: INDEX");
        },
        Missing::NoDefinition => {
            out.append(" not found");
        },
    }
    proof {
        assert(out@ =~= not_found_text(reference@, why));
    }
    out
}

/// The message of a step that ended with the exit code `code`, where
/// `shown` is how its argument vector is shown.
pub fn exit_status_text(shown: &str, code: i32) -> (out: String)
    ensures
        out@ == exit_status_text_spec(shown@, code),
{
    let mut out = String::new();
    out.append(shown);
    out.append("\nfailed with exit status: ");
    push_signed(&mut out, code);
    proof {
        assert(out@ =~= exit_status_text_spec(shown@, code));
    }
    out
}

impl Error {
    /// The message of this error.
    pub fn message(&self) -> (out: String)
        ensures
            out@ == failure_text(self@),
    {
        match self {
            Error::AliasNotFound { reference, why } => not_found_message(reference.as_str(), *why),
            Error::MalformedDefinition { name, malformed } => malformed.message(name.as_str()),
            Error::Render(errors) => render_messages(errors),
            Error::UnknownBuiltin(name) => {
                let mut out = name.clone();
                out.append(" is not a known builtin.");
                out
            },
            Error::ProcessSpawnFailure(why) => why.clone(),
            Error::ProcessWaitFailure(why) => why.clone(),
            Error::BuiltinFailure(why) => why.clone(),
            Error::NonZeroExit { argv, code } => {
                let shown = debug_of(argv);
                exit_status_text(shown.as_str(), *code)
            },
            Error::NoDescription => "No description provided".to_owned(),
            Error::DescriptionNotText => "description must be a string".to_owned(),
        }
    }

    /// The message of this error as the details of an alias report it.
    pub fn details_message(&self) -> (out: String)
        ensures
            out@ == details_failure_text(self@),
    {
        match self {
            Error::AliasNotFound { .. } => {
                let mut out = String::new();
                out.append("Command ");
                out.append(self.message().as_str());
                proof {
                    assert(out@ =~= "Command "@ + failure_text(self@));
                }
                out
            },
            _ => self.message(),
        }
    }
}

} // verus!
