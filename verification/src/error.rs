//! Everything that can go wrong between an alias reference and the end of
//! its pipeline.

use crate::stages::{problems, Problem, RenderError};
use crate::text::texts;
use vstd::prelude::*;

verus! {

/// The three phases of a pipeline, in the order in which they run.
#[derive(Clone, Copy, Debug, PartialEq, Eq)]
pub enum Phase {
    Pre,
    Main,
    Post,
}

/// Why a reference resolves to no alias.
#[derive(Clone, Copy, Debug, PartialEq, Eq)]
pub enum Missing {
    /// The reference is a name, and no slot of the table has it.
    NoSuchName,
    /// The reference is a position, and its number is larger than any
    /// number the machine can count to.
    BadPosition,
    /// The reference leads to no definition: its position lies outside the
    /// table, or its slot holds something else.
    NoDefinition,
}

/// What is wrong with the shape of an alias definition. Steps are counted
/// from zero within their phase; the main step is step zero of its phase.
#[derive(Clone, Debug, PartialEq, Eq)]
pub enum Malformed {
    /// There is no `command`.
    MissingCommand,
    /// `command` is not a sequence.
    CommandNotList,
    /// `pre` or `post` is not a sequence.
    StepsNotList(Phase),
    /// A step of `pre` or `post` is not a sequence.
    StepNotList { phase: Phase, index: usize },
    /// A step has no element.
    EmptyStep { phase: Phase, index: usize },
    /// An element of a step is not a string; `shown` is the element as the
    /// definition writes it.
    ArgumentNotText { phase: Phase, index: usize, position: usize, shown: String },
}

/// The mathematical content of a [`Malformed`].
pub enum Flaw {
    MissingCommand,
    CommandNotList,
    StepsNotList(Phase),
    StepNotList { phase: Phase, index: usize },
    EmptyStep { phase: Phase, index: usize },
    ArgumentNotText { phase: Phase, index: usize, position: usize, shown: Seq<char> },
}

impl View for Malformed {
    type V = Flaw;

    open spec fn view(&self) -> Flaw {
        match *self {
            Malformed::MissingCommand => Flaw::MissingCommand,
            Malformed::CommandNotList => Flaw::CommandNotList,
            Malformed::StepsNotList(phase) => Flaw::StepsNotList(phase),
            Malformed::StepNotList { phase, index } => Flaw::StepNotList { phase, index },
            Malformed::EmptyStep { phase, index } => Flaw::EmptyStep { phase, index },
            Malformed::ArgumentNotText { phase, index, position, shown } => Flaw::ArgumentNotText {
                phase,
                index,
                position,
                shown: shown@,
            },
        }
    }
}

/// An error of the dispatcher.
#[derive(Clone, Debug, PartialEq, Eq)]
pub enum Error {
    /// The reference resolves to no alias.
    AliasNotFound { reference: String, why: Missing },
    /// The definition of the alias `name` does not have the shape it must
    /// have.
    MalformedDefinition { name: String, malformed: Malformed },
    /// A template could not be resolved; every problem of it is listed.
    Render(Vec<RenderError>),
    /// A step asks for a builtin that does not exist.
    UnknownBuiltin(String),
    /// The process of a step could not be started.
    ProcessSpawnFailure(String),
    /// The process of a step was started and then lost.
    ProcessWaitFailure(String),
    /// A builtin reported that it failed.
    BuiltinFailure(String),
    /// The process of a step ended with a status other than zero.
    NonZeroExit { argv: Vec<String>, code: i32 },
    /// The alias has no `description`.
    NoDescription,
    /// The `description` of the alias is not a string.
    DescriptionNotText,
}

/// The mathematical content of an [`Error`].
pub enum Failure {
    AliasNotFound { reference: Seq<char>, why: Missing },
    MalformedDefinition { name: Seq<char>, flaw: Flaw },
    Render(Seq<Problem>),
    UnknownBuiltin(Seq<char>),
    ProcessSpawnFailure(Seq<char>),
    ProcessWaitFailure(Seq<char>),
    BuiltinFailure(Seq<char>),
    NonZeroExit { argv: Seq<Seq<char>>, code: i32 },
    NoDescription,
    DescriptionNotText,
}

impl View for Error {
    type V = Failure;

    open spec fn view(&self) -> Failure {
        match *self {
            Error::AliasNotFound { reference, why } => Failure::AliasNotFound {
                reference: reference@,
                why,
            },
            Error::MalformedDefinition { name, malformed } => Failure::MalformedDefinition {
                name: name@,
                flaw: malformed@,
            },
            Error::Render(errors) => Failure::Render(problems(errors@)),
            Error::UnknownBuiltin(name) => Failure::UnknownBuiltin(name@),
            Error::ProcessSpawnFailure(why) => Failure::ProcessSpawnFailure(why@),
            Error::ProcessWaitFailure(why) => Failure::ProcessWaitFailure(why@),
            Error::BuiltinFailure(why) => Failure::BuiltinFailure(why@),
            Error::NonZeroExit { argv, code } => Failure::NonZeroExit { argv: texts(argv@), code },
            Error::NoDescription => Failure::NoDescription,
            Error::DescriptionNotText => Failure::DescriptionNotText,
        }
    }
}

} // verus!
