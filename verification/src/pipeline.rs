//! The pipeline executor as a state machine.
//!
//! A pipeline runs the steps of `pre`, then the main step, then the steps of
//! `post`, one at a time. The machine decides; its caller runs what the
//! machine launches and reports how it ended. The state between two turns is
//! the step that was launched.

use crate::error::{Error, Failure, Flaw, Malformed, Missing, Phase};
use crate::model::{lookup, written, AliasDef, Context, Entry, Value};
use crate::text::texts;
use crate::stages::{sources, Sources};
use crate::step::{
    classify, classify_spec, ignores_exit_code, plan_ignores_exit, settle, settle_spec, Ending,
    Outcome, Plan, Step,
};
use crate::locate::{find, locate_spec};
use crate::model::AliasTable;
use crate::learning::{definition_mentions, learn_definition};
use crate::template::{added_once, extends, render_in, render_spec};
use vstd::prelude::*;

verus! {

/// A step that was launched and whose outcome is awaited.
#[derive(Clone, Debug, PartialEq, Eq)]
pub struct Pending {
    /// The phase of the step.
    pub phase: Phase,
    /// The number of the step within its phase, counted from zero.
    pub index: usize,
    /// What the step asks for.
    pub step: Step,
    /// The rendered argument vector of the step.
    pub argv: Vec<String>,
}

/// The mathematical content of a [`Pending`].
pub struct PendingView {
    pub phase: Phase,
    pub index: usize,
    pub plan: Plan,
    pub argv: Seq<Seq<char>>,
}

impl View for Pending {
    type V = PendingView;

    open spec fn view(&self) -> PendingView {
        PendingView {
            phase: self.phase,
            index: self.index,
            plan: self.step@,
            argv: texts(self.argv@),
        }
    }
}

/// What the machine decides: to launch a step, or that the pipeline is over.
#[derive(Debug, PartialEq, Eq)]
pub enum Turn {
    Launch(Pending),
    Done(Result<(), Error>),
}

/// The mathematical content of a [`Turn`].
pub enum TurnView {
    Launch(PendingView),
    Done(Result<(), Failure>),
}

impl View for Turn {
    type V = TurnView;

    open spec fn view(&self) -> TurnView {
        match *self {
            Turn::Launch(pending) => TurnView::Launch(pending@),
            Turn::Done(Ok(())) => TurnView::Done(Ok(())),
            Turn::Done(Err(e)) => TurnView::Done(Err(e@)),
        }
    }
}

/// The key under which a definition holds the steps of `phase`.
pub open spec fn phase_key(phase: Phase) -> Seq<char> {
    match phase {
        Phase::Pre => "pre"@,
        Phase::Main => "command"@,
        Phase::Post => "post"@,
    }
}

/// The phase that follows `phase`, if any.
pub open spec fn following(phase: Phase) -> Option<Phase> {
    match phase {
        Phase::Pre => Some(Phase::Main),
        Phase::Main => Some(Phase::Post),
        Phase::Post => None,
    }
}

/// How many phases follow `phase`.
pub open spec fn phases_left(phase: Phase) -> nat {
    match phase {
        Phase::Pre => 2,
        Phase::Main => 1,
        Phase::Post => 0,
    }
}

/// How many steps `phase` has: one for the main phase, and for the others
/// the length of the sequence under their key.
pub open spec fn step_count(entries: Seq<Entry>, phase: Phase) -> nat {
    match phase {
        Phase::Main => 1,
        _ => match lookup(entries, phase_key(phase)) {
            Some(Value::List(steps, _)) => steps@.len(),
            _ => 0,
        },
    }
}

/// The elements of step `index` of `phase`, `None` where the phase has no
/// such step, and an error where the definition is malformed there.
///
/// The main phase has one step, the sequence under `command`, which must be
/// there. `pre` and `post` may be missing; where they are there they must be
/// sequences of sequences.
pub open spec fn step_items(entries: Seq<Entry>, phase: Phase, index: int) -> Result<
    Option<Seq<Value>>,
    Flaw,
> {
    match phase {
        Phase::Main => match lookup(entries, phase_key(phase)) {
            None => Err(Flaw::MissingCommand),
            Some(Value::List(items, _)) => if index == 0 {
                Ok(Some(items@))
            } else {
                Ok(None)
            },
            Some(_) => Err(Flaw::CommandNotList),
        },
        _ => match lookup(entries, phase_key(phase)) {
            None => Ok(None),
            Some(Value::List(steps, _)) => if 0 <= index < steps@.len() {
                match steps@[index] {
                    Value::List(items, _) => Ok(Some(items@)),
                    _ => Err(Flaw::StepNotList { phase, index: index as usize }),
                }
            } else {
                Ok(None)
            },
            Some(_) => Err(Flaw::StepsNotList(phase)),
        },
    }
}

/// The rendered elements of a step from position `k` on. Elements are taken
/// in order, and the first that is not a string or does not render decides.
pub open spec fn argv_from(
    src: Sources,
    name: Seq<char>,
    items: Seq<Value>,
    phase: Phase,
    index: int,
    k: int,
)
    -> Result<Seq<Seq<char>>, Failure>
    decreases items.len() - k,
{
    if k < 0 || k >= items.len() {
        Ok(Seq::empty())
    } else {
        match items[k] {
            Value::Text(raw) => match render_spec(src, raw@) {
                Ok(text) => match argv_from(src, name, items, phase, index, k + 1) {
                    Ok(rest) => Ok(seq![text] + rest),
                    Err(failure) => Err(failure),
                },
                Err(found) => Err(Failure::Render(found)),
            },
            other => Err(
                Failure::MalformedDefinition {
                    name,
                    flaw: Flaw::ArgumentNotText {
                        phase,
                        index: index as usize,
                        position: k as usize,
                        shown: written(other),
                    },
                },
            ),
        }
    }
}

/// The argument vector of a step with the elements `items`: the rendered
/// elements and, for the main step, the extra arguments as they are.
pub open spec fn step_argv(
    src: Sources,
    name: Seq<char>,
    items: Seq<Value>,
    phase: Phase,
    index: int,
    extra: Seq<Seq<char>>,
) -> Result<Seq<Seq<char>>, Failure> {
    if items.len() == 0 {
        Err(
            Failure::MalformedDefinition {
                name,
                flaw: Flaw::EmptyStep { phase, index: index as usize },
            },
        )
    } else {
        match argv_from(src, name, items, phase, index, 0) {
            Ok(argv) => Ok(
                if phase == Phase::Main {
                    argv + extra
                } else {
                    argv
                },
            ),
            Err(failure) => Err(failure),
        }
    }
}

/// The machine's decision when step `index` of `phase` is next.
///
/// Where the phase has no such step the next phase begins, and behind the
/// last phase the pipeline is over with success. A step that is malformed,
/// does not render or asks for an unknown builtin ends the pipeline with that
/// error. A step that asks for nothing is passed over. Every other step is
/// launched.
pub open spec fn turn_from(
    src: Sources,
    name: Seq<char>,
    extra: Seq<Seq<char>>,
    phase: Phase,
    index: int,
)
    -> TurnView
    decreases phases_left(phase), step_count(src.entries, phase) - index,
{
    match step_items(src.entries, phase, index) {
        Err(flaw) => TurnView::Done(Err(Failure::MalformedDefinition { name, flaw })),
        Ok(None) => match following(phase) {
            Some(next) => turn_from(src, name, extra, next, 0),
            None => TurnView::Done(Ok(())),
        },
        Ok(Some(items)) => match step_argv(src, name, items, phase, index, extra) {
            Err(failure) => TurnView::Done(Err(failure)),
            Ok(argv) => match classify_spec(argv) {
                Err(failure) => TurnView::Done(Err(failure)),
                Ok(Plan::Nothing) => turn_from(src, name, extra, phase, index + 1),
                Ok(plan) => TurnView::Launch(
                    PendingView { phase, index: index as usize, plan, argv },
                ),
            },
        },
    }
}

/// The machine's first decision.
pub open spec fn begin_spec(src: Sources, name: Seq<char>, extra: Seq<Seq<char>>) -> TurnView {
    turn_from(src, name, extra, Phase::Pre, 0)
}

/// The machine's decision when the launched step `pending` ended with
/// `ending`: a failure ends the pipeline with that failure, and after a
/// success the step behind `pending` is next.
pub open spec fn resume_spec(
    src: Sources,
    name: Seq<char>,
    extra: Seq<Seq<char>>,
    pending: PendingView,
    ending: Ending,
) -> TurnView {
    match settle_spec(plan_ignores_exit(pending.plan), pending.argv, ending) {
        Err(failure) => TurnView::Done(Err(failure)),
        Ok(()) => turn_from(src, name, extra, pending.phase, pending.index + 1),
    }
}

/// The key under which a definition holds the steps of `phase`.
fn key_of(phase: Phase) -> (key: &'static str)
    ensures
        key@ == phase_key(phase),
{
    match phase {
        Phase::Pre => "pre",
        Phase::Main => "command",
        Phase::Post => "post",
    }
}

/// The elements of step `index` of `phase`.
fn items_at<'a>(def: &'a AliasDef, phase: Phase, index: usize) -> (r: Result<
    Option<&'a Vec<Value>>,
    Malformed,
>)
    ensures
        match step_items(def.entries@, phase, index as int) {
            Ok(Some(items)) => r matches Ok(Some(found)) && found@ == items,
            Ok(None) => r == Ok::<Option<&Vec<Value>>, Malformed>(None),
            Err(flaw) => r matches Err(malformed) && malformed@ == flaw,
        },
        r matches Ok(Some(_)) ==> index < step_count(def.entries@, phase) && index < usize::MAX,
{
    match phase {
        Phase::Main => match def.get(key_of(phase)) {
            None => Err(Malformed::MissingCommand),
            Some(Value::List(items, _)) => if index == 0 {
                Ok(Some(items))
            } else {
                Ok(None)
            },
            Some(_) => Err(Malformed::CommandNotList),
        },
        _ => match def.get(key_of(phase)) {
            None => Ok(None),
            Some(Value::List(steps, _)) => if index < steps.len() {
                match &steps[index] {
                    Value::List(items, _) => Ok(Some(items)),
                    _ => Err(Malformed::StepNotList { phase, index }),
                }
            } else {
                Ok(None)
            },
            Some(_) => Err(Malformed::StepsNotList(phase)),
        },
    }
}

/// The rendered elements of a step.
fn render_items(
    def: &AliasDef,
    name: &str,
    ctx: &Context,
    items: &Vec<Value>,
    phase: Phase,
    index: usize,
) -> (r: Result<Vec<String>, Error>)
    requires
        ctx.well_formed(),
    ensures
        match argv_from(sources(*def, *ctx), name@, items@, phase, index as int, 0) {
            Ok(argv) => r matches Ok(found) && texts(found@) == argv,
            Err(failure) => r matches Err(e) && e@ == failure,
        },
{
    let ghost src = sources(*def, *ctx);
    let mut out: Vec<String> = Vec::new();
    let mut k: usize = 0;
    proof {
        assert(texts(out@) =~= Seq::<Seq<char>>::empty());
        lemma_join_nothing(argv_from(src, name@, items@, phase, index as int, 0));
    }
    while k < items.len()
        invariant
            k <= items.len(),
            src == sources(*def, *ctx),
            ctx.well_formed(),
            argv_from(src, name@, items@, phase, index as int, 0) == joined(
                texts(out@),
                argv_from(src, name@, items@, phase, index as int, k as int),
            ),
        decreases items.len() - k,
    {
        match &items[k] {
            Value::Text(raw) => match render_in(def, ctx, raw.as_str()) {
                Ok(text) => {
                    let ghost before = texts(out@);
                    out.push(text);
                    proof {
                        assert(texts(out@) =~= before.push(text@));
                        let rest = argv_from(src, name@, items@, phase, index as int, k + 1);
                        match rest {
                            Ok(more) => {
                                assert(before + (seq![text@] + more) =~= before.push(text@) + more);
                            },
                            Err(_) => {},
                        }
                    }
                },
                Err(errors) => {
                    return Err(Error::Render(errors));
                },
            },
            other => {
                return Err(
                    Error::MalformedDefinition {
                        name: name.to_owned(),
                        malformed: Malformed::ArgumentNotText {
                            phase,
                            index,
                            position: k,
                            shown: other.written(),
                        },
                    },
                );
            },
        }
        k += 1;
    }
    proof {
        assert(texts(out@) + Seq::<Seq<char>>::empty() =~= texts(out@));
    }
    Ok(out)
}

/// What is rendered so far, joined with what the rest of a step gives.
pub open spec fn joined(done: Seq<Seq<char>>, rest: Result<Seq<Seq<char>>, Failure>) -> Result<
    Seq<Seq<char>>,
    Failure,
> {
    match rest {
        Ok(more) => Ok(done + more),
        Err(failure) => Err(failure),
    }
}

/// Joined with nothing, a result is itself.
proof fn lemma_join_nothing(rest: Result<Seq<Seq<char>>, Failure>)
    ensures
        joined(Seq::empty(), rest) == rest,
{
    match rest {
        Ok(more) => {
            assert(Seq::<Seq<char>>::empty() + more =~= more);
        },
        Err(_) => {},
    }
}

/// Appends copies of the strings of `more`.
fn append_copies(out: &mut Vec<String>, more: &Vec<String>)
    ensures
        texts(final(out)@) == texts(old(out)@) + texts(more@),
{
    let mut i: usize = 0;
    proof {
        assert(texts(out@) =~= texts(old(out)@) + texts(more@).take(0));
    }
    while i < more.len()
        invariant
            i <= more.len(),
            texts(out@) == texts(old(out)@) + texts(more@).take(i as int),
        decreases more.len() - i,
    {
        let item: &String = &more[i];
        let copy = item.clone();
        let ghost before = out@;
        out.push(copy);
        proof {
            assert(copy@ == more@[i as int]@);
            assert(out@ == before.push(copy));
            assert(texts(out@) =~= texts(before).push(copy@));
            assert(texts(more@).take(i + 1) =~= texts(more@).take(i as int).push(copy@));
            assert((texts(old(out)@) + texts(more@).take(i as int)).push(copy@) =~= texts(
                old(out)@,
            ) + texts(more@).take(i + 1));
        }
        i += 1;
    }
    proof {
        assert(texts(more@).take(more@.len() as int) =~= texts(more@));
    }
}

/// The argument vector of a step.
fn argv_of(
    def: &AliasDef,
    name: &str,
    ctx: &Context,
    items: &Vec<Value>,
    phase: Phase,
    index: usize,
    extra: &Vec<String>,
) -> (r: Result<Vec<String>, Error>)
    requires
        ctx.well_formed(),
    ensures
        match step_argv(sources(*def, *ctx), name@, items@, phase, index as int, texts(extra@)) {
            Ok(argv) => r matches Ok(found) && texts(found@) == argv,
            Err(failure) => r matches Err(e) && e@ == failure,
        },
{
    if items.len() == 0 {
        return Err(
            Error::MalformedDefinition {
                name: name.to_owned(),
                malformed: Malformed::EmptyStep { phase, index },
            },
        );
    }
    match render_items(def, name, ctx, items, phase, index) {
        Ok(mut argv) => {
            match phase {
                Phase::Main => append_copies(&mut argv, extra),
                _ => {},
            }
            Ok(argv)
        },
        Err(e) => Err(e),
    }
}

/// The machine's decision when step `index` of `phase` is next.
fn turn(
    def: &AliasDef,
    name: &str,
    ctx: &Context,
    extra: &Vec<String>,
    phase: Phase,
    index: usize,
) -> (t: Turn)
    requires
        ctx.well_formed(),
    ensures
        t@ == turn_from(sources(*def, *ctx), name@, texts(extra@), phase, index as int),
    decreases phases_left(phase), step_count(def.entries@, phase) - index,
{
    match items_at(def, phase, index) {
        Err(malformed) => Turn::Done(
            Err(Error::MalformedDefinition { name: name.to_owned(), malformed }),
        ),
        Ok(None) => match phase {
            Phase::Pre => turn(def, name, ctx, extra, Phase::Main, 0),
            Phase::Main => turn(def, name, ctx, extra, Phase::Post, 0),
            Phase::Post => Turn::Done(Ok(())),
        },
        Ok(Some(items)) => match argv_of(def, name, ctx, items, phase, index, extra) {
            Err(e) => Turn::Done(Err(e)),
            Ok(argv) => match classify(&argv) {
                Err(e) => Turn::Done(Err(e)),
                Ok(Step::Nothing) => turn(def, name, ctx, extra, phase, index + 1),
                Ok(step) => Turn::Launch(Pending { phase, index, step, argv }),
            },
        },
    }
}

/// Begins the pipeline of the alias `name`, defined by `def`, with the extra
/// arguments `extra`, against exactly what `ctx` holds.
pub fn begin_in(def: &AliasDef, name: &str, ctx: &Context, extra: &Vec<String>) -> (t: Turn)
    requires
        ctx.well_formed(),
    ensures
        t@ == begin_spec(sources(*def, *ctx), name@, texts(extra@)),
{
    turn(def, name, ctx, extra, Phase::Pre, 0)
}

/// Goes on with the pipeline of the alias `name`, defined by `def`, after
/// the launched step `pending` ended with `outcome`, against exactly what
/// `ctx` holds.
pub fn resume_in(
    def: &AliasDef,
    name: &str,
    ctx: &Context,
    extra: &Vec<String>,
    pending: Pending,
    outcome: Outcome,
) -> (t: Turn)
    requires
        ctx.well_formed(),
    ensures
        t@ == resume_spec(sources(*def, *ctx), name@, texts(extra@), pending@, outcome@),
{
    let ignore_exit = ignores_exit_code(&pending.step);
    let phase = pending.phase;
    let index = pending.index;
    match settle(ignore_exit, pending.argv, outcome) {
        Err(e) => Turn::Done(Err(e)),
        Ok(()) => {
            if index < usize::MAX {
                turn(def, name, ctx, extra, phase, index + 1)
            } else {
                proof {
                    lemma_no_step_that_far(sources(*def, *ctx), name@, texts(extra@), phase, def.entries@);
                }
                turn(def, name, ctx, extra, phase, index)
            }
        },
    }
}

/// No phase has a step at the largest index a machine can count to, nor
/// behind it.
proof fn lemma_no_step_that_far(
    src: Sources,
    name: Seq<char>,
    extra: Seq<Seq<char>>,
    phase: Phase,
    entries: Seq<Entry>,
)
    requires
        src.entries == entries,
    ensures
        turn_from(src, name, extra, phase, usize::MAX as int) == turn_from(
            src,
            name,
            extra,
            phase,
            usize::MAX + 1,
        ),
{
    match lookup(entries, phase_key(phase)) {
        Some(Value::List(steps, _)) => {
            assert(steps.len() == steps@.len());
        },
        _ => {},
    }
}

/// Begins the pipeline of the alias `name`, defined by `def`, with the extra
/// arguments `extra`. The users that the definition refers to are looked up
/// first; the decision is that of [`begin_in`] against `ctx` as it then
/// stands.
pub fn begin(def: &AliasDef, name: &str, ctx: &mut Context, extra: &Vec<String>) -> (t: Turn)
    requires
        old(ctx).well_formed(),
    ensures
        t@ == begin_spec(sources(*def, *final(ctx)), name@, texts(extra@)),
        final(ctx).vars == old(ctx).vars,
        final(ctx).home == old(ctx).home,
        extends(old(ctx).users@, final(ctx).users@),
        added_once(final(ctx).users@, old(ctx).users@.len() as int),
        forall|k: int|
            old(ctx).users@.len() <= k < final(ctx).users@.len() ==> definition_mentions(
                sources(*def, *final(ctx)),
                #[trigger] final(ctx).users@[k].name@,
            ),
{
    learn_definition(def, ctx);
    begin_in(def, name, ctx, extra)
}

/// Goes on with the pipeline of the alias `name`, defined by `def`, after
/// the launched step `pending` ended with `outcome`. The users that the
/// definition refers to are looked up first; the decision is that of
/// [`resume_in`] against `ctx` as it then stands.
pub fn resume(
    def: &AliasDef,
    name: &str,
    ctx: &mut Context,
    extra: &Vec<String>,
    pending: Pending,
    outcome: Outcome,
) -> (t: Turn)
    requires
        old(ctx).well_formed(),
    ensures
        t@ == resume_spec(sources(*def, *final(ctx)), name@, texts(extra@), pending@, outcome@),
        final(ctx).vars == old(ctx).vars,
        final(ctx).home == old(ctx).home,
        extends(old(ctx).users@, final(ctx).users@),
        added_once(final(ctx).users@, old(ctx).users@.len() as int),
        forall|k: int|
            old(ctx).users@.len() <= k < final(ctx).users@.len() ==> definition_mentions(
                sources(*def, *final(ctx)),
                #[trigger] final(ctx).users@[k].name@,
            ),
{
    learn_definition(def, ctx);
    resume_in(def, name, ctx, extra, pending, outcome)
}

/// A pipeline that has begun: the alias it runs and the machine's first
/// decision.
#[derive(Debug, PartialEq, Eq)]
pub struct Started {
    /// The index of the alias in the table.
    pub index: usize,
    /// The canonical name of the alias.
    pub name: String,
    /// The machine's first decision.
    pub turn: Turn,
}

/// Resolves `cmd_name` against `table` and begins the pipeline of the alias
/// found, with `args` as its extra arguments.
pub fn primary(table: &AliasTable, ctx: &mut Context, cmd_name: &str, args: &Vec<String>) -> (r:
    Result<Started, Error>)
    requires
        old(ctx).well_formed(),
    ensures
        final(ctx).vars == old(ctx).vars,
        final(ctx).home == old(ctx).home,
        extends(old(ctx).users@, final(ctx).users@),
        added_once(final(ctx).users@, old(ctx).users@.len() as int),
        match locate_spec(table.aliases@, cmd_name@) {
            Ok(k) => r matches Ok(started) && started.index == k && started.name@
                == table.aliases@[k].name@ && started.turn@ == begin_spec(
                sources(table.aliases@[k].def->0, *final(ctx)),
                table.aliases@[k].name@,
                texts(args@),
            ) && forall|u: int|
                old(ctx).users@.len() <= u < final(ctx).users@.len() ==> definition_mentions(
                    sources(table.aliases@[k].def->0, *final(ctx)),
                    #[trigger] final(ctx).users@[u].name@,
                ),
            Err(why) => r matches Err(e) && e@ == (Failure::AliasNotFound {
                reference: cmd_name@,
                why,
            }) && final(ctx).users == old(ctx).users,
        },
{
    proof {
        assert(ctx.users@.subrange(0, ctx.users@.len() as int) =~= ctx.users@);
    }
    match find(table, cmd_name) {
        Ok(index) => match &table.aliases[index].def {
            Some(def) => {
                let name = table.aliases[index].name.clone();
                let turn = begin(def, name.as_str(), ctx, args);
                Ok(Started { index, name, turn })
            },
            None => Err(
                Error::AliasNotFound { reference: cmd_name.to_owned(), why: Missing::NoDefinition },
            ),
        },
        Err(why) => Err(Error::AliasNotFound { reference: cmd_name.to_owned(), why }),
    }
}

} // verus!
