//! Whole runs of a pipeline, and what holds of every run: steps are launched
//! in order, each at most once; nothing is launched behind a failure; and a
//! well-formed definition never ends as malformed.

use crate::error::{Failure, Phase};
use crate::model::{lookup, Entry, Value};
use crate::pipeline::{
    argv_from, begin_spec, following, phase_key, phases_left, resume_spec, step_argv, step_count,
    step_items, turn_from, PendingView, TurnView,
};
use crate::stages::Sources;
use crate::step::{
    classify_spec, comment_marker, ignores_exit, plan_ignores_exit, settle_spec, Ending, Plan,
};
use vstd::prelude::*;

verus! {

/// The steps that a run launches from the decision `turn` on, where
/// `endings` tells how the launched steps end, one after the other. A step
/// whose ending is not told is the last one.
pub open spec fn launches(
    src: Sources,
    name: Seq<char>,
    extra: Seq<Seq<char>>,
    turn: TurnView,
    endings: Seq<Ending>,
) -> Seq<PendingView>
    decreases endings.len(),
{
    match turn {
        TurnView::Done(_) => Seq::empty(),
        TurnView::Launch(pending) => if endings.len() == 0 {
            seq![pending]
        } else {
            seq![pending] + launches(
                src,
                name,
                extra,
                resume_spec(src, name, extra, pending, endings[0]),
                endings.skip(1),
            )
        },
    }
}

/// How a run ends from the decision `turn` on, or `None` while a launched
/// step's ending is not told.
pub open spec fn verdict(
    src: Sources,
    name: Seq<char>,
    extra: Seq<Seq<char>>,
    turn: TurnView,
    endings: Seq<Ending>,
) -> Option<Result<(), Failure>>
    decreases endings.len(),
{
    match turn {
        TurnView::Done(result) => Some(result),
        TurnView::Launch(pending) => if endings.len() == 0 {
            None
        } else {
            verdict(src, name, extra, resume_spec(src, name, extra, pending, endings[0]), endings.skip(1))
        },
    }
}

/// What the ending of the launched step `pending` means.
pub open spec fn settled(pending: PendingView, ending: Ending) -> Result<(), Failure> {
    settle_spec(plan_ignores_exit(pending.plan), pending.argv, ending)
}

/// Whether step `index` of `phase` comes at or behind step `from_index` of
/// `from_phase` in the order of a pipeline.
pub open spec fn not_before(from_phase: Phase, from_index: int, phase: Phase, index: int) -> bool {
    phases_left(phase) < phases_left(from_phase) || (phase == from_phase && from_index <= index)
}

/// Nothing is launched behind a failure: if the step launched as number `k`
/// of a run fails, it is the last step of the run, and the run ends with its
/// failure. So a failing step of `pre` keeps the later steps of `pre`, the
/// main step and every step of `post` from running, and a failing main step
/// keeps every step of `post` from running.
pub proof fn lemma_failure_ends_run(
    src: Sources,
    name: Seq<char>,
    extra: Seq<Seq<char>>,
    turn: TurnView,
    endings: Seq<Ending>,
    k: int,
)
    requires
        0 <= k < launches(src, name, extra, turn, endings).len(),
        k < endings.len(),
        settled(launches(src, name, extra, turn, endings)[k], endings[k]) is Err,
    ensures
        launches(src, name, extra, turn, endings).len() == k + 1,
        verdict(src, name, extra, turn, endings) == Some(
            settled(launches(src, name, extra, turn, endings)[k], endings[k]),
        ),
    decreases k,
{
    match turn {
        TurnView::Done(_) => {
            assert(launches(src, name, extra, turn, endings).len() == 0);
        },
        TurnView::Launch(pending) => {
            let next = resume_spec(src, name, extra, pending, endings[0]);
            let rest = launches(src, name, extra, next, endings.skip(1));
            assert(launches(src, name, extra, turn, endings) == seq![pending] + rest);
            assert(verdict(src, name, extra, turn, endings) == verdict(
                src,
                name,
                extra,
                next,
                endings.skip(1),
            ));
            if k == 0 {
                assert(next == TurnView::Done(settled(pending, endings[0])));
                assert(rest.len() == 0);
                assert(verdict(src, name, extra, next, endings.skip(1)) == Some(
                    settled(pending, endings[0]),
                ));
            } else {
                assert((seq![pending] + rest)[k] == rest[k - 1]);
                assert(endings.skip(1)[k - 1] == endings[k]);
                lemma_failure_ends_run(src, name, extra, next, endings.skip(1), k - 1);
            }
        },
    }
}

/// The step that is launched when step `index` of `phase` is next comes at
/// or behind that step, and asks for something.
pub proof fn lemma_turn_goes_forward(src: Sources, name: Seq<char>, extra: Seq<Seq<char>>, phase: Phase, index: int)
    requires
        0 <= index,
    ensures
        turn_from(src, name, extra, phase, index) matches TurnView::Launch(pending) ==> not_before(
            phase,
            index,
            pending.phase,
            pending.index as int,
        ) && !(pending.plan is Nothing),
    decreases phases_left(phase), step_count(src.entries, phase) - index,
{
    match step_items(src.entries, phase, index) {
        Err(_) => {},
        Ok(None) => match following(phase) {
            Some(next) => {
                lemma_turn_goes_forward(src, name, extra, next, 0);
            },
            None => {},
        },
        Ok(Some(items)) => {
            match lookup(src.entries, phase_key(phase)) {
                Some(Value::List(steps, _)) => {
                    assert(steps.len() == steps@.len());
                },
                _ => {},
            }
            match step_argv(src, name, items, phase, index, extra) {
                Err(_) => {},
                Ok(argv) => match classify_spec(argv) {
                    Ok(Plan::Nothing) => {
                        lemma_turn_goes_forward(src, name, extra, phase, index + 1);
                    },
                    _ => {},
                },
            }
        },
    }
}

/// Every step of a run that goes on from step `index` of `phase` comes at or
/// behind that step, and every one comes behind the one launched before it.
pub proof fn lemma_run_goes_forward(
    src: Sources,
    name: Seq<char>,
    extra: Seq<Seq<char>>,
    phase: Phase,
    index: int,
    endings: Seq<Ending>,
)
    requires
        0 <= index,
    ensures
        forall|j: int|
            0 <= j < launches(src, name, extra, turn_from(src, name, extra, phase, index), endings).len()
                ==> not_before(
                phase,
                index,
                (#[trigger] launches(
                    src,
                    name,
                    extra,
                    turn_from(src, name, extra, phase, index),
                    endings,
                )[j]).phase,
                launches(src, name, extra, turn_from(src, name, extra, phase, index), endings)[j].index as int,
            ),
        forall|i: int, j: int|
            0 <= i < j < launches(src, name, extra, turn_from(src, name, extra, phase, index), endings).len()
                ==> not_before(
                (#[trigger] launches(
                    src,
                    name,
                    extra,
                    turn_from(src, name, extra, phase, index),
                    endings,
                )[i]).phase,
                launches(src, name, extra, turn_from(src, name, extra, phase, index), endings)[i].index + 1,
                (#[trigger] launches(
                    src,
                    name,
                    extra,
                    turn_from(src, name, extra, phase, index),
                    endings,
                )[j]).phase,
                launches(src, name, extra, turn_from(src, name, extra, phase, index), endings)[j].index as int,
            ),
    decreases endings.len(),
{
    let turn = turn_from(src, name, extra, phase, index);
    let all = launches(src, name, extra, turn, endings);
    lemma_turn_goes_forward(src, name, extra, phase, index);
    match turn {
        TurnView::Done(_) => {},
        TurnView::Launch(pending) => {
            if endings.len() > 0 {
                let next = resume_spec(src, name, extra, pending, endings[0]);
                let rest = launches(src, name, extra, next, endings.skip(1));
                assert(all == seq![pending] + rest);
                match settled(pending, endings[0]) {
                    Err(_) => {
                        assert(rest.len() == 0);
                    },
                    Ok(()) => {
                        lemma_run_goes_forward(
                            src,
                            name,
                            extra,
                            pending.phase,
                            pending.index + 1,
                            endings.skip(1),
                        );
                        assert forall|j: int| 1 <= j < all.len() implies all[j] == rest[j - 1] by {}
                    },
                }
            }
        },
    }
}

/// The steps of a whole run come in the order of the pipeline, each at most
/// once: of two launched steps the later one is in a later phase, or in the
/// same phase with a higher number.
pub proof fn lemma_steps_run_in_order(
    src: Sources,
    name: Seq<char>,
    extra: Seq<Seq<char>>,
    endings: Seq<Ending>,
    i: int,
    j: int,
)
    requires
        0 <= i < j < launches(src, name, extra, begin_spec(src, name, extra), endings).len(),
    ensures
        ({
            let first = launches(src, name, extra, begin_spec(src, name, extra), endings)[i];
            let second = launches(src, name, extra, begin_spec(src, name, extra), endings)[j];
            phases_left(second.phase) < phases_left(first.phase) || (second.phase == first.phase
                && first.index < second.index)
        }),
{
    lemma_run_goes_forward(src, name, extra, Phase::Pre, 0, endings);
}

/// A failing step of `pre` keeps everything behind it from running: the
/// steps of the run are steps of `pre` up to the failing one, so no later
/// step of `pre`, no main step and no step of `post` is among them.
pub proof fn lemma_failed_pre_step_stops_all(
    src: Sources,
    name: Seq<char>,
    extra: Seq<Seq<char>>,
    endings: Seq<Ending>,
    k: int,
)
    requires
        0 <= k < launches(src, name, extra, begin_spec(src, name, extra), endings).len(),
        k < endings.len(),
        launches(src, name, extra, begin_spec(src, name, extra), endings)[k].phase == Phase::Pre,
        settled(launches(src, name, extra, begin_spec(src, name, extra), endings)[k], endings[k]) is Err,
    ensures
        forall|j: int|
            0 <= j < launches(src, name, extra, begin_spec(src, name, extra), endings).len() ==> (
            #[trigger] launches(src, name, extra, begin_spec(src, name, extra), endings)[j]).phase
                == Phase::Pre && launches(src, name, extra, begin_spec(src, name, extra), endings)[j].index
                <= launches(src, name, extra, begin_spec(src, name, extra), endings)[k].index,
{
    let all = launches(src, name, extra, begin_spec(src, name, extra), endings);
    lemma_failure_ends_run(src, name, extra, begin_spec(src, name, extra), endings, k);
    assert forall|j: int| 0 <= j < all.len() implies (#[trigger] all[j]).phase == Phase::Pre
        && all[j].index <= all[k].index by {
        if j < k {
            lemma_steps_run_in_order(src, name, extra, endings, j, k);
        }
    }
}

/// A failing main step keeps `post` from running: no step of the run is a
/// step of `post`.
pub proof fn lemma_failed_main_step_skips_post(
    src: Sources,
    name: Seq<char>,
    extra: Seq<Seq<char>>,
    endings: Seq<Ending>,
    k: int,
)
    requires
        0 <= k < launches(src, name, extra, begin_spec(src, name, extra), endings).len(),
        k < endings.len(),
        launches(src, name, extra, begin_spec(src, name, extra), endings)[k].phase == Phase::Main,
        settled(launches(src, name, extra, begin_spec(src, name, extra), endings)[k], endings[k]) is Err,
    ensures
        forall|j: int|
            0 <= j < launches(src, name, extra, begin_spec(src, name, extra), endings).len() ==> (
            #[trigger] launches(src, name, extra, begin_spec(src, name, extra), endings)[j]).phase
                != Phase::Post,
{
    let all = launches(src, name, extra, begin_spec(src, name, extra), endings);
    lemma_failure_ends_run(src, name, extra, begin_spec(src, name, extra), endings, k);
    assert forall|j: int| 0 <= j < all.len() implies (#[trigger] all[j]).phase != Phase::Post by {
        if j < k {
            lemma_steps_run_in_order(src, name, extra, endings, j, k);
        }
    }
}

/// No step that asks for nothing is ever launched: in particular no step
/// that begins with the comment marker.
pub proof fn lemma_only_work_is_launched(
    src: Sources,
    name: Seq<char>,
    extra: Seq<Seq<char>>,
    turn: TurnView,
    endings: Seq<Ending>,
    k: int,
)
    requires
        0 <= k < launches(src, name, extra, turn, endings).len(),
        turn matches TurnView::Launch(pending) ==> !(pending.plan is Nothing),
    ensures
        !(launches(src, name, extra, turn, endings)[k].plan is Nothing),
    decreases endings.len(),
{
    match turn {
        TurnView::Done(_) => {},
        TurnView::Launch(pending) => {
            if k > 0 {
                let next = resume_spec(src, name, extra, pending, endings[0]);
                let rest = launches(src, name, extra, next, endings.skip(1));
                assert(launches(src, name, extra, turn, endings) == seq![pending] + rest);
                assert((seq![pending] + rest)[k] == rest[k - 1]);
                match settled(pending, endings[0]) {
                    Err(_) => {},
                    Ok(()) => {
                        lemma_turn_goes_forward(src, name, extra, pending.phase, pending.index + 1);
                    },
                }
                lemma_only_work_is_launched(src, name, extra, next, endings.skip(1), k - 1);
            }
        },
    }
}

/// A step that begins with the comment marker asks for nothing, whatever
/// follows the marker.
pub proof fn lemma_comment_is_nothing(argv: Seq<Seq<char>>)
    requires
        argv.len() > 0,
        argv[0] == comment_marker(),
    ensures
        classify_spec(argv) == Ok::<Plan, Failure>(Plan::Nothing),
{
}

/// A step that begins with the marker for ignoring the exit code and then
/// names a program succeeds with every exit code, also without one, and also
/// where waiting for the process failed.
pub proof fn lemma_ignored_exit_is_success(argv: Seq<Seq<char>>, ending: Ending)
    requires
        ignores_exit(argv),
        classify_spec(argv) matches Ok(Plan::Spawn { .. }),
        ending is Exited || ending is WaitFailed,
    ensures
        classify_spec(argv) matches Ok(plan) && settle_spec(plan_ignores_exit(plan), argv, ending)
            == Ok::<(), Failure>(()),
{
}

/// Whether `value` is a step as a definition must hold it: a sequence of
/// one or more strings.
pub open spec fn is_step(value: Value) -> bool {
    value matches Value::List(items, _) && items@.len() > 0 && forall|k: int|
        0 <= k < items@.len() ==> #[trigger] items@[k] is Text
}

/// Whether the steps of `phase` are as a definition must hold them. The main
/// step must be there; `pre` and `post` may be missing, and else hold a
/// sequence of steps.
pub open spec fn phase_well_formed(entries: Seq<Entry>, phase: Phase) -> bool {
    match lookup(entries, phase_key(phase)) {
        None => phase != Phase::Main,
        Some(value) => if phase == Phase::Main {
            is_step(value)
        } else {
            value matches Value::List(steps, _) && forall|i: int|
                0 <= i < steps@.len() ==> is_step(#[trigger] steps@[i])
        },
    }
}

/// Whether a definition is well formed: `command` is a step, and `pre` and
/// `post`, where they are there, are sequences of steps.
pub open spec fn well_formed(entries: Seq<Entry>) -> bool {
    phase_well_formed(entries, Phase::Pre) && phase_well_formed(entries, Phase::Main)
        && phase_well_formed(entries, Phase::Post)
}

/// Rendering a step whose elements are all strings fails, if it fails, for
/// what a template holds and not for the shape of the step.
pub proof fn lemma_strings_render_or_fail(
    src: Sources,
    name: Seq<char>,
    items: Seq<Value>,
    phase: Phase,
    index: int,
    k: int,
)
    requires
        forall|j: int| 0 <= j < items.len() ==> #[trigger] items[j] is Text,
    ensures
        !(argv_from(src, name, items, phase, index, k) matches Err(Failure::MalformedDefinition { .. })),
    decreases items.len() - k,
{
    if 0 <= k < items.len() {
        assert(items[k] is Text);
        lemma_strings_render_or_fail(src, name, items, phase, index, k + 1);
    }
}

/// The pipeline of a well-formed definition never ends as malformed,
/// whatever its templates and the context hold.
pub proof fn lemma_well_formed_runs(src: Sources, name: Seq<char>, extra: Seq<Seq<char>>, phase: Phase, index: int)
    requires
        well_formed(src.entries),
        0 <= index,
    ensures
        !(turn_from(src, name, extra, phase, index) matches TurnView::Done(
            Err(Failure::MalformedDefinition { .. }),
        )),
    decreases phases_left(phase), step_count(src.entries, phase) - index,
{
    assert(phase_well_formed(src.entries, phase));
    match step_items(src.entries, phase, index) {
        Err(_) => {
            match lookup(src.entries, phase_key(phase)) {
                Some(Value::List(steps, _)) => {
                    if phase != Phase::Main {
                        assert(is_step(steps@[index]));
                    }
                },
                _ => {},
            }
        },
        Ok(None) => match following(phase) {
            Some(next) => {
                lemma_well_formed_runs(src, name, extra, next, 0);
            },
            None => {},
        },
        Ok(Some(items)) => {
            match lookup(src.entries, phase_key(phase)) {
                Some(Value::List(steps, _)) => {
                    if phase != Phase::Main {
                        assert(is_step(steps@[index]));
                    }
                },
                _ => {},
            }
            lemma_strings_render_or_fail(src, name, items, phase, index, 0);
            match step_argv(src, name, items, phase, index, extra) {
                Err(_) => {},
                Ok(argv) => match classify_spec(argv) {
                    Ok(Plan::Nothing) => {
                        lemma_well_formed_runs(src, name, extra, phase, index + 1);
                    },
                    _ => {},
                },
            }
        },
    }
}

/// No run of a well-formed definition ends as malformed.
pub proof fn lemma_well_formed_verdict(src: Sources, name: Seq<char>, extra: Seq<Seq<char>>, endings: Seq<Ending>)
    requires
        well_formed(src.entries),
    ensures
        !(verdict(src, name, extra, begin_spec(src, name, extra), endings) matches Some(
            Err(Failure::MalformedDefinition { .. }),
        )),
{
    lemma_well_formed_runs(src, name, extra, Phase::Pre, 0);
    lemma_well_formed_goes_on(src, name, extra, begin_spec(src, name, extra), endings);
}

/// A run of a well-formed definition that has not ended as malformed does
/// not end so later.
proof fn lemma_well_formed_goes_on(
    src: Sources,
    name: Seq<char>,
    extra: Seq<Seq<char>>,
    turn: TurnView,
    endings: Seq<Ending>,
)
    requires
        well_formed(src.entries),
        !(turn matches TurnView::Done(Err(Failure::MalformedDefinition { .. }))),
    ensures
        !(verdict(src, name, extra, turn, endings) matches Some(Err(Failure::MalformedDefinition { .. }))),
    decreases endings.len(),
{
    match turn {
        TurnView::Done(_) => {},
        TurnView::Launch(pending) => {
            if endings.len() > 0 {
                let next = resume_spec(src, name, extra, pending, endings[0]);
                match settled(pending, endings[0]) {
                    Err(_) => {},
                    Ok(()) => {
                        lemma_well_formed_runs(src, name, extra, pending.phase, pending.index + 1);
                    },
                }
                lemma_well_formed_goes_on(src, name, extra, next, endings.skip(1));
            }
        },
    }
}

} // verus!
