//! Learning users: before a definition is rendered, the users that its
//! templates refer to are looked up in the system's user database, and those
//! found are added to the context.

use crate::model::{AliasDef, Context, Entry, Value};
use crate::stages::{sources, Sources};
use crate::template::{
    added_once, extends, is_template, learn_template, lemma_added_once_chain,
    lemma_users_do_not_matter, mentions, substituted,
};
use vstd::prelude::*;

verus! {

/// Whether `value` is a template that refers to the user `name` when the
/// home-directory stage scans it.
pub open spec fn text_mentions(src: Sources, value: Value, name: Seq<char>) -> bool {
    value matches Value::Text(raw) && is_template(raw@) && mentions(substituted(src, raw@), name)
}

/// Whether one of the strings `items` refers to the user `name`.
pub open spec fn any_text_mentions(src: Sources, items: Seq<Value>, name: Seq<char>) -> bool {
    exists|i: int| 0 <= i < items.len() && text_mentions(src, #[trigger] items[i], name)
}

/// Whether `value` refers to the user `name`, as a string or as a sequence
/// of strings.
pub open spec fn step_mentions(src: Sources, value: Value, name: Seq<char>) -> bool {
    text_mentions(src, value, name) || (value matches Value::List(inner, _) && any_text_mentions(
        src,
        inner@,
        name,
    ))
}

/// Whether one of `steps` refers to the user `name`.
pub open spec fn any_step_mentions(src: Sources, steps: Seq<Value>, name: Seq<char>) -> bool {
    exists|i: int| 0 <= i < steps.len() && step_mentions(src, #[trigger] steps[i], name)
}

/// Whether the sequence stored in `entry` refers to the user `name`.
pub open spec fn entry_mentions(src: Sources, entry: Entry, name: Seq<char>) -> bool {
    entry.value matches Value::List(steps, _) && any_step_mentions(src, steps@, name)
}

/// Whether the definition refers to the user `name`: in a string of one of
/// its sequences, or of a sequence inside one of them.
pub open spec fn definition_mentions(src: Sources, name: Seq<char>) -> bool {
    exists|e: int|
        0 <= e < src.entries.len() && entry_mentions(src, #[trigger] src.entries[e], name)
}

/// Which users a string refers to does not depend on the users known.
pub proof fn lemma_text_mentions_the_same(a: Sources, b: Sources, value: Value, name: Seq<char>)
    requires
        a.entries == b.entries,
        a.vars == b.vars,
    ensures
        text_mentions(a, value, name) == text_mentions(b, value, name),
{
    match value {
        Value::Text(raw) => {
            lemma_users_do_not_matter(a, b, raw@);
        },
        _ => {},
    }
}

/// Which users a sequence of strings refers to does not depend on the users
/// known.
pub proof fn lemma_texts_mention_the_same(
    a: Sources,
    b: Sources,
    items: Seq<Value>,
    name: Seq<char>,
)
    requires
        a.entries == b.entries,
        a.vars == b.vars,
    ensures
        any_text_mentions(a, items, name) == any_text_mentions(b, items, name),
{
    assert forall|i: int| 0 <= i < items.len() implies text_mentions(a, #[trigger] items[i], name)
        == text_mentions(b, items[i], name) by {
        lemma_text_mentions_the_same(a, b, items[i], name);
    }
}

/// Which users a sequence of steps refers to does not depend on the users
/// known.
pub proof fn lemma_steps_mention_the_same(
    a: Sources,
    b: Sources,
    steps: Seq<Value>,
    name: Seq<char>,
)
    requires
        a.entries == b.entries,
        a.vars == b.vars,
    ensures
        any_step_mentions(a, steps, name) == any_step_mentions(b, steps, name),
{
    assert forall|i: int| 0 <= i < steps.len() implies step_mentions(a, #[trigger] steps[i], name)
        == step_mentions(b, steps[i], name) by {
        lemma_text_mentions_the_same(a, b, steps[i], name);
        match steps[i] {
            Value::List(inner, _) => {
                lemma_texts_mention_the_same(a, b, inner@, name);
            },
            _ => {},
        }
    }
}

/// Which users a definition refers to does not depend on the users known.
pub proof fn lemma_definition_mentions_the_same(a: Sources, b: Sources, name: Seq<char>)
    requires
        a.entries == b.entries,
        a.vars == b.vars,
    ensures
        definition_mentions(a, name) == definition_mentions(b, name),
{
    assert forall|e: int| 0 <= e < a.entries.len() implies entry_mentions(
        a,
        #[trigger] a.entries[e],
        name,
    ) == entry_mentions(b, b.entries[e], name) by {
        match a.entries[e].value {
            Value::List(steps, _) => {
                lemma_steps_mention_the_same(a, b, steps@, name);
            },
            _ => {},
        }
    }
}

/// Looks up the users that the strings of `items` refer to.
fn learn_texts(def: &AliasDef, ctx: &mut Context, items: &Vec<Value>)
    ensures
        final(ctx).vars == old(ctx).vars,
        final(ctx).home == old(ctx).home,
        extends(old(ctx).users@, final(ctx).users@),
        added_once(final(ctx).users@, old(ctx).users@.len() as int),
        forall|k: int|
            old(ctx).users@.len() <= k < final(ctx).users@.len() ==> any_text_mentions(
                sources(*def, *final(ctx)),
                items@,
                #[trigger] final(ctx).users@[k].name@,
            ),
{
    let mut i: usize = 0;
    proof {
        assert(ctx.users@.subrange(0, ctx.users@.len() as int) =~= ctx.users@);
    }
    while i < items.len()
        invariant
            i <= items.len(),
            ctx.vars == old(ctx).vars,
            ctx.home == old(ctx).home,
            extends(old(ctx).users@, ctx.users@),
            added_once(ctx.users@, old(ctx).users@.len() as int),
            forall|k: int|
                old(ctx).users@.len() <= k < ctx.users@.len() ==> any_text_mentions(
                    sources(*def, *ctx),
                    items@,
                    #[trigger] ctx.users@[k].name@,
                ),
        decreases items.len() - i,
    {
        let ghost before = *ctx;
        match &items[i] {
            Value::Text(raw) => learn_template(def, ctx, raw.as_str()),
            _ => {},
        }
        proof {
            let now = sources(*def, *ctx);
            assert(before.users@.subrange(0, before.users@.len() as int) =~= before.users@);
            lemma_added_once_chain(old(ctx).users@, before.users@, ctx.users@);
            assert forall|k: int| old(ctx).users@.len() <= k < ctx.users@.len() implies any_text_mentions(
                now,
                items@,
                #[trigger] ctx.users@[k].name@,
            ) by {
                if k < before.users@.len() {
                    assert(ctx.users@.subrange(0, before.users@.len() as int)[k] == ctx.users@[k]);
                    lemma_texts_mention_the_same(
                        sources(*def, before),
                        now,
                        items@,
                        ctx.users@[k].name@,
                    );
                } else {
                    assert(text_mentions(now, items@[i as int], ctx.users@[k].name@));
                }
            }
        }
        i += 1;
    }
}

/// Looks up the users that the steps `steps` refer to.
fn learn_steps(def: &AliasDef, ctx: &mut Context, steps: &Vec<Value>)
    ensures
        final(ctx).vars == old(ctx).vars,
        final(ctx).home == old(ctx).home,
        extends(old(ctx).users@, final(ctx).users@),
        added_once(final(ctx).users@, old(ctx).users@.len() as int),
        forall|k: int|
            old(ctx).users@.len() <= k < final(ctx).users@.len() ==> any_step_mentions(
                sources(*def, *final(ctx)),
                steps@,
                #[trigger] final(ctx).users@[k].name@,
            ),
{
    let mut i: usize = 0;
    proof {
        assert(ctx.users@.subrange(0, ctx.users@.len() as int) =~= ctx.users@);
    }
    while i < steps.len()
        invariant
            i <= steps.len(),
            ctx.vars == old(ctx).vars,
            ctx.home == old(ctx).home,
            extends(old(ctx).users@, ctx.users@),
            added_once(ctx.users@, old(ctx).users@.len() as int),
            forall|k: int|
                old(ctx).users@.len() <= k < ctx.users@.len() ==> any_step_mentions(
                    sources(*def, *ctx),
                    steps@,
                    #[trigger] ctx.users@[k].name@,
                ),
        decreases steps.len() - i,
    {
        let ghost before = *ctx;
        match &steps[i] {
            Value::Text(raw) => learn_template(def, ctx, raw.as_str()),
            Value::List(inner, _) => learn_texts(def, ctx, inner),
            Value::Other(_) => {},
        }
        proof {
            let now = sources(*def, *ctx);
            assert(before.users@.subrange(0, before.users@.len() as int) =~= before.users@);
            lemma_added_once_chain(old(ctx).users@, before.users@, ctx.users@);
            assert forall|k: int| old(ctx).users@.len() <= k < ctx.users@.len() implies any_step_mentions(
                now,
                steps@,
                #[trigger] ctx.users@[k].name@,
            ) by {
                if k < before.users@.len() {
                    assert(ctx.users@.subrange(0, before.users@.len() as int)[k] == ctx.users@[k]);
                    lemma_steps_mention_the_same(
                        sources(*def, before),
                        now,
                        steps@,
                        ctx.users@[k].name@,
                    );
                } else {
                    assert(step_mentions(now, steps@[i as int], ctx.users@[k].name@));
                }
            }
        }
        i += 1;
    }
}

/// Looks up, in the system's user database, the users that the definition
/// `def` refers to and that `ctx` does not list yet, and adds those it finds
/// to `ctx`. Nothing else of `ctx` changes, and no other user is added.
pub fn learn_definition(def: &AliasDef, ctx: &mut Context)
    ensures
        final(ctx).vars == old(ctx).vars,
        final(ctx).home == old(ctx).home,
        extends(old(ctx).users@, final(ctx).users@),
        added_once(final(ctx).users@, old(ctx).users@.len() as int),
        forall|k: int|
            old(ctx).users@.len() <= k < final(ctx).users@.len() ==> definition_mentions(
                sources(*def, *final(ctx)),
                #[trigger] final(ctx).users@[k].name@,
            ),
{
    let mut i: usize = 0;
    proof {
        assert(ctx.users@.subrange(0, ctx.users@.len() as int) =~= ctx.users@);
    }
    while i < def.entries.len()
        invariant
            i <= def.entries.len(),
            ctx.vars == old(ctx).vars,
            ctx.home == old(ctx).home,
            extends(old(ctx).users@, ctx.users@),
            added_once(ctx.users@, old(ctx).users@.len() as int),
            forall|k: int|
                old(ctx).users@.len() <= k < ctx.users@.len() ==> definition_mentions(
                    sources(*def, *ctx),
                    #[trigger] ctx.users@[k].name@,
                ),
        decreases def.entries.len() - i,
    {
        let ghost before = *ctx;
        match &def.entries[i].value {
            Value::List(steps, _) => learn_steps(def, ctx, steps),
            _ => {},
        }
        proof {
            let now = sources(*def, *ctx);
            assert(before.users@.subrange(0, before.users@.len() as int) =~= before.users@);
            lemma_added_once_chain(old(ctx).users@, before.users@, ctx.users@);
            assert forall|k: int| old(ctx).users@.len() <= k < ctx.users@.len() implies definition_mentions(
                now,
                #[trigger] ctx.users@[k].name@,
            ) by {
                if k < before.users@.len() {
                    assert(ctx.users@.subrange(0, before.users@.len() as int)[k] == ctx.users@[k]);
                    lemma_definition_mentions_the_same(
                        sources(*def, before),
                        now,
                        ctx.users@[k].name@,
                    );
                } else {
                    assert(entry_mentions(now, now.entries[i as int], ctx.users@[k].name@));
                }
            }
        }
        i += 1;
    }
}

} // verus!
