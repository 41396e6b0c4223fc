//! The placeholder resolver: renders one string of an alias definition.
//!
//! A string is a template only if it begins with `:`. The sentinel is taken
//! off and the rest goes through escape capture, the four substitution
//! stages and the final unescape. Every other string is returned as it is.

use crate::cells::{escape, escape_from, is_lit, unescape, user_end, user_hit, Cell};
use crate::cells::{find_user_end, starts_name, text_of};
use crate::model::{user_home, user_index, AliasDef, Context, UserHome};
use crate::stages::{expand, expand_from, problems, sources, Problem, RenderError, Sources, Stage};
use crate::system::{find_user, home_of};
use crate::text::{chars_of, texts};
use vstd::prelude::*;

verus! {

/// Whether `raw` opts into placeholder substitution.
pub open spec fn is_template(raw: Seq<char>) -> bool {
    raw.len() > 0 && raw[0] == ':'
}

/// The cells of the template `raw` after escape capture.
pub open spec fn captured(raw: Seq<char>) -> Seq<Cell> {
    escape_from(raw, 1)
}

/// The cells after the environment-with-default stage.
pub open spec fn after_env_default(src: Sources, raw: Seq<char>) -> Seq<Cell> {
    expand_from(Stage::EnvDefault, src, captured(raw), 0).out
}

/// The cells after the environment-required stage.
pub open spec fn after_env(src: Sources, raw: Seq<char>) -> Seq<Cell> {
    expand_from(Stage::EnvRequired, src, after_env_default(src, raw), 0).out
}

/// The cells after the scope-variable stage: what the home-directory stage
/// scans.
pub open spec fn substituted(src: Sources, raw: Seq<char>) -> Seq<Cell> {
    expand_from(Stage::Variable, src, after_env(src, raw), 0).out
}

/// The cells after the home-directory stage.
pub open spec fn expanded(src: Sources, raw: Seq<char>) -> Seq<Cell> {
    expand_from(Stage::Home, src, substituted(src, raw), 0).out
}

/// Every problem of the template `raw`: those of the environment-required
/// stage, then those of the scope-variable stage, then those of the
/// home-directory stage, each in the order of the text.
pub open spec fn all_problems(src: Sources, raw: Seq<char>) -> Seq<Problem> {
    expand_from(Stage::EnvRequired, src, after_env_default(src, raw), 0).problems + expand_from(
        Stage::Variable,
        src,
        after_env(src, raw),
        0,
    ).problems + expand_from(Stage::Home, src, substituted(src, raw), 0).problems
}

/// What rendering `raw` gives: `raw` itself where it is no template, else
/// the expanded text, or every problem where there is one.
pub open spec fn render_spec(src: Sources, raw: Seq<char>) -> Result<Seq<char>, Seq<Problem>> {
    if !is_template(raw) {
        Ok(raw)
    } else if all_problems(src, raw).len() > 0 {
        Err(all_problems(src, raw))
    } else {
        Ok(unescape(expanded(src, raw)))
    }
}

/// The mathematical content of a rendering result.
pub open spec fn rendering(r: Result<String, Vec<RenderError>>) -> Result<
    Seq<char>,
    Seq<Problem>,
> {
    match r {
        Ok(text) => Ok(text@),
        Err(errors) => Err(problems(errors@)),
    }
}

/// The final text of `cells`.
fn finish(cells: &Vec<Cell>) -> (out: String)
    ensures
        out@ == unescape(cells@),
{
    let out = text_of(cells, 0, cells.len());
    proof {
        assert(cells@.subrange(0, cells@.len() as int) =~= cells@);
    }
    out
}

/// Renders `raw` in the scope `def` against exactly what `ctx` holds: a
/// user that `ctx` does not list is an unknown user.
pub fn render_in(def: &AliasDef, ctx: &Context, raw: &str) -> (r: Result<String, Vec<RenderError>>)
    requires
        ctx.well_formed(),
    ensures
        rendering(r) == render_spec(sources(*def, *ctx), raw@),
        !is_template(raw@) ==> rendering(r) == Ok::<Seq<char>, Seq<Problem>>(raw@),
{
    let chars = chars_of(raw);
    if chars.len() == 0 || chars[0] != ':' {
        return Ok(raw.to_owned());
    }
    let mut errors: Vec<RenderError> = Vec::new();
    let escaped = escape(&chars, 1);
    let defaulted = expand(Stage::EnvDefault, def, ctx, &escaped, &mut errors);
    let resolved = expand(Stage::EnvRequired, def, ctx, &defaulted, &mut errors);
    let replaced = expand(Stage::Variable, def, ctx, &resolved, &mut errors);
    let finished = expand(Stage::Home, def, ctx, &replaced, &mut errors);
    proof {
        let src = sources(*def, *ctx);
        lemma_env_default_is_silent(src, captured(raw@), 0);
        assert(problems(errors@) =~= all_problems(src, raw@));
    }
    if errors.len() > 0 {
        Err(errors)
    } else {
        Ok(finish(&finished))
    }
}

/// Whether `later` is `earlier` with users added at its end.
pub open spec fn extends(earlier: Seq<UserHome>, later: Seq<UserHome>) -> bool {
    earlier.len() <= later.len() && later.subrange(0, earlier.len() as int) == earlier
}

/// The user name of the `~user/` reference that starts at position `i`.
pub open spec fn user_name_at(s: Seq<Cell>, i: int) -> Seq<char> {
    unescape(s.subrange(i + 1, user_end(s, i)))
}

/// The user names that `s` refers to as `~name/` from position `i` on, in
/// the order of the text, each as often as it is referred to.
pub open spec fn user_names_from(s: Seq<Cell>, i: int) -> Seq<Seq<char>>
    decreases s.len() - i,
{
    if i < 0 || i >= s.len() {
        Seq::empty()
    } else if user_hit(s, i) {
        seq![user_name_at(s, i)] + user_names_from(s, i + 1)
    } else {
        user_names_from(s, i + 1)
    }
}

/// Whether `s` refers to the user `name` somewhere as `~name/`.
pub open spec fn mentions(s: Seq<Cell>, name: Seq<char>) -> bool {
    user_names_from(s, 0).contains(name)
}

/// The user names that the home-directory stage meets in the template
/// `raw`, in the order in which it meets them; none for a string that is no
/// template.
pub open spec fn referred_users_spec(src: Sources, raw: Seq<char>) -> Seq<Seq<char>> {
    if is_template(raw) {
        user_names_from(substituted(src, raw), 0)
    } else {
        Seq::empty()
    }
}

/// The users after the answer `answer` of the system for the user `name`:
/// a user that the system knows and that is not listed yet is added at the
/// end; nothing changes for a user that is listed or that the system does
/// not know.
pub open spec fn noted(users: Seq<UserHome>, name: String, answer: Option<String>) -> Seq<
    UserHome,
> {
    match answer {
        Some(home) => if user_home(users, name@) is None {
            users.push(UserHome { name, home })
        } else {
            users
        },
        None => users,
    }
}

/// Whether every user of `users` from position `from` on is the first of
/// its name: none of them was listed before, and none is listed twice.
pub open spec fn added_once(users: Seq<UserHome>, from: int) -> bool {
    forall|k: int| from <= k < users.len() ==> user_index(users, (#[trigger] users[k]).name@, 0) == k
}

/// The user names that `s` refers to, in the order of the text.
pub(crate) fn user_names(s: &Vec<Cell>) -> (names: Vec<String>)
    ensures
        texts(names@) == user_names_from(s@, 0),
{
    let mut names: Vec<String> = Vec::new();
    let mut i: usize = 0;
    proof {
        assert(texts(names@) + user_names_from(s@, 0) =~= user_names_from(s@, 0));
    }
    while i < s.len()
        invariant
            i <= s.len(),
            texts(names@) + user_names_from(s@, i as int) == user_names_from(s@, 0),
        decreases s.len() - i,
    {
        let mut hit = false;
        if is_lit(s, i, '~') && s.len() - i >= 2 && starts_name(s[i + 1]) {
            let end = find_user_end(s, i);
            if is_lit(s, end, '/') {
                let name = text_of(s, i + 1, end);
                let ghost before = texts(names@);
                let ghost rest = user_names_from(s@, i + 1);
                names.push(name);
                proof {
                    assert(user_hit(s@, i as int));
                    assert(texts(names@) =~= before.push(name@));
                    assert(before.push(name@) + rest =~= before + (seq![name@] + rest));
                }
                hit = true;
            }
        }
        proof {
            if !hit {
                assert(!user_hit(s@, i as int));
            }
        }
        i += 1;
    }
    proof {
        assert(texts(names@) + Seq::<Seq<char>>::empty() =~= texts(names@));
    }
    names
}

/// The user names that the home-directory stage meets in `raw`, in the
/// order in which it meets them, against what `ctx` holds.
pub fn referred_users(def: &AliasDef, ctx: &Context, raw: &str) -> (names: Vec<String>)
    ensures
        texts(names@) == referred_users_spec(sources(*def, *ctx), raw@),
{
    let chars = chars_of(raw);
    if chars.len() == 0 || chars[0] != ':' {
        let names: Vec<String> = Vec::new();
        proof {
            assert(texts(names@) =~= Seq::<Seq<char>>::empty());
        }
        return names;
    }
    let mut errors: Vec<RenderError> = Vec::new();
    let escaped = escape(&chars, 1);
    let defaulted = expand(Stage::EnvDefault, def, ctx, &escaped, &mut errors);
    let resolved = expand(Stage::EnvRequired, def, ctx, &defaulted, &mut errors);
    let replaced = expand(Stage::Variable, def, ctx, &resolved, &mut errors);
    user_names(&replaced)
}

/// Takes note of the answer `answer` that the system gave for the user
/// `name`.
pub fn note_user(ctx: &mut Context, name: String, answer: Option<String>)
    ensures
        final(ctx).vars == old(ctx).vars,
        final(ctx).home == old(ctx).home,
        final(ctx).users@ == noted(old(ctx).users@, name, answer),
{
    match answer {
        Some(home) => {
            if ctx.user(&name).is_none() {
                ctx.users.push(UserHome { name, home });
            }
        },
        None => {},
    }
}

/// Asks the system's user database for the home directory of the user
/// `name`. Nothing is known of the answer.
fn ask(name: &str) -> (answer: Option<String>) {
    match find_user(name) {
        Some(user) => Some(home_of(&user)),
        None => None,
    }
}

/// Where a user is listed does not change when a user is added at the end,
/// and a user that was not listed is then listed at the end if it is the
/// one added.
pub proof fn lemma_index_after_push(users: Seq<UserHome>, added: UserHome, name: Seq<char>, from: int)
    requires
        0 <= from <= users.len(),
    ensures
        user_index(users.push(added), name, from) == if user_index(users, name, from)
            < users.len() {
            user_index(users, name, from)
        } else if added.name@ == name {
            users.len() as int
        } else {
            users.len() as int + 1
        },
    decreases users.len() - from,
{
    let more = users.push(added);
    if from < users.len() {
        assert(more[from] == users[from]);
        if users[from].name@ != name {
            lemma_index_after_push(users, added, name, from + 1);
        }
    } else {
        assert(more[from] == added);
        assert(user_index(more, name, from + 1) == more.len());
    }
}

/// A user is listed at or behind the position where the search starts.
pub proof fn lemma_index_bounds(users: Seq<UserHome>, name: Seq<char>, from: int)
    requires
        0 <= from <= users.len(),
    ensures
        from <= user_index(users, name, from) <= users.len(),
        user_index(users, name, from) < users.len() ==> users[user_index(users, name, from)].name@
            == name,
    decreases users.len() - from,
{
    if from < users.len() && users[from].name@ != name {
        lemma_index_bounds(users, name, from + 1);
    }
}

/// Looks up, in the system's user database, every user that `s` refers to
/// and that `ctx` does not list yet, in the order of the text, and adds
/// those it finds to `ctx`: each once, and none that was listed.
pub(crate) fn learn_users(ctx: &mut Context, s: &Vec<Cell>)
    ensures
        final(ctx).vars == old(ctx).vars,
        final(ctx).home == old(ctx).home,
        extends(old(ctx).users@, final(ctx).users@),
        added_once(final(ctx).users@, old(ctx).users@.len() as int),
        forall|k: int|
            old(ctx).users@.len() <= k < final(ctx).users@.len() ==> mentions(
                s@,
                #[trigger] final(ctx).users@[k].name@,
            ),
{
    let names = user_names(s);
    let mut j: usize = 0;
    proof {
        assert(ctx.users@.subrange(0, ctx.users@.len() as int) =~= ctx.users@);
    }
    while j < names.len()
        invariant
            j <= names.len(),
            texts(names@) == user_names_from(s@, 0),
            ctx.vars == old(ctx).vars,
            ctx.home == old(ctx).home,
            extends(old(ctx).users@, ctx.users@),
            added_once(ctx.users@, old(ctx).users@.len() as int),
            forall|k: int|
                old(ctx).users@.len() <= k < ctx.users@.len() ==> mentions(
                    s@,
                    #[trigger] ctx.users@[k].name@,
                ),
        decreases names.len() - j,
    {
        let item: &String = &names[j];
        let name = item.clone();
        proof {
            assert(texts(names@)[j as int] == name@);
        }
        if ctx.user(&name).is_none() {
            let answer = ask(name.as_str());
            let ghost before = ctx.users@;
            note_user(ctx, name, answer);
            proof {
                let first = old(ctx).users@.len() as int;
                if ctx.users@.len() > before.len() {
                    let added = ctx.users@[before.len() as int];
                    assert(ctx.users@ == before.push(added));
                    assert(added.name@ == name@);
                    assert(ctx.users@.subrange(0, first) =~= before.subrange(0, first));
                    assert forall|k: int| first <= k < ctx.users@.len() implies user_index(
                        ctx.users@,
                        (#[trigger] ctx.users@[k]).name@,
                        0,
                    ) == k by {
                        lemma_index_after_push(before, added, ctx.users@[k].name@, 0);
                        lemma_index_bounds(before, ctx.users@[k].name@, 0);
                        if k < before.len() {
                            assert(ctx.users@[k] == before[k]);
                        }
                    }
                }
            }
        }
        j += 1;
    }
}

/// Looks up, in the system's user database, every user that the template
/// `raw` refers to and that `ctx` does not list yet, and adds those it finds
/// to `ctx`. A string that is no template refers to no user.
pub fn learn_template(def: &AliasDef, ctx: &mut Context, raw: &str)
    ensures
        final(ctx).vars == old(ctx).vars,
        final(ctx).home == old(ctx).home,
        extends(old(ctx).users@, final(ctx).users@),
        added_once(final(ctx).users@, old(ctx).users@.len() as int),
        !is_template(raw@) ==> final(ctx).users == old(ctx).users,
        forall|k: int|
            old(ctx).users@.len() <= k < final(ctx).users@.len() ==> mentions(
                substituted(sources(*def, *final(ctx)), raw@),
                #[trigger] final(ctx).users@[k].name@,
            ),
{
    let chars = chars_of(raw);
    if chars.len() == 0 || chars[0] != ':' {
        proof {
            assert(ctx.users@.subrange(0, ctx.users@.len() as int) =~= ctx.users@);
        }
        return ;
    }
    let mut errors: Vec<RenderError> = Vec::new();
    let escaped = escape(&chars, 1);
    let defaulted = expand(Stage::EnvDefault, def, ctx, &escaped, &mut errors);
    let resolved = expand(Stage::EnvRequired, def, ctx, &defaulted, &mut errors);
    let replaced = expand(Stage::Variable, def, ctx, &resolved, &mut errors);
    learn_users(ctx, &replaced);
    proof {
        lemma_users_do_not_matter(sources(*def, *old(ctx)), sources(*def, *ctx), raw@);
    }
}

/// Renders `raw` in the scope `def`. Users that the template refers to and
/// that `ctx` does not list yet are looked up in the system's user database
/// first, and those found are added to `ctx`; the result is that of
/// [`render_in`] against `ctx` as it then stands.
pub fn render(def: &AliasDef, ctx: &mut Context, raw: &str) -> (r: Result<String, Vec<RenderError>>)
    requires
        old(ctx).well_formed(),
    ensures
        rendering(r) == render_spec(sources(*def, *final(ctx)), raw@),
        !is_template(raw@) ==> rendering(r) == Ok::<Seq<char>, Seq<Problem>>(raw@),
        final(ctx).vars == old(ctx).vars,
        final(ctx).home == old(ctx).home,
        extends(old(ctx).users@, final(ctx).users@),
        added_once(final(ctx).users@, old(ctx).users@.len() as int),
        !is_template(raw@) ==> final(ctx).users == old(ctx).users,
        forall|k: int|
            old(ctx).users@.len() <= k < final(ctx).users@.len() ==> mentions(
                substituted(sources(*def, *final(ctx)), raw@),
                #[trigger] final(ctx).users@[k].name@,
            ),
{
    learn_template(def, ctx, raw);
    render_in(def, ctx, raw)
}

/// A user that is listed stays where it is when users are added at the end.
pub proof fn lemma_index_in_extension(
    earlier: Seq<UserHome>,
    later: Seq<UserHome>,
    name: Seq<char>,
    from: int,
)
    requires
        extends(earlier, later),
        0 <= from,
        user_index(earlier, name, from) < earlier.len(),
    ensures
        user_index(later, name, from) == user_index(earlier, name, from),
    decreases earlier.len() - from,
{
    if from < earlier.len() {
        assert(later.subrange(0, earlier.len() as int)[from] == later[from]);
        if earlier[from].name@ != name {
            lemma_index_in_extension(earlier, later, name, from + 1);
        }
    }
}

/// Users added once, and then more users added once, are all added once.
pub proof fn lemma_added_once_chain(
    first: Seq<UserHome>,
    middle: Seq<UserHome>,
    last: Seq<UserHome>,
)
    requires
        extends(first, middle),
        extends(middle, last),
        added_once(middle, first.len() as int),
        added_once(last, middle.len() as int),
    ensures
        extends(first, last),
        added_once(last, first.len() as int),
{
    lemma_extends_chain(first, middle, last);
    assert forall|k: int| first.len() <= k < last.len() implies user_index(
        last,
        (#[trigger] last[k]).name@,
        0,
    ) == k by {
        if k < middle.len() {
            assert(last.subrange(0, middle.len() as int)[k] == last[k]);
            assert(user_index(middle, middle[k].name@, 0) == k);
            lemma_index_in_extension(middle, last, middle[k].name@, 0);
        }
    }
}

/// Adding users to a list that was extended extends the first list.
pub proof fn lemma_extends_chain(a: Seq<UserHome>, b: Seq<UserHome>, c: Seq<UserHome>)
    requires
        extends(a, b),
        extends(b, c),
    ensures
        extends(a, c),
{
    assert(c.subrange(0, a.len() as int) =~= b.subrange(0, a.len() as int));
}

/// The environment-with-default stage never records a problem.
pub proof fn lemma_env_default_is_silent(src: Sources, s: Seq<Cell>, i: int)
    ensures
        expand_from(Stage::EnvDefault, src, s, i).problems == Seq::<Problem>::empty(),
    decreases s.len() - i,
{
    if 0 <= i < s.len() {
        crate::stages::lemma_piece_advances(Stage::EnvDefault, src, s, i);
        let p = crate::stages::piece(Stage::EnvDefault, src, s, i);
        lemma_env_default_is_silent(src, s, p.next);
        assert(p.problems + Seq::<Problem>::empty() =~= Seq::<Problem>::empty());
    }
}

/// The stages before the home-directory stage read neither the home
/// directory nor the users.
pub proof fn lemma_early_stage_ignores_users(
    stage: Stage,
    a: Sources,
    b: Sources,
    s: Seq<Cell>,
    i: int,
)
    requires
        stage != Stage::Home,
        a.entries == b.entries,
        a.vars == b.vars,
    ensures
        expand_from(stage, a, s, i) == expand_from(stage, b, s, i),
    decreases s.len() - i,
{
    if 0 <= i < s.len() {
        crate::stages::lemma_piece_advances(stage, a, s, i);
        lemma_early_stage_ignores_users(stage, a, b, s, crate::stages::piece(stage, a, s, i).next);
    }
}

/// What the home-directory stage scans does not depend on the home
/// directory or the users.
pub proof fn lemma_users_do_not_matter(a: Sources, b: Sources, raw: Seq<char>)
    requires
        a.entries == b.entries,
        a.vars == b.vars,
    ensures
        after_env_default(a, raw) == after_env_default(b, raw),
        after_env(a, raw) == after_env(b, raw),
        substituted(a, raw) == substituted(b, raw),
        expand_from(Stage::EnvRequired, a, after_env_default(a, raw), 0) == expand_from(
            Stage::EnvRequired,
            b,
            after_env_default(b, raw),
            0,
        ),
        expand_from(Stage::Variable, a, after_env(a, raw), 0) == expand_from(
            Stage::Variable,
            b,
            after_env(b, raw),
            0,
        ),
{
    lemma_early_stage_ignores_users(Stage::EnvDefault, a, b, captured(raw), 0);
    lemma_early_stage_ignores_users(Stage::EnvRequired, a, b, after_env_default(a, raw), 0);
    lemma_early_stage_ignores_users(Stage::Variable, a, b, after_env(a, raw), 0);
}

} // verus!
