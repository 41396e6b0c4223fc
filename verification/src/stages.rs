//! The substitution stages of the placeholder resolver.
//!
//! Every stage scans the whole text from left to right. Where a placeholder
//! of the stage starts, it is replaced and the scan goes on behind it;
//! everywhere else one cell is copied. Replacement text is never scanned
//! again by the stage that inserted it, but it is scanned by later stages.

use crate::cells::{
    env_close, env_colon, env_default_close, env_default_hit, env_hit, find_stop, find_user_end,
    has_env_prefix, home_hit, is_lit, lemma_run_bounds, lemma_stop_bounds, lift, starts_name,
    text_of, unescape, user_end, user_hit, var_close, var_hit, Cell,
};
use crate::model::{env_value, lookup, user_home, AliasDef, Context, Entry, EnvVar, UserHome, Value};
use crate::text::chars_of;
use vstd::prelude::*;

verus! {

/// One reason why a template could not be resolved.
#[derive(Clone, Debug, PartialEq, Eq)]
pub enum RenderError {
    /// `%env:NAME%` names a variable that is not set.
    UnknownEnvVar(String),
    /// `%KEY%` names a key that the alias definition lacks.
    UnknownKey(String),
    /// `%KEY%` names a key whose value is not a string.
    NotAString(String),
    /// `~user/` names a user that is not known.
    UnknownUser(String),
}

/// The mathematical content of a [`RenderError`].
pub enum Problem {
    UnknownEnvVar(Seq<char>),
    UnknownKey(Seq<char>),
    NotAString(Seq<char>),
    UnknownUser(Seq<char>),
}

impl View for RenderError {
    type V = Problem;

    open spec fn view(&self) -> Problem {
        match *self {
            RenderError::UnknownEnvVar(name) => Problem::UnknownEnvVar(name@),
            RenderError::UnknownKey(key) => Problem::UnknownKey(key@),
            RenderError::NotAString(key) => Problem::NotAString(key@),
            RenderError::UnknownUser(name) => Problem::UnknownUser(name@),
        }
    }
}

/// The views of a list of errors.
pub open spec fn problems(errors: Seq<RenderError>) -> Seq<Problem> {
    Seq::new(errors.len(), |i: int| errors[i]@)
}

/// The four substitution stages, in the order in which they run.
#[derive(Clone, Copy, Debug, PartialEq, Eq)]
pub enum Stage {
    /// `%env:NAME:DEFAULT%`
    EnvDefault,
    /// `%env:NAME%`
    EnvRequired,
    /// `%KEY%`
    Variable,
    /// `~/` and `~user/`
    Home,
}

/// What the stages read besides the text.
pub struct Sources {
    /// The entries of the alias definition.
    pub entries: Seq<Entry>,
    /// The environment variables that are set.
    pub vars: Seq<EnvVar>,
    /// The current user's home directory.
    pub home: Seq<char>,
    /// The named users that are known.
    pub users: Seq<UserHome>,
}

/// The sources that a definition and a context make up.
pub open spec fn sources(def: AliasDef, ctx: Context) -> Sources {
    Sources { entries: def.entries@, vars: ctx.vars@, home: ctx.home@, users: ctx.users@ }
}

/// What a stage does at one position: the cells it emits, the problems it
/// records, and where it goes on.
pub struct Piece {
    pub out: Seq<Cell>,
    pub problems: Seq<Problem>,
    pub next: int,
}

/// No placeholder here: the cell is copied.
pub open spec fn copy_piece(s: Seq<Cell>, i: int) -> Piece {
    let c = s[i];
    Piece { out: seq![c], problems: Seq::empty(), next: i + 1 }
}

/// `%env:NAME:DEFAULT%` becomes the value of `NAME`, or the default's cells
/// where `NAME` is not set.
pub open spec fn env_default_piece(vars: Seq<EnvVar>, s: Seq<Cell>, i: int) -> Piece {
    if env_default_hit(s, i) {
        let colon = env_colon(s, i);
        let close = env_default_close(s, i);
        let value = env_value(vars, unescape(s.subrange(i + 5, colon)));
        Piece {
            out: match value {
                Some(v) => lift(v),
                None => s.subrange(colon + 1, close),
            },
            problems: Seq::empty(),
            next: close + 1,
        }
    } else {
        copy_piece(s, i)
    }
}

/// `%env:NAME%` becomes the value of `NAME`; where `NAME` is not set it
/// becomes nothing and a problem is recorded.
pub open spec fn env_piece(vars: Seq<EnvVar>, s: Seq<Cell>, i: int) -> Piece {
    if env_hit(s, i) {
        let close = env_close(s, i);
        let name = unescape(s.subrange(i + 5, close));
        match env_value(vars, name) {
            Some(v) => Piece { out: lift(v), problems: Seq::empty(), next: close + 1 },
            None => Piece {
                out: Seq::empty(),
                problems: seq![Problem::UnknownEnvVar(name)],
                next: close + 1,
            },
        }
    } else {
        copy_piece(s, i)
    }
}

/// `%KEY%` becomes the string stored under `KEY`; where there is none it
/// becomes nothing and a problem is recorded.
pub open spec fn var_piece(entries: Seq<Entry>, s: Seq<Cell>, i: int) -> Piece {
    if var_hit(s, i) {
        let close = var_close(s, i);
        let key = unescape(s.subrange(i + 1, close));
        match lookup(entries, key) {
            Some(Value::Text(t)) => Piece { out: lift(t@), problems: Seq::empty(), next: close + 1 },
            Some(_) => Piece {
                out: Seq::empty(),
                problems: seq![Problem::NotAString(key)],
                next: close + 1,
            },
            None => Piece {
                out: Seq::empty(),
                problems: seq![Problem::UnknownKey(key)],
                next: close + 1,
            },
        }
    } else {
        copy_piece(s, i)
    }
}

/// `~/` becomes the current user's home directory, `~user/` that user's home
/// directory and a slash; an unknown user becomes nothing and a problem is
/// recorded.
pub open spec fn home_piece(home: Seq<char>, users: Seq<UserHome>, s: Seq<Cell>, i: int) -> Piece {
    if home_hit(s, i) {
        Piece { out: lift(home), problems: Seq::empty(), next: i + 2 }
    } else if user_hit(s, i) {
        let end = user_end(s, i);
        let name = unescape(s.subrange(i + 1, end));
        match user_home(users, name) {
            Some(h) => Piece { out: lift(h.push('/')), problems: Seq::empty(), next: end + 1 },
            None => Piece {
                out: Seq::empty(),
                problems: seq![Problem::UnknownUser(name)],
                next: end + 1,
            },
        }
    } else {
        copy_piece(s, i)
    }
}

/// What `stage` does at position `i` of `s`.
pub open spec fn piece(stage: Stage, src: Sources, s: Seq<Cell>, i: int) -> Piece {
    match stage {
        Stage::EnvDefault => env_default_piece(src.vars, s, i),
        Stage::EnvRequired => env_piece(src.vars, s, i),
        Stage::Variable => var_piece(src.entries, s, i),
        Stage::Home => home_piece(src.home, src.users, s, i),
    }
}

/// The result of a stage: the new text and the problems met on the way.
pub struct Expansion {
    pub out: Seq<Cell>,
    pub problems: Seq<Problem>,
}

/// The stage `stage` applied to `s` from position `i` on.
pub open spec fn expand_from(stage: Stage, src: Sources, s: Seq<Cell>, i: int) -> Expansion
    decreases s.len() - i,
{
    if 0 <= i < s.len() {
        let p = piece(stage, src, s, i);
        proof {
            lemma_piece_advances(stage, src, s, i);
        }
        let rest = expand_from(stage, src, s, p.next);
        Expansion { out: p.out + rest.out, problems: p.problems + rest.problems }
    } else {
        Expansion { out: Seq::empty(), problems: Seq::empty() }
    }
}

/// Every piece ends behind the position where it starts, and inside the text.
pub proof fn lemma_piece_advances(stage: Stage, src: Sources, s: Seq<Cell>, i: int)
    requires
        0 <= i < s.len(),
    ensures
        i < piece(stage, src, s, i).next <= s.len(),
{
    if i + 5 <= s.len() {
        lemma_stop_bounds(s, i + 5, ':');
        lemma_stop_bounds(s, i + 5, '%');
        let colon = env_colon(s, i);
        if colon < s.len() {
            lemma_stop_bounds(s, colon + 1, '%');
        }
    }
    lemma_stop_bounds(s, i + 1, '%');
    lemma_run_bounds(s, i + 2, i + 32);
}

/// Appends the cells of `s` from `from` to `to`.
pub(crate) fn push_cells(out: &mut Vec<Cell>, s: &Vec<Cell>, from: usize, to: usize)
    requires
        from <= to <= s.len(),
    ensures
        final(out)@ == old(out)@ + s@.subrange(from as int, to as int),
{
    let mut i: usize = from;
    while i < to
        invariant
            from <= i <= to <= s.len(),
            out@ == old(out)@ + s@.subrange(from as int, i as int),
        decreases to - i,
    {
        proof {
            assert(out@.push(s@[i as int]) =~= old(out)@ + s@.subrange(from as int, i + 1));
        }
        out.push(s[i]);
        i += 1;
    }
}

/// Appends `text` as literal cells.
pub(crate) fn push_text(out: &mut Vec<Cell>, text: &str)
    ensures
        final(out)@ == old(out)@ + lift(text@),
{
    let chars = chars_of(text);
    let mut i: usize = 0;
    while i < chars.len()
        invariant
            i <= chars.len(),
            chars@ == text@,
            out@ == old(out)@ + lift(chars@.take(i as int)),
        decreases chars.len() - i,
    {
        proof {
            assert(out@.push(Some(chars@[i as int])) =~= old(out)@ + lift(chars@.take(i + 1)));
        }
        out.push(Some(chars[i]));
        i += 1;
    }
    proof {
        assert(chars@.take(chars@.len() as int) =~= chars@);
    }
}

/// Records one more error.
pub(crate) fn record(errors: &mut Vec<RenderError>, error: RenderError)
    ensures
        problems(final(errors)@) == problems(old(errors)@).push(error@),
{
    errors.push(error);
    proof {
        assert(problems(errors@) =~= problems(old(errors)@).push(error@));
    }
}

/// The environment-with-default stage at position `i`.
pub(crate) fn env_default_step(ctx: &Context, s: &Vec<Cell>, i: usize, out: &mut Vec<Cell>) -> (next:
    usize)
    requires
        i < s.len(),
    ensures
        final(out)@ == old(out)@ + env_default_piece(ctx.vars@, s@, i as int).out,
        next == env_default_piece(ctx.vars@, s@, i as int).next,
        i < next <= s.len(),
{
    if has_env_prefix(s, i) {
        let colon = find_stop(s, i + 5, ':');
        if is_lit(s, colon, ':') {
            let close = find_stop(s, colon + 1, '%');
            if is_lit(s, close, '%') {
                let name = text_of(s, i + 5, colon);
                match ctx.var(&name) {
                    Some(value) => push_text(out, value.as_str()),
                    None => push_cells(out, s, colon + 1, close),
                }
                return close + 1;
            }
        }
    }
    out.push(s[i]);
    proof {
        assert(out@ =~= old(out)@ + copy_piece(s@, i as int).out);
    }
    i + 1
}

/// The environment-required stage at position `i`.
pub(crate) fn env_step(
    ctx: &Context,
    s: &Vec<Cell>,
    i: usize,
    out: &mut Vec<Cell>,
    errors: &mut Vec<RenderError>,
) -> (next: usize)
    requires
        i < s.len(),
    ensures
        final(out)@ == old(out)@ + env_piece(ctx.vars@, s@, i as int).out,
        problems(final(errors)@) == problems(old(errors)@) + env_piece(
            ctx.vars@,
            s@,
            i as int,
        ).problems,
        next == env_piece(ctx.vars@, s@, i as int).next,
        i < next <= s.len(),
{
    if has_env_prefix(s, i) {
        let close = find_stop(s, i + 5, '%');
        if is_lit(s, close, '%') {
            let name = text_of(s, i + 5, close);
            match ctx.var(&name) {
                Some(value) => {
                    push_text(out, value.as_str());
                    proof {
                        assert(problems(errors@) =~= problems(errors@) + Seq::<Problem>::empty());
                    }
                },
                None => {
                    let ghost shown = name@;
                    record(errors, RenderError::UnknownEnvVar(name));
                    proof {
                        assert(out@ =~= out@ + Seq::<Cell>::empty());
                        assert(problems(errors@) =~= problems(old(errors)@)
                            + seq![Problem::UnknownEnvVar(shown)]);
                    }
                },
            }
            return close + 1;
        }
    }
    out.push(s[i]);
    proof {
        assert(out@ =~= old(out)@ + copy_piece(s@, i as int).out);
        assert(problems(errors@) =~= problems(errors@) + Seq::<Problem>::empty());
    }
    i + 1
}

/// The scope-variable stage at position `i`.
pub(crate) fn var_step(
    def: &AliasDef,
    s: &Vec<Cell>,
    i: usize,
    out: &mut Vec<Cell>,
    errors: &mut Vec<RenderError>,
) -> (next: usize)
    requires
        i < s.len(),
    ensures
        final(out)@ == old(out)@ + var_piece(def.entries@, s@, i as int).out,
        problems(final(errors)@) == problems(old(errors)@) + var_piece(
            def.entries@,
            s@,
            i as int,
        ).problems,
        next == var_piece(def.entries@, s@, i as int).next,
        i < next <= s.len(),
{
    if is_lit(s, i, '%') {
        let close = find_stop(s, i + 1, '%');
        if is_lit(s, close, '%') {
            let key = text_of(s, i + 1, close);
            let ghost shown = key@;
            match def.get(key.as_str()) {
                Some(Value::Text(text)) => {
                    push_text(out, text.as_str());
                    proof {
                        assert(problems(errors@) =~= problems(errors@) + Seq::<Problem>::empty());
                    }
                },
                Some(_) => {
                    record(errors, RenderError::NotAString(key));
                    proof {
                        assert(out@ =~= out@ + Seq::<Cell>::empty());
                        assert(problems(errors@) =~= problems(old(errors)@)
                            + seq![Problem::NotAString(shown)]);
                    }
                },
                None => {
                    record(errors, RenderError::UnknownKey(key));
                    proof {
                        assert(out@ =~= out@ + Seq::<Cell>::empty());
                        assert(problems(errors@) =~= problems(old(errors)@)
                            + seq![Problem::UnknownKey(shown)]);
                    }
                },
            }
            return close + 1;
        }
    }
    out.push(s[i]);
    proof {
        assert(out@ =~= old(out)@ + copy_piece(s@, i as int).out);
        assert(problems(errors@) =~= problems(errors@) + Seq::<Problem>::empty());
    }
    i + 1
}

/// The home-directory stage at position `i`.
pub(crate) fn home_step(
    ctx: &Context,
    s: &Vec<Cell>,
    i: usize,
    out: &mut Vec<Cell>,
    errors: &mut Vec<RenderError>,
) -> (next: usize)
    requires
        i < s.len(),
    ensures
        final(out)@ == old(out)@ + home_piece(ctx.home@, ctx.users@, s@, i as int).out,
        problems(final(errors)@) == problems(old(errors)@) + home_piece(
            ctx.home@,
            ctx.users@,
            s@,
            i as int,
        ).problems,
        next == home_piece(ctx.home@, ctx.users@, s@, i as int).next,
        i < next <= s.len(),
{
    if is_lit(s, i, '~') && s.len() - i >= 2 {
        if is_lit(s, i + 1, '/') {
            push_text(out, ctx.home.as_str());
            proof {
                assert(problems(errors@) =~= problems(errors@) + Seq::<Problem>::empty());
            }
            return i + 2;
        }
        if starts_name(s[i + 1]) {
            let end = find_user_end(s, i);
            if is_lit(s, end, '/') {
                let name = text_of(s, i + 1, end);
                let ghost shown = name@;
                match ctx.user(&name) {
                    Some(dir) => {
                        let ghost before = out@;
                        push_text(out, dir.as_str());
                        out.push(Some('/'));
                        proof {
                            assert(out@ =~= before + lift(dir@.push('/')));
                            assert(problems(errors@) =~= problems(errors@)
                                + Seq::<Problem>::empty());
                        }
                    },
                    None => {
                        record(errors, RenderError::UnknownUser(name));
                        proof {
                            assert(out@ =~= out@ + Seq::<Cell>::empty());
                            assert(problems(errors@) =~= problems(old(errors)@)
                                + seq![Problem::UnknownUser(shown)]);
                        }
                    },
                }
                return end + 1;
            }
        }
    }
    out.push(s[i]);
    proof {
        assert(out@ =~= old(out)@ + copy_piece(s@, i as int).out);
        assert(problems(errors@) =~= problems(errors@) + Seq::<Problem>::empty());
    }
    i + 1
}

/// Runs one stage over the whole of `s`, adding what goes wrong to `errors`.
pub(crate) fn expand(
    stage: Stage,
    def: &AliasDef,
    ctx: &Context,
    s: &Vec<Cell>,
    errors: &mut Vec<RenderError>,
) -> (out: Vec<Cell>)
    ensures
        out@ == expand_from(stage, sources(*def, *ctx), s@, 0).out,
        problems(final(errors)@) == problems(old(errors)@) + expand_from(
            stage,
            sources(*def, *ctx),
            s@,
            0,
        ).problems,
{
    let ghost src = sources(*def, *ctx);
    let mut out: Vec<Cell> = Vec::new();
    let mut i: usize = 0;
    proof {
        assert(out@ + expand_from(stage, src, s@, 0).out =~= expand_from(stage, src, s@, 0).out);
    }
    while i < s.len()
        invariant
            i <= s.len(),
            src == sources(*def, *ctx),
            out@ + expand_from(stage, src, s@, i as int).out == expand_from(stage, src, s@, 0).out,
            problems(errors@) + expand_from(stage, src, s@, i as int).problems == problems(
                old(errors)@,
            ) + expand_from(stage, src, s@, 0).problems,
        decreases s.len() - i,
    {
        let ghost before = out@;
        let ghost found = problems(errors@);
        let ghost p = piece(stage, src, s@, i as int);
        let ghost rest = expand_from(stage, src, s@, p.next);
        let next = match stage {
            Stage::EnvDefault => {
                proof {
                    assert(found =~= found + Seq::<Problem>::empty());
                }
                env_default_step(ctx, s, i, &mut out)
            },
            Stage::EnvRequired => env_step(ctx, s, i, &mut out, errors),
            Stage::Variable => var_step(def, s, i, &mut out, errors),
            Stage::Home => home_step(ctx, s, i, &mut out, errors),
        };
        proof {
            assert(out@ == before + p.out);
            assert(problems(errors@) == found + p.problems);
            assert((before + p.out) + rest.out =~= before + (p.out + rest.out));
            assert((found + p.problems) + rest.problems =~= found + (p.problems + rest.problems));
        }
        i = next;
    }
    proof {
        assert(out@ + Seq::<Cell>::empty() =~= out@);
        assert(problems(errors@) + Seq::<Problem>::empty() =~= problems(errors@));
    }
    out
}

} // verus!
