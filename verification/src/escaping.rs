//! What escaping guarantees: a template without placeholders renders to its
//! own text, with each `%%` collapsed to one `%`.

use crate::cells::{env_close, env_colon, env_default_close, env_default_hit, env_hit, env_prefix, escape_from, home_hit, lemma_stop_bounds, lit, stop_from, unescape, user_hit, var_hit, Cell};
use crate::stages::{copy_piece, expand_from, piece, Problem, Sources, Stage};
use crate::template::{
    after_env, after_env_default, all_problems, captured, expanded, is_template, render_spec,
    substituted,
};
use vstd::prelude::*;

verus! {

/// The text `t` from position `i` on, with each `%%` collapsed to one `%`,
/// scanning left to right.
pub open spec fn collapse_from(t: Seq<char>, i: int) -> Seq<char>
    decreases t.len() - i,
{
    if i >= t.len() {
        Seq::empty()
    } else if i + 1 < t.len() && t[i] == '%' && t[i + 1] == '%' {
        seq!['%'] + collapse_from(t, i + 2)
    } else {
        let c = t[i];
        seq![c] + collapse_from(t, i + 1)
    }
}

/// The text `t` with each `%%` collapsed to one `%`.
pub open spec fn collapse(t: Seq<char>) -> Seq<char> {
    collapse_from(t, 0)
}

/// Whether no placeholder of any of the three percent stages starts anywhere
/// in `s`: no percent sign is followed by another one on the same line.
pub open spec fn percent_free(s: Seq<Cell>) -> bool {
    forall|i: int| !#[trigger] var_hit(s, i)
}

/// Whether no cell of `s` is a tilde.
pub open spec fn tilde_free(s: Seq<Cell>) -> bool {
    forall|i: int| 0 <= i < s.len() ==> #[trigger] s[i] != Some('~')
}

/// Unescaping what escape capture made of a text collapses its `%%`.
pub proof fn lemma_unescape_escape(t: Seq<char>, i: int)
    requires
        0 <= i,
    ensures
        unescape(escape_from(t, i)) == collapse_from(t, i),
    decreases t.len() - i,
{
    if i >= t.len() {
        assert(unescape(escape_from(t, i)) =~= collapse_from(t, i));
    } else if i + 1 < t.len() && t[i] == '%' && t[i + 1] == '%' {
        lemma_unescape_escape(t, i + 2);
        assert(unescape(seq![None::<char>] + escape_from(t, i + 2)) =~= seq!['%'] + unescape(
            escape_from(t, i + 2),
        ));
    } else {
        lemma_unescape_escape(t, i + 1);
        let c = t[i];
        assert(unescape(seq![Some(c)] + escape_from(t, i + 1)) =~= seq![c] + unescape(
            escape_from(t, i + 1),
        ));
    }
}

/// Escape capture of a template leaves its sentinel out.
pub proof fn lemma_escape_behind_sentinel(t: Seq<char>, i: int)
    requires
        0 <= i,
    ensures
        escape_from(seq![':'] + t, i + 1) == escape_from(t, i),
    decreases t.len() - i,
{
    let u = seq![':'] + t;
    assert(u.len() == t.len() + 1);
    if i >= t.len() {
    } else {
        assert(u[i + 1] == t[i]);
        if i + 1 < t.len() {
            assert(u[i + 2] == t[i + 1]);
        }
        if i + 1 < t.len() && t[i] == '%' && t[i + 1] == '%' {
            lemma_escape_behind_sentinel(t, i + 2);
        } else {
            lemma_escape_behind_sentinel(t, i + 1);
        }
    }
}

/// Escape capture makes no tilde that the text did not hold.
pub proof fn lemma_escape_keeps_tilde_free(t: Seq<char>, i: int)
    requires
        0 <= i,
        !t.contains('~'),
    ensures
        tilde_free(escape_from(t, i)),
    decreases t.len() - i,
{
    if i >= t.len() {
    } else if i + 1 < t.len() && t[i] == '%' && t[i + 1] == '%' {
        lemma_escape_keeps_tilde_free(t, i + 2);
    } else {
        lemma_escape_keeps_tilde_free(t, i + 1);
        assert(t.contains(t[i]));
    }
}

/// If a percent sign stands at `p`, at or behind `from`, with no line break
/// between, the scan from `from` stops at a percent sign.
pub proof fn lemma_stop_finds_percent(s: Seq<Cell>, from: int, p: int)
    requires
        0 <= from <= p,
        lit(s, p, '%'),
        forall|k: int| from <= k < p ==> s[k] != Some('\n'),
    ensures
        lit(s, stop_from(s, from, '%'), '%'),
    decreases p - from,
{
    if from < p && !(s[from] == Some('%') || s[from] == Some('\n')) {
        lemma_stop_finds_percent(s, from + 1, p);
    }
}

/// Before a scan stops, it passes neither what it looks for nor a line
/// break.
pub proof fn lemma_stop_is_first(s: Seq<Cell>, from: int, a: char, k: int)
    requires
        0 <= from <= k < stop_from(s, from, a),
    ensures
        s[k] != Some(a),
        s[k] != Some('\n'),
    decreases s.len() - from,
{
    if from < s.len() && !(s[from] == Some(a) || s[from] == Some('\n')) {
        if from < k {
            lemma_stop_is_first(s, from + 1, a, k);
        }
    }
}

/// Where an environment placeholder of either kind starts, a `%KEY%`
/// placeholder starts too.
pub proof fn lemma_env_hits_are_var_hits(s: Seq<Cell>, i: int)
    requires
        env_hit(s, i) || env_default_hit(s, i),
    ensures
        var_hit(s, i),
{
    assert(env_prefix(s, i));
    if env_hit(s, i) {
        let close = env_close(s, i);
        lemma_stop_bounds(s, i + 5, '%');
        assert forall|k: int| i + 1 <= k < close implies s[k] != Some('\n') by {
            if k >= i + 5 {
                lemma_stop_is_first(s, i + 5, '%', k);
            }
        }
        lemma_stop_finds_percent(s, i + 1, close);
    } else {
        let colon = env_colon(s, i);
        let close = env_default_close(s, i);
        lemma_stop_bounds(s, i + 5, ':');
        lemma_stop_bounds(s, colon + 1, '%');
        assert forall|k: int| i + 1 <= k < close implies s[k] != Some('\n') by {
            if k >= colon + 1 {
                lemma_stop_is_first(s, colon + 1, '%', k);
            } else if k >= i + 5 && k < colon {
                lemma_stop_is_first(s, i + 5, ':', k);
            }
        }
        lemma_stop_finds_percent(s, i + 1, close);
    }
}

/// A stage that finds none of its placeholders leaves the text as it is and
/// records nothing.
pub proof fn lemma_idle_stage(stage: Stage, src: Sources, s: Seq<Cell>, i: int)
    requires
        0 <= i <= s.len(),
        forall|j: int| 0 <= j < s.len() ==> #[trigger] piece(stage, src, s, j) == copy_piece(s, j),
    ensures
        expand_from(stage, src, s, i).out == s.subrange(i, s.len() as int),
        expand_from(stage, src, s, i).problems == Seq::<Problem>::empty(),
    decreases s.len() - i,
{
    if i < s.len() {
        assert(piece(stage, src, s, i) == copy_piece(s, i));
        lemma_idle_stage(stage, src, s, i + 1);
        let c = s[i];
        assert(seq![c] + s.subrange(i + 1, s.len() as int) =~= s.subrange(i, s.len() as int));
        assert(Seq::<Problem>::empty() + Seq::<Problem>::empty() =~= Seq::<Problem>::empty());
    } else {
        assert(s.subrange(i, s.len() as int) =~= Seq::<Cell>::empty());
    }
}

/// Escape round trip: a template that holds no placeholder and no tilde
/// renders to its own text behind the sentinel, with each `%%` collapsed to
/// one `%`, whatever the scope and the context are. A percent sign that no
/// other follows on its line is no placeholder and counts as text.
pub proof fn lemma_escape_round_trip(src: Sources, t: Seq<char>)
    requires
        percent_free(escape_from(t, 0)),
        !t.contains('~'),
    ensures
        render_spec(src, seq![':'] + t) == Ok::<Seq<char>, Seq<Problem>>(collapse(t)),
{
    let raw = seq![':'] + t;
    let s = escape_from(t, 0);
    assert(raw[0] == ':');
    assert(is_template(raw));
    lemma_escape_behind_sentinel(t, 0);
    assert(captured(raw) == s);
    lemma_escape_keeps_tilde_free(t, 0);
    assert forall|j: int| 0 <= j < s.len() implies #[trigger] piece(Stage::EnvDefault, src, s, j)
        == copy_piece(s, j) by {
        if env_default_hit(s, j) {
            lemma_env_hits_are_var_hits(s, j);
        }
    }
    assert forall|j: int| 0 <= j < s.len() implies #[trigger] piece(Stage::EnvRequired, src, s, j)
        == copy_piece(s, j) by {
        if env_hit(s, j) {
            lemma_env_hits_are_var_hits(s, j);
        }
    }
    assert forall|j: int| 0 <= j < s.len() implies #[trigger] piece(Stage::Variable, src, s, j)
        == copy_piece(s, j) by {
        assert(!var_hit(s, j));
    }
    assert forall|j: int| 0 <= j < s.len() implies #[trigger] piece(Stage::Home, src, s, j)
        == copy_piece(s, j) by {
        assert(s[j] != Some('~'));
        assert(!home_hit(s, j));
        assert(!user_hit(s, j));
    }
    lemma_idle_stage(Stage::EnvDefault, src, s, 0);
    lemma_idle_stage(Stage::EnvRequired, src, s, 0);
    lemma_idle_stage(Stage::Variable, src, s, 0);
    lemma_idle_stage(Stage::Home, src, s, 0);
    assert(s.subrange(0, s.len() as int) =~= s);
    assert(after_env_default(src, raw) == s);
    assert(after_env(src, raw) == s);
    assert(substituted(src, raw) == s);
    assert(expanded(src, raw) == s);
    assert(all_problems(src, raw) =~= Seq::<Problem>::empty());
    lemma_unescape_escape(t, 0);
}

/// Pass-through: a string that does not begin with the sentinel renders to
/// itself, whatever the scope and the context are.
pub proof fn lemma_pass_through(src: Sources, raw: Seq<char>)
    requires
        raw.len() == 0 || raw[0] != ':',
    ensures
        render_spec(src, raw) == Ok::<Seq<char>, Seq<Problem>>(raw),
{
}

} // verus!
