//! Error aggregation: rendering reports every problem of a template, not
//! just the first one.

use crate::cells::{
    env_default_hit, env_hit, escape_from, home_hit, lift, stop_from, unescape, user_hit, var_close,
    var_hit, Cell,
};
use crate::escaping::{lemma_escape_behind_sentinel, lemma_idle_stage};
use crate::model::lookup;
use crate::stages::{copy_piece, expand_from, lemma_piece_advances, piece, Problem, Sources, Stage};
use crate::template::{
    after_env, after_env_default, all_problems, captured, is_template, render_spec, substituted,
};
use vstd::prelude::*;

verus! {

/// Whether the scan of `stage` over `s` that starts at `from` comes to
/// position `i`: whether `i` lies inside no placeholder that the scan
/// replaces on its way.
pub open spec fn scan_meets(stage: Stage, src: Sources, s: Seq<Cell>, from: int, i: int) -> bool
    decreases s.len() - from,
{
    if from < 0 || from >= s.len() || from > i {
        false
    } else if from == i {
        true
    } else {
        proof {
            lemma_piece_advances(stage, src, s, from);
        }
        scan_meets(stage, src, s, piece(stage, src, s, from).next, i)
    }
}

/// The key of the `%KEY%` placeholder that starts at position `i` of `s`.
pub open spec fn key_at(s: Seq<Cell>, i: int) -> Seq<char> {
    unescape(s.subrange(i + 1, var_close(s, i)))
}

/// A stage reports every problem of every position that its scan comes to.
pub proof fn lemma_stage_reports_all(
    stage: Stage,
    src: Sources,
    s: Seq<Cell>,
    from: int,
    i: int,
    k: int,
)
    requires
        scan_meets(stage, src, s, from, i),
        0 <= k < piece(stage, src, s, i).problems.len(),
    ensures
        expand_from(stage, src, s, from).problems.contains(piece(stage, src, s, i).problems[k]),
    decreases s.len() - from,
{
    let here = piece(stage, src, s, from);
    let rest = expand_from(stage, src, s, here.next);
    let all = expand_from(stage, src, s, from).problems;
    assert(all == here.problems + rest.problems);
    if from == i {
        assert(all[k] == here.problems[k]);
    } else {
        lemma_piece_advances(stage, src, s, from);
        lemma_stage_reports_all(stage, src, s, here.next, i, k);
        let wanted = piece(stage, src, s, i).problems[k];
        let m = choose|m: int| 0 <= m < rest.problems.len() && rest.problems[m] == wanted;
        assert(all[here.problems.len() + m] == wanted);
    }
}

/// Aggregation: where the scope-variable stage comes to two placeholders
/// whose keys the scope lacks, rendering fails and lists both keys as
/// unknown, not just the first.
pub proof fn lemma_unknown_keys_are_all_reported(src: Sources, raw: Seq<char>, i: int, j: int)
    requires
        is_template(raw),
        scan_meets(Stage::Variable, src, after_env(src, raw), 0, i),
        scan_meets(Stage::Variable, src, after_env(src, raw), 0, j),
        var_hit(after_env(src, raw), i),
        var_hit(after_env(src, raw), j),
        lookup(src.entries, key_at(after_env(src, raw), i)) is None,
        lookup(src.entries, key_at(after_env(src, raw), j)) is None,
    ensures
        render_spec(src, raw) matches Err(found) && found.contains(
            Problem::UnknownKey(key_at(after_env(src, raw), i)),
        ) && found.contains(Problem::UnknownKey(key_at(after_env(src, raw), j))),
{
    let s = after_env(src, raw);
    let before = expand_from(Stage::EnvRequired, src, after_env_default(src, raw), 0).problems;
    let here = expand_from(Stage::Variable, src, s, 0).problems;
    let after = expand_from(Stage::Home, src, substituted(src, raw), 0).problems;
    let all = all_problems(src, raw);
    assert(all == before + here + after);
    lemma_stage_reports_all(Stage::Variable, src, s, 0, i, 0);
    lemma_stage_reports_all(Stage::Variable, src, s, 0, j, 0);
    let first = Problem::UnknownKey(key_at(s, i));
    let second = Problem::UnknownKey(key_at(s, j));
    let u = choose|u: int| 0 <= u < here.len() && here[u] == first;
    let v = choose|v: int| 0 <= v < here.len() && here[v] == second;
    assert(all[before.len() + u] == first);
    assert(all[before.len() + v] == second);
}

/// Whether `c` is a character without a meaning of its own in a template.
pub open spec fn is_plain(c: char) -> bool {
    c != '%' && c != ':' && c != '~' && c != '\n'
}

/// Whether `w` is a word: one or more plain characters.
pub open spec fn is_word(w: Seq<char>) -> bool {
    w.len() > 0 && forall|i: int| 0 <= i < w.len() ==> is_plain(#[trigger] w[i])
}

/// The template `:%a%between%b%`.
pub open spec fn two_key_template(a: Seq<char>, between: Seq<char>, b: Seq<char>) -> Seq<char> {
    seq![':'] + two_keys(a, between, b)
}

/// The text `%a%between%b%`.
pub open spec fn two_keys(a: Seq<char>, between: Seq<char>, b: Seq<char>) -> Seq<char> {
    seq!['%'] + a + seq!['%'] + between + seq!['%'] + b + seq!['%']
}

/// Escape capture changes nothing in a text in which no percent sign
/// follows another.
proof fn lemma_escape_without_pairs(t: Seq<char>, i: int)
    requires
        0 <= i <= t.len(),
        forall|k: int| 0 <= k && k + 1 < t.len() ==> !(#[trigger] t[k] == '%' && t[k + 1] == '%'),
    ensures
        escape_from(t, i) == lift(t).subrange(i, t.len() as int),
    decreases t.len() - i,
{
    if i < t.len() {
        lemma_escape_without_pairs(t, i + 1);
        assert(!(t[i] == '%' && t[i + 1] == '%') || i + 1 >= t.len());
        let c = t[i];
        assert(seq![Some(c)] + lift(t).subrange(i + 1, t.len() as int) =~= lift(t).subrange(
            i,
            t.len() as int,
        ));
    } else {
        assert(lift(t).subrange(i, t.len() as int) =~= Seq::<Cell>::empty());
    }
}

/// A scan stops exactly at the first percent sign if no line break stands
/// before it.
proof fn lemma_stop_at(s: Seq<Cell>, from: int, p: int)
    requires
        0 <= from <= p < s.len(),
        s[p] == Some('%'),
        forall|k: int| from <= k < p ==> #[trigger] s[k] != Some('%') && s[k] != Some('\n'),
    ensures
        stop_from(s, from, '%') == p,
    decreases p - from,
{
    if from < p {
        assert(s[from] != Some('%') && s[from] != Some('\n'));
        lemma_stop_at(s, from + 1, p);
    }
}

/// Over a stretch in which a stage finds none of its placeholders, it copies
/// the text and records nothing.
proof fn lemma_idle_stretch(stage: Stage, src: Sources, s: Seq<Cell>, i: int, j: int)
    requires
        0 <= i <= j <= s.len(),
        forall|k: int| i <= k < j ==> #[trigger] piece(stage, src, s, k) == copy_piece(s, k),
    ensures
        expand_from(stage, src, s, i).out == s.subrange(i, j) + expand_from(stage, src, s, j).out,
        expand_from(stage, src, s, i).problems == expand_from(stage, src, s, j).problems,
    decreases j - i,
{
    if i < j {
        assert(piece(stage, src, s, i) == copy_piece(s, i));
        lemma_idle_stretch(stage, src, s, i + 1, j);
        let c = s[i];
        let rest = expand_from(stage, src, s, j);
        assert(seq![c] + (s.subrange(i + 1, j) + rest.out) =~= s.subrange(i, j) + rest.out);
        assert(Seq::<Problem>::empty() + rest.problems =~= rest.problems);
    } else {
        assert(s.subrange(i, j) + expand_from(stage, src, s, j).out =~= expand_from(
            stage,
            src,
            s,
            j,
        ).out);
    }
}

/// Whether `c` is a plain character of the text.
spec fn plain_cell(c: Cell) -> bool {
    match c {
        Some(ch) => is_plain(ch),
        None => false,
    }
}

/// Whether the cells `s` are two placeholders with plain text in and
/// between them: percent signs at `0`, `p1`, `p2` and at the end, `p3`, and
/// plain characters everywhere else.
spec fn two_placeholders(s: Seq<Cell>, p1: int, p2: int, p3: int) -> bool {
    &&& 1 < p1 && p1 + 1 < p2 && p2 + 1 < p3 && s.len() == p3 + 1
    &&& s[0] == Some('%') && s[p1] == Some('%') && s[p2] == Some('%') && s[p3] == Some('%')
    &&& forall|k: int|
        0 < k < p3 && k != p1 && k != p2 ==> plain_cell(#[trigger] s[k])
}

/// The environment stages leave text without a colon as it is.
proof fn lemma_no_colon_no_env(src: Sources, s: Seq<Cell>)
    requires
        forall|k: int| 0 <= k < s.len() ==> #[trigger] s[k] != Some(':'),
    ensures
        expand_from(Stage::EnvDefault, src, s, 0).out == s,
        expand_from(Stage::EnvRequired, src, s, 0).out == s,
        expand_from(Stage::EnvRequired, src, s, 0).problems == Seq::<Problem>::empty(),
{
    assert forall|k: int| 0 <= k < s.len() implies #[trigger] piece(Stage::EnvDefault, src, s, k)
        == copy_piece(s, k) by {
        if k + 4 < s.len() {
            assert(s[k + 4] != Some(':'));
        }
        assert(!env_default_hit(s, k));
    }
    assert forall|k: int| 0 <= k < s.len() implies #[trigger] piece(Stage::EnvRequired, src, s, k)
        == copy_piece(s, k) by {
        if k + 4 < s.len() {
            assert(s[k + 4] != Some(':'));
        }
        assert(!env_hit(s, k));
    }
    lemma_idle_stage(Stage::EnvDefault, src, s, 0);
    lemma_idle_stage(Stage::EnvRequired, src, s, 0);
    assert(s.subrange(0, s.len() as int) =~= s);
}

/// The home-directory stage leaves text without a tilde as it is.
proof fn lemma_no_tilde_no_home(src: Sources, s: Seq<Cell>)
    requires
        forall|k: int| 0 <= k < s.len() ==> #[trigger] s[k] != Some('~'),
    ensures
        expand_from(Stage::Home, src, s, 0).out == s,
        expand_from(Stage::Home, src, s, 0).problems == Seq::<Problem>::empty(),
{
    assert forall|k: int| 0 <= k < s.len() implies #[trigger] piece(Stage::Home, src, s, k)
        == copy_piece(s, k) by {
        assert(s[k] != Some('~'));
        assert(!home_hit(s, k));
        assert(!user_hit(s, k));
    }
    lemma_idle_stage(Stage::Home, src, s, 0);
    assert(s.subrange(0, s.len() as int) =~= s);
}

/// The scope-variable stage on two placeholders whose keys the scope lacks:
/// what stands between them is left, and both keys are recorded.
proof fn lemma_variable_stage_on_two(src: Sources, s: Seq<Cell>, p1: int, p2: int, p3: int)
    requires
        two_placeholders(s, p1, p2, p3),
        lookup(src.entries, unescape(s.subrange(1, p1))) is None,
        lookup(src.entries, unescape(s.subrange(p2 + 1, p3))) is None,
    ensures
        expand_from(Stage::Variable, src, s, 0).out == s.subrange(p1 + 1, p2),
        expand_from(Stage::Variable, src, s, 0).problems == seq![
            Problem::UnknownKey(unescape(s.subrange(1, p1))),
            Problem::UnknownKey(unescape(s.subrange(p2 + 1, p3))),
        ],
{
    let a = unescape(s.subrange(1, p1));
    let b = unescape(s.subrange(p2 + 1, p3));
    assert forall|k: int| 1 <= k < p1 implies #[trigger] s[k] != Some('%') && s[k] != Some(
        '\n',
    ) by {
        assert(plain_cell(s[k]));
    }
    lemma_stop_at(s, 1, p1);
    assert forall|k: int| p2 + 1 <= k < p3 implies #[trigger] s[k] != Some('%') && s[k] != Some(
        '\n',
    ) by {
        assert(plain_cell(s[k]));
    }
    lemma_stop_at(s, p2 + 1, p3);
    assert(var_hit(s, 0) && var_close(s, 0) == p1);
    assert(var_hit(s, p2) && var_close(s, p2) == p3);
    let first = piece(Stage::Variable, src, s, 0);
    let second = piece(Stage::Variable, src, s, p2);
    assert(first.next == p1 + 1 && first.out == Seq::<Cell>::empty() && first.problems
        == seq![Problem::UnknownKey(a)]);
    assert(second.next == p3 + 1 && second.out == Seq::<Cell>::empty() && second.problems
        == seq![Problem::UnknownKey(b)]);
    assert forall|k: int| p1 + 1 <= k < p2 implies #[trigger] piece(Stage::Variable, src, s, k)
        == copy_piece(s, k) by {
        assert(plain_cell(s[k]));
        assert(!var_hit(s, k));
    }
    lemma_idle_stretch(Stage::Variable, src, s, p1 + 1, p2);
    let at_end = expand_from(Stage::Variable, src, s, p3 + 1);
    assert(at_end.out == Seq::<Cell>::empty() && at_end.problems == Seq::<Problem>::empty());
    let at_second = expand_from(Stage::Variable, src, s, p2);
    assert(at_second.out == second.out + at_end.out);
    assert(at_second.problems == second.problems + at_end.problems);
    let at_between = expand_from(Stage::Variable, src, s, p1 + 1);
    let whole = expand_from(Stage::Variable, src, s, 0);
    assert(whole.out == first.out + at_between.out);
    assert(whole.problems == first.problems + at_between.problems);
    assert(whole.problems =~= seq![Problem::UnknownKey(a), Problem::UnknownKey(b)]);
    assert(whole.out =~= s.subrange(p1 + 1, p2));
}

/// The text `%a%between%b%` of three words is two placeholders, with the
/// keys `a` and `b`, and escape capture changes nothing in it.
proof fn lemma_two_keys_shape(a: Seq<char>, between: Seq<char>, b: Seq<char>)
    requires
        is_word(a),
        is_word(between),
        is_word(b),
    ensures
        ({
            let s = lift(two_keys(a, between, b));
            let p1 = a.len() as int + 1;
            let p2 = p1 + between.len() as int + 1;
            let p3 = p2 + b.len() as int + 1;
            &&& two_placeholders(s, p1, p2, p3)
            &&& unescape(s.subrange(1, p1)) == a
            &&& unescape(s.subrange(p2 + 1, p3)) == b
            &&& captured(two_key_template(a, between, b)) == s
            &&& forall|k: int| 0 <= k < s.len() ==> #[trigger] s[k] != Some(':')
            &&& forall|k: int| 0 <= k < s.len() ==> #[trigger] s[k] != Some('~')
        }),
{
    let t = two_keys(a, between, b);
    let raw = two_key_template(a, between, b);
    let p1: int = a.len() as int + 1;
    let p2: int = p1 + between.len() as int + 1;
    let p3: int = p2 + b.len() as int + 1;
    let s = lift(t);
    assert(t.len() == p3 + 1);
    assert(t[0] == '%' && t[p1] == '%' && t[p2] == '%' && t[p3] == '%');
    assert forall|k: int| 0 < k < p3 && k != p1 && k != p2 implies is_plain(#[trigger] t[k]) by {
        if k < p1 {
            assert(t[k] == a[k - 1]);
        } else if k < p2 {
            assert(t[k] == between[k - p1 - 1]);
        } else {
            assert(t[k] == b[k - p2 - 1]);
        }
    }
    assert forall|k: int| 0 <= k && k + 1 < t.len() implies !(#[trigger] t[k] == '%' && t[k + 1]
        == '%') by {
        if k == 0 {
            assert(is_plain(t[1]));
        } else if k == p1 {
            assert(is_plain(t[p1 + 1]));
        } else if k == p2 {
            assert(is_plain(t[p2 + 1]));
        } else if k < p3 {
            assert(is_plain(t[k]));
        }
    }
    lemma_escape_behind_sentinel(t, 0);
    lemma_escape_without_pairs(t, 0);
    assert(s.subrange(0, t.len() as int) =~= s);
    assert forall|k: int| 0 < k < p3 && k != p1 && k != p2 implies plain_cell(#[trigger] s[k]) by {
        assert(is_plain(t[k]));
    }
    assert forall|k: int| 0 <= k < s.len() implies #[trigger] s[k] != Some(':') && s[k] != Some(
        '~',
    ) by {
        if k != 0 && k != p1 && k != p2 && k != p3 {
            assert(is_plain(t[k]));
        }
    }
    assert(unescape(s.subrange(1, p1)) =~= a);
    assert(unescape(s.subrange(p2 + 1, p3)) =~= b);
}

/// Aggregation on a template with two placeholders: where the scope lacks
/// both keys, rendering `:%a%between%b%` fails with exactly the two problems,
/// the first key and then the second, for all words `a`, `between` and `b`.
pub proof fn lemma_two_unknown_keys(src: Sources, a: Seq<char>, between: Seq<char>, b: Seq<char>)
    requires
        is_word(a),
        is_word(between),
        is_word(b),
        lookup(src.entries, a) is None,
        lookup(src.entries, b) is None,
    ensures
        render_spec(src, two_key_template(a, between, b)) == Err::<Seq<char>, Seq<Problem>>(
            seq![Problem::UnknownKey(a), Problem::UnknownKey(b)],
        ),
{
    let raw = two_key_template(a, between, b);
    let s = lift(two_keys(a, between, b));
    let p1: int = a.len() as int + 1;
    let p2: int = p1 + between.len() as int + 1;
    let p3: int = p2 + b.len() as int + 1;
    lemma_two_keys_shape(a, between, b);
    assert(raw[0] == ':');
    lemma_no_colon_no_env(src, s);
    assert(after_env_default(src, raw) == s);
    assert(after_env(src, raw) == s);
    lemma_variable_stage_on_two(src, s, p1, p2, p3);
    let m = substituted(src, raw);
    assert(m == s.subrange(p1 + 1, p2));
    assert forall|k: int| 0 <= k < m.len() implies #[trigger] m[k] != Some('~') by {
        assert(m[k] == s[p1 + 1 + k]);
    }
    lemma_no_tilde_no_home(src, m);
    assert(all_problems(src, raw) =~= seq![Problem::UnknownKey(a), Problem::UnknownKey(b)]);
}

} // verus!
