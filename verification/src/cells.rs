//! Template text as a sequence of cells, and the scans that recognise
//! placeholders in it.
//!
//! A cell is either a literal character or an escaped percent sign. Escaped
//! percent signs are a token of their own, so no later stage can mistake one
//! for a placeholder delimiter, and no character of the text can be mistaken
//! for one.

use vstd::prelude::*;

verus! {

/// One position of a template under expansion: `Some(c)` is the character
/// `c` of the text, `None` is what `%%` stood for, a percent sign that
/// delimits nothing.
pub type Cell = Option<char>;

/// Whether position `i` of `s` holds the literal character `c`.
pub open spec fn lit(s: Seq<Cell>, i: int, c: char) -> bool {
    0 <= i < s.len() && s[i] == Some(c)
}

/// The character a cell stands for in the final text.
pub open spec fn plain(c: Cell) -> char {
    match c {
        Some(ch) => ch,
        None => '%',
    }
}

/// Text inserted into a template: every character a literal cell.
pub open spec fn lift(t: Seq<char>) -> Seq<Cell> {
    Seq::new(t.len(), |i: int| Some(t[i]))
}

/// The final text of a cell sequence: escaped percent signs become `%`.
pub open spec fn unescape(s: Seq<Cell>) -> Seq<char> {
    Seq::new(s.len(), |i: int| plain(s[i]))
}

/// Escape capture of `t` from position `i` on: scanning left to right, each
/// `%%` becomes one escaped cell and every other character a literal cell.
pub open spec fn escape_from(t: Seq<char>, i: int) -> Seq<Cell>
    decreases t.len() - i,
{
    if i >= t.len() {
        Seq::empty()
    } else if i + 1 < t.len() && t[i] == '%' && t[i + 1] == '%' {
        seq![None] + escape_from(t, i + 2)
    } else {
        let c = t[i];
        seq![Some(c)] + escape_from(t, i + 1)
    }
}

/// The first position at or after `from` that holds the literal `a` or a
/// line break; the length of `s` if there is none.
pub open spec fn stop_from(s: Seq<Cell>, from: int, a: char) -> int
    decreases s.len() - from,
{
    if from >= s.len() {
        s.len() as int
    } else if s[from] == Some(a) || s[from] == Some('\n') {
        from
    } else {
        stop_from(s, from + 1, a)
    }
}

/// Whether `%env:` stands at position `i`.
pub open spec fn env_prefix(s: Seq<Cell>, i: int) -> bool {
    &&& lit(s, i, '%')
    &&& lit(s, i + 1, 'e')
    &&& lit(s, i + 2, 'n')
    &&& lit(s, i + 3, 'v')
    &&& lit(s, i + 4, ':')
}

/// Where the name of an `%env:NAME:DEFAULT%` placeholder starting at `i`
/// would end: the first `:` after the prefix, on the same line.
pub open spec fn env_colon(s: Seq<Cell>, i: int) -> int {
    stop_from(s, i + 5, ':')
}

/// Where an `%env:NAME:DEFAULT%` placeholder starting at `i` would close:
/// the first `%` after the colon, on the same line.
pub open spec fn env_default_close(s: Seq<Cell>, i: int) -> int {
    stop_from(s, env_colon(s, i) + 1, '%')
}

/// Whether an `%env:NAME:DEFAULT%` placeholder starts at `i`. The name runs
/// to the first colon and may itself hold percent signs; the default runs
/// from there to the next percent sign; neither crosses a line break.
pub open spec fn env_default_hit(s: Seq<Cell>, i: int) -> bool {
    &&& env_prefix(s, i)
    &&& lit(s, env_colon(s, i), ':')
    &&& lit(s, env_default_close(s, i), '%')
}

/// Where an `%env:NAME%` placeholder starting at `i` would close.
pub open spec fn env_close(s: Seq<Cell>, i: int) -> int {
    stop_from(s, i + 5, '%')
}

/// Whether an `%env:NAME%` placeholder starts at `i`.
pub open spec fn env_hit(s: Seq<Cell>, i: int) -> bool {
    env_prefix(s, i) && lit(s, env_close(s, i), '%')
}

/// Where a `%KEY%` placeholder starting at `i` would close.
pub open spec fn var_close(s: Seq<Cell>, i: int) -> int {
    stop_from(s, i + 1, '%')
}

/// Whether a `%KEY%` placeholder starts at `i`: a percent sign, then the
/// shortest run of characters on one line up to the next percent sign.
pub open spec fn var_hit(s: Seq<Cell>, i: int) -> bool {
    lit(s, i, '%') && lit(s, var_close(s, i), '%')
}

/// Whether a user name may begin with this cell: `a`-`z` or `_`.
pub open spec fn name_start(c: Cell) -> bool {
    match c {
        Some(ch) => ('a' <= ch && ch <= 'z') || ch == '_',
        None => false,
    }
}

/// Whether a user name may continue with this cell: `a`-`z`, `0`-`9`, `_`
/// or `-`.
pub open spec fn name_rest(c: Cell) -> bool {
    match c {
        Some(ch) => ('a' <= ch && ch <= 'z') || ('0' <= ch && ch <= '9') || ch == '_' || ch
            == '-',
        None => false,
    }
}

/// The end of the run of name characters that starts at `from` and stops
/// before `limit` at the latest.
pub open spec fn run_end(s: Seq<Cell>, from: int, limit: int) -> int
    decreases limit - from,
{
    if from >= limit || from >= s.len() || from < 0 || !name_rest(s[from]) {
        from
    } else {
        run_end(s, from + 1, limit)
    }
}

/// Where the user name of a `~user/` reference starting at `i` would end:
/// after its first character and at most thirty more.
pub open spec fn user_end(s: Seq<Cell>, i: int) -> int {
    run_end(s, i + 2, i + 32)
}

/// Whether `~/` stands at position `i`.
pub open spec fn home_hit(s: Seq<Cell>, i: int) -> bool {
    lit(s, i, '~') && lit(s, i + 1, '/')
}

/// Whether a `~user/` reference starts at `i`: a tilde, a user name of one
/// to thirty-one characters, and a slash right after it.
pub open spec fn user_hit(s: Seq<Cell>, i: int) -> bool {
    &&& lit(s, i, '~')
    &&& 0 <= i + 1 < s.len()
    &&& name_start(s[i + 1])
    &&& lit(s, user_end(s, i), '/')
}

/// A scan never moves backwards and never leaves the text.
pub proof fn lemma_stop_bounds(s: Seq<Cell>, from: int, a: char)
    requires
        0 <= from <= s.len(),
    ensures
        from <= stop_from(s, from, a) <= s.len(),
    decreases s.len() - from,
{
    if from < s.len() && !(s[from] == Some(a) || s[from] == Some('\n')) {
        lemma_stop_bounds(s, from + 1, a);
    }
}

/// A run of name characters ends between its start and its limit.
pub proof fn lemma_run_bounds(s: Seq<Cell>, from: int, limit: int)
    requires
        0 <= from <= limit,
    ensures
        from <= run_end(s, from, limit) <= limit,
    decreases limit - from,
{
    if !(from >= limit || from >= s.len() || !name_rest(s[from])) {
        lemma_run_bounds(s, from + 1, limit);
    }
}

/// Whether position `i` of `s` holds the literal character `c`.
pub(crate) fn is_lit(s: &Vec<Cell>, i: usize, c: char) -> (b: bool)
    ensures
        b == lit(s@, i as int, c),
{
    if i < s.len() {
        match s[i] {
            Some(ch) => ch == c,
            None => false,
        }
    } else {
        false
    }
}

/// Escape capture of a whole text.
pub(crate) fn escape(t: &Vec<char>, start: usize) -> (out: Vec<Cell>)
    requires
        start <= t.len(),
    ensures
        out@ == escape_from(t@, start as int),
{
    let mut out: Vec<Cell> = Vec::new();
    let mut i: usize = start;
    while i < t.len()
        invariant
            start <= i <= t.len(),
            out@ + escape_from(t@, i as int) == escape_from(t@, start as int),
        decreases t.len() - i,
    {
        let c: char = t[i];
        let pair: bool = if c == '%' && i + 1 < t.len() {
            let d: char = t[i + 1];
            d == '%'
        } else {
            false
        };
        if pair {
            proof {
                assert((out@.push(None)) + escape_from(t@, i + 2) =~= out@ + escape_from(
                    t@,
                    i as int,
                ));
            }
            out.push(None);
            i += 2;
        } else {
            proof {
                assert((out@.push(Some(c))) + escape_from(t@, i + 1) =~= out@ + escape_from(
                    t@,
                    i as int,
                ));
            }
            out.push(Some(c));
            i += 1;
        }
    }
    proof {
        assert(out@ + escape_from(t@, i as int) =~= out@);
    }
    out
}

/// The text that the cells of `s` from `from` to `to` stand for.
pub(crate) fn text_of(s: &Vec<Cell>, from: usize, to: usize) -> (out: String)
    requires
        from <= to <= s.len(),
    ensures
        out@ == unescape(s@.subrange(from as int, to as int)),
{
    let mut out = String::new();
    let mut i: usize = from;
    while i < to
        invariant
            from <= i <= to <= s.len(),
            out@ == unescape(s@.subrange(from as int, i as int)),
        decreases to - i,
    {
        let c = match s[i] {
            Some(ch) => ch,
            None => '%',
        };
        proof {
            assert(unescape(s@.subrange(from as int, i + 1)) =~= out@.push(c));
        }
        out.push(c);
        i += 1;
    }
    out
}

/// The first position at or after `from` that holds the literal `a` or a
/// line break.
pub(crate) fn find_stop(s: &Vec<Cell>, from: usize, a: char) -> (k: usize)
    requires
        from <= s.len(),
    ensures
        k == stop_from(s@, from as int, a),
        from <= k <= s.len(),
{
    let mut k: usize = from;
    while k < s.len()
        invariant
            from <= k <= s.len(),
            stop_from(s@, k as int, a) == stop_from(s@, from as int, a),
        decreases s.len() - k,
    {
        if is_lit(s, k, a) || is_lit(s, k, '\n') {
            return k;
        }
        k += 1;
    }
    k
}

/// Whether `%env:` stands at position `i`.
pub(crate) fn has_env_prefix(s: &Vec<Cell>, i: usize) -> (b: bool)
    requires
        i < s.len(),
    ensures
        b == env_prefix(s@, i as int),
{
    if s.len() - i < 5 {
        false
    } else {
        is_lit(s, i, '%') && is_lit(s, i + 1, 'e') && is_lit(s, i + 2, 'n') && is_lit(s, i + 3, 'v')
            && is_lit(s, i + 4, ':')
    }
}

/// Whether a user name may begin with this cell.
pub(crate) fn starts_name(c: Cell) -> (b: bool)
    ensures
        b == name_start(c),
{
    match c {
        Some(ch) => ('a' <= ch && ch <= 'z') || ch == '_',
        None => false,
    }
}

/// Whether a user name may continue with this cell.
pub(crate) fn continues_name(c: Cell) -> (b: bool)
    ensures
        b == name_rest(c),
{
    match c {
        Some(ch) => ('a' <= ch && ch <= 'z') || ('0' <= ch && ch <= '9') || ch == '_' || ch
            == '-',
        None => false,
    }
}

/// Where the user name of a `~user/` reference starting at `i` would end.
pub(crate) fn find_user_end(s: &Vec<Cell>, i: usize) -> (k: usize)
    requires
        i + 1 < s.len(),
    ensures
        k == user_end(s@, i as int),
        i + 2 <= k <= s.len(),
        k <= i + 32,
{
    let mut k: usize = i + 2;
    let mut taken: usize = 0;
    while taken < 30 && k < s.len() && continues_name(s[k])
        invariant
            k == i + 2 + taken,
            taken <= 30,
            k <= s.len(),
            run_end(s@, k as int, i + 32) == run_end(s@, i + 2, i + 32),
        decreases 30 - taken,
    {
        k += 1;
        taken += 1;
    }
    k
}

} // verus!
