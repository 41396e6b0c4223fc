//! The alias locator: resolves a name or a positional reference `@N`
//! against the table.

use crate::error::{Error, Failure, Missing};
use crate::model::{Alias, AliasDef, AliasTable};
use crate::text::{
    chars_of, decimal_value, digit_value, is_digit, lemma_decimal_grows, lemma_numeral_round_trip,
    numeral,
};
use vstd::prelude::*;

verus! {

/// Whether `r` is a positional reference: `@` and then one or more digits.
pub open spec fn is_positional(r: Seq<char>) -> bool {
    &&& r.len() >= 2
    &&& r[0] == '@'
    &&& forall|i: int| 1 <= i < r.len() ==> is_digit(#[trigger] r[i])
}

/// Index of the first alias named `name` at or after `from`, or the number
/// of aliases if there is none.
pub open spec fn name_index(aliases: Seq<Alias>, name: Seq<char>, from: int) -> int
    decreases aliases.len() - from,
{
    if from >= aliases.len() {
        aliases.len() as int
    } else if aliases[from].name@ == name {
        from
    } else {
        name_index(aliases, name, from + 1)
    }
}

/// The slot at position `n`, counted from one, of a table of `count` slots.
/// A number that the machine cannot count to is a bad position; zero and
/// every number behind the table lead to no definition.
pub open spec fn slot_at(n: nat, count: nat) -> Result<int, Missing> {
    if n > usize::MAX {
        Err(Missing::BadPosition)
    } else if 1 <= n <= count {
        Ok(n - 1)
    } else {
        Err(Missing::NoDefinition)
    }
}

/// The slot that `r` refers to: for `@N` the `N`-th slot, counted from one,
/// else the first slot named `r`.
pub open spec fn slot_of(aliases: Seq<Alias>, r: Seq<char>) -> Result<int, Missing> {
    if is_positional(r) {
        slot_at(decimal_value(r.skip(1)), aliases.len())
    } else {
        let k = name_index(aliases, r, 0);
        if k < aliases.len() {
            Ok(k)
        } else {
            Err(Missing::NoSuchName)
        }
    }
}

/// The index of the alias that `r` refers to: its slot, if that slot holds a
/// definition; else why there is none.
pub open spec fn locate_spec(aliases: Seq<Alias>, r: Seq<char>) -> Result<int, Missing> {
    match slot_of(aliases, r) {
        Ok(k) => if aliases[k].def is Some {
            Ok(k)
        } else {
            Err(Missing::NoDefinition)
        },
        Err(why) => Err(why),
    }
}

/// The number that the digit `c` stands for.
fn digit_of(c: char) -> (v: usize)
    requires
        is_digit(c),
    ensures
        v == digit_value(c),
        v <= 9,
{
    (c as u32 - '0' as u32) as usize
}

/// Whether `chars` is a positional reference.
fn positional(chars: &Vec<char>) -> (b: bool)
    ensures
        b == is_positional(chars@),
{
    if chars.len() < 2 || chars[0] != '@' {
        return false;
    }
    let mut i: usize = 1;
    while i < chars.len()
        invariant
            1 <= i <= chars.len(),
            forall|j: int| 1 <= j < i ==> is_digit(#[trigger] chars@[j]),
        decreases chars.len() - i,
    {
        let c = chars[i];
        if !('0' <= c && c <= '9') {
            return false;
        }
        i += 1;
    }
    true
}

/// The slot that the positional reference `chars` refers to in a table of
/// `count` slots.
fn position(chars: &Vec<char>, count: usize) -> (slot: Result<usize, Missing>)
    requires
        is_positional(chars@),
    ensures
        match slot_at(decimal_value(chars@.skip(1)), count as nat) {
            Ok(k) => slot matches Ok(i) && i == k && i < count,
            Err(why) => slot == Err::<usize, Missing>(why),
        },
{
    let ghost digits = chars@.skip(1);
    let mut value: usize = 0;
    let mut i: usize = 1;
    proof {
        assert(digits.take(0) =~= Seq::<char>::empty());
    }
    while i < chars.len()
        invariant
            1 <= i <= chars.len(),
            is_positional(chars@),
            digits == chars@.skip(1),
            value == decimal_value(digits.take(i - 1)),
        decreases chars.len() - i,
    {
        let d = digit_of(chars[i]);
        proof {
            assert(digits.take(i as int).drop_last() =~= digits.take(i - 1));
            assert(digits.take(i as int).last() == chars@[i as int]);
            lemma_decimal_grows(digits, i as int);
        }
        if value > (usize::MAX - d) / 10 {
            return Err(Missing::BadPosition);
        }
        value = value * 10 + d;
        i += 1;
    }
    proof {
        assert(digits.take(chars@.len() - 1) =~= digits);
    }
    if 1 <= value && value <= count {
        Ok(value - 1)
    } else {
        Err(Missing::NoDefinition)
    }
}

/// The index of the first alias named `name`.
fn named(table: &AliasTable, name: &str) -> (slot: Option<usize>)
    ensures
        match slot {
            Some(k) => k < table.aliases@.len() && name_index(table.aliases@, name@, 0) == k,
            None => name_index(table.aliases@, name@, 0) >= table.aliases@.len(),
        },
{
    let wanted = name.to_owned();
    let mut i: usize = 0;
    while i < table.aliases.len()
        invariant
            i <= table.aliases.len(),
            wanted@ == name@,
            name_index(table.aliases@, name@, 0) == name_index(table.aliases@, name@, i as int),
        decreases table.aliases.len() - i,
    {
        if table.aliases[i].name == wanted {
            return Some(i);
        }
        i += 1;
    }
    None
}

/// The index of the alias that `reference` refers to, or why there is none.
pub fn find(table: &AliasTable, reference: &str) -> (found: Result<usize, Missing>)
    ensures
        match locate_spec(table.aliases@, reference@) {
            Ok(k) => found matches Ok(i) && i == k && i < table.aliases@.len()
                && table.aliases@[k].def is Some,
            Err(why) => found == Err::<usize, Missing>(why),
        },
{
    let chars = chars_of(reference);
    let slot = if positional(&chars) {
        position(&chars, table.aliases.len())
    } else {
        match named(table, reference) {
            Some(k) => Ok(k),
            None => Err(Missing::NoSuchName),
        }
    };
    match slot {
        Ok(k) => if table.aliases[k].def.is_some() {
            Ok(k)
        } else {
            Err(Missing::NoDefinition)
        },
        Err(why) => Err(why),
    }
}

/// Resolves `reference` to a definition and its canonical name: the name
/// under which the table holds it, also where it was addressed by position.
pub fn locate<'a>(table: &'a AliasTable, reference: &str) -> (r: Result<
    (&'a AliasDef, String),
    Error,
>)
    ensures
        match locate_spec(table.aliases@, reference@) {
            Ok(k) => r matches Ok(found) && Some(*found.0) == table.aliases@[k].def && found.1@
                == table.aliases@[k].name@,
            Err(why) => r matches Err(e) && e@ == (Failure::AliasNotFound {
                reference: reference@,
                why,
            }),
        },
{
    match find(table, reference) {
        Ok(k) => match &table.aliases[k].def {
            Some(def) => Ok((def, table.aliases[k].name.clone())),
            None => Err(
                Error::AliasNotFound { reference: reference.to_owned(), why: Missing::NoDefinition },
            ),
        },
        Err(why) => Err(Error::AliasNotFound { reference: reference.to_owned(), why }),
    }
}

/// The positional reference to slot `n`, counted from one: `@` and the
/// decimal numeral of `n`.
pub open spec fn position_ref(n: nat) -> Seq<char> {
    seq!['@'] + numeral(n)
}

/// A positional reference resolves by insertion order alone: `@N` is the
/// `N`-th slot of the table if the table has that many slots and the slot
/// holds a definition, and nothing else, whatever the aliases are called.
pub proof fn lemma_locate_by_position(aliases: Seq<Alias>, n: nat)
    ensures
        is_positional(position_ref(n)),
        locate_spec(aliases, position_ref(n)) == if 1 <= n <= aliases.len() && n <= usize::MAX
            && aliases[n - 1].def is Some {
            Ok::<int, Missing>(n - 1)
        } else if n > usize::MAX {
            Err::<int, Missing>(Missing::BadPosition)
        } else {
            Err::<int, Missing>(Missing::NoDefinition)
        },
{
    lemma_numeral_round_trip(n);
    let r = position_ref(n);
    assert(r[0] == '@');
    assert forall|i: int| 1 <= i < r.len() implies is_digit(#[trigger] r[i]) by {
        assert(r[i] == numeral(n)[i - 1]);
    }
    assert(r.skip(1) =~= numeral(n));
}

/// `@1` is the first slot of the table, in insertion order.
pub proof fn lemma_first_position(aliases: Seq<Alias>)
    requires
        aliases.len() >= 1,
        aliases[0].def is Some,
    ensures
        locate_spec(aliases, "@1"@) == Ok::<int, Missing>(0int),
{
    reveal_strlit("@1");
    assert("@1"@ =~= position_ref(1)) by {
        assert(numeral(1) =~= seq!['1']);
    }
    lemma_locate_by_position(aliases, 1);
}

/// `@0` refers to nothing.
pub proof fn lemma_position_zero(aliases: Seq<Alias>)
    ensures
        locate_spec(aliases, "@0"@) is Err,
{
    reveal_strlit("@0");
    assert("@0"@ =~= position_ref(0)) by {
        assert(numeral(0) =~= seq!['0']);
    }
    lemma_locate_by_position(aliases, 0);
}

/// A position behind the last slot refers to nothing.
pub proof fn lemma_position_past_end(aliases: Seq<Alias>, n: nat)
    requires
        n > aliases.len(),
    ensures
        locate_spec(aliases, position_ref(n)) is Err,
{
    lemma_locate_by_position(aliases, n);
}

} // verus!
