//! What the front end shows of the table: the details of one alias and the
//! list of all aliases.

use crate::error::{Error, Failure, Flaw, Malformed, Missing};
use crate::locate::{find, locate_spec};
use crate::model::{lookup, AliasDef, AliasTable, Context, Value};
use crate::learning::{definition_mentions, learn_definition};
use crate::stages::{problems, sources, Problem, RenderError, Sources};
use crate::template::{added_once, extends, render_in, render_spec};
use crate::text::{join, join_spec, numeral, push_decimal, texts};
use vstd::prelude::*;

verus! {

/// The details of an alias, ready to be shown.
#[derive(Clone, Debug, PartialEq, Eq)]
pub struct Details {
    /// The reference as it was given.
    pub given: String,
    /// The canonical name of the alias.
    pub actual: String,
    /// The rendered elements of `command`, separated by spaces.
    pub command: String,
    /// The rendered elements of `args`, separated by spaces.
    pub arguments: String,
    /// The description of the alias.
    pub description: String,
    /// Every problem met while rendering; the elements concerned are shown
    /// as `????`.
    pub errors: Vec<RenderError>,
}

/// The mathematical content of [`Details`].
pub struct DetailsView {
    pub given: Seq<char>,
    pub actual: Seq<char>,
    pub command: Seq<char>,
    pub arguments: Seq<char>,
    pub description: Seq<char>,
    pub problems: Seq<Problem>,
}

impl View for Details {
    type V = DetailsView;

    open spec fn view(&self) -> DetailsView {
        DetailsView {
            given: self.given@,
            actual: self.actual@,
            command: self.command@,
            arguments: self.arguments@,
            description: self.description@,
            problems: problems(self.errors@),
        }
    }
}

/// What stands for an element that cannot be shown.
pub open spec fn unknown_word() -> Seq<char> {
    "????"@
}

/// How the element `item` of a sequence is shown: its rendered text, or the
/// unknown word where it is no string or does not render.
pub open spec fn shown_word(src: Sources, item: Value) -> Seq<char> {
    match item {
        Value::Text(raw) => match render_spec(src, raw@) {
            Ok(text) => text,
            Err(_) => unknown_word(),
        },
        _ => unknown_word(),
    }
}

/// The problems of showing the element `item`.
pub open spec fn shown_problems(src: Sources, item: Value) -> Seq<Problem> {
    match item {
        Value::Text(raw) => match render_spec(src, raw@) {
            Ok(_) => Seq::empty(),
            Err(found) => found,
        },
        _ => Seq::empty(),
    }
}

/// How the elements of `items` are shown, one word each.
pub open spec fn shown_words(src: Sources, items: Seq<Value>) -> Seq<Seq<char>> {
    Seq::new(items.len(), |i: int| shown_word(src, items[i]))
}

/// The problems of showing the elements of `items` from position `k` on, in
/// order.
pub open spec fn shown_problems_from(src: Sources, items: Seq<Value>, k: int) -> Seq<Problem>
    decreases items.len() - k,
{
    if k < 0 || k >= items.len() {
        Seq::empty()
    } else {
        shown_problems(src, items[k]) + shown_problems_from(src, items, k + 1)
    }
}

/// The elements of the sequence stored under `key`; none where there is no
/// sequence under `key`.
pub open spec fn listed(src: Sources, key: Seq<char>) -> Seq<Value> {
    match lookup(src.entries, key) {
        Some(Value::List(items, _)) => items@,
        _ => Seq::empty(),
    }
}

/// The details of the alias with the entries of `src`, given as `given` and
/// called `actual`.
///
/// The alias must have a `command` that is a sequence and a `description`
/// that is a string. `command` and `args` are shown element by element,
/// rendered as a step would render them; what fails to render is shown as
/// the unknown word, and its problems are collected, those of `command`
/// first.
pub open spec fn details_spec(src: Sources, given: Seq<char>, actual: Seq<char>) -> Result<
    DetailsView,
    Failure,
> {
    match lookup(src.entries, "command"@) {
        None => Err(Failure::MalformedDefinition { name: given, flaw: Flaw::MissingCommand }),
        Some(Value::List(command, _)) => match lookup(src.entries, "description"@) {
            None => Err(Failure::NoDescription),
            Some(Value::Text(description)) => Ok(
                DetailsView {
                    given,
                    actual,
                    command: join_spec(shown_words(src, command@), " "@),
                    arguments: join_spec(shown_words(src, listed(src, "args"@)), " "@),
                    description: description@,
                    problems: shown_problems_from(src, command@, 0) + shown_problems_from(
                        src,
                        listed(src, "args"@),
                        0,
                    ),
                },
            ),
            Some(_) => Err(Failure::DescriptionNotText),
        },
        Some(_) => Err(Failure::MalformedDefinition { name: given, flaw: Flaw::CommandNotList }),
    }
}

/// The text of the details.
pub open spec fn details_text(details: DetailsView) -> Seq<char> {
    "Given: "@ + details.given + "\nActual: "@ + details.actual + "\nCommand: "@ + details.command
        + "\nArguments:"@ + details.arguments + "\nDescription: "@ + details.description + "\n"@
}

/// Shows the elements of `items`, adding what goes wrong to `errors`.
fn show_items(def: &AliasDef, ctx: &Context, items: &Vec<Value>, errors: &mut Vec<RenderError>)
    -> (out: String)
    requires
        ctx.well_formed(),
    ensures
        out@ == join_spec(shown_words(sources(*def, *ctx), items@), " "@),
        problems(final(errors)@) == problems(old(errors)@) + shown_problems_from(
            sources(*def, *ctx),
            items@,
            0,
        ),
{
    let ghost src = sources(*def, *ctx);
    let mut words: Vec<String> = Vec::new();
    let mut k: usize = 0;
    while k < items.len()
        invariant
            k <= items.len(),
            src == sources(*def, *ctx),
            ctx.well_formed(),
            texts(words@) == shown_words(src, items@).take(k as int),
            problems(errors@) + shown_problems_from(src, items@, k as int) == problems(
                old(errors)@,
            ) + shown_problems_from(src, items@, 0),
        decreases items.len() - k,
    {
        let ghost found = problems(errors@);
        let ghost rest = shown_problems_from(src, items@, k + 1);
        let word = match &items[k] {
            Value::Text(raw) => match render_in(def, ctx, raw.as_str()) {
                Ok(text) => text,
                Err(mut more) => {
                    let ghost added = problems(more@);
                    errors.append(&mut more);
                    proof {
                        assert(problems(errors@) =~= found + added);
                    }
                    "????".to_owned()
                },
            },
            _ => "????".to_owned(),
        };
        proof {
            let here = shown_problems(src, items@[k as int]);
            assert(problems(errors@) =~= found + here);
            assert((found + here) + rest =~= found + (here + rest));
        }
        let ghost before = words@;
        words.push(word);
        proof {
            assert(texts(words@) =~= texts(before).push(word@));
            assert(texts(words@) =~= shown_words(src, items@).take(k + 1));
        }
        k += 1;
    }
    proof {
        assert(shown_words(src, items@).take(items@.len() as int) =~= shown_words(src, items@));
        assert(problems(errors@) + Seq::<Problem>::empty() =~= problems(errors@));
    }
    join(&words, " ")
}

/// The details of the alias `def`, given as `given` and called `actual`,
/// against exactly what `ctx` holds.
pub fn details_of(def: &AliasDef, ctx: &Context, given: &str, actual: &str) -> (r: Result<
    Details,
    Error,
>)
    requires
        ctx.well_formed(),
    ensures
        match details_spec(sources(*def, *ctx), given@, actual@) {
            Ok(details) => r matches Ok(found) && found@ == details,
            Err(failure) => r matches Err(e) && e@ == failure,
        },
{
    let command = match def.get("command") {
        None => {
            return Err(
                Error::MalformedDefinition {
                    name: given.to_owned(),
                    malformed: Malformed::MissingCommand,
                },
            );
        },
        Some(Value::List(items, _)) => items,
        Some(_) => {
            return Err(
                Error::MalformedDefinition {
                    name: given.to_owned(),
                    malformed: Malformed::CommandNotList,
                },
            );
        },
    };
    let description = match def.get("description") {
        None => {
            return Err(Error::NoDescription);
        },
        Some(Value::Text(text)) => text.clone(),
        Some(_) => {
            return Err(Error::DescriptionNotText);
        },
    };
    let mut errors: Vec<RenderError> = Vec::new();
    let shown_command = show_items(def, ctx, command, &mut errors);
    let ghost first = problems(errors@);
    let arguments = match def.get("args") {
        Some(Value::List(items, _)) => show_items(def, ctx, items, &mut errors),
        _ => {
            proof {
                assert(problems(errors@) =~= first + Seq::<Problem>::empty());
            }
            String::new()
        },
    };
    proof {
        assert(first =~= shown_problems_from(sources(*def, *ctx), command@, 0));
    }
    Ok(
        Details {
            given: given.to_owned(),
            actual: actual.to_owned(),
            command: shown_command,
            arguments,
            description,
            errors,
        },
    )
}

impl Details {
    /// The text of the details, as it is printed.
    pub fn text(&self) -> (out: String)
        ensures
            out@ == details_text(self@),
    {
        let mut out = String::new();
        out.append("Given: ");
        out.append(self.given.as_str());
        out.append("\nActual: ");
        out.append(self.actual.as_str());
        out.append("\nCommand: ");
        out.append(self.command.as_str());
        out.append("\nArguments:");
        out.append(self.arguments.as_str());
        out.append("\nDescription: ");
        out.append(self.description.as_str());
        out.append("\n");
        proof {
            assert(out@ =~= details_text(self@));
        }
        out
    }
}

/// Resolves `cmd_name` against `table` and gives the details of the alias
/// found. The users that the definition refers to are looked up first; the
/// details are those of [`details_of`] against `ctx` as it then stands.
pub fn show_details(table: &AliasTable, ctx: &mut Context, cmd_name: &str) -> (r: Result<
    Details,
    Error,
>)
    requires
        old(ctx).well_formed(),
    ensures
        final(ctx).vars == old(ctx).vars,
        final(ctx).home == old(ctx).home,
        extends(old(ctx).users@, final(ctx).users@),
        added_once(final(ctx).users@, old(ctx).users@.len() as int),
        locate_spec(table.aliases@, cmd_name@) matches Ok(k) ==> forall|u: int|
            old(ctx).users@.len() <= u < final(ctx).users@.len() ==> definition_mentions(
                sources(table.aliases@[k].def->0, *final(ctx)),
                #[trigger] final(ctx).users@[u].name@,
            ),
        locate_spec(table.aliases@, cmd_name@) is Err ==> final(ctx).users == old(ctx).users,
        match locate_spec(table.aliases@, cmd_name@) {
            Ok(k) => match details_spec(
                sources(table.aliases@[k].def->0, *final(ctx)),
                cmd_name@,
                table.aliases@[k].name@,
            ) {
                Ok(details) => r matches Ok(found) && found@ == details,
                Err(failure) => r matches Err(e) && e@ == failure,
            },
            Err(why) => r matches Err(e) && e@ == (Failure::AliasNotFound {
                reference: cmd_name@,
                why,
            }),
        },
{
    proof {
        assert(ctx.users@.subrange(0, ctx.users@.len() as int) =~= ctx.users@);
    }
    match find(table, cmd_name) {
        Ok(index) => match &table.aliases[index].def {
            Some(def) => {
                learn_definition(def, ctx);
                details_of(def, ctx, cmd_name, table.aliases[index].name.as_str())
            },
            None => Err(
                Error::AliasNotFound { reference: cmd_name.to_owned(), why: Missing::NoDefinition },
            ),
        },
        Err(why) => Err(Error::AliasNotFound { reference: cmd_name.to_owned(), why }),
    }
}

/// The line of the list of aliases for slot `i`, counted from zero: the
/// positional reference to the slot, and its name.
pub open spec fn listing_line(i: int, name: Seq<char>) -> Seq<char> {
    "@"@ + numeral((i + 1) as nat) + " : "@ + name
}

/// The list of aliases: one line for each slot of the table, in insertion
/// order.
pub fn list_cmds(table: &AliasTable) -> (lines: Vec<String>)
    ensures
        lines@.len() == table.aliases@.len(),
        forall|i: int|
            0 <= i < lines@.len() ==> (#[trigger] lines@[i])@ == listing_line(
                i,
                table.aliases@[i].name@,
            ),
{
    let mut lines: Vec<String> = Vec::new();
    let mut i: usize = 0;
    while i < table.aliases.len()
        invariant
            i <= table.aliases.len(),
            lines@.len() == i,
            forall|j: int|
                0 <= j < i ==> (#[trigger] lines@[j])@ == listing_line(j, table.aliases@[j].name@),
        decreases table.aliases.len() - i,
    {
        let mut line = String::new();
        line.append("@");
        push_decimal(&mut line, i as u64 + 1);
        line.append(" : ");
        line.append(table.aliases[i].name.as_str());
        proof {
            assert(line@ =~= listing_line(i as int, table.aliases@[i as int].name@));
        }
        lines.push(line);
        i += 1;
    }
    lines
}

} // verus!
