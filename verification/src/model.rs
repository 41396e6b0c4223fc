//! The data the dispatcher works on: alias definitions, the ordered alias
//! table, and the ambient context that templates are rendered against.

use crate::system::{lookup_home_dir, slash_terminated};
use crate::text::chars_of;
use vstd::prelude::*;

verus! {

/// A value stored under a key of an alias definition. What is no string
/// carries, beside what it holds, the text by which the definition writes
/// it, so that it can be shown.
#[derive(Debug, PartialEq, Eq)]
pub enum Value {
    /// A string.
    Text(String),
    /// An ordered sequence of values, and how it is written.
    List(Vec<Value>, String),
    /// Anything that is neither a string nor a sequence, as it is written.
    Other(String),
}

/// How the definition writes `value`.
pub open spec fn written(value: Value) -> Seq<char> {
    match value {
        Value::Text(text) => text@,
        Value::List(_, shown) => shown@,
        Value::Other(shown) => shown@,
    }
}

/// One key of an alias definition together with its value.
#[derive(Debug, PartialEq, Eq)]
pub struct Entry {
    pub key: String,
    pub value: Value,
}

/// An alias definition: an ordered list of keyed values. It is both the
/// alias's metadata (`command`, `args`, `description`, `pre`, `post`) and the
/// scope in which `%KEY%` placeholders are looked up.
#[derive(Debug, PartialEq, Eq)]
pub struct AliasDef {
    pub entries: Vec<Entry>,
}

/// A named slot of the alias table. `def` is `None` when the slot holds
/// something other than a definition.
#[derive(Debug, PartialEq, Eq)]
pub struct Alias {
    pub name: String,
    pub def: Option<AliasDef>,
}

/// The alias table, in insertion order.
#[derive(Debug, PartialEq, Eq)]
pub struct AliasTable {
    pub aliases: Vec<Alias>,
}

/// One variable of the process environment.
#[derive(Clone, Debug, PartialEq, Eq)]
pub struct EnvVar {
    pub name: String,
    pub value: String,
}

/// The home directory of a named user.
#[derive(Clone, Debug, PartialEq, Eq)]
pub struct UserHome {
    pub name: String,
    pub home: String,
}

/// Everything outside the alias definition that rendering reads.
#[derive(Clone, Debug, PartialEq, Eq)]
pub struct Context {
    /// The environment variables that are set.
    pub vars: Vec<EnvVar>,
    /// The current user's home directory, ending in `/`.
    pub home: String,
    /// The named users whose home directories are known.
    pub users: Vec<UserHome>,
}

/// Index of the first entry with key `key` at or after `from`, or the number
/// of entries if there is none.
pub open spec fn key_index(entries: Seq<Entry>, key: Seq<char>, from: int) -> int
    decreases entries.len() - from,
{
    if from >= entries.len() {
        entries.len() as int
    } else if entries[from].key@ == key {
        from
    } else {
        key_index(entries, key, from + 1)
    }
}

/// The value stored under `key`: that of the first entry with this key.
pub open spec fn lookup(entries: Seq<Entry>, key: Seq<char>) -> Option<Value> {
    let i = key_index(entries, key, 0);
    if i < entries.len() {
        Some(entries[i].value)
    } else {
        None
    }
}

/// Index of the first variable named `name` at or after `from`, or the number
/// of variables if there is none.
pub open spec fn var_index(vars: Seq<EnvVar>, name: Seq<char>, from: int) -> int
    decreases vars.len() - from,
{
    if from >= vars.len() {
        vars.len() as int
    } else if vars[from].name@ == name {
        from
    } else {
        var_index(vars, name, from + 1)
    }
}

/// The value of the environment variable `name`, if it is set.
pub open spec fn env_value(vars: Seq<EnvVar>, name: Seq<char>) -> Option<Seq<char>> {
    let i = var_index(vars, name, 0);
    if i < vars.len() {
        Some(vars[i].value@)
    } else {
        None
    }
}

/// Index of the first user named `name` at or after `from`, or the number of
/// users if there is none.
pub open spec fn user_index(users: Seq<UserHome>, name: Seq<char>, from: int) -> int
    decreases users.len() - from,
{
    if from >= users.len() {
        users.len() as int
    } else if users[from].name@ == name {
        from
    } else {
        user_index(users, name, from + 1)
    }
}

/// The home directory of the user `name`, if that user is known.
pub open spec fn user_home(users: Seq<UserHome>, name: Seq<char>) -> Option<Seq<char>> {
    let i = user_index(users, name, 0);
    if i < users.len() {
        Some(users[i].home@)
    } else {
        None
    }
}

impl Value {
    /// How the definition writes this value.
    pub fn written(&self) -> (shown: String)
        ensures
            shown@ == written(*self),
    {
        match self {
            Value::Text(text) => text.clone(),
            Value::List(_, shown) => shown.clone(),
            Value::Other(shown) => shown.clone(),
        }
    }
}

impl AliasDef {
    /// The value stored under `key`, if any.
    pub fn get(&self, key: &str) -> (found: Option<&Value>)
        ensures
            match found {
                Some(v) => lookup(self.entries@, key@) == Some(*v),
                None => lookup(self.entries@, key@) is None,
            },
    {
        let wanted = key.to_owned();
        let mut i: usize = 0;
        while i < self.entries.len()
            invariant
                i <= self.entries.len(),
                wanted@ == key@,
                key_index(self.entries@, key@, 0) == key_index(self.entries@, key@, i as int),
            decreases self.entries.len() - i,
        {
            if self.entries[i].key == wanted {
                return Some(&self.entries[i].value);
            }
            i += 1;
        }
        None
    }
}

/// Whether `home` can stand for `~/`: it is not empty and ends in a slash.
pub open spec fn slash_ended(home: Seq<char>) -> bool {
    home.len() > 0 && home.last() == '/'
}

impl Context {
    /// Whether the context is as rendering needs it: the home directory
    /// ends in a slash.
    pub open spec fn well_formed(&self) -> bool {
        slash_ended(self.home@)
    }

    /// The context of a process with the environment `vars` whose home
    /// directory the system gave as `found`: the directory with a slash at
    /// its end, and no user known yet. There is no context without a home
    /// directory.
    pub fn new(vars: Vec<EnvVar>, found: Option<String>) -> (made: Option<Context>)
        ensures
            match found {
                Some(dir) => made matches Some(ctx) && ctx.well_formed() && ctx.vars == vars
                    && ctx.home@ == dir@.push('/') && ctx.users@.len() == 0,
                None => made is None,
            },
    {
        match slash_terminated(found) {
            Some(home) => Some(Context { vars, home, users: Vec::new() }),
            None => None,
        }
    }

    /// The context of this process with the environment `vars`: the home
    /// directory is asked of the system, and the context is what
    /// [`Context::new`] makes of the answer.
    pub fn current(vars: Vec<EnvVar>) -> (made: Option<Context>)
        ensures
            made matches Some(ctx) ==> ctx.well_formed() && ctx.vars == vars && ctx.users@.len()
                == 0,
    {
        Context::new(vars, lookup_home_dir())
    }

    /// Whether the context is as rendering needs it.
    pub fn is_well_formed(&self) -> (b: bool)
        ensures
            b == self.well_formed(),
    {
        let chars = chars_of(self.home.as_str());
        chars.len() > 0 && chars[chars.len() - 1] == '/'
    }

    /// The value of the environment variable `name`, if it is set.
    pub fn var(&self, name: &String) -> (found: Option<&String>)
        ensures
            match found {
                Some(v) => env_value(self.vars@, name@) == Some(v@),
                None => env_value(self.vars@, name@) is None,
            },
    {
        let mut i: usize = 0;
        while i < self.vars.len()
            invariant
                i <= self.vars.len(),
                var_index(self.vars@, name@, 0) == var_index(self.vars@, name@, i as int),
            decreases self.vars.len() - i,
        {
            if self.vars[i].name == *name {
                return Some(&self.vars[i].value);
            }
            i += 1;
        }
        None
    }

    /// The home directory of the user `name`, if that user is known.
    pub fn user(&self, name: &String) -> (found: Option<&String>)
        ensures
            match found {
                Some(v) => user_home(self.users@, name@) == Some(v@),
                None => user_home(self.users@, name@) is None,
            },
    {
        let mut i: usize = 0;
        while i < self.users.len()
            invariant
                i <= self.users.len(),
                user_index(self.users@, name@, 0) == user_index(self.users@, name@, i as int),
            decreases self.users.len() - i,
        {
            if self.users[i].name == *name {
                return Some(&self.users[i].home);
            }
            i += 1;
        }
        None
    }
}

} // verus!
