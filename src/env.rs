//! Environment variables: the names derived from input and state names, and
//! the store they are read from and written to.

use vstd::prelude::*;
use crate::text::{push_char, push_text};

verus! {

/// Why a variable could not be read.
#[derive(Debug, Clone, Copy, PartialEq, Eq, Structural)]
pub enum VarError {
    /// The variable is not set.
    NotPresent,
    /// The variable is set, but its value is not valid text.
    NotUnicode,
}

/// The variables of an environment: a set variable maps to its text, or to
/// `None` where its value is not valid text.
pub type Vars = Map<Seq<char>, Option<Seq<char>>>;

/// Whether `r` is the outcome of reading `key` from `vars`.
pub open spec fn looked_up(vars: Vars, key: Seq<char>, r: Result<String, VarError>) -> bool {
    match r {
        Ok(v) => vars.contains_key(key) && vars[key] == Some(v@),
        Err(VarError::NotPresent) => !vars.contains_key(key),
        Err(VarError::NotUnicode) => vars.contains_key(key) && vars[key] is None,
    }
}

/// Whether a variable may be set to a value: the name is not empty and holds
/// no `=` and no NUL, and the value holds no NUL.
pub open spec fn settable(key: Seq<char>, value: Seq<char>) -> bool {
    key.len() > 0 && !key.contains('=') && !key.contains('\0') && !value.contains('\0')
}

/// A store of environment variables: the process environment in a program,
/// a table in a test.
pub trait Environment {
    /// The variables that are set.
    spec fn vars(&self) -> Vars;

    /// The character that separates the entries of a search path.
    spec fn delimiter(&self) -> char;

    /// Reads a variable.
    fn var(&self, key: &str) -> (r: Result<String, VarError>)
        ensures
            looked_up(self.vars(), key@, r),
            r is Ok ==> !r->Ok_0@.contains('\0'),
    ;

    /// Sets a variable, overwriting any earlier value.
    fn set_var(&mut self, key: &str, value: &str)
        requires
            settable(key@, value@),
        ensures
            final(self).vars() == old(self).vars().insert(key@, Some(value@)),
            final(self).delimiter() == old(self).delimiter(),
    ;

    /// The character that separates the entries of a search path.
    fn path_delimiter(&self) -> (r: char)
        ensures
            r == self.delimiter(),
            r == ':' || r == ';',
    ;
}

/// The variables that a list of assignments leaves, the later ones winning.
pub open spec fn assigned(entries: Seq<(String, String)>) -> Vars
    decreases entries.len(),
{
    if entries.len() == 0 {
        Map::empty()
    } else {
        assigned(entries.drop_last()).insert(entries.last().0@, Some(entries.last().1@))
    }
}

proof fn lemma_assigned_skips(entries: Seq<(String, String)>, i: int, key: Seq<char>)
    requires
        0 <= i <= entries.len(),
        forall|j: int| i <= j < entries.len() ==> entries[j].0@ != key,
    ensures
        assigned(entries).contains_key(key) == assigned(entries.take(i)).contains_key(key),
        assigned(entries)[key] == assigned(entries.take(i))[key],
    decreases entries.len(),
{
    if entries.len() == i {
        assert(entries.take(i) =~= entries);
    } else {
        assert(entries.drop_last().take(i) =~= entries.take(i));
        lemma_assigned_skips(entries.drop_last(), i, key);
    }
}

/// An environment held in memory, for running a step in isolation.
pub struct VarTable {
    entries: Vec<(String, String)>,
    sep: char,
}

impl VarTable {
    /// Values hold no NUL, and search paths are separated by `:` or `;`.
    #[verifier::type_invariant]
    spec fn well_formed(&self) -> bool {
        &&& self.sep == ':' || self.sep == ';'
        &&& forall|j: int| 0 <= j < self.entries@.len() ==> !(#[trigger] self.entries@[j]).1@.contains('\0')
    }

    /// An empty table whose search paths are separated by `delimiter`.
    pub fn new(delimiter: char) -> (r: VarTable)
        requires
            delimiter == ':' || delimiter == ';',
        ensures
            r.vars() == Map::<Seq<char>, Option<Seq<char>>>::empty(),
            r.delimiter() == delimiter,
    {
        VarTable { entries: Vec::new(), sep: delimiter }
    }
}

impl Environment for VarTable {
    closed spec fn vars(&self) -> Vars {
        assigned(self.entries@)
    }

    closed spec fn delimiter(&self) -> char {
        self.sep
    }

    fn var(&self, key: &str) -> (r: Result<String, VarError>) {
        let wanted = key.to_owned();
        let mut i: usize = self.entries.len();
        while i > 0
            invariant
                i <= self.entries@.len(),
                wanted@ == key@,
                forall|j: int| i <= j < self.entries@.len() ==> self.entries@[j].0@ != key@,
            decreases i,
        {
            i = i - 1;
            if self.entries[i].0 == wanted {
                proof {
                    lemma_assigned_skips(self.entries@, i + 1, key@);
                    assert(self.entries@.take(i + 1).drop_last() =~= self.entries@.take(i as int));
                    use_type_invariant(self);
                    assert(!self.entries@[i as int].1@.contains('\0'));
                }
                return Ok(self.entries[i].1.clone());
            }
        }
        proof {
            lemma_assigned_skips(self.entries@, 0, key@);
        }
        Err(VarError::NotPresent)
    }

    fn set_var(&mut self, key: &str, value: &str) {
        proof {
            use_type_invariant(&*self);
        }
        let mut taken = VarTable { entries: Vec::new(), sep: self.sep };
        core::mem::swap(self, &mut taken);
        let VarTable { mut entries, sep } = taken;
        entries.push((key.to_owned(), value.to_owned()));
        assert(entries@.drop_last() =~= old(self).entries@);
        *self = VarTable { entries, sep };
    }

    fn path_delimiter(&self) -> (r: char) {
        proof {
            use_type_invariant(self);
        }
        self.sep
    }
}

/// What a character of a name becomes in a variable name.
pub open spec fn key_char(c: char) -> char {
    if c == ' ' {
        '_'
    } else {
        c
    }
}

/// `s` with every space replaced by an underscore.
pub open spec fn underscored(s: Seq<char>) -> Seq<char> {
    s.map_values(|c: char| key_char(c))
}

/// The upper-case form of a text.
pub uninterp spec fn upper_of(s: Seq<char>) -> Seq<char>;

/// Relies on `str::to_uppercase`: the upper-case form of the text, which
/// depends on its characters alone.
#[verifier::external_body]
fn uppercase(s: &str) -> (r: String)
    ensures
        r@ == upper_of(s@),
{
    s.to_uppercase()
}

/// The name of the variable that holds `name` under `prefix`: the prefix,
/// an underscore, and the name with spaces turned into underscores, in
/// upper case.
pub open spec fn env_key(prefix: Seq<char>, name: Seq<char>) -> Seq<char> {
    prefix + seq!['_'] + upper_of(underscored(name))
}

/// Replaces every space of `name` with an underscore.
pub fn underscore_spaces(name: &str) -> (r: String)
    ensures
        r@ == underscored(name@),
{
    let mut out = String::new();
    for c in it: name.chars()
        invariant
            it.seq() == name@,
            out@ == underscored(name@.take(it.index() as int)),
    {
        let ghost i = it.index() as int;
        if c == ' ' {
            push_char(&mut out, '_');
        } else {
            push_char(&mut out, c);
        }
        assert(out@ =~= underscored(name@.take(i + 1)));
    }
    assert(name@.take(name@.len() as int) =~= name@);
    out
}

/// Joins a prefix and an already upper-cased name into a variable name.
pub fn join_key(prefix: &str, upper: &str) -> (r: String)
    ensures
        r@ == prefix@ + seq!['_'] + upper@,
{
    let mut key = String::new();
    push_text(&mut key, prefix);
    push_char(&mut key, '_');
    push_text(&mut key, upper);
    key
}

/// The name of the variable that holds `name` under `prefix`.
pub fn var_key(prefix: &str, name: &str) -> (r: String)
    ensures
        r@ == env_key(prefix@, name@),
{
    let spaced = underscore_spaces(name);
    let upper = uppercase(spaced.as_str());
    join_key(prefix, upper.as_str())
}

/// Reads the variable that holds `name` under `prefix`.
pub fn var_from_name<E: Environment>(env: &E, prefix: &str, name: &str) -> (r: Result<
    String,
    VarError,
>)
    ensures
        looked_up(env.vars(), env_key(prefix@, name@), r),
{
    let key = var_key(prefix, name);
    env.var(key.as_str())
}

/// Reads an input of the step, from the variable `INPUT_<NAME>`.
pub fn input<E: Environment>(env: &E, name: &str) -> (r: Result<String, VarError>)
    ensures
        looked_up(env.vars(), env_key("INPUT"@, name@), r),
{
    var_from_name(env, "INPUT", name)
}

/// Reads state saved by an earlier part of the step, from the variable
/// `STATE_<NAME>`.
pub fn state<E: Environment>(env: &E, name: &str) -> (r: Result<String, VarError>)
    ensures
        looked_up(env.vars(), env_key("STATE"@, name@), r),
{
    var_from_name(env, "STATE", name)
}

/// Whether step debugging is on: the variable `RUNNER_DEBUG` holds exactly
/// `1`.
pub fn is_debug<E: Environment>(env: &E) -> (r: bool)
    ensures
        r == (env.vars().contains_key("RUNNER_DEBUG"@) && env.vars()["RUNNER_DEBUG"@] == Some(
            "1"@,
        )),
{
    let one = "1".to_owned();
    match env.var("RUNNER_DEBUG") {
        Ok(v) => v == one,
        Err(_) => false,
    }
}

/// Turning spaces into underscores a second time changes nothing, so a name
/// that was already brought into that form derives the same variable name as
/// the name it came from: deriving is stable under repetition.
pub proof fn lemma_key_stable(prefix: Seq<char>, name: Seq<char>)
    ensures
        underscored(underscored(name)) == underscored(name),
        env_key(prefix, underscored(name)) == env_key(prefix, name),
{
    assert(underscored(underscored(name)) =~= underscored(name));
}

} // verus!
