//! A snapshot of the process environment.
use crate::text;
use crate::text::{str_eq, strip_prefix};
use vstd::prelude::*;

verus! {

/// The environment variables that the process was started with.
pub struct EnvVars {
    pub vars: Vec<(String, String)>,
}

/// The value of the first variable with a name.
pub open spec fn var_in(vars: Seq<(String, String)>, name: Seq<char>) -> Option<Seq<char>>
    decreases vars.len(),
{
    if vars.len() == 0 {
        None
    } else if vars[0].0@ == name {
        Some(vars[0].1@)
    } else {
        var_in(vars.drop_first(), name)
    }
}

impl EnvVars {
    /// The value of a variable.
    pub open spec fn value(&self, name: Seq<char>) -> Option<Seq<char>> {
        var_in(self.vars@, name)
    }

    /// Looks up a variable.
    pub fn var(&self, name: &str) -> (r: Option<String>)
        ensures
            text::opt_text(r) == self.value(name@),
    {
        let mut i: usize = 0;
        proof {
            assert(self.vars@.skip(0) =~= self.vars@);
        }
        while i < self.vars.len()
            invariant
                i <= self.vars@.len(),
                var_in(self.vars@, name@) == var_in(self.vars@.skip(i as int), name@),
            decreases self.vars@.len() - i,
        {
            proof {
                assert(self.vars@.skip(i as int)[0] == self.vars@[i as int]);
                assert(self.vars@.skip(i as int).drop_first() =~= self.vars@.skip(i + 1));
            }
            if str_eq(self.vars[i].0.as_str(), name) {
                return Some(self.vars[i].1.clone());
            }
            i = i + 1;
        }
        None
    }

    /// Tells whether a variable is set.
    pub fn is_set(&self, name: &str) -> (r: bool)
        ensures
            r == (self.value(name@) is Some),
    {
        self.var(name).is_some()
    }

    /// What a configured value stands for: the variable that an `env:` reference
    /// names, else the value itself.
    pub open spec fn resolved(&self, value: Seq<char>) -> Option<Seq<char>> {
        match text::after_prefix(value, "env:"@) {
            Some(name) => self.value(name),
            None => Some(value),
        }
    }

    /// What a configured value stands for, with a variable to fall back on.
    pub open spec fn resolved_or(&self, value: Option<String>, fallback: Seq<char>) -> Option<
        Seq<char>,
    > {
        let own = match value {
            Some(v) => self.resolved(v@),
            None => None,
        };
        match own {
            Some(v) => Some(v),
            None => self.value(fallback),
        }
    }

    /// Resolve a value that might be an "env:VAR_NAME" reference.
    pub fn resolve_env_value(&self, value: &str) -> (r: Option<String>)
        ensures
            text::opt_text(r) == self.resolved(value@),
    {
        match strip_prefix(value, "env:") {
            Some(name) => self.var(name.as_str()),
            None => Some(value.to_owned()),
        }
    }

    /// Resolves an optional value, falling back on a variable.
    pub fn resolve_or(&self, value: &Option<String>, fallback: &str) -> (r: Option<String>)
        ensures
            text::opt_text(r) == self.resolved_or(*value, fallback@),
    {
        let own = match value {
            Some(v) => self.resolve_env_value(v.as_str()),
            None => None,
        };
        match own {
            Some(v) => Some(v),
            None => self.var(fallback),
        }
    }
}

/// The first variable with a name counts: a variable in front of others hides those with
/// its name and no other, and a name that no variable has stands for nothing.
pub proof fn law_first_variable_counts(
    first: (String, String),
    vars: Seq<(String, String)>,
    name: Seq<char>,
)
    ensures
        first.0@ == name ==> var_in(seq![first] + vars, name) == Some(first.1@),
        first.0@ != name ==> var_in(seq![first] + vars, name) == var_in(vars, name),
        var_in(Seq::empty(), name) is None,
{
    assert((seq![first] + vars).drop_first() == vars);
}

/// A value that refers to a variable stands for the value of that variable, and any other
/// value for itself. A variable is fallen back on where there is no value, or none that
/// stands for anything.
pub proof fn law_references_are_followed(
    env: EnvVars,
    name: Seq<char>,
    value: String,
    fallback: Seq<char>,
)
    ensures
        env.resolved("env:"@ + name) == env.value(name),
        !"env:"@.is_prefix_of(value@) ==> env.resolved(value@) == Some(value@)
            && env.resolved_or(Some(value), fallback) == Some(value@),
        value@ == "env:"@ + name && env.value(name) is Some ==> env.resolved_or(
            Some(value),
            fallback,
        ) == env.value(name),
        value@ == "env:"@ + name && env.value(name) is None ==> env.resolved_or(
            Some(value),
            fallback,
        ) == env.value(fallback),
        env.resolved_or(None, fallback) == env.value(fallback),
{
    let s = "env:"@ + name;
    assert("env:"@.is_prefix_of(s));
    assert(s.skip("env:"@.len() as int) == name);
}

} // verus!
