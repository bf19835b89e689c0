//! Reading configuration out of a snapshot of the process environment.
use vstd::prelude::*;
use crate::text::{owned, parse_u16, u16_from_text};

verus! {

/// The value of the first entry of `vars` named `name`, which is what
/// `std::env::var` reports for a snapshot of the environment that holds the
/// variables with a Unicode value.
pub open spec fn env_value(vars: Seq<(String, String)>, name: Seq<char>) -> Option<Seq<char>>
    decreases vars.len(),
{
    if vars.len() == 0 {
        None
    } else if vars[0].0@ == name {
        Some(vars[0].1@)
    } else {
        env_value(vars.drop_first(), name)
    }
}

/// The port that a setting takes from an optional variable: its value read
/// as a `u16`, or 3000 where the variable is missing or not a valid port.
pub open spec fn port_or_default(value: Option<Seq<char>>) -> u16 {
    match value {
        Some(text) => match u16_from_text(text) {
            Some(port) => port,
            None => 3000,
        },
        None => 3000,
    }
}

proof fn lemma_env_value_skip(vars: Seq<(String, String)>, name: Seq<char>, i: int)
    requires
        0 <= i <= vars.len(),
        forall|j: int| 0 <= j < i ==> vars[j].0@ != name,
    ensures
        env_value(vars, name) == env_value(vars.subrange(i, vars.len() as int), name),
    decreases i,
{
    if i == 0 {
        assert(vars.subrange(0, vars.len() as int) =~= vars);
    } else {
        lemma_env_value_skip(vars.drop_first(), name, i - 1);
        assert(vars.drop_first().subrange(i - 1, vars.len() - 1) =~= vars.subrange(i, vars.len() as int));
    }
}

/// Looks up a variable in a snapshot of the environment.
pub fn lookup(vars: &Vec<(String, String)>, name: &str) -> (r: Option<String>)
    ensures
        match r {
            Some(v) => env_value(vars@, name@) == Some(v@),
            None => env_value(vars@, name@) is None,
        },
{
    let wanted = owned(name);
    let mut i: usize = 0;
    while i < vars.len()
        invariant
            i <= vars.len(),
            wanted@ == name@,
            forall|j: int| 0 <= j < i ==> vars@[j].0@ != name@,
        decreases vars.len() - i,
    {
        if vars[i].0 == wanted {
            proof {
                lemma_env_value_skip(vars@, name@, i as int);
            }
            return Some(vars[i].1.clone());
        }
        i = i + 1;
    }
    proof {
        lemma_env_value_skip(vars@, name@, i as int);
    }
    None
}

/// Reads a port setting: the variable's value as a `u16`, else 3000.
pub fn port_setting(vars: &Vec<(String, String)>, name: &str) -> (port: u16)
    ensures
        port == port_or_default(env_value(vars@, name@)),
{
    match lookup(vars, name) {
        Some(text) => match parse_u16(text.as_str()) {
            Some(port) => port,
            None => 3000,
        },
        None => 3000,
    }
}

} // verus!
