//! The table of variables that a template is rendered against.
//!
//! The environments of a chain are ordered from the most specific to the most
//! general. A variable counts only where it is enabled and its value is not
//! empty; among those the most specific environment wins, and within one
//! environment the last entry of a name.
use vstd::prelude::*;
use vstd::hash_map::StringHashMap;
use crate::models::{
    environment_views, variable_views, Environment, EnvironmentVariable, EnvironmentVariableView,
    EnvironmentView,
};

verus! {

/// A table from names to texts: the variables of a render pass, or the
/// arguments of a call.
pub type TextMap = StringHashMap<String>;

/// A table of variables as a map from names to values.
pub open spec fn table_of(vars: Map<Seq<char>, String>) -> Map<Seq<char>, Seq<char>> {
    Map::new(|name: Seq<char>| vars.contains_key(name), |name: Seq<char>| vars[name]@)
}

/// The variable is enabled and has a value.
pub open spec fn is_active(variable: EnvironmentVariableView) -> bool {
    variable.enabled && variable.value.len() > 0
}

/// The table `table` after the first `n` of `variables` were written into it, in order.
pub open spec fn with_variables(
    table: Map<Seq<char>, Seq<char>>,
    variables: Seq<EnvironmentVariableView>,
    n: int,
) -> Map<Seq<char>, Seq<char>>
    decreases n,
{
    if n <= 0 {
        table
    } else {
        let before = with_variables(table, variables, n - 1);
        if is_active(variables[n - 1]) {
            before.insert(variables[n - 1].name, variables[n - 1].value)
        } else {
            before
        }
    }
}

/// The table made of the environments of `chain` from index `k` on: the most
/// general is written first, the one at `k` last.
pub open spec fn resolved_from(chain: Seq<EnvironmentView>, k: int) -> Map<Seq<char>, Seq<char>>
    decreases chain.len() - k,
{
    if k < 0 || k >= chain.len() {
        Map::empty()
    } else {
        with_variables(
            resolved_from(chain, k + 1),
            chain[k].variables,
            chain[k].variables.len() as int,
        )
    }
}

/// The table of variables that the chain of environments gives.
pub open spec fn resolved_variables(chain: Seq<EnvironmentView>) -> Map<Seq<char>, Seq<char>> {
    resolved_from(chain, 0)
}

/// Writes the variables of one environment into the table `m`. A variable that
/// is disabled or has an empty value is passed over.
pub fn add_variable_to_map(
    m: StringHashMap<String>,
    variables: &Vec<EnvironmentVariable>,
) -> (map: StringHashMap<String>)
    ensures
        table_of(map@) == with_variables(
            table_of(m@),
            variable_views(variables@),
            variables.len() as int,
        ),
{
    let mut map = m;
    let ghost views = variable_views(variables@);
    let mut i: usize = 0;
    while i < variables.len()
        invariant
            i <= variables.len(),
            views == variable_views(variables@),
            table_of(map@) == with_variables(table_of(m@), views, i as int),
        decreases variables.len() - i,
    {
        let variable = &variables[i];
        assert(views[i as int] == variable@);
        if variable.enabled && !variable.value.as_str().is_empty() {
            let ghost before = map@;
            map.insert(variable.name.clone(), variable.value.clone());
            assert(table_of(map@) =~= table_of(before).insert(variable.name@, variable.value@));
        }
        i += 1;
    }
    map
}

/// The table of variables for a chain of environments that goes from the most
/// specific to the most general.
pub fn make_vars_hashmap(environment_chain: Vec<Environment>) -> (variables: StringHashMap<String>)
    ensures
        table_of(variables@) == resolved_variables(environment_views(environment_chain@)),
{
    let ghost chain = environment_views(environment_chain@);
    let mut variables: StringHashMap<String> = StringHashMap::new();
    let mut k: usize = environment_chain.len();
    assert(table_of(variables@) =~= Map::empty());
    while k > 0
        invariant
            k <= environment_chain.len(),
            chain == environment_views(environment_chain@),
            table_of(variables@) == resolved_from(chain, k as int),
        decreases k,
    {
        k -= 1;
        assert(chain[k as int] == environment_chain@[k as int]@);
        variables = add_variable_to_map(variables, &environment_chain[k].variables);
    }
    variables
}

} // verus!
