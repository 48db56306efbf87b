//! Which value a name has in the table that a chain of environments gives.
use vstd::prelude::*;
use crate::models::{EnvironmentVariableView, EnvironmentView};
use crate::variables::{is_active, resolved_from, resolved_variables, with_variables};

verus! {

/// Among the first `n` of `variables`, the one at `j` is active and has the name `name`.
pub open spec fn defines_at(
    variables: Seq<EnvironmentVariableView>,
    n: int,
    name: Seq<char>,
    j: int,
) -> bool {
    0 <= j < n && j < variables.len() && is_active(variables[j]) && variables[j].name == name
}

/// Some active variable among the first `n` of `variables` has the name `name`.
pub open spec fn defines(variables: Seq<EnvironmentVariableView>, n: int, name: Seq<char>) -> bool {
    exists|j: int| defines_at(variables, n, name, j)
}

/// The environment has an active variable of the name `name`.
pub open spec fn environment_defines(environment: EnvironmentView, name: Seq<char>) -> bool {
    defines(environment.variables, environment.variables.len() as int, name)
}

/// Variables that do not define a name leave what the table holds for it.
pub proof fn lemma_untouched(
    table: Map<Seq<char>, Seq<char>>,
    variables: Seq<EnvironmentVariableView>,
    n: int,
    name: Seq<char>,
)
    requires
        0 <= n <= variables.len(),
        !defines(variables, n, name),
    ensures
        with_variables(table, variables, n).contains_key(name) == table.contains_key(name),
        table.contains_key(name) ==> with_variables(table, variables, n)[name] == table[name],
    decreases n,
{
    if n > 0 {
        let m = n - 1;
        assert(!defines(variables, m, name)) by {
            if defines(variables, m, name) {
                let j = choose|j: int| defines_at(variables, m, name, j);
                assert(defines_at(variables, n, name, j));
            }
        }
        lemma_untouched(table, variables, m, name);
        assert(!defines_at(variables, n, name, n - 1));
    }
}

/// The last active variable of a name gives the name its value, whatever the
/// table held before.
pub proof fn lemma_last_wins(
    table: Map<Seq<char>, Seq<char>>,
    variables: Seq<EnvironmentVariableView>,
    n: int,
    name: Seq<char>,
    j: int,
)
    requires
        0 <= n <= variables.len(),
        defines_at(variables, n, name, j),
        forall|k: int| j < k < n ==> !defines_at(variables, n, name, k),
    ensures
        with_variables(table, variables, n).contains_key(name),
        with_variables(table, variables, n)[name] == variables[j].value,
    decreases n,
{
    if j < n - 1 {
        let m = n - 1;
        assert(!defines_at(variables, n, name, m));
        assert(defines_at(variables, m, name, j));
        assert forall|k: int| j < k < m implies !defines_at(variables, m, name, k) by {
            assert(!defines_at(variables, n, name, k));
        }
        lemma_last_wins(table, variables, m, name, j);
    }
}

/// A name that no environment of the chain defines by an enabled variable with a
/// value is not in the table.
pub proof fn lemma_undefined_is_absent(chain: Seq<EnvironmentView>, name: Seq<char>, k: int)
    requires
        0 <= k <= chain.len(),
        forall|i: int| k <= i < chain.len() ==> !environment_defines(#[trigger] chain[i], name),
    ensures
        !resolved_from(chain, k).contains_key(name),
    decreases chain.len() - k,
{
    if k < chain.len() {
        lemma_undefined_is_absent(chain, name, k + 1);
        assert(!environment_defines(chain[k], name));
        lemma_untouched(
            resolved_from(chain, k + 1),
            chain[k].variables,
            chain[k].variables.len() as int,
            name,
        );
    }
}

/// A variable that is disabled or has no value gives its name nothing: where no
/// environment of the chain has an enabled variable of that name with a value,
/// the table does not hold the name.
pub proof fn lemma_inactive_variables_are_left_out(chain: Seq<EnvironmentView>, name: Seq<char>)
    requires
        forall|i: int| 0 <= i < chain.len() ==> !environment_defines(#[trigger] chain[i], name),
    ensures
        !resolved_variables(chain).contains_key(name),
{
    lemma_undefined_is_absent(chain, name, 0);
}

/// The same for the environments from `k` on.
proof fn lemma_specific_wins_from(
    chain: Seq<EnvironmentView>,
    name: Seq<char>,
    i: int,
    j: int,
    k: int,
)
    requires
        0 <= k <= i < chain.len(),
        defines_at(chain[i].variables, chain[i].variables.len() as int, name, j),
        forall|m: int|
            j < m < chain[i].variables.len() ==> !defines_at(
                chain[i].variables,
                chain[i].variables.len() as int,
                name,
                m,
            ),
        forall|e: int| k <= e < i ==> !environment_defines(#[trigger] chain[e], name),
    ensures
        resolved_from(chain, k).contains_key(name),
        resolved_from(chain, k)[name] == chain[i].variables[j].value,
    decreases i - k,
{
    if k == i {
        lemma_last_wins(
            resolved_from(chain, i + 1),
            chain[i].variables,
            chain[i].variables.len() as int,
            name,
            j,
        );
    } else {
        lemma_specific_wins_from(chain, name, i, j, k + 1);
        assert(!environment_defines(chain[k], name));
        lemma_untouched(
            resolved_from(chain, k + 1),
            chain[k].variables,
            chain[k].variables.len() as int,
            name,
        );
    }
}

/// The more specific environment overrides the more general: a name has the
/// value that the first environment defining it gives it, by its last enabled
/// variable of that name with a value.
pub proof fn lemma_most_specific_wins(chain: Seq<EnvironmentView>, name: Seq<char>, i: int, j: int)
    requires
        0 <= i < chain.len(),
        defines_at(chain[i].variables, chain[i].variables.len() as int, name, j),
        forall|m: int|
            j < m < chain[i].variables.len() ==> !defines_at(
                chain[i].variables,
                chain[i].variables.len() as int,
                name,
                m,
            ),
        forall|e: int| 0 <= e < i ==> !environment_defines(#[trigger] chain[e], name),
    ensures
        resolved_variables(chain).contains_key(name),
        resolved_variables(chain)[name] == chain[i].variables[j].value,
{
    lemma_specific_wins_from(chain, name, i, j, 0);
}

} // verus!
