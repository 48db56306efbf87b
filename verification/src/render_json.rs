//! Rendering of the templates inside a JSON value.
//!
//! Every string of the value is a template and is rendered; the members of an
//! object keep their keys and their order, the items of an array their order.
//! Numbers, booleans and `null` are left as they are. The first template that
//! fails ends the pass.
use vstd::prelude::*;
use vstd::hash_map::StringHashMap;
use crate::error::{Error, ErrorView};
use crate::json::{
    entry_views, json_views, lemma_array_view, lemma_object_view, JsonEntry, JsonEntryView,
    JsonValue, JsonView,
};
use crate::renderer::{
    ended, lemma_rendered_template_stable, parse_and_render_traced, rendered_template, Outcome,
    RenderOptions, Rendered, TemplateCallback,
};
use crate::variables::table_of;

verus! {

/// The value that an executable result stands for.
pub open spec fn json_result(r: Result<JsonValue, Error>) -> Result<JsonView, ErrorView> {
    match r {
        Ok(value) => Ok(value@),
        Err(e) => Err(e@),
    }
}

/// The members that an executable result stands for.
pub open spec fn entries_result(r: Result<Vec<JsonEntry>, Error>) -> Result<
    Seq<JsonEntryView>,
    ErrorView,
> {
    match r {
        Ok(entries) => Ok(entry_views(entries@)),
        Err(e) => Err(e@),
    }
}

/// The rendering of a JSON value.
pub open spec fn rendered_json(
    value: JsonView,
    vars: Map<Seq<char>, Seq<char>>,
    opt: RenderOptions,
    outcomes: Seq<Outcome>,
) -> Rendered<JsonView>
    decreases value, 0int,
{
    match value {
        JsonView::String(template) => match rendered_template(template, vars, opt, outcomes) {
            Rendered::Done { value: text, calls } => Rendered::Done {
                value: JsonView::String(text),
                calls,
            },
            Rendered::Failed { error, calls } => Rendered::Failed { error, calls },
            Rendered::Starved => Rendered::Starved,
        },
        JsonView::Array(items) => match rendered_items(
            items,
            items.len() as int,
            vars,
            opt,
            outcomes,
        ) {
            Rendered::Done { value: done, calls } => Rendered::Done {
                value: JsonView::Array(done),
                calls,
            },
            Rendered::Failed { error, calls } => Rendered::Failed { error, calls },
            Rendered::Starved => Rendered::Starved,
        },
        JsonView::Object(entries) => match rendered_entries(
            entries,
            entries.len() as int,
            vars,
            opt,
            outcomes,
        ) {
            Rendered::Done { value: done, calls } => Rendered::Done {
                value: JsonView::Object(done),
                calls,
            },
            Rendered::Failed { error, calls } => Rendered::Failed { error, calls },
            Rendered::Starved => Rendered::Starved,
        },
        other => Rendered::Done { value: other, calls: 0 },
    }
}

/// The rendering of the first `n` items of an array.
pub open spec fn rendered_items(
    items: Seq<JsonView>,
    n: int,
    vars: Map<Seq<char>, Seq<char>>,
    opt: RenderOptions,
    outcomes: Seq<Outcome>,
) -> Rendered<Seq<JsonView>>
    decreases items, n,
{
    if n <= 0 || n > items.len() {
        Rendered::Done { value: Seq::empty(), calls: 0 }
    } else {
        match rendered_items(items, n - 1, vars, opt, outcomes) {
            Rendered::Done { value: done, calls } => match rendered_json(
                items[n - 1],
                vars,
                opt,
                outcomes.skip(calls as int),
            ) {
                Rendered::Done { value: item, calls: more } => Rendered::Done {
                    value: done.push(item),
                    calls: calls + more,
                },
                Rendered::Failed { error, calls: more } => Rendered::Failed {
                    error,
                    calls: calls + more,
                },
                Rendered::Starved => Rendered::Starved,
            },
            other => other,
        }
    }
}

/// The rendering of the first `n` members of an object: each value is rendered,
/// each key is kept.
pub open spec fn rendered_entries(
    entries: Seq<JsonEntryView>,
    n: int,
    vars: Map<Seq<char>, Seq<char>>,
    opt: RenderOptions,
    outcomes: Seq<Outcome>,
) -> Rendered<Seq<JsonEntryView>>
    decreases entries, n,
{
    if n <= 0 || n > entries.len() {
        Rendered::Done { value: Seq::empty(), calls: 0 }
    } else {
        match rendered_entries(entries, n - 1, vars, opt, outcomes) {
            Rendered::Done { value: done, calls } => match rendered_json(
                entries[n - 1].value,
                vars,
                opt,
                outcomes.skip(calls as int),
            ) {
                Rendered::Done { value: item, calls: more } => Rendered::Done {
                    value: done.push(JsonEntryView { key: entries[n - 1].key, value: item }),
                    calls: calls + more,
                },
                Rendered::Failed { error, calls: more } => Rendered::Failed {
                    error,
                    calls: calls + more,
                },
                Rendered::Starved => Rendered::Starved,
            },
            other => other,
        }
    }
}

/// A rendering that did not run out of outcomes used no outcome behind the
/// calls it made; more outcomes behind them change nothing.
pub proof fn lemma_rendered_json_stable(
    value: JsonView,
    vars: Map<Seq<char>, Seq<char>>,
    opt: RenderOptions,
    outcomes: Seq<Outcome>,
    more: Seq<Outcome>,
)
    requires
        !(rendered_json(value, vars, opt, outcomes) is Starved),
    ensures
        rendered_json(value, vars, opt, outcomes + more) == rendered_json(
            value,
            vars,
            opt,
            outcomes,
        ),
        rendered_json(value, vars, opt, outcomes).calls_made() <= outcomes.len(),
    decreases value, 0int,
{
    match value {
        JsonView::String(template) => {
            lemma_rendered_template_stable(template, vars, opt, outcomes, more);
        },
        JsonView::Array(items) => {
            lemma_rendered_items_stable(items, items.len() as int, vars, opt, outcomes, more);
        },
        JsonView::Object(entries) => {
            lemma_rendered_entries_stable(
                entries,
                entries.len() as int,
                vars,
                opt,
                outcomes,
                more,
            );
        },
        _ => {},
    }
}

/// The same for the items of an array.
pub proof fn lemma_rendered_items_stable(
    items: Seq<JsonView>,
    n: int,
    vars: Map<Seq<char>, Seq<char>>,
    opt: RenderOptions,
    outcomes: Seq<Outcome>,
    more: Seq<Outcome>,
)
    requires
        !(rendered_items(items, n, vars, opt, outcomes) is Starved),
    ensures
        rendered_items(items, n, vars, opt, outcomes + more) == rendered_items(
            items,
            n,
            vars,
            opt,
            outcomes,
        ),
        rendered_items(items, n, vars, opt, outcomes).calls_made() <= outcomes.len(),
    decreases items, n,
{
    if 0 < n <= items.len() {
        lemma_rendered_items_stable(items, n - 1, vars, opt, outcomes, more);
        match rendered_items(items, n - 1, vars, opt, outcomes) {
            Rendered::Done { calls, .. } => {
                let rest = outcomes.skip(calls as int);
                assert((outcomes + more).skip(calls as int) =~= rest + more);
                lemma_rendered_json_stable(items[n - 1], vars, opt, rest, more);
            },
            _ => {},
        }
    }
}

/// The same for the members of an object.
pub proof fn lemma_rendered_entries_stable(
    entries: Seq<JsonEntryView>,
    n: int,
    vars: Map<Seq<char>, Seq<char>>,
    opt: RenderOptions,
    outcomes: Seq<Outcome>,
    more: Seq<Outcome>,
)
    requires
        !(rendered_entries(entries, n, vars, opt, outcomes) is Starved),
    ensures
        rendered_entries(entries, n, vars, opt, outcomes + more) == rendered_entries(
            entries,
            n,
            vars,
            opt,
            outcomes,
        ),
        rendered_entries(entries, n, vars, opt, outcomes).calls_made() <= outcomes.len(),
    decreases entries, n,
{
    if 0 < n <= entries.len() {
        lemma_rendered_entries_stable(entries, n - 1, vars, opt, outcomes, more);
        match rendered_entries(entries, n - 1, vars, opt, outcomes) {
            Rendered::Done { calls, .. } => {
                let rest = outcomes.skip(calls as int);
                assert((outcomes + more).skip(calls as int) =~= rest + more);
                lemma_rendered_json_stable(entries[n - 1].value, vars, opt, rest, more);
            },
            _ => {},
        }
    }
}

/// Once an item has failed, the items as a whole fail with the same error.
pub proof fn lemma_items_failed_stays(
    items: Seq<JsonView>,
    n: int,
    m: int,
    vars: Map<Seq<char>, Seq<char>>,
    opt: RenderOptions,
    outcomes: Seq<Outcome>,
)
    requires
        0 <= n <= m <= items.len(),
        !(rendered_items(items, n, vars, opt, outcomes) is Done),
    ensures
        rendered_items(items, m, vars, opt, outcomes) == rendered_items(
            items,
            n,
            vars,
            opt,
            outcomes,
        ),
    decreases m - n,
{
    if n < m {
        lemma_items_failed_stays(items, n, m - 1, vars, opt, outcomes);
    }
}

/// Once a member has failed, the members as a whole fail with the same error.
pub proof fn lemma_entries_failed_stays(
    entries: Seq<JsonEntryView>,
    n: int,
    m: int,
    vars: Map<Seq<char>, Seq<char>>,
    opt: RenderOptions,
    outcomes: Seq<Outcome>,
)
    requires
        0 <= n <= m <= entries.len(),
        !(rendered_entries(entries, n, vars, opt, outcomes) is Done),
    ensures
        rendered_entries(entries, m, vars, opt, outcomes) == rendered_entries(
            entries,
            n,
            vars,
            opt,
            outcomes,
        ),
    decreases m - n,
{
    if n < m {
        lemma_entries_failed_stays(entries, n, m - 1, vars, opt, outcomes);
    }
}

/// Renders a JSON value and records the outcomes of the calls made.
#[verifier::loop_isolation(false)]
pub(crate) fn render_json_traced<T: TemplateCallback>(
    value: &JsonValue,
    vars: &StringHashMap<String>,
    cb: &T,
    opt: &RenderOptions,
) -> (r: (Result<JsonValue, Error>, Ghost<Seq<Outcome>>))
    ensures
        rendered_json(value@, table_of(vars@), *opt, r.1@) == ended(json_result(r.0), r.1@.len()),
    decreases value,
{
    let ghost table = table_of(vars@);
    match value {
        JsonValue::Null => (Ok(JsonValue::Null), Ghost(Seq::empty())),
        JsonValue::Bool(b) => (Ok(JsonValue::Bool(*b)), Ghost(Seq::empty())),
        JsonValue::Number(text) => (Ok(JsonValue::Number(text.clone())), Ghost(Seq::empty())),
        JsonValue::String(template) => {
            let (r, Ghost(trace)) = parse_and_render_traced(template.as_str(), vars, cb, opt);
            match r {
                Ok(text) => (Ok(JsonValue::String(text)), Ghost(trace)),
                Err(e) => (Err(e), Ghost(trace)),
            }
        },
        JsonValue::Array(items) => {
            let ghost views = json_views(items@);
            proof {
                lemma_array_view(*items);
            }
            let ghost mut trace: Seq<Outcome> = Seq::empty();
            let mut done: Vec<JsonValue> = Vec::new();
            let mut i: usize = 0;
            assert(json_views(done@) =~= Seq::empty());
            while i < items.len()
                invariant
                    i <= items.len(),
                    rendered_items(views, i as int, table, *opt, trace) == (Rendered::Done {
                        value: json_views(done@),
                        calls: trace.len(),
                    }),
                decreases items.len() - i,
            {
                proof {
                    broadcast use vstd::std_specs::vec::axiom_vec_index_decreases;

                    assert(decreases_to!(items => items[i as int]));
                    assert(views[i as int] == items@[i as int]@);
                }
                let (r, Ghost(step)) = render_json_traced(&items[i], vars, cb, opt);
                let ghost before = trace;
                proof {
                    lemma_rendered_items_stable(views, i as int, table, *opt, before, step);
                    trace = before + step;
                    assert(trace.skip(before.len() as int) =~= step);
                }
                match r {
                    Err(e) => {
                        proof {
                            lemma_items_failed_stays(
                                views,
                                i + 1,
                                views.len() as int,
                                table,
                                *opt,
                                trace,
                            );
                        }
                        return (Err(e), Ghost(trace));
                    },
                    Ok(item) => {
                        proof {
                            assert(json_views(done@.push(item)) =~= json_views(done@).push(item@));
                        }
                        done.push(item);
                    },
                }
                i += 1;
            }
            proof {
                lemma_array_view(done);
            }
            (Ok(JsonValue::Array(done)), Ghost(trace))
        },
        JsonValue::Object(entries) => {
            let ghost views = entry_views(entries@);
            proof {
                lemma_object_view(*entries);
            }
            let ghost mut trace: Seq<Outcome> = Seq::empty();
            let mut done: Vec<JsonEntry> = Vec::new();
            let mut i: usize = 0;
            assert(entry_views(done@) =~= Seq::empty());
            while i < entries.len()
                invariant
                    i <= entries.len(),
                    rendered_entries(views, i as int, table, *opt, trace) == (Rendered::Done {
                        value: entry_views(done@),
                        calls: trace.len(),
                    }),
                decreases entries.len() - i,
            {
                proof {
                    broadcast use vstd::std_specs::vec::axiom_vec_index_decreases;

                    assert(decreases_to!(entries => entries[i as int]));
                    assert(views[i as int] == entries@[i as int]@);
                }
                let entry = &entries[i];
                let (r, Ghost(step)) = render_json_traced(&entry.value, vars, cb, opt);
                let ghost before = trace;
                proof {
                    lemma_rendered_entries_stable(views, i as int, table, *opt, before, step);
                    trace = before + step;
                    assert(trace.skip(before.len() as int) =~= step);
                }
                match r {
                    Err(e) => {
                        proof {
                            lemma_entries_failed_stays(
                                views,
                                i + 1,
                                views.len() as int,
                                table,
                                *opt,
                                trace,
                            );
                        }
                        return (Err(e), Ghost(trace));
                    },
                    Ok(item) => {
                        let rendered_entry = JsonEntry { key: entry.key.clone(), value: item };
                        proof {
                            assert(entry_views(done@.push(rendered_entry)) =~= entry_views(
                                done@,
                            ).push(rendered_entry@));
                        }
                        done.push(rendered_entry);
                    },
                }
                i += 1;
            }
            proof {
                lemma_object_view(done);
            }
            (Ok(JsonValue::Object(done)), Ghost(trace))
        },
    }
}

/// Renders the values of the members `entries` and records the outcomes of the calls made.
pub(crate) fn render_entries_traced<T: TemplateCallback>(
    entries: &Vec<JsonEntry>,
    vars: &StringHashMap<String>,
    cb: &T,
    opt: &RenderOptions,
) -> (r: (Result<Vec<JsonEntry>, Error>, Ghost<Seq<Outcome>>))
    ensures
        rendered_entries(
            entry_views(entries@),
            entries.len() as int,
            table_of(vars@),
            *opt,
            r.1@,
        ) == ended(entries_result(r.0), r.1@.len()),
{
    let ghost table = table_of(vars@);
    let ghost views = entry_views(entries@);
    let ghost mut trace: Seq<Outcome> = Seq::empty();
    let mut done: Vec<JsonEntry> = Vec::new();
    let mut i: usize = 0;
    assert(entry_views(done@) =~= Seq::empty());
    while i < entries.len()
        invariant
            i <= entries.len(),
            table == table_of(vars@),
            views == entry_views(entries@),
            rendered_entries(views, i as int, table, *opt, trace) == (Rendered::Done {
                value: entry_views(done@),
                calls: trace.len(),
            }),
        decreases entries.len() - i,
    {
        let entry = &entries[i];
        assert(views[i as int] == entry@);
        let (r, Ghost(step)) = render_json_traced(&entry.value, vars, cb, opt);
        let ghost before = trace;
        proof {
            lemma_rendered_entries_stable(views, i as int, table, *opt, before, step);
            trace = before + step;
            assert(trace.skip(before.len() as int) =~= step);
        }
        match r {
            Err(e) => {
                proof {
                    lemma_entries_failed_stays(
                        views,
                        i + 1,
                        views.len() as int,
                        table,
                        *opt,
                        trace,
                    );
                }
                return (Err(e), Ghost(trace));
            },
            Ok(item) => {
                let rendered_entry = JsonEntry { key: entry.key.clone(), value: item };
                proof {
                    assert(entry_views(done@.push(rendered_entry)) =~= entry_views(done@).push(
                        rendered_entry@,
                    ));
                }
                done.push(rendered_entry);
            },
        }
        i += 1;
    }
    (Ok(done), Ghost(trace))
}

/// Renders every string of the JSON value as a template against the table
/// `vars`, and leaves the rest of the value as it is. The result is what the
/// value gives for the outcomes of the calls made.
pub fn render_json_value_raw<T: TemplateCallback>(
    value: JsonValue,
    vars: &StringHashMap<String>,
    cb: &T,
    opt: &RenderOptions,
) -> (r: Result<JsonValue, Error>)
    ensures
        exists|outcomes: Seq<Outcome>|
            rendered_json(value@, table_of(vars@), *opt, outcomes) == ended(
                json_result(r),
                outcomes.len(),
            ),
{
    let (r, Ghost(trace)) = render_json_traced(&value, vars, cb, opt);
    r
}

} // verus!
