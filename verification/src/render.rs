//! Rendering of whole requests.
//!
//! The table of variables is made once from the chain of environments. Then
//! each field that may hold a template is rendered, in a fixed order, and the
//! request is put together again with the rendered fields in place of the
//! templates. The first field that fails ends the pass: nothing of what was
//! rendered before it is returned.
use vstd::prelude::*;
use vstd::hash_map::StringHashMap;
use crate::error::{Error, ErrorView};
use crate::json::{JsonEntryView, JsonValue};
use crate::models::{
    clone_optional, environment_views, header_views, parameter_views, Environment, GrpcRequest,
    GrpcRequestView, HttpRequest, HttpRequestHeader, HttpRequestView, HttpUrlParameter, PairView,
    WebsocketRequest, WebsocketRequestView,
};
use crate::render_json::{
    json_result, lemma_rendered_entries_stable, render_entries_traced, render_json_traced,
    rendered_entries, rendered_json,
};
use crate::renderer::{
    ended, lemma_rendered_template_stable, mapped, parse_and_render_traced, rendered_template,
    text_result, Outcome, RenderOptions, Rendered, TemplateCallback,
};
use crate::variables::{make_vars_hashmap, resolved_variables, table_of};

verus! {

/// The rendering of a header or parameter: its name first, then its value.
pub open spec fn rendered_pair(
    pair: PairView,
    vars: Map<Seq<char>, Seq<char>>,
    opt: RenderOptions,
    outcomes: Seq<Outcome>,
) -> Rendered<PairView> {
    match rendered_template(pair.name, vars, opt, outcomes) {
        Rendered::Done { value: name, calls } => mapped(
            rendered_template(pair.value, vars, opt, outcomes.skip(calls as int)),
            |value: Seq<char>| PairView { enabled: pair.enabled, name, value, id: pair.id },
        ).after(calls),
        Rendered::Failed { error, calls } => Rendered::Failed { error, calls },
        Rendered::Starved => Rendered::Starved,
    }
}

/// The rendering of the first `n` headers or parameters.
pub open spec fn rendered_pairs(
    pairs: Seq<PairView>,
    n: int,
    vars: Map<Seq<char>, Seq<char>>,
    opt: RenderOptions,
    outcomes: Seq<Outcome>,
) -> Rendered<Seq<PairView>>
    decreases n,
{
    if n <= 0 {
        Rendered::Done { value: Seq::empty(), calls: 0 }
    } else {
        match rendered_pairs(pairs, n - 1, vars, opt, outcomes) {
            Rendered::Done { value: done, calls } => mapped(
                rendered_pair(pairs[n - 1], vars, opt, outcomes.skip(calls as int)),
                |pair: PairView| done.push(pair),
            ).after(calls),
            other => other,
        }
    }
}

/// All the headers or parameters rendered.
pub open spec fn all_pairs(
    pairs: Seq<PairView>,
    vars: Map<Seq<char>, Seq<char>>,
    opt: RenderOptions,
    outcomes: Seq<Outcome>,
) -> Rendered<Seq<PairView>> {
    rendered_pairs(pairs, pairs.len() as int, vars, opt, outcomes)
}

/// All the members rendered.
pub open spec fn all_entries(
    entries: Seq<JsonEntryView>,
    vars: Map<Seq<char>, Seq<char>>,
    opt: RenderOptions,
    outcomes: Seq<Outcome>,
) -> Rendered<Seq<JsonEntryView>> {
    rendered_entries(entries, entries.len() as int, vars, opt, outcomes)
}

/// The rendering of one field of an HTTP request. The fields are taken in this
/// order: the URL parameters, the headers, the body, the authentication, the URL.
pub open spec fn http_step(
    partial: HttpRequestView,
    k: int,
    vars: Map<Seq<char>, Seq<char>>,
    opt: RenderOptions,
    outcomes: Seq<Outcome>,
) -> Rendered<HttpRequestView> {
    if k == 0 {
        mapped(
            all_pairs(partial.url_parameters, vars, opt, outcomes),
            |v: Seq<PairView>| HttpRequestView { url_parameters: v, ..partial },
        )
    } else if k == 1 {
        mapped(
            all_pairs(partial.headers, vars, opt, outcomes),
            |v: Seq<PairView>| HttpRequestView { headers: v, ..partial },
        )
    } else if k == 2 {
        mapped(
            all_entries(partial.body, vars, opt, outcomes),
            |v: Seq<JsonEntryView>| HttpRequestView { body: v, ..partial },
        )
    } else if k == 3 {
        mapped(
            all_entries(partial.authentication, vars, opt, outcomes),
            |v: Seq<JsonEntryView>| HttpRequestView { authentication: v, ..partial },
        )
    } else {
        mapped(
            rendered_template(partial.url, vars, opt, outcomes),
            |v: Seq<char>| HttpRequestView { url: v, ..partial },
        )
    }
}

/// The HTTP request after its first `k` fields were rendered.
pub open spec fn rendered_http_steps(
    req: HttpRequestView,
    k: int,
    vars: Map<Seq<char>, Seq<char>>,
    opt: RenderOptions,
    outcomes: Seq<Outcome>,
) -> Rendered<HttpRequestView>
    decreases k,
{
    if k <= 0 {
        Rendered::Done { value: req, calls: 0 }
    } else {
        match rendered_http_steps(req, k - 1, vars, opt, outcomes) {
            Rendered::Done { value: partial, calls } => http_step(
                partial,
                k - 1,
                vars,
                opt,
                outcomes.skip(calls as int),
            ).after(calls),
            other => other,
        }
    }
}

/// The HTTP request with all its templates rendered.
pub open spec fn rendered_http_request(
    req: HttpRequestView,
    vars: Map<Seq<char>, Seq<char>>,
    opt: RenderOptions,
    outcomes: Seq<Outcome>,
) -> Rendered<HttpRequestView> {
    rendered_http_steps(req, 5, vars, opt, outcomes)
}

/// The rendering of one field of a gRPC request. The fields are taken in this
/// order: the metadata, the authentication, the URL.
pub open spec fn grpc_step(
    partial: GrpcRequestView,
    k: int,
    vars: Map<Seq<char>, Seq<char>>,
    opt: RenderOptions,
    outcomes: Seq<Outcome>,
) -> Rendered<GrpcRequestView> {
    if k == 0 {
        mapped(
            all_pairs(partial.metadata, vars, opt, outcomes),
            |v: Seq<PairView>| GrpcRequestView { metadata: v, ..partial },
        )
    } else if k == 1 {
        mapped(
            all_entries(partial.authentication, vars, opt, outcomes),
            |v: Seq<JsonEntryView>| GrpcRequestView { authentication: v, ..partial },
        )
    } else {
        mapped(
            rendered_template(partial.url, vars, opt, outcomes),
            |v: Seq<char>| GrpcRequestView { url: v, ..partial },
        )
    }
}

/// The gRPC request after its first `k` fields were rendered.
pub open spec fn rendered_grpc_steps(
    req: GrpcRequestView,
    k: int,
    vars: Map<Seq<char>, Seq<char>>,
    opt: RenderOptions,
    outcomes: Seq<Outcome>,
) -> Rendered<GrpcRequestView>
    decreases k,
{
    if k <= 0 {
        Rendered::Done { value: req, calls: 0 }
    } else {
        match rendered_grpc_steps(req, k - 1, vars, opt, outcomes) {
            Rendered::Done { value: partial, calls } => grpc_step(
                partial,
                k - 1,
                vars,
                opt,
                outcomes.skip(calls as int),
            ).after(calls),
            other => other,
        }
    }
}

/// The gRPC request with all its templates rendered.
pub open spec fn rendered_grpc_request(
    req: GrpcRequestView,
    vars: Map<Seq<char>, Seq<char>>,
    opt: RenderOptions,
    outcomes: Seq<Outcome>,
) -> Rendered<GrpcRequestView> {
    rendered_grpc_steps(req, 3, vars, opt, outcomes)
}

/// The rendering of one field of a WebSocket request. The fields are taken in
/// this order: the headers, the authentication, the URL, the message.
pub open spec fn websocket_step(
    partial: WebsocketRequestView,
    k: int,
    vars: Map<Seq<char>, Seq<char>>,
    opt: RenderOptions,
    outcomes: Seq<Outcome>,
) -> Rendered<WebsocketRequestView> {
    if k == 0 {
        mapped(
            all_pairs(partial.headers, vars, opt, outcomes),
            |v: Seq<PairView>| WebsocketRequestView { headers: v, ..partial },
        )
    } else if k == 1 {
        mapped(
            all_entries(partial.authentication, vars, opt, outcomes),
            |v: Seq<JsonEntryView>| WebsocketRequestView { authentication: v, ..partial },
        )
    } else if k == 2 {
        mapped(
            rendered_template(partial.url, vars, opt, outcomes),
            |v: Seq<char>| WebsocketRequestView { url: v, ..partial },
        )
    } else {
        mapped(
            rendered_template(partial.message, vars, opt, outcomes),
            |v: Seq<char>| WebsocketRequestView { message: v, ..partial },
        )
    }
}

/// The WebSocket request after its first `k` fields were rendered.
pub open spec fn rendered_websocket_steps(
    req: WebsocketRequestView,
    k: int,
    vars: Map<Seq<char>, Seq<char>>,
    opt: RenderOptions,
    outcomes: Seq<Outcome>,
) -> Rendered<WebsocketRequestView>
    decreases k,
{
    if k <= 0 {
        Rendered::Done { value: req, calls: 0 }
    } else {
        match rendered_websocket_steps(req, k - 1, vars, opt, outcomes) {
            Rendered::Done { value: partial, calls } => websocket_step(
                partial,
                k - 1,
                vars,
                opt,
                outcomes.skip(calls as int),
            ).after(calls),
            other => other,
        }
    }
}

/// The WebSocket request with all its templates rendered.
pub open spec fn rendered_websocket_request(
    req: WebsocketRequestView,
    vars: Map<Seq<char>, Seq<char>>,
    opt: RenderOptions,
    outcomes: Seq<Outcome>,
) -> Rendered<WebsocketRequestView> {
    rendered_websocket_steps(req, 4, vars, opt, outcomes)
}

/// A rendering that did not run out of outcomes used no outcome behind the
/// calls it made; more outcomes behind them change nothing.
pub proof fn lemma_rendered_pair_stable(
    pair: PairView,
    vars: Map<Seq<char>, Seq<char>>,
    opt: RenderOptions,
    outcomes: Seq<Outcome>,
    more: Seq<Outcome>,
)
    requires
        !(rendered_pair(pair, vars, opt, outcomes) is Starved),
    ensures
        rendered_pair(pair, vars, opt, outcomes + more) == rendered_pair(pair, vars, opt, outcomes),
        rendered_pair(pair, vars, opt, outcomes).calls_made() <= outcomes.len(),
{
    lemma_rendered_template_stable(pair.name, vars, opt, outcomes, more);
    match rendered_template(pair.name, vars, opt, outcomes) {
        Rendered::Done { calls, .. } => {
            let rest = outcomes.skip(calls as int);
            assert((outcomes + more).skip(calls as int) =~= rest + more);
            lemma_rendered_template_stable(pair.value, vars, opt, rest, more);
        },
        _ => {},
    }
}

/// The same for a list of headers or parameters.
pub proof fn lemma_rendered_pairs_stable(
    pairs: Seq<PairView>,
    n: int,
    vars: Map<Seq<char>, Seq<char>>,
    opt: RenderOptions,
    outcomes: Seq<Outcome>,
    more: Seq<Outcome>,
)
    requires
        !(rendered_pairs(pairs, n, vars, opt, outcomes) is Starved),
    ensures
        rendered_pairs(pairs, n, vars, opt, outcomes + more) == rendered_pairs(
            pairs,
            n,
            vars,
            opt,
            outcomes,
        ),
        rendered_pairs(pairs, n, vars, opt, outcomes).calls_made() <= outcomes.len(),
    decreases n,
{
    if n > 0 {
        lemma_rendered_pairs_stable(pairs, n - 1, vars, opt, outcomes, more);
        match rendered_pairs(pairs, n - 1, vars, opt, outcomes) {
            Rendered::Done { calls, .. } => {
                let rest = outcomes.skip(calls as int);
                assert((outcomes + more).skip(calls as int) =~= rest + more);
                lemma_rendered_pair_stable(pairs[n - 1], vars, opt, rest, more);
            },
            _ => {},
        }
    }
}

/// Once a header or parameter has failed, the list as a whole fails with the same error.
pub proof fn lemma_pairs_failed_stays(
    pairs: Seq<PairView>,
    n: int,
    m: int,
    vars: Map<Seq<char>, Seq<char>>,
    opt: RenderOptions,
    outcomes: Seq<Outcome>,
)
    requires
        0 <= n <= m,
        !(rendered_pairs(pairs, n, vars, opt, outcomes) is Done),
    ensures
        rendered_pairs(pairs, m, vars, opt, outcomes) == rendered_pairs(
            pairs,
            n,
            vars,
            opt,
            outcomes,
        ),
    decreases m - n,
{
    if n < m {
        lemma_pairs_failed_stays(pairs, n, m - 1, vars, opt, outcomes);
    }
}

/// The same for the fields of an HTTP request.
pub proof fn lemma_http_steps_stable(
    req: HttpRequestView,
    k: int,
    vars: Map<Seq<char>, Seq<char>>,
    opt: RenderOptions,
    outcomes: Seq<Outcome>,
    more: Seq<Outcome>,
)
    requires
        !(rendered_http_steps(req, k, vars, opt, outcomes) is Starved),
    ensures
        rendered_http_steps(req, k, vars, opt, outcomes + more) == rendered_http_steps(
            req,
            k,
            vars,
            opt,
            outcomes,
        ),
        rendered_http_steps(req, k, vars, opt, outcomes).calls_made() <= outcomes.len(),
    decreases k,
{
    if k > 0 {
        lemma_http_steps_stable(req, k - 1, vars, opt, outcomes, more);
        match rendered_http_steps(req, k - 1, vars, opt, outcomes) {
            Rendered::Done { value: partial, calls } => {
                let rest = outcomes.skip(calls as int);
                assert((outcomes + more).skip(calls as int) =~= rest + more);
                if k - 1 == 0 {
                    lemma_rendered_pairs_stable(
                        partial.url_parameters,
                        partial.url_parameters.len() as int,
                        vars,
                        opt,
                        rest,
                        more,
                    );
                } else if k - 1 == 1 {
                    lemma_rendered_pairs_stable(
                        partial.headers,
                        partial.headers.len() as int,
                        vars,
                        opt,
                        rest,
                        more,
                    );
                } else if k - 1 == 2 {
                    lemma_rendered_entries_stable(
                        partial.body,
                        partial.body.len() as int,
                        vars,
                        opt,
                        rest,
                        more,
                    );
                } else if k - 1 == 3 {
                    lemma_rendered_entries_stable(
                        partial.authentication,
                        partial.authentication.len() as int,
                        vars,
                        opt,
                        rest,
                        more,
                    );
                } else {
                    lemma_rendered_template_stable(partial.url, vars, opt, rest, more);
                }
            },
            _ => {},
        }
    }
}

/// Once a field of an HTTP request has failed, the request as a whole fails with the same error.
pub proof fn lemma_http_failed_stays(
    req: HttpRequestView,
    n: int,
    m: int,
    vars: Map<Seq<char>, Seq<char>>,
    opt: RenderOptions,
    outcomes: Seq<Outcome>,
)
    requires
        0 <= n <= m,
        !(rendered_http_steps(req, n, vars, opt, outcomes) is Done),
    ensures
        rendered_http_steps(req, m, vars, opt, outcomes) == rendered_http_steps(
            req,
            n,
            vars,
            opt,
            outcomes,
        ),
    decreases m - n,
{
    if n < m {
        lemma_http_failed_stays(req, n, m - 1, vars, opt, outcomes);
    }
}

/// The same for the fields of a gRPC request.
pub proof fn lemma_grpc_steps_stable(
    req: GrpcRequestView,
    k: int,
    vars: Map<Seq<char>, Seq<char>>,
    opt: RenderOptions,
    outcomes: Seq<Outcome>,
    more: Seq<Outcome>,
)
    requires
        !(rendered_grpc_steps(req, k, vars, opt, outcomes) is Starved),
    ensures
        rendered_grpc_steps(req, k, vars, opt, outcomes + more) == rendered_grpc_steps(
            req,
            k,
            vars,
            opt,
            outcomes,
        ),
        rendered_grpc_steps(req, k, vars, opt, outcomes).calls_made() <= outcomes.len(),
    decreases k,
{
    if k > 0 {
        lemma_grpc_steps_stable(req, k - 1, vars, opt, outcomes, more);
        match rendered_grpc_steps(req, k - 1, vars, opt, outcomes) {
            Rendered::Done { value: partial, calls } => {
                let rest = outcomes.skip(calls as int);
                assert((outcomes + more).skip(calls as int) =~= rest + more);
                if k - 1 == 0 {
                    lemma_rendered_pairs_stable(
                        partial.metadata,
                        partial.metadata.len() as int,
                        vars,
                        opt,
                        rest,
                        more,
                    );
                } else if k - 1 == 1 {
                    lemma_rendered_entries_stable(
                        partial.authentication,
                        partial.authentication.len() as int,
                        vars,
                        opt,
                        rest,
                        more,
                    );
                } else {
                    lemma_rendered_template_stable(partial.url, vars, opt, rest, more);
                }
            },
            _ => {},
        }
    }
}

/// Once a field of a gRPC request has failed, the request as a whole fails with the same error.
pub proof fn lemma_grpc_failed_stays(
    req: GrpcRequestView,
    n: int,
    m: int,
    vars: Map<Seq<char>, Seq<char>>,
    opt: RenderOptions,
    outcomes: Seq<Outcome>,
)
    requires
        0 <= n <= m,
        !(rendered_grpc_steps(req, n, vars, opt, outcomes) is Done),
    ensures
        rendered_grpc_steps(req, m, vars, opt, outcomes) == rendered_grpc_steps(
            req,
            n,
            vars,
            opt,
            outcomes,
        ),
    decreases m - n,
{
    if n < m {
        lemma_grpc_failed_stays(req, n, m - 1, vars, opt, outcomes);
    }
}

/// The same for the fields of a WebSocket request.
pub proof fn lemma_websocket_steps_stable(
    req: WebsocketRequestView,
    k: int,
    vars: Map<Seq<char>, Seq<char>>,
    opt: RenderOptions,
    outcomes: Seq<Outcome>,
    more: Seq<Outcome>,
)
    requires
        !(rendered_websocket_steps(req, k, vars, opt, outcomes) is Starved),
    ensures
        rendered_websocket_steps(req, k, vars, opt, outcomes + more) == rendered_websocket_steps(
            req,
            k,
            vars,
            opt,
            outcomes,
        ),
        rendered_websocket_steps(req, k, vars, opt, outcomes).calls_made() <= outcomes.len(),
    decreases k,
{
    if k > 0 {
        lemma_websocket_steps_stable(req, k - 1, vars, opt, outcomes, more);
        match rendered_websocket_steps(req, k - 1, vars, opt, outcomes) {
            Rendered::Done { value: partial, calls } => {
                let rest = outcomes.skip(calls as int);
                assert((outcomes + more).skip(calls as int) =~= rest + more);
                if k - 1 == 0 {
                    lemma_rendered_pairs_stable(
                        partial.headers,
                        partial.headers.len() as int,
                        vars,
                        opt,
                        rest,
                        more,
                    );
                } else if k - 1 == 1 {
                    lemma_rendered_entries_stable(
                        partial.authentication,
                        partial.authentication.len() as int,
                        vars,
                        opt,
                        rest,
                        more,
                    );
                } else if k - 1 == 2 {
                    lemma_rendered_template_stable(partial.url, vars, opt, rest, more);
                } else {
                    lemma_rendered_template_stable(partial.message, vars, opt, rest, more);
                }
            },
            _ => {},
        }
    }
}

/// Once a field of a WebSocket request has failed, the request as a whole fails with the same error.
pub proof fn lemma_websocket_failed_stays(
    req: WebsocketRequestView,
    n: int,
    m: int,
    vars: Map<Seq<char>, Seq<char>>,
    opt: RenderOptions,
    outcomes: Seq<Outcome>,
)
    requires
        0 <= n <= m,
        !(rendered_websocket_steps(req, n, vars, opt, outcomes) is Done),
    ensures
        rendered_websocket_steps(req, m, vars, opt, outcomes) == rendered_websocket_steps(
            req,
            n,
            vars,
            opt,
            outcomes,
        ),
    decreases m - n,
{
    if n < m {
        lemma_websocket_failed_stays(req, n, m - 1, vars, opt, outcomes);
    }
}

/// The headers that an executable result stands for.
pub open spec fn headers_result(r: Result<Vec<HttpRequestHeader>, Error>) -> Result<Seq<PairView>, ErrorView> {
    match r {
        Ok(list) => Ok(header_views(list@)),
        Err(e) => Err(e@),
    }
}

/// Renders the names and values of the headers and records the outcomes of the calls made.
pub(crate) fn render_headers_traced<T: TemplateCallback>(
    list: &Vec<HttpRequestHeader>,
    vars: &StringHashMap<String>,
    cb: &T,
    opt: &RenderOptions,
) -> (r: (Result<Vec<HttpRequestHeader>, Error>, Ghost<Seq<Outcome>>))
    ensures
        all_pairs(header_views(list@), table_of(vars@), *opt, r.1@) == ended(
            headers_result(r.0),
            r.1@.len(),
        ),
{
    let ghost table = table_of(vars@);
    let ghost views = header_views(list@);
    let ghost mut trace: Seq<Outcome> = Seq::empty();
    let mut done: Vec<HttpRequestHeader> = Vec::new();
    let mut i: usize = 0;
    assert(header_views(done@) =~= Seq::empty());
    while i < list.len()
        invariant
            i <= list.len(),
            table == table_of(vars@),
            views == header_views(list@),
            rendered_pairs(views, i as int, table, *opt, trace) == (Rendered::Done {
                value: header_views(done@),
                calls: trace.len(),
            }),
        decreases list.len() - i,
    {
        let p = &list[i];
        assert(views[i as int] == p@);
        let ghost before = trace;
        let (name_r, Ghost(name_trace)) = parse_and_render_traced(p.name.as_str(), vars, cb, opt);
        proof {
            lemma_rendered_pairs_stable(views, i as int, table, *opt, before, name_trace);
            trace = before + name_trace;
            assert(trace.skip(before.len() as int) =~= name_trace);
        }
        let name = match name_r {
            Err(e) => {
                proof {
                    assert(rendered_pair(p@, table, *opt, name_trace) == (Rendered::Failed::<
                        PairView,
                    > { error: e@, calls: name_trace.len() }));
                    lemma_pairs_failed_stays(views, i + 1, views.len() as int, table, *opt, trace);
                }
                return (Err(e), Ghost(trace));
            },
            Ok(name) => name,
        };
        let (value_r, Ghost(value_trace)) = parse_and_render_traced(
            p.value.as_str(),
            vars,
            cb,
            opt,
        );
        let ghost pair_trace = name_trace + value_trace;
        proof {
            lemma_rendered_template_stable(p.name@, table, *opt, name_trace, value_trace);
            assert(pair_trace.skip(name_trace.len() as int) =~= value_trace);
            lemma_rendered_pairs_stable(views, i as int, table, *opt, before, pair_trace);
            trace = before + pair_trace;
            assert(trace.skip(before.len() as int) =~= pair_trace);
        }
        let value = match value_r {
            Err(e) => {
                proof {
                    assert(rendered_pair(p@, table, *opt, pair_trace) == (Rendered::Failed::<
                        PairView,
                    > { error: e@, calls: pair_trace.len() }));
                    lemma_pairs_failed_stays(views, i + 1, views.len() as int, table, *opt, trace);
                }
                return (Err(e), Ghost(trace));
            },
            Ok(value) => value,
        };
        let rendered_item = HttpRequestHeader { enabled: p.enabled, name, value, id: clone_optional(&p.id) };
        proof {
            assert(rendered_pair(p@, table, *opt, pair_trace) == (Rendered::Done {
                value: rendered_item@,
                calls: pair_trace.len(),
            }));
            assert(header_views(done@.push(rendered_item)) =~= header_views(done@).push(rendered_item@));
        }
        done.push(rendered_item);
        i += 1;
    }
    (Ok(done), Ghost(trace))
}

/// The parameters that an executable result stands for.
pub open spec fn parameters_result(r: Result<Vec<HttpUrlParameter>, Error>) -> Result<Seq<PairView>, ErrorView> {
    match r {
        Ok(list) => Ok(parameter_views(list@)),
        Err(e) => Err(e@),
    }
}

/// Renders the names and values of the parameters and records the outcomes of the calls made.
pub(crate) fn render_parameters_traced<T: TemplateCallback>(
    list: &Vec<HttpUrlParameter>,
    vars: &StringHashMap<String>,
    cb: &T,
    opt: &RenderOptions,
) -> (r: (Result<Vec<HttpUrlParameter>, Error>, Ghost<Seq<Outcome>>))
    ensures
        all_pairs(parameter_views(list@), table_of(vars@), *opt, r.1@) == ended(
            parameters_result(r.0),
            r.1@.len(),
        ),
{
    let ghost table = table_of(vars@);
    let ghost views = parameter_views(list@);
    let ghost mut trace: Seq<Outcome> = Seq::empty();
    let mut done: Vec<HttpUrlParameter> = Vec::new();
    let mut i: usize = 0;
    assert(parameter_views(done@) =~= Seq::empty());
    while i < list.len()
        invariant
            i <= list.len(),
            table == table_of(vars@),
            views == parameter_views(list@),
            rendered_pairs(views, i as int, table, *opt, trace) == (Rendered::Done {
                value: parameter_views(done@),
                calls: trace.len(),
            }),
        decreases list.len() - i,
    {
        let p = &list[i];
        assert(views[i as int] == p@);
        let ghost before = trace;
        let (name_r, Ghost(name_trace)) = parse_and_render_traced(p.name.as_str(), vars, cb, opt);
        proof {
            lemma_rendered_pairs_stable(views, i as int, table, *opt, before, name_trace);
            trace = before + name_trace;
            assert(trace.skip(before.len() as int) =~= name_trace);
        }
        let name = match name_r {
            Err(e) => {
                proof {
                    assert(rendered_pair(p@, table, *opt, name_trace) == (Rendered::Failed::<
                        PairView,
                    > { error: e@, calls: name_trace.len() }));
                    lemma_pairs_failed_stays(views, i + 1, views.len() as int, table, *opt, trace);
                }
                return (Err(e), Ghost(trace));
            },
            Ok(name) => name,
        };
        let (value_r, Ghost(value_trace)) = parse_and_render_traced(
            p.value.as_str(),
            vars,
            cb,
            opt,
        );
        let ghost pair_trace = name_trace + value_trace;
        proof {
            lemma_rendered_template_stable(p.name@, table, *opt, name_trace, value_trace);
            assert(pair_trace.skip(name_trace.len() as int) =~= value_trace);
            lemma_rendered_pairs_stable(views, i as int, table, *opt, before, pair_trace);
            trace = before + pair_trace;
            assert(trace.skip(before.len() as int) =~= pair_trace);
        }
        let value = match value_r {
            Err(e) => {
                proof {
                    assert(rendered_pair(p@, table, *opt, pair_trace) == (Rendered::Failed::<
                        PairView,
                    > { error: e@, calls: pair_trace.len() }));
                    lemma_pairs_failed_stays(views, i + 1, views.len() as int, table, *opt, trace);
                }
                return (Err(e), Ghost(trace));
            },
            Ok(value) => value,
        };
        let rendered_item = HttpUrlParameter { enabled: p.enabled, name, value, id: clone_optional(&p.id) };
        proof {
            assert(rendered_pair(p@, table, *opt, pair_trace) == (Rendered::Done {
                value: rendered_item@,
                calls: pair_trace.len(),
            }));
            assert(parameter_views(done@.push(rendered_item)) =~= parameter_views(done@).push(rendered_item@));
        }
        done.push(rendered_item);
        i += 1;
    }
    (Ok(done), Ghost(trace))
}

/// The request that an executable result stands for.
pub open spec fn http_result(r: Result<HttpRequest, Error>) -> Result<HttpRequestView, ErrorView> {
    match r {
        Ok(request) => Ok(request@),
        Err(e) => Err(e@),
    }
}

/// Renders the templates of an HTTP request and records the outcomes of the calls made.
pub(crate) fn render_http_traced<T: TemplateCallback>(
    r: &HttpRequest,
    vars: &StringHashMap<String>,
    cb: &T,
    opt: &RenderOptions,
) -> (out: (Result<HttpRequest, Error>, Ghost<Seq<Outcome>>))
    ensures
        rendered_http_request(r@, table_of(vars@), *opt, out.1@) == ended(
            http_result(out.0),
            out.1@.len(),
        ),
{
    let ghost table = table_of(vars@);
    let ghost req = r@;
    let ghost mut trace: Seq<Outcome> = Seq::empty();
    let ghost before0 = trace;
    let (r0, Ghost(t0)) = render_parameters_traced(&r.url_parameters, vars, cb, opt);
    proof {
        lemma_http_steps_stable(req, 0, table, *opt, before0, t0);
        trace = before0 + t0;
        assert(trace.skip(before0.len() as int) =~= t0);
    }
    let url_parameters = match r0 {
        Err(e) => {
            proof {
                lemma_http_failed_stays(req, 1, 5, table, *opt, trace);
            }
            return (Err(e), Ghost(trace));
        },
        Ok(v) => v,
    };
    let ghost before1 = trace;
    let (r1, Ghost(t1)) = render_headers_traced(&r.headers, vars, cb, opt);
    proof {
        lemma_http_steps_stable(req, 1, table, *opt, before1, t1);
        trace = before1 + t1;
        assert(trace.skip(before1.len() as int) =~= t1);
    }
    let headers = match r1 {
        Err(e) => {
            proof {
                lemma_http_failed_stays(req, 2, 5, table, *opt, trace);
            }
            return (Err(e), Ghost(trace));
        },
        Ok(v) => v,
    };
    let ghost before2 = trace;
    let (r2, Ghost(t2)) = render_entries_traced(&r.body, vars, cb, opt);
    proof {
        lemma_http_steps_stable(req, 2, table, *opt, before2, t2);
        trace = before2 + t2;
        assert(trace.skip(before2.len() as int) =~= t2);
    }
    let body = match r2 {
        Err(e) => {
            proof {
                lemma_http_failed_stays(req, 3, 5, table, *opt, trace);
            }
            return (Err(e), Ghost(trace));
        },
        Ok(v) => v,
    };
    let ghost before3 = trace;
    let (r3, Ghost(t3)) = render_entries_traced(&r.authentication, vars, cb, opt);
    proof {
        lemma_http_steps_stable(req, 3, table, *opt, before3, t3);
        trace = before3 + t3;
        assert(trace.skip(before3.len() as int) =~= t3);
    }
    let authentication = match r3 {
        Err(e) => {
            proof {
                lemma_http_failed_stays(req, 4, 5, table, *opt, trace);
            }
            return (Err(e), Ghost(trace));
        },
        Ok(v) => v,
    };
    let ghost before4 = trace;
    let (r4, Ghost(t4)) = parse_and_render_traced(r.url.as_str(), vars, cb, opt);
    proof {
        lemma_http_steps_stable(req, 4, table, *opt, before4, t4);
        trace = before4 + t4;
        assert(trace.skip(before4.len() as int) =~= t4);
    }
    let url = match r4 {
        Err(e) => {
            proof {
                lemma_http_failed_stays(req, 5, 5, table, *opt, trace);
            }
            return (Err(e), Ghost(trace));
        },
        Ok(v) => v,
    };
    let request = HttpRequest {
        id: r.id.clone(),
        workspace_id: r.workspace_id.clone(),
        folder_id: clone_optional(&r.folder_id),
        updated_at: r.updated_at,
        name: r.name.clone(),
        method: r.method.clone(),
        url,
        url_parameters,
        headers,
        body,
        body_type: clone_optional(&r.body_type),
        authentication,
        authentication_type: clone_optional(&r.authentication_type),
    };
    (Ok(request), Ghost(trace))
}

/// The request that an executable result stands for.
pub open spec fn grpc_result(r: Result<GrpcRequest, Error>) -> Result<GrpcRequestView, ErrorView> {
    match r {
        Ok(request) => Ok(request@),
        Err(e) => Err(e@),
    }
}

/// Renders the templates of a gRPC request and records the outcomes of the calls made.
pub(crate) fn render_grpc_traced<T: TemplateCallback>(
    r: &GrpcRequest,
    vars: &StringHashMap<String>,
    cb: &T,
    opt: &RenderOptions,
) -> (out: (Result<GrpcRequest, Error>, Ghost<Seq<Outcome>>))
    ensures
        rendered_grpc_request(r@, table_of(vars@), *opt, out.1@) == ended(
            grpc_result(out.0),
            out.1@.len(),
        ),
{
    let ghost table = table_of(vars@);
    let ghost req = r@;
    let ghost mut trace: Seq<Outcome> = Seq::empty();
    let ghost before0 = trace;
    let (r0, Ghost(t0)) = render_headers_traced(&r.metadata, vars, cb, opt);
    proof {
        lemma_grpc_steps_stable(req, 0, table, *opt, before0, t0);
        trace = before0 + t0;
        assert(trace.skip(before0.len() as int) =~= t0);
    }
    let metadata = match r0 {
        Err(e) => {
            proof {
                lemma_grpc_failed_stays(req, 1, 3, table, *opt, trace);
            }
            return (Err(e), Ghost(trace));
        },
        Ok(v) => v,
    };
    let ghost before1 = trace;
    let (r1, Ghost(t1)) = render_entries_traced(&r.authentication, vars, cb, opt);
    proof {
        lemma_grpc_steps_stable(req, 1, table, *opt, before1, t1);
        trace = before1 + t1;
        assert(trace.skip(before1.len() as int) =~= t1);
    }
    let authentication = match r1 {
        Err(e) => {
            proof {
                lemma_grpc_failed_stays(req, 2, 3, table, *opt, trace);
            }
            return (Err(e), Ghost(trace));
        },
        Ok(v) => v,
    };
    let ghost before2 = trace;
    let (r2, Ghost(t2)) = parse_and_render_traced(r.url.as_str(), vars, cb, opt);
    proof {
        lemma_grpc_steps_stable(req, 2, table, *opt, before2, t2);
        trace = before2 + t2;
        assert(trace.skip(before2.len() as int) =~= t2);
    }
    let url = match r2 {
        Err(e) => {
            proof {
                lemma_grpc_failed_stays(req, 3, 3, table, *opt, trace);
            }
            return (Err(e), Ghost(trace));
        },
        Ok(v) => v,
    };
    let request = GrpcRequest {
        id: r.id.clone(),
        workspace_id: r.workspace_id.clone(),
        folder_id: clone_optional(&r.folder_id),
        updated_at: r.updated_at,
        name: r.name.clone(),
        service: clone_optional(&r.service),
        method: clone_optional(&r.method),
        message: r.message.clone(),
        url,
        metadata,
        authentication,
        authentication_type: clone_optional(&r.authentication_type),
    };
    (Ok(request), Ghost(trace))
}

/// The request that an executable result stands for.
pub open spec fn websocket_result(r: Result<WebsocketRequest, Error>) -> Result<WebsocketRequestView, ErrorView> {
    match r {
        Ok(request) => Ok(request@),
        Err(e) => Err(e@),
    }
}

/// Renders the templates of a WebSocket request and records the outcomes of the calls made.
pub(crate) fn render_websocket_traced<T: TemplateCallback>(
    r: &WebsocketRequest,
    vars: &StringHashMap<String>,
    cb: &T,
    opt: &RenderOptions,
) -> (out: (Result<WebsocketRequest, Error>, Ghost<Seq<Outcome>>))
    ensures
        rendered_websocket_request(r@, table_of(vars@), *opt, out.1@) == ended(
            websocket_result(out.0),
            out.1@.len(),
        ),
{
    let ghost table = table_of(vars@);
    let ghost req = r@;
    let ghost mut trace: Seq<Outcome> = Seq::empty();
    let ghost before0 = trace;
    let (r0, Ghost(t0)) = render_headers_traced(&r.headers, vars, cb, opt);
    proof {
        lemma_websocket_steps_stable(req, 0, table, *opt, before0, t0);
        trace = before0 + t0;
        assert(trace.skip(before0.len() as int) =~= t0);
    }
    let headers = match r0 {
        Err(e) => {
            proof {
                lemma_websocket_failed_stays(req, 1, 4, table, *opt, trace);
            }
            return (Err(e), Ghost(trace));
        },
        Ok(v) => v,
    };
    let ghost before1 = trace;
    let (r1, Ghost(t1)) = render_entries_traced(&r.authentication, vars, cb, opt);
    proof {
        lemma_websocket_steps_stable(req, 1, table, *opt, before1, t1);
        trace = before1 + t1;
        assert(trace.skip(before1.len() as int) =~= t1);
    }
    let authentication = match r1 {
        Err(e) => {
            proof {
                lemma_websocket_failed_stays(req, 2, 4, table, *opt, trace);
            }
            return (Err(e), Ghost(trace));
        },
        Ok(v) => v,
    };
    let ghost before2 = trace;
    let (r2, Ghost(t2)) = parse_and_render_traced(r.url.as_str(), vars, cb, opt);
    proof {
        lemma_websocket_steps_stable(req, 2, table, *opt, before2, t2);
        trace = before2 + t2;
        assert(trace.skip(before2.len() as int) =~= t2);
    }
    let url = match r2 {
        Err(e) => {
            proof {
                lemma_websocket_failed_stays(req, 3, 4, table, *opt, trace);
            }
            return (Err(e), Ghost(trace));
        },
        Ok(v) => v,
    };
    let ghost before3 = trace;
    let (r3, Ghost(t3)) = parse_and_render_traced(r.message.as_str(), vars, cb, opt);
    proof {
        lemma_websocket_steps_stable(req, 3, table, *opt, before3, t3);
        trace = before3 + t3;
        assert(trace.skip(before3.len() as int) =~= t3);
    }
    let message = match r3 {
        Err(e) => {
            proof {
                lemma_websocket_failed_stays(req, 4, 4, table, *opt, trace);
            }
            return (Err(e), Ghost(trace));
        },
        Ok(v) => v,
    };
    let request = WebsocketRequest {
        id: r.id.clone(),
        workspace_id: r.workspace_id.clone(),
        folder_id: clone_optional(&r.folder_id),
        updated_at: r.updated_at,
        name: r.name.clone(),
        message,
        url,
        headers,
        authentication,
        authentication_type: clone_optional(&r.authentication_type),
    };
    (Ok(request), Ghost(trace))
}

/// Renders the template against the variables of the chain of environments,
/// which goes from the most specific to the most general.
pub fn render_template<T: TemplateCallback>(
    template: &str,
    environment_chain: Vec<Environment>,
    cb: &T,
    opt: &RenderOptions,
) -> (r: Result<String, Error>)
    ensures
        exists|outcomes: Seq<Outcome>|
            rendered_template(
                template@,
                resolved_variables(environment_views(environment_chain@)),
                *opt,
                outcomes,
            ) == ended(text_result(r), outcomes.len()),
{
    let vars = make_vars_hashmap(environment_chain);
    let (r, Ghost(trace)) = parse_and_render_traced(template, &vars, cb, opt);
    r
}

/// Renders the strings of the JSON value against the variables of the chain of
/// environments.
pub fn render_json_value<T: TemplateCallback>(
    value: JsonValue,
    environment_chain: Vec<Environment>,
    cb: &T,
    opt: &RenderOptions,
) -> (r: Result<JsonValue, Error>)
    ensures
        exists|outcomes: Seq<Outcome>|
            rendered_json(
                value@,
                resolved_variables(environment_views(environment_chain@)),
                *opt,
                outcomes,
            ) == ended(json_result(r), outcomes.len()),
{
    let vars = make_vars_hashmap(environment_chain);
    let (r, Ghost(trace)) = render_json_traced(&value, &vars, cb, opt);
    r
}

/// Renders the metadata, the authentication and the URL of the gRPC request, in
/// this order, against the variables of the chain of environments. The other
/// fields are kept. The first failure is returned, and nothing else.
pub fn render_grpc_request<T: TemplateCallback>(
    r: &GrpcRequest,
    environment_chain: Vec<Environment>,
    cb: &T,
    opt: &RenderOptions,
) -> (out: Result<GrpcRequest, Error>)
    ensures
        exists|outcomes: Seq<Outcome>|
            rendered_grpc_request(
                r@,
                resolved_variables(environment_views(environment_chain@)),
                *opt,
                outcomes,
            ) == ended(grpc_result(out), outcomes.len()),
{
    let vars = make_vars_hashmap(environment_chain);
    let (out, Ghost(trace)) = render_grpc_traced(r, &vars, cb, opt);
    out
}

/// Renders the headers, the authentication, the URL and the message of the
/// WebSocket request, in this order, against the variables of the chain of
/// environments. The other fields are kept. The first failure is returned, and
/// nothing else.
pub fn render_websocket_request<T: TemplateCallback>(
    r: &WebsocketRequest,
    environment_chain: Vec<Environment>,
    cb: &T,
    opt: &RenderOptions,
) -> (out: Result<WebsocketRequest, Error>)
    ensures
        exists|outcomes: Seq<Outcome>|
            rendered_websocket_request(
                r@,
                resolved_variables(environment_views(environment_chain@)),
                *opt,
                outcomes,
            ) == ended(websocket_result(out), outcomes.len()),
{
    let vars = make_vars_hashmap(environment_chain);
    let (out, Ghost(trace)) = render_websocket_traced(r, &vars, cb, opt);
    out
}

/// The request `out` is `rendered` after `apply` was given its URL and its URL
/// parameters and returned those of `out`.
pub open spec fn placeholders_applied<
    F: Fn(String, Vec<HttpUrlParameter>) -> (String, Vec<HttpUrlParameter>),
>(apply: F, rendered: HttpRequestView, out: HttpRequest) -> bool {
    exists|url: String, parameters: Vec<HttpUrlParameter>|
        {
            &&& url@ == rendered.url
            &&& parameter_views(parameters@) == rendered.url_parameters
            &&& #[trigger] call_ensures(apply, (url, parameters), (out.url, out.url_parameters))
            &&& out@ == (HttpRequestView {
                url: out.url@,
                url_parameters: parameter_views(out.url_parameters@),
                ..rendered
            })
        }
}

/// Renders the URL parameters, the headers, the body, the authentication and the
/// URL of the HTTP request, in this order, against the variables of the chain
/// of environments. The other fields are kept. The rendered URL and URL
/// parameters are then handed to `apply_path_placeholders`, and what it returns
/// takes their place. The first failure is returned, and nothing else.
pub fn render_http_request<
    T: TemplateCallback,
    F: Fn(String, Vec<HttpUrlParameter>) -> (String, Vec<HttpUrlParameter>),
>(
    r: &HttpRequest,
    environment_chain: Vec<Environment>,
    cb: &T,
    opt: &RenderOptions,
    apply_path_placeholders: F,
) -> (out: Result<HttpRequest, Error>)
    requires
        forall|url: String, parameters: Vec<HttpUrlParameter>|
            call_requires(apply_path_placeholders, (url, parameters)),
    ensures
        exists|outcomes: Seq<Outcome>|
            match #[trigger] rendered_http_request(
                r@,
                resolved_variables(environment_views(environment_chain@)),
                *opt,
                outcomes,
            ) {
                Rendered::Done { value: rendered, calls } => {
                    &&& calls == outcomes.len()
                    &&& out matches Ok(request) && placeholders_applied(
                        apply_path_placeholders,
                        rendered,
                        request,
                    )
                },
                Rendered::Failed { error, calls } => {
                    &&& calls == outcomes.len()
                    &&& out matches Err(e) && e@ == error
                },
                Rendered::Starved => false,
            },
{
    let vars = make_vars_hashmap(environment_chain);
    let (rendered, Ghost(trace)) = render_http_traced(r, &vars, cb, opt);
    match rendered {
        Err(e) => Err(e),
        Ok(request) => {
            let ghost rendered_view = request@;
            let HttpRequest {
                id,
                workspace_id,
                folder_id,
                updated_at,
                name,
                method,
                url,
                url_parameters,
                headers,
                body,
                body_type,
                authentication,
                authentication_type,
            } = request;
            let ghost given_url = url;
            let ghost given_parameters = url_parameters;
            let (url, url_parameters) = apply_path_placeholders(url, url_parameters);
            let out = HttpRequest {
                id,
                workspace_id,
                folder_id,
                updated_at,
                name,
                method,
                url,
                url_parameters,
                headers,
                body,
                body_type,
                authentication,
                authentication_type,
            };
            proof {
                assert(call_ensures(
                    apply_path_placeholders,
                    (given_url, given_parameters),
                    (out.url, out.url_parameters),
                ));
                assert(placeholders_applied(apply_path_placeholders, rendered_view, out));
            }
            Ok(out)
        },
    }
}

} // verus!
