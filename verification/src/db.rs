//! The stored environments, folders and requests, and the queries on them.
//!
//! A `DbContext` holds the rows in the order in which they were stored. Where a
//! row is stored that has no id yet, or a time is needed, the values come from
//! a `Fresh`, which the caller fills with ids that no row has and with the time.
use vstd::prelude::*;
use crate::models::{
    clone_optional, environment_views, optional_text, variable_views, Environment,
    EnvironmentVariable, EnvironmentVariableView, EnvironmentView, Folder, FolderView, GrpcRequest,
    GrpcRequestView, HttpRequest, HttpRequestView, WebsocketRequest, WebsocketRequestView,
};
use crate::text::str_equal;

verus! {

/// Why a query failed.
#[derive(Debug, PartialEq, Eq)]
pub enum ModelError {
    /// No row has this id.
    ModelNotFound(String),
    /// The workspace has no base environment.
    MissingBaseEnvironment(String),
    /// The workspace has more than one base environment.
    MultipleBaseEnvironments(String),
}

/// A `ModelError` as a mathematical value.
pub enum ModelErrorView {
    ModelNotFound(Seq<char>),
    MissingBaseEnvironment(Seq<char>),
    MultipleBaseEnvironments(Seq<char>),
}

impl View for ModelError {
    type V = ModelErrorView;

    open spec fn view(&self) -> ModelErrorView {
        match self {
            ModelError::ModelNotFound(id) => ModelErrorView::ModelNotFound(id@),
            ModelError::MissingBaseEnvironment(id) => ModelErrorView::MissingBaseEnvironment(id@),
            ModelError::MultipleBaseEnvironments(id) => ModelErrorView::MultipleBaseEnvironments(
                id@,
            ),
        }
    }
}

/// A request of any kind.
#[derive(Debug, PartialEq, Eq)]
pub enum AnyRequest {
    HttpRequest(HttpRequest),
    GrpcRequest(GrpcRequest),
    WebsocketRequest(WebsocketRequest),
}

/// An `AnyRequest` as a mathematical value.
pub enum AnyRequestView {
    HttpRequest(HttpRequestView),
    GrpcRequest(GrpcRequestView),
    WebsocketRequest(WebsocketRequestView),
}

impl View for AnyRequest {
    type V = AnyRequestView;

    open spec fn view(&self) -> AnyRequestView {
        match self {
            AnyRequest::HttpRequest(r) => AnyRequestView::HttpRequest(r@),
            AnyRequest::GrpcRequest(r) => AnyRequestView::GrpcRequest(r@),
            AnyRequest::WebsocketRequest(r) => AnyRequestView::WebsocketRequest(r@),
        }
    }
}

/// What only the caller can give: an id for a row that has none, an id for a
/// base environment that has to be made, and the time in milliseconds since
/// the epoch.
#[derive(Debug, PartialEq, Eq)]
pub struct Fresh {
    pub id: String,
    pub base_id: String,
    pub now: i64,
}

/// A `Fresh` as a mathematical value.
pub struct FreshView {
    pub id: Seq<char>,
    pub base_id: Seq<char>,
    pub now: i64,
}

impl View for Fresh {
    type V = FreshView;

    open spec fn view(&self) -> FreshView {
        FreshView { id: self.id@, base_id: self.base_id@, now: self.now }
    }
}

/// The stored rows.
#[derive(Debug, PartialEq, Eq)]
pub struct DbContext {
    pub environments: Vec<Environment>,
    pub folders: Vec<Folder>,
    pub http_requests: Vec<HttpRequest>,
    pub grpc_requests: Vec<GrpcRequest>,
    pub websocket_requests: Vec<WebsocketRequest>,
}

/// The first index from `from` on that holds `id`; the length of `ids` if none does.
pub open spec fn position(ids: Seq<Seq<char>>, id: Seq<char>, from: int) -> int
    decreases ids.len() - from,
{
    if from < 0 || from >= ids.len() {
        ids.len() as int
    } else if ids[from] == id {
        from
    } else {
        position(ids, id, from + 1)
    }
}

/// The first index that holds an id holds it, and no index before it does.
pub proof fn lemma_position(ids: Seq<Seq<char>>, id: Seq<char>, from: int)
    requires
        0 <= from <= ids.len(),
    ensures
        from <= position(ids, id, from) <= ids.len(),
        position(ids, id, from) < ids.len() ==> ids[position(ids, id, from)] == id,
        forall|j: int| from <= j < position(ids, id, from) ==> ids[j] != id,
    decreases ids.len() - from,
{
    if from < ids.len() && ids[from] != id {
        lemma_position(ids, id, from + 1);
    }
}

/// The ids of the environments, in order.
pub open spec fn environment_ids(envs: Seq<EnvironmentView>) -> Seq<Seq<char>> {
    Seq::new(envs.len(), |i: int| envs[i].id)
}

/// The ids of the folders, in order.
pub open spec fn folder_ids(folders: Seq<FolderView>) -> Seq<Seq<char>> {
    Seq::new(folders.len(), |i: int| folders[i].id)
}

/// The word for what belongs to a workspace.
pub open spec fn workspace_word() -> Seq<char> {
    "workspace"@
}

/// The word for what belongs to a folder.
pub open spec fn folder_word() -> Seq<char> {
    "folder"@
}

/// Those of the first `n` environments that belong to the workspace, in order.
pub open spec fn in_workspace(envs: Seq<EnvironmentView>, workspace_id: Seq<char>, n: int) -> Seq<
    EnvironmentView,
>
    decreases n,
{
    if n <= 0 {
        Seq::empty()
    } else if envs[n - 1].workspace_id == workspace_id {
        in_workspace(envs, workspace_id, n - 1).push(envs[n - 1])
    } else {
        in_workspace(envs, workspace_id, n - 1)
    }
}

/// Those of the first `n` environments that belong to a workspace as such, in order.
pub open spec fn bases_among(envs: Seq<EnvironmentView>, n: int) -> Seq<EnvironmentView>
    decreases n,
{
    if n <= 0 {
        Seq::empty()
    } else if envs[n - 1].parent_model == workspace_word() {
        bases_among(envs, n - 1).push(envs[n - 1])
    } else {
        bases_among(envs, n - 1)
    }
}

/// The base environments of the workspace, in order.
pub open spec fn bases_of(envs: Seq<EnvironmentView>, workspace_id: Seq<char>) -> Seq<
    EnvironmentView,
> {
    let own = in_workspace(envs, workspace_id, envs.len() as int);
    bases_among(own, own.len() as int)
}

/// The row as it is stored: a row without an id gets the fresh id and is
/// created now; every row is updated now.
pub open spec fn stored_row(e: EnvironmentView, fresh: FreshView) -> EnvironmentView {
    EnvironmentView {
        id: if e.id.len() == 0 {
            fresh.id
        } else {
            e.id
        },
        created_at: if e.id.len() == 0 {
            fresh.now
        } else {
            e.created_at
        },
        updated_at: fresh.now,
        ..e
    }
}

/// The environments after `row` was stored: it takes the place of the first row
/// of its id, or stands at the end if there is none.
pub open spec fn with_row(envs: Seq<EnvironmentView>, row: EnvironmentView) -> Seq<
    EnvironmentView,
> {
    let p = position(environment_ids(envs), row.id, 0);
    if p < envs.len() {
        envs.update(p, row)
    } else {
        envs.push(row)
    }
}

/// The base environment that is made for a workspace that has none.
pub open spec fn base_row(workspace_id: Seq<char>, fresh: FreshView) -> EnvironmentView {
    EnvironmentView {
        id: fresh.base_id,
        workspace_id,
        created_at: fresh.now,
        updated_at: fresh.now,
        name: "Global Variables"@,
        public: false,
        parent_model: workspace_word(),
        parent_id: None,
        variables: Seq::empty(),
        color: None,
    }
}

/// The environments after it was seen to that the workspace has a base environment.
pub open spec fn ensured(
    envs: Seq<EnvironmentView>,
    workspace_id: Seq<char>,
    fresh: FreshView,
) -> Seq<EnvironmentView> {
    if bases_of(envs, workspace_id).len() > 0 {
        envs
    } else {
        with_row(envs, base_row(workspace_id, fresh))
    }
}

/// The environments of the workspace once it has a base environment: those
/// that it had, and behind them the base environment that was made.
pub open spec fn ensured_list(
    envs: Seq<EnvironmentView>,
    workspace_id: Seq<char>,
    fresh: FreshView,
) -> Seq<EnvironmentView> {
    let own = in_workspace(envs, workspace_id, envs.len() as int);
    if bases_of(envs, workspace_id).len() > 0 {
        own
    } else {
        own.push(base_row(workspace_id, fresh))
    }
}

/// The index of the environment of the folder that was updated last, among the
/// first `n`; of two that were updated at the same time, the one stored first.
/// It is -1 where the folder has no environment.
pub open spec fn newest_of_folder(envs: Seq<EnvironmentView>, folder_id: Seq<char>, n: int) -> int
    decreases n,
{
    if n <= 0 {
        -1
    } else {
        let before = newest_of_folder(envs, folder_id, n - 1);
        if envs[n - 1].parent_id == Some(folder_id) && (before < 0 || envs[n - 1].updated_at
            > envs[before].updated_at) {
            n - 1
        } else {
            before
        }
    }
}

/// The environment of a folder that was updated last is among those looked at.
pub proof fn lemma_newest_of_folder(envs: Seq<EnvironmentView>, folder_id: Seq<char>, n: int)
    requires
        0 <= n <= envs.len(),
    ensures
        -1 <= newest_of_folder(envs, folder_id, n) < n,
    decreases n,
{
    if n > 0 {
        lemma_newest_of_folder(envs, folder_id, n - 1);
    }
}

impl DbContext {
    /// The environments, in the order in which they are stored.
    pub open spec fn envs(&self) -> Seq<EnvironmentView> {
        environment_views(self.environments@)
    }

    /// The folders, in the order in which they are stored.
    pub open spec fn folder_rows(&self) -> Seq<FolderView> {
        self.folders@.map_values(|f: Folder| f@)
    }

    /// The ids of the HTTP requests, in order.
    pub open spec fn http_ids(&self) -> Seq<Seq<char>> {
        Seq::new(self.http_requests@.len(), |i: int| self.http_requests@[i].id@)
    }

    /// The ids of the gRPC requests, in order.
    pub open spec fn grpc_ids(&self) -> Seq<Seq<char>> {
        Seq::new(self.grpc_requests@.len(), |i: int| self.grpc_requests@[i].id@)
    }

    /// The ids of the WebSocket requests, in order.
    pub open spec fn websocket_ids(&self) -> Seq<Seq<char>> {
        Seq::new(self.websocket_requests@.len(), |i: int| self.websocket_requests@[i].id@)
    }

    /// A store without rows.
    pub fn new() -> (db: Self)
        ensures
            db.envs().len() == 0,
            db.folder_rows().len() == 0,
            db.http_requests@.len() == 0,
            db.grpc_requests@.len() == 0,
            db.websocket_requests@.len() == 0,
    {
        DbContext {
            environments: Vec::new(),
            folders: Vec::new(),
            http_requests: Vec::new(),
            grpc_requests: Vec::new(),
            websocket_requests: Vec::new(),
        }
    }

    /// The index of the first environment with the id `id`.
    fn environment_position(&self, id: &str) -> (p: usize)
        ensures
            p == position(environment_ids(self.envs()), id@, 0),
            p <= self.environments.len(),
    {
        let ghost ids = environment_ids(self.envs());
        let mut i: usize = 0;
        while i < self.environments.len()
            invariant
                i <= self.environments.len(),
                ids == environment_ids(self.envs()),
                ids.len() == self.environments.len(),
                position(ids, id@, 0) == position(ids, id@, i as int),
            decreases self.environments.len() - i,
        {
            assert(ids[i as int] == self.environments@[i as int].id@);
            if str_equal(self.environments[i].id.as_str(), id) {
                return i;
            }
            i += 1;
        }
        i
    }

    /// The environment with the id `id`: the first, if several have it.
    pub fn get_environment(&self, id: &str) -> (r: Result<Environment, ModelError>)
        ensures
            match r {
                Ok(e) => {
                    let p = position(environment_ids(self.envs()), id@, 0);
                    p < self.envs().len() && e@ == self.envs()[p]
                },
                Err(error) => error@ == ModelErrorView::ModelNotFound(id@) && position(
                    environment_ids(self.envs()),
                    id@,
                    0,
                ) == self.envs().len(),
            },
    {
        let p = self.environment_position(id);
        if p < self.environments.len() {
            Ok(self.environments[p].clone())
        } else {
            Err(ModelError::ModelNotFound(String::from_str(id)))
        }
    }

    /// The folder with the id `id`: the first, if several have it.
    pub fn get_folder(&self, id: &str) -> (r: Result<Folder, ModelError>)
        ensures
            match r {
                Ok(f) => {
                    let p = position(folder_ids(self.folder_rows()), id@, 0);
                    p < self.folder_rows().len() && f@ == self.folder_rows()[p]
                },
                Err(error) => error@ == ModelErrorView::ModelNotFound(id@) && position(
                    folder_ids(self.folder_rows()),
                    id@,
                    0,
                ) == self.folder_rows().len(),
            },
    {
        let ghost ids = folder_ids(self.folder_rows());
        let mut i: usize = 0;
        while i < self.folders.len()
            invariant
                i <= self.folders.len(),
                ids == folder_ids(self.folder_rows()),
                ids.len() == self.folders.len(),
                position(ids, id@, 0) == position(ids, id@, i as int),
            decreases self.folders.len() - i,
        {
            assert(ids[i as int] == self.folders@[i as int].id@);
            if str_equal(self.folders[i].id.as_str(), id) {
                return Ok(self.folders[i].clone());
            }
            i += 1;
        }
        Err(ModelError::ModelNotFound(String::from_str(id)))
    }

    /// The request with the id `id`: an HTTP request if there is one, else a gRPC
    /// request if there is one, else a WebSocket request.
    pub fn get_any_request(&self, id: &str) -> (r: Result<AnyRequest, ModelError>)
        ensures
            ({
                let h = position(self.http_ids(), id@, 0);
                let g = position(self.grpc_ids(), id@, 0);
                let w = position(self.websocket_ids(), id@, 0);
                if h < self.http_requests@.len() {
                    r matches Ok(found) && found@ == AnyRequestView::HttpRequest(
                        self.http_requests@[h]@,
                    )
                } else if g < self.grpc_requests@.len() {
                    r matches Ok(found) && found@ == AnyRequestView::GrpcRequest(
                        self.grpc_requests@[g]@,
                    )
                } else if w < self.websocket_requests@.len() {
                    r matches Ok(found) && found@ == AnyRequestView::WebsocketRequest(
                        self.websocket_requests@[w]@,
                    )
                } else {
                    r matches Err(error) && error@ == ModelErrorView::ModelNotFound(id@)
                }
            }),
    {
        let ghost hs = self.http_ids();
        let mut i: usize = 0;
        while i < self.http_requests.len()
            invariant
                i <= self.http_requests.len(),
                hs == self.http_ids(),
                position(hs, id@, 0) == position(hs, id@, i as int),
            decreases self.http_requests.len() - i,
        {
            if str_equal(self.http_requests[i].id.as_str(), id) {
                return Ok(AnyRequest::HttpRequest(self.http_requests[i].clone()));
            }
            i += 1;
        }
        let ghost gs = self.grpc_ids();
        let mut i: usize = 0;
        while i < self.grpc_requests.len()
            invariant
                i <= self.grpc_requests.len(),
                gs == self.grpc_ids(),
                position(hs, id@, 0) == hs.len(),
                hs == self.http_ids(),
                position(gs, id@, 0) == position(gs, id@, i as int),
            decreases self.grpc_requests.len() - i,
        {
            if str_equal(self.grpc_requests[i].id.as_str(), id) {
                return Ok(AnyRequest::GrpcRequest(self.grpc_requests[i].clone()));
            }
            i += 1;
        }
        let ghost ws = self.websocket_ids();
        let mut i: usize = 0;
        while i < self.websocket_requests.len()
            invariant
                i <= self.websocket_requests.len(),
                ws == self.websocket_ids(),
                hs == self.http_ids(),
                gs == self.grpc_ids(),
                position(hs, id@, 0) == hs.len(),
                position(gs, id@, 0) == gs.len(),
                position(ws, id@, 0) == position(ws, id@, i as int),
            decreases self.websocket_requests.len() - i,
        {
            if str_equal(self.websocket_requests[i].id.as_str(), id) {
                return Ok(AnyRequest::WebsocketRequest(self.websocket_requests[i].clone()));
            }
            i += 1;
        }
        Err(ModelError::ModelNotFound(String::from_str(id)))
    }

    /// The environment of the folder `folder_id` that was updated last, if the
    /// folder has one.
    pub fn get_environment_by_folder_id(&self, folder_id: &str) -> (r: Result<
        Option<Environment>,
        ModelError,
    >)
        ensures
            r is Ok,
            ({
                let p = newest_of_folder(self.envs(), folder_id@, self.envs().len() as int);
                match r->Ok_0 {
                    Some(e) => 0 <= p < self.envs().len() && e@ == self.envs()[p],
                    None => p == -1,
                }
            }),
    {
        let ghost envs = self.envs();
        let mut best: Option<usize> = None;
        let mut i: usize = 0;
        while i < self.environments.len()
            invariant
                i <= self.environments.len(),
                envs == self.envs(),
                envs.len() == self.environments.len(),
                match best {
                    Some(b) => b < i && newest_of_folder(envs, folder_id@, i as int) == b,
                    None => newest_of_folder(envs, folder_id@, i as int) == -1,
                },
            decreases self.environments.len() - i,
        {
            let e = &self.environments[i];
            assert(envs[i as int] == e@);
            let in_folder = match &e.parent_id {
                Some(parent) => str_equal(parent.as_str(), folder_id),
                None => false,
            };
            if in_folder {
                match best {
                    None => {
                        best = Some(i);
                    },
                    Some(b) => {
                        assert(envs[b as int] == self.environments@[b as int]@);
                        if e.updated_at > self.environments[b].updated_at {
                            best = Some(i);
                        }
                    },
                }
            }
            i += 1;
        }
        match best {
            Some(b) => Ok(Some(self.environments[b].clone())),
            None => Ok(None),
        }
    }
}

/// The row stands in the way of the environment `env` of a folder: it belongs
/// to the same folder of the same workspace, and is another row.
pub open spec fn is_duplicate_of(e: EnvironmentView, env: EnvironmentView) -> bool {
    &&& e.workspace_id == env.workspace_id
    &&& e.id != env.id
    &&& e.parent_model == folder_word()
    &&& e.parent_id == env.parent_id
}

/// Those of the first `n` environments that stand in the way of `env`, in order.
pub open spec fn duplicates_of(envs: Seq<EnvironmentView>, env: EnvironmentView, n: int) -> Seq<
    EnvironmentView,
>
    decreases n,
{
    if n <= 0 {
        Seq::empty()
    } else if is_duplicate_of(envs[n - 1], env) {
        duplicates_of(envs, env, n - 1).push(envs[n - 1])
    } else {
        duplicates_of(envs, env, n - 1)
    }
}

/// Those of the first `n` environments that do not stand in the way of `env`, in order.
pub open spec fn without_duplicates(envs: Seq<EnvironmentView>, env: EnvironmentView, n: int) -> Seq<
    EnvironmentView,
>
    decreases n,
{
    if n <= 0 {
        Seq::empty()
    } else if is_duplicate_of(envs[n - 1], env) {
        without_duplicates(envs, env, n - 1)
    } else {
        without_duplicates(envs, env, n - 1).push(envs[n - 1])
    }
}

/// Those of the first `n` environments that do not have the id `id`, in order.
pub open spec fn without_id(envs: Seq<EnvironmentView>, id: Seq<char>, n: int) -> Seq<
    EnvironmentView,
>
    decreases n,
{
    if n <= 0 {
        Seq::empty()
    } else if envs[n - 1].id == id {
        without_id(envs, id, n - 1)
    } else {
        without_id(envs, id, n - 1).push(envs[n - 1])
    }
}

/// Those of the first `n` variables that have a name or a value, in order.
pub open spec fn cleaned(variables: Seq<EnvironmentVariableView>, n: int) -> Seq<
    EnvironmentVariableView,
>
    decreases n,
{
    if n <= 0 {
        Seq::empty()
    } else if variables[n - 1].name.len() > 0 || variables[n - 1].value.len() > 0 {
        cleaned(variables, n - 1).push(variables[n - 1])
    } else {
        cleaned(variables, n - 1)
    }
}

/// The environment belongs to a folder that it names.
pub open spec fn folder_of(env: EnvironmentView) -> Option<Seq<char>> {
    if env.parent_model == folder_word() {
        env.parent_id
    } else {
        None
    }
}

/// The environments after room was made for `env`: if it belongs to a folder,
/// its workspace has a base environment, and nothing else belongs to the folder.
pub open spec fn cleared_for(
    envs: Seq<EnvironmentView>,
    env: EnvironmentView,
    fresh: FreshView,
) -> Seq<EnvironmentView> {
    if env.parent_model == folder_word() {
        let all = ensured(envs, env.workspace_id, fresh);
        without_duplicates(all, env, all.len() as int)
    } else {
        envs
    }
}

/// The name under which `env` is stored: that of its folder and ` Environment`,
/// if it belongs to a folder; else its own. It is an error if the folder is
/// not stored.
pub open spec fn stored_name(folders: Seq<FolderView>, env: EnvironmentView) -> Result<
    Seq<char>,
    ModelErrorView,
> {
    match folder_of(env) {
        Some(folder_id) => {
            let p = position(folder_ids(folders), folder_id, 0);
            if p < folders.len() {
                Ok(folders[p].name + " Environment"@)
            } else {
                Err(ModelErrorView::ModelNotFound(folder_id))
            }
        },
        None => Ok(env.name),
    }
}

/// The row that is stored for `env` under the name `name`.
pub open spec fn upserted_row(env: EnvironmentView, name: Seq<char>, fresh: FreshView) -> EnvironmentView {
    stored_row(
        EnvironmentView {
            name,
            variables: cleaned(env.variables, env.variables.len() as int),
            ..env
        },
        fresh,
    )
}

/// The environments after `env` was stored.
pub open spec fn upserted(
    envs: Seq<EnvironmentView>,
    folders: Seq<FolderView>,
    env: EnvironmentView,
    fresh: FreshView,
) -> Seq<EnvironmentView> {
    match stored_name(folders, env) {
        Ok(name) => with_row(cleared_for(envs, env, fresh), upserted_row(env, name, fresh)),
        Err(_) => cleared_for(envs, env, fresh),
    }
}

/// The environments of the folder `folder_id` and of the folders that it lies
/// in, from the innermost out: of each folder the environment that was updated
/// last. At most `fuel` folders are walked. It is an error if a folder on the
/// way is not stored.
pub open spec fn folder_chain(
    envs: Seq<EnvironmentView>,
    folders: Seq<FolderView>,
    folder_id: Option<Seq<char>>,
    fuel: nat,
) -> Result<Seq<EnvironmentView>, ModelErrorView>
    decreases fuel,
{
    match folder_id {
        None => Ok(Seq::empty()),
        Some(id) => if fuel == 0 {
            Ok(Seq::empty())
        } else {
            let p = position(folder_ids(folders), id, 0);
            if p >= folders.len() {
                Err(ModelErrorView::ModelNotFound(id))
            } else {
                let own = newest_of_folder(envs, id, envs.len() as int);
                let first = if own >= 0 {
                    seq![envs[own]]
                } else {
                    Seq::empty()
                };
                match folder_chain(envs, folders, folders[p].folder_id, (fuel - 1) as nat) {
                    Ok(outer) => Ok(first + outer),
                    Err(e) => Err(e),
                }
            }
        },
    }
}

/// The way from the folder `folder_id` out ends within `fuel` folders: no folder
/// on it lies in itself.
pub open spec fn folder_walk_ends(
    folders: Seq<FolderView>,
    folder_id: Option<Seq<char>>,
    fuel: nat,
) -> bool
    decreases fuel,
{
    match folder_id {
        None => true,
        Some(id) => fuel > 0 && {
            let p = position(folder_ids(folders), id, 0);
            p >= folders.len() || folder_walk_ends(folders, folders[p].folder_id, (fuel - 1) as nat)
        },
    }
}

/// `first` put before the environments of `rest`.
pub open spec fn with_environments_before(
    first: Seq<EnvironmentView>,
    rest: Result<Seq<EnvironmentView>, ModelErrorView>,
) -> Result<Seq<EnvironmentView>, ModelErrorView> {
    match rest {
        Ok(more) => Ok(first + more),
        Err(e) => Err(e),
    }
}

/// The environment that the user switched on, if it is stored.
pub open spec fn active_environment(envs: Seq<EnvironmentView>, id: Option<Seq<char>>) -> Seq<
    EnvironmentView,
> {
    match id {
        Some(id) => {
            let p = position(environment_ids(envs), id, 0);
            if p < envs.len() {
                seq![envs[p]]
            } else {
                Seq::empty()
            }
        },
        None => Seq::empty(),
    }
}

/// The base environment of the workspace once it has one; an error if it has several.
pub open spec fn base_environment(
    envs: Seq<EnvironmentView>,
    workspace_id: Seq<char>,
    fresh: FreshView,
) -> Result<EnvironmentView, ModelErrorView> {
    let list = ensured_list(envs, workspace_id, fresh);
    let bases = bases_among(list, list.len() as int);
    if bases.len() > 1 {
        Err(ModelErrorView::MultipleBaseEnvironments(workspace_id))
    } else if bases.len() == 1 {
        Ok(bases[0])
    } else {
        Err(ModelErrorView::MissingBaseEnvironment(workspace_id))
    }
}

/// The chain of environments for a request in the folder `folder_id`: those of
/// the folders from the innermost out, then the environment that the user
/// switched on, then the base environment of the workspace.
pub open spec fn resolved_chain(
    envs: Seq<EnvironmentView>,
    folders: Seq<FolderView>,
    workspace_id: Seq<char>,
    folder_id: Option<Seq<char>>,
    active_id: Option<Seq<char>>,
    fresh: FreshView,
) -> Result<Seq<EnvironmentView>, ModelErrorView> {
    match folder_chain(envs, folders, folder_id, folders.len()) {
        Err(e) => Err(e),
        Ok(inner) => match base_environment(envs, workspace_id, fresh) {
            Err(e) => Err(e),
            Ok(base) => Ok(inner + active_environment(envs, active_id) + seq![base]),
        },
    }
}

/// The view of an optional text.
pub open spec fn optional_str(s: Option<&str>) -> Option<Seq<char>> {
    match s {
        Some(text) => Some(text@),
        None => None,
    }
}

/// The view of a list of environments, or of the error in its place.
pub open spec fn list_result(r: Result<Vec<Environment>, ModelError>) -> Result<
    Seq<EnvironmentView>,
    ModelErrorView,
> {
    match r {
        Ok(list) => Ok(environment_views(list@)),
        Err(e) => Err(e@),
    }
}

/// The view of an environment, or of the error in its place.
pub open spec fn environment_result(r: Result<Environment, ModelError>) -> Result<
    EnvironmentView,
    ModelErrorView,
> {
    match r {
        Ok(e) => Ok(e@),
        Err(e) => Err(e@),
    }
}

/// Those of `list` that belong to a workspace as such.
pub fn base_environments(list: &Vec<Environment>) -> (bases: Vec<Environment>)
    ensures
        environment_views(bases@) == bases_among(environment_views(list@), list.len() as int),
{
    let ghost views = environment_views(list@);
    let mut bases: Vec<Environment> = Vec::new();
    let mut i: usize = 0;
    assert(environment_views(bases@) =~= Seq::empty());
    while i < list.len()
        invariant
            i <= list.len(),
            views == environment_views(list@),
            environment_views(bases@) == bases_among(views, i as int),
        decreases list.len() - i,
    {
        let e = &list[i];
        assert(views[i as int] == e@);
        if str_equal(e.parent_model.as_str(), "workspace") {
            let copy = e.clone();
            assert(environment_views(bases@.push(copy)) =~= environment_views(bases@).push(copy@));
            bases.push(copy);
        }
        i += 1;
    }
    bases
}

/// Those of `variables` that have a name or a value.
pub fn clean_variables(variables: &Vec<EnvironmentVariable>) -> (kept: Vec<EnvironmentVariable>)
    ensures
        variable_views(kept@) == cleaned(variable_views(variables@), variables.len() as int),
{
    let ghost views = variable_views(variables@);
    let mut kept: Vec<EnvironmentVariable> = Vec::new();
    let mut i: usize = 0;
    assert(variable_views(kept@) =~= Seq::empty());
    while i < variables.len()
        invariant
            i <= variables.len(),
            views == variable_views(variables@),
            variable_views(kept@) == cleaned(views, i as int),
        decreases variables.len() - i,
    {
        let v = &variables[i];
        assert(views[i as int] == v@);
        if !v.name.as_str().is_empty() || !v.value.as_str().is_empty() {
            let copy = v.clone();
            assert(variable_views(kept@.push(copy)) =~= variable_views(kept@).push(copy@));
            kept.push(copy);
        }
        i += 1;
    }
    kept
}

impl DbContext {
    /// Everything but the environments is the same in `self` and `other`.
    pub open spec fn same_but_environments(&self, other: &DbContext) -> bool {
        &&& self.folders == other.folders
        &&& self.http_requests == other.http_requests
        &&& self.grpc_requests == other.grpc_requests
        &&& self.websocket_requests == other.websocket_requests
    }

    /// Stores the row: in the place of the first row of its id, or at the end.
    fn store(&mut self, row: Environment) -> (stored: Environment)
        ensures
            final(self).envs() == with_row(old(self).envs(), row@),
            final(self).same_but_environments(old(self)),
            stored@ == row@,
    {
        let p = self.environment_position(row.id.as_str());
        let copy = row.clone();
        let ghost before = self.envs();
        if p < self.environments.len() {
            self.environments.set(p, row);
            assert(self.envs() =~= before.update(p as int, row@));
        } else {
            self.environments.push(row);
            assert(self.envs() =~= before.push(row@));
        }
        copy
    }

    /// The environments of the workspace, in order.
    fn environments_of(&self, workspace_id: &str) -> (list: Vec<Environment>)
        ensures
            environment_views(list@) == in_workspace(
                self.envs(),
                workspace_id@,
                self.envs().len() as int,
            ),
    {
        let ghost envs = self.envs();
        let mut list: Vec<Environment> = Vec::new();
        let mut i: usize = 0;
        assert(environment_views(list@) =~= Seq::empty());
        while i < self.environments.len()
            invariant
                i <= self.environments.len(),
                envs == self.envs(),
                envs.len() == self.environments.len(),
                environment_views(list@) == in_workspace(envs, workspace_id@, i as int),
            decreases self.environments.len() - i,
        {
            let e = &self.environments[i];
            assert(envs[i as int] == e@);
            if str_equal(e.workspace_id.as_str(), workspace_id) {
                let copy = e.clone();
                assert(environment_views(list@.push(copy)) =~= environment_views(list@).push(
                    copy@,
                ));
                list.push(copy);
            }
            i += 1;
        }
        list
    }

    /// The environments of the workspace. If none of them is a base
    /// environment, one is made and stored first, and stands at the end of the list.
    pub fn list_environments_ensure_base(&mut self, workspace_id: &str, fresh: &Fresh) -> (r:
        Result<Vec<Environment>, ModelError>)
        ensures
            final(self).envs() == ensured(old(self).envs(), workspace_id@, fresh@),
            final(self).same_but_environments(old(self)),
            list_result(r) == Ok::<Seq<EnvironmentView>, ModelErrorView>(
                ensured_list(old(self).envs(), workspace_id@, fresh@),
            ),
    {
        let mut environments = self.environments_of(workspace_id);
        let bases = base_environments(&environments);
        if bases.len() == 0 {
            let base = Environment {
                id: fresh.base_id.clone(),
                workspace_id: String::from_str(workspace_id),
                created_at: fresh.now,
                updated_at: fresh.now,
                name: String::from_str("Global Variables"),
                public: false,
                parent_model: String::from_str("workspace"),
                parent_id: None,
                variables: Vec::new(),
                color: None,
            };
            assert(base@.variables =~= Seq::empty());
            assert(base@ == base_row(workspace_id@, fresh@));
            let e = self.store(base);
            assert(environment_views(environments@.push(e)) =~= environment_views(
                environments@,
            ).push(e@));
            environments.push(e);
        }
        Ok(environments)
    }

    /// The base environment of the workspace; one is made and stored if the
    /// workspace has none. It is an error if the workspace has several.
    pub fn get_base_environment(&mut self, workspace_id: &str, fresh: &Fresh) -> (r: Result<
        Environment,
        ModelError,
    >)
        ensures
            final(self).envs() == ensured(old(self).envs(), workspace_id@, fresh@),
            final(self).same_but_environments(old(self)),
            environment_result(r) == base_environment(old(self).envs(), workspace_id@, fresh@),
    {
        let environments = match self.list_environments_ensure_base(workspace_id, fresh) {
            Ok(list) => list,
            Err(e) => {
                return Err(e);
            },
        };
        let base_environments = base_environments(&environments);
        if base_environments.len() > 1 {
            return Err(ModelError::MultipleBaseEnvironments(String::from_str(workspace_id)));
        }
        if base_environments.len() == 1 {
            Ok(base_environments[0].clone())
        } else {
            Err(ModelError::MissingBaseEnvironment(String::from_str(workspace_id)))
        }
    }

    /// The other environments of the folder that `environment` belongs to: none
    /// if it does not belong to a folder. If it does, it is seen to first that
    /// its workspace has a base environment.
    pub fn list_duplicate_folder_environments(&mut self, environment: &Environment, fresh: &Fresh) -> (list:
        Vec<Environment>)
        ensures
            final(self).same_but_environments(old(self)),
            final(self).envs() == (if environment@.parent_model == folder_word() {
                ensured(old(self).envs(), environment@.workspace_id, fresh@)
            } else {
                old(self).envs()
            }),
            environment_views(list@) == (if environment@.parent_model == folder_word() {
                duplicates_of(final(self).envs(), environment@, final(self).envs().len() as int)
            } else {
                Seq::empty()
            }),
    {
        let mut list: Vec<Environment> = Vec::new();
        assert(environment_views(list@) =~= Seq::empty());
        if !str_equal(environment.parent_model.as_str(), "folder") {
            return list;
        }
        let _ = self.list_environments_ensure_base(environment.workspace_id.as_str(), fresh);
        let ghost envs = self.envs();
        let mut i: usize = 0;
        while i < self.environments.len()
            invariant
                i <= self.environments.len(),
                envs == self.envs(),
                envs.len() == self.environments.len(),
                environment_views(list@) == duplicates_of(envs, environment@, i as int),
            decreases self.environments.len() - i,
        {
            let e = &self.environments[i];
            assert(envs[i as int] == e@);
            if is_duplicate(e, environment) {
                let copy = e.clone();
                assert(environment_views(list@.push(copy)) =~= environment_views(list@).push(
                    copy@,
                ));
                list.push(copy);
            }
            i += 1;
        }
        list
    }

    /// Takes away the rows that stand in the way of `environment`.
    fn remove_duplicates(&mut self, environment: &Environment)
        ensures
            final(self).same_but_environments(old(self)),
            final(self).envs() == without_duplicates(
                old(self).envs(),
                environment@,
                old(self).envs().len() as int,
            ),
    {
        let ghost envs = self.envs();
        let mut kept: Vec<Environment> = Vec::new();
        let mut i: usize = 0;
        assert(environment_views(kept@) =~= Seq::empty());
        while i < self.environments.len()
            invariant
                i <= self.environments.len(),
                envs == self.envs(),
                envs.len() == self.environments.len(),
                environment_views(kept@) == without_duplicates(envs, environment@, i as int),
            decreases self.environments.len() - i,
        {
            let e = &self.environments[i];
            assert(envs[i as int] == e@);
            if !is_duplicate(e, environment) {
                let copy = e.clone();
                assert(environment_views(kept@.push(copy)) =~= environment_views(kept@).push(
                    copy@,
                ));
                kept.push(copy);
            }
            i += 1;
        }
        self.environments = kept;
    }

    /// Takes away the rows with the id `id`.
    fn remove_id(&mut self, id: &str)
        ensures
            final(self).same_but_environments(old(self)),
            final(self).envs() == without_id(old(self).envs(), id@, old(self).envs().len() as int),
    {
        let ghost envs = self.envs();
        let mut kept: Vec<Environment> = Vec::new();
        let mut i: usize = 0;
        assert(environment_views(kept@) =~= Seq::empty());
        while i < self.environments.len()
            invariant
                i <= self.environments.len(),
                envs == self.envs(),
                envs.len() == self.environments.len(),
                environment_views(kept@) == without_id(envs, id@, i as int),
            decreases self.environments.len() - i,
        {
            let e = &self.environments[i];
            assert(envs[i as int] == e@);
            if !str_equal(e.id.as_str(), id) {
                let copy = e.clone();
                assert(environment_views(kept@.push(copy)) =~= environment_views(kept@).push(
                    copy@,
                ));
                kept.push(copy);
            }
            i += 1;
        }
        self.environments = kept;
    }

    /// Stores the environment. Variables without name and value are left out.
    /// If the environment belongs to a folder, the other environments of that
    /// folder are taken away, and it is named after the folder; it is an error
    /// if the folder is not stored. An environment without an id gets the fresh one.
    pub fn upsert_environment(&mut self, environment: &Environment, fresh: &Fresh) -> (r: Result<
        Environment,
        ModelError,
    >)
        ensures
            final(self).same_but_environments(old(self)),
            final(self).envs() == upserted(
                old(self).envs(),
                old(self).folder_rows(),
                environment@,
                fresh@,
            ),
            environment_result(r) == (match stored_name(old(self).folder_rows(), environment@) {
                Ok(name) => Ok(upserted_row(environment@, name, fresh@)),
                Err(e) => Err(e),
            }),
    {
        let cleaned_variables = clean_variables(&environment.variables);
        let in_folder = str_equal(environment.parent_model.as_str(), "folder");
        if in_folder {
            let _ = self.list_environments_ensure_base(environment.workspace_id.as_str(), fresh);
            self.remove_duplicates(environment);
        }
        let mut name = environment.name.clone();
        if in_folder {
            if let Some(folder_id) = &environment.parent_id {
                let folder = match self.get_folder(folder_id.as_str()) {
                    Ok(folder) => folder,
                    Err(e) => {
                        return Err(e);
                    },
                };
                name = folder.name;
                name.append(" Environment");
            }
        }
        let is_new = environment.id.as_str().is_empty();
        let row = Environment {
            id: if is_new {
                fresh.id.clone()
            } else {
                environment.id.clone()
            },
            workspace_id: environment.workspace_id.clone(),
            created_at: if is_new {
                fresh.now
            } else {
                environment.created_at
            },
            updated_at: fresh.now,
            name,
            public: environment.public,
            parent_model: environment.parent_model.clone(),
            parent_id: clone_optional(&environment.parent_id),
            variables: cleaned_variables,
            color: clone_optional(&environment.color),
        };
        Ok(self.store(row))
    }

    /// Takes the rows with the id of `environment` away, and sees to it that
    /// its workspace has a base environment still.
    pub fn delete_environment(&mut self, environment: &Environment, fresh: &Fresh) -> (r: Result<
        Environment,
        ModelError,
    >)
        ensures
            final(self).same_but_environments(old(self)),
            final(self).envs() == ensured(
                without_id(old(self).envs(), environment@.id, old(self).envs().len() as int),
                environment@.workspace_id,
                fresh@,
            ),
            environment_result(r) == Ok::<EnvironmentView, ModelErrorView>(environment@),
    {
        self.remove_id(environment.id.as_str());
        let _ = self.list_environments_ensure_base(environment.workspace_id.as_str(), fresh);
        Ok(environment.clone())
    }

    /// Takes the environment with the id `id` away. It is an error if there is none.
    pub fn delete_environment_by_id(&mut self, id: &str, fresh: &Fresh) -> (r: Result<
        Environment,
        ModelError,
    >)
        ensures
            final(self).same_but_environments(old(self)),
            ({
                let envs = old(self).envs();
                let p = position(environment_ids(envs), id@, 0);
                if p < envs.len() {
                    &&& environment_result(r) == Ok::<EnvironmentView, ModelErrorView>(envs[p])
                    &&& final(self).envs() == ensured(
                        without_id(envs, id@, envs.len() as int),
                        envs[p].workspace_id,
                        fresh@,
                    )
                } else {
                    &&& environment_result(r) == Err::<EnvironmentView, ModelErrorView>(
                        ModelErrorView::ModelNotFound(id@),
                    )
                    &&& final(self).envs() == envs
                }
            }),
    {
        proof {
            lemma_position(environment_ids(self.envs()), id@, 0);
        }
        let environment = match self.get_environment(id) {
            Ok(e) => e,
            Err(e) => {
                return Err(e);
            },
        };
        self.delete_environment(&environment, fresh)
    }

    /// Stores a copy of the environment as a new row, with the fresh id.
    pub fn duplicate_environment(&mut self, environment: &Environment, fresh: &Fresh) -> (r: Result<
        Environment,
        ModelError,
    >)
        ensures
            final(self).same_but_environments(old(self)),
            ({
                let copy = EnvironmentView { id: Seq::empty(), ..environment@ };
                &&& final(self).envs() == upserted(
                    old(self).envs(),
                    old(self).folder_rows(),
                    copy,
                    fresh@,
                )
                &&& environment_result(r) == (match stored_name(old(self).folder_rows(), copy) {
                    Ok(name) => Ok(upserted_row(copy, name, fresh@)),
                    Err(e) => Err(e),
                })
            }),
    {
        let mut environment = environment.clone();
        environment.id = String::new();
        self.upsert_environment(&environment, fresh)
    }

    /// The chain of environments for a request in the folder `folder_id` of the
    /// workspace: the environments of the folders from the innermost out, then
    /// the environment that the user switched on, if it is stored, then the
    /// base environment of the workspace, which is made if there is none. It is
    /// an error if a folder on the way is not stored, or if the workspace has
    /// several base environments. No folder on the way may lie in itself.
    pub fn resolve_environments(
        &mut self,
        workspace_id: &str,
        folder_id: Option<&str>,
        active_environment_id: Option<&str>,
        fresh: &Fresh,
    ) -> (r: Result<Vec<Environment>, ModelError>)
        requires
            folder_walk_ends(
                old(self).folder_rows(),
                optional_str(folder_id),
                old(self).folder_rows().len(),
            ),
        ensures
            final(self).same_but_environments(old(self)),
            list_result(r) == resolved_chain(
                old(self).envs(),
                old(self).folder_rows(),
                workspace_id@,
                optional_str(folder_id),
                optional_str(active_environment_id),
                fresh@,
            ),
            final(self).envs() == (if folder_chain(
                old(self).envs(),
                old(self).folder_rows(),
                optional_str(folder_id),
                old(self).folder_rows().len(),
            ) is Ok {
                ensured(old(self).envs(), workspace_id@, fresh@)
            } else {
                old(self).envs()
            }),
    {
        let ghost envs = self.envs();
        let ghost folders = self.folder_rows();
        let ghost start = optional_str(folder_id);
        let ghost total = folders.len();
        let mut environments: Vec<Environment> = Vec::new();
        let mut current: Option<String> = match folder_id {
            Some(id) => Some(String::from_str(id)),
            None => None,
        };
        let mut fuel: usize = self.folders.len();
        assert(environment_views(environments@) =~= Seq::empty());
        assert(folder_chain(envs, folders, start, total) == with_environments_before(
            Seq::empty(),
            folder_chain(envs, folders, start, total),
        )) by {
            match folder_chain(envs, folders, start, total) {
                Ok(more) => {
                    assert(Seq::<EnvironmentView>::empty() + more =~= more);
                },
                Err(_) => {},
            }
        }
        while current.is_some() && fuel > 0
            invariant
                envs == self.envs(),
                folders == self.folder_rows(),
                *self == *old(self),
                start == optional_str(folder_id),
                total == folders.len(),
                folder_walk_ends(folders, optional_text(current), fuel as nat),
                folder_chain(envs, folders, start, total) == with_environments_before(
                    environment_views(environments@),
                    folder_chain(envs, folders, optional_text(current), fuel as nat),
                ),
            decreases fuel,
        {
            let id = current.unwrap();
            let ghost found = environment_views(environments@);
            let ghost here = folder_chain(envs, folders, Some(id@), fuel as nat);
            let folder = match self.get_folder(id.as_str()) {
                Ok(folder) => folder,
                Err(e) => {
                    assert(here == Err::<Seq<EnvironmentView>, ModelErrorView>(e@));
                    return Err(e);
                },
            };
            proof {
                lemma_newest_of_folder(envs, id@, envs.len() as int);
            }
            let ghost own_index = newest_of_folder(envs, id@, envs.len() as int);
            let ghost first = if own_index >= 0 {
                seq![envs[own_index]]
            } else {
                Seq::<EnvironmentView>::empty()
            };
            let own = self.get_environment_by_folder_id(id.as_str());
            if let Ok(Some(e)) = own {
                assert(environment_views(environments@.push(e)) =~= found.push(e@));
                environments.push(e);
            }
            proof {
                let outer = folder_chain(envs, folders, folder@.folder_id, (fuel - 1) as nat);
                assert(environment_views(environments@) =~= found + first);
                assert(here == with_environments_before(first, outer));
                match outer {
                    Ok(more) => {
                        assert(found + (first + more) =~= (found + first) + more);
                    },
                    Err(_) => {},
                }
            }
            current = folder.folder_id;
            fuel -= 1;
        }
        let ghost inner = environment_views(environments@);
        assert(folder_chain(envs, folders, start, total) == Ok::<
            Seq<EnvironmentView>,
            ModelErrorView,
        >(inner)) by {
            assert(inner + Seq::<EnvironmentView>::empty() =~= inner);
        }
        if let Some(id) = active_environment_id {
            proof {
                lemma_position(environment_ids(envs), id@, 0);
            }
            if let Ok(e) = self.get_environment(id) {
                assert(environment_views(environments@.push(e)) =~= inner.push(e@));
                environments.push(e);
            }
        }
        let ghost with_active = environment_views(environments@);
        assert(with_active =~= inner + active_environment(envs, optional_str(active_environment_id)));
        let base = match self.get_base_environment(workspace_id, fresh) {
            Ok(base) => base,
            Err(e) => {
                return Err(e);
            },
        };
        assert(environment_views(environments@.push(base)) =~= with_active + seq![base@]);
        environments.push(base);
        Ok(environments)
    }
}

/// Whether the row `e` stands in the way of the environment `env` of a folder.
pub fn is_duplicate(e: &Environment, env: &Environment) -> (b: bool)
    ensures
        b == is_duplicate_of(e@, env@),
{
    let same_parent = match (&e.parent_id, &env.parent_id) {
        (Some(a), Some(b)) => *a == *b,
        (None, None) => true,
        _ => false,
    };
    e.workspace_id == env.workspace_id && e.id != env.id && str_equal(
        e.parent_model.as_str(),
        "folder",
    ) && same_parent
}

/// Once it was seen to that a workspace has a base environment, it is never
/// missing: the error `MissingBaseEnvironment` does not come.
pub proof fn lemma_base_is_never_missing(
    envs: Seq<EnvironmentView>,
    workspace_id: Seq<char>,
    fresh: FreshView,
)
    ensures
        base_environment(envs, workspace_id, fresh) != Err::<EnvironmentView, ModelErrorView>(
            ModelErrorView::MissingBaseEnvironment(workspace_id),
        ),
{
    let own = in_workspace(envs, workspace_id, envs.len() as int);
    let list = ensured_list(envs, workspace_id, fresh);
    if bases_of(envs, workspace_id).len() == 0 {
        assert(list == own.push(base_row(workspace_id, fresh)));
        assert(bases_among(list, list.len() as int) == bases_among(list, list.len() - 1).push(
            list[list.len() - 1],
        ));
    }
}

} // verus!
