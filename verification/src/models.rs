//! The stored records that rendering and syncing read.
use vstd::prelude::*;
use crate::json::{clone_entries, entry_views, JsonEntry, JsonEntryView};

verus! {

/// A copy of an optional string.
pub fn clone_optional(s: &Option<String>) -> (r: Option<String>)
    ensures
        optional_text(r) == optional_text(*s),
{
    match s {
        Some(text) => Some(text.clone()),
        None => None,
    }
}

/// The characters of an optional string.
pub open spec fn optional_text(s: Option<String>) -> Option<Seq<char>> {
    match s {
        Some(text) => Some(text@),
        None => None,
    }
}

/// One variable of an environment.
#[derive(Debug, PartialEq, Eq)]
pub struct EnvironmentVariable {
    pub enabled: bool,
    pub name: String,
    pub value: String,
    pub id: Option<String>,
}

/// An `EnvironmentVariable` as a mathematical value.
pub struct EnvironmentVariableView {
    pub enabled: bool,
    pub name: Seq<char>,
    pub value: Seq<char>,
    pub id: Option<Seq<char>>,
}

impl View for EnvironmentVariable {
    type V = EnvironmentVariableView;

    open spec fn view(&self) -> EnvironmentVariableView {
        EnvironmentVariableView {
            enabled: self.enabled,
            name: self.name@,
            value: self.value@,
            id: optional_text(self.id),
        }
    }
}

impl Clone for EnvironmentVariable {
    fn clone(&self) -> (r: Self)
        ensures
            r@ == self@,
    {
        EnvironmentVariable {
            enabled: self.enabled,
            name: self.name.clone(),
            value: self.value.clone(),
            id: clone_optional(&self.id),
        }
    }
}

/// The views of the variables of `variables`, in order.
pub open spec fn variable_views(variables: Seq<EnvironmentVariable>) -> Seq<
    EnvironmentVariableView,
> {
    variables.map_values(|v: EnvironmentVariable| v@)
}

/// A copy of `variables`.
pub fn clone_variables(variables: &Vec<EnvironmentVariable>) -> (copy: Vec<EnvironmentVariable>)
    ensures
        variable_views(copy@) == variable_views(variables@),
{
    let mut copy: Vec<EnvironmentVariable> = Vec::new();
    let mut i: usize = 0;
    while i < variables.len()
        invariant
            i <= variables.len(),
            copy.len() == i,
            forall|k: int| 0 <= k < i ==> copy@[k]@ == variables@[k]@,
        decreases variables.len() - i,
    {
        copy.push(variables[i].clone());
        i += 1;
    }
    assert(variable_views(copy@) =~= variable_views(variables@));
    copy
}

/// A set of variables: that of a workspace (`parent_model` is `"workspace"`), of
/// a folder (`"folder"`), or one that the user switches on (`"environment"`).
/// Times are milliseconds since the epoch.
#[derive(Debug, PartialEq, Eq)]
pub struct Environment {
    pub id: String,
    pub workspace_id: String,
    pub created_at: i64,
    pub updated_at: i64,
    pub name: String,
    pub public: bool,
    pub parent_model: String,
    pub parent_id: Option<String>,
    pub variables: Vec<EnvironmentVariable>,
    pub color: Option<String>,
}

/// An `Environment` as a mathematical value.
pub struct EnvironmentView {
    pub id: Seq<char>,
    pub workspace_id: Seq<char>,
    pub created_at: i64,
    pub updated_at: i64,
    pub name: Seq<char>,
    pub public: bool,
    pub parent_model: Seq<char>,
    pub parent_id: Option<Seq<char>>,
    pub variables: Seq<EnvironmentVariableView>,
    pub color: Option<Seq<char>>,
}

impl View for Environment {
    type V = EnvironmentView;

    open spec fn view(&self) -> EnvironmentView {
        EnvironmentView {
            id: self.id@,
            workspace_id: self.workspace_id@,
            created_at: self.created_at,
            updated_at: self.updated_at,
            name: self.name@,
            public: self.public,
            parent_model: self.parent_model@,
            parent_id: optional_text(self.parent_id),
            variables: variable_views(self.variables@),
            color: optional_text(self.color),
        }
    }
}

impl Clone for Environment {
    fn clone(&self) -> (r: Self)
        ensures
            r@ == self@,
    {
        Environment {
            id: self.id.clone(),
            workspace_id: self.workspace_id.clone(),
            created_at: self.created_at,
            updated_at: self.updated_at,
            name: self.name.clone(),
            public: self.public,
            parent_model: self.parent_model.clone(),
            parent_id: clone_optional(&self.parent_id),
            variables: clone_variables(&self.variables),
            color: clone_optional(&self.color),
        }
    }
}

/// The views of the environments of `environments`, in order.
pub open spec fn environment_views(environments: Seq<Environment>) -> Seq<EnvironmentView> {
    environments.map_values(|e: Environment| e@)
}

/// A folder of requests; `folder_id` is the folder that it lies in.
#[derive(Debug, PartialEq, Eq)]
pub struct Folder {
    pub id: String,
    pub workspace_id: String,
    pub updated_at: i64,
    pub folder_id: Option<String>,
    pub name: String,
}

/// A `Folder` as a mathematical value.
pub struct FolderView {
    pub id: Seq<char>,
    pub workspace_id: Seq<char>,
    pub updated_at: i64,
    pub folder_id: Option<Seq<char>>,
    pub name: Seq<char>,
}

impl View for Folder {
    type V = FolderView;

    open spec fn view(&self) -> FolderView {
        FolderView {
            id: self.id@,
            workspace_id: self.workspace_id@,
            updated_at: self.updated_at,
            folder_id: optional_text(self.folder_id),
            name: self.name@,
        }
    }
}

impl Clone for Folder {
    fn clone(&self) -> (r: Self)
        ensures
            r@ == self@,
    {
        Folder {
            id: self.id.clone(),
            workspace_id: self.workspace_id.clone(),
            updated_at: self.updated_at,
            folder_id: clone_optional(&self.folder_id),
            name: self.name.clone(),
        }
    }
}

/// A workspace.
#[derive(Debug, PartialEq, Eq)]
pub struct Workspace {
    pub id: String,
    pub updated_at: i64,
    pub name: String,
}

/// A `Workspace` as a mathematical value.
pub struct WorkspaceView {
    pub id: Seq<char>,
    pub updated_at: i64,
    pub name: Seq<char>,
}

impl View for Workspace {
    type V = WorkspaceView;

    open spec fn view(&self) -> WorkspaceView {
        WorkspaceView { id: self.id@, updated_at: self.updated_at, name: self.name@ }
    }
}

impl Clone for Workspace {
    fn clone(&self) -> (r: Self)
        ensures
            r@ == self@,
    {
        Workspace { id: self.id.clone(), updated_at: self.updated_at, name: self.name.clone() }
    }
}

/// A header of a request, or an entry of a gRPC request's metadata.
#[derive(Debug, PartialEq, Eq)]
pub struct HttpRequestHeader {
    pub enabled: bool,
    pub name: String,
    pub value: String,
    pub id: Option<String>,
}

/// A parameter of a request's URL.
#[derive(Debug, PartialEq, Eq)]
pub struct HttpUrlParameter {
    pub enabled: bool,
    pub name: String,
    pub value: String,
    pub id: Option<String>,
}

/// A header or a URL parameter as a mathematical value.
pub struct PairView {
    pub enabled: bool,
    pub name: Seq<char>,
    pub value: Seq<char>,
    pub id: Option<Seq<char>>,
}

impl View for HttpRequestHeader {
    type V = PairView;

    open spec fn view(&self) -> PairView {
        PairView {
            enabled: self.enabled,
            name: self.name@,
            value: self.value@,
            id: optional_text(self.id),
        }
    }
}

impl View for HttpUrlParameter {
    type V = PairView;

    open spec fn view(&self) -> PairView {
        PairView {
            enabled: self.enabled,
            name: self.name@,
            value: self.value@,
            id: optional_text(self.id),
        }
    }
}

impl Clone for HttpRequestHeader {
    fn clone(&self) -> (r: Self)
        ensures
            r@ == self@,
    {
        HttpRequestHeader {
            enabled: self.enabled,
            name: self.name.clone(),
            value: self.value.clone(),
            id: clone_optional(&self.id),
        }
    }
}

impl Clone for HttpUrlParameter {
    fn clone(&self) -> (r: Self)
        ensures
            r@ == self@,
    {
        HttpUrlParameter {
            enabled: self.enabled,
            name: self.name.clone(),
            value: self.value.clone(),
            id: clone_optional(&self.id),
        }
    }
}

/// The views of the headers of `headers`, in order.
pub open spec fn header_views(headers: Seq<HttpRequestHeader>) -> Seq<PairView> {
    headers.map_values(|h: HttpRequestHeader| h@)
}

/// The views of the parameters of `parameters`, in order.
pub open spec fn parameter_views(parameters: Seq<HttpUrlParameter>) -> Seq<PairView> {
    parameters.map_values(|p: HttpUrlParameter| p@)
}

/// An HTTP request as it is stored. `body` and `authentication` map names to
/// JSON values.
#[derive(Debug, PartialEq, Eq)]
pub struct HttpRequest {
    pub id: String,
    pub workspace_id: String,
    pub folder_id: Option<String>,
    pub updated_at: i64,
    pub name: String,
    pub method: String,
    pub url: String,
    pub url_parameters: Vec<HttpUrlParameter>,
    pub headers: Vec<HttpRequestHeader>,
    pub body: Vec<JsonEntry>,
    pub body_type: Option<String>,
    pub authentication: Vec<JsonEntry>,
    pub authentication_type: Option<String>,
}

/// An `HttpRequest` as a mathematical value.
pub struct HttpRequestView {
    pub id: Seq<char>,
    pub workspace_id: Seq<char>,
    pub folder_id: Option<Seq<char>>,
    pub updated_at: i64,
    pub name: Seq<char>,
    pub method: Seq<char>,
    pub url: Seq<char>,
    pub url_parameters: Seq<PairView>,
    pub headers: Seq<PairView>,
    pub body: Seq<JsonEntryView>,
    pub body_type: Option<Seq<char>>,
    pub authentication: Seq<JsonEntryView>,
    pub authentication_type: Option<Seq<char>>,
}

impl View for HttpRequest {
    type V = HttpRequestView;

    open spec fn view(&self) -> HttpRequestView {
        HttpRequestView {
            id: self.id@,
            workspace_id: self.workspace_id@,
            folder_id: optional_text(self.folder_id),
            updated_at: self.updated_at,
            name: self.name@,
            method: self.method@,
            url: self.url@,
            url_parameters: parameter_views(self.url_parameters@),
            headers: header_views(self.headers@),
            body: entry_views(self.body@),
            body_type: optional_text(self.body_type),
            authentication: entry_views(self.authentication@),
            authentication_type: optional_text(self.authentication_type),
        }
    }
}

/// A gRPC request as it is stored.
#[derive(Debug, PartialEq, Eq)]
pub struct GrpcRequest {
    pub id: String,
    pub workspace_id: String,
    pub folder_id: Option<String>,
    pub updated_at: i64,
    pub name: String,
    pub service: Option<String>,
    pub method: Option<String>,
    pub message: String,
    pub url: String,
    pub metadata: Vec<HttpRequestHeader>,
    pub authentication: Vec<JsonEntry>,
    pub authentication_type: Option<String>,
}

/// A `GrpcRequest` as a mathematical value.
pub struct GrpcRequestView {
    pub id: Seq<char>,
    pub workspace_id: Seq<char>,
    pub folder_id: Option<Seq<char>>,
    pub updated_at: i64,
    pub name: Seq<char>,
    pub service: Option<Seq<char>>,
    pub method: Option<Seq<char>>,
    pub message: Seq<char>,
    pub url: Seq<char>,
    pub metadata: Seq<PairView>,
    pub authentication: Seq<JsonEntryView>,
    pub authentication_type: Option<Seq<char>>,
}

impl View for GrpcRequest {
    type V = GrpcRequestView;

    open spec fn view(&self) -> GrpcRequestView {
        GrpcRequestView {
            id: self.id@,
            workspace_id: self.workspace_id@,
            folder_id: optional_text(self.folder_id),
            updated_at: self.updated_at,
            name: self.name@,
            service: optional_text(self.service),
            method: optional_text(self.method),
            message: self.message@,
            url: self.url@,
            metadata: header_views(self.metadata@),
            authentication: entry_views(self.authentication@),
            authentication_type: optional_text(self.authentication_type),
        }
    }
}

/// A WebSocket request as it is stored.
#[derive(Debug, PartialEq, Eq)]
pub struct WebsocketRequest {
    pub id: String,
    pub workspace_id: String,
    pub folder_id: Option<String>,
    pub updated_at: i64,
    pub name: String,
    pub message: String,
    pub url: String,
    pub headers: Vec<HttpRequestHeader>,
    pub authentication: Vec<JsonEntry>,
    pub authentication_type: Option<String>,
}

/// A `WebsocketRequest` as a mathematical value.
pub struct WebsocketRequestView {
    pub id: Seq<char>,
    pub workspace_id: Seq<char>,
    pub folder_id: Option<Seq<char>>,
    pub updated_at: i64,
    pub name: Seq<char>,
    pub message: Seq<char>,
    pub url: Seq<char>,
    pub headers: Seq<PairView>,
    pub authentication: Seq<JsonEntryView>,
    pub authentication_type: Option<Seq<char>>,
}

impl View for WebsocketRequest {
    type V = WebsocketRequestView;

    open spec fn view(&self) -> WebsocketRequestView {
        WebsocketRequestView {
            id: self.id@,
            workspace_id: self.workspace_id@,
            folder_id: optional_text(self.folder_id),
            updated_at: self.updated_at,
            name: self.name@,
            message: self.message@,
            url: self.url@,
            headers: header_views(self.headers@),
            authentication: entry_views(self.authentication@),
            authentication_type: optional_text(self.authentication_type),
        }
    }
}

/// A copy of `headers`.
pub fn clone_headers(headers: &Vec<HttpRequestHeader>) -> (copy: Vec<HttpRequestHeader>)
    ensures
        header_views(copy@) == header_views(headers@),
{
    let mut copy: Vec<HttpRequestHeader> = Vec::new();
    let mut i: usize = 0;
    while i < headers.len()
        invariant
            i <= headers.len(),
            copy.len() == i,
            forall|k: int| 0 <= k < i ==> copy@[k]@ == headers@[k]@,
        decreases headers.len() - i,
    {
        copy.push(headers[i].clone());
        i += 1;
    }
    assert(header_views(copy@) =~= header_views(headers@));
    copy
}

/// A copy of `parameters`.
pub fn clone_parameters(parameters: &Vec<HttpUrlParameter>) -> (copy: Vec<HttpUrlParameter>)
    ensures
        parameter_views(copy@) == parameter_views(parameters@),
{
    let mut copy: Vec<HttpUrlParameter> = Vec::new();
    let mut i: usize = 0;
    while i < parameters.len()
        invariant
            i <= parameters.len(),
            copy.len() == i,
            forall|k: int| 0 <= k < i ==> copy@[k]@ == parameters@[k]@,
        decreases parameters.len() - i,
    {
        copy.push(parameters[i].clone());
        i += 1;
    }
    assert(parameter_views(copy@) =~= parameter_views(parameters@));
    copy
}

impl Clone for HttpRequest {
    fn clone(&self) -> (r: Self)
        ensures
            r@ == self@,
    {
        HttpRequest {
            id: self.id.clone(),
            workspace_id: self.workspace_id.clone(),
            folder_id: clone_optional(&self.folder_id),
            updated_at: self.updated_at,
            name: self.name.clone(),
            method: self.method.clone(),
            url: self.url.clone(),
            url_parameters: clone_parameters(&self.url_parameters),
            headers: clone_headers(&self.headers),
            body: clone_entries(&self.body),
            body_type: clone_optional(&self.body_type),
            authentication: clone_entries(&self.authentication),
            authentication_type: clone_optional(&self.authentication_type),
        }
    }
}

impl Clone for GrpcRequest {
    fn clone(&self) -> (r: Self)
        ensures
            r@ == self@,
    {
        GrpcRequest {
            id: self.id.clone(),
            workspace_id: self.workspace_id.clone(),
            folder_id: clone_optional(&self.folder_id),
            updated_at: self.updated_at,
            name: self.name.clone(),
            service: clone_optional(&self.service),
            method: clone_optional(&self.method),
            message: self.message.clone(),
            url: self.url.clone(),
            metadata: clone_headers(&self.metadata),
            authentication: clone_entries(&self.authentication),
            authentication_type: clone_optional(&self.authentication_type),
        }
    }
}

impl Clone for WebsocketRequest {
    fn clone(&self) -> (r: Self)
        ensures
            r@ == self@,
    {
        WebsocketRequest {
            id: self.id.clone(),
            workspace_id: self.workspace_id.clone(),
            folder_id: clone_optional(&self.folder_id),
            updated_at: self.updated_at,
            name: self.name.clone(),
            message: self.message.clone(),
            url: self.url.clone(),
            headers: clone_headers(&self.headers),
            authentication: clone_entries(&self.authentication),
            authentication_type: clone_optional(&self.authentication_type),
        }
    }
}

} // verus!
