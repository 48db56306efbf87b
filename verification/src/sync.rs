//! The records that are synced with files, and what is decided about a file
//! before and after it is parsed.
use vstd::prelude::*;
use sha1::Digest;
use crate::models::{
    Environment, EnvironmentView, Folder, FolderView, GrpcRequest, GrpcRequestView, HttpRequest,
    HttpRequestView, WebsocketRequest, WebsocketRequestView, Workspace, WorkspaceView,
};
use crate::text::{chars_of, str_equal, string_from_utf8};
use crate::xml_tokens::{starts_with, starts_with_at};

verus! {

/// A record that is synced with a file.
#[derive(Debug, PartialEq, Eq)]
pub enum SyncModel {
    Workspace(Workspace),
    Environment(Environment),
    Folder(Folder),
    HttpRequest(HttpRequest),
    GrpcRequest(GrpcRequest),
    WebsocketRequest(WebsocketRequest),
}

/// A `SyncModel` as a mathematical value.
pub enum SyncModelView {
    Workspace(WorkspaceView),
    Environment(EnvironmentView),
    Folder(FolderView),
    HttpRequest(HttpRequestView),
    GrpcRequest(GrpcRequestView),
    WebsocketRequest(WebsocketRequestView),
}

impl View for SyncModel {
    type V = SyncModelView;

    open spec fn view(&self) -> SyncModelView {
        match self {
            SyncModel::Workspace(m) => SyncModelView::Workspace(m@),
            SyncModel::Environment(m) => SyncModelView::Environment(m@),
            SyncModel::Folder(m) => SyncModelView::Folder(m@),
            SyncModel::HttpRequest(m) => SyncModelView::HttpRequest(m@),
            SyncModel::GrpcRequest(m) => SyncModelView::GrpcRequest(m@),
            SyncModel::WebsocketRequest(m) => SyncModelView::WebsocketRequest(m@),
        }
    }
}

impl SyncModelView {
    /// The id of the record.
    pub open spec fn id(self) -> Seq<char> {
        match self {
            SyncModelView::Workspace(m) => m.id,
            SyncModelView::Environment(m) => m.id,
            SyncModelView::Folder(m) => m.id,
            SyncModelView::HttpRequest(m) => m.id,
            SyncModelView::GrpcRequest(m) => m.id,
            SyncModelView::WebsocketRequest(m) => m.id,
        }
    }

    /// The id of the workspace that the record belongs to; of a workspace, its own id.
    pub open spec fn workspace_id(self) -> Seq<char> {
        match self {
            SyncModelView::Workspace(m) => m.id,
            SyncModelView::Environment(m) => m.workspace_id,
            SyncModelView::Folder(m) => m.workspace_id,
            SyncModelView::HttpRequest(m) => m.workspace_id,
            SyncModelView::GrpcRequest(m) => m.workspace_id,
            SyncModelView::WebsocketRequest(m) => m.workspace_id,
        }
    }

    /// The time at which the record was last changed.
    pub open spec fn updated_at(self) -> i64 {
        match self {
            SyncModelView::Workspace(m) => m.updated_at,
            SyncModelView::Environment(m) => m.updated_at,
            SyncModelView::Folder(m) => m.updated_at,
            SyncModelView::HttpRequest(m) => m.updated_at,
            SyncModelView::GrpcRequest(m) => m.updated_at,
            SyncModelView::WebsocketRequest(m) => m.updated_at,
        }
    }
}

/// A record of any kind: one that is synced, or another, of which only the
/// name of its kind counts here.
#[derive(Debug, PartialEq, Eq)]
pub enum AnyModel {
    Workspace(Workspace),
    Environment(Environment),
    Folder(Folder),
    HttpRequest(HttpRequest),
    GrpcRequest(GrpcRequest),
    WebsocketRequest(WebsocketRequest),
    Other { model: String },
}

/// Why a record is not synced.
#[derive(Debug, PartialEq, Eq)]
pub enum SyncError {
    /// Records of this kind are not synced.
    UnknownModel(String),
}

impl SyncModel {
    /// The id of the record.
    pub fn id(&self) -> (id: String)
        ensures
            id@ == self@.id(),
    {
        match self {
            SyncModel::Workspace(m) => m.id.clone(),
            SyncModel::Environment(m) => m.id.clone(),
            SyncModel::Folder(m) => m.id.clone(),
            SyncModel::HttpRequest(m) => m.id.clone(),
            SyncModel::GrpcRequest(m) => m.id.clone(),
            SyncModel::WebsocketRequest(m) => m.id.clone(),
        }
    }

    /// The id of the workspace that the record belongs to; of a workspace, its own id.
    pub fn workspace_id(&self) -> (id: String)
        ensures
            id@ == self@.workspace_id(),
    {
        match self {
            SyncModel::Workspace(m) => m.id.clone(),
            SyncModel::Environment(m) => m.workspace_id.clone(),
            SyncModel::Folder(m) => m.workspace_id.clone(),
            SyncModel::HttpRequest(m) => m.workspace_id.clone(),
            SyncModel::GrpcRequest(m) => m.workspace_id.clone(),
            SyncModel::WebsocketRequest(m) => m.workspace_id.clone(),
        }
    }

    /// The time at which the record was last changed, in milliseconds since the epoch.
    pub fn updated_at(&self) -> (time: i64)
        ensures
            time == self@.updated_at(),
    {
        match self {
            SyncModel::Workspace(m) => m.updated_at,
            SyncModel::Environment(m) => m.updated_at,
            SyncModel::Folder(m) => m.updated_at,
            SyncModel::HttpRequest(m) => m.updated_at,
            SyncModel::GrpcRequest(m) => m.updated_at,
            SyncModel::WebsocketRequest(m) => m.updated_at,
        }
    }

    /// The record as one that is synced; a record of another kind is refused
    /// with the name of its kind.
    pub fn try_from(value: AnyModel) -> (r: Result<SyncModel, SyncError>)
        ensures
            match value {
                AnyModel::Workspace(m) => r matches Ok(s) && s@ == SyncModelView::Workspace(m@),
                AnyModel::Environment(m) => r matches Ok(s) && s@ == SyncModelView::Environment(
                    m@,
                ),
                AnyModel::Folder(m) => r matches Ok(s) && s@ == SyncModelView::Folder(m@),
                AnyModel::HttpRequest(m) => r matches Ok(s) && s@ == SyncModelView::HttpRequest(
                    m@,
                ),
                AnyModel::GrpcRequest(m) => r matches Ok(s) && s@ == SyncModelView::GrpcRequest(
                    m@,
                ),
                AnyModel::WebsocketRequest(m) => r matches Ok(s) && s@
                    == SyncModelView::WebsocketRequest(m@),
                AnyModel::Other { model } => r matches Err(SyncError::UnknownModel(name)) && name@
                    == model@,
            },
    {
        match value {
            AnyModel::Workspace(m) => Ok(SyncModel::Workspace(m)),
            AnyModel::Environment(m) => Ok(SyncModel::Environment(m)),
            AnyModel::Folder(m) => Ok(SyncModel::Folder(m)),
            AnyModel::HttpRequest(m) => Ok(SyncModel::HttpRequest(m)),
            AnyModel::GrpcRequest(m) => Ok(SyncModel::GrpcRequest(m)),
            AnyModel::WebsocketRequest(m) => Ok(SyncModel::WebsocketRequest(m)),
            AnyModel::Other { model } => Err(SyncError::UnknownModel(model)),
        }
    }
}

/// The kinds of record that are synced.
#[derive(Debug, Clone, Copy, PartialEq, Eq, Structural)]
pub enum SyncModelKind {
    Workspace,
    Environment,
    Folder,
    HttpRequest,
    GrpcRequest,
    WebsocketRequest,
}

/// The kind that the field `model` of a file names.
pub open spec fn kind_named(model: Seq<char>) -> Option<SyncModelKind> {
    if model == "workspace"@ {
        Some(SyncModelKind::Workspace)
    } else if model == "environment"@ {
        Some(SyncModelKind::Environment)
    } else if model == "folder"@ {
        Some(SyncModelKind::Folder)
    } else if model == "http_request"@ {
        Some(SyncModelKind::HttpRequest)
    } else if model == "grpc_request"@ {
        Some(SyncModelKind::GrpcRequest)
    } else if model == "websocket_request"@ {
        Some(SyncModelKind::WebsocketRequest)
    } else {
        None
    }
}

/// Says which kind of record a file holds, by its field `model`; `None` for a
/// kind that is not synced.
pub fn sync_model_kind(model: &str) -> (kind: Option<SyncModelKind>)
    ensures
        kind == kind_named(model@),
{
    if str_equal(model, "workspace") {
        Some(SyncModelKind::Workspace)
    } else if str_equal(model, "environment") {
        Some(SyncModelKind::Environment)
    } else if str_equal(model, "folder") {
        Some(SyncModelKind::Folder)
    } else if str_equal(model, "http_request") {
        Some(SyncModelKind::HttpRequest)
    } else if str_equal(model, "grpc_request") {
        Some(SyncModelKind::GrpcRequest)
    } else if str_equal(model, "websocket_request") {
        Some(SyncModelKind::WebsocketRequest)
    } else {
        None
    }
}

/// The parent that an environment of the old form is given: one stored with
/// the flag `base` and without a parent belongs to the workspace if the flag
/// is set, and is a sub-environment if not. `None` where nothing is to be changed.
pub open spec fn migrated_parent_of(base: Option<bool>, has_parent_model: bool) -> Option<
    Seq<char>,
> {
    match base {
        Some(true) if !has_parent_model => Some("workspace"@),
        Some(false) if !has_parent_model => Some("environment"@),
        _ => None,
    }
}

/// Says which parent an environment of the old form is given; `base` is its
/// flag of that name, if it has one that is a boolean.
pub fn migrated_parent_model(base: Option<bool>, has_parent_model: bool) -> (parent: Option<
    &'static str,
>)
    ensures
        match parent {
            Some(p) => migrated_parent_of(base, has_parent_model) == Some(p@),
            None => migrated_parent_of(base, has_parent_model) is None,
        },
{
    if has_parent_model {
        return None;
    }
    match base {
        Some(true) => Some("workspace"),
        Some(false) => Some("environment"),
        None => None,
    }
}

/// The SHA-1 digest of `content`, as the crate `sha1` computes it.
pub uninterp spec fn sha1_of(content: Seq<u8>) -> Seq<u8>;

/// Feeds `content` to a `Sha1` hasher of the crate `sha1` and returns the digest.
#[verifier::external_body]
fn sha1_digest(content: &Vec<u8>) -> (digest: Vec<u8>)
    ensures
        digest@ == sha1_of(content@),
{
    let mut hasher = sha1::Sha1::new();
    hasher.update(content);
    hasher.finalize().to_vec()
}

/// The hexadecimal digit for a number below 16, in lower case.
pub open spec fn hex_digit(n: u8) -> char {
    if n < 10 {
        (0x30 + n) as char
    } else {
        (0x61 + n - 10) as char
    }
}

/// `bytes` in hexadecimal: two digits for each byte, the high half first.
pub open spec fn hex_of(bytes: Seq<u8>) -> Seq<char> {
    Seq::new(
        2 * bytes.len(),
        |i: int|
            if i % 2 == 0 {
                hex_digit(bytes[i / 2] / 16)
            } else {
                hex_digit(bytes[i / 2] % 16)
            },
    )
}

/// Calls `hex::encode`, which writes each byte as two digits of
/// `0123456789abcdef`, the high half first.
#[verifier::external_body]
fn hex_encode(bytes: &Vec<u8>) -> (text: String)
    ensures
        text@ == hex_of(bytes@),
{
    hex::encode(bytes)
}

/// The checksum of the content of a file: its SHA-1 digest in hexadecimal.
pub fn checksum(content: &Vec<u8>) -> (sum: String)
    ensures
        sum@ == hex_of(sha1_of(content@)),
        sum@.len() == 2 * sha1_of(content@).len(),
{
    let digest = sha1_digest(content);
    hex_encode(&digest)
}

/// The form in which a file holds a record.
#[derive(Debug, Clone, Copy, PartialEq, Eq, Structural)]
pub enum SyncFormat {
    Yaml,
    Json,
}

/// `pat` occurs in `s`.
pub open spec fn contains_text(s: Seq<char>, pat: Seq<char>) -> bool {
    exists|i: int| #[trigger] starts_with_at(s, i, pat)
}

/// Whether `pat` occurs in `chars`.
pub fn contains_pattern(chars: &Vec<char>, pat: &[char]) -> (b: bool)
    ensures
        b == contains_text(chars@, pat@),
{
    let mut i: usize = 0;
    while i < chars.len()
        invariant
            i <= chars.len(),
            forall|j: int| 0 <= j < i ==> !starts_with_at(chars@, j, pat@),
        decreases chars.len() - i,
    {
        if starts_with(chars, i, pat) {
            return true;
        }
        i += 1;
    }
    starts_with(chars, i, pat)
}

/// The text that the bytes of a file hold; the empty text where they are not UTF-8.
pub open spec fn file_text(content: Seq<u8>) -> Seq<char> {
    if vstd::utf8::valid_utf8(content) {
        vstd::utf8::decode_utf8(content)
    } else {
        Seq::empty()
    }
}

/// The form that the extension of a file's name stands for, when it is read.
pub open spec fn format_read(extension: Seq<char>) -> Option<SyncFormat> {
    if extension == "yml"@ || extension == "yaml"@ {
        Some(SyncFormat::Yaml)
    } else if extension == "json"@ {
        Some(SyncFormat::Json)
    } else {
        None
    }
}

/// The form in which a file is to be parsed; `None` where it cannot hold a record.
pub open spec fn model_file_format(content: Seq<u8>, extension: Seq<char>) -> Option<SyncFormat> {
    if !contains_text(file_text(content), seq!['m', 'o', 'd', 'e', 'l']) || !contains_text(
        file_text(content),
        seq!['i', 'd'],
    ) {
        None
    } else {
        format_read(extension)
    }
}

/// Says in which form a file is to be parsed, from its content and the
/// extension of its name. A file that holds a record has the words `model` and
/// `id` in it; one that lacks either, or is not UTF-8, or has another extension
/// than `yml`, `yaml` or `json`, is passed over.
pub fn sniff_model_file(content: &Vec<u8>, extension: &str) -> (format: Option<SyncFormat>)
    ensures
        format == model_file_format(content@, extension@),
{
    let text = match string_from_utf8(content.clone()) {
        Ok(text) => text,
        Err(_) => String::new(),
    };
    let chars = chars_of(text.as_str());
    let model = ['m', 'o', 'd', 'e', 'l'];
    let id = ['i', 'd'];
    assert(model@ =~= seq!['m', 'o', 'd', 'e', 'l']);
    assert(id@ =~= seq!['i', 'd']);
    if !contains_pattern(&chars, &model) || !contains_pattern(&chars, &id) {
        return None;
    }
    if str_equal(extension, "yml") || str_equal(extension, "yaml") {
        Some(SyncFormat::Yaml)
    } else if str_equal(extension, "json") {
        Some(SyncFormat::Json)
    } else {
        None
    }
}

/// Says in which form a record is written to a file with this extension: YAML
/// for `yaml` and `yml`, JSON for every other.
pub fn format_written(extension: &str) -> (format: SyncFormat)
    ensures
        format == (if extension@ == "yaml"@ || extension@ == "yml"@ {
            SyncFormat::Yaml
        } else {
            SyncFormat::Json
        }),
{
    if str_equal(extension, "yaml") || str_equal(extension, "yml") {
        SyncFormat::Yaml
    } else {
        SyncFormat::Json
    }
}

} // verus!
