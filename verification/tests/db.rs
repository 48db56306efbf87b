use yaak::db::{base_environments, clean_variables, is_duplicate, AnyRequest, DbContext, Fresh, ModelError};
use yaak::models::{
    Environment, EnvironmentVariable, Folder, GrpcRequest, HttpRequest, WebsocketRequest,
};
use yaak::render::render_template;
use yaak::renderer::{RenderErrorBehavior, RenderOptions, TemplateCallback};
use yaak::variables::TextMap;

fn variable(name: &str, value: &str) -> EnvironmentVariable {
    EnvironmentVariable { enabled: true, name: name.to_string(), value: value.to_string(), id: None }
}

fn environment(id: &str, parent_model: &str, parent_id: Option<&str>, updated_at: i64) -> Environment {
    Environment {
        id: id.to_string(),
        workspace_id: "wk_1".to_string(),
        created_at: 1,
        updated_at,
        name: format!("name of {}", id),
        public: false,
        parent_model: parent_model.to_string(),
        parent_id: parent_id.map(|s| s.to_string()),
        variables: vec![variable("from", id)],
        color: None,
    }
}

fn folder(id: &str, folder_id: Option<&str>) -> Folder {
    Folder {
        id: id.to_string(),
        workspace_id: "wk_1".to_string(),
        updated_at: 1,
        folder_id: folder_id.map(|s| s.to_string()),
        name: format!("Folder {}", id),
    }
}

fn fresh() -> Fresh {
    Fresh { id: "ev_new".to_string(), base_id: "ev_base_new".to_string(), now: 1000 }
}

fn db() -> DbContext {
    let mut db = DbContext::new();
    db.folders = vec![folder("fl_outer", None), folder("fl_inner", Some("fl_outer")), folder("fl_lost", Some("fl_gone"))];
    db.environments = vec![
        environment("ev_base", "workspace", None, 5),
        environment("ev_sub", "environment", Some("ev_base"), 5),
        environment("ev_outer", "folder", Some("fl_outer"), 5),
        environment("ev_inner_old", "folder", Some("fl_inner"), 5),
        environment("ev_inner_new", "folder", Some("fl_inner"), 9),
        environment("ev_inner_tie", "folder", Some("fl_inner"), 9),
    ];
    db
}

fn ids(list: &[Environment]) -> Vec<&str> {
    list.iter().map(|e| e.id.as_str()).collect()
}

fn http(id: &str) -> HttpRequest {
    HttpRequest {
        id: id.to_string(),
        workspace_id: "wk_1".to_string(),
        folder_id: None,
        updated_at: 0,
        name: String::new(),
        method: "GET".to_string(),
        url: String::new(),
        url_parameters: vec![],
        headers: vec![],
        body: vec![],
        body_type: None,
        authentication: vec![],
        authentication_type: None,
    }
}

fn grpc(id: &str) -> GrpcRequest {
    GrpcRequest {
        id: id.to_string(),
        workspace_id: "wk_1".to_string(),
        folder_id: None,
        updated_at: 0,
        name: String::new(),
        service: None,
        method: None,
        message: String::new(),
        url: String::new(),
        metadata: vec![],
        authentication: vec![],
        authentication_type: None,
    }
}

fn websocket(id: &str) -> WebsocketRequest {
    WebsocketRequest {
        id: id.to_string(),
        workspace_id: "wk_1".to_string(),
        folder_id: None,
        updated_at: 0,
        name: String::new(),
        message: String::new(),
        url: String::new(),
        headers: vec![],
        authentication: vec![],
        authentication_type: None,
    }
}

#[test]
fn gets_rows_by_id() {
    let db = db();
    assert_eq!(db.get_environment("ev_sub"), Ok(environment("ev_sub", "environment", Some("ev_base"), 5)));
    assert_eq!(db.get_environment("nope"), Err(ModelError::ModelNotFound("nope".to_string())));
    assert_eq!(db.get_folder("fl_inner"), Ok(folder("fl_inner", Some("fl_outer"))));
    assert_eq!(db.get_folder("ev_sub"), Err(ModelError::ModelNotFound("ev_sub".to_string())));
}

#[test]
fn gets_a_request_of_any_kind() {
    let mut db = DbContext::new();
    db.http_requests = vec![http("a"), http("both")];
    db.grpc_requests = vec![grpc("b"), grpc("both")];
    db.websocket_requests = vec![websocket("c"), websocket("both")];
    assert_eq!(db.get_any_request("a"), Ok(AnyRequest::HttpRequest(http("a"))));
    assert_eq!(db.get_any_request("b"), Ok(AnyRequest::GrpcRequest(grpc("b"))));
    assert_eq!(db.get_any_request("c"), Ok(AnyRequest::WebsocketRequest(websocket("c"))));
    assert_eq!(db.get_any_request("both"), Ok(AnyRequest::HttpRequest(http("both"))));
    assert_eq!(db.get_any_request("d"), Err(ModelError::ModelNotFound("d".to_string())));
}

#[test]
fn environment_of_a_folder_is_the_one_updated_last() {
    let db = db();
    assert_eq!(db.get_environment_by_folder_id("fl_inner").unwrap().unwrap().id, "ev_inner_new");
    assert_eq!(db.get_environment_by_folder_id("fl_outer").unwrap().unwrap().id, "ev_outer");
    assert_eq!(db.get_environment_by_folder_id("fl_lost"), Ok(None));
    assert_eq!(db.get_environment_by_folder_id("ev_base").unwrap().unwrap().id, "ev_sub");
}

#[test]
fn base_environment_is_made_where_there_is_none() {
    let mut db = DbContext::new();
    let list = db.list_environments_ensure_base("wk_2", &fresh()).unwrap();
    let base = Environment {
        id: "ev_base_new".to_string(),
        workspace_id: "wk_2".to_string(),
        created_at: 1000,
        updated_at: 1000,
        name: "Global Variables".to_string(),
        public: false,
        parent_model: "workspace".to_string(),
        parent_id: None,
        variables: vec![],
        color: None,
    };
    assert_eq!(list, vec![base.clone()]);
    assert_eq!(db.environments, vec![base.clone()]);
    let again = db.list_environments_ensure_base("wk_2", &fresh()).unwrap();
    assert_eq!(again, vec![base.clone()]);
    assert_eq!(db.environments.len(), 1);
    assert_eq!(db.get_base_environment("wk_2", &fresh()), Ok(base));
}

#[test]
fn base_environment_of_a_workspace() {
    let mut db = db();
    assert_eq!(db.get_base_environment("wk_1", &fresh()).unwrap().id, "ev_base");
    assert_eq!(db.environments.len(), 6);
    db.environments.push(environment("ev_base_2", "workspace", None, 1));
    assert_eq!(
        db.get_base_environment("wk_1", &fresh()),
        Err(ModelError::MultipleBaseEnvironments("wk_1".to_string()))
    );
    assert_eq!(ids(&base_environments(&db.environments)), vec!["ev_base", "ev_base_2"]);
}

#[test]
fn resolves_the_chain_from_the_innermost_folder_out() {
    let mut db = db();
    let chain = db.resolve_environments("wk_1", Some("fl_inner"), Some("ev_sub"), &fresh()).unwrap();
    assert_eq!(ids(&chain), vec!["ev_inner_new", "ev_outer", "ev_sub", "ev_base"]);
    let chain = db.resolve_environments("wk_1", Some("fl_outer"), None, &fresh()).unwrap();
    assert_eq!(ids(&chain), vec!["ev_outer", "ev_base"]);
    let chain = db.resolve_environments("wk_1", None, Some("nope"), &fresh()).unwrap();
    assert_eq!(ids(&chain), vec!["ev_base"]);
    assert_eq!(db.environments.len(), 6);
}

#[test]
fn resolving_fails_where_a_folder_is_missing() {
    let mut db = db();
    assert_eq!(
        db.resolve_environments("wk_1", Some("fl_lost"), None, &fresh()),
        Err(ModelError::ModelNotFound("fl_gone".to_string()))
    );
    assert_eq!(
        db.resolve_environments("wk_1", Some("nope"), None, &fresh()),
        Err(ModelError::ModelNotFound("nope".to_string()))
    );
    assert_eq!(db.environments.len(), 6);
    db.environments.remove(0);
    let chain = db.resolve_environments("wk_1", Some("fl_outer"), None, &fresh()).unwrap();
    assert_eq!(ids(&chain), vec!["ev_outer", "ev_base_new"]);
    assert_eq!(db.environments.len(), 6);
}

struct NoFunctions;

impl TemplateCallback for NoFunctions {
    fn run(&self, _fn_name: &str, _args: TextMap) -> Result<String, yaak::error::Error> {
        Ok(String::new())
    }

    fn transform_arg(&self, _f: &str, _a: &str, value: &str) -> Result<String, yaak::error::Error> {
        Ok(value.to_string())
    }
}

#[test]
fn resolved_chain_gives_the_innermost_value() {
    let mut db = db();
    let chain = db.resolve_environments("wk_1", Some("fl_inner"), Some("ev_sub"), &fresh()).unwrap();
    let opt = RenderOptions { error_behavior: RenderErrorBehavior::Throw };
    assert_eq!(render_template("${[ from ]}", chain, &NoFunctions, &opt), Ok("ev_inner_new".to_string()));
}

#[test]
fn upsert_of_a_folder_environment_clears_the_folder() {
    let mut db = db();
    let mut env = environment("", "folder", Some("fl_inner"), 0);
    env.variables = vec![variable("a", "1"), variable("", ""), variable("", "v"), variable("n", "")];
    let stored = db.upsert_environment(&env, &fresh()).unwrap();
    assert_eq!(stored.id, "ev_new");
    assert_eq!(stored.name, "Folder fl_inner Environment");
    assert_eq!(stored.created_at, 1000);
    assert_eq!(stored.updated_at, 1000);
    assert_eq!(stored.variables, vec![variable("a", "1"), variable("", "v"), variable("n", "")]);
    assert_eq!(ids(&db.environments), vec!["ev_base", "ev_sub", "ev_outer", "ev_new"]);
    assert_eq!(db.environments[3], stored);
}

#[test]
fn upsert_replaces_the_row_of_the_same_id() {
    let mut db = db();
    let mut env = environment("ev_sub", "environment", Some("ev_base"), 5);
    env.name = "renamed".to_string();
    env.created_at = 3;
    let stored = db.upsert_environment(&env, &fresh()).unwrap();
    assert_eq!(stored.id, "ev_sub");
    assert_eq!(stored.name, "renamed");
    assert_eq!(stored.created_at, 3);
    assert_eq!(stored.updated_at, 1000);
    assert_eq!(db.environments.len(), 6);
    assert_eq!(db.environments[1], stored);
    let keeps = db.upsert_environment(&environment("ev_inner_old", "folder", Some("fl_inner"), 5), &fresh()).unwrap();
    assert_eq!(keeps.name, "Folder fl_inner Environment");
    assert_eq!(ids(&db.environments), vec!["ev_base", "ev_sub", "ev_outer", "ev_inner_old"]);
}

#[test]
fn upsert_fails_where_the_folder_is_missing() {
    let mut db = db();
    db.environments.remove(0);
    let env = environment("ev_x", "folder", Some("fl_gone"), 5);
    assert_eq!(db.upsert_environment(&env, &fresh()), Err(ModelError::ModelNotFound("fl_gone".to_string())));
    assert_eq!(ids(&db.environments), vec!["ev_sub", "ev_outer", "ev_inner_old", "ev_inner_new", "ev_inner_tie", "ev_base_new"]);
    let no_parent = environment("ev_y", "folder", None, 5);
    assert_eq!(db.upsert_environment(&no_parent, &fresh()).unwrap().name, "name of ev_y");
}

#[test]
fn lists_the_duplicates_of_a_folder_environment() {
    let mut db = db();
    let env = environment("ev_inner_new", "folder", Some("fl_inner"), 9);
    assert_eq!(ids(&db.list_duplicate_folder_environments(&env, &fresh())), vec!["ev_inner_old", "ev_inner_tie"]);
    let other = environment("ev_sub", "environment", Some("fl_inner"), 9);
    assert!(db.list_duplicate_folder_environments(&other, &fresh()).is_empty());
    assert!(is_duplicate(&db.environments[3], &env));
    assert!(!is_duplicate(&db.environments[4], &env));
    assert!(!is_duplicate(&db.environments[2], &env));
    let mut elsewhere = environment("ev_z", "folder", Some("fl_inner"), 9);
    elsewhere.workspace_id = "wk_2".to_string();
    assert!(!is_duplicate(&db.environments[3], &elsewhere));
}

#[test]
fn delete_keeps_a_base_environment() {
    let mut db = db();
    let base = environment("ev_base", "workspace", None, 5);
    assert_eq!(db.delete_environment(&base, &fresh()), Ok(base));
    assert_eq!(
        ids(&db.environments),
        vec!["ev_sub", "ev_outer", "ev_inner_old", "ev_inner_new", "ev_inner_tie", "ev_base_new"]
    );
    assert_eq!(db.delete_environment_by_id("ev_outer", &fresh()).unwrap().id, "ev_outer");
    assert_eq!(db.environments.len(), 5);
    assert_eq!(
        db.delete_environment_by_id("ev_outer", &fresh()),
        Err(ModelError::ModelNotFound("ev_outer".to_string()))
    );
    assert_eq!(db.environments.len(), 5);
}

#[test]
fn duplicate_is_stored_as_a_new_row() {
    let mut db = db();
    let copy = db.duplicate_environment(&environment("ev_sub", "environment", Some("ev_base"), 5), &fresh()).unwrap();
    assert_eq!(copy.id, "ev_new");
    assert_eq!(copy.name, "name of ev_sub");
    assert_eq!(db.environments.len(), 7);
    assert_eq!(db.environments[6], copy);
    assert_eq!(db.environments[1].id, "ev_sub");
}

#[test]
fn variables_without_name_and_value_are_left_out() {
    let list = vec![variable("", ""), variable("a", ""), variable("", "b"), variable("", "")];
    assert_eq!(clean_variables(&list), vec![variable("a", ""), variable("", "b")]);
    assert_eq!(clean_variables(&vec![]), vec![]);
}
