//! Templates in the definitions of requests: text with tags in it that name
//! variables or call functions.
//!
//! - `escape`, `parser`, `tokens`: the template language, its escaping, and the
//!   parsed form that can be written out again.
//! - `variables`: the table of variables that a chain of environments gives.
//! - `renderer`, `render_json`, `render`, `transform`: rendering of tokens, of
//!   JSON values and of whole requests, and rewriting of arguments for storing.
//! - `native_template_functions`, `secure_templates`, `events`: the built-in
//!   functions `secure` and `keychain`.
//! - `xml_tokens`, `format_xml`: pretty-printing of markup that keeps template
//!   tags whole.
//! - `models`, `json`, `db`, `sync`: the stored records and the queries on them.
//! - `updates`, `notifications`, `history`, `encoding`, `cookies`, `dns`: what
//!   the application decides around them.
//! - `escape_laws`, `parser_laws`, `variables_laws`: what holds of the above.
pub mod cookies;
pub mod db;
pub mod dns;
pub mod encoding;
pub mod error;
pub mod escape;
pub mod escape_laws;
pub mod events;
pub mod format_xml;
pub mod history;
pub mod json;
pub mod models;
pub mod native_template_functions;
pub mod notifications;
pub mod parser;
pub mod parser_laws;
pub mod render;
pub mod render_json;
pub mod renderer;
pub mod secure_templates;
pub mod sync;
pub mod text;
pub mod tokens;
pub mod transform;
pub mod updates;
pub mod variables;
pub mod variables_laws;
pub mod xml_tokens;
