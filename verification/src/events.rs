//! What a template function is called in, and how a function is described.
use vstd::prelude::*;
use crate::models::optional_text;

verus! {

/// The window that a template is rendered for.
#[derive(Debug, PartialEq, Eq)]
pub enum PluginWindowContext {
    /// No window.
    NoWindow,
    /// The window `label`, which shows the workspace `workspace_id`, if any.
    Label { label: String, workspace_id: Option<String> },
}

/// A `PluginWindowContext` as a mathematical value.
pub enum PluginWindowContextView {
    NoWindow,
    Label { label: Seq<char>, workspace_id: Option<Seq<char>> },
}

impl View for PluginWindowContext {
    type V = PluginWindowContextView;

    open spec fn view(&self) -> PluginWindowContextView {
        match self {
            PluginWindowContext::NoWindow => PluginWindowContextView::NoWindow,
            PluginWindowContext::Label { label, workspace_id } => PluginWindowContextView::Label {
                label: label@,
                workspace_id: optional_text(*workspace_id),
            },
        }
    }
}

/// The workspace of the window, if the context names one.
pub open spec fn workspace_of(context: PluginWindowContextView) -> Option<Seq<char>> {
    match context {
        PluginWindowContextView::Label { workspace_id, .. } => workspace_id,
        PluginWindowContextView::NoWindow => None,
    }
}

impl PluginWindowContext {
    /// The workspace of the window, if the context names one.
    pub fn workspace_id(&self) -> (id: Option<&String>)
        ensures
            match id {
                Some(id) => workspace_of(self@) == Some(id@),
                None => workspace_of(self@) is None,
            },
    {
        match self {
            PluginWindowContext::Label { workspace_id: Some(id), .. } => Some(id),
            _ => None,
        }
    }
}

/// What every input of a form has.
#[derive(Debug, PartialEq, Eq)]
pub struct FormInputBase {
    pub name: String,
    pub optional: Option<bool>,
    pub label: Option<String>,
    pub hide_label: Option<bool>,
    pub default_value: Option<String>,
    pub disabled: Option<bool>,
    pub description: Option<String>,
}

/// An input for a text.
#[derive(Debug, PartialEq, Eq)]
pub struct FormInputText {
    pub base: FormInputBase,
    pub placeholder: Option<String>,
    pub password: Option<bool>,
    pub multi_line: Option<bool>,
}

/// An input of a form, of one of the kinds that the built-in functions use.
#[derive(Debug, PartialEq, Eq)]
pub enum FormInput {
    Text(FormInputText),
}

/// An argument of a template function.
#[derive(Debug, PartialEq, Eq)]
pub enum TemplateFunctionArg {
    FormInput(FormInput),
}

/// The description of a template function: its names and its arguments.
#[derive(Debug, PartialEq, Eq)]
pub struct TemplateFunction {
    pub name: String,
    pub description: Option<String>,
    pub aliases: Option<Vec<String>>,
    pub args: Vec<TemplateFunctionArg>,
}

/// The argument is a text input with the given name, label, description and
/// flags, and nothing else set.
pub open spec fn is_text_input(
    arg: TemplateFunctionArg,
    name: Seq<char>,
    label: Seq<char>,
    description: Option<Seq<char>>,
    multi_line: Option<bool>,
    password: Option<bool>,
) -> bool {
    arg matches TemplateFunctionArg::FormInput(FormInput::Text(input)) && {
        &&& input.base.name@ == name
        &&& optional_text(input.base.label) == Some(label)
        &&& optional_text(input.base.description) == description
        &&& input.base.optional is None
        &&& input.base.hide_label is None
        &&& input.base.default_value is None
        &&& input.base.disabled is None
        &&& input.placeholder is None
        &&& input.password == password
        &&& input.multi_line == multi_line
    }
}

/// A text input with the given name, label and description, and nothing else set.
pub fn text_input(name: &str, label: &str, description: Option<&str>) -> (input: FormInputText)
    ensures
        is_text_input(
            TemplateFunctionArg::FormInput(FormInput::Text(input)),
            name@,
            label@,
            match description {
                Some(d) => Some(d@),
                None => None,
            },
            None,
            None,
        ),
{
    FormInputText {
        base: FormInputBase {
            name: String::from_str(name),
            optional: None,
            label: Some(String::from_str(label)),
            hide_label: None,
            default_value: None,
            disabled: None,
            description: match description {
                Some(d) => Some(String::from_str(d)),
                None => None,
            },
        },
        placeholder: None,
        password: None,
        multi_line: None,
    }
}

} // verus!
