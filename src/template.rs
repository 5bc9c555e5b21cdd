use vstd::prelude::*;

verus! {

/// How a pane beyond the first of its window came out of a split.
#[derive(Clone, Copy, Debug, PartialEq, Eq, Structural)]
pub enum SplitType {
    Full,
    Horizontal,
    Vertical,
}

#[derive(Clone, Debug)]
pub struct PaneTemplate {
    pub cwd: String,
    pub split: SplitType,
}

#[derive(Clone, Debug)]
pub struct WindowTemplate {
    pub name: String,
    pub cwd: String,
    pub panes: Vec<PaneTemplate>,
}

#[derive(Clone, Debug)]
pub struct TemplateMeta {
    pub name: String,
    pub description: String,
}

#[derive(Clone, Debug)]
pub struct SessionTemplate {
    pub template: TemplateMeta,
    pub windows: Vec<WindowTemplate>,
}

/// The failures that the library itself decides.
#[derive(Clone, Debug)]
pub enum TemplateError {
    /// No template is stored under this name.
    NotFound { name: String },
    /// A template without windows cannot be replayed into this session.
    Validation { session: String },
}

impl TemplateError {
    /// A message for the user that names the template or session involved.
    pub fn message(&self) -> (r: String)
        ensures
            r@ == match self {
                TemplateError::NotFound { name } => "Template '"@ + name@ + "' not found"@,
                TemplateError::Validation { session } => "Template for session '"@ + session@
                    + "' has no windows"@,
            },
    {
        match self {
            TemplateError::NotFound { name } => {
                let mut r = String::from_str("Template '");
                r.append(name.as_str());
                r.append("' not found");
                r
            },
            TemplateError::Validation { session } => {
                let mut r = String::from_str("Template for session '");
                r.append(session.as_str());
                r.append("' has no windows");
                r
            },
        }
    }
}

} // verus!
