//! Projects: the containers of tests, runs and API keys.
use vstd::prelude::*;

verus! {

/// A project as stored and returned.
#[derive(Debug, Clone)]
pub struct Project {
    pub id: String,
    pub user_id: String,
    pub name: String,
    pub description: Option<String>,
    pub base_url: Option<String>,
    pub created_at: String,
}

/// A request to create a project.
#[derive(Debug, Clone)]
pub struct CreateProject {
    pub name: String,
    pub description: Option<String>,
    pub base_url: Option<String>,
}

/// A request to change a project; an absent field keeps its value.
#[derive(Debug, Clone)]
pub struct UpdateProject {
    pub name: Option<String>,
    pub description: Option<String>,
    pub base_url: Option<String>,
}

/// The editable fields of a project, as an update writes them.
#[derive(Debug, Clone)]
pub struct ProjectFields {
    pub name: String,
    pub description: Option<String>,
    pub base_url: Option<String>,
}

/// The fields a project has after an update: each field the update gives
/// replaces the stored one, the others stay.
pub fn update_fields(existing: Project, body: UpdateProject) -> (r: ProjectFields)
    ensures
        r.name == match body.name {
            Some(n) => n,
            None => existing.name,
        },
        r.description == match body.description {
            Some(d) => Some(d),
            None => existing.description,
        },
        r.base_url == match body.base_url {
            Some(u) => Some(u),
            None => existing.base_url,
        },
{
    let name = match body.name {
        Some(n) => n,
        None => existing.name,
    };
    let description = match body.description {
        Some(d) => Some(d),
        None => existing.description,
    };
    let base_url = match body.base_url {
        Some(u) => Some(u),
        None => existing.base_url,
    };
    ProjectFields { name, description, base_url }
}

} // verus!
