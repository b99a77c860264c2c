//! Identity-service data: the account's projects.

use vstd::prelude::*;

verus! {

#[derive(Debug)]
pub struct ProjectsResponse {
    pub projects: Vec<Project>,
}

/// One project of the account; region scoping selects among these.
#[derive(Debug)]
pub struct Project {
    pub id: String,
    pub name: String,
    pub enabled: bool,
}

/// The mathematical image of a project.
pub struct ProjectView {
    pub id: Seq<char>,
    pub name: Seq<char>,
    pub enabled: bool,
}

impl View for Project {
    type V = ProjectView;

    open spec fn view(&self) -> ProjectView {
        ProjectView { id: self.id@, name: self.name@, enabled: self.enabled }
    }
}

} // verus!
