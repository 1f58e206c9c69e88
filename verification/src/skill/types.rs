//! What is known of a skill.
use vstd::prelude::*;
use vstd::string::*;

use crate::message::{copy_option_text, option_text};

verus! {

/// A skill as a catalog lists it.
#[derive(Debug, Clone, PartialEq, Eq)]
pub struct SkillSummary {
    pub id: String,
    pub name: String,
    pub description: String,
    pub parent_id: Option<String>,
    pub has_children: bool,
    pub source: String,
    pub skill_file_path: Option<String>,
    pub resource_root_path: Option<String>,
    pub pin: bool,
}

#[derive(Debug, Clone, Copy, PartialEq, Eq, Structural)]
pub enum SkillLoadDiagnosticSeverity {
    Warning,
    Error,
}

/// What went wrong, or nearly so, when a skill was loaded.
#[derive(Debug, Clone, PartialEq, Eq)]
pub struct SkillLoadDiagnostic {
    pub skill: Option<String>,
    pub path: String,
    pub severity: SkillLoadDiagnosticSeverity,
    pub message: String,
}

/// A skill with its instructions.
#[derive(Debug, Clone, PartialEq, Eq)]
pub struct SkillDocument {
    pub id: String,
    pub name: String,
    pub description: String,
    pub pin: bool,
    pub content: String,
    pub source: String,
    pub root: Option<String>,
    pub skill_file_path: Option<String>,
    pub resource_root_path: Option<String>,
    pub parent_id: Option<String>,
    pub children: Vec<SkillSummary>,
}

/// A file that belongs to a skill.
#[derive(Debug, Clone, PartialEq, Eq)]
pub struct SkillResource {
    pub skill: String,
    pub path: String,
    pub content: Option<String>,
    pub size: u64,
    pub binary: bool,
}

pub struct SummaryView {
    pub id: Seq<char>,
    pub name: Seq<char>,
    pub description: Seq<char>,
    pub parent_id: Option<Seq<char>>,
    pub has_children: bool,
    pub source: Seq<char>,
    pub skill_file_path: Option<Seq<char>>,
    pub resource_root_path: Option<Seq<char>>,
    pub pin: bool,
}

pub struct DiagnosticView {
    pub skill: Option<Seq<char>>,
    pub path: Seq<char>,
    pub severity: SkillLoadDiagnosticSeverity,
    pub message: Seq<char>,
}

pub struct DocumentView {
    pub id: Seq<char>,
    pub name: Seq<char>,
    pub description: Seq<char>,
    pub pin: bool,
    pub content: Seq<char>,
    pub source: Seq<char>,
    pub root: Option<Seq<char>>,
    pub skill_file_path: Option<Seq<char>>,
    pub resource_root_path: Option<Seq<char>>,
    pub parent_id: Option<Seq<char>>,
    pub children: Seq<SummaryView>,
}

impl View for SkillSummary {
    type V = SummaryView;

    open spec fn view(&self) -> SummaryView {
        SummaryView {
            id: self.id@,
            name: self.name@,
            description: self.description@,
            parent_id: option_text(self.parent_id),
            has_children: self.has_children,
            source: self.source@,
            skill_file_path: option_text(self.skill_file_path),
            resource_root_path: option_text(self.resource_root_path),
            pin: self.pin,
        }
    }
}

impl View for SkillLoadDiagnostic {
    type V = DiagnosticView;

    open spec fn view(&self) -> DiagnosticView {
        DiagnosticView {
            skill: option_text(self.skill),
            path: self.path@,
            severity: self.severity,
            message: self.message@,
        }
    }
}

pub open spec fn summary_views(s: Seq<SkillSummary>) -> Seq<SummaryView> {
    s.map_values(|x: SkillSummary| x@)
}

pub open spec fn diagnostic_views(s: Seq<SkillLoadDiagnostic>) -> Seq<DiagnosticView> {
    s.map_values(|x: SkillLoadDiagnostic| x@)
}

impl View for SkillDocument {
    type V = DocumentView;

    open spec fn view(&self) -> DocumentView {
        DocumentView {
            id: self.id@,
            name: self.name@,
            description: self.description@,
            pin: self.pin,
            content: self.content@,
            source: self.source@,
            root: option_text(self.root),
            skill_file_path: option_text(self.skill_file_path),
            resource_root_path: option_text(self.resource_root_path),
            parent_id: option_text(self.parent_id),
            children: summary_views(self.children@),
        }
    }
}

impl SkillSummary {
    pub fn copy(&self) -> (r: SkillSummary)
        ensures
            r == *self,
    {
        SkillSummary {
            id: self.id.clone(),
            name: self.name.clone(),
            description: self.description.clone(),
            parent_id: copy_option_text(&self.parent_id),
            has_children: self.has_children,
            source: self.source.clone(),
            skill_file_path: copy_option_text(&self.skill_file_path),
            resource_root_path: copy_option_text(&self.resource_root_path),
            pin: self.pin,
        }
    }
}

impl SkillLoadDiagnostic {
    pub fn copy(&self) -> (r: SkillLoadDiagnostic)
        ensures
            r == *self,
    {
        SkillLoadDiagnostic {
            skill: copy_option_text(&self.skill),
            path: self.path.clone(),
            severity: self.severity,
            message: self.message.clone(),
        }
    }
}

} // verus!
