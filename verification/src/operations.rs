//! The operations the application's menus produce: plain data handed from
//! the interactive layer to whatever carries them out, together with the
//! labels the menus show for them.

use vstd::prelude::*;

use crate::biduration::BiDuration;

verus! {

/// Declares `std::path::PathBuf` to Verus. Verified code only carries such
/// a value through; nothing is assumed of what is inside it.
#[verifier::external_type_specification]
#[verifier::external_body]
pub struct ExPathBuf(std::path::PathBuf);

/// Whether a clock entry opens a span of work, closes one, or does
/// whichever the current state calls for.
#[derive(Debug, Clone, Copy, Default, PartialEq, Eq, Structural)]
pub enum ClockType {
    In,
    Out,
    #[default]
    Toggle,
}

impl ClockType {
    /// The menu label of the clock operation.
    pub open spec fn label(&self) -> Seq<char> {
        match self {
            ClockType::In => "Clock in"@,
            ClockType::Out => "Clock out"@,
            ClockType::Toggle => "Toggle clock"@,
        }
    }

    /// The menu label of the clock operation, as shown to the user.
    pub fn to_string(&self) -> (r: String)
        ensures
            r@ == self.label(),
    {
        match self {
            ClockType::In => "Clock in".to_owned(),
            ClockType::Out => "Clock out".to_owned(),
            ClockType::Toggle => "Toggle clock".to_owned(),
        }
    }
}

/// A clock entry to make: which way to punch, on which project, and an
/// optional offset from now for the effective time.
#[derive(Debug)]
pub struct ClockOperation {
    pub clock_type: ClockType,
    pub project: String,
    pub offset: Option<BiDuration>,
}

/// A status inquiry: how far from now to report, if offset at all.
#[derive(Debug)]
pub struct StatusOperation {
    pub offset: Option<BiDuration>,
}

/// What to do to the project list.
#[derive(Debug, Clone)]
pub enum ProjectOperationType {
    Add,
    Remove,
    Rename(String),
}

impl ProjectOperationType {
    /// The menu label of the project operation.
    pub open spec fn label(&self) -> Seq<char> {
        match self {
            ProjectOperationType::Add => "Add a project"@,
            ProjectOperationType::Remove => "Remove a project"@,
            ProjectOperationType::Rename(_) => "Rename a project"@,
        }
    }

    /// The menu label of the project operation, as shown to the user.
    pub fn to_string(&self) -> (r: String)
        ensures
            r@ == self.label(),
    {
        match self {
            ProjectOperationType::Add => "Add a project".to_owned(),
            ProjectOperationType::Remove => "Remove a project".to_owned(),
            ProjectOperationType::Rename(_) => "Rename a project".to_owned(),
        }
    }
}

/// A change to the project list, applied to the named project.
#[derive(Debug)]
pub struct ProjectOperation {
    pub op_type: ProjectOperationType,
    pub project: String,
}

/// The span a report covers.
#[derive(Debug, Default)]
pub enum ReportType {
    Daily,
    #[default]
    Weekly,
}

/// A report to generate and where to put it.
#[derive(Debug)]
pub struct ReportOperation {
    pub report_type: ReportType,
    pub output_file: Option<std::path::PathBuf>,
    pub exact_durations: bool,
    pub copyable: bool,
}

/// A request to generate sample data.
#[derive(Debug)]
pub struct GenerateDataOperation {
    pub count: usize,
    pub output_file: Option<std::path::PathBuf>,
}

/// Everything a trip through the main menu can ask for.
#[derive(Debug)]
pub enum Operation {
    Clock(ClockOperation),
    Status(StatusOperation),
    Project(ProjectOperation),
    Report(ReportOperation),
    Exit,
    GenerateData(GenerateDataOperation),
}

} // verus!
