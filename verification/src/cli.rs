//! The commands of the program and what each of them asks for.

use vstd::prelude::*;

verus! {

/// The parsed command line.
#[derive(Debug)]
pub struct Opts {
    pub command: Commands,
}

/// The subcommands.
#[derive(Debug)]
pub enum Commands {
    /// Scan a project and emit a report.
    Scan { path: String, output: String, format: String },
    /// Write the bundled documentation, or say where it is.
    Docs { write: bool },
    /// Configuration helpers.
    Config { action: ConfigAction },
}

/// The configuration helpers.
#[derive(Debug)]
pub enum ConfigAction {
    Init,
    Schema,
}

/// What the program is to do for a command.
#[derive(Debug, PartialEq, Eq)]
pub enum Task {
    /// Print `notice`, then scan `path` and write the report to `output`.
    Scan { notice: String, path: String, output: String, format: String },
    /// Write the documentation, then print `notice`.
    WriteDocs { notice: String },
    /// Print `text` and do nothing else.
    Say { text: String },
}

/// The line that announces a scan.
pub open spec fn scan_notice(path: Seq<char>, output: Seq<char>, format: Seq<char>) -> Seq<char> {
    "Scanning: "@ + path + " -> "@ + output + " ("@ + format + ")"@
}

/// The line printed for a command that only prints.
pub open spec fn said(command: Commands) -> Seq<char> {
    match command {
        Commands::Docs { write } => "See docs/implementations.md in the project root."@,
        Commands::Config { action: ConfigAction::Init } => "Write a starter .nextaudit.toml"@,
        Commands::Config { action: ConfigAction::Schema } => "Schema: (stub)"@,
        Commands::Scan { path, output, format } => Seq::empty(),
    }
}

impl Opts {
    /// Decides what is to be done for the command: a scan with its notice,
    /// the writing of the documentation, or one line to print.
    pub fn run(self) -> (task: Task)
        ensures
            match self.command {
                Commands::Scan { path, output, format } => match task {
                    Task::Scan { notice, path: p, output: o, format: f } => p@ == path@ && o@
                        == output@ && f@ == format@ && notice@ == scan_notice(
                        path@,
                        output@,
                        format@,
                    ),
                    _ => false,
                },
                Commands::Docs { write: true } => match task {
                    Task::WriteDocs { notice } => notice@ == "Wrote docs/implementations.md"@,
                    _ => false,
                },
                _ => match task {
                    Task::Say { text } => text@ == said(self.command),
                    _ => false,
                },
            },
    {
        match self.command {
            Commands::Scan { path, output, format } => {
                let mut notice = String::from_str("Scanning: ");
                notice.append(path.as_str());
                notice.append(" -> ");
                notice.append(output.as_str());
                notice.append(" (");
                notice.append(format.as_str());
                notice.append(")");
                Task::Scan { notice, path, output, format }
            },
            Commands::Docs { write } => {
                if write {
                    Task::WriteDocs { notice: String::from_str("Wrote docs/implementations.md") }
                } else {
                    Task::Say {
                        text: String::from_str("See docs/implementations.md in the project root."),
                    }
                }
            },
            Commands::Config { action } => match action {
                ConfigAction::Init => Task::Say {
                    text: String::from_str("Write a starter .nextaudit.toml"),
                },
                ConfigAction::Schema => Task::Say { text: String::from_str("Schema: (stub)") },
            },
        }
    }
}

} // verus!
