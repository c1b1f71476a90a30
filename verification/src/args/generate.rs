use vstd::prelude::*;
use crate::args::args::ExperimentSelectionArgs;
use crate::args::run::RunCommand;

verus! {

#[derive(Debug, Clone)]
pub struct GenerateCommand {
    pub command: GenerateSubcommand,
}

#[derive(Debug, Clone)]
pub enum GenerateSubcommand {
    /// Run the following generated experiment files
    Run(RunCommand),
    /// Generate experiment files
    Files {
        /// Override existing experiment files
        override_: bool,
        experiment_selection: ExperimentSelectionArgs,
    },
}

/// The name under which a subcommand is displayed.
pub open spec fn generate_subcommand_name(c: GenerateSubcommand) -> Seq<char> {
    match c {
        GenerateSubcommand::Run(_) => "Run"@,
        GenerateSubcommand::Files { .. } => "Files"@,
    }
}

impl GenerateSubcommand {
    /// The name under which the subcommand is displayed.
    pub fn to_display_string(&self) -> (r: String)
        ensures
            r@ == generate_subcommand_name(*self),
    {
        match self {
            GenerateSubcommand::Run(_) => String::from_str("Run"),
            GenerateSubcommand::Files { .. } => String::from_str("Files"),
        }
    }
}

impl GenerateCommand {
    /// The experiments to generate: those the run that follows selects, or
    /// those the files subcommand selects.
    pub fn experiment_selection(&self) -> (r: &ExperimentSelectionArgs)
        ensures
            *r == match self.command {
                GenerateSubcommand::Run(run_command) => run_command.experiment_selection,
                GenerateSubcommand::Files { experiment_selection, .. } => experiment_selection,
            },
    {
        match &self.command {
            GenerateSubcommand::Run(run_command) => &run_command.experiment_selection,
            GenerateSubcommand::Files { experiment_selection, .. } => experiment_selection,
        }
    }

    /// Whether existing experiment files are overwritten: only when the
    /// files subcommand asks for it.
    pub fn override_existing(&self) -> (r: bool)
        ensures
            r == (self.command matches GenerateSubcommand::Files { override_, .. } && override_),
    {
        match &self.command {
            GenerateSubcommand::Files { override_, .. } => *override_,
            _ => false,
        }
    }
}

} // verus!
