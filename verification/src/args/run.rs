use vstd::prelude::*;
use crate::args::args::ExperimentSelectionArgs;

verus! {

#[derive(Debug, Clone)]
pub struct RunCommand {
    pub experiment_selection: ExperimentSelectionArgs,
    pub run_command: RunCommandArgs,
}

#[derive(Debug, Clone, Copy, PartialEq, Eq, Structural)]
pub struct RunCommandArgs {
    /// No sleep after starting the nodes and before starting the experiment
    pub no_sleep: bool,
    /// Do not run test in the experiment
    pub no_test: bool,
    /// Only run the first experiment
    pub first_only: bool,
    /// Do not stop GNS3 nodes after the end of the experiment
    pub no_stop: bool,
    /// Does not input any command inside the router in order to set it up and test commands yourself
    pub os_setup: bool,
}

} // verus!
