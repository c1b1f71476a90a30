use vstd::prelude::*;
use crate::args::args::ExperimentSelectionArgs;

verus! {

#[derive(Debug, Clone)]
pub struct PlotCommand {
    pub experiment_selection: ExperimentSelectionArgs,
    pub plot_command: PlotCommandArgs,
}

#[derive(Debug, Clone, Copy, PartialEq, Eq, Structural)]
pub struct PlotCommandArgs {
    /// Plot without title
    pub no_title: bool,
    /// Remove common legend words
    pub remove_common_legend: bool,
    /// Hide foot node
    pub hide_note: bool,
    /// Plot with log10 scale
    pub log_scale: bool,
}

} // verus!
