use vstd::prelude::*;
use crate::args::generate::GenerateCommand;
use crate::args::plot::PlotCommand;
use crate::args::run::RunCommand;
use crate::models::hardware_resources::HardwareResources;
use crate::models::nic::NicType;
use crate::models::protocol::RoutingProtocol;

verus! {

/// The command line.
#[derive(Debug, Clone)]
pub struct Args {
    pub command: Command,
}

#[derive(Debug, Clone)]
pub enum Command {
    /// Generate experiment files
    Generate(GenerateCommand),
    /// Run experiment files
    Run(RunCommand),
    /// Plot experiment results
    Plot(PlotCommand),
}

/// The name under which a command is displayed.
pub open spec fn command_name(c: Command) -> Seq<char> {
    match c {
        Command::Generate(_) => "Generate"@,
        Command::Run(_) => "Run"@,
        Command::Plot(_) => "Plot"@,
    }
}

impl Command {
    /// The name under which the command is displayed.
    pub fn to_display_string(&self) -> (r: String)
        ensures
            r@ == command_name(*self),
    {
        match self {
            Command::Generate(_) => String::from_str("Generate"),
            Command::Run(_) => String::from_str("Run"),
            Command::Plot(_) => String::from_str("Plot"),
        }
    }
}

/// Which experiments a command is about; each absent field means all.
#[derive(Debug, Clone)]
pub struct ExperimentSelectionArgs {
    /// OS to use. All if absent
    pub os: Option<String>,
    /// Test to use. All if absent
    pub test_batch: Option<String>,
    /// Resources to use. All if absent
    pub resources: Option<HardwareResources>,
    /// NIC to use. All if absent
    pub nic: Option<NicType>,
    /// Topology to use. All if absent
    pub topology: Option<String>,
    /// Routing protocol to use. All if absent
    pub protocol: Option<RoutingProtocol>,
}

} // verus!
