use vstd::prelude::*;
use crate::models::network::Network;
use crate::models::test::Test;

verus! {

/// One experiment: a concrete network and the tests to run on it.
#[derive(Debug)]
pub struct Experiment {
    pub experiment_name: String,
    pub network: Network,
    pub test_batch: Vec<Test>,
}

} // verus!
