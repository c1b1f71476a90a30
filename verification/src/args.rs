pub mod args;
pub mod generate;
pub mod plot;
pub mod run;
