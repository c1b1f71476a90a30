pub mod generate;
pub mod plot;
pub mod run;
pub mod configure;
