pub mod project;
pub mod template;
