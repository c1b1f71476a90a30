pub mod guest;
pub mod node;
pub mod router;
