pub mod hooks;
pub mod organisations;
