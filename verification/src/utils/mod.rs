pub mod ids;
pub mod logger;
pub mod pagination;
pub mod text;
pub mod time;
