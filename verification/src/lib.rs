pub mod attachment;
pub mod cli;
pub mod client;
pub mod json;
pub mod markdown;
pub mod native;
pub mod session;
pub mod stream;
pub mod text;
pub mod tools;
pub mod tui;
pub mod wire;
