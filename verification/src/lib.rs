pub mod text;
pub mod host;
pub mod domain;
pub mod wrap;
pub mod escpos;
pub mod settings;
pub mod printer;
pub mod platform;
pub mod workflow;
pub mod receipt;
pub mod gui;
pub mod fonts;
