pub mod address;
pub mod app;
pub mod finder;
pub mod keys;
pub mod replay;
pub mod ui;
