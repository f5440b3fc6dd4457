pub mod ids;
pub mod text;
pub mod workspace;
pub mod controller;
pub mod app_server;
pub mod updates;
pub mod storage;
pub mod settings;
pub mod platform;
pub mod diagnostics;
pub mod releases;
pub mod theme;
pub mod assets;
pub mod shell;
pub mod questions;
pub mod pages;
pub mod json;
pub mod wire;
pub mod inventory;
