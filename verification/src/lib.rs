pub mod archive;
pub mod binaries;
pub mod cache;
pub mod codec;
pub mod command;
pub mod config;
pub mod consts;
pub mod conversion;
pub mod convert;
pub mod dict;
pub mod digest;
pub mod download;
pub mod encoded;
pub mod forms;
pub mod history;
pub mod i18n;
pub mod job;
pub mod json;
pub mod labels;
pub mod log;
pub mod number;
pub mod path;
pub mod pattern;
pub mod probe;
pub mod queue;
pub mod requested;
pub mod session;
pub mod setup;
pub mod shell;
pub mod text;
pub mod transfer;
pub mod types;
pub mod update;
pub mod updater;
pub mod util;
pub mod view;
