//! Management of reusable LaTeX project templates: where a template lives,
//! whether it is well formed, and how a new project is made from it.
//!
//! A template is a directory with a marker file, `preamble/config.tex` or
//! `main.tex`, that holds three placeholders: for the title, the subtitle and
//! the author of a project. A project is made by copying the directory and
//! replacing the placeholders in the marker file of the copy.
//!
//! The library never touches the disk and never runs git. Whatever needs
//! either is a sequence of steps (see [`host`]): a step asks the caller for
//! one thing or ends the operation, and the caller hands the reply to the
//! state that came with the request.
//!
//! - [`config`]: the configuration and its validation.
//! - [`templates`]: the registry, the storage directories, the validation and
//!   the synchronisation of templates.
//! - [`project`]: the making of a project.
//! - [`path`] and [`text`]: joining paths, finding and replacing words.

pub mod config;
pub mod host;
pub mod path;
pub mod project;
pub mod templates;
pub mod text;
