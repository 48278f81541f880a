//! A text-table layout and rendering engine.
//!
//! Tabular data (rows of cells) together with formatting directives —
//! borders, padding, alignment, column spans, panels, highlights — is
//! resolved into a single consistent character grid and rendered as a
//! `\n`-joined block of text.
//!
//! The crate is organised after the engine's components:
//! [`records`] holds the two-dimensional data source, [`entity`] resolves
//! logical cell selectors to concrete coordinates, [`config`] is the
//! central mutable grid configuration, [`dims`] computes the per-column
//! width and per-row height plan, [`render`] walks the grid and emits the
//! bordered text, and [`table`] ties everything together behind a single
//! table handle with its modifier protocol. [`settings`] offers the
//! cell-border and span setting values used with that protocol, and
//! [`transform`] reworks a finished rendering (border labels, shadow).

pub mod border;
pub mod settings;
pub mod records;
pub mod entity;
pub mod style;
pub mod config;
pub mod dims;
pub mod render;
pub mod table;
pub mod transform;
