//! Canopy: the verified core of a modal terminal LaTeX editor.
//!
//! The library holds the editor's text model (a rope with a character-index
//! cursor), the file browser and fuzzy finder models, the LaTeX highlighter,
//! the colour theme and screen layout rules, the compile planning and
//! sandbox settings, the chat framing for the local assistant, and the
//! application state machine that ties them together. Terminal drawing,
//! processes and file I/O belong to the front end, which hands this library
//! plain values.
pub mod text;
pub mod editor;
pub mod strings;
pub mod theme;
pub mod syntax;
pub mod modes;
pub mod config;
pub mod paths;
pub mod browser;
pub mod finder;
pub mod compile;
pub mod chat;
pub mod app;
pub mod layout;
