//! A modal, buffer-driven text editor core: text buffers with undo and
//! redo, Vim-style motions and text objects, key handling, window layout,
//! completion and picker state.

pub mod text;
pub mod rope;
pub mod strs;
pub mod paths;
pub mod undo;
pub mod buffer;
pub mod keys;
pub mod vim;
pub mod action;
pub mod window;
pub mod workspace;
pub mod registers;
pub mod core_actions;
pub mod layout;
pub mod completions;
pub mod diagnostics;
pub mod picker;
pub mod toast;
pub mod info_panel;
pub mod lsp;
pub mod editor;
pub mod highlight;
pub mod floating_panel;
pub mod hover;
pub mod scrollbar;
pub mod routing;
