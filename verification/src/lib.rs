//! Prefab format, prefab metadata and editor state for a legion-based scene editor.

pub mod uuids;
pub mod format;
pub mod fps_text;
pub mod keymap;
pub mod editor;
pub mod prefab;
pub mod option_iter;
