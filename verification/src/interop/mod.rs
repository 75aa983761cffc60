//! The editor-facing objects: the highlighter, the text helper, and the checking worker.
pub mod async_messaging_helper;
pub mod bridge;
pub mod debounce;
