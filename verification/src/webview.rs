//! Shared state between the plug-in and its web-view editor window.
use std::sync::atomic::{AtomicBool, Ordering};
use std::sync::Arc;
use vstd::prelude::*;

verus! {

/// Whether the editor's window is open. The editor sets the flag when it opens
/// its window and clears it when the window is closed; parameter callbacks
/// read it to skip notifying a closed editor.
#[derive(Debug)]
pub struct WebviewState {
    /// Whether the editor's window is currently open.
    pub open: AtomicBool,
}

impl WebviewState {
    /// State for an editor whose window is not open yet, shared behind an `Arc`.
    pub fn new() -> (r: Arc<WebviewState>) {
        Arc::new(WebviewState { open: AtomicBool::new(false) })
    }

    /// Whether the editor's window is currently open.
    pub fn is_open(&self) -> (r: bool) {
        self.open.load(Ordering::Acquire)
    }
}

} // verus!
