//! Errors of the interactive line editor. The editor itself — raw-mode
//! terminal I/O, key events and the tab-completion display — lives outside
//! the library.

use vstd::prelude::*;

verus! {

/// Why reading a line ended without one.
#[derive(Debug)]
pub enum ReadLineError {
    /// The user asked the shell to stop with this code.
    Shutdown(i32),
    /// An operating-system error, rendered as text.
    Io(String),
    /// An error while handling tab completion, rendered as text.
    TabHandling(String),
}

} // verus!
