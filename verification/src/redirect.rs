//! Where a stage's output streams go: planning the stdout and stderr targets
//! of builtin and external stages. The caller opens the planned files, pipes
//! and buffers and performs the actual I/O.

use vstd::prelude::*;

use crate::args;

verus! {

/// One output stream's destination.
#[derive(Clone, Debug)]
pub enum RedirectIO {
    /// The file at this path, truncated or appended to.
    File { path: String, append: bool },
    /// An in-memory buffer owned by the executor (builtin stages only).
    Buffer,
    /// The shell's own terminal stream.
    Terminal,
    /// A fresh pipe handed to the next stage.
    Pipe,
}

/// Where a stage's stdout and stderr go.
#[derive(Clone, Debug)]
pub struct Redirect {
    pub stdout: RedirectIO,
    pub stderr: RedirectIO,
}

/// The planned file target of a parsed redirect.
pub open spec fn spec_file_target(rd: args::Redirect) -> RedirectIO {
    RedirectIO::File { path: rd.file_path, append: rd.append }
}

/// The builtin-stage plan: the redirected stream goes to its file, every
/// other stream to an in-memory buffer — builtin output is staged, never
/// streamed to the terminal, even for the last stage.
pub open spec fn spec_new_builtin(redirect: Option<args::Redirect>) -> Redirect {
    match redirect {
        Option::None => Redirect { stdout: RedirectIO::Buffer, stderr: RedirectIO::Buffer },
        Option::Some(rd) => match rd.to {
            args::RedirectIO::Stdout => Redirect {
                stdout: spec_file_target(rd),
                stderr: RedirectIO::Buffer,
            },
            args::RedirectIO::Stderr => Redirect {
                stdout: RedirectIO::Buffer,
                stderr: spec_file_target(rd),
            },
        },
    }
}

/// The last stage streams to the terminal; every other stage feeds a pipe.
pub open spec fn spec_term_or_pipe(is_last: bool) -> RedirectIO {
    if is_last {
        RedirectIO::Terminal
    } else {
        RedirectIO::Pipe
    }
}

/// The external-stage plan: the redirected stream goes to its file; each
/// other stream goes to the terminal when this is the last stage, otherwise
/// to a pipe for the next one.
pub open spec fn spec_new_program(redirect: Option<args::Redirect>, is_last: bool) -> Redirect {
    match redirect {
        Option::None => Redirect {
            stdout: spec_term_or_pipe(is_last),
            stderr: spec_term_or_pipe(is_last),
        },
        Option::Some(rd) => match rd.to {
            args::RedirectIO::Stdout => Redirect {
                stdout: spec_file_target(rd),
                stderr: spec_term_or_pipe(is_last),
            },
            args::RedirectIO::Stderr => Redirect {
                stdout: spec_term_or_pipe(is_last),
                stderr: spec_file_target(rd),
            },
        },
    }
}

impl Redirect {
    /// Plan a builtin stage's output targets.
    pub fn new_builtin(redirect: &Option<args::Redirect>) -> (r: Redirect)
        ensures
            r == spec_new_builtin(*redirect),
    {
        match redirect {
            Option::None => Redirect { stdout: RedirectIO::Buffer, stderr: RedirectIO::Buffer },
            Option::Some(rd) => match rd.to {
                args::RedirectIO::Stdout => Redirect {
                    stdout: RedirectIO::File { path: rd.file_path.clone(), append: rd.append },
                    stderr: RedirectIO::Buffer,
                },
                args::RedirectIO::Stderr => Redirect {
                    stdout: RedirectIO::Buffer,
                    stderr: RedirectIO::File { path: rd.file_path.clone(), append: rd.append },
                },
            },
        }
    }

    /// Plan an external stage's output targets.
    pub fn new_program(redirect: &Option<args::Redirect>, is_last: bool) -> (r: Redirect)
        ensures
            r == spec_new_program(*redirect, is_last),
    {
        match redirect {
            Option::None => Redirect {
                stdout: Self::is_last(is_last),
                stderr: Self::is_last(is_last),
            },
            Option::Some(rd) => match rd.to {
                args::RedirectIO::Stdout => Redirect {
                    stdout: RedirectIO::File { path: rd.file_path.clone(), append: rd.append },
                    stderr: Self::is_last(is_last),
                },
                args::RedirectIO::Stderr => Redirect {
                    stdout: Self::is_last(is_last),
                    stderr: RedirectIO::File { path: rd.file_path.clone(), append: rd.append },
                },
            },
        }
    }

    /// The non-file target of an external stage: terminal for the last
    /// stage, a pipe otherwise.
    fn is_last(is_last: bool) -> (r: RedirectIO)
        ensures
            r == spec_term_or_pipe(is_last),
    {
        if is_last {
            RedirectIO::Terminal
        } else {
            RedirectIO::Pipe
        }
    }
}

} // verus!
