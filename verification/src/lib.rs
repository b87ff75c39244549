pub mod args;
pub mod builtin;
pub mod completion;
pub mod redirect;
pub mod repl;
pub mod terminal;
pub mod text;
