//! A local credential manager's core: the record format of the store, the
//! case-insensitive scanner over it, the selection and removal of an entry,
//! the password generator, the masked keyboard capture, and the command line.

pub mod text;
pub mod record;
pub mod scan;
pub mod select;
pub mod locale;
pub mod actions;
pub mod store;
pub mod generator;
pub mod masked;
pub mod terminal;
pub mod parse;
