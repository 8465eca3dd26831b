//! A client library for the GDB Machine Interface (MI) text protocol.
//!
//! The verified core frames raw protocol lines into records, parses each
//! record's grammar (result / async / stream records with nested tuple and
//! list values) into a typed message model, and decides the request/response
//! session discipline.  Process spawning and pipe I/O live outside the
//! library and hand plain lines in.

use vstd::prelude::*;

pub mod error;
pub mod msg;
pub mod parser;
pub mod session;

pub use crate::error::{GDBError, GDBResult};
pub use crate::msg::{
    AsyncClass, FieldModel, ItemModel, ListItem, MessageModel, MessageRecord, Record, RecordModel,
    ResultClass, StreamKind, Value, ValueModel, Variable,
};
pub use crate::parser::{escape_text, parse_line, LineOutcome};
pub use crate::session::{
    exit_command, frame_command, is_sentinel, read_sequence, sequence_result, take_first_result,
};

verus! {

/// The fixed prompt text that ends an MI output sequence.
pub open spec fn spec_sentinel_text() -> Seq<char> {
    "(gdb) "@
}

/// True when `line` is exactly the sentinel prompt, with or without a
/// trailing line terminator.
pub open spec fn spec_is_sentinel(line: Seq<char>) -> bool {
    ||| line == spec_sentinel_text()
    ||| line == "(gdb) \n"@
    ||| line == "(gdb) \r\n"@
}

} // verus!
