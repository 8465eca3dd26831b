//! The session discipline: framing an MI output sequence out of its lines,
//! correlating a sent command with the Result record that answers it, and
//! preparing the bytes a command is sent as.
//!
//! The blocking transport loop itself lives outside the library; it hands
//! whole lines in and performs the writes these functions prepare.  Every
//! decision — what ends a sequence, which lines become records, which record
//! answers the command — is made here, and proved.

use vstd::prelude::*;
use vstd::string::StringExecFns;

use crate::error::GDBError;
use crate::error::GDBResult;
use crate::msg::MessageModel;
use crate::msg::MessageRecord;
use crate::msg::Record;
use crate::msg::RecordModel;
use crate::msg::ResultClass;
use crate::msg::lemma_records_model_index;
use crate::msg::lemma_records_model_len;
use crate::msg::spec_records_model;
use crate::msg::str_eq_str;
use crate::parser::LineOutcome;
use crate::parser::parse_line;
use crate::parser::sp_parse_line;
use crate::spec_is_sentinel;

verus! {

broadcast use vstd::std_specs::vec::group_vec_axioms, vstd::seq::group_seq_axioms;

/// True when `line` is the prompt that ends an output sequence.  The
/// sentinel is never itself parsed into a record.
pub fn is_sentinel(line: &str) -> (r: bool)
    ensures
        r == spec_is_sentinel(line@),
{
    str_eq_str(line, "(gdb) ") || str_eq_str(line, "(gdb) \n") || str_eq_str(line, "(gdb) \r\n")
}

/// The records of a run of lines: each line's record in order, lines that
/// carry nothing (`Ignored`) silently excluded, and `None` as soon as any
/// line violates the grammar.
pub open spec fn sp_sequence_from(lines: Seq<Seq<char>>, i: int) -> Option<Seq<RecordModel>>
    decreases lines.len() - i,
{
    if !(0 <= i < lines.len()) {
        Some(Seq::empty())
    } else {
        match sp_parse_line(lines[i]) {
            LineOutcome::Rec(m) => match sp_sequence_from(lines, i + 1) {
                Some(rest) => Some(seq![m] + rest),
                None => None,
            },
            LineOutcome::Ignored => sp_sequence_from(lines, i + 1),
            LineOutcome::Malformed => None,
        }
    }
}

pub open spec fn sp_sequence_records(lines: Seq<Seq<char>>) -> Option<Seq<RecordModel>> {
    sp_sequence_from(lines, 0)
}

fn read_sequence_from(lines: &Vec<String>, i: usize) -> (r: GDBResult<Vec<Record>>)
    requires
        i <= lines@.len(),
    ensures
        match r {
            Ok(records) => sp_sequence_from(lines.deep_view(), i as int) == Some(
                spec_records_model(records@),
            ),
            Err(e) => e is ParseError && sp_sequence_from(lines.deep_view(), i as int) is None,
        },
    decreases lines@.len() - i,
{
    if i >= lines.len() {
        let empty: Vec<Record> = Vec::new();
        assert(spec_records_model(empty@) =~= Seq::<RecordModel>::empty());
        return Ok(empty);
    }
    assert(lines.deep_view()[i as int] == lines@[i as int]@);
    match parse_line(lines[i].as_str()) {
        Ok(rec) => match read_sequence_from(lines, i + 1) {
            Ok(rest) => {
                let mut out: Vec<Record> = Vec::new();
                out.push(rec);
                let mut rest = rest;
                let ghost rest0 = rest@;
                out.append(&mut rest);
                proof {
                    lemma_records_model_len(out@);
                    assert(out@.subrange(1, out@.len() as int) =~= rest0);
                    assert(spec_records_model(out@) =~= seq![out@[0].model()]
                        + spec_records_model(rest0));
                }
                Ok(out)
            },
            Err(e) => Err(e),
        },
        Err(e) => match e {
            GDBError::IgnoredOutput => read_sequence_from(lines, i + 1),
            _ => Err(GDBError::ParseError),
        },
    }
}

/// Turns the lines of one output sequence (everything read before the
/// sentinel prompt, which the caller does not pass in) into records.
///
/// All non-ignored records are accumulated in their original order; a line
/// that parses as `IgnoredOutput` is absorbed here and is not an error; the
/// first grammar violation is fatal and reported as `ParseError`, because
/// skipping an unreadable line would desynchronize command correlation.
pub fn read_sequence(lines: &Vec<String>) -> (r: GDBResult<Vec<Record>>)
    ensures
        match r {
            Ok(records) => sp_sequence_records(lines.deep_view()) == Some(
                spec_records_model(records@),
            ),
            Err(e) => e is ParseError && sp_sequence_records(lines.deep_view()) is None,
        },
{
    read_sequence_from(lines, 0)
}

/// The first Result record of a sequence, if any.
pub open spec fn sp_first_result(rs: Seq<RecordModel>) -> Option<MessageModel<ResultClass>>
    decreases rs.len(),
{
    if rs.len() == 0 {
        None
    } else {
        match rs[0] {
            RecordModel::Result(m) => Some(m),
            _ => sp_first_result(rs.drop_first()),
        }
    }
}

/// Extracts the first Result record of a sequence, discarding the async and
/// stream records around it — the minimal blocking semantics.  `None` means
/// the sequence answered no command, and the caller must keep reading.
#[verifier::loop_isolation(false)]
pub fn take_first_result(records: Vec<Record>) -> (r: Option<MessageRecord<ResultClass>>)
    ensures
        match r {
            Some(m) => sp_first_result(spec_records_model(records@)) == Some(m.model()),
            None => sp_first_result(spec_records_model(records@)) is None,
        },
{
    let ghost orig = spec_records_model(records@);
    let mut rest = records;
    while rest.len() > 0
        invariant
            sp_first_result(orig) == sp_first_result(spec_records_model(rest@)),
        decreases rest@.len(),
    {
        proof {
            lemma_records_model_len(rest@);
            lemma_records_model_index(rest@, 0);
            assert(spec_records_model(rest@).drop_first() =~= spec_records_model(
                rest@.subrange(1, rest@.len() as int),
            )) by {
                let a = spec_records_model(rest@);
                let b = spec_records_model(rest@.subrange(1, rest@.len() as int));
                assert forall|j: int| 0 <= j < a.len() - 1 implies a.drop_first()[j] == b[j] by {
                    lemma_records_model_index(rest@, j + 1);
                    lemma_records_model_index(rest@.subrange(1, rest@.len() as int), j);
                }
                lemma_records_model_len(rest@.subrange(1, rest@.len() as int));
            }
        }
        let ghost prev = rest@;
        let rec = rest.remove(0);
        proof {
            assert(rest@ =~= prev.subrange(1, prev.len() as int));
        }
        match rec {
            Record::Result(m) => {
                proof {
                    assert(spec_records_model(prev)[0] == RecordModel::Result(m.model()));
                    assert(sp_first_result(spec_records_model(prev)) == Some(m.model()));
                }
                return Some(m);
            },
            _ => {},
        }
    }
    assert(spec_records_model(rest@).len() == 0) by {
        lemma_records_model_len(rest@);
    }
    None
}

/// One step of the send/await loop: the records of one whole sequence, and
/// the Result record among them when the sequence answers the command.
///
/// `Ok(Some(..))` ends the wait; `Ok(None)` means the sequence held only
/// async or stream output (which this design drops) and another sequence
/// must be read; an error is fatal to the call.
pub fn sequence_result(lines: &Vec<String>) -> (r: GDBResult<Option<MessageRecord<ResultClass>>>)
    ensures
        match r {
            Ok(found) => sp_sequence_records(lines.deep_view()) matches Some(rs) && (match found {
                Some(m) => sp_first_result(rs) == Some(m.model()),
                None => sp_first_result(rs) is None,
            }),
            Err(e) => e is ParseError && sp_sequence_records(lines.deep_view()) is None,
        },
{
    match read_sequence(lines) {
        Ok(records) => Ok(take_first_result(records)),
        Err(e) => Err(e),
    }
}

/// The exact text a command is framed as on the wire: the command itself,
/// with a newline appended when it does not already end in one.
pub open spec fn spec_framed(cmd: Seq<char>) -> Seq<char> {
    if cmd.len() > 0 && cmd[cmd.len() - 1] == '\n' {
        cmd
    } else {
        cmd + seq!['\n']
    }
}

/// Prepares a command for sending.
pub fn frame_command(cmd: &str) -> (r: String)
    ensures
        r@ == spec_framed(cmd@),
{
    proof {
        reveal_strlit("\n");
        assert("\n"@ =~= seq!['\n']);
    }
    let len = cmd.unicode_len();
    let mut out = String::from_str(cmd);
    if len == 0 || cmd.get_char(len - 1) != '\n' {
        out.append("\n");
    }
    out
}

/// The best-effort command written at teardown to ask the debugger to quit.
pub fn exit_command() -> (r: &'static str)
    ensures
        r@ == "-gdb-exit\n"@,
{
    "-gdb-exit\n"
}

} // verus!
