//! The MI line parser: one textual protocol line in, one typed record out.
//!
//! The grammar is specified by pure functions over `Seq<char>` (the `sp_`
//! family); every executable parsing function is proved to return exactly
//! what the corresponding specification function says.  Parsing is therefore
//! deterministic by construction: the result is a function of the input text
//! alone.

use vstd::prelude::*;

use crate::error::GDBError;
use crate::error::GDBResult;
use crate::msg::AsyncClass;
use crate::msg::FieldModel;
use crate::msg::ItemModel;
use crate::msg::ListItem;
use crate::msg::MessageModel;
use crate::msg::MessageRecord;
use crate::msg::Record;
use crate::msg::RecordModel;
use crate::msg::ResultClass;
use crate::msg::StreamKind;
use crate::msg::Value;
use crate::msg::ValueModel;
use crate::msg::Variable;
use crate::msg::spec_field_lookup;
use crate::msg::spec_fields_model;
use crate::msg::spec_fields_unique;
use crate::msg::spec_items_model;
use crate::msg::lemma_fields_model_len;
use crate::msg::lemma_fields_model_index;
use crate::msg::lemma_fields_model_push;
use crate::msg::lemma_items_model_push;

verus! {

broadcast use vstd::std_specs::vec::group_vec_axioms, vstd::seq::group_seq_axioms;

// ---------------------------------------------------------------------------
// Character classes and escapes
// ---------------------------------------------------------------------------

/// An ASCII decimal digit.
pub open spec fn spec_is_digit(c: char) -> bool {
    48 <= c as u32 && c as u32 <= 57
}

/// A character that may appear in an attribute or field name: ASCII letters,
/// digits, `-`, `_` and `.`.
pub open spec fn spec_is_name_char(c: char) -> bool {
    ||| 48 <= c as u32 && c as u32 <= 57
    ||| 65 <= c as u32 && c as u32 <= 90
    ||| 97 <= c as u32 && c as u32 <= 122
    ||| c == '-'
    ||| c == '_'
    ||| c == '.'
}

/// The character a backslash escape decodes to, or `None` when the escape
/// letter is not one the grammar accepts.
pub open spec fn spec_escape_code(c: char) -> Option<char> {
    match c {
        '"' => Some('"'),
        '\\' => Some('\\'),
        'n' => Some('\n'),
        't' => Some('\t'),
        'r' => Some('\r'),
        _ => None,
    }
}

fn is_digit(c: char) -> (r: bool)
    ensures
        r == spec_is_digit(c),
{
    let n = c as u32;
    48 <= n && n <= 57
}

fn is_name_char(c: char) -> (r: bool)
    ensures
        r == spec_is_name_char(c),
{
    let n = c as u32;
    (48 <= n && n <= 57) || (65 <= n && n <= 90) || (97 <= n && n <= 122) || c == '-'
        || c == '_' || c == '.'
}

fn escape_code(c: char) -> (r: Option<char>)
    ensures
        r == spec_escape_code(c),
{
    match c {
        '"' => Some('"'),
        '\\' => Some('\\'),
        'n' => Some('\n'),
        't' => Some('\t'),
        'r' => Some('\r'),
        _ => None,
    }
}

// ---------------------------------------------------------------------------
// Text plumbing
// ---------------------------------------------------------------------------

/// The characters of a string slice, in order.
pub fn str_to_chars(s: &str) -> (r: Vec<char>)
    ensures
        r@ == s@,
{
    let len = s.unicode_len();
    let mut v: Vec<char> = Vec::new();
    let mut i: usize = 0;
    while i < len
        invariant
            len == s@.len(),
            i <= len,
            v@ == s@.take(i as int),
        decreases len - i,
    {
        let c = s.get_char(i);
        v.push(c);
        proof {
            assert(s@.take(i as int).push(s@[i as int]) =~= s@.take(i + 1));
        }
        i = i + 1;
    }
    proof {
        assert(s@.take(len as int) =~= s@);
    }
    v
}

/// Relies on `String`'s `FromIterator<char>` implementation: collecting an
/// iterator over characters yields the string of exactly those characters.
#[verifier::external_body]
fn chars_to_string(v: &Vec<char>) -> (r: String)
    ensures
        r@ == v@,
{
    v.iter().collect()
}

// ---------------------------------------------------------------------------
// Quoted strings
// ---------------------------------------------------------------------------

/// Decodes the remainder of a quoted string from `pos` (just after the
/// opening quote) up to and including the closing quote.  `acc` is what has
/// been decoded so far.  `None` means an unterminated string or a bad escape.
pub open spec fn sp_qstring_tail(s: Seq<char>, pos: int, acc: Seq<char>) -> Option<
    (Seq<char>, int),
>
    decreases s.len() - pos,
{
    if pos < 0 || pos >= s.len() {
        None
    } else if s[pos] == '"' {
        Some((acc, pos + 1))
    } else if s[pos] == '\\' {
        if pos + 1 < s.len() {
            match spec_escape_code(s[pos + 1]) {
                Some(c) => sp_qstring_tail(s, pos + 2, acc.push(c)),
                None => None,
            }
        } else {
            None
        }
    } else {
        sp_qstring_tail(s, pos + 1, acc.push(s[pos]))
    }
}

/// Decodes a complete quoted string starting at `pos` (at the opening
/// quote), yielding the decoded text and the position after the closing
/// quote.
pub open spec fn sp_qstring(s: Seq<char>, pos: int) -> Option<(Seq<char>, int)> {
    if 0 <= pos < s.len() && s[pos] == '"' {
        sp_qstring_tail(s, pos + 1, Seq::empty())
    } else {
        None
    }
}

fn p_qstring_tail(s: &Vec<char>, pos: usize, acc: Vec<char>) -> (r: Option<(Vec<char>, usize)>)
    requires
        pos <= s@.len(),
    ensures
        match r {
            Some((t, p)) => {
                &&& sp_qstring_tail(s@, pos as int, acc@) == Some((t@, p as int))
                &&& pos < p <= s@.len()
            },
            None => sp_qstring_tail(s@, pos as int, acc@) is None,
        },
    decreases s@.len() - pos,
{
    if pos >= s.len() {
        return None;
    }
    let c = s[pos];
    if c == '"' {
        Some((acc, pos + 1))
    } else if c == '\\' {
        if pos + 1 < s.len() {
            match escape_code(s[pos + 1]) {
                Some(d) => {
                    let mut acc2 = acc;
                    acc2.push(d);
                    p_qstring_tail(s, pos + 2, acc2)
                },
                None => None,
            }
        } else {
            None
        }
    } else {
        let mut acc2 = acc;
        acc2.push(c);
        p_qstring_tail(s, pos + 1, acc2)
    }
}

fn p_qstring(s: &Vec<char>, pos: usize) -> (r: Option<(String, usize)>)
    requires
        pos <= s@.len(),
    ensures
        match r {
            Some((t, p)) => {
                &&& sp_qstring(s@, pos as int) == Some((t@, p as int))
                &&& pos < p <= s@.len()
            },
            None => sp_qstring(s@, pos as int) is None,
        },
{
    if pos < s.len() && s[pos] == '"' {
        match p_qstring_tail(s, pos + 1, Vec::new()) {
            Some((t, p)) => Some((chars_to_string(&t), p)),
            None => None,
        }
    } else {
        None
    }
}

// ---------------------------------------------------------------------------
// Names and tokens
// ---------------------------------------------------------------------------

/// Collects name characters from `pos` onward; stops at the first character
/// that cannot be part of a name.  Always succeeds (the collected run may
/// stay empty).
pub open spec fn sp_name_tail(s: Seq<char>, pos: int, acc: Seq<char>) -> (Seq<char>, int)
    decreases s.len() - pos,
{
    if 0 <= pos < s.len() && spec_is_name_char(s[pos]) {
        sp_name_tail(s, pos + 1, acc.push(s[pos]))
    } else {
        (acc, pos)
    }
}

/// A nonempty name starting at `pos`, or `None` when the character there
/// cannot begin a name.
pub open spec fn sp_name(s: Seq<char>, pos: int) -> Option<(Seq<char>, int)> {
    if 0 <= pos < s.len() && spec_is_name_char(s[pos]) {
        Some(sp_name_tail(s, pos, Seq::empty()))
    } else {
        None
    }
}

fn p_name_tail(s: &Vec<char>, pos: usize, acc: Vec<char>) -> (r: (Vec<char>, usize))
    requires
        pos <= s@.len(),
    ensures
        sp_name_tail(s@, pos as int, acc@) == (r.0@, r.1 as int),
        pos <= r.1 <= s@.len(),
        pos < s@.len() && spec_is_name_char(s@[pos as int]) ==> r.1 > pos,
    decreases s@.len() - pos,
{
    if pos < s.len() && is_name_char(s[pos]) {
        let c = s[pos];
        let mut acc2 = acc;
        acc2.push(c);
        p_name_tail(s, pos + 1, acc2)
    } else {
        (acc, pos)
    }
}

fn p_name(s: &Vec<char>, pos: usize) -> (r: Option<(String, usize)>)
    requires
        pos <= s@.len(),
    ensures
        match r {
            Some((t, p)) => {
                &&& sp_name(s@, pos as int) == Some((t@, p as int))
                &&& pos < p <= s@.len()
            },
            None => sp_name(s@, pos as int) is None,
        },
{
    if pos < s.len() && is_name_char(s[pos]) {
        let (t, p) = p_name_tail(s, pos, Vec::new());
        Some((chars_to_string(&t), p))
    } else {
        None
    }
}

/// Accumulates the decimal digits of a correlation token.  `None` reports a
/// token too large for 64 bits, which the grammar rejects.
pub open spec fn sp_token_tail(s: Seq<char>, pos: int, acc: u64) -> Option<(u64, int)>
    decreases s.len() - pos,
{
    if 0 <= pos < s.len() && spec_is_digit(s[pos]) {
        let d = (s[pos] as u32 - 48) as int;
        if acc * 10 + d > u64::MAX {
            None
        } else {
            sp_token_tail(s, pos + 1, (acc * 10 + d) as u64)
        }
    } else {
        Some((acc, pos))
    }
}

/// The optional leading numeric token: `Some((None, 0))` when the line does
/// not start with a digit, `None` when the digit run overflows 64 bits.
pub open spec fn sp_token(s: Seq<char>) -> Option<(Option<u64>, int)> {
    if s.len() > 0 && spec_is_digit(s[0]) {
        match sp_token_tail(s, 0, 0) {
            Some((v, p)) => Some((Some(v), p)),
            None => None,
        }
    } else {
        Some((None, 0))
    }
}

fn p_token_tail(s: &Vec<char>, pos: usize, acc: u64) -> (r: Option<(u64, usize)>)
    requires
        pos <= s@.len(),
    ensures
        match r {
            Some((v, p)) => {
                &&& sp_token_tail(s@, pos as int, acc) == Some((v, p as int))
                &&& pos <= p <= s@.len()
            },
            None => sp_token_tail(s@, pos as int, acc) is None,
        },
    decreases s@.len() - pos,
{
    if pos < s.len() && is_digit(s[pos]) {
        let d = (s[pos] as u32 - 48) as u64;
        match acc.checked_mul(10) {
            Some(m) => match m.checked_add(d) {
                Some(n) => p_token_tail(s, pos + 1, n),
                None => None,
            },
            None => None,
        }
    } else {
        Some((acc, pos))
    }
}

// ---------------------------------------------------------------------------
// Recursive values
// ---------------------------------------------------------------------------

/// One structured value starting at `pos`: a quoted string, a
/// `{name=value,...}` tuple, or a `[...]` list.  Yields the value and the
/// position just after it.  The bound checks on intermediate positions can
/// never fail (every sub-parse consumes at least one character); they make
/// the recursion manifestly well-founded.
pub open spec fn sp_value(s: Seq<char>, pos: int) -> Option<(ValueModel, int)>
    decreases s.len() - pos, 0int,
{
    if !(0 <= pos < s.len()) {
        None
    } else if s[pos] == '"' {
        match sp_qstring(s, pos) {
            Some((t, p)) => Some((ValueModel::Str(t), p)),
            None => None,
        }
    } else if s[pos] == '{' {
        if pos + 1 < s.len() && s[pos + 1] == '}' {
            Some((ValueModel::Tuple(Seq::empty()), pos + 2))
        } else {
            match sp_tuple_fields(s, pos + 1, Seq::empty()) {
                Some((fs, p)) => Some((ValueModel::Tuple(fs), p)),
                None => None,
            }
        }
    } else if s[pos] == '[' {
        if pos + 1 < s.len() && s[pos + 1] == ']' {
            Some((ValueModel::List(Seq::empty()), pos + 2))
        } else {
            match sp_list_items(s, pos + 1, Seq::empty()) {
                Some((items, p)) => Some((ValueModel::List(items), p)),
                None => None,
            }
        }
    } else {
        None
    }
}

/// One or more `name=value` fields of a tuple, from just inside the opening
/// brace to just after the closing brace.  A repeated field name is
/// rejected, so tuple field names stay unique.
pub open spec fn sp_tuple_fields(s: Seq<char>, pos: int, acc: Seq<FieldModel>) -> Option<
    (Seq<FieldModel>, int),
>
    decreases s.len() - pos, 1int,
{
    match sp_name(s, pos) {
        None => None,
        Some((nm, p1)) => {
            if !(pos < p1 <= s.len()) {
                None
            } else if spec_field_lookup(acc, nm) is Some {
                None
            } else if p1 < s.len() && s[p1] == '=' {
                match sp_value(s, p1 + 1) {
                    None => None,
                    Some((v, p2)) => {
                        if !(p1 + 1 < p2 <= s.len()) {
                            None
                        } else {
                            let acc2 = acc.push(FieldModel { name: nm, value: v });
                            if p2 < s.len() && s[p2] == ',' {
                                sp_tuple_fields(s, p2 + 1, acc2)
                            } else if p2 < s.len() && s[p2] == '}' {
                                Some((acc2, p2 + 1))
                            } else {
                                None
                            }
                        }
                    },
                }
            } else {
                None
            }
        },
    }
}

/// One or more list elements, from just inside the opening bracket to just
/// after the closing bracket.  An element beginning with a value opener is a
/// bare value; anything else must be a `name=value` field.
pub open spec fn sp_list_items(s: Seq<char>, pos: int, acc: Seq<ItemModel>) -> Option<
    (Seq<ItemModel>, int),
>
    decreases s.len() - pos, 1int,
{
    if !(0 <= pos < s.len()) {
        None
    } else if s[pos] == '"' || s[pos] == '{' || s[pos] == '[' {
        match sp_value(s, pos) {
            None => None,
            Some((v, p2)) => {
                if !(pos < p2 <= s.len()) {
                    None
                } else {
                    let acc2 = acc.push(ItemModel::Plain(v));
                    if p2 < s.len() && s[p2] == ',' {
                        sp_list_items(s, p2 + 1, acc2)
                    } else if p2 < s.len() && s[p2] == ']' {
                        Some((acc2, p2 + 1))
                    } else {
                        None
                    }
                }
            },
        }
    } else {
        match sp_name(s, pos) {
            None => None,
            Some((nm, p1)) => {
                if !(pos < p1 <= s.len()) {
                    None
                } else if p1 < s.len() && s[p1] == '=' {
                    match sp_value(s, p1 + 1) {
                        None => None,
                        Some((v, p2)) => {
                            if !(p1 + 1 < p2 <= s.len()) {
                                None
                            } else {
                                let acc2 = acc.push(
                                    ItemModel::Named(FieldModel { name: nm, value: v }),
                                );
                                if p2 < s.len() && s[p2] == ',' {
                                    sp_list_items(s, p2 + 1, acc2)
                                } else if p2 < s.len() && s[p2] == ']' {
                                    Some((acc2, p2 + 1))
                                } else {
                                    None
                                }
                            }
                        },
                    }
                } else {
                    None
                }
            },
        }
    }
}

/// True when a field of this name is already present.
fn has_field(fields: &Vec<Variable>, name: &str) -> (r: bool)
    ensures
        r == (spec_field_lookup(spec_fields_model(fields@), name@) is Some),
{
    proof {
        lemma_fields_model_len(fields@);
        assert(spec_fields_model(fields@).skip(0) =~= spec_fields_model(fields@));
    }
    let ghost all = spec_fields_model(fields@);
    let mut i: usize = 0;
    while i < fields.len()
        invariant
            i <= fields@.len(),
            all == spec_fields_model(fields@),
            all.len() == fields@.len(),
            spec_field_lookup(all, name@) == spec_field_lookup(all.skip(i as int), name@),
        decreases fields@.len() - i,
    {
        proof {
            lemma_fields_model_index(fields@, i as int);
            assert(all.skip(i as int)[0] == all[i as int]);
            assert(all.skip(i as int).drop_first() =~= all.skip(i + 1));
        }
        if crate::msg::str_eq_str(fields[i].name.as_str(), name) {
            return true;
        }
        i = i + 1;
    }
    assert(all.skip(fields@.len() as int).len() == 0);
    false
}

fn p_value(s: &Vec<char>, pos: usize) -> (r: Option<(Value, usize)>)
    requires
        pos <= s@.len(),
    ensures
        match r {
            Some((v, p)) => {
                &&& sp_value(s@, pos as int) == Some((v.model(), p as int))
                &&& pos < p <= s@.len()
            },
            None => sp_value(s@, pos as int) is None,
        },
    decreases s@.len() - pos, 0int,
{
    if pos >= s.len() {
        return None;
    }
    let c = s[pos];
    if c == '"' {
        match p_qstring(s, pos) {
            Some((t, p)) => Some((Value::Str(t), p)),
            None => None,
        }
    } else if c == '{' {
        if pos + 1 < s.len() && s[pos + 1] == '}' {
            let v = Value::Tuple(Vec::new());
            assert(v.model() == ValueModel::Tuple(Seq::<FieldModel>::empty()));
            Some((v, pos + 2))
        } else {
            match p_tuple_fields(s, pos + 1, Vec::new()) {
                Some((fs, p)) => Some((Value::Tuple(fs), p)),
                None => None,
            }
        }
    } else if c == '[' {
        if pos + 1 < s.len() && s[pos + 1] == ']' {
            let v = Value::List(Vec::new());
            assert(v.model() == ValueModel::List(Seq::<ItemModel>::empty()));
            Some((v, pos + 2))
        } else {
            match p_list_items(s, pos + 1, Vec::new()) {
                Some((items, p)) => Some((Value::List(items), p)),
                None => None,
            }
        }
    } else {
        None
    }
}

fn p_tuple_fields(s: &Vec<char>, pos: usize, acc: Vec<Variable>) -> (r: Option<
    (Vec<Variable>, usize),
>)
    requires
        pos <= s@.len(),
    ensures
        match r {
            Some((fs, p)) => {
                &&& sp_tuple_fields(s@, pos as int, spec_fields_model(acc@)) == Some(
                    (spec_fields_model(fs@), p as int),
                )
                &&& pos < p <= s@.len()
            },
            None => sp_tuple_fields(s@, pos as int, spec_fields_model(acc@)) is None,
        },
    decreases s@.len() - pos, 1int,
{
    match p_name(s, pos) {
        None => None,
        Some((nm, p1)) => {
            if has_field(&acc, nm.as_str()) {
                return None;
            }
            if p1 < s.len() && s[p1] == '=' {
                match p_value(s, p1 + 1) {
                    None => None,
                    Some((v, p2)) => {
                        let field = Variable { name: nm, value: v };
                        proof {
                            lemma_fields_model_push(acc@, field);
                        }
                        let mut acc2 = acc;
                        acc2.push(field);
                        if p2 < s.len() && s[p2] == ',' {
                            p_tuple_fields(s, p2 + 1, acc2)
                        } else if p2 < s.len() && s[p2] == '}' {
                            Some((acc2, p2 + 1))
                        } else {
                            None
                        }
                    },
                }
            } else {
                None
            }
        },
    }
}

fn p_list_items(s: &Vec<char>, pos: usize, acc: Vec<ListItem>) -> (r: Option<
    (Vec<ListItem>, usize),
>)
    requires
        pos <= s@.len(),
    ensures
        match r {
            Some((items, p)) => {
                &&& sp_list_items(s@, pos as int, spec_items_model(acc@)) == Some(
                    (spec_items_model(items@), p as int),
                )
                &&& pos < p <= s@.len()
            },
            None => sp_list_items(s@, pos as int, spec_items_model(acc@)) is None,
        },
    decreases s@.len() - pos, 1int,
{
    if pos >= s.len() {
        return None;
    }
    let c = s[pos];
    if c == '"' || c == '{' || c == '[' {
        match p_value(s, pos) {
            None => None,
            Some((v, p2)) => {
                let item = ListItem::Plain(v);
                proof {
                    lemma_items_model_push(acc@, item);
                }
                let mut acc2 = acc;
                acc2.push(item);
                if p2 < s.len() && s[p2] == ',' {
                    p_list_items(s, p2 + 1, acc2)
                } else if p2 < s.len() && s[p2] == ']' {
                    Some((acc2, p2 + 1))
                } else {
                    None
                }
            },
        }
    } else {
        match p_name(s, pos) {
            None => None,
            Some((nm, p1)) => {
                if p1 < s.len() && s[p1] == '=' {
                    match p_value(s, p1 + 1) {
                        None => None,
                        Some((v, p2)) => {
                            let item = ListItem::Named(Variable { name: nm, value: v });
                            proof {
                                lemma_items_model_push(acc@, item);
                            }
                            let mut acc2 = acc;
                            acc2.push(item);
                            if p2 < s.len() && s[p2] == ',' {
                                p_list_items(s, p2 + 1, acc2)
                            } else if p2 < s.len() && s[p2] == ']' {
                                Some((acc2, p2 + 1))
                            } else {
                                None
                            }
                        },
                    }
                } else {
                    None
                }
            },
        }
    }
}

fn p_token(s: &Vec<char>) -> (r: Option<(Option<u64>, usize)>)
    ensures
        match r {
            Some((v, p)) => {
                &&& sp_token(s@) == Some((v, p as int))
                &&& p <= s@.len()
            },
            None => sp_token(s@) is None,
        },
{
    if s.len() > 0 && is_digit(s[0]) {
        match p_token_tail(s, 0, 0) {
            Some((v, p)) => Some((Some(v), p)),
            None => None,
        }
    } else {
        Some((None, 0))
    }
}

// ---------------------------------------------------------------------------
// Records
// ---------------------------------------------------------------------------

/// Zero or more `,name=value` attribute pairs running to the end of the
/// line.  A repeated attribute name is rejected, as in a tuple.
pub open spec fn sp_attrs(s: Seq<char>, pos: int, acc: Seq<FieldModel>) -> Option<
    (Seq<FieldModel>, int),
>
    decreases s.len() - pos,
{
    if pos == s.len() {
        Some((acc, pos))
    } else if 0 <= pos < s.len() && s[pos] == ',' {
        match sp_name(s, pos + 1) {
            None => None,
            Some((nm, p1)) => {
                if !(pos + 1 < p1 <= s.len()) {
                    None
                } else if spec_field_lookup(acc, nm) is Some {
                    None
                } else if p1 < s.len() && s[p1] == '=' {
                    match sp_value(s, p1 + 1) {
                        None => None,
                        Some((v, p2)) => {
                            if !(p1 + 1 < p2 <= s.len()) {
                                None
                            } else {
                                sp_attrs(s, p2, acc.push(FieldModel { name: nm, value: v }))
                            }
                        },
                    }
                } else {
                    None
                }
            },
        }
    } else {
        None
    }
}

fn p_attrs(s: &Vec<char>, pos: usize, acc: Vec<Variable>) -> (r: Option<(Vec<Variable>, usize)>)
    requires
        pos <= s@.len(),
    ensures
        match r {
            Some((fs, p)) => {
                &&& sp_attrs(s@, pos as int, spec_fields_model(acc@)) == Some(
                    (spec_fields_model(fs@), p as int),
                )
                &&& pos <= p <= s@.len()
            },
            None => sp_attrs(s@, pos as int, spec_fields_model(acc@)) is None,
        },
    decreases s@.len() - pos,
{
    if pos == s.len() {
        return Some((acc, pos));
    }
    if s[pos] == ',' {
        match p_name(s, pos + 1) {
            None => None,
            Some((nm, p1)) => {
                if has_field(&acc, nm.as_str()) {
                    return None;
                }
                if p1 < s.len() && s[p1] == '=' {
                    match p_value(s, p1 + 1) {
                        None => None,
                        Some((v, p2)) => {
                            let field = Variable { name: nm, value: v };
                            proof {
                                lemma_fields_model_push(acc@, field);
                            }
                            let mut acc2 = acc;
                            acc2.push(field);
                            p_attrs(s, p2, acc2)
                        },
                    }
                } else {
                    None
                }
            },
        }
    } else {
        None
    }
}

/// The closed set of Result record classes.  Any other keyword after `^` is
/// a parse failure.
pub open spec fn sp_result_class(kw: Seq<char>) -> Option<ResultClass> {
    if kw == "done"@ {
        Some(ResultClass::Done)
    } else if kw == "running"@ {
        Some(ResultClass::Running)
    } else if kw == "connected"@ {
        Some(ResultClass::Connected)
    } else if kw == "error"@ {
        Some(ResultClass::Error)
    } else if kw == "exit"@ {
        Some(ResultClass::Exit)
    } else {
        None
    }
}

fn result_class(kw: &str) -> (r: Option<ResultClass>)
    ensures
        r == sp_result_class(kw@),
{
    if crate::msg::str_eq_str(kw, "done") {
        Some(ResultClass::Done)
    } else if crate::msg::str_eq_str(kw, "running") {
        Some(ResultClass::Running)
    } else if crate::msg::str_eq_str(kw, "connected") {
        Some(ResultClass::Connected)
    } else if crate::msg::str_eq_str(kw, "error") {
        Some(ResultClass::Error)
    } else if crate::msg::str_eq_str(kw, "exit") {
        Some(ResultClass::Exit)
    } else {
        None
    }
}

/// A Result record's class keyword and attributes, starting just after the
/// `^` sigil and running to the end of the line.
pub open spec fn sp_result_msg(s: Seq<char>, pos: int, tok: Option<u64>) -> Option<
    MessageModel<ResultClass>,
> {
    match sp_name(s, pos) {
        None => None,
        Some((kw, p1)) => {
            if !(pos < p1 <= s.len()) {
                None
            } else {
                match sp_result_class(kw) {
                    None => None,
                    Some(cls) => match sp_attrs(s, p1, Seq::empty()) {
                        None => None,
                        Some((content, _p2)) => Some(
                            MessageModel { token: tok, class: cls, content },
                        ),
                    },
                }
            }
        },
    }
}

/// An Async record's body: a nonempty class keyword (an open set, so it is
/// validated and not retained; the async category is the sigil's) followed
/// by attributes to the end of the line.
pub open spec fn sp_async_msg(s: Seq<char>, pos: int, tok: Option<u64>, cls: AsyncClass) -> Option<
    MessageModel<AsyncClass>,
> {
    match sp_name(s, pos) {
        None => None,
        Some((kw, p1)) => {
            if !(pos < p1 <= s.len()) {
                None
            } else {
                match sp_attrs(s, p1, Seq::empty()) {
                    None => None,
                    Some((content, _p2)) => Some(MessageModel { token: tok, class: cls, content }),
                }
            }
        },
    }
}

/// A Stream record's body: one quoted string that must run to the end of
/// the line.
pub open spec fn sp_stream_text(s: Seq<char>, pos: int) -> Option<Seq<char>> {
    match sp_qstring(s, pos) {
        Some((t, p)) => if p == s.len() {
            Some(t)
        } else {
            None
        },
        None => None,
    }
}

fn p_result_msg(s: &Vec<char>, pos: usize, tok: Option<u64>) -> (r: Option<
    MessageRecord<ResultClass>,
>)
    requires
        pos <= s@.len(),
    ensures
        match r {
            Some(m) => sp_result_msg(s@, pos as int, tok) == Some(m.model()),
            None => sp_result_msg(s@, pos as int, tok) is None,
        },
{
    proof {
        assert(spec_fields_model(Seq::<Variable>::empty()) =~= Seq::<FieldModel>::empty());
    }
    match p_name(s, pos) {
        None => None,
        Some((kw, p1)) => match result_class(kw.as_str()) {
            None => None,
            Some(cls) => match p_attrs(s, p1, Vec::new()) {
                None => None,
                Some((content, _p2)) => Some(MessageRecord { token: tok, class: cls, content }),
            },
        },
    }
}

fn p_async_msg(s: &Vec<char>, pos: usize, tok: Option<u64>, cls: AsyncClass) -> (r: Option<
    MessageRecord<AsyncClass>,
>)
    requires
        pos <= s@.len(),
    ensures
        match r {
            Some(m) => sp_async_msg(s@, pos as int, tok, cls) == Some(m.model()),
            None => sp_async_msg(s@, pos as int, tok, cls) is None,
        },
{
    proof {
        assert(spec_fields_model(Seq::<Variable>::empty()) =~= Seq::<FieldModel>::empty());
    }
    match p_name(s, pos) {
        None => None,
        Some((_kw, p1)) => match p_attrs(s, p1, Vec::new()) {
            None => None,
            Some((content, _p2)) => Some(MessageRecord { token: tok, class: cls, content }),
        },
    }
}

fn p_stream_text(s: &Vec<char>, pos: usize) -> (r: Option<String>)
    requires
        pos <= s@.len(),
    ensures
        match r {
            Some(t) => sp_stream_text(s@, pos as int) == Some(t@),
            None => sp_stream_text(s@, pos as int) is None,
        },
{
    match p_qstring(s, pos) {
        Some((t, p)) => if p == s.len() {
            Some(t)
        } else {
            None
        },
        None => None,
    }
}

// ---------------------------------------------------------------------------
// Uniqueness of parsed field names
// ---------------------------------------------------------------------------

proof fn lemma_lookup_none_no_match(fields: Seq<FieldModel>, name: Seq<char>)
    requires
        spec_field_lookup(fields, name) is None,
    ensures
        forall|i: int| 0 <= i < fields.len() ==> fields[i].name != name,
    decreases fields.len(),
{
    if fields.len() > 0 {
        lemma_lookup_none_no_match(fields.drop_first(), name);
        assert forall|i: int| 0 <= i < fields.len() implies fields[i].name != name by {
            if i > 0 {
                assert(fields.drop_first()[i - 1] == fields[i]);
            }
        }
    }
}

proof fn lemma_unique_push(acc: Seq<FieldModel>, f: FieldModel)
    requires
        spec_fields_unique(acc),
        spec_field_lookup(acc, f.name) is None,
    ensures
        spec_fields_unique(acc.push(f)),
{
    lemma_lookup_none_no_match(acc, f.name);
    assert forall|i: int, j: int| 0 <= i < j < acc.len() + 1 implies acc.push(f)[i].name
        != acc.push(f)[j].name by {
        if j < acc.len() {
            assert(acc.push(f)[i] == acc[i] && acc.push(f)[j] == acc[j]);
        } else {
            assert(acc.push(f)[i] == acc[i] && acc.push(f)[j] == f);
        }
    }
}

proof fn lemma_tuple_fields_unique_from(s: Seq<char>, pos: int, acc: Seq<FieldModel>)
    requires
        spec_fields_unique(acc),
        sp_tuple_fields(s, pos, acc) is Some,
    ensures
        sp_tuple_fields(s, pos, acc) matches Some((fs, _p)) ==> spec_fields_unique(fs),
    decreases s.len() - pos, 1int,
{
    let (nm, p1) = sp_name(s, pos)->0;
    let (v, p2) = sp_value(s, p1 + 1)->0;
    let acc2 = acc.push(FieldModel { name: nm, value: v });
    lemma_unique_push(acc, FieldModel { name: nm, value: v });
    if p2 < s.len() && s[p2] == ',' {
        lemma_tuple_fields_unique_from(s, p2 + 1, acc2);
    }
}

/// Field names are unique within every parsed tuple body: the grammar
/// rejects a repeated name rather than overwriting an earlier field.
pub proof fn lemma_tuple_fields_unique(s: Seq<char>, pos: int)
    requires
        sp_tuple_fields(s, pos, Seq::empty()) is Some,
    ensures
        sp_tuple_fields(s, pos, Seq::empty()) matches Some((fs, _p)) ==> spec_fields_unique(fs),
{
    lemma_tuple_fields_unique_from(s, pos, Seq::empty());
}

proof fn lemma_attrs_unique_from(s: Seq<char>, pos: int, acc: Seq<FieldModel>)
    requires
        spec_fields_unique(acc),
        sp_attrs(s, pos, acc) is Some,
    ensures
        sp_attrs(s, pos, acc) matches Some((fs, _p)) ==> spec_fields_unique(fs),
    decreases s.len() - pos,
{
    if pos == s.len() {
    } else {
        let (nm, p1) = sp_name(s, pos + 1)->0;
        let (v, p2) = sp_value(s, p1 + 1)->0;
        let f = FieldModel { name: nm, value: v };
        lemma_unique_push(acc, f);
        lemma_attrs_unique_from(s, p2, acc.push(f));
    }
}

/// Attribute names are unique within every parsed result or async record,
/// by the same rejection rule as tuple fields.
pub proof fn lemma_attrs_unique(s: Seq<char>, pos: int)
    requires
        sp_attrs(s, pos, Seq::empty()) is Some,
    ensures
        sp_attrs(s, pos, Seq::empty()) matches Some((fs, _p)) ==> spec_fields_unique(fs),
{
    lemma_attrs_unique_from(s, pos, Seq::empty());
}

// ---------------------------------------------------------------------------
// Escaping
// ---------------------------------------------------------------------------

/// The escaped wire form of one character: `"`, `\`, newline, tab and
/// carriage return become backslash escapes; everything else stands as it
/// is.
pub open spec fn spec_escape_char(c: char) -> Seq<char> {
    if c == '"' {
        seq!['\\', '"']
    } else if c == '\\' {
        seq!['\\', '\\']
    } else if c == '\n' {
        seq!['\\', 'n']
    } else if c == '\t' {
        seq!['\\', 't']
    } else if c == '\r' {
        seq!['\\', 'r']
    } else {
        seq![c]
    }
}

/// The escaped wire form of a text: each character's escaped form, in
/// order, without the surrounding quotes.
pub open spec fn spec_escape(t: Seq<char>) -> Seq<char>
    decreases t.len(),
{
    if t.len() == 0 {
        Seq::empty()
    } else {
        spec_escape_char(t[0]) + spec_escape(t.drop_first())
    }
}

fn escape_from(s: &Vec<char>, i: usize) -> (r: Vec<char>)
    requires
        i <= s@.len(),
    ensures
        r@ == spec_escape(s@.skip(i as int)),
    decreases s@.len() - i,
{
    if i >= s.len() {
        let r: Vec<char> = Vec::new();
        assert(s@.skip(i as int) =~= Seq::<char>::empty());
        return r;
    }
    let c = s[i];
    let mut head: Vec<char> = Vec::new();
    if c == '"' {
        head.push('\\');
        head.push('"');
    } else if c == '\\' {
        head.push('\\');
        head.push('\\');
    } else if c == '\n' {
        head.push('\\');
        head.push('n');
    } else if c == '\t' {
        head.push('\\');
        head.push('t');
    } else if c == '\r' {
        head.push('\\');
        head.push('r');
    } else {
        head.push(c);
    }
    assert(head@ =~= spec_escape_char(s@[i as int]));
    let mut rest = escape_from(s, i + 1);
    let ghost rest0 = rest@;
    head.append(&mut rest);
    proof {
        assert(s@.skip(i as int)[0] == s@[i as int]);
        assert(s@.skip(i as int).drop_first() =~= s@.skip(i + 1));
    }
    head
}

/// Encodes a text with the same escaping rules the parser decodes:
/// exactly `spec_escape` of the input, without the surrounding quotes.
pub fn escape_text(s: &str) -> (r: String)
    ensures
        r@ == spec_escape(s@),
{
    let chars = str_to_chars(s);
    let v = escape_from(&chars, 0);
    proof {
        assert(chars@.skip(0) =~= chars@);
    }
    chars_to_string(&v)
}

proof fn lemma_unescape_escape_from(s: Seq<char>, pos: int, t: Seq<char>, acc: Seq<char>)
    requires
        0 <= pos <= s.len(),
        s.subrange(pos, s.len() as int) == spec_escape(t) + seq!['"'],
    ensures
        sp_qstring_tail(s, pos, acc) == Some((acc + t, s.len() as int)),
    decreases t.len(),
{
    let suffix = s.subrange(pos, s.len() as int);
    if t.len() == 0 {
        assert(spec_escape(t) =~= Seq::<char>::empty());
        assert(suffix =~= seq!['"']);
        assert(s[pos] == suffix[0]);
        assert(pos + 1 == s.len());
        assert(acc + t =~= acc);
    } else {
        let c = t[0];
        let e = spec_escape_char(c);
        let t2 = t.drop_first();
        assert(spec_escape(t) == e + spec_escape(t2));
        assert(e.len() == 1 || e.len() == 2);
        assert(suffix.len() == spec_escape(t).len() + 1);
        assert(suffix.len() >= 2);
        assert(pos < s.len());
        assert(s[pos] == suffix[0]);
        assert(suffix[0] == e[0]);
        if c == '"' || c == '\\' || c == '\n' || c == '\t' || c == '\r' {
            assert(e.len() == 2);
            assert(suffix.len() >= 3);
            assert(pos + 1 < s.len());
            assert(s[pos] == '\\');
            assert(s[pos + 1] == suffix[1]);
            assert(suffix[1] == e[1]);
            assert(spec_escape_code(e[1]) == Some(c));
            assert forall|j: int| 0 <= j < (s.len() - pos - 2) implies #[trigger] s.subrange(
                pos + 2,
                s.len() as int,
            )[j] == (spec_escape(t2) + seq!['"'])[j] by {
                assert(s.subrange(pos + 2, s.len() as int)[j] == s[pos + 2 + j]);
                assert(suffix[2 + j] == s[pos + 2 + j]);
                assert(suffix[2 + j] == (spec_escape(t2) + seq!['"'])[j]);
            }
            assert(s.subrange(pos + 2, s.len() as int) =~= spec_escape(t2) + seq!['"']);
            lemma_unescape_escape_from(s, pos + 2, t2, acc.push(c));
            assert(acc.push(c) + t2 =~= acc + t);
        } else {
            assert(e.len() == 1);
            assert(s[pos] == c);
            assert forall|j: int| 0 <= j < (s.len() - pos - 1) implies #[trigger] s.subrange(
                pos + 1,
                s.len() as int,
            )[j] == (spec_escape(t2) + seq!['"'])[j] by {
                assert(s.subrange(pos + 1, s.len() as int)[j] == s[pos + 1 + j]);
                assert(suffix[1 + j] == s[pos + 1 + j]);
                assert(suffix[1 + j] == (spec_escape(t2) + seq!['"'])[j]);
            }
            assert(s.subrange(pos + 1, s.len() as int) =~= spec_escape(t2) + seq!['"']);
            lemma_unescape_escape_from(s, pos + 1, t2, acc.push(c));
            assert(acc.push(c) + t2 =~= acc + t);
        }
    }
}

/// Round trip of string escaping: decoding the escaped form of any text,
/// written between quotes, yields exactly that text again, consuming the
/// whole quoted literal.  Together with `escape_text`'s contract this says
/// that decoding an escaped string value and re-encoding it with the same
/// rules reproduces the original wire text.
pub proof fn lemma_escape_round_trip(t: Seq<char>)
    ensures
        sp_qstring(seq!['"'] + spec_escape(t) + seq!['"'], 0) == Some(
            (t, spec_escape(t).len() + 2int),
        ),
{
    let s = seq!['"'] + spec_escape(t) + seq!['"'];
    assert(s[0] == '"');
    assert(s.subrange(1, s.len() as int) =~= spec_escape(t) + seq!['"']);
    lemma_unescape_escape_from(s, 1, t, Seq::empty());
    assert(Seq::<char>::empty() + t =~= t);
}

// ---------------------------------------------------------------------------
// Whole lines
// ---------------------------------------------------------------------------

/// What one protocol line means: a record, something well-formed but empty
/// of information, or a grammar violation.
pub enum LineOutcome {
    Rec(RecordModel),
    Ignored,
    Malformed,
}

/// The line with its terminator (`\n`, `\r\n`, or a stray trailing `\r`)
/// removed.
pub open spec fn spec_strip_terminator(l: Seq<char>) -> Seq<char> {
    let a = if l.len() > 0 && l[l.len() - 1] == '\n' {
        l.drop_last()
    } else {
        l
    };
    if a.len() > 0 && a[a.len() - 1] == '\r' {
        a.drop_last()
    } else {
        a
    }
}

/// The meaning of one protocol line.
///
/// After stripping the terminator: an empty line is `Ignored`; otherwise an
/// optional numeric token is read, the sigil dispatches on the record kind,
/// and the rest of the line must parse exactly to its end.
pub open spec fn sp_parse_line(l: Seq<char>) -> LineOutcome {
    let s = spec_strip_terminator(l);
    if s.len() == 0 {
        LineOutcome::Ignored
    } else {
        match sp_token(s) {
            None => LineOutcome::Malformed,
            Some((tok, p0)) => {
                if !(0 <= p0 < s.len()) {
                    LineOutcome::Malformed
                } else {
                    let c = s[p0];
                    if c == '^' {
                        match sp_result_msg(s, p0 + 1, tok) {
                            Some(m) => LineOutcome::Rec(RecordModel::Result(m)),
                            None => LineOutcome::Malformed,
                        }
                    } else if c == '*' || c == '+' || c == '=' {
                        let cls = if c == '*' {
                            AsyncClass::Exec
                        } else if c == '+' {
                            AsyncClass::Status
                        } else {
                            AsyncClass::Notify
                        };
                        match sp_async_msg(s, p0 + 1, tok, cls) {
                            Some(m) => LineOutcome::Rec(RecordModel::Async(m)),
                            None => LineOutcome::Malformed,
                        }
                    } else if c == '~' || c == '@' || c == '&' {
                        let kind = if c == '~' {
                            StreamKind::Console
                        } else if c == '@' {
                            StreamKind::Target
                        } else {
                            StreamKind::Log
                        };
                        match sp_stream_text(s, p0 + 1) {
                            Some(t) => LineOutcome::Rec(RecordModel::Stream(kind, t)),
                            None => LineOutcome::Malformed,
                        }
                    } else {
                        LineOutcome::Malformed
                    }
                }
            },
        }
    }
}

/// The sigil character of a line: the character right after the optional
/// numeric token, once the terminator is stripped.
pub open spec fn spec_sigil_of(l: Seq<char>) -> Option<char> {
    let s = spec_strip_terminator(l);
    match sp_token(s) {
        Some((_tok, p0)) => if 0 <= p0 < s.len() {
            Some(s[p0])
        } else {
            None
        },
        None => None,
    }
}

/// Every record a well-formed line yields matches the line's sigil: `^`
/// gives a Result record; `*`, `+` and `=` give Async records of the exec,
/// status and notify categories; `~`, `@` and `&` give Stream records of
/// the console, target and log kinds.
pub proof fn lemma_record_matches_sigil(l: Seq<char>, r: RecordModel)
    requires
        sp_parse_line(l) == LineOutcome::Rec(r),
    ensures
        ({
            let sig = spec_sigil_of(l);
            &&& sig is Some
            &&& (sig matches Some(c) ==> {
                &&& (r is Result <==> c == '^')
                &&& (r is Async <==> (c == '*' || c == '+' || c == '='))
                &&& (r is Stream <==> (c == '~' || c == '@' || c == '&'))
                &&& (r matches RecordModel::Async(m) ==> {
                    &&& (m.class == AsyncClass::Exec <==> c == '*')
                    &&& (m.class == AsyncClass::Status <==> c == '+')
                    &&& (m.class == AsyncClass::Notify <==> c == '=')
                })
                &&& (r matches RecordModel::Stream(k, _) ==> {
                    &&& (k == StreamKind::Console <==> c == '~')
                    &&& (k == StreamKind::Target <==> c == '@')
                    &&& (k == StreamKind::Log <==> c == '&')
                })
            })
        }),
{
}

/// Parses one protocol line into a record.
///
/// The result is exactly what `sp_parse_line` says of the line's text, so
/// parsing is deterministic.  A well-formed but informationless line (a
/// blank line) is reported as `IgnoredOutput`; every grammar violation is
/// `ParseError`; a transport error can never arise here.
pub fn parse_line(line: &str) -> (r: GDBResult<Record>)
    ensures
        (r matches Err(e) && e is IgnoredOutput) <==> sp_parse_line(line@) is Ignored,
        (r matches Err(e) && e is ParseError) <==> sp_parse_line(line@) is Malformed,
        r matches Ok(rec) ==> sp_parse_line(line@) == LineOutcome::Rec(rec.model()),
        r matches Err(e) ==> !(e is IOError),
{
    let mut chars = str_to_chars(line);
    if chars.len() > 0 && chars[chars.len() - 1] == '\n' {
        let _ = chars.pop();
    }
    if chars.len() > 0 && chars[chars.len() - 1] == '\r' {
        let _ = chars.pop();
    }
    proof {
        assert(chars@ =~= spec_strip_terminator(line@));
    }
    if chars.len() == 0 {
        return Err(GDBError::IgnoredOutput);
    }
    match p_token(&chars) {
        None => Err(GDBError::ParseError),
        Some((tok, p0)) => {
            if p0 >= chars.len() {
                return Err(GDBError::ParseError);
            }
            let c = chars[p0];
            if c == '^' {
                match p_result_msg(&chars, p0 + 1, tok) {
                    Some(m) => Ok(Record::Result(m)),
                    None => Err(GDBError::ParseError),
                }
            } else if c == '*' || c == '+' || c == '=' {
                let cls = if c == '*' {
                    AsyncClass::Exec
                } else if c == '+' {
                    AsyncClass::Status
                } else {
                    AsyncClass::Notify
                };
                match p_async_msg(&chars, p0 + 1, tok, cls) {
                    Some(m) => Ok(Record::Async(m)),
                    None => Err(GDBError::ParseError),
                }
            } else if c == '~' || c == '@' || c == '&' {
                let kind = if c == '~' {
                    StreamKind::Console
                } else if c == '@' {
                    StreamKind::Target
                } else {
                    StreamKind::Log
                };
                match p_stream_text(&chars, p0 + 1) {
                    Some(t) => Ok(Record::Stream(kind, t)),
                    None => Err(GDBError::ParseError),
                }
            } else {
                Err(GDBError::ParseError)
            }
        },
    }
}

} // verus!
