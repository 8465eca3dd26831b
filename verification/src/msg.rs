//! The typed representation of MI protocol data: structured values, record
//! classes, and the records one protocol line can carry, together with the
//! mathematical model each of them is specified against.

use vstd::prelude::*;

verus! {

broadcast use vstd::std_specs::vec::group_vec_axioms, vstd::seq::group_seq_axioms;

// ---------------------------------------------------------------------------
// Mathematical model
// ---------------------------------------------------------------------------

/// Model of one structured protocol value: a decoded textual scalar, a tuple
/// of named fields, or an ordered list whose elements may be named.
pub enum ValueModel {
    Str(Seq<char>),
    Tuple(Seq<FieldModel>),
    List(Seq<ItemModel>),
}

/// Model of a named field: `name=value`.
pub struct FieldModel {
    pub name: Seq<char>,
    pub value: ValueModel,
}

/// Model of one list element, which the grammar allows to be either a bare
/// value or a named field.
pub enum ItemModel {
    Plain(ValueModel),
    Named(FieldModel),
}

/// Model of a result or async message: optional correlation token, class
/// tag, and the named result attributes in the order they appeared.
pub struct MessageModel<C> {
    pub token: Option<u64>,
    pub class: C,
    pub content: Seq<FieldModel>,
}

/// Model of what one protocol line can represent.
pub enum RecordModel {
    Result(MessageModel<ResultClass>),
    Async(MessageModel<AsyncClass>),
    Stream(StreamKind, Seq<char>),
}

/// Field names within a tuple (and attribute names within a message) are
/// unique; the parser rejects a duplicate rather than overwriting.
pub open spec fn spec_fields_unique(fields: Seq<FieldModel>) -> bool {
    forall|i: int, j: int|
        0 <= i < j < fields.len() ==> fields[i].name != fields[j].name
}

// ---------------------------------------------------------------------------
// Executable representation
// ---------------------------------------------------------------------------

/// Outcome classes a Result record may carry.  The enumeration is closed: an
/// unrecognized class keyword is a parse failure, never a silent default.
#[derive(Debug, Clone, Copy, PartialEq, Eq, Structural)]
pub enum ResultClass {
    Done,
    Running,
    Connected,
    Error,
    Exit,
}

/// The three async record categories, selected by the line's sigil
/// (`*` exec, `+` status, `=` notify).
#[derive(Debug, Clone, Copy, PartialEq, Eq, Structural)]
pub enum AsyncClass {
    Exec,
    Status,
    Notify,
}

/// The three stream record kinds, selected by the line's sigil
/// (`~` console, `@` target, `&` log).
#[derive(Debug, Clone, Copy, PartialEq, Eq, Structural)]
pub enum StreamKind {
    Console,
    Target,
    Log,
}

/// One structured protocol value.
#[derive(Debug, PartialEq)]
pub enum Value {
    Str(String),
    Tuple(Vec<Variable>),
    List(Vec<ListItem>),
}

/// A named field of a tuple, or a named attribute of a message.
#[derive(Debug, PartialEq)]
pub struct Variable {
    pub name: String,
    pub value: Value,
}

/// One element of a list value.
#[derive(Debug, PartialEq)]
pub enum ListItem {
    Plain(Value),
    Named(Variable),
}

/// A parsed result or async message.
#[derive(Debug, PartialEq)]
pub struct MessageRecord<C> {
    pub token: Option<u64>,
    pub class: C,
    pub content: Vec<Variable>,
}

/// What one protocol line parses to.
#[derive(Debug, PartialEq)]
pub enum Record {
    Result(MessageRecord<ResultClass>),
    Async(MessageRecord<AsyncClass>),
    Stream(StreamKind, String),
}

// ---------------------------------------------------------------------------
// Views from the executable types to their models
// ---------------------------------------------------------------------------

impl Value {
    pub open spec fn model(self) -> ValueModel
        decreases self,
    {
        match self {
            Value::Str(s) => ValueModel::Str(s@),
            Value::Tuple(fields) => ValueModel::Tuple(spec_fields_model(fields@)),
            Value::List(items) => ValueModel::List(spec_items_model(items@)),
        }
    }
}

/// The model of a field vector: each field's model, in order.
pub open spec fn spec_fields_model(fields: Seq<Variable>) -> Seq<FieldModel>
    decreases fields,
{
    if fields.len() == 0 {
        Seq::empty()
    } else {
        seq![fields[0].model()] + spec_fields_model(fields.subrange(1, fields.len() as int))
    }
}

/// The model of a list-item vector: each item's model, in order.
pub open spec fn spec_items_model(items: Seq<ListItem>) -> Seq<ItemModel>
    decreases items,
{
    if items.len() == 0 {
        Seq::empty()
    } else {
        seq![items[0].model()] + spec_items_model(items.subrange(1, items.len() as int))
    }
}

pub broadcast proof fn lemma_fields_model_len(s: Seq<Variable>)
    ensures
        #[trigger] spec_fields_model(s).len() == s.len(),
    decreases s.len(),
{
    if s.len() > 0 {
        lemma_fields_model_len(s.subrange(1, s.len() as int));
    }
}

pub broadcast proof fn lemma_fields_model_index(s: Seq<Variable>, i: int)
    requires
        0 <= i < s.len(),
    ensures
        spec_fields_model(s).len() == s.len(),
        #[trigger] spec_fields_model(s)[i] == s[i].model(),
    decreases i,
{
    lemma_fields_model_len(s);
    if i > 0 {
        lemma_fields_model_index(s.subrange(1, s.len() as int), i - 1);
    }
}

pub broadcast proof fn lemma_items_model_len(s: Seq<ListItem>)
    ensures
        #[trigger] spec_items_model(s).len() == s.len(),
    decreases s.len(),
{
    if s.len() > 0 {
        lemma_items_model_len(s.subrange(1, s.len() as int));
    }
}

pub broadcast proof fn lemma_items_model_index(s: Seq<ListItem>, i: int)
    requires
        0 <= i < s.len(),
    ensures
        spec_items_model(s).len() == s.len(),
        #[trigger] spec_items_model(s)[i] == s[i].model(),
    decreases i,
{
    lemma_items_model_len(s);
    if i > 0 {
        lemma_items_model_index(s.subrange(1, s.len() as int), i - 1);
    }
}

impl Variable {
    pub open spec fn model(self) -> FieldModel
        decreases self,
    {
        FieldModel { name: self.name@, value: self.value.model() }
    }
}

impl ListItem {
    pub open spec fn model(self) -> ItemModel
        decreases self,
    {
        match self {
            ListItem::Plain(v) => ItemModel::Plain(v.model()),
            ListItem::Named(f) => ItemModel::Named(f.model()),
        }
    }
}

impl<C> MessageRecord<C> {
    pub open spec fn model(self) -> MessageModel<C> {
        MessageModel {
            token: self.token,
            class: self.class,
            content: spec_fields_model(self.content@),
        }
    }
}

impl Record {
    pub open spec fn model(self) -> RecordModel {
        match self {
            Record::Result(m) => RecordModel::Result(m.model()),
            Record::Async(m) => RecordModel::Async(m.model()),
            Record::Stream(kind, text) => RecordModel::Stream(kind, text@),
        }
    }
}

/// The model of a record vector: each record's model, in order.
pub open spec fn spec_records_model(rs: Seq<Record>) -> Seq<RecordModel>
    decreases rs,
{
    if rs.len() == 0 {
        Seq::empty()
    } else {
        seq![rs[0].model()] + spec_records_model(rs.subrange(1, rs.len() as int))
    }
}

pub broadcast proof fn lemma_records_model_len(s: Seq<Record>)
    ensures
        #[trigger] spec_records_model(s).len() == s.len(),
    decreases s.len(),
{
    if s.len() > 0 {
        lemma_records_model_len(s.subrange(1, s.len() as int));
    }
}

pub broadcast proof fn lemma_records_model_index(s: Seq<Record>, i: int)
    requires
        0 <= i < s.len(),
    ensures
        spec_records_model(s).len() == s.len(),
        #[trigger] spec_records_model(s)[i] == s[i].model(),
    decreases i,
{
    lemma_records_model_len(s);
    if i > 0 {
        lemma_records_model_index(s.subrange(1, s.len() as int), i - 1);
    }
}

pub proof fn lemma_fields_model_push(s: Seq<Variable>, v: Variable)
    ensures
        spec_fields_model(s.push(v)) =~= spec_fields_model(s).push(v.model()),
{
    lemma_fields_model_len(s);
    lemma_fields_model_len(s.push(v));
    assert forall|i: int| 0 <= i < s.len() + 1 implies spec_fields_model(s.push(v))[i]
        == spec_fields_model(s).push(v.model())[i] by {
        lemma_fields_model_index(s.push(v), i);
        if i < s.len() {
            lemma_fields_model_index(s, i);
            assert(s.push(v)[i] == s[i]);
        } else {
            assert(s.push(v)[i] == v);
        }
    }
}

pub proof fn lemma_items_model_push(s: Seq<ListItem>, v: ListItem)
    ensures
        spec_items_model(s.push(v)) =~= spec_items_model(s).push(v.model()),
{
    lemma_items_model_len(s);
    lemma_items_model_len(s.push(v));
    assert forall|i: int| 0 <= i < s.len() + 1 implies spec_items_model(s.push(v))[i]
        == spec_items_model(s).push(v.model())[i] by {
        lemma_items_model_index(s.push(v), i);
        if i < s.len() {
            lemma_items_model_index(s, i);
            assert(s.push(v)[i] == s[i]);
        } else {
            assert(s.push(v)[i] == v);
        }
    }
}

// ---------------------------------------------------------------------------
// Structural queries
// ---------------------------------------------------------------------------

/// The value of the first field called `name`, if any.
pub open spec fn spec_field_lookup(fields: Seq<FieldModel>, name: Seq<char>) -> Option<ValueModel>
    decreases fields.len(),
{
    if fields.len() == 0 {
        None
    } else if fields[0].name == name {
        Some(fields[0].value)
    } else {
        spec_field_lookup(fields.drop_first(), name)
    }
}

impl Value {
    /// Looks a named field up in a tuple value.  Returns `None` when `self`
    /// is not a tuple (a shape mismatch) or the field is absent.
    pub fn get_field(&self, name: &str) -> (r: Option<&Value>)
        ensures
            match self {
                Value::Tuple(_) => {
                    match r {
                        Some(v) => spec_field_lookup(self.model()->Tuple_0, name@)
                            == Some(v.model()),
                        None => spec_field_lookup(self.model()->Tuple_0, name@) is None,
                    }
                },
                _ => r is None,
            },
    {
        match self {
            Value::Tuple(fields) => {
                proof {
                    lemma_fields_model_len(fields@);
                    assert(spec_fields_model(fields@).skip(0)
                        =~= spec_fields_model(fields@));
                }
                let ghost all = spec_fields_model(fields@);
                let mut i: usize = 0;
                while i < fields.len()
                    invariant
                        i <= fields@.len(),
                        all == spec_fields_model(fields@),
                        all.len() == fields@.len(),
                        all == (*self).model()->Tuple_0,
                        self is Tuple,
                        spec_field_lookup(all, name@)
                            == spec_field_lookup(all.skip(i as int), name@),
                    decreases fields@.len() - i,
                {
                    proof {
                        lemma_fields_model_index(fields@, i as int);
                        assert(all.skip(i as int)[0] == all[i as int]);
                        assert(all.skip(i as int).drop_first() =~= all.skip(i + 1));
                    }
                    if str_eq_str(fields[i].name.as_str(), name) {
                        assert(spec_field_lookup(all.skip(i as int), name@)
                            == Some(all[i as int].value));
                        return Some(&fields[i].value);
                    }
                    i = i + 1;
                }
                assert(all.skip(fields@.len() as int).len() == 0);
                None
            },
            _ => None,
        }
    }
}

/// Character-by-character equality of two string slices.
pub fn str_eq_str(a: &str, b: &str) -> (r: bool)
    ensures
        r == (a@ == b@),
{
    let a_len = a.unicode_len();
    let b_len = b.unicode_len();
    if a_len != b_len {
        assert(a@.len() != b@.len());
        return false;
    }
    let mut i: usize = 0;
    while i < a_len
        invariant
            a_len == a@.len(),
            b_len == b@.len(),
            a@.len() == b@.len(),
            i <= a_len,
            forall|j: int| 0 <= j < i ==> a@[j] == b@[j],
        decreases a_len - i,
    {
        if a.get_char(i) != b.get_char(i) {
            return false;
        }
        i = i + 1;
    }
    proof {
        assert(a@ =~= b@);
    }
    true
}

} // verus!
