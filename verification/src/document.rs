//! The name-keyed document that records are decoded from and encoded to: what
//! every hierarchical carrier format has in common.

use vstd::prelude::*;
use crate::error::{decoded_view, DecodeError};
use crate::text::same_text;

verus! {

/// A document as a mathematical value.
pub ghost enum Doc {
    Null,
    Bool(bool),
    Number(u64),
    Decimal(Seq<char>),
    Text(Seq<char>),
    List(Seq<Doc>),
    Record(Seq<(Seq<char>, Doc)>),
}

/// One named member of a record.
#[derive(Debug)]
pub struct Field {
    pub name: String,
    pub value: Value,
}

/// A document: a scalar, a sequence of documents, or a record of named
/// documents in the order in which they were written.
#[derive(Debug)]
pub enum Value {
    /// The absent value.
    Null,
    Bool(bool),
    /// A whole number that is not negative.
    Number(u64),
    /// Any other number, negative or fractional, as it was written.
    Decimal(String),
    Text(String),
    List(Vec<Value>),
    Record(Vec<Field>),
}

/// The document that a value stands for. A sequence and a record are taken
/// place by place; the arms for places outside them are never reached.
pub open spec fn doc_of(value: Value) -> Doc
    decreases value,
{
    match value {
        Value::Null => Doc::Null,
        Value::Bool(b) => Doc::Bool(b),
        Value::Number(n) => Doc::Number(n),
        Value::Decimal(s) => Doc::Decimal(s@),
        Value::Text(s) => Doc::Text(s@),
        Value::List(items) => Doc::List(
            Seq::new(
                items.len() as nat,
                |i: int|
                    if 0 <= i < items.len() {
                        doc_of(items[i])
                    } else {
                        Doc::Null
                    },
            ),
        ),
        Value::Record(fields) => Doc::Record(
            Seq::new(
                fields.len() as nat,
                |i: int|
                    if 0 <= i < fields.len() {
                        (fields[i].name@, doc_of(fields[i].value))
                    } else {
                        (Seq::empty(), Doc::Null)
                    },
            ),
        ),
    }
}

impl View for Value {
    type V = Doc;

    open spec fn view(&self) -> Doc {
        doc_of(*self)
    }
}

/// The first member called `name` among the members from place `from` on.
pub open spec fn lookup(members: Seq<(Seq<char>, Doc)>, name: Seq<char>, from: int) -> Option<Doc>
    decreases members.len() - from,
{
    if from < 0 || from >= members.len() {
        None
    } else if members[from].0 == name {
        Some(members[from].1)
    } else {
        lookup(members, name, from + 1)
    }
}

impl Doc {
    /// The member called `name` of a record: the first of that name. A record
    /// without one lacks the field, and a document that is no record has the
    /// wrong type.
    pub open spec fn member(self, name: Seq<char>) -> Result<Doc, DecodeError> {
        match self {
            Doc::Record(members) => match lookup(members, name, 0) {
                Some(found) => Ok(found),
                None => Err(DecodeError::MissingField),
            },
            _ => Err(DecodeError::TypeMismatch),
        }
    }

    /// The characters of a text.
    pub open spec fn as_text(self) -> Result<Seq<char>, DecodeError> {
        match self {
            Doc::Text(text) => Ok(text),
            _ => Err(DecodeError::TypeMismatch),
        }
    }

    /// The value of a whole number that fits in 32 bits.
    pub open spec fn as_u32(self) -> Result<u32, DecodeError> {
        match self {
            Doc::Number(n) if n <= u32::MAX => Ok(n as u32),
            _ => Err(DecodeError::TypeMismatch),
        }
    }

    /// The value of a truth value.
    pub open spec fn as_bool(self) -> Result<bool, DecodeError> {
        match self {
            Doc::Bool(b) => Ok(b),
            _ => Err(DecodeError::TypeMismatch),
        }
    }

    /// The items of a sequence.
    pub open spec fn as_list(self) -> Result<Seq<Doc>, DecodeError> {
        match self {
            Doc::List(items) => Ok(items),
            _ => Err(DecodeError::TypeMismatch),
        }
    }

    /// The text of the member called `name`.
    pub open spec fn member_text(self, name: Seq<char>) -> Result<Seq<char>, DecodeError> {
        match self.member(name) {
            Ok(found) => found.as_text(),
            Err(e) => Err(e),
        }
    }

    /// The number of the member called `name`.
    pub open spec fn member_u32(self, name: Seq<char>) -> Result<u32, DecodeError> {
        match self.member(name) {
            Ok(found) => found.as_u32(),
            Err(e) => Err(e),
        }
    }

    /// The truth value of the member called `name`.
    pub open spec fn member_bool(self, name: Seq<char>) -> Result<bool, DecodeError> {
        match self.member(name) {
            Ok(found) => found.as_bool(),
            Err(e) => Err(e),
        }
    }
}

/// The documents of a row of values.
pub open spec fn items_view(items: Seq<Value>) -> Seq<Doc> {
    Seq::new(items.len(), |i: int| items[i]@)
}

/// The documents of a row of values that may have failed to be found.
pub open spec fn found_items(found: Result<&Vec<Value>, DecodeError>) -> Result<
    Seq<Doc>,
    DecodeError,
> {
    match found {
        Ok(items) => Ok(items_view(items@)),
        Err(e) => Err(e),
    }
}

impl Field {
    /// A member with the given name and value.
    pub fn new(name: &str, value: Value) -> (field: Field)
        ensures
            field.name@ == name@,
            field.value == value,
    {
        Field { name: name.to_owned(), value }
    }
}

impl Value {
    /// The member called `name` of a record.
    pub fn member<'a>(&'a self, name: &str) -> (found: Result<&'a Value, DecodeError>)
        ensures
            decoded_view(found) == self@.member(name@),
    {
        match self {
            Value::Record(fields) => {
                let ghost members = self@->Record_0;
                let mut at: usize = 0;
                while at < fields.len()
                    invariant
                        at <= fields.len(),
                        self@ == Doc::Record(members),
                        members.len() == fields.len(),
                        forall|i: int|
                            0 <= i < fields.len() ==> #[trigger] members[i] == (
                                fields[i].name@,
                                fields[i].value@,
                            ),
                        lookup(members, name@, 0) == lookup(members, name@, at as int),
                    decreases fields.len() - at,
                {
                    if same_text(fields[at].name.as_str(), name) {
                        return Ok(&fields[at].value);
                    }
                    at = at + 1;
                }
                Err(DecodeError::MissingField)
            },
            _ => Err(DecodeError::TypeMismatch),
        }
    }

    /// The characters of a text.
    pub fn as_text(&self) -> (found: Result<&String, DecodeError>)
        ensures
            decoded_view(found) == self@.as_text(),
    {
        match self {
            Value::Text(text) => Ok(text),
            _ => Err(DecodeError::TypeMismatch),
        }
    }

    /// The value of a whole number that fits in 32 bits.
    pub fn as_u32(&self) -> (found: Result<u32, DecodeError>)
        ensures
            found == self@.as_u32(),
    {
        match self {
            Value::Number(n) => {
                if *n <= 0xffff_ffff {
                    Ok(*n as u32)
                } else {
                    Err(DecodeError::TypeMismatch)
                }
            },
            _ => Err(DecodeError::TypeMismatch),
        }
    }

    /// The value of a truth value.
    pub fn as_bool(&self) -> (found: Result<bool, DecodeError>)
        ensures
            found == self@.as_bool(),
    {
        match self {
            Value::Bool(b) => Ok(*b),
            _ => Err(DecodeError::TypeMismatch),
        }
    }

    /// The items of a sequence.
    pub fn as_list(&self) -> (found: Result<&Vec<Value>, DecodeError>)
        ensures
            found_items(found) == self@.as_list(),
    {
        match self {
            Value::List(items) => {
                proof {
                    assert(items_view(items@) =~= self@->List_0);
                }
                Ok(items)
            },
            _ => Err(DecodeError::TypeMismatch),
        }
    }

    /// The text of the member called `name`.
    pub fn member_text<'a>(&'a self, name: &str) -> (found: Result<&'a String, DecodeError>)
        ensures
            decoded_view(found) == self@.member_text(name@),
    {
        match self.member(name) {
            Ok(value) => value.as_text(),
            Err(e) => Err(e),
        }
    }

    /// The number of the member called `name`.
    pub fn member_u32(&self, name: &str) -> (found: Result<u32, DecodeError>)
        ensures
            found == self@.member_u32(name@),
    {
        match self.member(name) {
            Ok(value) => value.as_u32(),
            Err(e) => Err(e),
        }
    }

    /// The truth value of the member called `name`.
    pub fn member_bool(&self, name: &str) -> (found: Result<bool, DecodeError>)
        ensures
            found == self@.member_bool(name@),
    {
        match self.member(name) {
            Ok(value) => value.as_bool(),
            Err(e) => Err(e),
        }
    }

    /// The text document that holds `text`.
    pub fn text(text: &str) -> (value: Value)
        ensures
            value@ == Doc::Text(text@),
    {
        Value::Text(text.to_owned())
    }

    /// The truth-value document that holds `b`.
    pub fn boolean(b: bool) -> (value: Value)
        ensures
            value@ == Doc::Bool(b),
    {
        Value::Bool(b)
    }

    /// The number document that holds `n`.
    pub fn number(n: u32) -> (value: Value)
        ensures
            value@ == Doc::Number(n as u64),
    {
        Value::Number(n as u64)
    }
}

/// Whether `doc` is a record without a member called `name`.
pub open spec fn lacks(doc: Doc, name: Seq<char>) -> bool {
    match doc {
        Doc::Record(members) => forall|i: int|
            0 <= i < members.len() ==> (#[trigger] members[i]).0 != name,
        _ => false,
    }
}

/// A record without a member of some name lacks that field: looking it up
/// fails with `MissingField`.
pub proof fn lemma_lacking_member(doc: Doc, name: Seq<char>)
    requires
        lacks(doc, name),
    ensures
        doc.member(name) == Err::<Doc, DecodeError>(DecodeError::MissingField),
        doc.member_text(name) == Err::<Seq<char>, DecodeError>(DecodeError::MissingField),
        doc.member_u32(name) == Err::<u32, DecodeError>(DecodeError::MissingField),
        doc.member_bool(name) == Err::<bool, DecodeError>(DecodeError::MissingField),
{
    lemma_lookup_misses(doc->Record_0, name, 0);
}

/// Where no member from `from` on has the name, `lookup` finds nothing.
pub proof fn lemma_lookup_misses(members: Seq<(Seq<char>, Doc)>, name: Seq<char>, from: int)
    requires
        0 <= from,
        forall|i: int| from <= i < members.len() ==> (#[trigger] members[i]).0 != name,
    ensures
        lookup(members, name, from) is None,
    decreases members.len() - from,
{
    if from < members.len() {
        lemma_lookup_misses(members, name, from + 1);
    }
}

/// A copy of a row of values, place by place.
fn clone_items(items: &Vec<Value>) -> (copy: Vec<Value>)
    ensures
        items_view(copy@) == items_view(items@),
    decreases items,
{
    let mut copy: Vec<Value> = Vec::new();
    let mut at: usize = 0;
    while at < items.len()
        invariant
            at <= items.len(),
            copy.len() == at,
            forall|i: int| 0 <= i < at ==> (#[trigger] copy[i])@ == items[i]@,
        decreases items.len() - at,
    {
        copy.push(clone_value(&items[at]));
        at = at + 1;
    }
    copy
}

/// A copy of a row of members, place by place.
fn clone_members(fields: &Vec<Field>) -> (copy: Vec<Field>)
    ensures
        members_view(copy@) == members_view(fields@),
    decreases fields,
{
    let mut copy: Vec<Field> = Vec::new();
    let mut at: usize = 0;
    while at < fields.len()
        invariant
            at <= fields.len(),
            copy.len() == at,
            forall|i: int|
                0 <= i < at ==> (#[trigger] copy[i]).name@ == fields[i].name@ && copy[i].value@
                    == fields[i].value@,
        decreases fields.len() - at,
    {
        let value = clone_value(&fields[at].value);
        copy.push(Field { name: fields[at].name.clone(), value });
        at = at + 1;
    }
    copy
}

/// A copy of a value: it stands for the same document.
pub fn clone_value(value: &Value) -> (copy: Value)
    ensures
        copy@ == value@,
    decreases value,
{
    match value {
        Value::Null => Value::Null,
        Value::Bool(b) => Value::Bool(*b),
        Value::Number(n) => Value::Number(*n),
        Value::Decimal(s) => Value::Decimal(s.clone()),
        Value::Text(s) => Value::Text(s.clone()),
        Value::List(items) => {
            let copy = Value::List(clone_items(items));
            proof {
                assert(value@->List_0 =~= items_view(items@));
                assert(copy@->List_0 =~= items_view(copy->List_0@));
            }
            copy
        },
        Value::Record(fields) => {
            let copy = Value::Record(clone_members(fields));
            proof {
                assert(value@->Record_0 =~= members_view(fields@));
                assert(copy@->Record_0 =~= members_view(copy->Record_0@));
            }
            copy
        },
    }
}

impl Clone for Value {
    /// A copy that is equal to what it copies.
    fn clone(&self) -> (copy: Value)
        ensures
            copy@ == self@,
    {
        clone_value(self)
    }
}

impl Clone for Field {
    /// A copy that is equal to what it copies.
    fn clone(&self) -> (copy: Field)
        ensures
            copy.name@ == self.name@,
            copy.value@ == self.value@,
    {
        Field { name: self.name.clone(), value: clone_value(&self.value) }
    }
}

/// Whether two rows hold equal documents at every place.
fn same_items(a: &Vec<Value>, b: &Vec<Value>) -> (equal: bool)
    ensures
        equal == (items_view(a@) == items_view(b@)),
    decreases a,
{
    if a.len() != b.len() {
        proof {
            assert(items_view(a@).len() == a.len() && items_view(b@).len() == b.len());
        }
        return false;
    }
    let mut at: usize = 0;
    while at < a.len()
        invariant
            at <= a.len(),
            a.len() == b.len(),
            forall|i: int| 0 <= i < at ==> a[i]@ == b[i]@,
        decreases a.len() - at,
    {
        if !same_value(&a[at], &b[at]) {
            proof {
                assert(items_view(b@)[at as int] == b[at as int]@);
            }
            return false;
        }
        at = at + 1;
    }
    proof {
        assert(items_view(a@) =~= items_view(b@));
    }
    true
}

/// The members of a row as pairs of a name and a document.
pub open spec fn members_view(fields: Seq<Field>) -> Seq<(Seq<char>, Doc)> {
    Seq::new(fields.len(), |i: int| (fields[i].name@, fields[i].value@))
}

/// Whether two rows hold equal members at every place.
fn same_members(a: &Vec<Field>, b: &Vec<Field>) -> (equal: bool)
    ensures
        equal == (members_view(a@) == members_view(b@)),
    decreases a,
{
    if a.len() != b.len() {
        proof {
            assert(members_view(a@).len() == a.len() && members_view(b@).len() == b.len());
        }
        return false;
    }
    let mut at: usize = 0;
    while at < a.len()
        invariant
            at <= a.len(),
            a.len() == b.len(),
            forall|i: int|
                0 <= i < at ==> a[i].name@ == b[i].name@ && (#[trigger] a[i]).value@ == b[i].value@,
        decreases a.len() - at,
    {
        if !(a[at].name == b[at].name) || !same_value(&a[at].value, &b[at].value) {
            proof {
                assert(members_view(b@)[at as int] == (b[at as int].name@, b[at as int].value@));
            }
            return false;
        }
        at = at + 1;
    }
    proof {
        assert(members_view(a@) =~= members_view(b@));
    }
    true
}

/// Whether two values stand for the same document.
pub fn same_value(a: &Value, b: &Value) -> (equal: bool)
    ensures
        equal == (a@ == b@),
    decreases a,
{
    match a {
        Value::Null => match b {
            Value::Null => true,
            _ => false,
        },
        Value::Bool(x) => match b {
            Value::Bool(y) => *x == *y,
            _ => false,
        },
        Value::Number(x) => match b {
            Value::Number(y) => *x == *y,
            _ => false,
        },
        Value::Decimal(x) => match b {
            Value::Decimal(y) => *x == *y,
            _ => false,
        },
        Value::Text(x) => match b {
            Value::Text(y) => *x == *y,
            _ => false,
        },
        Value::List(x) => match b {
            Value::List(y) => {
                proof {
                    assert(a@->List_0 =~= items_view(x@));
                    assert(b@->List_0 =~= items_view(y@));
                }
                same_items(x, y)
            },
            _ => false,
        },
        Value::Record(x) => match b {
            Value::Record(y) => {
                proof {
                    assert(a@->Record_0 =~= members_view(x@));
                    assert(b@->Record_0 =~= members_view(y@));
                }
                same_members(x, y)
            },
            _ => false,
        },
    }
}

impl PartialEq for Value {
    /// Two values are equal where they stand for the same document.
    fn eq(&self, other: &Value) -> (equal: bool) {
        same_value(self, other)
    }
}

impl vstd::std_specs::cmp::PartialEqSpecImpl for Value {
    open spec fn obeys_eq_spec() -> bool {
        true
    }

    open spec fn eq_spec(&self, other: &Value) -> bool {
        self@ == other@
    }
}

impl PartialEq for Field {
    /// Two members are equal where their names and their documents are.
    fn eq(&self, other: &Field) -> (equal: bool) {
        self.name == other.name && same_value(&self.value, &other.value)
    }
}

impl vstd::std_specs::cmp::PartialEqSpecImpl for Field {
    open spec fn obeys_eq_spec() -> bool {
        true
    }

    open spec fn eq_spec(&self, other: &Field) -> bool {
        self.name@ == other.name@ && self.value@ == other.value@
    }
}

/// A member that is found at a place before which no member has its name is
/// the one that `lookup` finds.
pub proof fn lemma_lookup_finds(members: Seq<(Seq<char>, Doc)>, name: Seq<char>, at: int)
    requires
        0 <= at < members.len(),
        members[at].0 == name,
        forall|i: int| 0 <= i < at ==> (#[trigger] members[i]).0 != name,
    ensures
        lookup(members, name, 0) == Some(members[at].1),
{
    lemma_lookup_skips(members, name, 0, at);
}

/// Members of other names are passed over.
pub proof fn lemma_lookup_skips(members: Seq<(Seq<char>, Doc)>, name: Seq<char>, from: int, at: int)
    requires
        0 <= from <= at < members.len(),
        members[at].0 == name,
        forall|i: int| from <= i < at ==> (#[trigger] members[i]).0 != name,
    ensures
        lookup(members, name, from) == Some(members[at].1),
    decreases at - from,
{
    if from < at {
        lemma_lookup_skips(members, name, from + 1, at);
    }
}

} // verus!

