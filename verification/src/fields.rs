//! Reading the fields of a record argument (`{ x: 1, 색: "red" }`).
use vstd::prelude::*;
use vstd::string::*;
use crate::builtins::HostValue;
use crate::error::{ErrorKind, ErrorView, RuntimeError};
use crate::host::{Host, HostQuery, HostReply, QueryLog};
use crate::interp::Interpreter;
use crate::store::{Store, assoc_get, has_key};
use crate::value::{Value, ValueView};

verus! {

/// The entries of a record, in key order.
pub type Entries = Seq<(Seq<char>, ValueView)>;

/// Why a boolean field cannot be read, if it cannot.
pub open spec fn bool_fault(entries: Entries, key: Seq<char>) -> Option<ErrorView> {
    match assoc_get(entries, key) {
        Some(ValueView::Bool(_)) => None,
        Some(_) => Some(ErrorView::FieldNotBool { key }),
        None => Some(ErrorView::FieldMissing { key }),
    }
}

/// Why an integer field cannot be read, if it cannot.
pub open spec fn int_fault(entries: Entries, key: Seq<char>) -> Option<ErrorView> {
    match assoc_get(entries, key) {
        Some(ValueView::Int(_)) => None,
        Some(_) => Some(ErrorView::FieldNotInt { key }),
        None => Some(ErrorView::FieldMissing { key }),
    }
}

/// Why a number field (integer or double) cannot be read, if it cannot.
pub open spec fn number_fault(entries: Entries, key: Seq<char>) -> Option<ErrorView> {
    match assoc_get(entries, key) {
        Some(ValueView::Int(_)) => None,
        Some(ValueView::Float(_)) => None,
        Some(_) => Some(ErrorView::FieldNotNumber { key }),
        None => Some(ErrorView::FieldMissing { key }),
    }
}

/// Why an optional number field cannot be read: only when it is there and
/// is not a number.
pub open spec fn optional_number_fault(entries: Entries, key: Seq<char>) -> Option<ErrorView> {
    match assoc_get(entries, key) {
        None => None,
        Some(_) => number_fault(entries, key),
    }
}

/// Why a string field cannot be read, if it cannot.
pub open spec fn string_fault(entries: Entries, key: Seq<char>) -> Option<ErrorView> {
    match assoc_get(entries, key) {
        Some(ValueView::Str(_)) => None,
        Some(_) => Some(ErrorView::FieldNotString { key }),
        None => Some(ErrorView::FieldMissing { key }),
    }
}

/// A string field under one of two names, the first one preferred.
pub open spec fn string_fault_either(entries: Entries, first: Seq<char>, second: Seq<char>) -> Option<ErrorView> {
    if has_key(entries, first) {
        string_fault(entries, first)
    } else if has_key(entries, second) {
        string_fault(entries, second)
    } else {
        Some(ErrorView::FieldMissingEither { first, second })
    }
}

/// Why a dataset field cannot be read, if it cannot.
pub open spec fn dataset_fault(entries: Entries, key: Seq<char>) -> Option<ErrorView> {
    match assoc_get(entries, key) {
        Some(ValueView::Host(HostValue::TorchDataset(_))) => None,
        Some(_) => Some(ErrorView::FieldBadType { key }),
        None => Some(ErrorView::FieldMissing { key }),
    }
}

/// The value of a boolean field (meaningful when it has no fault).
pub open spec fn field_bool(entries: Entries, key: Seq<char>) -> bool {
    match assoc_get(entries, key) {
        Some(ValueView::Bool(b)) => b,
        _ => false,
    }
}

/// The value of an integer field (meaningful when it has no fault).
pub open spec fn field_int(entries: Entries, key: Seq<char>) -> i64 {
    match assoc_get(entries, key) {
        Some(ValueView::Int(i)) => i,
        _ => 0,
    }
}

/// The text of a string field (meaningful when it has no fault).
pub open spec fn field_text(entries: Entries, key: Seq<char>) -> Seq<char> {
    match assoc_get(entries, key) {
        Some(ValueView::Str(s)) => s,
        _ => Seq::empty(),
    }
}

/// The text of a string field under one of two names, the first preferred.
pub open spec fn field_text_either(entries: Entries, first: Seq<char>, second: Seq<char>) -> Seq<char> {
    if has_key(entries, first) {
        field_text(entries, first)
    } else {
        field_text(entries, second)
    }
}

/// The dataset a dataset field names (meaningful when it has no fault).
pub open spec fn field_dataset(entries: Entries, key: Seq<char>) -> usize {
    match assoc_get(entries, key) {
        Some(ValueView::Host(HostValue::TorchDataset(id))) => id,
        _ => 0,
    }
}

/// A number field that holds a double gives exactly its bits; one that
/// holds an integer gives the host's conversion of it.
pub open spec fn number_bits_fit(entries: Entries, key: Seq<char>, bits: u64, asked: Seq<(HostQuery, HostReply)>) -> bool {
    &&& assoc_get(entries, key) matches Some(ValueView::Float(b)) ==> bits == b
    &&& assoc_get(entries, key) matches Some(ValueView::Int(i)) ==> asked.contains((HostQuery::IntToFloat { value: i }, HostReply::Float(bits)))
}

/// A boolean field of record `rid`.
pub fn bool_field(store: &Store, rid: usize, key: &str) -> (r: Result<bool, RuntimeError>)
    requires
        store.wf(),
        rid < store.records@.len(),
    ensures
        match bool_fault(store.record_view(rid as int), key@) {
            Some(f) => r matches Err(e) && e.kind@ == f && e.span is None,
            None => r == Ok::<bool, RuntimeError>(field_bool(store.record_view(rid as int), key@)),
        },
{
    match store.record_get(rid, key) {
        Some(Value::Bool(b)) => Ok(b),
        Some(_) => Err(RuntimeError::new(ErrorKind::FieldNotBool { key: String::from_str(key) })),
        None => Err(RuntimeError::new(ErrorKind::FieldMissing { key: String::from_str(key) })),
    }
}

/// An integer field of record `rid`.
pub fn int_field(store: &Store, rid: usize, key: &str) -> (r: Result<i64, RuntimeError>)
    requires
        store.wf(),
        rid < store.records@.len(),
    ensures
        match int_fault(store.record_view(rid as int), key@) {
            Some(f) => r matches Err(e) && e.kind@ == f && e.span is None,
            None => r == Ok::<i64, RuntimeError>(field_int(store.record_view(rid as int), key@)),
        },
{
    match store.record_get(rid, key) {
        Some(Value::Int(i)) => Ok(i),
        Some(_) => Err(RuntimeError::new(ErrorKind::FieldNotInt { key: String::from_str(key) })),
        None => Err(RuntimeError::new(ErrorKind::FieldMissing { key: String::from_str(key) })),
    }
}

/// A string field of record `rid`.
pub fn string_field(store: &Store, rid: usize, key: &str) -> (r: Result<String, RuntimeError>)
    requires
        store.wf(),
        rid < store.records@.len(),
    ensures
        match string_fault(store.record_view(rid as int), key@) {
            Some(f) => r matches Err(e) && e.kind@ == f && e.span is None,
            None => r matches Ok(s) && s@ == field_text(store.record_view(rid as int), key@),
        },
{
    match store.record_get(rid, key) {
        Some(Value::Str(s)) => Ok(s),
        Some(_) => Err(RuntimeError::new(ErrorKind::FieldNotString { key: String::from_str(key) })),
        None => Err(RuntimeError::new(ErrorKind::FieldMissing { key: String::from_str(key) })),
    }
}

/// A string field of record `rid` under either of two names, the first preferred.
pub fn string_field_either(store: &Store, rid: usize, first: &str, second: &str) -> (r: Result<String, RuntimeError>)
    requires
        store.wf(),
        rid < store.records@.len(),
    ensures
        match string_fault_either(store.record_view(rid as int), first@, second@) {
            Some(f) => r matches Err(e) && e.kind@ == f && e.span is None,
            None => r matches Ok(s) && s@ == field_text_either(store.record_view(rid as int), first@, second@),
        },
{
    if store.record_get(rid, first).is_some() {
        string_field(store, rid, first)
    } else if store.record_get(rid, second).is_some() {
        string_field(store, rid, second)
    } else {
        Err(RuntimeError::new(ErrorKind::FieldMissingEither {
            first: String::from_str(first),
            second: String::from_str(second),
        }))
    }
}

/// A dataset field of record `rid`.
pub fn dataset_field(store: &Store, rid: usize, key: &str) -> (r: Result<usize, RuntimeError>)
    requires
        store.wf(),
        rid < store.records@.len(),
    ensures
        match dataset_fault(store.record_view(rid as int), key@) {
            Some(f) => r matches Err(e) && e.kind@ == f && e.span is None,
            None => r == Ok::<usize, RuntimeError>(field_dataset(store.record_view(rid as int), key@)),
        },
{
    match store.record_get(rid, key) {
        Some(Value::Host(HostValue::TorchDataset(id))) => Ok(id),
        Some(_) => Err(RuntimeError::new(ErrorKind::FieldBadType { key: String::from_str(key) })),
        None => Err(RuntimeError::new(ErrorKind::FieldMissing { key: String::from_str(key) })),
    }
}

impl<H: Host> Interpreter<H> {
    /// A number field of record `rid`, as double bits.
    pub fn number_field(&mut self, rid: usize, key: &str) -> (r: Result<u64, RuntimeError>)
        requires
            old(self).store.wf(),
            rid < old(self).store.records@.len(),
        ensures
            final(self).only_host_changed(old(self)),
            match number_fault(old(self).store.record_view(rid as int), key@) {
                Some(f) => r matches Err(e) && e.kind@ == f && e.span is None,
                None => r matches Ok(b) && number_bits_fit(old(self).store.record_view(rid as int), key@, b, final(self).queries.since(&old(self).queries)),
            },
            final(self).queries.extends(&old(self).queries),
            assoc_get(old(self).store.record_view(rid as int), key@) matches Some(ValueView::Int(i)) ==> (r matches Ok(b)
                && final(self).queries.asked(&old(self).queries, HostQuery::IntToFloat { value: i }, HostReply::Float(b))),
    {
        let ghost before = self.queries;
        proof {
            QueryLog::lemma_extends_refl(before);
        }
        match self.store.record_get(rid, key) {
            Some(Value::Int(i)) => {
                let b = self.queries.int_to_float(&mut self.host, i);
                proof {
                    QueryLog::lemma_asked_since(before, self.queries, HostQuery::IntToFloat { value: i }, HostReply::Float(b));
                }
                Ok(b)
            },
            Some(Value::Float(b)) => Ok(b),
            Some(_) => Err(RuntimeError::new(ErrorKind::FieldNotNumber { key: String::from_str(key) })),
            None => Err(RuntimeError::new(ErrorKind::FieldMissing { key: String::from_str(key) })),
        }
    }

    /// An optional number field of record `rid`, as double bits; `default`
    /// when the record has no such field.
    pub fn number_field_or(&mut self, rid: usize, key: &str, default: u64) -> (r: Result<u64, RuntimeError>)
        requires
            old(self).store.wf(),
            rid < old(self).store.records@.len(),
        ensures
            final(self).only_host_changed(old(self)),
            match optional_number_fault(old(self).store.record_view(rid as int), key@) {
                Some(f) => r matches Err(e) && e.kind@ == f && e.span is None,
                None => r matches Ok(b) && number_bits_fit(old(self).store.record_view(rid as int), key@, b, final(self).queries.since(&old(self).queries))
                    && (!has_key(old(self).store.record_view(rid as int), key@) ==> b == default),
            },
            final(self).queries.extends(&old(self).queries),
            assoc_get(old(self).store.record_view(rid as int), key@) matches Some(ValueView::Int(i)) ==> (r matches Ok(b)
                && final(self).queries.asked(&old(self).queries, HostQuery::IntToFloat { value: i }, HostReply::Float(b))),
    {
        let ghost before = self.queries;
        proof {
            QueryLog::lemma_extends_refl(before);
        }
        match self.store.record_get(rid, key) {
            Some(Value::Int(i)) => {
                let b = self.queries.int_to_float(&mut self.host, i);
                proof {
                    QueryLog::lemma_asked_since(before, self.queries, HostQuery::IntToFloat { value: i }, HostReply::Float(b));
                }
                Ok(b)
            },
            Some(Value::Float(b)) => Ok(b),
            Some(_) => Err(RuntimeError::new(ErrorKind::FieldNotNumber { key: String::from_str(key) })),
            None => Ok(default),
        }
    }
}

} // verus!
