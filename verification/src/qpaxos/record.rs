//! User records: the value stored under a key, either bytes or an integer.
use crate::text::{ascii_bytes, int_chars, push_int};
use vstd::prelude::*;
use vstd::slice::slice_to_vec;
use vstd::string::StringSliceAdditionalSpecFns;

verus! {

/// ValueEnum is what a value holds: bytes, or a signed integer.
#[derive(Clone, Debug, PartialEq, Eq)]
pub enum ValueEnum {
    Vbytes(Vec<u8>),
    Vi64(i64),
}

/// Value wraps what a record holds.
#[derive(Clone, Debug, Default, PartialEq, Eq)]
pub struct Value {
    pub value_enum: Option<ValueEnum>,
}

/// Record is what is stored under a user key.
#[derive(Clone, Debug, Default, PartialEq, Eq)]
pub struct Record {
    pub value: Option<Value>,
}

/// What a record holds, as plain values: its bytes, its integer, or nothing.
pub enum RecordView {
    Bytes(Seq<u8>),
    Int(i64),
    Empty,
}

impl View for Record {
    type V = RecordView;

    open spec fn view(&self) -> RecordView {
        match self.value {
            Some(v) => match v.value_enum {
                Some(ValueEnum::Vbytes(b)) => RecordView::Bytes(b@),
                Some(ValueEnum::Vi64(i)) => RecordView::Int(i),
                None => RecordView::Empty,
            },
            None => RecordView::Empty,
        }
    }
}

/// The bytes of a record: its bytes as they are, its integer in decimal, and nothing
/// for an empty record.
pub open spec fn record_bytes(r: RecordView) -> Seq<u8> {
    match r {
        RecordView::Bytes(b) => b,
        RecordView::Int(i) => ascii_bytes(int_chars(i as int)),
        RecordView::Empty => Seq::empty(),
    }
}

impl Record {
    /// to_vec returns the bytes of the record: its bytes, or its integer in decimal.
    pub fn to_vec(&self) -> (v: Vec<u8>)
        ensures
            v@ == record_bytes(self@),
    {
        match &self.value {
            Some(v) => match &v.value_enum {
                Some(ValueEnum::Vbytes(b)) => slice_to_vec(b.as_slice()),
                Some(ValueEnum::Vi64(i)) => {
                    let mut out: Vec<u8> = Vec::new();
                    push_int(*i, &mut out);
                    assert(out@ =~= ascii_bytes(int_chars(*i as int)));
                    out
                },
                None => Vec::new(),
            },
            None => Vec::new(),
        }
    }
}

impl From<Vec<u8>> for Record {
    fn from(v: Vec<u8>) -> (r: Record) {
        Record { value: Some(Value { value_enum: Some(ValueEnum::Vbytes(v)) }) }
    }
}

impl vstd::std_specs::convert::FromSpecImpl<Vec<u8>> for Record {
    open spec fn obeys_from_spec() -> bool {
        true
    }

    open spec fn from_spec(v: Vec<u8>) -> Record {
        Record { value: Some(Value { value_enum: Some(ValueEnum::Vbytes(v)) }) }
    }
}

impl<'a> From<&'a str> for Record {
    fn from(s: &'a str) -> (r: Record)
        ensures
            r@ == RecordView::Bytes(s.spec_bytes()),
    {
        Record { value: Some(Value { value_enum: Some(ValueEnum::Vbytes(slice_to_vec(s.as_bytes()))) }) }
    }
}

impl<'a> vstd::std_specs::convert::FromSpecImpl<&'a str> for Record {
    open spec fn obeys_from_spec() -> bool {
        false
    }

    open spec fn from_spec(s: &'a str) -> Record {
        arbitrary()
    }
}

impl From<i64> for Record {
    fn from(i: i64) -> (r: Record) {
        Record { value: Some(Value { value_enum: Some(ValueEnum::Vi64(i)) }) }
    }
}

impl vstd::std_specs::convert::FromSpecImpl<i64> for Record {
    open spec fn obeys_from_spec() -> bool {
        true
    }

    open spec fn from_spec(i: i64) -> Record {
        Record { value: Some(Value { value_enum: Some(ValueEnum::Vi64(i)) }) }
    }
}

} // verus!
