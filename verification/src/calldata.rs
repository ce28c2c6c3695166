//! Solidity call arguments.
use vstd::prelude::*;
use crate::bytes::Address;
use crate::u256::U256;

verus! {

/// A Solidity value.
#[derive(Debug)]
pub enum Value {
    Address(Address),
    Uint(U256),
    Int(U256),
    Bool(bool),
    Bytes(Vec<u8>),
    String(String),
    Array(Vec<Value>),
    Tuple(Vec<Value>),
    FixedArray(Vec<Value>),
    FixedBytes(Vec<u8>),
}

/// The mathematical content of a [`Value`].
pub enum ValueView {
    Address(Seq<u8>),
    Uint(nat),
    Int(nat),
    Bool(bool),
    Bytes(Seq<u8>),
    String(Seq<char>),
    Array(Seq<ValueView>),
    Tuple(Seq<ValueView>),
    FixedArray(Seq<ValueView>),
    FixedBytes(Seq<u8>),
}

/// The content of a value.
pub open spec fn value_view(value: Value) -> ValueView
    decreases value,
{
    match value {
        Value::Address(address) => ValueView::Address(address@),
        Value::Uint(number) => ValueView::Uint(number@),
        Value::Int(number) => ValueView::Int(number@),
        Value::Bool(flag) => ValueView::Bool(flag),
        Value::Bytes(bytes) => ValueView::Bytes(bytes@),
        Value::String(text) => ValueView::String(text@),
        Value::Array(items) => ValueView::Array(
            Seq::new(
                items@.len(),
                |i: int|
                    if 0 <= i < items@.len() {
                        value_view(items@[i])
                    } else {
                        arbitrary()
                    },
            ),
        ),
        Value::Tuple(items) => ValueView::Tuple(
            Seq::new(
                items@.len(),
                |i: int|
                    if 0 <= i < items@.len() {
                        value_view(items@[i])
                    } else {
                        arbitrary()
                    },
            ),
        ),
        Value::FixedArray(items) => ValueView::FixedArray(
            Seq::new(
                items@.len(),
                |i: int|
                    if 0 <= i < items@.len() {
                        value_view(items@[i])
                    } else {
                        arbitrary()
                    },
            ),
        ),
        Value::FixedBytes(bytes) => ValueView::FixedBytes(bytes@),
    }
}

/// The contents of a list of values.
pub open spec fn values_view(values: Seq<Value>) -> Seq<ValueView> {
    values.map_values(|value: Value| value_view(value))
}

impl View for Value {
    type V = ValueView;

    open spec fn view(&self) -> ValueView {
        value_view(*self)
    }
}

/// A contract call to be ABI-encoded: the function's signature and arguments.
#[derive(Debug)]
pub struct Call {
    pub signature: &'static str,
    pub args: Vec<Value>,
}

/// The mathematical content of a [`Call`].
pub struct CallView {
    pub signature: Seq<char>,
    pub args: Seq<ValueView>,
}

impl View for Call {
    type V = CallView;

    open spec fn view(&self) -> CallView {
        CallView { signature: self.signature@, args: values_view(self.args@) }
    }
}

} // verus!
