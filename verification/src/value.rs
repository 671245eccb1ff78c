//! Configuration values: what a load hands back.

use vstd::prelude::*;

verus! {

/// A value of one of the scalar types. Integers are held in the widest
/// type of their signedness.
#[derive(Clone, Debug, PartialEq, Eq)]
pub enum ScalarValue {
    Text(String),
    Bool(bool),
    Char(char),
    Int(i128),
    Uint(u128),
}

/// A `ScalarValue` with its text as a sequence of characters.
pub enum ScalarView {
    Text(Seq<char>),
    Bool(bool),
    Char(char),
    Int(i128),
    Uint(u128),
}

impl View for ScalarValue {
    type V = ScalarView;

    open spec fn view(&self) -> ScalarView {
        match self {
            ScalarValue::Text(s) => ScalarView::Text(s@),
            ScalarValue::Bool(b) => ScalarView::Bool(*b),
            ScalarValue::Char(c) => ScalarView::Char(*c),
            ScalarValue::Int(i) => ScalarView::Int(*i),
            ScalarValue::Uint(u) => ScalarView::Uint(*u),
        }
    }
}

/// What a field is bound to.
#[derive(Debug, PartialEq, Eq)]
pub enum Value {
    /// The value of a scalar field.
    Scalar(ScalarValue),
    /// The items of a list field, in order.
    List(Vec<ScalarValue>),
    /// The fields of a nested configuration.
    Nested(Config),
}

/// A field of a configuration with what it is bound to.
#[derive(Debug, PartialEq, Eq)]
pub struct Bound {
    pub name: String,
    pub value: Value,
}

/// A configuration: its fields in the order of their declaration.
#[derive(Debug, PartialEq, Eq)]
pub struct Config {
    pub fields: Vec<Bound>,
}

/// A `Value` as a mathematical value.
pub enum ValueView {
    Scalar(ScalarView),
    List(Seq<ScalarView>),
    Nested(Seq<(Seq<char>, ValueView)>),
}

/// The views of the scalar values in `items`.
pub open spec fn scalar_views(items: Seq<ScalarValue>) -> Seq<ScalarView> {
    items.map_values(|v: ScalarValue| v@)
}

/// The views of the fields in `fields`: each name with its value.
pub open spec fn bound_views(fields: Seq<Bound>) -> Seq<(Seq<char>, ValueView)>
    decreases fields,
{
    if fields.len() == 0 {
        Seq::empty()
    } else {
        bound_views(fields.drop_last()).push((fields.last().name@, fields.last().value@))
    }
}

impl View for Value {
    type V = ValueView;

    open spec fn view(&self) -> ValueView
        decreases self,
    {
        match self {
            Value::Scalar(v) => ValueView::Scalar(v@),
            Value::List(items) => ValueView::List(scalar_views(items@)),
            Value::Nested(config) => ValueView::Nested(bound_views(config.fields@)),
        }
    }
}

impl View for Config {
    type V = Seq<(Seq<char>, ValueView)>;

    open spec fn view(&self) -> Seq<(Seq<char>, ValueView)> {
        bound_views(self.fields@)
    }
}

} // verus!
