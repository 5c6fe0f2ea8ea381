use crate::source::Span;
use vstd::prelude::*;

verus! {

/// Value specification.
pub enum Value<'a> {
    /// The absence of a meaningful value.
    Null,
    /// A boolean.
    Boolean(Span<'a>),
    /// An integer.
    Integer(Span<'a>),
    /// A floating-point number.
    Float(Span<'a>),
    /// A UTF-8 string.
    String(Span<'a>),
    /// A list of values.
    List(Vec<Value<'a>>),
    /// A map of values, which is really an ordered list of name/value pairs.
    Mapping(Vec<(Span<'a>, Value<'a>)>),
}

/// A [`Value`] with its lists held as sequences.
pub enum ValueModel<'a> {
    Null,
    Boolean(Span<'a>),
    Integer(Span<'a>),
    Float(Span<'a>),
    String(Span<'a>),
    List(Seq<ValueModel<'a>>),
    Mapping(Seq<(Span<'a>, ValueModel<'a>)>),
}

/// The model of value `v`.
pub open spec fn value_model<'a>(v: Value<'a>) -> ValueModel<'a>
    decreases v,
{
    match v {
        Value::Null => ValueModel::Null,
        Value::Boolean(s) => ValueModel::Boolean(s),
        Value::Integer(s) => ValueModel::Integer(s),
        Value::Float(s) => ValueModel::Float(s),
        Value::String(s) => ValueModel::String(s),
        Value::List(items) => ValueModel::List(
            Seq::new(
                items@.len(),
                |k: int|
                    if 0 <= k < items@.len() {
                        value_model(items@[k])
                    } else {
                        ValueModel::Null
                    },
            ),
        ),
        Value::Mapping(items) => ValueModel::Mapping(
            Seq::new(
                items@.len(),
                |k: int|
                    if 0 <= k < items@.len() {
                        (items@[k].0, value_model(items@[k].1))
                    } else {
                        (items@[k].0, ValueModel::Null)
                    },
            ),
        ),
    }
}

impl<'a> View for Value<'a> {
    type V = ValueModel<'a>;

    open spec fn view(&self) -> ValueModel<'a> {
        value_model(*self)
    }
}

/// The models of the values `items`.
pub open spec fn values_model<'a>(items: Seq<Value<'a>>) -> Seq<ValueModel<'a>> {
    items.map_values(|v: Value<'a>| value_model(v))
}

/// The models of the named values `items`.
pub open spec fn entries_model<'a>(items: Seq<(Span<'a>, Value<'a>)>) -> Seq<(Span<'a>, ValueModel<'a>)> {
    items.map_values(|e: (Span<'a>, Value<'a>)| (e.0, value_model(e.1)))
}

/// A list of `items` models as the list of their models.
pub proof fn lemma_list_model<'a>(items: Vec<Value<'a>>)
    ensures
        value_model(Value::List(items)) == ValueModel::List(values_model(items@)),
{
    let m = value_model(Value::List(items));
    assert(m matches ValueModel::List(s) && s =~= values_model(items@));
}

/// A map of `items` models as the map of their models.
pub proof fn lemma_mapping_model<'a>(items: Vec<(Span<'a>, Value<'a>)>)
    ensures
        value_model(Value::Mapping(items)) == ValueModel::Mapping(entries_model(items@)),
{
    let m = value_model(Value::Mapping(items));
    assert(m matches ValueModel::Mapping(s) && s =~= entries_model(items@));
}

} // verus!
