//! Partial updates: each attribute is either left as it is or set to a value.

use vstd::prelude::*;

verus! {

/// What an update does to one attribute.
#[derive(Debug, PartialEq, Eq)]
pub enum Change<T> {
    /// The attribute keeps the value it has.
    Unchanged,
    /// The attribute takes this value.
    SetTo(T),
}

impl<T: DeepView> DeepView for Change<T> {
    type V = Change<T::V>;

    open spec fn deep_view(&self) -> Change<T::V> {
        match self {
            Change::Unchanged => Change::Unchanged,
            Change::SetTo(v) => Change::SetTo(v.deep_view()),
        }
    }
}

impl<T> Change<T> {
    /// The change that an optional attribute of a request stands for: a present
    /// value is to be set, an absent one changes nothing.
    pub open spec fn of(value: Option<T>) -> Change<T> {
        match value {
            Some(v) => Change::SetTo(v),
            None => Change::Unchanged,
        }
    }

    /// The value of an attribute after this change.
    pub open spec fn applied(self, current: Option<T>) -> Option<T> {
        match self {
            Change::Unchanged => current,
            Change::SetTo(v) => Some(v),
        }
    }
}

/// The change that an optional text attribute stands for.
pub fn text_change(value: &Option<String>) -> (change: Change<String>)
    ensures
        change.deep_view() == Change::of(value.deep_view()),
{
    match value {
        Some(text) => Change::SetTo(text.clone()),
        None => Change::Unchanged,
    }
}

/// The change that an optional flag stands for.
pub fn flag_change(value: Option<bool>) -> (change: Change<bool>)
    ensures
        change == Change::of(value),
{
    match value {
        Some(flag) => Change::SetTo(flag),
        None => Change::Unchanged,
    }
}

/// The change that an optional number stands for.
pub fn number_change(value: Option<i32>) -> (change: Change<i32>)
    ensures
        change == Change::of(value),
{
    match value {
        Some(number) => Change::SetTo(number),
        None => Change::Unchanged,
    }
}

} // verus!
