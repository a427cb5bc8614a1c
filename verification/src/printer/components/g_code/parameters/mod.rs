//! [`G-code commands`] can have 0, 1, or more parameters.
//! Each [`parameter`] starts with an [`identifier`] (like `X` or `Y`) and then there is the
//! [`value`] of the parameter (which can be a string, a bool, a number...)
//!
//! # Examples
//! ```text
//! X20.1
//! ```
//! ```text
//! Y-5.3
//! ```
//! ```text
//! S60
//! ```
//!
//! [`parameter`]: Param
//! [`identifier`]: GCodeParameterIdentifier
//! [`value`]: GCodeParameterValue
//! [`G-code commands`]: super
pub mod identifier;
pub mod value;

use vstd::prelude::*;

use self::identifier::GCodeParameterIdentifier;
use self::value::GCodeParameterValue;

verus! {

/// A parameter of a G-code command.
///
/// Check the [`module's`] documentation for more details.
///
/// [`module's`]: self
#[derive(Clone, Copy, Debug, PartialEq)]
pub struct Param<I: GCodeParameterIdentifier, V: GCodeParameterValue> {
    pub(crate) identifier: I,
    pub(crate) value: Option<V>,
}

impl<I: GCodeParameterIdentifier + Default, V: GCodeParameterValue> Param<I, V> {
    /// The identifier of the parameter.
    pub closed spec fn spec_identifier(&self) -> I {
        self.identifier
    }

    /// The value of the parameter, if it has one.
    pub closed spec fn spec_value(&self) -> Option<V> {
        self.value
    }

    /// Returns the parameter with the provided `identifier` (the default one when there's none)
    /// and `value`.
    pub fn new(identifier: Option<I>, value: Option<V>) -> (param: Self)
        ensures
            identifier matches Some(i) ==> param.spec_identifier() == i,
            identifier is None ==> I::default.ensures((), param.spec_identifier()),
            param.spec_value() == value,
    {
        Self { identifier: identifier.unwrap_or_default(), value }
    }

    /// Returns the identifier of the parameter.
    pub fn identifier(&self) -> (identifier: &I)
        ensures
            *identifier == self.spec_identifier(),
    {
        &self.identifier
    }

    /// Returns the value of the parameter, if it has one.
    pub fn value(&self) -> (value: &Option<V>)
        ensures
            *value == self.spec_value(),
    {
        &self.value
    }
}

} // verus!
