//! Decode errors.
//!
//! Every error is terminal: decoding either returns a fully populated
//! model value or the first error met, never a partial object.

use vstd::prelude::*;

verus! {

/// Why a decode failed.
#[derive(Debug, PartialEq)]
pub enum Error {
    /// The top-level value handed to the decoder was not an object.
    GeoJsonExpectedObject,
    /// The `type` tag held a string that names no known variant.
    GeoJsonUnknownType,
    /// A value that had to be a string was not one.
    ExpectedStringValue,
    /// A value that had to be a number was not one.
    ExpectedF64Value,
    /// A value that had to be an array was not one.
    ExpectedArrayValue,
    /// A value that had to be an object was not one.
    ExpectedObjectValue,
    /// A required key was missing; holds the key's name.
    ExpectedProperty(String),
    /// A present `id` was neither a number nor a string.
    FeatureInvalidIdentifierType,
    /// A present `geometry` was neither an object nor null.
    FeatureInvalidGeometryValue,
    /// A present `properties` was neither an object nor null.
    PropertiesExpectedObjectOrNull,
    /// A present `bbox` was not an array.
    BboxExpectedArray,
    /// An element of `bbox` was not a number.
    BboxExpectedNumericValues,
    /// The input text was not JSON at all.
    MalformedJson,
}

/// The mathematical shape of an [`Error`].
pub enum ErrorView {
    GeoJsonExpectedObject,
    GeoJsonUnknownType,
    ExpectedStringValue,
    ExpectedF64Value,
    ExpectedArrayValue,
    ExpectedObjectValue,
    ExpectedProperty(Seq<char>),
    FeatureInvalidIdentifierType,
    FeatureInvalidGeometryValue,
    PropertiesExpectedObjectOrNull,
    BboxExpectedArray,
    BboxExpectedNumericValues,
    MalformedJson,
}

impl View for Error {
    type V = ErrorView;

    open spec fn view(&self) -> ErrorView {
        match self {
            Error::GeoJsonExpectedObject => ErrorView::GeoJsonExpectedObject,
            Error::GeoJsonUnknownType => ErrorView::GeoJsonUnknownType,
            Error::ExpectedStringValue => ErrorView::ExpectedStringValue,
            Error::ExpectedF64Value => ErrorView::ExpectedF64Value,
            Error::ExpectedArrayValue => ErrorView::ExpectedArrayValue,
            Error::ExpectedObjectValue => ErrorView::ExpectedObjectValue,
            Error::ExpectedProperty(name) => ErrorView::ExpectedProperty(name@),
            Error::FeatureInvalidIdentifierType => ErrorView::FeatureInvalidIdentifierType,
            Error::FeatureInvalidGeometryValue => ErrorView::FeatureInvalidGeometryValue,
            Error::PropertiesExpectedObjectOrNull => ErrorView::PropertiesExpectedObjectOrNull,
            Error::BboxExpectedArray => ErrorView::BboxExpectedArray,
            Error::BboxExpectedNumericValues => ErrorView::BboxExpectedNumericValues,
            Error::MalformedJson => ErrorView::MalformedJson,
        }
    }
}

} // verus!
