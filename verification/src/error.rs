//! What can go wrong, by kind, and the message that reports each failure.

use crate::place::{Country, Location};
use vstd::prelude::*;
use vstd::string::*;

verus! {

/// The catalog or one of the static tables is missing an entry or is not valid.
#[derive(Clone, Copy, Debug, PartialEq, Eq, Structural)]
pub enum ConfigError {
    /// The table of country codes holds no code for this country.
    MissingCountryCode(Country),
    /// The catalog names a country twice, a location twice under one country, or a location
    /// under two countries.
    InvalidCatalog,
}

impl ConfigError {
    /// The message as a sequence of characters.
    pub open spec fn spec_message(self) -> Seq<char> {
        match self {
            ConfigError::MissingCountryCode(country) => country.spec_name()
                + " does not exist in cca3.json"@,
            ConfigError::InvalidCatalog => "The catalog holds a place more than once."@,
        }
    }

    /// The message that reports the failure.
    pub fn message(&self) -> (message: String)
        ensures
            message@ == self.spec_message(),
    {
        match self {
            ConfigError::MissingCountryCode(country) => {
                let mut message = country.name();
                message.append(" does not exist in cca3.json");
                message
            },
            ConfigError::InvalidCatalog => String::from_str(
                "The catalog holds a place more than once.",
            ),
        }
    }
}

/// The store does not hold what the catalog leads one to expect of it.
#[derive(Clone, Copy, Debug, PartialEq, Eq, Structural)]
pub enum StoreConsistencyError {
    /// No feature of the store stands for this location.
    MissingFeature(Location),
    /// The feature that stands for this location is not a point.
    NotAPoint(Location),
}

impl StoreConsistencyError {
    /// The message as a sequence of characters.
    pub open spec fn spec_message(self) -> Seq<char> {
        match self {
            StoreConsistencyError::MissingFeature(location) => "Could not find coordinates for "@
                + location.spec_tag() + "."@,
            StoreConsistencyError::NotAPoint(location) => location.spec_tag()
                + " does not have Point coordinates."@,
        }
    }

    /// The message that reports the failure.
    pub fn message(&self) -> (message: String)
        ensures
            message@ == self.spec_message(),
    {
        match self {
            StoreConsistencyError::MissingFeature(location) => {
                let mut message = String::from_str("Could not find coordinates for ");
                message.append(location.tag());
                message.append(".");
                message
            },
            StoreConsistencyError::NotAPoint(location) => {
                let mut message = String::from_str(location.tag());
                message.append(" does not have Point coordinates.");
                message
            },
        }
    }
}

/// The geocoding service gave no usable answer.
#[derive(Debug)]
pub enum GeocodeError {
    /// The search for this place found nothing.
    NotFound(String),
}

/// The mathematical value of a [`GeocodeError`].
pub enum GeocodeErrorView {
    NotFound(Seq<char>),
}

impl View for GeocodeError {
    type V = GeocodeErrorView;

    open spec fn view(&self) -> GeocodeErrorView {
        match self {
            GeocodeError::NotFound(place) => GeocodeErrorView::NotFound(place@),
        }
    }
}

impl GeocodeErrorView {
    /// The message as a sequence of characters.
    pub open spec fn message(self) -> Seq<char> {
        match self {
            GeocodeErrorView::NotFound(place) => "Search for "@ + place
                + " did not find coordinates"@,
        }
    }
}

impl GeocodeError {
    /// The message that reports the failure.
    pub fn message(&self) -> (message: String)
        ensures
            message@ == self@.message(),
    {
        match self {
            GeocodeError::NotFound(place) => {
                let mut message = String::from_str("Search for ");
                message.append(place.as_str());
                message.append(" did not find coordinates");
                message
            },
        }
    }
}

/// An asset or a date cannot be made sense of.
#[derive(Debug)]
pub enum AssetError {
    /// A date of the trip with this identifier has no `/` in it.
    MalformedDate(String),
    /// This text is not the number of a month, `01` to `12`.
    UnknownMonth(String),
    /// This text, taken from an asset's path, is not the identifier of a location.
    UnknownLocation(String),
    /// The asset's path is empty.
    MissingFileName,
    /// The asset's path has no directory for the location.
    MissingLocation,
    /// The asset's path has no directories for the month and the year.
    MissingMonth,
}

/// The mathematical value of an [`AssetError`].
pub enum AssetErrorView {
    MalformedDate(Seq<char>),
    UnknownMonth(Seq<char>),
    UnknownLocation(Seq<char>),
    MissingFileName,
    MissingLocation,
    MissingMonth,
}

impl View for AssetError {
    type V = AssetErrorView;

    open spec fn view(&self) -> AssetErrorView {
        match self {
            AssetError::MalformedDate(trip) => AssetErrorView::MalformedDate(trip@),
            AssetError::UnknownMonth(text) => AssetErrorView::UnknownMonth(text@),
            AssetError::UnknownLocation(text) => AssetErrorView::UnknownLocation(text@),
            AssetError::MissingFileName => AssetErrorView::MissingFileName,
            AssetError::MissingLocation => AssetErrorView::MissingLocation,
            AssetError::MissingMonth => AssetErrorView::MissingMonth,
        }
    }
}

impl AssetErrorView {
    /// The message as a sequence of characters.
    pub open spec fn message(self) -> Seq<char> {
        match self {
            AssetErrorView::MalformedDate(trip) => trip + " has a malformed date string"@,
            AssetErrorView::UnknownMonth(text) => text + " makes no sense to be a month."@,
            AssetErrorView::UnknownLocation(_) => "Matching variant not found"@,
            AssetErrorView::MissingFileName => "File name unwrap issue."@,
            AssetErrorView::MissingLocation => "Location unwrap issue."@,
            AssetErrorView::MissingMonth => "Month unwrap issue."@,
        }
    }
}

impl AssetError {
    /// The message that reports the failure.
    pub fn message(&self) -> (message: String)
        ensures
            message@ == self@.message(),
    {
        match self {
            AssetError::MalformedDate(trip) => {
                let mut message = trip.clone();
                message.append(" has a malformed date string");
                message
            },
            AssetError::UnknownMonth(text) => {
                let mut message = text.clone();
                message.append(" makes no sense to be a month.");
                message
            },
            AssetError::UnknownLocation(_) => String::from_str("Matching variant not found"),
            AssetError::MissingFileName => String::from_str("File name unwrap issue."),
            AssetError::MissingLocation => String::from_str("Location unwrap issue."),
            AssetError::MissingMonth => String::from_str("Month unwrap issue."),
        }
    }
}

/// The module cannot be written in full.
#[derive(Clone, Copy, Debug, PartialEq, Eq, Structural)]
pub enum GenerationError {
    /// The record of this location has no first coordinate.
    NoLongitude(Location),
    /// The record of this location has no second coordinate.
    NoLatitude(Location),
}

impl GenerationError {
    /// The message as a sequence of characters.
    pub open spec fn spec_message(self) -> Seq<char> {
        match self {
            GenerationError::NoLongitude(_) => "No longitude value in coordinates"@,
            GenerationError::NoLatitude(_) => "No latitude value in coordinates"@,
        }
    }

    /// The message that reports the failure.
    pub fn message(&self) -> (message: String)
        ensures
            message@ == self.spec_message(),
    {
        match self {
            GenerationError::NoLongitude(_) => String::from_str("No longitude value in coordinates"),
            GenerationError::NoLatitude(_) => String::from_str("No latitude value in coordinates"),
        }
    }
}

/// Any failure of a run, by kind.
#[derive(Debug)]
pub enum Error {
    Config(ConfigError),
    Geocode(GeocodeError),
    Store(StoreConsistencyError),
    Asset(AssetError),
    Generation(GenerationError),
}

/// The mathematical value of an [`Error`].
pub enum ErrorView {
    Config(ConfigError),
    Geocode(GeocodeErrorView),
    Store(StoreConsistencyError),
    Asset(AssetErrorView),
    Generation(GenerationError),
}

impl View for Error {
    type V = ErrorView;

    open spec fn view(&self) -> ErrorView {
        match self {
            Error::Config(e) => ErrorView::Config(*e),
            Error::Geocode(e) => ErrorView::Geocode(e@),
            Error::Store(e) => ErrorView::Store(*e),
            Error::Asset(e) => ErrorView::Asset(e@),
            Error::Generation(e) => ErrorView::Generation(*e),
        }
    }
}

impl ErrorView {
    /// The message as a sequence of characters.
    pub open spec fn message(self) -> Seq<char> {
        match self {
            ErrorView::Config(e) => e.spec_message(),
            ErrorView::Geocode(e) => e.message(),
            ErrorView::Store(e) => e.spec_message(),
            ErrorView::Asset(e) => e.message(),
            ErrorView::Generation(e) => e.spec_message(),
        }
    }
}

impl Error {
    /// The message that reports the failure.
    pub fn message(&self) -> (message: String)
        ensures
            message@ == self@.message(),
    {
        match self {
            Error::Config(e) => e.message(),
            Error::Geocode(e) => e.message(),
            Error::Store(e) => e.message(),
            Error::Asset(e) => e.message(),
            Error::Generation(e) => e.message(),
        }
    }
}

} // verus!
