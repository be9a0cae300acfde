//! Builds the manifest of a travel gallery: reconciles a hand-written catalog of countries,
//! locations and trips with a store of coordinates, plans the thumbnails of the gallery's
//! images, and generates the module that hands all of it to the front end.
//!
//! This library decides and computes. Reading and writing files, asking the geocoding
//! service, decoding images and printing numbers are left to the program around it.

pub mod assets;
pub mod catalog;
pub mod chars;
pub mod countries;
pub mod diff;
pub mod emit;
pub mod error;
pub mod geo;
pub mod identifier;
pub mod locations;
pub mod manifest;
pub mod nominatim;
pub mod place;
pub mod reconcile;
pub mod text;
pub mod trip_decls;
pub mod trips;
