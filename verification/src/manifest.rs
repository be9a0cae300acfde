//! The generated module as a whole: its header, and its parts on the countries, the
//! locations, the trips and the images, in this order.

use crate::assets::{ImageAsset, ImageAssetView};
use crate::catalog::{all_entries, Catalog};
use crate::countries::{countries_text, write_countries};
use crate::emit::{Fragment, FragmentView};
use crate::error::{Error, ErrorView};
use crate::locations::{location_fragments, write_locations};
use crate::place::CountryCodes;
use crate::reconcile::LocationInformation;
use crate::text::{trim, trimmed};
use crate::trip_decls::{trips_text, write_trips};
use vstd::prelude::*;
use vstd::string::*;

verus! {

/// The first line of the module: its name, and what it exposes.
pub const MODULE_HEADER: &'static str =
    "module Manifest exposing (Country(..), Date, Image, Location(..), Month(..), Trip(..), Year, countryId, countryList, countryLocalName, countryName, locationInformation, locationList, locationLocalName, manifest, stringToCountry, stringToLocation, stringToTrip, tripInformation, tripList)\n";

/// The declaration of the type of the images, and the head of their list.
pub const IMAGE_DECLARATION: &'static str =
    "type alias Image =\n    { file : String\n    , date : Date\n    , location : Location\n    , aspectRatio : Float\n    , description : String\n    }\nmanifest : List Image\nmanifest =\n";

/// The text of an image's entry up to its aspect ratio: the file name, the date and the
/// location. The first entry opens the list.
pub open spec fn image_opening(first: bool, asset: ImageAssetView) -> Seq<char> {
    (if first {
        "    [ "@
    } else {
        "    , "@
    }) + "Image \""@ + asset.file + "\" (Date "@ + asset.year + " "@ + asset.month.spec_name()
        + ") "@ + asset.location.spec_tag() + " "@
}

/// The text of an image's entry after its aspect ratio: the description, without the white
/// space around it.
pub open spec fn image_closing(asset: ImageAssetView) -> Seq<char> {
    " \""@ + trimmed(asset.description) + "\"\n"@
}

/// The entry of one image.
pub open spec fn image_entry(first: bool, asset: ImageAssetView) -> Seq<FragmentView> {
    seq![
        FragmentView::Text(image_opening(first, asset)),
        FragmentView::Ratio(asset.width, asset.height),
        FragmentView::Text(image_closing(asset)),
    ]
}

/// The entries of the images, in order.
pub open spec fn image_entries(assets: Seq<ImageAssetView>) -> Seq<FragmentView>
    decreases assets.len(),
{
    if assets.len() == 0 {
        Seq::empty()
    } else {
        image_entries(assets.drop_last()) + image_entry(assets.len() == 1, assets.last())
    }
}

/// The part of the module on the images: the declaration, one entry for each image, and the
/// end of the list.
pub open spec fn image_fragments(assets: Seq<ImageAssetView>) -> Seq<FragmentView> {
    seq![FragmentView::Text(IMAGE_DECLARATION@)] + image_entries(assets) + seq![
        FragmentView::Text("    ]\n"@),
    ]
}

/// The whole module. Its parts may fail: the countries for want of a code, the locations
/// for want of a coordinate, the trips for a date that cannot be read. The first part that
/// fails makes the module fail.
pub open spec fn manifest_fragments(
    catalog: crate::catalog::CatalogView,
    codes: Seq<(Seq<char>, Seq<char>)>,
    infos: Seq<crate::reconcile::LocationInformationView>,
    assets: Seq<ImageAssetView>,
) -> Result<Seq<FragmentView>, ErrorView> {
    match countries_text(catalog.places, codes) {
        Err(e) => Err(ErrorView::Config(e)),
        Ok(countries) => match location_fragments(all_entries(catalog.places), infos) {
            Err(e) => Err(ErrorView::Generation(e)),
            Ok(locations) => match trips_text(catalog.trips) {
                Err(e) => Err(ErrorView::Asset(e)),
                Ok(trips) => Ok(
                    seq![
                        FragmentView::Text(
                            MODULE_HEADER@ + "-- COUNTRIES\n"@ + countries + "-- LOCATIONS\n"@,
                        ),
                    ] + locations + seq![
                        FragmentView::Text("-- TRIPS\n"@ + trips + "-- MANIFEST\n"@),
                    ] + image_fragments(assets),
                ),
            },
        },
    }
}

/// Writes the part of the module on the images: one entry for each asset, in the order of
/// the assets.
pub fn write_manifest(assets: &[ImageAsset]) -> (fragments: Vec<Fragment>)
    ensures
        fragments.deep_view() == image_fragments(assets.deep_view()),
{
    let ghost views = assets.deep_view();
    let ghost head = seq![FragmentView::Text(IMAGE_DECLARATION@)];
    let mut out: Vec<Fragment> = Vec::new();
    out.push(Fragment::Text(String::from_str(IMAGE_DECLARATION)));
    let mut i: usize = 0;
    proof {
        assert(views.take(0) =~= Seq::empty());
        assert(out.deep_view() =~= head + image_entries(views.take(0)));
    }
    while i < assets.len()
        invariant
            i <= assets.len(),
            views == assets.deep_view(),
            head == seq![FragmentView::Text(IMAGE_DECLARATION@)],
            out.deep_view() == head + image_entries(views.take(i as int)),
        decreases assets.len() - i,
    {
        let asset = &assets[i];
        proof {
            assert(views.take(i + 1).drop_last() =~= views.take(i as int));
            assert(views.take(i + 1).last() == views[i as int]);
            assert(views[i as int] == asset@);
        }
        let mut opening = String::from_str(
            if i == 0 {
                "    [ "
            } else {
                "    , "
            },
        );
        opening.append("Image \"");
        opening.append(asset.file.as_str());
        opening.append("\" (Date ");
        opening.append(asset.year.as_str());
        opening.append(" ");
        opening.append(asset.month.name());
        opening.append(") ");
        opening.append(asset.location.tag());
        opening.append(" ");
        let mut closing = String::from_str(" \"");
        closing.append(trim(asset.description.as_str()).as_str());
        closing.append("\"\n");
        let ghost before = out.deep_view();
        let ghost entry = image_entry(i == 0, asset@);
        out.push(Fragment::Text(opening));
        out.push(Fragment::Ratio(asset.width, asset.height));
        out.push(Fragment::Text(closing));
        proof {
            assert(out.deep_view() =~= before + entry);
            assert(before + entry =~= head + (image_entries(views.take(i as int)) + entry));
        }
        i += 1;
    }
    assert(views.take(views.len() as int) =~= views);
    let ghost before = out.deep_view();
    out.push(Fragment::Text(String::from_str("    ]\n")));
    assert(out.deep_view() =~= before + seq![FragmentView::Text("    ]\n"@)]);
    out
}

/// Appends the fragments of `more` to `out`.
pub fn append_fragments(out: &mut Vec<Fragment>, more: Vec<Fragment>)
    ensures
        final(out).deep_view() == old(out).deep_view() + more.deep_view(),
{
    let ghost start = out.deep_view();
    let mut more = more;
    let ghost added = more.deep_view();
    out.append(&mut more);
    assert(out.deep_view() =~= start + added);
}

/// Generates the module from the catalog, the resolved locations and the assets.
pub fn construct_manifest(
    catalog: &Catalog,
    codes: &CountryCodes,
    locations_information: &[LocationInformation],
    assets: &[ImageAsset],
) -> (module: Result<Vec<Fragment>, Error>)
    ensures
        match module {
            Ok(m) => manifest_fragments(
                catalog@,
                codes@,
                locations_information.deep_view(),
                assets.deep_view(),
            ) == Ok::<Seq<FragmentView>, ErrorView>(m.deep_view()),
            Err(e) => manifest_fragments(
                catalog@,
                codes@,
                locations_information.deep_view(),
                assets.deep_view(),
            ) == Err::<Seq<FragmentView>, ErrorView>(e@),
        },
{
    let countries = match write_countries(catalog, codes) {
        Ok(text) => text,
        Err(e) => {
            return Err(Error::Config(e));
        },
    };
    let locations = match write_locations(catalog, locations_information) {
        Ok(fragments) => fragments,
        Err(e) => {
            return Err(Error::Generation(e));
        },
    };
    let trips = match write_trips(catalog) {
        Ok(text) => text,
        Err(e) => {
            return Err(Error::Asset(e));
        },
    };
    let images = write_manifest(assets);
    let mut first = String::from_str(MODULE_HEADER);
    first.append("-- COUNTRIES\n");
    first.append(countries.as_str());
    first.append("-- LOCATIONS\n");
    let mut middle = String::from_str("-- TRIPS\n");
    middle.append(trips.as_str());
    middle.append("-- MANIFEST\n");
    let ghost first_view = first@;
    let ghost middle_view = middle@;
    let mut module: Vec<Fragment> = Vec::new();
    module.push(Fragment::Text(first));
    assert(module.deep_view() =~= seq![FragmentView::Text(first_view)]);
    append_fragments(&mut module, locations);
    let ghost before = module.deep_view();
    module.push(Fragment::Text(middle));
    assert(module.deep_view() =~= before + seq![FragmentView::Text(middle_view)]);
    append_fragments(&mut module, images);
    Ok(module)
}

} // verus!
