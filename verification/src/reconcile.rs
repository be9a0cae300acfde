//! Reconciliation of the catalog with the store: every location of the catalog gets its
//! coordinates, from the store where the store holds the location and from the geocoding
//! service where it does not. The service is asked by the caller: the reconciler says what
//! to search for, and takes the answer.

use crate::catalog::{
    all_entries, clash, copy_optional, is_mapping, Catalog, CatalogEntry, CatalogEntryView,
    CatalogView, Trip, TripView,
};
use crate::diff::{
    find_new_locations, holds_location, is_new_location, lemma_new_locations_contains,
    new_locations,
};
use crate::error::{ConfigError, Error, ErrorView, GeocodeError, GeocodeErrorView, StoreConsistencyError};
use crate::geo::{
    collection_of, knows_place, lemma_place_position, lemma_place_position_extended,
    lemma_place_position_unique, names_place, point_feature, resolve, Degrees, Feature,
    FeatureCollection, FeatureCollectionView, FeatureView,
};
use crate::identifier::location_identifier;
use crate::place::{
    code_of, lemma_location_identifier_is_tag, lemma_location_tags_distinct, Country,
    CountryCodes, Location,
};
use crate::trips::{build_trips, trip_features};
use vstd::prelude::*;
use vstd::string::*;

verus! {

/// A location of the catalog, resolved: its display name, its country and its coordinates
/// `[lon, lat]`.
#[derive(Debug)]
pub struct LocationInformation {
    pub id: Location,
    pub name: String,
    pub country: Country,
    pub coordinates: Vec<Degrees>,
}

/// The mathematical value of a [`LocationInformation`].
pub struct LocationInformationView {
    pub id: Location,
    pub name: Seq<char>,
    pub country: Country,
    pub coordinates: Seq<Degrees>,
}

impl View for LocationInformation {
    type V = LocationInformationView;

    open spec fn view(&self) -> LocationInformationView {
        LocationInformationView {
            id: self.id,
            name: self.name@,
            country: self.country,
            coordinates: self.coordinates@,
        }
    }
}

impl DeepView for LocationInformation {
    type V = LocationInformationView;

    open spec fn deep_view(&self) -> LocationInformationView {
        self@
    }
}

/// What the geocoding service is asked for a location: its display name, a comma, and the
/// display name of its country.
pub open spec fn geocode_query(location: Location, country: Country) -> Seq<char> {
    location.spec_name() + ", "@ + country.spec_name()
}

/// The resolved record of a catalog entry with the given coordinates.
pub open spec fn detail(entry: CatalogEntryView, coordinates: Seq<Degrees>) -> LocationInformationView {
    LocationInformationView {
        id: entry.location,
        name: entry.location.spec_name(),
        country: entry.country,
        coordinates,
    }
}

/// The point feature that the store gets for a catalog entry that was geocoded.
pub open spec fn located(entry: CatalogEntryView, code: Seq<char>, lon: Degrees, lat: Degrees) -> FeatureView {
    point_feature(entry.location.spec_name(), entry.local_name, Some(code), lon, lat)
}

/// The resolved records of the first `n` entries, as `features` resolves them. The sentinel
/// has no record.
pub open spec fn details_of(entries: Seq<CatalogEntryView>, features: Seq<FeatureView>, n: int) -> Seq<
    LocationInformationView,
>
    decreases n,
{
    if n <= 0 {
        Seq::empty()
    } else {
        let entry = entries[n - 1];
        let before = details_of(entries, features, n - 1);
        if entry.location == Location::Local {
            before
        } else {
            match resolve(features, entry.location) {
                Ok(point) => before.push(detail(entry, point)),
                Err(_) => before,
            }
        }
    }
}

/// The state of a reconciliation.
pub struct ReconcilerView {
    /// The entries of the catalog, in order.
    pub entries: Seq<CatalogEntryView>,
    /// Whether there was a store at the start.
    pub existed: bool,
    /// The marker of the store's kind: the one of the store at the start, or the usual one
    /// where there was no store.
    pub marker: Seq<char>,
    /// How many features the store held at the start.
    pub initial: int,
    /// How many entries have been dealt with.
    pub next: int,
    /// The features of the store as it is now: those of the start, then one for each
    /// location that was geocoded.
    pub features: Seq<FeatureView>,
    /// The resolved record of each entry dealt with, the sentinel left out.
    pub details: Seq<LocationInformationView>,
}

impl ReconcilerView {
    /// The state at the start, for the given entries and store.
    pub open spec fn start(entries: Seq<CatalogEntryView>, store: Option<FeatureCollectionView>) -> ReconcilerView {
        let found = match store {
            Some(collection) => collection,
            None => collection_of(Seq::empty()),
        };
        ReconcilerView {
            entries,
            existed: store is Some,
            marker: found.type_,
            initial: found.features.len() as int,
            next: 0,
            features: found.features,
            details: Seq::empty(),
        }
    }

    /// The features that the store held at the start.
    pub open spec fn found_at_start(self) -> Seq<FeatureView> {
        self.features.take(self.initial)
    }

    /// How many features were appended since the start.
    pub open spec fn appended(self) -> int {
        self.features.len() - self.initial
    }

    /// True when every entry has been dealt with.
    pub open spec fn at_end(self) -> bool {
        self.next < 0 || self.next >= self.entries.len()
    }

    /// True when the next entry is a location that the store did not hold at the start.
    pub open spec fn needs_geocode(self) -> bool {
        !self.at_end() && is_new_location(self.found_at_start(), self.entries[self.next].location)
    }

    /// The state after the next entry, where that entry needs no geocoding: the sentinel is
    /// passed over; a location that the store holds gets the coordinates of its feature,
    /// which must be a point.
    pub open spec fn pass(self) -> Result<ReconcilerView, StoreConsistencyError> {
        let entry = self.entries[self.next];
        if entry.location == Location::Local {
            Ok(ReconcilerView { next: self.next + 1, ..self })
        } else {
            match resolve(self.features, entry.location) {
                Ok(point) => Ok(
                    ReconcilerView {
                        next: self.next + 1,
                        details: self.details.push(detail(entry, point)),
                        ..self
                    },
                ),
                Err(e) => Err(e),
            }
        }
    }

    /// The state after all entries up to the next one that needs geocoding, or up to the end.
    pub open spec fn settle(self) -> Result<ReconcilerView, StoreConsistencyError>
        decreases self.entries.len() - self.next,
    {
        if self.at_end() || self.needs_geocode() {
            Ok(self)
        } else {
            match self.pass() {
                Ok(after) => after.settle(),
                Err(e) => Err(e),
            }
        }
    }

    /// The state after the next entry, where that entry was geocoded to `[lon, lat]`: the
    /// store gets a point feature for it, which carries the code of the entry's country. A
    /// country without a code is an error.
    pub open spec fn accept(self, codes: Seq<(Seq<char>, Seq<char>)>, lon: Degrees, lat: Degrees) -> Result<
        ReconcilerView,
        ConfigError,
    > {
        let entry = self.entries[self.next];
        match code_of(codes, entry.country.spec_name()) {
            Some(code) => Ok(
                ReconcilerView {
                    next: self.next + 1,
                    features: self.features.push(located(entry, code, lon, lat)),
                    details: self.details.push(detail(entry, seq![lon, lat])),
                    ..self
                },
            ),
            None => Err(ConfigError::MissingCountryCode(entry.country)),
        }
    }

    /// The state at the end of a reconciliation that goes on from this state, where the
    /// geocoding service gives `answers`, one for each search in the order of the searches:
    /// the coordinates `(lon, lat)`, or nothing where the search fails. A search without an
    /// answer ends the reconciliation with the error that the place was not found.
    pub open spec fn run(
        self,
        codes: Seq<(Seq<char>, Seq<char>)>,
        answers: Seq<Option<(Degrees, Degrees)>>,
    ) -> Result<ReconcilerView, ErrorView>
        decreases self.entries.len() - self.next,
    {
        if self.at_end() {
            Ok(self)
        } else if self.needs_geocode() {
            let entry = self.entries[self.next];
            if answers.len() == 0 || answers[0] is None {
                Err(
                    ErrorView::Geocode(
                        GeocodeErrorView::NotFound(geocode_query(entry.location, entry.country)),
                    ),
                )
            } else {
                match self.accept(codes, answers[0]->Some_0.0, answers[0]->Some_0.1) {
                    Ok(after) => after.run(codes, answers.drop_first()),
                    Err(e) => Err(ErrorView::Config(e)),
                }
            }
        } else {
            match self.pass() {
                Ok(after) => after.run(codes, answers),
                Err(e) => Err(ErrorView::Store(e)),
            }
        }
    }

    /// What a reconciliation that has reached this state leaves behind: the store, the
    /// paths of `trips`, and the records. The paths fail where a city of a trip does not
    /// resolve to a point. The store is to be written where it did not exist or has grown;
    /// where the paths fail, a store that did not exist is not written.
    pub open spec fn outcome(self, trips: Seq<TripView>) -> ReconciliationView {
        let paths = trip_features(self.features, trips);
        ReconciliationView {
            store: FeatureCollectionView { type_: self.marker, features: self.features },
            write_store: if paths is Ok {
                !self.existed || self.appended() > 0
            } else {
                self.existed && self.appended() > 0
            },
            trips: match paths {
                Ok(features) => Ok(collection_of(features)),
                Err(e) => Err(e),
            },
            details: self.details,
        }
    }

    /// The state in which a new reconciliation of the same catalog starts, when this state's
    /// store is the one that it finds.
    pub open spec fn again(self) -> ReconcilerView {
        ReconcilerView::start(
            self.entries,
            Some(FeatureCollectionView { type_: self.marker, features: self.features }),
        )
    }

    /// True when entry `k` is the sentinel or resolves to a point.
    pub open spec fn accounted(self, k: int) -> bool {
        self.entries[k].location != Location::Local ==> resolve(
            self.features,
            self.entries[k].location,
        ) is Ok
    }

    /// True when entry `k`, if the store did not hold it at the start, is not held now either.
    pub open spec fn awaited(self, k: int) -> bool {
        is_new_location(self.found_at_start(), self.entries[k].location) ==> !knows_place(
            self.features,
            self.entries[k].location.spec_tag(),
        )
    }

    /// What holds of every state that a reconciliation reaches: the store has only grown;
    /// every entry dealt with resolves to a point, and the records are what the store
    /// resolves those entries to; no entry still to come has been geocoded.
    pub open spec fn consistent(self) -> bool {
        &&& 0 <= self.initial <= self.features.len()
        &&& 0 <= self.next <= self.entries.len()
        &&& forall|i: int, j: int|
            0 <= i < j < self.entries.len() ==> !clash(
                #[trigger] self.entries[i],
                #[trigger] self.entries[j],
            )
        &&& forall|k: int| 0 <= k < self.next ==> #[trigger] self.accounted(k)
        &&& forall|k: int| self.next <= k < self.entries.len() ==> #[trigger] self.awaited(k)
        &&& self.details == details_of(self.entries, self.features, self.next)
    }
}

/// The mathematical value of a store, if there is a store.
pub open spec fn store_view(store: Option<FeatureCollection>) -> Option<FeatureCollectionView> {
    match store {
        Some(collection) => Some(collection@),
        None => None,
    }
}

/// The mathematical value of a [`Reconciliation`].
pub struct ReconciliationView {
    pub store: FeatureCollectionView,
    pub write_store: bool,
    pub trips: Result<FeatureCollectionView, StoreConsistencyError>,
    pub details: Seq<LocationInformationView>,
}

/// The reconciliation of a catalog with a store, from start to end, where the geocoding
/// service gives `answers`.
pub open spec fn reconcile(
    catalog: CatalogView,
    codes: Seq<(Seq<char>, Seq<char>)>,
    store: Option<FeatureCollectionView>,
    answers: Seq<Option<(Degrees, Degrees)>>,
) -> Result<ReconciliationView, ErrorView> {
    match ReconcilerView::start(all_entries(catalog.places), store).run(codes, answers) {
        Ok(end) => Ok(end.outcome(catalog.trips)),
        Err(e) => Err(e),
    }
}

/// A location that the features resolve is one that they know.
pub proof fn lemma_resolved_is_known(features: Seq<FeatureView>, location: Location)
    ensures
        resolve(features, location) is Ok ==> knows_place(features, location.spec_tag()),
        !knows_place(features, location.spec_tag()) ==> resolve(features, location) == Err::<
            Seq<Degrees>,
            StoreConsistencyError,
        >(StoreConsistencyError::MissingFeature(location)),
{
    lemma_place_position(features, location.spec_tag());
}

/// Appending features does not change what a known location resolves to.
pub proof fn lemma_resolve_extended(
    features: Seq<FeatureView>,
    more: Seq<FeatureView>,
    location: Location,
)
    requires
        knows_place(features, location.spec_tag()),
    ensures
        resolve(features + more, location) == resolve(features, location),
        knows_place(features + more, location.spec_tag()),
{
    lemma_place_position_extended(features, more, location.spec_tag());
    lemma_place_position(features, location.spec_tag());
    lemma_place_position(features + more, location.spec_tag());
}

/// A point feature appended for a location that was not known makes the location resolve to
/// that point.
pub proof fn lemma_resolve_appended(
    features: Seq<FeatureView>,
    entry: CatalogEntryView,
    code: Seq<char>,
    lon: Degrees,
    lat: Degrees,
)
    requires
        !knows_place(features, entry.location.spec_tag()),
    ensures
        resolve(features.push(located(entry, code, lon, lat)), entry.location) == Ok::<
            Seq<Degrees>,
            StoreConsistencyError,
        >(seq![lon, lat]),
        knows_place(features.push(located(entry, code, lon, lat)), entry.location.spec_tag()),
{
    let tag = entry.location.spec_tag();
    let grown = features.push(located(entry, code, lon, lat));
    lemma_location_identifier_is_tag(entry.location);
    assert forall|i: int| 0 <= i < features.len() implies !names_place(grown, i, tag) by {
        assert(grown[i] == features[i]);
        assert(!names_place(features, i, tag));
    }
    assert(names_place(grown, features.len() as int, tag));
    lemma_place_position_unique(grown, tag, features.len() as int);
}

/// A point feature appended for one location leaves another location unknown.
pub proof fn lemma_other_stays_unknown(
    features: Seq<FeatureView>,
    entry: CatalogEntryView,
    code: Seq<char>,
    lon: Degrees,
    lat: Degrees,
    other: Location,
)
    requires
        !knows_place(features, other.spec_tag()),
        other != entry.location,
    ensures
        !knows_place(features.push(located(entry, code, lon, lat)), other.spec_tag()),
{
    let tag = other.spec_tag();
    let grown = features.push(located(entry, code, lon, lat));
    lemma_location_identifier_is_tag(entry.location);
    lemma_location_tags_distinct(other, entry.location);
    assert forall|i: int| !names_place(grown, i, tag) by {
        if 0 <= i < features.len() {
            assert(grown[i] == features[i]);
            assert(!names_place(features, i, tag));
        }
    }
}

/// Appending features does not change the records of entries that all resolve.
pub proof fn lemma_details_stable(
    entries: Seq<CatalogEntryView>,
    features: Seq<FeatureView>,
    more: Seq<FeatureView>,
    n: int,
)
    requires
        0 <= n <= entries.len(),
        forall|k: int|
            0 <= k < n && (#[trigger] entries[k]).location != Location::Local ==> resolve(
                features,
                entries[k].location,
            ) is Ok,
    ensures
        details_of(entries, features + more, n) == details_of(entries, features, n),
    decreases n,
{
    if n > 0 {
        lemma_details_stable(entries, features, more, n - 1);
        let entry = entries[n - 1];
        if entry.location != Location::Local {
            lemma_resolved_is_known(features, entry.location);
            lemma_resolve_extended(features, more, entry.location);
        }
    }
}

/// Passing an entry keeps the state consistent, and leaves the store as it is.
pub proof fn lemma_pass_keeps(v: ReconcilerView)
    requires
        v.consistent(),
        !v.at_end(),
        !v.needs_geocode(),
        v.pass() is Ok,
    ensures
        v.pass()->Ok_0.consistent(),
        v.pass()->Ok_0.features == v.features,
        v.pass()->Ok_0.initial == v.initial,
        v.pass()->Ok_0.entries == v.entries,
        v.pass()->Ok_0.existed == v.existed,
        v.pass()->Ok_0.marker == v.marker,
        v.pass()->Ok_0.next == v.next + 1,
{
    let w = v.pass()->Ok_0;
    assert forall|k: int| 0 <= k < w.next implies #[trigger] w.accounted(k) by {
        if k < v.next {
            assert(v.accounted(k));
        }
    }
    assert forall|k: int| w.next <= k < w.entries.len() implies #[trigger] w.awaited(k) by {
        assert(v.awaited(k));
    }
}

/// Taking the answer for an entry keeps the state consistent, and appends one feature to the
/// store: the point of the entry that was geocoded.
pub proof fn lemma_accept_keeps(
    v: ReconcilerView,
    codes: Seq<(Seq<char>, Seq<char>)>,
    lon: Degrees,
    lat: Degrees,
)
    requires
        v.consistent(),
        v.needs_geocode(),
        v.accept(codes, lon, lat) is Ok,
    ensures
        v.accept(codes, lon, lat)->Ok_0.consistent(),
        v.accept(codes, lon, lat)->Ok_0.found_at_start() == v.found_at_start(),
        v.accept(codes, lon, lat)->Ok_0.initial == v.initial,
        v.accept(codes, lon, lat)->Ok_0.entries == v.entries,
        v.accept(codes, lon, lat)->Ok_0.existed == v.existed,
        v.accept(codes, lon, lat)->Ok_0.marker == v.marker,
        v.accept(codes, lon, lat)->Ok_0.next == v.next + 1,
        v.accept(codes, lon, lat)->Ok_0.features.len() == v.features.len() + 1,
        v.accept(codes, lon, lat)->Ok_0.features.take(v.features.len() as int) == v.features,
        knows_place(
            v.accept(codes, lon, lat)->Ok_0.features,
            v.entries[v.next].location.spec_tag(),
        ),
{
    let w = v.accept(codes, lon, lat)->Ok_0;
    let entry = v.entries[v.next];
    let code = code_of(codes, entry.country.spec_name())->Some_0;
    let point = located(entry, code, lon, lat);
    assert(v.awaited(v.next));
    assert(w.features =~= v.features + seq![point]);
    assert(w.features.take(v.features.len() as int) =~= v.features);
    assert(w.found_at_start() =~= v.found_at_start());
    lemma_resolve_appended(v.features, entry, code, lon, lat);
    assert forall|k: int| 0 <= k < w.next implies #[trigger] w.accounted(k) by {
        if k < v.next {
            assert(v.accounted(k));
            if v.entries[k].location != Location::Local {
                lemma_resolved_is_known(v.features, v.entries[k].location);
                lemma_resolve_extended(v.features, seq![point], v.entries[k].location);
            }
        }
    }
    assert forall|k: int| w.next <= k < w.entries.len() implies #[trigger] w.awaited(k) by {
        assert(v.awaited(k));
        if is_new_location(w.found_at_start(), w.entries[k].location) {
            assert(!clash(v.entries[v.next], v.entries[k]));
            lemma_other_stays_unknown(v.features, entry, code, lon, lat, v.entries[k].location);
        }
    }
    assert forall|k: int|
        0 <= k < v.next && (#[trigger] v.entries[k]).location != Location::Local implies resolve(
        v.features,
        v.entries[k].location,
    ) is Ok by {
        assert(v.accounted(k));
    }
    lemma_details_stable(v.entries, v.features, seq![point], v.next);
}

/// True when no two features stand for the same place.
pub open spec fn unique_places(features: Seq<FeatureView>) -> bool {
    forall|i: int, j: int|
        0 <= i < j < features.len() ==> location_identifier(
            (#[trigger] features[i]).properties.name,
        ) != location_identifier((#[trigger] features[j]).properties.name)
}

/// A store in which no two features stand for the same place stays so when the answer for
/// an entry is taken.
pub proof fn lemma_accept_keeps_unique(
    v: ReconcilerView,
    codes: Seq<(Seq<char>, Seq<char>)>,
    lon: Degrees,
    lat: Degrees,
)
    requires
        v.consistent(),
        v.needs_geocode(),
        v.accept(codes, lon, lat) is Ok,
        unique_places(v.features),
    ensures
        unique_places(v.accept(codes, lon, lat)->Ok_0.features),
{
    let w = v.accept(codes, lon, lat)->Ok_0;
    let entry = v.entries[v.next];
    let tag = entry.location.spec_tag();
    assert(v.awaited(v.next));
    lemma_location_identifier_is_tag(entry.location);
    assert forall|i: int, j: int| 0 <= i < j < w.features.len() implies location_identifier(
        (#[trigger] w.features[i]).properties.name,
    ) != location_identifier((#[trigger] w.features[j]).properties.name) by {
        if j < v.features.len() {
            assert(w.features[i] == v.features[i]);
            assert(w.features[j] == v.features[j]);
        } else {
            assert(w.features[i] == v.features[i]);
            assert(!names_place(v.features, i, tag));
        }
    }
}

/// Settling keeps the state consistent, and leaves the store as it is.
pub proof fn lemma_settle_keeps(v: ReconcilerView)
    requires
        v.consistent(),
        v.settle() is Ok,
    ensures
        v.settle()->Ok_0.consistent(),
        v.settle()->Ok_0.features == v.features,
        v.settle()->Ok_0.initial == v.initial,
        v.settle()->Ok_0.entries == v.entries,
        v.settle()->Ok_0.existed == v.existed,
        v.settle()->Ok_0.marker == v.marker,
        v.settle()->Ok_0.next >= v.next,
        v.settle()->Ok_0.at_end() || v.settle()->Ok_0.needs_geocode(),
    decreases v.entries.len() - v.next,
{
    if !(v.at_end() || v.needs_geocode()) {
        lemma_pass_keeps(v);
        lemma_settle_keeps(v.pass()->Ok_0);
    }
}

/// A reconciliation goes on from a state as it goes on from the state settled.
pub proof fn lemma_run_after_settle(
    v: ReconcilerView,
    codes: Seq<(Seq<char>, Seq<char>)>,
    answers: Seq<Option<(Degrees, Degrees)>>,
)
    ensures
        v.run(codes, answers) == match v.settle() {
            Ok(settled) => settled.run(codes, answers),
            Err(e) => Err(ErrorView::Store(e)),
        },
    decreases v.entries.len() - v.next,
{
    if !(v.at_end() || v.needs_geocode()) {
        if v.pass() is Ok {
            lemma_run_after_settle(v.pass()->Ok_0, codes, answers);
        }
    }
}

/// The state at the start of a reconciliation of a catalog is consistent.
pub proof fn lemma_start_is_consistent(
    places: Seq<crate::catalog::CountryPlacesView>,
    store: Option<FeatureCollectionView>,
)
    requires
        is_mapping(places),
    ensures
        ReconcilerView::start(all_entries(places), store).consistent(),
{
    let v = ReconcilerView::start(all_entries(places), store);
    assert(v.found_at_start() =~= v.features);
    assert forall|k: int| v.next <= k < v.entries.len() implies #[trigger] v.awaited(k) by {}
}

/// A reconciliation that goes on from a consistent state ends in a consistent state, with
/// every entry dealt with, and with a store that begins with the store it went on from.
pub proof fn lemma_run_keeps(
    v: ReconcilerView,
    codes: Seq<(Seq<char>, Seq<char>)>,
    answers: Seq<Option<(Degrees, Degrees)>>,
)
    requires
        v.consistent(),
        v.run(codes, answers) is Ok,
    ensures
        v.run(codes, answers)->Ok_0.consistent(),
        v.run(codes, answers)->Ok_0.at_end(),
        v.run(codes, answers)->Ok_0.entries == v.entries,
        v.run(codes, answers)->Ok_0.existed == v.existed,
        v.run(codes, answers)->Ok_0.marker == v.marker,
        v.run(codes, answers)->Ok_0.initial == v.initial,
        v.run(codes, answers)->Ok_0.features.len() >= v.features.len(),
        v.run(codes, answers)->Ok_0.features.take(v.features.len() as int) == v.features,
    decreases v.entries.len() - v.next,
{
    if v.at_end() {
        assert(v.features.take(v.features.len() as int) =~= v.features);
    } else if v.needs_geocode() {
        let lon = answers[0]->Some_0.0;
        let lat = answers[0]->Some_0.1;
        let after = v.accept(codes, lon, lat)->Ok_0;
        lemma_accept_keeps(v, codes, lon, lat);
        lemma_run_keeps(after, codes, answers.drop_first());
        let end = after.run(codes, answers.drop_first())->Ok_0;
        assert(end.features.take(v.features.len() as int) =~= end.features.take(
            after.features.len() as int,
        ).take(v.features.len() as int));
    } else {
        lemma_pass_keeps(v);
        lemma_run_keeps(v.pass()->Ok_0, codes, answers);
    }
}

/// After a reconciliation the store knows every location of the catalog, the newly geocoded
/// ones among them, and still begins with the features that it held before.
pub proof fn lemma_reconciled_store_knows_all(
    catalog: CatalogView,
    codes: Seq<(Seq<char>, Seq<char>)>,
    store: Option<FeatureCollectionView>,
    answers: Seq<Option<(Degrees, Degrees)>>,
    k: int,
)
    requires
        is_mapping(catalog.places),
        reconcile(catalog, codes, store, answers) is Ok,
        0 <= k < all_entries(catalog.places).len(),
        all_entries(catalog.places)[k].location != Location::Local,
    ensures
        knows_place(
            reconcile(catalog, codes, store, answers)->Ok_0.store.features,
            all_entries(catalog.places)[k].location.spec_tag(),
        ),
        store matches Some(before) ==> {
            &&& reconcile(catalog, codes, store, answers)->Ok_0.store.type_ == before.type_
            &&& reconcile(catalog, codes, store, answers)->Ok_0.store.features.take(
                before.features.len() as int,
            ) == before.features
        },
{
    let start = ReconcilerView::start(all_entries(catalog.places), store);
    lemma_start_is_consistent(catalog.places, store);
    lemma_run_keeps(start, codes, answers);
    lemma_finished_store_knows_all(start.run(codes, answers)->Ok_0, k);
}

/// Reconciling twice in a row, with no change to the catalog, asks the geocoding service for
/// nothing the second time and leaves the store as it is: the second reconciliation
/// succeeds without any answer, its store is the store of the first, which is not to be
/// written, and its paths and records are those of the first.
pub proof fn lemma_reconcile_is_idempotent(
    catalog: CatalogView,
    codes: Seq<(Seq<char>, Seq<char>)>,
    store: Option<FeatureCollectionView>,
    answers: Seq<Option<(Degrees, Degrees)>>,
)
    requires
        is_mapping(catalog.places),
        reconcile(catalog, codes, store, answers) is Ok,
    ensures
        reconcile(
            catalog,
            codes,
            Some(reconcile(catalog, codes, store, answers)->Ok_0.store),
            Seq::empty(),
        ) == Ok::<ReconciliationView, ErrorView>(
            ReconciliationView {
                write_store: false,
                ..reconcile(catalog, codes, store, answers)->Ok_0
            },
        ),
{
    let start = ReconcilerView::start(all_entries(catalog.places), store);
    lemma_start_is_consistent(catalog.places, store);
    lemma_run_keeps(start, codes, answers);
    let end = start.run(codes, answers)->Ok_0;
    lemma_second_run_is_quiet(end);
    let none = Seq::<Option<(Degrees, Degrees)>>::empty();
    lemma_run_after_settle(end.again(), codes, none);
}

/// In a consistent state that has reached the end, the store knows every location of the
/// catalog.
pub proof fn lemma_finished_store_knows_all(v: ReconcilerView, k: int)
    requires
        v.consistent(),
        v.at_end(),
        0 <= k < v.entries.len(),
        v.entries[k].location != Location::Local,
    ensures
        knows_place(v.features, v.entries[k].location.spec_tag()),
        !is_new_location(v.features, v.entries[k].location),
{
    assert(v.accounted(k));
    lemma_resolved_is_known(v.features, v.entries[k].location);
}

/// Reconciling again, with no change to the catalog, asks for nothing: started on the store
/// of a finished reconciliation, a new one settles at the end, with the same store, to which
/// nothing was appended, and with the same records.
pub proof fn lemma_second_run_is_quiet(v: ReconcilerView)
    requires
        v.consistent(),
        v.at_end(),
    ensures
        v.again().consistent(),
        v.again().settle() == Ok::<ReconcilerView, StoreConsistencyError>(
            ReconcilerView { next: v.next, details: v.details, ..v.again() },
        ),
        v.again().settle()->Ok_0.at_end(),
        v.again().settle()->Ok_0.features == v.features,
        v.again().settle()->Ok_0.appended() == 0,
{
    let r = v.again();
    assert(r.found_at_start() =~= v.features);
    assert forall|k: int| r.next <= k < r.entries.len() implies #[trigger] r.awaited(k) by {}
    lemma_quiet_from(v, 0);
    assert(details_of(v.entries, v.features, 0) =~= Seq::empty());
}

/// The induction behind `lemma_second_run_is_quiet`: from any position on.
proof fn lemma_quiet_from(v: ReconcilerView, n: int)
    requires
        v.consistent(),
        v.at_end(),
        0 <= n <= v.entries.len(),
    ensures
        (ReconcilerView { next: n, details: details_of(v.entries, v.features, n), ..v.again() }).settle()
            == Ok::<ReconcilerView, StoreConsistencyError>(
            ReconcilerView { next: v.next, details: v.details, ..v.again() },
        ),
    decreases v.entries.len() - n,
{
    let r = ReconcilerView { next: n, details: details_of(v.entries, v.features, n), ..v.again() };
    assert(r.found_at_start() =~= v.features);
    if n < v.entries.len() {
        let entry = v.entries[n];
        assert(v.accounted(n));
        if entry.location != Location::Local {
            lemma_resolved_is_known(v.features, entry.location);
        }
        assert(!r.needs_geocode());
        let after = r.pass()->Ok_0;
        assert(after == ReconcilerView {
            next: n + 1,
            details: details_of(v.entries, v.features, n + 1),
            ..v.again()
        });
        lemma_quiet_from(v, n + 1);
    }
}

/// What a reconciliation keeps between its steps.
#[derive(Debug)]
struct State {
    entries: Vec<CatalogEntry>,
    new_locations: Vec<Location>,
    existed: bool,
    marker: String,
    initial: usize,
    next: usize,
    features: Vec<Feature>,
    details: Vec<LocationInformation>,
}

impl View for State {
    type V = ReconcilerView;

    closed spec fn view(&self) -> ReconcilerView {
        ReconcilerView {
            entries: self.entries.deep_view(),
            existed: self.existed,
            marker: self.marker@,
            initial: self.initial as int,
            next: self.next as int,
            features: self.features.deep_view(),
            details: self.details.deep_view(),
        }
    }
}

impl State {
    /// The state is consistent, and its list of new locations is the one that belongs to the
    /// store of the start.
    closed spec fn sound(&self) -> bool {
        &&& self@.consistent()
        &&& self.new_locations@ == new_locations(self@.found_at_start(), self@.entries)
    }
}

/// A reconciliation between two entries of the catalog.
#[derive(Debug)]
pub struct Reconciler {
    state: State,
}

/// A reconciliation that waits for the geocoding service's answer for its next entry.
#[derive(Debug)]
pub struct Pending {
    state: State,
    query: String,
}

/// A reconciliation that has dealt with every entry of the catalog.
#[derive(Debug)]
pub struct Completed {
    state: State,
}

/// How far a reconciliation got.
#[derive(Debug)]
pub enum Progress {
    /// The next entry has to be geocoded before the reconciliation can go on.
    Geocode(Pending),
    /// Every entry has been dealt with.
    Finished(Completed),
}

/// What a reconciliation leaves behind.
#[derive(Debug)]
pub struct Reconciliation {
    /// The store, with the features that were appended.
    pub store: FeatureCollection,
    /// Whether the store has to be written: it did not exist, or features were appended.
    /// Where the paths of the trips fail, a store that did not exist is not written.
    pub write_store: bool,
    /// The paths of the trips, which are written anew every time, or the reason why they
    /// cannot be built.
    pub trips: Result<FeatureCollection, StoreConsistencyError>,
    /// The resolved record of every location of the catalog, in the catalog's order.
    pub details: Vec<LocationInformation>,
}

impl View for Reconciler {
    type V = ReconcilerView;

    closed spec fn view(&self) -> ReconcilerView {
        self.state@
    }
}

impl View for Pending {
    type V = ReconcilerView;

    closed spec fn view(&self) -> ReconcilerView {
        self.state@
    }
}

impl View for Completed {
    type V = ReconcilerView;

    closed spec fn view(&self) -> ReconcilerView {
        self.state@
    }
}

impl Reconciler {
    #[verifier::type_invariant]
    closed spec fn is_valid(self) -> bool {
        self.state.sound()
    }

    /// Starts a reconciliation of `catalog` with `store`. Without a store, every location of
    /// the catalog is new.
    pub fn begin(catalog: &Catalog, store: Option<FeatureCollection>) -> (reconciler: Reconciler)
        ensures
            reconciler@ == ReconcilerView::start(all_entries(catalog@.places), store_view(store)),
            reconciler@.consistent(),
    {
        let existed = store.is_some();
        let cities = match store {
            Some(collection) => collection,
            None => {
                let nothing: Vec<Feature> = Vec::new();
                assert(nothing.deep_view() =~= Seq::empty());
                FeatureCollection::new(nothing)
            },
        };
        let entries = catalog.entries();
        let new_locations = find_new_locations(cities.features.as_slice(), &entries);
        let initial: usize = cities.features.len();
        let state = State {
            entries,
            new_locations,
            existed,
            marker: cities.type_,
            initial,
            next: 0,
            features: cities.features,
            details: Vec::new(),
        };
        proof {
            let v = state@;
            assert(v.features =~= cities@.features);
            assert(v.found_at_start() =~= v.features);
            assert(v.details =~= Seq::empty());
            assert(v == ReconcilerView::start(all_entries(catalog@.places), store_view(store)));
            assert forall|k: int| v.next <= k < v.entries.len() implies #[trigger] v.awaited(k) by {}
        }
        Reconciler { state }
    }

    /// The locations of the catalog that the store did not hold at the start.
    pub fn new_locations(&self) -> (locations: &Vec<Location>)
        ensures
            locations@ == new_locations(self@.found_at_start(), self@.entries),
    {
        proof {
            use_type_invariant(self);
        }
        &self.state.new_locations
    }

    /// Deals with the entries that need no geocoding, up to the first one that does: the
    /// sentinel is passed over, and a location that the store holds gets its coordinates from
    /// the store. Stops with the search to make for the next entry, or at the end. Fails when
    /// the store's feature for a location is not a point.
    pub fn advance(self) -> (progress: Result<Progress, StoreConsistencyError>)
        ensures
            match progress {
                Ok(Progress::Geocode(pending)) => {
                    &&& self@.settle() == Ok::<ReconcilerView, StoreConsistencyError>(pending@)
                    &&& pending@.needs_geocode()
                    &&& pending@.consistent()
                },
                Ok(Progress::Finished(completed)) => {
                    &&& self@.settle() == Ok::<ReconcilerView, StoreConsistencyError>(completed@)
                    &&& completed@.at_end()
                    &&& completed@.consistent()
                },
                Err(e) => self@.settle() == Err::<ReconcilerView, StoreConsistencyError>(e),
            },
    {
        proof {
            use_type_invariant(&self);
        }
        let ghost start = self@;
        let mut state = self.state;
        while state.next < state.entries.len()
            invariant
                start == self@,
                state.sound(),
                state@.settle() == start.settle(),
            decreases state.entries.len() - state.next,
        {
            let ghost v = state@;
            let location = state.entries[state.next].location;
            let country = state.entries[state.next].country;
            assert(v.entries[v.next] == state.entries@[v.next]@);
            proof {
                lemma_new_locations_contains(v.found_at_start(), v.entries, location);
            }
            if location == Location::Local {
                state.next = state.next + 1;
                proof {
                    assert(state@ == v.pass()->Ok_0);
                    lemma_pass_keeps(v);
                }
            } else if holds_location(&state.new_locations, location) {
                assert(v.needs_geocode());
                assert(v.settle() == Ok::<ReconcilerView, StoreConsistencyError>(v));
                let mut query = location.name();
                query.append(", ");
                query.append(country.name().as_str());
                return Ok(Progress::Geocode(Pending { state, query }));
            } else {
                assert(!v.needs_geocode());
                match location.feature_coordinates(state.features.as_slice()) {
                    Ok(coordinates) => {
                        let found = LocationInformation {
                            id: location,
                            name: location.name(),
                            country,
                            coordinates,
                        };
                        state.details.push(found);
                        state.next = state.next + 1;
                        proof {
                            assert(state@.details =~= v.details.push(found@));
                            assert(state@ == v.pass()->Ok_0);
                            lemma_pass_keeps(v);
                        }
                    },
                    Err(e) => {
                        assert(v.pass() == Err::<ReconcilerView, StoreConsistencyError>(e));
                        assert(v.settle() == Err::<ReconcilerView, StoreConsistencyError>(e));
                        return Err(e);
                    },
                }
            }
        }
        assert(state@.settle() == Ok::<ReconcilerView, StoreConsistencyError>(state@));
        Ok(Progress::Finished(Completed { state }))
    }
}

impl Pending {
    #[verifier::type_invariant]
    closed spec fn is_valid(self) -> bool {
        &&& self.state.sound()
        &&& self.state@.needs_geocode()
        &&& self.query@ == geocode_query(
            self.state@.entries[self.state@.next].location,
            self.state@.entries[self.state@.next].country,
        )
    }

    /// What to search for: the display name of the location, a comma, and the display name of
    /// its country.
    pub fn query(&self) -> (query: &String)
        ensures
            self@.needs_geocode(),
            query@ == geocode_query(
                self@.entries[self@.next].location,
                self@.entries[self@.next].country,
            ),
    {
        proof {
            use_type_invariant(self);
        }
        &self.query
    }

    /// Takes the answer of the geocoding service: the location lies at `[lon, lat]`. The store
    /// gets a point feature for the location, under its display name, with its local name and
    /// with the code of its country. Fails when the country has no code.
    pub fn supply(self, codes: &CountryCodes, lon: Degrees, lat: Degrees) -> (reconciler: Result<
        Reconciler,
        ConfigError,
    >)
        ensures
            match reconciler {
                Ok(next) => {
                    &&& self@.accept(codes@, lon, lat) == Ok::<ReconcilerView, ConfigError>(next@)
                    &&& next@.consistent()
                },
                Err(e) => self@.accept(codes@, lon, lat) == Err::<ReconcilerView, ConfigError>(e),
            },
    {
        proof {
            use_type_invariant(&self);
        }
        let mut state = self.state;
        let ghost v = state@;
        let next: usize = state.next;
        assert(next < state.entries.len());
        let location = state.entries[next].location;
        let country = state.entries[next].country;
        let local_name = copy_optional(&state.entries[next].local_name);
        assert(v.entries[v.next] == state.entries@[v.next]@);
        match country.code(codes) {
            Ok(code) => {
                let feature = Feature::point(location.name(), local_name, Some(code), lon, lat);
                let mut coordinates: Vec<Degrees> = Vec::new();
                coordinates.push(lon);
                coordinates.push(lat);
                assert(coordinates@ =~= seq![lon, lat]);
                let found = LocationInformation {
                    id: location,
                    name: location.name(),
                    country,
                    coordinates,
                };
                state.features.push(feature);
                state.details.push(found);
                state.next = next + 1;
                proof {
                    assert(state@.features =~= v.features.push(feature@));
                    assert(state@.details =~= v.details.push(found@));
                    assert(state@ == v.accept(codes@, lon, lat)->Ok_0);
                    lemma_accept_keeps(v, codes@, lon, lat);
                }
                Ok(Reconciler { state })
            },
            Err(e) => Err(e),
        }
    }
}

impl Completed {
    #[verifier::type_invariant]
    closed spec fn is_valid(self) -> bool {
        &&& self.state.sound()
        &&& self.state@.at_end()
    }

    /// Concludes the reconciliation: builds the paths of `trips` from the store, and hands out
    /// the store, the paths and the records. The store then knows every location of the
    /// catalog. The paths fail when a city of a trip does not resolve to a point.
    pub fn conclude(self, trips: &Vec<Trip>) -> (done: Reconciliation)
        ensures
            done@ == self@.outcome(trips.deep_view()),
            forall|k: int|
                0 <= k < self@.entries.len() && (#[trigger] self@.entries[k]).location
                    != Location::Local ==> knows_place(
                    done.store@.features,
                    self@.entries[k].location.spec_tag(),
                ),
    {
        proof {
            use_type_invariant(&self);
        }
        let ghost v = self@;
        let state = self.state;
        let built = build_trips(state.features.as_slice(), trips);
        let grew = state.features.len() > state.initial;
        let write_store = match &built {
            Ok(_) => !state.existed || grew,
            Err(_) => state.existed && grew,
        };
        let store = FeatureCollection { type_: state.marker, features: state.features };
        proof {
            assert forall|k: int|
                0 <= k < v.entries.len() && (#[trigger] v.entries[k]).location
                    != Location::Local implies knows_place(
                store@.features,
                v.entries[k].location.spec_tag(),
            ) by {
                lemma_finished_store_knows_all(v, k);
            }
        }
        Reconciliation { store, write_store, trips: built, details: state.details }
    }
}

impl View for Reconciliation {
    type V = ReconciliationView;

    open spec fn view(&self) -> ReconciliationView {
        ReconciliationView {
            store: self.store@,
            write_store: self.write_store,
            trips: match self.trips {
                Ok(paths) => Ok(paths@),
                Err(e) => Err(e),
            },
            details: self.details.deep_view(),
        }
    }
}

impl LocationInformation {
    /// Reconciles `catalog` with `store` from start to end, for a caller that holds the
    /// answers of the geocoding service: one answer for each search, in the order of the
    /// searches, the coordinates `(lon, lat)` or nothing where the search fails. Fails where
    /// a search finds nothing, where a country has no code, and where the store's feature
    /// for a location is not a point.
    pub fn new(
        catalog: &Catalog,
        codes: &CountryCodes,
        store: Option<FeatureCollection>,
        answers: &Vec<Option<(Degrees, Degrees)>>,
    ) -> (outcome: Result<Reconciliation, Error>)
        ensures
            match outcome {
                Ok(done) => reconcile(catalog@, codes@, store_view(store), answers@) == Ok::<
                    ReconciliationView,
                    ErrorView,
                >(done@),
                Err(e) => reconcile(catalog@, codes@, store_view(store), answers@) == Err::<
                    ReconciliationView,
                    ErrorView,
                >(e@),
            },
    {
        let trips = catalog.trips();
        let ghost given = store_view(store);
        let mut reconciler = Reconciler::begin(catalog, store);
        let ghost start = reconciler@;
        let mut used: usize = 0;
        assert(answers@.skip(0) =~= answers@);
        loop
            invariant
                used <= answers.len(),
                given == store_view(store),
                start == ReconcilerView::start(all_entries(catalog@.places), given),
                trips.deep_view() == catalog@.trips,
                0 <= reconciler@.next <= reconciler@.entries.len(),
                reconciler@.run(codes@, answers@.skip(used as int)) == start.run(codes@, answers@),
            decreases reconciler@.entries.len() - reconciler@.next,
        {
            let ghost v = reconciler@;
            let ghost rest = answers@.skip(used as int);
            proof {
                lemma_run_after_settle(v, codes@, rest);
            }
            match reconciler.advance() {
                Err(e) => {
                    return Err(Error::Store(e));
                },
                Ok(Progress::Finished(completed)) => {
                    return Ok(completed.conclude(trips));
                },
                Ok(Progress::Geocode(pending)) => {
                    let ghost w = pending@;
                    proof {
                        lemma_settle_next(v);
                    }
                    if used >= answers.len() {
                        return Err(Error::Geocode(GeocodeError::NotFound(pending.query().clone())));
                    }
                    match answers[used] {
                        None => {
                            return Err(
                                Error::Geocode(GeocodeError::NotFound(pending.query().clone())),
                            );
                        },
                        Some((lon, lat)) => {
                            assert(rest[0] == answers@[used as int]);
                            assert(rest.drop_first() =~= answers@.skip(used + 1));
                            match pending.supply(codes, lon, lat) {
                                Ok(next) => {
                                    reconciler = next;
                                    used += 1;
                                },
                                Err(e) => {
                                    return Err(Error::Config(e));
                                },
                            }
                        },
                    }
                },
            }
        }
    }
}

/// Settling moves on, and never past the end.
pub proof fn lemma_settle_next(v: ReconcilerView)
    requires
        0 <= v.next <= v.entries.len(),
        v.settle() is Ok,
    ensures
        v.next <= v.settle()->Ok_0.next <= v.entries.len(),
        v.settle()->Ok_0.entries == v.entries,
    decreases v.entries.len() - v.next,
{
    if !(v.at_end() || v.needs_geocode()) {
        lemma_settle_next(v.pass()->Ok_0);
    }
}

} // verus!
