//! The paths of the trips: each trip's cities resolved, in visiting order, to the points
//! that the store holds for them.

use crate::catalog::{Trip, TripView};
use crate::error::StoreConsistencyError;
use crate::geo::{
    collection_of, line_feature, resolve, Degrees, Feature, FeatureCollection, FeatureView,
};
use crate::place::Location;
use vstd::prelude::*;
use vstd::string::*;

verus! {

/// The path through `cities`: the point of each city, in order. The first city that does not
/// resolve to a point makes the whole path fail with that city's error.
pub open spec fn trip_path(features: Seq<FeatureView>, cities: Seq<Location>) -> Result<
    Seq<Seq<Degrees>>,
    StoreConsistencyError,
>
    decreases cities.len(),
{
    if cities.len() == 0 {
        Ok(Seq::empty())
    } else {
        match trip_path(features, cities.drop_last()) {
            Ok(points) => match resolve(features, cities.last()) {
                Ok(point) => Ok(points.push(point)),
                Err(e) => Err(e),
            },
            Err(e) => Err(e),
        }
    }
}

/// One polyline feature per trip, named after the trip, in the order of the trips. The first
/// trip whose path fails makes the whole list fail.
pub open spec fn trip_features(features: Seq<FeatureView>, trips: Seq<TripView>) -> Result<
    Seq<FeatureView>,
    StoreConsistencyError,
>
    decreases trips.len(),
{
    if trips.len() == 0 {
        Ok(Seq::empty())
    } else {
        match trip_features(features, trips.drop_last()) {
            Ok(paths) => match trip_path(features, trips.last().cities) {
                Ok(points) => Ok(paths.push(line_feature(trips.last().name, points))),
                Err(e) => Err(e),
            },
            Err(e) => Err(e),
        }
    }
}

/// A path that was built has one point for each city, in the order of the cities, and each
/// point is the one that the city's location resolves to.
pub proof fn lemma_trip_path_follows_cities(features: Seq<FeatureView>, cities: Seq<Location>)
    requires
        trip_path(features, cities) is Ok,
    ensures
        trip_path(features, cities)->Ok_0.len() == cities.len(),
        forall|i: int|
            0 <= i < cities.len() ==> resolve(features, #[trigger] cities[i]) == Ok::<
                Seq<Degrees>,
                StoreConsistencyError,
            >(trip_path(features, cities)->Ok_0[i]),
    decreases cities.len(),
{
    if cities.len() > 0 {
        lemma_trip_path_follows_cities(features, cities.drop_last());
        let head = trip_path(features, cities.drop_last())->Ok_0;
        let path = trip_path(features, cities)->Ok_0;
        assert forall|i: int| 0 <= i < cities.len() implies resolve(features, #[trigger] cities[i])
            == Ok::<Seq<Degrees>, StoreConsistencyError>(path[i]) by {
            if i < cities.len() - 1 {
                assert(cities.drop_last()[i] == cities[i]);
                assert(path[i] == head[i]);
            }
        }
    }
}

/// A path fails exactly when one of its cities does not resolve, and then with the error of
/// the first such city.
pub proof fn lemma_trip_path_fails_at_first(features: Seq<FeatureView>, cities: Seq<Location>)
    ensures
        trip_path(features, cities) is Ok <==> forall|i: int|
            0 <= i < cities.len() ==> resolve(features, #[trigger] cities[i]) is Ok,
        trip_path(features, cities) is Err ==> exists|k: int|
            0 <= k < cities.len() && resolve(features, #[trigger] cities[k]) == Err::<
                Seq<Degrees>,
                StoreConsistencyError,
            >(trip_path(features, cities)->Err_0) && forall|i: int|
                0 <= i < k ==> resolve(features, #[trigger] cities[i]) is Ok,
    decreases cities.len(),
{
    if cities.len() > 0 {
        let head = cities.drop_last();
        lemma_trip_path_fails_at_first(features, head);
        assert forall|i: int| 0 <= i < head.len() implies head[i] == cities[i] by {}
        if trip_path(features, head) is Ok {
            assert forall|i: int| 0 <= i < head.len() implies resolve(features, #[trigger] cities[i]) is Ok by {
                assert(head[i] == cities[i]);
            }
            if resolve(features, cities.last()) is Err {
                let k = cities.len() - 1;
                assert(resolve(features, cities[k]) == Err::<Seq<Degrees>, StoreConsistencyError>(
                    trip_path(features, cities)->Err_0,
                ));
            }
        } else {
            let k = choose|k: int|
                0 <= k < head.len() && resolve(features, #[trigger] head[k]) == Err::<
                    Seq<Degrees>,
                    StoreConsistencyError,
                >(trip_path(features, head)->Err_0) && forall|i: int|
                    0 <= i < k ==> resolve(features, #[trigger] head[i]) is Ok;
            assert(head[k] == cities[k]);
            assert forall|i: int| 0 <= i < k implies resolve(features, #[trigger] cities[i]) is Ok by {
                assert(head[i] == cities[i]);
            }
        }
    }
}

/// The paths that were built are one for each trip, in the order of the trips: each is named
/// after its trip and goes through the path of its trip's cities.
pub proof fn lemma_trip_features_follow_trips(features: Seq<FeatureView>, trips: Seq<TripView>)
    requires
        trip_features(features, trips) is Ok,
    ensures
        trip_features(features, trips)->Ok_0.len() == trips.len(),
        forall|i: int|
            0 <= i < trips.len() ==> {
                &&& trip_path(features, (#[trigger] trips[i]).cities) is Ok
                &&& trip_features(features, trips)->Ok_0[i] == line_feature(
                    trips[i].name,
                    trip_path(features, trips[i].cities)->Ok_0,
                )
            },
    decreases trips.len(),
{
    if trips.len() > 0 {
        lemma_trip_features_follow_trips(features, trips.drop_last());
        let head = trip_features(features, trips.drop_last())->Ok_0;
        let paths = trip_features(features, trips)->Ok_0;
        assert forall|i: int| 0 <= i < trips.len() implies {
            &&& trip_path(features, (#[trigger] trips[i]).cities) is Ok
            &&& paths[i] == line_feature(trips[i].name, trip_path(features, trips[i].cities)->Ok_0)
        } by {
            if i < trips.len() - 1 {
                assert(trips.drop_last()[i] == trips[i]);
                assert(paths[i] == head[i]);
            }
        }
    }
}

/// Builds the path through `cities` from the points that `features` holds.
pub fn build_path(features: &[Feature], cities: &Vec<Location>) -> (path: Result<
    Vec<Vec<Degrees>>,
    StoreConsistencyError,
>)
    ensures
        match path {
            Ok(points) => {
                &&& trip_path(features.deep_view(), cities@) == Ok::<
                    Seq<Seq<Degrees>>,
                    StoreConsistencyError,
                >(points.deep_view())
                &&& points.len() == cities.len()
                &&& forall|i: int|
                    0 <= i < cities.len() ==> resolve(features.deep_view(), #[trigger] cities@[i])
                        == Ok::<Seq<Degrees>, StoreConsistencyError>(points.deep_view()[i])
            },
            Err(e) => trip_path(features.deep_view(), cities@) == Err::<
                Seq<Seq<Degrees>>,
                StoreConsistencyError,
            >(e),
        },
{
    let ghost views = features.deep_view();
    let mut points: Vec<Vec<Degrees>> = Vec::new();
    let mut i: usize = 0;
    assert(cities@.take(0) =~= Seq::empty());
    assert(points.deep_view() =~= Seq::empty());
    while i < cities.len()
        invariant
            i <= cities.len(),
            views == features.deep_view(),
            trip_path(views, cities@.take(i as int)) == Ok::<
                Seq<Seq<Degrees>>,
                StoreConsistencyError,
            >(points.deep_view()),
        decreases cities.len() - i,
    {
        proof {
            assert(cities@.take(i + 1).drop_last() =~= cities@.take(i as int));
            assert(cities@.take(i + 1).last() == cities@[i as int]);
        }
        match cities[i].feature_coordinates(features) {
            Ok(point) => {
                let ghost before = points.deep_view();
                assert(point.deep_view() =~= point@);
                points.push(point);
                assert(points.deep_view() =~= before.push(point@));
            },
            Err(e) => {
                proof {
                    lemma_trip_path_prefix_fails(views, cities@, i + 1);
                }
                return Err(e);
            },
        }
        i += 1;
    }
    proof {
        assert(cities@.take(cities@.len() as int) =~= cities@);
        lemma_trip_path_follows_cities(views, cities@);
    }
    Ok(points)
}

/// A path whose beginning fails, fails in the same way.
pub proof fn lemma_trip_path_prefix_fails(features: Seq<FeatureView>, cities: Seq<Location>, n: int)
    requires
        0 <= n <= cities.len(),
        trip_path(features, cities.take(n)) is Err,
    ensures
        trip_path(features, cities) == trip_path(features, cities.take(n)),
    decreases cities.len() - n,
{
    if n < cities.len() {
        assert(cities.take(n + 1).drop_last() =~= cities.take(n));
        lemma_trip_path_prefix_fails(features, cities, n + 1);
    } else {
        assert(cities.take(n) =~= cities);
    }
}

/// A list of trips whose beginning fails, fails in the same way.
pub proof fn lemma_trip_features_prefix_fails(
    features: Seq<FeatureView>,
    trips: Seq<TripView>,
    n: int,
)
    requires
        0 <= n <= trips.len(),
        trip_features(features, trips.take(n)) is Err,
    ensures
        trip_features(features, trips) == trip_features(features, trips.take(n)),
    decreases trips.len() - n,
{
    if n < trips.len() {
        assert(trips.take(n + 1).drop_last() =~= trips.take(n));
        lemma_trip_features_prefix_fails(features, trips, n + 1);
    } else {
        assert(trips.take(n) =~= trips);
    }
}

/// Builds the collection of the trips' paths: one polyline feature per trip, named after the
/// trip. A city that the features do not resolve to a point fails the whole build.
pub fn build_trips(features: &[Feature], trips: &Vec<Trip>) -> (paths: Result<
    FeatureCollection,
    StoreConsistencyError,
>)
    ensures
        match paths {
            Ok(collection) => {
                &&& trip_features(features.deep_view(), trips.deep_view()) == Ok::<
                    Seq<FeatureView>,
                    StoreConsistencyError,
                >(collection@.features)
                &&& collection@ == collection_of(collection@.features)
            },
            Err(e) => trip_features(features.deep_view(), trips.deep_view()) == Err::<
                Seq<FeatureView>,
                StoreConsistencyError,
            >(e),
        },
{
    let ghost views = features.deep_view();
    let ghost trip_views = trips.deep_view();
    let mut paths: Vec<Feature> = Vec::new();
    let mut i: usize = 0;
    assert(trip_views.take(0) =~= Seq::empty());
    assert(paths.deep_view() =~= Seq::empty());
    while i < trips.len()
        invariant
            i <= trips.len(),
            views == features.deep_view(),
            trip_views == trips.deep_view(),
            trip_features(views, trip_views.take(i as int)) == Ok::<
                Seq<FeatureView>,
                StoreConsistencyError,
            >(paths.deep_view()),
        decreases trips.len() - i,
    {
        proof {
            assert(trip_views.take(i + 1).drop_last() =~= trip_views.take(i as int));
            assert(trip_views.take(i + 1).last() == trip_views[i as int]);
            assert(trip_views[i as int] == trips@[i as int]@);
        }
        match build_path(features, &trips[i].cities) {
            Ok(points) => {
                let ghost before = paths.deep_view();
                let path = Feature::line_string(trips[i].name.clone(), points);
                paths.push(path);
                assert(paths.deep_view() =~= before.push(path@));
            },
            Err(e) => {
                proof {
                    lemma_trip_features_prefix_fails(views, trip_views, i + 1);
                }
                return Err(e);
            },
        }
        i += 1;
    }
    assert(trip_views.take(trip_views.len() as int) =~= trip_views);
    Ok(FeatureCollection::new(paths))
}

} // verus!
