//! A feature of the model: an identifier, a geometry, a property mapping and
//! the bounds of the geometry, computed once when the feature is made.

use vstd::prelude::*;
use dashmap::DashMap;
use serde_json::Value;
use crate::concurrent_map::properties_clone;
use crate::concurrent_map::properties_new;
use crate::concurrent_map::property_entries;
use crate::error::Failure;
use crate::error::GeoArrowError;
use crate::geodata::Feature;
use crate::geodata::FeatureCollection;
use crate::model::bounds::GeoBounds;
use crate::model::geometry::converted;
use crate::model::geometry::FeatureGeometry;
use crate::model::geometry::Shape;
use crate::model::FeatureId;

verus! {

/// A feature with its geometry validated and its bounds cached.
#[derive(Debug)]
pub struct GeoFeature {
    pub id: FeatureId,
    pub geometry: FeatureGeometry,
    pub properties: DashMap<String, Value>,
    pub bounds: GeoBounds,
}

/// A feature as a mathematical value.
pub struct FeatureModel {
    pub id: Seq<char>,
    pub geometry: Shape,
    pub properties: Map<Seq<char>, Seq<char>>,
    pub bounds: GeoBounds,
}

impl View for GeoFeature {
    type V = FeatureModel;

    open spec fn view(&self) -> FeatureModel {
        FeatureModel {
            id: self.id@,
            geometry: self.geometry@,
            properties: property_entries(self.properties),
            bounds: self.bounds,
        }
    }
}

impl DeepView for GeoFeature {
    type V = FeatureModel;

    open spec fn deep_view(&self) -> FeatureModel {
        self@
    }
}

impl Clone for GeoFeature {
    /// A copy with the same identifier, geometry, properties and bounds.
    fn clone(&self) -> (copy: GeoFeature)
        ensures
            copy@ == self@,
    {
        GeoFeature {
            id: self.id.clone(),
            geometry: self.geometry.clone(),
            properties: properties_clone(&self.properties),
            bounds: self.bounds,
        }
    }
}

/// The number of characters of a generated identifier: 32 hexadecimal
/// digits in five groups with four hyphens between them.
pub const GENERATED_ID_LENGTH: usize = 36;

/// A random version-4 UUID from `Uuid::new_v4`, as text from its
/// `to_string`. The text differs from call to call; what holds of every
/// one is its form, the hyphenated one, which has 36 characters.
#[verifier::external_body]
fn generate_id() -> (id: String)
    ensures
        id@.len() == GENERATED_ID_LENGTH,
{
    uuid::Uuid::new_v4().to_string()
}

impl GeoFeature {
    /// Makes a feature; its bounds are those of the geometry.
    pub fn new(id: String, geometry: FeatureGeometry, properties: DashMap<String, Value>) -> (f:
        GeoFeature)
        ensures
            f@ == (FeatureModel {
                id: id@,
                geometry: geometry@,
                properties: property_entries(properties),
                bounds: geometry@.bounds(),
            }),
    {
        let bounds: GeoBounds = geometry.calculate_bounds();
        GeoFeature { id, geometry, properties, bounds }
    }

    /// What building a feature from a source feature gives when `fallback`
    /// is the identifier to use where the source has none: the feature, or
    /// the rejection. A source feature without a geometry fails
    /// validation, and one whose geometry is rejected is rejected like it.
    pub open spec fn spec_from_source(feature: &Feature, fallback: Seq<char>) -> Result<
        FeatureModel,
        Failure,
    > {
        match feature.geometry {
            None => Err(Failure::Validation("Feature has no geometry"@)),
            Some(g) => match converted(&g) {
                Err(failure) => Err(failure),
                Ok(shape) => Ok(
                    FeatureModel {
                        id: match feature.id {
                            Some(id) => id.spec_text(),
                            None => fallback,
                        },
                        geometry: shape,
                        properties: match feature.properties {
                            Some(p) => property_entries(p),
                            None => Map::empty(),
                        },
                        bounds: shape.bounds(),
                    },
                ),
            },
        }
    }

    /// Builds a feature from a source feature, with `fallback` as its
    /// identifier where the source gives none.
    pub fn from_geojson_feature_with_id(feature: &Feature, fallback: String) -> (r: Result<
        GeoFeature,
        GeoArrowError,
    >)
        ensures
            match Self::spec_from_source(feature, fallback@) {
                Ok(model) => r.is_ok() && r.unwrap()@ == model,
                Err(failure) => r.is_err() && r.unwrap_err()@ == failure,
            },
    {
        let id: String = match &feature.id {
            Some(id) => id.text(),
            None => fallback,
        };
        let geometry: FeatureGeometry = match &feature.geometry {
            Some(g) => match FeatureGeometry::from_geojson_geometry(g) {
                Ok(geometry) => geometry,
                Err(e) => {
                    return Err(e);
                },
            },
            None => {
                return Err(GeoArrowError::validation("Feature has no geometry"));
            },
        };
        let properties: DashMap<String, Value> = match &feature.properties {
            Some(p) => properties_clone(p),
            None => {
                let empty = properties_new();
                assert(property_entries(empty) =~= Map::empty());
                empty
            },
        };
        Ok(GeoFeature::new(id, geometry, properties))
    }

    /// Builds a feature from a source feature. Where the source gives no
    /// identifier the feature gets a freshly generated one of 36
    /// characters.
    ///
    /// The identifier of the source is kept as text. The geometry is
    /// converted and validated; a source feature without geometry, or with
    /// one that is rejected, gives the error. The properties are copied,
    /// and are empty where the source has none.
    pub fn from_geojson_feature(feature: &Feature) -> (r: Result<GeoFeature, GeoArrowError>)
        ensures
            match Self::spec_from_source(feature, Seq::empty()) {
                Ok(_) => r.is_ok() && Self::spec_from_source(feature, r.unwrap()@.id) == Ok::<
                    FeatureModel,
                    Failure,
                >(r.unwrap()@) && (feature.id.is_none() ==> r.unwrap()@.id.len()
                    == GENERATED_ID_LENGTH),
                Err(failure) => r.is_err() && r.unwrap_err()@ == failure,
            },
    {
        match &feature.id {
            Some(_) => Self::from_geojson_feature_with_id(feature, String::new()),
            None => Self::from_geojson_feature_with_id(feature, generate_id()),
        }
    }

    /// The place of the first feature of a list that is rejected, if there
    /// is one.
    pub open spec fn spec_first_rejected(features: Seq<Feature>) -> Option<int>
        decreases features.len(),
    {
        if features.len() == 0 {
            None
        } else {
            match Self::spec_first_rejected(features.drop_last()) {
                Some(k) => Some(k),
                None => if Self::spec_from_source(&features.last(), Seq::empty()).is_err() {
                    Some(features.len() - 1)
                } else {
                    None
                },
            }
        }
    }

    /// Builds the features of a collection, all of them or none: the first
    /// feature that is rejected gives the error for the whole collection.
    /// A feature without identifier gets a freshly generated one of 36
    /// characters.
    pub fn from_feature_collection(collection: &FeatureCollection) -> (r: Result<
        Vec<GeoFeature>,
        GeoArrowError,
    >)
        ensures
            match Self::spec_first_rejected(collection.features@) {
                None => r.is_ok() && r.unwrap()@.len() == collection.features@.len() && forall|
                    i: int,
                |
                    0 <= i < collection.features@.len() ==> Self::spec_from_source(
                        &collection.features@[i],
                        (#[trigger] r.unwrap()@[i])@.id,
                    ) == Ok::<FeatureModel, Failure>(r.unwrap()@[i]@) && (
                    collection.features@[i].id.is_none() ==> r.unwrap()@[i]@.id.len()
                        == GENERATED_ID_LENGTH),
                Some(k) => 0 <= k < collection.features@.len() && r.is_err() && (
                match Self::spec_from_source(&collection.features@[k], Seq::empty()) {
                    Err(failure) => r.unwrap_err()@ == failure,
                    Ok(_) => false,
                }),
            },
    {
        let features = &collection.features;
        let mut out: Vec<GeoFeature> = Vec::new();
        let mut i: usize = 0;
        assert(features@.take(0) =~= Seq::empty());
        while i < features.len()
            invariant
                i <= features.len(),
                features == &collection.features,
                out@.len() == i,
                Self::spec_first_rejected(features@.take(i as int)).is_none(),
                forall|k: int|
                    0 <= k < i ==> Self::spec_from_source(&features@[k], (#[trigger] out@[k])@.id)
                        == Ok::<FeatureModel, Failure>(out@[k]@) && (features@[k].id.is_none()
                        ==> out@[k]@.id.len() == GENERATED_ID_LENGTH),
            decreases features.len() - i,
        {
            proof {
                let next = features@.take(i + 1);
                assert(next.drop_last() =~= features@.take(i as int));
                assert(next.last() == features@[i as int]);
            }
            match Self::from_geojson_feature(&features[i]) {
                Ok(feature) => {
                    out.push(feature);
                },
                Err(e) => {
                    proof {
                        let next = features@.take(i + 1);
                        assert(Self::spec_from_source(&next.last(), Seq::empty()).is_err());
                        assert(Self::spec_first_rejected(next) == Some(i as int));
                        Self::lemma_first_rejected_stays(features@, i + 1);
                    }
                    return Err(e);
                },
            }
            i += 1;
        }
        assert(features@.take(i as int) =~= features@);
        Ok(out)
    }

    /// The first rejected feature of a part of a list is the first
    /// rejected feature of the list.
    proof fn lemma_first_rejected_stays(features: Seq<Feature>, n: int)
        requires
            0 <= n <= features.len(),
            Self::spec_first_rejected(features.take(n)).is_some(),
        ensures
            Self::spec_first_rejected(features) == Self::spec_first_rejected(features.take(n)),
            0 <= Self::spec_first_rejected(features).unwrap() < n,
            Self::spec_from_source(
                &features[Self::spec_first_rejected(features).unwrap()],
                Seq::empty(),
            ).is_err(),
        decreases features.len() - n,
    {
        Self::lemma_first_rejected_found(features.take(n));
        if n == features.len() {
            assert(features.take(n) =~= features);
        } else {
            assert(features.take(n + 1).drop_last() =~= features.take(n));
            Self::lemma_first_rejected_stays(features, n + 1);
            let k = Self::spec_first_rejected(features.take(n)).unwrap();
            assert(features.take(n)[k] == features[k]);
        }
    }

    /// The first rejected feature of a list is a feature of the list that
    /// is rejected.
    proof fn lemma_first_rejected_found(features: Seq<Feature>)
        requires
            Self::spec_first_rejected(features).is_some(),
        ensures
            0 <= Self::spec_first_rejected(features).unwrap() < features.len(),
            Self::spec_from_source(
                &features[Self::spec_first_rejected(features).unwrap()],
                Seq::empty(),
            ).is_err(),
        decreases features.len(),
    {
        if features.len() > 0 {
            let init = features.drop_last();
            if Self::spec_first_rejected(init).is_some() {
                Self::lemma_first_rejected_found(init);
                let k = Self::spec_first_rejected(init).unwrap();
                assert(init[k] == features[k]);
            }
        }
    }
}

} // verus!
