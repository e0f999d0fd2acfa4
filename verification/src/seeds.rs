//! Seed and plant transfer values and their projections.
//!
//! The seed store itself is plain persistence and lives outside; what is
//! kept here is the data shaping around it: the projection of a creation
//! request into the row to insert, the projection of a plant row into its
//! transfer value, and the construction of the search filter pattern.

use vstd::prelude::*;
use vstd::string::StringExecFns;

verus! {

/// A calendar date as plain values.
pub struct Date {
    pub year: i32,
    /// Month of the year, one-based.
    pub month: u8,
    /// Day of the month, one-based.
    pub day: u8,
}

/// A request to register a seed packet.
pub struct NewSeedDTO {
    pub name: String,
    pub variety_id: i32,
    pub harvest_year: i16,
    /// Quantity bracket, by its name.
    pub quantity: String,
    /// Tags, by their names.
    pub tags: Vec<String>,
    pub use_by: Option<Date>,
    pub origin: Option<String>,
    pub taste: Option<String>,
    pub yield_: Option<String>,
    pub generation: Option<i16>,
    /// Quality bracket, by its name.
    pub quality: Option<String>,
    pub price: Option<i16>,
    pub notes: Option<String>,
}

/// The seed row to insert; tags are stored as optional values.
pub struct NewSeed {
    pub name: String,
    pub variety_id: i32,
    pub harvest_year: i16,
    pub quantity: String,
    pub tags: Vec<Option<String>>,
    pub use_by: Option<Date>,
    pub origin: Option<String>,
    pub taste: Option<String>,
    pub yield_: Option<String>,
    pub generation: Option<i16>,
    pub quality: Option<String>,
    pub price: Option<i16>,
    pub notes: Option<String>,
}

impl NewSeed {
    /// Projects a registration request into the row to insert: every
    /// field carries over, each tag wrapped as a present optional value.
    pub fn from(new_seed: NewSeedDTO) -> (r: NewSeed)
        ensures
            r.name == new_seed.name,
            r.variety_id == new_seed.variety_id,
            r.harvest_year == new_seed.harvest_year,
            r.quantity == new_seed.quantity,
            r.tags@.len() == new_seed.tags@.len(),
            forall|i: int|
                0 <= i < r.tags@.len() ==> r.tags@[i] == Some(#[trigger] new_seed.tags@[i]),
            r.use_by == new_seed.use_by,
            r.origin == new_seed.origin,
            r.taste == new_seed.taste,
            r.yield_ == new_seed.yield_,
            r.generation == new_seed.generation,
            r.quality == new_seed.quality,
            r.price == new_seed.price,
            r.notes == new_seed.notes,
    {
        let mut tags: Vec<Option<String>> = Vec::new();
        let n = new_seed.tags.len();
        let ghost source = new_seed.tags@;
        let mut consumed = new_seed.tags;
        // take the tags from the front, wrapping each
        let mut i: usize = 0;
        while i < n
            invariant
                i <= n,
                n == source.len(),
                consumed@ == source.skip(i as int),
                tags@.len() == i,
                forall|k: int| 0 <= k < i ==> tags@[k] == Some(#[trigger] source[k]),
            decreases n - i,
        {
            let tag = consumed.remove(0);
            proof {
                assert(tag == source[i as int]);
                assert(consumed@ =~= source.skip(i as int + 1));
            }
            tags.push(Some(tag));
            i += 1;
        }
        NewSeed {
            name: new_seed.name,
            variety_id: new_seed.variety_id,
            harvest_year: new_seed.harvest_year,
            quantity: new_seed.quantity,
            tags,
            use_by: new_seed.use_by,
            origin: new_seed.origin,
            taste: new_seed.taste,
            yield_: new_seed.yield_,
            generation: new_seed.generation,
            quality: new_seed.quality,
            price: new_seed.price,
            notes: new_seed.notes,
        }
    }
}

/// A plant row as the store returns it.
pub struct Plants {
    pub id: i32,
    /// Tags, by their names.
    pub tags: Vec<String>,
    pub species: String,
    pub plant: Option<String>,
    pub plant_type: Option<String>,
}

/// The transfer value of a plant row.
pub struct PlantsDto {
    pub id: i32,
    pub tags: Vec<String>,
    pub species: String,
    pub plant: Option<String>,
    pub plant_type: Option<String>,
}

impl PlantsDto {
    /// Projects a plant row into its transfer value.
    pub fn from(plants: Plants) -> (r: Self)
        ensures
            r.id == plants.id,
            r.tags == plants.tags,
            r.species == plants.species,
            r.plant == plants.plant,
            r.plant_type == plants.plant_type,
    {
        Self {
            id: plants.id,
            tags: plants.tags,
            species: plants.species,
            plant: plants.plant,
            plant_type: plants.plant_type,
        }
    }
}

/// Filters accepted by the seed search.
pub struct SeedSearchParameters {
    /// Substring to look for in the seed name, if any.
    pub name: Option<String>,
    /// Harvest year to match exactly, if any.
    pub harvest_year: Option<i16>,
}

/// The case-insensitive containment pattern for a name search: the name
/// between two wildcards.
pub fn ilike_pattern(name: &str) -> (r: String)
    ensures
        r@ == "%"@ + name@ + "%"@,
{
    let mut out = String::from_str("%");
    out.append(name);
    out.append("%");
    out
}

} // verus!
