//! Map-service decisions.
//!
//! Persisting a map is plain storage work and stays outside; what is kept
//! here is what the service decides: which layers a new map starts with,
//! the base-layer image every map is given up front, and who may change a
//! map.

use vstd::prelude::*;
use vstd::string::StringExecFns;

use crate::actions::BaseLayerImageDto;
use crate::dto::uuid_text_ok;

verus! {

/// The kind of a map layer.
#[derive(Debug, Clone, Copy, PartialEq, Eq, Structural)]
pub enum LayerType {
    /// The background image layer.
    Base,
    /// The layer the plantings sit on.
    Plants,
}

/// A request to create a layer on a map.
pub struct NewLayerDto {
    /// The map the layer belongs to.
    pub map_id: i32,
    /// The kind of the layer.
    pub type_: LayerType,
    /// Display name of the layer.
    pub name: String,
    /// Whether the layer is an alternative to another of its kind.
    pub is_alternative: bool,
}

/// The layers every new map is created with: one base layer and one
/// plants layer, named after their kinds, neither an alternative.
pub fn initial_layers(map_id: i32) -> (r: Vec<NewLayerDto>)
    ensures
        r@.len() == 2,
        r@[0].map_id == map_id && r@[0].type_ == LayerType::Base && r@[0].name@ == "Base Layer"@
            && !r@[0].is_alternative,
        r@[1].map_id == map_id && r@[1].type_ == LayerType::Plants && r@[1].name@
            == "Plants Layer"@ && !r@[1].is_alternative,
{
    let mut layers: Vec<NewLayerDto> = Vec::new();
    layers.push(
        NewLayerDto {
            map_id,
            type_: LayerType::Base,
            name: String::from_str("Base Layer"),
            is_alternative: false,
        },
    );
    layers.push(
        NewLayerDto {
            map_id,
            type_: LayerType::Plants,
            name: String::from_str("Plants Layer"),
            is_alternative: false,
        },
    );
    layers
}

/// The base-layer image a new map is immediately given, so that a client
/// never has to create one: a fresh identifier, an empty path, no
/// rotation, full scale.
pub fn default_base_layer_image(layer_id: i32) -> (r: BaseLayerImageDto)
    ensures
        uuid_text_ok(r.id@),
        r.layer_id == layer_id,
        r.path@ == Seq::<char>::empty(),
        r.rotation@ == "0"@,
        r.scale@ == "100"@,
{
    BaseLayerImageDto {
        id: crate::dto::fresh_uuid(),
        layer_id,
        path: String::new(),
        rotation: String::from_str("0"),
        scale: String::from_str("100"),
    }
}

/// Whether the requesting user owns the map and so may change it.
pub fn can_modify_map(owner_id: &String, user_id: &String) -> (r: bool)
    ensures
        r == (owner_id@ == user_id@),
{
    owner_id.eq(user_id)
}

} // verus!
