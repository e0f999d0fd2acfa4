//! Planting entities and their transfer values.
//!
//! These are the domain values the persistence layer hands back after a
//! committed mutation; the broadcaster projects them into action payloads.
//! Identifiers are carried as their textual form; fractional attributes as
//! decimal number texts.

use vstd::prelude::*;

use crate::wire::text_char_ok;
use crate::wire::text_ok;

verus! {

/// A persisted planting: a plant placed on a layer of a map.
pub struct Planting {
    /// Identifier of the planting, in textual form.
    pub id: String,
    /// Identifier of the plant species.
    pub plant_id: i32,
    /// Identifier of the layer the planting sits on.
    pub layer_id: i32,
    /// Horizontal position on the map.
    pub x: i32,
    /// Vertical position on the map.
    pub y: i32,
    /// Width of the planting.
    pub width: i32,
    /// Height of the planting.
    pub height: i32,
    /// Rotation, as decimal number text.
    pub rotation: String,
    /// Horizontal scale, as decimal number text.
    pub scale_x: String,
    /// Vertical scale, as decimal number text.
    pub scale_y: String,
}

/// A request to create a planting; the identifier may be left for the
/// system to draw.
pub struct NewPlantingDto {
    /// Identifier to use, or none to have a fresh one drawn.
    pub id: Option<String>,
    pub plant_id: i32,
    pub layer_id: i32,
    pub x: i32,
    pub y: i32,
    pub width: i32,
    pub height: i32,
    pub rotation: String,
    pub scale_x: String,
    pub scale_y: String,
}

/// The position part of an update request.
pub struct MovePlantingDto {
    pub x: i32,
    pub y: i32,
}

/// The geometry part of an update request.
pub struct TransformPlantingDto {
    pub x: i32,
    pub y: i32,
    pub rotation: String,
    pub scale_x: String,
    pub scale_y: String,
}

/// A request to update a planting: either a plain move or a full
/// transform.
pub enum UpdatePlantingDto {
    /// Move the planting, changing position alone.
    Move(MovePlantingDto),
    /// Transform the planting: position, rotation and scale.
    Transform(TransformPlantingDto),
}

/// The partial update written to the store: only the fields the request
/// touches are set.
pub struct UpdatePlanting {
    pub x: Option<i32>,
    pub y: Option<i32>,
    pub rotation: Option<String>,
    pub scale_x: Option<String>,
    pub scale_y: Option<String>,
}

/// A character of a textual identifier: a lower-case hex digit or a
/// hyphen.
pub open spec fn is_uuid_char(c: char) -> bool {
    ('0' <= c && c <= '9') || ('a' <= c && c <= 'f') || c == '-'
}

/// The textual form of a drawn identifier: 36 hyphenated hex characters.
pub open spec fn uuid_text_ok(s: Seq<char>) -> bool {
    s.len() == 36 && forall|i: int| 0 <= i < s.len() ==> is_uuid_char(#[trigger] s[i])
}

/// A drawn identifier is plain text: it can stand in a wire frame
/// verbatim.
pub proof fn lemma_uuid_text_plain(s: Seq<char>)
    requires
        uuid_text_ok(s),
    ensures
        text_ok(s),
{
    assert forall|i: int| 0 <= i < s.len() implies text_char_ok(s[i]) by {
        assert(is_uuid_char(s[i]));
    }
}

/// Relies on uuid::Uuid::new_v4 and the hyphenated rendering of its
/// Display impl: a fresh random identifier shown as 36 characters, each a
/// lower-case hex digit or a hyphen.  Nothing is assumed about which
/// identifier comes back.
#[verifier::external_body]
pub(crate) fn fresh_uuid() -> (r: String)
    ensures
        uuid_text_ok(r@),
{
    uuid::Uuid::new_v4().to_string()
}

impl Planting {
    /// Builds the entity to persist from a creation request, drawing a
    /// fresh identifier when the request leaves it open.
    pub fn from(dto: NewPlantingDto) -> (r: Planting)
        ensures
            dto.id is Some ==> r.id == dto.id->0,
            dto.id is None ==> uuid_text_ok(r.id@),
            r.plant_id == dto.plant_id,
            r.layer_id == dto.layer_id,
            r.x == dto.x,
            r.y == dto.y,
            r.width == dto.width,
            r.height == dto.height,
            r.rotation == dto.rotation,
            r.scale_x == dto.scale_x,
            r.scale_y == dto.scale_y,
    {
        let id = match dto.id {
            Some(id) => id,
            None => fresh_uuid(),
        };
        Planting {
            id,
            plant_id: dto.plant_id,
            layer_id: dto.layer_id,
            x: dto.x,
            y: dto.y,
            width: dto.width,
            height: dto.height,
            rotation: dto.rotation,
            scale_x: dto.scale_x,
            scale_y: dto.scale_y,
        }
    }
}

impl crate::actions::PlantingDto {
    /// Projects a persisted planting into its transfer value.
    pub fn from(entity: Planting) -> (r: Self)
        ensures
            r.id == entity.id,
            r.plant_id == entity.plant_id,
            r.layer_id == entity.layer_id,
            r.x == entity.x,
            r.y == entity.y,
            r.width == entity.width,
            r.height == entity.height,
            r.rotation == entity.rotation,
            r.scale_x == entity.scale_x,
            r.scale_y == entity.scale_y,
    {
        Self {
            id: entity.id,
            plant_id: entity.plant_id,
            layer_id: entity.layer_id,
            x: entity.x,
            y: entity.y,
            width: entity.width,
            height: entity.height,
            rotation: entity.rotation,
            scale_x: entity.scale_x,
            scale_y: entity.scale_y,
        }
    }
}

impl UpdatePlanting {
    /// Projects an update request into the partial store update: a move
    /// sets position alone, a transform sets position, rotation and
    /// scale; everything else stays unset.
    pub fn from(dto: UpdatePlantingDto) -> (r: UpdatePlanting)
        ensures
            dto is Move ==> r.x == Some(dto->Move_0.x) && r.y == Some(dto->Move_0.y) && r.rotation
                is None && r.scale_x is None && r.scale_y is None,
            dto is Transform ==> r.x == Some(dto->Transform_0.x) && r.y == Some(dto->Transform_0.y)
                && r.rotation == Some(dto->Transform_0.rotation) && r.scale_x == Some(
                dto->Transform_0.scale_x,
            ) && r.scale_y == Some(dto->Transform_0.scale_y),
    {
        match dto {
            UpdatePlantingDto::Transform(t) => UpdatePlanting {
                x: Some(t.x),
                y: Some(t.y),
                rotation: Some(t.rotation),
                scale_x: Some(t.scale_x),
                scale_y: Some(t.scale_y),
            },
            UpdatePlantingDto::Move(m) => UpdatePlanting {
                x: Some(m.x),
                y: Some(m.y),
                rotation: None,
                scale_x: None,
                scale_y: None,
            },
        }
    }
}

} // verus!
