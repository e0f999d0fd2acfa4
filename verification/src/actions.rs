//! The tagged set of domain-mutation events that the broadcaster fans out.
//!
//! Every mutation of a map-scoped entity is wrapped into one [`Action`]
//! value: an immutable record carrying the acting user's identifier and a
//! projection of the entity's externally visible attributes.  Identifiers
//! are carried as their textual form; fractional attributes (rotations and
//! scales) are carried as already-rendered decimal number texts, so that an
//! action is plain data from construction to transmission.

use vstd::prelude::*;

use crate::dto::UpdatePlantingDto;

verus! {

/// Externally visible attributes of a placed plant.
pub struct PlantingDto {
    /// Identifier of the planting, in textual form.
    pub id: String,
    /// Identifier of the plant species.
    pub plant_id: i32,
    /// Identifier of the layer the planting sits on.
    pub layer_id: i32,
    /// Horizontal position on the map.
    pub x: i32,
    /// Vertical position on the map.
    pub y: i32,
    /// Width of the planting.
    pub width: i32,
    /// Height of the planting.
    pub height: i32,
    /// Rotation, as decimal number text.
    pub rotation: String,
    /// Horizontal scale, as decimal number text.
    pub scale_x: String,
    /// Vertical scale, as decimal number text.
    pub scale_y: String,
}

/// Externally visible attributes of a base-layer background image.
pub struct BaseLayerImageDto {
    /// Identifier of the image, in textual form.
    pub id: String,
    /// Identifier of the layer the image belongs to.
    pub layer_id: i32,
    /// Rotation, as decimal number text.
    pub rotation: String,
    /// Scale, as decimal number text.
    pub scale: String,
    /// Storage path of the image file.
    pub path: String,
}

/// Payload of [`Action::CreatePlanting`]: the full set of attributes of the
/// planting that was created, stamped with the acting user.
pub struct CreatePlantActionPayload {
    pub user_id: String,
    pub id: String,
    pub layer_id: i32,
    pub plant_id: i32,
    pub x: i32,
    pub y: i32,
    pub width: i32,
    pub height: i32,
    pub rotation: String,
    pub scale_x: String,
    pub scale_y: String,
}

impl CreatePlantActionPayload {
    /// Projects a persisted planting and the acting user into the payload.
    pub fn new(payload: PlantingDto, user_id: String) -> (r: Self)
        ensures
            r.user_id == user_id,
            r.id == payload.id,
            r.layer_id == payload.layer_id,
            r.plant_id == payload.plant_id,
            r.x == payload.x,
            r.y == payload.y,
            r.width == payload.width,
            r.height == payload.height,
            r.rotation == payload.rotation,
            r.scale_x == payload.scale_x,
            r.scale_y == payload.scale_y,
    {
        Self {
            user_id,
            id: payload.id,
            layer_id: payload.layer_id,
            plant_id: payload.plant_id,
            x: payload.x,
            y: payload.y,
            width: payload.width,
            height: payload.height,
            rotation: payload.rotation,
            scale_x: payload.scale_x,
            scale_y: payload.scale_y,
        }
    }
}

/// Payload of [`Action::DeletePlanting`]: only the identifier is needed to
/// announce a deletion.
pub struct DeletePlantActionPayload {
    pub user_id: String,
    pub id: String,
}

impl DeletePlantActionPayload {
    /// Wraps the deleted planting's identifier and the acting user.
    pub fn new(id: String, user_id: String) -> (r: Self)
        ensures
            r.user_id == user_id,
            r.id == id,
    {
        Self { user_id, id }
    }
}

/// Payload of [`Action::MovePlanting`]: the new position alone.
pub struct MovePlantActionPayload {
    pub user_id: String,
    pub id: String,
    pub x: i32,
    pub y: i32,
}

impl MovePlantActionPayload {
    /// Projects the moved planting's position and the acting user.
    pub fn new(payload: PlantingDto, user_id: String) -> (r: Self)
        ensures
            r.user_id == user_id,
            r.id == payload.id,
            r.x == payload.x,
            r.y == payload.y,
    {
        Self { user_id, id: payload.id, x: payload.x, y: payload.y }
    }
}

/// Payload of [`Action::TransformPlanting`]: position, rotation and scale.
pub struct TransformPlantActionPayload {
    pub user_id: String,
    pub id: String,
    pub x: i32,
    pub y: i32,
    pub rotation: String,
    pub scale_x: String,
    pub scale_y: String,
}

impl TransformPlantActionPayload {
    /// Projects the transformed planting's geometry and the acting user.
    pub fn new(payload: PlantingDto, user_id: String) -> (r: Self)
        ensures
            r.user_id == user_id,
            r.id == payload.id,
            r.x == payload.x,
            r.y == payload.y,
            r.rotation == payload.rotation,
            r.scale_x == payload.scale_x,
            r.scale_y == payload.scale_y,
    {
        Self {
            user_id,
            id: payload.id,
            x: payload.x,
            y: payload.y,
            rotation: payload.rotation,
            scale_x: payload.scale_x,
            scale_y: payload.scale_y,
        }
    }
}

/// Payload of [`Action::CreateBaseLayerImage`] and
/// [`Action::UpdateBaseLayerImage`]: the image's full attributes.
pub struct CreateBaseLayerImageActionPayload {
    pub user_id: String,
    pub id: String,
    pub layer_id: i32,
    pub rotation: String,
    pub scale: String,
    pub path: String,
}

impl CreateBaseLayerImageActionPayload {
    /// Projects the created image and the acting user.
    pub fn new(payload: BaseLayerImageDto, user_id: String) -> (r: Self)
        ensures
            r.user_id == user_id,
            r.id == payload.id,
            r.layer_id == payload.layer_id,
            r.rotation == payload.rotation,
            r.scale == payload.scale,
            r.path == payload.path,
    {
        Self {
            user_id,
            id: payload.id,
            layer_id: payload.layer_id,
            rotation: payload.rotation,
            scale: payload.scale,
            path: payload.path,
        }
    }
}

/// Payload of [`Action::DeleteBaseLayerImage`].
pub struct DeleteBaseLayerImageActionPayload {
    pub user_id: String,
    pub id: String,
}

impl DeleteBaseLayerImageActionPayload {
    /// Wraps the deleted image's identifier and the acting user.
    pub fn new(id: String, user_id: String) -> (r: Self)
        ensures
            r.user_id == user_id,
            r.id == id,
    {
        Self { user_id, id }
    }
}

/// Payload of [`Action::UpdateBaseLayerImage`].
pub struct UpdateBaseLayerImageActionPayload {
    pub user_id: String,
    pub id: String,
    pub layer_id: i32,
    pub rotation: String,
    pub scale: String,
    pub path: String,
}

impl UpdateBaseLayerImageActionPayload {
    /// Projects the updated image and the acting user.
    pub fn new(payload: BaseLayerImageDto, user_id: String) -> (r: Self)
        ensures
            r.user_id == user_id,
            r.id == payload.id,
            r.layer_id == payload.layer_id,
            r.rotation == payload.rotation,
            r.scale == payload.scale,
            r.path == payload.path,
    {
        Self {
            user_id,
            id: payload.id,
            layer_id: payload.layer_id,
            rotation: payload.rotation,
            scale: payload.scale,
            path: payload.path,
        }
    }
}

/// The closed, tagged union of every mutation kind the broadcaster can
/// announce.  Adding a kind is a single-point, exhaustively checked change.
pub enum Action {
    /// A plant was placed on a map.
    CreatePlanting(CreatePlantActionPayload),
    /// A plant was removed from a map.
    DeletePlanting(DeletePlantActionPayload),
    /// A plant was moved.
    MovePlanting(MovePlantActionPayload),
    /// A plant was moved, rotated or rescaled.
    TransformPlanting(TransformPlantActionPayload),
    /// A base-layer background image was added.
    CreateBaseLayerImage(CreateBaseLayerImageActionPayload),
    /// A base-layer background image was changed.
    UpdateBaseLayerImage(UpdateBaseLayerImageActionPayload),
    /// A base-layer background image was removed.
    DeleteBaseLayerImage(DeleteBaseLayerImageActionPayload),
}

/// Chooses the action that announces a committed planting update: a move
/// request becomes a move action, a transform request a transform action,
/// each projecting the updated planting and the acting user.
pub fn action_for_update(dto: &UpdatePlantingDto, planting: PlantingDto, user_id: String) -> (r:
    Action)
    ensures
        dto is Move ==> (r matches Action::MovePlanting(p) && p.user_id == user_id && p.id
            == planting.id && p.x == planting.x && p.y == planting.y),
        dto is Transform ==> (r matches Action::TransformPlanting(p) && p.user_id == user_id
            && p.id == planting.id && p.x == planting.x && p.y == planting.y && p.rotation
            == planting.rotation && p.scale_x == planting.scale_x && p.scale_y
            == planting.scale_y),
{
    match dto {
        UpdatePlantingDto::Transform(_) => Action::TransformPlanting(
            TransformPlantActionPayload::new(planting, user_id),
        ),
        UpdatePlantingDto::Move(_) => Action::MovePlanting(
            MovePlantActionPayload::new(planting, user_id),
        ),
    }
}

} // verus!
