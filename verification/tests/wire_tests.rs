use broadcaster::actions::Action;
use broadcaster::actions::CreateBaseLayerImageActionPayload;
use broadcaster::actions::CreatePlantActionPayload;
use broadcaster::actions::DeleteBaseLayerImageActionPayload;
use broadcaster::actions::DeletePlantActionPayload;
use broadcaster::actions::MovePlantActionPayload;
use broadcaster::actions::TransformPlantActionPayload;
use broadcaster::actions::UpdateBaseLayerImageActionPayload;
use broadcaster::decode::deserialize_action;
use broadcaster::decode::reencode_action;
use broadcaster::wire::BroadcastError;
use broadcaster::wire::connected_message;
use broadcaster::wire::heartbeat_message;
use broadcaster::wire::serialize_action;

#[test]
fn create_planting_frame_is_exact() {
    let action = Action::CreatePlanting(CreatePlantActionPayload {
        user_id: "U".to_string(),
        id: "p1".to_string(),
        layer_id: 3,
        plant_id: 9,
        x: -5,
        y: 0,
        width: 80,
        height: 40,
        rotation: "0".to_string(),
        scale_x: "1.5".to_string(),
        scale_y: "100".to_string(),
    });
    let frame = serialize_action(&action).unwrap();
    assert_eq!(
        frame,
        "{\"type\":\"CreatePlanting\",\"payload\":{\"userId\":\"U\",\"id\":\"p1\",\
         \"layerId\":3,\"plantId\":9,\"x\":-5,\"y\":0,\"width\":80,\"height\":40,\
         \"rotation\":0,\"scaleX\":1.5,\"scaleY\":100}}"
    );
    let parsed: serde_json::Value = serde_json::from_str(&frame).unwrap();
    assert_eq!(parsed["payload"]["scaleX"], serde_json::Value::from(1.5));
}

#[test]
fn delete_planting_frame_is_exact() {
    let action = Action::DeletePlanting(DeletePlantActionPayload {
        user_id: "owner".to_string(),
        id: "dead".to_string(),
    });
    let frame = serialize_action(&action).unwrap();
    assert_eq!(
        frame,
        "{\"type\":\"DeletePlanting\",\"payload\":{\"userId\":\"owner\",\"id\":\"dead\"}}"
    );
}

#[test]
fn minimum_integer_renders_correctly() {
    let action = Action::MovePlanting(MovePlantActionPayload {
        user_id: "U".to_string(),
        id: "p".to_string(),
        x: i32::MIN,
        y: i32::MAX,
    });
    let frame = serialize_action(&action).unwrap();
    assert_eq!(
        frame,
        "{\"type\":\"MovePlanting\",\"payload\":{\"userId\":\"U\",\"id\":\"p\",\
         \"x\":-2147483648,\"y\":2147483647}}"
    );
}

#[test]
fn quote_in_a_text_field_is_a_serialization_failure() {
    let action = Action::DeletePlanting(DeletePlantActionPayload {
        user_id: "a\"b".to_string(),
        id: "p".to_string(),
    });
    assert_eq!(serialize_action(&action), Err(BroadcastError::SerializationFailure));
}

#[test]
fn malformed_number_text_is_a_serialization_failure() {
    let action = Action::TransformPlanting(TransformPlantActionPayload {
        user_id: "U".to_string(),
        id: "p".to_string(),
        x: 0,
        y: 0,
        rotation: "abc".to_string(),
        scale_x: "1".to_string(),
        scale_y: "1".to_string(),
    });
    assert_eq!(serialize_action(&action), Err(BroadcastError::SerializationFailure));
}

#[test]
fn ack_and_heartbeat_frames_are_the_documented_literals() {
    assert_eq!(connected_message(), "connected");
    assert_eq!(heartbeat_message(), "ping");
}

#[test]
fn round_trip_move_planting() {
    let action = Action::MovePlanting(MovePlantActionPayload {
        user_id: "U".to_string(),
        id: "abc-1".to_string(),
        x: 42,
        y: -17,
    });
    let frame = serialize_action(&action).unwrap();
    match deserialize_action(&frame).unwrap() {
        Action::MovePlanting(p) => {
            assert_eq!(p.user_id, "U");
            assert_eq!(p.id, "abc-1");
            assert_eq!(p.x, 42);
            assert_eq!(p.y, -17);
        },
        _ => panic!("wrong tag"),
    }
}

#[test]
fn round_trip_create_planting() {
    let action = Action::CreatePlanting(CreatePlantActionPayload {
        user_id: "someone".to_string(),
        id: "p1".to_string(),
        layer_id: 3,
        plant_id: 9,
        x: -5,
        y: 0,
        width: 80,
        height: 40,
        rotation: "0.25".to_string(),
        scale_x: "1".to_string(),
        scale_y: "2e3".to_string(),
    });
    let frame = serialize_action(&action).unwrap();
    match deserialize_action(&frame).unwrap() {
        Action::CreatePlanting(p) => {
            assert_eq!(p.user_id, "someone");
            assert_eq!(p.id, "p1");
            assert_eq!(p.layer_id, 3);
            assert_eq!(p.plant_id, 9);
            assert_eq!(p.x, -5);
            assert_eq!(p.y, 0);
            assert_eq!(p.width, 80);
            assert_eq!(p.height, 40);
            assert_eq!(p.rotation, "0.25");
            assert_eq!(p.scale_x, "1");
            assert_eq!(p.scale_y, "2e3");
        },
        _ => panic!("wrong tag"),
    }
}

#[test]
fn round_trip_transform_planting() {
    let action = Action::TransformPlanting(TransformPlantActionPayload {
        user_id: "U".to_string(),
        id: "t".to_string(),
        x: 1,
        y: 2,
        rotation: "-90".to_string(),
        scale_x: "0.5".to_string(),
        scale_y: "0.5".to_string(),
    });
    let frame = serialize_action(&action).unwrap();
    match deserialize_action(&frame).unwrap() {
        Action::TransformPlanting(p) => {
            assert_eq!(p.rotation, "-90");
            assert_eq!(p.scale_x, "0.5");
            assert_eq!(p.x, 1);
            assert_eq!(p.y, 2);
        },
        _ => panic!("wrong tag"),
    }
}

#[test]
fn round_trip_delete_planting() {
    let action = Action::DeletePlanting(DeletePlantActionPayload {
        user_id: "U".to_string(),
        id: "gone".to_string(),
    });
    let frame = serialize_action(&action).unwrap();
    match deserialize_action(&frame).unwrap() {
        Action::DeletePlanting(p) => {
            assert_eq!(p.user_id, "U");
            assert_eq!(p.id, "gone");
        },
        _ => panic!("wrong tag"),
    }
}

#[test]
fn round_trip_base_layer_image_actions() {
    let create = Action::CreateBaseLayerImage(CreateBaseLayerImageActionPayload {
        user_id: "U".to_string(),
        id: "img".to_string(),
        layer_id: 2,
        rotation: "0".to_string(),
        scale: "100".to_string(),
        path: "gardens/7/base.png".to_string(),
    });
    let frame = serialize_action(&create).unwrap();
    match deserialize_action(&frame).unwrap() {
        Action::CreateBaseLayerImage(p) => {
            assert_eq!(p.path, "gardens/7/base.png");
            assert_eq!(p.layer_id, 2);
            assert_eq!(p.scale, "100");
        },
        _ => panic!("wrong tag"),
    }

    let update = Action::UpdateBaseLayerImage(UpdateBaseLayerImageActionPayload {
        user_id: "U".to_string(),
        id: "img".to_string(),
        layer_id: 2,
        rotation: "45".to_string(),
        scale: "50".to_string(),
        path: "gardens/7/new.png".to_string(),
    });
    let frame = serialize_action(&update).unwrap();
    match deserialize_action(&frame).unwrap() {
        Action::UpdateBaseLayerImage(p) => {
            assert_eq!(p.rotation, "45");
            assert_eq!(p.path, "gardens/7/new.png");
        },
        _ => panic!("wrong tag"),
    }

    let delete = Action::DeleteBaseLayerImage(DeleteBaseLayerImageActionPayload {
        user_id: "U".to_string(),
        id: "img".to_string(),
    });
    let frame = serialize_action(&delete).unwrap();
    match deserialize_action(&frame).unwrap() {
        Action::DeleteBaseLayerImage(p) => {
            assert_eq!(p.id, "img");
        },
        _ => panic!("wrong tag"),
    }
}

#[test]
fn deserialize_rejects_foreign_text() {
    assert!(deserialize_action("not a frame").is_none());
    assert!(deserialize_action("{\"type\":\"MovePlanting\",\"payload\":{}}").is_none());
    assert!(deserialize_action("").is_none());
}

#[test]
fn reencode_reproduces_tag_and_fields() {
    let action = Action::MovePlanting(MovePlantActionPayload {
        user_id: "U".to_string(),
        id: "p9".to_string(),
        x: 0,
        y: i32::MIN,
    });
    match reencode_action(&action).unwrap() {
        Action::MovePlanting(p) => {
            assert_eq!(p.user_id, "U");
            assert_eq!(p.id, "p9");
            assert_eq!(p.x, 0);
            assert_eq!(p.y, i32::MIN);
        },
        _ => panic!("wrong tag"),
    }

    let bad = Action::DeletePlanting(DeletePlantActionPayload {
        user_id: "a\"b".to_string(),
        id: "p".to_string(),
    });
    assert!(reencode_action(&bad).is_none());
}
