use broadcaster::actions::Action;
use broadcaster::actions::CreatePlantActionPayload;
use broadcaster::actions::DeletePlantActionPayload;
use broadcaster::actions::PlantingDto;
use broadcaster::actions::action_for_update;
use broadcaster::auth::setup_auth;
use broadcaster::config::Config;
use broadcaster::config::ConfigError;
use broadcaster::config::parse_port;
use broadcaster::dto::MovePlantingDto;
use broadcaster::dto::NewPlantingDto;
use broadcaster::dto::Planting;
use broadcaster::dto::TransformPlantingDto;
use broadcaster::dto::UpdatePlanting;
use broadcaster::dto::UpdatePlantingDto;
use broadcaster::seeds::NewSeed;
use broadcaster::seeds::NewSeedDTO;
use broadcaster::seeds::Plants;
use broadcaster::seeds::PlantsDto;
use broadcaster::seeds::ilike_pattern;
use broadcaster::maps::LayerType;
use broadcaster::maps::can_modify_map;
use broadcaster::maps::default_base_layer_image;
use broadcaster::maps::initial_layers;

fn sample_planting() -> PlantingDto {
    PlantingDto {
        id: "p1".to_string(),
        plant_id: 9,
        layer_id: 3,
        x: 42,
        y: 17,
        width: 80,
        height: 40,
        rotation: "0".to_string(),
        scale_x: "1".to_string(),
        scale_y: "1".to_string(),
    }
}

#[test]
fn create_payload_projects_every_field() {
    let p = CreatePlantActionPayload::new(sample_planting(), "U".to_string());
    assert_eq!(p.user_id, "U");
    assert_eq!(p.id, "p1");
    assert_eq!(p.layer_id, 3);
    assert_eq!(p.plant_id, 9);
    assert_eq!(p.x, 42);
    assert_eq!(p.y, 17);
    assert_eq!(p.width, 80);
    assert_eq!(p.height, 40);
    assert_eq!(p.rotation, "0");
    assert_eq!(p.scale_x, "1");
    assert_eq!(p.scale_y, "1");
}

#[test]
fn delete_payload_wraps_id_and_user() {
    let p = DeletePlantActionPayload::new("dead".to_string(), "U".to_string());
    assert_eq!(p.id, "dead");
    assert_eq!(p.user_id, "U");
}

#[test]
fn update_request_picks_the_matching_action() {
    let mv = UpdatePlantingDto::Move(MovePlantingDto { x: 1, y: 2 });
    match action_for_update(&mv, sample_planting(), "U".to_string()) {
        Action::MovePlanting(p) => {
            assert_eq!(p.x, 42);
            assert_eq!(p.y, 17);
            assert_eq!(p.user_id, "U");
        },
        _ => panic!("move request must give a move action"),
    }
    let tr = UpdatePlantingDto::Transform(TransformPlantingDto {
        x: 1,
        y: 2,
        rotation: "5".to_string(),
        scale_x: "1".to_string(),
        scale_y: "1".to_string(),
    });
    match action_for_update(&tr, sample_planting(), "U".to_string()) {
        Action::TransformPlanting(p) => {
            assert_eq!(p.rotation, "0");
            assert_eq!(p.id, "p1");
        },
        _ => panic!("transform request must give a transform action"),
    }
}

#[test]
fn update_planting_sets_only_touched_fields() {
    let mv = UpdatePlanting::from(UpdatePlantingDto::Move(MovePlantingDto { x: 7, y: 8 }));
    assert_eq!(mv.x, Some(7));
    assert_eq!(mv.y, Some(8));
    assert_eq!(mv.rotation, None);
    assert_eq!(mv.scale_x, None);
    assert_eq!(mv.scale_y, None);

    let tr = UpdatePlanting::from(UpdatePlantingDto::Transform(TransformPlantingDto {
        x: 1,
        y: 2,
        rotation: "90".to_string(),
        scale_x: "2".to_string(),
        scale_y: "3".to_string(),
    }));
    assert_eq!(tr.x, Some(1));
    assert_eq!(tr.y, Some(2));
    assert_eq!(tr.rotation, Some("90".to_string()));
    assert_eq!(tr.scale_x, Some("2".to_string()));
    assert_eq!(tr.scale_y, Some("3".to_string()));
}

fn sample_new_planting(id: Option<String>) -> NewPlantingDto {
    NewPlantingDto {
        id,
        plant_id: 9,
        layer_id: 3,
        x: 1,
        y: 2,
        width: 10,
        height: 20,
        rotation: "0".to_string(),
        scale_x: "1".to_string(),
        scale_y: "1".to_string(),
    }
}

#[test]
fn planting_keeps_a_given_id() {
    let p = Planting::from(sample_new_planting(Some("keep-me".to_string())));
    assert_eq!(p.id, "keep-me");
    assert_eq!(p.plant_id, 9);
    assert_eq!(p.width, 10);
}

#[test]
fn planting_draws_a_fresh_id_when_none_is_given() {
    let p = Planting::from(sample_new_planting(None));
    assert_eq!(p.id.chars().count(), 36);
    assert!(p.id.chars().all(|c| c.is_ascii_hexdigit() || c == '-'));
    let q = Planting::from(sample_new_planting(None));
    assert_ne!(p.id, q.id);
}

#[test]
fn planting_dto_projects_the_entity() {
    let entity = Planting::from(sample_new_planting(Some("e1".to_string())));
    let dto = PlantingDto::from(entity);
    assert_eq!(dto.id, "e1");
    assert_eq!(dto.plant_id, 9);
    assert_eq!(dto.layer_id, 3);
    assert_eq!(dto.height, 20);
}

#[test]
fn parse_port_accepts_exactly_valid_ports() {
    assert_eq!(parse_port("8080"), Ok(8080));
    assert_eq!(parse_port("0"), Ok(0));
    assert_eq!(parse_port("+80"), Ok(80));
    assert_eq!(parse_port("65535"), Ok(65535));
    assert_eq!(parse_port("65536"), Err(ConfigError::InvalidPort));
    assert_eq!(parse_port(""), Err(ConfigError::InvalidPort));
    assert_eq!(parse_port("+"), Err(ConfigError::InvalidPort));
    assert_eq!(parse_port("12a"), Err(ConfigError::InvalidPort));
    assert_eq!(parse_port("-1"), Err(ConfigError::InvalidPort));
    assert_eq!(parse_port("999999999999"), Err(ConfigError::InvalidPort));
}

#[test]
fn config_assembles_from_environment_texts() {
    let cfg = Config::from_parts(
        "127.0.0.1".to_string(),
        "8080",
        "postgres://localhost/garden".to_string(),
    )
    .unwrap();
    assert_eq!(cfg.bind_address.0, "127.0.0.1");
    assert_eq!(cfg.bind_address.1, 8080);
    assert_eq!(cfg.database_url, "postgres://localhost/garden");
    assert!(Config::from_parts("h".to_string(), "no-port", "db".to_string()).is_err());
}

#[test]
fn setup_auth_yields_the_test_token() {
    assert_eq!(setup_auth(), "test-user-token");
}

#[test]
fn new_seed_wraps_each_tag() {
    let dto = NewSeedDTO {
        name: "Tomato".to_string(),
        variety_id: 4,
        harvest_year: 2022,
        quantity: "Enough".to_string(),
        tags: vec!["Fruit".to_string(), "Vegetable".to_string()],
        use_by: None,
        origin: Some("Garden".to_string()),
        taste: None,
        yield_: None,
        generation: Some(2),
        quality: None,
        price: Some(4),
        notes: None,
    };
    let seed = NewSeed::from(dto);
    assert_eq!(seed.name, "Tomato");
    assert_eq!(seed.tags, vec![Some("Fruit".to_string()), Some("Vegetable".to_string())]);
    assert_eq!(seed.generation, Some(2));
    assert_eq!(seed.price, Some(4));
}

#[test]
fn plants_dto_projects_the_row() {
    let row = Plants {
        id: 11,
        tags: vec!["herb".to_string()],
        species: "Ocimum basilicum".to_string(),
        plant: Some("Basil".to_string()),
        plant_type: None,
    };
    let dto = PlantsDto::from(row);
    assert_eq!(dto.id, 11);
    assert_eq!(dto.tags, vec!["herb".to_string()]);
    assert_eq!(dto.species, "Ocimum basilicum");
    assert_eq!(dto.plant, Some("Basil".to_string()));
    assert_eq!(dto.plant_type, None);
}

#[test]
fn ilike_pattern_wraps_the_name_in_wildcards() {
    assert_eq!(ilike_pattern("tomato"), "%tomato%");
    assert_eq!(ilike_pattern(""), "%%");
}

#[test]
fn new_maps_start_with_base_and_plants_layers() {
    let layers = initial_layers(12);
    assert_eq!(layers.len(), 2);
    assert_eq!(layers[0].map_id, 12);
    assert_eq!(layers[0].type_, LayerType::Base);
    assert_eq!(layers[0].name, "Base Layer");
    assert!(!layers[0].is_alternative);
    assert_eq!(layers[1].map_id, 12);
    assert_eq!(layers[1].type_, LayerType::Plants);
    assert_eq!(layers[1].name, "Plants Layer");
    assert!(!layers[1].is_alternative);
}

#[test]
fn default_base_layer_image_has_full_scale_and_empty_path() {
    let img = default_base_layer_image(5);
    assert_eq!(img.layer_id, 5);
    assert_eq!(img.path, "");
    assert_eq!(img.rotation, "0");
    assert_eq!(img.scale, "100");
    assert_eq!(img.id.chars().count(), 36);
}

#[test]
fn only_the_owner_may_modify_a_map() {
    let owner = "user-a".to_string();
    assert!(can_modify_map(&owner, &"user-a".to_string()));
    assert!(!can_modify_map(&owner, &"user-b".to_string()));
}
