use spritefusion::decode::decode_map;
use spritefusion::materialize::depth_offset_tenths;
use spritefusion::materialize::flip_y;
use spritefusion::materialize::materialize;
use spritefusion::materialize::summary_counts;
use spritefusion::materialize::TilePos;
use spritefusion::request::tick_request;
use spritefusion::request::PendingSpriteFusionMap;
use spritefusion::request::RequestState;
use spritefusion::types::parse_decimal_or_zero;
use spritefusion::types::SpriteFusionLayer;
use spritefusion::types::SpriteFusionMap;
use spritefusion::types::SpriteFusionMapLoaderError;
use spritefusion::types::SpriteFusionTile;
use spritefusion::SpriteFusionMapLoader;

fn sample_doc() -> &'static [u8] {
    br#"{
        "tileSize": 16,
        "mapWidth": 4,
        "mapHeight": 3,
        "layers": [
            {
                "name": "front",
                "collider": true,
                "tiles": [
                    { "id": "7", "x": 1, "y": 0 },
                    { "id": "2", "x": 0, "y": 2,
                      "attributes": { "name": "gem", "value": 10, "isCollectible": true, "speed": 1.5 } }
                ]
            },
            {
                "name": "bg",
                "tiles": []
            }
        ]
    }"#
}

fn tile(id: &str, x: i32, y: i32) -> SpriteFusionTile {
    SpriteFusionTile { id: id.to_string(), x, y, attributes: None }
}

fn one_layer_map(width: u32, height: u32, collider: bool, tiles: Vec<SpriteFusionTile>) -> SpriteFusionMap {
    SpriteFusionMap {
        tile_size: 16,
        map_width: width,
        map_height: height,
        layers: vec![SpriteFusionLayer { name: "layer".to_string(), collider, tiles }],
    }
}

#[test]
fn decode_round_trip_fields() {
    let map = decode_map(sample_doc()).unwrap();
    assert_eq!(map.tile_size, 16);
    assert_eq!(map.map_width, 4);
    assert_eq!(map.map_height, 3);
    assert_eq!(map.layers.len(), 2);

    let front = &map.layers[0];
    assert_eq!(front.name, "front");
    assert!(front.collider);
    assert_eq!(front.tiles.len(), 2);
    assert_eq!(front.tiles[0].id, "7");
    assert_eq!(front.tiles[0].x, 1);
    assert_eq!(front.tiles[0].y, 0);
    assert!(front.tiles[0].attributes.is_none());
    assert_eq!(front.tiles[1].id, "2");
    assert_eq!(front.tiles[1].x, 0);
    assert_eq!(front.tiles[1].y, 2);
    assert!(front.tiles[1].attributes.is_some());

    let bg = &map.layers[1];
    assert_eq!(bg.name, "bg");
    assert!(!bg.collider, "absent collider must default to false");
    assert_eq!(bg.tiles.len(), 0);
}

#[test]
fn decode_rejects_malformed_json() {
    let err = decode_map(b"this is not json").unwrap_err();
    match err {
        SpriteFusionMapLoaderError::Json(msg) => assert!(!msg.is_empty()),
        SpriteFusionMapLoaderError::Io(_) => panic!("expected the Json variant"),
    }
}

#[test]
fn decode_rejects_schema_mismatch() {
    assert!(decode_map(br#"{ "tileSize": 16 }"#).is_err());
    assert!(decode_map(br#"[1, 2, 3]"#).is_err());
    assert!(decode_map(br#"{ "tileSize": -1, "mapWidth": 1, "mapHeight": 1, "layers": [] }"#).is_err());
    assert!(decode_map(br#"{ "tileSize": 16, "mapWidth": 1, "mapHeight": 1, "layers": [ { "tiles": [] } ] }"#).is_err());
    assert!(decode_map(
        br#"{ "tileSize": 16, "mapWidth": 1, "mapHeight": 1,
              "layers": [ { "name": "a", "tiles": [ { "id": 7, "x": 0, "y": 0 } ] } ] }"#,
    ).is_err(), "a numeric tile id must be rejected: the schema asks for a string");
    assert!(decode_map(
        br#"{ "tileSize": 16, "mapWidth": 1, "mapHeight": 1,
              "layers": [ { "name": "a", "tiles": [ { "id": "7", "x": 0.5, "y": 0 } ] } ] }"#,
    ).is_err(), "a fractional coordinate must be rejected");
    assert!(decode_map(
        br#"{ "tileSize": 16, "mapWidth": 1, "mapHeight": 1,
              "layers": [ { "name": "a", "collider": "yes", "tiles": [] } ] }"#,
    ).is_err(), "a non-boolean collider must be rejected");
    assert!(decode_map(
        br#"{ "tileSize": 16, "mapWidth": 1, "mapHeight": 1,
              "layers": [ { "name": "a", "tiles": [ { "id": "7", "x": 0, "y": 0,
                "attributes": { "bad": [1, 2] } } ] } ] }"#,
    ).is_err(), "a non-scalar attribute value must be rejected");
}

#[test]
fn decode_unknown_keys_ignored() {
    let map = decode_map(
        br#"{ "tileSize": 8, "mapWidth": 2, "mapHeight": 2, "spare": null,
              "layers": [ { "name": "a", "extra": 1, "tiles": [] } ] }"#,
    )
    .unwrap();
    assert_eq!(map.tile_size, 8);
    assert_eq!(map.layers.len(), 1);
}

#[test]
fn decode_null_and_empty_attributes() {
    let map = decode_map(
        br#"{ "tileSize": 8, "mapWidth": 2, "mapHeight": 2,
              "layers": [ { "name": "a", "tiles": [
                { "id": "1", "x": 0, "y": 0, "attributes": null },
                { "id": "1", "x": 1, "y": 0, "attributes": {} } ] } ] }"#,
    )
    .unwrap();
    let tiles = &map.layers[0].tiles;
    assert!(tiles[0].attributes.is_none(), "a null attribute object means no attributes");
    let empty = tiles[1].attributes.as_ref().unwrap();
    assert_eq!(empty.0.len(), 0, "an empty attribute object is kept, and kept empty");
}

#[test]
fn io_error_carries_message() {
    let err = SpriteFusionMapLoaderError::Io("file vanished".to_string());
    assert_eq!(err.message(), "file vanished");
}

#[test]
fn loader_extensions_and_decode() {
    let loader = SpriteFusionMapLoader;
    assert_eq!(loader.extensions(), vec!["sf.json"]);
    assert!(loader.decode(sample_doc()).is_ok());
}

#[test]
fn vertical_flip_examples() {
    assert_eq!(flip_y(10, 0), 9);
    assert_eq!(flip_y(10, 9), 0);
    let mut y: u32 = 0;
    while y < 10 {
        assert_eq!(flip_y(10, flip_y(10, y)), y, "the flip is an involution");
        y += 1;
    }
}

#[test]
fn depth_ordering() {
    assert_eq!(depth_offset_tenths(0), 0);
    assert_eq!(depth_offset_tenths(1), -1);
    assert_eq!(depth_offset_tenths(2), -2);
    let d0 = (depth_offset_tenths(0) as f64) * 0.1;
    let d1 = (depth_offset_tenths(1) as f64) * 0.1;
    let d2 = (depth_offset_tenths(2) as f64) * 0.1;
    assert_eq!(d0, 0.0);
    assert_eq!(d1, -0.1);
    assert_eq!(d2, -0.2);
    assert!(d0 > d1 && d1 > d2);
}

#[test]
fn texture_index_leniency() {
    assert_eq!(parse_decimal_or_zero("7"), 7);
    assert_eq!(parse_decimal_or_zero("abc"), 0);
    assert_eq!(parse_decimal_or_zero(""), 0);
    assert_eq!(parse_decimal_or_zero("007"), 7);
    assert_eq!(parse_decimal_or_zero("4294967295"), u32::MAX);
    assert_eq!(parse_decimal_or_zero("4294967296"), 0, "an overflowing value degrades to 0");
    assert_eq!(parse_decimal_or_zero("-3"), 0, "negative content degrades to 0");
    assert_eq!(parse_decimal_or_zero("+7"), 7, "one leading plus sign is accepted");
    assert_eq!(parse_decimal_or_zero("+007"), 7);
    assert_eq!(parse_decimal_or_zero("+"), 0, "a sign needs digits after it");
    assert_eq!(parse_decimal_or_zero("++7"), 0, "a second sign is unparseable");
    assert_eq!(parse_decimal_or_zero("+4294967296"), 0);
    assert_eq!(tile("12", 0, 0).tile_id(), 12);
    assert_eq!(tile("1a", 0, 0).tile_id(), 0);
    assert_eq!(tile("+5", 0, 0).tile_id(), 5);
}

#[test]
fn collider_propagation() {
    let with = materialize(&one_layer_map(
        4,
        4,
        true,
        vec![tile("1", 0, 0), tile("2", 1, 1), tile("3", 2, 2)],
    ));
    assert_eq!(with.layers[0].tiles.len(), 3);
    assert!(with.layers[0].tiles.iter().all(|t| t.collider.is_some()));
    assert!(with.layers[0].marker.collider);

    let without = materialize(&one_layer_map(
        4,
        4,
        false,
        vec![tile("1", 0, 0), tile("2", 1, 1), tile("3", 2, 2)],
    ));
    assert_eq!(without.layers[0].tiles.len(), 3);
    assert!(without.layers[0].tiles.iter().all(|t| t.collider.is_none()));
    assert!(!without.layers[0].marker.collider);
}

#[test]
fn attribute_accessors() {
    let map = decode_map(sample_doc()).unwrap();
    let attrs = map.layers[0].tiles[1].attributes.as_ref().unwrap();
    assert_eq!(attrs.get_str("name"), Some("gem"));
    assert_eq!(attrs.get_i64("value"), Some(10));
    assert_eq!(attrs.get_bool("isCollectible"), Some(true));
    assert_eq!(attrs.get_float_bits("speed"), Some(1.5f64.to_bits()));
    assert_eq!(attrs.get_str("value"), None, "a type mismatch reads as absent");
    assert_eq!(attrs.get_bool("name"), None);
    assert_eq!(attrs.get_i64("speed"), None, "a fractional number is not an integer");
    assert!(!attrs.contains("missing"));
    assert!(attrs.contains("name"));
}

#[test]
fn materialize_resolves_positions_and_textures() {
    let inst = materialize(&one_layer_map(4, 3, false, vec![tile("7", 1, 0), tile("abc", 0, 2)]));
    let records = &inst.layers[0].tiles;
    assert_eq!(records.len(), 2);
    assert_eq!(records[0].position, TilePos { x: 1, y: 2 });
    assert_eq!(records[0].texture_index, 7);
    assert_eq!(records[1].position, TilePos { x: 0, y: 0 });
    assert_eq!(records[1].texture_index, 0);
    assert!(records.iter().all(|t| t.attributes.is_none()));
    assert_eq!(inst.marker.map.map_width, 4);
    assert_eq!(inst.layers[0].marker.index, 0);
    assert_eq!(inst.layers[0].depth_tenths, 0);
}

#[test]
fn materialize_drops_out_of_range_tiles() {
    let inst = materialize(&one_layer_map(
        2,
        2,
        false,
        vec![tile("1", -1, 0), tile("2", 0, 2), tile("3", 2, 0), tile("4", 1, 1)],
    ));
    let records = &inst.layers[0].tiles;
    assert_eq!(records.len(), 1, "only the in-range tile is emitted");
    assert_eq!(records[0].texture_index, 4);
    assert_eq!(records[0].position, TilePos { x: 1, y: 0 });
}

#[test]
fn materialize_empty_attributes_not_attached() {
    let map = decode_map(
        br#"{ "tileSize": 8, "mapWidth": 2, "mapHeight": 2,
              "layers": [ { "name": "a", "tiles": [
                { "id": "1", "x": 0, "y": 0, "attributes": {} },
                { "id": "1", "x": 1, "y": 0, "attributes": { "k": "v" } } ] } ] }"#,
    )
    .unwrap();
    let inst = materialize(&map);
    let records = &inst.layers[0].tiles;
    assert!(records[0].attributes.is_none(), "an empty payload is not attached");
    let carried = records[1].attributes.as_ref().unwrap();
    assert_eq!(carried.get_str("k"), Some("v"));
}

#[test]
fn grid_storage_last_insertion_wins() {
    let inst = materialize(&one_layer_map(3, 3, false, vec![tile("1", 1, 1), tile("2", 1, 1)]));
    let layer = &inst.layers[0];
    assert_eq!(layer.tiles.len(), 2, "both records are emitted");
    let resolved = TilePos { x: 1, y: 1 };
    assert_eq!(layer.storage.get(resolved), Some(1), "the cell keeps the last record");
    assert_eq!(layer.storage.get(TilePos { x: 0, y: 0 }), None);
}

#[test]
fn materialize_layer_order_and_depth() {
    let map = decode_map(sample_doc()).unwrap();
    let inst = materialize(&map);
    assert_eq!(inst.layers.len(), 2);
    assert_eq!(inst.layers[0].marker.name, "front");
    assert_eq!(inst.layers[0].marker.index, 0);
    assert_eq!(inst.layers[1].marker.name, "bg");
    assert_eq!(inst.layers[1].marker.index, 1);
    assert!(inst.layers[0].depth_tenths > inst.layers[1].depth_tenths);
}

#[test]
fn summary_counts_of_sample() {
    let map = decode_map(sample_doc()).unwrap();
    let (layers, tiles, with_attrs) = summary_counts(&map);
    assert_eq!(layers, 2);
    assert_eq!(tiles, 2);
    assert_eq!(with_attrs, 1);
}

#[test]
fn materialization_gating() {
    let map = one_layer_map(2, 2, false, vec![tile("1", 0, 0)]);
    let mut req = PendingSpriteFusionMap::new();
    assert_eq!(req.state, RequestState::Pending);
    let mut ticks: u32 = 0;
    while ticks < 5 {
        assert!(tick_request(&mut req, Some(&map), false).is_none());
        assert_eq!(req.state, RequestState::Pending, "an unresolved image keeps the request Pending");
        ticks += 1;
    }
    assert!(tick_request(&mut req, None, true).is_none());
    assert_eq!(req.state, RequestState::Pending, "an unresolved map keeps the request Pending");
}

#[test]
fn idempotent_single_materialization() {
    let map = one_layer_map(2, 2, false, vec![tile("1", 0, 0)]);
    let mut req = PendingSpriteFusionMap::new();
    let first = tick_request(&mut req, Some(&map), true);
    assert!(first.is_some());
    assert_eq!(first.unwrap().layers[0].tiles.len(), 1);
    assert_eq!(req.state, RequestState::Materialized);
    let mut ticks: u32 = 0;
    while ticks < 5 {
        assert!(
            tick_request(&mut req, Some(&map), true).is_none(),
            "a materialized request emits nothing further"
        );
        assert_eq!(req.state, RequestState::Materialized);
        ticks += 1;
    }
}
