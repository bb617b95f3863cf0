//! Decoding a parsed JSON tree into a map description.
//!
//! The Sprite Fusion export schema is an object with `tileSize`,
//! `mapWidth` and `mapHeight` numbers and a `layers` array; each layer is
//! an object with a `name` string, an optional `collider` boolean
//! (absent means `false`) and a `tiles` array; each tile is an object
//! with an `id` string, `x` and `y` integers and an optional
//! `attributes` object of scalar values (absent or `null` means none).
//! Unknown keys are ignored. Decoding either returns a complete map
//! description or fails for the whole document; the exact conditions are
//! the `wf_*` predicates below.

use vstd::assert_by_contradiction;
use vstd::prelude::*;

use crate::json::parse_json;
use crate::json::parsed_json;
use crate::json::JsonValue;
use crate::types::attrs_model;
use crate::types::AttrModel;
use crate::types::AttrValue;
use crate::types::LayerModel;
use crate::types::MapModel;
use crate::types::SpriteFusionLayer;
use crate::types::SpriteFusionMap;
use crate::types::SpriteFusionMapLoaderError;
use crate::types::SpriteFusionTile;
use crate::types::TileAttributes;
use crate::types::TileModel;

verus! {

/// The value under a key in a JSON object's entries: the first entry for
/// the key, entries carrying distinct keys as the parser hands them over.
pub open spec fn obj_get(entries: Seq<(String, JsonValue)>, key: Seq<char>) -> Option<JsonValue>
    decreases entries.len(),
{
    if entries.len() == 0 {
        None
    } else if entries[0].0@ == key {
        Some(entries[0].1)
    } else {
        obj_get(entries.drop_first(), key)
    }
}

/// Look a key up in a JSON object's entry list.
pub fn json_obj_get<'a>(entries: &'a Vec<(String, JsonValue)>, key: &str) -> (r: Option<
    &'a JsonValue,
>)
    ensures
        match r {
            Some(v) => obj_get(entries@, key@) == Some(*v),
            None => obj_get(entries@, key@) is None,
        },
{
    let k: String = key.to_owned();
    let mut i: usize = 0;
    proof {
        assert(entries@.skip(0) =~= entries@);
    }
    while i < entries.len()
        invariant
            i <= entries@.len(),
            k@ == key@,
            obj_get(entries@, key@) == obj_get(entries@.skip(i as int), key@),
        decreases entries@.len() - i,
    {
        proof {
            assert(entries@.skip(i as int)[0] == entries@[i as int]);
        }
        if entries[i].0 == k {
            return Some(&entries[i].1);
        }
        proof {
            assert(entries@.skip(i as int).drop_first() =~= entries@.skip(i + 1));
        }
        i = i + 1;
    }
    None
}

/// The scalar an attribute value must be: a string, a boolean or a
/// number; anything else fails the decode.
pub open spec fn scalar_attr_of(v: JsonValue) -> Option<AttrModel> {
    match v {
        JsonValue::Text(s) => Some(AttrModel::Text(s@)),
        JsonValue::Bool(b) => Some(AttrModel::Flag(b)),
        JsonValue::Int(i) => Some(AttrModel::Int(i)),
        JsonValue::Float(bits) => Some(AttrModel::Float(bits)),
        _ => None,
    }
}

/// Whether every value of an attribute object is a scalar.
pub open spec fn wf_attrs_json(entries: Seq<(String, JsonValue)>) -> bool {
    forall|i: int| 0 <= i < entries.len() ==> scalar_attr_of(#[trigger] entries[i].1) is Some
}

/// The attribute dictionary an attribute object denotes.
pub open spec fn attrs_of_json(entries: Seq<(String, JsonValue)>) -> Map<Seq<char>, AttrModel>
    decreases entries.len(),
{
    if entries.len() == 0 {
        Map::empty()
    } else {
        attrs_of_json(entries.drop_last()).insert(
            entries.last().0@,
            scalar_attr_of(entries.last().1)->Some_0,
        )
    }
}

/// Decode one attribute value, when it is a scalar.
fn decode_attr_value(v: &JsonValue) -> (r: Option<AttrValue>)
    ensures
        match r {
            Some(a) => scalar_attr_of(*v) == Some(a@),
            None => scalar_attr_of(*v) is None,
        },
{
    match v {
        JsonValue::Text(s) => Some(AttrValue::Text(s.clone())),
        JsonValue::Bool(b) => Some(AttrValue::Flag(*b)),
        JsonValue::Int(i) => Some(AttrValue::Int(*i)),
        JsonValue::Float(bits) => Some(AttrValue::Float(*bits)),
        _ => None,
    }
}

/// Decode a tile's attribute object, entry by entry in document order.
pub fn decode_attributes(entries: &Vec<(String, JsonValue)>) -> (r: Option<TileAttributes>)
    ensures
        match r {
            Some(a) => wf_attrs_json(entries@) && a@ == attrs_of_json(entries@) && a.0@.len()
                == entries@.len(),
            None => !wf_attrs_json(entries@),
        },
{
    let mut out: Vec<(String, AttrValue)> = Vec::new();
    let mut i: usize = 0;
    proof {
        assert(entries@.take(0) =~= Seq::<(String, JsonValue)>::empty());
    }
    while i < entries.len()
        invariant
            i <= entries@.len(),
            out@.len() == i,
            forall|j: int|
                0 <= j < i ==> scalar_attr_of(#[trigger] entries@[j].1) is Some,
            attrs_model(out@) == attrs_of_json(entries@.take(i as int)),
        decreases entries@.len() - i,
    {
        match decode_attr_value(&entries[i].1) {
            Some(a) => {
                let ghost prev = out@;
                out.push((entries[i].0.clone(), a));
                proof {
                    assert(out@.drop_last() =~= prev);
                    assert(entries@.take(i + 1).drop_last() =~= entries@.take(i as int));
                    assert(entries@.take(i + 1).last() == entries@[i as int]);
                }
            },
            None => {
                return None;
            },
        }
        i = i + 1;
    }
    proof {
        assert(entries@.take(entries@.len() as int) =~= entries@);
    }
    Some(TileAttributes(out))
}

/// Whether a JSON value is a well-formed tile object: `id` a string,
/// `x` and `y` integers a 32-bit value can hold, `attributes` absent,
/// `null` or an object of scalars.
pub open spec fn wf_tile_json(v: JsonValue) -> bool {
    match v {
        JsonValue::Obj(es) => {
            &&& (match obj_get(es@, "id"@) {
                Some(JsonValue::Text(_)) => true,
                _ => false,
            })
            &&& (match obj_get(es@, "x"@) {
                Some(JsonValue::Int(n)) => i32::MIN <= n <= i32::MAX,
                _ => false,
            })
            &&& (match obj_get(es@, "y"@) {
                Some(JsonValue::Int(n)) => i32::MIN <= n <= i32::MAX,
                _ => false,
            })
            &&& (match obj_get(es@, "attributes"@) {
                None => true,
                Some(JsonValue::Null) => true,
                Some(JsonValue::Obj(aes)) => wf_attrs_json(aes@),
                Some(_) => false,
            })
        },
        _ => false,
    }
}

/// How a decoded tile reads off a well-formed tile object: every field
/// equals the literal document value, an absent or `null` attribute
/// object leaving no attributes.
pub open spec fn tile_matches(v: JsonValue, t: TileModel) -> bool {
    match v {
        JsonValue::Obj(es) => {
            &&& (match obj_get(es@, "id"@) {
                Some(JsonValue::Text(s)) => t.id == s@,
                _ => false,
            })
            &&& (match obj_get(es@, "x"@) {
                Some(JsonValue::Int(n)) => t.x == n,
                _ => false,
            })
            &&& (match obj_get(es@, "y"@) {
                Some(JsonValue::Int(n)) => t.y == n,
                _ => false,
            })
            &&& (match obj_get(es@, "attributes"@) {
                None => t.attributes is None,
                Some(JsonValue::Null) => t.attributes is None,
                Some(JsonValue::Obj(aes)) => t.attributes == Some(attrs_of_json(aes@)),
                Some(_) => false,
            })
        },
        _ => false,
    }
}

/// Decode one tile object.
pub fn decode_tile(v: &JsonValue) -> (r: Option<SpriteFusionTile>)
    ensures
        match r {
            Some(t) => wf_tile_json(*v) && tile_matches(*v, t@),
            None => !wf_tile_json(*v),
        },
{
    let es = match v {
        JsonValue::Obj(es) => es,
        _ => {
            return None;
        },
    };
    let id: String = match json_obj_get(es, "id") {
        Some(JsonValue::Text(s)) => s.clone(),
        _ => {
            return None;
        },
    };
    let x: i32 = match json_obj_get(es, "x") {
        Some(JsonValue::Int(n)) => {
            if *n < i32::MIN as i64 || *n > i32::MAX as i64 {
                return None;
            }
            *n as i32
        },
        _ => {
            return None;
        },
    };
    let y: i32 = match json_obj_get(es, "y") {
        Some(JsonValue::Int(n)) => {
            if *n < i32::MIN as i64 || *n > i32::MAX as i64 {
                return None;
            }
            *n as i32
        },
        _ => {
            return None;
        },
    };
    let attributes: Option<TileAttributes> = match json_obj_get(es, "attributes") {
        None => None,
        Some(JsonValue::Null) => None,
        Some(JsonValue::Obj(aes)) => match decode_attributes(aes) {
            Some(a) => Some(a),
            None => {
                return None;
            },
        },
        Some(_) => {
            return None;
        },
    };
    Some(SpriteFusionTile { id, x, y, attributes })
}

/// Whether a JSON value is a well-formed layer object: `name` a string,
/// `collider` absent or a boolean, `tiles` an array of well-formed tile
/// objects.
pub open spec fn wf_layer_json(v: JsonValue) -> bool {
    match v {
        JsonValue::Obj(es) => {
            &&& (match obj_get(es@, "name"@) {
                Some(JsonValue::Text(_)) => true,
                _ => false,
            })
            &&& (match obj_get(es@, "collider"@) {
                None => true,
                Some(JsonValue::Bool(_)) => true,
                _ => false,
            })
            &&& (match obj_get(es@, "tiles"@) {
                Some(JsonValue::Arr(ts)) => forall|i: int|
                    0 <= i < ts@.len() ==> wf_tile_json(#[trigger] ts@[i]),
                _ => false,
            })
        },
        _ => false,
    }
}

/// How a decoded layer reads off a well-formed layer object: an absent
/// `collider` defaults to `false`, tiles keep their document order.
pub open spec fn layer_matches(v: JsonValue, l: LayerModel) -> bool {
    match v {
        JsonValue::Obj(es) => {
            &&& (match obj_get(es@, "name"@) {
                Some(JsonValue::Text(s)) => l.name == s@,
                _ => false,
            })
            &&& (match obj_get(es@, "collider"@) {
                None => l.collider == false,
                Some(JsonValue::Bool(b)) => l.collider == b,
                _ => false,
            })
            &&& (match obj_get(es@, "tiles"@) {
                Some(JsonValue::Arr(ts)) => l.tiles.len() == ts@.len() && forall|i: int|
                    0 <= i < ts@.len() ==> tile_matches(#[trigger] ts@[i], l.tiles[i]),
                _ => false,
            })
        },
        _ => false,
    }
}

/// Decode one layer object.
#[verifier::loop_isolation(false)]
pub fn decode_layer(v: &JsonValue) -> (r: Option<SpriteFusionLayer>)
    ensures
        match r {
            Some(l) => wf_layer_json(*v) && layer_matches(*v, l@),
            None => !wf_layer_json(*v),
        },
{
    let es = match v {
        JsonValue::Obj(es) => es,
        _ => {
            return None;
        },
    };
    let name: String = match json_obj_get(es, "name") {
        Some(JsonValue::Text(s)) => s.clone(),
        _ => {
            return None;
        },
    };
    let collider: bool = match json_obj_get(es, "collider") {
        None => false,
        Some(JsonValue::Bool(b)) => *b,
        Some(_) => {
            return None;
        },
    };
    let ts = match json_obj_get(es, "tiles") {
        Some(JsonValue::Arr(ts)) => ts,
        _ => {
            return None;
        },
    };
    proof {
        assert(obj_get(es@, "tiles"@) == Some(JsonValue::Arr(*ts)));
    }
    let mut tiles: Vec<SpriteFusionTile> = Vec::new();
    let mut i: usize = 0;
    while i < ts.len()
        invariant
            i <= ts@.len(),
            tiles@.len() == i,
            forall|j: int| 0 <= j < i ==> wf_tile_json(#[trigger] ts@[j]),
            forall|j: int| 0 <= j < i ==> tile_matches(ts@[j], #[trigger] tiles@[j]@),
        decreases ts@.len() - i,
    {
        match decode_tile(&ts[i]) {
            Some(t) => {
                tiles.push(t);
            },
            None => {
                proof {
                    assert_by_contradiction!(!wf_layer_json(*v), {
                        assert(wf_tile_json(ts@[i as int]));
                    });
                }
                return None;
            },
        }
        i = i + 1;
    }
    let res = SpriteFusionLayer { name, collider, tiles };
    proof {
        assert(forall|j: int|
            0 <= j < res.tiles@.len() ==> #[trigger] res@.tiles[j] == res.tiles@[j]@);
    }
    Some(res)
}

/// Whether a JSON value is a well-formed map document: `tileSize`,
/// `mapWidth` and `mapHeight` integers a 32-bit unsigned value can hold,
/// `layers` an array of well-formed layer objects.
pub open spec fn wf_map_json(v: JsonValue) -> bool {
    match v {
        JsonValue::Obj(es) => {
            &&& (match obj_get(es@, "tileSize"@) {
                Some(JsonValue::Int(n)) => 0 <= n <= u32::MAX,
                _ => false,
            })
            &&& (match obj_get(es@, "mapWidth"@) {
                Some(JsonValue::Int(n)) => 0 <= n <= u32::MAX,
                _ => false,
            })
            &&& (match obj_get(es@, "mapHeight"@) {
                Some(JsonValue::Int(n)) => 0 <= n <= u32::MAX,
                _ => false,
            })
            &&& (match obj_get(es@, "layers"@) {
                Some(JsonValue::Arr(ls)) => forall|i: int|
                    0 <= i < ls@.len() ==> wf_layer_json(#[trigger] ls@[i]),
                _ => false,
            })
        },
        _ => false,
    }
}

/// How a decoded map reads off a well-formed map document: every field
/// equals the literal document value, layers keeping their document
/// order.
pub open spec fn map_matches(v: JsonValue, m: MapModel) -> bool {
    match v {
        JsonValue::Obj(es) => {
            &&& (match obj_get(es@, "tileSize"@) {
                Some(JsonValue::Int(n)) => m.tile_size == n,
                _ => false,
            })
            &&& (match obj_get(es@, "mapWidth"@) {
                Some(JsonValue::Int(n)) => m.map_width == n,
                _ => false,
            })
            &&& (match obj_get(es@, "mapHeight"@) {
                Some(JsonValue::Int(n)) => m.map_height == n,
                _ => false,
            })
            &&& (match obj_get(es@, "layers"@) {
                Some(JsonValue::Arr(ls)) => m.layers.len() == ls@.len() && forall|i: int|
                    0 <= i < ls@.len() ==> layer_matches(#[trigger] ls@[i], m.layers[i]),
                _ => false,
            })
        },
        _ => false,
    }
}

/// Decode a parsed map document.
#[verifier::loop_isolation(false)]
pub fn decode_map_value(v: &JsonValue) -> (r: Option<SpriteFusionMap>)
    ensures
        match r {
            Some(m) => wf_map_json(*v) && map_matches(*v, m@),
            None => !wf_map_json(*v),
        },
{
    let es = match v {
        JsonValue::Obj(es) => es,
        _ => {
            return None;
        },
    };
    let tile_size: u32 = match json_obj_get(es, "tileSize") {
        Some(JsonValue::Int(n)) => {
            if *n < 0 || *n > u32::MAX as i64 {
                return None;
            }
            *n as u32
        },
        _ => {
            return None;
        },
    };
    let map_width: u32 = match json_obj_get(es, "mapWidth") {
        Some(JsonValue::Int(n)) => {
            if *n < 0 || *n > u32::MAX as i64 {
                return None;
            }
            *n as u32
        },
        _ => {
            return None;
        },
    };
    let map_height: u32 = match json_obj_get(es, "mapHeight") {
        Some(JsonValue::Int(n)) => {
            if *n < 0 || *n > u32::MAX as i64 {
                return None;
            }
            *n as u32
        },
        _ => {
            return None;
        },
    };
    let ls = match json_obj_get(es, "layers") {
        Some(JsonValue::Arr(ls)) => ls,
        _ => {
            return None;
        },
    };
    proof {
        assert(obj_get(es@, "layers"@) == Some(JsonValue::Arr(*ls)));
    }
    let mut layers: Vec<SpriteFusionLayer> = Vec::new();
    let mut i: usize = 0;
    while i < ls.len()
        invariant
            i <= ls@.len(),
            layers@.len() == i,
            forall|j: int| 0 <= j < i ==> wf_layer_json(#[trigger] ls@[j]),
            forall|j: int| 0 <= j < i ==> layer_matches(ls@[j], #[trigger] layers@[j]@),
        decreases ls@.len() - i,
    {
        match decode_layer(&ls[i]) {
            Some(l) => {
                layers.push(l);
            },
            None => {
                proof {
                    assert_by_contradiction!(!wf_map_json(*v), {
                        assert(wf_layer_json(ls@[i as int]));
                    });
                }
                return None;
            },
        }
        i = i + 1;
    }
    let res = SpriteFusionMap { tile_size, map_width, map_height, layers };
    proof {
        assert(forall|j: int|
            0 <= j < res.layers@.len() ==> #[trigger] res@.layers[j] == res.layers@[j]@);
    }
    Some(res)
}

/// Asset decoder for Sprite Fusion JSON map files: holds the schema
/// decode and the file extension the format uses. Reading the bytes from
/// their source is the caller's business; a read failure is reported as
/// [`SpriteFusionMapLoaderError::Io`].
#[derive(Debug, Default)]
pub struct SpriteFusionMapLoader;

impl SpriteFusionMapLoader {
    /// The file extension convention of Sprite Fusion exports.
    pub fn extensions(&self) -> (r: Vec<&'static str>)
        ensures
            r@.len() == 1,
            r@[0]@ == "sf.json"@,
    {
        let mut v: Vec<&'static str> = Vec::new();
        v.push("sf.json");
        v
    }

    /// Decode a map file's bytes.
    pub fn decode(&self, bytes: &[u8]) -> (r: Result<SpriteFusionMap, SpriteFusionMapLoaderError>)
        ensures
            match r {
                Ok(m) => parsed_json(bytes@) matches Some(v) && wf_map_json(v) && map_matches(
                    v,
                    m@,
                ),
                Err(e) => e is Json && match parsed_json(bytes@) {
                    None => true,
                    Some(v) => !wf_map_json(v),
                },
            },
    {
        decode_map(bytes)
    }
}

/// Decode a Sprite Fusion map document from its bytes: parse them as
/// JSON, then read the export schema off the tree. Succeeds exactly when
/// the bytes are one valid JSON document that is well-formed under the
/// schema; any failure reports the whole document as undecodable.
pub fn decode_map(bytes: &[u8]) -> (r: Result<SpriteFusionMap, SpriteFusionMapLoaderError>)
    ensures
        match r {
            Ok(m) => parsed_json(bytes@) matches Some(v) && wf_map_json(v) && map_matches(v, m@),
            Err(e) => e is Json && match parsed_json(bytes@) {
                None => true,
                Some(v) => !wf_map_json(v),
            },
        },
{
    match parse_json(bytes) {
        Ok(v) => match decode_map_value(&v) {
            Some(m) => Ok(m),
            None => Err(
                SpriteFusionMapLoaderError::Json(
                    "map document does not match the Sprite Fusion export schema".to_owned(),
                ),
            ),
        },
        Err(msg) => Err(SpriteFusionMapLoaderError::Json(msg)),
    }
}

} // verus!
