//! Importer for Sprite Fusion tilemap exports.
//!
//! Sprite Fusion is a web tilemap editor whose export format is a JSON
//! document holding a grid size and an ordered list of layers of tiles.
//! This crate decodes such a document into a typed map description,
//! normalizes the source conventions (string tile identifiers, top-left
//! origin, front-to-back layer order) and materializes the description as
//! a hierarchy of layer and tile records with resolved grid positions,
//! texture indices, collision tags and attribute payloads, gated on the
//! readiness of the companion tileset image.

pub mod decode;
pub mod json;
pub mod materialize;
pub mod request;
pub mod types;

pub use decode::decode_map;
pub use decode::SpriteFusionMapLoader;
pub use materialize::materialize;
pub use materialize::LayerInstance;
pub use materialize::MapInstance;
pub use materialize::TileGrid;
pub use materialize::TileInstance;
pub use materialize::TilePos;
pub use request::PendingSpriteFusionMap;
pub use request::RequestState;
pub use types::AttrValue;
pub use types::Collider;
pub use types::SpriteFusionLayer;
pub use types::SpriteFusionLayerMarker;
pub use types::SpriteFusionMap;
pub use types::SpriteFusionMapLoaderError;
pub use types::SpriteFusionMapMarker;
pub use types::SpriteFusionTile;
pub use types::TileAttributes;
