//! Sprite Fusion map data types.
//!
//! These types mirror the JSON export format of the Sprite Fusion editor:
//! a map holds its tile size, its grid extent and an ordered list of
//! layers; a layer holds a name, a collision flag and its tiles; a tile
//! holds a textual identifier, signed grid coordinates and an optional
//! dictionary of scalar attributes.

use vstd::prelude::*;
use vstd::string::StrSliceExecFns;

verus! {

/// A dynamically typed scalar attribute value attached to a tile.
///
/// A floating-point attribute is carried as the bit pattern of its IEEE 754
/// double value, so that the crate itself never computes on it.
#[derive(Debug)]
pub enum AttrValue {
    /// A string value.
    Text(String),
    /// A boolean value.
    Flag(bool),
    /// An integer value.
    Int(i64),
    /// A non-integer numeric value, as the bits of its double representation.
    Float(u64),
}

/// The mathematical value of an [`AttrValue`].
pub enum AttrModel {
    /// A string value.
    Text(Seq<char>),
    /// A boolean value.
    Flag(bool),
    /// An integer value.
    Int(i64),
    /// A non-integer numeric value, as the bits of its double representation.
    Float(u64),
}

impl View for AttrValue {
    type V = AttrModel;

    open spec fn view(&self) -> AttrModel {
        match self {
            AttrValue::Text(s) => AttrModel::Text(s@),
            AttrValue::Flag(b) => AttrModel::Flag(*b),
            AttrValue::Int(i) => AttrModel::Int(*i),
            AttrValue::Float(bits) => AttrModel::Float(*bits),
        }
    }
}

/// The dictionary denoted by a sequence of attribute entries: entries are
/// read left to right, a later entry for a key overriding an earlier one.
pub open spec fn attrs_model(entries: Seq<(String, AttrValue)>) -> Map<Seq<char>, AttrModel>
    decreases entries.len(),
{
    if entries.len() == 0 {
        Map::empty()
    } else {
        attrs_model(entries.drop_last()).insert(entries.last().0@, entries.last().1@)
    }
}

/// Custom attributes attached to a tile: a dictionary from attribute name
/// to scalar value, kept as a list of entries in decoding order.
#[derive(Debug)]
pub struct TileAttributes(pub Vec<(String, AttrValue)>);

impl View for TileAttributes {
    type V = Map<Seq<char>, AttrModel>;

    open spec fn view(&self) -> Map<Seq<char>, AttrModel> {
        attrs_model(self.0@)
    }
}

impl TileAttributes {
    /// Look an attribute up by name.
    ///
    /// The last entry under the name wins, matching the dictionary the
    /// entry list denotes.
    pub fn get(&self, key: &str) -> (r: Option<&AttrValue>)
        ensures
            match r {
                Some(v) => self@.contains_key(key@) && self@[key@] == v@,
                None => !self@.contains_key(key@),
            },
    {
        let k: String = key.to_owned();
        let n = self.0.len();
        let mut i: usize = n;
        proof {
            assert(self.0@.take(n as int) =~= self.0@);
        }
        while i > 0
            invariant
                i <= n,
                n == self.0@.len(),
                k@ == key@,
                attrs_model(self.0@).contains_key(key@) == attrs_model(
                    self.0@.take(i as int),
                ).contains_key(key@),
                attrs_model(self.0@).contains_key(key@) ==> attrs_model(self.0@)[key@]
                    == attrs_model(self.0@.take(i as int))[key@],
            decreases i,
        {
            i = i - 1;
            proof {
                assert(self.0@.take(i + 1).drop_last() =~= self.0@.take(i as int));
                assert(self.0@.take(i + 1).last() == self.0@[i as int]);
            }
            if self.0[i].0 == k {
                return Some(&self.0[i].1);
            }
        }
        proof {
            assert(self.0@.take(0) =~= Seq::<(String, AttrValue)>::empty());
        }
        None
    }

    /// Get an attribute as a string; absent when the name is unbound or
    /// bound to a value of another type.
    pub fn get_str<'a>(&'a self, key: &str) -> (r: Option<&'a str>)
        ensures
            match r {
                Some(s) => self@.contains_key(key@) && self@[key@] == AttrModel::Text(s@),
                None => !(self@.contains_key(key@) && self@[key@] is Text),
            },
    {
        match self.get(key) {
            Some(AttrValue::Text(s)) => Some(s.as_str()),
            _ => None,
        }
    }

    /// Get an attribute as a bool; absent when the name is unbound or
    /// bound to a value of another type.
    pub fn get_bool(&self, key: &str) -> (r: Option<bool>)
        ensures
            match r {
                Some(b) => self@.contains_key(key@) && self@[key@] == AttrModel::Flag(b),
                None => !(self@.contains_key(key@) && self@[key@] is Flag),
            },
    {
        match self.get(key) {
            Some(AttrValue::Flag(b)) => Some(*b),
            _ => None,
        }
    }

    /// Get an attribute as an integer; absent when the name is unbound or
    /// bound to a value of another type.
    pub fn get_i64(&self, key: &str) -> (r: Option<i64>)
        ensures
            match r {
                Some(v) => self@.contains_key(key@) && self@[key@] == AttrModel::Int(v),
                None => !(self@.contains_key(key@) && self@[key@] is Int),
            },
    {
        match self.get(key) {
            Some(AttrValue::Int(v)) => Some(*v),
            _ => None,
        }
    }

    /// Get a non-integer numeric attribute, as the bits of its double
    /// representation; absent when the name is unbound or bound to a value
    /// of another type.
    pub fn get_float_bits(&self, key: &str) -> (r: Option<u64>)
        ensures
            match r {
                Some(bits) => self@.contains_key(key@) && self@[key@] == AttrModel::Float(bits),
                None => !(self@.contains_key(key@) && self@[key@] is Float),
            },
    {
        match self.get(key) {
            Some(AttrValue::Float(bits)) => Some(*bits),
            _ => None,
        }
    }

    /// Whether an attribute of the given name is present, of any type.
    pub fn contains(&self, key: &str) -> (r: bool)
        ensures
            r == self@.contains_key(key@),
    {
        match self.get(key) {
            Some(_) => true,
            None => false,
        }
    }
}

impl Clone for AttrValue {
    /// Cloning an attribute value keeps it.
    fn clone(&self) -> (res: Self)
        ensures
            res == *self,
    {
        match self {
            AttrValue::Text(s) => AttrValue::Text(s.clone()),
            AttrValue::Flag(b) => AttrValue::Flag(*b),
            AttrValue::Int(i) => AttrValue::Int(*i),
            AttrValue::Float(bits) => AttrValue::Float(*bits),
        }
    }
}

impl Clone for TileAttributes {
    /// Cloning keeps every entry, and so the dictionary.
    fn clone(&self) -> (res: Self)
        ensures
            res.0@ == self.0@,
            res@ == self@,
    {
        let mut entries: Vec<(String, AttrValue)> = Vec::new();
        let mut i: usize = 0;
        while i < self.0.len()
            invariant
                i <= self.0@.len(),
                entries@ == self.0@.take(i as int),
            decreases self.0@.len() - i,
        {
            let p = &self.0[i];
            entries.push((p.0.clone(), p.1.clone()));
            proof {
                assert(entries@ =~= self.0@.take(i + 1));
            }
            i = i + 1;
        }
        proof {
            assert(self.0@.take(self.0@.len() as int) =~= self.0@);
        }
        TileAttributes(entries)
    }
}

/// Whether a character is a decimal digit.
pub open spec fn is_digit(c: char) -> bool {
    48 <= c as u32 <= 57
}

/// The value of a decimal digit character.
pub open spec fn digit_val(c: char) -> int {
    c as u32 - 48
}

/// Whether every character of a string is a decimal digit.
pub open spec fn all_digits(s: Seq<char>) -> bool {
    forall|i: int| 0 <= i < s.len() ==> is_digit(#[trigger] s[i])
}

/// The number a string of decimal digits denotes.
pub open spec fn digits_val(s: Seq<char>) -> int
    decreases s.len(),
{
    if s.len() == 0 {
        0
    } else {
        digits_val(s.drop_last()) * 10 + digit_val(s.last())
    }
}

/// The digit run of a tile identifier: a single leading plus sign is
/// skipped, as the unsigned number parser the original export reader
/// leans on skips it.
pub open spec fn id_digits(s: Seq<char>) -> Seq<char> {
    if s.len() > 0 && s[0] == '+' {
        s.drop_first()
    } else {
        s
    }
}

/// The texture index a tile identifier selects: the number its digits
/// denote, when the identifier is a nonempty run of decimal digits --
/// one leading plus sign allowed -- whose value fits in 32 bits, and 0
/// for any other content.
pub open spec fn texture_index_of(s: Seq<char>) -> u32 {
    let d = id_digits(s);
    if d.len() > 0 && all_digits(d) && digits_val(d) <= u32::MAX {
        digits_val(d) as u32
    } else {
        0
    }
}

proof fn lemma_digits_val_nonneg(s: Seq<char>)
    requires
        all_digits(s),
    ensures
        digits_val(s) >= 0,
    decreases s.len(),
{
    if s.len() > 0 {
        assert(all_digits(s.drop_last())) by {
            assert(forall|i: int|
                0 <= i < s.len() - 1 ==> s.drop_last()[i] == #[trigger] s[i]);
        }
        lemma_digits_val_nonneg(s.drop_last());
    }
}

/// Reading a prefix of an all-digit string never overshoots the whole:
/// appending further digits can only grow the value.
proof fn lemma_digits_prefix_le(s: Seq<char>, k: int)
    requires
        all_digits(s),
        0 <= k <= s.len(),
    ensures
        digits_val(s.take(k)) <= digits_val(s),
    decreases s.len() - k,
{
    assert(all_digits(s.take(k))) by {
        assert(forall|i: int| 0 <= i < k ==> s.take(k)[i] == #[trigger] s[i]);
    }
    if k < s.len() {
        assert(s.take(k + 1).drop_last() =~= s.take(k));
        assert(s.take(k + 1).last() == s[k]);
        lemma_digits_val_nonneg(s.take(k));
        assert(digits_val(s.take(k + 1)) == digits_val(s.take(k)) * 10 + digit_val(s[k]));
        lemma_digits_prefix_le(s, k + 1);
    } else {
        assert(s.take(k) =~= s);
    }
}

/// Parse a string as an unsigned decimal number, degrading to 0 on any
/// content that is not a nonempty run of digits -- one leading plus
/// sign allowed -- with a 32-bit value.
pub fn parse_decimal_or_zero(s: &str) -> (r: u32)
    ensures
        r == texture_index_of(s@),
{
    let n = s.unicode_len();
    if n == 0 {
        return 0;
    }
    let start: usize = if s.get_char(0) == '+' {
        1
    } else {
        0
    };
    let ghost d = id_digits(s@);
    proof {
        assert(d =~= s@.skip(start as int));
    }
    if n == start {
        return 0;
    }
    let mut acc: u64 = 0;
    let mut i: usize = start;
    while i < n
        invariant
            n == s@.len(),
            start <= i <= n,
            start <= 1,
            d == id_digits(s@),
            d == s@.skip(start as int),
            all_digits(d.take(i - start)),
            acc == digits_val(d.take(i - start)),
            acc <= u32::MAX,
        decreases n - i,
    {
        let c = s.get_char(i);
        let cv = c as u32;
        proof {
            assert(d[i - start] == s@[i as int]);
        }
        if cv < 48 || cv > 57 {
            assert(!all_digits(d));
            return 0;
        }
        proof {
            assert(d.take(i - start + 1).drop_last() =~= d.take(i - start));
            assert(d.take(i - start + 1).last() == d[i - start]);
        }
        let v: u64 = acc * 10 + ((cv - 48) as u64);
        assert(v == digits_val(d.take(i - start + 1)));
        if v > 0xffff_ffff {
            proof {
                if all_digits(d) {
                    lemma_digits_prefix_le(d, i - start + 1);
                }
            }
            return 0;
        }
        acc = v;
        i = i + 1;
    }
    proof {
        assert(d.take(n - start) =~= d);
    }
    acc as u32
}

/// A single tile in a Sprite Fusion layer.
#[derive(Debug)]
pub struct SpriteFusionTile {
    /// Tile identifier referencing the index in the spritesheet, as the
    /// source format writes it: a string of decimal digits.
    pub id: String,
    /// Column in tile coordinates.
    pub x: i32,
    /// Row in tile coordinates, counted downward from the top edge.
    pub y: i32,
    /// Optional custom attributes attached to this tile.
    pub attributes: Option<TileAttributes>,
}

/// The mathematical value of a [`SpriteFusionTile`].
pub struct TileModel {
    /// The tile identifier's characters.
    pub id: Seq<char>,
    /// Column in tile coordinates.
    pub x: i32,
    /// Row in tile coordinates, counted downward from the top edge.
    pub y: i32,
    /// The attribute dictionary, when one is present.
    pub attributes: Option<Map<Seq<char>, AttrModel>>,
}

impl View for SpriteFusionTile {
    type V = TileModel;

    open spec fn view(&self) -> TileModel {
        TileModel {
            id: self.id@,
            x: self.x,
            y: self.y,
            attributes: match self.attributes {
                Some(a) => Some(a@),
                None => None,
            },
        }
    }
}

impl SpriteFusionTile {
    /// The texture index this tile's identifier selects, degrading to 0
    /// when the identifier is not a plain decimal number -- one leading
    /// plus sign allowed -- with a 32-bit value.
    pub fn tile_id(&self) -> (r: u32)
        ensures
            r == texture_index_of(self.id@),
    {
        parse_decimal_or_zero(self.id.as_str())
    }
}

impl Clone for SpriteFusionTile {
    /// Cloning a tile keeps its identifier, coordinates and attributes.
    fn clone(&self) -> (res: Self)
        ensures
            res@ == self@,
    {
        SpriteFusionTile {
            id: self.id.clone(),
            x: self.x,
            y: self.y,
            attributes: match &self.attributes {
                Some(a) => Some(a.clone()),
                None => None,
            },
        }
    }
}

/// A single layer in a Sprite Fusion map.
#[derive(Debug)]
pub struct SpriteFusionLayer {
    /// Name of the layer; names need not be unique.
    pub name: String,
    /// Whether this layer should have collision enabled.
    pub collider: bool,
    /// All tiles in this layer, in source order.
    pub tiles: Vec<SpriteFusionTile>,
}

/// The mathematical value of a [`SpriteFusionLayer`].
pub struct LayerModel {
    /// The layer name's characters.
    pub name: Seq<char>,
    /// Whether this layer should have collision enabled.
    pub collider: bool,
    /// The layer's tiles, in source order.
    pub tiles: Seq<TileModel>,
}

impl View for SpriteFusionLayer {
    type V = LayerModel;

    open spec fn view(&self) -> LayerModel {
        LayerModel {
            name: self.name@,
            collider: self.collider,
            tiles: self.tiles@.map_values(|t: SpriteFusionTile| t@),
        }
    }
}

impl Clone for SpriteFusionLayer {
    /// Cloning a layer keeps its name, its collision flag and its tiles.
    fn clone(&self) -> (res: Self)
        ensures
            res@ == self@,
    {
        let mut tiles: Vec<SpriteFusionTile> = Vec::new();
        let mut i: usize = 0;
        while i < self.tiles.len()
            invariant
                i <= self.tiles@.len(),
                tiles@.len() == i,
                forall|j: int| 0 <= j < i ==> #[trigger] tiles@[j]@ == self.tiles@[j]@,
            decreases self.tiles@.len() - i,
        {
            tiles.push(self.tiles[i].clone());
            i = i + 1;
        }
        let res = SpriteFusionLayer { name: self.name.clone(), collider: self.collider, tiles };
        proof {
            assert(res.tiles@.map_values(|t: SpriteFusionTile| t@) =~= self.tiles@.map_values(
                |t: SpriteFusionTile| t@,
            ));
        }
        res
    }
}

impl Clone for SpriteFusionMap {
    /// Cloning a map keeps its sizes and its layers.
    fn clone(&self) -> (res: Self)
        ensures
            res@ == self@,
    {
        let mut layers: Vec<SpriteFusionLayer> = Vec::new();
        let mut i: usize = 0;
        while i < self.layers.len()
            invariant
                i <= self.layers@.len(),
                layers@.len() == i,
                forall|j: int| 0 <= j < i ==> #[trigger] layers@[j]@ == self.layers@[j]@,
            decreases self.layers@.len() - i,
        {
            layers.push(self.layers[i].clone());
            i = i + 1;
        }
        let res = SpriteFusionMap {
            tile_size: self.tile_size,
            map_width: self.map_width,
            map_height: self.map_height,
            layers,
        };
        proof {
            assert(res.layers@.map_values(|l: SpriteFusionLayer| l@) =~= self.layers@.map_values(
                |l: SpriteFusionLayer| l@,
            ));
        }
        res
    }
}

/// A complete Sprite Fusion map export: the root value decoded from a
/// Sprite Fusion JSON document.
#[derive(Debug)]
pub struct SpriteFusionMap {
    /// Size of each square tile in pixels.
    pub tile_size: u32,
    /// Width of the map in tiles.
    pub map_width: u32,
    /// Height of the map in tiles.
    pub map_height: u32,
    /// All layers in the map, ordered front to back: the first layer is
    /// drawn on top, the last is the background.
    pub layers: Vec<SpriteFusionLayer>,
}

/// The mathematical value of a [`SpriteFusionMap`].
pub struct MapModel {
    /// Size of each square tile in pixels.
    pub tile_size: u32,
    /// Width of the map in tiles.
    pub map_width: u32,
    /// Height of the map in tiles.
    pub map_height: u32,
    /// The layers, ordered front to back.
    pub layers: Seq<LayerModel>,
}

impl View for SpriteFusionMap {
    type V = MapModel;

    open spec fn view(&self) -> MapModel {
        MapModel {
            tile_size: self.tile_size,
            map_width: self.map_width,
            map_height: self.map_height,
            layers: self.layers@.map_values(|l: SpriteFusionLayer| l@),
        }
    }
}

/// Marker carried by a materialized map's root record: holds the copy of
/// the decoded map description the hierarchy was built from.
#[derive(Debug)]
pub struct SpriteFusionMapMarker {
    /// The original map data.
    pub map: SpriteFusionMap,
}

impl Clone for SpriteFusionMapMarker {
    /// Cloning a map marker keeps the map it carries.
    fn clone(&self) -> (res: Self)
        ensures
            res.map@ == self.map@,
    {
        SpriteFusionMapMarker { map: self.map.clone() }
    }
}

/// Marker carried by each materialized layer record.
#[derive(Debug)]
pub struct SpriteFusionLayerMarker {
    /// Name of the layer.
    pub name: String,
    /// Source order index of the layer; index 0 is drawn frontmost.
    pub index: usize,
    /// Whether this layer has collision.
    pub collider: bool,
}

impl Clone for SpriteFusionLayerMarker {
    /// Cloning a layer marker keeps its fields.
    fn clone(&self) -> (res: Self)
        ensures
            res.name@ == self.name@,
            res.index == self.index,
            res.collider == self.collider,
    {
        SpriteFusionLayerMarker {
            name: self.name.clone(),
            index: self.index,
            collider: self.collider,
        }
    }
}

/// Marker carried by tiles that lie on a collision layer.
#[derive(Debug, Clone, Copy, PartialEq, Eq, Structural)]
pub struct Collider;

/// Errors that can occur when loading a Sprite Fusion map.
#[derive(Debug)]
pub enum SpriteFusionMapLoaderError {
    /// The map file's bytes could not be read; carries the reader's
    /// diagnostic.
    Io(String),
    /// The map file's content was not valid JSON or did not match the
    /// export schema; carries the parser's diagnostic.
    Json(String),
}

impl SpriteFusionMapLoaderError {
    /// The diagnostic message carried by the error.
    pub fn message(&self) -> (r: &String)
        ensures
            match self {
                SpriteFusionMapLoaderError::Io(m) => r@ == m@,
                SpriteFusionMapLoaderError::Json(m) => r@ == m@,
            },
    {
        match self {
            SpriteFusionMapLoaderError::Io(m) => m,
            SpriteFusionMapLoaderError::Json(m) => m,
        }
    }
}

} // verus!
