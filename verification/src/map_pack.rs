//! Map-pack integrity: every payload of a pack must match the SHA-256
//! that its manifest lists, have the size its format fixes, and only listed
//! assets may be reopened. Embedded payloads are zlib-compressed and
//! inflated on load.
use vstd::prelude::*;
use vstd::string::StringSliceAdditionalSpecFns;
use sha2::Digest;

use crate::equipment::{equipment_check, EquipmentError};
use crate::text::same_text;

verus! {

/// The largest payload a pack may hold, in bytes.
pub const MAX_ASSET: usize = 128_000_000;

/// Terrain heights: 256 x 256 little-endian u16 samples.
pub const HEIGHT_BYTES: usize = 131_072;

/// Terrain layer weights: 256 x 256 RGBA.
pub const WEIGHT_BYTES: usize = 262_144;

/// One texture: a 256 x 256 RGBA image with its full mip chain.
pub const TEXTURE_BYTES: usize = 349_524;

/// Ambience: at most a minute of 44.1 kHz mono f32 samples.
pub const AMBIENT_MAX_BYTES: usize = 10_584_000;

/// Collision triangles: 36 bytes each, at most 500000.
pub const TRIANGLE_BYTES: usize = 36;
pub const MAX_TRIANGLES: usize = 500_000;

/// Rendered vertices: three vertices of 48 bytes per triangle.
pub const VERTEX_TRIANGLE_BYTES: usize = 144;

/// Terrain cells that may be cut out: 256 x 256.
pub const CELLS: usize = 65_536;

/// The SHA-256 digest of `data`.
pub uninterp spec fn sha256(data: Seq<u8>) -> Seq<u8>;

/// `sha2::Sha256::digest`: the 32-byte SHA-256 digest of `data`.
#[verifier::external_body]
fn sha256_digest(data: &[u8]) -> (r: Vec<u8>)
    ensures
        r@ == sha256(data@),
        r@.len() == 32,
{
    sha2::Sha256::digest(data).to_vec()
}

/// What `data` inflates to as a zlib stream when at most `limit` bytes may
/// come out; when it is not a valid stream or needs more room, the failure
/// status, as its debug text.
pub uninterp spec fn zlib_inflate(data: Seq<u8>, limit: usize) -> Result<Seq<u8>, Seq<char>>;

/// `miniz_oxide::inflate::decompress_to_vec_zlib_with_limit`: the inflated
/// bytes, never more than `limit`, or the failure status as text.
#[verifier::external_body]
fn decompress_zlib(data: &[u8], limit: usize) -> (r: Result<Vec<u8>, String>)
    ensures
        match r {
            Ok(v) => zlib_inflate(data@, limit) == Ok::<Seq<u8>, Seq<char>>(v@) && v@.len() <= limit,
            Err(e) => zlib_inflate(data@, limit) == Err::<Seq<u8>, Seq<char>>(e@),
        },
{
    miniz_oxide::inflate::decompress_to_vec_zlib_with_limit(data, limit).map_err(
        |e| format!("{:?}", e.status),
    )
}

/// The lower-case hexadecimal digit of a nibble.
pub open spec fn hex_digit(n: u8) -> char {
    if n < 10 {
        (('0' as u8) + n) as char
    } else {
        (('a' as u8) + n - 10) as char
    }
}

/// Lower-case hexadecimal text of `bytes`, two digits per byte.
pub open spec fn hex_of(bytes: Seq<u8>) -> Seq<char>
    decreases bytes.len(),
{
    if bytes.len() == 0 {
        Seq::empty()
    } else {
        hex_of(bytes.drop_last()) + seq![hex_digit(bytes.last() / 16), hex_digit(bytes.last() % 16)]
    }
}

fn nibble_char(n: u8) -> (r: char)
    requires
        n < 16,
    ensures
        r == hex_digit(n),
{
    if n < 10 {
        (0x30u8 + n) as char
    } else {
        (0x61u8 + n - 10) as char
    }
}

/// Lower-case hexadecimal text of `bytes`.
pub fn hex(bytes: &[u8]) -> (r: String)
    ensures
        r@ == hex_of(bytes@),
{
    let mut out = String::new();
    let mut i: usize = 0;
    while i < bytes.len()
        invariant
            i <= bytes@.len(),
            out@ == hex_of(bytes@.take(i as int)),
        decreases bytes.len() - i,
    {
        assert(bytes@.take(i + 1).drop_last() =~= bytes@.take(i as int));
        let b = bytes[i];
        let hi = nibble_char(b / 16);
        let lo = nibble_char(b % 16);
        let mut pair = String::new();
        push_char(&mut pair, hi);
        push_char(&mut pair, lo);
        assert(pair@ =~= seq![hi, lo]);
        out.append(pair.as_str());
        i = i + 1;
    }
    assert(bytes@.take(bytes@.len() as int) =~= bytes@);
    out
}

/// `String::push`: `c` appended.
#[verifier::external_body]
fn push_char(s: &mut String, c: char)
    ensures
        final(s)@ == old(s)@.push(c),
{
    s.push(c)
}

/// The content hash a manifest lists for a payload: the lower-case hex
/// SHA-256 of its bytes.
pub fn content_hash(bytes: &[u8]) -> (r: String)
    ensures
        r@ == hex_of(sha256(bytes@)),
{
    let digest = sha256_digest(bytes);
    hex(digest.as_slice())
}

/// Why a pack or one of its payloads is refused.
#[derive(Debug, PartialEq, Eq)]
pub enum PackError {
    /// A payload's hash is not the one the manifest lists for it.
    Checksum(String),
    VertexStride,
    VertexData,
    HeightDimensions,
    LayerWeights,
    Textures,
    Ambience,
    Collision,
    TerrainHole,
    Version,
    TextureLayer,
    UnknownAsset,
    /// An embedded payload is not a valid zlib stream (the status).
    Corrupt(String),
    /// A reopened payload no longer has the hash the manifest lists.
    Changed(String),
    /// The terrain step, the map name or the reference bases are out of bounds.
    Metadata,
    SkyMissing,
    SkyInvalid,
    /// Fog must start before visibility ends.
    FogOrder,
    FogColour,
    /// A flag stand or a spawn is not a finite position within 10000 m.
    Positions,
    SpawnPoints,
    AmbientEmitter,
    WaterMissing,
    WaterInvalid,
    /// A collision triangle holds a non-finite or far-off coordinate.
    Triangle,
    /// A collision triangle spans more than 512 m.
    OversizedTriangle,
    Equipment(EquipmentError),
}

impl PackError {
    pub open spec fn message_text(&self) -> Seq<char> {
        match self {
            PackError::Checksum(name) => "Checksum mismatch: "@ + name@,
            PackError::VertexStride => "Invalid vertex stride"@,
            PackError::VertexData => "Invalid vertex data"@,
            PackError::HeightDimensions => "Invalid heightfield dimensions"@,
            PackError::LayerWeights => "Invalid layer weights"@,
            PackError::Textures => "Invalid textures"@,
            PackError::Ambience => "Invalid ambience"@,
            PackError::Collision => "Invalid collision data"@,
            PackError::TerrainHole => "Invalid terrain hole"@,
            PackError::Version => "Unsupported map version/texture count"@,
            PackError::TextureLayer => "Invalid texture layer"@,
            PackError::UnknownAsset => "Unknown map asset"@,
            PackError::Corrupt(status) => "Corrupt embedded map asset: "@ + status@,
            PackError::Changed(name) => "Map asset changed: "@ + name@,
            PackError::Metadata => "Invalid terrain/reference metadata"@,
            PackError::SkyMissing => "Missing sky distance"@,
            PackError::SkyInvalid => "Invalid sky distance"@,
            PackError::FogOrder => "Fog must start before visibility ends"@,
            PackError::FogColour => "Invalid fog colour"@,
            PackError::Positions => "Invalid map positions"@,
            PackError::SpawnPoints => "Invalid spawn points"@,
            PackError::AmbientEmitter => "Invalid ambient emitter"@,
            PackError::WaterMissing => "Missing water bounds"@,
            PackError::WaterInvalid => "Invalid water bounds"@,
            PackError::Triangle => "Invalid triangle"@,
            PackError::OversizedTriangle => "Oversized collision triangle"@,
            PackError::Equipment(e) => e.message_text(),
        }
    }

    pub fn message(&self) -> (r: String)
        ensures
            r@ == self.message_text(),
    {
        match self {
            PackError::Checksum(name) => {
                let mut out = "Checksum mismatch: ".to_owned();
                out.append(name.as_str());
                out
            },
            PackError::VertexStride => "Invalid vertex stride".to_owned(),
            PackError::VertexData => "Invalid vertex data".to_owned(),
            PackError::HeightDimensions => "Invalid heightfield dimensions".to_owned(),
            PackError::LayerWeights => "Invalid layer weights".to_owned(),
            PackError::Textures => "Invalid textures".to_owned(),
            PackError::Ambience => "Invalid ambience".to_owned(),
            PackError::Collision => "Invalid collision data".to_owned(),
            PackError::TerrainHole => "Invalid terrain hole".to_owned(),
            PackError::Version => "Unsupported map version/texture count".to_owned(),
            PackError::TextureLayer => "Invalid texture layer".to_owned(),
            PackError::UnknownAsset => "Unknown map asset".to_owned(),
            PackError::Corrupt(status) => {
                let mut out = "Corrupt embedded map asset: ".to_owned();
                out.append(status.as_str());
                out
            },
            PackError::Changed(name) => {
                let mut out = "Map asset changed: ".to_owned();
                out.append(name.as_str());
                out
            },
            PackError::Metadata => "Invalid terrain/reference metadata".to_owned(),
            PackError::SkyMissing => "Missing sky distance".to_owned(),
            PackError::SkyInvalid => "Invalid sky distance".to_owned(),
            PackError::FogOrder => "Fog must start before visibility ends".to_owned(),
            PackError::FogColour => "Invalid fog colour".to_owned(),
            PackError::Positions => "Invalid map positions".to_owned(),
            PackError::SpawnPoints => "Invalid spawn points".to_owned(),
            PackError::AmbientEmitter => "Invalid ambient emitter".to_owned(),
            PackError::WaterMissing => "Missing water bounds".to_owned(),
            PackError::WaterInvalid => "Invalid water bounds".to_owned(),
            PackError::Triangle => "Invalid triangle".to_owned(),
            PackError::OversizedTriangle => "Oversized collision triangle".to_owned(),
            PackError::Equipment(e) => e.message(),
        }
    }
}

/// Inflate an embedded payload, at most MAX_ASSET bytes.
pub fn inflate(bytes: &[u8]) -> (r: Result<Vec<u8>, PackError>)
    ensures
        match r {
            Ok(v) => zlib_inflate(bytes@, MAX_ASSET) == Ok::<Seq<u8>, Seq<char>>(v@) && v@.len() <= MAX_ASSET,
            Err(e) => e matches PackError::Corrupt(status) && zlib_inflate(bytes@, MAX_ASSET) == Err::<
                Seq<u8>,
                Seq<char>,
            >(status@),
        },
{
    match decompress_zlib(bytes, MAX_ASSET) {
        Ok(v) => Ok(v),
        Err(status) => Err(PackError::Corrupt(status)),
    }
}

/// The hash a manifest lists for `name`: the first entry with that name.
pub open spec fn listed_hash(files: Seq<(String, String)>, name: Seq<char>) -> Option<Seq<char>>
    decreases files.len(),
{
    if files.len() == 0 {
        None
    } else if files[0].0@ == name {
        Some(files[0].1@)
    } else {
        listed_hash(files.drop_first(), name)
    }
}

/// The hash the manifest lists for `name`, if any.
pub fn lookup<'a>(files: &'a [(String, String)], name: &str) -> (r: Option<&'a String>)
    ensures
        match r {
            Some(h) => listed_hash(files@, name@) == Some(h@),
            None => listed_hash(files@, name@) is None,
        },
{
    let mut i: usize = 0;
    assert(files@.skip(0) =~= files@);
    while i < files.len()
        invariant
            i <= files@.len(),
            listed_hash(files@, name@) == listed_hash(files@.skip(i as int), name@),
        decreases files.len() - i,
    {
        assert(files@.skip(i as int).drop_first() =~= files@.skip(i + 1));
        assert(files@.skip(i as int)[0] == files@[i as int]);
        if same_text(files[i].0.as_str(), name) {
            return Some(&files[i].1);
        }
        i = i + 1;
    }
    None
}

/// Whether a payload is one of the pack's fixed files and the manifest
/// lists it; names holding a path separator never are.
pub open spec fn asset_listed(files: Seq<(String, String)>, name: Seq<char>) -> bool {
    !name.contains('/') && !name.contains('\\') && listed_hash(files, name) is Some
}

fn has_separator(name: &str) -> (r: bool)
    ensures
        r == (name@.contains('/') || name@.contains('\\')),
{
    let n = name.unicode_len();
    let mut i: usize = 0;
    while i < n
        invariant
            n == name@.len(),
            i <= n,
            forall|j: int| 0 <= j < i ==> #[trigger] name@[j] != '/' && name@[j] != '\\',
        decreases n - i,
    {
        let c = name.get_char(i);
        if c == '/' || c == '\\' {
            assert(name@[i as int] == c);
            return true;
        }
        i = i + 1;
    }
    false
}

/// Renderer and audio may reopen only listed assets, by plain name.
pub fn check_asset_name(files: &[(String, String)], name: &str) -> (r: Result<(), PackError>)
    ensures
        r is Ok <==> asset_listed(files@, name@),
        r matches Err(e) ==> e == PackError::UnknownAsset,
{
    if has_separator(name) || lookup(files, name).is_none() {
        Err(PackError::UnknownAsset)
    } else {
        Ok(())
    }
}

/// The size rules of each fixed payload. `values_ok` is the caller's
/// check of the floating-point contents of vertices (finite, positions
/// within 10000 m, texture layers in range) and ambience (finite samples
/// within [-1, 1]); other payloads ignore it.
pub open spec fn payload_shape(name: Seq<char>, len: nat, texture_count: u32, values_ok: bool) -> Result<(), PackError> {
    if name == "vertices.bin"@ {
        if len % 144 != 0 {
            Err(PackError::VertexStride)
        } else if !values_ok {
            Err(PackError::VertexData)
        } else {
            Ok(())
        }
    } else if name == "height.bin"@ {
        if len != HEIGHT_BYTES {
            Err(PackError::HeightDimensions)
        } else {
            Ok(())
        }
    } else if name == "weights.rgba"@ {
        if len != WEIGHT_BYTES {
            Err(PackError::LayerWeights)
        } else {
            Ok(())
        }
    } else if name == "textures.rgba"@ {
        if len != TEXTURE_BYTES * texture_count {
            Err(PackError::Textures)
        } else {
            Ok(())
        }
    } else if name == "ambient.f32"@ {
        if len % 4 != 0 || len > AMBIENT_MAX_BYTES || !values_ok {
            Err(PackError::Ambience)
        } else {
            Ok(())
        }
    } else {
        Ok(())
    }
}

/// The size rule of each fixed payload, by the numbers: a heightfield is
/// exactly 256 x 256 16-bit samples (131072 bytes), any other length is
/// refused as bad dimensions; the layer weights are exactly 256 x 256 RGBA
/// texels (262144 bytes); the texture atlas is exactly 349524 bytes per
/// texture; the vertex payload holds whole 144-byte triangles with sound
/// values; the ambience holds whole 32-bit samples, at most 10584000 bytes,
/// with sound values. Each refusal names its own payload's error.
pub proof fn lemma_payload_sizes(len: nat, texture_count: u32, values_ok: bool)
    ensures
        payload_shape("height.bin"@, len, texture_count, values_ok) == (if len == 131072 {
            Ok::<(), PackError>(())
        } else {
            Err(PackError::HeightDimensions)
        }),
        payload_shape("weights.rgba"@, len, texture_count, values_ok) == (if len == 262144 {
            Ok::<(), PackError>(())
        } else {
            Err(PackError::LayerWeights)
        }),
        payload_shape("textures.rgba"@, len, texture_count, values_ok) == (if len == 349524
            * texture_count {
            Ok::<(), PackError>(())
        } else {
            Err(PackError::Textures)
        }),
        payload_shape("vertices.bin"@, len, texture_count, values_ok) == (if len % 144 != 0 {
            Err(PackError::VertexStride)
        } else if !values_ok {
            Err(PackError::VertexData)
        } else {
            Ok::<(), PackError>(())
        }),
        payload_shape("ambient.f32"@, len, texture_count, values_ok) == (if len % 4 == 0 && len
            <= 10584000 && values_ok {
            Ok::<(), PackError>(())
        } else {
            Err(PackError::Ambience)
        }),
{
    reveal_strlit("height.bin");
    reveal_strlit("weights.rgba");
    reveal_strlit("textures.rgba");
    reveal_strlit("vertices.bin");
    reveal_strlit("ambient.f32");
    assert("height.bin"@.len() != "vertices.bin"@.len());
    assert("weights.rgba"@[0] != "vertices.bin"@[0]);
    assert("weights.rgba"@.len() != "height.bin"@.len());
    assert("ambient.f32"@.len() != "vertices.bin"@.len());
    assert("ambient.f32"@.len() != "height.bin"@.len());
    assert("ambient.f32"@.len() != "weights.rgba"@.len());
    assert("ambient.f32"@.len() != "textures.rgba"@.len());
}

/// Check one payload of a pack against its computed content hash `hash`:
/// the hash must be the one the manifest lists for `name`, and the
/// payload's size `len` must follow its format.
pub fn check_digest(
    name: &str,
    hash: &str,
    len: usize,
    files: &[(String, String)],
    texture_count: u32,
    values_ok: bool,
) -> (r: Result<(), PackError>)
    requires
        texture_count <= 256,
    ensures
        listed_hash(files@, name@) != Some(hash@) ==> (r matches Err(PackError::Checksum(n)) && n@
            == name@),
        listed_hash(files@, name@) == Some(hash@) ==> r == payload_shape(
            name@,
            len as nat,
            texture_count,
            values_ok,
        ),
        listed_hash(files@, name@) == Some(hash@) && name@ == "height.bin"@ ==> (r is Ok <==> len
            == 131072),
        listed_hash(files@, name@) == Some(hash@) && name@ == "height.bin"@ && len != 131072 ==> r
            == Err::<(), PackError>(PackError::HeightDimensions),
{
    proof {
        lemma_payload_sizes(len as nat, texture_count, values_ok);
    }
    let matches = match lookup(files, name) {
        Some(h) => same_text(h.as_str(), hash),
        None => false,
    };
    if !matches {
        return Err(PackError::Checksum(name.to_owned()));
    }
    if same_text(name, "vertices.bin") {
        if len % 144 != 0 {
            Err(PackError::VertexStride)
        } else if !values_ok {
            Err(PackError::VertexData)
        } else {
            Ok(())
        }
    } else if same_text(name, "height.bin") {
        if len != HEIGHT_BYTES {
            Err(PackError::HeightDimensions)
        } else {
            Ok(())
        }
    } else if same_text(name, "weights.rgba") {
        if len != WEIGHT_BYTES {
            Err(PackError::LayerWeights)
        } else {
            Ok(())
        }
    } else if same_text(name, "textures.rgba") {
        if len != TEXTURE_BYTES * (texture_count as usize) {
            Err(PackError::Textures)
        } else {
            Ok(())
        }
    } else if same_text(name, "ambient.f32") {
        if len % 4 != 0 || len > AMBIENT_MAX_BYTES || !values_ok {
            Err(PackError::Ambience)
        } else {
            Ok(())
        }
    } else {
        Ok(())
    }
}

/// Check one payload of a pack: its hash must be the one the manifest
/// lists for `name`, and its size must follow the payload's format.
pub fn check_payload(
    name: &str,
    bytes: &[u8],
    files: &[(String, String)],
    texture_count: u32,
    values_ok: bool,
) -> (r: Result<(), PackError>)
    requires
        texture_count <= 256,
    ensures
        listed_hash(files@, name@) != Some(hex_of(sha256(bytes@))) ==> (r matches Err(
            PackError::Checksum(n),
        ) && n@ == name@),
        listed_hash(files@, name@) == Some(hex_of(sha256(bytes@))) ==> r == payload_shape(
            name@,
            bytes@.len(),
            texture_count,
            values_ok,
        ),
        listed_hash(files@, name@) == Some(hex_of(sha256(bytes@))) && name@ == "height.bin"@ ==> (r is Ok
            <==> bytes@.len() == 131072),
{
    proof {
        lemma_payload_sizes(bytes@.len(), texture_count, values_ok);
    }
    let hash = content_hash(bytes);
    check_digest(name, hash.as_str(), bytes.len(), files, texture_count, values_ok)
}

/// The collision payload holds whole triangles, at most MAX_TRIANGLES.
pub fn collision_size_ok(len: usize) -> (r: bool)
    ensures
        r == (len % TRIANGLE_BYTES == 0 && len <= TRIANGLE_BYTES * MAX_TRIANGLES),
{
    len % TRIANGLE_BYTES == 0 && len <= TRIANGLE_BYTES * MAX_TRIANGLES
}

/// The manifest's texture table: version 1, 1 to 256 textures, every
/// terrain, sky and water layer naming one of them, at least six sky
/// layers.
pub open spec fn layers_check(version: u32, texture_count: u32, terrain: [u32; 4], sky: Seq<u32>, water: u32) -> Result<(), PackError> {
    if version != 1 || !(1 <= texture_count && texture_count <= 256) {
        Err(PackError::Version)
    } else if (exists|i: int| 0 <= i < 4 && #[trigger] terrain@[i] >= texture_count) || (exists|i: int|
        0 <= i < sky.len() && #[trigger] sky[i] >= texture_count) || water >= texture_count || sky.len() < 6 {
        Err(PackError::TextureLayer)
    } else {
        Ok(())
    }
}

pub fn check_layers(version: u32, texture_count: u32, terrain: [u32; 4], sky: &[u32], water: u32) -> (r: Result<(), PackError>)
    ensures
        r == layers_check(version, texture_count, terrain, sky@, water),
{
    if version != 1 || !(1 <= texture_count && texture_count <= 256) {
        return Err(PackError::Version);
    }
    let mut i: usize = 0;
    while i < 4
        invariant
            i <= 4,
            version == 1 && 1 <= texture_count <= 256,
            forall|j: int| 0 <= j < i ==> #[trigger] terrain@[j] < texture_count,
        decreases 4 - i,
    {
        if terrain[i] >= texture_count {
            assert(terrain@[i as int] >= texture_count);
            return Err(PackError::TextureLayer);
        }
        i = i + 1;
    }
    let mut k: usize = 0;
    while k < sky.len()
        invariant
            k <= sky@.len(),
            version == 1 && 1 <= texture_count <= 256,
            forall|j: int| 0 <= j < 4 ==> #[trigger] terrain@[j] < texture_count,
            forall|j: int| 0 <= j < k ==> #[trigger] sky@[j] < texture_count,
        decreases sky.len() - k,
    {
        if sky[k] >= texture_count {
            assert(sky@[k as int] >= texture_count);
            return Err(PackError::TextureLayer);
        }
        k = k + 1;
    }
    if water >= texture_count || sky.len() < 6 {
        return Err(PackError::TextureLayer);
    }
    Ok(())
}

/// Terrain cut-outs as a 256 x 256 mask: cell `i` is a hole when the
/// manifest lists it; any listed index beyond the grid is refused.
pub fn hole_mask(holes: &[usize]) -> (r: Result<Vec<bool>, PackError>)
    ensures
        r is Err <==> exists|j: int| 0 <= j < holes@.len() && #[trigger] holes@[j] >= CELLS,
        r matches Err(e) ==> e == PackError::TerrainHole,
        r matches Ok(mask) ==> mask@.len() == CELLS && forall|i: int|
            0 <= i < CELLS ==> (#[trigger] mask@[i] <==> exists|j: int| 0 <= j < holes@.len() && holes@[j] == i),
{
    let mut mask: Vec<bool> = Vec::new();
    let mut i: usize = 0;
    while i < CELLS
        invariant
            i <= CELLS,
            mask@.len() == i,
            forall|k: int| 0 <= k < i ==> !#[trigger] mask@[k],
        decreases CELLS - i,
    {
        mask.push(false);
        i = i + 1;
    }
    let mut j: usize = 0;
    while j < holes.len()
        invariant
            j <= holes@.len(),
            mask@.len() == CELLS,
            forall|k: int| 0 <= k < j ==> #[trigger] holes@[k] < CELLS,
            forall|c: int|
                0 <= c < CELLS ==> (#[trigger] mask@[c] <==> exists|k: int| 0 <= k < j && holes@[k] == c),
        decreases holes.len() - j,
    {
        let h = holes[j];
        if h >= CELLS {
            assert(holes@[j as int] >= CELLS);
            return Err(PackError::TerrainHole);
        }
        let ghost before = mask@;
        mask.set(h, true);
        assert forall|c: int| 0 <= c < CELLS implies (#[trigger] mask@[c] <==> exists|k: int|
            0 <= k < j + 1 && holes@[k] == c) by {
            if c == h {
                assert(holes@[j as int] == c);
            } else {
                assert(mask@[c] == before[c]);
                if exists|k: int| 0 <= k < j + 1 && holes@[k] == c {
                    let k = choose|k: int| 0 <= k < j + 1 && holes@[k] == c;
                    assert(k < j);
                }
            }
        }
        j = j + 1;
    }
    Ok(mask)
}

/// Maps have water unless their manifest says otherwise.
pub fn default_water() -> (r: bool)
    ensures
        r,
{
    true
}

/// The payloads a pack holds beside its manifest, in the order they are
/// read and checked.
pub fn payload_names() -> (r: [&'static str; 6])
    ensures
        r@[0]@ == "vertices.bin"@,
        r@[1]@ == "collision.bin"@,
        r@[2]@ == "height.bin"@,
        r@[3]@ == "weights.rgba"@,
        r@[4]@ == "textures.rgba"@,
        r@[5]@ == "ambient.f32"@,
{
    ["vertices.bin", "collision.bin", "height.bin", "weights.rgba", "textures.rgba", "ambient.f32"]
}

/// Where loading stands once a payload has been read and checked.
#[derive(Debug, PartialEq, Eq)]
pub enum PayloadStep {
    /// Read and check the payload at this position of `payload_names`.
    Next(usize),
    /// Every payload passed.
    Done,
    /// The first payload that failed, and why.
    Failed(PackError),
}

pub open spec fn step_of(index: usize, checked: Result<(), PackError>) -> PayloadStep {
    match checked {
        Err(e) => PayloadStep::Failed(e),
        Ok(()) => if index + 1 < 6 {
            PayloadStep::Next((index + 1) as usize)
        } else {
            PayloadStep::Done
        },
    }
}

/// The step after payload `index` (in `payload_names` order) was read and
/// checked with outcome `checked`: the first failure ends loading.
pub fn payload_step(index: usize, checked: Result<(), PackError>) -> (r: PayloadStep)
    requires
        index < 6,
    ensures
        r == step_of(index, checked),
{
    match checked {
        Err(e) => PayloadStep::Failed(e),
        Ok(()) => if index + 1 < 6 {
            PayloadStep::Next(index + 1)
        } else {
            PayloadStep::Done
        },
    }
}

/// Loading driven by `payload_step` from `index` on, with `results[i]` the
/// outcome of checking payload `i`.
pub open spec fn run_from(results: Seq<Result<(), PackError>>, index: usize) -> Result<(), PackError>
    decreases 6 - index,
{
    if index >= 6 || index >= results.len() {
        Ok(())
    } else {
        match step_of(index, results[index as int]) {
            PayloadStep::Failed(e) => Err(e),
            PayloadStep::Done => Ok(()),
            PayloadStep::Next(j) => run_from(results, j),
        }
    }
}

/// The first failure among `results` from `index` on.
pub open spec fn first_failure(results: Seq<Result<(), PackError>>, index: int) -> Result<(), PackError>
    decreases results.len() - index,
{
    if index < 0 || index >= results.len() {
        Ok(())
    } else if results[index] is Err {
        results[index]
    } else {
        first_failure(results, index + 1)
    }
}

/// Loading the six payloads step by step ends with the first payload that
/// fails, in `payload_names` order, or with all of them passing.
pub proof fn lemma_payload_steps(results: Seq<Result<(), PackError>>, index: usize)
    requires
        results.len() == 6,
        index <= 6,
    ensures
        run_from(results, index) == first_failure(results, index as int),
    decreases 6 - index,
{
    if index < 6 {
        if results[index as int] is Ok && index + 1 < 6 {
            lemma_payload_steps(results, (index + 1) as usize);
        }
    }
}

/// How a manifest entry read: absent, present but not a valid value, or
/// valid.
#[derive(Clone, Copy, Debug, PartialEq, Eq, Structural)]
pub enum Reading {
    Missing,
    Invalid,
    Valid,
}

/// What a manifest declares that the pack checks read. Its floating-point
/// contents are measured by the reader:
/// - `metadata_values_ok`: the terrain step is finite and 1..=32 m, and
///   every reference base's position and matrix is finite and within 10000;
/// - `visible` and `fog`: the sky's visibility and fog distances, valid when
///   they parse as finite numbers within 0..=10000, and `fog_first` that fog
///   starts before visibility ends;
/// - `fog_colour_ok`: no fog colour, or one of three finite values in 0..=1;
/// - `positions_ok`: flag stands and spawns are finite within 10000;
/// - `spawn_values_ok`: every spawn point value is finite within 10000;
/// - `ambient_values_ok`: every ambient emitter is finite, with a gain in
///   0..=1 and a positive inner radius below its outer radius;
/// - `water_position` and `water_scale`: three finite values within 10000,
///   the scale's positive.
#[derive(Debug)]
pub struct ManifestFacts {
    pub name_bytes: usize,
    /// The byte length of each reference base's name.
    pub base_name_bytes: Vec<usize>,
    pub metadata_values_ok: bool,
    pub version: u32,
    pub texture_count: u32,
    pub terrain_layers: [u32; 4],
    pub sky_layers: Vec<u32>,
    pub water_layer: u32,
    pub visible: Reading,
    pub fog: Reading,
    pub fog_first: bool,
    pub fog_colour_ok: bool,
    pub positions_ok: bool,
    /// Spawn points listed per team; empty when the map has none.
    pub spawn_team_sizes: Vec<usize>,
    pub spawn_values_ok: bool,
    pub ambient_emitters: usize,
    pub ambient_values_ok: bool,
    pub water_position: Reading,
    pub water_scale: Reading,
}

pub open spec fn reading_check(r: Reading, missing: PackError, invalid: PackError) -> Result<(), PackError> {
    match r {
        Reading::Missing => Err(missing),
        Reading::Invalid => Err(invalid),
        Reading::Valid => Ok(()),
    }
}

/// The first problem with a manifest, in the order the checks run.
pub open spec fn manifest_check(f: ManifestFacts) -> Result<(), PackError> {
    if !f.metadata_values_ok || f.name_bytes > 128 || f.base_name_bytes@.len() > 16 || (exists|i: int|
        0 <= i < f.base_name_bytes@.len() && #[trigger] f.base_name_bytes@[i] > 64) {
        Err(PackError::Metadata)
    } else if layers_check(f.version, f.texture_count, f.terrain_layers, f.sky_layers@, f.water_layer) is Err {
        layers_check(f.version, f.texture_count, f.terrain_layers, f.sky_layers@, f.water_layer)
    } else if reading_check(f.visible, PackError::SkyMissing, PackError::SkyInvalid) is Err {
        reading_check(f.visible, PackError::SkyMissing, PackError::SkyInvalid)
    } else if reading_check(f.fog, PackError::SkyMissing, PackError::SkyInvalid) is Err {
        reading_check(f.fog, PackError::SkyMissing, PackError::SkyInvalid)
    } else if !f.fog_first {
        Err(PackError::FogOrder)
    } else if !f.fog_colour_ok {
        Err(PackError::FogColour)
    } else if !f.positions_ok {
        Err(PackError::Positions)
    } else if f.spawn_team_sizes@.len() > 0 && (f.spawn_team_sizes@.len() != 2 || !f.spawn_values_ok || (exists|
        t: int|
        0 <= t < f.spawn_team_sizes@.len() && (#[trigger] f.spawn_team_sizes@[t] == 0 || f.spawn_team_sizes@[t]
            > 32))) {
        Err(PackError::SpawnPoints)
    } else if f.ambient_emitters > 32 || !f.ambient_values_ok {
        Err(PackError::AmbientEmitter)
    } else if reading_check(f.water_position, PackError::WaterMissing, PackError::WaterInvalid) is Err {
        reading_check(f.water_position, PackError::WaterMissing, PackError::WaterInvalid)
    } else {
        reading_check(f.water_scale, PackError::WaterMissing, PackError::WaterInvalid)
    }
}

fn check_reading(r: Reading, missing: PackError, invalid: PackError) -> (out: Result<(), PackError>)
    ensures
        out == reading_check(r, missing, invalid),
{
    match r {
        Reading::Missing => Err(missing),
        Reading::Invalid => Err(invalid),
        Reading::Valid => Ok(()),
    }
}

/// Check what a manifest declares, before any payload is read.
pub fn check_manifest(f: &ManifestFacts) -> (r: Result<(), PackError>)
    ensures
        r == manifest_check(*f),
{
    let mut long_name = false;
    let mut i: usize = 0;
    while i < f.base_name_bytes.len()
        invariant
            i <= f.base_name_bytes@.len(),
            long_name == exists|j: int| 0 <= j < i && #[trigger] f.base_name_bytes@[j] > 64,
        decreases f.base_name_bytes.len() - i,
    {
        if f.base_name_bytes[i] > 64 {
            long_name = true;
        }
        i = i + 1;
    }
    if !f.metadata_values_ok || f.name_bytes > 128 || f.base_name_bytes.len() > 16 || long_name {
        return Err(PackError::Metadata);
    }
    let layers = check_layers(f.version, f.texture_count, f.terrain_layers, f.sky_layers.as_slice(), f.water_layer);
    if layers.is_err() {
        return layers;
    }
    let visible = check_reading(f.visible, PackError::SkyMissing, PackError::SkyInvalid);
    if visible.is_err() {
        return visible;
    }
    let fog = check_reading(f.fog, PackError::SkyMissing, PackError::SkyInvalid);
    if fog.is_err() {
        return fog;
    }
    if !f.fog_first {
        return Err(PackError::FogOrder);
    }
    if !f.fog_colour_ok {
        return Err(PackError::FogColour);
    }
    if !f.positions_ok {
        return Err(PackError::Positions);
    }
    let teams = f.spawn_team_sizes.len();
    let mut bad_team = false;
    let mut t: usize = 0;
    while t < teams
        invariant
            teams == f.spawn_team_sizes@.len(),
            t <= teams,
            bad_team == exists|k: int| 0 <= k < t && (#[trigger] f.spawn_team_sizes@[k] == 0 || f.spawn_team_sizes@[k] > 32),
        decreases teams - t,
    {
        let n = f.spawn_team_sizes[t];
        if n == 0 || n > 32 {
            bad_team = true;
        }
        t = t + 1;
    }
    if teams > 0 && (teams != 2 || !f.spawn_values_ok || bad_team) {
        return Err(PackError::SpawnPoints);
    }
    if f.ambient_emitters > 32 || !f.ambient_values_ok {
        return Err(PackError::AmbientEmitter);
    }
    let position = check_reading(f.water_position, PackError::WaterMissing, PackError::WaterInvalid);
    if position.is_err() {
        return position;
    }
    check_reading(f.water_scale, PackError::WaterMissing, PackError::WaterInvalid)
}

/// How one collision triangle reads, as measured by the reader: every
/// coordinate finite and within 10000, and a span of at most 512 m.
#[derive(Clone, Copy, Debug, PartialEq, Eq, Structural)]
pub enum TriangleReading {
    Sound,
    /// A non-finite or far-off coordinate.
    Unsound,
    Oversized,
}

/// The first problem among the collision triangles, in order.
pub open spec fn triangles_check(tris: Seq<TriangleReading>) -> Result<(), PackError>
    decreases tris.len(),
{
    if tris.len() == 0 {
        Ok(())
    } else if tris[0] == TriangleReading::Unsound {
        Err(PackError::Triangle)
    } else if tris[0] == TriangleReading::Oversized {
        Err(PackError::OversizedTriangle)
    } else {
        triangles_check(tris.drop_first())
    }
}

/// What the payload reads leave to check, in order: the collision payload's
/// size, its triangles, the terrain holes and the equipment. Returns the
/// hole mask.
pub open spec fn geometry_check(
    collision_len: usize,
    tris: Seq<TriangleReading>,
    holes: Seq<usize>,
    equipment: Seq<crate::equipment::Definition>,
) -> Result<(), PackError> {
    if !(collision_len % TRIANGLE_BYTES == 0 && collision_len <= TRIANGLE_BYTES * MAX_TRIANGLES) {
        Err(PackError::Collision)
    } else if triangles_check(tris) is Err {
        triangles_check(tris)
    } else if exists|j: int| 0 <= j < holes.len() && #[trigger] holes[j] >= CELLS {
        Err(PackError::TerrainHole)
    } else {
        match equipment_check(equipment) {
            Ok(()) => Ok(()),
            Err(e) => Err(PackError::Equipment(e)),
        }
    }
}

/// Check a pack's collision payload (its length and each triangle's
/// reading), terrain holes and equipment; the hole mask when all pass.
pub fn check_geometry(
    collision_len: usize,
    tris: &[TriangleReading],
    holes: &[usize],
    equipment: &[crate::equipment::Definition],
) -> (r: Result<Vec<bool>, PackError>)
    ensures
        r is Ok <==> geometry_check(collision_len, tris@, holes@, equipment@) is Ok,
        r matches Err(e) ==> geometry_check(collision_len, tris@, holes@, equipment@) == Err::<(), PackError>(e),
        r matches Ok(mask) ==> mask@.len() == CELLS && forall|i: int|
            0 <= i < CELLS ==> (#[trigger] mask@[i] <==> exists|j: int| 0 <= j < holes@.len() && holes@[j] == i),
{
    if !collision_size_ok(collision_len) {
        return Err(PackError::Collision);
    }
    let mut i: usize = 0;
    assert(tris@.skip(0) =~= tris@);
    while i < tris.len()
        invariant
            i <= tris@.len(),
            collision_len % TRIANGLE_BYTES == 0 && collision_len <= TRIANGLE_BYTES * MAX_TRIANGLES,
            triangles_check(tris@) == triangles_check(tris@.skip(i as int)),
        decreases tris.len() - i,
    {
        assert(tris@.skip(i as int)[0] == tris@[i as int]);
        assert(tris@.skip(i as int).drop_first() =~= tris@.skip(i + 1));
        if tris[i] == TriangleReading::Unsound {
            return Err(PackError::Triangle);
        }
        if tris[i] == TriangleReading::Oversized {
            return Err(PackError::OversizedTriangle);
        }
        i = i + 1;
    }
    assert(tris@.skip(tris@.len() as int) =~= Seq::<TriangleReading>::empty());
    let mask = match hole_mask(holes) {
        Ok(m) => m,
        Err(e) => {
            return Err(e);
        },
    };
    match crate::equipment::validate(equipment) {
        Ok(()) => Ok(mask),
        Err(e) => Err(PackError::Equipment(e)),
    }
}

/// A payload reopened after loading must still be a listed plain name with
/// the hash the manifest lists.
pub fn check_reopened(files: &[(String, String)], name: &str, bytes: &[u8]) -> (r: Result<(), PackError>)
    ensures
        !asset_listed(files@, name@) ==> r == Err::<(), PackError>(PackError::UnknownAsset),
        asset_listed(files@, name@) && listed_hash(files@, name@) != Some(hex_of(sha256(bytes@))) ==> (r matches Err(
            PackError::Changed(n),
        ) && n@ == name@),
        asset_listed(files@, name@) && listed_hash(files@, name@) == Some(hex_of(sha256(bytes@))) ==> r is Ok,
{
    check_asset_name(files, name)?;
    let hash = content_hash(bytes);
    match lookup(files, name) {
        Some(h) => if same_text(h.as_str(), hash.as_str()) {
            Ok(())
        } else {
            Err(PackError::Changed(name.to_owned()))
        },
        None => Err(PackError::UnknownAsset),
    }
}

/// Hexadecimal text has two lower-case hex digits per byte; so a content
/// hash is 64 of them.
pub proof fn lemma_hex_shape(bytes: Seq<u8>)
    ensures
        hex_of(bytes).len() == 2 * bytes.len(),
        forall|i: int|
            0 <= i < hex_of(bytes).len() ==> ('0' <= #[trigger] hex_of(bytes)[i] <= '9') || ('a' <= hex_of(
                bytes,
            )[i] <= 'f'),
    decreases bytes.len(),
{
    if bytes.len() > 0 {
        lemma_hex_shape(bytes.drop_last());
        let rest = hex_of(bytes.drop_last());
        let hi = bytes.last() / 16;
        let lo = bytes.last() % 16;
        assert(hex_of(bytes) == rest + seq![hex_digit(hi), hex_digit(lo)]);
        assert forall|i: int| 0 <= i < hex_of(bytes).len() implies ('0' <= #[trigger] hex_of(bytes)[i] <= '9')
            || ('a' <= hex_of(bytes)[i] <= 'f') by {
            if i < rest.len() {
                assert(hex_of(bytes)[i] == rest[i]);
            } else if i == rest.len() {
                assert(hex_of(bytes)[i] == hex_digit(hi));
            } else {
                assert(hex_of(bytes)[i] == hex_digit(lo));
            }
        }
    }
}

} // verus!
