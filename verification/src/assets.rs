//! Asset registry: meshes and materials indexed by a hash of their content.

use vstd::prelude::*;
use vstd::utf8::encode_utf8;
use std::collections::BTreeMap;
use crate::kernel::encoding::{le_bytes_u32, push_u32_le};
use crate::persist::digest::{sha256, sha256_digest};
use crate::text::{decimal, push_decimal};

verus! {

/// Content-addressed asset ID computed from the asset data.
#[derive(Clone, Copy, Debug, PartialEq, Eq, Hash, PartialOrd, Ord, Structural)]
pub struct AssetId(pub u64);

/// A minimal mesh representation.
#[derive(Clone, Debug)]
pub struct Mesh {
    pub name: String,
    pub vertex_count: u32,
    pub index_count: u32,
}

/// Four color components, binary32 values held as their bit patterns.
#[derive(Clone, Copy, Debug, PartialEq, Eq, Structural)]
pub struct Color {
    pub r: u32,
    pub g: u32,
    pub b: u32,
    pub a: u32,
}

/// Bit pattern of the binary32 value nearest to `0.8`.
pub const F32_FOUR_FIFTHS_BITS: u32 = 0x3f4c_cccd;

/// The color of the default material: `(0.8, 0.8, 0.8, 1.0)`.
pub open spec fn spec_default_color() -> Color {
    Color {
        r: F32_FOUR_FIFTHS_BITS,
        g: F32_FOUR_FIFTHS_BITS,
        b: F32_FOUR_FIFTHS_BITS,
        a: crate::common::F32_ONE_BITS,
    }
}

/// The color of the default material.
pub fn default_color() -> (color: Color)
    ensures
        color == spec_default_color(),
{
    Color {
        r: F32_FOUR_FIFTHS_BITS,
        g: F32_FOUR_FIFTHS_BITS,
        b: F32_FOUR_FIFTHS_BITS,
        a: crate::common::F32_ONE_BITS,
    }
}

/// A minimal material representation.
#[derive(Clone, Debug)]
pub struct Material {
    pub name: String,
    pub base_color: Color,
}

impl Default for Material {
    fn default() -> (material: Material)
        ensures
            material.name@ == "default"@,
            material.base_color == spec_default_color(),
    {
        Material { name: "default".to_owned(), base_color: default_color() }
    }
}

/// An asset entry in the registry.
#[derive(Clone, Debug)]
pub enum Asset {
    Mesh(Mesh),
    Material(Material),
}

/// Errors from asset operations.
#[derive(Debug)]
pub enum AssetError {
    /// The file system failed.
    Io(std::io::Error),
    /// The registry holds no asset with this identifier.
    NotFound(AssetId),
    /// The file is not a readable scene description.
    GltfParse(String),
    /// The registry file could not be read or written as JSON.
    Json(String),
}

/// The unsigned integer whose little-endian bytes are `bytes`.
pub open spec fn le_value(bytes: Seq<u8>) -> u64
    decreases bytes.len(),
{
    if bytes.len() == 0 {
        0
    } else {
        le_value(bytes.drop_last()) | ((bytes.last() as u64) << ((8 * (bytes.len() - 1)) as u64))
    }
}

/// The identifier of content with the given bytes: the first eight bytes of
/// the SHA-256 digest, read as a little-endian integer.
pub open spec fn content_id(bytes: Seq<u8>) -> AssetId {
    AssetId(le_value(sha256(bytes).take(8)))
}

/// The bytes that identify a mesh: its name in UTF-8, then vertex and index
/// count.
pub open spec fn mesh_bytes(name: Seq<u8>, vertex_count: u32, index_count: u32) -> Seq<u8> {
    name + le_bytes_u32(vertex_count) + le_bytes_u32(index_count)
}

/// The bytes that identify a material: its name in UTF-8, then its color
/// components.
pub open spec fn material_bytes(name: Seq<u8>, color: Color) -> Seq<u8> {
    name + le_bytes_u32(color.r) + le_bytes_u32(color.g) + le_bytes_u32(color.b) + le_bytes_u32(
        color.a,
    )
}

/// The identifier of a mesh.
pub open spec fn mesh_id(mesh: Mesh) -> AssetId {
    content_id(mesh_bytes(encode_utf8(mesh.name@), mesh.vertex_count, mesh.index_count))
}

/// The identifier of a material.
pub open spec fn material_id(material: Material) -> AssetId {
    content_id(material_bytes(encode_utf8(material.name@), material.base_color))
}

/// The identifier of an asset.
pub open spec fn asset_id(asset: Asset) -> AssetId {
    match asset {
        Asset::Mesh(mesh) => mesh_id(mesh),
        Asset::Material(material) => material_id(material),
    }
}

/// The registry after registering `assets` in order. Content that is
/// registered again replaces the entry it had.
pub open spec fn register_all(registry: Map<u64, Asset>, assets: Seq<Asset>) -> Map<u64, Asset>
    decreases assets.len(),
{
    if assets.len() == 0 {
        registry
    } else {
        register_all(registry, assets.drop_last()).insert(
            asset_id(assets.last()).0,
            assets.last(),
        )
    }
}

/// What a scene file says of one material: its name, if it has one, and the
/// entries of its base color factor, if it has one. An entry that is not a
/// number is `None`.
#[derive(Clone, Debug)]
pub struct SceneMaterial {
    pub name: Option<String>,
    pub base_color_factor: Option<Vec<Option<u32>>>,
}

/// What a scene file lists: the name of each mesh, if it has one, and its
/// materials.
#[derive(Clone, Debug)]
pub struct Scene {
    pub meshes: Vec<Option<String>>,
    pub materials: Vec<SceneMaterial>,
}

/// The name under which entry `index` of a scene is registered: its own name
/// or `unnamed`, an underscore, and its position in the list.
pub open spec fn placeholder_name(name: Option<String>, index: nat) -> Seq<char> {
    (match name {
        Some(n) => n@,
        None => "unnamed"@,
    }) + "_"@ + decimal(index)
}

/// Entry `i` of a color factor, or `fallback` where the factor has no number
/// at that place.
pub open spec fn factor_or(factor: Seq<Option<u32>>, i: int, fallback: u32) -> u32 {
    if i < factor.len() && factor[i] is Some {
        factor[i]->0
    } else {
        fallback
    }
}

/// The base color of a scene material: the default color, with each of the
/// first four entries of the color factor in place of its component.
pub open spec fn placeholder_color(factor: Option<Vec<Option<u32>>>) -> Color {
    match factor {
        Some(f) => Color {
            r: factor_or(f@, 0, spec_default_color().r),
            g: factor_or(f@, 1, spec_default_color().g),
            b: factor_or(f@, 2, spec_default_color().b),
            a: factor_or(f@, 3, spec_default_color().a),
        },
        None => spec_default_color(),
    }
}

/// `assets` are the placeholders for a scene: one mesh without vertices for
/// each mesh of the scene, then one material for each of its materials; and
/// for a scene that lists neither, the one mesh `gltf_default`.
pub open spec fn placeholders_for(scene: Scene, assets: Seq<Asset>) -> bool {
    let meshes = scene.meshes@;
    let materials = scene.materials@;
    if meshes.len() == 0 && materials.len() == 0 {
        &&& assets.len() == 1
        &&& assets[0] matches Asset::Mesh(mesh) && mesh.name@ == "gltf_default"@
            && mesh.vertex_count == 0 && mesh.index_count == 0
    } else {
        &&& assets.len() == meshes.len() + materials.len()
        &&& forall|i: int|
            0 <= i < meshes.len() ==> (#[trigger] assets[i] matches Asset::Mesh(mesh) && mesh.name@
                == placeholder_name(meshes[i], i as nat) && mesh.vertex_count == 0
                && mesh.index_count == 0)
        &&& forall|j: int|
            0 <= j < materials.len() ==> (#[trigger] assets[meshes.len() + j] matches Asset::Material(
                material,
            ) && material.name@ == placeholder_name(materials[j].name, j as nat)
                && material.base_color == placeholder_color(materials[j].base_color_factor))
    }
}

fn indexed_name(name: &Option<String>, index: usize) -> (text: String)
    ensures
        text@ == placeholder_name(*name, index as nat),
{
    let mut text = match name {
        Some(n) => n.clone(),
        None => "unnamed".to_owned(),
    };
    text.push_str("_");
    push_decimal(&mut text, index as u64);
    text
}

fn factor_entry(factor: &Vec<Option<u32>>, i: usize, fallback: u32) -> (value: u32)
    ensures
        value == factor_or(factor@, i as int, fallback),
{
    if i < factor.len() {
        match factor[i] {
            Some(v) => v,
            None => fallback,
        }
    } else {
        fallback
    }
}

fn color_of(factor: &Option<Vec<Option<u32>>>) -> (color: Color)
    ensures
        color == placeholder_color(*factor),
{
    let base = default_color();
    match factor {
        Some(f) => Color {
            r: factor_entry(f, 0, base.r),
            g: factor_entry(f, 1, base.g),
            b: factor_entry(f, 2, base.b),
            a: factor_entry(f, 3, base.a),
        },
        None => base,
    }
}

/// Builds the placeholder assets for a scene.
pub fn scene_placeholders(scene: &Scene) -> (assets: Vec<Asset>)
    ensures
        placeholders_for(*scene, assets@),
{
    let mut assets: Vec<Asset> = Vec::new();
    let mut i: usize = 0;
    while i < scene.meshes.len()
        invariant
            0 <= i <= scene.meshes@.len(),
            assets@.len() == i,
            forall|k: int|
                0 <= k < i ==> (#[trigger] assets@[k] matches Asset::Mesh(mesh) && mesh.name@
                    == placeholder_name(scene.meshes@[k], k as nat) && mesh.vertex_count == 0
                    && mesh.index_count == 0),
        decreases scene.meshes@.len() - i,
    {
        let name = indexed_name(&scene.meshes[i], i);
        assets.push(Asset::Mesh(Mesh { name, vertex_count: 0, index_count: 0 }));
        i = i + 1;
    }
    let mesh_count = scene.meshes.len();
    let mut j: usize = 0;
    while j < scene.materials.len()
        invariant
            0 <= j <= scene.materials@.len(),
            mesh_count == scene.meshes@.len(),
            assets@.len() == mesh_count + j,
            forall|k: int|
                0 <= k < mesh_count ==> (#[trigger] assets@[k] matches Asset::Mesh(mesh)
                    && mesh.name@ == placeholder_name(scene.meshes@[k], k as nat)
                    && mesh.vertex_count == 0 && mesh.index_count == 0),
            forall|k: int|
                0 <= k < j ==> (#[trigger] assets@[mesh_count + k] matches Asset::Material(material)
                    && material.name@ == placeholder_name(scene.materials@[k].name, k as nat)
                    && material.base_color == placeholder_color(
                    scene.materials@[k].base_color_factor,
                )),
        decreases scene.materials@.len() - j,
    {
        let name = indexed_name(&scene.materials[j].name, j);
        let base_color = color_of(&scene.materials[j].base_color_factor);
        assets.push(Asset::Material(Material { name, base_color }));
        j = j + 1;
    }
    if assets.len() == 0 {
        assets.push(
            Asset::Mesh(Mesh { name: "gltf_default".to_owned(), vertex_count: 0, index_count: 0 }),
        );
    }
    assets
}

/// Appends a copy of `bytes` to `buf`.
fn push_bytes(buf: &mut Vec<u8>, bytes: &[u8])
    ensures
        final(buf)@ == old(buf)@ + bytes@,
{
    let mut i: usize = 0;
    while i < bytes.len()
        invariant
            0 <= i <= bytes@.len(),
            buf@ == old(buf)@ + bytes@.take(i as int),
        decreases bytes@.len() - i,
    {
        buf.push(bytes[i]);
        assert(buf@ =~= old(buf)@ + bytes@.take(i + 1));
        i = i + 1;
    }
    assert(bytes@.take(i as int) =~= bytes@);
}

/// Hashes `bytes` and reads the identifier off the digest.
fn hash_to_id(bytes: &[u8]) -> (id: AssetId)
    ensures
        id == content_id(bytes@),
{
    let digest = sha256_digest(bytes);
    let mut value: u64 = 0;
    let mut i: usize = 0;
    while i < 8
        invariant
            0 <= i <= 8,
            digest@.len() == 32,
            value == le_value(digest@.take(i as int)),
        decreases 8 - i,
    {
        proof {
            let next = digest@.take(i + 1);
            assert(next.drop_last() =~= digest@.take(i as int));
            assert(next.last() == digest@[i as int]);
        }
        let shift: u64 = 8 * (i as u64);
        value = value | ((digest[i] as u64) << shift);
        i = i + 1;
    }
    AssetId(value)
}

/// Content-addressed asset registry.
///
/// Assets are indexed by the hash of their content, so registering the same
/// content twice yields one entry.
#[derive(Debug)]
pub struct AssetStore {
    assets: BTreeMap<u64, Asset>,
    next_id: u64,
}

impl View for AssetStore {
    type V = Map<u64, Asset>;

    closed spec fn view(&self) -> Map<u64, Asset> {
        self.assets@
    }
}

impl AssetStore {
    pub fn new() -> (store: AssetStore)
        ensures
            store@ == Map::<u64, Asset>::empty(),
    {
        AssetStore { assets: BTreeMap::new(), next_id: 0 }
    }

    fn content_hash(&self, name: &str, vertex_count: u32, index_count: u32) -> (id: AssetId)
        ensures
            id == content_id(mesh_bytes(encode_utf8(name@), vertex_count, index_count)),
    {
        let mut bytes: Vec<u8> = Vec::new();
        push_bytes(&mut bytes, name.as_bytes());
        push_u32_le(&mut bytes, vertex_count);
        push_u32_le(&mut bytes, index_count);
        assert(bytes@ =~= mesh_bytes(encode_utf8(name@), vertex_count, index_count));
        hash_to_id(bytes.as_slice())
    }

    fn content_hash_material(&self, name: &str, color: &Color) -> (id: AssetId)
        ensures
            id == content_id(material_bytes(encode_utf8(name@), *color)),
    {
        let mut bytes: Vec<u8> = Vec::new();
        push_bytes(&mut bytes, name.as_bytes());
        push_u32_le(&mut bytes, color.r);
        push_u32_le(&mut bytes, color.g);
        push_u32_le(&mut bytes, color.b);
        push_u32_le(&mut bytes, color.a);
        assert(bytes@ =~= material_bytes(encode_utf8(name@), *color));
        hash_to_id(bytes.as_slice())
    }

    /// Register a mesh and return its asset ID.
    pub fn register_mesh(&mut self, mesh: Mesh) -> (id: AssetId)
        ensures
            id == mesh_id(mesh),
            final(self)@ == old(self)@.insert(id.0, Asset::Mesh(mesh)),
    {
        let id = self.content_hash(mesh.name.as_str(), mesh.vertex_count, mesh.index_count);
        self.assets.insert(id.0, Asset::Mesh(mesh));
        id
    }

    /// Register a material and return its asset ID.
    pub fn register_material(&mut self, material: Material) -> (id: AssetId)
        ensures
            id == material_id(material),
            final(self)@ == old(self)@.insert(id.0, Asset::Material(material)),
    {
        let id = self.content_hash_material(material.name.as_str(), &material.base_color);
        self.assets.insert(id.0, Asset::Material(material));
        id
    }

    /// Get an asset by ID.
    pub fn get(&self, id: AssetId) -> (asset: Option<&Asset>)
        ensures
            match asset {
                Some(a) => self@.contains_key(id.0) && *a == self@[id.0],
                None => !self@.contains_key(id.0),
            },
    {
        self.assets.get(&id.0)
    }

    /// Get a mesh by ID: `None` if there is no such asset or it is no mesh.
    pub fn get_mesh(&self, id: AssetId) -> (mesh: Option<&Mesh>)
        ensures
            match mesh {
                Some(m) => self@.contains_key(id.0) && self@[id.0] == Asset::Mesh(*m),
                None => !(self@.contains_key(id.0) && self@[id.0] is Mesh),
            },
    {
        match self.assets.get(&id.0) {
            Some(Asset::Mesh(m)) => Some(m),
            _ => None,
        }
    }

    /// Get a material by ID: `None` if there is no such asset or it is no
    /// material.
    pub fn get_material(&self, id: AssetId) -> (material: Option<&Material>)
        ensures
            match material {
                Some(m) => self@.contains_key(id.0) && self@[id.0] == Asset::Material(*m),
                None => !(self@.contains_key(id.0) && self@[id.0] is Material),
            },
    {
        match self.assets.get(&id.0) {
            Some(Asset::Material(m)) => Some(m),
            _ => None,
        }
    }

    /// Read-only access to all assets, keyed by identifier value.
    pub fn assets(&self) -> (assets: &BTreeMap<u64, Asset>)
        ensures
            assets@ == self@,
    {
        &self.assets
    }

    /// Number of registered assets.
    pub fn len(&self) -> (n: usize)
        ensures
            n == self@.len(),
    {
        self.assets.len()
    }

    pub fn is_empty(&self) -> (empty: bool)
        ensures
            empty == (self@.len() == 0),
    {
        self.assets.len() == 0
    }

    /// Registers `assets` in order and returns their identifiers.
    pub fn register_assets(&mut self, assets: Vec<Asset>) -> (ids: Vec<AssetId>)
        ensures
            final(self)@ == register_all(old(self)@, assets@),
            ids@.len() == assets@.len(),
            forall|i: int| 0 <= i < ids@.len() ==> #[trigger] ids@[i] == asset_id(assets@[i]),
    {
        let ghost all = assets@;
        let mut ids: Vec<AssetId> = Vec::new();
        for asset in it: assets
            invariant
                it.seq() == all,
                ids@.len() == it.index(),
                self@ == register_all(old(self)@, all.take(it.index() as int)),
                forall|i: int| 0 <= i < ids@.len() ==> #[trigger] ids@[i] == asset_id(all[i]),
        {
            proof {
                let done = it.index() as int;
                assert(all.take(done + 1).drop_last() =~= all.take(done));
                assert(all.take(done + 1).last() == asset);
            }
            let id = match asset {
                Asset::Mesh(mesh) => self.register_mesh(mesh),
                Asset::Material(material) => self.register_material(material),
            };
            ids.push(id);
        }
        assert(all.take(all.len() as int) =~= all);
        ids
    }

    /// Import a scene: registers a placeholder mesh for each mesh of the
    /// scene and a placeholder material for each of its materials, or the one
    /// mesh `gltf_default` if the scene lists neither. Returns the
    /// identifiers in the order of registration.
    pub fn import_gltf(&mut self, scene: &Scene) -> (ids: Vec<AssetId>)
        ensures
            exists|assets: Seq<Asset>|
                {
                    &&& placeholders_for(*scene, assets)
                    &&& final(self)@ == register_all(old(self)@, assets)
                    &&& ids@.len() == assets.len()
                    &&& forall|i: int|
                        0 <= i < ids@.len() ==> #[trigger] ids@[i] == asset_id(assets[i])
                },
    {
        let assets = scene_placeholders(scene);
        let ghost listed = assets@;
        let ids = self.register_assets(assets);
        assert(placeholders_for(*scene, listed) && self@ == register_all(old(self)@, listed));
        ids
    }

    /// Register a default unit cube mesh.
    pub fn register_default_cube(&mut self) -> (id: AssetId)
        ensures
            final(self)@.contains_key(id.0),
            final(self)@[id.0] matches Asset::Mesh(mesh) && mesh.name@ == "unit_cube"@
                && mesh.vertex_count == 24 && mesh.index_count == 36 && id == mesh_id(mesh),
            final(self)@.remove(id.0) == old(self)@.remove(id.0),
    {
        let id = self.register_mesh(
            Mesh { name: "unit_cube".to_owned(), vertex_count: 24, index_count: 36 },
        );
        assert(self@.remove(id.0) =~= old(self)@.remove(id.0));
        id
    }

    /// Register a default material.
    pub fn register_default_material(&mut self) -> (id: AssetId)
        ensures
            final(self)@.contains_key(id.0),
            final(self)@[id.0] matches Asset::Material(material) && material.name@ == "default"@
                && material.base_color == spec_default_color() && id == material_id(material),
            final(self)@.remove(id.0) == old(self)@.remove(id.0),
    {
        let id = self.register_material(Material::default());
        assert(self@.remove(id.0) =~= old(self)@.remove(id.0));
        id
    }
}

impl Default for AssetStore {
    fn default() -> (store: AssetStore)
        ensures
            store@ == Map::<u64, Asset>::empty(),
    {
        AssetStore::new()
    }
}

/// The name and version of the asset component.
pub fn crate_info() -> (info: &'static str)
    ensures
        info@ == "worldspace-assets v0.1.0"@,
{
    "worldspace-assets v0.1.0"
}

} // verus!
