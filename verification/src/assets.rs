//! The asset registry: textures and audio clips keyed by handle, a cache from
//! resolved path to handle, and the queue of background loads to start.
//!
//! Reading files and running the background loader are left to the caller:
//! the registry hands out `LoadRequest`s and takes `LoadResult`s back.

use std::collections::HashMap;

use vstd::prelude::*;
use vstd::string::*;

use crate::paths::{file_extension, join_path, joined_path, path_extension, path_key, PathKey};

verus! {

broadcast use vstd::std_specs::hash::group_hash_axioms;

// ─── Handle ──────────────────────────────────────────────────────────────────

/// What a handle names.
#[derive(Debug, Clone, Copy, PartialEq, Eq, Hash, Structural)]
pub enum AssetKind {
    Texture,
    Audio,
}

/// A handle to a registered asset: a random 128-bit id and the asset's kind.
#[derive(Debug, Clone, Copy, PartialEq, Eq, Hash, Structural)]
pub struct AssetHandle {
    id: u128,
    kind: AssetKind,
}

/// The version and variant bits of a random (version 4) UUID, read as a
/// big-endian 128-bit value: version nibble `4`, variant bits `10`.
pub open spec fn is_random_uuid(id: u128) -> bool {
    id & 0xF000_C000_0000_0000_0000u128 == 0x4000_8000_0000_0000_0000u128
}

/// Draws a fresh asset id: the 128-bit value of `uuid::Uuid::new_v4()`.
/// The other bits come from a random source; the contract states only the
/// version and variant bits that `new_v4` sets on every id.
#[verifier::external_body]
fn new_asset_id() -> (r: u128)
    ensures
        is_random_uuid(r),
{
    uuid::Uuid::new_v4().as_u128()
}

impl AssetHandle {
    fn new(kind: AssetKind) -> (h: AssetHandle)
        ensures
            h.spec_kind() == kind,
            is_random_uuid(h.spec_id()),
    {
        AssetHandle { id: new_asset_id(), kind }
    }

    /// The handle's id, in contracts.
    pub closed spec fn spec_id(&self) -> u128 {
        self.id
    }

    /// The handle's kind, in contracts.
    pub closed spec fn spec_kind(&self) -> AssetKind {
        self.kind
    }

    /// The handle's id (the bits of a version-4 UUID).
    pub fn id(&self) -> (r: u128)
        ensures
            r == self.spec_id(),
    {
        self.id
    }

    /// The kind of asset the handle names.
    pub fn asset_kind(&self) -> (r: AssetKind)
        ensures
            r == self.spec_kind(),
    {
        self.kind
    }

    /// The kind as text: `"texture"` or `"audio"`.
    pub fn kind(&self) -> (r: &'static str)
        ensures
            self.spec_kind() is Texture ==> r@ == "texture"@,
            self.spec_kind() is Audio ==> r@ == "audio"@,
    {
        match self.kind {
            AssetKind::Texture => "texture",
            AssetKind::Audio => "audio",
        }
    }
}

// ─── Load state ──────────────────────────────────────────────────────────────

/// The loading state of an asset.
#[derive(Debug)]
pub enum AssetState<T> {
    Loading,
    Ready(T),
    Failed(String),
}

impl<T> AssetState<T> {
    /// True when the asset has finished loading successfully.
    pub fn is_ready(&self) -> (r: bool)
        ensures
            r == (*self is Ready),
    {
        match self {
            AssetState::Ready(_) => true,
            _ => false,
        }
    }

    /// The loaded value, when there is one.
    pub fn get(&self) -> (r: Option<&T>)
        ensures
            match *self {
                AssetState::Ready(v) => r == Some(&v),
                _ => r is None,
            },
    {
        match self {
            AssetState::Ready(v) => Some(v),
            _ => None,
        }
    }
}

/// The state a finished load leaves behind: ready on success, failed with the
/// error message otherwise.
pub open spec fn finished_state<T>(result: Result<T, String>) -> AssetState<T> {
    match result {
        Ok(v) => AssetState::Ready(v),
        Err(e) => AssetState::Failed(e),
    }
}

// ─── Texture ─────────────────────────────────────────────────────────────────

#[derive(Debug, Clone, Copy, PartialEq, Eq, Structural)]
pub enum TextureFormat {
    Rgba8Unorm,
    Rgba8Srgb,
    Bc3Srgb,
}

/// A CPU-side texture (width, height, RGBA8 pixels).
#[derive(Debug, Clone)]
pub struct Texture {
    pub width: u32,
    pub height: u32,
    pub pixels: Vec<u8>,
    pub format: TextureFormat,
}

/// The error type of the `image` crate.
#[verifier::external_type_specification]
#[verifier::external_body]
pub struct ExImageError(image::ImageError);

/// Why an asset could not be loaded.
#[derive(Debug)]
pub enum AssetError {
    /// The path has no extension that names an image format.
    UnsupportedFormat,
    /// The bytes are not an image of the format that the extension names.
    Decode(image::ImageError),
}

/// The RGBA8 image that the `image` crate makes of `bytes` read as the format
/// that the file extension `ext` names (`ImageFormat::from_extension`, then
/// `load_from_memory_with_format`, then `DynamicImage::to_rgba8`): width,
/// height and raw pixel bytes; `None` where the extension names no format or
/// the bytes do not decode as it. The decoders compute in integers, and where
/// they pick vector code at run time it gives the same values as their scalar
/// code, so the result depends on the extension and the bytes alone.
pub uninterp spec fn rgba8_decoding(ext: Seq<char>, bytes: Seq<u8>) -> Option<(u32, u32, Seq<u8>)>;

/// Decodes `bytes` as the image format that the extension `ext` names, with
/// `image::ImageFormat::from_extension` and `image::load_from_memory_with_format`,
/// converts the image with `to_rgba8`, and returns width, height and pixels.
/// The format is given, so neither the crate's format guessing nor its
/// registered hooks take part. The contract ties the result to
/// `rgba8_decoding` of the extension and the bytes, and states that the
/// pixels hold four bytes for each of the `width * height` pixels (the
/// buffers that `to_rgba8` returns are made that size). `Err(None)` stands for
/// an extension that names no format; which error the decoder reports
/// otherwise is left unsaid.
#[verifier::external_body]
fn decode_rgba8(ext: &Vec<char>, bytes: &[u8]) -> (r: Result<
    (u32, u32, Vec<u8>),
    Option<image::ImageError>,
>)
    ensures
        match r {
            Ok((w, h, px)) => {
                &&& rgba8_decoding(ext@, bytes@) == Some((w, h, px@))
                &&& px@.len() == 4 * (w as int) * (h as int)
            },
            Err(_) => rgba8_decoding(ext@, bytes@) is None,
        },
{
    let ext: String = ext.iter().collect();
    match image::ImageFormat::from_extension(ext) {
        Some(format) => match image::load_from_memory_with_format(bytes, format) {
            Ok(img) => {
                let rgba = img.to_rgba8();
                Ok((rgba.width(), rgba.height(), rgba.into_raw()))
            },
            Err(e) => Err(Some(e)),
        },
        None => Err(None),
    }
}

/// The image that a file at `path` holding `bytes` decodes to: the format is
/// the one that the path's extension names; `None` without an extension.
pub open spec fn decoded_image(path: Seq<char>, bytes: Seq<u8>) -> Option<(u32, u32, Seq<u8>)> {
    match path_extension(path) {
        Some(ext) => rgba8_decoding(ext, bytes),
        None => None,
    }
}

impl Texture {
    /// Pixel data holds four bytes per pixel.
    pub open spec fn well_formed(&self) -> bool {
        self.pixels@.len() == 4 * (self.width as int) * (self.height as int)
    }

    /// The texture that a decoding result describes, in sRGB format.
    pub open spec fn decoded_as(&self, d: (u32, u32, Seq<u8>)) -> bool {
        &&& self.width == d.0
        &&& self.height == d.1
        &&& self.pixels@ == d.2
        &&& self.format == TextureFormat::Rgba8Srgb
    }

    /// Decodes the bytes of the image file at `path` into an sRGB RGBA8
    /// texture; the path's extension says which format the bytes are in.
    pub fn decode(path: &str, bytes: &[u8]) -> (r: Result<Texture, AssetError>)
        ensures
            match decoded_image(path@, bytes@) {
                Some(d) => r matches Ok(t) && t.decoded_as(d),
                None => r is Err,
            },
            path_extension(path@) is None ==> r matches Err(AssetError::UnsupportedFormat),
            r matches Ok(t) ==> t.well_formed(),
    {
        let ext = match file_extension(path) {
            Some(e) => e,
            None => return Err(AssetError::UnsupportedFormat),
        };
        match decode_rgba8(&ext, bytes) {
            Ok((width, height, pixels)) => Ok(
                Texture { width, height, pixels, format: TextureFormat::Rgba8Srgb },
            ),
            Err(Some(e)) => Err(AssetError::Decode(e)),
            Err(None) => Err(AssetError::UnsupportedFormat),
        }
    }

    /// 1×1 solid-colour fallback texture.
    pub fn solid(r: u8, g: u8, b: u8, a: u8) -> (t: Texture)
        ensures
            t.width == 1,
            t.height == 1,
            t.pixels@ == seq![r, g, b, a],
            t.format == TextureFormat::Rgba8Srgb,
            t.well_formed(),
    {
        let mut pixels: Vec<u8> = Vec::new();
        pixels.push(r);
        pixels.push(g);
        pixels.push(b);
        pixels.push(a);
        Texture { width: 1, height: 1, pixels, format: TextureFormat::Rgba8Srgb }
    }
}

// ─── Loads handed to the background loader ───────────────────────────────────

/// A load that the registry asks the background loader to run.
#[derive(Debug)]
pub enum LoadRequest {
    Texture { id: u128, path: String },
    Audio { id: u128, path: String },
}

/// A load request as values: which map, which id, which resolved path.
pub enum PendingLoad {
    Texture(u128, Seq<char>),
    Audio(u128, Seq<char>),
}

impl View for LoadRequest {
    type V = PendingLoad;

    open spec fn view(&self) -> PendingLoad {
        match *self {
            LoadRequest::Texture { id, path } => PendingLoad::Texture(id, path@),
            LoadRequest::Audio { id, path } => PendingLoad::Audio(id, path@),
        }
    }
}

/// What the background loader reports back for one request.
#[allow(inconsistent_fields)]
pub enum LoadResult<A> {
    Texture { id: u128, result: Result<Texture, String> },
    Audio { id: u128, result: Result<A, String> },
}

/// The texture and audio maps after the results are applied in order.
pub open spec fn apply_results<A>(
    textures: Map<u128, AssetState<Texture>>,
    audio: Map<u128, AssetState<A>>,
    results: Seq<LoadResult<A>>,
) -> (Map<u128, AssetState<Texture>>, Map<u128, AssetState<A>>)
    decreases results.len(),
{
    if results.len() == 0 {
        (textures, audio)
    } else {
        let (t, a) = apply_results(textures, audio, results.drop_last());
        match results.last() {
            LoadResult::Texture { id, result } => (t.insert(id, finished_state(result)), a),
            LoadResult::Audio { id, result } => (t, a.insert(id, finished_state(result))),
        }
    }
}

/// A path's components as values (see `path_key`).
pub type PathKeyValue = (bool, bool, Seq<Seq<char>>);

// ─── Path cache ──────────────────────────────────────────────────────────────

/// The handle of the first entry whose path is `key`.
pub open spec fn cache_lookup<K>(entries: Seq<(K, AssetHandle)>, key: K) -> Option<
    AssetHandle,
>
    decreases entries.len(),
{
    if entries.len() == 0 {
        None
    } else {
        match cache_lookup(entries.drop_last(), key) {
            Some(h) => Some(h),
            None => if entries.last().0 == key {
                Some(entries.last().1)
            } else {
                None
            },
        }
    }
}

/// A hit in a prefix of the entries is a hit in all of them.
proof fn lemma_cache_lookup_prefix<K>(entries: Seq<(K, AssetHandle)>, n: int, key: K)
    requires
        0 <= n <= entries.len(),
        cache_lookup(entries.take(n), key) is Some,
    ensures
        cache_lookup(entries, key) == cache_lookup(entries.take(n), key),
    decreases entries.len(),
{
    if entries.len() == n {
        assert(entries.take(n) =~= entries);
    } else {
        assert(entries.drop_last().take(n) =~= entries.take(n));
        lemma_cache_lookup_prefix(entries.drop_last(), n, key);
    }
}

/// A miss means no entry has that path.
proof fn lemma_cache_lookup_none<K>(entries: Seq<(K, AssetHandle)>, key: K)
    requires
        cache_lookup(entries, key) is None,
    ensures
        forall|i: int| 0 <= i < entries.len() ==> (#[trigger] entries[i]).0 != key,
    decreases entries.len(),
{
    if entries.len() > 0 {
        lemma_cache_lookup_none(entries.drop_last(), key);
        assert forall|i: int| 0 <= i < entries.len() implies (#[trigger] entries[i]).0 != key by {
            if i < entries.len() - 1 {
                assert(entries.drop_last()[i] == entries[i]);
            }
        }
    }
}

/// A hit is the handle of some entry with that path.
proof fn lemma_cache_lookup_some<K>(entries: Seq<(K, AssetHandle)>, key: K)
    requires
        cache_lookup(entries, key) is Some,
    ensures
        exists|i: int| 0 <= i < entries.len() && #[trigger] entries[i] == (key, cache_lookup(entries, key)->0),
    decreases entries.len(),
{
    if cache_lookup(entries.drop_last(), key) is Some {
        lemma_cache_lookup_some(entries.drop_last(), key);
        let i = choose|i: int| 0 <= i < entries.drop_last().len() && #[trigger] entries.drop_last()[i] == (key, cache_lookup(entries.drop_last(), key)->0);
        assert(entries[i] == entries.drop_last()[i]);
    } else {
        assert(entries[entries.len() - 1] == entries.last());
    }
}

/// Applying results only ever adds assets: every tracked id stays tracked.
proof fn lemma_apply_results_grows<A>(
    textures: Map<u128, AssetState<Texture>>,
    audio: Map<u128, AssetState<A>>,
    results: Seq<LoadResult<A>>,
)
    ensures
        forall|k: u128| textures.contains_key(k) ==> #[trigger] apply_results(textures, audio, results).0.contains_key(k),
        forall|k: u128| audio.contains_key(k) ==> #[trigger] apply_results(textures, audio, results).1.contains_key(k),
    decreases results.len(),
{
    if results.len() > 0 {
        lemma_apply_results_grows(textures, audio, results.drop_last());
        let prev = apply_results(textures, audio, results.drop_last());
        let now = apply_results(textures, audio, results);
        assert forall|k: u128| textures.contains_key(k) implies #[trigger] now.0.contains_key(k) by {
            assert(prev.0.contains_key(k));
        }
        assert forall|k: u128| audio.contains_key(k) implies #[trigger] now.1.contains_key(k) by {
            assert(prev.1.contains_key(k));
        }
    }
}

/// Appending an entry keeps earlier hits and adds one for its own path.
proof fn lemma_cache_lookup_push<K>(entries: Seq<(K, AssetHandle)>, e: (K, AssetHandle), key: K)
    ensures
        cache_lookup(entries.push(e), key) == match cache_lookup(entries, key) {
            Some(h) => Some(h),
            None => if e.0 == key {
                Some(e.1)
            } else {
                None
            },
        },
{
    assert(entries.push(e).drop_last() =~= entries);
}

// ─── Asset manager ───────────────────────────────────────────────────────────

/// Central registry for all game assets; `A` is the audio clip type.
pub struct AssetManager<A> {
    root: String,
    textures: HashMap<u128, AssetState<Texture>>,
    audio: HashMap<u128, AssetState<A>>,
    /// Resolved path (by its components) → handle, to avoid loading one
    /// file twice.
    path_cache: Vec<(PathKey, AssetHandle)>,
    /// Loads to hand to the background loader, oldest first.
    pending: Vec<LoadRequest>,
}

impl<A> AssetManager<A> {
    /// The asset root directory.
    pub closed spec fn root_path(&self) -> Seq<char> {
        self.root@
    }

    /// The state of every texture, by id.
    pub closed spec fn texture_states(&self) -> Map<u128, AssetState<Texture>> {
        self.textures@
    }

    /// The state of every audio clip, by id.
    pub closed spec fn audio_states(&self) -> Map<u128, AssetState<A>> {
        self.audio@
    }

    /// The path cache entries, oldest first.
    pub closed spec fn cache_entries(&self) -> Seq<(PathKeyValue, AssetHandle)> {
        self.path_cache@.map_values(|e: (PathKey, AssetHandle)| (e.0@, e.1))
    }

    /// The loads not yet handed out, oldest first.
    pub closed spec fn pending_loads(&self) -> Seq<PendingLoad> {
        self.pending@.map_values(|r: LoadRequest| r@)
    }

    /// The handle cached for a resolved path's key.
    pub open spec fn cached(&self, key: PathKeyValue) -> Option<AssetHandle> {
        cache_lookup(self.cache_entries(), key)
    }

    /// The handle cached for a path, resolved against the root.
    pub open spec fn cached_for(&self, path: Seq<char>) -> Option<AssetHandle> {
        self.cached(path_key(self.resolved(path)))
    }

    /// A path resolved against the asset root.
    pub open spec fn resolved(&self, path: Seq<char>) -> Seq<char> {
        joined_path(self.root_path(), path)
    }

    /// The value a map holds for `h` when its state is ready.
    pub open spec fn ready_value<T>(states: Map<u128, AssetState<T>>, h: AssetHandle) -> Option<T> {
        if states.contains_key(h.spec_id()) && states[h.spec_id()] is Ready {
            Some(states[h.spec_id()]->Ready_0)
        } else {
            None
        }
    }

    /// The registry's bookkeeping is consistent: each cached path names a
    /// texture handle the registry tracks, no path is cached twice, and each
    /// pending load names an asset that is tracked.
    pub open spec fn wf(&self) -> bool {
        &&& self.texture_states().dom().finite()
        &&& self.audio_states().dom().finite()
        &&& forall|i: int|
            0 <= i < self.cache_entries().len() ==> {
                let h = (#[trigger] self.cache_entries()[i]).1;
                &&& h.spec_kind() is Texture
                &&& self.texture_states().contains_key(h.spec_id())
            }
        &&& forall|i: int, j: int|
            0 <= i < j < self.cache_entries().len() ==> (#[trigger] self.cache_entries()[i]).0
                != (#[trigger] self.cache_entries()[j]).0
        &&& forall|i: int|
            0 <= i < self.pending_loads().len() ==> match #[trigger] self.pending_loads()[i] {
                PendingLoad::Texture(id, _) => self.texture_states().contains_key(id),
                PendingLoad::Audio(id, _) => self.audio_states().contains_key(id),
            }
    }

    /// Caching a new path for a freshly tracked texture keeps the bookkeeping
    /// consistent.
    proof fn lemma_push_keeps_wf(&self, old_self: Self, key: PathKeyValue, h: AssetHandle)
        requires
            old_self.wf(),
            forall|i: int|
                0 <= i < old_self.cache_entries().len() ==> (#[trigger] old_self.cache_entries()[i]).0
                    != key,
            h.spec_kind() is Texture,
            self.texture_states().contains_key(h.spec_id()),
            forall|k: u128| old_self.texture_states().contains_key(k) ==> #[trigger] self.texture_states().contains_key(k),
            forall|k: u128| old_self.audio_states().contains_key(k) ==> #[trigger] self.audio_states().contains_key(k),
            self.cache_entries() == old_self.cache_entries().push((key, h)),
            self.pending_loads() == old_self.pending_loads() || exists|id: u128, p: Seq<char>|
                self.pending_loads() == old_self.pending_loads().push(PendingLoad::Texture(id, p))
                && self.texture_states().contains_key(id),
        ensures
            self.wf(),
    {
        let n = old_self.cache_entries().len();
        assert forall|i: int| 0 <= i < self.cache_entries().len() implies {
            let e = (#[trigger] self.cache_entries()[i]).1;
            &&& e.spec_kind() is Texture
            &&& self.texture_states().contains_key(e.spec_id())
        } by {
            if i < n {
                assert(self.cache_entries()[i] == old_self.cache_entries()[i]);
            }
        }
        assert forall|i: int, j: int|
            0 <= i < j < self.cache_entries().len() implies (#[trigger] self.cache_entries()[i]).0
            != (#[trigger] self.cache_entries()[j]).0 by {
            assert(self.cache_entries()[i] == old_self.cache_entries()[i]);
            if j < n {
                assert(self.cache_entries()[j] == old_self.cache_entries()[j]);
            }
        }
        assert forall|i: int| 0 <= i < self.pending_loads().len() implies match #[trigger] self.pending_loads()[i] {
            PendingLoad::Texture(id, _) => self.texture_states().contains_key(id),
            PendingLoad::Audio(id, _) => self.audio_states().contains_key(id),
        } by {
            if i < old_self.pending_loads().len() {
                assert(self.pending_loads()[i] == old_self.pending_loads()[i]);
            }
        }
    }

    /// An empty registry rooted at `assets`.
    pub fn new() -> (m: Self)
        ensures
            m.root_path() == "assets"@,
            m.texture_states() == Map::<u128, AssetState<Texture>>::empty(),
            m.audio_states() == Map::<u128, AssetState<A>>::empty(),
            m.cache_entries() == Seq::<(PathKeyValue, AssetHandle)>::empty(),
            m.pending_loads() == Seq::<PendingLoad>::empty(),
            m.wf(),
    {
        let m = AssetManager {
            root: String::from_str("assets"),
            textures: HashMap::new(),
            audio: HashMap::new(),
            path_cache: Vec::new(),
            pending: Vec::new(),
        };
        assert(m.cache_entries() =~= Seq::<(PathKeyValue, AssetHandle)>::empty());
        assert(m.pending_loads() =~= Seq::<PendingLoad>::empty());
        m
    }

    /// Set the root asset directory.
    pub fn set_root(&mut self, root: &str)
        ensures
            old(self).wf() ==> final(self).wf(),
            old(self).cache_entries().is_prefix_of(final(self).cache_entries()),
            final(self).root_path() == root@,
            final(self).texture_states() == old(self).texture_states(),
            final(self).audio_states() == old(self).audio_states(),
            final(self).cache_entries() == old(self).cache_entries(),
            final(self).pending_loads() == old(self).pending_loads(),
    {
        self.root = String::from_str(root);
    }

    /// A path resolved against the asset root.
    pub fn full_path(&self, path: &str) -> (r: String)
        ensures
            r@ == self.resolved(path@),
    {
        join_path(self.root.as_str(), path)
    }

    fn find_cached(&self, key: &PathKey) -> (r: Option<AssetHandle>)
        ensures
            r == self.cached(key@),
    {
        let ghost entries = self.cache_entries();
        let mut i: usize = 0;
        while i < self.path_cache.len()
            invariant
                i <= self.path_cache.len(),
                entries == self.cache_entries(),
                entries.len() == self.path_cache@.len(),
                cache_lookup(entries.take(i as int), key@) is None,
            decreases self.path_cache.len() - i,
        {
            assert(entries.take(i + 1).drop_last() =~= entries.take(i as int));
            if self.path_cache[i].0.same_as(key) {
                proof {
                    lemma_cache_lookup_prefix(entries, i + 1, key@);
                }
                return Some(self.path_cache[i].1);
            }
            i += 1;
        }
        assert(entries.take(i as int) =~= entries);
        None
    }

    /// The handle already registered for a path, if any.
    pub fn cached_texture(&self, path: &str) -> (r: Option<AssetHandle>)
        ensures
            r == self.cached_for(path@),
    {
        let full = self.full_path(path);
        self.find_cached(&PathKey::of(full.as_str()))
    }

    /// Begin loading a texture in the background. A path loaded before gives
    /// back its handle and changes nothing; a new one gets a fresh texture
    /// handle in the loading state, a cache entry and a pending load.
    pub fn load_texture(&mut self, path: &str) -> (h: AssetHandle)
        ensures
            old(self).wf() ==> final(self).wf(),
            old(self).cache_entries().is_prefix_of(final(self).cache_entries()),
            old(self).wf() ==> h.spec_kind() is Texture && final(self).texture_states().contains_key(h.spec_id()),
            final(self).root_path() == old(self).root_path(),
            final(self).audio_states() == old(self).audio_states(),
            match old(self).cached_for(path@) {
                Some(c) => {
                    &&& h == c
                    &&& final(self).texture_states() == old(self).texture_states()
                    &&& final(self).cache_entries() == old(self).cache_entries()
                    &&& final(self).pending_loads() == old(self).pending_loads()
                },
                None => {
                    let full = old(self).resolved(path@);
                    &&& h.spec_kind() is Texture
                    &&& is_random_uuid(h.spec_id())
                    &&& final(self).texture_states() == old(self).texture_states().insert(
                        h.spec_id(),
                        AssetState::Loading,
                    )
                    &&& !old(self).texture_states().contains_key(h.spec_id()) ==> final(self).texture_states().len() == old(self).texture_states().len() + 1
                    &&& final(self).cache_entries() == old(self).cache_entries().push(
                        (path_key(full), h),
                    )
                    &&& final(self).pending_loads() == old(self).pending_loads().push(
                        PendingLoad::Texture(h.spec_id(), full),
                    )
                },
            },
    {
        let full = self.full_path(path);
        let key = PathKey::of(full.as_str());
        if let Some(h) = self.find_cached(&key) {
            proof {
                lemma_cache_lookup_some(self.cache_entries(), key@);
            }
            return h;
        }
        let handle = AssetHandle::new(AssetKind::Texture);
        self.textures.insert(handle.id, AssetState::Loading);
        let ghost kv = key@;
        self.path_cache.push((key, handle));
        assert(self.cache_entries() =~= old(self).cache_entries().push((kv, handle)));
        self.pending.push(LoadRequest::Texture { id: handle.id, path: full });
        assert(self.pending_loads() =~= old(self).pending_loads().push(
            PendingLoad::Texture(handle.id, full@),
        ));
        proof {
            lemma_cache_lookup_none(old(self).cache_entries(), kv);
            if old(self).wf() {
                self.lemma_push_keeps_wf(*old(self), kv, handle);
            }
        }
        handle
    }

    /// Register the texture that the file at `path` (under the root) decodes
    /// to, given the file's bytes, unless the path was registered before, in
    /// which case its handle comes back and nothing changes. A file that does
    /// not decode, as the format its extension names, gives an error and
    /// changes nothing.
    pub fn load_texture_sync(&mut self, path: &str, encoded: &[u8]) -> (r: Result<
        AssetHandle,
        AssetError,
    >)
        ensures
            old(self).wf() ==> final(self).wf(),
            old(self).cache_entries().is_prefix_of(final(self).cache_entries()),
            final(self).root_path() == old(self).root_path(),
            final(self).audio_states() == old(self).audio_states(),
            final(self).pending_loads() == old(self).pending_loads(),
            match old(self).cached_for(path@) {
                Some(c) => {
                    &&& r == Ok::<AssetHandle, AssetError>(c)
                    &&& final(self).texture_states() == old(self).texture_states()
                    &&& final(self).cache_entries() == old(self).cache_entries()
                },
                None => match decoded_image(old(self).resolved(path@), encoded@) {
                    None => {
                        &&& r is Err
                        &&& final(self).texture_states() == old(self).texture_states()
                        &&& final(self).cache_entries() == old(self).cache_entries()
                    },
                    Some(d) => {
                        let full = old(self).resolved(path@);
                        &&& r matches Ok(h) && {
                            &&& h.spec_kind() is Texture
                            &&& is_random_uuid(h.spec_id())
                            &&& !old(self).texture_states().contains_key(h.spec_id()) ==> final(self).texture_states().len() == old(self).texture_states().len() + 1
                            &&& final(self).texture_states() == old(
                                self,
                            ).texture_states().insert(h.spec_id(), final(self).texture_states()[h.spec_id()])
                            &&& final(self).texture_states()[h.spec_id()] matches AssetState::Ready(t)
                                && t.decoded_as(d)
                            &&& final(self).cache_entries() == old(self).cache_entries().push(
                                (path_key(full), h),
                            )
                        }
                    },
                },
            },
    {
        let full = self.full_path(path);
        let key = PathKey::of(full.as_str());
        if let Some(h) = self.find_cached(&key) {
            return Ok(h);
        }
        let tex = match Texture::decode(full.as_str(), encoded) {
            Ok(t) => t,
            Err(e) => return Err(e),
        };
        let handle = AssetHandle::new(AssetKind::Texture);
        self.textures.insert(handle.id, AssetState::Ready(tex));
        let ghost kv = key@;
        self.path_cache.push((key, handle));
        assert(self.cache_entries() =~= old(self).cache_entries().push((kv, handle)));
        proof {
            lemma_cache_lookup_none(old(self).cache_entries(), kv);
            if old(self).wf() {
                self.lemma_push_keeps_wf(*old(self), kv, handle);
            }
        }
        Ok(handle)
    }

    /// Get a texture by handle (`None` while it is loading, or when it failed
    /// or is unknown).
    pub fn texture(&self, handle: &AssetHandle) -> (r: Option<&Texture>)
        ensures
            r == match Self::ready_value(self.texture_states(), *handle) {
                Some(t) => Some(&t),
                None => None::<&Texture>,
            },
    {
        match self.textures.get(&handle.id) {
            Some(state) => state.get(),
            None => None,
        }
    }

    /// Instantly register a CPU-side texture (e.g. procedural).
    pub fn register_texture(&mut self, tex: Texture) -> (h: AssetHandle)
        ensures
            old(self).wf() ==> final(self).wf(),
            old(self).cache_entries().is_prefix_of(final(self).cache_entries()),
            h.spec_kind() is Texture,
            is_random_uuid(h.spec_id()),
            final(self).texture_states() == old(self).texture_states().insert(
                h.spec_id(),
                AssetState::Ready(tex),
            ),
            !old(self).texture_states().contains_key(h.spec_id()) ==> final(self).texture_states().len() == old(self).texture_states().len() + 1,
            final(self).root_path() == old(self).root_path(),
            final(self).audio_states() == old(self).audio_states(),
            final(self).cache_entries() == old(self).cache_entries(),
            final(self).pending_loads() == old(self).pending_loads(),
    {
        let handle = AssetHandle::new(AssetKind::Texture);
        self.textures.insert(handle.id, AssetState::Ready(tex));
        handle
    }

    /// Begin loading an audio clip in the background (no path cache for audio).
    pub fn load_audio(&mut self, path: &str) -> (h: AssetHandle)
        ensures
            old(self).wf() ==> final(self).wf(),
            old(self).cache_entries().is_prefix_of(final(self).cache_entries()),
            h.spec_kind() is Audio,
            is_random_uuid(h.spec_id()),
            final(self).audio_states() == old(self).audio_states().insert(
                h.spec_id(),
                AssetState::Loading,
            ),
            !old(self).audio_states().contains_key(h.spec_id()) ==> final(self).audio_states().len() == old(self).audio_states().len() + 1,
            final(self).pending_loads() == old(self).pending_loads().push(
                PendingLoad::Audio(h.spec_id(), old(self).resolved(path@)),
            ),
            final(self).root_path() == old(self).root_path(),
            final(self).texture_states() == old(self).texture_states(),
            final(self).cache_entries() == old(self).cache_entries(),
    {
        let full = self.full_path(path);
        let handle = AssetHandle::new(AssetKind::Audio);
        self.audio.insert(handle.id, AssetState::Loading);
        self.pending.push(LoadRequest::Audio { id: handle.id, path: full });
        assert(self.pending_loads() =~= old(self).pending_loads().push(
            PendingLoad::Audio(handle.id, full@),
        ));
        handle
    }

    /// Get an audio clip by handle (`None` unless it has loaded).
    pub fn audio(&self, handle: &AssetHandle) -> (r: Option<&A>)
        ensures
            r == match Self::ready_value(self.audio_states(), *handle) {
                Some(a) => Some(&a),
                None => None::<&A>,
            },
    {
        match self.audio.get(&handle.id) {
            Some(state) => state.get(),
            None => None,
        }
    }

    /// Hand out the loads to start, oldest first, and forget them.
    pub fn take_load_requests(&mut self) -> (r: Vec<LoadRequest>)
        ensures
            old(self).wf() ==> final(self).wf(),
            old(self).cache_entries().is_prefix_of(final(self).cache_entries()),
            r@.map_values(|q: LoadRequest| q@) == old(self).pending_loads(),
            final(self).pending_loads() == Seq::<PendingLoad>::empty(),
            final(self).root_path() == old(self).root_path(),
            final(self).texture_states() == old(self).texture_states(),
            final(self).audio_states() == old(self).audio_states(),
            final(self).cache_entries() == old(self).cache_entries(),
    {
        let mut r: Vec<LoadRequest> = Vec::new();
        std::mem::swap(&mut r, &mut self.pending);
        assert(self.pending_loads() =~= Seq::<PendingLoad>::empty());
        r
    }

    /// Apply the background loader's results in order: a success makes the
    /// asset ready, a failure records the message.
    pub fn tick(&mut self, results: Vec<LoadResult<A>>)
        ensures
            old(self).wf() ==> final(self).wf(),
            old(self).cache_entries().is_prefix_of(final(self).cache_entries()),
            (final(self).texture_states(), final(self).audio_states()) == apply_results(
                old(self).texture_states(),
                old(self).audio_states(),
                results@,
            ),
            final(self).root_path() == old(self).root_path(),
            final(self).cache_entries() == old(self).cache_entries(),
            final(self).pending_loads() == old(self).pending_loads(),
    {
        let ghost all = results@;
        let mut rest = results;
        let total = rest.len();
        let mut done: usize = 0;
        while rest.len() > 0
            invariant
                total == all.len(),
                done <= all.len(),
                rest@ == all.skip(done as int),
                (self.texture_states(), self.audio_states()) == apply_results(
                    old(self).texture_states(),
                    old(self).audio_states(),
                    all.take(done as int),
                ),
                self.root_path() == old(self).root_path(),
                self.cache_entries() == old(self).cache_entries(),
                self.pending_loads() == old(self).pending_loads(),
            decreases rest.len(),
        {
            let r = rest.remove(0);
            assert(all.take(done + 1).drop_last() =~= all.take(done as int));
            assert(rest@ =~= all.skip(done + 1));
            match r {
                LoadResult::Texture { id, result } => {
                    let state = match result {
                        Ok(t) => AssetState::Ready(t),
                        Err(e) => AssetState::Failed(e),
                    };
                    self.textures.insert(id, state);
                },
                LoadResult::Audio { id, result } => {
                    let state = match result {
                        Ok(a) => AssetState::Ready(a),
                        Err(e) => AssetState::Failed(e),
                    };
                    self.audio.insert(id, state);
                },
            }
            done += 1;
        }
        assert(all.take(done as int) =~= all);
        proof {
            lemma_apply_results_grows(old(self).texture_states(), old(self).audio_states(), all);
            assert(self.texture_states() == apply_results(old(self).texture_states(), old(self).audio_states(), all).0);
            assert(self.audio_states() == apply_results(old(self).texture_states(), old(self).audio_states(), all).1);
            if old(self).wf() {
                assert forall|i: int| 0 <= i < self.cache_entries().len() implies {
                    let h = (#[trigger] self.cache_entries()[i]).1;
                    &&& h.spec_kind() is Texture
                    &&& self.texture_states().contains_key(h.spec_id())
                } by {
                    let h = self.cache_entries()[i].1;
                    assert(old(self).cache_entries()[i] == self.cache_entries()[i]);
                    assert(old(self).texture_states().contains_key(h.spec_id()));
                    assert(apply_results(old(self).texture_states(), old(self).audio_states(), all).0.contains_key(h.spec_id()));
                }
                assert forall|i: int| 0 <= i < self.pending_loads().len() implies match #[trigger] self.pending_loads()[i] {
                    PendingLoad::Texture(id, _) => self.texture_states().contains_key(id),
                    PendingLoad::Audio(id, _) => self.audio_states().contains_key(id),
                } by {
                    assert(old(self).pending_loads()[i] == self.pending_loads()[i]);
                    match self.pending_loads()[i] {
                        PendingLoad::Texture(id, _) => {
                            assert(old(self).texture_states().contains_key(id));
                            assert(apply_results(old(self).texture_states(), old(self).audio_states(), all).0.contains_key(id));
                        },
                        PendingLoad::Audio(id, _) => {
                            assert(old(self).audio_states().contains_key(id));
                            assert(apply_results(old(self).texture_states(), old(self).audio_states(), all).1.contains_key(id));
                        },
                    }
                }
            }
        }
    }

    pub fn texture_count(&self) -> (n: usize)
        ensures
            n == self.texture_states().len(),
    {
        self.textures.len()
    }

    pub fn audio_count(&self) -> (n: usize)
        ensures
            n == self.audio_states().len(),
    {
        self.audio.len()
    }

    pub fn total_assets(&self) -> (n: usize)
        requires
            self.texture_states().len() + self.audio_states().len() <= usize::MAX,
        ensures
            n == self.texture_states().len() + self.audio_states().len(),
    {
        self.texture_count() + self.audio_count()
    }
}

// ─── Laws ────────────────────────────────────────────────────────────────────

/// Two states of a registry, the second after any calls that kept the root:
/// the cache of the first is where the second's begins.
pub open spec fn cache_kept<A>(before: AssetManager<A>, after: AssetManager<A>) -> bool {
    &&& before.cache_entries().is_prefix_of(after.cache_entries())
    &&& after.root_path() == before.root_path()
}

/// A path that is cached stays cached with the same handle through any run
/// of later calls that leave the root as it was (each call keeps the cache's
/// entries and adds at most one at the end), so loading that path again at
/// the end of the run gives back the handle it had at the start.
pub proof fn lemma_cached_path_stays_cached<A>(history: Seq<AssetManager<A>>, path: Seq<char>)
    requires
        history.len() > 0,
        forall|i: int| 0 <= i < history.len() - 1 ==> cache_kept(history[i], #[trigger] history[i + 1]),
        history[0].cached_for(path) is Some,
    ensures
        history.last().cached_for(path) == history[0].cached_for(path),
    decreases history.len(),
{
    if history.len() > 1 {
        let earlier = history.drop_last();
        assert forall|i: int| 0 <= i < earlier.len() - 1 implies cache_kept(earlier[i], #[trigger] earlier[i + 1]) by {
            assert(cache_kept(history[i], history[i + 1]));
        }
        lemma_cached_path_stays_cached(earlier, path);
        let j = history.len() - 2;
        let a = history[j];
        let b = history[j + 1];
        assert(cache_kept(a, b));
        assert(b == history.last());
        let key = path_key(a.resolved(path));
        let n = a.cache_entries().len() as int;
        assert(b.cache_entries().take(n) =~= a.cache_entries());
        lemma_cache_lookup_prefix(b.cache_entries(), n, key);
    }
}

/// Once a path has been loaded, it is cached: the entry added for it is what
/// a later load of the same path finds (and `load_texture` then hands back
/// that handle and changes nothing).
pub proof fn lemma_loaded_path_is_cached(
    entries: Seq<(PathKeyValue, AssetHandle)>,
    full: PathKeyValue,
    h: AssetHandle,
)
    requires
        cache_lookup(entries, full) is None,
    ensures
        cache_lookup(entries.push((full, h)), full) == Some(h),
{
    lemma_cache_lookup_push(entries, (full, h), full);
}

/// Caching one path leaves the handles cached for every other path as they were.
pub proof fn lemma_cache_keeps_other_paths(
    entries: Seq<(PathKeyValue, AssetHandle)>,
    full: PathKeyValue,
    h: AssetHandle,
    other: PathKeyValue,
)
    requires
        other != full,
    ensures
        cache_lookup(entries.push((full, h)), other) == cache_lookup(entries, other),
{
    lemma_cache_lookup_push(entries, (full, h), other);
}

/// A registered texture is what a lookup of its handle gives back.
pub proof fn lemma_registered_texture_is_ready<A>(
    textures: Map<u128, AssetState<Texture>>,
    h: AssetHandle,
    tex: Texture,
)
    ensures
        AssetManager::<A>::ready_value(textures.insert(h.spec_id(), AssetState::Ready(tex)), h)
            == Some(tex),
{
}

/// A texture that is still loading is not handed out.
pub proof fn lemma_loading_texture_is_absent<A>(
    textures: Map<u128, AssetState<Texture>>,
    h: AssetHandle,
)
    ensures
        AssetManager::<A>::ready_value(textures.insert(h.spec_id(), AssetState::Loading), h)
            is None,
{
}

/// After a tick, an asset's state is what its last reported result says:
/// ready with the value on success, failed with the message otherwise.
pub proof fn lemma_last_result_wins<A>(
    textures: Map<u128, AssetState<Texture>>,
    audio: Map<u128, AssetState<A>>,
    results: Seq<LoadResult<A>>,
    last: LoadResult<A>,
)
    ensures
        match last {
            LoadResult::Texture { id, result } => apply_results(
                textures,
                audio,
                results.push(last),
            ).0[id] == finished_state(result),
            LoadResult::Audio { id, result } => apply_results(
                textures,
                audio,
                results.push(last),
            ).1[id] == finished_state(result),
        },
{
    assert(results.push(last).drop_last() =~= results);
}

/// A tick with no results changes nothing.
pub proof fn lemma_empty_tick<A>(
    textures: Map<u128, AssetState<Texture>>,
    audio: Map<u128, AssetState<A>>,
)
    ensures
        apply_results(textures, audio, Seq::<LoadResult<A>>::empty()) == (textures, audio),
{
}

} // verus!
