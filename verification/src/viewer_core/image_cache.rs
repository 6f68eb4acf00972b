//! The LRU cache of decoded images, bounded by an estimate of their size in
//! memory, with hit and miss counters.
use crate::viewer_core::image_loader::{
    bytes_per_pixel, color_bytes_per_pixel, color_of, dimensions_of, image_color,
    image_dimensions, is_empty_animation, AnimatedFrame, LoadedImage,
};
use crate::viewer_core::lru::{
    evict_spec, key_index, keys_of, law_evict_drops_least_recent_only, promote, put_front,
    string_views, without_key, LruCache,
};
use image::{ColorType, DynamicImage};
use vstd::prelude::*;

verus! {

/// The default limit of the image cache, in mebibytes.
pub const DEFAULT_MEMORY_LIMIT_MB: u64 = 512;

/// `a * b`, saturating at `u64::MAX`.
pub open spec fn sat_mul(a: int, b: int) -> int {
    if a * b > u64::MAX {
        u64::MAX as int
    } else {
        a * b
    }
}

/// `a + b`, saturating at `u64::MAX`.
pub open spec fn sat_add(a: int, b: int) -> int {
    if a + b > u64::MAX {
        u64::MAX as int
    } else {
        a + b
    }
}

/// Estimated size of an image in memory: width × height × bytes per pixel,
/// saturating.
pub open spec fn estimate_bytes_spec(img: DynamicImage) -> int {
    sat_mul(
        sat_mul(image_dimensions(img).0 as int, image_dimensions(img).1 as int),
        color_bytes_per_pixel(image_color(img)) as int,
    )
}

/// Summed estimate of the frames of an animation, saturating.
pub open spec fn frames_bytes(frames: Seq<AnimatedFrame>) -> int
    decreases frames.len(),
{
    if frames.len() == 0 {
        0
    } else {
        sat_add(frames_bytes(frames.drop_last()), estimate_bytes_spec(frames.last().image))
    }
}

/// Estimated size of a decoded image: the sum over its frames.
pub open spec fn estimate_loaded_spec(img: LoadedImage) -> int {
    match img {
        LoadedImage::Static(i) => estimate_bytes_spec(i),
        LoadedImage::Animated(a) => frames_bytes(a.frames@),
    }
}

/// Estimated size of `image` in bytes.
pub fn estimate_bytes(image: &DynamicImage) -> (r: u64)
    ensures
        r == estimate_bytes_spec(*image),
{
    let (w, h) = dimensions_of(image);
    let bpp = bytes_per_pixel(color_of(image));
    let wh = match (w as u64).checked_mul(h as u64) {
        Some(v) => v,
        None => u64::MAX,
    };
    match wh.checked_mul(bpp as u64) {
        Some(v) => v,
        None => u64::MAX,
    }
}

/// Estimated size of `image` in bytes, summed over its frames.
pub fn estimate_loaded_bytes(image: &LoadedImage) -> (r: u64)
    ensures
        r == estimate_loaded_spec(*image),
{
    match image {
        LoadedImage::Static(img) => estimate_bytes(img),
        LoadedImage::Animated(anim) => {
            let mut total: u64 = 0;
            let mut i: usize = 0;
            while i < anim.frames.len()
                invariant
                    i <= anim.frames@.len(),
                    total == frames_bytes(anim.frames@.take(i as int)),
                decreases anim.frames@.len() - i,
            {
                let b = estimate_bytes(&anim.frames[i].image);
                proof {
                    assert(anim.frames@.take(i + 1).drop_last() =~= anim.frames@.take(i as int));
                }
                total = total.saturating_add(b);
                i = i + 1;
            }
            proof {
                assert(anim.frames@.take(i as int) =~= anim.frames@);
            }
            total
        },
    }
}

/// What an insertion did: whether the image is now cached and which paths
/// were evicted to make room, the least recently used first.
pub struct InsertResult {
    pub cached: bool,
    pub evicted_keys: Vec<String>,
}

/// No entry of `s` is an animation without frames.
pub open spec fn no_empty_animation(s: Seq<(Seq<char>, LoadedImage, u64)>) -> bool {
    forall|i: int| 0 <= i < s.len() ==> !is_empty_animation(#[trigger] s[i].1)
}

proof fn lemma_without_key_no_empty(s: Seq<(Seq<char>, LoadedImage, u64)>, k: Seq<char>)
    requires
        no_empty_animation(s),
    ensures
        no_empty_animation(without_key(s, k)),
    decreases s.len(),
{
    if s.len() > 0 {
        let t = s.drop_last();
        assert forall|i: int| 0 <= i < t.len() implies !is_empty_animation(#[trigger] t[i].1) by {
            assert(t[i] == s[i]);
        }
        lemma_without_key_no_empty(t, k);
        if s.last().0 != k {
            let w = without_key(t, k).push(s.last());
            assert forall|i: int| 0 <= i < w.len() implies !is_empty_animation(#[trigger] w[i].1) by {
                if i < w.len() - 1 {
                    assert(w[i] == without_key(t, k)[i]);
                }
            }
        }
    }
}

proof fn lemma_insert_no_empty(
    s: Seq<(Seq<char>, LoadedImage, u64)>,
    k: Seq<char>,
    v: LoadedImage,
    b: u64,
    limit: int,
)
    requires
        no_empty_animation(s),
        !is_empty_animation(v),
        limit >= 0,
    ensures
        no_empty_animation(evict_spec(put_front(s, k, v, b), limit).0),
{
    let w = without_key(s, k);
    let u = put_front(s, k, v, b);
    lemma_without_key_no_empty(s, k);
    assert forall|i: int| 0 <= i < u.len() implies !is_empty_animation(#[trigger] u[i].1) by {
        if i > 0 {
            assert(u[i] == w[i - 1]);
        }
    }
    law_evict_drops_least_recent_only(u, limit);
    let kept = evict_spec(u, limit).0;
    assert forall|i: int| 0 <= i < kept.len() implies !is_empty_animation(#[trigger] kept[i].1) by {
        assert(kept[i] == u[i]);
    }
}

proof fn lemma_promote_no_empty(s: Seq<(Seq<char>, LoadedImage, u64)>, k: Seq<char>)
    requires
        no_empty_animation(s),
        keys_of(s).contains(k),
    ensures
        no_empty_animation(promote(s, k)),
{
    let j = choose|j: int| 0 <= j < keys_of(s).len() && keys_of(s)[j] == k;
    assert(s[j].0 == k);
    let i = key_index(s, k);
    let p = promote(s, k);
    assert forall|x: int| 0 <= x < p.len() implies !is_empty_animation(#[trigger] p[x].1) by {
        if x == 0 {
            assert(p[0] == s[i]);
        } else if x - 1 < i {
            assert(p[x] == s[x - 1]);
        } else {
            assert(p[x] == s[x]);
        }
    }
}

/// An LRU cache of decoded images keyed by path, bounded in bytes.
pub struct ImageCache {
    core: LruCache<LoadedImage>,
    hit_count: u64,
    miss_count: u64,
}

impl ImageCache {
    /// The cache's invariant: the list is well formed, its summed size is
    /// within the limit, and no entry is an animation without frames.
    #[verifier::type_invariant]
    spec fn inv(self) -> bool {
        &&& self.core.wf()
        &&& no_empty_animation(self.core.entries())
    }

    /// The cached images `(path, image, estimated bytes)`, from the most to
    /// the least recently used.
    pub closed spec fn entries(&self) -> Seq<(Seq<char>, LoadedImage, u64)> {
        self.core.entries()
    }

    /// The limit in mebibytes.
    pub closed spec fn limit_mb(&self) -> u64 {
        self.core.limit_mb()
    }

    /// The limit in bytes.
    pub open spec fn limit(&self) -> int {
        crate::viewer_core::lru::limit_of(self.limit_mb())
    }

    /// Lookups that found their path.
    pub closed spec fn hits(&self) -> u64 {
        self.hit_count
    }

    /// Lookups that did not find their path.
    pub closed spec fn misses(&self) -> u64 {
        self.miss_count
    }

    /// An empty cache bounded by `memory_limit_mb` mebibytes.
    pub fn new(memory_limit_mb: u64) -> (r: Self)
        ensures
            r.entries() == Seq::<(Seq<char>, LoadedImage, u64)>::empty(),
            r.limit_mb() == memory_limit_mb,
            r.hits() == 0,
            r.misses() == 0,
    {
        ImageCache { core: LruCache::new(memory_limit_mb), hit_count: 0, miss_count: 0 }
    }

    /// Caches `image` under `path` as the most recently used entry.
    ///
    /// An animation without frames, or an image whose estimate exceeds the
    /// whole limit, is not cached and nothing changes. Otherwise an entry for
    /// `path` is replaced and the least recently used entries are evicted
    /// until the total fits.
    pub fn insert_loaded(&mut self, path: String, image: LoadedImage) -> (r: InsertResult)
        requires
            old(self).entries().len() + 1 < usize::MAX,
        ensures
            final(self).limit_mb() == old(self).limit_mb(),
            final(self).hits() == old(self).hits(),
            final(self).misses() == old(self).misses(),
            r.cached == (!is_empty_animation(image) && estimate_loaded_spec(image) <= old(
                self,
            ).limit()),
            !r.cached ==> r.evicted_keys@.len() == 0 && final(self).entries() == old(self).entries(),
            r.cached ==> final(self).entries() == evict_spec(
                put_front(old(self).entries(), path@, image, estimate_loaded_spec(image) as u64),
                old(self).limit(),
            ).0 && string_views(r.evicted_keys@) == evict_spec(
                put_front(old(self).entries(), path@, image, estimate_loaded_spec(image) as u64),
                old(self).limit(),
            ).1,
    {
        proof {
            use_type_invariant(&*self);
        }
        let empty_animation = match &image {
            LoadedImage::Animated(anim) => anim.frames.len() == 0,
            LoadedImage::Static(_) => false,
        };
        if empty_animation {
            return InsertResult { cached: false, evicted_keys: Vec::new() };
        }
        let bytes = estimate_loaded_bytes(&image);
        if bytes > self.core.limit_bytes() {
            return InsertResult { cached: false, evicted_keys: Vec::new() };
        }
        let ghost e0 = self.core.entries();
        let ghost k = path@;
        let ghost v = image;
        let mut core = LruCache::new(0);
        std::mem::swap(&mut core, &mut self.core);
        let evicted_keys = core.insert(path, image, bytes);
        proof {
            lemma_insert_no_empty(e0, k, v, bytes, core.limit());
        }
        self.core = core;
        InsertResult { cached: true, evicted_keys }
    }

    /// Caches a still image under `path`; see `insert_loaded`.
    pub fn insert(&mut self, path: String, image: DynamicImage) -> (r: InsertResult)
        requires
            old(self).entries().len() + 1 < usize::MAX,
        ensures
            final(self).limit_mb() == old(self).limit_mb(),
            final(self).hits() == old(self).hits(),
            final(self).misses() == old(self).misses(),
            r.cached == (estimate_bytes_spec(image) <= old(self).limit()),
            !r.cached ==> r.evicted_keys@.len() == 0 && final(self).entries() == old(self).entries(),
            r.cached ==> final(self).entries() == evict_spec(
                put_front(
                    old(self).entries(),
                    path@,
                    LoadedImage::Static(image),
                    estimate_bytes_spec(image) as u64,
                ),
                old(self).limit(),
            ).0 && string_views(r.evicted_keys@) == evict_spec(
                put_front(
                    old(self).entries(),
                    path@,
                    LoadedImage::Static(image),
                    estimate_bytes_spec(image) as u64,
                ),
                old(self).limit(),
            ).1,
    {
        self.insert_loaded(path, LoadedImage::Static(image))
    }

    /// The image cached under `path`, which becomes the most recently used
    /// entry; it is never an animation without frames. Counts a hit when
    /// found and a miss otherwise (saturating).
    pub fn get(&mut self, path: &str) -> (r: Option<&LoadedImage>)
        ensures
            final(self).limit_mb() == old(self).limit_mb(),
            r is Some == keys_of(old(self).entries()).contains(path@),
            r is Some ==> final(self).entries() == promote(old(self).entries(), path@) && *r->0
                == final(self).entries()[0].1,
            r matches Some(v) ==> !is_empty_animation(*v),
            r is Some ==> final(self).hits() == (if old(self).hits() == u64::MAX {
                u64::MAX
            } else {
                (old(self).hits() + 1) as u64
            }) && final(self).misses() == old(self).misses(),
            r is None ==> final(self).entries() == old(self).entries() && final(self).hits() == old(
                self,
            ).hits() && final(self).misses() == (if old(self).misses() == u64::MAX {
                u64::MAX
            } else {
                (old(self).misses() + 1) as u64
            }),
    {
        proof {
            use_type_invariant(&*self);
        }
        let ghost e0 = self.core.entries();
        let mut core = LruCache::new(0);
        std::mem::swap(&mut core, &mut self.core);
        let found = core.promote_key(path);
        proof {
            if found {
                lemma_promote_no_empty(e0, path@);
            }
        }
        self.core = core;
        if found {
            self.hit_count = self.hit_count.saturating_add(1);
            self.core.front_value()
        } else {
            self.miss_count = self.miss_count.saturating_add(1);
            None
        }
    }

    /// `true` when `path` is cached; neither the order of use nor the
    /// counters change.
    pub fn contains(&self, path: &str) -> (r: bool)
        ensures
            r == keys_of(self.entries()).contains(path@),
    {
        proof {
            use_type_invariant(self);
        }
        self.core.contains(path)
    }

    /// The number of cached images; no path is cached twice.
    pub fn len(&self) -> (r: usize)
        ensures
            r == self.entries().len(),
            crate::viewer_core::lru::unique_keys(self.entries()),
    {
        proof {
            use_type_invariant(self);
            self.core.lemma_wf();
        }
        self.core.len()
    }

    /// `true` when nothing is cached.
    pub fn is_empty(&self) -> (r: bool)
        ensures
            r == (self.entries().len() == 0),
    {
        proof {
            use_type_invariant(self);
        }
        self.core.len() == 0
    }

    /// The summed estimate of the cached images, in bytes; it never exceeds
    /// the limit.
    pub fn memory_used(&self) -> (r: u64)
        ensures
            r == crate::viewer_core::lru::total_bytes(self.entries()),
            r <= self.limit(),
    {
        proof {
            use_type_invariant(self);
            self.core.lemma_wf();
        }
        self.core.memory_used()
    }

    /// The limit in mebibytes.
    pub fn memory_limit_mb(&self) -> (r: u64)
        ensures
            r == self.limit_mb(),
    {
        self.core.memory_limit_mb()
    }

    /// Lookups that found their path.
    pub fn hit_count(&self) -> (r: u64)
        ensures
            r == self.hits(),
    {
        self.hit_count
    }

    /// Lookups that did not find their path.
    pub fn miss_count(&self) -> (r: u64)
        ensures
            r == self.misses(),
    {
        self.miss_count
    }
}

impl Default for ImageCache {
    fn default() -> (r: Self)
        ensures
            r.entries() == Seq::<(Seq<char>, LoadedImage, u64)>::empty(),
            r.limit_mb() == DEFAULT_MEMORY_LIMIT_MB,
            r.hits() == 0,
            r.misses() == 0,
    {
        Self::new(DEFAULT_MEMORY_LIMIT_MB)
    }
}

/// `v`, capped at `u64::MAX`.
pub open spec fn capped(v: int) -> int {
    if v > u64::MAX {
        u64::MAX as int
    } else {
        v
    }
}

/// Law: an image is estimated at its pixel count times the bytes of one
/// pixel of its colour type, capped at `u64::MAX`: one byte for 8-bit
/// grey, two for 16-bit grey or 8-bit grey with alpha, three for 8-bit RGB,
/// four for 8-bit RGBA or 16-bit grey with alpha, six for 16-bit RGB, eight
/// for 16-bit RGBA, twelve and sixteen for 32-bit float RGB and RGBA.
pub proof fn law_estimate_is_pixels_times_pixel_bytes(img: DynamicImage)
    ensures
        ({
            let (w, h) = image_dimensions(img);
            let px = w * h;
            let c = image_color(img);
            &&& c == ColorType::L8 ==> estimate_bytes_spec(img) == capped(px)
            &&& (c == ColorType::L16 || c == ColorType::La8) ==> estimate_bytes_spec(img)
                == capped(2 * px)
            &&& c == ColorType::Rgb8 ==> estimate_bytes_spec(img) == capped(3 * px)
            &&& (c == ColorType::Rgba8 || c == ColorType::La16) ==> estimate_bytes_spec(img)
                == capped(4 * px)
            &&& c == ColorType::Rgb16 ==> estimate_bytes_spec(img) == capped(6 * px)
            &&& c == ColorType::Rgba16 ==> estimate_bytes_spec(img) == capped(8 * px)
            &&& c == ColorType::Rgb32F ==> estimate_bytes_spec(img) == capped(12 * px)
            &&& c == ColorType::Rgba32F ==> estimate_bytes_spec(img) == capped(16 * px)
        }),
{
    let (w, h) = image_dimensions(img);
    assert(w * h <= 0xfffffffe00000001) by (nonlinear_arith)
        requires
            w <= 0xffffffff,
            h <= 0xffffffff,
    ;
    assert(w * h >= 0) by (nonlinear_arith);
}

/// Law: a still grey 8-bit image of `w` by `h` pixels is estimated at
/// exactly `w * h` bytes.
pub proof fn law_grey_image_takes_one_byte_per_pixel(img: DynamicImage)
    requires
        image_color(img) == ColorType::L8,
    ensures
        estimate_loaded_spec(LoadedImage::Static(img)) == image_dimensions(img).0
            * image_dimensions(img).1,
{
    law_estimate_is_pixels_times_pixel_bytes(img);
    let (w, h) = image_dimensions(img);
    assert(w * h <= 0xfffffffe00000001) by (nonlinear_arith)
        requires
            w <= 0xffffffff,
            h <= 0xffffffff,
    ;
}

/// Law: an animation is estimated at the sum of its frames' estimates,
/// capped at `u64::MAX`: nothing for no frame, the frame's own estimate for
/// one, and one more frame adds its estimate.
pub proof fn law_animation_counts_every_frame(frames: Seq<AnimatedFrame>, extra: AnimatedFrame)
    ensures
        frames_bytes(Seq::<AnimatedFrame>::empty()) == 0,
        frames_bytes(seq![extra]) == estimate_bytes_spec(extra.image),
        frames_bytes(frames.push(extra)) == capped(frames_bytes(frames) + estimate_bytes_spec(
            extra.image,
        )),
{
    lemma_estimate_in_range(extra.image);
    assert(seq![extra].drop_last() =~= Seq::<AnimatedFrame>::empty());
    assert(frames_bytes(seq![extra].drop_last()) == 0);
    assert(seq![extra].last() == extra);
    assert(frames.push(extra).drop_last() =~= frames);
}

proof fn lemma_estimate_in_range(img: DynamicImage)
    ensures
        0 <= estimate_bytes_spec(img) <= u64::MAX,
{
    let (w, h) = image_dimensions(img);
    assert(w * h >= 0) by (nonlinear_arith);
    assert(w * h * color_bytes_per_pixel(image_color(img)) >= 0) by (nonlinear_arith)
        requires
            w * h >= 0,
    ;
}

} // verus!
