//! The LRU cache of decoded thumbnails, bounded by an estimate of their size
//! in memory.
use crate::viewer_core::image_cache::{estimate_bytes, estimate_bytes_spec};
use crate::viewer_core::lru::{evict_spec, keys_of, promote, put_front, LruCache};
use image::DynamicImage;
use vstd::prelude::*;

verus! {

/// The default limit of the thumbnail cache, in mebibytes.
pub const DEFAULT_LIMIT_MB: u64 = 64;

/// An LRU cache of thumbnails keyed by path, bounded in bytes.
pub struct ThumbnailCache {
    core: LruCache<DynamicImage>,
}

impl ThumbnailCache {
    /// The cache's invariant: the list is well formed and its summed size is
    /// within the limit.
    #[verifier::type_invariant]
    spec fn inv(self) -> bool {
        self.core.wf()
    }

    /// The cached thumbnails `(path, image, estimated bytes)`, from the most
    /// to the least recently used.
    pub closed spec fn entries(&self) -> Seq<(Seq<char>, DynamicImage, u64)> {
        self.core.entries()
    }

    /// The limit in mebibytes.
    pub closed spec fn limit_mb(&self) -> u64 {
        self.core.limit_mb()
    }

    /// The limit in bytes.
    pub open spec fn limit(&self) -> int {
        crate::viewer_core::lru::limit_of(self.limit_mb())
    }

    /// An empty cache bounded by 64 MiB.
    pub fn new() -> (r: Self)
        ensures
            r.entries() == Seq::<(Seq<char>, DynamicImage, u64)>::empty(),
            r.limit_mb() == DEFAULT_LIMIT_MB,
    {
        Self::with_limit(DEFAULT_LIMIT_MB)
    }

    /// An empty cache bounded by `memory_limit_mb` mebibytes.
    pub fn with_limit(memory_limit_mb: u64) -> (r: Self)
        ensures
            r.entries() == Seq::<(Seq<char>, DynamicImage, u64)>::empty(),
            r.limit_mb() == memory_limit_mb,
    {
        ThumbnailCache { core: LruCache::new(memory_limit_mb) }
    }

    /// Caches `image` under `path` as the most recently used entry. A
    /// thumbnail whose estimate exceeds the whole limit is not cached;
    /// otherwise an entry for `path` is replaced and the least recently used
    /// entries are evicted until the total fits.
    pub fn insert(&mut self, path: String, image: DynamicImage)
        requires
            old(self).entries().len() + 1 < usize::MAX,
        ensures
            final(self).limit_mb() == old(self).limit_mb(),
            estimate_bytes_spec(image) > old(self).limit() ==> final(self).entries() == old(
                self,
            ).entries(),
            estimate_bytes_spec(image) <= old(self).limit() ==> final(self).entries() == evict_spec(
                put_front(old(self).entries(), path@, image, estimate_bytes_spec(image) as u64),
                old(self).limit(),
            ).0,
    {
        proof {
            use_type_invariant(&*self);
        }
        let bytes = estimate_bytes(&image);
        if bytes > self.core.limit_bytes() {
            return ;
        }
        let mut core = LruCache::new(0);
        std::mem::swap(&mut core, &mut self.core);
        let _evicted = core.insert(path, image, bytes);
        self.core = core;
    }

    /// The thumbnail cached under `path`, which becomes the most recently
    /// used entry.
    pub fn get(&mut self, path: &str) -> (r: Option<&DynamicImage>)
        ensures
            final(self).limit_mb() == old(self).limit_mb(),
            r is Some == keys_of(old(self).entries()).contains(path@),
            r is Some ==> final(self).entries() == promote(old(self).entries(), path@) && *r->0
                == final(self).entries()[0].1,
            r is None ==> final(self).entries() == old(self).entries(),
    {
        proof {
            use_type_invariant(&*self);
        }
        let mut core = LruCache::new(0);
        std::mem::swap(&mut core, &mut self.core);
        let found = core.promote_key(path);
        self.core = core;
        if found {
            self.core.front_value()
        } else {
            None
        }
    }

    /// `true` when `path` is cached; the order of use does not change.
    pub fn contains(&self, path: &str) -> (r: bool)
        ensures
            r == keys_of(self.entries()).contains(path@),
    {
        proof {
            use_type_invariant(self);
        }
        self.core.contains(path)
    }

    /// Removes every thumbnail.
    pub fn clear(&mut self)
        ensures
            final(self).entries() == Seq::<(Seq<char>, DynamicImage, u64)>::empty(),
            final(self).limit_mb() == old(self).limit_mb(),
    {
        let mut core = LruCache::new(0);
        std::mem::swap(&mut core, &mut self.core);
        core.clear();
        self.core = core;
    }

    /// The number of cached thumbnails; no path is cached twice.
    pub fn len(&self) -> (r: usize)
        ensures
            r == self.entries().len(),
            crate::viewer_core::lru::unique_keys(self.entries()),
    {
        proof {
            use_type_invariant(self);
            self.core.lemma_wf();
        }
        self.core.len()
    }

    /// `true` when nothing is cached.
    pub fn is_empty(&self) -> (r: bool)
        ensures
            r == (self.entries().len() == 0),
    {
        proof {
            use_type_invariant(self);
        }
        self.core.len() == 0
    }

    /// The summed estimate of the cached thumbnails, in bytes; it never
    /// exceeds the limit.
    pub fn memory_used(&self) -> (r: u64)
        ensures
            r == crate::viewer_core::lru::total_bytes(self.entries()),
            r <= self.limit(),
    {
        proof {
            use_type_invariant(self);
            self.core.lemma_wf();
        }
        self.core.memory_used()
    }

    /// The limit in mebibytes.
    pub fn memory_limit_mb(&self) -> (r: u64)
        ensures
            r == self.limit_mb(),
    {
        self.core.memory_limit_mb()
    }
}

impl Default for ThumbnailCache {
    /// An empty cache with a limit of zero.
    fn default() -> (r: Self)
        ensures
            r.entries() == Seq::<(Seq<char>, DynamicImage, u64)>::empty(),
            r.limit_mb() == 0,
    {
        Self::with_limit(0)
    }
}

} // verus!
