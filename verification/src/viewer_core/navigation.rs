//! Navigation between the images of a folder.
use crate::utils::text::{
    eq_ignore_ascii_case, eq_ignore_ascii_case_spec, extension, extension_spec, str_eq,
};
use vstd::prelude::*;
use vstd::seq_lib::{to_multiset_build, to_multiset_insert};

verus! {

/// The image extensions the viewer opens (without the dot; compared
/// without ASCII case).
pub const SUPPORTED_EXTENSIONS: [&'static str; 9] = [
    "png",
    "jpg",
    "jpeg",
    "gif",
    "bmp",
    "webp",
    "tiff",
    "tif",
    "avif",
];

/// The images of a folder, sorted, and the one on screen.
#[derive(Debug)]
pub struct Navigation {
    /// Paths of the images, in order.
    pub images: Vec<String>,
    /// Index of the current image.
    pub current: usize,
}

/// The views of the strings of `s`.
pub open spec fn views(s: Seq<String>) -> Seq<Seq<char>> {
    s.map_values(|p: String| p@)
}

/// `path` has an extension that equals one of `exts` without ASCII case.
pub open spec fn has_supported_extension_spec(path: Seq<char>, exts: Seq<Seq<char>>) -> bool {
    match extension_spec(path) {
        Some(e) => exists|i: int| 0 <= i < exts.len() && eq_ignore_ascii_case_spec(exts[i], e),
        None => false,
    }
}

/// `true` when `path` has an extension listed in `supported_exts`, compared
/// without ASCII case.
pub fn has_supported_extension(path: &str, supported_exts: &[&str]) -> (r: bool)
    ensures
        r == has_supported_extension_spec(
            path@,
            supported_exts@.map_values(|e: &str| e@),
        ),
{
    let ghost exts = supported_exts@.map_values(|e: &str| e@);
    match extension(path) {
        Some(ext) => {
            let mut i: usize = 0;
            while i < supported_exts.len()
                invariant
                    i <= supported_exts@.len(),
                    exts == supported_exts@.map_values(|e: &str| e@),
                    extension_spec(path@) == Some(ext@),
                    forall|k: int| 0 <= k < i ==> !eq_ignore_ascii_case_spec(exts[k], ext@),
                decreases supported_exts@.len() - i,
            {
                if eq_ignore_ascii_case(supported_exts[i], ext.as_str()) {
                    assert(eq_ignore_ascii_case_spec(exts[i as int], ext@));
                    return true;
                }
                i = i + 1;
            }
            false
        },
        None => false,
    }
}

/// `a` comes before `b` or equals it, comparing characters by code point
/// (a prefix comes first). For the paths of one folder this is the order
/// of their file names.
pub open spec fn lex_le(a: Seq<char>, b: Seq<char>) -> bool
    decreases a.len(),
{
    if a.len() == 0 {
        true
    } else if b.len() == 0 {
        false
    } else if a[0] != b[0] {
        a[0] < b[0]
    } else {
        lex_le(a.drop_first(), b.drop_first())
    }
}

pub proof fn lemma_lex_total(a: Seq<char>, b: Seq<char>)
    ensures
        lex_le(a, b) || lex_le(b, a),
        lex_le(a, b) && lex_le(b, a) ==> a == b,
    decreases a.len(),
{
    if a.len() > 0 && b.len() > 0 && a[0] == b[0] {
        lemma_lex_total(a.drop_first(), b.drop_first());
        if lex_le(a, b) && lex_le(b, a) {
            assert(a =~= seq![a[0]] + a.drop_first());
            assert(b =~= seq![b[0]] + b.drop_first());
        }
    }
    if a.len() == 0 && b.len() == 0 {
        assert(a =~= b);
    }
}

pub proof fn lemma_lex_trans(a: Seq<char>, b: Seq<char>, c: Seq<char>)
    requires
        lex_le(a, b),
        lex_le(b, c),
    ensures
        lex_le(a, c),
    decreases a.len(),
{
    if a.len() > 0 && b.len() > 0 && c.len() > 0 && a[0] == b[0] && b[0] == c[0] {
        lemma_lex_trans(a.drop_first(), b.drop_first(), c.drop_first());
    }
}

/// `lex_le(a, b)`.
fn str_le(a: &str, b: &str) -> (r: bool)
    ensures
        r == lex_le(a@, b@),
{
    let n = a.unicode_len();
    let m = b.unicode_len();
    let mut i: usize = 0;
    assert(a@.skip(0) =~= a@);
    assert(b@.skip(0) =~= b@);
    while i < n && i < m
        invariant
            n == a@.len(),
            m == b@.len(),
            i <= n,
            i <= m,
            lex_le(a@, b@) == lex_le(a@.skip(i as int), b@.skip(i as int)),
        decreases n - i,
    {
        let x = a.get_char(i);
        let y = b.get_char(i);
        proof {
            assert(a@.skip(i as int)[0] == x);
            assert(b@.skip(i as int)[0] == y);
        }
        if x != y {
            return x < y;
        }
        proof {
            assert(a@.skip(i as int).drop_first() =~= a@.skip(i + 1));
            assert(b@.skip(i as int).drop_first() =~= b@.skip(i + 1));
        }
        i = i + 1;
    }
    assert(a@.skip(i as int).len() == n - i);
    assert(b@.skip(i as int).len() == m - i);
    i == n
}

/// The paths are in `lex_le` order.
pub open spec fn sorted_paths(s: Seq<Seq<char>>) -> bool {
    forall|i: int, j: int| 0 <= i < j < s.len() ==> lex_le(#[trigger] s[i], #[trigger] s[j])
}

/// The index of `p` in `s`, or 0 when it is not there.
pub open spec fn position_or_zero(s: Seq<Seq<char>>, p: Seq<char>) -> int {
    if exists|i: int| 0 <= i < s.len() && s[i] == p {
        choose|i: int| 0 <= i < s.len() && s[i] == p && forall|k: int| 0 <= k < i ==> s[k] != p
    } else {
        0
    }
}

/// The paths of `s` that have a supported extension, in order.
pub open spec fn supported_only(s: Seq<Seq<char>>, exts: Seq<Seq<char>>) -> Seq<Seq<char>> {
    s.filter(|p: Seq<char>| has_supported_extension_spec(p, exts))
}

impl Navigation {
    /// The navigation over the files `files` of the folder of `image_path`:
    /// those with a supported extension, sorted, with the current image at
    /// `image_path` (or the first one when it is not among them).
    #[verifier::rlimit(40)]
    #[verifier::spinoff_prover]
    pub fn from_listing(image_path: &str, files: Vec<String>, supported_exts: &[&str]) -> (r: Self)
        ensures
            sorted_paths(views(r.images@)),
            views(r.images@).to_multiset() == supported_only(
                views(files@),
                supported_exts@.map_values(|e: &str| e@),
            ).to_multiset(),
            r.current == position_or_zero(views(r.images@), image_path@),
    {
        let ghost exts = supported_exts@.map_values(|e: &str| e@);
        let mut images: Vec<String> = Vec::new();
        let mut i: usize = 0;
        proof {
            reveal(Seq::filter);
            assert(views(files@.take(0)) =~= Seq::<Seq<char>>::empty());
            assert(views(images@) =~= Seq::<Seq<char>>::empty());
            assert(supported_only(views(files@.take(0)), exts) =~= Seq::<Seq<char>>::empty());
        }
        while i < files.len()
            invariant
                i <= files@.len(),
                exts == supported_exts@.map_values(|e: &str| e@),
                sorted_paths(views(images@)),
                views(images@).to_multiset() == supported_only(views(files@.take(i as int)), exts).to_multiset(),
            decreases files@.len() - i,
        {
            let ghost prev = views(files@.take(i as int));
            let ghost x = files@[i as int]@;
            let ghost cur = prev.push(x);
            proof {
                assert(views(files@.take(i + 1)) =~= cur);
                assert(cur.drop_last() =~= prev);
                assert(cur.last() == x);
                reveal(Seq::filter);
                assert(supported_only(cur, exts) == if has_supported_extension_spec(x, exts) {
                    supported_only(prev, exts).push(x)
                } else {
                    supported_only(prev, exts)
                });
                to_multiset_build(supported_only(prev, exts), x);
            }
            if has_supported_extension(files[i].as_str(), supported_exts) {
                let mut pos: usize = 0;
                while pos < images.len() && str_le(images[pos].as_str(), files[i].as_str())
                    invariant
                        pos <= images@.len(),
                        i < files@.len(),
                        forall|k: int| 0 <= k < pos ==> lex_le(views(images@)[k], files@[i as int]@),
                    decreases images@.len() - pos,
                {
                    pos = pos + 1;
                }
                let ghost old_images = images@;
                let p = files[i].clone();
                images.insert(pos, p);
                proof {
                    let x = files@[i as int]@;
                    let o = views(old_images);
                    let nv = views(images@);
                    assert(nv =~= o.insert(pos as int, x));
                    to_multiset_insert(o, pos as int, x);
                    if pos < o.len() {
                        lemma_lex_total(o[pos as int], x);
                    }
                    assert forall|a: int, b: int| 0 <= a < b < nv.len() implies lex_le(
                        #[trigger] nv[a],
                        #[trigger] nv[b],
                    ) by {
                        if b < pos {
                            assert(nv[a] == o[a] && nv[b] == o[b]);
                        } else if b == pos {
                            assert(nv[a] == o[a]);
                        } else if a == pos {
                            assert(nv[b] == o[b - 1]);
                            if b - 1 > pos {
                                lemma_lex_trans(x, o[pos as int], o[b - 1]);
                            }
                        } else if a < pos {
                            assert(nv[a] == o[a] && nv[b] == o[b - 1]);
                            lemma_lex_trans(o[a], x, o[pos as int]);
                            if b - 1 > pos {
                                lemma_lex_trans(o[a], o[pos as int], o[b - 1]);
                            }
                        } else {
                            assert(nv[a] == o[a - 1] && nv[b] == o[b - 1]);
                        }
                    }
                }
            }
            i = i + 1;
        }
        proof {
            assert(files@.take(i as int) =~= files@);
        }
        let mut current: usize = 0;
        let mut k: usize = 0;
        while k < images.len()
            invariant
                k <= images@.len(),
                current == 0,
                sorted_paths(views(images@)),
                views(images@).to_multiset() == supported_only(views(files@), exts).to_multiset(),
                exts == supported_exts@.map_values(|e: &str| e@),
                forall|j: int| 0 <= j < k ==> views(images@)[j] != image_path@,
            decreases images@.len() - k,
        {
            if str_eq(images[k].as_str(), image_path) {
                current = k;
                proof {
                    let s = views(images@);
                    assert(s[k as int] == image_path@);
                    let c = choose|c: int|
                        0 <= c < s.len() && s[c] == image_path@ && forall|j: int| 0 <= j < c ==> s[j] != image_path@;
                    assert(c == k) by {
                        if c < k {
                            assert(s[c] != image_path@);
                        }
                        if c > k {
                            assert(s[k as int] != image_path@);
                        }
                    }
                }
                return Navigation { images, current };
            }
            k = k + 1;
        }
        proof {
            let s = views(images@);
            assert(!(exists|j: int| 0 <= j < s.len() && s[j] == image_path@));
        }
        Navigation { images, current }
    }

    /// Moves to the next image, wrapping from the last to the first. Does
    /// nothing when there are no images.
    pub fn next(&mut self)
        requires
            old(self).images@.len() > 0 ==> old(self).current < usize::MAX,
        ensures
            final(self).images@ == old(self).images@,
            old(self).images@.len() == 0 ==> final(self).current == old(self).current,
            old(self).images@.len() > 0 ==> final(self).current == (old(self).current + 1) % (old(
                self,
            ).images@.len() as int),
            old(self).current + 1 < old(self).images@.len() ==> final(self).current == old(
                self,
            ).current + 1,
            old(self).current + 1 == old(self).images@.len() ==> final(self).current == 0,
    {
        if self.images.len() == 0 {
            return ;
        }
        proof {
            let c = self.current as int;
            let n = self.images@.len() as int;
            assert(c + 1 < n ==> (c + 1) % n == c + 1) by (nonlinear_arith)
                requires
                    c >= 0,
                    n > 0,
            ;
            assert(c + 1 == n ==> (c + 1) % n == 0) by (nonlinear_arith)
                requires
                    n > 0,
            ;
        }
        self.current = (self.current + 1) % self.images.len();
    }

    /// Moves to the previous image, wrapping from the first to the last.
    /// Does nothing when there are no images.
    pub fn prev(&mut self)
        requires
            old(self).current + old(self).images@.len() <= usize::MAX,
        ensures
            final(self).images@ == old(self).images@,
            old(self).images@.len() == 0 ==> final(self).current == old(self).current,
            old(self).images@.len() > 0 ==> final(self).current == (old(self).current + old(
                self,
            ).images@.len() - 1) % (old(self).images@.len() as int),
            0 < old(self).current < old(self).images@.len() ==> final(self).current == old(
                self,
            ).current - 1,
            old(self).current == 0 && old(self).images@.len() > 0 ==> final(self).current == old(
                self,
            ).images@.len() - 1,
    {
        if self.images.len() == 0 {
            return ;
        }
        proof {
            let c = self.current as int;
            let n = self.images@.len() as int;
            assert(0 < c < n ==> (c + n - 1) % n == c - 1) by (nonlinear_arith)
                requires
                    n > 0,
            ;
            assert(c == 0 ==> (c + n - 1) % n == n - 1) by (nonlinear_arith)
                requires
                    n > 0,
            ;
        }
        self.current = (self.current + self.images.len() - 1) % self.images.len();
    }

    /// The path of the current image, or `None` when there is none.
    pub fn current_path(&self) -> (r: Option<&String>)
        ensures
            self.current < self.images@.len() ==> r == Some(&self.images@[self.current as int]),
            self.current >= self.images@.len() ==> r is None,
    {
        if self.current < self.images.len() {
            Some(&self.images[self.current])
        } else {
            None
        }
    }
}

/// Law: a full lap of `next` over a non-empty folder comes back to the
/// start, and `prev` undoes `next`.
pub proof fn law_next_prev_roundtrip(current: int, len: int)
    requires
        0 <= current < len,
    ensures
        ((current + 1) % len + len - 1) % len == current,
        (((current + len - 1) % len) + 1) % len == current,
{
    assert(((current + 1) % len + len - 1) % len == current) by (nonlinear_arith)
        requires
            0 <= current < len,
    ;
    assert((((current + len - 1) % len) + 1) % len == current) by (nonlinear_arith)
        requires
            0 <= current < len,
    ;
}

} // verus!
