//! The two-tier preview cache: per asset one resident master at the largest
//! resolution requested so far, derived variants at smaller requested
//! dimensions, and strict LRU eviction over a fixed number of resident
//! masters.

use vstd::prelude::*;

use crate::decode::{sp_decodable, sp_image_backend_ok, DecodeError};
use crate::dims::{clamp_dim, normalize_dimension, PREVIEW_MASTER_BASE};
use crate::img::{ImageBuf, MAX_PIXELS, MAX_SIDE};
use crate::resize::{render_resized, resize_rgba_preserve_aspect};

verus! {

/// How many assets may hold a resident master at once.
pub const PREVIEW_CACHE_ASSETS: usize = 2;

/// Headroom bound for the decode counter.
pub const DECODES_MAX: u64 = 0x1000_0000_0000_0000;

/// A resident master: the decoded buffer and its larger side.
pub struct CachedMaster {
    pub img: ImageBuf,
    pub max_dim: u32,
}

impl CachedMaster {
    /// The recorded dimension is the buffer's larger side.
    pub open spec fn wf(self) -> bool {
        &&& self.img.wf()
        &&& self.max_dim == self.img.spec_max_dim()
    }
}

/// The abstract content of one resident master.
pub ghost struct MasterEntry {
    pub id: Seq<char>,
    pub max_dim: int,
    pub width: int,
    pub height: int,
    pub data: Seq<u8>,
}

/// The abstract content of one derived variant.
pub ghost struct VariantEntry {
    pub id: Seq<char>,
    pub dim: int,
    pub width: int,
    pub height: int,
    pub data: Seq<u8>,
}

/// The cache's abstract state: masters, variants, the recency order
/// (oldest first), and how many decodes have run.
pub ghost struct CacheState {
    pub masters: Seq<MasterEntry>,
    pub variants: Seq<VariantEntry>,
    pub lru: Seq<Seq<char>>,
    pub decodes: int,
}

/// The first master entry for `id`, or -1.
pub open spec fn sp_find_master(ms: Seq<MasterEntry>, id: Seq<char>, i: int) -> int
    decreases ms.len() - i,
{
    if i < 0 || i >= ms.len() {
        -1
    } else if ms[i].id == id {
        i
    } else {
        sp_find_master(ms, id, i + 1)
    }
}

/// The first recency slot for `id`, or -1.
pub open spec fn sp_find_lru(lru: Seq<Seq<char>>, id: Seq<char>, i: int) -> int
    decreases lru.len() - i,
{
    if i < 0 || i >= lru.len() {
        -1
    } else if lru[i] == id {
        i
    } else {
        sp_find_lru(lru, id, i + 1)
    }
}

/// The first variant entry for `(id, dim)`, or -1.
pub open spec fn sp_find_variant(vs: Seq<VariantEntry>, id: Seq<char>, dim: int, i: int) -> int
    decreases vs.len() - i,
{
    if i < 0 || i >= vs.len() {
        -1
    } else if vs[i].id == id && vs[i].dim == dim {
        i
    } else {
        sp_find_variant(vs, id, dim, i + 1)
    }
}

/// A master search yields -1 or a valid index holding `id`.
pub proof fn lemma_find_master_range(ms: Seq<MasterEntry>, id: Seq<char>, i: int)
    requires
        0 <= i <= ms.len(),
    ensures
        ({
            let k = sp_find_master(ms, id, i);
            &&& -1 <= k < ms.len()
            &&& k >= 0 ==> i <= k && ms[k].id == id
        }),
    decreases ms.len() - i,
{
    if i < ms.len() && ms[i].id != id {
        lemma_find_master_range(ms, id, i + 1);
    }
}

/// A recency search yields -1 or a valid index holding `id`.
pub proof fn lemma_find_lru_range(lru: Seq<Seq<char>>, id: Seq<char>, i: int)
    requires
        0 <= i <= lru.len(),
    ensures
        ({
            let k = sp_find_lru(lru, id, i);
            &&& -1 <= k < lru.len()
            &&& k >= 0 ==> i <= k && lru[k] == id
        }),
    decreases lru.len() - i,
{
    if i < lru.len() && lru[i] != id {
        lemma_find_lru_range(lru, id, i + 1);
    }
}

/// A variant search yields -1 or a valid index holding `(id, dim)`.
pub proof fn lemma_find_variant_range(vs: Seq<VariantEntry>, id: Seq<char>, dim: int, i: int)
    requires
        0 <= i <= vs.len(),
    ensures
        ({
            let k = sp_find_variant(vs, id, dim, i);
            &&& -1 <= k < vs.len()
            &&& k >= 0 ==> i <= k && vs[k].id == id && vs[k].dim == dim
        }),
    decreases vs.len() - i,
{
    if i < vs.len() && !(vs[i].id == id && vs[i].dim == dim) {
        lemma_find_variant_range(vs, id, dim, i + 1);
    }
}

/// Refresh recency: move `id` to the most-recent end.
pub open spec fn sp_touch(lru: Seq<Seq<char>>, id: Seq<char>) -> Seq<Seq<char>> {
    let k = sp_find_lru(lru, id, 0);
    if k >= 0 {
        lru.remove(k).push(id)
    } else {
        lru.push(id)
    }
}

/// The first `n` variant entries, with every entry of `id` removed.
pub open spec fn sp_drop_variants_to(vs: Seq<VariantEntry>, id: Seq<char>, n: int) -> Seq<
    VariantEntry,
>
    decreases n,
{
    if n <= 0 {
        Seq::empty()
    } else if vs[n - 1].id == id {
        sp_drop_variants_to(vs, id, n - 1)
    } else {
        sp_drop_variants_to(vs, id, n - 1).push(vs[n - 1])
    }
}

/// All variants, with every entry of `id` removed.
pub open spec fn sp_drop_variants(vs: Seq<VariantEntry>, id: Seq<char>) -> Seq<VariantEntry> {
    sp_drop_variants_to(vs, id, vs.len() as int)
}

/// Remove the master entry of `id`, if any.
pub open spec fn sp_remove_master(ms: Seq<MasterEntry>, id: Seq<char>) -> Seq<MasterEntry> {
    let k = sp_find_master(ms, id, 0);
    if k >= 0 {
        ms.remove(k)
    } else {
        ms
    }
}

/// Evict least-recently-used assets until at most `PREVIEW_CACHE_ASSETS`
/// remain, removing each evicted asset's master and all its variants.
pub open spec fn sp_evict(s: CacheState) -> CacheState
    decreases s.lru.len(),
{
    if s.lru.len() <= PREVIEW_CACHE_ASSETS {
        s
    } else {
        let id = s.lru[0];
        sp_evict(
            CacheState {
                masters: sp_remove_master(s.masters, id),
                variants: sp_drop_variants(s.variants, id),
                lru: s.lru.drop_first(),
                decodes: s.decodes,
            },
        )
    }
}

/// Eviction never changes the decode counter and only shortens recency.
pub proof fn lemma_evict_decodes(s: CacheState)
    ensures
        sp_evict(s).decodes == s.decodes,
        sp_evict(s).lru.len() <= s.lru.len(),
    decreases s.lru.len(),
{
    if s.lru.len() > PREVIEW_CACHE_ASSETS {
        let id = s.lru[0];
        lemma_evict_decodes(
            CacheState {
                masters: sp_remove_master(s.masters, id),
                variants: sp_drop_variants(s.variants, id),
                lru: s.lru.drop_first(),
                decodes: s.decodes,
            },
        );
    }
}

/// Store a freshly decoded master for `id`: replace any prior entry,
/// discard the asset's variants, refresh recency, and evict.
pub open spec fn sp_store_master(s: CacheState, id: Seq<char>, m: MasterEntry) -> CacheState {
    let k = sp_find_master(s.masters, id, 0);
    let ms = if k >= 0 {
        s.masters.update(k, m)
    } else {
        s.masters.push(m)
    };
    sp_evict(
        CacheState {
            masters: ms,
            variants: sp_drop_variants(s.variants, id),
            lru: sp_touch(s.lru, id),
            decodes: s.decodes,
        },
    )
}

/// Whether a master request for `id` at clamped dimension `t` is a hit.
pub open spec fn sp_master_hit(s: CacheState, id: Seq<char>, t: int) -> bool {
    let k = sp_find_master(s.masters, id, 0);
    k >= 0 && s.masters[k].max_dim >= t
}

/// The state after a master request: a hit only refreshes recency; a miss
/// decodes once and stores `m` as the new master.
pub open spec fn sp_master_step(s: CacheState, id: Seq<char>, t: int, m: MasterEntry) -> CacheState {
    if sp_master_hit(s, id, t) {
        CacheState { masters: s.masters, variants: s.variants, lru: sp_touch(s.lru, id), decodes: s.decodes }
    } else {
        sp_store_master(
            CacheState { masters: s.masters, variants: s.variants, lru: s.lru, decodes: s.decodes + 1 },
            id,
            m,
        )
    }
}

/// A well-formed abstract master entry: a usable buffer whose recorded
/// dimension is its larger side.
pub open spec fn sp_mentry_wf(e: MasterEntry) -> bool {
    &&& 1 <= e.width <= MAX_SIDE
    &&& 1 <= e.height <= MAX_SIDE
    &&& e.width * e.height <= MAX_PIXELS
    &&& e.data.len() == 4 * e.width * e.height
    &&& e.max_dim == (if e.width >= e.height {
        e.width
    } else {
        e.height
    })
}

/// A well-formed abstract variant entry.
pub open spec fn sp_ventry_wf(e: VariantEntry) -> bool {
    &&& 1 <= e.width <= MAX_SIDE
    &&& 1 <= e.height <= MAX_SIDE
    &&& e.width * e.height <= MAX_PIXELS
    &&& e.data.len() == 4 * e.width * e.height
}

/// A well-formed abstract cache state: usable buffers and each asset id at
/// most once in the recency list.
pub open spec fn sp_state_wf(s: CacheState) -> bool {
    &&& forall|i: int| 0 <= i < s.masters.len() ==> sp_mentry_wf(#[trigger] s.masters[i])
    &&& forall|i: int| 0 <= i < s.variants.len() ==> sp_ventry_wf(#[trigger] s.variants[i])
    &&& forall|i: int, j: int| 0 <= i < j < s.lru.len() ==> s.lru[i] != s.lru[j]
}

/// A negative recency search means `id` sits nowhere at or after `i`.
pub proof fn lemma_find_lru_none(lru: Seq<Seq<char>>, id: Seq<char>, i: int)
    requires
        0 <= i <= lru.len(),
        sp_find_lru(lru, id, i) == -1,
    ensures
        forall|j: int| i <= j < lru.len() ==> lru[j] != id,
    decreases lru.len() - i,
{
    if i < lru.len() {
        lemma_find_lru_none(lru, id, i + 1);
    }
}

/// A recency refresh keeps the list free of duplicates.
pub proof fn lemma_touch_unique(lru: Seq<Seq<char>>, id: Seq<char>)
    requires
        forall|i: int, j: int| 0 <= i < j < lru.len() ==> lru[i] != lru[j],
    ensures
        ({
            let l2 = sp_touch(lru, id);
            forall|i: int, j: int| 0 <= i < j < l2.len() ==> l2[i] != l2[j]
        }),
{
    let k = sp_find_lru(lru, id, 0);
    lemma_find_lru_range(lru, id, 0);
    let l2 = sp_touch(lru, id);
    if k >= 0 {
        let rem = lru.remove(k);
        assert forall|i: int| 0 <= i < rem.len() implies #[trigger] rem[i] != id by {
            if i < k {
                assert(rem[i] == lru[i]);
            } else {
                assert(rem[i] == lru[i + 1]);
            }
        }
        assert forall|i: int, j: int| 0 <= i < j < l2.len() implies l2[i] != l2[j] by {
            if j < rem.len() {
                if i < k && j < k {
                    assert(rem[i] == lru[i] && rem[j] == lru[j]);
                } else if i < k {
                    assert(rem[i] == lru[i] && rem[j] == lru[j + 1]);
                } else {
                    assert(rem[i] == lru[i + 1] && rem[j] == lru[j + 1]);
                }
            } else {
                assert(l2[j] == id && l2[i] == rem[i]);
            }
        }
    } else {
        lemma_find_lru_none(lru, id, 0);
        assert forall|i: int, j: int| 0 <= i < j < l2.len() implies l2[i] != l2[j] by {
            if j < lru.len() {
                assert(l2[i] == lru[i] && l2[j] == lru[j]);
            } else {
                assert(l2[j] == id && l2[i] == lru[i]);
            }
        }
    }
}

/// Dropping an asset's variants keeps only entries that were already
/// well-formed.
pub proof fn lemma_drop_variants_wf(vs: Seq<VariantEntry>, id: Seq<char>, n: int)
    requires
        n <= vs.len(),
        forall|i: int| 0 <= i < vs.len() ==> sp_ventry_wf(#[trigger] vs[i]),
    ensures
        forall|i: int|
            0 <= i < sp_drop_variants_to(vs, id, n).len() ==> sp_ventry_wf(
                #[trigger] sp_drop_variants_to(vs, id, n)[i],
            ),
    decreases n,
{
    if n > 0 {
        lemma_drop_variants_wf(vs, id, n - 1);
        let prev = sp_drop_variants_to(vs, id, n - 1);
        let cur = sp_drop_variants_to(vs, id, n);
        if vs[n - 1].id != id {
            assert(cur == prev.push(vs[n - 1]));
            assert forall|i: int| 0 <= i < cur.len() implies sp_ventry_wf(#[trigger] cur[i]) by {
                if i < prev.len() {
                    assert(cur[i] == prev[i]);
                } else {
                    assert(cur[i] == vs[n - 1]);
                }
            }
        } else {
            assert(cur == prev);
            assert forall|i: int| 0 <= i < cur.len() implies sp_ventry_wf(#[trigger] cur[i]) by {
                assert(cur[i] == prev[i]);
            }
        }
    }
}

/// Eviction keeps only entries that were already well-formed.
pub proof fn lemma_evict_wf(s: CacheState)
    requires
        sp_state_wf(s),
    ensures
        sp_state_wf(sp_evict(s)),
        sp_evict(s).decodes == s.decodes,
        sp_evict(s).lru.len() <= (if s.lru.len() <= PREVIEW_CACHE_ASSETS {
            s.lru.len() as int
        } else {
            PREVIEW_CACHE_ASSETS as int
        }),
    decreases s.lru.len(),
{
    if s.lru.len() > PREVIEW_CACHE_ASSETS {
        let id = s.lru[0];
        let ms = sp_remove_master(s.masters, id);
        let k = sp_find_master(s.masters, id, 0);
        lemma_find_master_range(s.masters, id, 0);
        assert forall|i: int| 0 <= i < ms.len() implies sp_mentry_wf(#[trigger] ms[i]) by {
            if k >= 0 {
                assert(ms == s.masters.remove(k));
                if i < k {
                    assert(ms[i] == s.masters[i]);
                } else {
                    assert(ms[i] == s.masters[i + 1]);
                }
            }
        }
        lemma_drop_variants_wf(s.variants, id, s.variants.len() as int);
        let l2 = s.lru.drop_first();
        assert forall|i: int, j: int| 0 <= i < j < l2.len() implies l2[i] != l2[j] by {
            assert(l2[i] == s.lru[i + 1] && l2[j] == s.lru[j + 1]);
        }
        lemma_evict_wf(
            CacheState {
                masters: ms,
                variants: sp_drop_variants(s.variants, id),
                lru: l2,
                decodes: s.decodes,
            },
        );
    }
}

/// From a cold cache, requesting a preview dimension that clamps to 800
/// decodes a master at the 1920 envelope; a later request clamping to 2000
/// exceeds that envelope and re-decodes exactly once more; a final request
/// clamping to 800 is then served from the resident master with no further
/// decode and no change to the resident masters.
pub proof fn lemma_master_redecode_once(
    s0: CacheState,
    id: Seq<char>,
    m1: MasterEntry,
    m2: MasterEntry,
    m3: MasterEntry,
)
    requires
        s0.masters.len() == 0,
        s0.lru.len() == 0,
        m1.id == id,
        m1.max_dim == 1920,
        m2.id == id,
        m2.max_dim == 2000,
    ensures
        ({
            let s1 = sp_master_step(s0, id, 800, m1);
            let s2 = sp_master_step(s1, id, 2000, m2);
            let s3 = sp_master_step(s2, id, 800, m3);
            &&& !sp_master_hit(s0, id, 800)
            &&& s1.decodes == s0.decodes + 1
            &&& !sp_master_hit(s1, id, 2000)
            &&& s2.decodes == s0.decodes + 2
            &&& sp_master_hit(s2, id, 800)
            &&& s3.decodes == s0.decodes + 2
            &&& s3.masters == s2.masters
        }),
{
    let s1 = sp_master_step(s0, id, 800, m1);
    assert(sp_find_master(s0.masters, id, 0) == -1);
    assert(s0.masters.push(m1)[0] == m1);
    assert(sp_touch(s0.lru, id) =~= seq![id]);
    let pre1 = CacheState {
        masters: s0.masters.push(m1),
        variants: sp_drop_variants(s0.variants, id),
        lru: seq![id],
        decodes: s0.decodes + 1,
    };
    assert(sp_drop_variants(s0.variants, id) == sp_drop_variants_to(s0.variants, id, s0.variants.len() as int));
    assert(sp_evict(pre1) == pre1);
    assert(s1 == pre1) by {
        assert(sp_touch(s0.lru, id) == pre1.lru);
    }
    assert(sp_find_master(s1.masters, id, 0) == 0);
    assert(s1.masters[0] == m1);
    assert(!sp_master_hit(s1, id, 2000));
    let s2 = sp_master_step(s1, id, 2000, m2);
    let ms2 = s1.masters.update(0, m2);
    assert(sp_find_lru(s1.lru, id, 0) == 0);
    assert(sp_touch(s1.lru, id) =~= seq![id]) by {
        assert(s1.lru.remove(0) =~= Seq::<Seq<char>>::empty());
    }
    let pre2 = CacheState {
        masters: ms2,
        variants: sp_drop_variants(s1.variants, id),
        lru: seq![id],
        decodes: s1.decodes + 1,
    };
    assert(sp_evict(pre2) == pre2);
    assert(s2 == pre2) by {
        assert(sp_touch(s1.lru, id) == pre2.lru);
    }
    assert(sp_find_master(s2.masters, id, 0) == 0);
    assert(s2.masters[0] == m2);
    assert(sp_master_hit(s2, id, 800));
    let s3 = sp_master_step(s2, id, 800, m3);
    assert(s3.masters == s2.masters);
    assert(s3.decodes == s2.decodes);
}

/// With two resident-master slots, requesting previews for three distinct
/// assets in order evicts the first asset's master and all of its variants;
/// the second and third assets stay resident, in recency order.
pub proof fn lemma_lru_evicts_oldest(
    a: Seq<char>,
    b: Seq<char>,
    c: Seq<char>,
    ma: MasterEntry,
    mb: MasterEntry,
    mc: MasterEntry,
    t: int,
)
    requires
        a != b,
        a != c,
        b != c,
        ma.id == a,
        mb.id == b,
        mc.id == c,
    ensures
        ({
            let s0 = CacheState {
                masters: Seq::empty(),
                variants: Seq::empty(),
                lru: Seq::empty(),
                decodes: 0,
            };
            let s1 = sp_master_step(s0, a, t, ma);
            let s2 = sp_master_step(s1, b, t, mb);
            let s3 = sp_master_step(s2, c, t, mc);
            &&& sp_find_master(s3.masters, a, 0) == -1
            &&& sp_find_variant(s3.variants, a, t, 0) == -1
            &&& s3.masters =~= seq![mb, mc]
            &&& s3.lru =~= seq![b, c]
        }),
{
    let s0 = CacheState {
        masters: Seq::empty(),
        variants: Seq::empty(),
        lru: Seq::empty(),
        decodes: 0,
    };
    let s1 = sp_master_step(s0, a, t, ma);
    assert(sp_drop_variants(s0.variants, a) =~= Seq::<VariantEntry>::empty());
    assert(sp_touch(s0.lru, a) =~= seq![a]);
    let pre1 = CacheState {
        masters: s0.masters.push(ma),
        variants: Seq::empty(),
        lru: seq![a],
        decodes: 1,
    };
    assert(sp_evict(pre1) == pre1);
    assert(s1 == pre1) by {
        assert(sp_drop_variants(s0.variants, a) == pre1.variants);
        assert(sp_touch(s0.lru, a) == pre1.lru);
    }
    assert(s1.masters[0] == ma);
    assert(sp_find_master(s1.masters, b, 1) == -1);
    assert(sp_find_master(s1.masters, b, 0) == -1);
    let s2 = sp_master_step(s1, b, t, mb);
    assert(sp_drop_variants(s1.variants, b) =~= Seq::<VariantEntry>::empty());
    assert(sp_find_lru(s1.lru, b, 1) == -1);
    assert(sp_find_lru(s1.lru, b, 0) == -1);
    assert(sp_touch(s1.lru, b) =~= seq![a, b]);
    let pre2 = CacheState {
        masters: s1.masters.push(mb),
        variants: Seq::empty(),
        lru: seq![a, b],
        decodes: 2,
    };
    assert(sp_evict(pre2) == pre2);
    assert(s2 == pre2) by {
        assert(sp_drop_variants(s1.variants, b) == pre2.variants);
        assert(sp_touch(s1.lru, b) == pre2.lru);
    }
    assert(s2.masters[0] == ma && s2.masters[1] == mb);
    assert(sp_find_master(s2.masters, c, 2) == -1);
    assert(sp_find_master(s2.masters, c, 1) == -1);
    assert(sp_find_master(s2.masters, c, 0) == -1);
    let s3 = sp_master_step(s2, c, t, mc);
    assert(sp_drop_variants(s2.variants, c) =~= Seq::<VariantEntry>::empty());
    assert(sp_find_lru(s2.lru, c, 2) == -1);
    assert(sp_find_lru(s2.lru, c, 1) == -1);
    assert(sp_find_lru(s2.lru, c, 0) == -1);
    assert(sp_touch(s2.lru, c) =~= seq![a, b, c]);
    let ms3 = s2.masters.push(mc);
    assert(ms3[0] == ma && ms3[1] == mb && ms3[2] == mc);
    let pre3 = CacheState {
        masters: ms3,
        variants: Seq::empty(),
        lru: seq![a, b, c],
        decodes: 3,
    };
    assert(s3 == sp_evict(pre3)) by {
        assert(sp_drop_variants(s2.variants, c) == pre3.variants);
        assert(sp_touch(s2.lru, c) == pre3.lru);
    }
    assert(pre3.lru[0] == a);
    assert(sp_find_master(ms3, a, 0) == 0);
    let ms4 = sp_remove_master(ms3, a);
    assert(ms4 =~= seq![mb, mc]) by {
        assert(ms3.remove(0) =~= seq![mb, mc]);
    }
    assert(sp_drop_variants(pre3.variants, a) =~= Seq::<VariantEntry>::empty());
    assert(pre3.lru.drop_first() =~= seq![b, c]);
    let evicted = CacheState {
        masters: ms4,
        variants: sp_drop_variants(pre3.variants, a),
        lru: pre3.lru.drop_first(),
        decodes: 3,
    };
    assert(sp_evict(pre3) == sp_evict(evicted));
    assert(sp_evict(evicted) == evicted);
    assert(s3.masters =~= seq![mb, mc]);
    assert(s3.lru =~= seq![b, c]);
    assert(sp_find_master(s3.masters, a, 0) == -1) by {
        assert(s3.masters[0] == mb && s3.masters[1] == mc);
        assert(sp_find_master(s3.masters, a, 2) == -1);
        assert(sp_find_master(s3.masters, a, 1) == -1);
    }
    assert(s3.variants.len() == 0);
}

/// The cache state after the variant phase that follows master resolution
/// with master entry `m`: nothing more within the 4 px tolerance, a
/// recency refresh on a variant hit, and a stored fresh downscale (then
/// eviction) otherwise.
pub open spec fn sp_variant_phase(s1: CacheState, id: Seq<char>, t: int, m: MasterEntry) -> CacheState {
    if t >= m.max_dim - 4 {
        s1
    } else {
        let kv = sp_find_variant(s1.variants, id, t, 0);
        if kv >= 0 {
            CacheState {
                masters: s1.masters,
                variants: s1.variants,
                lru: sp_touch(s1.lru, id),
                decodes: s1.decodes,
            }
        } else {
            let (vw, vh) = crate::dims::spec_target_size(m.width, m.height, t);
            sp_evict(
                CacheState {
                    masters: s1.masters,
                    variants: s1.variants.push(
                        VariantEntry {
                            id: id,
                            dim: t,
                            width: vw,
                            height: vh,
                            data: crate::codec::cubic_resize(
                                m.data,
                                m.width as nat,
                                m.height as nat,
                                vw as nat,
                                vh as nat,
                            ),
                        },
                    ),
                    lru: sp_touch(s1.lru, id),
                    decodes: s1.decodes,
                },
            )
        }
    }
}

/// The buffer served for master `m` against the post-master state `s1`:
/// the master itself within the 4 px tolerance, the resident variant on a
/// repeat request, and the fresh downscale of the master otherwise, as
/// (width, height, pixels).
pub open spec fn sp_served_of(s1: CacheState, id: Seq<char>, t: int, m: MasterEntry) -> (
    int,
    int,
    Seq<u8>,
) {
    if t >= m.max_dim - 4 {
        (m.width, m.height, m.data)
    } else {
        let kv = sp_find_variant(s1.variants, id, t, 0);
        if kv >= 0 {
            (s1.variants[kv].width, s1.variants[kv].height, s1.variants[kv].data)
        } else {
            let (vw, vh) = crate::dims::spec_target_size(m.width, m.height, t);
            (
                vw,
                vh,
                crate::codec::cubic_resize(m.data, m.width as nat, m.height as nat, vw as nat, vh as nat),
            )
        }
    }
}

/// The returned buffer is exactly the served one.
pub open spec fn sp_served_rel(
    s1: CacheState,
    id: Seq<char>,
    t: int,
    m: MasterEntry,
    img: ImageBuf,
) -> bool {
    let sv = sp_served_of(s1, id, t, m);
    &&& img.width as int == sv.0
    &&& img.height as int == sv.1
    &&& img.data@ == sv.2
}

/// A master step decodes exactly once on a miss and never on a hit.
pub proof fn lemma_master_step_decodes(s: CacheState, id: Seq<char>, t: int, m: MasterEntry)
    ensures
        sp_master_step(s, id, t, m).decodes == (if sp_master_hit(s, id, t) {
            s.decodes
        } else {
            s.decodes + 1
        }),
{
    if !sp_master_hit(s, id, t) {
        let mid = CacheState {
            masters: s.masters,
            variants: s.variants,
            lru: s.lru,
            decodes: s.decodes + 1,
        };
        let k = sp_find_master(mid.masters, id, 0);
        let ms = if k >= 0 {
            mid.masters.update(k, m)
        } else {
            mid.masters.push(m)
        };
        lemma_evict_decodes(
            CacheState {
                masters: ms,
                variants: sp_drop_variants(mid.variants, id),
                lru: sp_touch(mid.lru, id),
                decodes: mid.decodes,
            },
        );
    }
}

/// The variant phase never decodes.
pub proof fn lemma_variant_phase_decodes(s1: CacheState, id: Seq<char>, t: int, m: MasterEntry)
    ensures
        sp_variant_phase(s1, id, t, m).decodes == s1.decodes,
{
    if t < m.max_dim - 4 {
        let kv = sp_find_variant(s1.variants, id, t, 0);
        if kv < 0 {
            let (vw, vh) = crate::dims::spec_target_size(m.width, m.height, t);
            lemma_evict_decodes(
                CacheState {
                    masters: s1.masters,
                    variants: s1.variants.push(
                        VariantEntry {
                            id: id,
                            dim: t,
                            width: vw,
                            height: vh,
                            data: crate::codec::cubic_resize(
                                m.data,
                                m.width as nat,
                                m.height as nat,
                                vw as nat,
                                vh as nat,
                            ),
                        },
                    ),
                    lru: sp_touch(s1.lru, id),
                    decodes: s1.decodes,
                },
            );
        }
    }
}

/// The master entry a preview resolution resolved, recovered from the
/// states and the served buffer.
pub open spec fn sp_resolved_master(
    s: CacheState,
    id: Seq<char>,
    t: int,
    s2: CacheState,
    img: ImageBuf,
) -> MasterEntry {
    choose|m: MasterEntry| sp_scaled_post(s, id, t, m, s2, img)
}

/// How one preview resolution relates the old state `s`, the resolved
/// master `m`, the new state `s2` and the returned buffer `img`: the
/// master step runs first, then the variant phase serves the buffer. On a
/// hit the resolved master is the resident one.
#[verifier::opaque]
pub open spec fn sp_scaled_post(
    s: CacheState,
    id: Seq<char>,
    t: int,
    m: MasterEntry,
    s2: CacheState,
    img: ImageBuf,
) -> bool {
    let s1 = sp_master_step(s, id, t, m);
    &&& m.id == id
    &&& m.max_dim == (if m.width >= m.height {
        m.width
    } else {
        m.height
    })
    &&& (sp_master_hit(s, id, t) ==> m == s.masters[sp_find_master(s.masters, id, 0)])
    &&& s2 == sp_variant_phase(s1, id, t, m)
    &&& sp_served_rel(s1, id, t, m, img)
}

/// The master entry a miss stores when the general-purpose codec serves
/// the bytes, decoded at envelope `dt`: the aspect-preserving downscale of
/// the decoded image, capped at the source's own size.
pub open spec fn sp_fresh_image_master(id: Seq<char>, bytes: Seq<u8>, dt: int) -> MasterEntry {
    let d = crate::codec::image_decode(bytes);
    let side = if d.1 >= d.2 {
        d.1 as int
    } else {
        d.2 as int
    };
    let tgt = if dt <= side {
        dt
    } else {
        side
    };
    let (mw, mh) = crate::dims::spec_target_size(d.1 as int, d.2 as int, tgt);
    MasterEntry {
        id: id,
        max_dim: if mw >= mh {
            mw
        } else {
            mh
        },
        width: mw,
        height: mh,
        data: crate::resize::sp_resized_bytes(d.3, d.1 as int, d.2 as int, mw, mh),
    }
}

/// The abstract view of one master pair.
pub open spec fn sp_master_abs(p: (String, CachedMaster)) -> MasterEntry {
    MasterEntry {
        id: p.0@,
        max_dim: p.1.max_dim as int,
        width: p.1.img.width as int,
        height: p.1.img.height as int,
        data: p.1.img.data@,
    }
}

/// The abstract view of one variant triple.
pub open spec fn sp_variant_abs(v: (String, u32, ImageBuf)) -> VariantEntry {
    VariantEntry {
        id: v.0@,
        dim: v.1 as int,
        width: v.2.width as int,
        height: v.2.height as int,
        data: v.2.data@,
    }
}

/// The preview cache: masters and variants keyed by asset id, a recency
/// list (oldest first), and a decode counter.
pub struct PreviewCache {
    masters: Vec<(String, CachedMaster)>,
    variants: Vec<(String, u32, ImageBuf)>,
    lru: Vec<String>,
    decodes: u64,
}

impl PreviewCache {
    /// The cache's abstract state.
    pub closed spec fn sp_state(self) -> CacheState {
        CacheState {
            masters: self.masters@.map_values(|p: (String, CachedMaster)| sp_master_abs(p)),
            variants: self.variants@.map_values(|v: (String, u32, ImageBuf)| sp_variant_abs(v)),
            lru: self.lru@.map_values(|s: String| s@),
            decodes: self.decodes as int,
        }
    }

    /// Every resident buffer is well-formed.
    pub open spec fn wf(self) -> bool {
        sp_state_wf(self.sp_state())
    }

    /// An empty cache.
    pub fn new() -> (r: PreviewCache)
        ensures
            r.wf(),
            r.sp_state().masters.len() == 0,
            r.sp_state().variants.len() == 0,
            r.sp_state().lru.len() == 0,
            r.sp_state().decodes == 0,
    {
        let r = PreviewCache { masters: Vec::new(), variants: Vec::new(), lru: Vec::new(), decodes: 0 };
        proof {
            assert(r.sp_state().masters =~= Seq::<MasterEntry>::empty());
            assert(r.sp_state().variants =~= Seq::<VariantEntry>::empty());
            assert(r.sp_state().lru =~= Seq::<Seq<char>>::empty());
        }
        r
    }

    /// How many decodes the cache has performed.
    pub fn decode_count(&self) -> (r: u64)
        ensures
            r as int == self.sp_state().decodes,
    {
        self.decodes
    }

    /// Clear all in-memory preview state (masters, variants, recency); the
    /// decode counter is kept.
    pub fn clear_preview_cache(&mut self)
        ensures
            final(self).wf(),
            final(self).sp_state().masters.len() == 0,
            final(self).sp_state().variants.len() == 0,
            final(self).sp_state().lru.len() == 0,
            final(self).sp_state().decodes == old(self).sp_state().decodes,
    {
        self.masters.clear();
        self.variants.clear();
        self.lru.clear();
        proof {
            assert(self.sp_state().masters =~= Seq::<MasterEntry>::empty());
            assert(self.sp_state().variants =~= Seq::<VariantEntry>::empty());
            assert(self.sp_state().lru =~= Seq::<Seq<char>>::empty());
        }
    }

    /// Index of the master entry for `id`, if resident.
    fn find_master_index(&self, id: &String) -> (r: Option<usize>)
        ensures
            ({
                let k = sp_find_master(self.sp_state().masters, id@, 0);
                match r {
                    Some(i) => k == i && i < self.masters@.len(),
                    None => k == -1,
                }
            }),
    {
        let mut i: usize = 0;
        while i < self.masters.len()
            invariant
                i <= self.masters@.len(),
                sp_find_master(self.sp_state().masters, id@, 0) == sp_find_master(
                    self.sp_state().masters,
                    id@,
                    i as int,
                ),
            decreases self.masters@.len() - i,
        {
            if self.masters[i].0 == *id {
                return Some(i);
            }
            i = i + 1;
        }
        None
    }

    /// Index of the recency slot for `id`, if present.
    fn find_lru_index(&self, id: &String) -> (r: Option<usize>)
        ensures
            ({
                let k = sp_find_lru(self.sp_state().lru, id@, 0);
                match r {
                    Some(i) => k == i && i < self.lru@.len(),
                    None => k == -1,
                }
            }),
    {
        let mut i: usize = 0;
        while i < self.lru.len()
            invariant
                i <= self.lru@.len(),
                sp_find_lru(self.sp_state().lru, id@, 0) == sp_find_lru(
                    self.sp_state().lru,
                    id@,
                    i as int,
                ),
            decreases self.lru@.len() - i,
        {
            if self.lru[i] == *id {
                return Some(i);
            }
            i = i + 1;
        }
        None
    }

    /// Index of the variant entry for `(id, dim)`, if resident.
    fn find_variant_index(&self, id: &String, dim: u32) -> (r: Option<usize>)
        ensures
            ({
                let k = sp_find_variant(self.sp_state().variants, id@, dim as int, 0);
                match r {
                    Some(i) => k == i && i < self.variants@.len(),
                    None => k == -1,
                }
            }),
    {
        let mut i: usize = 0;
        while i < self.variants.len()
            invariant
                i <= self.variants@.len(),
                sp_find_variant(self.sp_state().variants, id@, dim as int, 0) == sp_find_variant(
                    self.sp_state().variants,
                    id@,
                    dim as int,
                    i as int,
                ),
            decreases self.variants@.len() - i,
        {
            if self.variants[i].0 == *id && self.variants[i].1 == dim {
                return Some(i);
            }
            i = i + 1;
        }
        None
    }

    /// Move `id` to the most-recent end of the recency list.
    fn touch_asset(&mut self, id: &String)
        ensures
            final(self).masters == old(self).masters,
            final(self).variants == old(self).variants,
            final(self).decodes == old(self).decodes,
            final(self).sp_state().lru == sp_touch(old(self).sp_state().lru, id@),
    {
        let ghost l0 = self.sp_state().lru;
        match self.find_lru_index(id) {
            Some(k) => {
                self.lru.remove(k);
                proof {
                    assert(self.lru@.map_values(|s: String| s@) =~= l0.remove(k as int));
                }
            },
            None => {},
        }
        self.lru.push(id.clone());
        proof {
            assert(self.lru@.map_values(|s: String| s@) =~= sp_touch(l0, id@));
        }
    }

    /// Discard every variant of `id`.
    fn drop_variants_for(&mut self, id: &String)
        ensures
            final(self).masters == old(self).masters,
            final(self).lru == old(self).lru,
            final(self).decodes == old(self).decodes,
            final(self).sp_state().variants == sp_drop_variants(old(self).sp_state().variants, id@),
    {
        let ghost v0 = self.sp_state().variants;
        let mut kept: Vec<(String, u32, ImageBuf)> = Vec::new();
        let mut i: usize = 0;
        while i < self.variants.len()
            invariant
                i <= self.variants@.len(),
                v0 == self.sp_state().variants,
                kept@.map_values(|v: (String, u32, ImageBuf)| sp_variant_abs(v))
                    == sp_drop_variants_to(v0, id@, i as int),
            decreases self.variants@.len() - i,
        {
            let keep = !(self.variants[i].0 == *id);
            if keep {
                let entry = (self.variants[i].0.clone(), self.variants[i].1, self.variants[i].2.duplicate());
                kept.push(entry);
                proof {
                    assert(kept@.map_values(|v: (String, u32, ImageBuf)| sp_variant_abs(v))
                        =~= sp_drop_variants_to(v0, id@, i + 1));
                }
            }
            i = i + 1;
        }
        self.variants = kept;
    }

    /// Remove the master entry of `id`, if resident.
    fn remove_master_entry(&mut self, id: &String)
        ensures
            final(self).variants == old(self).variants,
            final(self).lru == old(self).lru,
            final(self).decodes == old(self).decodes,
            final(self).sp_state().masters == sp_remove_master(old(self).sp_state().masters, id@),
    {
        let ghost m0 = self.sp_state().masters;
        match self.find_master_index(id) {
            Some(k) => {
                self.masters.remove(k);
                proof {
                    assert(self.masters@.map_values(|p: (String, CachedMaster)| sp_master_abs(p))
                        =~= m0.remove(k as int));
                }
            },
            None => {},
        }
    }

    /// Evict least-recently-used assets until the resident bound holds.
    fn evict_if_needed(&mut self)
        ensures
            final(self).sp_state() == sp_evict(old(self).sp_state()),
            final(self).decodes == old(self).decodes,
    {
        let ghost s0 = self.sp_state();
        while self.lru.len() > PREVIEW_CACHE_ASSETS
            invariant
                sp_evict(self.sp_state()) == sp_evict(s0),
                self.decodes == old(self).decodes,
            decreases self.lru@.len(),
        {
            let ghost s = self.sp_state();
            let ghost l0 = self.sp_state().lru;
            let id = self.lru.remove(0);
            proof {
                assert(self.lru@.map_values(|x: String| x@) =~= l0.drop_first());
                assert(id@ == l0[0]);
            }
            self.remove_master_entry(&id);
            self.drop_variants_for(&id);
            proof {
                let stepped = CacheState {
                    masters: sp_remove_master(s.masters, s.lru[0]),
                    variants: sp_drop_variants(s.variants, s.lru[0]),
                    lru: s.lru.drop_first(),
                    decodes: s.decodes,
                };
                assert(self.sp_state().masters == stepped.masters);
                assert(self.sp_state().variants == stepped.variants);
                assert(self.sp_state().lru == stepped.lru);
                assert(self.sp_state() == stepped);
                assert(sp_evict(s) == sp_evict(stepped));
            }
        }
        proof {
            assert(sp_evict(self.sp_state()) == self.sp_state());
        }
    }

    /// Store a freshly decoded master for `id`, discarding the asset's
    /// variants, refreshing recency, and evicting; returns the stored
    /// buffer.
    fn store_master(&mut self, id: &String, img: ImageBuf) -> (r: ImageBuf)
        requires
            old(self).wf(),
            img.wf(),
        ensures
            final(self).wf(),
            final(self).decodes == old(self).decodes,
            r.width == img.width,
            r.height == img.height,
            r.data@ == img.data@,
            final(self).sp_state() == sp_store_master(
                old(self).sp_state(),
                id@,
                MasterEntry {
                    id: id@,
                    max_dim: img.spec_max_dim(),
                    width: img.width as int,
                    height: img.height as int,
                    data: img.data@,
                },
            ),
    {
        let ghost s0 = self.sp_state();
        let ghost m = MasterEntry {
            id: id@,
            max_dim: img.spec_max_dim(),
            width: img.width as int,
            height: img.height as int,
            data: img.data@,
        };
        let max_dim = img.max_dim();
        let stored = CachedMaster { img: img.duplicate(), max_dim };
        let ghost k0 = sp_find_master(s0.masters, id@, 0);
        match self.find_master_index(id) {
            Some(k) => {
                self.masters[k] = (id.clone(), stored);
                proof {
                    assert(self.masters@.map_values(|p: (String, CachedMaster)| sp_master_abs(p))
                        =~= s0.masters.update(k as int, m));
                }
            },
            None => {
                self.masters.push((id.clone(), stored));
                proof {
                    assert(self.masters@.map_values(|p: (String, CachedMaster)| sp_master_abs(p))
                        =~= s0.masters.push(m));
                }
            },
        }
        let ghost ms1 = if k0 >= 0 {
            s0.masters.update(k0, m)
        } else {
            s0.masters.push(m)
        };
        self.drop_variants_for(id);
        self.touch_asset(id);
        let ghost pre_evict = CacheState {
            masters: ms1,
            variants: sp_drop_variants(s0.variants, id@),
            lru: sp_touch(s0.lru, id@),
            decodes: s0.decodes,
        };
        proof {
            assert(self.sp_state().masters == pre_evict.masters);
            assert(self.sp_state().variants == pre_evict.variants);
            assert(self.sp_state().lru == pre_evict.lru);
            assert(self.sp_state() == pre_evict);
            lemma_find_master_range(s0.masters, id@, 0);
            assert forall|i: int| 0 <= i < ms1.len() implies sp_mentry_wf(#[trigger] ms1[i]) by {
                if k0 >= 0 && i == k0 {
                    assert(ms1[i] == m);
                } else if i < s0.masters.len() {
                    assert(ms1[i] == s0.masters[i]);
                } else {
                    assert(ms1[i] == m);
                }
            }
            lemma_drop_variants_wf(s0.variants, id@, s0.variants.len() as int);
            lemma_touch_unique(s0.lru, id@);
            assert(sp_state_wf(pre_evict));
            lemma_evict_wf(pre_evict);
        }
        self.evict_if_needed();
        img
    }

    /// Resolve the master for an asset at a requested dimension: return it
    /// when the resident master is at least as large as the clamped
    /// request, else decode at the master envelope and store the result.
    pub fn master_preview(&mut self, asset_id: &String, bytes: &Vec<u8>, requested_dim: u32) -> (r:
        Result<ImageBuf, DecodeError>)
        requires
            old(self).wf(),
            old(self).sp_state().decodes < DECODES_MAX,
        ensures
            final(self).wf(),
            ({
                let s = old(self).sp_state();
                let t = clamp_dim(requested_dim as int);
                &&& sp_master_hit(s, asset_id@, t) ==> r is Ok
                &&& (r matches Ok(img) ==> {
                    &&& img.wf()
                    &&& final(self).sp_state() == sp_master_step(
                        s,
                        asset_id@,
                        t,
                        MasterEntry {
                            id: asset_id@,
                            max_dim: img.spec_max_dim(),
                            width: img.width as int,
                            height: img.height as int,
                            data: img.data@,
                        },
                    )
                    &&& (sp_master_hit(s, asset_id@, t) ==> {
                        let k = sp_find_master(s.masters, asset_id@, 0);
                        &&& img.width as int == s.masters[k].width
                        &&& img.height as int == s.masters[k].height
                        &&& img.data@ == s.masters[k].data
                    })
                    &&& (!sp_master_hit(s, asset_id@, t) && crate::decode::sp_image_backend_ok(
                        bytes@,
                    ) ==> {
                        let dt = if t >= PREVIEW_MASTER_BASE {
                            t
                        } else {
                            PREVIEW_MASTER_BASE as int
                        };
                        MasterEntry {
                            id: asset_id@,
                            max_dim: img.spec_max_dim(),
                            width: img.width as int,
                            height: img.height as int,
                            data: img.data@,
                        } == sp_fresh_image_master(asset_id@, bytes@, dt)
                    })
                })
                &&& (r is Err ==> {
                    &&& *final(self) == *old(self)
                    &&& !sp_master_hit(s, asset_id@, t)
                    &&& !sp_decodable(bytes@)
                })
                &&& (!sp_master_hit(s, asset_id@, t) && !sp_decodable(bytes@) ==> r is Err)
            }),
    {
        let ghost s = self.sp_state();
        let t = normalize_dimension(requested_dim);
        proof {
            lemma_find_master_range(s.masters, asset_id@, 0);
        }
        match self.find_master_index(asset_id) {
            Some(k) => {
                if self.masters[k].1.max_dim >= t {
                    let img = self.masters[k].1.img.duplicate();
                    self.touch_asset(asset_id);
                    proof {
                        lemma_touch_unique(s.lru, asset_id@);
                        let stepped = sp_master_step(
                            s,
                            asset_id@,
                            t as int,
                            MasterEntry {
                                id: asset_id@,
                                max_dim: img.spec_max_dim(),
                                width: img.width as int,
                                height: img.height as int,
                                data: img.data@,
                            },
                        );
                        assert(self.sp_state().masters == stepped.masters);
                        assert(self.sp_state().variants == stepped.variants);
                        assert(self.sp_state().lru == stepped.lru);
                        assert(self.sp_state() == stepped);
                    }
                    return Ok(img);
                }
            },
            None => {},
        }
        let dt = if t >= PREVIEW_MASTER_BASE {
            t
        } else {
            PREVIEW_MASTER_BASE
        };
        let decoded = match render_resized(bytes, dt) {
            Ok(i) => i,
            Err(e) => {
                return Err(e);
            },
        };
        self.decodes = self.decodes + 1;
        let ghost mid = self.sp_state();
        proof {
            assert(mid == CacheState {
                masters: s.masters,
                variants: s.variants,
                lru: s.lru,
                decodes: s.decodes + 1,
            });
        }
        let img = self.store_master(asset_id, decoded);
        proof {
            assert(self.sp_state() == sp_store_master(
                mid,
                asset_id@,
                MasterEntry {
                    id: asset_id@,
                    max_dim: img.spec_max_dim(),
                    width: img.width as int,
                    height: img.height as int,
                    data: img.data@,
                },
            ));
        }
        Ok(img)
    }

    /// Serve the variant phase for a resolved master: hand the master back
    /// within the 4 px tolerance, reuse a resident variant, or store and
    /// return a fresh downscale (then evict). `m_w` is the abstract content
    /// of the resolved master.
    fn resolve_variant(
        &mut self,
        asset_id: &String,
        t: u32,
        master_img: ImageBuf,
        Ghost(m_w): Ghost<MasterEntry>,
    ) -> (r: ImageBuf)
        requires
            old(self).wf(),
            master_img.wf(),
            crate::dims::PREVIEW_MIN_DIM <= t <= crate::dims::PREVIEW_MAX_DIM,
            m_w.id == asset_id@,
            m_w.width == master_img.width as int,
            m_w.height == master_img.height as int,
            m_w.data == master_img.data@,
            m_w.max_dim == master_img.spec_max_dim(),
        ensures
            final(self).wf(),
            r.wf(),
            final(self).sp_state() == sp_variant_phase(
                old(self).sp_state(),
                asset_id@,
                t as int,
                m_w,
            ),
            final(self).sp_state().decodes == old(self).sp_state().decodes,
            sp_served_rel(old(self).sp_state(), asset_id@, t as int, m_w, r),
    {
        let ghost s1 = self.sp_state();
        let master_dim = master_img.max_dim();
        if t + 4 >= master_dim {
            return master_img;
        }
        proof {
            lemma_find_variant_range(s1.variants, asset_id@, t as int, 0);
        }
        match self.find_variant_index(asset_id, t) {
            Some(k) => {
                let img = self.variants[k].2.duplicate();
                proof {
                    assert(s1.variants[k as int] == sp_variant_abs(self.variants@[k as int]));
                }
                self.touch_asset(asset_id);
                proof {
                    lemma_touch_unique(s1.lru, asset_id@);
                    assert(self.sp_state().masters == s1.masters);
                    assert(self.sp_state().variants == s1.variants);
                    assert(sp_state_wf(self.sp_state()));
                    assert(self.sp_state() == sp_variant_phase(s1, asset_id@, t as int, m_w));
                }
                img
            },
            None => {
                let resized = resize_rgba_preserve_aspect(&master_img, t);
                let ghost v1 = self.sp_state().variants;
                self.variants.push((asset_id.clone(), t, resized.duplicate()));
                proof {
                    assert(self.variants@.map_values(|v: (String, u32, ImageBuf)| sp_variant_abs(v))
                        =~= v1.push(
                        VariantEntry {
                            id: asset_id@,
                            dim: t as int,
                            width: resized.width as int,
                            height: resized.height as int,
                            data: resized.data@,
                        },
                    ));
                }
                self.touch_asset(asset_id);
                proof {
                    let pre = self.sp_state();
                    assert forall|i: int| 0 <= i < pre.variants.len() implies sp_ventry_wf(
                        #[trigger] pre.variants[i],
                    ) by {
                        if i < v1.len() {
                            assert(pre.variants[i] == v1[i]);
                        }
                    }
                    assert forall|i: int| 0 <= i < pre.masters.len() implies sp_mentry_wf(
                        #[trigger] pre.masters[i],
                    ) by {
                        assert(pre.masters[i] == s1.masters[i]);
                    }
                    lemma_touch_unique(s1.lru, asset_id@);
                    lemma_evict_wf(pre);
                    lemma_evict_decodes(pre);
                    crate::dims::lemma_target_size_larger_side(m_w.width, m_w.height, t as int);
                    assert(!(resized.width as int == m_w.width && resized.height as int
                        == m_w.height));
                    assert(resized.data@ == crate::codec::cubic_resize(
                        m_w.data,
                        m_w.width as nat,
                        m_w.height as nat,
                        resized.width as nat,
                        resized.height as nat,
                    ));
                    assert(pre == CacheState {
                        masters: s1.masters,
                        variants: s1.variants.push(
                            VariantEntry {
                                id: asset_id@,
                                dim: t as int,
                                width: resized.width as int,
                                height: resized.height as int,
                                data: resized.data@,
                            },
                        ),
                        lru: sp_touch(s1.lru, asset_id@),
                        decodes: s1.decodes,
                    });
                }
                self.evict_if_needed();
                proof {
                    assert(self.sp_state() == sp_variant_phase(s1, asset_id@, t as int, m_w));
                }
                resized
            },
        }
    }

    /// Resolve a preview at a requested dimension: resolve the master, then
    /// hand back the master itself when the request is within 4 px of its
    /// envelope, a cached variant on a repeat request, or a freshly
    /// downscaled variant otherwise.
    pub fn scaled_preview(&mut self, asset_id: &String, bytes: &Vec<u8>, requested_dim: u32) -> (r:
        Result<ImageBuf, DecodeError>)
        requires
            old(self).wf(),
            old(self).sp_state().decodes < DECODES_MAX,
        ensures
            final(self).wf(),
            r matches Ok(img) ==> img.wf(),
            ({
                let s = old(self).sp_state();
                let t = clamp_dim(requested_dim as int);
                &&& sp_master_hit(s, asset_id@, t) ==> (r is Ok && final(self).sp_state().decodes
                    == s.decodes)
                &&& (!sp_master_hit(s, asset_id@, t) && r is Ok ==> final(self).sp_state().decodes
                    == s.decodes + 1)
                &&& (r is Err ==> *final(self) == *old(self) && !sp_decodable(bytes@))
                &&& (!sp_master_hit(s, asset_id@, t) && !sp_decodable(bytes@) ==> r is Err)
            }),
            r matches Ok(img) ==> sp_scaled_post(
                old(self).sp_state(),
                asset_id@,
                clamp_dim(requested_dim as int),
                sp_resolved_master(
                    old(self).sp_state(),
                    asset_id@,
                    clamp_dim(requested_dim as int),
                    final(self).sp_state(),
                    img,
                ),
                final(self).sp_state(),
                img,
            ),
            ({
                let s = old(self).sp_state();
                let t = clamp_dim(requested_dim as int);
                let dt = if t >= PREVIEW_MASTER_BASE {
                    t
                } else {
                    PREVIEW_MASTER_BASE as int
                };
                !sp_master_hit(s, asset_id@, t) && sp_image_backend_ok(bytes@) ==> (r matches Ok(
                    img,
                ) ==> sp_scaled_post(
                    s,
                    asset_id@,
                    t,
                    sp_fresh_image_master(asset_id@, bytes@, dt),
                    final(self).sp_state(),
                    img,
                ))
            }),
    {
        let ghost s = self.sp_state();
        let t = normalize_dimension(requested_dim);
        proof {
            lemma_find_master_range(s.masters, asset_id@, 0);
        }
        let master_img = match self.master_preview(asset_id, bytes, requested_dim) {
            Ok(i) => i,
            Err(e) => {
                return Err(e);
            },
        };
        let ghost m_w = MasterEntry {
            id: asset_id@,
            max_dim: master_img.spec_max_dim(),
            width: master_img.width as int,
            height: master_img.height as int,
            data: master_img.data@,
        };
        proof {
            assert(self.sp_state() == sp_master_step(s, asset_id@, t as int, m_w));
            lemma_master_step_decodes(s, asset_id@, t as int, m_w);
            if sp_master_hit(s, asset_id@, t as int) {
                let k = sp_find_master(s.masters, asset_id@, 0);
                assert(sp_mentry_wf(s.masters[k]));
                assert(m_w == s.masters[k]);
            }
        }
        let img = self.resolve_variant(asset_id, t, master_img, Ghost(m_w));
        proof {
            reveal(sp_scaled_post);
            lemma_variant_phase_decodes(
                sp_master_step(s, asset_id@, t as int, m_w),
                asset_id@,
                t as int,
                m_w,
            );
            assert(sp_scaled_post(s, asset_id@, t as int, m_w, self.sp_state(), img));
            assert(t as int == clamp_dim(requested_dim as int));
            assert(sp_scaled_post(
                s,
                asset_id@,
                clamp_dim(requested_dim as int),
                m_w,
                self.sp_state(),
                img,
            ));
            assert(sp_scaled_post(
                s,
                asset_id@,
                clamp_dim(requested_dim as int),
                sp_resolved_master(
                    s,
                    asset_id@,
                    clamp_dim(requested_dim as int),
                    self.sp_state(),
                    img,
                ),
                self.sp_state(),
                img,
            )) by {
                let t0 = clamp_dim(requested_dim as int);
                assert(sp_scaled_post(s, asset_id@, t0, m_w, self.sp_state(), img));
                assert(exists|m: MasterEntry| sp_scaled_post(s, asset_id@, t0, m, self.sp_state(), img));
            }
            if !sp_master_hit(s, asset_id@, t as int) && sp_image_backend_ok(bytes@) {
                let dt = if t as int >= PREVIEW_MASTER_BASE {
                    t as int
                } else {
                    PREVIEW_MASTER_BASE as int
                };
                assert(m_w == sp_fresh_image_master(asset_id@, bytes@, dt));
            }
        }
        Ok(img)
    }
}

} // verus!
