use vstd::prelude::*;
use crate::decode::{Bitmap, SplatterError, decodes, decoded, decode_outcome, image_from_str, try_image_from_str};
use crate::frames::{FRAME_COUNT, SplatterImages, Splatter, clamp_frame};
use crate::size::{SplatterSize, size_slot, anchor_of};

verus! {

/// Number of distinct effects.
pub const EFFECT_COUNT: usize = 4;

/// Number of frame sets: one per effect and size variant.
pub const SET_COUNT: usize = 8;

/// Number of encoded assets: one per effect, size variant and frame.
pub const ASSET_COUNT: usize = 32;

/// The effect whose frames an effect id is drawn with: itself where it is
/// known, effect 0 otherwise.
pub open spec fn registry_id(index: int) -> int {
    if 0 <= index < EFFECT_COUNT {
        index
    } else {
        0
    }
}

/// Position of the frame set of `effect` at `size`.
pub open spec fn set_index(effect: int, size: SplatterSize) -> int {
    effect * 2 + size_slot(size)
}

/// Position of the encoded asset of one frame of `effect` at `size`.
pub open spec fn asset_index(effect: int, size: SplatterSize, frame: int) -> int {
    set_index(effect, size) * FRAME_COUNT + frame
}

/// The encoded assets, one unpadded base-64 PNG text for each effect, size
/// variant and frame, laid out by `asset_index`.
pub struct AssetTable {
    texts: Vec<String>,
}

impl AssetTable {
    pub closed spec fn view(&self) -> Seq<Seq<char>> {
        self.texts@.map_values(|t: String| t@)
    }

    pub open spec fn wf(&self) -> bool {
        self@.len() == ASSET_COUNT
    }

    /// The text of one frame of `effect` at `size`.
    pub open spec fn text(&self, effect: int, size: SplatterSize, frame: int) -> Seq<char> {
        self@[asset_index(effect, size, frame)]
    }

    /// Takes the texts in the order of `asset_index`; there must be exactly
    /// one for each effect, size variant and frame.
    pub fn new(texts: Vec<String>) -> (r: Option<AssetTable>)
        ensures
            r is Some <==> texts@.len() == ASSET_COUNT,
            r is Some ==> r->Some_0@ == texts@.map_values(|t: String| t@) && r->Some_0.wf(),
    {
        if texts.len() == ASSET_COUNT {
            Some(AssetTable { texts })
        } else {
            None
        }
    }

    /// Whether all four frames of `effect` at `size` decode.
    pub open spec fn set_decodes(&self, effect: int, size: SplatterSize) -> bool {
        forall|f: int| 0 <= f < FRAME_COUNT ==> decodes(#[trigger] self.text(effect, size, f))
    }

    /// The outcome of decoding the frames of `effect` at `size` in order:
    /// the error of the first frame that fails, if any.
    pub open spec fn set_outcome(&self, effect: int, size: SplatterSize) -> Result<(), SplatterError> {
        let t = |f: int| self.text(effect, size, f);
        if decode_outcome(t(0)) is Err {
            decode_outcome(t(0))
        } else if decode_outcome(t(1)) is Err {
            decode_outcome(t(1))
        } else if decode_outcome(t(2)) is Err {
            decode_outcome(t(2))
        } else {
            decode_outcome(t(3))
        }
    }

    /// Whether `set` holds, frame by frame in order, the bitmaps that the
    /// assets of `effect` at `size` decode to.
    pub open spec fn holds_set(&self, set: SplatterImages, effect: int, size: SplatterSize) -> bool {
        forall|f: int| 0 <= f < FRAME_COUNT ==> #[trigger] set.frames()[f]@ == decoded(self.text(effect, size, f))
    }

    /// Decodes the four frames of `effect` at `size`, in order, stopping at
    /// the first that fails.
    pub fn try_decode_set(&self, effect: usize, size: SplatterSize) -> (r: Result<SplatterImages, SplatterError>)
        requires
            self.wf(),
            effect < EFFECT_COUNT,
        ensures
            r is Ok <==> self.set_decodes(effect as int, size),
            r matches Ok(set) ==> self.holds_set(set, effect as int, size),
            r matches Err(e) ==> e == self.set_outcome(effect as int, size)->Err_0,
    {
        let i_0 = try_image_from_str(self.get(effect, size, 0))?;
        let i_1 = try_image_from_str(self.get(effect, size, 1))?;
        let i_2 = try_image_from_str(self.get(effect, size, 2))?;
        let i_3 = try_image_from_str(self.get(effect, size, 3))?;
        proof {
            assert forall|f: int| 0 <= f < FRAME_COUNT implies decodes(#[trigger] self.text(effect as int, size, f)) by {
                if f == 0 {} else if f == 1 {} else if f == 2 {} else {}
            }
        }
        let set = SplatterImages { i_0, i_1, i_2, i_3 };
        assert(self.holds_set(set, effect as int, size)) by {
            assert forall|f: int| 0 <= f < FRAME_COUNT implies #[trigger] set.frames()[f]@ == decoded(self.text(effect as int, size, f)) by {
                if f == 0 {} else if f == 1 {} else if f == 2 {} else {}
            }
        }
        Ok(set)
    }

    /// Whether every asset of the table decodes.
    pub open spec fn valid(&self) -> bool {
        forall|e: int, s: SplatterSize| 0 <= e < EFFECT_COUNT ==> #[trigger] self.set_decodes(e, s)
    }

    /// Decodes the four frames of `effect` at `size`, all of which are known
    /// to decode.
    pub fn decode_set(&self, effect: usize, size: SplatterSize) -> (r: SplatterImages)
        requires
            self.wf(),
            effect < EFFECT_COUNT,
            self.set_decodes(effect as int, size),
        ensures
            self.holds_set(r, effect as int, size),
    {
        proof {
            assert(decodes(self.text(effect as int, size, 0)));
            assert(decodes(self.text(effect as int, size, 1)));
            assert(decodes(self.text(effect as int, size, 2)));
            assert(decodes(self.text(effect as int, size, 3)));
        }
        let set = SplatterImages {
            i_0: image_from_str(self.get(effect, size, 0)),
            i_1: image_from_str(self.get(effect, size, 1)),
            i_2: image_from_str(self.get(effect, size, 2)),
            i_3: image_from_str(self.get(effect, size, 3)),
        };
        assert(self.holds_set(set, effect as int, size)) by {
            assert forall|f: int| 0 <= f < FRAME_COUNT implies #[trigger] set.frames()[f]@ == decoded(self.text(effect as int, size, f)) by {
                if f == 0 {} else if f == 1 {} else if f == 2 {} else {}
            }
        }
        set
    }

    fn get(&self, effect: usize, size: SplatterSize, frame: usize) -> (r: &str)
        requires
            self.wf(),
            effect < EFFECT_COUNT,
            frame < FRAME_COUNT,
        ensures
            r@ == self.text(effect as int, size, frame as int),
    {
        let slot: usize = match size {
            SplatterSize::Regular => 0,
            SplatterSize::Large => 1,
        };
        self.texts[(effect * 2 + slot) * FRAME_COUNT + frame].as_str()
    }
}

/// The frame sets decoded so far, each decoded at most once and never
/// changed afterwards.
pub struct SplatterCache {
    assets: AssetTable,
    sets: Vec<Option<SplatterImages>>,
}

impl SplatterCache {
    pub closed spec fn assets(&self) -> AssetTable {
        self.assets
    }

    /// The frame sets by `set_index`, `None` where not decoded yet.
    pub closed spec fn sets(&self) -> Seq<Option<SplatterImages>> {
        self.sets@
    }

    /// The assets are complete, there is a slot for every frame set, and
    /// every decoded set holds the bitmaps of its own assets in frame order.
    pub open spec fn wf(&self) -> bool {
        &&& self.assets().wf()
        &&& self.sets().len() == SET_COUNT
        &&& forall|e: int, s: SplatterSize| 0 <= e < EFFECT_COUNT && #[trigger] self.built(e, s)
                ==> self.assets().holds_set(self.set(e, s), e, s)
    }

    pub open spec fn built(&self, effect: int, size: SplatterSize) -> bool {
        self.sets()[set_index(effect, size)] is Some
    }

    /// Whether every frame set has been decoded.
    pub open spec fn all_built(&self) -> bool {
        forall|e: int, s: SplatterSize| 0 <= e < EFFECT_COUNT ==> #[trigger] self.built(e, s)
    }

    /// Whether all four frames of `effect` at `size` decode.
    pub open spec fn set_decodes(&self, effect: int, size: SplatterSize) -> bool {
        self.assets().set_decodes(effect, size)
    }

    pub open spec fn set_outcome(&self, effect: int, size: SplatterSize) -> Result<(), SplatterError> {
        self.assets().set_outcome(effect, size)
    }

    /// Whether the frame set of `effect` at `size` is decoded or decodes.
    pub open spec fn ready(&self, effect: int, size: SplatterSize) -> bool {
        self.built(effect, size) || self.set_decodes(effect, size)
    }

    /// Whether both frame sets of `effect` are decoded or decode.
    pub open spec fn pair_ready(&self, effect: int) -> bool {
        self.ready(effect, SplatterSize::Regular) && self.ready(effect, SplatterSize::Large)
    }

    /// The error of building both frame sets of `effect`, the regular one
    /// first, where one of them fails.
    pub open spec fn pair_error(&self, effect: int) -> SplatterError {
        if !self.ready(effect, SplatterSize::Regular) {
            self.set_outcome(effect, SplatterSize::Regular)->Err_0
        } else {
            self.set_outcome(effect, SplatterSize::Large)->Err_0
        }
    }

    /// Whether `after` holds the frame sets of `self` for every effect but
    /// `effect`, and every set of `self` that was decoded, unchanged.
    pub open spec fn keeps_others(&self, after: SplatterCache, effect: int) -> bool {
        &&& after.wf()
        &&& after.assets() == self.assets()
        &&& forall|j: int| 0 <= j < SET_COUNT && j != set_index(effect, SplatterSize::Regular)
                && j != set_index(effect, SplatterSize::Large) ==> #[trigger] after.sets()[j] == self.sets()[j]
        &&& forall|e: int, s: SplatterSize| 0 <= e < EFFECT_COUNT && #[trigger] self.built(e, s)
                ==> after.built(e, s) && after.set(e, s) == self.set(e, s)
    }

    /// The frame set of `effect` at `size`, once decoded.
    pub open spec fn set(&self, effect: int, size: SplatterSize) -> SplatterImages {
        self.sets()[set_index(effect, size)]->Some_0
    }

    /// The bitmap drawn for effect id `index` at animation step `frame`.
    pub open spec fn resolved(&self, index: int, frame: int, size: SplatterSize) -> Bitmap {
        self.set(registry_id(index), size).frames()[clamp_frame(frame)]
    }

    /// A cache over `assets` with nothing decoded yet.
    pub fn new(assets: AssetTable) -> (r: SplatterCache)
        requires
            assets.wf(),
        ensures
            r.wf(),
            r.assets() == assets,
            forall|e: int, s: SplatterSize| 0 <= e < EFFECT_COUNT ==> !#[trigger] r.built(e, s),
    {
        let mut sets: Vec<Option<SplatterImages>> = Vec::new();
        let mut i: usize = 0;
        while i < SET_COUNT
            invariant
                i <= SET_COUNT,
                sets@.len() == i,
                forall|j: int| 0 <= j < i ==> sets@[j] is None,
            decreases SET_COUNT - i,
        {
            sets.push(None);
            i = i + 1;
        }
        SplatterCache { assets, sets }
    }

    /// The frame set of `effect` at `size` if it is decoded already; never
    /// decodes, so it can be shared by readers once the cache is warm.
    pub fn decoded(&self, effect: usize, size: SplatterSize) -> (r: Option<&SplatterImages>)
        requires
            self.wf(),
            effect < EFFECT_COUNT,
        ensures
            r is Some <==> self.built(effect as int, size),
            r is Some ==> *r->Some_0 == self.set(effect as int, size),
    {
        let k: usize = match size {
            SplatterSize::Regular => effect * 2,
            SplatterSize::Large => effect * 2 + 1,
        };
        self.sets[k].as_ref()
    }

    /// The frame set of `effect` at `size`, decoding its four frames if this
    /// is the first request for it. A set that is already there is returned
    /// as it is, and the cache is left unchanged; a set that fails to decode
    /// leaves the cache unchanged too.
    pub fn get(&mut self, effect: usize, size: SplatterSize) -> (r: Result<&SplatterImages, SplatterError>)
        requires
            old(self).wf(),
            effect < EFFECT_COUNT,
        ensures
            final(self).wf(),
            final(self).assets() == old(self).assets(),
            r is Ok <==> old(self).built(effect as int, size) || old(self).set_decodes(effect as int, size),
            r is Err ==> r == Err::<&SplatterImages, SplatterError>(old(self).set_outcome(effect as int, size)->Err_0),
            r is Ok ==> final(self).built(effect as int, size)
                && *r->Ok_0 == final(self).set(effect as int, size)
                && final(self).sets() == old(self).sets().update(
                    set_index(effect as int, size),
                    Some(final(self).set(effect as int, size)),
                ),
            old(self).built(effect as int, size) || r is Err ==> *final(self) == *old(self),
    {
        let k: usize = match size {
            SplatterSize::Regular => effect * 2,
            SplatterSize::Large => effect * 2 + 1,
        };
        if self.sets[k].is_none() {
            let set = self.assets.try_decode_set(effect, size)?;
            let ghost before = *self;
            self.sets.set(k, Some(set));
            proof {
                assert forall|e: int, s: SplatterSize| 0 <= e < EFFECT_COUNT && #[trigger] self.built(e, s)
                    implies self.assets().holds_set(self.set(e, s), e, s) by {
                    if set_index(e, s) != k {
                        assert(before.built(e, s));
                    }
                }
            }
        }
        Ok(self.sets[k].as_ref().unwrap())
    }

    /// The size variant of the frame set at position `k`.
    pub open spec fn size_at(k: int) -> SplatterSize {
        if k % 2 == 0 {
            SplatterSize::Regular
        } else {
            SplatterSize::Large
        }
    }

    /// Whether the frame set at position `k` is decoded already or decodes.
    pub open spec fn ready_at(&self, k: int) -> bool {
        self.built(k / 2, Self::size_at(k)) || self.set_decodes(k / 2, Self::size_at(k))
    }

    /// The outcome of warming the frame sets from position `k` on, in order:
    /// the error of the first one that is not decoded yet and fails.
    pub open spec fn warm_outcome(&self, k: int) -> Result<(), SplatterError>
        decreases SET_COUNT - k,
    {
        if k >= SET_COUNT {
            Ok(())
        } else if !self.ready_at(k) {
            self.set_outcome(k / 2, Self::size_at(k))
        } else {
            self.warm_outcome(k + 1)
        }
    }

    proof fn lemma_set_outcome(&self, effect: int, size: SplatterSize)
        ensures
            self.set_outcome(effect, size) is Ok <==> self.set_decodes(effect, size),
    {
        let assets = self.assets();
        let t = |f: int| assets.text(effect, size, f);
        assert(decode_outcome(t(0)) is Ok <==> decodes(t(0)));
        assert(decode_outcome(t(1)) is Ok <==> decodes(t(1)));
        assert(decode_outcome(t(2)) is Ok <==> decodes(t(2)));
        assert(decode_outcome(t(3)) is Ok <==> decodes(t(3)));
        if self.set_outcome(effect, size) is Ok {
            assert forall|f: int| 0 <= f < FRAME_COUNT implies decodes(#[trigger] self.assets().text(effect, size, f)) by {
                if f == 0 {} else if f == 1 {} else if f == 2 {} else {}
            }
        }
    }

    proof fn lemma_warm_outcome(&self, k: int)
        requires
            0 <= k <= SET_COUNT,
        ensures
            self.warm_outcome(k) is Ok <==> forall|j: int| k <= j < SET_COUNT ==> #[trigger] self.ready_at(j),
        decreases SET_COUNT - k,
    {
        if k < SET_COUNT {
            self.lemma_warm_outcome(k + 1);
            if !self.ready_at(k) {
                self.lemma_set_outcome(k / 2, Self::size_at(k));
            }
        }
    }

    /// Decodes every frame set that is not decoded yet, in the order of
    /// `set_index`, and stops at the first that fails. Sets that were there
    /// stay as they were; on a cache that holds every set nothing changes.
    pub fn try_precompute(&mut self) -> (r: Result<(), SplatterError>)
        requires
            old(self).wf(),
        ensures
            final(self).wf(),
            final(self).assets() == old(self).assets(),
            r == old(self).warm_outcome(0),
            r is Ok <==> forall|k: int| 0 <= k < SET_COUNT ==> #[trigger] old(self).ready_at(k),
            r is Ok ==> final(self).all_built(),
            forall|e: int, s: SplatterSize| 0 <= e < EFFECT_COUNT && #[trigger] old(self).built(e, s)
                ==> final(self).built(e, s) && final(self).set(e, s) == old(self).set(e, s),
            old(self).all_built() ==> *final(self) == *old(self),
    {
        proof { self.lemma_warm_outcome(0); }
        let ghost start = *self;
        let mut k: usize = 0;
        while k < SET_COUNT
            invariant
                k <= SET_COUNT,
                self.wf(),
                self.assets() == start.assets(),
                start == *old(self),
                start.wf(),
                start.warm_outcome(0) == start.warm_outcome(k as int),
                forall|j: int| 0 <= j < k ==> #[trigger] self.sets()[j] is Some,
                forall|j: int| k <= j < SET_COUNT ==> #[trigger] self.sets()[j] == start.sets()[j],
                forall|j: int| 0 <= j < SET_COUNT && start.sets()[j] is Some ==> #[trigger] self.sets()[j] == start.sets()[j],
                start.all_built() ==> *self == start,
            decreases SET_COUNT - k,
        {
            let effect: usize = k / 2;
            let size = if k % 2 == 0 {
                SplatterSize::Regular
            } else {
                SplatterSize::Large
            };
            assert(set_index(effect as int, size) == k);
            match self.get(effect, size) {
                Err(e) => {
                    return Err(e);
                },
                Ok(_) => {},
            }
            k = k + 1;
        }
        proof {
            assert forall|e: int, s: SplatterSize| 0 <= e < EFFECT_COUNT implies #[trigger] self.built(e, s) by {
                assert(self.sets()[set_index(e, s)] is Some);
            }
        }
        Ok(())
    }
}

impl SplatterCache {
    /// The frame set of `effect` at `size`, for a cache whose assets all
    /// decode.
    pub fn get_valid(&mut self, effect: usize, size: SplatterSize) -> (r: &SplatterImages)
        requires
            old(self).wf(),
            effect < EFFECT_COUNT,
            old(self).set_decodes(effect as int, size),
        ensures
            final(self).wf(),
            final(self).assets() == old(self).assets(),
            final(self).built(effect as int, size),
            *r == final(self).set(effect as int, size),
            final(self).sets() == old(self).sets().update(
                set_index(effect as int, size),
                Some(final(self).set(effect as int, size)),
            ),
            old(self).built(effect as int, size) ==> *final(self) == *old(self),
    {
        self.get(effect, size).unwrap()
    }

    /// Decodes every frame set not decoded yet, for a cache whose assets all
    /// decode, the fixed asset set being a precondition of the program.
    pub fn precompute(&mut self)
        requires
            old(self).wf(),
            old(self).assets().valid(),
        ensures
            final(self).wf(),
            final(self).assets() == old(self).assets(),
            final(self).all_built(),
            forall|e: int, s: SplatterSize| 0 <= e < EFFECT_COUNT && #[trigger] old(self).built(e, s)
                ==> final(self).set(e, s) == old(self).set(e, s),
            old(self).all_built() ==> *final(self) == *old(self),
    {
        proof {
            assert forall|k: int| 0 <= k < SET_COUNT implies #[trigger] self.ready_at(k) by {
                assert(self.assets().set_decodes(k / 2, Self::size_at(k)));
            }
        }
        let r = self.try_precompute();
        assert(r is Ok);
    }

    /// A cache over `assets` with every frame set decoded, or `None` where
    /// some asset does not decode.
    pub fn checked(assets: AssetTable) -> (r: Option<SplatterCache>)
        requires
            assets.wf(),
        ensures
            r is Some <==> assets.valid(),
            r matches Some(c) ==> c.wf() && c.all_built() && c.assets() == assets,
    {
        let mut cache = SplatterCache::new(assets);
        proof {
            let c = cache;
            assert forall|e: int, s: SplatterSize| 0 <= e < EFFECT_COUNT implies
                (#[trigger] assets.set_decodes(e, s) <==> c.ready_at(set_index(e, s))) by {
                let k = set_index(e, s);
                assert(k / 2 == e && Self::size_at(k) == s);
            }
            assert forall|k: int| 0 <= k < SET_COUNT implies
                (#[trigger] c.ready_at(k) <==> assets.set_decodes(k / 2, Self::size_at(k))) by {
                assert(set_index(k / 2, Self::size_at(k)) == k);
            }
        }
        match cache.try_precompute() {
            Ok(()) => Some(cache),
            Err(_) => None,
        }
    }
}

/// Both frame sets of `effect`, the regular one built first.
fn effect_splatter<'a>(cache: &'a mut SplatterCache, effect: usize) -> (r: Result<Splatter<'a>, SplatterError>)
    requires
        old(cache).wf(),
        effect < EFFECT_COUNT,
    ensures
        old(cache).keeps_others(*final(cache), effect as int),
        r is Ok <==> old(cache).pair_ready(effect as int),
        r matches Err(err) ==> err == old(cache).pair_error(effect as int),
        r is Ok ==> {
            &&& final(cache).built(effect as int, SplatterSize::Regular)
            &&& final(cache).built(effect as int, SplatterSize::Large)
            &&& r->Ok_0.frames_of(SplatterSize::Regular) == final(cache).set(effect as int, SplatterSize::Regular).frames()
            &&& r->Ok_0.frames_of(SplatterSize::Large) == final(cache).set(effect as int, SplatterSize::Large).frames()
        },
        old(cache).built(effect as int, SplatterSize::Regular) && old(cache).built(effect as int, SplatterSize::Large)
            ==> *final(cache) == *old(cache),
{
    cache.get(effect, SplatterSize::Regular)?;
    cache.get(effect, SplatterSize::Large)?;
    let c: &'a SplatterCache = cache;
    let regular = c.sets[effect * 2].as_ref().unwrap();
    let large = c.sets[effect * 2 + 1].as_ref().unwrap();
    Ok(Splatter::new(regular, large))
}

impl<'a> Splatter<'a> {
    /// The splatter of effect id `num`, decoding whichever of its two frame
    /// sets is not decoded yet, the regular one first. Unknown ids get the
    /// frames of effect 0.
    pub fn num(cache: &'a mut SplatterCache, num: u8) -> (r: Result<Splatter<'a>, SplatterError>)
        requires
            old(cache).wf(),
        ensures
            ({
                let e = registry_id(num as int);
                &&& old(cache).keeps_others(*final(cache), e)
                &&& r is Ok <==> old(cache).pair_ready(e)
                &&& r matches Err(err) ==> err == old(cache).pair_error(e)
                &&& r is Ok ==> {
                    &&& final(cache).built(e, SplatterSize::Regular)
                    &&& final(cache).built(e, SplatterSize::Large)
                    &&& r->Ok_0.frames_of(SplatterSize::Regular) == final(cache).set(e, SplatterSize::Regular).frames()
                    &&& r->Ok_0.frames_of(SplatterSize::Large) == final(cache).set(e, SplatterSize::Large).frames()
                }
                &&& old(cache).built(e, SplatterSize::Regular) && old(cache).built(e, SplatterSize::Large)
                    ==> *final(cache) == *old(cache)
            }),
    {
        effect_splatter(cache, effect_for(num as usize))
    }
}

/// The effect whose frames effect id `index` is drawn with.
pub fn effect_for(index: usize) -> (r: usize)
    ensures
        r == registry_id(index as int),
{
    if index < EFFECT_COUNT {
        index
    } else {
        0
    }
}

/// The bitmap of effect id `index` at animation step `frame` and `size`,
/// with the anchor at which it is drawn centred on the pixel `(x, y)`. The
/// effect's two frame sets are decoded on its first use, the regular one
/// first; unknown ids get the frames of effect 0, and steps past the last
/// frame get the last frame.
pub fn for_index<'a>(
    cache: &'a mut SplatterCache,
    index: usize,
    frame: usize,
    size: SplatterSize,
    x: i64,
    y: i64,
) -> (r: Result<(&'a Bitmap, (i64, i64)), SplatterError>)
    requires
        old(cache).wf(),
    ensures
        ({
            let e = registry_id(index as int);
            &&& old(cache).keeps_others(*final(cache), e)
            &&& r is Ok <==> old(cache).pair_ready(e)
            &&& r matches Err(err) ==> err == old(cache).pair_error(e)
            &&& r is Ok ==> {
                &&& final(cache).built(e, SplatterSize::Regular)
                &&& final(cache).built(e, SplatterSize::Large)
                &&& *r->Ok_0.0 == final(cache).resolved(index as int, frame as int, size)
                &&& r->Ok_0.0@ == decoded(old(cache).assets().text(e, size, clamp_frame(frame as int)))
                &&& (r->Ok_0.1.0 as int, r->Ok_0.1.1 as int) == anchor_of(x as int, y as int, size)
            }
            &&& old(cache).built(e, SplatterSize::Regular) && old(cache).built(e, SplatterSize::Large)
                ==> *final(cache) == *old(cache)
        }),
{
    let s = effect_splatter(cache, effect_for(index))?;
    Ok((s.frame(frame, &size), s.at(x, y, &size)))
}

/// The bitmap of effect id `index` at animation step `frame` and `size`,
/// with its anchor, for a cache whose assets all decode: the entry point of
/// a renderer drawing the fixed asset set.
pub fn resolve<'a>(
    cache: &'a mut SplatterCache,
    index: usize,
    frame: usize,
    size: SplatterSize,
    x: i64,
    y: i64,
) -> (r: (&'a Bitmap, (i64, i64)))
    requires
        old(cache).wf(),
        old(cache).assets().valid(),
    ensures
        ({
            let e = registry_id(index as int);
            &&& old(cache).keeps_others(*final(cache), e)
            &&& final(cache).built(e, SplatterSize::Regular)
            &&& final(cache).built(e, SplatterSize::Large)
            &&& *r.0 == final(cache).resolved(index as int, frame as int, size)
            &&& r.0@ == decoded(old(cache).assets().text(e, size, clamp_frame(frame as int)))
            &&& (r.1.0 as int, r.1.1 as int) == anchor_of(x as int, y as int, size)
            &&& old(cache).built(e, SplatterSize::Regular) && old(cache).built(e, SplatterSize::Large)
                ==> *final(cache) == *old(cache)
        }),
{
    proof {
        let e = registry_id(index as int);
        assert(old(cache).assets().set_decodes(e, SplatterSize::Regular));
        assert(old(cache).assets().set_decodes(e, SplatterSize::Large));
    }
    for_index(cache, index, frame, size, x, y).unwrap()
}

/// Once every frame set is decoded, every effect id finds both of its
/// frame sets decoded: `for_index` and `resolve` then decode nothing and
/// leave the cache as it was.
pub proof fn lemma_warm_cache_needs_no_decoding(cache: SplatterCache, index: int)
    requires
        cache.wf(),
        cache.all_built(),
    ensures
        cache.built(registry_id(index), SplatterSize::Regular),
        cache.built(registry_id(index), SplatterSize::Large),
{
}

/// Every animation step at or past the number of frames shows the last
/// frame.
pub proof fn lemma_late_frames_hold_the_last(cache: SplatterCache, index: int, frame: int, size: SplatterSize)
    requires
        frame >= FRAME_COUNT,
    ensures
        cache.resolved(index, frame, size) == cache.resolved(index, FRAME_COUNT - 1, size),
{
}

/// An effect id outside the known effects is drawn exactly as effect 0.
pub proof fn lemma_unknown_effect_is_effect_zero(cache: SplatterCache, index: int, frame: int, size: SplatterSize)
    requires
        !(0 <= index < EFFECT_COUNT),
    ensures
        cache.resolved(index, frame, size) == cache.resolved(0, frame, size),
{
}

/// Two caches over the same assets hold the same bitmaps: decoding an asset
/// gives the same dimensions and pixel bytes every time.
pub proof fn lemma_decoding_is_deterministic(
    a: SplatterCache,
    b: SplatterCache,
    effect: int,
    size: SplatterSize,
    frame: int,
)
    requires
        a.wf(),
        b.wf(),
        a.assets() == b.assets(),
        0 <= effect < EFFECT_COUNT,
        0 <= frame < FRAME_COUNT,
        a.built(effect, size),
        b.built(effect, size),
    ensures
        a.set(effect, size).frames()[frame]@ == b.set(effect, size).frames()[frame]@,
{
    assert(a.assets().holds_set(a.set(effect, size), effect, size));
    assert(b.assets().holds_set(b.set(effect, size), effect, size));
}

} // verus!
