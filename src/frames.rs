use vstd::prelude::*;
use crate::decode::Bitmap;
use crate::size::{SplatterSize, anchor, anchor_of};

verus! {

/// Number of animation frames of every frame set.
pub const FRAME_COUNT: usize = 4;

/// The frame that an animation shows at `frame`: the frame itself while it
/// exists, the last one afterwards.
pub open spec fn clamp_frame(frame: int) -> int {
    if frame < FRAME_COUNT {
        frame
    } else {
        FRAME_COUNT - 1
    }
}

/// The frame shown at animation step `frame`.
pub fn frame_slot(frame: usize) -> (r: usize)
    ensures
        r as int == clamp_frame(frame as int),
{
    if frame < FRAME_COUNT {
        frame
    } else {
        FRAME_COUNT - 1
    }
}

/// The four decoded frames of one effect at one size, in order.
pub struct SplatterImages {
    pub i_0: Bitmap,
    pub i_1: Bitmap,
    pub i_2: Bitmap,
    pub i_3: Bitmap,
}

impl SplatterImages {
    /// The frames as a sequence, first to last.
    pub open spec fn frames(&self) -> Seq<Bitmap> {
        seq![self.i_0, self.i_1, self.i_2, self.i_3]
    }

    /// The four frames, first to last.
    pub fn to_arr(&self) -> (r: [&Bitmap; 4])
        ensures
            forall|i: int| 0 <= i < 4 ==> *r@[i] == self.frames()[i],
    {
        [&self.i_0, &self.i_1, &self.i_2, &self.i_3]
    }

    /// The bitmap shown at animation step `frame`, holding the last frame
    /// once the animation has run out.
    pub fn frame(&self, frame: usize) -> (r: &Bitmap)
        ensures
            *r == self.frames()[clamp_frame(frame as int)],
    {
        if frame == 0 {
            &self.i_0
        } else if frame == 1 {
            &self.i_1
        } else if frame == 2 {
            &self.i_2
        } else {
            &self.i_3
        }
    }
}

/// The frames of one effect at both sizes.
pub struct Splatter<'a> {
    pub frames_r: [&'a Bitmap; 4],
    pub frames_l: [&'a Bitmap; 4],
}

impl<'a> Splatter<'a> {
    /// The frames drawn at `size`.
    pub open spec fn frames_of(&self, size: SplatterSize) -> Seq<Bitmap> {
        match size {
            SplatterSize::Regular => self.frames_r@.map_values(|f: &'a Bitmap| *f),
            SplatterSize::Large => self.frames_l@.map_values(|f: &'a Bitmap| *f),
        }
    }

    /// Pairs the frame sets of one effect.
    pub fn new(regular: &'a SplatterImages, large: &'a SplatterImages) -> (r: Splatter<'a>)
        ensures
            r.frames_of(SplatterSize::Regular) == regular.frames(),
            r.frames_of(SplatterSize::Large) == large.frames(),
    {
        let r = Splatter { frames_r: regular.to_arr(), frames_l: large.to_arr() };
        assert(r.frames_of(SplatterSize::Regular) =~= regular.frames());
        assert(r.frames_of(SplatterSize::Large) =~= large.frames());
        r
    }

    /// Where a bitmap of this splatter at `size` is drawn to be centred on the
    /// pixel `(x, y)`, held at the least `i64`.
    pub fn at(&self, x: i64, y: i64, size: &SplatterSize) -> (r: (i64, i64))
        ensures
            (r.0 as int, r.1 as int) == anchor_of(x as int, y as int, *size),
    {
        anchor(x, y, size)
    }

    /// The bitmap shown at animation step `frame`, holding the last frame
    /// once the animation has run out.
    pub fn frame(&self, frame: usize, size: &SplatterSize) -> (r: &'a Bitmap)
        ensures
            *r == self.frames_of(*size)[clamp_frame(frame as int)],
    {
        let frames = match size {
            SplatterSize::Regular => &self.frames_r,
            SplatterSize::Large => &self.frames_l,
        };
        frames[frame_slot(frame)]
    }
}

} // verus!
