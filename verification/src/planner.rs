use vstd::prelude::*;

verus! {

/// The limits that steer a scan.
#[derive(Debug, Clone, Copy, PartialEq, Eq, Structural)]
pub struct Thresholds {
    /// No picture with a side shorter than this reaches a decoder.
    pub min_dimension: u32,
    /// A frame that is larger than this on both sides is reduced to this
    /// length on its longer side.
    pub optimal_dimension: u32,
    /// The sides of the centered window are the frame's divided by this.
    /// Below 2 no window is tried.
    pub crop_factor: u32,
    /// A frame that is not reduced to `optimal_dimension` is reduced by this
    /// divisor. Below 2 no such reduction is tried.
    pub resize_factor: u32,
    /// How many readings in a row must agree before a camera scan reports one.
    pub required_consecutive_detections: u32,
    /// The least time between two sampled camera frames, in milliseconds.
    pub min_sample_interval_ms: u64,
}

impl Thresholds {
    /// The limits that are used where the host gives none.
    pub open spec fn standard() -> Thresholds {
        Thresholds {
            min_dimension: 60,
            optimal_dimension: 1200,
            crop_factor: 4,
            resize_factor: 3,
            required_consecutive_detections: 3,
            min_sample_interval_ms: 100,
        }
    }
}

impl Default for Thresholds {
    fn default() -> (limits: Thresholds)
        ensures
            limits == Thresholds::standard(),
    {
        Thresholds {
            min_dimension: 60,
            optimal_dimension: 1200,
            crop_factor: 4,
            resize_factor: 3,
            required_consecutive_detections: 3,
            min_sample_interval_ms: 100,
        }
    }
}

/// One way of presenting a frame to the decoders.
#[derive(Debug, Clone, Copy, PartialEq, Eq, Structural)]
pub enum Candidate {
    /// The whole frame, resampled to the given sides.
    Reduced { width: u32, height: u32 },
    /// The window of the given sides whose top left corner lies at column `x`
    /// of row `y`.
    Cropped { x: u32, y: u32, width: u32, height: u32 },
    /// The frame as it is.
    Whole,
}

/// A picture of these sides may reach the decoders: it is not empty and no
/// side is shorter than `min_dimension`.
pub open spec fn admissible(width: int, height: int, limits: Thresholds) -> bool {
    &&& 1 <= width
    &&& 1 <= height
    &&& limits.min_dimension <= width
    &&& limits.min_dimension <= height
}

/// The sides of the reduced copy of a frame. A frame that exceeds
/// `optimal_dimension` on both sides gets that length on its longer side and
/// keeps its proportions; any other frame is divided by `resize_factor`.
pub open spec fn reduced_sides(width: u32, height: u32, limits: Thresholds) -> (int, int) {
    let optimal = limits.optimal_dimension as int;
    let divisor = limits.resize_factor as int;
    if width > optimal && height > optimal {
        if width >= height {
            (optimal, height * optimal / (width as int))
        } else {
            (width * optimal / (height as int), optimal)
        }
    } else if divisor >= 2 {
        (width as int / divisor, height as int / divisor)
    } else {
        (0, 0)
    }
}

/// The sides of the centered window of a frame.
pub open spec fn window_sides(width: u32, height: u32, limits: Thresholds) -> (int, int) {
    let divisor = limits.crop_factor as int;
    if divisor >= 2 {
        (width as int / divisor, height as int / divisor)
    } else {
        (0, 0)
    }
}

/// The machine has room for what resampling a frame of `width` columns to
/// `rows` rows needs on the way: sixteen bytes for each pixel of a picture of
/// `width` columns and `rows` rows, in an allocation of at most half the
/// address space.
pub open spec fn resamplable(width: int, rows: int) -> bool {
    32 * (width * rows) <= usize::MAX
}

/// The reduced copy, if it may reach the decoders and the machine has room to
/// make it.
pub open spec fn reduced_candidate(width: u32, height: u32, limits: Thresholds) -> Seq<Candidate> {
    let (w, h) = reduced_sides(width, height, limits);
    if admissible(w, h, limits) && resamplable(width as int, h) {
        seq![Candidate::Reduced { width: w as u32, height: h as u32 }]
    } else {
        seq![]
    }
}

/// The centered window, if it may reach the decoders.
pub open spec fn window_candidate(width: u32, height: u32, limits: Thresholds) -> Seq<Candidate> {
    let (w, h) = window_sides(width, height, limits);
    if admissible(w, h, limits) {
        seq![
            Candidate::Cropped {
                x: ((width - w) / 2) as u32,
                y: ((height - h) / 2) as u32,
                width: w as u32,
                height: h as u32,
            },
        ]
    } else {
        seq![]
    }
}

/// The frame itself, if it may reach the decoders.
pub open spec fn whole_candidate(width: u32, height: u32, limits: Thresholds) -> Seq<Candidate> {
    if admissible(width as int, height as int, limits) {
        seq![Candidate::Whole]
    } else {
        seq![]
    }
}

/// What is tried on a frame of the given sides, in the order in which it is
/// tried: the reduced copy, then the centered window, then the frame itself.
pub open spec fn candidates(width: u32, height: u32, limits: Thresholds) -> Seq<Candidate> {
    reduced_candidate(width, height, limits) + window_candidate(width, height, limits)
        + whole_candidate(width, height, limits)
}

/// A candidate lies within a frame of the given sides, and can be made of it.
pub open spec fn fits(candidate: Candidate, width: u32, height: u32) -> bool {
    match candidate {
        Candidate::Reduced { width: w, height: h } => {
            &&& 1 <= w <= width
            &&& 1 <= h <= height
            &&& resamplable(width as int, h as int)
        },
        Candidate::Cropped { x, y, width: w, height: h } => {
            &&& 1 <= w
            &&& 1 <= h
            &&& x + w <= width
            &&& y + h <= height
        },
        Candidate::Whole => 1 <= width && 1 <= height,
    }
}

/// Whether the machine has room for resampling a frame of `width` columns to
/// `rows` rows.
pub fn can_resample(width: u32, rows: u32) -> (yes: bool)
    ensures
        yes == resamplable(width as int, rows as int),
{
    assert(width * rows <= 0xFFFF_FFFF * 0xFFFF_FFFF) by (nonlinear_arith)
        requires
            width <= 0xFFFF_FFFF,
            rows <= 0xFFFF_FFFF,
    ;
    width as u64 * rows as u64 <= (usize::MAX as u64) / 32
}

/// Whether a picture of these sides may reach the decoders.
pub fn is_admissible(width: u32, height: u32, limits: &Thresholds) -> (yes: bool)
    ensures
        yes == admissible(width as int, height as int, *limits),
{
    width >= 1 && height >= 1 && width >= limits.min_dimension && height >= limits.min_dimension
}

/// `side * optimal / longer`, the length that keeps the proportions of a frame
/// whose longer side becomes `optimal`.
fn scaled(side: u32, optimal: u32, longer: u32) -> (length: u32)
    requires
        side <= longer,
        optimal < longer,
    ensures
        length == side * optimal / (longer as int),
        length <= optimal,
        length <= side,
{
    proof {
        lemma_scaled_bounds(side as int, optimal as int, longer as int);
    }
    ((side as u64 * optimal as u64) / (longer as u64)) as u32
}

proof fn lemma_scaled_bounds(side: int, optimal: int, longer: int)
    by (nonlinear_arith)
    requires
        0 <= side <= longer,
        0 <= optimal < longer,
        longer <= 0xFFFF_FFFF,
    ensures
        0 <= side * optimal <= 0xFFFF_FFFF * 0xFFFF_FFFF,
        0 <= side * optimal / longer <= optimal,
        side * optimal / longer <= side,
{
}

/// Lists what is tried on a frame of the given sides, in the order in which it
/// is tried.
pub fn plan(width: u32, height: u32, limits: &Thresholds) -> (list: Vec<Candidate>)
    ensures
        list@ == candidates(width, height, *limits),
{
    proof {
        lemma_parts_fit(width, height, *limits);
    }
    let mut list: Vec<Candidate> = Vec::new();
    let optimal = limits.optimal_dimension;
    let (w, h): (u32, u32) = if width > optimal && height > optimal {
        if width >= height {
            (optimal, scaled(height, optimal, width))
        } else {
            (scaled(width, optimal, height), optimal)
        }
    } else if limits.resize_factor >= 2 {
        (width / limits.resize_factor, height / limits.resize_factor)
    } else {
        (0, 0)
    };
    assert((w as int, h as int) == reduced_sides(width, height, *limits));
    if is_admissible(w, h, limits) && can_resample(width, h) {
        list.push(Candidate::Reduced { width: w, height: h });
    }
    assert(list@ =~= reduced_candidate(width, height, *limits));
    let (w, h): (u32, u32) = if limits.crop_factor >= 2 {
        (width / limits.crop_factor, height / limits.crop_factor)
    } else {
        (0, 0)
    };
    if is_admissible(w, h, limits) {
        list.push(Candidate::Cropped { x: (width - w) / 2, y: (height - h) / 2, width: w, height: h });
    }
    assert(list@ =~= reduced_candidate(width, height, *limits) + window_candidate(
        width,
        height,
        *limits,
    ));
    if is_admissible(width, height, limits) {
        list.push(Candidate::Whole);
    }
    assert(list@ =~= candidates(width, height, *limits));
    list
}

/// No reduced copy and no window is larger than the frame it is taken from.
pub proof fn lemma_parts_fit(width: u32, height: u32, limits: Thresholds)
    ensures
        0 <= reduced_sides(width, height, limits).0 <= width,
        0 <= reduced_sides(width, height, limits).1 <= height,
        0 <= window_sides(width, height, limits).0 <= width,
        0 <= window_sides(width, height, limits).1 <= height,
{
    let optimal = limits.optimal_dimension as int;
    if width > optimal && height > optimal {
        if width >= height {
            lemma_scaled_bounds(height as int, optimal, width as int);
        } else {
            lemma_scaled_bounds(width as int, optimal, height as int);
        }
    } else if limits.resize_factor >= 2 {
        lemma_quotient_bounds(width as int, limits.resize_factor as int);
        lemma_quotient_bounds(height as int, limits.resize_factor as int);
    }
    if limits.crop_factor >= 2 {
        lemma_quotient_bounds(width as int, limits.crop_factor as int);
        lemma_quotient_bounds(height as int, limits.crop_factor as int);
    }
}

proof fn lemma_quotient_bounds(side: int, divisor: int)
    by (nonlinear_arith)
    requires
        0 <= side,
        1 <= divisor,
    ensures
        0 <= side / divisor <= side,
{
}

/// A frame with a side shorter than `min_dimension`, or an empty one, is not
/// tried in any form.
pub proof fn lemma_small_frame_has_no_candidates(width: u32, height: u32, limits: Thresholds)
    requires
        !admissible(width as int, height as int, limits),
    ensures
        candidates(width, height, limits) == Seq::<Candidate>::empty(),
{
    lemma_parts_fit(width, height, limits);
    assert(candidates(width, height, limits) =~= Seq::<Candidate>::empty());
}

/// Every candidate of a frame lies within it and can be made of it, and only
/// the first can be a reduced copy.
pub proof fn lemma_candidates_fit(width: u32, height: u32, limits: Thresholds)
    ensures
        forall|i: int|
            0 <= i < candidates(width, height, limits).len() ==> fits(
                #[trigger] candidates(width, height, limits)[i],
                width,
                height,
            ),
        forall|i: int|
            0 < i < candidates(width, height, limits).len() ==> !(#[trigger] candidates(
                width,
                height,
                limits,
            )[i] is Reduced),
{
    lemma_parts_fit(width, height, limits);
}

/// A frame that may reach the decoders is always tried as it is, after any
/// part of it.
pub proof fn lemma_whole_frame_comes_last(width: u32, height: u32, limits: Thresholds)
    requires
        admissible(width as int, height as int, limits),
    ensures
        candidates(width, height, limits).len() >= 1,
        candidates(width, height, limits).last() == Candidate::Whole,
{
}

} // verus!
