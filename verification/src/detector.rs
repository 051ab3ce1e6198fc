//! The detector: from the bytes of one frame to the landmarks of a hand.

use vstd::prelude::*;
use crate::clustering::{cluster_landmarks, spec_cluster_landmarks};
use crate::color::SkinThresholds;
use crate::geometry::Point;
use crate::landmarks::HandLandmarks;
use crate::mask::{
    build_mask, denoised_cells, frame_fits, lemma_denoise_radius_zero, lemma_empty_block,
    majority_at, pixel_at, skin_cells, window_end, window_start, PixelLayout,
};
use crate::region::{
    lemma_no_marked_points, lemma_region_rows, marked_points, select_region, spans_both_axes,
};

verus! {

/// The smallest number of skin pixels taken for a hand, unless configured otherwise.
pub const DEFAULT_MIN_SKIN_PIXELS: usize = 2000;

/// The radius in pixels within which a pixel joins a cluster, unless configured otherwise.
pub const DEFAULT_GROUPING_THRESHOLD: usize = 30;

/// The number of clusters kept as fingertip candidates, unless configured otherwise.
pub const DEFAULT_MAX_CLUSTERS: usize = 5;

/// The skin mask of a frame after denoising with the given radius.
pub open spec fn frame_cells(
    width: int,
    height: int,
    layout: PixelLayout,
    data: Seq<u8>,
    thresholds: SkinThresholds,
    denoise_radius: int,
) -> Seq<bool> {
    denoised_cells(
        skin_cells(data, layout, thresholds, width * height),
        width,
        height,
        denoise_radius,
    )
}

/// The pixels of the denoised skin mask of a frame, in row-major order.
pub open spec fn frame_points(
    width: int,
    height: int,
    layout: PixelLayout,
    data: Seq<u8>,
    thresholds: SkinThresholds,
    denoise_radius: int,
) -> Seq<Point> {
    marked_points(
        frame_cells(width, height, layout, data, thresholds, denoise_radius),
        width,
        width * height,
    )
}

/// Finds the landmarks of a hand by the colour of its skin.
///
/// The detector holds its configuration and nothing else: the result of a call depends on
/// the frame and the configuration alone.
#[derive(Debug, Clone, Copy)]
pub struct HandDetector {
    min_skin_pixels: usize,
    grouping_threshold: usize,
    max_clusters: usize,
    thresholds: SkinThresholds,
    denoise_radius: usize,
}

impl HandDetector {
    /// The number of skin pixels below which a frame holds no hand.
    pub closed spec fn min_skin_pixels(&self) -> usize {
        self.min_skin_pixels
    }

    /// The radius within which a pixel joins a cluster.
    pub closed spec fn grouping_threshold(&self) -> usize {
        self.grouping_threshold
    }

    /// The number of clusters kept as fingertip candidates.
    pub closed spec fn max_clusters(&self) -> usize {
        self.max_clusters
    }

    /// The bounds of the skin predicate.
    pub closed spec fn thresholds(&self) -> SkinThresholds {
        self.thresholds
    }

    /// The radius of the majority vote that denoises the skin mask; 0 leaves the mask as
    /// it is.
    pub closed spec fn denoise_radius(&self) -> usize {
        self.denoise_radius
    }

    /// Two detectors with the same configuration.
    pub open spec fn same_configuration(&self, other: &Self) -> bool {
        &&& self.min_skin_pixels() == other.min_skin_pixels()
        &&& self.grouping_threshold() == other.grouping_threshold()
        &&& self.max_clusters() == other.max_clusters()
        &&& self.thresholds() == other.thresholds()
        &&& self.denoise_radius() == other.denoise_radius()
    }

    /// A detector with the default configuration: at least 2000 skin pixels, a grouping
    /// radius of 30 pixels, 5 clusters, the band in degrees and percent, and no denoising.
    pub fn new() -> (detector: Self)
        ensures
            detector.min_skin_pixels() == DEFAULT_MIN_SKIN_PIXELS,
            detector.grouping_threshold() == DEFAULT_GROUPING_THRESHOLD,
            detector.max_clusters() == DEFAULT_MAX_CLUSTERS,
            detector.thresholds() == SkinThresholds::spec_percent_band(),
            detector.denoise_radius() == 0,
    {
        Self {
            min_skin_pixels: DEFAULT_MIN_SKIN_PIXELS,
            grouping_threshold: DEFAULT_GROUPING_THRESHOLD,
            max_clusters: DEFAULT_MAX_CLUSTERS,
            thresholds: SkinThresholds::percent_band(),
            denoise_radius: 0,
        }
    }

    /// The same detector with another minimum of skin pixels.
    pub fn with_min_skin_pixels(self, min_pixels: usize) -> (detector: Self)
        ensures
            detector.min_skin_pixels() == min_pixels,
            detector.grouping_threshold() == self.grouping_threshold(),
            detector.max_clusters() == self.max_clusters(),
            detector.thresholds() == self.thresholds(),
            detector.denoise_radius() == self.denoise_radius(),
    {
        Self { min_skin_pixels: min_pixels, ..self }
    }

    /// The same detector with another grouping radius.
    pub fn with_grouping_threshold(self, threshold: usize) -> (detector: Self)
        ensures
            detector.min_skin_pixels() == self.min_skin_pixels(),
            detector.grouping_threshold() == threshold,
            detector.max_clusters() == self.max_clusters(),
            detector.thresholds() == self.thresholds(),
            detector.denoise_radius() == self.denoise_radius(),
    {
        Self { grouping_threshold: threshold, ..self }
    }

    /// The same detector with another number of clusters to keep.
    pub fn with_max_clusters(self, max_clusters: usize) -> (detector: Self)
        ensures
            detector.min_skin_pixels() == self.min_skin_pixels(),
            detector.grouping_threshold() == self.grouping_threshold(),
            detector.max_clusters() == max_clusters,
            detector.thresholds() == self.thresholds(),
            detector.denoise_radius() == self.denoise_radius(),
    {
        Self { max_clusters, ..self }
    }

    /// The same detector with other bounds for the skin predicate.
    pub fn with_thresholds(self, thresholds: SkinThresholds) -> (detector: Self)
        ensures
            detector.min_skin_pixels() == self.min_skin_pixels(),
            detector.grouping_threshold() == self.grouping_threshold(),
            detector.max_clusters() == self.max_clusters(),
            detector.thresholds() == thresholds,
            detector.denoise_radius() == self.denoise_radius(),
    {
        Self { thresholds, ..self }
    }

    /// The same detector with a majority vote of the given radius over the skin mask.
    pub fn with_denoise_radius(self, radius: usize) -> (detector: Self)
        ensures
            detector.min_skin_pixels() == self.min_skin_pixels(),
            detector.grouping_threshold() == self.grouping_threshold(),
            detector.max_clusters() == self.max_clusters(),
            detector.thresholds() == self.thresholds(),
            detector.denoise_radius() == radius,
    {
        Self { denoise_radius: radius, ..self }
    }

    /// What the detector reports for a frame.
    ///
    /// Nothing, if the buffer is too short for the frame, if the denoised skin mask has
    /// fewer pixels than the minimum or none at all, or if they all lie in one column or in
    /// one row. Else the clustering strategy decides, on the pixels of the mask in row-major
    /// order and the rows of the first and the last of them.
    pub open spec fn spec_detect(
        &self,
        width: usize,
        height: usize,
        layout: PixelLayout,
        data: Seq<u8>,
    ) -> Option<HandLandmarks> {
        let points = frame_points(
            width as int,
            height as int,
            layout,
            data,
            self.thresholds(),
            self.denoise_radius() as int,
        );
        if !frame_fits(width as int, height as int, layout, data.len() as int) {
            None
        } else if points.len() < self.min_skin_pixels() || points.len() == 0 || !spans_both_axes(
            points,
        ) {
            None
        } else {
            spec_cluster_landmarks(
                points,
                points.first().y as int,
                points.last().y as int,
                self.grouping_threshold() as int,
                self.max_clusters() as int,
            )
        }
    }

    /// Detects the landmarks of a hand in a frame of `width` by `height` pixels.
    ///
    /// Reported landmarks lie inside the frame, and the thumb tip is never right of the
    /// index tip.
    pub fn detect(&self, width: usize, height: usize, layout: PixelLayout, data: &[u8]) -> (landmarks:
        Option<HandLandmarks>)
        ensures
            landmarks == self.spec_detect(width, height, layout, data@),
            landmarks matches Some(l) ==> {
                &&& l.thumb_tip.x <= l.index_tip.x
                &&& l.thumb_tip.x < width
                &&& l.thumb_tip.y < height
                &&& l.index_tip.x < width
                &&& l.index_tip.y < height
            },
    {
        let raw = match build_mask(width, height, layout, data, &self.thresholds) {
            Some(m) => m,
            None => {
                return None;
            },
        };
        let mask = if self.denoise_radius == 0 {
            proof {
                lemma_denoise_radius_zero(raw.cells@, width as int, height as int);
            }
            raw
        } else {
            raw.denoise(self.denoise_radius)
        };
        let region = match select_region(&mask, self.min_skin_pixels) {
            Some(r) => r,
            None => {
                return None;
            },
        };
        proof {
            lemma_region_rows(region);
        }
        cluster_landmarks(&region, self.grouping_threshold, self.max_clusters)
    }

    /// Detects the landmarks of a hand in a frame of four bytes per pixel: red, green, blue,
    /// alpha.
    pub fn process_rgba_image(&self, width: usize, height: usize, data: &[u8]) -> (landmarks:
        Option<HandLandmarks>)
        ensures
            landmarks == self.spec_detect(width, height, PixelLayout::Rgba, data@),
            landmarks matches Some(l) ==> {
                &&& l.thumb_tip.x <= l.index_tip.x
                &&& l.thumb_tip.x < width
                &&& l.thumb_tip.y < height
                &&& l.index_tip.x < width
                &&& l.index_tip.y < height
            },
    {
        self.detect(width, height, PixelLayout::Rgba, data)
    }

    /// Detects the landmarks of a hand in a frame of three bytes per pixel: blue, green, red.
    pub fn process_bgr_image(&self, width: usize, height: usize, data: &[u8]) -> (landmarks:
        Option<HandLandmarks>)
        ensures
            landmarks == self.spec_detect(width, height, PixelLayout::Bgr, data@),
            landmarks matches Some(l) ==> {
                &&& l.thumb_tip.x <= l.index_tip.x
                &&& l.thumb_tip.x < width
                &&& l.thumb_tip.y < height
                &&& l.index_tip.x < width
                &&& l.index_tip.y < height
            },
    {
        self.detect(width, height, PixelLayout::Bgr, data)
    }
}

impl Default for HandDetector {
    fn default() -> (detector: Self)
        ensures
            detector.min_skin_pixels() == DEFAULT_MIN_SKIN_PIXELS,
            detector.grouping_threshold() == DEFAULT_GROUPING_THRESHOLD,
            detector.max_clusters() == DEFAULT_MAX_CLUSTERS,
            detector.thresholds() == SkinThresholds::spec_percent_band(),
            detector.denoise_radius() == 0,
    {
        Self::new()
    }
}

/// Two calls on the same frame report the same, also from two detectors, if they have the
/// same configuration.
pub proof fn lemma_detection_is_deterministic(
    one: HandDetector,
    other: HandDetector,
    width: usize,
    height: usize,
    layout: PixelLayout,
    data: Seq<u8>,
    first: Option<HandLandmarks>,
    second: Option<HandLandmarks>,
)
    requires
        one.same_configuration(&other),
        first == one.spec_detect(width, height, layout, data),
        second == other.spec_detect(width, height, layout, data),
    ensures
        first == second,
{
}

/// The thumb tip is never reported right of the index tip, and it is reported left of it
/// unless both tips lie in one column.
pub proof fn lemma_thumb_is_left_of_index(
    detector: HandDetector,
    width: usize,
    height: usize,
    layout: PixelLayout,
    data: Seq<u8>,
    landmarks: HandLandmarks,
)
    requires
        detector.spec_detect(width, height, layout, data) == Some(landmarks),
    ensures
        landmarks.thumb_tip.x <= landmarks.index_tip.x,
        landmarks.thumb_tip.x != landmarks.index_tip.x ==> landmarks.thumb_tip.x
            < landmarks.index_tip.x,
{
    let points = frame_points(
        width as int,
        height as int,
        layout,
        data,
        detector.thresholds(),
        detector.denoise_radius() as int,
    );
    let clusters = crate::clustering::greedy_clusters(
        crate::clustering::scanned_pixels(
            points,
            crate::clustering::top_limit(points.first().y as int, points.last().y as int),
        ),
        detector.grouping_threshold() as int,
        detector.max_clusters() as int,
    );
    let candidates = crate::clustering::as_positions(clusters);
    crate::landmarks::lemma_leftmost_pair_order(candidates);
}

/// A frame without a pixel that passes the skin predicate holds no hand.
pub proof fn lemma_blank_frame_is_rejected(
    detector: HandDetector,
    width: usize,
    height: usize,
    layout: PixelLayout,
    data: Seq<u8>,
)
    requires
        forall|i: int|
            0 <= i < width * height ==> !detector.thresholds().admits(
                #[trigger] pixel_at(data, layout, i).spec_to_hsv(),
            ),
    ensures
        detector.spec_detect(width, height, layout, data) is None,
{
    vstd::arithmetic::mul::lemma_mul_nonnegative(width as int, height as int);
    let raw = skin_cells(data, layout, detector.thresholds(), width * height);
    assert forall|i: int| 0 <= i < raw.len() implies !raw[i] by {
        assert(raw[i] == detector.thresholds().admits(pixel_at(data, layout, i).spec_to_hsv()));
    }
    let w = width as int;
    let h = height as int;
    let r = detector.denoise_radius() as int;
    let cells = frame_cells(w, h, layout, data, detector.thresholds(), r);
    assert forall|i: int| 0 <= i < width * height implies !cells[i] by {
        assert(w > 0) by {
            if w == 0 {
                assert(w * h == 0) by (nonlinear_arith)
                    requires
                        w == 0,
                ;
            }
        }
        let x = i % w;
        let y = i / w;
        vstd::arithmetic::div_mod::lemma_fundamental_div_mod(i, w);
        assert(0 <= y < h) by (nonlinear_arith)
            requires
                0 <= i < w * h,
                w > 0,
                i == w * y + x,
                0 <= x < w,
        ;
        lemma_empty_block(
            raw,
            w,
            h,
            window_start(x, r),
            window_end(x, r, w),
            window_start(y, r),
            window_end(y, r, h),
        );
        assert(cells[i] == majority_at(raw, w, h, x, y, r));
        assert((window_end(x, r, w) - window_start(x, r)) * (window_end(y, r, h) - window_start(
            y,
            r,
        )) >= 0) by (nonlinear_arith)
            requires
                window_end(x, r, w) - window_start(x, r) >= 0,
                window_end(y, r, h) - window_start(y, r) >= 0,
        ;
    }
    lemma_no_marked_points(cells, width as int, width * height);
}

/// A frame with fewer skin pixels than the configured minimum holds no hand.
pub proof fn lemma_small_region_is_rejected(
    detector: HandDetector,
    width: usize,
    height: usize,
    layout: PixelLayout,
    data: Seq<u8>,
)
    requires
        frame_points(
            width as int,
            height as int,
            layout,
            data,
            detector.thresholds(),
            detector.denoise_radius() as int,
        ).len() < detector.min_skin_pixels(),
    ensures
        detector.spec_detect(width, height, layout, data) is None,
{
}

} // verus!
