use image::imageops::{resize, FilterType};
use image::{guess_format, load_from_memory_with_format, GrayImage};
use vstd::prelude::*;

use crate::decoder::{
    cascade_reads, decode_cascade, default_strategy, each_admitted, first_some,
    lemma_first_reader_wins, lemma_no_reader_no_text, lemma_some_reader_some_text,
    lemma_unasked_cascade, readable, standard_strategy, text_of, unasked_all, upc_a_text, Format,
};
use crate::error::Error;
use crate::frame::{PixelBuffer, Raster};
use crate::planner::{
    admissible, candidates, fits, is_admissible, lemma_candidates_fit,
    lemma_small_frame_has_no_candidates, lemma_whole_frame_comes_last, plan, Candidate,
    Thresholds,
};

verus! {

/// The picture that `candidate` stands for, where `reduced` holds the pixels
/// of the frame's reduced copy.
pub open spec fn picture_of(frame: Raster, candidate: Candidate, reduced: Seq<u8>) -> Raster {
    match candidate {
        Candidate::Reduced { width, height } => Raster {
            width: width as nat,
            height: height as nat,
            bytes: reduced,
        },
        Candidate::Cropped { x, y, width, height } => frame.region(
            x as nat,
            y as nat,
            width as nat,
            height as nat,
        ),
        Candidate::Whole => frame,
    }
}

/// The pictures that the candidates of `list` stand for, in their order.
pub open spec fn pictures(frame: Raster, list: Seq<Candidate>, reduced: Seq<u8>) -> Seq<Raster> {
    Seq::new(list.len(), |i: int| picture_of(frame, list[i], reduced))
}

/// The mathematical pictures of a list of buffers.
pub open spec fn views(buffers: Seq<PixelBuffer>) -> Seq<Raster> {
    Seq::new(buffers.len(), |i: int| buffers[i]@)
}

/// Every picture of the list has one byte per pixel.
pub open spec fn all_wf(list: Seq<Raster>) -> bool {
    forall|i: int| 0 <= i < list.len() ==> (#[trigger] list[i]).wf()
}

/// There is one text, or none, for each picture of `list`, and each is what
/// the decoders of `strategy` read in its picture.
pub open spec fn each_read(
    strategy: Seq<Format>,
    list: Seq<Raster>,
    texts: Seq<Option<Seq<char>>>,
) -> bool {
    &&& texts.len() == list.len()
    &&& forall|j: int|
        0 <= j < list.len() ==> cascade_reads(strategy, list[j], #[trigger] texts[j])
}

/// `text` is what is read in the pictures of `list` when they are tried in
/// their order: the text of the first picture in which the decoders of
/// `strategy` read one.
pub open spec fn reads(strategy: Seq<Format>, list: Seq<Raster>, text: Option<Seq<char>>) -> bool {
    exists|texts: Seq<Option<Seq<char>>>|
        #[trigger] each_read(strategy, list, texts) && text == first_some(texts)
}

/// What a search reports for a reading: the text, or that nothing was
/// detected.
pub open spec fn verdict(text: Option<Seq<char>>) -> Result<Seq<char>, Error> {
    match text {
        Some(found) => Ok(found),
        None => Err(Error::NotDetected),
    }
}

/// The text that an outcome carries, if it carries one.
pub open spec fn text_in(outcome: Result<Seq<char>, Error>) -> Option<Seq<char>> {
    match outcome {
        Ok(found) => Some(found),
        Err(_) => None,
    }
}

/// The result of a detection, with its text as a sequence of characters.
pub open spec fn outcome_of(result: Result<String, Error>) -> Result<Seq<char>, Error> {
    match result {
        Ok(found) => Ok(found@),
        Err(error) => Err(error),
    }
}

/// `outcome` is what a detection on `frame` reports. A frame that is empty or
/// has a side shorter than `min_dimension` is too small, and nothing else is
/// said of it. Any other frame is searched: the outcome is the verdict on
/// what is read in the frame's candidates, for some reduced copy of the
/// frame. The pixels of that copy come from a resampling filter that works in
/// floating point, so nothing is said of them but their number.
pub open spec fn detects(
    frame: Raster,
    limits: Thresholds,
    strategy: Seq<Format>,
    outcome: Result<Seq<char>, Error>,
) -> bool {
    if !admissible(frame.width as int, frame.height as int, limits) {
        outcome == Err::<Seq<char>, Error>(Error::ImageTooSmall)
    } else {
        exists|reduced: Seq<u8>|
            {
                let tried = #[trigger] pictures(
                    frame,
                    candidates(frame.width as u32, frame.height as u32, limits),
                    reduced,
                );
                &&& all_wf(tried)
                &&& reads(strategy, tried, text_in(outcome))
                &&& outcome == verdict(text_in(outcome))
            }
    }
}

/// A frame that may reach the decoders ends with a text or with the report
/// that nothing was detected, and with no other failure.
pub proof fn lemma_detection_reports_text_or_nothing(
    frame: Raster,
    limits: Thresholds,
    strategy: Seq<Format>,
    outcome: Result<Seq<char>, Error>,
)
    requires
        admissible(frame.width as int, frame.height as int, limits),
        detects(frame, limits, strategy, outcome),
    ensures
        outcome is Ok || outcome == Err::<Seq<char>, Error>(Error::NotDetected),
{
}

/// A frame with a side shorter than `min_dimension` is reported as too small
/// whatever the decoders would read in it: it has no candidates, so none of
/// them is asked.
pub proof fn lemma_small_frame_is_not_searched(
    frame: Raster,
    limits: Thresholds,
    strategy: Seq<Format>,
    outcome: Result<Seq<char>, Error>,
)
    requires
        frame.wf(),
        frame.width < limits.min_dimension || frame.height < limits.min_dimension,
        detects(frame, limits, strategy, outcome),
    ensures
        candidates(frame.width as u32, frame.height as u32, limits) == Seq::<Candidate>::empty(),
        outcome == Err::<Seq<char>, Error>(Error::ImageTooSmall),
{
    lemma_small_frame_has_no_candidates(frame.width as u32, frame.height as u32, limits);
}

/// The format that is listed first wins in a frame, whatever a format listed
/// after it would read: where nothing is read in the pictures before
/// position `at`, and in the picture at `at` the first listed format reads
/// `text` and the next would read `other`, a text or none, the frame reads
/// `text`.
pub proof fn lemma_listed_first_wins_in_a_frame(
    texts: Seq<Option<Seq<char>>>,
    at: int,
    text: Seq<char>,
    other: Option<Seq<char>>,
)
    requires
        0 <= at < texts.len(),
        forall|j: int| 0 <= j < at ==> (#[trigger] texts[j]) is None,
        texts[at] == first_some(seq![Some(text), other]),
    ensures
        first_some(texts) == Some(text),
{
    lemma_first_reader_wins(seq![Some(text), other], 0);
    lemma_first_reader_wins(texts, at);
}

/// A code that the UPC-A reader finds in the frame as it is, is never lost:
/// the frame itself is tried after its parts, so that a frame which reaches
/// the decoders, with the UPC-A reader among them, yields a text.
pub proof fn lemma_readable_frame_is_detected(
    frame: Raster,
    limits: Thresholds,
    strategy: Seq<Format>,
    listed: int,
    outcome: Result<Seq<char>, Error>,
)
    requires
        frame.wf(),
        admissible(frame.width as int, frame.height as int, limits),
        readable(frame),
        0 <= listed < strategy.len(),
        strategy[listed] == Format::UpcA,
        upc_a_text(frame.bytes, frame.width as u32, frame.height as u32) is Some,
        detects(frame, limits, strategy, outcome),
    ensures
        outcome is Ok,
{
    let list = candidates(frame.width as u32, frame.height as u32, limits);
    let reduced = choose|reduced: Seq<u8>|
        {
            let tried = #[trigger] pictures(frame, list, reduced);
            &&& all_wf(tried)
            &&& reads(strategy, tried, text_in(outcome))
            &&& outcome == verdict(text_in(outcome))
        };
    let tried = pictures(frame, list, reduced);
    let texts = choose|texts: Seq<Option<Seq<char>>>|
        #[trigger] each_read(strategy, tried, texts) && text_in(outcome) == first_some(texts);
    lemma_whole_frame_comes_last(frame.width as u32, frame.height as u32, limits);
    let last = list.len() - 1;
    assert(tried[last] == frame);
    assert(cascade_reads(strategy, tried[last], texts[last]));
    let readings = choose|readings: Seq<Option<Seq<char>>>|
        #[trigger] each_admitted(strategy, frame, readings) && texts[last] == first_some(readings);
    assert(readings[listed] is Some);
    lemma_some_reader_some_text(readings, listed);
    lemma_some_reader_some_text(texts, last);
}

/// The gray picture that the image crate decodes from the bytes of an encoded
/// picture, with its sides; none where the bytes are in no format that the
/// crate was built with, or cannot be decoded.
pub uninterp spec fn decoded_gray(bytes: Seq<u8>) -> Option<(u32, u32, Seq<u8>)>;

/// A decoded picture that may be missing, with its bytes as a sequence.
pub open spec fn gray_view(picture: Option<(u32, u32, Vec<u8>)>) -> Option<(u32, u32, Seq<u8>)> {
    match picture {
        Some((width, height, pixels)) => Some((width, height, pixels@)),
        None => None,
    }
}

/// `outcome` is what the search of the encoded picture `bytes` reports: that
/// the codec could not decode it, or what a detection with the standard
/// limits and decoders reports on the gray picture that the codec makes of
/// it.
pub open spec fn reads_image(bytes: Seq<u8>, outcome: Result<Seq<char>, Error>) -> bool {
    match decoded_gray(bytes) {
        None => outcome == Err::<Seq<char>, Error>(Error::DecodeFailed),
        Some((width, height, pixels)) => detects(
            Raster { width: width as nat, height: height as nat, bytes: pixels },
            Thresholds::standard(),
            standard_strategy(),
            outcome,
        ),
    }
}

/// Decodes an encoded picture with the image crate and turns it gray. The
/// format is guessed with `image::guess_format`, which compares the first
/// bytes with the signatures that the crate knows, and the picture is decoded
/// in that format with `image::load_from_memory_with_format` and made gray
/// with `DynamicImage::to_luma8`. No decoder or signature that another part
/// of the process has registered with the crate takes part on this way, so
/// the result depends on the bytes alone. Hands out the sides and the raw
/// bytes of the gray picture, of which the crate keeps one per pixel; nothing
/// where it reports an error.
#[verifier::external_body]
fn decode_container(bytes: &Vec<u8>) -> (picture: Option<(u32, u32, Vec<u8>)>)
    ensures
        gray_view(picture) == decoded_gray(bytes@),
        picture matches Some((width, height, pixels)) ==> pixels@.len() == width * height,
{
    let format = guess_format(bytes).ok()?;
    let gray = load_from_memory_with_format(bytes, format).ok()?.to_luma8();
    Some((gray.width(), gray.height(), gray.into_raw()))
}

/// Shrinks a gray picture with `image::imageops::resize` and the `Lanczos3`
/// filter. `GrayImage::from_raw` accepts a buffer of one byte per pixel, and
/// the resized picture holds one byte for each pixel of the new sides. The
/// filter allocates four floats for each pixel of a picture of `width` columns
/// and `new_height` rows, which is why that product is bounded.
#[verifier::external_body]
fn resample(pixels: &Vec<u8>, width: u32, height: u32, new_width: u32, new_height: u32) -> (reduced:
    Option<Vec<u8>>)
    requires
        pixels@.len() == width * height,
        1 <= new_width <= width,
        1 <= new_height <= height,
        32 * (width * new_height) <= usize::MAX,
    ensures
        reduced is Some,
        reduced matches Some(bytes) ==> bytes@.len() == new_width * new_height,
{
    let gray = GrayImage::from_raw(width, height, pixels.clone())?;
    Some(resize(&gray, new_width, new_height, FilterType::Lanczos3).into_raw())
}

/// Makes the pictures that reach the decoders for `frame`, in the order in
/// which they are tried.
pub fn prepare(frame: &PixelBuffer, limits: &Thresholds) -> (prepared: Vec<PixelBuffer>)
    ensures
        frame@.wf(),
        exists|reduced: Seq<u8>|
            views(prepared@) == #[trigger] pictures(
                frame@,
                candidates(frame@.width as u32, frame@.height as u32, *limits),
                reduced,
            ),
        all_wf(views(prepared@)),
{
    let width = frame.width();
    let height = frame.height();
    let list = plan(width, height, limits);
    proof {
        lemma_candidates_fit(width, height, *limits);
    }
    let ghost mut reduced: Seq<u8> = Seq::empty();
    let mut prepared: Vec<PixelBuffer> = Vec::new();
    let mut i: usize = 0;
    while i < list.len()
        invariant
            i <= list@.len(),
            prepared@.len() == i,
            frame@.wf(),
            width == frame@.width,
            height == frame@.height,
            forall|j: int| 0 <= j < list@.len() ==> fits(#[trigger] list@[j], width, height),
            forall|j: int| 0 < j < list@.len() ==> !(#[trigger] list@[j] is Reduced),
            forall|j: int|
                0 <= j < i ==> (#[trigger] prepared@[j])@ == picture_of(
                    frame@,
                    list@[j],
                    reduced,
                ) && prepared@[j]@.wf(),
        decreases list@.len() - i,
    {
        let candidate = list[i];
        assert(fits(list@[i as int], width, height));
        match candidate {
            Candidate::Reduced { width: w, height: h } => {
                match resample(frame.bytes(), width, height, w, h) {
                    Some(bytes) => {
                        proof {
                            reduced = bytes@;
                        }
                        match PixelBuffer::new(w, h, bytes) {
                            Some(buffer) => {
                                prepared.push(buffer);
                            },
                            None => {},
                        }
                    },
                    None => {},
                }
            },
            Candidate::Cropped { x, y, width: w, height: h } => {
                match frame.crop(x, y, w, h) {
                    Some(buffer) => {
                        assert(buffer@.wf());
                        prepared.push(buffer);
                    },
                    None => {},
                }
            },
            Candidate::Whole => {
                prepared.push(frame.clone());
            },
        }
        i += 1;
    }
    assert(views(prepared@) =~= pictures(frame@, list@, reduced));
    assert(list@ == candidates(frame@.width as u32, frame@.height as u32, *limits));
    assert(views(prepared@) == pictures(
        frame@,
        candidates(frame@.width as u32, frame@.height as u32, *limits),
        reduced,
    ));
    prepared
}

/// Tries the prepared pictures in their order with the decoders of
/// `strategy`, and returns the first text that is read. No picture is tried
/// after one has been read.
pub fn scan(prepared: &Vec<PixelBuffer>, strategy: &Vec<Format>) -> (text: Option<String>)
    ensures
        reads(strategy@, views(prepared@), text_of(text)),
{
    let ghost list = views(prepared@);
    let mut i: usize = 0;
    while i < prepared.len()
        invariant
            i <= prepared@.len(),
            list == views(prepared@),
            forall|k: int|
                0 <= k < i ==> cascade_reads(strategy@, #[trigger] list[k], None::<Seq<char>>),
        decreases prepared@.len() - i,
    {
        let text = decode_cascade(&prepared[i], strategy);
        assert(list[i as int] == prepared@[i as int]@);
        if text.is_some() {
            proof {
                let found = text_of(text);
                let at = i as int;
                let texts = Seq::new(
                    list.len(),
                    |k: int|
                        if k < at {
                            None
                        } else if k == at {
                            found
                        } else {
                            first_some(unasked_all(strategy@, list[k]))
                        },
                );
                assert forall|j: int| 0 <= j < list.len() implies cascade_reads(
                    strategy@,
                    list[j],
                    #[trigger] texts[j],
                ) by {
                    if j > at {
                        lemma_unasked_cascade(strategy@, list[j]);
                    }
                }
                assert(each_read(strategy@, list, texts));
                lemma_first_reader_wins(texts, at);
            }
            return text;
        }
        i += 1;
    }
    proof {
        let texts = Seq::new(list.len(), |k: int| None::<Seq<char>>);
        assert(each_read(strategy@, list, texts));
        lemma_no_reader_no_text(texts);
    }
    None
}

/// What a search that has read `text`, or nothing, reports: the text, or
/// that nothing was detected.
pub fn report_reading(text: Option<String>) -> (result: Result<String, Error>)
    ensures
        outcome_of(result) == verdict(text_of(text)),
{
    match text {
        Some(found) => Ok(found),
        None => Err(Error::NotDetected),
    }
}

/// Looks for a code in `frame`. A frame that is empty or has a side shorter
/// than `min_dimension` is reported as too small, and no decoder sees it.
/// Any other frame is searched: its candidates are made and tried in their
/// order with the decoders of `strategy`.
pub fn detect_frame(frame: &PixelBuffer, limits: &Thresholds, strategy: &Vec<Format>) -> (result:
    Result<String, Error>)
    ensures
        detects(frame@, *limits, strategy@, outcome_of(result)),
        !admissible(frame@.width as int, frame@.height as int, *limits) ==> result == Err::<
            String,
            Error,
        >(Error::ImageTooSmall),
        admissible(frame@.width as int, frame@.height as int, *limits) && result is Err ==> result
            == Err::<String, Error>(Error::NotDetected),
{
    if !is_admissible(frame.width(), frame.height(), limits) {
        return Err(Error::ImageTooSmall);
    }
    let prepared = prepare(frame, limits);
    let text = scan(&prepared, strategy);
    report_reading(text)
}

/// Looks for a code in a gray camera frame of the given sides, with the
/// standard limits and decoders. The sides are looked at before the data: a
/// frame that is too small is reported as such whatever the buffer holds.
/// Of the other frames, one whose buffer does not hold one byte per pixel
/// is refused as an internal failure.
pub fn detect_from_stream(gray_data: Vec<u8>, width: u32, height: u32) -> (result: Result<
    String,
    Error,
>)
    ensures
        !admissible(width as int, height as int, Thresholds::standard()) ==> result == Err::<
            String,
            Error,
        >(Error::ImageTooSmall),
        admissible(width as int, height as int, Thresholds::standard()) && gray_data@.len()
            != width * height ==> result == Err::<String, Error>(Error::Internal),
        admissible(width as int, height as int, Thresholds::standard()) && gray_data@.len()
            == width * height ==> detects(
            Raster { width: width as nat, height: height as nat, bytes: gray_data@ },
            Thresholds::standard(),
            standard_strategy(),
            outcome_of(result),
        ) && (result is Err ==> result == Err::<String, Error>(Error::NotDetected)),
{
    let limits = Thresholds::default();
    if !is_admissible(width, height, &limits) {
        return Err(Error::ImageTooSmall);
    }
    match PixelBuffer::new(width, height, gray_data) {
        Some(frame) => detect_frame(&frame, &limits, &default_strategy()),
        None => Err(Error::Internal),
    }
}

/// What becomes of a picture that the codec has or has not decoded: a picture
/// that could not be decoded is reported as such, any other is searched for
/// a code with the standard limits and decoders.
pub fn detect_decoded(decoded: Option<PixelBuffer>) -> (result: Result<String, Error>)
    ensures
        decoded is None ==> result == Err::<String, Error>(Error::DecodeFailed),
        decoded matches Some(frame) ==> {
            &&& detects(frame@, Thresholds::standard(), standard_strategy(), outcome_of(result))
            &&& !admissible(frame@.width as int, frame@.height as int, Thresholds::standard())
                ==> result == Err::<String, Error>(Error::ImageTooSmall)
            &&& admissible(frame@.width as int, frame@.height as int, Thresholds::standard())
                && result is Err ==> result == Err::<String, Error>(Error::NotDetected)
        },
{
    match decoded {
        Some(frame) => detect_frame(&frame, &Thresholds::default(), &default_strategy()),
        None => Err(Error::DecodeFailed),
    }
}

/// Looks for a code in an encoded picture (PNG, JPEG, GIF, BMP or WebP): the
/// codec decodes it to a gray picture, which is then searched like a camera
/// frame. Bytes that the codec cannot decode are reported as such.
pub fn detect_from_image(bytes: &Vec<u8>) -> (result: Result<String, Error>)
    ensures
        reads_image(bytes@, outcome_of(result)),
        decoded_gray(bytes@) is None <==> result == Err::<String, Error>(Error::DecodeFailed),
        result is Err ==> result == Err::<String, Error>(Error::DecodeFailed) || result == Err::<
            String,
            Error,
        >(Error::ImageTooSmall) || result == Err::<String, Error>(Error::NotDetected),
{
    let decoded = match decode_container(bytes) {
        Some((width, height, pixels)) => PixelBuffer::new(width, height, pixels),
        None => None,
    };
    detect_decoded(decoded)
}

} // verus!
