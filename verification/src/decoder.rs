use rxing::common::HybridBinarizer;
use rxing::oned::UPCAReader;
use rxing::qrcode::QRCodeReader;
use rxing::{BinaryBitmap, Luma8LuminanceSource, Reader};
use vstd::prelude::*;

use crate::frame::{PixelBuffer, Raster};

verus! {

/// A kind of code that the scanner can read.
#[derive(Debug, Clone, Copy, PartialEq, Eq, Structural)]
pub enum Format {
    /// The linear UPC-A code of twelve digits.
    UpcA,
    /// The QR matrix code.
    QrCode,
}

/// The longest side of a picture that is handed to a decoder. The decoders
/// count and address pixels in 32 bits: below this length every offset into
/// the picture, with a row to spare, and every product of two coordinates
/// stays under 2^31, and no histogram of a row, of a column or of four rows
/// counts more than 78,640 pixels, where the binarizer's scores can overflow
/// from 486,958 on.
pub const MAX_SIDE: u32 = 32_767;

/// The text that rxing's UPC-A reader finds in a gray picture of the given
/// sides, if it finds any.
pub uninterp spec fn upc_a_text(pixels: Seq<u8>, width: u32, height: u32) -> Option<Seq<char>>;

/// A text that may be missing, as a sequence of characters.
pub open spec fn text_of(text: Option<String>) -> Option<Seq<char>> {
    match text {
        Some(found) => Some(found@),
        None => None,
    }
}

/// The picture is one that a decoder is handed: it is not empty and no side
/// is longer than `MAX_SIDE`.
pub open spec fn readable(picture: Raster) -> bool {
    &&& 1 <= picture.width <= MAX_SIDE
    &&& 1 <= picture.height <= MAX_SIDE
}

/// `reading` is something that the decoder of `format` may answer for
/// `picture`. Nothing is read in a picture that no decoder is handed. The
/// UPC-A reader answers with the one text it finds in these pixels. Of the
/// QR reader's answer nothing is said. Its detector sizes a symbol by
/// rounding distances that it takes with `f32::hypot`
/// (`Detector::computeDimension`, in rxing's `qrcode/detector/qrcode_detector.rs`,
/// calls `Point::distance`, which is `hypot` in `rxing_result_point.rs`),
/// and std leaves the precision of `hypot` open, from machine to machine
/// and from call to call: the same pixels need not give the same answer
/// everywhere. The UPC-A reader adds, multiplies and divides floats and
/// calls no such function.
pub open spec fn admits(format: Format, picture: Raster, reading: Option<Seq<char>>) -> bool {
    if !readable(picture) {
        reading is None
    } else {
        match format {
            Format::UpcA => reading == upc_a_text(
                picture.bytes,
                picture.width as u32,
                picture.height as u32,
            ),
            Format::QrCode => true,
        }
    }
}

/// An answer that the decoder of `format` may give for `picture`, for use
/// where the decoder is not asked.
pub open spec fn unasked(format: Format, picture: Raster) -> Option<Seq<char>> {
    if readable(picture) && format == Format::UpcA {
        upc_a_text(picture.bytes, picture.width as u32, picture.height as u32)
    } else {
        None
    }
}

/// The first reading from position `from` on that is a text.
pub open spec fn first_some_from(readings: Seq<Option<Seq<char>>>, from: int) -> Option<Seq<char>>
    decreases readings.len() - from,
{
    if from < 0 || from >= readings.len() {
        None
    } else if readings[from] is Some {
        readings[from]
    } else {
        first_some_from(readings, from + 1)
    }
}

/// The first of the readings that is a text.
pub open spec fn first_some(readings: Seq<Option<Seq<char>>>) -> Option<Seq<char>> {
    first_some_from(readings, 0)
}

/// There is one reading for each format of `strategy`, and each is something
/// that its decoder may answer for `picture`.
pub open spec fn each_admitted(
    strategy: Seq<Format>,
    picture: Raster,
    readings: Seq<Option<Seq<char>>>,
) -> bool {
    &&& readings.len() == strategy.len()
    &&& forall|i: int|
        0 <= i < strategy.len() ==> admits(strategy[i], picture, #[trigger] readings[i])
}

/// `text` is what the decoders of `strategy` read in `picture` when they are
/// tried in the order in which they are listed: the first text among their
/// answers.
pub open spec fn cascade_reads(strategy: Seq<Format>, picture: Raster, text: Option<Seq<char>>) -> bool {
    exists|readings: Seq<Option<Seq<char>>>|
        #[trigger] each_admitted(strategy, picture, readings) && text == first_some(readings)
}

/// The answers of decoders that are not asked.
pub open spec fn unasked_all(strategy: Seq<Format>, picture: Raster) -> Seq<Option<Seq<char>>> {
    Seq::new(strategy.len(), |i: int| unasked(strategy[i], picture))
}

/// The order in which the decoders are tried where the host gives none: the
/// cheaper linear code before the matrix code.
pub open spec fn standard_strategy() -> Seq<Format> {
    seq![Format::UpcA, Format::QrCode]
}

/// Runs rxing's `UPCAReader::decode` with default hints on a bitmap that
/// `HybridBinarizer` makes of the pixels held by a `Luma8LuminanceSource`, and
/// hands out the text of the result (`RXingResult::getText`). The reader fails
/// where it finds no code; nothing is promised of the text but that it is the
/// one this reader finds in these pixels. The sides are bounded because the
/// binarizers multiply pixel counts and offsets in 32 bits. A result is
/// stamped with the time of the clock, which the wrapper drops; rxing panics
/// where that clock stands before 1970, which is no property of the
/// arguments and so stands in no `requires`.
#[verifier::external_body]
fn read_upc_a(pixels: &Vec<u8>, width: u32, height: u32) -> (text: Option<String>)
    requires
        pixels@.len() == width * height,
        1 <= width <= MAX_SIDE,
        1 <= height <= MAX_SIDE,
    ensures
        text_of(text) == upc_a_text(pixels@, width, height),
{
    let source = Luma8LuminanceSource::new(pixels.clone(), width, height).ok()?;
    let mut bitmap = BinaryBitmap::new(HybridBinarizer::new(source));
    match UPCAReader::default().decode(&mut bitmap) {
        Ok(found) => Some(found.getText().to_string()),
        Err(_) => None,
    }
}

/// Runs rxing's `QRCodeReader::decode` with default hints on a bitmap that
/// `HybridBinarizer` makes of the pixels held by a `Luma8LuminanceSource`, and
/// hands out the text of the result (`RXingResult::getText`), or nothing
/// where the reader fails. Nothing is promised of the answer, which rests on
/// `f32::hypot` (see `admits`). The sides are
/// bounded because the binarizers multiply pixel counts and offsets in 32
/// bits. A result is stamped with the time of the clock, which the wrapper
/// drops; rxing panics where that clock stands before 1970, which is no
/// property of the arguments and so stands in no `requires`.
#[verifier::external_body]
fn read_qr_code(pixels: &Vec<u8>, width: u32, height: u32) -> (text: Option<String>)
    requires
        pixels@.len() == width * height,
        1 <= width <= MAX_SIDE,
        1 <= height <= MAX_SIDE,
{
    let source = Luma8LuminanceSource::new(pixels.clone(), width, height).ok()?;
    let mut bitmap = BinaryBitmap::new(HybridBinarizer::new(source));
    match QRCodeReader::new().decode(&mut bitmap) {
        Ok(found) => Some(found.getText().to_string()),
        Err(_) => None,
    }
}

/// The order in which the decoders are tried where the host gives none.
pub fn default_strategy() -> (strategy: Vec<Format>)
    ensures
        strategy@ == standard_strategy(),
{
    let mut strategy: Vec<Format> = Vec::new();
    strategy.push(Format::UpcA);
    strategy.push(Format::QrCode);
    assert(strategy@ =~= standard_strategy());
    strategy
}

/// Whether `buffer` is a picture that a decoder is handed.
pub fn is_readable(buffer: &PixelBuffer) -> (yes: bool)
    ensures
        yes == readable(buffer@),
        buffer@.wf(),
{
    let width = buffer.width();
    let height = buffer.height();
    1 <= width && width <= MAX_SIDE && 1 <= height && height <= MAX_SIDE
}

/// Reads `buffer` with the decoder of `format`. A picture that is empty, or
/// that has a side longer than `MAX_SIDE`, is not handed to the decoder and
/// nothing is read in it.
pub fn decode_with(format: Format, buffer: &PixelBuffer) -> (text: Option<String>)
    ensures
        admits(format, buffer@, text_of(text)),
        !readable(buffer@) ==> text is None,
{
    if !is_readable(buffer) {
        return None;
    }
    match format {
        Format::UpcA => read_upc_a(buffer.bytes(), buffer.width(), buffer.height()),
        Format::QrCode => read_qr_code(buffer.bytes(), buffer.width(), buffer.height()),
    }
}

/// Reads `buffer` with the decoders of `strategy`, in the order in which they
/// are listed, and returns what the first successful one reads. No decoder
/// is asked after one has read a text.
pub fn decode_cascade(buffer: &PixelBuffer, strategy: &Vec<Format>) -> (text: Option<String>)
    ensures
        cascade_reads(strategy@, buffer@, text_of(text)),
        !readable(buffer@) ==> text is None,
{
    let mut i: usize = 0;
    while i < strategy.len()
        invariant
            i <= strategy@.len(),
            forall|k: int|
                0 <= k < i ==> admits(#[trigger] strategy@[k], buffer@, None::<Seq<char>>),
        decreases strategy@.len() - i,
    {
        let text = decode_with(strategy[i], buffer);
        if text.is_some() {
            proof {
                let found = text_of(text);
                let at = i as int;
                let readings = Seq::new(
                    strategy@.len(),
                    |k: int|
                        if k < at {
                            None
                        } else if k == at {
                            found
                        } else {
                            unasked(strategy@[k], buffer@)
                        },
                );
                assert(each_admitted(strategy@, buffer@, readings));
                lemma_first_reader_wins(readings, at);
            }
            return text;
        }
        i += 1;
    }
    proof {
        let readings = Seq::new(strategy@.len(), |k: int| None::<Seq<char>>);
        assert(each_admitted(strategy@, buffer@, readings));
        lemma_no_reader_no_text(readings);
    }
    None
}

/// The decoders that are not asked could have been: their answers make up a
/// reading of the cascade.
pub proof fn lemma_unasked_cascade(strategy: Seq<Format>, picture: Raster)
    ensures
        cascade_reads(strategy, picture, first_some(unasked_all(strategy, picture))),
{
    assert(each_admitted(strategy, picture, unasked_all(strategy, picture)));
}

/// Readings that are no text do not change which text is the first.
proof fn lemma_skip_silent_readers(readings: Seq<Option<Seq<char>>>, from: int, to: int)
    requires
        0 <= from <= to <= readings.len(),
        forall|k: int| from <= k < to ==> (#[trigger] readings[k]) is None,
    ensures
        first_some_from(readings, from) == first_some_from(readings, to),
    decreases to - from,
{
    if from < to {
        lemma_skip_silent_readers(readings, from + 1, to);
    }
}

/// The cascade returns the reading of the first listed format that reads
/// anything: if the format at position `winner` reads a text and none before
/// it does, the cascade returns that text, whatever the formats after it
/// would read.
pub proof fn lemma_first_reader_wins(readings: Seq<Option<Seq<char>>>, winner: int)
    requires
        0 <= winner < readings.len(),
        readings[winner] is Some,
        forall|k: int| 0 <= k < winner ==> (#[trigger] readings[k]) is None,
    ensures
        first_some(readings) == readings[winner],
{
    lemma_skip_silent_readers(readings, 0, winner);
}

/// Where no listed format reads a text, the cascade reads nothing.
pub proof fn lemma_no_reader_no_text(readings: Seq<Option<Seq<char>>>)
    requires
        forall|k: int| 0 <= k < readings.len() ==> (#[trigger] readings[k]) is None,
    ensures
        first_some(readings) is None,
{
    lemma_skip_silent_readers(readings, 0, readings.len() as int);
}

/// The position of the first reading from `from` on that is a text, given
/// that the one at `bound` is.
proof fn first_reader(readings: Seq<Option<Seq<char>>>, from: int, bound: int) -> (winner: int)
    requires
        0 <= from <= bound < readings.len(),
        readings[bound] is Some,
        forall|k: int| 0 <= k < from ==> (#[trigger] readings[k]) is None,
    ensures
        0 <= winner <= bound,
        readings[winner] is Some,
        forall|k: int| 0 <= k < winner ==> (#[trigger] readings[k]) is None,
    decreases bound - from,
{
    if readings[from] is Some {
        from
    } else {
        first_reader(readings, from + 1, bound)
    }
}

/// Where one of the listed formats reads a text, the cascade returns a text.
pub proof fn lemma_some_reader_some_text(readings: Seq<Option<Seq<char>>>, reader: int)
    requires
        0 <= reader < readings.len(),
        readings[reader] is Some,
    ensures
        first_some(readings) is Some,
{
    let winner = first_reader(readings, 0, reader);
    lemma_first_reader_wins(readings, winner);
}

/// A picture that two listed formats read yields the text of the one listed
/// first, unless a format listed before both reads it too: the format that
/// wins is never listed after the earlier of the two.
pub proof fn lemma_earlier_format_wins(readings: Seq<Option<Seq<char>>>, earlier: int, later: int)
    requires
        0 <= earlier < later < readings.len(),
        readings[earlier] is Some,
        readings[later] is Some,
    ensures
        first_some(readings) is Some,
        exists|k: int| 0 <= k <= earlier && first_some(readings) == #[trigger] readings[k],
{
    let winner = first_reader(readings, 0, earlier);
    lemma_first_reader_wins(readings, winner);
}

/// With two formats configured, a picture that both read yields the text of
/// the one listed first.
pub proof fn lemma_first_of_two_wins(first: Option<Seq<char>>, second: Option<Seq<char>>)
    requires
        first is Some,
        second is Some,
    ensures
        first_some(seq![first, second]) == first,
{
    lemma_first_reader_wins(seq![first, second], 0);
}

/// Whatever the decoders answer, the text of the cascade is the answer of the
/// first listed format that answers with a text, and there is none where no
/// format does.
pub proof fn lemma_cascade_is_first_match(
    strategy: Seq<Format>,
    picture: Raster,
    text: Option<Seq<char>>,
)
    requires
        cascade_reads(strategy, picture, text),
    ensures
        exists|readings: Seq<Option<Seq<char>>>|
            {
                &&& #[trigger] each_admitted(strategy, picture, readings)
                &&& text is None ==> forall|k: int|
                    0 <= k < readings.len() ==> (#[trigger] readings[k]) is None
                &&& text is Some ==> exists|winner: int|
                    {
                        &&& 0 <= winner < readings.len()
                        &&& text == #[trigger] readings[winner]
                        &&& forall|k: int| 0 <= k < winner ==> (#[trigger] readings[k]) is None
                    }
            },
{
    let readings = choose|readings: Seq<Option<Seq<char>>>|
        #[trigger] each_admitted(strategy, picture, readings) && text == first_some(readings);
    if text is None {
        assert forall|k: int| 0 <= k < readings.len() implies (#[trigger] readings[k]) is None by {
            if readings[k] is Some {
                lemma_some_reader_some_text(readings, k);
            }
        }
    } else {
        let winner = lemma_text_has_a_reader(readings, 0);
        lemma_first_reader_wins(readings, winner);
    }
}

/// A first text comes from some reading, before which none is a text.
proof fn lemma_text_has_a_reader(readings: Seq<Option<Seq<char>>>, from: int) -> (winner: int)
    requires
        0 <= from,
        first_some_from(readings, from) is Some,
        forall|k: int| 0 <= k < from ==> (#[trigger] readings[k]) is None,
    ensures
        from <= winner < readings.len(),
        readings[winner] is Some,
        forall|k: int| 0 <= k < winner ==> (#[trigger] readings[k]) is None,
    decreases readings.len() - from,
{
    if readings[from] is Some {
        from
    } else {
        lemma_text_has_a_reader(readings, from + 1)
    }
}

} // verus!
