//! The recognition pipeline: an encoded image is decoded into pixels, the
//! text engine finds words, groups them into lines and reads each line,
//! and the readings are taken from the lines.
//!
//! Decoding and the text engine are the work of the `image` and `ocrs`
//! crates. Nothing here says what they make of an image; the pipeline
//! states which failure stops it at which stage, and that what it reports
//! is read off the lines that the engine gave.

use crate::extract::{extract_readings, levels, readings_of, BatteryReading};
use vstd::prelude::*;

verus! {

/// The text engine of the `ocrs` crate, with the models it was made with.
#[verifier::external_type_specification]
#[verifier::external_body]
pub struct ExOcrEngine(ocrs::OcrEngine);

/// An image as the text engine has prepared it for its models.
#[verifier::external_type_specification]
#[verifier::external_body]
pub struct ExOcrInput(ocrs::OcrInput);

/// A view of pixel data that the text engine can prepare.
#[verifier::external_type_specification]
#[verifier::external_body]
pub struct ExImageSource<'a>(ocrs::ImageSource<'a>);

/// Why the text engine does not take pixel data.
#[verifier::external_type_specification]
#[verifier::external_body]
pub struct ExImageSourceError(ocrs::ImageSourceError);

/// The bounding rectangle of a word that the text engine found.
#[verifier::external_type_specification]
#[verifier::external_body]
pub struct ExRotatedRect(rten_imageproc::RotatedRect);

/// The error of a stage of the text engine.
#[verifier::external_type_specification]
#[verifier::external_body]
pub struct ExEngineError(anyhow::Error);

/// A decoded image: rows of pixels from the top, three bytes (red, green,
/// blue) for each pixel.
pub struct RgbPixels {
    /// The number of pixels in a row.
    pub width: u32,
    /// The number of rows.
    pub height: u32,
    /// The bytes of all pixels.
    pub data: Vec<u8>,
}

impl RgbPixels {
    /// The number of pixels.
    pub open spec fn pixel_count(self) -> nat {
        self.width as nat * self.height as nat
    }

    /// Whether the text engine takes these pixels: there is at least one
    /// pixel, their number fits in 32 bits, and the data hold one, three
    /// or four bytes for each.
    pub open spec fn accepted(self) -> bool {
        source_accepted(self.data@.len(), self.width, self.height)
    }
}

/// Whether the text engine takes `length` bytes as an image of `width` by
/// `height` pixels.
pub open spec fn source_accepted(length: nat, width: u32, height: u32) -> bool {
    let pixels = width as nat * height as nat;
    &&& 0 < pixels <= u32::MAX
    &&& length % pixels == 0
    &&& (length / pixels == 1 || length / pixels == 3 || length / pixels == 4)
}

/// What was read off one image.
#[derive(Debug, PartialEq, Eq)]
pub struct Recognized {
    /// The text of each line, in reading order; `None` where no text was
    /// found in a line.
    pub lines: Vec<Option<String>>,
    /// The readings that the lines give, in the order of the lines.
    pub readings: Vec<BatteryReading>,
}

impl Recognized {
    /// Whether the readings are those of the lines: one for each line that
    /// gives one, in the order of the lines, none left out and none added.
    pub open spec fn consistent(self) -> bool {
        levels(self.readings@) == readings_of(self.lines@)
    }
}

/// The stage at which the pipeline gave up on an image.
#[derive(Clone, Copy, Debug, PartialEq, Eq)]
pub enum RecognitionError {
    /// The bytes are no image of a known format, or a corrupt one.
    Decode,
    /// The decoded pixels are not what the text engine takes.
    Source,
    /// The text engine could not prepare the pixels.
    Prepare,
    /// The text engine failed to find words.
    Detection,
    /// The text engine failed to read the lines.
    Recognition,
}

/// `image::ImageReader`: guesses the format from the content of `bytes`,
/// decodes them and converts the image to 8-bit RGB. Nothing is claimed
/// of the outcome.
#[verifier::external_body]
fn decode_rgb8(bytes: &[u8]) -> (decoded: Option<RgbPixels>) {
    let reader = image::ImageReader::new(std::io::Cursor::new(bytes));
    let image = reader.with_guessed_format().ok()?.decode().ok()?.into_rgb8();
    let (width, height) = image.dimensions();
    Some(RgbPixels { width, height, data: image.into_raw() })
}

/// `ocrs::ImageSource::from_bytes`: a view of `data` as an image of `width`
/// by `height` pixels with the channels last. It fails when there is no
/// pixel, when the data are not a whole number of bytes for each pixel,
/// and when that number is not one, three or four; the product of width
/// and height must fit in 32 bits.
#[verifier::external_body]
fn image_source<'a>(data: &'a [u8], width: u32, height: u32) -> (source: Result<
    ocrs::ImageSource<'a>,
    ocrs::ImageSourceError,
>)
    requires
        width as nat * height as nat <= u32::MAX,
    ensures
        source is Ok <==> source_accepted(data@.len(), width, height),
{
    ocrs::ImageSource::from_bytes(data, (width, height))
}

/// `ocrs::OcrEngine::prepare_input`: the image as the models take it.
#[verifier::external_body]
fn prepare_input(engine: &ocrs::OcrEngine, source: ocrs::ImageSource) -> (input: Result<
    ocrs::OcrInput,
    anyhow::Error,
>) {
    engine.prepare_input(source)
}

/// `ocrs::OcrEngine::detect_words`: the rectangles of the words found, in
/// no order. It fails when the engine has no detection model or the model
/// fails.
#[verifier::external_body]
fn detect_words(engine: &ocrs::OcrEngine, input: &ocrs::OcrInput) -> (words: Result<
    Vec<rten_imageproc::RotatedRect>,
    anyhow::Error,
>) {
    engine.detect_words(input)
}

/// `ocrs::OcrEngine::find_text_lines`: the words grouped into lines, lines
/// and words in reading order. Every line holds at least one word: a line
/// is begun with a word and lines are moved whole.
#[verifier::external_body]
fn find_text_lines(
    engine: &ocrs::OcrEngine,
    input: &ocrs::OcrInput,
    words: &Vec<rten_imageproc::RotatedRect>,
) -> (lines: Vec<Vec<rten_imageproc::RotatedRect>>)
    ensures
        forall|i: int| 0 <= i < lines@.len() ==> (#[trigger] lines@[i])@.len() > 0,
{
    engine.find_text_lines(input, words)
}

/// `ocrs::OcrEngine::recognize_text`: the text of each line, `None` where
/// no text was found in a line; each text is handed out as a string. It
/// fails when the engine has no recognition model or the model fails. A
/// line without a word is not taken: the engine would stop the program
/// over it.
#[verifier::external_body]
fn recognize_text(
    engine: &ocrs::OcrEngine,
    input: &ocrs::OcrInput,
    lines: &Vec<Vec<rten_imageproc::RotatedRect>>,
) -> (texts: Result<Vec<Option<String>>, anyhow::Error>)
    requires
        forall|i: int| 0 <= i < lines@.len() ==> (#[trigger] lines@[i])@.len() > 0,
{
    let found = engine.recognize_text(input, lines)?;
    Ok(found.iter().map(|line| line.as_ref().map(|text| text.to_string())).collect())
}

/// The outcome of decoding as the pipeline reports it: the pixels, or
/// the failure to decode where there are none.
pub fn decoded_or_error(decoded: Option<RgbPixels>) -> (outcome: Result<
    RgbPixels,
    RecognitionError,
>)
    ensures
        outcome == match decoded {
            Some(pixels) => Ok::<RgbPixels, RecognitionError>(pixels),
            None => Err::<RgbPixels, RecognitionError>(RecognitionError::Decode),
        },
{
    match decoded {
        Some(pixels) => Ok(pixels),
        None => Err(RecognitionError::Decode),
    }
}

/// Decodes an encoded image; the format is found from the content.
pub fn decode_image(bytes: &[u8]) -> (decoded: Result<RgbPixels, RecognitionError>)
    ensures
        decoded is Err ==> decoded == Err::<RgbPixels, RecognitionError>(
            RecognitionError::Decode,
        ),
{
    decoded_or_error(decode_rgb8(bytes))
}

/// Whether the number of pixels of an image fits in 32 bits.
fn pixel_count_fits(width: u32, height: u32) -> (fits: bool)
    ensures
        fits == (width as nat * height as nat <= u32::MAX),
{
    assert(width as nat * height as nat <= 0xFFFF_FFFF * 0xFFFF_FFFF) by (nonlinear_arith)
        requires
            width <= 0xFFFF_FFFF,
            height <= 0xFFFF_FFFF,
    ;
    let pixels: u64 = width as u64 * height as u64;
    pixels <= u32::MAX as u64
}

/// The lines of text in an image, in reading order; `None` stands for a
/// line in which no text was found. The stages run in order and the first
/// failure ends the run: pixels that the engine does not take are
/// rejected before any model runs.
pub fn recognize_lines(engine: &ocrs::OcrEngine, image: &RgbPixels) -> (lines: Result<
    Vec<Option<String>>,
    RecognitionError,
>)
    ensures
        !image.accepted() <==> lines == Err::<Vec<Option<String>>, RecognitionError>(
            RecognitionError::Source,
        ),
        lines is Err ==> !(lines matches Err(RecognitionError::Decode)),
{
    if !pixel_count_fits(image.width, image.height) {
        return Err(RecognitionError::Source);
    }
    let source = match image_source(image.data.as_slice(), image.width, image.height) {
        Ok(source) => source,
        Err(_) => {
            return Err(RecognitionError::Source);
        },
    };
    let input = match prepare_input(engine, source) {
        Ok(input) => input,
        Err(_) => {
            return Err(RecognitionError::Prepare);
        },
    };
    let words = match detect_words(engine, &input) {
        Ok(words) => words,
        Err(_) => {
            return Err(RecognitionError::Detection);
        },
    };
    let line_rects = find_text_lines(engine, &input, &words);
    match recognize_text(engine, &input, &line_rects) {
        Ok(texts) => Ok(texts),
        Err(_) => Err(RecognitionError::Recognition),
    }
}

/// The lines with the readings taken from them, as the last step of the
/// pipeline; a failure is handed on as it is.
pub fn readings_from_lines(lines: Result<Vec<Option<String>>, RecognitionError>) -> (found:
    Result<Recognized, RecognitionError>)
    ensures
        match lines {
            Ok(texts) => {
                &&& found is Ok
                &&& found->Ok_0.lines@ == texts@
                &&& found->Ok_0.consistent()
            },
            Err(error) => found == Err::<Recognized, RecognitionError>(error),
        },
{
    match lines {
        Ok(texts) => {
            let readings = extract_readings(&texts);
            Ok(Recognized { lines: texts, readings })
        },
        Err(error) => Err(error),
    }
}

/// Recognizes the text of a decoded image and takes the battery readings
/// from it, one for each line that gives one, in reading order.
pub fn ocr_image(engine: &ocrs::OcrEngine, image: &RgbPixels) -> (found: Result<
    Recognized,
    RecognitionError,
>)
    ensures
        !image.accepted() <==> found == Err::<Recognized, RecognitionError>(
            RecognitionError::Source,
        ),
        found is Err ==> !(found matches Err(RecognitionError::Decode)),
        found is Ok ==> found->Ok_0.consistent(),
{
    readings_from_lines(recognize_lines(engine, image))
}

/// The rest of the pipeline after decoding: without pixels the failure to
/// decode is reported and no model runs; with pixels their text is
/// recognized and the readings are taken from it.
pub fn ocr_decoded(engine: &ocrs::OcrEngine, decoded: Option<RgbPixels>) -> (found: Result<
    Recognized,
    RecognitionError,
>)
    ensures
        decoded is None <==> found == Err::<Recognized, RecognitionError>(
            RecognitionError::Decode,
        ),
        (decoded is Some && !decoded->0.accepted()) <==> found == Err::<
            Recognized,
            RecognitionError,
        >(RecognitionError::Source),
        found is Ok ==> found->Ok_0.consistent(),
{
    match decoded_or_error(decoded) {
        Ok(image) => ocr_image(engine, &image),
        Err(error) => Err(error),
    }
}

/// Decodes an encoded image, recognizes its text and takes the battery
/// readings from it: the work on one staged image. What it reports on
/// success are the lines recognized and, for each line that gives one, its
/// reading, in the order of the lines. A failure is reported and concerns
/// this image only.
pub fn process_image(engine: &ocrs::OcrEngine, bytes: &[u8]) -> (found: Result<
    Recognized,
    RecognitionError,
>)
    ensures
        found is Ok ==> found->Ok_0.consistent(),
{
    ocr_decoded(engine, decode_rgb8(bytes))
}

} // verus!
