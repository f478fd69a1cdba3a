//! What the service makes of recognised text: the page text and the anchors
//! of the words that a pattern picks out.
use vstd::prelude::*;
use vstd::utf8::encode_utf8;

use crate::pattern::{spec_regex_is_match, Matcher};
use crate::shapes::Anchor;

verus! {

// ----------------------------------------------------------------------------
// Page text

/// The length in bytes of a text, as UTF-8.
pub open spec fn byte_len(s: Seq<char>) -> nat {
    encode_utf8(s).len()
}

/// The lines that count as text: those longer than one byte.
pub open spec fn kept_lines(lines: Seq<Seq<char>>) -> Seq<Seq<char>>
    decreases lines.len(),
{
    if lines.len() == 0 {
        Seq::empty()
    } else {
        let kept = kept_lines(lines.drop_last());
        if byte_len(lines.last()) > 1 {
            kept.push(lines.last())
        } else {
            kept
        }
    }
}

/// Lines joined into one text, one newline between each two.
pub open spec fn joined(lines: Seq<Seq<char>>) -> Seq<char>
    decreases lines.len(),
{
    if lines.len() == 0 {
        Seq::empty()
    } else if lines.len() == 1 {
        lines[0]
    } else {
        joined(lines.drop_last()) + seq!['\n'] + lines.last()
    }
}

/// The text of a page whose recognised lines read `lines`.
pub open spec fn page_text(lines: Seq<Seq<char>>) -> Seq<char> {
    joined(kept_lines(lines))
}

/// The characters of each string.
pub open spec fn texts_of(lines: Seq<String>) -> Seq<Seq<char>> {
    lines.map_values(|s: String| s@)
}

/// Joins the recognised lines of a page into its text, leaving out the lines
/// that are one byte long or empty.
pub fn page_text_of(lines: &Vec<String>) -> (text: String)
    ensures
        text@ == page_text(texts_of(lines@)),
{
    let ghost texts = texts_of(lines@);
    let mut text = String::new();
    let mut any = false;
    let n = lines.len();
    let mut i: usize = 0;
    assert(texts.take(0) =~= Seq::<Seq<char>>::empty());
    while i < n
        invariant
            n == lines@.len(),
            texts == texts_of(lines@),
            i <= n,
            text@ == joined(kept_lines(texts.take(i as int))),
            any == (kept_lines(texts.take(i as int)).len() > 0),
        decreases n - i,
    {
        let line = lines[i].as_str();
        let ghost kept = kept_lines(texts.take(i as int));
        assert(texts.take(i + 1).drop_last() =~= texts.take(i as int));
        assert(texts.take(i + 1).last() == line@);
        let bytes = line.as_bytes().len();
        if bytes > 1 {
            assert(kept.push(line@).drop_last() =~= kept);
            if any {
                text.append("\n");
                text.append(line);
                assert(text@ =~= joined(kept) + seq!['\n'] + line@) by {
                    reveal_strlit("\n");
                }
            } else {
                text.append(line);
                assert(text@ =~= line@);
            }
            any = true;
        }
        i = i + 1;
    }
    assert(texts.take(n as int) =~= texts);
    text
}

/// The entries of `items` that are present, in order.
pub open spec fn present<T>(items: Seq<Option<T>>) -> Seq<T>
    decreases items.len(),
{
    if items.len() == 0 {
        Seq::empty()
    } else {
        match items[0] {
            Some(x) => seq![x] + present(items.drop_first()),
            None => present(items.drop_first()),
        }
    }
}

/// Keeps the entries of `items` that are present, in order.
pub fn keep_present<T>(items: Vec<Option<T>>) -> (kept: Vec<T>)
    ensures
        kept@ == present(items@),
{
    let ghost all = items@;
    let mut items = items;
    let mut kept: Vec<T> = Vec::new();
    while items.len() > 0
        invariant
            present(all) == kept@ + present(items@),
        decreases items.len(),
    {
        let ghost before = items@;
        let first = items.remove(0);
        assert(before.drop_first() =~= items@);
        match first {
            Some(x) => {
                kept.push(x);
                assert(present(all) =~= kept@ + present(items@));
            },
            None => {},
        }
    }
    assert(kept@ + present(items@) =~= kept@);
    kept
}

// ----------------------------------------------------------------------------
// Anchors

/// A recognised word: its text and its box.
pub struct OcrWord {
    pub text: String,
    pub anchor: Anchor,
}

/// A recognised line: its text and its words, in reading order.
pub struct OcrLine {
    pub text: String,
    pub words: Vec<OcrWord>,
}

/// The anchors of the words among `words` whose text `word_pattern` matches, in order.
pub open spec fn word_anchors(words: Seq<OcrWord>, word_pattern: Seq<char>) -> Seq<Anchor>
    decreases words.len(),
{
    if words.len() == 0 {
        Seq::empty()
    } else {
        word_anchors(words.drop_last(), word_pattern) + if spec_regex_is_match(
            word_pattern,
            words.last().text@,
        ) {
            seq![words.last().anchor]
        } else {
            Seq::empty()
        }
    }
}

/// Whether a line is searched for anchors: every line where there is no line
/// pattern, and the lines whose text it matches otherwise.
pub open spec fn line_searched(line: OcrLine, line_pattern: Option<Seq<char>>) -> bool {
    match line_pattern {
        Some(p) => spec_regex_is_match(p, line.text@),
        None => true,
    }
}

/// The anchors of the matching words of the searched lines, line by line.
pub open spec fn anchors_of(
    lines: Seq<OcrLine>,
    word_pattern: Seq<char>,
    line_pattern: Option<Seq<char>>,
) -> Seq<Anchor>
    decreases lines.len(),
{
    if lines.len() == 0 {
        Seq::empty()
    } else {
        anchors_of(lines.drop_last(), word_pattern, line_pattern) + if line_searched(
            lines.last(),
            line_pattern,
        ) {
            word_anchors(lines.last().words@, word_pattern)
        } else {
            Seq::empty()
        }
    }
}

/// The pattern of an optional expression.
pub open spec fn pattern_of(m: Option<&Matcher>) -> Option<Seq<char>> {
    match m {
        Some(m) => Some(m.pattern()),
        None => None,
    }
}

/// The anchors of the words that `word_regex` matches, in the lines that
/// `line_regex` matches (in every line where it is absent).
pub fn extract_anchors(
    text_lines: Vec<OcrLine>,
    word_regex: &Matcher,
    line_regex: Option<&Matcher>,
) -> (anchors: Vec<Anchor>)
    ensures
        anchors@ == anchors_of(text_lines@, word_regex.pattern(), pattern_of(line_regex)),
{
    let ghost wp = word_regex.pattern();
    let ghost lp = pattern_of(line_regex);
    let mut anchors: Vec<Anchor> = Vec::new();
    let n = text_lines.len();
    let mut i: usize = 0;
    assert(text_lines@.take(0) =~= Seq::<OcrLine>::empty());
    while i < n
        invariant
            n == text_lines@.len(),
            i <= n,
            wp == word_regex.pattern(),
            lp == pattern_of(line_regex),
            anchors@ == anchors_of(text_lines@.take(i as int), wp, lp),
        decreases n - i,
    {
        let line = &text_lines[i];
        let ghost before = anchors@;
        assert(text_lines@.take(i + 1).drop_last() =~= text_lines@.take(i as int));
        let searched = match line_regex {
            Some(re) => re.is_match(line.text.as_str()),
            None => true,
        };
        if searched {
            let m = line.words.len();
            let mut j: usize = 0;
            assert(line.words@.take(0) =~= Seq::<OcrWord>::empty());
            assert(before + word_anchors(line.words@.take(0), wp) =~= before);
            while j < m
                invariant
                    m == line.words@.len(),
                    j <= m,
                    wp == word_regex.pattern(),
                    anchors@ == before + word_anchors(line.words@.take(j as int), wp),
                decreases m - j,
            {
                let word = &line.words[j];
                assert(line.words@.take(j + 1).drop_last() =~= line.words@.take(j as int));
                if word_regex.is_match(word.text.as_str()) {
                    anchors.push(word.anchor);
                }
                assert(anchors@ =~= before + word_anchors(line.words@.take(j + 1), wp));
                j = j + 1;
            }
            assert(line.words@.take(m as int) =~= line.words@);
        } else {
            assert(anchors@ =~= before + Seq::<Anchor>::empty());
        }
        assert(anchors@ =~= anchors_of(text_lines@.take(i + 1), wp, lp));
        i = i + 1;
    }
    assert(text_lines@.take(n as int) =~= text_lines@);
    anchors
}

// ----------------------------------------------------------------------------
// Laws of page text and anchors

/// Whether `a` is `b` with some entries left out, the rest kept in order.
pub open spec fn subsequence_of<T>(a: Seq<T>, b: Seq<T>) -> bool
    decreases b.len(),
{
    if b.len() == 0 {
        a.len() == 0
    } else {
        (a.len() > 0 && a.last() == b.last() && subsequence_of(a.drop_last(), b.drop_last()))
            || subsequence_of(a, b.drop_last())
    }
}

/// Leaving out entries of two sequences leaves out entries of their concatenation.
proof fn lemma_subsequence_concat<T>(x: Seq<T>, u: Seq<T>, y: Seq<T>, v: Seq<T>)
    requires
        subsequence_of(x, u),
        subsequence_of(y, v),
    ensures
        subsequence_of(x + y, u + v),
    decreases v.len(),
{
    if v.len() == 0 {
        assert(x + y =~= x);
        assert(u + v =~= u);
    } else {
        assert((u + v).drop_last() =~= u + v.drop_last());
        if y.len() > 0 && y.last() == v.last() && subsequence_of(y.drop_last(), v.drop_last()) {
            lemma_subsequence_concat(x, u, y.drop_last(), v.drop_last());
            assert((x + y).drop_last() =~= x + y.drop_last());
        } else {
            lemma_subsequence_concat(x, u, y, v.drop_last());
        }
    }
}

/// Every sequence is a subsequence of itself, and the empty one of every sequence.
proof fn lemma_subsequence_refl<T>(s: Seq<T>)
    ensures
        subsequence_of(s, s),
        subsequence_of(Seq::<T>::empty(), s),
    decreases s.len(),
{
    if s.len() > 0 {
        lemma_subsequence_refl(s.drop_last());
    }
}

/// The lines kept in a page text are the page's lines in their order, with
/// some left out, and each of them is longer than one byte.
pub proof fn lemma_kept_lines(lines: Seq<Seq<char>>)
    ensures
        subsequence_of(kept_lines(lines), lines),
        forall|i: int| 0 <= i < kept_lines(lines).len() ==> byte_len(#[trigger] kept_lines(lines)[i]) > 1,
    decreases lines.len(),
{
    if lines.len() > 0 {
        lemma_kept_lines(lines.drop_last());
        let k = kept_lines(lines.drop_last());
        if byte_len(lines.last()) > 1 {
            assert(k.push(lines.last()).drop_last() =~= k);
        }
    }
}

/// The lines of a page text are exactly the page's lines longer than one
/// byte, in their order: every such line is kept, however long, and no other.
pub proof fn lemma_kept_lines_are_the_long_lines(lines: Seq<Seq<char>>)
    ensures
        kept_lines(lines) == lines.filter(|l: Seq<char>| byte_len(l) > 1),
        page_text(lines) == joined(lines.filter(|l: Seq<char>| byte_len(l) > 1)),
        forall|i: int|
            0 <= i < lines.len() && byte_len(#[trigger] lines[i]) > 1 ==> kept_lines(
                lines,
            ).contains(lines[i]),
    decreases lines.len(),
{
    reveal(Seq::filter);
    if lines.len() > 0 {
        lemma_kept_lines_are_the_long_lines(lines.drop_last());
    }
    let long = |l: Seq<char>| byte_len(l) > 1;
    assert forall|i: int| 0 <= i < lines.len() && byte_len(#[trigger] lines[i]) > 1 implies kept_lines(
        lines,
    ).contains(lines[i]) by {
        assert(long(lines[i]));
        lines.lemma_filter_contains(long, i);
    }
}

/// The empty text is no byte long.
proof fn lemma_empty_no_bytes(s: Seq<char>)
    ensures
        s.len() == 0 ==> byte_len(s) == 0,
{
}

/// Joined non-empty lines start with the first character of the first line
/// and end with the last character of the last line.
proof fn lemma_joined_ends(lines: Seq<Seq<char>>)
    requires
        forall|i: int| 0 <= i < lines.len() ==> (#[trigger] lines[i]).len() > 0,
    ensures
        lines.len() > 0 ==> joined(lines).len() > 0 && joined(lines)[0] == lines[0][0]
            && joined(lines).last() == lines.last().last(),
    decreases lines.len(),
{
    if lines.len() > 1 {
        let rest = lines.drop_last();
        lemma_joined_ends(rest);
        assert(rest[0] == lines[0]);
        assert(lines.last() == lines[lines.len() - 1]);
    }
}

/// A page text begins and ends with a line's own characters, never with the
/// newline that separates lines: where no line begins or ends with a newline,
/// neither does the page text.
pub proof fn lemma_page_text_ends(lines: Seq<Seq<char>>)
    requires
        forall|i: int|
            0 <= i < lines.len() && (#[trigger] lines[i]).len() > 0 ==> lines[i][0] != '\n'
                && lines[i].last() != '\n',
    ensures
        page_text(lines).len() > 0 ==> page_text(lines)[0] != '\n' && page_text(lines).last()
            != '\n',
{
    let k = kept_lines(lines);
    lemma_kept_lines(lines);
    lemma_kept_lines_from(lines);
    assert forall|i: int| 0 <= i < k.len() implies (#[trigger] k[i]).len() > 0 by {
        assert(byte_len(k[i]) > 1);
        lemma_empty_no_bytes(k[i]);
    }
    lemma_joined_ends(k);
}

/// Each kept line is one of the page's lines.
proof fn lemma_kept_lines_from(lines: Seq<Seq<char>>)
    ensures
        forall|i: int| 0 <= i < kept_lines(lines).len() ==> lines.contains(#[trigger] kept_lines(lines)[i]),
    decreases lines.len(),
{
    if lines.len() > 0 {
        let rest = lines.drop_last();
        lemma_kept_lines_from(rest);
        let k = kept_lines(rest);
        assert forall|i: int| 0 <= i < k.len() implies lines.contains(#[trigger] k[i]) by {
            let j = choose|j: int| 0 <= j < rest.len() && rest[j] == k[i];
            assert(lines[j] == k[i]);
        }
        if byte_len(lines.last()) > 1 {
            assert(lines[lines.len() - 1] == lines.last());
        }
    }
}

/// The anchors of two runs of lines, one after the other, are the anchors of
/// the first run followed by those of the second.
pub proof fn lemma_anchors_concat(
    a: Seq<OcrLine>,
    b: Seq<OcrLine>,
    word_pattern: Seq<char>,
    line_pattern: Option<Seq<char>>,
)
    ensures
        anchors_of(a + b, word_pattern, line_pattern) == anchors_of(a, word_pattern, line_pattern)
            + anchors_of(b, word_pattern, line_pattern),
    decreases b.len(),
{
    if b.len() == 0 {
        assert(a + b =~= a);
        assert(anchors_of(a, word_pattern, line_pattern) + Seq::<Anchor>::empty() =~= anchors_of(
            a,
            word_pattern,
            line_pattern,
        ));
    } else {
        lemma_anchors_concat(a, b.drop_last(), word_pattern, line_pattern);
        assert((a + b).drop_last() =~= a + b.drop_last());
        assert((a + b).last() == b.last());
        let extra = if line_searched(b.last(), line_pattern) {
            word_anchors(b.last().words@, word_pattern)
        } else {
            Seq::<Anchor>::empty()
        };
        assert(anchors_of(a, word_pattern, line_pattern) + anchors_of(
            b.drop_last(),
            word_pattern,
            line_pattern,
        ) + extra =~= anchors_of(a, word_pattern, line_pattern) + (anchors_of(
            b.drop_last(),
            word_pattern,
            line_pattern,
        ) + extra));
    }
}

/// A line pattern only leaves anchors out: the anchors found in the lines it
/// matches are those found in all lines, some left out, the rest in order.
pub proof fn lemma_line_filter_only_removes(
    lines: Seq<OcrLine>,
    word_pattern: Seq<char>,
    line_pattern: Seq<char>,
)
    ensures
        subsequence_of(
            anchors_of(lines, word_pattern, Some(line_pattern)),
            anchors_of(lines, word_pattern, None),
        ),
    decreases lines.len(),
{
    if lines.len() == 0 {
        lemma_subsequence_refl(Seq::<Anchor>::empty());
    } else {
        let rest = lines.drop_last();
        lemma_line_filter_only_removes(rest, word_pattern, line_pattern);
        let all = word_anchors(lines.last().words@, word_pattern);
        lemma_subsequence_refl(all);
        if spec_regex_is_match(line_pattern, lines.last().text@) {
            lemma_subsequence_concat(
                anchors_of(rest, word_pattern, Some(line_pattern)),
                anchors_of(rest, word_pattern, None),
                all,
                all,
            );
        } else {
            lemma_subsequence_concat(
                anchors_of(rest, word_pattern, Some(line_pattern)),
                anchors_of(rest, word_pattern, None),
                Seq::<Anchor>::empty(),
                all,
            );
            assert(anchors_of(rest, word_pattern, Some(line_pattern)) + Seq::<Anchor>::empty()
                =~= anchors_of(rest, word_pattern, Some(line_pattern)));
        }
    }
}

/// The anchors found in a line are those of all its words whose text the
/// word pattern matches, every one of them, in reading order; so there are as
/// many anchors as matching words.
pub proof fn lemma_word_anchors_are_the_matching_words(words: Seq<OcrWord>, word_pattern: Seq<char>)
    ensures
        word_anchors(words, word_pattern) == words.filter(
            |w: OcrWord| spec_regex_is_match(word_pattern, w.text@),
        ).map_values(|w: OcrWord| w.anchor),
        word_anchors(words, word_pattern).len() == words.filter(
            |w: OcrWord| spec_regex_is_match(word_pattern, w.text@),
        ).len(),
    decreases words.len(),
{
    reveal(Seq::filter);
    if words.len() > 0 {
        lemma_word_anchors_are_the_matching_words(words.drop_last(), word_pattern);
        let matching = |w: OcrWord| spec_regex_is_match(word_pattern, w.text@);
        let anchor = |w: OcrWord| w.anchor;
        let before = words.drop_last().filter(matching);
        if matching(words.last()) {
            assert(before.push(words.last()).map_values(anchor) =~= before.map_values(anchor)
                + seq![words.last().anchor]);
        } else {
            assert(before.map_values(anchor) + Seq::<Anchor>::empty() =~= before.map_values(
                anchor,
            ));
        }
    }
}

// ----------------------------------------------------------------------------
// Recognition

#[verifier::external_type_specification]
#[verifier::external_body]
pub struct ExOcrEngine(ocrs::OcrEngine);

#[verifier::external_type_specification]
#[verifier::external_body]
pub struct ExOcrInput(ocrs::OcrInput);

#[verifier::external_type_specification]
#[verifier::external_body]
pub struct ExImageSource<'a>(ocrs::ImageSource<'a>);

#[verifier::external_type_specification]
#[verifier::external_body]
pub struct ExTextLine(ocrs::TextLine);

#[verifier::external_type_specification]
#[verifier::external_body]
pub struct ExRotatedRect(rten_imageproc::RotatedRect);

#[verifier::external_type_specification]
#[verifier::external_body]
pub struct ExDynamicImage(image::DynamicImage);

/// The largest distance from the origin, in pixels, of a side of the box
/// around the words handed to layout and recognition: these steps take the
/// centre of a box by adding two of its coordinates in `i32`, which fits
/// exactly when each lies within half the range of an `i32`.
pub const MAX_WORD_COORD: i32 = 1073741823;

/// Whether the `i32` arithmetic of the layout and recognition steps fits for
/// words whose integral bounding box is `bx` (top, left, bottom, right): every
/// side lies within `MAX_WORD_COORD` of the origin, the area of the box fits
/// an `i32`, and so does three times the sum of its sides plus one (the
/// step multiplies a word spacing and a word height, each at most that, by three).
/// No words (no box) always fit.
pub open spec fn layout_fits(bx: Option<(i32, i32, i32, i32)>) -> bool {
    match bx {
        None => true,
        Some((t, l, b, r)) => {
            &&& -MAX_WORD_COORD <= t <= b <= MAX_WORD_COORD
            &&& -MAX_WORD_COORD <= l <= r <= MAX_WORD_COORD
            &&& (r - l) * (b - t) <= i32::MAX
            &&& 3 * ((r - l) + (b - t) + 1) <= i32::MAX
        },
    }
}

/// The bytes of the pixels of an image after `image::DynamicImage::into_rgb8`,
/// as `image::ImageBuffer::into_raw` gives them.
pub uninterp spec fn spec_rgb8_bytes(img: image::DynamicImage) -> Seq<u8>;

/// The width and height of an image, as `image::RgbImage::dimensions` gives
/// them after `image::DynamicImage::into_rgb8`.
pub uninterp spec fn spec_image_dims(img: image::DynamicImage) -> (u32, u32);

/// The pixel bytes that an `ocrs::ImageSource` made by `from_bytes` holds.
pub uninterp spec fn spec_source_pixels(source: ocrs::ImageSource) -> Seq<u8>;

/// The width and height of the image that `ocrs::ImageSource::from_bytes` made.
pub uninterp spec fn spec_source_dims(source: ocrs::ImageSource) -> (u32, u32);

/// The width and height of the input that `ocrs::OcrEngine::prepare_input` made.
pub uninterp spec fn spec_input_dims(input: ocrs::OcrInput) -> (u32, u32);

/// That `ocrs::OcrEngine::prepare_input` made `input` from an image source
/// holding `pixels`, of width and height `dims`.
pub uninterp spec fn spec_prepared_from(input: ocrs::OcrInput, pixels: Seq<u8>, dims: (u32, u32)) -> bool;

/// That `words` are word boxes that `ocrs::OcrEngine::detect_words` of
/// `engine` found in `input`.
pub uninterp spec fn spec_detected_in(
    engine: ocrs::OcrEngine,
    input: ocrs::OcrInput,
    words: Seq<rten_imageproc::RotatedRect>,
) -> bool;

/// That `ocrs::OcrEngine::detect_words` of `engine` failed on `input` (an
/// engine without its detection model always does).
pub uninterp spec fn spec_detection_failed(engine: ocrs::OcrEngine, input: ocrs::OcrInput) -> bool;

/// That `ocrs::OcrEngine::recognize_text` of `engine` failed on `input` for
/// the line regions `lines` (an engine without its recognition model always does).
pub uninterp spec fn spec_recognition_failed(
    engine: ocrs::OcrEngine,
    input: ocrs::OcrInput,
    lines: Seq<Vec<rten_imageproc::RotatedRect>>,
) -> bool;

/// Whether `ocrs::ImageSource::from_bytes` refuses `pixels` as an image of
/// width and height `dims`: the image has no pixels, or the bytes do not make
/// a whole number of channels per pixel, or that number is not 1, 3 or 4.
pub open spec fn source_refused(pixels: Seq<u8>, dims: (u32, u32)) -> bool {
    let n: int = dims.0 * dims.1;
    let len: int = pixels.len() as int;
    n == 0 || len % n != 0 || !(len / n == 1 || len / n == 3 || len / n == 4)
}

/// The integral bounding box (top, left, bottom, right) of word boxes, as
/// `rten_imageproc::bounding_rect` and `RectF::integral_bounding_rect` give it;
/// `None` for no words.
pub uninterp spec fn spec_words_box(words: Seq<rten_imageproc::RotatedRect>) -> Option<
    (i32, i32, i32, i32),
>;

/// The lines that `ocrs::OcrEngine::find_text_lines` groups `words` into.
pub uninterp spec fn spec_text_lines(words: Seq<rten_imageproc::RotatedRect>) -> Seq<
    Vec<rten_imageproc::RotatedRect>,
>;

/// That `recognized` is what `ocrs::OcrEngine::recognize_text` of `engine`
/// read in `input` for the line regions `lines`.
pub uninterp spec fn spec_recognized_in(
    engine: ocrs::OcrEngine,
    input: ocrs::OcrInput,
    lines: Seq<Vec<rten_imageproc::RotatedRect>>,
    recognized: Seq<Option<ocrs::TextLine>>,
) -> bool;

/// The text that `ToString::to_string` writes for a recognised line.
pub uninterp spec fn spec_line_text(line: ocrs::TextLine) -> Seq<char>;

/// Calls `image::DynamicImage::into_rgb8` and hands out the pixels of the
/// result with its width and height. It claims that these are named by
/// `spec_rgb8_bytes` and `spec_image_dims` of the image, and that the buffer
/// holds at least three bytes for each pixel (an `ImageBuffer` is never
/// shorter; one made from a longer buffer keeps it whole).
#[verifier::external_body]
fn rgb8_pixels(img: image::DynamicImage) -> (pixels: (Vec<u8>, u32, u32))
    ensures
        pixels.0@ == spec_rgb8_bytes(img),
        (pixels.1, pixels.2) == spec_image_dims(img),
        pixels.0@.len() >= 3 * pixels.1 * pixels.2,
{
    let rgb = img.into_rgb8();
    let (width, height) = rgb.dimensions();
    (rgb.into_raw(), width, height)
}

/// Calls `ocrs::ImageSource::from_bytes` on pixels of the given size; its
/// error becomes `None`. The crate multiplies width by height in `u32`, so the
/// product must fit. It claims: it fails exactly where `source_refused` says;
/// a source made holds the given pixels and size.
#[verifier::external_body]
fn image_source(pixels: &[u8], width: u32, height: u32) -> (source: Option<ocrs::ImageSource<'_>>)
    requires
        width * height <= u32::MAX,
    ensures
        source is None <==> source_refused(pixels@, (width, height)),
        source matches Some(s) ==> spec_source_pixels(s) == pixels@ && spec_source_dims(s) == (
            width,
            height,
        ),
{
    ocrs::ImageSource::from_bytes(pixels, (width, height)).ok()
}

/// Calls `ocrs::OcrEngine::prepare_input`, which never fails and keeps the
/// size of the image: the claim is that the result is present, prepared from
/// the pixels of the source, with its size.
#[verifier::external_body]
fn prepare_input(engine: &ocrs::OcrEngine, source: ocrs::ImageSource) -> (input: Option<
    ocrs::OcrInput,
>)
    ensures
        input is Some,
        spec_input_dims(input.unwrap()) == spec_source_dims(source),
        spec_prepared_from(input.unwrap(), spec_source_pixels(source), spec_source_dims(source)),
{
    engine.prepare_input(source).ok()
}

/// Calls `ocrs::OcrEngine::detect_words`; its error becomes `None`. The crate
/// casts the sides of the input to `i32`, so they must fit. It claims that
/// what it finds is named as found by this engine in this input, and that a
/// failure is named as this engine's failure on this input.
#[verifier::external_body]
fn detect_words(engine: &ocrs::OcrEngine, input: &ocrs::OcrInput) -> (words: Option<
    Vec<rten_imageproc::RotatedRect>,
>)
    requires
        spec_input_dims(*input).0 <= i32::MAX,
        spec_input_dims(*input).1 <= i32::MAX,
    ensures
        words matches Some(w) ==> spec_detected_in(*engine, *input, w@),
        words is None ==> spec_detection_failed(*engine, *input),
{
    engine.detect_words(input).ok()
}

/// Calls `rten_imageproc::bounding_rect` on word boxes and turns the box with
/// `RectF::integral_bounding_rect` into whole pixels, as the layout step does;
/// the claim is that the four sides are named by `spec_words_box`.
#[verifier::external_body]
fn words_box(words: &Vec<rten_imageproc::RotatedRect>) -> (bx: Option<(i32, i32, i32, i32)>)
    ensures
        bx == spec_words_box(words@),
{
    rten_imageproc::bounding_rect(words.iter()).map(
        |br| {
            let r = br.integral_bounding_rect();
            (r.top(), r.left(), r.bottom(), r.right())
        },
    )
}

/// Calls `ocrs::OcrEngine::find_text_lines`. The layout step does `i32`
/// arithmetic on the box around all words, so it is handed only detected
/// words whose box fits (`layout_fits`). It claims that the lines are named
/// by `spec_text_lines` of the words, and that every line holds at least one
/// word (each line starts from one).
#[verifier::external_body]
fn find_text_lines(
    engine: &ocrs::OcrEngine,
    input: &ocrs::OcrInput,
    words: &Vec<rten_imageproc::RotatedRect>,
) -> (lines: Vec<Vec<rten_imageproc::RotatedRect>>)
    requires
        spec_detected_in(*engine, *input, words@),
        layout_fits(spec_words_box(words@)),
    ensures
        lines@ == spec_text_lines(words@),
        forall|i: int| 0 <= i < lines@.len() ==> #[trigger] lines@[i]@.len() > 0,
{
    engine.find_text_lines(input, words)
}

/// Calls `ocrs::OcrEngine::recognize_text`; its error becomes `None`. The
/// crate refuses, by panicking, a line without words; it casts the sides of
/// the input to `i32` and does `i32` arithmetic on the line boxes, so it is
/// handed only lines laid out from words whose box fits. It claims that what
/// it reads is named as read by this engine in this input for these lines, and
/// that a failure is named as this engine's failure there.
#[verifier::external_body]
fn recognize_text(
    engine: &ocrs::OcrEngine,
    input: &ocrs::OcrInput,
    lines: &Vec<Vec<rten_imageproc::RotatedRect>>,
) -> (recognized: Option<Vec<Option<ocrs::TextLine>>>)
    requires
        forall|i: int| 0 <= i < lines@.len() ==> #[trigger] lines@[i]@.len() > 0,
        spec_input_dims(*input).0 <= i32::MAX,
        spec_input_dims(*input).1 <= i32::MAX,
        exists|w: Seq<rten_imageproc::RotatedRect>|
            #[trigger] spec_text_lines(w) == lines@ && layout_fits(spec_words_box(w)),
    ensures
        recognized matches Some(r) ==> spec_recognized_in(*engine, *input, lines@, r@),
        recognized is None ==> spec_recognition_failed(*engine, *input, lines@),
{
    engine.recognize_text(input, lines).ok()
}

/// Calls `ToString::to_string` on a line, which writes its characters; the
/// claim is that the string is named by `spec_line_text` of the line.
#[verifier::external_body]
fn line_text(line: &ocrs::TextLine) -> (text: String)
    ensures
        text@ == spec_line_text(*line),
{
    line.to_string()
}

/// The texts of recognised lines.
pub open spec fn texts_of_lines(lines: Seq<ocrs::TextLine>) -> Seq<Seq<char>> {
    lines.map_values(|l: ocrs::TextLine| spec_line_text(l))
}

/// That `recognized` is what `engine` read in `img`: an input prepared from
/// the image's pixels, words detected in it, and the text read for the lines
/// the words are grouped into.
pub open spec fn recognized_in_image(
    engine: ocrs::OcrEngine,
    img: image::DynamicImage,
    recognized: Seq<Option<ocrs::TextLine>>,
) -> bool {
    exists|input: ocrs::OcrInput, words: Seq<rten_imageproc::RotatedRect>|
        #![trigger spec_detected_in(engine, input, words)]
        spec_prepared_from(input, spec_rgb8_bytes(img), spec_image_dims(img))
            && spec_detected_in(engine, input, words)
            && spec_recognized_in(engine, input, spec_text_lines(words), recognized)
}

/// Whether an image's size is one recognition is tried on: its width times its
/// height fits a `u32` (the image source multiplies them in `u32`), and each
/// side fits an `i32` (detection casts them).
pub open spec fn recognizable_size(dims: (u32, u32)) -> bool {
    dims.0 * dims.1 <= u32::MAX && dims.0 <= i32::MAX && dims.1 <= i32::MAX
}

/// Whether the words' box fits the `i32` arithmetic of layout and recognition.
fn words_fit(words: &Vec<rten_imageproc::RotatedRect>) -> (fits: bool)
    ensures
        fits == layout_fits(spec_words_box(words@)),
{
    match words_box(words) {
        None => true,
        Some((t, l, b, r)) => {
            if !(-MAX_WORD_COORD <= t && t <= b && b <= MAX_WORD_COORD) {
                return false;
            }
            if !(-MAX_WORD_COORD <= l && l <= r && r <= MAX_WORD_COORD) {
                return false;
            }
            let w: i64 = r as i64 - l as i64;
            let h: i64 = b as i64 - t as i64;
            assert(0 <= w * h <= 0x4000_0000_0000_0000) by (nonlinear_arith)
                requires
                    0 <= w <= 0x8000_0000,
                    0 <= h <= 0x8000_0000,
            ;
            w * h <= i32::MAX as i64 && 3 * (w + h + 1) <= i32::MAX as i64
        },
    }
}

/// That `engine` refused to read `img`: its size is not one recognition is
/// tried on, the image source refuses its pixels, or for an input prepared
/// from them detection failed, or the words detected did not fit the layout
/// arithmetic, or recognition of the lines they were grouped into failed.
pub open spec fn refused_in_image(engine: ocrs::OcrEngine, img: image::DynamicImage) -> bool {
    let pixels = spec_rgb8_bytes(img);
    let dims = spec_image_dims(img);
    ||| !recognizable_size(dims)
    ||| source_refused(pixels, dims)
    ||| exists|input: ocrs::OcrInput|
        #[trigger] spec_prepared_from(input, pixels, dims) && spec_detection_failed(engine, input)
    ||| exists|input: ocrs::OcrInput, words: Seq<rten_imageproc::RotatedRect>|
        #![trigger spec_detected_in(engine, input, words)]
        spec_prepared_from(input, pixels, dims) && spec_detected_in(engine, input, words) && (
        !layout_fits(spec_words_box(words)) || spec_recognition_failed(
            engine,
            input,
            spec_text_lines(words),
        ))
}

/// Reads the text of words that `engine` detected in `input`: groups them into
/// lines and recognises each, keeping the lines where text was found, in
/// reading order. Words whose box does not fit the layout arithmetic are
/// refused; otherwise `None` comes only from a failure of recognition.
pub fn read_detected_words(
    engine: &ocrs::OcrEngine,
    input: &ocrs::OcrInput,
    words: Vec<rten_imageproc::RotatedRect>,
) -> (lines: Option<Vec<ocrs::TextLine>>)
    requires
        spec_detected_in(*engine, *input, words@),
        spec_input_dims(*input).0 <= i32::MAX,
        spec_input_dims(*input).1 <= i32::MAX,
    ensures
        !layout_fits(spec_words_box(words@)) ==> lines is None,
        lines is None ==> !layout_fits(spec_words_box(words@)) || spec_recognition_failed(
            *engine,
            *input,
            spec_text_lines(words@),
        ),
        lines matches Some(l) ==> exists|r: Seq<Option<ocrs::TextLine>>|
            #[trigger] spec_recognized_in(*engine, *input, spec_text_lines(words@), r) && l@
                == present(r),
{
    if !words_fit(&words) {
        return None;
    }
    let regions = find_text_lines(engine, input, &words);
    assert(spec_text_lines(words@) == regions@ && layout_fits(spec_words_box(words@)));
    match recognize_text(engine, input, &regions) {
        Some(recognized) => Some(keep_present(recognized)),
        None => None,
    }
}

/// Runs text recognition on an image: the recognised lines in reading order,
/// without the line regions where no text was found. `None` where a side of
/// the image is zero or its size is not one recognition is tried on; besides,
/// only where the engine refused it (`refused_in_image`).
pub fn ocr_lines(engine: &ocrs::OcrEngine, img: image::DynamicImage) -> (lines: Option<
    Vec<ocrs::TextLine>,
>)
    ensures
        !recognizable_size(spec_image_dims(img)) ==> lines is None,
        spec_image_dims(img).0 * spec_image_dims(img).1 == 0 ==> lines is None,
        lines is None ==> refused_in_image(*engine, img),
        lines matches Some(l) ==> exists|r: Seq<Option<ocrs::TextLine>>|
            #[trigger] recognized_in_image(*engine, img, r) && l@ == present(r),
{
    let ghost pixels_of = spec_rgb8_bytes(img);
    let ghost dims = spec_image_dims(img);
    let (pixels, width, height) = rgb8_pixels(img);
    if width.checked_mul(height).is_none() || width > i32::MAX as u32 || height > i32::MAX as u32 {
        return None;
    }
    let source = match image_source(pixels.as_slice(), width, height) {
        Some(s) => s,
        None => return None,
    };
    let input = match prepare_input(engine, source) {
        Some(i) => i,
        None => return None,
    };
    assert(spec_prepared_from(input, pixels_of, dims));
    let words = match detect_words(engine, &input) {
        Some(w) => w,
        None => return None,
    };
    let ghost detected = words@;
    let res = read_detected_words(engine, &input, words);
    proof {
        assert(spec_detected_in(*engine, input, detected));
        if res is Some {
            let r = choose|r: Seq<Option<ocrs::TextLine>>|
                #[trigger] spec_recognized_in(*engine, input, spec_text_lines(detected), r) && res->0@
                    == present(r);
            assert(recognized_in_image(*engine, img, r));
        }
    }
    res
}

/// The text of each line, in order.
pub fn line_texts(lines: &Vec<ocrs::TextLine>) -> (texts: Vec<String>)
    ensures
        texts@.len() == lines@.len(),
        forall|k: int| 0 <= k < lines@.len() ==> #[trigger] texts@[k]@ == spec_line_text(lines@[k]),
{
    let mut texts: Vec<String> = Vec::new();
    let mut i: usize = 0;
    while i < lines.len()
        invariant
            i <= lines@.len(),
            texts@.len() == i,
            forall|k: int| 0 <= k < i ==> #[trigger] texts@[k]@ == spec_line_text(lines@[k]),
        decreases lines@.len() - i,
    {
        texts.push(line_text(&lines[i]));
        i = i + 1;
    }
    texts
}

/// The texts of `texts` are the texts of the recognised lines they were read from.
proof fn lemma_texts_of_lines(texts: Seq<String>, lines: Seq<ocrs::TextLine>)
    requires
        texts.len() == lines.len(),
        forall|k: int| 0 <= k < lines.len() ==> #[trigger] texts[k]@ == spec_line_text(lines[k]),
    ensures
        texts_of(texts) == texts_of_lines(lines),
{
    assert(texts_of(texts) =~= texts_of_lines(lines));
}

/// Runs text recognition on an image and gives the page text together with
/// the recognised lines it was made from: the lines longer than one byte,
/// joined with newlines. `None` exactly where `ocr_lines` gives none.
pub fn ocr_text_and_lines(engine: &ocrs::OcrEngine, img: image::DynamicImage) -> (res: Option<
    (String, Vec<ocrs::TextLine>),
>)
    ensures
        !recognizable_size(spec_image_dims(img)) ==> res is None,
        spec_image_dims(img).0 * spec_image_dims(img).1 == 0 ==> res is None,
        res is None ==> refused_in_image(*engine, img),
        res matches Some(r) ==> exists|rec: Seq<Option<ocrs::TextLine>>|
            #[trigger] recognized_in_image(*engine, img, rec) && r.1@ == present(rec),
        res matches Some(r) ==> r.0@ == page_text(texts_of_lines(r.1@)),
{
    match ocr_lines(engine, img) {
        Some(lines) => {
            let texts = line_texts(&lines);
            let t = page_text_of(&texts);
            proof {
                lemma_texts_of_lines(texts@, lines@);
            }
            Some((t, lines))
        },
        None => None,
    }
}

/// The text of an image: the lines the engine read in it, longer than one
/// byte, joined with newlines. `None` where `ocr_lines` gives none.
pub fn image_to_string_using_ocrs(engine: &ocrs::OcrEngine, img: image::DynamicImage) -> (text:
    Option<String>)
    ensures
        !recognizable_size(spec_image_dims(img)) ==> text is None,
        spec_image_dims(img).0 * spec_image_dims(img).1 == 0 ==> text is None,
        text is None ==> refused_in_image(*engine, img),
        text matches Some(t) ==> exists|rec: Seq<Option<ocrs::TextLine>>|
            #[trigger] recognized_in_image(*engine, img, rec) && t@ == page_text(
                texts_of_lines(present(rec)),
            ),
{
    match ocr_lines(engine, img) {
        Some(lines) => {
            let texts = line_texts(&lines);
            let t = page_text_of(&texts);
            proof {
                lemma_texts_of_lines(texts@, lines@);
            }
            Some(t)
        },
        None => None,
    }
}

} // verus!
