use la_taupe::ocr::{
    extract_anchors, image_to_string_using_ocrs, keep_present, line_texts, ocr_lines, ocr_text_and_lines,
    page_text_of, OcrLine, OcrWord,
};
use la_taupe::pattern::Matcher;
use la_taupe::shapes::{Anchor, Point};

fn anchor(n: u32) -> Anchor {
    Anchor::new(Point::new(n, n), Point::new(n + 10, n + 5))
}

fn line(text: &str, first: u32) -> OcrLine {
    let words = text
        .split(' ')
        .filter(|w| !w.is_empty())
        .enumerate()
        .map(|(i, w)| OcrWord { text: w.to_string(), anchor: anchor(first + i as u32) })
        .collect();
    OcrLine { text: text.to_string(), words }
}

#[test]
fn page_text_drops_short_lines() {
    let lines = vec!["Hello".to_string(), "x".to_string(), "".to_string(), "World".to_string(), "é".to_string()];
    assert_eq!(page_text_of(&lines), "Hello\nWorld\né");
}

#[test]
fn page_text_of_nothing_is_empty() {
    assert_eq!(page_text_of(&Vec::new()), "");
    assert_eq!(page_text_of(&vec!["a".to_string()]), "");
    assert_eq!(page_text_of(&vec!["ab".to_string()]), "ab");
}

#[test]
fn present_entries_in_order() {
    assert_eq!(keep_present(vec![Some(1), None, Some(3), None]), vec![1, 3]);
    assert_eq!(keep_present::<u8>(vec![None, None]), Vec::<u8>::new());
}

#[test]
fn anchors_of_matching_words() {
    let lines = vec![line("IBAN FR76 1234", 0), line("BIC AGRIFRPP", 10), line("FR12 other", 20)];
    let word = Matcher::new("^FR[0-9]+$").unwrap();
    assert_eq!(extract_anchors(lines, &word, None), vec![anchor(1), anchor(20)]);
}

#[test]
fn anchors_only_in_matching_lines() {
    let lines = vec![line("IBAN FR76 1234", 0), line("BIC AGRIFRPP", 10), line("FR12 other", 20)];
    let word = Matcher::new("^FR[0-9]+$").unwrap();
    let line_re = Matcher::new("IBAN").unwrap();
    assert_eq!(extract_anchors(lines, &word, Some(&line_re)), vec![anchor(1)]);
}

#[test]
fn invalid_pattern_is_refused() {
    assert!(Matcher::new("(").is_none());
    let m = Matcher::new("a+b").unwrap();
    assert!(m.is_match("xaab"));
    assert!(!m.is_match("ba"));
}

#[test]
fn engine_without_models_gives_no_text() {
    let engine = ocrs::OcrEngine::new(ocrs::OcrEngineParams::default()).unwrap();
    let img = image::DynamicImage::new_rgb8(8, 8);
    assert!(image_to_string_using_ocrs(&engine, img).is_none());
}

#[test]
fn image_without_pixels_gives_no_lines() {
    let engine = ocrs::OcrEngine::new(ocrs::OcrEngineParams::default()).unwrap();
    let img = image::DynamicImage::new_rgb8(0, 0);
    assert!(ocr_lines(&engine, img).is_none());
}

#[test]
fn image_with_a_zero_side_is_refused() {
    let engine = ocrs::OcrEngine::new(ocrs::OcrEngineParams::default()).unwrap();
    let img = image::DynamicImage::new_rgb8(0, 5);
    assert!(ocr_lines(&engine, img.clone()).is_none());
    assert!(image_to_string_using_ocrs(&engine, img).is_none());
}

#[test]
fn engine_without_models_gives_no_text_and_lines() {
    let engine = ocrs::OcrEngine::new(ocrs::OcrEngineParams::default()).unwrap();
    let img = image::DynamicImage::new_rgb8(8, 8);
    assert!(ocr_text_and_lines(&engine, img).is_none());
}

fn text_line(text: &str) -> ocrs::TextLine {
    let chars = text
        .chars()
        .enumerate()
        .map(|(i, c)| ocrs::TextChar {
            char: c,
            rect: rten_imageproc::Rect::from_tlhw(0, i as i32 * 10, 20, 10),
        })
        .collect();
    ocrs::TextLine::new(chars)
}

#[test]
fn line_texts_are_the_characters_of_each_line() {
    let lines = vec![text_line("IBAN FR76"), text_line("x"), text_line("2D-DOC")];
    let texts = line_texts(&lines);
    assert_eq!(texts, vec!["IBAN FR76".to_string(), "x".to_string(), "2D-DOC".to_string()]);
    assert_eq!(page_text_of(&texts), "IBAN FR76\n2D-DOC");
}

#[test]
fn anchors_of_joined_runs_are_joined() {
    let word = Matcher::new("^FR[0-9]+$").unwrap();
    let first = vec![line("IBAN FR76 1234", 0)];
    let second = vec![line("FR12 other", 20)];
    let mut both = vec![line("IBAN FR76 1234", 0)];
    both.extend(vec![line("FR12 other", 20)]);
    let mut expected = extract_anchors(first, &word, None);
    expected.extend(extract_anchors(second, &word, None));
    assert_eq!(extract_anchors(both, &word, None), expected);
}

#[test]
fn page_text_has_no_newline_at_either_end() {
    let lines = vec!["".to_string(), "ab".to_string(), "x".to_string(), "cd".to_string(), "y".to_string()];
    let text = page_text_of(&lines);
    assert_eq!(text, "ab\ncd");
    assert!(!text.starts_with('\n') && !text.ends_with('\n'));
}
