use context_input::input::Input;
use context_input::text::{split_text, CompareOutcome, ParseErr};
use nom::error::ErrorKind;

#[derive(Debug)]
struct Options {
    strict: bool,
}

fn is_letter(c: char) -> bool {
    c.is_alphabetic()
}

fn texts<'a, O>(
    r: &Result<(Input<'a, O>, Input<'a, O>), ParseErr<Input<'a, O>>>,
) -> Option<(&'a str, &'a str)> {
    match r {
        Ok((rest, head)) => Some((rest.text, head.text)),
        Err(_) => None,
    }
}

#[test]
fn new_keeps_text_and_context() {
    let opts = Options { strict: true };
    let c = Input::new("let x", &opts);
    assert_eq!(c.text, "let x");
    assert!(std::ptr::eq(c.opts, &opts));
    assert!(c.opts.strict);
}

#[test]
fn as_ref_gives_the_text() {
    let opts = Options { strict: false };
    let c = Input::new("abc", &opts);
    assert_eq!(c.as_ref(), "abc");
    assert!(!c.opts.strict);
}

#[test]
fn input_len_counts_characters() {
    let opts = 0u8;
    assert_eq!(Input::new("héllo€", &opts).input_len(), 6);
    assert_eq!(Input::new("", &opts).input_len(), 0);
}

#[test]
fn complete_split_consumes_whole_letter_run() {
    let opts = 0u8;
    let c = Input::new("abc", &opts);
    let r = c.split_at_position_complete(is_letter);
    assert_eq!(texts(&r), Some(("", "abc")));
}

#[test]
fn streaming_split_at_end_asks_for_more() {
    let opts = 0u8;
    let c = Input::new("abc", &opts);
    let r = c.split_at_position(is_letter);
    assert!(matches!(r, Err(ParseErr::Incomplete(Some(1)))));
    let r1 = c.split_at_position1(is_letter, ErrorKind::Alpha);
    assert!(matches!(r1, Err(ParseErr::Incomplete(Some(1)))));
}

#[test]
fn split_stops_where_predicate_fails() {
    let opts = 0u8;
    let c = Input::new("ab1c", &opts);
    assert_eq!(texts(&c.split_at_position(is_letter)), Some(("1c", "ab")));
    assert_eq!(texts(&c.split_at_position1(is_letter, ErrorKind::Alpha)), Some(("1c", "ab")));
    assert_eq!(texts(&c.split_at_position_complete(is_letter)), Some(("1c", "ab")));
    assert_eq!(
        texts(&c.split_at_position1_complete(is_letter, ErrorKind::Alpha)),
        Some(("1c", "ab"))
    );
}

#[test]
fn split_counts_multibyte_characters() {
    let opts = 0u8;
    let c = Input::new("éñ€x", &opts);
    let r = c.split_at_position_complete(|ch| ch != '€');
    assert_eq!(texts(&r), Some(("€x", "éñ")));
}

#[test]
fn one_or_more_rejects_immediate_failure() {
    let opts = 0u8;
    let c = Input::new("1abc", &opts);
    match c.split_at_position1(is_letter, ErrorKind::Alpha) {
        Err(ParseErr::Error(at, kind)) => {
            assert_eq!(at.text, "1abc");
            assert_eq!(kind, ErrorKind::Alpha);
        }
        _ => panic!("expected a mismatch"),
    }
    match c.split_at_position1_complete(is_letter, ErrorKind::Digit) {
        Err(ParseErr::Error(at, kind)) => {
            assert_eq!(at.text, "1abc");
            assert_eq!(kind, ErrorKind::Digit);
        }
        _ => panic!("expected a mismatch"),
    }
    assert_eq!(texts(&c.split_at_position(is_letter)), Some(("1abc", "")));
    assert_eq!(texts(&c.split_at_position_complete(is_letter)), Some(("1abc", "")));
}

#[test]
fn one_or_more_rejects_empty_complete_input() {
    let opts = 0u8;
    let c = Input::new("", &opts);
    match c.split_at_position1_complete(is_letter, ErrorKind::Alpha) {
        Err(ParseErr::Error(at, kind)) => {
            assert_eq!(at.text, "");
            assert_eq!(kind, ErrorKind::Alpha);
        }
        _ => panic!("expected a mismatch"),
    }
    assert_eq!(texts(&c.split_at_position_complete(is_letter)), Some(("", "")));
}

#[test]
fn streaming_split_of_empty_input_asks_for_more() {
    let opts = 0u8;
    let c = Input::new("", &opts);
    assert!(matches!(c.split_at_position(is_letter), Err(ParseErr::Incomplete(Some(1)))));
    assert!(matches!(
        c.split_at_position1(is_letter, ErrorKind::Alpha),
        Err(ParseErr::Incomplete(Some(1)))
    ));
}

#[test]
fn split_results_keep_the_context() {
    let opts = Options { strict: true };
    let c = Input::new("ab1", &opts);
    let (rest, head) = c.split_at_position_complete(is_letter).unwrap();
    assert!(std::ptr::eq(rest.opts, &opts));
    assert!(std::ptr::eq(head.opts, &opts));
    match c.split_at_position1(|ch| ch == 'z', ErrorKind::Tag) {
        Err(ParseErr::Error(at, _)) => assert!(std::ptr::eq(at.opts, &opts)),
        _ => panic!("expected a mismatch"),
    }
    let (r2, t2) = c.take_split(1);
    assert!(std::ptr::eq(r2.opts, &opts) && std::ptr::eq(t2.opts, &opts));
    assert!(std::ptr::eq(c.slice(0..2).opts, &opts));
    assert!(std::ptr::eq(c.take(2).opts, &opts));
}

#[test]
fn split_ignores_the_context() {
    let a = Options { strict: true };
    let b = Options { strict: false };
    let ca = Input::new("xy z", &a);
    let cb = Input::new("xy z", &b);
    let ra = ca.split_at_position_complete(is_letter);
    let rb = cb.split_at_position_complete(is_letter);
    assert_eq!(texts(&ra), texts(&rb));
    assert_eq!(texts(&ra), Some((" z", "xy")));
    assert!(ca == cb);
}

#[test]
fn slices_count_characters() {
    let opts = 0u8;
    let c = Input::new("añb€c", &opts);
    assert_eq!(c.slice(1..4).text, "ñb€");
    assert_eq!(c.slice_from(3).text, "€c");
    assert_eq!(c.slice_to(2).text, "añ");
    assert_eq!(c.take(4).text, "añb€");
    let (rest, taken) = c.take_split(2);
    assert_eq!(rest.text, "b€c");
    assert_eq!(taken.text, "añ");
    assert_eq!(format!("{}{}", taken.text, rest.text), "añb€c");
}

#[test]
fn slice_of_whole_span_is_the_span() {
    let opts = 0u8;
    let c = Input::new("añb€c", &opts);
    let whole = c.slice(0..c.input_len());
    assert!(whole == c);
    assert_eq!(whole.text, c.text);
    assert_eq!(c.slice_from(5).text, "");
    assert_eq!(c.take(0).text, "");
}

#[test]
fn iteration_yields_characters_in_order() {
    let opts = 0u8;
    let c = Input::new("aé€", &opts);
    assert_eq!(c.iter_indices(), vec![(0, 'a'), (1, 'é'), (2, '€')]);
    assert_eq!(c.iter_elements(), vec!['a', 'é', '€']);
    assert!(Input::new("", &opts).iter_elements().is_empty());
}

#[test]
fn position_finds_first_match() {
    let opts = 0u8;
    let c = Input::new("éa1b2", &opts);
    assert_eq!(c.position(|ch| ch.is_ascii_digit()), Some(2));
    assert_eq!(c.position(|ch| ch == 'é'), Some(0));
    assert_eq!(c.position(|ch| ch == 'z'), None);
}

#[test]
fn slice_index_is_available_up_to_length() {
    let opts = 0u8;
    let c = Input::new("é€x", &opts);
    assert_eq!(c.slice_index(0), Some(0));
    assert_eq!(c.slice_index(2), Some(2));
    assert_eq!(c.slice_index(3), Some(3));
    assert_eq!(c.slice_index(4), None);
}

#[test]
fn exact_comparison_is_case_sensitive() {
    let opts = 0u8;
    let c = Input::new("Hello", &opts);
    assert_eq!(c.compare("hello"), CompareOutcome::Mismatch);
    assert_eq!(c.compare_no_case("hello"), CompareOutcome::Match);
}

#[test]
fn comparison_reports_prefix_and_need_for_more() {
    let opts = 0u8;
    let c = Input::new("Hello world", &opts);
    assert_eq!(c.compare("Hello"), CompareOutcome::Match);
    assert_eq!(c.compare("Hello world!"), CompareOutcome::NeedMore);
    assert_eq!(c.compare("Help"), CompareOutcome::Mismatch);
    assert_eq!(c.compare(""), CompareOutcome::Match);
    let short = Input::new("HE", &opts);
    assert_eq!(short.compare_no_case("help"), CompareOutcome::NeedMore);
    assert_eq!(short.compare_no_case("hx"), CompareOutcome::Mismatch);
    let accented = Input::new("Éclair", &opts);
    assert_eq!(accented.compare("Écl"), CompareOutcome::Match);
    assert_eq!(accented.compare_no_case("écl"), CompareOutcome::Match);
}

#[test]
fn equality_ignores_the_context() {
    let a = 1u32;
    let b = 2u32;
    assert!(Input::new("same", &a) == Input::new("same", &b));
    assert!(Input::new("same", &a) != Input::new("sam", &a));
    assert!(Input::new("abc", &a) != Input::new("abd", &a));
}

#[test]
fn cursor_split_matches_plain_text_split() {
    let opts = Options { strict: true };
    let c = Input::new("ab1", &opts);
    let plain = split_text("ab1", is_letter, true, None).unwrap();
    assert_eq!(texts(&c.split_at_position_complete(is_letter)), Some(plain));
    assert_eq!(plain, ("1", "ab"));
    match split_text("1ab", is_letter, false, Some(ErrorKind::Alpha)) {
        Err(ParseErr::Error(at, kind)) => {
            assert_eq!(at, "1ab");
            assert_eq!(kind, ErrorKind::Alpha);
        }
        _ => panic!("expected a mismatch"),
    }
    assert!(matches!(split_text("ab", is_letter, false, None), Err(ParseErr::Incomplete(Some(1)))));
}
