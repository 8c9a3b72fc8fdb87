use flow::chars::{is_alphanumeric, to_lowercase, to_uppercase};
use flow::dictionary::Dictionary;
use flow::format::{capitalise, fix_spacing, Formatter};

fn f() -> Formatter {
    Formatter::default()
}

fn dictionary(entries: &[(&str, &str)]) -> Dictionary {
    let mut d = Dictionary::new();
    for (k, v) in entries {
        d.insert(k.to_string(), v.to_string());
    }
    d
}

#[test]
fn capitalises_and_adds_trailing_space() {
    assert_eq!(f().format("hello there"), "Hello there ");
}

#[test]
fn spoken_punctuation_becomes_marks() {
    assert_eq!(
        f().format("we ship on friday comma then we review full stop"),
        "We ship on friday, then we review. "
    );
}

#[test]
fn new_line_and_paragraph() {
    // A line break starts a new sentence, so the next word is capitalised.
    assert_eq!(f().format("first new line second"), "First\nSecond ");
    assert_eq!(f().format("one new paragraph two"), "One\n\nTwo ");
}

#[test]
fn capitalises_after_a_full_stop() {
    assert_eq!(
        f().format("that is done full stop next item"),
        "That is done. Next item "
    );
}

#[test]
fn dictionary_replaces_whole_phrases_only() {
    let d = dictionary(&[("lift off", "Lift-Off"), ("dddm", "DDDM")]);
    let fmt = Formatter::with_dictionary(&d);
    assert_eq!(fmt.format("lift off consulting"), "Lift-Off consulting ");
    assert_eq!(fmt.format("dddm limited"), "DDDM limited ");
    // A longer word containing the key must not be touched.
    assert_eq!(fmt.format("liftoff pad"), "Liftoff pad ");
}

#[test]
fn dictionary_feeds_the_decoder_keyterms() {
    let d = dictionary(&[("lift off", "Lift-Off")]);
    let fmt = Formatter::with_dictionary(&d);
    assert_eq!(fmt.keyterms(), "Lift-Off");
}

#[test]
fn no_space_before_punctuation() {
    assert_eq!(f().format("wait comma what"), "Wait, what ");
}

#[test]
fn empty_stays_empty() {
    assert_eq!(f().format("   "), "");
}

#[test]
fn preserves_existing_capitals() {
    assert_eq!(f().format("the NHS trust"), "The NHS trust ");
}

#[test]
fn longest_phrase_wins() {
    let d = dictionary(&[("lift off", "Lift-Off"), ("lift off consulting", "Lift-Off Consulting")]);
    let fmt = Formatter::with_dictionary(&d);
    assert_eq!(fmt.format("the lift off consulting team"), "The Lift-Off Consulting team ");
    assert_eq!(fmt.keyterms(), "Lift-Off Consulting,Lift-Off");
}

#[test]
fn switches_can_be_turned_off() {
    let mut fmt = f();
    fmt.capitalise_sentences = false;
    fmt.spoken_punctuation = false;
    fmt.trailing_space = false;
    assert_eq!(fmt.format(" hello comma there "), "hello comma there");
}

#[test]
fn set_dictionary_keeps_the_switches() {
    let mut fmt = f();
    fmt.trailing_space = false;
    fmt.set_dictionary(&dictionary(&[("Dddm", "DDDM")]));
    assert_eq!(fmt.format("about dddm"), "About DDDM");
    assert!(!fmt.trailing_space);
}

#[test]
fn spoken_forms_match_in_any_case_and_beyond_ascii() {
    let d = dictionary(&[("ÉCOLE", "École")]);
    let fmt = Formatter::with_dictionary(&d);
    assert_eq!(fmt.format("the école opens"), "The École opens ");
}

#[test]
fn sentences_begin_with_capitals_beyond_ascii() {
    assert_eq!(f().format("élan vital"), "Élan vital ");
    // One letter whose capital is two.
    assert_eq!(f().format("ßtraße"), "SStraße ");
}

#[test]
fn letters_beyond_ascii_are_told_apart() {
    assert!(is_alphanumeric('é'));
    assert!(is_alphanumeric('日'));
    assert!(!is_alphanumeric('—'));
    assert!(!is_alphanumeric('€'));
    assert_eq!(to_lowercase("ÀÉ日"), "àé日");
    assert_eq!(to_lowercase("ΟΔΟΣ"), "οδος");
    assert_eq!(to_uppercase('ß'), "SS");
    assert_eq!(to_uppercase('é'), "É");
    assert_eq!(to_uppercase('日'), "日");
}

#[test]
fn formatted_spacing_settles() {
    let once = f().format("wait , what ? yes");
    assert_eq!(once, "Wait, what? Yes ");
    assert_eq!(f().format(&once), once);
}

#[test]
fn a_dictionary_holds_each_key_once() {
    let mut d = dictionary(&[("a", "1"), ("b", "2")]);
    d.insert("a".to_string(), "3".to_string());
    assert_eq!(d.len(), 2);
    assert!(!d.is_empty());
    assert_eq!(d.get("a").map(String::as_str), Some("3"));
    assert_eq!(d.get("b").map(String::as_str), Some("2"));
    assert_eq!(d.get("c"), None);
    assert_eq!(d.entry(0), (&"a".to_string(), &"3".to_string()));
}

#[test]
fn written_forms_stand_as_they_were_entered() {
    let d = dictionary(&[
        ("node js", "Node.js"),
        ("iphone", "iPhone"),
        ("pie two", "3.14,2"),
        ("what", "what?ever"),
    ]);
    let fmt = Formatter::with_dictionary(&d);
    assert_eq!(fmt.format("use node js here"), "Use Node.js here ");
    assert_eq!(fmt.format("iphone users"), "iPhone users ");
    assert_eq!(fmt.format("about pie two full stop done"), "About 3.14,2. Done ");
    assert_eq!(fmt.format("say what"), "Say what?ever ");
}

#[test]
fn gaps_and_capitals_of_plain_text() {
    assert_eq!(fix_spacing("one , two  three \n four ."), "one, two three\nfour.");
    assert_eq!(capitalise("one. two! NASA? \u{e9}t\u{e9}\nthree"), "One. Two! NASA? \u{c9}t\u{e9}\nThree");
}
