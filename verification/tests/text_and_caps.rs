use pipeline_runner::caps::{video_caps, Caps, Field, FieldValue, Structure};
use pipeline_runner::text::{
    decimal_text, find_text, push_decimal, push_signed_decimal, same_text,
};

fn signed(n: i64) -> String {
    let mut out = String::new();
    push_signed_decimal(&mut out, n);
    out
}

#[test]
fn decimal_of_zero_is_one_digit() {
    assert_eq!(decimal_text(0), "0");
}

#[test]
fn decimal_of_single_digits() {
    for d in 0u64..10 {
        assert_eq!(decimal_text(d), format!("{}", d));
    }
}

#[test]
fn decimal_of_large_numbers() {
    assert_eq!(decimal_text(10), "10");
    assert_eq!(decimal_text(1234567890), "1234567890");
    assert_eq!(decimal_text(u64::MAX), "18446744073709551615");
}

#[test]
fn push_decimal_appends() {
    let mut out = String::from("src: ");
    push_decimal(&mut out, 4096);
    assert_eq!(out, "src: 4096");
}

#[test]
fn signed_decimal_covers_the_whole_range() {
    assert_eq!(signed(0), "0");
    assert_eq!(signed(-5), "-5");
    assert_eq!(signed(800), "800");
    assert_eq!(signed(i64::MAX), "9223372036854775807");
    assert_eq!(signed(i64::MIN), "-9223372036854775808");
}

#[test]
fn same_text_compares_characters() {
    assert!(same_text("caps", "caps"));
    assert!(same_text("", ""));
    assert!(!same_text("caps", "cap"));
    assert!(!same_text("caps", "capz"));
    assert!(same_text("grüße", "grüße"));
    assert!(!same_text("grüße", "grusse"));
}

#[test]
fn find_text_gives_first_position_or_length() {
    let names = vec![String::from("a"), String::from("b"), String::from("a")];
    assert_eq!(find_text(&names, "a"), 0);
    assert_eq!(find_text(&names, "b"), 1);
    assert_eq!(find_text(&names, "c"), 3);
    assert_eq!(find_text(&Vec::new(), "a"), 0);
}

#[test]
fn dump_of_unconstrained_caps_is_any() {
    assert_eq!(Caps::new_any().dump(), vec![String::from("ANY")]);
    assert!(Caps::new_any().is_any());
    assert!(!Caps::new_any().is_empty());
}

#[test]
fn dump_of_empty_caps_is_empty() {
    assert_eq!(Caps::new_empty().dump(), vec![String::from("EMPTY")]);
    assert!(Caps::new_empty().is_empty());
    assert!(!Caps::new_empty().is_any());
}

#[test]
fn dump_of_video_caps_lists_fields_in_order() {
    let caps = video_caps(800, 800, 60, 1);
    assert_eq!(
        caps.dump(),
        vec![
            String::from("video/x-raw"),
            String::from("width:800"),
            String::from("height:800"),
            String::from("framerate:60/1"),
        ]
    );
}

#[test]
fn dump_of_several_structures_keeps_their_order() {
    let mut video = Structure::new("video/x-raw");
    video.set("format", FieldValue::Text(String::from("RGB")));
    video.set("width", FieldValue::Int(-1));
    let audio = Structure::new("audio/x-raw");
    let mut last = Structure::new("text/x-raw");
    last.set("rate", FieldValue::Fraction(-30000, 1001));
    let caps = Caps::Structures(vec![video, audio, last]);
    assert_eq!(
        caps.dump(),
        vec![
            String::from("video/x-raw"),
            String::from("format:RGB"),
            String::from("width:-1"),
            String::from("audio/x-raw"),
            String::from("text/x-raw"),
            String::from("rate:-30000/1001"),
        ]
    );
}

#[test]
fn dump_shows_each_field_exactly_once() {
    let caps = video_caps(1, 2, 3, 4);
    let lines = caps.dump();
    assert_eq!(lines.len(), 4);
    for key in ["width:", "height:", "framerate:"] {
        assert_eq!(lines.iter().filter(|l| l.starts_with(key)).count(), 1);
    }
}

#[test]
fn field_line_joins_name_and_value() {
    let field = Field { name: String::from("width"), value: FieldValue::Int(640) };
    assert_eq!(field.line(), "width:640");
    let field = Field { name: String::from("rate"), value: FieldValue::Fraction(30, 1) };
    assert_eq!(field.line(), "rate:30/1");
    let field = Field { name: String::from("format"), value: FieldValue::Text(String::new()) };
    assert_eq!(field.line(), "format:");
}

#[test]
fn structure_set_replaces_in_place_and_adds_at_the_end() {
    let mut s = Structure::new("video/x-raw");
    assert_eq!(s.position("width"), 0);
    assert_eq!(s.get("width"), None);
    s.set("width", FieldValue::Int(1));
    s.set("height", FieldValue::Int(2));
    s.set("width", FieldValue::Int(3));
    assert_eq!(s.fields.len(), 2);
    assert_eq!(s.position("width"), 0);
    assert_eq!(s.position("height"), 1);
    assert_eq!(s.position("depth"), 2);
    assert_eq!(s.get("width"), Some(&FieldValue::Int(3)));
    assert_eq!(s.get("height"), Some(&FieldValue::Int(2)));
    assert_eq!(s.get("depth"), None);
    assert_eq!(s.name, "video/x-raw");
}

#[test]
fn field_values_compare_as_written() {
    assert!(FieldValue::Int(1).same(&FieldValue::Int(1)));
    assert!(!FieldValue::Int(1).same(&FieldValue::Int(2)));
    assert!(FieldValue::Fraction(60, 1).same(&FieldValue::Fraction(60, 1)));
    assert!(!FieldValue::Fraction(60, 1).same(&FieldValue::Fraction(120, 2)));
    assert!(!FieldValue::Int(1).same(&FieldValue::Text(String::from("1"))));
    assert!(FieldValue::Text(String::from("RGB")).same(&FieldValue::Text(String::from("RGB"))));
}

#[test]
fn duplicates_equal_what_they_were_made_from() {
    let caps = video_caps(800, 600, 25, 1);
    assert_eq!(caps.duplicate(), caps);
    assert_eq!(Caps::new_any().duplicate(), Caps::Any);
    let value = FieldValue::Text(String::from("x"));
    assert_eq!(value.duplicate(), value);
    let mut s = Structure::new("a");
    s.set("k", FieldValue::Int(7));
    assert_eq!(s.duplicate(), s);
}

#[test]
fn any_intersects_everything_but_empty() {
    let any = Caps::new_any();
    let empty = Caps::new_empty();
    let video = video_caps(800, 800, 60, 1);
    assert!(any.can_intersect(&any));
    assert!(any.can_intersect(&video));
    assert!(video.can_intersect(&any));
    assert!(!any.can_intersect(&empty));
    assert!(!empty.can_intersect(&any));
    assert!(!empty.can_intersect(&empty));
    assert!(!empty.can_intersect(&video));
}

#[test]
fn structures_intersect_when_common_fields_agree() {
    let a = video_caps(800, 800, 60, 1);
    let b = video_caps(800, 800, 60, 1);
    let c = video_caps(640, 800, 60, 1);
    assert!(a.can_intersect(&b));
    assert!(!a.can_intersect(&c));
    let mut only_width = Structure::new("video/x-raw");
    only_width.set("width", FieldValue::Int(800));
    let partial = Caps::from_structure(only_width);
    assert!(a.can_intersect(&partial));
    assert!(partial.can_intersect(&a));
    assert!(!c.can_intersect(&partial));
    let audio = Caps::from_structure(Structure::new("audio/x-raw"));
    assert!(!a.can_intersect(&audio));
    let mut v = Structure::new("video/x-raw");
    v.set("width", FieldValue::Int(640));
    let both = Caps::Structures(vec![Structure::new("audio/x-raw"), v]);
    assert!(both.can_intersect(&c));
    assert!(both.can_intersect(&audio));
    assert!(!both.can_intersect(&a));
}

#[test]
fn structure_agreement_needs_the_same_name() {
    let a = Structure::new("video/x-raw");
    let b = Structure::new("video/x-h264");
    assert!(!a.agrees_with(&b));
    assert!(a.agrees_with(&Structure::new("video/x-raw")));
}
