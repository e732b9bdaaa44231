use bdl::format::format_module;

#[test]
fn broken_source_is_not_formatted() {
    assert!(format_module("mapping f : A ->\n").is_none());
}

#[test]
fn normalises_spacing_and_indentation_and_keeps_comments() {
    let src = "concept   Tilt:Angle // the tilt\n\n\n\nmapping f:Tilt->Tilt\nf( t )=t/(90 deg)\ncomponent C{\nuse concept Tilt\n      requires x : Tilt @c\n   x() =\n       match x {\n         1 => -1,\n         _ => x\n       }\n// last\n}\n";
    let want = "concept Tilt : Angle  // the tilt\n\nmapping f : Tilt -> Tilt\nf(t) = t / (90 deg)\ncomponent C {\n  use concept Tilt\n  requires x : Tilt @c\n  x() =\n    match x {\n      1 => -1,\n      _ => x\n    }\n  // last\n}\n";
    assert_eq!(format_module(src).expect("parses"), want);
    assert_eq!(format_module(want).expect("parses"), want);
}

#[test]
fn a_source_of_comments_alone_is_formatted() {
    assert_eq!(format_module("  // only a note\n\n\n").as_deref(), Some("// only a note\n"));
    assert_eq!(format_module("").as_deref(), Some("\n"));
}
