use bdl::migrate::{
    apply, drive_by_edits, explicit_unit_domain_edits, make_drives_by, make_unit_domains_explicit,
    SourceEdit,
};
use bdl::span::Span;
use bdl::parser::parse_module;

#[test]
fn the_migration_inserts_the_empty_domain_and_touches_nothing_else() {
    let src = "// the lamp\nconcept Tilt : Angle\n\nmapping tilt : Tilt @main   // a source\ntilt() = 0 deg\n\nmapping dimByTilt : Tilt -> Brightness\ndimByTilt(t) = t / (90 deg)\nmapping level : () -> Brightness\n\ncomponent C {\n  requires lean : Tilt\n  mapping inner : Tilt\n}\n";
    let errs = parse_module(src);
    assert!(errs.errors().is_empty(), "{:?}", errs.errors());
    let (out, n) = make_unit_domains_explicit(src);
    assert_eq!(n, 2);
    assert_eq!(
        out,
        "// the lamp\nconcept Tilt : Angle\n\nmapping tilt : () -> Tilt @main   // a source\ntilt() = 0 deg\n\nmapping dimByTilt : Tilt -> Brightness\ndimByTilt(t) = t / (90 deg)\nmapping level : () -> Brightness\n\ncomponent C {\n  requires lean : Tilt\n  mapping inner : () -> Tilt\n}\n"
    );
    // idempotent
    assert_eq!(make_unit_domains_explicit(&out), (out.clone(), 0));
    // a broken source is left alone
    assert_eq!(make_unit_domains_explicit("mapping f : A ->\n").1, 0);
    // the parenthesised and product forms are explicit already or not the shorthand
    assert_eq!(make_unit_domains_explicit("mapping f : (A) -> B\n").1, 0);
    assert_eq!(make_unit_domains_explicit("mapping f : (A, B) -> C\n").1, 0);
}

#[test]
fn the_drive_migration_replaces_only_the_relation_token() {
    let src = "output light : Brightness @main\nmapping level : () -> Brightness @main\nlevel() = 5\ndrive light   =  level   // the edge\ndrive glow by level\ndrive /* out */ other = level\n";
    let (out, n) = make_drives_by(src);
    assert_eq!(n, 2);
    assert_eq!(
        out,
        "output light : Brightness @main\nmapping level : () -> Brightness @main\nlevel() = 5\ndrive light   by  level   // the edge\ndrive glow by level\ndrive /* out */ other by level\n"
    );
    assert_eq!(make_drives_by(&out), (out.clone(), 0));
    assert_eq!(make_drives_by("drive light =\n").1, 0);
}

#[test]
fn edits_apply_in_any_order_and_no_edits_change_nothing() {
    let src = "drive a = b\ndrive c = d\n";
    let first = || SourceEdit { span: Span::new(8, 9), text: "by".into() };
    let second = || SourceEdit { span: Span::new(20, 21), text: "by".into() };
    let want = "drive a by b\ndrive c by d\n";
    assert_eq!(apply(src, &[first(), second()]), want);
    assert_eq!(apply(src, &[second(), first()]), want);
    assert_eq!(apply(src, &[]), src);
}

#[test]
fn the_planned_edits_are_the_rewrites_or_nothing() {
    let e = explicit_unit_domain_edits("mapping f : A\n");
    assert_eq!(e.len(), 1);
    assert_eq!(e[0].span, Span::new(12, 12));
    assert_eq!(e[0].text, "() -> ");
    assert!(explicit_unit_domain_edits("mapping f : () -> A\n").is_empty());
    assert!(explicit_unit_domain_edits("mapping f : A ->\n").is_empty());
    let e = drive_by_edits("drive light = level\n");
    assert_eq!(e.len(), 1);
    assert_eq!(e[0].span, Span::new(12, 13));
    assert_eq!(e[0].text, "by");
    assert!(drive_by_edits("drive light by level\n").is_empty());
    assert!(drive_by_edits("drive light =\n").is_empty());
}
