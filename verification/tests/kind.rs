use bdl::kind::{BdlLanguage, SyntaxKind};

#[test]
fn raw_round_trip_covers_every_kind() {
    let last = BdlLanguage::kind_to_raw(SyntaxKind::Tombstone);
    for i in 0..=last {
        let k = BdlLanguage::kind_from_raw(i);
        assert_eq!(k as u16, i, "{k:?} out of order");
        assert_eq!(BdlLanguage::kind_to_raw(k), i);
    }
    assert_eq!(last as usize, SyntaxKind::Tombstone as usize);
}

#[test]
fn keywords_round_trip() {
    let last = BdlLanguage::kind_to_raw(SyntaxKind::Tombstone);
    for i in 0..=last {
        let k = BdlLanguage::kind_from_raw(i);
        if k.is_keyword() {
            let text = k.fixed_text().expect("keyword has text");
            assert_eq!(SyntaxKind::from_keyword(text), Some(k));
        }
    }
    assert_eq!(SyntaxKind::from_keyword("tilt"), None);
}

#[test]
fn fixed_texts_and_descriptions() {
    assert_eq!(SyntaxKind::Arrow.fixed_text(), Some("->"));
    assert_eq!(SyntaxKind::Ident.fixed_text(), None);
    assert_eq!(SyntaxKind::KwConcept.describe(), "`concept`");
    assert!(SyntaxKind::Whitespace.is_trivia());
    assert!(SyntaxKind::Module.is_node());
    assert!(!SyntaxKind::Ident.is_node());
}
