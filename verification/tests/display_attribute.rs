use ainukey::display_attribute::{AttrKind, DisplayAttributeInfo, EnumDisplayAttributeInfo, LineStyle};

#[test]
fn preedit_attribute_is_dotted_underline() {
    let a = DisplayAttributeInfo::attribute();
    assert_eq!(a.line_style, LineStyle::Dot);
    assert!(!a.bold_line);
    assert_eq!(a.kind, AttrKind::Input);
    assert_eq!(a.text_color, None);
}

#[test]
fn enumerator_yields_once() {
    let mut e = EnumDisplayAttributeInfo::new();
    assert_eq!(e.next(0), 0);
    assert_eq!(e.next(1), 1);
    assert_eq!(e.next(1), 0);
    e.reset();
    assert_eq!(e.next(5), 1); // fewer than asked: not a full success
    let mut d = e.duplicate();
    assert_eq!(d.next(1), 0);
}

#[test]
fn enumerator_skip() {
    let mut e = EnumDisplayAttributeInfo::new();
    assert!(e.skip(0));
    assert!(e.skip(1));
    assert!(!e.skip(1));
    e.reset();
    assert!(!e.skip(2));
    assert_eq!(e.next(1), 0);
}
