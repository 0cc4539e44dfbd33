use ainukey::keys::{decode_key, Action};
use ainukey::popup::{placement, popup_height, popup_origin, row_label, row_rect, text_rect, Placement, Rect};

#[test]
fn popup_placement() {
    assert_eq!(placement(0, Some((10, 20))), None);
    assert_eq!(
        placement(3, Some((10, 20))),
        Some(Placement { x: 10, y: 22, width: 220, height: 80 })
    );
    assert_eq!(placement(1, None), Some(Placement { x: 120, y: 120, width: 220, height: 32 }));
    assert_eq!(popup_height(9), 224);
    assert_eq!(popup_origin(Some((-5, -7))), (-5, -5));
}

#[test]
fn popup_rows() {
    assert_eq!(row_rect(0, 218), Rect { left: 4, top: 4, right: 214, bottom: 28 });
    assert_eq!(row_rect(2, 218), Rect { left: 4, top: 52, right: 214, bottom: 76 });
    assert_eq!(text_rect(row_rect(2, 218)), Rect { left: 10, top: 52, right: 214, bottom: 76 });
}

#[test]
fn row_labels_number_from_one() {
    assert_eq!(row_label(0, "カムイ"), "1. カムイ");
    assert_eq!(row_label(8, "a"), "9. a");
    assert_eq!(row_label(9, ""), "10. ");
    // The number shown is the digit key that picks the row.
    for i in 0..9usize {
        let label = row_label(i, "x");
        let vk = label.as_bytes()[0] as u16;
        assert_eq!(decode_key(vk, false, false), Some(Action::SelectIndex(i)));
    }
}
