use zebrasend::zpl::{default_font, default_font_size, push_decimal, MessageStyle};

fn style(invert: bool, start_point: i32, line_padding: i32) -> MessageStyle {
    MessageStyle {
        font_size: default_font_size(),
        font_width: 0,
        invert,
        font: default_font(),
        line_padding,
        start_point,
    }
}

fn lines(v: &[&str]) -> Vec<String> {
    v.iter().map(|s| s.to_string()).collect()
}

#[test]
fn defaults() {
    assert_eq!(default_font_size(), 35);
    assert_eq!(default_font(), "A");
}

#[test]
fn message_lines_step_down_by_font_size_and_padding() {
    let zpl = style(false, 0, 5).create_zpl_message(lines(&["hello", "world", "x"]));
    assert_eq!(
        zpl,
        "^XA^CFA,35,0^PON^FO10,0^FDhello^FS^FO10,40^FDworld^FS^FO10,80^FDx^FS^XZ"
    );
}

#[test]
fn inverted_message_with_negative_start() {
    let zpl = style(true, -50, 0).create_zpl_message(lines(&["a", "b"]));
    assert_eq!(zpl, "^XA^CFA,35,0^POI^FO10,-50^FDa^FS^FO10,-15^FDb^FS^XZ");
}

#[test]
fn empty_message() {
    let mut s = style(false, 0, 0);
    s.font = "0".to_string();
    s.font_width = 20;
    assert_eq!(s.create_zpl_message(vec![]), "^XA^CF0,35,20^PON^XZ");
}

#[test]
fn layout_must_fit_i32() {
    let s = style(false, i32::MAX - 100, 0);
    assert!(s.layout_fits(0));
    assert!(s.layout_fits(1));
    assert!(s.layout_fits(2));
    assert!(!s.layout_fits(3));
    let t = MessageStyle { font_size: i32::MAX, line_padding: 1, ..style(false, 0, 0) };
    assert!(!t.layout_fits(1));
    assert!(t.layout_fits(0));
}

#[test]
fn decimal_text() {
    let mut s = String::from("x");
    push_decimal(&mut s, i32::MIN);
    assert_eq!(s, "x-2147483648");
    let mut s = String::new();
    push_decimal(&mut s, 0);
    push_decimal(&mut s, 1907);
    assert_eq!(s, "01907");
}

#[test]
fn duplicate_keeps_fields() {
    let s = style(true, 7, 3);
    let d = s.duplicate();
    assert_eq!(
        s.create_zpl_message(lines(&["q"])),
        d.create_zpl_message(lines(&["q"]))
    );
}
