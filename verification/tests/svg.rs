use psvg::svg::change_svg_color;

fn b(s: &str) -> Vec<u8> {
    s.as_bytes().to_vec()
}

fn recolor(s: &str) -> String {
    String::from_utf8(change_svg_color(&b(s))).unwrap()
}

#[test]
fn recolor_is_deterministic() {
    let input = "<svg width=\"48\" height=\"48\"><path fill=\"#112233\" fill-rule=\"evenodd\"/></svg>";
    let first = change_svg_color(&b(input));
    let second = change_svg_color(&b(input));
    assert_eq!(first, second);
}

#[test]
fn size_attributes_are_replaced() {
    assert_eq!(recolor("width=\"48\" height=\"48\""), "width=\"100%\" height=\"100%\"");
}

#[test]
fn absent_size_attributes_leave_text_unchanged() {
    assert_eq!(recolor("<svg><circle r=\"4\"/></svg>"), "<svg><circle r=\"4\"/></svg>");
}

#[test]
fn evenodd_without_stroke_ends_in_current_color() {
    let input = "<svg width=\"48\" height=\"48\" viewBox=\"0 0 48 48\"><path fill=\"#112233\" fill-rule=\"evenodd\"/></svg>";
    let expected = "<svg width=\"100%\" height=\"100%\" viewBox=\"0 0 48 48\"><path fill=\"currentColor\" fill-rule=\"evenodd\"/></svg>";
    assert_eq!(recolor(input), expected);
}

#[test]
fn stroke_without_evenodd_keeps_fill_none() {
    let input = "<svg width=\"48\" height=\"48\"><path fill=\"#112233\" stroke=\"#000\"/></svg>";
    let expected = "<svg width=\"100%\" height=\"100%\"><path fill=\"none\" stroke=\"currentColor\"/></svg>";
    assert_eq!(recolor(input), expected);
}

#[test]
fn every_stroke_is_rewritten() {
    let input = "<path fill=\"#fff\" stroke=\"red\" stroke=\"#001122\"/>";
    let expected = "<path fill=\"none\" stroke=\"currentColor\" stroke=\"currentColor\"/>";
    assert_eq!(recolor(input), expected);
}

#[test]
fn fallback_pass_rewrites_every_fill_without_stroke() {
    let input = "<g fill=\"#a1b2c3\" fill=\"#def\"/>";
    let expected = "<g fill=\"currentColor\" fill=\"currentColor\"/>";
    assert_eq!(recolor(input), expected);
}

#[test]
fn non_hex_fill_under_evenodd_becomes_current_color() {
    let input = "<p fill=\"red\" fill-rule=\"evenodd\" stroke=\"blue\"/>";
    let expected = "<p fill=\"currentColor\" fill-rule=\"evenodd\" stroke=\"currentColor\"/>";
    assert_eq!(recolor(input), expected);
}

#[test]
fn evenodd_with_stroke_keeps_fill_none() {
    let input = "<path fill=\"#112233\" stroke=\"#000\" fill-rule=\"evenodd\"/>";
    let expected = "<path fill=\"none\" stroke=\"currentColor\" fill-rule=\"evenodd\"/>";
    assert_eq!(recolor(input), expected);
}

#[test]
fn unclosed_fill_value_is_left_alone() {
    assert_eq!(recolor("<path fill=\"#123"), "<path fill=\"#123");
}

#[test]
fn newline_inside_value_blocks_the_match() {
    assert_eq!(recolor("<path fill=\"#12\n33\"/>"), "<path fill=\"#12\n33\"/>");
}

#[test]
fn empty_input_gives_empty_output() {
    assert_eq!(recolor(""), "");
}
