use home_automation_rs::svg::{has_inline_event_handler, is_safe_svg, is_valid_svg, MAX_SVG_SIZE};

#[test]
fn test_is_valid_svg_basic() {
    assert!(is_valid_svg("<svg></svg>"));
    assert!(is_valid_svg("<svg width=\"100\" height=\"100\"></svg>"));
    assert!(is_valid_svg(r#"<svg xmlns="http://www.w3.org/2000/svg"><rect/></svg>"#));
}

#[test]
fn test_is_valid_svg_with_whitespace() {
    assert!(is_valid_svg("  <svg></svg>  "));
    assert!(is_valid_svg("\n<svg>\n</svg>\n"));
}

#[test]
fn test_is_valid_svg_self_closing() {
    assert!(is_valid_svg("<svg/>"));
    assert!(is_valid_svg("<svg width=\"100\"/>"));
}

#[test]
fn test_is_valid_svg_invalid() {
    assert!(!is_valid_svg(""));
    assert!(!is_valid_svg("not svg"));
    assert!(!is_valid_svg("<div></div>"));
    assert!(!is_valid_svg("<svg")); // no closing
}

#[test]
fn test_is_safe_svg_accepts_benign() {
    assert!(is_safe_svg("<svg xmlns=\"http://www.w3.org/2000/svg\"><rect/></svg>"));
    assert!(is_safe_svg("<svg><image href=\"data:image/png;base64,AAAA\"/></svg>"));
    // "on" appearing in normal text/ids must not trip the handler detector.
    assert!(is_safe_svg("<svg><text id=\"onion\">bacon</text></svg>"));
}

#[test]
fn test_is_safe_svg_rejects_active_content() {
    assert!(!is_safe_svg("<svg><script>alert(1)</script></svg>"));
    assert!(!is_safe_svg("<svg onload=\"alert(1)\"></svg>"));
    assert!(!is_safe_svg("<svg onload = 'x'></svg>")); // whitespace before =
    assert!(!is_safe_svg("<svg><rect onclick=\"x\"/></svg>"));
    assert!(!is_safe_svg("<svg><a href=\"javascript:alert(1)\">x</a></svg>"));
    assert!(!is_safe_svg("<svg><foreignObject><body/></foreignObject></svg>"));
    assert!(!is_safe_svg("<svg><animate attributeName=\"x\" onbegin=\"alert(1)\"/></svg>"));
}

#[test]
fn svg_banned_patterns_are_case_insensitive() {
    assert!(!is_safe_svg("<svg><SCRIPT>x</SCRIPT></svg>"));
    assert!(!is_safe_svg("<svg><IFrame src=\"x\"/></svg>"));
    assert!(!is_safe_svg("<svg><embed src=\"x\"/></svg>"));
    assert!(!is_safe_svg("<svg><object data=\"x\"/></svg>"));
}

#[test]
fn inline_handler_needs_boundary_name_and_equals() {
    assert!(has_inline_event_handler("<a onclick=\"x\">"));
    assert!(has_inline_event_handler("onload=1"));
    assert!(!has_inline_event_handler("<a on=\"x\">"));
    assert!(!has_inline_event_handler("<a bonload=\"x\">"));
    assert!(!has_inline_event_handler("<a onload>"));
}

#[test]
fn short_trimmed_content_is_not_svg() {
    assert!(!is_valid_svg("  <svg>  "));
    assert_eq!(MAX_SVG_SIZE, 5 * 1024 * 1024);
}
