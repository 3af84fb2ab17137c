use cards::math_renderer::parse_attr_digits;

#[test]
fn reads_number_before_unit() {
    let svg = r#"<svg class="typst-doc" width="12.5pt" height="8pt" viewBox="0 0 12.5 8">"#;
    assert_eq!(parse_attr_digits(svg, "width").as_deref(), Some("12.5"));
    assert_eq!(parse_attr_digits(svg, "height").as_deref(), Some("8"));
}

#[test]
fn missing_or_unterminated_attribute() {
    assert_eq!(parse_attr_digits("<svg>", "width"), None);
    assert_eq!(parse_attr_digits(r#"<svg width="12pt"#, "width"), None);
    assert_eq!(parse_attr_digits(r#"<svg width=12pt>"#, "width"), None);
}

#[test]
fn value_without_digits_is_empty() {
    assert_eq!(parse_attr_digits(r#"<svg width="auto">"#, "width").as_deref(), Some(""));
    assert_eq!(parse_attr_digits(r#"<svg width="">"#, "width").as_deref(), Some(""));
}

#[test]
fn first_occurrence_wins() {
    let svg = r#"<svg width="3pt"><rect width="99"/></svg>"#;
    assert_eq!(parse_attr_digits(svg, "width").as_deref(), Some("3"));
    // `stroke-width="..."` contains `width="` too, and comes first here.
    let svg = r#"<g stroke-width="1.5"><svg width="7pt">"#;
    assert_eq!(parse_attr_digits(svg, "width").as_deref(), Some("1.5"));
}

#[test]
fn non_ascii_before_attribute() {
    let svg = "<svg data-é=\"ü\" width=\"4.25pt\">";
    assert_eq!(parse_attr_digits(svg, "width").as_deref(), Some("4.25"));
}
