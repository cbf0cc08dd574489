use prv_core::tokens::{
    doc_comment, generate_swift, header, to_camel_case, ColorEntry, ElevationEntry, MotionEntry,
    ScalarEntry, TokenSource, TypographyEntry, BANNER,
};

#[test]
fn dotted_names_become_camel_case_identifiers() {
    assert_eq!(to_camel_case("surface.canvas"), "surfaceCanvas");
    assert_eq!(to_camel_case("ai.onDevice"), "aiOnDevice");
    assert_eq!(to_camel_case("xxs"), "xxs");
    assert_eq!(to_camel_case("waveform.low"), "waveformLow");
}

#[test]
fn every_separator_is_dropped_and_capitalises_what_follows() {
    assert_eq!(to_camel_case("a-b_c.d"), "aBCD");
    assert_eq!(to_camel_case("a..b"), "aB");
    assert_eq!(to_camel_case("trailing."), "trailing");
    assert_eq!(to_camel_case(".leading"), "Leading");
    assert_eq!(to_camel_case("a.1"), "a1");
    assert_eq!(to_camel_case("straße.ß"), "straßeSS");
    assert_eq!(to_camel_case(""), "");
}

#[test]
fn a_doc_comment_prefixes_every_line() {
    assert_eq!(doc_comment("one line", 0), "/// one line\n");
    assert_eq!(doc_comment("first\nsecond", 4), "    /// first\n    /// second\n");
    assert_eq!(doc_comment("", 2), "  /// \n");
    assert_eq!(doc_comment("end\n", 0), "/// end\n/// \n");
}

#[test]
fn the_banner_marks_a_generated_file() {
    let banner = header();
    assert_eq!(banner, BANNER);
    assert!(banner.contains("DO NOT EDIT"));
    assert!(banner.ends_with("\n\n"));
}

fn text(value: &str) -> Option<String> {
    Some(value.to_owned())
}

fn scalar(key: &str, number: &str) -> Vec<ScalarEntry> {
    vec![ScalarEntry {
        key: key.to_owned(),
        number: text(number),
    }]
}

fn minimal_source() -> TokenSource {
    TokenSource {
        version: Some(7),
        color: Some(vec![ColorEntry {
            key: "surface.canvas".to_owned(),
            light: text("#FFFFFF"),
            dark: text("#000000"),
            description: None,
        }]),
        spacing: Some(scalar("sm", "8")),
        radius: Some(scalar("md", "12")),
        opacity: Some(scalar("disabled", "0.38")),
        blur: Some(scalar("regular", "20")),
        typography: Some(vec![TypographyEntry {
            key: "body".to_owned(),
            size: text("17"),
            weight: text("regular"),
            text_style: text("body"),
            tracking: text("0"),
            monospaced_digits: Some(false),
        }]),
        motion: Some(vec![MotionEntry {
            key: "micro".to_owned(),
            duration: text("120"),
            curve: text("easeOut"),
            description: None,
        }]),
        elevation: Some(vec![ElevationEntry {
            key: "raised".to_owned(),
            y: text("1"),
            blur: text("3"),
            opacity: text("0.12"),
        }]),
    }
}

#[test]
fn generation_fails_loudly_on_a_malformed_source() {
    let malformed = TokenSource {
        version: Some(1),
        color: None,
        spacing: None,
        radius: None,
        opacity: None,
        blur: None,
        typography: None,
        motion: None,
        elevation: None,
    };
    let result = generate_swift(&malformed);
    assert!(result.is_err(), "a source without colours must be rejected");
}

#[test]
fn a_minimal_source_generates_every_section() {
    let swift = generate_swift(&minimal_source());
    assert!(swift.is_ok());
    let Ok(swift) = swift else { return };

    assert!(swift.contains("public static let version: Int = 7"));
    assert!(swift.contains("surfaceCanvas"));
    assert!(swift.contains("public enum Spacing"));
    assert!(swift.contains("public enum Radius"));
    assert!(swift.contains("public enum Opacity"));
    assert!(swift.contains("public enum Blur"));
    assert!(swift.contains("public enum Typography"));
    assert!(swift.contains("public enum Motion"));
    assert!(swift.contains("public enum Elevation"));
    assert!(swift.contains("DO NOT EDIT"));
}

#[test]
fn declarations_carry_the_source_values() {
    let swift = generate_swift(&minimal_source()).expect("a complete source");
    assert!(swift.starts_with(BANNER));
    assert!(swift.contains(
        "    public static let surfaceCanvas = ColorToken(light: \"#FFFFFF\", dark: \"#000000\")\n\n"
    ));
    assert!(swift.contains("        \"surface.canvas\": surfaceCanvas,\n    ]\n}\n\n"));
    assert!(swift.contains("/// Layout spacing scale, in points.\npublic enum Spacing {\n    public static let sm: Double = 8\n}\n\n"));
    assert!(swift.contains("    public static let disabled: Double = 0.38\n"));
    assert!(swift.contains(
        "    public static let body = TypographyToken(size: 17, weight: \"regular\", textStyle: \"body\", tracking: 0, monospacedDigits: false)\n"
    ));
    assert!(swift.contains("    public static let micro = MotionToken(duration: 120, curve: \"easeOut\")\n\n"));
    assert!(swift.ends_with("    public static let raised = ElevationToken(y: 1, blur: 3, opacity: 0.12)\n}\n"));
}

#[test]
fn each_missing_value_is_named() {
    let mut source = minimal_source();
    source.version = None;
    assert_eq!(
        generate_swift(&source).err().as_deref(),
        Some("token source has no numeric `version`")
    );

    let mut source = minimal_source();
    if let Some(colors) = source.color.as_mut() {
        colors[0].dark = None;
    }
    assert_eq!(
        generate_swift(&source).err().as_deref(),
        Some("colour `surface.canvas` has no `dark` value")
    );

    let mut source = minimal_source();
    source.radius = Some(vec![ScalarEntry {
        key: "md".to_owned(),
        number: None,
    }]);
    assert_eq!(
        generate_swift(&source).err().as_deref(),
        Some("`radius.md` is not a number")
    );

    let mut source = minimal_source();
    source.blur = None;
    assert_eq!(
        generate_swift(&source).err().as_deref(),
        Some("token source has no `blur.tokens` object")
    );

    let mut source = minimal_source();
    if let Some(styles) = source.typography.as_mut() {
        styles[0].text_style = None;
        styles[0].tracking = None;
    }
    assert_eq!(
        generate_swift(&source).err().as_deref(),
        Some("typography `body` has no `textStyle`")
    );

    let mut source = minimal_source();
    if let Some(motions) = source.motion.as_mut() {
        motions[0].curve = None;
    }
    assert_eq!(
        generate_swift(&source).err().as_deref(),
        Some("motion `micro` has no `curve`")
    );

    let mut source = minimal_source();
    source.elevation = None;
    assert_eq!(
        generate_swift(&source).err().as_deref(),
        Some("token source has no `elevation.tokens` object")
    );
}

#[test]
fn absent_optional_values_take_their_defaults() {
    let mut source = minimal_source();
    if let Some(styles) = source.typography.as_mut() {
        styles[0].tracking = None;
        styles[0].monospaced_digits = None;
    }
    if let Some(shadows) = source.elevation.as_mut() {
        shadows[0].y = None;
    }
    if let Some(motions) = source.motion.as_mut() {
        motions[0].description = Some("Fast.".to_owned());
    }
    let swift = generate_swift(&source).expect("a complete source");
    assert!(swift.contains("tracking: 0, monospacedDigits: false)"));
    assert!(swift.contains("ElevationToken(y: 0, blur: 3"));
    assert!(swift.contains("    /// Fast.\n    public static let micro"));
}
