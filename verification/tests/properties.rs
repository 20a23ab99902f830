use error_toon::{detect_error_type, extract_file_location, ErrorType, ToonifiedError};

#[test]
fn detects_uri_error() {
    let input = "URIError: URI malformed";
    let result = detect_error_type(input);
    assert_eq!(result, Some(ErrorType::UriError));
}

#[test]
fn detects_eval_error() {
    let input = "EvalError: function constructor is disabled";
    let result = detect_error_type(input);
    assert_eq!(result, Some(ErrorType::EvalError));
}

#[test]
fn detects_security_error() {
    let input = "SecurityError: The operation is insecure.";
    let result = detect_error_type(input);
    assert_eq!(result, Some(ErrorType::SecurityError));
}

#[test]
fn classification_is_deterministic_across_calls() {
    let input = "TypeError: Cannot read properties of undefined (reading 'map')";
    let first = detect_error_type(input);
    let second = detect_error_type(input);
    assert_eq!(first, second);
    assert_eq!(first, Some(ErrorType::TypeError));
}

#[test]
fn classify_empty_input_yields_none() {
    assert!(detect_error_type("").is_none());
}

#[test]
fn classify_plain_prose_yields_none() {
    assert!(detect_error_type("plain prose with no markers").is_none());
}

#[test]
fn location_prefers_application_over_vendored() {
    let input = "    at Lib (node_modules/Lib.js:82:35)\n    at Page (src/Page.tsx:45:23)";
    let result = extract_file_location(input);
    assert_eq!(result, Some("Page.tsx:45".to_string()));
}

#[test]
fn plain_render_round_trip_type_error() {
    let input = "TypeError: Cannot read properties of undefined (reading 'map')\n    at Array.map";
    let result = ToonifiedError::new(input, ErrorType::TypeError);
    let output = result.format_plain();
    assert!(output.contains("type: TYPE_ERROR"));
    assert!(output.contains(
        "issue: TypeError: Cannot read properties of undefined (reading 'map')\n"
    ));
    assert!(!output.contains("file:"));
    assert!(output.contains(&format!("compressed: {}c", input.len())));
}

#[test]
fn plain_render_exact_output_when_nothing_saved() {
    let input = "TypeError: x";
    let result = ToonifiedError::new(input, ErrorType::TypeError);
    let output = result.format_plain();
    assert_eq!(
        output,
        "type: TYPE_ERROR\nissue: TypeError: x\n\n---\ncompressed: 12c \u{2192} 76c (0% saved)"
    );
}

#[test]
fn plain_render_exact_savings_percentage() {
    let filler = "z".repeat(150);
    let input = format!("TypeError: y\n{}", filler);
    let result = ToonifiedError::new(&input, ErrorType::TypeError);
    let output = result.format_plain();
    assert!(output.ends_with("compressed: 163c \u{2192} 76c (53% saved)"));
}

#[test]
fn compact_render_escapes_commas_and_declares_frames() {
    let input = "TypeError: foo, bar\n    at FunctionA (file.tsx:10:5)";
    let result = ToonifiedError::new(input, ErrorType::TypeError);
    let output = result.format_toon();
    assert!(output.contains("issue: TypeError: foo\\, bar"));
    assert!(output.contains("frames["));
    assert!(output.contains("]{fn,loc}:"));
}

#[test]
fn rendering_twice_is_byte_identical() {
    let input = "Warning: validateDOMNesting(...): <p> cannot appear as a descendant of <p>.\n    at Dashboard (src/Dashboard.tsx:45:23)";
    let record = ToonifiedError::new(input, ErrorType::DomNesting);
    assert_eq!(record.format_plain(), record.format_plain());
    assert_eq!(record.format_toon(), record.format_toon());
}

#[test]
fn truncate_round_trips_multibyte_characters() {
    let mixed = "\u{932B}\u{932B}\u{932B}\u{1F525}\u{1F525}\u{1F525}";
    let result = error_toon::truncate(mixed, 11);
    assert!(result.ends_with("..."));
    let kept: String = result.chars().filter(|c| *c != '.').collect();
    for c in kept.chars() {
        assert!(mixed.contains(c));
    }
    assert_eq!(result.chars().count(), 2 + 3);
}
