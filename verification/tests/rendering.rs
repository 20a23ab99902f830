use error_toon::{detect_error_type, parse_frame, simplify_location, truncate, ErrorType, ToonifiedError};

#[test]
fn plain_format_includes_type() {
    let input = "TypeError: test error";
    let result = ToonifiedError::new(input, ErrorType::TypeError);
    let output = result.format_plain();
    assert!(output.contains("type: TYPE_ERROR"));
}

#[test]
fn plain_format_includes_file_when_present() {
    let input = "Error at MyComponent.tsx:42";
    let error_type = detect_error_type(input).unwrap_or(ErrorType::RuntimeError);
    let result = ToonifiedError::new(input, error_type);
    let output = result.format_plain();
    assert!(output.contains("file: MyComponent.tsx:42"));
}

#[test]
fn plain_format_includes_compression_stats() {
    let input = "TypeError: test error with some extra content to make it longer";
    let result = ToonifiedError::new(input, ErrorType::TypeError);
    let output = result.format_plain();
    assert!(output.contains("compressed:"));
    assert!(output.contains("saved)"));
}

#[test]
fn plain_format_omits_file_when_none() {
    let input = "TypeError: test error";
    let result = ToonifiedError::new(input, ErrorType::TypeError);
    let output = result.format_plain();
    assert!(!output.contains("file:"));
}

#[test]
fn truncate_short_string_unchanged() {
    let result = truncate("short", 10);
    assert_eq!(result, "short");
}

#[test]
fn truncate_long_string_with_ellipsis() {
    let result = truncate("this is a very long string", 10);
    assert_eq!(result, "this is...");
    assert_eq!(result.len(), 10);
}

#[test]
fn truncate_exact_length_unchanged() {
    let result = truncate("exactly10!", 10);
    assert_eq!(result, "exactly10!");
}

#[test]
fn truncate_handles_unicode_without_panic() {
    // This would panic before the fix if truncation landed mid-character
    let chinese = "错误：无法读取属性的值";
    let result = truncate(chinese, 10);
    assert!(result.ends_with("..."));
    // Ensure we can iterate over chars (proves valid UTF-8)
    assert!(result.chars().count() > 0);
}

#[test]
fn truncate_handles_emoji_without_panic() {
    let emoji = "Error: 🔥🔥🔥🔥🔥 something failed";
    let result = truncate(emoji, 15);
    assert!(result.ends_with("..."));
    assert!(result.chars().count() > 0);
}

#[test]
fn compression_ratio_calculated_correctly() {
    // Use a realistic verbose error (like from browser console)
    let long_input = format!(
        "TypeError: Cannot read properties of undefined\n{}",
        (0..50).map(|i| format!("    at function{} (webpack-internal:///./node_modules/react/index.js:{}:10)", i, i * 100))
               .collect::<Vec<_>>()
               .join("\n")
    );

    let result = ToonifiedError::new(&long_input, ErrorType::TypeError);
    let output = result.format_plain();

    // Output should be much shorter than input for verbose stack traces
    assert!(output.len() < long_input.len(), "Output ({}) should be shorter than input ({})", output.len(), long_input.len());
    assert!(output.contains("saved)"));
}

#[test]
fn toon_format_includes_type() {
    let result = ToonifiedError::new("TypeError: foo is not a function", ErrorType::TypeError);
    let output = result.format_toon();
    assert!(output.contains("type: TYPE_ERROR"));
}

#[test]
fn toon_format_includes_stats_inline_object() {
    let result = ToonifiedError::new("TypeError: test", ErrorType::TypeError);
    let output = result.format_toon();
    assert!(output.contains("stats{orig,comp,pct}:"));
}

#[test]
fn toon_format_frames_use_tabular_syntax() {
    let input = "Error: test\n    at FunctionA (file.tsx:10:5)\n    at FunctionB (other.tsx:20:3)";
    let result = ToonifiedError::new(input, ErrorType::RuntimeError);
    let output = result.format_toon();
    // Should have tabular array declaration
    assert!(output.contains("frames[") && output.contains("]{fn,loc}:"));
}

#[test]
fn toon_format_no_separator_line() {
    let result = ToonifiedError::new("TypeError: test", ErrorType::TypeError);
    let output = result.format_toon();
    // TOON format should NOT have the "---" separator
    assert!(!output.contains("\n---\n"));
}

#[test]
fn toon_format_escapes_commas_in_issue() {
    let input = "TypeError: foo, bar, baz are undefined";
    let result = ToonifiedError::new(input, ErrorType::TypeError);
    let output = result.format_toon();
    // Commas in issue text should be escaped
    assert!(output.contains("\\,") || !output.contains("issue: foo, bar"));
}

#[test]
fn parse_frame_handles_at_pattern() {
    let (func, loc) = parse_frame("at MyComponent (http://localhost:3000/src/App.tsx:42:10)");
    assert_eq!(func, "MyComponent");
    assert_eq!(loc, "App.tsx:42");
}

#[test]
fn parse_frame_handles_at_symbol_pattern() {
    let (func, loc) = parse_frame("@ MDXContent (Guide.mdx:79:5)");
    assert_eq!(func, "MDXContent");
    assert_eq!(loc, "Guide.mdx:79");
}

#[test]
fn simplify_location_extracts_filename_and_line() {
    let loc = simplify_location("http://localhost:6006/node_modules/.cache/App.tsx:42:10");
    assert_eq!(loc, "App.tsx:42");
}

#[test]
fn simplify_location_handles_simple_path() {
    let loc = simplify_location("/Users/dev/project/src/Component.tsx:100:5");
    assert_eq!(loc, "Component.tsx:100");
}

#[test]
fn truncate_multi_byte_chars_at_boundary() {
    // Japanese: each char is 3 bytes
    let japanese = "エラーメッセージ";
    let result = truncate(japanese, 12);
    // Should not panic and should produce valid UTF-8
    assert!(result.ends_with("..."));
    for c in result.chars() {
        assert!(c.len_utf8() > 0);
    }
}

#[test]
fn truncate_mixed_ascii_and_unicode() {
    let mixed = "Error: 错误 in module";
    let result = truncate(mixed, 15);
    assert!(result.ends_with("..."));
    assert!(result.chars().count() > 0);
}

#[test]
fn truncate_empty_string() {
    let result = truncate("", 10);
    assert_eq!(result, "");
}

#[test]
fn truncate_very_small_limit() {
    let result = truncate("hello world", 3);
    assert_eq!(result, "...");
}

#[test]
fn truncate_limit_zero() {
    let result = truncate("hello", 0);
    assert_eq!(result, "...");
}

#[test]
fn truncate_four_byte_emoji() {
    // 🔥 is 4 bytes
    let emoji_string = "🔥🔥🔥🔥🔥";
    let result = truncate(emoji_string, 10);
    assert!(result.ends_with("..."));
    // Verify it's valid UTF-8 by iterating chars
    let char_count = result.chars().count();
    assert!(char_count > 0);
}

#[test]
fn parse_frame_webpack_path() {
    let (func, loc) = parse_frame("at render (webpack://my-app/src/Component.tsx:42:10)");
    assert_eq!(func, "render");
    assert_eq!(loc, "Component.tsx:42");
}

#[test]
fn parse_frame_vite_path() {
    let (func, loc) = parse_frame("at onClick (http://localhost:5173/src/App.tsx?t=123:15:3)");
    assert_eq!(func, "onClick");
    // Should extract the file and line, ignoring query params in some cases
    assert!(loc.contains("App.tsx") || loc.contains("15"));
}

#[test]
fn parse_frame_name_at_symbol_format() {
    let (func, loc) = parse_frame("MyFunction@/path/to/file.js:100:5");
    assert_eq!(func, "MyFunction");
    assert_eq!(loc, "file.js:100");
}

#[test]
fn parse_frame_anonymous_function() {
    let (func, loc) = parse_frame("at anonymous (app.js:10:1)");
    assert_eq!(func, "anonymous");
    assert_eq!(loc, "app.js:10");
}

#[test]
fn parse_frame_no_match_returns_original() {
    let (func, loc) = parse_frame("some random text without pattern");
    assert_eq!(func, "some random text without pattern");
    assert_eq!(loc, "");
}

#[test]
fn parse_frame_empty_string() {
    let (func, loc) = parse_frame("");
    assert_eq!(func, "");
    assert_eq!(loc, "");
}

#[test]
fn parse_frame_whitespace_only() {
    let (func, loc) = parse_frame("   ");
    assert_eq!(func, "");
    assert_eq!(loc, "");
}

#[test]
fn simplify_location_webpack_chunk() {
    let loc = simplify_location("webpack://app/./src/components/Button.tsx:25:8");
    assert_eq!(loc, "Button.tsx:25");
}

#[test]
fn simplify_location_with_query_string() {
    let loc = simplify_location("http://localhost:3000/src/App.tsx?v=123:42:10");
    // May or may not handle query strings perfectly, but shouldn't panic
    assert!(loc.contains("42") || loc.contains("App"));
}

#[test]
fn simplify_location_windows_path() {
    // Windows paths use backslashes, but the regex looks for forward slashes
    // So it returns the full path since pattern doesn't match cleanly
    let loc = simplify_location("C:\\Users\\dev\\project\\src\\App.tsx:50:1");
    // The regex captures from the last / or start, so with backslashes it gets more
    assert!(loc.contains("App.tsx") && loc.contains("50"));
}

#[test]
fn simplify_location_no_column() {
    let loc = simplify_location("/path/to/file.js:100");
    assert_eq!(loc, "file.js:100");
}

#[test]
fn simplify_location_no_line_number() {
    let loc = simplify_location("/path/to/file.js");
    // Should return as-is since pattern doesn't match
    assert_eq!(loc, "/path/to/file.js");
}

#[test]
fn simplify_location_empty_string() {
    let loc = simplify_location("");
    assert_eq!(loc, "");
}

#[test]
fn simplify_location_various_extensions() {
    assert_eq!(simplify_location("/a/b.tsx:1:1"), "b.tsx:1");
    assert_eq!(simplify_location("/a/b.jsx:2:2"), "b.jsx:2");
    assert_eq!(simplify_location("/a/b.ts:3:3"), "b.ts:3");
    assert_eq!(simplify_location("/a/b.js:4:4"), "b.js:4");
    assert_eq!(simplify_location("/a/b.vue:5:5"), "b.vue:5");
    assert_eq!(simplify_location("/a/b.svelte:6:6"), "b.svelte:6");
}

#[test]
fn toon_format_is_more_compact_than_plain() {
    let input = "Warning: validateDOMNesting(...): <p> cannot appear as a descendant of <p>.\n    at p\n    at MDXContent (http://localhost:6006/Guide.mdx:79:10)\n    at Component (http://localhost:6006/App.tsx:18:5)";
    let result = ToonifiedError::new(input, ErrorType::DomNesting);
    let toon = result.format_toon();
    let plain = result.format_plain();
    // TOON format should generally be similar or smaller
    // (may vary based on frame parsing overhead)
    assert!(toon.len() <= plain.len() + 50, "TOON: {} chars, Plain: {} chars", toon.len(), plain.len());
}
