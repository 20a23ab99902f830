use error_toon::{detect_error_type, extract_file_location, extract_issue, extract_user_frames, ErrorType, ToonifiedError};

#[test]
fn extracts_react_key_issue() {
    let input = "Encountered two children with the same key, `test-key`. Keys should be unique.";
    let result = ToonifiedError::new(input, ErrorType::ReactKey);
    assert!(result.issue.is_some());
    assert!(result.issue.unwrap().contains("same key"));
}

#[test]
fn extracts_simple_file_location() {
    let input = "Error at MyComponent.tsx:42";
    let result = extract_file_location(input);
    assert_eq!(result, Some("MyComponent.tsx:42".to_string()));
}

#[test]
fn prefers_user_code_over_node_modules() {
    let input = r#"
at CardContent (webpack-internal:///./node_modules/@mui/material/CardContent.js:82:35)
at Dashboard (webpack-internal:///./src/pages/Dashboard.tsx:45:23)
at App (webpack-internal:///./node_modules/react-router/index.js:100:5)
"#;
    let result = extract_file_location(input);
    assert_eq!(result, Some("Dashboard.tsx:45".to_string()));
}

#[test]
fn falls_back_to_node_modules_if_no_user_code() {
    let input = r#"
at CardContent (webpack-internal:///./node_modules/@mui/material/CardContent.js:82:35)
at Container (webpack-internal:///./node_modules/@mui/material/Container.js:55:12)
"#;
    let result = extract_file_location(input);
    assert_eq!(result, Some("CardContent.js:82".to_string()));
}

#[test]
fn extracts_mdx_file_location() {
    let input = "Error in iOS-SafeArea-Guide.mdx:79";
    let result = extract_file_location(input);
    assert_eq!(result, Some("iOS-SafeArea-Guide.mdx:79".to_string()));
}

#[test]
fn extracts_vue_file_location() {
    let input = "Error at MyComponent.vue:123";
    let result = extract_file_location(input);
    assert_eq!(result, Some("MyComponent.vue:123".to_string()));
}

#[test]
fn extracts_svelte_file_location() {
    let input = "Error at App.svelte:42";
    let result = extract_file_location(input);
    assert_eq!(result, Some("App.svelte:42".to_string()));
}

#[test]
fn returns_none_when_no_file_location() {
    let input = "Some error without file reference";
    let result = extract_file_location(input);
    assert!(result.is_none());
}

#[test]
fn extracts_dom_nesting_issue_appear_as() {
    let input = "Warning: validateDOMNesting(...): <p> cannot appear as a descendant of <p>.";
    let result = extract_issue(input, ErrorType::DomNesting);
    assert_eq!(result, Some("<p> cannot appear as a descendant of <p>".to_string()));
}

#[test]
fn extracts_dom_nesting_issue_be_a() {
    let input = "In HTML, <div> cannot be a descendant of <p>.";
    let result = extract_issue(input, ErrorType::DomNesting);
    assert_eq!(result, Some("<div> cannot be a descendant of <p>".to_string()));
}

#[test]
fn extracts_hydration_issue() {
    let input = "Uncaught Error: Hydration failed because the initial UI does not match.";
    let result = extract_issue(input, ErrorType::Hydration);
    assert_eq!(result, Some("Uncaught Error: Hydration failed because the initial UI does not match.".to_string()));
}

#[test]
fn extracts_type_error_issue() {
    let input = "TypeError: Cannot read properties of undefined (reading 'map')\n    at Array.map";
    let result = extract_issue(input, ErrorType::TypeError);
    assert_eq!(result, Some("TypeError: Cannot read properties of undefined (reading 'map')".to_string()));
}

#[test]
fn extracts_system_error_code() {
    let input = "Error: ENOENT: no such file or directory, open '/path/to/file'";
    let result = extract_issue(input, ErrorType::SystemError);
    assert_eq!(result, Some("ENOENT: no such file or directory, open '/path/to/file'".to_string()));
}

#[test]
fn extracts_storybook_code() {
    let input = "SB_PREVIEW_API_UNDEFINED: The preview API is not available.";
    let result = extract_issue(input, ErrorType::Storybook);
    assert!(result.unwrap().starts_with("SB_PREVIEW_API_UNDEFINED"));
}

#[test]
fn extracts_user_frames_filters_node_modules() {
    let input = r#"
at CardContent (webpack-internal:///./node_modules/@mui/material/CardContent.js:82:35)
at Dashboard (./src/pages/Dashboard.tsx:45:23)
at App (./src/App.tsx:18:42)
at Router (webpack-internal:///./node_modules/react-router/index.js:100:5)
"#;
    let result = extract_user_frames(input);
    assert_eq!(result.len(), 2);
    assert!(result[0].contains("Dashboard.tsx"));
    assert!(result[1].contains("App.tsx"));
}

#[test]
fn limits_user_frames_to_three() {
    let input = r#"
at Component1 (./src/Component1.tsx:10:5)
at Component2 (./src/Component2.tsx:20:5)
at Component3 (./src/Component3.tsx:30:5)
at Component4 (./src/Component4.tsx:40:5)
at Component5 (./src/Component5.tsx:50:5)
"#;
    let result = extract_user_frames(input);
    assert_eq!(result.len(), 3);
}

#[test]
fn returns_empty_when_no_user_frames() {
    let input = "Some error without stack trace";
    let result = extract_user_frames(input);
    assert!(result.is_empty());
}

#[test]
fn full_dom_nesting_error_processing() {
    let input = r#"Warning: validateDOMNesting(...): <p> cannot appear as a descendant of <p>.
at p
at CardContent (webpack-internal:///./node_modules/@mui/material/CardContent.js:82:35)
at Dashboard (webpack-internal:///./src/pages/Dashboard.tsx:45:23)
at App (webpack-internal:///./src/App.tsx:18:42)"#;

    let error_type = detect_error_type(input).unwrap();
    assert!(matches!(error_type, ErrorType::DomNesting));

    let result = ToonifiedError::new(input, error_type);
    assert_eq!(result.file_location, Some("Dashboard.tsx:45".to_string()));
    assert_eq!(result.issue, Some("<p> cannot appear as a descendant of <p>".to_string()));

    let output = result.format_plain();
    assert!(output.contains("type: DOM_NESTING"));
    assert!(output.contains("file: Dashboard.tsx:45"));
    assert!(output.contains("<p> cannot appear as a descendant of <p>"));
}

#[test]
fn full_hydration_error_processing() {
    let input = r#"Uncaught Error: Hydration failed because the initial UI does not match what was rendered on the server.
at throwOnHydrationMismatch (webpack-internal:///./node_modules/react-dom/index.js:12507:9)
at BlogPost (webpack-internal:///./src/components/BlogPost.tsx:23:18)
at Layout (webpack-internal:///./src/components/Layout.tsx:45:12)"#;

    let error_type = detect_error_type(input).unwrap();
    assert!(matches!(error_type, ErrorType::Hydration));

    let result = ToonifiedError::new(input, error_type);
    assert_eq!(result.file_location, Some("BlogPost.tsx:23".to_string()));
    assert!(result.issue.as_ref().unwrap().contains("Hydration failed"));
}

#[test]
fn extracts_playwright_issue() {
    let input = "TimeoutError: locator.click: Timeout 30000ms exceeded.\n    waiting for locator('.nonexistent')";
    let result = ToonifiedError::new(input, ErrorType::Playwright);
    assert!(result.issue.is_some());
    assert!(result.issue.unwrap().contains("Timeout"));
}
