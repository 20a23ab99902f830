use error_toon::{detect_error_type, ErrorType};

#[test]
fn detects_dom_nesting_error() {
    let input = "Warning: validateDOMNesting(...): <p> cannot appear as a descendant of <p>.";
    let result = detect_error_type(input);
    assert!(matches!(result, Some(ErrorType::DomNesting)));
}

#[test]
fn detects_dom_nesting_case_insensitive() {
    let input = "Warning: VALIDATEDOMNESTING(...): error";
    let result = detect_error_type(input);
    assert!(matches!(result, Some(ErrorType::DomNesting)));
}

#[test]
fn detects_hydration_error() {
    let input = "Uncaught Error: Hydration failed because the initial UI does not match.";
    let result = detect_error_type(input);
    assert!(matches!(result, Some(ErrorType::Hydration)));
}

#[test]
fn detects_type_error() {
    let input = "TypeError: Cannot read properties of undefined (reading 'map')";
    let result = detect_error_type(input);
    assert!(matches!(result, Some(ErrorType::TypeError)));
}

#[test]
fn detects_reference_error() {
    let input = "ReferenceError: myVariable is not defined";
    let result = detect_error_type(input);
    assert!(matches!(result, Some(ErrorType::RefError)));
}

#[test]
fn detects_syntax_error() {
    let input = "SyntaxError: Unexpected token '<'";
    let result = detect_error_type(input);
    assert!(matches!(result, Some(ErrorType::SyntaxError)));
}

#[test]
fn detects_system_error_enoent() {
    let input = "Error: ENOENT: no such file or directory, open '/path/to/file'";
    let result = detect_error_type(input);
    assert!(matches!(result, Some(ErrorType::SystemError)));
}

#[test]
fn detects_system_error_econnrefused() {
    let input = "Error: connect ECONNREFUSED 127.0.0.1:3000";
    let result = detect_error_type(input);
    assert!(matches!(result, Some(ErrorType::SystemError)));
}

#[test]
fn detects_storybook_error() {
    let input = "SB_PREVIEW_API_UNDEFINED: The preview API is not available.";
    let result = detect_error_type(input);
    assert!(matches!(result, Some(ErrorType::Storybook)));
}

#[test]
fn detects_runtime_error_with_stack_trace() {
    let input = "Error: Something went wrong\n    at MyComponent (App.tsx:25:10)";
    let result = detect_error_type(input);
    // Should match RuntimeError due to stack trace pattern
    assert!(result.is_some());
}

#[test]
fn returns_none_for_unrecognized_input() {
    let input = "This is just some random text without any error patterns.";
    let result = detect_error_type(input);
    assert!(result.is_none());
}

#[test]
fn detects_react_minified_error() {
    let input = "Minified React error #185; visit https://reactjs.org/docs/error-decoder.html";
    let result = detect_error_type(input);
    assert_eq!(result, Some(ErrorType::ReactMinified));
}

#[test]
fn detects_invalid_hook_error() {
    let input = "Invalid hook call. Hooks can only be called inside of the body of a function component.";
    let result = detect_error_type(input);
    assert_eq!(result, Some(ErrorType::InvalidHook));
}

#[test]
fn detects_react_key_error() {
    let input = "Encountered two children with the same key, `?path=/docs/foundation-related--docs`. Keys should be unique.";
    let result = detect_error_type(input);
    assert_eq!(result, Some(ErrorType::ReactKey));
}

#[test]
fn detects_react_key_error_verbose() {
    let input = r#"DocPage.tsx:428 Encountered two children with the same key, `?path=/docs/foundation-related--docs`. Keys should be unique so that components maintain their identity across updates. Non-unique keys may cause children to be duplicated and/or omitted — the behavior is unsupported and could change in a future version.
(anonymous) @ chunk-ZJ2MJDOW.js?v=9079ec11:4925
runWithFiberInDEV @ chunk-ZJ2MJDOW.js?v=9079ec11:997"#;
    let result = detect_error_type(input);
    assert_eq!(result, Some(ErrorType::ReactKey));
}

#[test]
fn detects_cors_error() {
    let input = "Access to XMLHttpRequest at 'https://api.example.com' from origin 'http://localhost:3000' has been blocked by CORS policy";
    let result = detect_error_type(input);
    assert_eq!(result, Some(ErrorType::CorsError));
}

#[test]
fn detects_network_error() {
    let input = "TypeError: Failed to fetch";
    let result = detect_error_type(input);
    assert_eq!(result, Some(ErrorType::NetworkError));
}

#[test]
fn detects_network_error_chrome() {
    let input = "net::ERR_CONNECTION_REFUSED";
    let result = detect_error_type(input);
    assert_eq!(result, Some(ErrorType::NetworkError));
}

#[test]
fn detects_http_error() {
    let input = "GET https://api.example.com/users 404 (Not Found)";
    let result = detect_error_type(input);
    assert_eq!(result, Some(ErrorType::HttpError));
}

#[test]
fn detects_websocket_error() {
    let input = "WebSocket connection to 'wss://example.com/socket' failed";
    let result = detect_error_type(input);
    assert_eq!(result, Some(ErrorType::WebSocketError));
}

#[test]
fn detects_csp_error() {
    let input = "Refused to execute inline script because it violates the following Content-Security-Policy directive";
    let result = detect_error_type(input);
    assert_eq!(result, Some(ErrorType::CspError));
}

#[test]
fn detects_mixed_content_error() {
    let input = "Mixed Content: The page at 'https://example.com' was loaded over HTTPS, but requested an insecure resource";
    let result = detect_error_type(input);
    assert_eq!(result, Some(ErrorType::MixedContent));
}

#[test]
fn detects_nextjs_error() {
    let input = "Error: getServerSideProps should return an object";
    let result = detect_error_type(input);
    assert_eq!(result, Some(ErrorType::NextJs));
}

#[test]
fn detects_module_not_found_error() {
    let input = "Module not found: Can't resolve './components/Button' in '/app/src'";
    let result = detect_error_type(input);
    assert_eq!(result, Some(ErrorType::ModuleNotFound));
}

#[test]
fn detects_range_error() {
    let input = "RangeError: Maximum call stack size exceeded";
    let result = detect_error_type(input);
    assert_eq!(result, Some(ErrorType::RangeError));
}

#[test]
fn detects_unhandled_rejection() {
    let input = "Unhandled Promise Rejection: TypeError: Cannot read property 'x' of undefined";
    let result = detect_error_type(input);
    assert_eq!(result, Some(ErrorType::UnhandledRejection));
}

#[test]
fn detects_media_error() {
    let input = "DOMException: play() failed because the user didn't interact with the document first";
    let result = detect_error_type(input);
    assert_eq!(result, Some(ErrorType::MediaError));
}

#[test]
fn detects_indexeddb_error() {
    let input = "QuotaExceededError: The IndexedDB quota has been exceeded";
    let result = detect_error_type(input);
    assert_eq!(result, Some(ErrorType::IndexedDbError));
}

#[test]
fn detects_service_worker_error() {
    let input = "ServiceWorker registration failed: A bad HTTP response code (404) was received";
    let result = detect_error_type(input);
    assert_eq!(result, Some(ErrorType::ServiceWorker));
}

#[test]
fn detects_deprecation_warning() {
    let input = "Warning: componentWillMount has been renamed, and is not recommended for use. This method will be deprecated in a future version.";
    let result = detect_error_type(input);
    assert_eq!(result, Some(ErrorType::Deprecation));
}

#[test]
fn detects_syntax_error_with_file_prefix() {
    // Browser console format: file.js:line ErrorType: message
    let input = "vite-app.js:29 SyntaxError: The requested module '/src/stories/brand/BrandComponents.tsx' does not provide an export named 'NEUTRAL' (at 06-Iconography.mdx:7:49)";
    let result = detect_error_type(input);
    assert_eq!(result, Some(ErrorType::SyntaxError));
}

#[test]
fn detects_type_error_with_file_prefix() {
    let input = "bundle.js:42 TypeError: Cannot read properties of undefined (reading 'map')";
    let result = detect_error_type(input);
    assert_eq!(result, Some(ErrorType::TypeError));
}

#[test]
fn detects_ref_error_with_file_prefix() {
    let input = "app.js:100 ReferenceError: myVariable is not defined";
    let result = detect_error_type(input);
    assert_eq!(result, Some(ErrorType::RefError));
}

#[test]
fn detects_range_error_with_file_prefix() {
    let input = "script.js:55 RangeError: Maximum call stack size exceeded";
    let result = detect_error_type(input);
    assert_eq!(result, Some(ErrorType::RangeError));
}

#[test]
fn detects_syntax_error_without_prefix() {
    // Should still work without file prefix
    let input = "SyntaxError: Unexpected token '<'";
    let result = detect_error_type(input);
    assert_eq!(result, Some(ErrorType::SyntaxError));
}

#[test]
fn detects_uncaught_type_error() {
    // Uncaught variant should still work
    let input = "Uncaught TypeError: foo is not a function";
    let result = detect_error_type(input);
    assert_eq!(result, Some(ErrorType::TypeError));
}

#[test]
fn detects_playwright_timeout_error() {
    let input = "TimeoutError: locator.click: Timeout 30000ms exceeded.\n    waiting for locator('.nonexistent')";
    let result = detect_error_type(input);
    assert!(matches!(result, Some(ErrorType::Playwright)));
}

#[test]
fn detects_playwright_assertion_error() {
    let input = "Error: Timed out 5000ms waiting for expect(locator).toBeVisible()\n    Locator: locator('.button')";
    let result = detect_error_type(input);
    assert!(matches!(result, Some(ErrorType::Playwright)));
}

#[test]
fn detects_playwright_strict_mode_error() {
    let input = "Error: strict mode violation: locator('.button') resolved to 3 elements";
    let result = detect_error_type(input);
    assert!(matches!(result, Some(ErrorType::Playwright)));
}

#[test]
fn detects_playwright_page_goto_error() {
    let input = "Error: page.goto: Navigation failed because page was closed";
    let result = detect_error_type(input);
    assert!(matches!(result, Some(ErrorType::Playwright)));
}

#[test]
fn detects_playwright_locator_fill_error() {
    let input = "Error: locator.fill: Target closed\n    at LoginPage.fillUsername (tests/login.spec.ts:15:5)";
    let result = detect_error_type(input);
    assert!(matches!(result, Some(ErrorType::Playwright)));
}

#[test]
fn detects_playwright_test_import() {
    let input = "Error: Cannot find module '@playwright/test'\n    from 'tests/example.spec.ts'";
    let result = detect_error_type(input);
    assert!(matches!(result, Some(ErrorType::Playwright)));
}
