//! The closed set of error categories, their display names and icons, and
//! the fixed priority order in which detection rules are tried.

use vstd::prelude::*;

verus! {

/// One category of error or warning text.  Classification assigns at most
/// one of these to an input.
#[derive(Debug, Clone, Copy, PartialEq, Eq, Structural)]
pub enum ErrorType {
    DomNesting,
    Hydration,
    ReactMinified,
    InvalidHook,
    ReactKey,
    TypeError,
    RefError,
    SyntaxError,
    RangeError,
    UriError,
    EvalError,
    CorsError,
    NetworkError,
    HttpError,
    WebSocketError,
    CspError,
    SecurityError,
    MixedContent,
    Storybook,
    NextJs,
    ModuleNotFound,
    Playwright,
    SystemError,
    UnhandledRejection,
    MediaError,
    IndexedDbError,
    ServiceWorker,
    Deprecation,
    RuntimeError,
}

/// The display name of a category, as characters.
pub open spec fn spec_name(t: ErrorType) -> Seq<char> {
    match t {
        ErrorType::DomNesting => "DOM_NESTING"@,
        ErrorType::Hydration => "HYDRATION"@,
        ErrorType::ReactMinified => "REACT_MINIFIED"@,
        ErrorType::InvalidHook => "INVALID_HOOK"@,
        ErrorType::ReactKey => "REACT_KEY"@,
        ErrorType::TypeError => "TYPE_ERROR"@,
        ErrorType::RefError => "REF_ERROR"@,
        ErrorType::SyntaxError => "SYNTAX_ERROR"@,
        ErrorType::RangeError => "RANGE_ERROR"@,
        ErrorType::UriError => "URI_ERROR"@,
        ErrorType::EvalError => "EVAL_ERROR"@,
        ErrorType::CorsError => "CORS_ERROR"@,
        ErrorType::NetworkError => "NETWORK_ERROR"@,
        ErrorType::HttpError => "HTTP_ERROR"@,
        ErrorType::WebSocketError => "WEBSOCKET_ERROR"@,
        ErrorType::CspError => "CSP_ERROR"@,
        ErrorType::SecurityError => "SECURITY_ERROR"@,
        ErrorType::MixedContent => "MIXED_CONTENT"@,
        ErrorType::Storybook => "STORYBOOK"@,
        ErrorType::NextJs => "NEXTJS"@,
        ErrorType::ModuleNotFound => "MODULE_NOT_FOUND"@,
        ErrorType::Playwright => "PLAYWRIGHT"@,
        ErrorType::SystemError => "SYSTEM_ERROR"@,
        ErrorType::UnhandledRejection => "UNHANDLED_REJECTION"@,
        ErrorType::MediaError => "MEDIA_ERROR"@,
        ErrorType::IndexedDbError => "INDEXEDDB_ERROR"@,
        ErrorType::ServiceWorker => "SERVICE_WORKER"@,
        ErrorType::Deprecation => "DEPRECATION"@,
        ErrorType::RuntimeError => "RUNTIME_ERROR"@,
    }
}

/// The icon glyph of a category, as characters.
pub open spec fn spec_icon(t: ErrorType) -> Seq<char> {
    match t {
        ErrorType::DomNesting => "󰅖"@,
        ErrorType::Hydration => "󰜈"@,
        ErrorType::ReactMinified => "󰜈"@,
        ErrorType::InvalidHook => "󰜈"@,
        ErrorType::ReactKey => "󰜈"@,
        ErrorType::TypeError => ""@,
        ErrorType::RefError => ""@,
        ErrorType::SyntaxError => ""@,
        ErrorType::RangeError => ""@,
        ErrorType::UriError => ""@,
        ErrorType::EvalError => ""@,
        ErrorType::CorsError => "󰒃"@,
        ErrorType::NetworkError => "󰖟"@,
        ErrorType::HttpError => "󰖟"@,
        ErrorType::WebSocketError => "󱄙"@,
        ErrorType::CspError => "󰒃"@,
        ErrorType::SecurityError => "󰒃"@,
        ErrorType::MixedContent => "󰒃"@,
        ErrorType::Storybook => "󰂺"@,
        ErrorType::NextJs => "󰔶"@,
        ErrorType::ModuleNotFound => "󰏗"@,
        ErrorType::Playwright => "󰙨"@,
        ErrorType::SystemError => ""@,
        ErrorType::UnhandledRejection => "󰜺"@,
        ErrorType::MediaError => "󰎁"@,
        ErrorType::IndexedDbError => "󰆼"@,
        ErrorType::ServiceWorker => "󰖟"@,
        ErrorType::Deprecation => "󰀦"@,
        ErrorType::RuntimeError => ""@,
    }
}

/// The order in which detection rules are tried.  More specific signatures
/// come before rules whose pattern could also match the same text:
/// mixed-content before the generic security rule, the service-worker rule
/// before the HTTP-status rule (worker failures often quote status codes),
/// the unhandled-rejection rule before the plain JavaScript error rules
/// (a rejection message usually embeds one), and the stack-trace catch-all
/// last of all.
pub open spec fn spec_order() -> Seq<ErrorType> {
    seq![
        ErrorType::DomNesting,
        ErrorType::Hydration,
        ErrorType::ReactMinified,
        ErrorType::InvalidHook,
        ErrorType::ReactKey,
        ErrorType::CorsError,
        ErrorType::CspError,
        ErrorType::MixedContent,
        ErrorType::SecurityError,
        ErrorType::ServiceWorker,
        ErrorType::MediaError,
        ErrorType::IndexedDbError,
        ErrorType::NetworkError,
        ErrorType::WebSocketError,
        ErrorType::HttpError,
        ErrorType::Playwright,
        ErrorType::Storybook,
        ErrorType::NextJs,
        ErrorType::ModuleNotFound,
        ErrorType::UnhandledRejection,
        ErrorType::TypeError,
        ErrorType::RefError,
        ErrorType::SyntaxError,
        ErrorType::RangeError,
        ErrorType::UriError,
        ErrorType::EvalError,
        ErrorType::SystemError,
        ErrorType::Deprecation,
        ErrorType::RuntimeError
    ]
}

impl ErrorType {
    /// The upper-case display name of this category.
    pub fn name(&self) -> (r: &'static str)
        ensures
            r@ == spec_name(*self),
    {
        match self {
        ErrorType::DomNesting => "DOM_NESTING",
        ErrorType::Hydration => "HYDRATION",
        ErrorType::ReactMinified => "REACT_MINIFIED",
        ErrorType::InvalidHook => "INVALID_HOOK",
        ErrorType::ReactKey => "REACT_KEY",
        ErrorType::TypeError => "TYPE_ERROR",
        ErrorType::RefError => "REF_ERROR",
        ErrorType::SyntaxError => "SYNTAX_ERROR",
        ErrorType::RangeError => "RANGE_ERROR",
        ErrorType::UriError => "URI_ERROR",
        ErrorType::EvalError => "EVAL_ERROR",
        ErrorType::CorsError => "CORS_ERROR",
        ErrorType::NetworkError => "NETWORK_ERROR",
        ErrorType::HttpError => "HTTP_ERROR",
        ErrorType::WebSocketError => "WEBSOCKET_ERROR",
        ErrorType::CspError => "CSP_ERROR",
        ErrorType::SecurityError => "SECURITY_ERROR",
        ErrorType::MixedContent => "MIXED_CONTENT",
        ErrorType::Storybook => "STORYBOOK",
        ErrorType::NextJs => "NEXTJS",
        ErrorType::ModuleNotFound => "MODULE_NOT_FOUND",
        ErrorType::Playwright => "PLAYWRIGHT",
        ErrorType::SystemError => "SYSTEM_ERROR",
        ErrorType::UnhandledRejection => "UNHANDLED_REJECTION",
        ErrorType::MediaError => "MEDIA_ERROR",
        ErrorType::IndexedDbError => "INDEXEDDB_ERROR",
        ErrorType::ServiceWorker => "SERVICE_WORKER",
        ErrorType::Deprecation => "DEPRECATION",
        ErrorType::RuntimeError => "RUNTIME_ERROR",
        }
    }

    /// The icon glyph shown beside this category in decorated output.
    pub fn icon(&self) -> (r: &'static str)
        ensures
            r@ == spec_icon(*self),
    {
        match self {
        ErrorType::DomNesting => "󰅖",
        ErrorType::Hydration => "󰜈",
        ErrorType::ReactMinified => "󰜈",
        ErrorType::InvalidHook => "󰜈",
        ErrorType::ReactKey => "󰜈",
        ErrorType::TypeError => "",
        ErrorType::RefError => "",
        ErrorType::SyntaxError => "",
        ErrorType::RangeError => "",
        ErrorType::UriError => "",
        ErrorType::EvalError => "",
        ErrorType::CorsError => "󰒃",
        ErrorType::NetworkError => "󰖟",
        ErrorType::HttpError => "󰖟",
        ErrorType::WebSocketError => "󱄙",
        ErrorType::CspError => "󰒃",
        ErrorType::SecurityError => "󰒃",
        ErrorType::MixedContent => "󰒃",
        ErrorType::Storybook => "󰂺",
        ErrorType::NextJs => "󰔶",
        ErrorType::ModuleNotFound => "󰏗",
        ErrorType::Playwright => "󰙨",
        ErrorType::SystemError => "",
        ErrorType::UnhandledRejection => "󰜺",
        ErrorType::MediaError => "󰎁",
        ErrorType::IndexedDbError => "󰆼",
        ErrorType::ServiceWorker => "󰖟",
        ErrorType::Deprecation => "󰀦",
        ErrorType::RuntimeError => "",
        }
    }

    /// Every category, in detection priority order.
    pub fn all() -> (v: Vec<ErrorType>)
        ensures
            v@ == spec_order(),
    {
        let mut v: Vec<ErrorType> = Vec::new();
        v.push(ErrorType::DomNesting);
    v.push(ErrorType::Hydration);
    v.push(ErrorType::ReactMinified);
    v.push(ErrorType::InvalidHook);
    v.push(ErrorType::ReactKey);
    v.push(ErrorType::CorsError);
    v.push(ErrorType::CspError);
    v.push(ErrorType::MixedContent);
    v.push(ErrorType::SecurityError);
    v.push(ErrorType::ServiceWorker);
    v.push(ErrorType::MediaError);
    v.push(ErrorType::IndexedDbError);
    v.push(ErrorType::NetworkError);
    v.push(ErrorType::WebSocketError);
    v.push(ErrorType::HttpError);
    v.push(ErrorType::Playwright);
    v.push(ErrorType::Storybook);
    v.push(ErrorType::NextJs);
    v.push(ErrorType::ModuleNotFound);
    v.push(ErrorType::UnhandledRejection);
    v.push(ErrorType::TypeError);
    v.push(ErrorType::RefError);
    v.push(ErrorType::SyntaxError);
    v.push(ErrorType::RangeError);
    v.push(ErrorType::UriError);
    v.push(ErrorType::EvalError);
    v.push(ErrorType::SystemError);
    v.push(ErrorType::Deprecation);
    v.push(ErrorType::RuntimeError);
        proof {
            assert(v@ =~= spec_order());
        }
        v
    }
}


/// Every category name is a short string.
pub proof fn lemma_name_len(t: ErrorType)
    ensures
        spec_name(t).len() <= 20,
{
    match t {
        ErrorType::DomNesting => {
            reveal_strlit("DOM_NESTING");
        },
        ErrorType::Hydration => {
            reveal_strlit("HYDRATION");
        },
        ErrorType::ReactMinified => {
            reveal_strlit("REACT_MINIFIED");
        },
        ErrorType::InvalidHook => {
            reveal_strlit("INVALID_HOOK");
        },
        ErrorType::ReactKey => {
            reveal_strlit("REACT_KEY");
        },
        ErrorType::TypeError => {
            reveal_strlit("TYPE_ERROR");
        },
        ErrorType::RefError => {
            reveal_strlit("REF_ERROR");
        },
        ErrorType::SyntaxError => {
            reveal_strlit("SYNTAX_ERROR");
        },
        ErrorType::RangeError => {
            reveal_strlit("RANGE_ERROR");
        },
        ErrorType::UriError => {
            reveal_strlit("URI_ERROR");
        },
        ErrorType::EvalError => {
            reveal_strlit("EVAL_ERROR");
        },
        ErrorType::CorsError => {
            reveal_strlit("CORS_ERROR");
        },
        ErrorType::NetworkError => {
            reveal_strlit("NETWORK_ERROR");
        },
        ErrorType::HttpError => {
            reveal_strlit("HTTP_ERROR");
        },
        ErrorType::WebSocketError => {
            reveal_strlit("WEBSOCKET_ERROR");
        },
        ErrorType::CspError => {
            reveal_strlit("CSP_ERROR");
        },
        ErrorType::SecurityError => {
            reveal_strlit("SECURITY_ERROR");
        },
        ErrorType::MixedContent => {
            reveal_strlit("MIXED_CONTENT");
        },
        ErrorType::Storybook => {
            reveal_strlit("STORYBOOK");
        },
        ErrorType::NextJs => {
            reveal_strlit("NEXTJS");
        },
        ErrorType::ModuleNotFound => {
            reveal_strlit("MODULE_NOT_FOUND");
        },
        ErrorType::Playwright => {
            reveal_strlit("PLAYWRIGHT");
        },
        ErrorType::SystemError => {
            reveal_strlit("SYSTEM_ERROR");
        },
        ErrorType::UnhandledRejection => {
            reveal_strlit("UNHANDLED_REJECTION");
        },
        ErrorType::MediaError => {
            reveal_strlit("MEDIA_ERROR");
        },
        ErrorType::IndexedDbError => {
            reveal_strlit("INDEXEDDB_ERROR");
        },
        ErrorType::ServiceWorker => {
            reveal_strlit("SERVICE_WORKER");
        },
        ErrorType::Deprecation => {
            reveal_strlit("DEPRECATION");
        },
        ErrorType::RuntimeError => {
            reveal_strlit("RUNTIME_ERROR");
        },
    }
}

} // verus!
