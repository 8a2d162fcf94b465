//! The process-wide locale context: the host's reported locale tag with
//! a fixed default fallback.
//!
//! The tag only resolves human-readable menu labels.  It has no effect
//! on catalog order or classification, which stay byte-wise and
//! content-based so that navigation is deterministic.

use vstd::prelude::*;

verus! {

/// The locale tag used when the host reports none.
pub fn default_locale() -> (r: String)
    ensures
        r@ == "en-US"@,
{
    String::from_str("en-US")
}

/// The locale tag the session runs with: the reported tag where
/// detection succeeded, the default otherwise.
pub fn locale_or_default(tag: Option<String>) -> (r: String)
    ensures
        match tag {
            Some(t) => r@ == t@,
            None => r@ == "en-US"@,
        },
{
    match tag {
        Some(t) => t,
        None => default_locale(),
    }
}

/// Relies on sys_locale::get_locale: the host's locale tag, when the
/// host reports one.  The result depends on the environment, so nothing
/// is promised of its value.
#[verifier::external_body]
fn host_locale() -> (r: Option<String>) {
    sys_locale::get_locale()
}

/// Detects the host locale once at startup and applies the default
/// fallback.  The tag depends on the host environment; whatever came
/// back, the fallback guarantees a tag is returned.
pub fn detect_locale() -> (r: String) {
    locale_or_default(host_locale())
}

} // verus!
