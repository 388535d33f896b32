//! App model types for the App Store Connect API.

use vstd::prelude::*;

verus! {

/// Attributes of an App Store Connect app.
#[derive(Debug, Clone)]
pub struct AppAttributes {
    /// Display name of the app.
    pub name: Option<String>,
    /// Bundle identifier (e.g., "com.example.myapp").
    pub bundle_id: Option<String>,
    /// SKU assigned to the app.
    pub sku: Option<String>,
    /// Primary locale (e.g., "en-US").
    pub primary_locale: Option<String>,
}

} // verus!
