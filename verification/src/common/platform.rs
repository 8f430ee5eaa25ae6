//! The platform the editor runs on, and what it implies.

use vstd::prelude::*;

verus! {

/// A platform the editor runs on.
#[allow(non_camel_case_types)]
#[derive(Debug, Clone, Copy, PartialEq, Eq)]
pub enum Platform {
    Web,
    Desktop,
    iOS,
    Android,
}

impl Platform {
    /// The platform of a build target: the web for WebAssembly, else iOS or
    /// Android by the target's operating system, else the desktop.
    pub fn current(wasm32: bool, target_os: &str) -> (r: Self)
        ensures
            wasm32 ==> r == Platform::Web,
            !wasm32 && target_os@ == "ios"@ ==> r == Platform::iOS,
            !wasm32 && target_os@ == "android"@ ==> r == Platform::Android,
            !wasm32 && target_os@ != "ios"@ && target_os@ != "android"@ ==> r == Platform::Desktop,
    {
        proof {
            reveal_strlit("ios");
            reveal_strlit("android");
            assert("ios"@.len() != "android"@.len());
        }
        if wasm32 {
            Platform::Web
        } else if crate::text::str_eq(target_os, "ios") {
            Platform::iOS
        } else if crate::text::str_eq(target_os, "android") {
            Platform::Android
        } else {
            Platform::Desktop
        }
    }

    /// Whether the platform is a phone or tablet.
    pub fn is_mobile(&self) -> (r: bool)
        ensures
            r == (*self == Platform::iOS || *self == Platform::Android),
    {
        match self {
            Platform::iOS | Platform::Android => true,
            _ => false,
        }
    }

    /// Whether the platform is a web browser.
    pub fn is_web(&self) -> (r: bool)
        ensures
            r == (*self == Platform::Web),
    {
        match self {
            Platform::Web => true,
            _ => false,
        }
    }

    /// Whether the platform is a native desktop.
    pub fn is_desktop(&self) -> (r: bool)
        ensures
            r == (*self == Platform::Desktop),
    {
        match self {
            Platform::Desktop => true,
            _ => false,
        }
    }

    /// The platform's display name.
    pub fn name(&self) -> (r: &'static str)
        ensures
            r@ == platform_name(*self),
    {
        match self {
            Platform::Web => "Web",
            Platform::Desktop => "Desktop",
            Platform::iOS => "iOS",
            Platform::Android => "Android",
        }
    }
}

/// The display name of each platform.
pub open spec fn platform_name(p: Platform) -> Seq<char> {
    match p {
        Platform::Web => "Web"@,
        Platform::Desktop => "Desktop"@,
        Platform::iOS => "iOS"@,
        Platform::Android => "Android"@,
    }
}

/// Each platform is exactly one of web, desktop or mobile.
pub proof fn lemma_platform_kinds(p: Platform)
    ensures
        (p == Platform::Web) as int + (p == Platform::Desktop) as int + (p == Platform::iOS || p == Platform::Android) as int == 1,
{
}

} // verus!
