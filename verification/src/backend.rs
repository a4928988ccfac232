//! The choice of backend for the platform the library runs on.

use vstd::prelude::*;

verus! {

/// The backends that the library can drive.
#[derive(Debug, Copy, Clone, PartialEq, Eq, Hash, Structural)]
#[non_exhaustive]
pub enum BackendType {
    Win32,
    WinRt,
    HidRaw,
    IoHidManager,
    WebHid,
}

/// The platform that the library was built for, with the Windows backends that
/// the build enabled.
#[derive(Debug, Copy, Clone, PartialEq, Eq, Structural)]
pub enum TargetPlatform {
    Windows { win32: bool, winrt: bool },
    Linux,
    MacOs,
    Wasm,
    Other,
}

/// The backend that a platform uses by default, if it has one: on Windows the
/// Win32 backend where it was built, else the WinRT one; hidraw on Linux;
/// IOHIDManager on macOS; WebHID in the browser.
pub open spec fn default_backend(platform: TargetPlatform) -> Option<BackendType> {
    match platform {
        TargetPlatform::Windows { win32, winrt } => if win32 {
            Some(BackendType::Win32)
        } else if winrt {
            Some(BackendType::WinRt)
        } else {
            None
        },
        TargetPlatform::Linux => Some(BackendType::HidRaw),
        TargetPlatform::MacOs => Some(BackendType::IoHidManager),
        TargetPlatform::Wasm => Some(BackendType::WebHid),
        TargetPlatform::Other => None,
    }
}

/// Which platforms have a default backend, and which one: Linux, macOS and the
/// browser always, Windows where the Win32 or the WinRT backend was built, and
/// no other platform; Win32 is preferred to WinRT where both were built.
pub proof fn lemma_default_backend_by_platform(platform: TargetPlatform)
    ensures
        default_backend(platform) is Some <==> match platform {
            TargetPlatform::Windows { win32, winrt } => win32 || winrt,
            TargetPlatform::Linux => true,
            TargetPlatform::MacOs => true,
            TargetPlatform::Wasm => true,
            TargetPlatform::Other => false,
        },
        platform == TargetPlatform::Linux <==> default_backend(platform) == Some(BackendType::HidRaw),
        platform == TargetPlatform::MacOs <==> default_backend(platform) == Some(BackendType::IoHidManager),
        platform == TargetPlatform::Wasm <==> default_backend(platform) == Some(BackendType::WebHid),
        (platform matches TargetPlatform::Windows { win32, winrt } && win32)
            <==> default_backend(platform) == Some(BackendType::Win32),
        (platform matches TargetPlatform::Windows { win32, winrt } && !win32 && winrt)
            <==> default_backend(platform) == Some(BackendType::WinRt),
{
}

/// Whether the platform has a backend at all.
pub fn has_default_backend(platform: TargetPlatform) -> (has: bool)
    ensures
        has == default_backend(platform) is Some,
        has <==> match platform {
            TargetPlatform::Windows { win32, winrt } => win32 || winrt,
            TargetPlatform::Other => false,
            _ => true,
        },
{
    match platform {
        TargetPlatform::Windows { win32, winrt } => win32 || winrt,
        TargetPlatform::Other => false,
        _ => true,
    }
}

/// The backend that the platform uses by default. A platform without one
/// cannot open devices at all.
pub fn default_backend_type(platform: TargetPlatform) -> (backend: BackendType)
    requires
        default_backend(platform) is Some,
    ensures
        default_backend(platform) == Some(backend),
        platform == TargetPlatform::Linux ==> backend == BackendType::HidRaw,
        platform == TargetPlatform::MacOs ==> backend == BackendType::IoHidManager,
        platform == TargetPlatform::Wasm ==> backend == BackendType::WebHid,
        platform matches TargetPlatform::Windows { win32, winrt } ==>
            backend == (if win32 { BackendType::Win32 } else { BackendType::WinRt }),
{
    match platform {
        TargetPlatform::Windows { win32, winrt } => if win32 {
            BackendType::Win32
        } else {
            BackendType::WinRt
        },
        TargetPlatform::Linux => BackendType::HidRaw,
        TargetPlatform::MacOs => BackendType::IoHidManager,
        TargetPlatform::Wasm => BackendType::WebHid,
        TargetPlatform::Other => BackendType::WebHid,
    }
}

} // verus!
