use async_hid::backend::{default_backend_type, has_default_backend, TargetPlatform};
use async_hid::BackendType;

#[test]
fn each_platform_has_its_backend() {
    assert_eq!(default_backend_type(TargetPlatform::Linux), BackendType::HidRaw);
    assert_eq!(default_backend_type(TargetPlatform::MacOs), BackendType::IoHidManager);
    assert_eq!(default_backend_type(TargetPlatform::Wasm), BackendType::WebHid);
    assert_eq!(default_backend_type(TargetPlatform::Windows { win32: true, winrt: false }), BackendType::Win32);
    assert_eq!(default_backend_type(TargetPlatform::Windows { win32: false, winrt: true }), BackendType::WinRt);
}

#[test]
fn win32_is_preferred_on_windows() {
    assert_eq!(default_backend_type(TargetPlatform::Windows { win32: true, winrt: true }), BackendType::Win32);
}

#[test]
fn some_platforms_have_no_backend() {
    assert!(!has_default_backend(TargetPlatform::Other));
    assert!(!has_default_backend(TargetPlatform::Windows { win32: false, winrt: false }));
    assert!(has_default_backend(TargetPlatform::Linux));
    assert!(has_default_backend(TargetPlatform::Wasm));
}
