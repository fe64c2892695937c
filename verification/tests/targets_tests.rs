use flash_code::locate::IconRegion;
use flash_code::targets::{window_qualifies, AppInfo};

#[test]
fn qualifying_window_passes_every_gate() {
    assert!(window_qualifies(true, true, false, true, 0));
}

#[test]
fn each_gate_disqualifies_alone() {
    // Invisible.
    assert!(!window_qualifies(false, true, false, true, 0));
    // Untitled.
    assert!(!window_qualifies(true, false, false, true, 0));
    // Belongs to the calling process.
    assert!(!window_qualifies(true, true, true, true, 0));
    // Owned window, not its own root owner.
    assert!(!window_qualifies(true, true, false, false, 0));
    // Tool window style bit.
    assert!(!window_qualifies(true, true, false, true, 0x80));
    // No-redirection-bitmap style bit.
    assert!(!window_qualifies(true, true, false, true, 0x200000));
    // Unrelated style bits are ignored.
    assert!(window_qualifies(true, true, false, true, 0x40001));
}

#[test]
fn region_width_and_height() {
    let region = IconRegion {
        left: 100,
        top: 980,
        right: 148,
        bottom: 1030,
    };
    assert_eq!(region.width(), 48);
    assert_eq!(region.height(), 50);

    let empty = IconRegion {
        left: 5,
        top: 7,
        right: 5,
        bottom: 7,
    };
    assert_eq!(empty.width(), 0);
    assert_eq!(empty.height(), 0);
}

#[test]
fn target_carries_its_window_identity() {
    let info = AppInfo {
        name: "My Chat App".to_string(),
        hwnd: 0x1234,
        process_id: 42,
        thread_id: 7,
        icon: None,
    };
    assert_eq!(info.name, "My Chat App");
    assert_eq!(info.hwnd, 0x1234);
    assert_eq!(info.process_id, 42);
    assert_eq!(info.thread_id, 7);
    assert!(info.icon.is_none());
}
