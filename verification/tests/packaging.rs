use nativelogi::packaging::{
    bundle_assets_requested, cargo_args, codesign_runtime_args, codesign_verify_strict_args,
    create_dmg_args, curl_args, developer_dir, iconset_slots, iconutil_args, sign_app_plan,
    sign_dmg_args, sips_args, verify_dmg_args, xcode_env, xcrun_sdk_path_args, Bundle, CargoTask,
    SignStep, TRASH_FALLBACK_NAME,
};
use nativelogi::text::{push_decimal, trim};
use nativelogi::trash::trash_entry_name;

#[test]
fn iconset_has_ten_slots_in_order() {
    let slots = iconset_slots();
    let expected: Vec<(u16, String)> = vec![
        (16, "icon_16x16.png".to_string()),
        (32, "icon_16x16@2x.png".to_string()),
        (32, "icon_32x32.png".to_string()),
        (64, "icon_32x32@2x.png".to_string()),
        (128, "icon_128x128.png".to_string()),
        (256, "icon_128x128@2x.png".to_string()),
        (256, "icon_256x256.png".to_string()),
        (512, "icon_256x256@2x.png".to_string()),
        (512, "icon_512x512.png".to_string()),
        (1024, "icon_512x512@2x.png".to_string()),
    ];
    assert_eq!(slots, expected);
}

#[test]
fn bundle_assets_only_on_exact_one() {
    assert!(bundle_assets_requested(Some("1"), None));
    assert!(bundle_assets_requested(None, Some("1")));
    assert!(bundle_assets_requested(Some("0"), Some("1")));
    assert!(!bundle_assets_requested(None, None));
    assert!(!bundle_assets_requested(Some("true"), Some("11")));
    assert!(!bundle_assets_requested(Some(""), Some(" 1")));
}

#[test]
fn sign_app_signs_inside_out() {
    assert_eq!(
        sign_app_plan(true),
        vec![
            SignStep::Sign(Bundle::Helper),
            SignStep::Sign(Bundle::App),
            SignStep::Verify(Bundle::App),
            SignStep::Verify(Bundle::Helper),
        ]
    );
    assert_eq!(sign_app_plan(false), vec![SignStep::Sign(Bundle::App), SignStep::Verify(Bundle::App)]);
}

#[test]
fn codesign_arguments() {
    assert_eq!(
        codesign_runtime_args("Developer ID", "/a/App.app"),
        vec!["--force", "--options", "runtime", "--timestamp", "--sign", "Developer ID", "/a/App.app"]
    );
    assert_eq!(codesign_verify_strict_args("/a/App.app"), vec!["--verify", "--strict", "/a/App.app"]);
    assert_eq!(
        sign_dmg_args("Developer ID", "/a/N.dmg"),
        vec!["--force", "--timestamp", "--sign", "Developer ID", "/a/N.dmg"]
    );
    assert_eq!(verify_dmg_args("/a/N.dmg"), vec!["--verify", "--verbose=2", "/a/N.dmg"]);
}

#[test]
fn create_dmg_arguments_without_background() {
    assert_eq!(
        create_dmg_args(None, "/o/N.dmg", "/o/N.app"),
        vec![
            "--volname", "NativeLogi", "--window-pos", "240", "120", "--window-size", "760", "512",
            "--icon-size", "128", "--icon", "NativeLogi.app", "212", "250", "--app-drop-link",
            "548", "250", "--hide-extension", "NativeLogi.app", "/o/N.dmg", "/o/N.app",
        ]
    );
}

#[test]
fn create_dmg_arguments_with_background() {
    assert_eq!(
        create_dmg_args(Some("/o/bg.tiff"), "/o/N.dmg", "/o/N.app"),
        vec![
            "--volname", "NativeLogi", "--window-pos", "240", "120", "--window-size", "760", "512",
            "--icon-size", "128", "--background", "/o/bg.tiff", "--icon", "NativeLogi.app", "212",
            "250", "--app-drop-link", "548", "250", "--hide-extension", "NativeLogi.app",
            "/o/N.dmg", "/o/N.app",
        ]
    );
}

#[test]
fn packaging_trash_fallback_name() {
    assert_eq!(trash_entry_name(42, None, TRASH_FALLBACK_NAME), "NativeLogi-42-NativeLogi-item");
}

#[test]
fn decimal_rendering() {
    let mut s = String::from("n=");
    push_decimal(&mut s, 0);
    assert_eq!(s, "n=0");
    let mut s = String::new();
    push_decimal(&mut s, 1024);
    assert_eq!(s, "1024");
    let mut s = String::new();
    push_decimal(&mut s, 10);
    assert_eq!(s, "10");
}

#[test]
fn icon_tool_arguments() {
    assert_eq!(
        sips_args(1024, "/r/icon.png", "/t/icon_512x512@2x.png"),
        vec!["-z", "1024", "1024", "/r/icon.png", "--out", "/t/icon_512x512@2x.png"]
    );
    assert_eq!(
        iconutil_args("/t/AppIcon.iconset", "/r/AppIcon.icns"),
        vec!["-c", "icns", "/t/AppIcon.iconset", "-o", "/r/AppIcon.icns"]
    );
}

#[test]
fn curl_arguments() {
    assert_eq!(
        curl_args("https://example.com/bg.tiff", "/o/bg.tiff"),
        vec!["-fsSL", "https://example.com/bg.tiff", "-o", "/o/bg.tiff"]
    );
}

#[test]
fn cargo_arguments() {
    assert_eq!(
        cargo_args(CargoTask::SyncAssets),
        vec!["run", "-p", "openlogi", "--release", "--", "assets", "sync"]
    );
    assert_eq!(cargo_args(CargoTask::InstallBundler), vec!["install", "cargo-bundle", "--locked"]);
    assert_eq!(cargo_args(CargoTask::Bundle), vec!["bundle", "--release"]);
    assert_eq!(cargo_args(CargoTask::BuildAgent), vec!["build", "-p", "openlogi-agent", "--release"]);
}

#[test]
fn xcode_environment() {
    assert_eq!(developer_dir(None), "/Applications/Xcode.app/Contents/Developer");
    assert_eq!(developer_dir(Some("/X/Developer")), "/X/Developer");
    assert_eq!(xcrun_sdk_path_args(), vec!["--sdk", "macosx", "--show-sdk-path"]);
    assert_eq!(
        xcode_env("/X/Developer", "/X/SDKs/MacOSX.sdk\n"),
        vec![
            ("DEVELOPER_DIR".to_string(), "/X/Developer".to_string()),
            ("SDKROOT".to_string(), "/X/SDKs/MacOSX.sdk".to_string()),
        ]
    );
}

#[test]
fn trim_removes_surrounding_white_space_only() {
    assert_eq!(trim("  a b \t\r\n"), "a b");
    assert_eq!(trim("\u{3000}x\u{A0}"), "x");
    assert_eq!(trim(" \n\t "), "");
    assert_eq!(trim(""), "");
    assert_eq!(trim("abc"), "abc");
    for s in ["  a b \t\r\n", "\u{85}\u{2028}z\u{205F}", "\u{200B}y", " \u{1680}q\u{202F}"] {
        assert_eq!(trim(s), s.trim());
    }
}
