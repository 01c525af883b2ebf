use codex_plus_core::macos_bundle::{executable_name_from_plist, info_plist, launch_script};

#[test]
fn launch_script_runs_the_binary_beside_it() {
    assert_eq!(
        launch_script("codex-plus-plus"),
        "#!/bin/sh\nDIR=$(CDPATH= cd -- \"$(dirname -- \"$0\")\" && pwd)\nexec \"$DIR/codex-plus-plus\" \"$@\"\n"
    );
}

#[test]
fn info_plist_names_the_bundle_and_its_executable() {
    let manager = info_plist("Codex++ Manager", "CodexPlusPlusManager", ".manager", "1.2.3");
    assert!(manager.contains("<string>com.bigpizzav3.codexplusplus.manager</string>"));
    assert!(manager.contains("<string>codexplusplus</string>"));
    assert!(manager.contains("<key>CFBundleShortVersionString</key>\n  <string>1.2.3</string>"));
    assert_eq!(executable_name_from_plist(&manager), "CodexPlusPlusManager");

    let silent = info_plist("Codex++", "CodexPlusPlus", "", "1.2.3");
    assert!(!silent.contains("CFBundleURLTypes"));
    assert!(silent.ends_with("</dict>\n</plist>"));
    assert_eq!(executable_name_from_plist(&silent), "CodexPlusPlus");
}

#[test]
fn executable_name_falls_back_when_the_plist_does_not_name_one() {
    assert_eq!(executable_name_from_plist("<plist></plist>"), "CodexPlusPlus");
    assert_eq!(
        executable_name_from_plist("<key>CFBundleExecutable</key><string>Tool"),
        "Tool"
    );
    assert_eq!(
        executable_name_from_plist("<key>CFBundleExecutable</key>\n<integer>1</integer>"),
        "CodexPlusPlus"
    );
}
