use nativelogi::launch_agent::{
    agent_action, legacy_move, plist_file_name, reconcile, render_plist, AgentAction, LegacyPlist, LABEL, LEGACY_LABEL,
    TRASH_FALLBACK_NAME,
};
use nativelogi::trash::trash_entry_name;
use nativelogi::xml::xml_escape;

#[test]
fn rendered_plist_targets_the_agent_and_keeps_alive() {
    let body = render_plist(
        "/Applications/NativeLogi.app/Contents/Library/LoginItems/NativeLogiAgent.app/Contents/MacOS/openlogi-agent",
    );
    assert!(body.contains(LABEL));
    assert!(body.contains("openlogi-agent"));
    assert!(body.contains("RunAtLoad"));
    // KeepAlive uses SuccessfulExit:false so a crash respawns but the tray's
    // Quit (a clean exit(0)) is NOT relaunched; no --minimized (always headless).
    assert!(body.contains(
        "<key>KeepAlive</key>\n  <dict>\n    <key>SuccessfulExit</key>\n    <false/>\n  </dict>"
    ));
    assert!(!body.contains("--minimized"));
}

#[test]
fn render_plist_escapes_xml_metacharacters_in_the_path() {
    // A home/app path with XML metacharacters (all legal APFS filename chars)
    // must not produce a malformed plist launchd would reject.
    let body = render_plist("/Users/R&D/Apps/<NativeLogi>/openlogi-agent");
    assert!(body.contains("/Users/R&amp;D/Apps/&lt;NativeLogi&gt;/openlogi-agent"));
    // The raw, unescaped ampersand must not survive into the plist.
    assert!(!body.contains("R&D"));
}

#[test]
fn rendered_plist_is_the_whole_document() {
    let body = render_plist("/bin/agent");
    let expected = [
        "<?xml version=\"1.0\" encoding=\"UTF-8\"?>",
        "<!DOCTYPE plist PUBLIC \"-//Apple//DTD PLIST 1.0//EN\" \"http://www.apple.com/DTD/PropertyList-1.0.dtd\">",
        "<plist version=\"1.0\">",
        "<dict>",
        "  <key>Label</key>",
        "  <string>io.github.ruofanyou.nativelogi.agent</string>",
        "  <key>ProgramArguments</key>",
        "  <array>",
        "    <string>/bin/agent</string>",
        "  </array>",
        "  <key>RunAtLoad</key>",
        "  <true/>",
        "  <key>KeepAlive</key>",
        "  <dict>",
        "    <key>SuccessfulExit</key>",
        "    <false/>",
        "  </dict>",
        "</dict>",
        "</plist>",
    ]
    .map(|line| format!("{line}\n"))
    .concat();
    assert_eq!(body, expected);
}

#[test]
fn xml_escape_replaces_each_metacharacter() {
    assert_eq!(xml_escape("&"), "&amp;");
    assert_eq!(xml_escape("<"), "&lt;");
    assert_eq!(xml_escape(">"), "&gt;");
    assert_eq!(xml_escape("\""), "&quot;");
    assert_eq!(xml_escape("'"), "&apos;");
    assert_eq!(xml_escape("a'b\"c<d>e&f"), "a&apos;b&quot;c&lt;d&gt;e&amp;f");
}

#[test]
fn xml_escape_does_not_double_escape_entities() {
    assert_eq!(xml_escape("&amp;"), "&amp;amp;");
    assert_eq!(xml_escape("&lt;x"), "&amp;lt;x");
}

#[test]
fn xml_escape_keeps_plain_text() {
    assert_eq!(xml_escape(""), "");
    assert_eq!(xml_escape("/Users/émile/bin/agent"), "/Users/émile/bin/agent");
}

#[test]
fn escaped_text_has_no_markup_characters() {
    let out = xml_escape("<a href='x'>\"&\"</a>");
    assert!(!out.contains('<'));
    assert!(!out.contains('>'));
    assert!(!out.contains('"'));
    assert!(!out.contains('\''));
}

#[test]
fn plist_file_name_appends_extension() {
    assert_eq!(plist_file_name(LABEL), "io.github.ruofanyou.nativelogi.agent.plist");
    assert_eq!(plist_file_name(LEGACY_LABEL), "org.openlogi.openlogi.plist");
}

#[test]
fn enabled_without_plist_installs_rendered_plist() {
    match agent_action(true, "/bin/agent", &None) {
        AgentAction::Install(text) => assert_eq!(text, render_plist("/bin/agent")),
        other => panic!("unexpected {:?}", other),
    }
}

#[test]
fn enabled_with_current_plist_does_nothing() {
    let current = Some(render_plist("/bin/agent"));
    assert!(matches!(agent_action(true, "/bin/agent", &current), AgentAction::AlreadyCurrent));
}

#[test]
fn enabled_with_stale_plist_rewrites_it() {
    let current = Some(render_plist("/old/agent"));
    match agent_action(true, "/bin/agent", &current) {
        AgentAction::Install(text) => assert_eq!(text, render_plist("/bin/agent")),
        other => panic!("unexpected {:?}", other),
    }
}

#[test]
fn disabled_with_plist_moves_it_to_trash() {
    let current = Some("anything".to_string());
    assert!(matches!(agent_action(false, "/bin/agent", &current), AgentAction::MoveToTrash));
}

#[test]
fn disabled_without_plist_does_nothing() {
    assert!(matches!(agent_action(false, "/bin/agent", &None), AgentAction::AlreadyAbsent));
}

#[test]
fn reconcile_removes_legacy_plist_when_present() {
    let plan = reconcile(false, "/bin/agent", &None, LegacyPlist::Readable);
    assert!(plan.move_legacy_to_trash);
    assert!(matches!(plan.agent, AgentAction::AlreadyAbsent));
    let plan = reconcile(true, "/bin/agent", &None, LegacyPlist::Absent);
    assert!(!plan.move_legacy_to_trash);
}

#[test]
fn reconcile_leaves_unreadable_legacy_plist_alone() {
    let plan = reconcile(false, "/bin/agent", &None, LegacyPlist::Unreadable);
    assert!(!plan.move_legacy_to_trash);
    let plan = reconcile(true, "/bin/agent", &None, LegacyPlist::Unreadable);
    assert!(!plan.move_legacy_to_trash);
}

#[test]
fn reconcile_twice_is_a_no_op() {
    let first = reconcile(true, "/bin/agent", &None, LegacyPlist::Readable);
    let after = match first.agent {
        AgentAction::Install(text) => Some(text),
        other => panic!("unexpected {:?}", other),
    };
    let second = reconcile(true, "/bin/agent", &after, LegacyPlist::Absent);
    assert!(!second.move_legacy_to_trash);
    assert!(matches!(second.agent, AgentAction::AlreadyCurrent));

    let first = reconcile(false, "/bin/agent", &Some("old".to_string()), LegacyPlist::Absent);
    assert!(matches!(first.agent, AgentAction::MoveToTrash));
    let second = reconcile(false, "/bin/agent", &None, LegacyPlist::Absent);
    assert!(matches!(second.agent, AgentAction::AlreadyAbsent));
}

#[test]
fn trash_entry_name_uses_timestamp_and_name() {
    assert_eq!(
        trash_entry_name(1700000000, Some("x.plist"), TRASH_FALLBACK_NAME),
        "NativeLogi-1700000000-x.plist"
    );
    assert_eq!(trash_entry_name(0, None, TRASH_FALLBACK_NAME), "NativeLogi-0-NativeLogi.plist");
    assert_eq!(
        trash_entry_name(u64::MAX, Some("a"), TRASH_FALLBACK_NAME),
        "NativeLogi-18446744073709551615-a"
    );
}

#[test]
fn minimized_flag_only_from_the_path_itself() {
    assert!(!render_plist("/Applications/NativeLogi.app/agent").contains("--minimized"));
    assert!(!render_plist("/a-b/--mini/mized").contains("--minimized"));
    assert!(render_plist("/tmp/--minimized").contains("--minimized"));
}

#[test]
fn legacy_move_only_for_readable_plist() {
    assert!(legacy_move(LegacyPlist::Readable));
    assert!(!legacy_move(LegacyPlist::Unreadable));
    assert!(!legacy_move(LegacyPlist::Absent));
}
