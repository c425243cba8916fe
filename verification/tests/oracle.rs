use roff::oracle::{is_broken_banner, is_ci, verdict, Platform, Probe, Verdict};
use roff::text::starts_with;

#[test]
fn ci_is_marked_by_either_variable() {
    assert!(!is_ci(false, false));
    assert!(is_ci(true, false));
    assert!(is_ci(false, true));
    assert!(is_ci(true, true));
}

#[test]
fn starts_with_compares_characters() {
    assert!(starts_with("GNU bash, version 3.2", "GNU bash"));
    assert!(starts_with("abc", "abc"));
    assert!(starts_with("abc", ""));
    assert!(starts_with("", ""));
    assert!(!starts_with("ab", "abc"));
    assert!(!starts_with("", "a"));
    assert!(!starts_with("abd", "abc"));
    assert!(starts_with("ünï", "ün"));
    assert!(!starts_with("unï", "ün"));
}

#[test]
fn old_shell_banner() {
    assert!(is_broken_banner("GNU bash, version 3.2.57(1)-release\nCopyright"));
    assert!(!is_broken_banner("GNU bash, version 5.2.15"));
    assert!(!is_broken_banner("GNU troff (groff) version 1.22.4"));
    assert!(!is_broken_banner(""));
}

#[test]
fn missing_tool_is_skipped_unless_ci_on_linux() {
    for platform in [Platform::Linux, Platform::MacOs, Platform::Other] {
        assert_eq!(verdict(Probe::NotRunnable, "", false, platform), Verdict::Skip);
    }
    assert_eq!(verdict(Probe::NotRunnable, "", true, Platform::Linux), Verdict::MissingTool);
    assert_eq!(verdict(Probe::NotRunnable, "", true, Platform::MacOs), Verdict::Skip);
    assert_eq!(verdict(Probe::NotRunnable, "", true, Platform::Other), Verdict::Skip);
}

#[test]
fn failing_tool_is_broken() {
    for platform in [Platform::Linux, Platform::MacOs, Platform::Other] {
        for ci in [false, true] {
            assert_eq!(
                verdict(Probe::Failed, "GNU bash, version 3", ci, platform),
                Verdict::BrokenTool
            );
        }
    }
}

#[test]
fn working_tool_is_used_unless_it_is_the_old_shell_on_macos() {
    let old = "GNU bash, version 3.2.57(1)-release";
    let good = "GNU troff (groff) version 1.22.4";
    for ci in [false, true] {
        assert_eq!(verdict(Probe::Succeeded, old, ci, Platform::MacOs), Verdict::Skip);
        assert_eq!(verdict(Probe::Succeeded, good, ci, Platform::MacOs), Verdict::Proceed);
        assert_eq!(verdict(Probe::Succeeded, old, ci, Platform::Linux), Verdict::Proceed);
        assert_eq!(verdict(Probe::Succeeded, old, ci, Platform::Other), Verdict::Proceed);
        assert_eq!(verdict(Probe::Succeeded, good, ci, Platform::Linux), Verdict::Proceed);
    }
}
