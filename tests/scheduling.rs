use wallpaper_changer::schedule::{contains, crontab_with_task, crontab_without_task};

#[test]
fn text_containment() {
    assert!(contains("abcdef", "cde"));
    assert!(contains("abc", ""));
    assert!(!contains("abc", "abcd"));
    assert!(!contains("abc", "acb"));
}

#[test]
fn task_is_appended_once() {
    assert_eq!(
        crontab_with_task("0 * * * * backup\n", "/usr/bin/wp"),
        Some("0 * * * * backup\n*/5 * * * * /usr/bin/wp\n".to_string())
    );
    assert_eq!(crontab_with_task("", "/usr/bin/wp"), Some("*/5 * * * * /usr/bin/wp\n".to_string()));
    assert_eq!(crontab_with_task("*/5 * * * * /usr/bin/wp\n", "/usr/bin/wp"), None);
}

#[test]
fn task_lines_are_removed() {
    assert_eq!(
        crontab_without_task("0 * * * * backup\n*/5 * * * * /usr/bin/wp\n1 * * * * other\n", "/usr/bin/wp"),
        Some("0 * * * * backup\n1 * * * * other".to_string())
    );
    assert_eq!(
        crontab_without_task("a\r\n*/5 * * * * /usr/bin/wp\r\nb", "/usr/bin/wp"),
        Some("a\nb".to_string())
    );
    assert_eq!(crontab_without_task("*/5 * * * * /usr/bin/wp\n", "/usr/bin/wp"), Some(String::new()));
    assert_eq!(crontab_without_task("0 * * * * backup\n", "/usr/bin/wp"), None);
}

#[test]
fn removal_keeps_empty_lines_between() {
    let content = "x\n\n/usr/bin/wp\ny\n";
    let expected: Vec<&str> = content.lines().filter(|l| !l.contains("/usr/bin/wp")).collect();
    assert_eq!(crontab_without_task(content, "/usr/bin/wp"), Some(expected.join("\n")));
}
