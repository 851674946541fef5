use kazi::slug::{get_task_slug, slug_from_lowercase};
use kazi::task::{CreationDate, Task, TaskStage};

fn creation_date() -> CreationDate {
    let date: chrono::DateTime<chrono::Utc> = "2026-03-31T09:13:55.702829Z".parse().unwrap();
    CreationDate {
        seconds: date.timestamp(),
        nanoseconds: date.timestamp_subsec_nanos(),
    }
}

fn task_titled(title: &str) -> Task {
    Task {
        id: "1".to_string(),
        title: title.to_string(),
        description: "1".to_string(),
        stage: TaskStage::Done,
        creation_date: creation_date(),
    }
}

#[test]
fn single_char() {
    assert_eq!(get_task_slug(&task_titled("1")), "1");
}

#[test]
fn single_word() {
    assert_eq!(get_task_slug(&task_titled("Apple")), "apple");
}

#[test]
fn two_words() {
    assert_eq!(get_task_slug(&task_titled("Two Worlds")), "two-worlds");
}

#[test]
fn special_characters() {
    assert_eq!(
        get_task_slug(&task_titled("Special Characters !@#$%^&*()")),
        "special-characters"
    );
}

#[test]
fn slug_of_empty_title_is_empty() {
    assert_eq!(get_task_slug(&task_titled("")), "");
    assert_eq!(get_task_slug(&task_titled("   !!  ")), "");
}

#[test]
fn slug_collapses_and_strips_white_space() {
    assert_eq!(get_task_slug(&task_titled("  Fix   the\tbug \n")), "fix-the-bug");
}

#[test]
fn slug_drops_hyphens_of_the_title() {
    assert_eq!(get_task_slug(&task_titled("re-open - ticket")), "reopen-ticket");
}

#[test]
fn slug_keeps_unicode_letters_in_lower_case() {
    assert_eq!(get_task_slug(&task_titled("Écrire LE Résumé")), "écrire-le-résumé");
    assert_eq!(get_task_slug(&task_titled("Ünïcödé 42")), "ünïcödé-42");
}

#[test]
fn slug_splits_on_unicode_white_space() {
    assert_eq!(get_task_slug(&task_titled("a\u{3000}b\u{a0}c")), "a-b-c");
}

#[test]
fn slug_from_lowercase_does_not_lower_again() {
    assert_eq!(slug_from_lowercase("Keep Case"), "Keep-Case");
}

#[test]
fn slug_shape_on_examples() {
    for title in ["", "a", "--x--", "  many   spaces  ", "Tabs\tand\nlines", "*&^ Mixed 9 Things !"] {
        let s = get_task_slug(&task_titled(title));
        assert!(!s.starts_with('-'));
        assert!(!s.ends_with('-'));
        assert!(!s.contains("--"));
        assert!(s.chars().all(|c| c == '-' || (c.is_alphanumeric() && !c.is_whitespace())));
    }
}

#[test]
fn slug_lowercases_through_the_whole_string() {
    assert_eq!(get_task_slug(&task_titled("HeLLo WORLD")), "hello-world");
    assert_eq!(get_task_slug(&task_titled("ÀÉ")), "àé");
}

#[test]
fn slug_keeps_only_letters_and_digits() {
    assert_eq!(get_task_slug(&task_titled("a_b.c/d")), "abcd");
    assert_eq!(get_task_slug(&task_titled("Z9 é")), "z9-é");
}

#[test]
fn slug_ignores_dropped_characters_spacing_and_ascii_case() {
    let base = get_task_slug(&task_titled("Fix the bug"));
    for title in ["fix THE Bug", "F!ix the# bug?", "  fix\t\tthe \n bug  ", "fix. the.. bug", "FIX\u{3000}THE BUG"] {
        assert_eq!(get_task_slug(&task_titled(title)), base, "{:?}", title);
    }
}
