use kehadiran_parser::{
    classify, get_name_words, is_absentees_header, is_attendees_header, is_start_of_new_person,
    is_terminator, should_ignore_line, LineClassification, PatternTables,
};
use kehadiran_parser::classify::words_of_span;
use kehadiran_parser::patterns::is_boilerplate_line;

fn tables() -> PatternTables {
    PatternTables::new().unwrap()
}

fn strings(items: &[&str]) -> Vec<String> {
    items.iter().map(|s| s.to_string()).collect()
}

#[test]
fn test_is_attendees_header() {
    let lines = vec!["Ahli-ahli Yang Hadir:", " ahli-ahli yang hadir: "];
    for line in lines {
        assert!(is_attendees_header(line))
    }
}

#[test]
fn test_is_absentees_header() {
    let lines = vec![
        "Ahli-Ahli Yang Tidak Hadir:",
        " ahli-ahli yang tidak hadir: ",
    ];
    for line in lines {
        assert!(is_absentees_header(line))
    }
}

#[test]
fn the_pattern_tables_compile() {
    assert!(PatternTables::new().is_some());
}

#[test]
fn attendees_header_tolerates_case_and_surrounding_text() {
    assert!(is_attendees_header("AHLI-AHLI YANG HADIR:"));
    assert!(is_attendees_header("xx Ahli-Ahli Yang Hadir: yy"));
    assert!(!is_attendees_header("Ahli-ahli Yang Hadir"));
    assert!(!is_attendees_header("Ahli-ahli Yang Tidak Hadir:"));
    assert!(!is_attendees_header(""));
}

#[test]
fn absentees_header_tolerates_case_and_surrounding_text() {
    assert!(is_absentees_header("AHLI-AHLI YANG TIDAK HADIR:"));
    assert!(is_absentees_header("xx ahli-ahli yang tidak hadir: yy"));
    assert!(!is_absentees_header("Ahli-ahli Yang Hadir:"));
    assert!(!is_absentees_header("Ahli-Ahli Yang Tidak Hadir Di Bawah Peraturan Mesyuarat 91"));
}

#[test]
fn terminator_is_the_token_in_capitals() {
    assert!(is_terminator("MALAYSIA"));
    assert!(is_terminator("... MALAYSIA ..."));
    assert!(is_terminator("PARLIMEN MALAYSIA"));
    assert!(!is_terminator("Malaysia"));
    assert!(!is_terminator("malaysia"));
    assert!(!is_terminator(""));
}

#[test]
fn boilerplate_is_matched_exactly_and_as_a_whole() {
    let entries = [
        "DR.",
        "Ahli-ahli Yang Hadir:",
        "Senator Yang Turut Hadir:",
        "Ahli-ahli Yang Tidak Hadir:",
        "Ahli-Ahli Yang Tidak Hadir:",
        "Ahli-Ahli Yang Tidak Hadir Di Bawah Peraturan Mesyuarat 91",
    ];
    for entry in entries {
        assert!(is_boilerplate_line(entry), "{entry:?}");
        assert!(should_ignore_line(&tables(), entry), "{entry:?}");
    }
    assert!(!is_boilerplate_line("dr."));
    assert!(!is_boilerplate_line("DR. "));
    assert!(!is_boilerplate_line("Ahli-Ahli Yang Hadir:"));
    assert!(!is_boilerplate_line("ahli-ahli yang hadir:"));
    assert!(!is_boilerplate_line("Senator Yang Turut Hadir"));
    assert!(!is_boilerplate_line("x Senator Yang Turut Hadir:"));
    assert!(!is_boilerplate_line(""));
}

#[test]
fn page_artifact_is_ignorable() {
    let t = tables();
    assert!(should_ignore_line(&t, "DR. 3.4.2023 12"));
    assert!(should_ignore_line(&t, "DR.  24.5.2023   7"));
    assert!(should_ignore_line(&t, "12 DR. 3.4.2023 12 xx"));
    assert!(t.matches_page_artifact("DR. 3.4.2023 12"));
}

#[test]
fn other_lines_are_not_ignorable() {
    let t = tables();
    assert!(!should_ignore_line(&t, "1. Tuan Bob"));
    assert!(!should_ignore_line(&t, "DR. 3.4.2023"));
    assert!(!should_ignore_line(&t, "DR 3.4.2023 12"));
    assert!(!should_ignore_line(&t, "Dr. Siti Mastura Binti Muhammad (Kepala Batas)"));
    assert!(!should_ignore_line(&t, ""));
    assert!(!t.matches_page_artifact("DR."));
}

#[test]
fn list_item_start_is_digits_period_white_space_at_the_start() {
    let t = tables();
    assert!(is_start_of_new_person(&t, "1. Tuan Bob"));
    assert!(is_start_of_new_person(&t, "178. Tuan Hassan Bin Saad (Baling)"));
    assert!(is_start_of_new_person(&t, "2.\tTuan"));
    assert!(!is_start_of_new_person(&t, "1.Tuan Bob"));
    assert!(!is_start_of_new_person(&t, " 1. Tuan Bob"));
    assert!(!is_start_of_new_person(&t, "Tuan 1. Bob"));
    assert!(!is_start_of_new_person(&t, "1 Tuan Bob"));
    assert!(!is_start_of_new_person(&t, "1."));
    assert!(!is_start_of_new_person(&t, ""));
}

#[test]
fn name_words_leave_out_the_list_marker() {
    let words = get_name_words(
        &tables(),
        "1. Yang di-Pertua Dewan Rakyat, YB. Dato’ Johari bin Abdul",
    );
    assert_eq!(
        words,
        strings(&["Yang", "di-Pertua", "Dewan", "Rakyat,", "YB.", "Dato’", "Johari", "bin", "Abdul"])
    );
}

#[test]
fn name_words_take_the_first_span_only() {
    let t = tables();
    assert_eq!(get_name_words(&t, "Tuan Ali; Tuan Bob"), strings(&["Tuan", "Ali"]));
    assert_eq!(get_name_words(&t, "x: (Sungai) y: Tuan"), strings(&["(Sungai)", "y"]));
}

#[test]
fn name_words_accept_all_characters_of_a_name() {
    let t = tables();
    assert_eq!(
        get_name_words(&t, "12. Datuk Haji Ahmad Amzad Bin Mohamed @ Hashim (Kuala Terengganu)"),
        strings(&[
            "Datuk", "Haji", "Ahmad", "Amzad", "Bin", "Mohamed", "@", "Hashim", "(Kuala",
            "Terengganu)"
        ])
    );
    assert_eq!(
        get_name_words(&t, "Tuan Sivakumar A/L Varatharaju Naidu"),
        strings(&["Tuan", "Sivakumar", "A/L", "Varatharaju", "Naidu"])
    );
    assert_eq!(get_name_words(&t, "Dato' Sri"), strings(&["Dato'", "Sri"]));
}

#[test]
fn name_words_begin_at_an_uppercase_letter_or_open_parenthesis() {
    let t = tables();
    assert_eq!(get_name_words(&t, "bin Abu (Sungai)"), strings(&["Abu", "(Sungai)"]));
    assert_eq!(get_name_words(&t, "dan (Sungai) Besar"), strings(&["(Sungai)", "Besar"]));
    assert_eq!(get_name_words(&t, "x) y"), Vec::<String>::new());
    assert_eq!(get_name_words(&t, "x) Yusof"), strings(&["Yusof"]));
    assert_eq!(get_name_words(&t, ") (Sungai)"), strings(&["(Sungai)"]));
}

#[test]
fn name_words_are_parts_of_the_line() {
    let t = tables();
    let line = "12. Menteri Pertanian, Datuk Seri Mohamad (Kota Raja); dan lain-lain";
    let words = get_name_words(&t, line);
    assert_eq!(
        words,
        strings(&["Menteri", "Pertanian,", "Datuk", "Seri", "Mohamad", "(Kota", "Raja)"])
    );
    for word in &words {
        assert!(line.contains(word.as_str()), "{word:?}");
    }
    let span = t.name_span(line).unwrap();
    assert_eq!(span, "Menteri Pertanian, Datuk Seri Mohamad (Kota Raja)");
    assert!(line.contains(&span));
}

#[test]
fn name_words_collapse_runs_of_spaces() {
    assert_eq!(get_name_words(&tables(), "Tuan   Bob  "), strings(&["Tuan", "Bob"]));
}

#[test]
fn name_words_are_none_without_a_span() {
    let t = tables();
    assert_eq!(get_name_words(&t, "ahli-ahli yang hadir:"), Vec::<String>::new());
    assert_eq!(get_name_words(&t, "1. 2. 3."), Vec::<String>::new());
    assert_eq!(get_name_words(&t, "A"), Vec::<String>::new());
    assert_eq!(get_name_words(&t, ""), Vec::<String>::new());
}

#[test]
fn name_span_is_the_matched_text() {
    let t = tables();
    assert_eq!(t.name_span("1. Tuan Bob; x"), Some("Tuan Bob".to_string()));
    assert_eq!(t.name_span("1. 2."), None);
}

#[test]
fn words_of_span_cuts_a_span_or_gives_nothing() {
    assert_eq!(words_of_span(Some("Tuan  Bob ".to_string())), strings(&["Tuan", "Bob"]));
    assert_eq!(words_of_span(Some(" ".to_string())), Vec::<String>::new());
    assert_eq!(words_of_span(None), Vec::<String>::new());
}

#[test]
fn classify_reports_every_signal() {
    let t = tables();
    assert_eq!(
        classify(&t, "Ahli-ahli Yang Hadir:"),
        LineClassification {
            is_attendees_header: true,
            is_absentees_header: false,
            is_terminator: false,
            is_ignorable: true,
            is_list_item_start: false,
        }
    );
    assert_eq!(
        classify(&t, "Ahli-Ahli Yang Tidak Hadir:"),
        LineClassification {
            is_attendees_header: false,
            is_absentees_header: true,
            is_terminator: false,
            is_ignorable: true,
            is_list_item_start: false,
        }
    );
    assert_eq!(
        classify(&t, "1. Tuan Bob"),
        LineClassification {
            is_attendees_header: false,
            is_absentees_header: false,
            is_terminator: false,
            is_ignorable: false,
            is_list_item_start: true,
        }
    );
    assert_eq!(
        classify(&t, "DR. 3.4.2023 12"),
        LineClassification {
            is_attendees_header: false,
            is_absentees_header: false,
            is_terminator: false,
            is_ignorable: true,
            is_list_item_start: false,
        }
    );
}

#[test]
fn classify_signals_do_not_exclude_one_another() {
    let signals = classify(
        &tables(),
        "1. ahli-ahli yang hadir: ahli-ahli yang tidak hadir: MALAYSIA DR. 1.1.2023 1",
    );
    assert_eq!(
        signals,
        LineClassification {
            is_attendees_header: true,
            is_absentees_header: true,
            is_terminator: true,
            is_ignorable: true,
            is_list_item_start: true,
        }
    );
}
