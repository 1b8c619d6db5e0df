use xpui_rp2040::gate::{documented_names, gate_stages, parse_mode, verdict, Mode, Stage, Verdict};

#[test]
fn the_argument_names_a_mode_or_none() {
    assert_eq!(parse_mode(None), Some(Mode::Check));
    assert_eq!(parse_mode(Some(&"check".to_string())), Some(Mode::Check));
    assert_eq!(parse_mode(Some(&"fix".to_string())), Some(Mode::Fix));
    assert_eq!(parse_mode(Some(&"all".to_string())), Some(Mode::All));
    assert_eq!(parse_mode(Some(&"fx".to_string())), None);
    assert_eq!(parse_mode(Some(&"".to_string())), None);
    assert!(Mode::Fix.fix() && !Mode::Fix.everything());
    assert!(Mode::All.everything() && !Mode::All.fix());
    assert!(!Mode::Check.fix() && !Mode::Check.everything());
}

#[test]
fn a_plain_run_makes_eighteen_checks_and_documents_them_last() {
    let s = gate_stages(false);
    assert_eq!(s.len(), 18);
    assert_eq!(s[0], Stage::Format);
    assert_eq!(*s.last().unwrap(), Stage::ChecksDocumented);
    assert!(!s.contains(&Stage::BothFirmwareImagesLink));
}

#[test]
fn everything_links_the_images_before_the_last_check() {
    let s = gate_stages(true);
    assert_eq!(s.len(), 19);
    assert_eq!(s[17], Stage::BothFirmwareImagesLink);
    assert_eq!(s[18], Stage::ChecksDocumented);
}

#[test]
fn the_names_documented_are_every_check_before_the_last() {
    let s = gate_stages(false);
    let names = documented_names(&s);
    assert_eq!(names.len(), 17);
    assert_eq!(names[0], "format");
    assert_eq!(names[8], "lint");
    assert_eq!(names[16], "comment narration");
    let all: Vec<&str> = s.iter().map(|x| x.name()).collect();
    let mut unique = all.clone();
    unique.sort();
    unique.dedup();
    assert_eq!(unique.len(), all.len());
}

#[test]
fn the_answer_is_success_only_when_nothing_failed() {
    assert_eq!(verdict(0, true), Verdict::EverythingPassed);
    assert_eq!(verdict(0, false), Verdict::ChecksPassed);
    assert_eq!(verdict(3, true), Verdict::Failed(3));
}
