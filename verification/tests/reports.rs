use xpui_rp2040::text::{decimal_string, join};
use xpui_rp2040::workspaces::{
    clippy_report, docs_test, firmware_links, nested_clippy_start, plan_step, CheckPlan,
    ClippyStart, ClippyVerdict, Drift, Outcome, PlanStep,
};

fn strings(parts: &[&str]) -> Vec<String> {
    parts.iter().map(|s| s.to_string()).collect()
}

#[test]
fn numbers_print_in_decimal() {
    assert_eq!(decimal_string(0), "0");
    assert_eq!(decimal_string(7), "7");
    assert_eq!(decimal_string(10), "10");
    assert_eq!(decimal_string(65536), "65536");
    assert_eq!(decimal_string(usize::MAX), usize::MAX.to_string());
}

#[test]
fn lists_join_with_their_separator() {
    assert_eq!(join(&strings(&[]), ", "), "");
    assert_eq!(join(&strings(&["a"]), ", "), "a");
    assert_eq!(join(&strings(&["a", "b", "c"]), " and "), "a and b and c");
}

#[test]
fn a_root_that_sets_nothing_needs_no_nested_file() {
    assert!(matches!(
        nested_clippy_start("# nothing set yet\n\n   \n"),
        ClippyStart::SetsNothing
    ));
    match nested_clippy_start("msrv = \"1.85\"\n") {
        ClippyStart::ReadNested(files) => assert_eq!(
            files,
            strings(&["docs-test/clippy.toml", "xtask/clippy.toml"])
        ),
        other => panic!("{:?}", other),
    }
}

#[test]
fn the_comparison_reports_agreement_and_drift() {
    assert_eq!(
        clippy_report(&ClippyVerdict::SetsNothing),
        Err("clippy.toml sets nothing, so this would compare nothing".to_string())
    );
    assert_eq!(
        clippy_report(&ClippyVerdict::Agree {
            settings: 2,
            checked: strings(&["docs-test/clippy.toml", "xtask/clippy.toml"])
        }),
        Ok("2 setting(s), in docs-test/clippy.toml and xtask/clippy.toml".to_string())
    );
    assert_eq!(
        clippy_report(&ClippyVerdict::Drifted(vec![
            Drift::Missing("docs-test/clippy.toml".to_string()),
            Drift::Differs("xtask/clippy.toml".to_string()),
        ])),
        Err("  docs-test/clippy.toml is missing, so that workspace lints under cargo's defaults\n  \
             xtask/clippy.toml sets different values from clippy.toml\n\n\
             Each nested workspace needs the root file's values, or it lints\n\
             under different rules from the firmware one directory up."
            .to_string())
    );
}

fn drive(plan: &CheckPlan, results: &[Result<&str, &str>]) -> (usize, Result<String, String>) {
    let mut done = 0;
    let mut last: Option<Result<String, String>> = None;
    let mut made = 0;
    loop {
        match plan_step(plan, done, &last) {
            PlanStep::Run(i) => {
                assert_eq!(i, made);
                last = Some(
                    results[i]
                        .map(str::to_string)
                        .map_err(str::to_string),
                );
                made += 1;
                done = i + 1;
            }
            PlanStep::Finish(answer) => return (made, answer),
        }
    }
}

#[test]
fn a_check_runs_in_order_and_stops_at_the_first_failure() {
    let plan = firmware_links(true);
    assert_eq!(
        drive(&plan, &[Ok(""), Ok("")]),
        (2, Ok("badger2040, tufty2040".to_string()))
    );
    assert_eq!(
        drive(&plan, &[Err("no linker"), Ok("")]),
        (1, Err("no linker".to_string()))
    );
}

#[test]
fn a_check_that_reports_its_output_reports_the_last_one() {
    let plan = docs_test(&"x86_64-unknown-linux-gnu".to_string());
    assert_eq!(drive(&plan, &[Ok("3 passed")]), (1, Ok("3 passed".to_string())));
    let failing = CheckPlan {
        runs: Vec::new(),
        outcome: Outcome::Fail("missing".to_string()),
    };
    assert_eq!(drive(&failing, &[]), (0, Err("missing".to_string())));
    let nothing = CheckPlan {
        runs: Vec::new(),
        outcome: Outcome::LastOutput,
    };
    assert_eq!(drive(&nothing, &[]), (0, Ok(String::new())));
}
