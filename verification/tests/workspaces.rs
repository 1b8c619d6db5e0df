use xpui_rp2040::workspaces::{
    bare_metal, bare_metal_targets, docs_test, firmware_links, gate_tests, lint, formatting,
    nested_clippy_agrees, nested_clippy_files, rustdoc_links, CheckPlan, ClippyVerdict, Drift,
    Outcome, TargetStatus, Tool,
};

const HOST: &str = "x86_64-unknown-linux-gnu";

fn runs(p: &CheckPlan) -> Vec<(Tool, Vec<String>)> {
    p.runs.iter().map(|i| (i.tool, i.args.clone())).collect()
}

fn strings(parts: &[&str]) -> Vec<String> {
    parts.iter().map(|s| s.to_string()).collect()
}

fn notes(p: &CheckPlan) -> Vec<String> {
    match &p.outcome {
        Outcome::Notes(n) => n.clone(),
        other => panic!("not notes: {:?}", other),
    }
}

fn board(installed: bool) -> Vec<TargetStatus> {
    bare_metal_targets()
        .into_iter()
        .map(|(triple, required)| TargetStatus {
            triple,
            required,
            installed,
        })
        .collect()
}

#[test]
fn the_board_target_is_required() {
    assert_eq!(
        bare_metal_targets(),
        vec![("thumbv6m-none-eabi".to_string(), true)]
    );
}

#[test]
fn docs_test_runs_the_doctests_on_the_host() {
    let p = docs_test(&HOST.to_string());
    assert_eq!(
        runs(&p),
        vec![(
            Tool::Cargo,
            strings(&[
                "test",
                "--manifest-path",
                "docs-test/Cargo.toml",
                "--doc",
                "--target",
                HOST
            ])
        )]
    );
    assert!(matches!(p.outcome, Outcome::LastOutput));
}

#[test]
fn gate_tests_runs_xtasks_tests_on_the_host() {
    let p = gate_tests(&HOST.to_string());
    assert_eq!(
        runs(&p),
        vec![(
            Tool::Cargo,
            strings(&["test", "--manifest-path", "xtask/Cargo.toml", "--target", HOST])
        )]
    );
    assert!(matches!(p.outcome, Outcome::LastOutput));
}

#[test]
fn rustdoc_links_covers_the_board_and_both_host_workspaces() {
    let p = rustdoc_links(true, &HOST.to_string());
    assert_eq!(
        runs(&p),
        vec![
            (
                Tool::Rustdoc,
                strings(&["--release", "--target", "thumbv6m-none-eabi"])
            ),
            (
                Tool::Rustdoc,
                strings(&["--manifest-path", "docs-test/Cargo.toml", "--target", HOST])
            ),
            (
                Tool::Rustdoc,
                strings(&["--manifest-path", "xtask/Cargo.toml", "--target", HOST])
            ),
        ]
    );
    assert_eq!(
        notes(&p).join(", "),
        "thumbv6m-none-eabi, docs-test/Cargo.toml on the host, xtask/Cargo.toml on the host"
    );
}

#[test]
fn rustdoc_links_skips_a_missing_board_target() {
    let p = rustdoc_links(false, &HOST.to_string());
    assert_eq!(p.runs.len(), 2);
    assert_eq!(
        notes(&p)[0],
        "thumbv6m-none-eabi SKIPPED — rustup target add thumbv6m-none-eabi"
    );
}

#[test]
fn lint_covers_the_board_then_the_host() {
    let p = lint(&board(true), &HOST.to_string());
    let expected_host = |m: &str| {
        strings(&[
            "clippy",
            "--manifest-path",
            m,
            "--all-targets",
            "--target",
            HOST,
            "--",
            "-D",
            "warnings",
        ])
    };
    assert_eq!(
        runs(&p),
        vec![
            (
                Tool::Cargo,
                strings(&[
                    "clippy",
                    "--release",
                    "--all-targets",
                    "--target",
                    "thumbv6m-none-eabi",
                    "--",
                    "-D",
                    "warnings"
                ])
            ),
            (Tool::Cargo, expected_host("docs-test/Cargo.toml")),
            (Tool::Cargo, expected_host("xtask/Cargo.toml")),
        ]
    );
    assert_eq!(
        notes(&p).join(", "),
        "thumbv6m-none-eabi, docs-test on the host, xtask on the host"
    );
}

#[test]
fn lint_fails_without_the_required_target_and_runs_nothing() {
    let p = lint(&board(false), &HOST.to_string());
    assert!(p.runs.is_empty());
    match p.outcome {
        Outcome::Fail(m) => assert_eq!(
            m,
            "thumbv6m-none-eabi is not installed, and it is the only gate that reaches\n\
             this repository's no_std paths. `rustup target add thumbv6m-none-eabi`"
        ),
        other => panic!("{:?}", other),
    }
}

#[test]
fn an_optional_missing_target_is_noted_as_skipped() {
    let targets = vec![
        TargetStatus {
            triple: "riscv32imac-unknown-none-elf".to_string(),
            required: false,
            installed: false,
        },
        TargetStatus {
            triple: "thumbv6m-none-eabi".to_string(),
            required: true,
            installed: true,
        },
    ];
    let (r, o) = bare_metal(&targets);
    assert_eq!(r.len(), 1);
    assert_eq!(r[0].args[4], "thumbv6m-none-eabi");
    assert_eq!(
        o.unwrap(),
        strings(&[
            "riscv32imac-unknown-none-elf SKIPPED — rustup target add riscv32imac-unknown-none-elf",
            "thumbv6m-none-eabi"
        ])
    );
}

#[test]
fn a_later_missing_required_target_fails_after_the_earlier_runs() {
    let targets = vec![
        TargetStatus {
            triple: "a".to_string(),
            required: true,
            installed: true,
        },
        TargetStatus {
            triple: "b".to_string(),
            required: true,
            installed: false,
        },
    ];
    let (r, o) = bare_metal(&targets);
    assert_eq!(r.len(), 1);
    assert!(o.unwrap_err().starts_with("b is not installed"));
}

#[test]
fn firmware_links_builds_both_images() {
    let p = firmware_links(true);
    let build = |b: &str| {
        strings(&[
            "build",
            "--release",
            "--bin",
            b,
            "--target",
            "thumbv6m-none-eabi",
        ])
    };
    assert_eq!(
        runs(&p),
        vec![
            (Tool::Cargo, build("badger2040")),
            (Tool::Cargo, build("tufty2040"))
        ]
    );
    assert_eq!(notes(&p), strings(&["badger2040, tufty2040"]));
    let q = firmware_links(false);
    assert!(q.runs.is_empty());
    assert_eq!(
        notes(&q),
        strings(&["skipped: rustup target add thumbv6m-none-eabi"])
    );
}

#[test]
fn format_checks_three_workspaces_or_fixes_them() {
    let fmt = |m: &str, check: bool| {
        let mut v = strings(&["fmt", "--manifest-path", m, "--all"]);
        if check {
            v.push("--check".to_string());
        }
        (Tool::Cargo, v)
    };
    let p = formatting(false);
    assert_eq!(
        runs(&p),
        vec![
            fmt("Cargo.toml", true),
            fmt("docs-test/Cargo.toml", true),
            fmt("xtask/Cargo.toml", true)
        ]
    );
    assert_eq!(notes(&p), strings(&["the firmware, docs-test and xtask"]));
    let q = formatting(true);
    assert_eq!(
        runs(&q),
        vec![
            fmt("Cargo.toml", false),
            fmt("docs-test/Cargo.toml", false),
            fmt("xtask/Cargo.toml", false)
        ]
    );
}

fn nested(texts: &[Option<&str>]) -> Vec<(String, Option<String>)> {
    nested_clippy_files()
        .into_iter()
        .zip(texts.iter())
        .map(|(p, t)| (p, t.map(str::to_string)))
        .collect()
}

const ROOT: &str = "# organisation rules\nmsrv = \"1.85\"\n";

#[test]
fn nested_configs_agree_when_their_settings_match() {
    let v = nested_clippy_agrees(
        ROOT,
        &nested(&[Some("msrv = \"1.85\""), Some("  msrv = \"1.85\"  \n# kept\n")]),
    );
    match v {
        ClippyVerdict::Agree { settings, checked } => {
            assert_eq!(settings, 1);
            assert_eq!(
                checked,
                strings(&["docs-test/clippy.toml", "xtask/clippy.toml"])
            );
        }
        other => panic!("{:?}", other),
    }
}

#[test]
fn nested_configs_drift_when_missing_or_different() {
    let v = nested_clippy_agrees(ROOT, &nested(&[None, Some("msrv = \"1.80\"")]));
    match v {
        ClippyVerdict::Drifted(d) => {
            assert_eq!(d.len(), 2);
            assert!(matches!(&d[0], Drift::Missing(p) if p == "docs-test/clippy.toml"));
            assert!(matches!(&d[1], Drift::Differs(p) if p == "xtask/clippy.toml"));
        }
        other => panic!("{:?}", other),
    }
}

#[test]
fn a_root_that_sets_nothing_compares_nothing() {
    let v = nested_clippy_agrees("# nothing\n\n", &nested(&[None, None]));
    assert!(matches!(v, ClippyVerdict::SetsNothing));
}
