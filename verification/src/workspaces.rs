//! What the repository's build-and-test script runs, as plans: the cargo invocations each
//! check makes, in order, and what the check reports when all of them pass.
//!
//! A plan is run from the front; the first invocation that fails is the
//! check's failure and nothing after it runs. Whether a target is installed
//! and what the host triple is are asked of the machine before planning.

use vstd::prelude::*;
use vstd::string::StringExecFns;

use crate::settings::{
    all_one_line, apply_edits, law_text_padding_edits_keep_settings, padding_edits, same_settings,
    settings, settings_of, text_of, views,
};
use crate::text::{decimal, decimal_string, join, joined};

verus! {

/// The one bare-metal target, and the only one this firmware compiles for.
pub open spec fn board_triple() -> Seq<char> {
    "thumbv6m-none-eabi"@
}

/// Which program an invocation runs.
#[derive(Clone, Copy, Debug, PartialEq, Eq, Structural)]
pub enum Tool {
    /// `cargo` with these arguments.
    Cargo,
    /// `cargo rustdoc` with these arguments, warnings denied.
    Rustdoc,
}

/// One run of a tool.
#[derive(Clone, Debug)]
pub struct Invocation {
    /// The tool.
    pub tool: Tool,
    /// Its arguments, in order.
    pub args: Vec<String>,
}

/// What a check reports once every invocation has passed.
#[derive(Clone, Debug)]
pub enum Outcome {
    /// Success, with these notes, joined by `, ` when printed.
    Notes(Vec<String>),
    /// Success, with what the last invocation printed.
    LastOutput,
    /// Failure, with this message.
    Fail(String),
}

/// A check: the invocations it runs, in order, and its outcome if they all
/// pass.
#[derive(Clone, Debug)]
pub struct CheckPlan {
    /// The invocations, in order.
    pub runs: Vec<Invocation>,
    /// What the check reports when every one passes.
    pub outcome: Outcome,
}

/// An invocation, as a tool and its arguments' views.
pub open spec fn inv_view(i: Invocation) -> (Tool, Seq<Seq<char>>) {
    (i.tool, views(i.args@))
}

/// A plan's invocations, as views.
pub open spec fn runs_view(p: CheckPlan) -> Seq<(Tool, Seq<Seq<char>>)> {
    p.runs@.map_values(|i: Invocation| inv_view(i))
}

/// What a plan reports, as a view: the notes, or the failure's message.
pub open spec fn outcome_view(o: Outcome) -> Result<Option<Seq<Seq<char>>>, Seq<char>> {
    match o {
        Outcome::Notes(n) => Ok(Some(views(n@))),
        Outcome::LastOutput => Ok(None),
        Outcome::Fail(m) => Err(m@),
    }
}

fn push_arg(v: &mut Vec<String>, s: &str)
    ensures
        views(final(v)@) == views(old(v)@).push(s@),
{
    let ghost before = v@;
    v.push(String::from_str(s));
    proof {
        assert(views(v@) =~= views(before).push(s@));
    }
}

fn push_string(v: &mut Vec<String>, s: String)
    ensures
        views(final(v)@) == views(old(v)@).push(s@),
{
    let ghost before = v@;
    let ghost sv = s@;
    v.push(s);
    proof {
        assert(views(v@) =~= views(before).push(sv));
    }
}

fn push_run(runs: &mut Vec<Invocation>, tool: Tool, args: Vec<String>)
    ensures
        final(runs)@.map_values(|i: Invocation| inv_view(i)) == old(runs)@.map_values(
            |i: Invocation| inv_view(i),
        ).push((tool, views(args@))),
{
    let ghost before = runs@;
    let ghost a = views(args@);
    runs.push(Invocation { tool, args });
    proof {
        assert(runs@.map_values(|i: Invocation| inv_view(i)) =~= before.map_values(
            |i: Invocation| inv_view(i),
        ).push((tool, a)));
    }
}

/// `cargo clippy` for `triple`, release, every target, warnings denied.
pub open spec fn board_clippy_args(triple: Seq<char>) -> Seq<Seq<char>> {
    seq![
        "clippy"@,
        "--release"@,
        "--all-targets"@,
        "--target"@,
        triple,
        "--"@,
        "-D"@,
        "warnings"@,
    ]
}

/// `cargo clippy` for the workspace at `manifest`, on the host.
pub open spec fn host_clippy_args(manifest: Seq<char>, host: Seq<char>) -> Seq<Seq<char>> {
    seq![
        "clippy"@,
        "--manifest-path"@,
        manifest,
        "--all-targets"@,
        "--target"@,
        host,
        "--"@,
        "-D"@,
        "warnings"@,
    ]
}

/// What a required target that is not installed fails with.
pub open spec fn missing_target_message(triple: Seq<char>) -> Seq<char> {
    triple + " is not installed, and it is the only gate that reaches\nthis repository's no_std paths. `rustup target add "@
        + triple + "`"@
}

/// What an optional target that is not installed notes.
pub open spec fn skipped_target_note(triple: Seq<char>) -> Seq<char> {
    triple + " SKIPPED — rustup target add "@ + triple
}

/// A bare-metal target, and whether the machine has it.
#[derive(Clone, Debug)]
pub struct TargetStatus {
    /// The target triple.
    pub triple: String,
    /// Whether the script fails without it.
    pub required: bool,
    /// Whether `rustup` has it installed.
    pub installed: bool,
}

/// Clippy on each bare-metal target, from the front: an installed one is
/// linted and noted; a missing optional one is noted as skipped; a missing
/// required one fails the check there.
pub open spec fn bare_metal_spec(targets: Seq<TargetStatus>) -> (
    Seq<(Tool, Seq<Seq<char>>)>,
    Result<Seq<Seq<char>>, Seq<char>>,
)
    decreases targets.len(),
{
    if targets.len() == 0 {
        (Seq::empty(), Ok(Seq::empty()))
    } else {
        let t = targets[0];
        let (runs, rest) = bare_metal_spec(targets.drop_first());
        if !t.installed {
            if t.required {
                (Seq::empty(), Err(missing_target_message(t.triple@)))
            } else {
                (
                    runs,
                    match rest {
                        Ok(notes) => Ok(seq![skipped_target_note(t.triple@)] + notes),
                        Err(m) => Err(m),
                    },
                )
            }
        } else {
            (
                seq![(Tool::Cargo, board_clippy_args(t.triple@))] + runs,
                match rest {
                    Ok(notes) => Ok(seq![t.triple@] + notes),
                    Err(m) => Err(m),
                },
            )
        }
    }
}

/// The bare-metal targets the script lints: the board's, and it is required.
pub fn bare_metal_targets() -> (t: Vec<(String, bool)>)
    ensures
        t@.len() == 1,
        t@[0].0@ == board_triple(),
        t@[0].1,
{
    let mut t: Vec<(String, bool)> = Vec::new();
    t.push((String::from_str("thumbv6m-none-eabi"), true));
    t
}

fn board_clippy(triple: &String) -> (args: Vec<String>)
    ensures
        views(args@) == board_clippy_args(triple@),
{
    let mut a: Vec<String> = Vec::new();
    push_arg(&mut a, "clippy");
    push_arg(&mut a, "--release");
    push_arg(&mut a, "--all-targets");
    push_arg(&mut a, "--target");
    push_arg(&mut a, triple.as_str());
    push_arg(&mut a, "--");
    push_arg(&mut a, "-D");
    push_arg(&mut a, "warnings");
    a
}

fn host_clippy(manifest: &str, host: &String) -> (args: Vec<String>)
    ensures
        views(args@) == host_clippy_args(manifest@, host@),
{
    let mut a: Vec<String> = Vec::new();
    push_arg(&mut a, "clippy");
    push_arg(&mut a, "--manifest-path");
    push_arg(&mut a, manifest);
    push_arg(&mut a, "--all-targets");
    push_arg(&mut a, "--target");
    push_arg(&mut a, host.as_str());
    push_arg(&mut a, "--");
    push_arg(&mut a, "-D");
    push_arg(&mut a, "warnings");
    a
}

/// Clippy on each bare-metal target, with warnings as errors: the
/// invocations, and the notes or the failure.
pub fn bare_metal(targets: &Vec<TargetStatus>) -> (r: (Vec<Invocation>, Result<Vec<String>, String>))
    ensures
        r.0@.map_values(|i: Invocation| inv_view(i)) == bare_metal_spec(targets@).0,
        match (r.1, bare_metal_spec(targets@).1) {
            (Ok(notes), Ok(expected)) => views(notes@) == expected,
            (Err(m), Err(expected)) => m@ == expected,
            _ => false,
        },
{
    let mut runs: Vec<Invocation> = Vec::new();
    let mut notes: Vec<String> = Vec::new();
    let mut i: usize = 0;
    proof {
        assert(targets@.skip(0) =~= targets@);
        assert(runs@.map_values(|i: Invocation| inv_view(i)) =~= Seq::<
            (Tool, Seq<Seq<char>>),
        >::empty());
        assert(views(notes@) =~= Seq::<Seq<char>>::empty());
    }
    while i < targets.len()
        invariant
            i <= targets@.len(),
            bare_metal_spec(targets@) == {
                let (r2, o2) = bare_metal_spec(targets@.skip(i as int));
                (
                    runs@.map_values(|i: Invocation| inv_view(i)) + r2,
                    match o2 {
                        Ok(n2) => Ok(views(notes@) + n2),
                        Err(m) => Err(m),
                    },
                )
            },
        decreases targets@.len() - i,
    {
        let ghost rest = targets@.skip(i as int);
        proof {
            assert(rest.drop_first() =~= targets@.skip(i + 1));
            assert(rest[0] == targets@[i as int]);
        }
        let t = &targets[i];
        if !t.installed {
            if t.required {
                let mut m = String::from_str(t.triple.as_str());
                m.append(
                    " is not installed, and it is the only gate that reaches\nthis repository's no_std paths. `rustup target add ",
                );
                m.append(t.triple.as_str());
                m.append("`");
                proof {
                    assert(m@ == missing_target_message(t.triple@));
                    assert(runs@.map_values(|i: Invocation| inv_view(i)) + Seq::<(Tool, Seq<Seq<char>>)>::empty() =~= runs@.map_values(|i: Invocation| inv_view(i)));
                }
                return (runs, Err(m));
            } else {
                let mut note = String::from_str(t.triple.as_str());
                note.append(" SKIPPED — rustup target add ");
                note.append(t.triple.as_str());
                let ghost before = views(notes@);
                push_string(&mut notes, note);
                proof {
                    let (r3, o3) = bare_metal_spec(targets@.skip(i + 1));
                    match o3 {
                        Ok(n3) => {
                            assert(before + (seq![skipped_target_note(t.triple@)] + n3) =~= views(notes@) + n3);
                        },
                        Err(_) => {},
                    }
                }
            }
        } else {
            let ghost rb = runs@.map_values(|i: Invocation| inv_view(i));
            let ghost nb = views(notes@);
            push_run(&mut runs, Tool::Cargo, board_clippy(&t.triple));
            push_string(&mut notes, t.triple.clone());
            proof {
                let (r3, o3) = bare_metal_spec(targets@.skip(i + 1));
                assert(rb + (seq![(Tool::Cargo, board_clippy_args(t.triple@))] + r3) =~= runs@.map_values(|i: Invocation| inv_view(i)) + r3);
                match o3 {
                    Ok(n3) => {
                        assert(nb + (seq![t.triple@] + n3) =~= views(notes@) + n3);
                    },
                    Err(_) => {},
                }
            }
        }
        i = i + 1;
    }
    proof {
        assert(targets@.skip(i as int) =~= Seq::<TargetStatus>::empty());
        assert(runs@.map_values(|i: Invocation| inv_view(i)) + Seq::<(Tool, Seq<Seq<char>>)>::empty() =~= runs@.map_values(|i: Invocation| inv_view(i)));
        assert(views(notes@) + Seq::<Seq<char>>::empty() =~= views(notes@));
    }
    (runs, Ok(notes))
}


/// Clippy on the board, then on the two host workspaces: `docs-test/` and
/// `xtask/`, each on the host triple. A missing required target fails the
/// check before anything on the host is linted.
pub open spec fn lint_spec(targets: Seq<TargetStatus>, host: Seq<char>) -> (
    Seq<(Tool, Seq<Seq<char>>)>,
    Result<Option<Seq<Seq<char>>>, Seq<char>>,
) {
    let (runs, o) = bare_metal_spec(targets);
    match o {
        Err(m) => (runs, Err(m)),
        Ok(notes) => (
            runs + seq![
                (Tool::Cargo, host_clippy_args("docs-test/Cargo.toml"@, host)),
                (Tool::Cargo, host_clippy_args("xtask/Cargo.toml"@, host)),
            ],
            Ok(Some(notes + seq!["docs-test on the host"@, "xtask on the host"@])),
        ),
    }
}

/// The lint check: clippy for the board, and for the two workspaces that
/// are built on the host, warnings as errors.
pub fn lint(targets: &Vec<TargetStatus>, host: &String) -> (p: CheckPlan)
    ensures
        (runs_view(p), outcome_view(p.outcome)) == lint_spec(targets@, host@),
{
    let (mut runs, bare) = bare_metal(targets);
    match bare {
        Err(m) => CheckPlan { runs, outcome: Outcome::Fail(m) },
        Ok(mut notes) => {
            push_run(&mut runs, Tool::Cargo, host_clippy("docs-test/Cargo.toml", host));
            push_run(&mut runs, Tool::Cargo, host_clippy("xtask/Cargo.toml", host));
            let ghost nb = views(notes@);
            push_arg(&mut notes, "docs-test on the host");
            push_arg(&mut notes, "xtask on the host");
            let p = CheckPlan { runs, outcome: Outcome::Notes(notes) };
            proof {
                let (r0, _) = bare_metal_spec(targets@);
                assert(runs_view(p) =~= lint_spec(targets@, host@).0);
                assert(views(notes@) =~= nb + seq!["docs-test on the host"@, "xtask on the host"@]);
            }
            p
        },
    }
}

/// `cargo rustdoc` for the board, release, if its target is installed.
pub open spec fn board_rustdoc_args() -> Seq<Seq<char>> {
    seq!["--release"@, "--target"@, board_triple()]
}

/// `cargo rustdoc` for the workspace at `manifest`, on the host.
pub open spec fn host_rustdoc_args(manifest: Seq<char>, host: Seq<char>) -> Seq<Seq<char>> {
    seq!["--manifest-path"@, manifest, "--target"@, host]
}

/// Rustdoc for the board when its target is installed, noted as skipped
/// when it is not, then for `docs-test/` and `xtask/` on the host.
pub open spec fn rustdoc_links_spec(installed: bool, host: Seq<char>) -> (
    Seq<(Tool, Seq<Seq<char>>)>,
    Result<Option<Seq<Seq<char>>>, Seq<char>>,
) {
    let board: Seq<(Tool, Seq<Seq<char>>)> = if installed {
        seq![(Tool::Rustdoc, board_rustdoc_args())]
    } else {
        Seq::empty()
    };
    (
        board + seq![
            (Tool::Rustdoc, host_rustdoc_args("docs-test/Cargo.toml"@, host)),
            (Tool::Rustdoc, host_rustdoc_args("xtask/Cargo.toml"@, host)),
        ],
        Ok(
            Some(
                seq![
                    if installed {
                        board_triple()
                    } else {
                        skipped_target_note(board_triple())
                    },
                    "docs-test/Cargo.toml on the host"@,
                    "xtask/Cargo.toml on the host"@,
                ],
            ),
        ),
    )
}

fn host_rustdoc(manifest: &str, host: &String) -> (args: Vec<String>)
    ensures
        views(args@) == host_rustdoc_args(manifest@, host@),
{
    let mut a: Vec<String> = Vec::new();
    push_arg(&mut a, "--manifest-path");
    push_arg(&mut a, manifest);
    push_arg(&mut a, "--target");
    push_arg(&mut a, host.as_str());
    a
}

/// The rustdoc check, for the board and for the two workspaces beside the
/// root. A doc comment only the board's build reads is only checked there.
pub fn rustdoc_links(board_installed: bool, host: &String) -> (p: CheckPlan)
    ensures
        (runs_view(p), outcome_view(p.outcome)) == rustdoc_links_spec(board_installed, host@),
{
    let mut runs: Vec<Invocation> = Vec::new();
    let mut notes: Vec<String> = Vec::new();
    let ghost r0 = runs@.map_values(|i: Invocation| inv_view(i));
    let ghost n0 = views(notes@);
    proof {
        assert(r0 =~= Seq::<(Tool, Seq<Seq<char>>)>::empty());
        assert(n0 =~= Seq::<Seq<char>>::empty());
    }
    if board_installed {
        let mut a: Vec<String> = Vec::new();
        push_arg(&mut a, "--release");
        push_arg(&mut a, "--target");
        push_arg(&mut a, "thumbv6m-none-eabi");
        proof {
            assert(views(a@) =~= board_rustdoc_args());
        }
        push_run(&mut runs, Tool::Rustdoc, a);
        push_arg(&mut notes, "thumbv6m-none-eabi");
        proof {
            assert(runs@.map_values(|i: Invocation| inv_view(i)) =~= seq![
                (Tool::Rustdoc, board_rustdoc_args()),
            ]);
        }
    } else {
        push_arg(&mut notes, "thumbv6m-none-eabi SKIPPED — rustup target add thumbv6m-none-eabi");
        proof {
            reveal_strlit("thumbv6m-none-eabi SKIPPED — rustup target add thumbv6m-none-eabi");
            reveal_strlit("thumbv6m-none-eabi");
            reveal_strlit(" SKIPPED — rustup target add ");
            assert("thumbv6m-none-eabi SKIPPED — rustup target add thumbv6m-none-eabi"@ =~= skipped_target_note(board_triple()));
        }
    }
    let ghost r1 = runs@.map_values(|i: Invocation| inv_view(i));
    assert(r1 =~= (if board_installed {
        seq![(Tool::Rustdoc, board_rustdoc_args())]
    } else {
        Seq::<(Tool, Seq<Seq<char>>)>::empty()
    }));
    push_run(&mut runs, Tool::Rustdoc, host_rustdoc("docs-test/Cargo.toml", host));
    push_run(&mut runs, Tool::Rustdoc, host_rustdoc("xtask/Cargo.toml", host));
    push_arg(&mut notes, "docs-test/Cargo.toml on the host");
    push_arg(&mut notes, "xtask/Cargo.toml on the host");
    let p = CheckPlan { runs, outcome: Outcome::Notes(notes) };
    proof {
        assert(runs_view(p) =~= rustdoc_links_spec(board_installed, host@).0);
        assert(views(notes@) =~= rustdoc_links_spec(board_installed, host@).1->Ok_0->Some_0);
    }
    p
}

/// `cargo test` of the tutorial's doctests, on the host.
pub open spec fn docs_test_args(host: Seq<char>) -> Seq<Seq<char>> {
    seq!["test"@, "--manifest-path"@, "docs-test/Cargo.toml"@, "--doc"@, "--target"@, host]
}

/// The tutorial, compiled: one `cargo test --doc` of `docs-test/` on the
/// host, reporting what it printed.
pub fn docs_test(host: &String) -> (p: CheckPlan)
    ensures
        runs_view(p) == seq![(Tool::Cargo, docs_test_args(host@))],
        p.outcome is LastOutput,
{
    let mut a: Vec<String> = Vec::new();
    push_arg(&mut a, "test");
    push_arg(&mut a, "--manifest-path");
    push_arg(&mut a, "docs-test/Cargo.toml");
    push_arg(&mut a, "--doc");
    push_arg(&mut a, "--target");
    push_arg(&mut a, host.as_str());
    proof {
        assert(views(a@) =~= docs_test_args(host@));
    }
    let mut runs: Vec<Invocation> = Vec::new();
    proof {
        assert(runs@.map_values(|i: Invocation| inv_view(i)) =~= Seq::<
            (Tool, Seq<Seq<char>>),
        >::empty());
    }
    push_run(&mut runs, Tool::Cargo, a);
    let p = CheckPlan { runs, outcome: Outcome::LastOutput };
    proof {
        assert(runs_view(p) =~= seq![(Tool::Cargo, docs_test_args(host@))]);
    }
    p
}

/// `cargo test` of the `xtask` crate, on the host.
pub open spec fn gate_tests_args(host: Seq<char>) -> Seq<Seq<char>> {
    seq!["test"@, "--manifest-path"@, "xtask/Cargo.toml"@, "--target"@, host]
}

/// The `xtask` crate's own unit tests: one `cargo test` of `xtask/` on the host,
/// reporting what it printed.
pub fn gate_tests(host: &String) -> (p: CheckPlan)
    ensures
        runs_view(p) == seq![(Tool::Cargo, gate_tests_args(host@))],
        p.outcome is LastOutput,
{
    let mut a: Vec<String> = Vec::new();
    push_arg(&mut a, "test");
    push_arg(&mut a, "--manifest-path");
    push_arg(&mut a, "xtask/Cargo.toml");
    push_arg(&mut a, "--target");
    push_arg(&mut a, host.as_str());
    proof {
        assert(views(a@) =~= gate_tests_args(host@));
    }
    let mut runs: Vec<Invocation> = Vec::new();
    proof {
        assert(runs@.map_values(|i: Invocation| inv_view(i)) =~= Seq::<
            (Tool, Seq<Seq<char>>),
        >::empty());
    }
    push_run(&mut runs, Tool::Cargo, a);
    let p = CheckPlan { runs, outcome: Outcome::LastOutput };
    proof {
        assert(runs_view(p) =~= seq![(Tool::Cargo, gate_tests_args(host@))]);
    }
    p
}

/// A release build of the firmware image `bin` for the board.
pub open spec fn firmware_build_args(bin: Seq<char>) -> Seq<Seq<char>> {
    seq!["build"@, "--release"@, "--bin"@, bin, "--target"@, board_triple()]
}

fn firmware_build(bin: &str) -> (args: Vec<String>)
    ensures
        views(args@) == firmware_build_args(bin@),
{
    let mut a: Vec<String> = Vec::new();
    push_arg(&mut a, "build");
    push_arg(&mut a, "--release");
    push_arg(&mut a, "--bin");
    push_arg(&mut a, bin);
    push_arg(&mut a, "--target");
    push_arg(&mut a, "thumbv6m-none-eabi");
    a
}

/// Both firmware images link: a release build of each for the board, or,
/// without the board's target, nothing run and a note saying how to get it.
pub fn firmware_links(board_installed: bool) -> (p: CheckPlan)
    ensures
        !board_installed ==> runs_view(p).len() == 0 && outcome_view(p.outcome) == Ok::<
            Option<Seq<Seq<char>>>,
            Seq<char>,
        >(Some(seq!["skipped: rustup target add thumbv6m-none-eabi"@])),
        board_installed ==> runs_view(p) == seq![
            (Tool::Cargo, firmware_build_args("badger2040"@)),
            (Tool::Cargo, firmware_build_args("tufty2040"@)),
        ] && outcome_view(p.outcome) == Ok::<Option<Seq<Seq<char>>>, Seq<char>>(
            Some(seq!["badger2040, tufty2040"@]),
        ),
{
    let mut runs: Vec<Invocation> = Vec::new();
    let mut notes: Vec<String> = Vec::new();
    let ghost r0 = runs@.map_values(|i: Invocation| inv_view(i));
    let ghost n0 = views(notes@);
    proof {
        assert(r0 =~= Seq::<(Tool, Seq<Seq<char>>)>::empty());
        assert(n0 =~= Seq::<Seq<char>>::empty());
    }
    if !board_installed {
        push_arg(&mut notes, "skipped: rustup target add thumbv6m-none-eabi");
    } else {
        push_run(&mut runs, Tool::Cargo, firmware_build("badger2040"));
        push_run(&mut runs, Tool::Cargo, firmware_build("tufty2040"));
        push_arg(&mut notes, "badger2040, tufty2040");
    }
    let p = CheckPlan { runs, outcome: Outcome::Notes(notes) };
    proof {
        if board_installed {
            assert(runs_view(p) =~= seq![
                (Tool::Cargo, firmware_build_args("badger2040"@)),
                (Tool::Cargo, firmware_build_args("tufty2040"@)),
            ]);
            assert(views(notes@) =~= seq!["badger2040, tufty2040"@]);
        } else {
            assert(runs_view(p) =~= Seq::<(Tool, Seq<Seq<char>>)>::empty());
            assert(views(notes@) =~= seq!["skipped: rustup target add thumbv6m-none-eabi"@]);
        }
    }
    p
}

/// `cargo fmt` of every crate of the workspace at `manifest`: checking, or
/// formatting in place when `fix`.
pub open spec fn fmt_args(manifest: Seq<char>, fix: bool) -> Seq<Seq<char>> {
    let base = seq!["fmt"@, "--manifest-path"@, manifest, "--all"@];
    if fix {
        base
    } else {
        base.push("--check"@)
    }
}

fn fmt_run(manifest: &str, fix: bool) -> (args: Vec<String>)
    ensures
        views(args@) == fmt_args(manifest@, fix),
{
    let mut a: Vec<String> = Vec::new();
    push_arg(&mut a, "fmt");
    push_arg(&mut a, "--manifest-path");
    push_arg(&mut a, manifest);
    push_arg(&mut a, "--all");
    if !fix {
        push_arg(&mut a, "--check");
    }
    a
}

/// The format check: the firmware, `docs-test/` and `xtask/`, each its own
/// workspace, so each by name.
pub fn formatting(fix: bool) -> (p: CheckPlan)
    ensures
        runs_view(p) == seq![
            (Tool::Cargo, fmt_args("Cargo.toml"@, fix)),
            (Tool::Cargo, fmt_args("docs-test/Cargo.toml"@, fix)),
            (Tool::Cargo, fmt_args("xtask/Cargo.toml"@, fix)),
        ],
        outcome_view(p.outcome) == Ok::<Option<Seq<Seq<char>>>, Seq<char>>(
            Some(seq!["the firmware, docs-test and xtask"@]),
        ),
{
    let mut runs: Vec<Invocation> = Vec::new();
    let ghost r0 = runs@.map_values(|i: Invocation| inv_view(i));
    proof {
        assert(r0 =~= Seq::<(Tool, Seq<Seq<char>>)>::empty());
    }
    push_run(&mut runs, Tool::Cargo, fmt_run("Cargo.toml", fix));
    push_run(&mut runs, Tool::Cargo, fmt_run("docs-test/Cargo.toml", fix));
    push_run(&mut runs, Tool::Cargo, fmt_run("xtask/Cargo.toml", fix));
    let mut notes: Vec<String> = Vec::new();
    let ghost n0 = views(notes@);
    proof {
        assert(n0 =~= Seq::<Seq<char>>::empty());
    }
    push_arg(&mut notes, "the firmware, docs-test and xtask");
    let p = CheckPlan { runs, outcome: Outcome::Notes(notes) };
    proof {
        assert(runs_view(p) =~= seq![
            (Tool::Cargo, fmt_args("Cargo.toml"@, fix)),
            (Tool::Cargo, fmt_args("docs-test/Cargo.toml"@, fix)),
            (Tool::Cargo, fmt_args("xtask/Cargo.toml"@, fix)),
        ]);
        assert(views(notes@) =~= seq!["the firmware, docs-test and xtask"@]);
    }
    p
}


/// How a nested workspace's lint settings differ from the root's.
#[derive(Clone, Debug)]
pub enum Drift {
    /// The file at this path could not be read, so that workspace lints
    /// under cargo's defaults.
    Missing(String),
    /// The file at this path sets different values from the root's.
    Differs(String),
}

/// Whether the nested workspaces lint under the root's settings.
#[derive(Clone, Debug)]
pub enum ClippyVerdict {
    /// The root file sets nothing, so there is nothing to compare.
    SetsNothing,
    /// Every nested file makes the root's settings: how many settings, and
    /// which files were checked, in order.
    Agree { settings: usize, checked: Vec<String> },
    /// Some nested file is missing or differs, in order.
    Drifted(Vec<Drift>),
}

/// The nested files whose settings must match the root's: one per workspace
/// beside it.
pub fn nested_clippy_files() -> (files: Vec<String>)
    ensures
        views(files@) == seq!["docs-test/clippy.toml"@, "xtask/clippy.toml"@],
{
    let mut f: Vec<String> = Vec::new();
    push_arg(&mut f, "docs-test/clippy.toml");
    push_arg(&mut f, "xtask/clippy.toml");
    proof {
        assert(views(f@) =~= seq!["docs-test/clippy.toml"@, "xtask/clippy.toml"@]);
    }
    f
}

/// A nested file as read: its path and its text, if it could be read.
pub open spec fn nested_view(n: (String, Option<String>)) -> (Seq<char>, Option<Seq<char>>) {
    (
        n.0@,
        match n.1 {
            Some(t) => Some(t@),
            None => None,
        },
    )
}

/// The paths of the nested files that make exactly `wanted`, in order.
pub open spec fn agreeing(nested: Seq<(Seq<char>, Option<Seq<char>>)>, wanted: Seq<Seq<char>>) -> Seq<
    Seq<char>,
>
    decreases nested.len(),
{
    if nested.len() == 0 {
        Seq::empty()
    } else {
        let before = agreeing(nested.drop_last(), wanted);
        let (path, text) = nested.last();
        match text {
            Some(t) => if settings_of(t) == wanted {
                before.push(path)
            } else {
                before
            },
            None => before,
        }
    }
}

/// How each nested file that does not make `wanted` drifts, in order: `true`
/// for one that could not be read, `false` for one that differs.
pub open spec fn drifting(nested: Seq<(Seq<char>, Option<Seq<char>>)>, wanted: Seq<Seq<char>>) -> Seq<
    (bool, Seq<char>),
>
    decreases nested.len(),
{
    if nested.len() == 0 {
        Seq::empty()
    } else {
        let before = drifting(nested.drop_last(), wanted);
        let (path, text) = nested.last();
        match text {
            Some(t) => if settings_of(t) == wanted {
                before
            } else {
                before.push((false, path))
            },
            None => before.push((true, path)),
        }
    }
}

/// A drift, as whether the file was missing and its path.
pub open spec fn drift_view(d: Drift) -> (bool, Seq<char>) {
    match d {
        Drift::Missing(p) => (true, p@),
        Drift::Differs(p) => (false, p@),
    }
}

/// Compares each nested workspace's lint settings against the root's, given
/// the root file's text and each nested file's path and text (`None` where it
/// could not be read). The settings are each file's lines, trimmed, without
/// blanks and comments, and they must match in order.
pub fn nested_clippy_agrees(root: &str, nested: &Vec<(String, Option<String>)>) -> (v: ClippyVerdict)
    ensures
        ({
            let wanted = settings_of(root@);
            let ns = nested@.map_values(|n: (String, Option<String>)| nested_view(n));
            match v {
                ClippyVerdict::SetsNothing => wanted.len() == 0,
                ClippyVerdict::Agree { settings, checked } => {
                    &&& wanted.len() > 0
                    &&& drifting(ns, wanted).len() == 0
                    &&& settings == wanted.len()
                    &&& views(checked@) == agreeing(ns, wanted)
                },
                ClippyVerdict::Drifted(drift) => {
                    &&& wanted.len() > 0
                    &&& drifting(ns, wanted).len() > 0
                    &&& drift@.map_values(|d: Drift| drift_view(d)) == drifting(ns, wanted)
                },
            }
        }),
{
    let wanted = settings(root);
    if wanted.len() == 0 {
        return ClippyVerdict::SetsNothing;
    }
    let ghost w = settings_of(root@);
    let ghost ns = nested@.map_values(|n: (String, Option<String>)| nested_view(n));
    let mut checked: Vec<String> = Vec::new();
    let mut drift: Vec<Drift> = Vec::new();
    let mut i: usize = 0;
    proof {
        assert(ns.take(0) =~= Seq::<(Seq<char>, Option<Seq<char>>)>::empty());
        assert(views(checked@) =~= Seq::<Seq<char>>::empty());
        assert(drift@.map_values(|d: Drift| drift_view(d)) =~= Seq::<(bool, Seq<char>)>::empty());
    }
    while i < nested.len()
        invariant
            i <= nested@.len(),
            ns == nested@.map_values(|n: (String, Option<String>)| nested_view(n)),
            views(wanted@) == w,
            w == settings_of(root@),
            views(checked@) == agreeing(ns.take(i as int), w),
            drift@.map_values(|d: Drift| drift_view(d)) == drifting(ns.take(i as int), w),
        decreases nested@.len() - i,
    {
        proof {
            assert(ns.take(i + 1).drop_last() =~= ns.take(i as int));
            assert(ns.take(i + 1).last() == nested_view(nested@[i as int]));
        }
        let path = &nested[i].0;
        match &nested[i].1 {
            None => {
                let ghost before = drift@;
                drift.push(Drift::Missing(path.clone()));
                proof {
                    assert(drift@.map_values(|d: Drift| drift_view(d)) =~= before.map_values(
                        |d: Drift| drift_view(d),
                    ).push((true, path@)));
                }
            },
            Some(text) => {
                let here = settings(text.as_str());
                if same_settings(&here, &wanted) {
                    let ghost before = checked@;
                    checked.push(path.clone());
                    proof {
                        assert(views(checked@) =~= views(before).push(path@));
                    }
                } else {
                    let ghost before = drift@;
                    drift.push(Drift::Differs(path.clone()));
                    proof {
                        assert(drift@.map_values(|d: Drift| drift_view(d)) =~= before.map_values(
                            |d: Drift| drift_view(d),
                        ).push((false, path@)));
                    }
                }
            },
        }
        i = i + 1;
    }
    proof {
        assert(ns.take(nested@.len() as int) =~= ns);
    }
    if drift.len() == 0 {
        ClippyVerdict::Agree { settings: wanted.len(), checked }
    } else {
        ClippyVerdict::Drifted(drift)
    }
}


/// The first step of comparing lint settings, from the root file alone.
#[derive(Clone, Debug)]
pub enum ClippyStart {
    /// The root file sets nothing: there is nothing to compare, and no nested
    /// file needs reading.
    SetsNothing,
    /// Read these nested files, in order, and compare them.
    ReadNested(Vec<String>),
}

/// Decides from the root file's text alone whether the nested files are
/// needed: a root that sets nothing ends the comparison before either is
/// read.
pub fn nested_clippy_start(root: &str) -> (start: ClippyStart)
    ensures
        start is SetsNothing <==> settings_of(root@).len() == 0,
        start matches ClippyStart::ReadNested(files) ==> views(files@) == seq![
            "docs-test/clippy.toml"@,
            "xtask/clippy.toml"@,
        ],
{
    let wanted = settings(root);
    if wanted.len() == 0 {
        ClippyStart::SetsNothing
    } else {
        ClippyStart::ReadNested(nested_clippy_files())
    }
}

/// What a drift says: the file, and why that workspace does not lint under
/// the root's settings.
pub open spec fn drift_line(d: (bool, Seq<char>)) -> Seq<char> {
    if d.0 {
        "  "@ + d.1 + " is missing, so that workspace lints under cargo's defaults"@
    } else {
        "  "@ + d.1 + " sets different values from clippy.toml"@
    }
}

/// What the comparison reports: how many settings in which files when they
/// agree, and otherwise why not.
pub open spec fn clippy_report_spec(v: ClippyVerdict) -> Result<Seq<char>, Seq<char>> {
    match v {
        ClippyVerdict::SetsNothing => Err("clippy.toml sets nothing, so this would compare nothing"@),
        ClippyVerdict::Agree { settings, checked } => Ok(
            decimal(settings as nat) + " setting(s), in "@ + joined(views(checked@), " and "@),
        ),
        ClippyVerdict::Drifted(d) => Err(
            joined(d@.map_values(|x: Drift| drift_line(drift_view(x))), "\n"@)
                + "\n\nEach nested workspace needs the root file's values, or it lints\nunder different rules from the firmware one directory up."@,
        ),
    }
}

/// What the comparison reports for `v`.
pub fn clippy_report(v: &ClippyVerdict) -> (r: Result<String, String>)
    ensures
        r matches Ok(a) ==> clippy_report_spec(*v) == Ok::<Seq<char>, Seq<char>>(a@),
        r matches Err(a) ==> clippy_report_spec(*v) == Err::<Seq<char>, Seq<char>>(a@),
{
    match v {
        ClippyVerdict::SetsNothing => Err(
            String::from_str("clippy.toml sets nothing, so this would compare nothing"),
        ),
        ClippyVerdict::Agree { settings, checked } => {
            let mut s = decimal_string(*settings);
            s.append(" setting(s), in ");
            let list = join(checked, " and ");
            s.append(list.as_str());
            Ok(s)
        },
        ClippyVerdict::Drifted(drift) => {
            let mut lines: Vec<String> = Vec::new();
            let mut i: usize = 0;
            while i < drift.len()
                invariant
                    i <= drift@.len(),
                    views(lines@) == drift@.take(i as int).map_values(
                        |x: Drift| drift_line(drift_view(x)),
                    ),
                decreases drift@.len() - i,
            {
                let mut line = String::from_str("  ");
                match &drift[i] {
                    Drift::Missing(p) => {
                        line.append(p.as_str());
                        line.append(" is missing, so that workspace lints under cargo's defaults");
                    },
                    Drift::Differs(p) => {
                        line.append(p.as_str());
                        line.append(" sets different values from clippy.toml");
                    },
                }
                proof {
                    assert(line@ == drift_line(drift_view(drift@[i as int])));
                }
                let ghost before = lines@;
                lines.push(line);
                proof {
                    assert(views(lines@) =~= views(before).push(lines@[i as int]@));
                    assert(drift@.take(i + 1) =~= drift@.take(i as int).push(drift@[i as int]));
                    assert(views(lines@) =~= drift@.take(i + 1).map_values(
                        |x: Drift| drift_line(drift_view(x)),
                    ));
                }
                i = i + 1;
            }
            proof {
                assert(drift@.take(drift@.len() as int) =~= drift@);
            }
            let mut s = join(&lines, "\n");
            s.append(
                "\n\nEach nested workspace needs the root file's values, or it lints\nunder different rules from the firmware one directory up.",
            );
            Err(s)
        },
    }
}

/// The verdict depends on each file's settings alone: nested files that read
/// alike, under the same paths, make the same settings, give the same files
/// that agree and the same drifts. Blank lines, comments and white space
/// around a line change no file's settings, so they change no verdict.
pub proof fn law_verdict_depends_on_settings_alone(
    ns1: Seq<(Seq<char>, Option<Seq<char>>)>,
    ns2: Seq<(Seq<char>, Option<Seq<char>>)>,
    wanted: Seq<Seq<char>>,
)
    requires
        ns1.len() == ns2.len(),
        forall|i: int|
            0 <= i < ns1.len() ==> {
                &&& (#[trigger] ns1[i]).0 == ns2[i].0
                &&& ns1[i].1 is Some <==> ns2[i].1 is Some
                &&& ns1[i].1 is Some ==> settings_of(ns1[i].1->0) == settings_of(ns2[i].1->0)
            },
    ensures
        agreeing(ns1, wanted) == agreeing(ns2, wanted),
        drifting(ns1, wanted) == drifting(ns2, wanted),
    decreases ns1.len(),
{
    if ns1.len() > 0 {
        let last = ns1.len() - 1;
        assert(ns1[last].0 == ns2[last].0);
        law_verdict_depends_on_settings_alone(ns1.drop_last(), ns2.drop_last(), wanted);
    }
}

/// The next thing a running check does.
#[derive(Debug)]
pub enum PlanStep {
    /// Run the invocation at this index.
    Run(usize),
    /// Stop, with this answer.
    Finish(Result<String, String>),
}

/// What comes next in running `p`, after `done` invocations, the last of
/// which answered `last`: a failure ends the check with it; otherwise the
/// next invocation runs; and after the last, the plan's outcome is the
/// answer: its notes joined by `, `, what the last invocation printed (or
/// nothing, if there was none), or its failure.
pub open spec fn plan_step_spec(
    p: CheckPlan,
    done: nat,
    last: Option<Result<Seq<char>, Seq<char>>>,
) -> Result<nat, Result<Seq<char>, Seq<char>>> {
    if last is Some && last->0 is Err {
        Err(last->0)
    } else if done < p.runs@.len() {
        Ok(done)
    } else {
        Err(
            match p.outcome {
                Outcome::Notes(n) => Ok(joined(views(n@), ", "@)),
                Outcome::LastOutput => Ok(
                    match last {
                        Some(Ok(out)) => out,
                        _ => Seq::empty(),
                    },
                ),
                Outcome::Fail(m) => Err(m@),
            },
        )
    }
}

/// An answer, as a view.
pub open spec fn answer_view(r: Option<Result<String, String>>) -> Option<Result<Seq<char>, Seq<char>>> {
    match r {
        Some(Ok(s)) => Some(Ok(s@)),
        Some(Err(s)) => Some(Err(s@)),
        None => None,
    }
}

/// Decides what running `plan` does next.
pub fn plan_step(plan: &CheckPlan, done: usize, last: &Option<Result<String, String>>) -> (step:
    PlanStep)
    ensures
        match (step, plan_step_spec(*plan, done as nat, answer_view(*last))) {
            (PlanStep::Run(i), Ok(j)) => i == j,
            (PlanStep::Finish(Ok(a)), Err(Ok(b))) => a@ == b,
            (PlanStep::Finish(Err(a)), Err(Err(b))) => a@ == b,
            _ => false,
        },
{
    if let Some(Err(e)) = last {
        return PlanStep::Finish(Err(e.clone()));
    }
    if done < plan.runs.len() {
        return PlanStep::Run(done);
    }
    match &plan.outcome {
        Outcome::Notes(n) => PlanStep::Finish(Ok(join(n, ", "))),
        Outcome::LastOutput => match last {
            Some(Ok(out)) => PlanStep::Finish(Ok(out.clone())),
            _ => PlanStep::Finish(Ok(String::new())),
        },
        Outcome::Fail(m) => PlanStep::Finish(Err(m.clone())),
    }
}


/// Nested files as read, made of lines: each path with its text, if it could
/// be read.
pub open spec fn nested_texts(nested: Seq<(Seq<char>, Option<Seq<Seq<char>>>)>) -> Seq<
    (Seq<char>, Option<Seq<char>>),
> {
    Seq::new(
        nested.len(),
        |i: int|
            (
                nested[i].0,
                match nested[i].1 {
                    Some(ls) => Some(text_of(ls)),
                    None => None,
                },
            ),
    )
}

/// The same nested files after `edits[i]` is applied to the lines of file `i`.
pub open spec fn edited_texts(
    nested: Seq<(Seq<char>, Option<Seq<Seq<char>>>)>,
    edits: Seq<Seq<(nat, int, Seq<char>)>>,
) -> Seq<(Seq<char>, Option<Seq<char>>)> {
    Seq::new(
        nested.len(),
        |i: int|
            (
                nested[i].0,
                match nested[i].1 {
                    Some(ls) => Some(text_of(apply_edits(ls, edits[i]))),
                    None => None,
                },
            ),
    )
}

/// Padding changes no comparison: any number of blank or comment lines added
/// or removed, anywhere, and any white space changed around a line, in the
/// root file and in each nested file, leave the root's settings, the files
/// that agree and the drifts exactly as they were.
pub proof fn law_padding_keeps_the_verdict(
    root: Seq<Seq<char>>,
    root_edits: Seq<(nat, int, Seq<char>)>,
    nested: Seq<(Seq<char>, Option<Seq<Seq<char>>>)>,
    edits: Seq<Seq<(nat, int, Seq<char>)>>,
)
    requires
        all_one_line(root),
        padding_edits(root, root_edits),
        edits.len() == nested.len(),
        forall|i: int|
            0 <= i < nested.len() && (#[trigger] nested[i]).1 is Some ==> {
                &&& all_one_line(nested[i].1->0)
                &&& padding_edits(nested[i].1->0, edits[i])
            },
    ensures
        settings_of(text_of(apply_edits(root, root_edits))) == settings_of(text_of(root)),
        agreeing(edited_texts(nested, edits), settings_of(text_of(root))) == agreeing(
            nested_texts(nested),
            settings_of(text_of(root)),
        ),
        drifting(edited_texts(nested, edits), settings_of(text_of(root))) == drifting(
            nested_texts(nested),
            settings_of(text_of(root)),
        ),
{
    law_text_padding_edits_keep_settings(root, root_edits);
    let before = nested_texts(nested);
    let after = edited_texts(nested, edits);
    assert forall|i: int| 0 <= i < after.len() implies {
        &&& (#[trigger] after[i]).0 == before[i].0
        &&& after[i].1 is Some <==> before[i].1 is Some
        &&& after[i].1 is Some ==> settings_of(after[i].1->0) == settings_of(before[i].1->0)
    } by {
        if nested[i].1 is Some {
            law_text_padding_edits_keep_settings(nested[i].1->0, edits[i]);
        }
    }
    law_verdict_depends_on_settings_alone(after, before, settings_of(text_of(root)));
}


/// A failure ends a check, the last invocation's included: whenever the
/// invocation just run failed, the check stops with that failure, however
/// many invocations have run and whatever the plan would otherwise answer.
pub proof fn law_a_failure_is_the_answer(p: CheckPlan, done: nat, e: Seq<char>)
    ensures
        plan_step_spec(p, done, Some(Err(e))) == Err::<nat, Result<Seq<char>, Seq<char>>>(
            Err(e),
        ),
{
}

proof fn lemma_agreeing_complete(ns: Seq<(Seq<char>, Option<Seq<char>>)>, wanted: Seq<Seq<char>>)
    ensures
        forall|i: int|
            0 <= i < ns.len() && (#[trigger] ns[i]).1 is Some && settings_of(ns[i].1->0)
                == wanted ==> agreeing(ns, wanted).contains(ns[i].0),
    decreases ns.len(),
{
    if ns.len() > 0 {
        let prev = ns.drop_last();
        lemma_agreeing_complete(prev, wanted);
        let a0 = agreeing(prev, wanted);
        let a = agreeing(ns, wanted);
        assert forall|i: int|
            0 <= i < ns.len() && (#[trigger] ns[i]).1 is Some && settings_of(ns[i].1->0)
                == wanted implies a.contains(ns[i].0) by {
            if i < ns.len() - 1 {
                assert(prev[i] == ns[i]);
                let k = choose|k: int| 0 <= k < a0.len() && a0[k] == ns[i].0;
                assert(a[k] == a0[k]);
            } else {
                assert(a[a.len() - 1] == ns[i].0);
            }
        }
    }
}

proof fn lemma_drifting_complete(ns: Seq<(Seq<char>, Option<Seq<char>>)>, wanted: Seq<Seq<char>>)
    ensures
        forall|i: int|
            0 <= i < ns.len() && (#[trigger] ns[i]).1 is Some && settings_of(ns[i].1->0)
                != wanted ==> drifting(ns, wanted).contains((false, ns[i].0)),
        forall|i: int|
            0 <= i < ns.len() && (#[trigger] ns[i]).1 is None ==> drifting(ns, wanted).contains(
                (true, ns[i].0),
            ),
    decreases ns.len(),
{
    if ns.len() > 0 {
        let prev = ns.drop_last();
        lemma_drifting_complete(prev, wanted);
        let d0 = drifting(prev, wanted);
        let d = drifting(ns, wanted);
        assert forall|i: int|
            0 <= i < ns.len() && (#[trigger] ns[i]).1 is Some && settings_of(ns[i].1->0)
                != wanted implies d.contains((false, ns[i].0)) by {
            if i < ns.len() - 1 {
                assert(prev[i] == ns[i]);
                let k = choose|k: int| 0 <= k < d0.len() && d0[k] == (false, ns[i].0);
                assert(d[k] == d0[k]);
            } else {
                assert(d[d.len() - 1] == (false, ns[i].0));
            }
        }
        assert forall|i: int| 0 <= i < ns.len() && (#[trigger] ns[i]).1 is None implies d.contains(
            (true, ns[i].0),
        ) by {
            if i < ns.len() - 1 {
                assert(prev[i] == ns[i]);
                let k = choose|k: int| 0 <= k < d0.len() && d0[k] == (true, ns[i].0);
                assert(d[k] == d0[k]);
            } else {
                assert(d[d.len() - 1] == (true, ns[i].0));
            }
        }
    }
}

/// Whether file `i` of `ns` is readable, has path `path`, and makes exactly
/// the settings `wanted`.
pub open spec fn agreeing_source(ns: Seq<(Seq<char>, Option<Seq<char>>)>, wanted: Seq<Seq<char>>, path: Seq<
    char,
>, i: int) -> bool {
    0 <= i < ns.len() && ns[i].0 == path && ns[i].1 is Some && settings_of(ns[i].1->0) == wanted
}

/// Whether file `i` of `ns` has the path of drift `d`, could not be read
/// exactly when `d` says it is missing, and, if it could be read, makes
/// settings other than `wanted`.
pub open spec fn drifting_source(
    ns: Seq<(Seq<char>, Option<Seq<char>>)>,
    wanted: Seq<Seq<char>>,
    d: (bool, Seq<char>),
    i: int,
) -> bool {
    &&& 0 <= i < ns.len()
    &&& ns[i].0 == d.1
    &&& d.0 <==> ns[i].1 is None
    &&& ns[i].1 is Some ==> settings_of(ns[i].1->0) != wanted
}

/// Every path among those that agree is that of a readable nested file whose
/// settings are exactly the root's.
pub proof fn law_every_agreeing_path_has_the_root_settings(ns: Seq<(Seq<char>, Option<Seq<char>>)>, wanted: Seq<Seq<char>>, k: int)
    requires
        0 <= k < agreeing(ns, wanted).len(),
    ensures
        exists|i: int| agreeing_source(ns, wanted, agreeing(ns, wanted)[k], i),
    decreases ns.len(),
{
    let prev = ns.drop_last();
    let a0 = agreeing(prev, wanted);
    let a = agreeing(ns, wanted);
    if k < a0.len() {
        law_every_agreeing_path_has_the_root_settings(prev, wanted, k);
        assert(a[k] == a0[k]);
        let i = choose|i: int| agreeing_source(prev, wanted, a0[k], i);
        assert(ns[i] == prev[i]);
        assert(agreeing_source(ns, wanted, a[k], i));
    } else {
        assert(agreeing_source(ns, wanted, a[k], ns.len() - 1));
    }
}

/// Every drift is that of a nested file that could not be read, reported
/// as missing, or of a readable one whose settings are not the root's,
/// reported as differing.
pub proof fn law_every_drift_is_missing_or_different(ns: Seq<(Seq<char>, Option<Seq<char>>)>, wanted: Seq<Seq<char>>, k: int)
    requires
        0 <= k < drifting(ns, wanted).len(),
    ensures
        exists|i: int| drifting_source(ns, wanted, drifting(ns, wanted)[k], i),
    decreases ns.len(),
{
    let prev = ns.drop_last();
    let d0 = drifting(prev, wanted);
    let d = drifting(ns, wanted);
    if k < d0.len() {
        law_every_drift_is_missing_or_different(prev, wanted, k);
        assert(d[k] == d0[k]);
        let i = choose|i: int| drifting_source(prev, wanted, d0[k], i);
        assert(ns[i] == prev[i]);
        assert(drifting_source(ns, wanted, d[k], i));
    } else {
        assert(drifting_source(ns, wanted, d[k], ns.len() - 1));
    }
}

/// Which nested files agree and which drift is decided by comparing each
/// file's settings with the root's, whole and in order: a readable file whose
/// settings equal the root's is among those that agree; a readable file whose
/// settings differ in any way, one extra or one missing included, drifts as
/// differing; and a file that could not be read drifts as missing. Nothing
/// else is in either list: see [`law_every_agreeing_path_has_the_root_settings`]
/// and [`law_every_drift_is_missing_or_different`].
pub proof fn law_agreement_is_equal_settings(
    ns: Seq<(Seq<char>, Option<Seq<char>>)>,
    wanted: Seq<Seq<char>>,
)
    ensures
        forall|i: int|
            0 <= i < ns.len() && (#[trigger] ns[i]).1 is Some && settings_of(ns[i].1->0)
                == wanted ==> agreeing(ns, wanted).contains(ns[i].0),
        forall|i: int|
            0 <= i < ns.len() && (#[trigger] ns[i]).1 is Some && settings_of(ns[i].1->0)
                != wanted ==> drifting(ns, wanted).contains((false, ns[i].0)),
        forall|i: int|
            0 <= i < ns.len() && (#[trigger] ns[i]).1 is None ==> drifting(ns, wanted).contains(
                (true, ns[i].0),
            ),
{
    lemma_agreeing_complete(ns, wanted);
    lemma_drifting_complete(ns, wanted);
}

} // verus!
