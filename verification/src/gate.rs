//! The repository's build-and-test script: which checks it runs, in which
//! order, and what its answer is.
//!
//! `check` runs every check; `fix` formats in place first; `all` also links
//! both firmware images. Any other argument is refused rather than read as
//! one of them. The last check is always that every other one is documented.

use vstd::prelude::*;
use vstd::string::StringExecFns;

verus! {

/// How the script was asked to run.
#[derive(Clone, Copy, Debug, PartialEq, Eq, Structural)]
pub enum Mode {
    /// Check everything.
    Check,
    /// Format in place first, then check.
    Fix,
    /// Check everything, and link both firmware images.
    All,
}

/// The mode an argument names: none, or `check`, is [`Mode::Check`]; `fix`
/// and `all` name theirs; anything else names none.
pub open spec fn mode_of(arg: Option<Seq<char>>) -> Option<Mode> {
    match arg {
        None => Some(Mode::Check),
        Some(a) => if a == "check"@ {
            Some(Mode::Check)
        } else if a == "fix"@ {
            Some(Mode::Fix)
        } else if a == "all"@ {
            Some(Mode::All)
        } else {
            None
        },
    }
}

/// Reads the script's argument. A typo is not a check: an argument that names
/// no mode is refused, never taken for `check`.
pub fn parse_mode(arg: Option<&String>) -> (m: Option<Mode>)
    ensures
        m == mode_of(
            match arg {
                Some(a) => Some(a@),
                None => None,
            },
        ),
{
    match arg {
        None => Some(Mode::Check),
        Some(a) => {
            let check = String::from_str("check");
            let fix = String::from_str("fix");
            let all = String::from_str("all");
            if *a == check {
                Some(Mode::Check)
            } else if *a == fix {
                Some(Mode::Fix)
            } else if *a == all {
                Some(Mode::All)
            } else {
                None
            }
        },
    }
}

impl Mode {
    /// Whether it formats in place first.
    pub fn fix(&self) -> (b: bool)
        ensures
            b == (*self == Mode::Fix),
    {
        match self {
            Mode::Fix => true,
            _ => false,
        }
    }

    /// Whether it also links both firmware images.
    pub fn everything(&self) -> (b: bool)
        ensures
            b == (*self == Mode::All),
    {
        match self {
            Mode::All => true,
            _ => false,
        }
    }
}

/// One check of the script.
#[derive(Clone, Copy, Debug, PartialEq, Eq, Structural)]
pub enum Stage {
    /// The three workspaces are formatted.
    Format,
    /// No file under a `src/` is over the line limit.
    FileSizes,
    /// Every crate has tests, or a listed reason not to.
    CratesAreTested,
    /// Every front page carries the warning banner.
    ReadmesWarn,
    /// Every `rust` fence in the prose is compiled.
    ProseIsCompiled,
    /// Every path the documents give exists.
    DocumentedPathsResolve,
    /// Every rustdoc link resolves.
    RustdocLinksResolve,
    /// Every command the documents give exists.
    DocumentedCommandsResolve,
    /// Clippy, on the board and on the host workspaces.
    Lint,
    /// The tutorial's snippets compile and run.
    TheProseCompiles,
    /// The `xtask` crate's own unit tests pass.
    XtaskOwnTests,
    /// The nested workspaces lint under the root's settings.
    NestedClippyConfigsAgree,
    /// The READMEs' sections are in order.
    ReadmeSections,
    /// `AGENTS.md` is as configured.
    AgentsFile,
    /// Every published crate denies `missing_docs`.
    PublishedCratesDenyMissingDocs,
    /// No comment block is over its cap.
    CommentBlocks,
    /// No comment is about the past.
    CommentNarration,
    /// Both firmware images link; only when asked for everything.
    BothFirmwareImagesLink,
    /// Every other check is documented; always last.
    ChecksDocumented,
}

/// The name a stage is printed and documented under.
pub open spec fn stage_name(s: Stage) -> Seq<char> {
    match s {
        Stage::Format => "format"@,
        Stage::FileSizes => "file sizes"@,
        Stage::CratesAreTested => "crates are tested"@,
        Stage::ReadmesWarn => "READMEs warn"@,
        Stage::ProseIsCompiled => "prose is compiled"@,
        Stage::DocumentedPathsResolve => "documented paths resolve"@,
        Stage::RustdocLinksResolve => "rustdoc links resolve"@,
        Stage::DocumentedCommandsResolve => "documented commands resolve"@,
        Stage::Lint => "lint"@,
        Stage::TheProseCompiles => "the prose compiles"@,
        Stage::XtaskOwnTests => "xtask's own tests"@,
        Stage::NestedClippyConfigsAgree => "the nested clippy configs agree"@,
        Stage::ReadmeSections => "README sections"@,
        Stage::AgentsFile => "AGENTS.md"@,
        Stage::PublishedCratesDenyMissingDocs => "published crates deny missing_docs"@,
        Stage::CommentBlocks => "comment blocks"@,
        Stage::CommentNarration => "comment narration"@,
        Stage::BothFirmwareImagesLink => "both firmware images link"@,
        Stage::ChecksDocumented => "every check is documented"@,
    }
}

impl Stage {
    /// The name this stage is printed and documented under.
    pub fn name(&self) -> (n: &'static str)
        ensures
            n@ == stage_name(*self),
    {
        match self {
            Stage::Format => "format",
            Stage::FileSizes => "file sizes",
            Stage::CratesAreTested => "crates are tested",
            Stage::ReadmesWarn => "READMEs warn",
            Stage::ProseIsCompiled => "prose is compiled",
            Stage::DocumentedPathsResolve => "documented paths resolve",
            Stage::RustdocLinksResolve => "rustdoc links resolve",
            Stage::DocumentedCommandsResolve => "documented commands resolve",
            Stage::Lint => "lint",
            Stage::TheProseCompiles => "the prose compiles",
            Stage::XtaskOwnTests => "xtask's own tests",
            Stage::NestedClippyConfigsAgree => "the nested clippy configs agree",
            Stage::ReadmeSections => "README sections",
            Stage::AgentsFile => "AGENTS.md",
            Stage::PublishedCratesDenyMissingDocs => "published crates deny missing_docs",
            Stage::CommentBlocks => "comment blocks",
            Stage::CommentNarration => "comment narration",
            Stage::BothFirmwareImagesLink => "both firmware images link",
            Stage::ChecksDocumented => "every check is documented",
        }
    }
}

/// The checks every run makes, in order.
pub open spec fn base_stages() -> Seq<Stage> {
    seq![
        Stage::Format,
        Stage::FileSizes,
        Stage::CratesAreTested,
        Stage::ReadmesWarn,
        Stage::ProseIsCompiled,
        Stage::DocumentedPathsResolve,
        Stage::RustdocLinksResolve,
        Stage::DocumentedCommandsResolve,
        Stage::Lint,
        Stage::TheProseCompiles,
        Stage::XtaskOwnTests,
        Stage::NestedClippyConfigsAgree,
        Stage::ReadmeSections,
        Stage::AgentsFile,
        Stage::PublishedCratesDenyMissingDocs,
        Stage::CommentBlocks,
        Stage::CommentNarration,
    ]
}

/// The checks a run makes, in order: every base check, then linking both
/// images when asked for everything, then, last, that every check is
/// documented.
pub open spec fn stages_spec(everything: bool) -> Seq<Stage> {
    let body = if everything {
        base_stages().push(Stage::BothFirmwareImagesLink)
    } else {
        base_stages()
    };
    body.push(Stage::ChecksDocumented)
}

/// The checks this run makes, in the order they run.
pub fn gate_stages(everything: bool) -> (stages: Vec<Stage>)
    ensures
        stages@ == stages_spec(everything),
{
    let mut v: Vec<Stage> = Vec::new();
    v.push(Stage::Format);
    v.push(Stage::FileSizes);
    v.push(Stage::CratesAreTested);
    v.push(Stage::ReadmesWarn);
    v.push(Stage::ProseIsCompiled);
    v.push(Stage::DocumentedPathsResolve);
    v.push(Stage::RustdocLinksResolve);
    v.push(Stage::DocumentedCommandsResolve);
    v.push(Stage::Lint);
    v.push(Stage::TheProseCompiles);
    v.push(Stage::XtaskOwnTests);
    v.push(Stage::NestedClippyConfigsAgree);
    v.push(Stage::ReadmeSections);
    v.push(Stage::AgentsFile);
    v.push(Stage::PublishedCratesDenyMissingDocs);
    v.push(Stage::CommentBlocks);
    v.push(Stage::CommentNarration);
    if everything {
        v.push(Stage::BothFirmwareImagesLink);
    }
    v.push(Stage::ChecksDocumented);
    proof {
        assert(v@ =~= stages_spec(everything));
    }
    v
}

/// The names the last check holds the documentation to: every check of
/// the run before it, in order.
pub fn documented_names(stages: &Vec<Stage>) -> (names: Vec<String>)
    requires
        stages@.len() > 0,
    ensures
        names@.len() == stages@.len() - 1,
        forall|i: int|
            0 <= i < names@.len() ==> (#[trigger] names@[i])@ == stage_name(stages@[i]),
{
    let mut names: Vec<String> = Vec::new();
    let mut i: usize = 0;
    let last = stages.len() - 1;
    while i < last
        invariant
            stages@.len() > 0,
            last == stages@.len() - 1,
            i <= last,
            names@.len() == i,
            forall|j: int| 0 <= j < i ==> (#[trigger] names@[j])@ == stage_name(stages@[j]),
        decreases stages@.len() - i,
    {
        names.push(String::from_str(stages[i].name()));
        i = i + 1;
    }
    names
}

/// The script's answer.
#[derive(Clone, Copy, Debug, PartialEq, Eq, Structural)]
pub enum Verdict {
    /// Every check passed, both images linked.
    EverythingPassed,
    /// Every check passed; the images were not linked.
    ChecksPassed,
    /// This many checks failed.
    Failed(usize),
}

/// The answer after `failed` checks failed in a run that did, or did not,
/// link both images. Success only when none failed.
pub fn verdict(failed: usize, everything: bool) -> (v: Verdict)
    ensures
        failed == 0 && everything ==> v == Verdict::EverythingPassed,
        failed == 0 && !everything ==> v == Verdict::ChecksPassed,
        failed > 0 ==> v == Verdict::Failed(failed),
{
    if failed == 0 {
        if everything {
            Verdict::EverythingPassed
        } else {
            Verdict::ChecksPassed
        }
    } else {
        Verdict::Failed(failed)
    }
}

/// The last check is always that every check is documented, every other check
/// runs before it exactly once, and the images are linked exactly when the
/// run was asked for everything.
pub proof fn law_gate_shape(everything: bool)
    ensures
        stages_spec(everything).last() == Stage::ChecksDocumented,
        stages_spec(everything).contains(Stage::BothFirmwareImagesLink) == everything,
        forall|i: int, j: int|
            0 <= i < j < stages_spec(everything).len() ==> stages_spec(everything)[i]
                != stages_spec(everything)[j],
{
    let s = stages_spec(everything);
    if !everything {
        assert forall|i: int| 0 <= i < s.len() implies s[i] != Stage::BothFirmwareImagesLink by {}
    } else {
        assert(s[17] == Stage::BothFirmwareImagesLink);
    }
}

} // verus!
