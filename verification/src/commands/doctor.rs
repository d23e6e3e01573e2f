//! The `doctor` command: which programs it tries to start, when a try counts
//! as passed, and what it reports of the checks that were made.

use vstd::prelude::*;
use vstd::string::StringExecFns;

verus! {

/// A program to start, with the argument that makes it print its version.
#[derive(Debug, Clone, Copy, PartialEq, Eq)]
pub struct Probe {
    pub program: &'static str,
    pub argument: &'static str,
}

/// How the try to run a program ended.
#[derive(Debug, Clone, Copy, PartialEq, Eq, Structural)]
pub enum ProbeOutcome {
    /// The program ran to its end; `success` says whether it reported success.
    Exited { success: bool },
    /// The program could not be started.
    NotStarted,
}

/// A check passes when the program ran and reported success. A program that
/// could not be started counts like one that reported failure.
pub open spec fn probe_passed(outcome: ProbeOutcome) -> bool {
    outcome == (ProbeOutcome::Exited { success: true })
}

/// Whether a check passed, given how the try to run its program ended.
pub fn passed(outcome: ProbeOutcome) -> (r: bool)
    ensures
        r == probe_passed(outcome),
{
    match outcome {
        ProbeOutcome::Exited { success } => success,
        ProbeOutcome::NotStarted => false,
    }
}

/// The probe for the Rust compiler.
pub fn check_rust() -> (probe: Probe)
    ensures
        probe.program@ == "rustc"@,
        probe.argument@ == "--version"@,
{
    Probe { program: "rustc", argument: "--version" }
}

/// The probe for Cargo.
pub fn check_cargo() -> (probe: Probe)
    ensures
        probe.program@ == "cargo"@,
        probe.argument@ == "--version"@,
{
    Probe { program: "cargo", argument: "--version" }
}

/// The probe for Node.js.
pub fn check_node() -> (probe: Probe)
    ensures
        probe.program@ == "node"@,
        probe.argument@ == "--version"@,
{
    Probe { program: "node", argument: "--version" }
}

/// The outcome of each check of the environment.
#[derive(Debug, Clone, Copy, PartialEq, Eq)]
pub struct Checks {
    /// The Rust compiler could be started.
    pub rust: bool,
    /// Cargo could be started.
    pub cargo: bool,
    /// Node.js could be started.
    pub node: bool,
    /// The configuration file exists.
    pub config: bool,
}

/// What the report says of the environment as a whole.
#[derive(Debug, Clone, Copy, PartialEq, Eq)]
pub enum Verdict {
    /// The compiler, Cargo and Node.js are there.
    AllPassed,
    /// The compiler and Cargo are there, Node.js is not.
    CoreReady,
    /// The compiler or Cargo is missing.
    SomeFailed,
}

/// A remark under a check that failed without harm.
#[derive(Debug, Clone, Copy, PartialEq, Eq)]
pub enum Hint {
    NodeRecommended,
    ConfigOnFirstUse,
}

/// One line of the report.
#[derive(Debug, Clone, Copy, PartialEq, Eq)]
pub struct CheckLine {
    pub label: &'static str,
    pub passed: bool,
    pub hint: Option<Hint>,
}

/// The report of the `doctor` command.
#[derive(Debug, Clone, PartialEq, Eq)]
pub struct Report {
    pub lines: Vec<CheckLine>,
    pub verdict: Verdict,
}

/// The verdict on the checks: the configuration file has no part in it, and
/// Node.js only decides between the two good verdicts.
pub open spec fn verdict_of(checks: Checks) -> Verdict {
    if checks.rust && checks.cargo {
        if checks.node {
            Verdict::AllPassed
        } else {
            Verdict::CoreReady
        }
    } else {
        Verdict::SomeFailed
    }
}

/// The lines of the report, in order. A hint stands under Node.js and under
/// the configuration file where the check failed.
pub open spec fn lines_of(checks: Checks) -> Seq<CheckLine> {
    seq![
        CheckLine { label: "Rust compiler", passed: checks.rust, hint: None },
        CheckLine { label: "Cargo package manager", passed: checks.cargo, hint: None },
        CheckLine {
            label: "Node.js runtime",
            passed: checks.node,
            hint: if checks.node {
                None
            } else {
                Some(Hint::NodeRecommended)
            },
        },
        CheckLine {
            label: "Configuration file",
            passed: checks.config,
            hint: if checks.config {
                None
            } else {
                Some(Hint::ConfigOnFirstUse)
            },
        },
    ]
}

/// The word that stands for the outcome of a check.
pub open spec fn status_word(passed: bool) -> Seq<char> {
    if passed {
        "PASS"@
    } else {
        "FAIL"@
    }
}

/// The text of a report line.
pub open spec fn check_text(name: Seq<char>, passed: bool) -> Seq<char> {
    "  "@ + name + " ... ["@ + status_word(passed) + "]"@
}

impl Verdict {
    pub open spec fn message_spec(self) -> Seq<char> {
        match self {
            Verdict::AllPassed => "All checks passed!"@,
            Verdict::CoreReady => "Core environment ready"@,
            Verdict::SomeFailed => "Some checks failed"@,
        }
    }

    /// The summary line for this verdict.
    pub fn message(&self) -> (s: &'static str)
        ensures
            s@ == self.message_spec(),
    {
        match self {
            Verdict::AllPassed => "All checks passed!",
            Verdict::CoreReady => "Core environment ready",
            Verdict::SomeFailed => "Some checks failed",
        }
    }
}

impl Hint {
    pub open spec fn message_spec(self) -> Seq<char> {
        match self {
            Hint::NodeRecommended => "Node.js 18+ recommended"@,
            Hint::ConfigOnFirstUse => "Config created on first use"@,
        }
    }

    /// The text of this hint.
    pub fn message(&self) -> (s: &'static str)
        ensures
            s@ == self.message_spec(),
    {
        match self {
            Hint::NodeRecommended => "Node.js 18+ recommended",
            Hint::ConfigOnFirstUse => "Config created on first use",
        }
    }
}

/// The report on the checks that were made. It is made whatever their
/// outcome: a failed check is reported, and fails nothing.
pub fn run(checks: Checks) -> (report: Report)
    ensures
        report.lines@ == lines_of(checks),
        report.verdict == verdict_of(checks),
{
    let mut all_passed = true;
    let mut lines: Vec<CheckLine> = Vec::new();
    lines.push(CheckLine { label: "Rust compiler", passed: checks.rust, hint: None });
    if !checks.rust {
        all_passed = false;
    }
    lines.push(CheckLine { label: "Cargo package manager", passed: checks.cargo, hint: None });
    if !checks.cargo {
        all_passed = false;
    }
    let node_hint = if checks.node {
        None
    } else {
        Some(Hint::NodeRecommended)
    };
    lines.push(CheckLine { label: "Node.js runtime", passed: checks.node, hint: node_hint });
    let config_hint = if checks.config {
        None
    } else {
        Some(Hint::ConfigOnFirstUse)
    };
    lines.push(CheckLine { label: "Configuration file", passed: checks.config, hint: config_hint });
    let verdict = if all_passed && checks.node {
        Verdict::AllPassed
    } else if all_passed {
        Verdict::CoreReady
    } else {
        Verdict::SomeFailed
    };
    proof {
        assert(lines@ =~= lines_of(checks));
    }
    Report { lines, verdict }
}

/// The line that reports one check.
pub fn print_check(name: &str, passed: bool) -> (line: String)
    ensures
        line@ == check_text(name@, passed),
{
    let status = if passed {
        "PASS"
    } else {
        "FAIL"
    };
    "  ".to_owned().concat(name).concat(" ... [").concat(status).concat("]")
}

} // verus!
