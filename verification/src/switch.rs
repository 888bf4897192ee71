//! Switching the active release.
//!
//! The decision is taken in two steps, so that the common case needs no
//! network: the local listing is asked first, and the catalog only when the
//! release is not installed.

use crate::catalog::Catalog;
use crate::store::{is_trimmed, trimmed};
use crate::text::{contains_text, texts};
use vstd::prelude::*;
use vstd::string::StringExecFns;

verus! {

/// How a request to switch ended.
#[derive(Clone, Copy, Debug, PartialEq, Eq, Structural)]
pub enum SwitchOutcome {
    /// The release is installed and is now the active one.
    Switched,
    /// The release is published but not installed; nothing changed.
    NotInstalled,
    /// The release is neither installed nor published; nothing changed.
    Unknown,
}

/// What to do next about a request to switch.
#[derive(Clone, Debug, PartialEq, Eq)]
pub enum SwitchStep {
    /// The release is installed: replace the whole contents of the pointer
    /// file by this text. The switch then ended as `Switched`.
    Activate(String),
    /// The release is not installed: leave the pointer file alone, fetch
    /// the catalog and let [`resolve_missing`] say how the switch ended.
    ConsultCatalog,
}

/// How a switch to `version` ends, given the installed releases and the
/// published ones.
pub open spec fn switch_outcome(
    installed: Seq<Seq<char>>,
    published: Seq<Seq<char>>,
    version: Seq<char>,
) -> SwitchOutcome {
    if installed.contains(version) {
        SwitchOutcome::Switched
    } else if published.contains(version) {
        SwitchOutcome::NotInstalled
    } else {
        SwitchOutcome::Unknown
    }
}

/// The contents of the pointer file after a step has been carried out,
/// given its contents before; `None` stands for a file that does not exist.
pub open spec fn pointer_after(pointer: Option<Seq<char>>, step: SwitchStep) -> Option<Seq<char>> {
    match step {
        SwitchStep::Activate(contents) => Some(contents@),
        SwitchStep::ConsultCatalog => pointer,
    }
}

/// Whether `step` is the first step of switching to `version` with the
/// releases `installed`.
pub open spec fn is_first_step(
    step: SwitchStep,
    installed: Seq<Seq<char>>,
    version: Seq<char>,
) -> bool {
    match step {
        SwitchStep::Activate(contents) => installed.contains(version) && contents@ == version,
        SwitchStep::ConsultCatalog => !installed.contains(version),
    }
}

/// What the user is told at the end of a switch to `version`.
pub open spec fn outcome_message(outcome: SwitchOutcome, version: Seq<char>) -> Seq<char> {
    match outcome {
        SwitchOutcome::Switched => "Switched global version to "@ + version,
        SwitchOutcome::NotInstalled => "You need to install '"@ + version
            + "' prior to using it. Use `solc-select install "@ + version + "`"@,
        SwitchOutcome::Unknown => "Unknown version `"@ + version + "`"@,
    }
}

/// Takes the first step of switching to `version`, given the releases that
/// the store shows as installed.
///
/// The pointer is to be written exactly when `version` is installed, and
/// then with `version` itself.
pub fn switch_global_version(version: &str, installed: &Vec<String>) -> (step: SwitchStep)
    ensures
        is_first_step(step, texts(installed@), version@),
{
    if contains_text(installed, version) {
        SwitchStep::Activate(String::from_str(version))
    } else {
        SwitchStep::ConsultCatalog
    }
}

/// Says how a switch to a release that is not installed ended, given the
/// catalog: the release is published and has to be installed first, or it
/// is unknown.
pub fn resolve_missing(version: &str, catalog: &Catalog) -> (outcome: SwitchOutcome)
    requires
        catalog.wf(),
    ensures
        outcome == if catalog.lists(version@) {
            SwitchOutcome::NotInstalled
        } else {
            SwitchOutcome::Unknown
        },
{
    if catalog.contains_version(version) {
        SwitchOutcome::NotInstalled
    } else {
        SwitchOutcome::Unknown
    }
}

/// Says how a switch to `version` ends when both the installed releases
/// and the catalog are at hand: an installed release is switched to,
/// whatever the catalog says.
pub fn decide_switch(version: &str, installed: &Vec<String>, catalog: &Catalog) -> (outcome:
    SwitchOutcome)
    requires
        catalog.wf(),
    ensures
        outcome == switch_outcome(texts(installed@), catalog.versions(), version@),
{
    match switch_global_version(version, installed) {
        SwitchStep::Activate(_) => SwitchOutcome::Switched,
        SwitchStep::ConsultCatalog => resolve_missing(version, catalog),
    }
}

impl SwitchOutcome {
    /// What to tell the user at the end of a switch to `version`.
    pub fn message(&self, version: &str) -> (text: String)
        ensures
            text@ == outcome_message(*self, version@),
    {
        match self {
            SwitchOutcome::Switched => {
                let mut text = String::from_str("Switched global version to ");
                text.append(version);
                text
            },
            SwitchOutcome::NotInstalled => {
                let mut text = String::from_str("You need to install '");
                text.append(version);
                text.append("' prior to using it. Use `solc-select install ");
                text.append(version);
                text.append("`");
                text
            },
            SwitchOutcome::Unknown => {
                let mut text = String::from_str("Unknown version `");
                text.append(version);
                text.append("`");
                text
            },
        }
    }
}

/// A switch ends as `Switched` exactly when the release is installed at the
/// time of the call, whatever is published; and the pointer is written
/// exactly then, with the release's identifier.
pub proof fn lemma_switched_iff_installed(
    step: SwitchStep,
    pointer: Option<Seq<char>>,
    installed: Seq<Seq<char>>,
    published: Seq<Seq<char>>,
    version: Seq<char>,
)
    requires
        is_first_step(step, installed, version),
    ensures
        switch_outcome(installed, published, version) == SwitchOutcome::Switched
            <==> installed.contains(version),
        switch_outcome(installed, published, version) == SwitchOutcome::Switched
            <==> step is Activate,
        switch_outcome(installed, published, version) == SwitchOutcome::Switched ==> pointer_after(
            pointer,
            step,
        ) == Some(version),
        switch_outcome(installed, published, version) != SwitchOutcome::Switched ==> pointer_after(
            pointer,
            step,
        ) == pointer,
{
}

/// After a switch that ended as `Switched`, reading the pointer gives the
/// release back as it was requested, provided that its identifier neither
/// begins nor ends with white space.
pub proof fn lemma_switch_then_read(
    step: SwitchStep,
    pointer: Option<Seq<char>>,
    installed: Seq<Seq<char>>,
    version: Seq<char>,
)
    requires
        is_first_step(step, installed, version),
        installed.contains(version),
        is_trimmed(version),
    ensures
        pointer_after(pointer, step) is Some,
        trimmed(pointer_after(pointer, step)->0) == version,
{
}

} // verus!
