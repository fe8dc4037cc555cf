//! Records produced by the developer harness and the naming rules of the
//! measured-response fixtures it replays.

use std::path::PathBuf;
use vstd::prelude::*;
use crate::text::{chars_of, copy_range, find_from, exec_find};

verus! {

#[verifier::external_type_specification]
#[verifier::external_body]
pub struct ExPathBuf(PathBuf);

/// `PathBuf::clone`: nothing is assumed of the copy.
pub assume_specification[ <PathBuf as Clone>::clone ](path: &PathBuf) -> (copy: PathBuf);

/// The files of a generated synthetic example.
#[derive(Debug, Clone, PartialEq, Eq)]
pub struct GeneratedExample {
    pub output_directory: PathBuf,
    pub project_file: PathBuf,
    pub filter_wav: PathBuf,
    pub roon_zip: PathBuf,
}

/// The files and verdict of a measured-response offline replay.
#[derive(Debug, Clone, PartialEq)]
pub struct GeneratedPhase4Analysis {
    pub output_directory: PathBuf,
    pub project_file: PathBuf,
    pub filter_wav: PathBuf,
    pub readme: PathBuf,
    pub numerical_passed: bool,
    pub verification_state: String,
}

/// The files and verdict of a multi-rate export.
#[derive(Debug, Clone, PartialEq, Eq)]
pub struct GeneratedPhase6Export {
    pub output_directory: PathBuf,
    pub project_file: PathBuf,
    pub readme: PathBuf,
    pub filter_wavs: Vec<PathBuf>,
    pub roon_zip: Option<PathBuf>,
    pub cross_rate_passed: bool,
    pub export_eligible: bool,
    pub verification_state: String,
}

/// The files and best candidate of a subwoofer-integration ranking.
#[derive(Debug, Clone, PartialEq, Eq)]
pub struct GeneratedSubAnalysis {
    pub output_directory: PathBuf,
    pub ranking_json: PathBuf,
    pub ranking_csv: PathBuf,
    pub readme: PathBuf,
    pub best_candidate_id: String,
}

pub open spec fn starts_with(s: Seq<char>, prefix: Seq<char>) -> bool {
    prefix.len() <= s.len() && s.take(prefix.len() as int) == prefix
}

/// The measurement role a response id declares by its prefix.
pub open spec fn spec_expected_role(id: Seq<char>) -> Option<Seq<char>> {
    if starts_with(id, "combined-"@) {
        Some("combined"@)
    } else if starts_with(id, "main-"@) {
        Some("main-only"@)
    } else if starts_with(id, "sub-"@) {
        Some("sub-only"@)
    } else {
        None
    }
}

fn has_prefix(id: &str, prefix: &str) -> (b: bool)
    ensures
        b == starts_with(id@, prefix@),
{
    let chars = chars_of(id);
    let wanted = chars_of(prefix);
    if wanted.len() > chars.len() {
        return false;
    }
    let head = copy_range(&chars, 0, wanted.len());
    let found = exec_find(&head, &wanted);
    proof {
        assert(head@ == chars@.take(wanted@.len() as int));
        if head@ == wanted@ {
            assert(head@.subrange(0, wanted@.len() as int) == head@);
        } else if wanted@.len() <= head@.len() {
            assert(head@.subrange(0, wanted@.len() as int) == head@);
            assert(find_from(head@, wanted@, 1) is None);
        }
    }
    match found {
        Some(p) => p == 0,
        None => false,
    }
}

/// `combined-…` ids are combined responses, `main-…` main-only and
/// `sub-…` sub-only; any other id declares no role.
pub fn expected_role(id: &str) -> (role: Option<&'static str>)
    ensures
        match role {
            Some(r) => spec_expected_role(id@) == Some(r@),
            None => spec_expected_role(id@) is None,
        },
{
    if has_prefix(id, "combined-") {
        Some("combined")
    } else if has_prefix(id, "main-") {
        Some("main-only")
    } else if has_prefix(id, "sub-") {
        Some("sub-only")
    } else {
        None
    }
}

} // verus!
