//! Where the Windows on-screen keyboard may be installed, in the order the
//! launcher looks for it.
use vstd::prelude::*;

use std::path::PathBuf;

use crate::paths::{join_path, joined_path};

verus! {

/// What `PathBuf::from` makes of a string: the path spelled by that text.
pub uninterp spec fn path_of(text: Seq<char>) -> PathBuf;

/// Trusted: calls `PathBuf::from` on a string slice, which copies its text
/// into a new path and reads neither the environment nor the disk.
#[verifier::external_body]
pub(crate) fn path_from(text: &str) -> (r: PathBuf)
    ensures
        r == path_of(text@),
{
    PathBuf::from(text)
}

/// The keyboard program below a common program files directory.
pub open spec fn keyboard_under(dir: Seq<char>) -> PathBuf {
    joined_path(path_of(dir), "microsoft shared/ink/TabTip.exe"@)
}

/// The keyboard program below the directory that an environment value names,
/// where it is set.
pub open spec fn keyboard_under_var(dir: Option<&str>) -> Seq<PathBuf> {
    match dir {
        Some(d) => seq![keyboard_under(d@)],
        None => Seq::empty(),
    }
}

/// The places the keyboard program is looked for, first to last: below the
/// directories `common_program_files` and `common_program_files_x86` (the
/// values of `CommonProgramFiles` and `CommonProgramFiles(x86)`) where they
/// are set, then at its two usual installed paths.
pub fn touch_keyboard_candidates(
    common_program_files: Option<&str>,
    common_program_files_x86: Option<&str>,
) -> (r: Vec<PathBuf>)
    ensures
        r@ == keyboard_under_var(common_program_files) + keyboard_under_var(
            common_program_files_x86,
        ) + seq![
            path_of("C:\\Program Files\\Common Files\\microsoft shared\\ink\\TabTip.exe"@),
            path_of("C:\\Program Files (x86)\\Common Files\\microsoft shared\\ink\\TabTip.exe"@),
        ],
{
    let mut candidates: Vec<PathBuf> = Vec::new();
    if let Some(dir) = common_program_files {
        candidates.push(join_path(&path_from(dir), "microsoft shared/ink/TabTip.exe"));
    }
    if let Some(dir) = common_program_files_x86 {
        candidates.push(join_path(&path_from(dir), "microsoft shared/ink/TabTip.exe"));
    }
    candidates.push(path_from("C:\\Program Files\\Common Files\\microsoft shared\\ink\\TabTip.exe"));
    candidates.push(
        path_from("C:\\Program Files (x86)\\Common Files\\microsoft shared\\ink\\TabTip.exe"),
    );
    assert(candidates@ =~= keyboard_under_var(common_program_files) + keyboard_under_var(
        common_program_files_x86,
    ) + seq![
        path_of("C:\\Program Files\\Common Files\\microsoft shared\\ink\\TabTip.exe"@),
        path_of("C:\\Program Files (x86)\\Common Files\\microsoft shared\\ink\\TabTip.exe"@),
    ]);
    candidates
}

} // verus!
