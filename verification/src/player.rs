//! How the external VLC player is started for a movie: which program, with
//! which arguments.
use vstd::prelude::*;

use crate::text::{trim, trimmed};

verus! {

#[verifier::external_type_specification]
#[verifier::external_body]
pub struct ExIoError(std::io::Error);

/// Why VLC could not be started.
#[derive(Debug)]
pub enum PlayerError {
    /// No player path is configured.
    MissingPath,
    /// The configured player path does not exist.
    MissingExecutable(String),
    /// Starting the player process failed.
    LaunchFailed(std::io::Error),
}

/// A player process to start: the program and its arguments.
pub struct VlcLaunch {
    pub program: String,
    pub args: Vec<String>,
}

/// The player's arguments: where the title is not blank, it is passed as the
/// window title and as the title format, then comes the media URL.
pub open spec fn vlc_args(media_url: Seq<char>, media_title: Seq<char>) -> Seq<Seq<char>> {
    if trimmed(media_title).len() > 0 {
        seq!["--meta-title"@, media_title, "--input-title-format"@, media_title, media_url]
    } else {
        seq![media_url]
    }
}

/// The texts of a list of strings.
pub open spec fn texts(v: Seq<String>) -> Seq<Seq<char>> {
    v.map_values(|s: String| s@)
}

/// The player process for `media_url` titled `media_title`, started from the
/// trimmed `vlc_path`; `MissingPath` where that path is blank. Whether the
/// program exists is for the caller to check.
pub fn plan_vlc_launch(vlc_path: &str, media_url: &str, media_title: &str) -> (r: Result<VlcLaunch, PlayerError>)
    ensures
        trimmed(vlc_path@).len() == 0 <==> r is Err,
        r matches Err(e) ==> e is MissingPath,
        r matches Ok(l) ==> l.program@ == trimmed(vlc_path@) && texts(l.args@) == vlc_args(
            media_url@,
            media_title@,
        ),
{
    let program = trim(vlc_path);
    if program.unicode_len() == 0 {
        return Err(PlayerError::MissingPath);
    }
    let mut args: Vec<String> = Vec::new();
    if trim(media_title).unicode_len() != 0 {
        args.push(String::from_str("--meta-title"));
        args.push(String::from_str(media_title));
        args.push(String::from_str("--input-title-format"));
        args.push(String::from_str(media_title));
    }
    args.push(String::from_str(media_url));
    proof {
        assert(texts(args@) =~= vlc_args(media_url@, media_title@));
    }
    Ok(VlcLaunch { program: program.to_owned(), args })
}

} // verus!
