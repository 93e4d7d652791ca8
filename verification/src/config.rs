//! The user's connection and player settings.
use vstd::prelude::*;

use crate::text::{trim, trim_trailing_slashes, trimmed, without_trailing_slashes};

verus! {

/// Settings the user keeps between runs: where Plex is, how to authenticate,
/// which player to start and which library was chosen last.
#[derive(Debug)]
pub struct AppConfig {
    pub server_url: String,
    pub token: String,
    pub vlc_path: String,
    pub selected_library_id: String,
}

impl Clone for AppConfig {
    fn clone(&self) -> (r: Self)
        ensures
            r == *self,
    {
        AppConfig {
            server_url: self.server_url.clone(),
            token: self.token.clone(),
            vlc_path: self.vlc_path.clone(),
            selected_library_id: self.selected_library_id.clone(),
        }
    }
}

impl Default for AppConfig {
    fn default() -> (r: Self)
        ensures
            r.server_url@ == Seq::<char>::empty(),
            r.token@ == Seq::<char>::empty(),
            r.vlc_path@ == Seq::<char>::empty(),
            r.selected_library_id@ == Seq::<char>::empty(),
    {
        AppConfig {
            server_url: String::new(),
            token: String::new(),
            vlc_path: String::new(),
            selected_library_id: String::new(),
        }
    }
}

/// A server address as the Plex API paths are joined to it: surrounding white
/// space removed, then trailing slashes removed.
pub open spec fn normalized_server_url(url: Seq<char>) -> Seq<char> {
    without_trailing_slashes(trimmed(url))
}

impl AppConfig {
    /// The configuration is complete enough to talk to Plex: the normalized
    /// server address and the trimmed token are both non-empty.
    pub open spec fn ready(self) -> bool {
        normalized_server_url(self.server_url@).len() > 0 && trimmed(self.token@).len() > 0
    }

    /// The server address without surrounding white space and trailing slashes.
    pub fn server_url_trimmed(&self) -> (r: String)
        ensures
            r@ == normalized_server_url(self.server_url@),
    {
        trim_trailing_slashes(trim(self.server_url.as_str())).to_owned()
    }

    /// Whether a server address and a token are both present.
    pub fn is_ready(&self) -> (b: bool)
        ensures
            b == self.ready(),
    {
        let url = self.server_url_trimmed();
        url.as_str().unicode_len() != 0 && trim(self.token.as_str()).unicode_len() != 0
    }
}

} // verus!
