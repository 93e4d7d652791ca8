//! Where the configuration file and the poster cache are kept.
use vstd::prelude::*;

use std::path::PathBuf;

verus! {

#[verifier::external_type_specification]
#[verifier::external_body]
pub struct ExPathBuf(PathBuf);

/// Trusted: `PathBuf::clone` returns a path equal to the one cloned.
pub assume_specification[ <PathBuf as Clone>::clone ](p: &PathBuf) -> (r: PathBuf)
    ensures
        r == *p,
;

/// What `Path::join` returns for `base` and `name`: `name` adjoined to
/// `base` as a new component (or `name` alone where it is absolute). The
/// separator is fixed when the program is compiled for its platform; the call
/// reads neither the environment nor the disk.
pub uninterp spec fn joined_path(base: PathBuf, name: Seq<char>) -> PathBuf;

/// A name that `Path::join` adjoins as one new final component on every
/// platform: not empty, not `.` or `..`, and without `/`, `\` or `:` (which
/// could make it absolute or start a Windows prefix).
pub open spec fn single_component(name: Seq<char>) -> bool {
    &&& name.len() > 0
    &&& name != "."@
    &&& name != ".."@
    &&& forall|i: int| 0 <= i < name.len() ==> name[i] != '/' && name[i] != '\\' && name[i] != ':'
}

/// Trusted: calls `Path::join`. Its result is the path named by
/// `joined_path` for these arguments. Where `name` is a single relative
/// component, `PathBuf::push` documents that it extends `base` by it, with a
/// separator that depends on `base` alone, so no other such name joins to
/// the same path. How the path is spelled (the separator, the absolute
/// case) is not written out here.
#[verifier::external_body]
pub(crate) fn join_path(base: &PathBuf, name: &str) -> (r: PathBuf)
    ensures
        r == joined_path(*base, name@),
        single_component(name@) ==> forall|other: Seq<char>|
            single_component(other) && #[trigger] joined_path(*base, other) == r ==> other
                == name@,
{
    base.join(name)
}

/// The directories and the file the launcher keeps its data in.
#[derive(Clone, Debug)]
pub struct AppPaths {
    pub config_dir: PathBuf,
    pub config_file: PathBuf,
    pub cache_dir: PathBuf,
}

/// The launcher's paths: a `config.toml` in the working directory
/// `current_dir` wins, with the cache beside it; otherwise the platform's
/// configuration and cache directories `project_dirs`, where known, with
/// `config.toml` in the former; otherwise the working directory again.
pub fn choose_app_paths(
    current_dir: PathBuf,
    local_config_exists: bool,
    project_dirs: Option<(PathBuf, PathBuf)>,
) -> (r: AppPaths)
    ensures
        local_config_exists || project_dirs is None ==> {
            &&& r.config_dir == current_dir
            &&& r.config_file == joined_path(current_dir, "config.toml"@)
            &&& r.cache_dir == joined_path(current_dir, "cache"@)
        },
        !local_config_exists ==> (project_dirs matches Some(dirs) ==> {
            &&& r.config_dir == dirs.0
            &&& r.config_file == joined_path(dirs.0, "config.toml"@)
            &&& r.cache_dir == dirs.1
        }),
        r.config_file == joined_path(r.config_dir, "config.toml"@),
{
    if !local_config_exists {
        if let Some((config_dir, cache_dir)) = project_dirs {
            let config_file = join_path(&config_dir, "config.toml");
            return AppPaths { config_file, config_dir, cache_dir };
        }
    }
    let config_file = join_path(&current_dir, "config.toml");
    let cache_dir = join_path(&current_dir, "cache");
    AppPaths { config_file, config_dir: current_dir, cache_dir }
}

} // verus!
