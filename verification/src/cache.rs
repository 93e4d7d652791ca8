//! Where poster thumbnails are kept on disk: one file per movie, named by its
//! rating key, in a single directory.
use vstd::prelude::*;

use std::path::PathBuf;

use crate::paths::{join_path, joined_path, single_component};

verus! {

/// The directory that holds the cached posters.
#[derive(Clone, Debug)]
pub struct ThumbnailCache {
    root: PathBuf,
}

/// The file name of the poster of the movie with rating key `rating_key`.
pub open spec fn poster_name(rating_key: Seq<char>) -> Seq<char> {
    rating_key + ".jpg"@
}

impl ThumbnailCache {
    /// The cache directory.
    pub closed spec fn root_dir(self) -> PathBuf {
        self.root
    }

    /// A cache kept in the directory `root`.
    pub fn new(root: PathBuf) -> (c: Self)
        ensures
            c.root_dir() == root,
    {
        ThumbnailCache { root }
    }

    /// The cache directory.
    pub fn root(&self) -> (r: &PathBuf)
        ensures
            *r == self.root_dir(),
    {
        &self.root
    }

    /// The file name under which the poster of `rating_key` is stored.
    pub fn poster_file_name(rating_key: &str) -> (r: String)
        ensures
            r@ == poster_name(rating_key@),
    {
        let mut name = String::from_str(rating_key);
        name.append(".jpg");
        name
    }

    /// The path of the poster of `rating_key`: its file name in the cache
    /// directory. One file per movie: no other rating key without path
    /// separators or `:` has its poster at the same path.
    pub fn poster_path(&self, rating_key: &str) -> (r: PathBuf)
        ensures
            r == joined_path(self.root_dir(), poster_name(rating_key@)),
            plain_key(rating_key@) ==> forall|other: Seq<char>|
                plain_key(other) && #[trigger] joined_path(self.root_dir(), poster_name(other)) == r
                    ==> other == rating_key@,
    {
        let name = Self::poster_file_name(rating_key);
        let r = join_path(&self.root, name.as_str());
        proof {
            if plain_key(rating_key@) {
                lemma_poster_name_is_one_component(rating_key@);
                assert forall|other: Seq<char>|
                    plain_key(other) && #[trigger] joined_path(self.root_dir(), poster_name(other))
                        == r implies other == rating_key@ by {
                    lemma_poster_name_is_one_component(other);
                    lemma_one_poster_name_per_key(other, rating_key@);
                }
            }
        }
        r
    }
}

/// A rating key that names a file of its own: no `/`, `\` or `:` in it.
pub open spec fn plain_key(key: Seq<char>) -> bool {
    forall|i: int| 0 <= i < key.len() ==> key[i] != '/' && key[i] != '\\' && key[i] != ':'
}

/// The poster file name of a plain key is a single path component.
proof fn lemma_poster_name_is_one_component(key: Seq<char>)
    requires
        plain_key(key),
    ensures
        single_component(poster_name(key)),
{
    reveal_strlit(".jpg");
    reveal_strlit(".");
    reveal_strlit("..");
    let n = poster_name(key);
    assert(n.len() == key.len() + 4);
    assert(n != "."@) by {
        assert(n.len() != "."@.len());
    }
    assert(n != ".."@) by {
        assert(n.len() != ".."@.len());
    }
    assert forall|i: int| 0 <= i < n.len() implies n[i] != '/' && n[i] != '\\' && n[i] != ':' by {
        if i < key.len() {
            assert(n[i] == key[i]);
        } else {
            assert(n[i] == ".jpg"@[i - key.len()]);
        }
    }
}

/// One poster file name per movie: different rating keys give different
/// file names (each of which `poster_path` joins to the one cache directory).
pub proof fn lemma_one_poster_name_per_key(k1: Seq<char>, k2: Seq<char>)
    ensures
        poster_name(k1) == poster_name(k2) <==> k1 == k2,
{
    reveal_strlit(".jpg");
    if poster_name(k1) == poster_name(k2) {
        assert(poster_name(k1).len() == k1.len() + ".jpg"@.len());
        assert(poster_name(k2).len() == k2.len() + ".jpg"@.len());
        assert(k1.len() == k2.len());
        assert(k1 =~= poster_name(k1).take(k1.len() as int));
        assert(k2 =~= poster_name(k2).take(k2.len() as int));
    }
}

} // verus!
