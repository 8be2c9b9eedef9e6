//! Which files a crawl of a directory tree picks up: those whose extension
//! is on the allowed list.

use vstd::prelude::*;
use crate::text::views_of;

verus! {

/// Whether a file with extension `ext` (none where it has none, or where
/// it is not valid Unicode) is picked up, given the allowed extensions.
pub open spec fn extension_allowed(ext: Option<Seq<char>>, allowed: Seq<Seq<char>>) -> bool {
    match ext {
        Some(e) => allowed.contains(e),
        None => false,
    }
}

/// Whether the extension `ext` is one of `allowed_ext`.
pub fn ext_allowed(ext: Option<&str>, allowed_ext: &[String]) -> (r: bool)
    ensures
        r == extension_allowed(match ext {
            Some(e) => Some(e@),
            None => None,
        }, views_of(allowed_ext@)),
{
    match ext {
        Some(clean_ext_str) => {
            let mut i: usize = 0;
            while i < allowed_ext.len()
                invariant
                    i <= allowed_ext@.len(),
                    ext == Some(clean_ext_str),
                    forall|k: int| 0 <= k < i ==> #[trigger] allowed_ext@[k]@ != clean_ext_str@,
                decreases allowed_ext@.len() - i,
            {
                if crate::text::same_text(allowed_ext[i].as_str(), clean_ext_str) {
                    proof {
                        assert(views_of(allowed_ext@)[i as int] == clean_ext_str@);
                        assert(views_of(allowed_ext@).contains(clean_ext_str@));
                    }
                    return true;
                }
                i = i + 1;
            }
            proof {
                if views_of(allowed_ext@).contains(clean_ext_str@) {
                    let k = choose|k: int| 0 <= k < allowed_ext@.len() && views_of(allowed_ext@)[k] == clean_ext_str@;
                    assert(allowed_ext@[k]@ == clean_ext_str@);
                }
            }
            false
        },
        None => false,
    }
}

/// A crawl of the files under a root directory with allowed extensions.
pub struct DirectoryCrawler {
    root_path: String,
    allowed_extensions: Vec<String>,
}

impl DirectoryCrawler {
    pub closed spec fn root(self) -> Seq<char> {
        self.root_path@
    }

    pub closed spec fn allowed(self) -> Seq<Seq<char>> {
        views_of(self.allowed_extensions@)
    }

    /// A crawl of `root` picking up files with one of `extensions`.
    pub fn new(root: &str, extensions: Vec<String>) -> (r: Self)
        ensures
            r.root() == root@,
            r.allowed() == views_of(extensions@),
    {
        DirectoryCrawler { root_path: root.to_string(), allowed_extensions: extensions }
    }

    /// The directory the crawl starts from.
    pub fn root_path(&self) -> (r: &str)
        ensures
            r@ == self.root(),
    {
        self.root_path.as_str()
    }

    /// Whether a file with extension `ext` is picked up.
    pub fn accepts(&self, ext: Option<&str>) -> (r: bool)
        ensures
            r == extension_allowed(match ext {
                Some(e) => Some(e@),
                None => None,
            }, self.allowed()),
    {
        ext_allowed(ext, self.allowed_extensions.as_slice())
    }
}

} // verus!
