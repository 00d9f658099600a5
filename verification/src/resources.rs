//! The pages the daemon serves and where their files are looked for.

use vstd::prelude::*;
use vstd::string::*;

verus! {

/// A page the daemon can answer with.
#[derive(Clone, Copy, PartialEq, Eq, Structural, Debug)]
pub enum Page {
    Hello,
    NotFound,
}

/// Asks `std::path::Path::exists` whether anything stands at `p`.
///
/// The answer depends on the file system at the moment of the call, so
/// nothing is claimed of it.
#[verifier::external_body]
fn path_exists(p: &str) -> (found: bool) {
    std::path::Path::new(p).exists()
}

impl Page {
    /// The file name of the page.
    pub open spec fn file_name(self) -> Seq<char> {
        match self {
            Page::Hello => "hello.html"@,
            Page::NotFound => "404.html"@,
        }
    }

    /// The directory that holds the installed pages.
    pub open spec fn system_dir() -> Seq<char> {
        "/usr/share/hello/"@
    }

    /// Where the file `p` is taken from: from the current directory when it
    /// was found there, from the system directory otherwise.
    pub open spec fn chosen_path(p: Seq<char>, found_locally: bool) -> Seq<char> {
        if found_locally {
            p
        } else {
            Self::system_dir() + p
        }
    }

    /// The file name of the page.
    pub fn name(&self) -> (name: &'static str)
        ensures
            name@ == self.file_name(),
    {
        match self {
            Page::Hello => "hello.html",
            Page::NotFound => "404.html",
        }
    }

    /// The path of the page's file: the file name alone when such a file
    /// stands in the current directory, else the file under the system
    /// directory.
    pub fn get_path(&self) -> (path: String)
        ensures
            path@ == self.file_name() || path@ == Self::system_dir() + self.file_name(),
    {
        Page::lookup_path(self.name())
    }

    /// Looks for `p` in the current directory and falls back to the system
    /// directory. Whether the file is there is known only to the file system:
    /// the result is one of the two paths of `chosen_path`.
    pub fn lookup_path(p: &str) -> (path: String)
        ensures
            path@ == p@ || path@ == Self::system_dir() + p@,
    {
        let found = path_exists(p);
        Page::choose_path(p, found)
    }

    /// The path for `p`, given whether `p` was found in the current
    /// directory.
    pub fn choose_path(p: &str, found_locally: bool) -> (path: String)
        ensures
            path@ == Self::chosen_path(p@, found_locally),
    {
        if found_locally {
            p.to_owned()
        } else {
            "/usr/share/hello/".to_owned().concat(p)
        }
    }
}

} // verus!
