//! The facts of this checkout that decide what can run in it, and the spelling of the
//! executable every surface invokes.
//!
//! The facts themselves are read from the filesystem by whoever holds one; here they are
//! plain values. Availability is derived from these facts and from the requirements a
//! command declares. Nothing checks for a directory inside a template, a recipe or a
//! completion script.

use vstd::prelude::*;

use crate::command::model::Requirement;
use crate::strings::str_eq;

verus! {

/// Where a repository-local build of the Rust executable is looked for, first.
pub const NATIVE_RELEASE_PATH: &'static str = "apps/majordomus-cli/target/release/majordomus";

/// Where a repository-local build of the Rust executable is looked for, second.
pub const NATIVE_DEBUG_PATH: &'static str = "apps/majordomus-cli/target/debug/majordomus";

/// The environment variable that names the Rust executable explicitly, for a machine that
/// keeps it somewhere else.
pub const NATIVE_BIN_ENV: &'static str = "MAJORDOMUS_NATIVE_BIN";

/// The shell tool's path inside a checkout.
pub const SHELL_BIN: &'static str = "bin/majordomus";

/// What this checkout is, as far as running a command is concerned.
#[derive(Debug, Clone, PartialEq, Eq)]
pub struct Facts {
    /// The repository root the facts were read at.
    pub root: String,
    /// The layer is initialised here.
    pub layer: bool,
    /// This is a git checkout (a directory or, in a worktree, a file).
    pub git: bool,
    /// `cargo` is on the path.
    pub cargo: bool,
    /// The Rust executable, when one was resolved.
    pub native: Option<String>,
    /// The shell tool, when this checkout ships one.
    pub shell: Option<String>,
    /// The site tree is present.
    pub site: bool,
    /// The site's build dependencies are installed.
    pub site_dependencies: bool,
    /// A browser automation runtime is installed.
    pub browser: bool,
}

/// Is one requirement met by these facts?
pub open spec fn met(f: Facts, r: Requirement) -> bool {
    match r {
        Requirement::Always => true,
        Requirement::Repository => f.layer,
        Requirement::Git => f.git,
        Requirement::CargoToolchain => f.cargo,
        Requirement::NativeExecutable => f.native is Some,
        Requirement::Site => f.site,
        Requirement::SiteDependencies => f.site_dependencies,
        Requirement::Browser => f.browser,
    }
}

/// The position of the first unmet requirement, or the count when all are met.
pub open spec fn first_unmet_at(f: Facts, rs: Seq<Requirement>) -> int
    decreases rs.len(),
{
    if rs.len() == 0 {
        0
    } else if !met(f, rs[0]) {
        0
    } else {
        1 + first_unmet_at(f, rs.drop_first())
    }
}

/// A path as a surface spells it: relative to the root when it is inside the checkout,
/// as it is when it is not.
pub open spec fn spelled_from(root: Seq<char>, path: Seq<char>) -> Seq<char> {
    if path == root {
        seq![]
    } else if root.len() < path.len() && path.subrange(0, root.len() as int) == root && path[root.len() as int]
        == '/' {
        path.subrange(root.len() as int + 1, path.len() as int)
    } else {
        path
    }
}

proof fn lemma_first_unmet(f: Facts, rs: Seq<Requirement>, k: int)
    requires
        0 <= k <= rs.len(),
        forall|j: int| 0 <= j < k ==> met(f, #[trigger] rs[j]),
        k < rs.len() ==> !met(f, rs[k]),
    ensures
        first_unmet_at(f, rs) == k,
    decreases k,
{
    if k > 0 {
        let t = rs.drop_first();
        assert forall|j: int| 0 <= j < k - 1 implies met(f, #[trigger] t[j]) by {
            assert(t[j] == rs[j + 1]);
        }
        if k < rs.len() {
            assert(t[k - 1] == rs[k]);
        }
        assert(met(f, rs[0]));
        lemma_first_unmet(f, t, k - 1);
    }
}

impl Facts {
    /// Facts with nothing available, for a checkout that holds nothing, or a test that
    /// wants to prove a command is refused.
    pub fn none(root: &str) -> (r: Self)
        ensures
            r.root@ == root@,
            !r.layer && !r.git && !r.cargo && !r.site && !r.site_dependencies && !r.browser,
            r.native is None,
            r.shell is None,
    {
        Facts {
            root: String::from_str(root),
            layer: false,
            git: false,
            cargo: false,
            native: None,
            shell: None,
            site: false,
            site_dependencies: false,
            browser: false,
        }
    }

    /// Is one requirement met here?
    pub fn meets(&self, requirement: Requirement) -> (r: bool)
        ensures
            r == met(*self, requirement),
    {
        match requirement {
            Requirement::Always => true,
            Requirement::Repository => self.layer,
            Requirement::Git => self.git,
            Requirement::CargoToolchain => self.cargo,
            Requirement::NativeExecutable => self.native.is_some(),
            Requirement::Site => self.site,
            Requirement::SiteDependencies => self.site_dependencies,
            Requirement::Browser => self.browser,
        }
    }

    /// The first unmet requirement, in the order the command declared them, so that the
    /// reason a person is shown is the first thing they have to fix.
    pub fn first_unmet(&self, requirements: &[Requirement]) -> (r: Option<Requirement>)
        ensures
            first_unmet_at(*self, requirements@) < requirements@.len() ==> r == Some(
                requirements@[first_unmet_at(*self, requirements@)],
            ),
            first_unmet_at(*self, requirements@) >= requirements@.len() ==> r is None,
    {
        let mut i: usize = 0;
        while i < requirements.len()
            invariant
                i <= requirements@.len(),
                forall|j: int| 0 <= j < i ==> met(*self, #[trigger] requirements@[j]),
            decreases requirements.len() - i,
        {
            if !self.meets(requirements[i]) {
                proof {
                    lemma_first_unmet(*self, requirements@, i as int);
                }
                return Some(requirements[i]);
            }
            i += 1;
        }
        proof {
            lemma_first_unmet(*self, requirements@, requirements@.len() as int);
        }
        None
    }

    /// The Rust executable as a surface should spell it: relative to the root when it is
    /// inside the checkout, as resolved when it is not.
    pub fn native_command(&self) -> (r: Option<String>)
        ensures
            match self.native {
                Some(n) => r matches Some(x) && x@ == spelled_from(self.root@, n@),
                None => r is None,
            },
    {
        match &self.native {
            None => None,
            Some(native) => {
                let root = self.root.as_str();
                let path = native.as_str();
                if str_eq(root, path) {
                    return Some(String::new());
                }
                let n = root.unicode_len();
                let m = path.unicode_len();
                if n < m {
                    let head = path.substring_char(0, n);
                    if str_eq(head, root) && path.get_char(n) == '/' {
                        return Some(String::from_str(path.substring_char(n + 1, m)));
                    }
                }
                Some(String::from_str(path))
            },
        }
    }
}

} // verus!
