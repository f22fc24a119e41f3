//! Sandboxes: which paths lie inside a workspace, and what running a command in
//! it gives back.
//!
//! Paths are lists of components, each component the bytes of a name. The caller
//! resolves links and looks at the disk.

use vstd::prelude::*;

use crate::name_map::NameMap;
use crate::text::join2;

verus! {

/// Errors that can occur inside a sandbox operation.
#[derive(Debug)]
pub enum SandboxError {
    /// An error of a file or process operation.
    Io(String),
    /// Returned when a caller-supplied path would escape the workspace root.
    PathTraversal(String),
    /// A catch-all for other errors.
    Other(String),
}

impl SandboxError {
    /// The message of this error.
    pub open spec fn text(&self) -> Seq<char> {
        match self {
            SandboxError::Io(what) => "io error: "@ + what@,
            SandboxError::PathTraversal(path) => "path traversal rejected: "@ + path@,
            SandboxError::Other(what) => what@,
        }
    }

    /// The message of this error.
    pub fn to_string(&self) -> (r: String)
        ensures
            r@ == self.text(),
    {
        match self {
            SandboxError::Io(what) => join2("io error: ", what.as_str()),
            SandboxError::PathTraversal(path) => join2("path traversal rejected: ", path.as_str()),
            SandboxError::Other(what) => what.clone(),
        }
    }
}

/// Options for running a command.
pub struct ExecOptions {
    /// Additional environment variables to inject into the child process.
    pub env: NameMap<String>,
    /// Optional data written to the child's stdin.
    pub stdin: Option<String>,
}

impl Default for ExecOptions {
    fn default() -> (r: Self)
        ensures
            r.env.wf(),
            r.env@ == Map::<Seq<char>, String>::empty(),
            r.stdin is None,
    {
        ExecOptions { env: NameMap::new(), stdin: None }
    }
}

/// The result of running a command.
///
/// A non-zero exit code is no error; it is surfaced here so callers can decide
/// what to do.
#[derive(Debug)]
pub struct ExecResult {
    /// Captured stdout.
    pub stdout: String,
    /// Captured stderr.
    pub stderr: String,
    /// Process exit code (0 = success by convention).
    pub exit_code: i32,
}

impl ExecResult {
    /// The result of a command that ended. One that was ended by a signal has no
    /// exit code; it counts as -1.
    pub fn new(stdout: String, stderr: String, code: Option<i32>) -> (r: Self)
        ensures
            r.stdout == stdout,
            r.stderr == stderr,
            r.exit_code == (match code {
                Some(code) => code,
                None => -1i32,
            }),
    {
        let exit_code: i32 = match code {
            Some(code) => code,
            None => -1,
        };
        ExecResult { stdout, stderr, exit_code }
    }
}

/// What a path holds: its components.
pub open spec fn parts_view(path: Seq<Vec<u8>>) -> Seq<Seq<u8>> {
    path.map_values(|part: Vec<u8>| part@)
}

/// Whether a path lies in or under a root, component by component.
pub open spec fn lies_under(root: Seq<Seq<u8>>, path: Seq<Seq<u8>>) -> bool {
    root.len() <= path.len() && path.take(root.len() as int) == root
}

fn same_part(a: &Vec<u8>, b: &Vec<u8>) -> (r: bool)
    ensures
        r == (a@ == b@),
{
    if a.len() != b.len() {
        return false;
    }
    let mut i: usize = 0;
    while i < a.len()
        invariant
            a@.len() == b@.len(),
            i <= a@.len(),
            forall|j: int| 0 <= j < i ==> a@[j] == b@[j],
        decreases a@.len() - i,
    {
        if a[i] != b[i] {
            return false;
        }
        i += 1;
    }
    assert(a@ =~= b@);
    true
}

/// Whether a path lies in or under a root. Both have their links resolved.
pub fn starts_with(path: &Vec<Vec<u8>>, root: &Vec<Vec<u8>>) -> (r: bool)
    ensures
        r == lies_under(parts_view(root@), parts_view(path@)),
{
    if root.len() > path.len() {
        return false;
    }
    let mut i: usize = 0;
    while i < root.len()
        invariant
            root@.len() <= path@.len(),
            i <= root@.len(),
            forall|j: int| 0 <= j < i ==> root@[j]@ == path@[j]@,
        decreases root@.len() - i,
    {
        if !same_part(&root[i], &path[i]) {
            proof {
                if lies_under(parts_view(root@), parts_view(path@)) {
                    let taken = parts_view(path@).take(root@.len() as int);
                    assert(taken[i as int] == parts_view(root@)[i as int]);
                    assert(taken[i as int] == path@[i as int]@);
                }
            }
            return false;
        }
        i += 1;
    }
    assert(parts_view(path@).take(root@.len() as int) =~= parts_view(root@));
    true
}

/// Whether a component stands for the directory above.
pub open spec fn is_up(part: Seq<u8>) -> bool {
    part == seq![46u8, 46u8]
}

/// Where one component leads from a directory. The directory above the first
/// component, that of the file system's root, is that root itself.
pub open spec fn stepped(from: Seq<Seq<u8>>, part: Seq<u8>) -> Seq<Seq<u8>> {
    if !is_up(part) {
        from.push(part)
    } else if from.len() > 1 {
        from.drop_last()
    } else {
        from
    }
}

/// Where components lead from a directory, one after the other.
pub open spec fn descended(from: Seq<Seq<u8>>, rest: Seq<Seq<u8>>) -> Seq<Seq<u8>>
    decreases rest.len(),
{
    if rest.len() == 0 {
        from
    } else {
        stepped(descended(from, rest.drop_last()), rest.last())
    }
}

fn stands_for_above(part: &Vec<u8>) -> (r: bool)
    ensures
        r == is_up(part@),
{
    let up = part.len() == 2 && part[0] == 46 && part[1] == 46;
    assert(up ==> part@ =~= seq![46u8, 46u8]);
    up
}

fn descend(from: Vec<Vec<u8>>, rest: &Vec<Vec<u8>>) -> (r: Vec<Vec<u8>>)
    ensures
        parts_view(r@) == descended(parts_view(from@), parts_view(rest@)),
{
    let ghost start = parts_view(from@);
    let ghost view = parts_view(rest@);
    let mut path = from;
    let mut i: usize = 0;
    assert(view.take(0) =~= Seq::empty());
    while i < rest.len()
        invariant
            view == parts_view(rest@),
            i <= rest@.len(),
            parts_view(path@) == descended(start, view.take(i as int)),
        decreases rest@.len() - i,
    {
        let ghost before = path@;
        let part = rest[i].clone();
        assert(part@ =~= view[i as int]);
        assert(view.take(i + 1).drop_last() =~= view.take(i as int));
        assert(view.take(i + 1).last() == part@);
        if !stands_for_above(&part) {
            path.push(part);
            assert(parts_view(path@) =~= parts_view(before).push(part@));
        } else if path.len() > 1 {
            let _above = path.pop();
            assert(parts_view(path@) =~= parts_view(before).drop_last());
        }
        i += 1;
    }
    assert(view.take(i as int) =~= view);
    path
}

/// The path that a caller-supplied path stands for once its directories are made,
/// decided before any of them is. `ancestor` is the nearest directory that exists,
/// links resolved, and `rest` are the components below it. A path that leads
/// outside the root is rejected.
pub fn plan_path(
    root: &Vec<Vec<u8>>,
    ancestor: Vec<Vec<u8>>,
    rest: Vec<Vec<u8>>,
    rel: &str,
) -> (r: Result<Vec<Vec<u8>>, SandboxError>)
    ensures
        match r {
            Ok(path) => {
                &&& parts_view(path@) == descended(parts_view(ancestor@), parts_view(rest@))
                &&& lies_under(parts_view(root@), parts_view(path@))
            },
            Err(error) => {
                &&& !lies_under(
                    parts_view(root@),
                    descended(parts_view(ancestor@), parts_view(rest@)),
                )
                &&& error matches SandboxError::PathTraversal(what)
                &&& what@ == rel@
            },
        },
        is_let_in(
            parts_view(root@),
            Some(descended(parts_view(ancestor@), parts_view(rest@))),
            rel@,
            r,
        ),
{
    let path = descend(ancestor, &rest);
    if starts_with(&path, root) {
        Ok(path)
    } else {
        Err(SandboxError::PathTraversal(rel.to_owned()))
    }
}

/// What the disk says of a path that a caller supplied, links resolved.
#[derive(Debug)]
pub enum Target {
    /// It exists.
    Existing(Vec<Vec<u8>>),
    /// It does not exist.
    Missing {
        /// Its directory.
        parent: Vec<Vec<u8>>,
        /// Its last component, if it is a name.
        file_name: Option<Vec<u8>>,
    },
}

/// The path that a target stands for.
pub open spec fn resolved(target: Target) -> Option<Seq<Seq<u8>>> {
    match target {
        Target::Existing(path) => Some(parts_view(path@)),
        Target::Missing { parent, file_name } => match file_name {
            Some(name) => Some(parts_view(parent@).push(name@)),
            None => None,
        },
    }
}

/// Whether `r` lets in what `path` says, if it says anything and that lies under the
/// root, and rejects it otherwise.
pub open spec fn is_let_in(
    root: Seq<Seq<u8>>,
    path: Option<Seq<Seq<u8>>>,
    rel: Seq<char>,
    r: Result<Vec<Vec<u8>>, SandboxError>,
) -> bool {
    match path {
        None => r matches Err(SandboxError::Other(_)),
        Some(path) => if lies_under(root, path) {
            r matches Ok(let_in) && parts_view(let_in@) == path
        } else {
            r matches Err(SandboxError::PathTraversal(what)) && what@ == rel
        },
    }
}

/// The path inside the workspace that a caller-supplied path stands for. A path
/// that lies outside the root is rejected.
pub fn safe_path(root: &Vec<Vec<u8>>, target: Target, rel: &str) -> (r: Result<
    Vec<Vec<u8>>,
    SandboxError,
>)
    ensures
        match r {
            Ok(path) => {
                &&& resolved(target) == Some(parts_view(path@))
                &&& lies_under(parts_view(root@), parts_view(path@))
            },
            Err(SandboxError::PathTraversal(what)) => {
                &&& resolved(target) matches Some(path)
                &&& !lies_under(parts_view(root@), path)
                &&& what@ == rel@
            },
            Err(SandboxError::Other(what)) => resolved(target) is None && what@
                == "path has no file name"@,
            Err(_) => false,
        },
        is_let_in(parts_view(root@), resolved(target), rel@, r),
{
    let path = match target {
        Target::Existing(path) => path,
        Target::Missing { parent, file_name } => {
            match file_name {
                None => {
                    return Err(SandboxError::Other("path has no file name".to_owned()));
                },
                Some(name) => {
                    let mut path = parent;
                    assert(parts_view(path@.push(name)) =~= parts_view(path@).push(name@));
                    path.push(name);
                    path
                },
            }
        },
    };
    if starts_with(&path, root) {
        Ok(path)
    } else {
        Err(SandboxError::PathTraversal(rel.to_owned()))
    }
}

/// Whether a host path may be mounted at `at`: the directory of the mount point,
/// links resolved, has to lie inside the workspace.
pub fn check_mount(root: &Vec<Vec<u8>>, parent: &Vec<Vec<u8>>, at: &str) -> (r: Result<
    (),
    SandboxError,
>)
    ensures
        match r {
            Ok(()) => lies_under(parts_view(root@), parts_view(parent@)),
            Err(error) => {
                &&& !lies_under(parts_view(root@), parts_view(parent@))
                &&& error matches SandboxError::PathTraversal(what)
                &&& what@ == at@
            },
        },
{
    if starts_with(parent, root) {
        Ok(())
    } else {
        Err(SandboxError::PathTraversal(at.to_owned()))
    }
}

/// What lies under a directory under the root lies under the root.
pub proof fn law_nesting_stays_inside(
    root: Seq<Seq<u8>>,
    directory: Seq<Seq<u8>>,
    path: Seq<Seq<u8>>,
)
    requires
        lies_under(root, directory),
        lies_under(directory, path),
    ensures
        lies_under(root, path),
{
    assert(path.take(root.len() as int) =~= directory.take(root.len() as int));
}

/// Components that are names are appended to the directory.
pub proof fn law_names_are_appended(from: Seq<Seq<u8>>, rest: Seq<Seq<u8>>)
    requires
        forall|i: int| 0 <= i < rest.len() ==> !is_up(#[trigger] rest[i]),
    ensures
        descended(from, rest) == from + rest,
    decreases rest.len(),
{
    if rest.len() == 0 {
        assert(from + rest =~= from);
    } else {
        let before = rest.drop_last();
        assert forall|i: int| 0 <= i < before.len() implies !is_up(#[trigger] before[i]) by {
            assert(before[i] == rest[i]);
        }
        law_names_are_appended(from, before);
        assert((from + before).push(rest.last()) =~= from + rest);
    }
}

/// A name and the directory above it lead back: below a directory, such a pair
/// changes nothing.
pub proof fn law_up_leads_back(from: Seq<Seq<u8>>, name: Seq<u8>, up: Seq<u8>)
    requires
        from.len() > 0,
        !is_up(name),
        is_up(up),
    ensures
        descended(from, seq![name, up]) == from,
{
    reveal_with_fuel(descended, 3);
    assert(seq![name, up].drop_last() =~= seq![name]);
    assert(seq![name].drop_last() =~= Seq::empty());
    assert(from.push(name).drop_last() =~= from);
}

/// Of the directories on the way to a path under the root, those that are not on
/// the way to the root lie under it too: to make the path makes nothing outside.
pub proof fn law_what_is_made_lies_inside(root: Seq<Seq<u8>>, path: Seq<Seq<u8>>, n: int)
    requires
        lies_under(root, path),
        root.len() <= n <= path.len(),
    ensures
        lies_under(root, path.take(n)),
{
    assert(path.take(n).take(root.len() as int) =~= path.take(root.len() as int));
}

/// A sibling whose name merely begins like the root's is not inside.
pub proof fn law_components_count_as_a_whole(root: Seq<Seq<u8>>, path: Seq<Seq<u8>>)
    requires
        root.len() > 0,
        root.len() <= path.len(),
        path[root.len() - 1] != root[root.len() - 1],
    ensures
        !lies_under(root, path),
{
    assert(path.take(root.len() as int)[root.len() - 1] == path[root.len() - 1]);
}

/// A path lies in or under a root if and only if it is the root followed by something
/// or nothing.
pub proof fn law_inside_is_the_root_and_more(
    root: Seq<Seq<u8>>,
    path: Seq<Seq<u8>>,
    more: Seq<Seq<u8>>,
)
    ensures
        lies_under(root, root + more),
        lies_under(root, path) <==> exists|rest: Seq<Seq<u8>>| path == #[trigger] (root + rest),
        lies_under(root, path) && path.len() == root.len() ==> path == root,
{
    assert((root + more).take(root.len() as int) =~= root);
    if lies_under(root, path) {
        assert(path =~= root + path.skip(root.len() as int));
        if path.len() == root.len() {
            assert(path.take(root.len() as int) =~= path);
        }
    }
    if exists|rest: Seq<Seq<u8>>| path == #[trigger] (root + rest) {
        let rest = choose|rest: Seq<Seq<u8>>| path == #[trigger] (root + rest);
        assert((root + rest).take(root.len() as int) =~= root);
    }
}

/// A path that exists stands for itself; a path that does not stands for its name in
/// its directory, and for nothing if it has no name.
pub proof fn law_targets_stand_for_their_path(
    path: Vec<Vec<u8>>,
    parent: Vec<Vec<u8>>,
    name: Vec<u8>,
)
    ensures
        resolved(Target::Existing(path)) == Some(parts_view(path@)),
        resolved(Target::Missing { parent, file_name: Some(name) }) == Some(
            parts_view(parent@) + seq![name@],
        ),
        resolved(Target::Missing { parent, file_name: None }) is None,
{
    assert(parts_view(parent@) + seq![name@] =~= parts_view(parent@).push(name@));
}

/// A path is shown component by component, byte by byte.
pub proof fn law_paths_are_shown_as_they_are(path: Seq<Vec<u8>>, i: int)
    ensures
        parts_view(path).len() == path.len(),
        0 <= i < path.len() ==> parts_view(path)[i] == path[i]@,
        is_up(seq![46u8, 46u8]),
        forall|part: Seq<u8>| #[trigger] is_up(part) ==> part.len() == 2,
{
}

/// Nothing outside the root is let in, whether it exists or not, and nothing inside it
/// is kept out. What is let in is the path that was asked for, component by component.
pub proof fn law_only_the_inside_is_let_in(
    root: Seq<Seq<u8>>,
    path: Seq<Seq<u8>>,
    rel: Seq<char>,
    r: Result<Vec<Vec<u8>>, SandboxError>,
)
    requires
        is_let_in(root, Some(path), rel, r),
    ensures
        r is Ok <==> root.len() <= path.len() && forall|i: int|
            0 <= i < root.len() ==> #[trigger] path[i] == root[i],
        r matches Ok(let_in) ==> let_in@.len() == path.len() && forall|i: int|
            0 <= i < path.len() ==> (#[trigger] let_in@[i])@ == path[i],
        r matches Err(error) ==> (error matches SandboxError::PathTraversal(told) && told@ == rel),
{
    if lies_under(root, path) {
        assert forall|i: int| 0 <= i < root.len() implies #[trigger] path[i] == root[i] by {
            assert(path.take(root.len() as int)[i] == path[i]);
        }
    } else if root.len() <= path.len() && forall|i: int|
        0 <= i < root.len() ==> #[trigger] path[i] == root[i] {
        assert(path.take(root.len() as int) =~= root);
    }
    if let Ok(let_in) = r {
        assert(parts_view(let_in@).len() == let_in@.len());
        assert forall|i: int| 0 <= i < path.len() implies (#[trigger] let_in@[i])@ == path[i] by {
            assert(parts_view(let_in@)[i] == path[i]);
        }
    }
}

} // verus!
