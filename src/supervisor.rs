//! Decisions of the caption-process supervisor: where to look for the binary,
//! how to launch it, the slot that holds the one supervised process, and the
//! reader of its event stream. The process itself and its pipes live with
//! the caller, which performs what these functions decide.
use vstd::prelude::*;
use vstd::string::*;

verus! {

/// `part` appended to the directory `base`, as a relative path component.
pub open spec fn join_spec(base: Seq<char>, part: Seq<char>) -> Seq<char> {
    if base.len() == 0 {
        part
    } else if base.last() == '/' {
        base + part
    } else {
        base + seq!['/'] + part
    }
}

/// Joins a relative component onto a directory path.
pub fn join_path(base: &str, part: &str) -> (r: String)
    ensures
        r@ == join_spec(base@, part@),
{
    let n = base.unicode_len();
    if n == 0 {
        return part.to_owned();
    }
    let last = base.get_char(n - 1);
    let mut r = base.to_owned();
    if last != '/' {
        r.append("/");
    }
    r.append(part);
    proof {
        reveal_strlit("/");
        if last != '/' {
            assert(r@ =~= base@ + seq!['/'] + part@);
        }
    }
    r
}

/// The places searched for the caption binary, in the order they are tried:
/// the directories bundled with the application first (next to the
/// executable, its `resources/`, `../resources/`, then the resource directory
/// the host resolves), then the system install directory, then the developer
/// build locations. The system install directory is a Linux one, searched
/// only when `linux` holds.
pub open spec fn candidates_spec(
    exe_dir: Seq<char>,
    resource_path: Option<Seq<char>>,
    home: Seq<char>,
    name: Seq<char>,
    linux: bool,
) -> Seq<Seq<char>> {
    let bundled = seq![
        join_spec(exe_dir, name),
        join_spec(join_spec(exe_dir, "resources"@), name),
        join_spec(join_spec(join_spec(exe_dir, ".."@), "resources"@), name),
    ];
    let resolved = match resource_path {
        Some(p) => seq![p],
        None => Seq::empty(),
    };
    let system = if linux {
        seq![join_spec("/usr/lib/zipy"@, name)]
    } else {
        Seq::empty()
    };
    bundled + resolved + system + seq![
        "../zig-april-captions/zig-out/bin/"@ + name,
        home + "/workspace/local/zig/zig-april-captions/zig-out/bin/"@ + name,
    ]
}

/// Lists the candidate locations of the binary `name` in search order.
pub fn binary_candidates(
    exe_dir: &str,
    resource_path: Option<String>,
    home: &str,
    name: &str,
    linux: bool,
) -> (r: Vec<String>)
    ensures
        r@.map_values(|s: String| s@) == candidates_spec(
            exe_dir@,
            match resource_path {
                Some(p) => Some(p@),
                None => None,
            },
            home@,
            name@,
            linux,
        ),
{
    let mut r: Vec<String> = Vec::new();
    r.push(join_path(exe_dir, name));
    let res = join_path(exe_dir, "resources");
    r.push(join_path(res.as_str(), name));
    let up = join_path(exe_dir, "..");
    let up_res = join_path(up.as_str(), "resources");
    r.push(join_path(up_res.as_str(), name));
    let ghost resolved: Option<Seq<char>> = match &resource_path {
        Some(p) => Some(p@),
        None => None,
    };
    match resource_path {
        Some(p) => r.push(p),
        None => {},
    }
    if linux {
        r.push(join_path("/usr/lib/zipy", name));
    }
    let dev = String::from_str("../zig-april-captions/zig-out/bin/");
    r.push(dev.concat(name));
    let user = String::from_str(home).concat("/workspace/local/zig/zig-april-captions/zig-out/bin/");
    r.push(user.concat(name));
    proof {
        assert(r@.map_values(|s: String| s@) =~= candidates_spec(exe_dir@, resolved, home@, name@, linux));
    }
    r
}

/// Whether `i` is the first position of `exists` that holds `true`.
pub open spec fn first_found(exists: Seq<bool>, i: int) -> bool {
    0 <= i < exists.len() && exists[i] && forall|j: int| 0 <= j < i ==> !exists[j]
}

/// Picks the first candidate that exists; when none does, the bare binary
/// name, left for the system search path to resolve.
pub fn resolve_binary(candidates: &Vec<String>, exists: &Vec<bool>, name: &str) -> (r: String)
    requires
        candidates@.len() == exists@.len(),
    ensures
        (exists|i: int| first_found(exists@, i) && r@ == candidates@[i]@) || ((forall|i: int|
            0 <= i < exists@.len() ==> !exists@[i]) && r@ == name@),
{
    let mut i: usize = 0;
    while i < exists.len()
        invariant
            candidates@.len() == exists@.len(),
            i <= exists@.len(),
            forall|j: int| 0 <= j < i ==> !exists@[j],
        decreases exists@.len() - i,
    {
        if exists[i] {
            assert(first_found(exists@, i as int));
            return candidates[i].clone();
        }
        i = i + 1;
    }
    name.to_owned()
}

/// The arguments of the caption process: JSON output, the monitor source when
/// that is the chosen audio source, and the model path.
pub open spec fn args_spec(model_path: Seq<char>, audio_source: Seq<char>) -> Seq<Seq<char>> {
    if audio_source == "monitor"@ {
        seq!["--json"@, "--monitor"@, model_path]
    } else {
        seq!["--json"@, model_path]
    }
}

/// Builds the argument list of the caption process.
pub fn caption_args(model_path: &str, audio_source: &str) -> (r: Vec<String>)
    ensures
        r@.map_values(|s: String| s@) == args_spec(model_path@, audio_source@),
{
    let mut r: Vec<String> = Vec::new();
    r.push(String::from_str("--json"));
    let source = audio_source.to_owned();
    let monitor = String::from_str("monitor");
    if source == monitor {
        r.push(String::from_str("--monitor"));
    }
    r.push(model_path.to_owned());
    proof {
        assert(r@.map_values(|s: String| s@) =~= args_spec(model_path@, audio_source@));
    }
    r
}

/// The permission bits to set on the binary so that it can be executed, or
/// `None` when some execute bit is already set.
pub fn exec_permission_fix(mode: u32) -> (r: Option<u32>)
    ensures
        r == (if mode & 0o111 == 0 {
            Some(mode | 0o111)
        } else {
            None
        }),
{
    if mode & 0o111 == 0 {
        Some(mode | 0o111)
    } else {
        None
    }
}

/// The directory part of a path: what precedes its last `/` (`/` itself
/// when that is the first character), or nothing when it has no `/`.
pub open spec fn dir_spec(path: Seq<char>) -> Seq<char> {
    if exists|k: int| 0 <= k < path.len() && path[k] == '/' {
        let k = choose|k: int|
            0 <= k < path.len() && path[k] == '/' && forall|j: int| k < j < path.len() ==> path[j]
                != '/';
        if k == 0 {
            seq!['/']
        } else {
            path.subrange(0, k)
        }
    } else {
        Seq::empty()
    }
}

/// The directory of the binary, where its shared libraries lie.
pub fn library_dir(path: &str) -> (r: String)
    ensures
        r@ == dir_spec(path@),
{
    let n = path.unicode_len();
    let mut k: usize = n;
    while k > 0
        invariant
            n == path@.len(),
            k <= n,
            forall|j: int| k <= j < n ==> path@[j] != '/',
        decreases k,
    {
        if path.get_char(k - 1) == '/' {
            let p = k - 1;
            assert(0 <= p < path@.len() && path@[p as int] == '/' && forall|j: int|
                p < j < path@.len() ==> path@[j] != '/');
            let ghost c = choose|c: int|
                0 <= c < path@.len() && path@[c] == '/' && forall|j: int|
                    c < j < path@.len() ==> path@[j] != '/';
            assert(c == p) by {
                if c < p {
                    assert(path@[p as int] != '/');
                } else if c > p {
                    assert(path@[c] != '/');
                }
            }
            if p == 0 {
                proof {
                    reveal_strlit("/");
                    assert("/"@ =~= seq!['/']);
                }
                return String::from_str("/");
            }
            return path.substring_char(0, p).to_owned();
        }
        k = k - 1;
    }
    String::new()
}

/// What the supervisor needs to launch the caption process.
pub struct LaunchPlan {
    pub program: String,
    pub args: Vec<String>,
    /// Directory put on the library search path of the child.
    pub library_dir: String,
}

/// Decides how to launch the binary found at `binary_path`: an error naming
/// the path when the binary does not exist, else the program, its arguments
/// and its library directory.
pub fn launch_plan(binary_path: &str, exists: bool, model_path: &str, audio_source: &str) -> (r:
    Result<LaunchPlan, String>)
    ensures
        !exists ==> (r matches Err(msg) && msg@ == "Binary not found at path: "@ + binary_path@),
        exists ==> (r matches Ok(plan) && plan.program@ == binary_path@ && plan.args@.map_values(
            |s: String| s@,
        ) == args_spec(model_path@, audio_source@) && plan.library_dir@ == dir_spec(binary_path@)),
{
    if !exists {
        let msg = String::from_str("Binary not found at path: ").concat(binary_path);
        return Err(msg);
    }
    Ok(
        LaunchPlan {
            program: binary_path.to_owned(),
            args: caption_args(model_path, audio_source),
            library_dir: library_dir(binary_path),
        },
    )
}

/// The slot of the one supervised process; `H` is the caller's process handle.
pub struct Supervisor<H> {
    pub process: Option<H>,
}

impl<H> Supervisor<H> {
    /// A supervisor with no process.
    pub fn new() -> (r: Self)
        ensures
            r.process is None,
    {
        Supervisor { process: None }
    }

    /// Whether a process handle is held. An exited process that was not yet
    /// stopped still counts.
    pub fn is_running(&self) -> (r: bool)
        ensures
            r == self.process is Some,
    {
        self.process.is_some()
    }

    /// Releases the held process, if any, for the caller to terminate and
    /// reap. With no process this changes nothing and hands nothing back.
    pub fn stop(&mut self) -> (r: Option<H>)
        ensures
            r == old(self).process,
            final(self).process is None,
            old(self).process is None ==> r is None && *final(self) == *old(self),
    {
        let prev = self.process.take();
        prev
    }

    /// Holds `handle` as the supervised process and hands back the one held
    /// before, which the caller must terminate: at most one process is
    /// supervised at a time.
    pub fn install(&mut self, handle: H) -> (r: Option<H>)
        ensures
            r == old(self).process,
            final(self).process == Some(handle),
    {
        let prev = self.process.take();
        self.process = Some(handle);
        prev
    }
}

} // verus!
