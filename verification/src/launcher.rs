//! The process supervisor's decisions: resolving the worker executable's
//! path in development and production layouts, the working directory to
//! spawn it in, and the environment the worker is launched with. The actual
//! spawn, the stream readers and the background task live outside the
//! verified library and only carry these decisions out.

use vstd::prelude::*;
use vstd::multiset::Multiset;
use crate::paths::join_spec;
use crate::paths::join_str;
use crate::paths::parent_chars;
use crate::paths::parent_or_dot;
use crate::paths::parent_or_dot_str;
use crate::paths::parent_spec;
use crate::text::chars_to_string;
use crate::text::dec_str;
use crate::text::push_str_chars;
use crate::text::str_to_chars;
use crate::text::u64_to_chars;

verus! {

/// What the supervisor knows about the process it runs in. The embedding
/// application fills this in once at startup: whether this is a development
/// build, where the current executable and the packaged resource directory
/// stand, and the host's process identifier.
pub struct LaunchContext {
    pub debug_build: bool,
    pub exe_path: String,
    pub resource_dir: String,
    pub host_pid: u32,
}

/// Whether the supervisor runs in development mode.
pub fn is_debug(ctx: &LaunchContext) -> (r: bool)
    ensures
        r == ctx.debug_build,
{
    ctx.debug_build
}

/// The project root in a development tree: three directories up from the
/// executable (which sits in `<root>/target/<profile>/`), or `.` when the
/// path is too shallow.
pub open spec fn dev_root_spec(exe: Seq<char>) -> Seq<char> {
    match parent_spec(exe) {
        Some(p1) => match parent_spec(p1) {
            Some(p2) => match parent_spec(p2) {
                Some(p3) => p3,
                None => seq!['.'],
            },
            None => seq!['.'],
        },
        None => seq!['.'],
    }
}

/// The directory the fixed worker layout hangs under: the development root
/// in a development build, the packaged resource directory otherwise.
pub open spec fn project_root_spec(debug_build: bool, exe: Seq<char>, resource_dir: Seq<char>) -> Seq<
    char,
> {
    if debug_build {
        dev_root_spec(exe)
    } else {
        resource_dir
    }
}

/// Where the worker executable stands: `assets/src-go/bin/main.exe` under
/// the project root.
pub open spec fn worker_path_spec(
    debug_build: bool,
    exe: Seq<char>,
    resource_dir: Seq<char>,
) -> Seq<char> {
    join_spec(
        join_spec(
            join_spec(
                join_spec(project_root_spec(debug_build, exe, resource_dir), "assets"@),
                "src-go"@,
            ),
            "bin"@,
        ),
        "main.exe"@,
    )
}

/// The development root for `exe`, as `dev_root_spec` describes.
fn dev_root(exe: &str) -> (r: String)
    ensures
        r@ == dev_root_spec(exe@),
{
    let ev = str_to_chars(exe);
    let dot = || -> (d: String)
        ensures
            d@ == seq!['.'],
    {
        let mut v: Vec<char> = Vec::new();
        v.push('.');
        assert(v@ =~= seq!['.']);
        chars_to_string(&v)
    };
    match parent_chars(&ev) {
        Some(p1) => match parent_chars(&p1) {
            Some(p2) => match parent_chars(&p2) {
                Some(p3) => chars_to_string(&p3),
                None => dot(),
            },
            None => dot(),
        },
        None => dot(),
    }
}

/// Resolve the worker executable's path for `ctx`, as `worker_path_spec`
/// describes.
pub fn resolve_worker_path(ctx: &LaunchContext) -> (r: String)
    ensures
        r@ == worker_path_spec(ctx.debug_build, ctx.exe_path@, ctx.resource_dir@),
{
    let root = if ctx.debug_build {
        dev_root(ctx.exe_path.as_str())
    } else {
        let rv = str_to_chars(ctx.resource_dir.as_str());
        chars_to_string(&rv)
    };
    let a = join_str(root.as_str(), "assets");
    let b = join_str(a.as_str(), "src-go");
    let c = join_str(b.as_str(), "bin");
    join_str(c.as_str(), "main.exe")
}

/// The directory the worker is spawned in: the directory holding the worker
/// executable, or `.` when the path has no parent.
pub fn resolve_working_dir(worker_path: &str) -> (r: String)
    ensures
        r@ == parent_or_dot(worker_path@),
{
    parent_or_dot_str(worker_path)
}

/// The pairs the supervisor itself injects into the worker's environment,
/// before any baked-in configuration: the mode, the project root for the
/// worker's own use, the asset directory, in production the resource
/// directory, the flag marking a supervised launch, and the host's process
/// identifier.
pub open spec fn supervisor_env_spec(
    debug_build: bool,
    exe: Seq<char>,
    resource_dir: Seq<char>,
    host_pid: u32,
) -> Seq<(Seq<char>, Seq<char>)> {
    let root = project_root_spec(debug_build, exe, resource_dir);
    if debug_build {
        seq![
            ("APP_ENV"@, "development"@),
            ("MIGHTYPIE_ROOT_DIR"@, parent_or_dot(root)),
            ("PUBLIC_DIR_ASSETS"@, "src-tauri/assets"@),
            ("LAUNCHER_STARTED_FROM_TAURI"@, "1"@),
            ("TAURI_PROCESS_PID"@, dec_str(host_pid as nat)),
        ]
    } else {
        seq![
            ("APP_ENV"@, "production"@),
            ("TAURI_RESOURCE_DIR"@, resource_dir),
            ("MIGHTYPIE_ROOT_DIR"@, root),
            ("PUBLIC_DIR_ASSETS"@, "assets"@),
            ("LAUNCHER_STARTED_FROM_TAURI"@, "1"@),
            ("TAURI_PROCESS_PID"@, dec_str(host_pid as nat)),
        ]
    }
}

/// The views of a list of owned environment pairs.
pub open spec fn pairs_view(v: Seq<(String, String)>) -> Seq<(Seq<char>, Seq<char>)> {
    v.map_values(|p: (String, String)| (p.0@, p.1@))
}

/// Copy a literal into an owned string.
fn word(s: &str) -> (r: String)
    ensures
        r@ == s@,
{
    let mut v: Vec<char> = Vec::new();
    push_str_chars(&mut v, s);
    chars_to_string(&v)
}

/// The environment the worker is launched with: the supervisor's own pairs,
/// then every baked-in pair, in order. The caller lets the child inherit the
/// host's environment and lays these pairs on top.
pub fn supervisor_env(ctx: &LaunchContext, baked: &Vec<(String, String)>) -> (r: Vec<
    (String, String),
>)
    ensures
        pairs_view(r@) == supervisor_env_spec(
            ctx.debug_build,
            ctx.exe_path@,
            ctx.resource_dir@,
            ctx.host_pid,
        ) + pairs_view(baked@),
{
    let mut r: Vec<(String, String)> = Vec::new();
    let root = if ctx.debug_build {
        dev_root(ctx.exe_path.as_str())
    } else {
        let rv = str_to_chars(ctx.resource_dir.as_str());
        chars_to_string(&rv)
    };
    if ctx.debug_build {
        r.push((word("APP_ENV"), word("development")));
        r.push((word("MIGHTYPIE_ROOT_DIR"), parent_or_dot_str(root.as_str())));
        r.push((word("PUBLIC_DIR_ASSETS"), word("src-tauri/assets")));
    } else {
        r.push((word("APP_ENV"), word("production")));
        r.push((word("TAURI_RESOURCE_DIR"), root.clone()));
        r.push((word("MIGHTYPIE_ROOT_DIR"), root.clone()));
        r.push((word("PUBLIC_DIR_ASSETS"), word("assets")));
    }
    r.push((word("LAUNCHER_STARTED_FROM_TAURI"), word("1")));
    let pid_chars = u64_to_chars(ctx.host_pid as u64);
    r.push((word("TAURI_PROCESS_PID"), chars_to_string(&pid_chars)));
    let n: usize = baked.len();
    let ghost base = pairs_view(r@);
    let mut i: usize = 0;
    while i < n
        invariant
            n == baked@.len(),
            i <= n,
            pairs_view(r@) == base + pairs_view(baked@.subrange(0, i as int)),
        decreases n - i,
    {
        let k = baked[i].0.clone();
        let v = baked[i].1.clone();
        let ghost kv = (k@, v@);
        let ghost prev = r@;
        r.push((k, v));
        proof {
            assert(pairs_view(r@) =~= pairs_view(prev).push(kv));
            assert(pairs_view(baked@.subrange(0, i + 1 as int)) =~= pairs_view(
                baked@.subrange(0, i as int),
            ).push(kv));
            assert(pairs_view(r@) =~= base + pairs_view(baked@.subrange(0, i + 1 as int)));
        }
        i = i + 1;
    }
    assert(baked@.subrange(0, n as int) =~= baked@);
    assert(pairs_view(r@) =~= supervisor_env_spec(
        ctx.debug_build,
        ctx.exe_path@,
        ctx.resource_dir@,
        ctx.host_pid,
    ) + pairs_view(baked@));
    r
}

/// The key/value pairs of the JSON object `s`, when `s` is an object of
/// string keys and string values, and nothing otherwise. The pairs are a
/// function of the text alone; only the order they are handed out in is
/// not, so they are named as a multiset.
pub uninterp spec fn json_env_pairs(s: Seq<char>) -> Option<Multiset<(Seq<char>, Seq<char>)>>;

/// Relies on `serde_json::from_str::<HashMap<String, String>>`: a JSON
/// object of string keys and string values parsed into its pairs, in no
/// fixed order; anything else parses to nothing.
#[verifier::external_body]
fn parse_env_json(json: &str) -> (r: Option<Vec<(String, String)>>)
    ensures
        r matches Some(v) ==> (json_env_pairs(json@) matches Some(m) && pairs_view(
            v@,
        ).to_multiset() == m),
        r is None ==> json_env_pairs(json@) is None,
{
    match serde_json::from_str::<std::collections::HashMap<String, String>>(json) {
        Ok(m) => Some(m.into_iter().collect()),
        Err(_) => None,
    }
}

/// The baked-in configuration pairs carried in `json`: exactly the pairs of
/// the JSON object, in some order, and none when nothing was baked in or
/// the text does not parse.
pub fn baked_env_pairs(json: Option<&str>) -> (r: Vec<(String, String)>)
    ensures
        json is None ==> r@.len() == 0,
        json matches Some(s) ==> (match json_env_pairs(s@) {
            Some(m) => pairs_view(r@).to_multiset() == m,
            None => r@.len() == 0,
        }),
{
    match json {
        Some(s) => match parse_env_json(s) {
            Some(v) => v,
            None => Vec::new(),
        },
        None => Vec::new(),
    }
}

/// The launch decision for `ctx`, once the caller has checked whether the
/// resolved worker executable exists: either spawn it in its own directory,
/// or give up on this worker — a missing worker is an error for the worker's
/// availability, never for the host.
pub enum LaunchDecision {
    Launch { worker_path: String, working_dir: String },
    MissingWorker { worker_path: String },
}

/// Decide the launch, as the variant contracts describe.
pub fn plan_launch(ctx: &LaunchContext, worker_exists: bool) -> (d: LaunchDecision)
    ensures
        ({
            let wp = worker_path_spec(ctx.debug_build, ctx.exe_path@, ctx.resource_dir@);
            match d {
                LaunchDecision::Launch { worker_path, working_dir } => worker_exists
                    && worker_path@ == wp && working_dir@ == parent_or_dot(wp),
                LaunchDecision::MissingWorker { worker_path } => !worker_exists && worker_path@
                    == wp,
            }
        }),
{
    let worker_path = resolve_worker_path(ctx);
    if worker_exists {
        let working_dir = resolve_working_dir(worker_path.as_str());
        LaunchDecision::Launch { worker_path, working_dir }
    } else {
        LaunchDecision::MissingWorker { worker_path }
    }
}

} // verus!
