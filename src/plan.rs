//! The launcher's decisions: which servers exist, whether to initialize or
//! sync them, what to build, and how to start each one.

use vstd::prelude::*;
use vstd::string::*;
use crate::args::ParsedArgs;
use crate::text::{decimal, decimal_text, same_text, trim, trimmed_equals};

verus! {

/// Directory that holds one subdirectory per server.
pub const SUBSERVER_DIR: &'static str = "./sub/";

/// What `git pull` prints when there was nothing to fetch.
pub const UP_TO_DATE: &'static str = "Already up to date.";

/// The part a server plays; the backend is the one that takes a port.
#[derive(Clone, Copy, Debug, PartialEq, Eq, Structural)]
pub enum Role {
    Frontend,
    Backend,
}

/// A managed server: its name, which is also its directory and repository
/// name, and its role.
#[derive(Clone, Debug)]
pub struct ServerDescriptor {
    pub name: String,
    pub role: Role,
}

/// The names of `descs`, in order.
pub open spec fn names_of(descs: Seq<ServerDescriptor>) -> Seq<Seq<char>> {
    descs.map_values(|d: ServerDescriptor| d.name@)
}

/// The servers this launcher manages: the frontend first, then the backend.
pub fn subserver_descriptors() -> (r: Vec<ServerDescriptor>)
    ensures
        names_of(r@) == seq!["floormedia_frontend"@, "floormedia_backend"@],
        r@[0].role == Role::Frontend,
        r@[1].role == Role::Backend,
{
    let mut r: Vec<ServerDescriptor> = Vec::new();
    r.push(ServerDescriptor { name: String::from_str("floormedia_frontend"), role: Role::Frontend });
    r.push(ServerDescriptor { name: String::from_str("floormedia_backend"), role: Role::Backend });
    assert(names_of(r@) =~= seq!["floormedia_frontend"@, "floormedia_backend"@]);
    r
}

/// The directory that holds the servers.
pub fn get_subserver_root_cwd() -> (r: String)
    ensures
        r@ == SUBSERVER_DIR@,
{
    String::from_str(SUBSERVER_DIR)
}

/// The directory of the server called `name`.
pub fn get_subserver_cwd(name: &str) -> (r: String)
    ensures
        r@ == SUBSERVER_DIR@ + name@,
{
    let mut r = String::from_str(SUBSERVER_DIR);
    r.append(name);
    r
}

/// `s` up to and including its last `/`; empty when it holds none.
pub open spec fn through_last_slash(s: Seq<char>) -> Seq<char>
    decreases s.len(),
{
    if s.len() == 0 || s.last() == '/' {
        s
    } else {
        through_last_slash(s.drop_last())
    }
}

/// The base of the servers' repository addresses: the project's own remote
/// address cut after its last `/`.
pub fn base_url_of(remote: &str) -> (r: String)
    ensures
        r@ == through_last_slash(remote@),
{
    let n = remote.unicode_len();
    let mut k: usize = n;
    assert(remote@.subrange(0, n as int) == remote@);
    while k > 0 && remote.get_char(k - 1) != '/'
        invariant
            n == remote@.len(),
            k <= n,
            through_last_slash(remote@) == through_last_slash(remote@.subrange(0, k as int)),
        decreases k,
    {
        assert(remote@.subrange(0, k as int).drop_last() == remote@.subrange(0, k - 1));
        k = k - 1;
    }
    String::from_str(remote.substring_char(0, k))
}

/// The repository address of the server called `name`.
pub fn clone_url(base: &str, name: &str) -> (r: String)
    ensures
        r@ == base@ + name@ + ".git"@,
{
    let mut r = String::from_str(base);
    r.append(name);
    r.append(".git");
    r
}

/// Whether `entries` holds an entry called `name`.
pub open spec fn listed(entries: Seq<String>, name: Seq<char>) -> bool {
    exists|j: int| 0 <= j < entries.len() && (#[trigger] entries[j])@ == name
}

/// Whether the root directory could be listed, and every server has a
/// subdirectory in it. Other entries are ignored.
pub open spec fn all_present(descs: Seq<ServerDescriptor>, listing: Option<Vec<String>>) -> bool {
    &&& listing is Some
    &&& forall|i: int| 0 <= i < descs.len() ==> listed(listing->0@, #[trigger] descs[i].name@)
}

/// Whether `entries` holds an entry called `name`.
fn has_entry(entries: &Vec<String>, name: &str) -> (r: bool)
    ensures
        r == listed(entries@, name@),
{
    let mut j: usize = 0;
    while j < entries.len()
        invariant
            j <= entries@.len(),
            forall|k: int| 0 <= k < j ==> (#[trigger] entries@[k])@ != name@,
        decreases entries@.len() - j,
    {
        if same_text(entries[j].as_str(), name) {
            return true;
        }
        j = j + 1;
    }
    false
}

/// Whether every server already has its directory. `listing` is the names
/// of the entries of the root directory, or `None` when it cannot be read.
pub fn subservers_present(descs: &Vec<ServerDescriptor>, listing: &Option<Vec<String>>) -> (r: bool)
    ensures
        r == all_present(descs@, *listing),
{
    match listing {
        None => false,
        Some(entries) => {
            let mut i: usize = 0;
            while i < descs.len()
                invariant
                    i <= descs@.len(),
                    *listing == Some(*entries),
                    forall|k: int| 0 <= k < i ==> listed(entries@, #[trigger] descs@[k].name@),
                decreases descs@.len() - i,
            {
                if !has_entry(entries, descs[i].name.as_str()) {
                    return false;
                }
                i = i + 1;
            }
            true
        },
    }
}

/// The launcher's first decision.
#[derive(Clone, Copy, Debug, PartialEq, Eq, Structural)]
pub enum Phase {
    /// Some server is missing: create the root, clone and build all.
    Initialize,
    /// Every server is there: pull each and rebuild those that changed.
    Sync,
}

/// Sync when every server is present, else initialize.
pub fn presence_phase(descs: &Vec<ServerDescriptor>, listing: &Option<Vec<String>>) -> (r: Phase)
    ensures
        r == (if all_present(descs@, *listing) { Phase::Sync } else { Phase::Initialize }),
{
    if subservers_present(descs, listing) {
        Phase::Sync
    } else {
        Phase::Initialize
    }
}

/// What a pull did to a server's sources.
#[derive(Clone, Copy, Debug, PartialEq, Eq, Structural)]
pub enum PullResult {
    Unchanged,
    Updated,
}

/// A pull is `Unchanged` exactly when its output, trimmed, is the
/// up-to-date sentence.
pub open spec fn pull_result(output: Seq<char>) -> PullResult {
    if trim(output) == UP_TO_DATE@ {
        PullResult::Unchanged
    } else {
        PullResult::Updated
    }
}

/// Classifies the output of one pull.
pub fn classify_pull(output: &str) -> (r: PullResult)
    ensures
        r == pull_result(output@),
{
    if trimmed_equals(output, UP_TO_DATE) {
        PullResult::Unchanged
    } else {
        PullResult::Updated
    }
}

/// The positions of the servers to rebuild after a sync: those whose pull
/// output says they were updated, in order, each once.
pub fn subservers_sync(pull_outputs: &Vec<String>) -> (r: Vec<usize>)
    ensures
        forall|a: int, b: int| 0 <= a < b < r@.len() ==> r@[a] < r@[b],
        forall|a: int| 0 <= a < r@.len() ==> r@[a] < pull_outputs@.len(),
        forall|i: int|
            0 <= i < pull_outputs@.len() ==> (r@.contains(i as usize) <==> pull_result(
                #[trigger] pull_outputs@[i]@,
            ) == PullResult::Updated),
{
    let mut r: Vec<usize> = Vec::new();
    let mut i: usize = 0;
    while i < pull_outputs.len()
        invariant
            i <= pull_outputs@.len(),
            forall|a: int, b: int| 0 <= a < b < r@.len() ==> r@[a] < r@[b],
            forall|a: int| 0 <= a < r@.len() ==> r@[a] < i,
            forall|k: int|
                0 <= k < i ==> (r@.contains(k as usize) <==> pull_result(
                    #[trigger] pull_outputs@[k]@,
                ) == PullResult::Updated),
        decreases pull_outputs@.len() - i,
    {
        let ghost before = r@;
        if classify_pull(pull_outputs[i].as_str()) == PullResult::Updated {
            r.push(i);
            assert forall|k: int| 0 <= k < i implies (#[trigger] r@.contains(k as usize) <==> before.contains(
                k as usize,
            )) by {
                if r@.contains(k as usize) {
                    let w = choose|w: int| 0 <= w < r@.len() && r@[w] == k as usize;
                    if w < before.len() {
                        assert(before[w] == k as usize);
                    }
                }
                if before.contains(k as usize) {
                    let w = choose|w: int| 0 <= w < before.len() && before[w] == k as usize;
                    assert(r@[w] == k as usize);
                }
            }
            assert(r@[before.len() as int] == i);
        } else {
            assert(!r@.contains(i));
        }
        i = i + 1;
    }
    r
}

/// One step of preparing the servers before launch.
#[derive(Clone, Debug)]
pub enum Step {
    /// Create the root directory.
    CreateRoot,
    /// Clone the server at `index` from `url` into the root directory.
    Clone { index: usize, url: String },
    /// Install the dependencies of the server at `index`, then build it.
    Build { index: usize },
}

/// Whether `s` clones the server at `i` of `descs` from under `base`.
pub open spec fn is_clone_of(s: Step, i: int, descs: Seq<ServerDescriptor>, base: Seq<char>) -> bool {
    s matches Step::Clone { index, url } && index == i && url@ == base + descs[i].name@ + ".git"@
}

/// The steps of an initialization: the root directory is created if absent,
/// then every server is cloned, then every server is built, in the order of
/// `descs`.
pub fn subservers_initialize(descs: &Vec<ServerDescriptor>, base_url: &str, root_exists: bool) -> (r:
    Vec<Step>)
    requires
        descs@.len() < usize::MAX / 4,
    ensures
        ({
            let n = descs@.len() as int;
            let off: int = if root_exists { 0 } else { 1 };
            &&& r@.len() == off + 2 * n
            &&& !root_exists ==> r@[0] is CreateRoot
            &&& forall|i: int| 0 <= i < n ==> is_clone_of(#[trigger] r@[off + i], i, descs@, base_url@)
            &&& forall|i: int|
                0 <= i < n ==> (#[trigger] r@[off + n + i] matches Step::Build { index } && index == i)
        }),
{
    let ghost off: int = if root_exists { 0 } else { 1 };
    let n = descs.len();
    let mut r: Vec<Step> = Vec::new();
    if !root_exists {
        r.push(Step::CreateRoot);
    }
    let mut i: usize = 0;
    while i < n
        invariant
            n == descs@.len(),
            i <= n,
            r@.len() == off + i,
            off == (if root_exists { 0int } else { 1int }),
            !root_exists ==> r@[0] is CreateRoot,
            forall|k: int| 0 <= k < i ==> is_clone_of(#[trigger] r@[off + k], k, descs@, base_url@),
        decreases n - i,
    {
        let url = clone_url(base_url, descs[i].name.as_str());
        r.push(Step::Clone { index: i, url });
        i = i + 1;
    }
    let mut j: usize = 0;
    while j < n
        invariant
            n == descs@.len(),
            n < usize::MAX / 4,
            j <= n,
            r@.len() == off + n + j,
            off == (if root_exists { 0int } else { 1int }),
            !root_exists ==> r@[0] is CreateRoot,
            forall|k: int| 0 <= k < n ==> is_clone_of(#[trigger] r@[off + k], k, descs@, base_url@),
            forall|k: int|
                0 <= k < j ==> (#[trigger] r@[off + n + k] matches Step::Build { index } && index == k),
        decreases n - j,
    {
        r.push(Step::Build { index: j });
        j = j + 1;
    }
    r
}

/// How one server is started with the package tool.
#[derive(Debug)]
pub struct StartCommand {
    /// Position of the server among the descriptors.
    pub index: usize,
    /// Arguments handed to the package tool.
    pub args: Vec<String>,
    /// Working directory of the child.
    pub dir: String,
    /// Whether the child's output is captured and tagged, rather than
    /// passed through untouched.
    pub capture_output: bool,
}

/// The characters of each string of `v`.
pub open spec fn views_of(v: Seq<String>) -> Seq<Seq<char>> {
    v.map_values(|s: String| s@)
}

/// The package tool's arguments for a server: `start`, followed for the
/// backend, when a port is given, by `--` and `-p=<port>`.
pub open spec fn start_args(role: Role, port: Option<u16>) -> Seq<Seq<char>> {
    if role == Role::Backend && port is Some {
        seq!["start"@, "--"@, "-p="@ + decimal(port->0 as nat)]
    } else {
        seq!["start"@]
    }
}

/// Whether `c` starts the server at `i` of `descs` as `args` asks.
pub open spec fn starts(c: StartCommand, i: int, descs: Seq<ServerDescriptor>, args: ParsedArgs) -> bool {
    &&& c.index == i
    &&& views_of(c.args@) == start_args(descs[i].role, args.server_alternate_port)
    &&& c.dir@ == SUBSERVER_DIR@ + descs[i].name@
    &&& c.capture_output == args.distinguish_child_stdouts
}

/// The start command of the server `desc`, at position `index`.
pub fn start_command(desc: &ServerDescriptor, index: usize, args: &ParsedArgs) -> (r: StartCommand)
    ensures
        r.index == index,
        views_of(r.args@) == start_args(desc.role, args.server_alternate_port),
        r.dir@ == SUBSERVER_DIR@ + desc.name@,
        r.capture_output == args.distinguish_child_stdouts,
{
    let mut v: Vec<String> = Vec::new();
    v.push(String::from_str("start"));
    if let Some(port) = args.server_alternate_port {
        if desc.role == Role::Backend {
            v.push(String::from_str("--"));
            let mut p = String::from_str("-p=");
            let digits = decimal_text(port);
            p.append(digits.as_str());
            v.push(p);
        }
    }
    assert(views_of(v@) =~= start_args(desc.role, args.server_alternate_port));
    StartCommand {
        index,
        args: v,
        dir: get_subserver_cwd(desc.name.as_str()),
        capture_output: args.distinguish_child_stdouts,
    }
}

/// The start commands of all servers, in the order of `descs`.
pub fn subservers_run(descs: &Vec<ServerDescriptor>, args: &ParsedArgs) -> (r: Vec<StartCommand>)
    ensures
        r@.len() == descs@.len(),
        forall|i: int| 0 <= i < descs@.len() ==> starts(#[trigger] r@[i], i, descs@, *args),
{
    let mut r: Vec<StartCommand> = Vec::new();
    let mut i: usize = 0;
    while i < descs.len()
        invariant
            i <= descs@.len(),
            r@.len() == i,
            forall|k: int| 0 <= k < i ==> starts(#[trigger] r@[k], k, descs@, *args),
        decreases descs@.len() - i,
    {
        let c = start_command(&descs[i], i, args);
        r.push(c);
        i = i + 1;
    }
    r
}

} // verus!
