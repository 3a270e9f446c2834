//! The process layer's view of the service: how it lives relative to the
//! launcher, and whether a process is the dsh service at all.
use vstd::prelude::*;

use crate::single_instance::{utf16_of, utf16_units};
use crate::text::{chars_eq_ic, chars_of, contains, contains_chars, lower_chars, lower_seq, push_str, seq_eq_ic, string_from_chars};

verus! {

/// How a child process lives relative to the launcher.
#[derive(Debug, Clone, Copy, PartialEq, Eq, Structural)]
pub enum ChildLifecycle {
    /// The child breaks away from the launcher's job and outlives it.
    Independent,
    /// The child is in the launcher's job and is reclaimed with it.
    Tied,
}

impl Default for ChildLifecycle {
    fn default() -> (r: Self)
        ensures
            r == ChildLifecycle::Independent,
    {
        ChildLifecycle::Independent
    }
}

/// How far up the parent chain a node ancestor is looked for.
pub const ANCESTOR_MAX_DEPTH: u32 = 6;

/// One process of a snapshot of the process table.
#[derive(Debug, Clone)]
pub struct ProcessEntry {
    pub pid: u32,
    pub parent: u32,
    pub image_name: String,
}

/// A snapshot of the process table.
#[derive(Debug, Clone)]
pub struct ProcessTable {
    pub entries: Vec<ProcessEntry>,
}

/// The entry of `pid` in a snapshot (the first one).
pub open spec fn lookup_from(es: Seq<ProcessEntry>, pid: u32, i: int) -> Option<ProcessEntry>
    decreases es.len() - i,
{
    if i < 0 || i >= es.len() {
        None
    } else if es[i].pid == pid {
        Some(es[i])
    } else {
        lookup_from(es, pid, i + 1)
    }
}

pub open spec fn lookup(es: Seq<ProcessEntry>, pid: u32) -> Option<ProcessEntry> {
    lookup_from(es, pid, 0)
}

/// The process `pid` runs `node.exe` (in any case).
pub open spec fn runs_node(es: Seq<ProcessEntry>, pid: u32) -> bool {
    match lookup(es, pid) {
        Some(e) => seq_eq_ic(e.image_name@, "node.exe"@),
        None => false,
    }
}

/// Some ancestor of `cur`, at most `depth` levels up, runs `node.exe` (a
/// missing, zero or self parent ends the walk).
pub open spec fn node_ancestor(es: Seq<ProcessEntry>, cur: u32, depth: nat) -> bool
    decreases depth,
{
    if depth == 0 {
        false
    } else {
        match lookup(es, cur) {
            None => false,
            Some(e) => {
                let p = e.parent;
                if p == 0 || p == cur {
                    false
                } else if runs_node(es, p) {
                    true
                } else {
                    node_ancestor(es, p, (depth - 1) as nat)
                }
            },
        }
    }
}

impl ProcessTable {
    /// The entry of a process.
    pub fn entry(&self, pid: u32) -> (r: Option<&ProcessEntry>)
        ensures
            match r {
                Some(e) => lookup(self.entries@, pid) == Some(*e),
                None => lookup(self.entries@, pid) is None,
            },
    {
        let mut i: usize = 0;
        while i < self.entries.len()
            invariant
                i <= self.entries.len(),
                lookup(self.entries@, pid) == lookup_from(self.entries@, pid, i as int),
            decreases self.entries.len() - i,
        {
            if self.entries[i].pid == pid {
                return Some(&self.entries[i]);
            }
            i = i + 1;
        }
        None
    }

    /// The image name of a process.
    pub fn image_name(&self, pid: u32) -> (r: Option<&str>)
        ensures
            match r {
                Some(n) => lookup(self.entries@, pid) matches Some(e) && e.image_name@ == n@,
                None => lookup(self.entries@, pid) is None,
            },
    {
        match self.entry(pid) {
            Some(e) => Some(e.image_name.as_str()),
            None => None,
        }
    }

    /// The parent of a process.
    pub fn parent_of(&self, pid: u32) -> (r: Option<u32>)
        ensures
            match r {
                Some(p) => lookup(self.entries@, pid) matches Some(e) && e.parent == p,
                None => lookup(self.entries@, pid) is None,
            },
    {
        match self.entry(pid) {
            Some(e) => Some(e.parent),
            None => None,
        }
    }

    /// The number of processes in the snapshot.
    pub fn len(&self) -> (r: usize)
        ensures
            r == self.entries@.len(),
    {
        self.entries.len()
    }

    pub fn is_empty(&self) -> (r: bool)
        ensures
            r == (self.entries@.len() == 0),
    {
        self.entries.len() == 0
    }
}

fn runs_node_exec(t: &ProcessTable, pid: u32) -> (r: bool)
    ensures
        r == runs_node(t.entries@, pid),
{
    match t.image_name(pid) {
        Some(n) => {
            let nv = chars_of(n);
            let want = chars_of("node.exe");
            chars_eq_ic(nv.as_slice(), want.as_slice())
        },
        None => false,
    }
}

/// Whether some ancestor of `pid` (up to the depth limit) runs `node.exe`:
/// dsh spawns its runners from node.
pub fn is_descendant_of_node(t: &ProcessTable, pid: u32) -> (r: bool)
    ensures
        r == node_ancestor(t.entries@, pid, ANCESTOR_MAX_DEPTH as nat),
{
    let mut current = pid;
    let mut depth: u32 = ANCESTOR_MAX_DEPTH;
    while depth > 0
        invariant
            node_ancestor(t.entries@, pid, ANCESTOR_MAX_DEPTH as nat) == node_ancestor(t.entries@, current, depth as nat),
        decreases depth,
    {
        let p = match t.parent_of(current) {
            Some(p) => p,
            None => return false,
        };
        if p == 0 || p == current {
            return false;
        }
        if runs_node_exec(t, p) {
            return true;
        }
        current = p;
        depth = depth - 1;
    }
    false
}

/// The evidence gathered while identifying a process.
#[derive(Debug, Clone, PartialEq)]
pub struct IdentitySteps {
    pub image_name: String,
    pub image_path: String,
    pub dsh_node: String,
    /// The ground of a positive answer (empty when none matched).
    pub matched: String,
    /// Why the answer is negative or undecided.
    pub note: String,
}

/// Whether a process is dsh: yes, no, or undecided (which is never "no").
#[derive(Debug, Clone, PartialEq)]
pub enum DshIdentity {
    IsDsh { steps: IdentitySteps },
    NotDsh { steps: IdentitySteps },
    Unknown { steps: IdentitySteps },
}

pub open spec fn steps_of(d: DshIdentity) -> IdentitySteps {
    match d {
        DshIdentity::IsDsh { steps } => steps,
        DshIdentity::NotDsh { steps } => steps,
        DshIdentity::Unknown { steps } => steps,
    }
}

pub open spec fn identity_summary(d: DshIdentity) -> Seq<char> {
    match d {
        DshIdentity::IsDsh { steps } => "确认是 dsh（依据："@ + steps.matched@ + "）"@,
        DshIdentity::NotDsh { steps } => "不是 dsh（"@ + steps.note@ + "）"@,
        DshIdentity::Unknown { steps } => "无法判定是否为 dsh（"@ + steps.note@ + "）"@,
    }
}

impl DshIdentity {
    /// Confirmed to be dsh (undecided is not).
    pub fn is_dsh(&self) -> (r: bool)
        ensures
            r == (*self is IsDsh),
    {
        match self {
            DshIdentity::IsDsh { .. } => true,
            _ => false,
        }
    }

    /// Undecided.
    pub fn is_unknown(&self) -> (r: bool)
        ensures
            r == (*self is Unknown),
    {
        match self {
            DshIdentity::Unknown { .. } => true,
            _ => false,
        }
    }

    /// The evidence.
    pub fn steps(&self) -> (r: &IdentitySteps)
        ensures
            *r == steps_of(*self),
    {
        match self {
            DshIdentity::IsDsh { steps } => steps,
            DshIdentity::NotDsh { steps } => steps,
            DshIdentity::Unknown { steps } => steps,
        }
    }

    /// One sentence for the log and the user.
    pub fn summary(&self) -> (r: String)
        ensures
            r@ == identity_summary(*self),
    {
        let mut v: Vec<char> = Vec::new();
        match self {
            DshIdentity::IsDsh { steps } => {
                push_str(&mut v, "确认是 dsh（依据：");
                push_str(&mut v, steps.matched.as_str());
                push_str(&mut v, "）");
            },
            DshIdentity::NotDsh { steps } => {
                push_str(&mut v, "不是 dsh（");
                push_str(&mut v, steps.note.as_str());
                push_str(&mut v, "）");
            },
            DshIdentity::Unknown { steps } => {
                push_str(&mut v, "无法判定是否为 dsh（");
                push_str(&mut v, steps.note.as_str());
                push_str(&mut v, "）");
            },
        }
        assert(v@ =~= identity_summary(*self));
        string_from_chars(v.as_slice())
    }
}

pub open spec fn no_steps(s: IdentitySteps) -> bool {
    s.image_name@ == Seq::<char>::empty() && s.image_path@ == Seq::<char>::empty() && s.dsh_node@
        == Seq::<char>::empty() && s.matched@ == Seq::<char>::empty() && s.note@ == Seq::<char>::empty()
}

/// The verdict part of an identification: which of the three, and on what ground.
pub open spec fn classify_verdict(
    es: Seq<ProcessEntry>,
    pid: u32,
    image_path: Option<Seq<char>>,
    dsh_node: Option<Seq<char>>,
) -> (int, Seq<char>, Seq<char>) {
    // (0 = dsh, 1 = not dsh, 2 = undecided; matched; note)
    match lookup(es, pid) {
        None => (2, Seq::empty(), "无法读取进程镜像名（进程可能已退出或权限不足）"@),
        Some(e) => if !seq_eq_ic(e.image_name@, "node.exe"@) {
            (1, Seq::empty(), "镜像名是 "@ + e.image_name@ + "，不是 node.exe"@)
        } else {
            match image_path {
                None => if node_ancestor(es, pid, ANCESTOR_MAX_DEPTH as nat) {
                    (0, "祖先链上存在 node.exe"@, "镜像名是 node.exe，但无法读取完整映像路径（权限受限）"@)
                } else {
                    (2, Seq::empty(), "镜像名是 node.exe，但无法读取完整映像路径（权限受限）；祖先链上亦未发现 node.exe"@)
                },
                Some(path) => {
                    let lower = lower_seq(path);
                    if contains(lower, "\\windows\\"@) || contains(lower, "\\windowsapps\\"@) {
                        (1, Seq::empty(), "映像位于系统目录，判为无关程序"@)
                    } else if contains(lower, "@deepseek-ai"@) && contains(lower, "dsh"@) {
                        (0, "映像路径含 @deepseek-ai\\dsh"@, Seq::empty())
                    } else if dsh_node is Some && seq_eq_ic(dsh_node->0, path) {
                        (0, "映像路径 == 已解析的 dsh node.exe"@, Seq::empty())
                    } else if node_ancestor(es, pid, ANCESTOR_MAX_DEPTH as nat) {
                        (0, "祖先链上存在 node.exe（dsh 的 runner 形态）"@, Seq::empty())
                    } else {
                        (1, Seq::empty(), "镜像名是 node.exe，但不含 dsh 特征、也不在 dsh 祖先链上"@)
                    }
                },
            }
        },
    }
}

/// When a process is judged to be dsh, and when not: dsh needs an image named
/// `node.exe` and, when the image path is readable, a path outside the system
/// directories that shows dsh (`@deepseek-ai` and `dsh` in it), or equals the
/// installed dsh `node.exe`, or a `node.exe` ancestor within the depth limit;
/// with the path unreadable a `node.exe` ancestor is needed. A readable
/// `node.exe` with none of the three is not dsh; what cannot be read is never
/// judged not dsh.
pub proof fn lemma_dsh_verdict_needs_evidence(
    es: Seq<ProcessEntry>,
    pid: u32,
    image_path: Option<Seq<char>>,
    dsh_node: Option<Seq<char>>,
)
    ensures
        classify_verdict(es, pid, image_path, dsh_node).0 == 0 ==> {
            &&& lookup(es, pid) is Some
            &&& seq_eq_ic(lookup(es, pid)->0.image_name@, "node.exe"@)
            &&& image_path is None ==> node_ancestor(es, pid, ANCESTOR_MAX_DEPTH as nat)
            &&& image_path is Some ==> {
                let p = image_path->0;
                &&& !contains(lower_seq(p), "\\windows\\"@)
                &&& !contains(lower_seq(p), "\\windowsapps\\"@)
                &&& ((contains(lower_seq(p), "@deepseek-ai"@) && contains(lower_seq(p), "dsh"@)) || (dsh_node is Some
                    && seq_eq_ic(dsh_node->0, p)) || node_ancestor(es, pid, ANCESTOR_MAX_DEPTH as nat))
            }
        },
        ({
            &&& lookup(es, pid) is Some
            &&& seq_eq_ic(lookup(es, pid)->0.image_name@, "node.exe"@)
            &&& image_path is Some
            &&& !(contains(lower_seq(image_path->0), "@deepseek-ai"@) && contains(lower_seq(image_path->0), "dsh"@))
            &&& !(dsh_node is Some && seq_eq_ic(dsh_node->0, image_path->0))
            &&& !node_ancestor(es, pid, ANCESTOR_MAX_DEPTH as nat)
        }) ==> classify_verdict(es, pid, image_path, dsh_node).0 == 1,
        lookup(es, pid) is None ==> classify_verdict(es, pid, image_path, dsh_node).0 == 2,
        ({
            &&& lookup(es, pid) is Some
            &&& seq_eq_ic(lookup(es, pid)->0.image_name@, "node.exe"@)
            &&& image_path is None
            &&& !node_ancestor(es, pid, ANCESTOR_MAX_DEPTH as nat)
        }) ==> classify_verdict(es, pid, image_path, dsh_node).0 == 2,
        (lookup(es, pid) is Some && !seq_eq_ic(lookup(es, pid)->0.image_name@, "node.exe"@)) ==> classify_verdict(
            es,
            pid,
            image_path,
            dsh_node,
        ).0 == 1,
{
}

pub open spec fn opt_view_str(o: Option<String>) -> Option<Seq<char>> {
    match o {
        Some(s) => Some(s@),
        None => None,
    }
}

fn text(s: &str) -> (r: String)
    ensures
        r@ == s@,
{
    string_from_chars(chars_of(s).as_slice())
}

fn concat3(a: &str, b: &str, c: &str) -> (r: String)
    ensures
        r@ == a@ + b@ + c@,
{
    let mut v: Vec<char> = Vec::new();
    push_str(&mut v, a);
    push_str(&mut v, b);
    push_str(&mut v, c);
    string_from_chars(v.as_slice())
}

/// Identifies a process from a snapshot of the process table, its image path
/// (when readable) and the installed dsh `node.exe` (when known).
///
/// The image must be `node.exe`; a system directory rules it out; a path into
/// `@deepseek-ai\dsh`, the installed dsh node, or a node ancestor confirm it.
/// What cannot be read leaves the answer undecided, never negative.
pub fn classify_dsh_identity_in(
    table: &ProcessTable,
    pid: u32,
    image_path: Option<String>,
    dsh_node: Option<String>,
) -> (r: DshIdentity)
    ensures
        ({
            let (kind, matched, note) = classify_verdict(
                table.entries@,
                pid,
                opt_view_str(image_path),
                opt_view_str(dsh_node),
            );
            &&& kind == 0 ==> r is IsDsh
            &&& kind == 1 ==> r is NotDsh
            &&& kind == 2 ==> r is Unknown
            &&& steps_of(r).matched@ == matched
            &&& steps_of(r).note@ == note
        }),
{
    let mut steps = IdentitySteps {
        image_name: String::new(),
        image_path: String::new(),
        dsh_node: String::new(),
        matched: String::new(),
        note: String::new(),
    };
    let name = match table.image_name(pid) {
        Some(n) => n,
        None => {
            steps.note = text("无法读取进程镜像名（进程可能已退出或权限不足）");
            return DshIdentity::Unknown { steps };
        },
    };
    steps.image_name = text(name);
    let nv = chars_of(name);
    if !chars_eq_ic(nv.as_slice(), chars_of("node.exe").as_slice()) {
        steps.note = concat3("镜像名是 ", name, "，不是 node.exe");
        return DshIdentity::NotDsh { steps };
    }
    let path = match image_path {
        Some(p) => p,
        None => {
            if is_descendant_of_node(table, pid) {
                steps.note = text("镜像名是 node.exe，但无法读取完整映像路径（权限受限）");
                steps.matched = text("祖先链上存在 node.exe");
                return DshIdentity::IsDsh { steps };
            }
            steps.note = text("镜像名是 node.exe，但无法读取完整映像路径（权限受限）；祖先链上亦未发现 node.exe");
            return DshIdentity::Unknown { steps };
        },
    };
    let pv = chars_of(path.as_str());
    let lower = lower_chars(pv.as_slice());
    let ls = lower.as_slice();
    steps.image_path = path.clone();
    if contains_chars(ls, chars_of("\\windows\\").as_slice()) || contains_chars(ls, chars_of("\\windowsapps\\").as_slice()) {
        steps.note = text("映像位于系统目录，判为无关程序");
        return DshIdentity::NotDsh { steps };
    }
    if contains_chars(ls, chars_of("@deepseek-ai").as_slice()) && contains_chars(ls, chars_of("dsh").as_slice()) {
        steps.matched = text("映像路径含 @deepseek-ai\\dsh");
        return DshIdentity::IsDsh { steps };
    }
    match dsh_node {
        Some(n) => {
            steps.dsh_node = n.clone();
            let dv = chars_of(n.as_str());
            if chars_eq_ic(dv.as_slice(), pv.as_slice()) {
                steps.matched = text("映像路径 == 已解析的 dsh node.exe");
                return DshIdentity::IsDsh { steps };
            }
        },
        None => {},
    }
    if is_descendant_of_node(table, pid) {
        steps.matched = text("祖先链上存在 node.exe（dsh 的 runner 形态）");
        return DshIdentity::IsDsh { steps };
    }
    steps.note = text("镜像名是 node.exe，但不含 dsh 特征、也不在 dsh 祖先链上");
    DshIdentity::NotDsh { steps }
}


// ---------------------------------------------------------------------------
// Process trees
// ---------------------------------------------------------------------------

/// At most this many processes are collected from one tree.
pub const MAX_TREE_NODES: usize = 4096;

/// At most this many layers of a tree are collected.
pub const MAX_TREE_DEPTH: usize = 64;

/// The children of `parent` in a snapshot, in table order (pid 0 excluded).
pub open spec fn children_spec(es: Seq<ProcessEntry>, parent: u32) -> Seq<u32>
    decreases es.len(),
{
    if es.len() == 0 {
        Seq::empty()
    } else {
        let c = children_spec(es.drop_last(), parent);
        let e = es.last();
        if e.parent == parent && e.pid != 0 {
            c.push(e.pid)
        } else {
            c
        }
    }
}

impl ProcessTable {
    /// The children of `parent`.
    pub fn child_pids_of(&self, parent: u32) -> (r: Vec<u32>)
        ensures
            r@ == children_spec(self.entries@, parent),
    {
        let mut out: Vec<u32> = Vec::new();
        let mut i: usize = 0;
        while i < self.entries.len()
            invariant
                i <= self.entries.len(),
                out@ == children_spec(self.entries@.subrange(0, i as int), parent),
            decreases self.entries.len() - i,
        {
            let ghost pre = self.entries@.subrange(0, i as int);
            assert(self.entries@.subrange(0, i + 1).drop_last() =~= pre);
            let e = &self.entries[i];
            if e.parent == parent && e.pid != 0 {
                out.push(e.pid);
            }
            i = i + 1;
        }
        assert(self.entries@.subrange(0, self.entries@.len() as int) =~= self.entries@);
        out
    }
}

/// One layer of the breadth-first collection of a tree: each pid of the
/// frontier not yet collected (while the limit allows) is appended to the
/// order, and its children form the next frontier.
pub open spec fn layer_spec(order: Seq<u32>, frontier: Seq<u32>, es: Seq<ProcessEntry>) -> (Seq<u32>, Seq<u32>)
    decreases frontier.len(),
{
    if frontier.len() == 0 {
        (order, Seq::empty())
    } else {
        let (o, n) = layer_spec(order, frontier.drop_last(), es);
        let pid = frontier.last();
        if o.contains(pid) || o.len() >= MAX_TREE_NODES {
            (o, n)
        } else {
            (o.push(pid), n + children_spec(es, pid))
        }
    }
}

/// No pid occurs twice.
pub open spec fn no_repeats(s: Seq<u32>) -> bool {
    forall|i: int, j: int| 0 <= i < j < s.len() ==> s[i] != s[j]
}

fn contains_pid(v: &Vec<u32>, pid: u32) -> (r: bool)
    ensures
        r == v@.contains(pid),
{
    let mut i: usize = 0;
    while i < v.len()
        invariant
            i <= v.len(),
            forall|k: int| 0 <= k < i ==> v@[k] != pid,
        decreases v.len() - i,
    {
        if v[i] == pid {
            return true;
        }
        i = i + 1;
    }
    false
}

/// Collects one layer of a process tree (see [`layer_spec`]) and returns the
/// next frontier. A pid is never collected twice.
pub fn tree_layer(order: &mut Vec<u32>, frontier: &[u32], table: &ProcessTable) -> (next: Vec<u32>)
    ensures
        (final(order)@, next@) == layer_spec(old(order)@, frontier@, table.entries@),
        no_repeats(old(order)@) ==> no_repeats(final(order)@),
        final(order)@.len() <= if old(order)@.len() > MAX_TREE_NODES {
            old(order)@.len() as int
        } else {
            MAX_TREE_NODES as int
        },
{
    let ghost start = order@;
    let mut next: Vec<u32> = Vec::new();
    let mut i: usize = 0;
    while i < frontier.len()
        invariant
            i <= frontier.len(),
            (order@, next@) == layer_spec(start, frontier@.subrange(0, i as int), table.entries@),
            no_repeats(start) ==> no_repeats(order@),
            order@.len() <= if start.len() > MAX_TREE_NODES {
                start.len() as int
            } else {
                MAX_TREE_NODES as int
            },
        decreases frontier.len() - i,
    {
        let ghost pre = frontier@.subrange(0, i as int);
        assert(frontier@.subrange(0, i + 1).drop_last() =~= pre);
        let pid = frontier[i];
        if !contains_pid(order, pid) && order.len() < MAX_TREE_NODES {
            let ghost before = order@;
            order.push(pid);
            let kids = table.child_pids_of(pid);
            let ghost nb = next@;
            let mut k: usize = 0;
            while k < kids.len()
                invariant
                    k <= kids.len(),
                    next@ == nb + kids@.subrange(0, k as int),
                decreases kids.len() - k,
            {
                next.push(kids[k]);
                assert(kids@.subrange(0, k + 1) =~= kids@.subrange(0, k as int).push(kids@[k as int]));
                k = k + 1;
            }
            assert(kids@.subrange(0, kids@.len() as int) =~= kids@);
            proof {
                if no_repeats(start) {
                    assert forall|a: int, b: int| 0 <= a < b < order@.len() implies order@[a] != order@[b] by {
                        if b == order@.len() - 1 {
                            assert(order@[b] == pid);
                            assert(order@[a] == before[a]);
                            assert(before.contains(before[a]));
                        } else {
                            assert(order@[a] == before[a]);
                            assert(order@[b] == before[b]);
                        }
                    }
                }
            }
        }
        i = i + 1;
    }
    assert(frontier@.subrange(0, frontier@.len() as int) =~= frontier@);
    next
}

/// The order in which a collected tree is terminated: the collection order
/// reversed, so each layer goes before the layer it was collected from
/// (children before their parents).
pub fn kill_order(order: &Vec<u32>) -> (r: Vec<u32>)
    ensures
        r@ == order@.reverse(),
{
    let mut r: Vec<u32> = Vec::new();
    let mut i: usize = order.len();
    while i > 0
        invariant
            i <= order.len(),
            r@ == order@.subrange(i as int, order@.len() as int).reverse(),
        decreases i,
    {
        i = i - 1;
        r.push(order[i]);
        assert(r@ =~= order@.subrange(i as int, order@.len() as int).reverse());
    }
    assert(order@.subrange(0, order@.len() as int) =~= order@);
    r
}

/// Processes of a snapshot whose parent is among the collected ones but which
/// were not collected themselves (spawned between collection and termination).
pub open spec fn late_spec(es: Seq<ProcessEntry>, order: Seq<u32>) -> Seq<u32>
    decreases es.len(),
{
    if es.len() == 0 {
        Seq::empty()
    } else {
        let l = late_spec(es.drop_last(), order);
        let e = es.last();
        if order.contains(e.parent) && !order.contains(e.pid) {
            l.push(e.pid)
        } else {
            l
        }
    }
}

/// The late children of a collected tree, in table order.
pub fn late_descendants(table: &ProcessTable, order: &Vec<u32>) -> (r: Vec<u32>)
    ensures
        r@ == late_spec(table.entries@, order@),
{
    let mut out: Vec<u32> = Vec::new();
    let mut i: usize = 0;
    while i < table.entries.len()
        invariant
            i <= table.entries.len(),
            out@ == late_spec(table.entries@.subrange(0, i as int), order@),
        decreases table.entries.len() - i,
    {
        let ghost pre = table.entries@.subrange(0, i as int);
        assert(table.entries@.subrange(0, i + 1).drop_last() =~= pre);
        let e = &table.entries[i];
        if contains_pid(order, e.parent) && !contains_pid(order, e.pid) {
            out.push(e.pid);
        }
        i = i + 1;
    }
    assert(table.entries@.subrange(0, table.entries@.len() as int) =~= table.entries@);
    out
}

// ---------------------------------------------------------------------------
// Process facts read from Win32 structures
// ---------------------------------------------------------------------------

/// `FILETIME` ticks (100 ns) from 1601-01-01 to 1970-01-01.
pub const EPOCH_DIFF_TICKS: u64 = 116_444_736_000_000_000;

/// `FILETIME` ticks per second.
pub const TICKS_PER_SEC: u64 = 10_000_000;

/// A `FILETIME` as seconds and nanoseconds since the UNIX epoch; `None` for a
/// time before the epoch (no wrap-around). Sub-second precision is kept.
pub fn filetime_to_unix(high: u32, low: u32) -> (r: Option<(u64, u32)>)
    ensures
        ({
            let ticks = high as int * 4294967296 + low as int;
            if ticks < EPOCH_DIFF_TICKS {
                r is None
            } else {
                let since = ticks - EPOCH_DIFF_TICKS;
                r == Some(((since / TICKS_PER_SEC as int) as u64, ((since % TICKS_PER_SEC as int) * 100) as u32))
            }
        }),
{
    let ticks: u64 = (high as u64) * 4294967296 + (low as u64);
    if ticks < EPOCH_DIFF_TICKS {
        return None;
    }
    let since = ticks - EPOCH_DIFF_TICKS;
    let secs = since / TICKS_PER_SEC;
    let rem = since % TICKS_PER_SEC;
    let nanos: u32 = (rem * 100) as u32;
    Some((secs, nanos))
}

/// A high (leading) surrogate.
pub open spec fn is_high_surrogate(u: u16) -> bool {
    0xD800 <= u <= 0xDBFF
}

/// A low (trailing) surrogate.
pub open spec fn is_low_surrogate(u: u16) -> bool {
    0xDC00 <= u <= 0xDFFF
}

/// UTF-16 decoded with each unpaired surrogate replaced by U+FFFD: a unit
/// outside the surrogate range is its own character, a high surrogate followed
/// by a low one is the pair's character, and any other surrogate is one U+FFFD
/// (the unit after it is decoded afresh).
pub open spec fn utf16_decode_lossy(u: Seq<u16>) -> Seq<char>
    decreases u.len(),
{
    if u.len() == 0 {
        Seq::empty()
    } else if !is_high_surrogate(u[0]) && !is_low_surrogate(u[0]) {
        seq![u[0] as char] + utf16_decode_lossy(u.drop_first())
    } else if is_high_surrogate(u[0]) && u.len() >= 2 && is_low_surrogate(u[1]) {
        seq![(0x10000 + (u[0] - 0xD800) * 0x400 + (u[1] - 0xDC00)) as char] + utf16_decode_lossy(
            u.subrange(2, u.len() as int),
        )
    } else {
        seq!['\u{FFFD}'] + utf16_decode_lossy(u.drop_first())
    }
}

/// Decoding a character's units, whatever follows them, gives the character
/// and then the decoding of what follows.
proof fn lemma_decode_units_then(c: char, rest: Seq<u16>)
    ensures
        utf16_decode_lossy(utf16_units(c) + rest) == seq![c] + utf16_decode_lossy(rest),
{
    let u = c as u32;
    let s = utf16_units(c) + rest;
    if u < 0x10000 {
        let x = u as u16;
        assert(x as int == u as int);
        assert(s[0] == x);
        assert(s.drop_first() =~= rest);
        assert((x as char) == c);
    } else {
        let w = u - 0x10000;
        let hi = (0xD800 + w / 0x400) as u16;
        let lo = (0xDC00 + w % 0x400) as u16;
        assert(w <= 0xFFFFF);
        assert(w == (w / 0x400) * 0x400 + w % 0x400);
        assert(s[0] == hi && s[1] == lo);
        assert(is_high_surrogate(hi) && is_low_surrogate(lo));
        assert(s.subrange(2, s.len() as int) =~= rest);
        assert(0x10000 + (hi - 0xD800) * 0x400 + (lo - 0xDC00) == u);
        assert(((0x10000 + (hi - 0xD800) * 0x400 + (lo - 0xDC00)) as char) == c);
    }
}

/// The encoding of a non-empty text starts with its first character's units.
proof fn lemma_utf16_of_front(s: Seq<char>)
    requires
        s.len() > 0,
    ensures
        utf16_of(s) == utf16_units(s[0]) + utf16_of(s.drop_first()),
    decreases s.len(),
{
    if s.len() == 1 {
        assert(s.drop_last() =~= Seq::<char>::empty());
        assert(s.drop_first() =~= Seq::<char>::empty());
        assert(utf16_of(s.drop_last()) == Seq::<u16>::empty());
        assert(utf16_of(s.drop_first()) == Seq::<u16>::empty());
        assert(s.last() == s[0]);
        assert(utf16_of(s) == utf16_of(s.drop_last()) + utf16_units(s.last()));
        assert(utf16_of(s) =~= utf16_units(s[0]) + utf16_of(s.drop_first()));
    } else {
        lemma_utf16_of_front(s.drop_last());
        assert(s.drop_last().drop_first() =~= s.drop_first().drop_last());
        assert(s.drop_first().last() == s.last());
        assert(utf16_of(s.drop_first()) == utf16_of(s.drop_first().drop_last()) + utf16_units(s.drop_first().last()));
        assert(utf16_of(s) =~= utf16_units(s[0]) + utf16_of(s.drop_first()));
    }
}

/// Decoding the UTF-16 encoding of a text gives the text back.
pub proof fn lemma_decode_utf16_of(s: Seq<char>)
    ensures
        utf16_decode_lossy(utf16_of(s)) == s,
    decreases s.len(),
{
    if s.len() > 0 {
        lemma_utf16_of_front(s);
        lemma_decode_units_then(s[0], utf16_of(s.drop_first()));
        lemma_decode_utf16_of(s.drop_first());
        assert(seq![s[0]] + s.drop_first() =~= s);
    } else {
        assert(utf16_of(s) =~= Seq::<u16>::empty());
    }
}

/// Decodes UTF-16 (`String::from_utf16_lossy`, which replaces invalid data
/// with U+FFFD): the decoding above.
#[verifier::external_body]
fn utf16_lossy(units: &[u16]) -> (r: String)
    ensures
        r@ == utf16_decode_lossy(units@),
{
    String::from_utf16_lossy(units)
}

/// Index of the first NUL unit (the length when there is none).
pub open spec fn nul_index(w: Seq<u16>, i: int) -> int
    decreases w.len() - i,
{
    if i < 0 || i >= w.len() {
        w.len() as int
    } else if w[i] == 0 {
        i
    } else {
        nul_index(w, i + 1)
    }
}

/// The image name held in a fixed, NUL-terminated UTF-16 field
/// (`PROCESSENTRY32W.szExeFile`): the units before the first NUL, decoded.
pub fn exe_name_from_wide(w: &[u16]) -> (r: String)
    ensures
        r@ == utf16_decode_lossy(w@.subrange(0, nul_index(w@, 0))),
        forall|s: Seq<char>| utf16_of(s) == w@.subrange(0, nul_index(w@, 0)) ==> r@ == s,
{
    let mut end: usize = 0;
    while end < w.len() && w[end] != 0
        invariant
            end <= w.len(),
            nul_index(w@, 0) == nul_index(w@, end as int),
        decreases w.len() - end,
    {
        end = end + 1;
    }
    let mut part: Vec<u16> = Vec::new();
    let mut i: usize = 0;
    while i < end
        invariant
            i <= end <= w.len(),
            part@ == w@.subrange(0, i as int),
        decreases end - i,
    {
        part.push(w[i]);
        assert(w@.subrange(0, i + 1) =~= w@.subrange(0, i as int).push(w@[i as int]));
        i = i + 1;
    }
    let r = utf16_lossy(part.as_slice());
    proof {
        assert forall|s: Seq<char>| utf16_of(s) == w@.subrange(0, nul_index(w@, 0)) implies r@ == s by {
            lemma_decode_utf16_of(s);
        }
    }
    r
}

/// The command line of the dsh service after `node.exe`: its `bin.js`, the
/// `web` subcommand on the loopback host and the port, and `--no-open` (the
/// launcher shows the page itself).
pub fn node_args(bin_js: &str, port: u16) -> (r: Vec<String>)
    ensures
        r@.len() == 7,
        r@[0]@ == bin_js@,
        r@[1]@ == "web"@,
        r@[2]@ == "--host"@,
        r@[3]@ == "127.0.0.1"@,
        r@[4]@ == "--port"@,
        r@[5]@ == crate::text::dec(port as nat),
        r@[6]@ == "--no-open"@,
{
    let mut p: Vec<char> = Vec::new();
    crate::text::push_u64(&mut p, port as u64);
    let mut r: Vec<String> = Vec::new();
    r.push(string_from_chars(chars_of(bin_js).as_slice()));
    r.push(string_from_chars(chars_of("web").as_slice()));
    r.push(string_from_chars(chars_of("--host").as_slice()));
    r.push(string_from_chars(chars_of("127.0.0.1").as_slice()));
    r.push(string_from_chars(chars_of("--port").as_slice()));
    r.push(string_from_chars(p.as_slice()));
    r.push(string_from_chars(chars_of("--no-open").as_slice()));
    r
}

/// What the reader of the service's stdout does with one line.
#[derive(Debug, Clone, PartialEq)]
pub enum StdoutLine {
    /// The tokenised address (handed to the ready hook while it waits).
    Ready(String),
    /// dsh tries to open a browser although `--no-open` was passed.
    BrowserNotice,
    /// A line that looks like the address line but does not parse (warned once).
    ShapeWarning,
    /// Anything else.
    Ignore,
}

/// Classifies a stdout line, given whether the ready hook still waits and
/// whether the shape warning was already given.
pub fn classify_stdout_line(line: &str, hook_waiting: bool, shape_warned: bool) -> (r: StdoutLine)
    ensures
        match crate::dsh::ready_url(line@) {
            Some(u) => r matches StdoutLine::Ready(x) && x@ == u,
            None => if crate::text::contains(line@, "opening the default browser"@) {
                r == StdoutLine::BrowserNotice
            } else if !shape_warned && hook_waiting && crate::dsh::looks_like_ready(line@) {
                r == StdoutLine::ShapeWarning
            } else {
                r == StdoutLine::Ignore
            },
        },
{
    match crate::dsh::parse_ready_url(line) {
        Some(u) => StdoutLine::Ready(u),
        None => {
            if crate::dsh::is_browser_open_notice(line) {
                StdoutLine::BrowserNotice
            } else if !shape_warned && hook_waiting && crate::dsh::looks_like_ready_line(line) {
                StdoutLine::ShapeWarning
            } else {
                StdoutLine::Ignore
            }
        },
    }
}

/// The longest stderr line written to the log, in characters.
pub const MAX_STDERR_LINE_CHARS: usize = 2000;

/// A text cut to `max` characters (never inside a character), marked when cut.
pub open spec fn truncate_spec(s: Seq<char>, max: nat) -> Seq<char> {
    if s.len() <= max {
        s
    } else {
        s.subrange(0, max as int) + "…（已截断）"@
    }
}

pub fn truncate_chars(s: &str, max: usize) -> (r: String)
    ensures
        r@ == truncate_spec(s@, max as nat),
{
    let v = chars_of(s);
    if v.len() <= max {
        return string_from_chars(v.as_slice());
    }
    let mut t = crate::text::slice_to_vec(v.as_slice(), 0, max);
    push_str(&mut t, "…（已截断）");
    string_from_chars(t.as_slice())
}

/// The report of `--probe-identity`: one `key=value` line per piece of evidence.
pub open spec fn identity_report_spec(pid: u32, id: DshIdentity) -> Seq<char> {
    let s = steps_of(id);
    let verdict = match id {
        DshIdentity::IsDsh { .. } => "IsDsh"@,
        DshIdentity::NotDsh { .. } => "NotDsh"@,
        DshIdentity::Unknown { .. } => "Unknown"@,
    };
    "pid="@ + crate::text::dec(pid as nat) + "\nverdict="@ + verdict + "\nimage_name="@ + s.image_name@
        + "\nimage_path="@ + s.image_path@ + "\ndsh_node="@ + s.dsh_node@ + "\nmatched="@ + s.matched@
        + "\nnote="@ + s.note@ + "\nsummary="@ + identity_summary(id) + "\n"@
}

pub fn identity_report(pid: u32, id: &DshIdentity) -> (r: String)
    ensures
        r@ == identity_report_spec(pid, *id),
{
    let s = id.steps();
    let mut v: Vec<char> = Vec::new();
    push_str(&mut v, "pid=");
    crate::text::push_u64(&mut v, pid as u64);
    push_str(&mut v, "\nverdict=");
    match id {
        DshIdentity::IsDsh { .. } => push_str(&mut v, "IsDsh"),
        DshIdentity::NotDsh { .. } => push_str(&mut v, "NotDsh"),
        DshIdentity::Unknown { .. } => push_str(&mut v, "Unknown"),
    }
    push_str(&mut v, "\nimage_name=");
    push_str(&mut v, s.image_name.as_str());
    push_str(&mut v, "\nimage_path=");
    push_str(&mut v, s.image_path.as_str());
    push_str(&mut v, "\ndsh_node=");
    push_str(&mut v, s.dsh_node.as_str());
    push_str(&mut v, "\nmatched=");
    push_str(&mut v, s.matched.as_str());
    push_str(&mut v, "\nnote=");
    push_str(&mut v, s.note.as_str());
    push_str(&mut v, "\nsummary=");
    let summary = id.summary();
    push_str(&mut v, summary.as_str());
    push_str(&mut v, "\n");
    assert(v@ =~= identity_report_spec(pid, *id));
    string_from_chars(v.as_slice())
}

} // verus!
