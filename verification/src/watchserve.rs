//! The decision core of the watch-and-serve supervisor.
//!
//! The supervisor keeps a child server process in sync with source changes:
//! bursts of raw file-change signals are debounced into rebuild triggers; each
//! trigger supersedes the current cycle, kills a running child, spawns a fresh
//! one, and opens a gate that holds incoming requests until the new child is
//! ready; a readiness probe decides when that is. Everything that touches the
//! operating system (watching files, spawning and killing processes, TCP
//! probes, serving HTTP) is driven by an unverified event loop that calls into
//! this module for every decision; this module owns the lifecycle state and
//! its invariants.

use crate::strutil::{dec_digits, has_prefix, starts_with_str, u16_to_decimal};
use vstd::prelude::*;

verus! {

/// The supervisor's immutable configuration: where to listen, where the child
/// listens, what to watch, what to ignore, and the shell command that builds
/// and starts the child.
pub struct Config {
    pub host: String,
    pub port: u16,
    pub child_host: String,
    pub child_port: u16,
    pub watch_paths: Vec<String>,
    pub ignore_paths: Vec<String>,
    pub command: String,
}

/// One build-and-run episode. `Ground` means no process was ever started;
/// `Building` owns the cycle's gate and freshly spawned child; `Running` owns
/// the child that the readiness probe declared ready. Gates and children are
/// named by identifiers that the supervisor issues strictly increasing, so an
/// identifier is never reused across cycles.
pub enum Cycle {
    Ground,
    Building { gate: u64, child: u64 },
    Running { child: u64 },
}

/// What the event loop must do on a rebuild trigger, in order: first kill the
/// child named by `kill_first` (if any) and wait for it to exit, then create
/// gate `gate` and spawn child `child`.
pub struct TriggerPlan {
    pub kill_first: Option<u64>,
    pub gate: u64,
    pub child: u64,
}

/// The lifecycle state machine. `gates_issued` and `children_spawned` count
/// the identifiers handed out so far; `fulfilled` records which gates have
/// been fulfilled and `killed` which children have been killed, so that the
/// contracts can say that a gate is fulfilled exactly once and that a running
/// child is never a killed one.
pub struct Supervisor {
    pub cycle: Cycle,
    pub gates_issued: u64,
    pub children_spawned: u64,
    pub fulfilled: Ghost<Set<u64>>,
    pub killed: Ghost<Set<u64>>,
}

impl Supervisor {
    /// Well-formedness: identifiers in play were issued, a building cycle's
    /// gate is not yet fulfilled, and the child attached to a building or
    /// running cycle has not been killed.
    pub open spec fn wf(self) -> bool {
        &&& (forall|g: u64| self.fulfilled@.contains(g) ==> g < self.gates_issued)
        &&& (forall|c: u64| self.killed@.contains(c) ==> c < self.children_spawned)
        &&& match self.cycle {
            Cycle::Ground => true,
            Cycle::Building { gate, child } => {
                &&& gate < self.gates_issued
                &&& child < self.children_spawned
                &&& !self.fulfilled@.contains(gate)
                &&& !self.killed@.contains(child)
            },
            Cycle::Running { child } => {
                &&& child < self.children_spawned
                &&& !self.killed@.contains(child)
            },
        }
    }

    /// The initial state: no cycle has ever started.
    pub fn new() -> (s: Supervisor)
        ensures
            s.cycle matches Cycle::Ground,
            s.gates_issued == 0,
            s.children_spawned == 0,
            s.fulfilled@ == Set::<u64>::empty(),
            s.killed@ == Set::<u64>::empty(),
            s.wf(),
    {
        Supervisor {
            cycle: Cycle::Ground,
            gates_issued: 0,
            children_spawned: 0,
            fulfilled: Ghost(Set::empty()),
            killed: Ghost(Set::empty()),
        }
    }

    /// Handles one rebuild trigger. A running child is killed before the new
    /// one is spawned; a child still building is deliberately left alive (the
    /// documented supersede-while-building leak). A fresh gate and a fresh
    /// child are issued and the cycle becomes `Building`.
    pub fn on_trigger(&mut self) -> (plan: TriggerPlan)
        requires
            old(self).wf(),
            old(self).gates_issued < u64::MAX,
            old(self).children_spawned < u64::MAX,
        ensures
            plan.kill_first == (match old(self).cycle {
                Cycle::Running { child } => Some(child),
                _ => None::<u64>,
            }),
            plan.gate == old(self).gates_issued,
            plan.child == old(self).children_spawned,
            final(self).cycle == (Cycle::Building { gate: plan.gate, child: plan.child }),
            final(self).gates_issued == old(self).gates_issued + 1,
            final(self).children_spawned == old(self).children_spawned + 1,
            final(self).fulfilled@ == old(self).fulfilled@,
            final(self).killed@ == (match old(self).cycle {
                Cycle::Running { child } => old(self).killed@.insert(child),
                _ => old(self).killed@,
            }),
            !old(self).fulfilled@.contains(plan.gate),
            old(self).cycle matches Cycle::Building { gate, .. } ==> plan.gate != gate,
            old(self).cycle matches Cycle::Running { child } ==> plan.child != child,
            final(self).wf(),
    {
        let kill_first: Option<u64> = match &self.cycle {
            Cycle::Running { child } => {
                let c = *child;
                proof {
                    self.killed@ = self.killed@.insert(c);
                }
                Some(c)
            },
            _ => None,
        };
        let gate = self.gates_issued;
        let child = self.children_spawned;
        self.gates_issued = gate + 1;
        self.children_spawned = child + 1;
        self.cycle = Cycle::Building { gate, child };
        TriggerPlan { kill_first, gate, child }
    }

    /// Whether the readiness probe is done: the child has exited (any status)
    /// or a TCP connection to the child's address succeeded. A child that
    /// crashes immediately is indistinguishable from a ready one — the
    /// documented crash-as-ready heuristic.
    pub fn probe_should_stop(&self, child_exited: bool, connect_ok: bool) -> (r: bool)
        ensures
            r == (child_exited || connect_ok),
    {
        child_exited || connect_ok
    }

    /// Completes the building cycle once its readiness probe has terminated:
    /// the cycle becomes `Running` with the same child, and the cycle's gate —
    /// returned so the event loop can wake every request waiting on it — is
    /// fulfilled, exactly now and never again.
    pub fn on_probe_complete(&mut self) -> (gate: u64)
        requires
            old(self).wf(),
            old(self).cycle matches Cycle::Building { .. },
        ensures
            old(self).cycle matches Cycle::Building { gate: g, child: c } ==> {
                &&& gate == g
                &&& final(self).cycle == (Cycle::Running { child: c })
                &&& final(self).fulfilled@ == old(self).fulfilled@.insert(g)
                &&& !old(self).fulfilled@.contains(g)
            },
            final(self).killed@ == old(self).killed@,
            final(self).gates_issued == old(self).gates_issued,
            final(self).children_spawned == old(self).children_spawned,
            final(self).wf(),
    {
        match &self.cycle {
            Cycle::Building { gate, child } => {
                let g = *gate;
                let c = *child;
                proof {
                    self.fulfilled@ = self.fulfilled@.insert(g);
                }
                self.cycle = Cycle::Running { child: c };
                g
            },
            _ => {
                proof {
                    assert(false);
                }
                0
            },
        }
    }

    /// Admission decision for an inbound request: if a cycle is building, the
    /// request must wait on that cycle's gate — which is not yet fulfilled —
    /// and on no other; otherwise (`Ground` or `Running`) it proceeds at once.
    pub fn on_request(&self) -> (gate: Option<u64>)
        requires
            self.wf(),
        ensures
            gate == (match self.cycle {
                Cycle::Building { gate: g, .. } => Some(g),
                _ => None::<u64>,
            }),
            gate matches Some(g) ==> !self.fulfilled@.contains(g),
    {
        match &self.cycle {
            Cycle::Building { gate, .. } => Some(*gate),
            _ => None,
        }
    }
}

/// The children attached to a cycle: none on the ground, exactly the cycle's
/// own child while building or running.
pub open spec fn attached_children(c: Cycle) -> Set<u64> {
    match c {
        Cycle::Ground => Set::empty(),
        Cycle::Building { child, .. } => Set::empty().insert(child),
        Cycle::Running { child } => Set::empty().insert(child),
    }
}

/// At all times, at most one child process is attached to the cycle — in
/// particular to a `Running` cycle (the single-process instance policy).
pub proof fn lemma_at_most_one_attached_child(s: Supervisor)
    ensures
        attached_children(s.cycle).finite(),
        attached_children(s.cycle).len() <= 1,
{
    match s.cycle {
        Cycle::Ground => {
            assert(attached_children(s.cycle).len() == 0);
        },
        Cycle::Building { child, .. } => {
            assert(attached_children(s.cycle).len() == 1);
        },
        Cycle::Running { child } => {
            assert(attached_children(s.cycle).len() == 1);
        },
    }
}

/// A gate captured at admission while a cycle is building is not yet
/// fulfilled: the request cannot have been released before that cycle
/// completes.
pub proof fn lemma_admitted_gate_unfulfilled(s: Supervisor)
    requires
        s.wf(),
        s.cycle matches Cycle::Building { .. },
    ensures
        s.cycle matches Cycle::Building { gate, .. } ==> !s.fulfilled@.contains(gate),
{
}

/// Fulfilling one gate releases the waiters of that gate alone: membership of
/// every other gate in the fulfilled set is unchanged. A request that captured
/// gate `other` before a later cycle replaced it is unaffected when that later
/// cycle's gate `g` is fulfilled.
pub proof fn lemma_fulfillment_is_per_gate(before: Set<u64>, g: u64, other: u64)
    requires
        other != g,
    ensures
        before.insert(g).contains(other) == before.contains(other),
{
}

/// A gate is fulfilled at most once: a gate already fulfilled never again
/// belongs to a building cycle, so no transition can fulfill it a second
/// time.
pub proof fn lemma_fulfilled_gate_never_builds_again(s: Supervisor, g: u64)
    requires
        s.wf(),
        s.fulfilled@.contains(g),
    ensures
        s.cycle matches Cycle::Building { gate, .. } ==> gate != g,
{
}

// ---------------------------------------------------------------------------
// Debouncer
// ---------------------------------------------------------------------------
/// How many of the leading signal times lie at or before `bound`.
pub open spec fn leading_within(times: Seq<int>, bound: int) -> nat
    decreases times.len(),
{
    if times.len() == 0 {
        0
    } else if times[0] <= bound {
        1 + leading_within(times.skip(1), bound)
    } else {
        0
    }
}

/// How many rebuild triggers a sequence of raw signal times produces: each
/// trigger stands for one burst, and a burst is the first signal together
/// with every signal within `window` of it. The debouncer's batch cap is
/// effectively unbounded — never reached in practice — and is not modeled.
pub open spec fn burst_count(times: Seq<int>, window: int) -> nat
    decreases times.len(),
    when window >= 0
    via burst_count_decreases
{
    if times.len() == 0 {
        0
    } else {
        1 + burst_count(times.skip(leading_within(times, times[0] + window) as int), window)
    }
}

#[via_fn]
proof fn burst_count_decreases(times: Seq<int>, window: int) {
    if times.len() > 0 {
        assert(times[0] <= times[0] + window);
        assert(leading_within(times, times[0] + window) >= 1);
        lemma_leading_within_bound(times, times[0] + window);
    }
}

proof fn lemma_leading_within_bound(times: Seq<int>, bound: int)
    ensures
        leading_within(times, bound) <= times.len(),
    decreases times.len(),
{
    if times.len() > 0 && times[0] <= bound {
        lemma_leading_within_bound(times.skip(1), bound);
    }
}

/// `leading_within` is exactly the position of the first time beyond the
/// bound (or the whole length when there is none).
proof fn lemma_leading_within_index(times: Seq<int>, bound: int, m: int)
    requires
        0 <= m <= times.len(),
        forall|k: int| 0 <= k < m ==> times[k] <= bound,
        m < times.len() ==> times[m] > bound,
    ensures
        leading_within(times, bound) == m,
    decreases times.len(),
{
    if times.len() == 0 {
    } else if m == 0 {
    } else {
        let t = times.skip(1);
        assert(forall|k: int| 0 <= k < m - 1 ==> t[k] == times[k + 1]);
        if m - 1 < t.len() {
            assert(t[m - 1] == times[m]);
        }
        lemma_leading_within_index(t, bound, m - 1);
    }
}

/// Counts the rebuild triggers that a nondecreasing sequence of raw signal
/// times produces under the given debounce window.
pub fn debounce_count(times: &Vec<u64>, window: u64) -> (n: usize)
    requires
        forall|i: int, j: int| 0 <= i <= j < times@.len() ==> times@[i] <= times@[j],
        times@.len() < usize::MAX,
    ensures
        n == burst_count(times@.map_values(|t: u64| t as int), window as int),
{
    let ghost view = times@.map_values(|t: u64| t as int);
    let len = times.len();
    let mut n: usize = 0;
    let mut i: usize = 0;
    proof {
        assert(view.skip(0) =~= view);
    }
    while i < len
        invariant
            0 <= i <= len,
            n <= i,
            len == times@.len(),
            view == times@.map_values(|t: u64| t as int),
            forall|a: int, b: int| 0 <= a <= b < times@.len() ==> times@[a] <= times@[b],
            n + burst_count(view.skip(i as int), window as int) == burst_count(
                view,
                window as int,
            ),
        decreases len - i,
    {
        let t0 = times[i];
        let mut j: usize = i + 1;
        while j < len && times[j] - t0 <= window
            invariant
                i < j <= len,
                len == times@.len(),
                view == times@.map_values(|t: u64| t as int),
                t0 == times@[i as int],
                forall|a: int, b: int| 0 <= a <= b < times@.len() ==> times@[a] <= times@[b],
                forall|k: int| i < k < j ==> view[k] <= view[i as int] + window,
            decreases len - j,
        {
            j += 1;
        }
        proof {
            let rest = view.skip(i as int);
            assert(forall|k: int| 0 <= k < rest.len() ==> rest[k] == view[k + i]);
            assert(forall|k: int| 0 <= k < j - i ==> #[trigger] rest[k] <= rest[0] + window);
            if j < len {
                assert(rest[j - i] == view[j as int]);
                assert(rest[j - i] > rest[0] + window);
            }
            lemma_leading_within_index(rest, rest[0] + window, j - i);
            assert(rest.skip(j - i) =~= view.skip(j as int));
            assert(burst_count(rest, window as int) == 1 + burst_count(
                view.skip(j as int),
                window as int,
            ));
        }
        n += 1;
        i = j;
    }
    proof {
        assert(view.skip(len as int) =~= Seq::<int>::empty());
    }
    n
}

/// For any burst of one or more raw signals all delivered within the debounce
/// window of the first, exactly one rebuild trigger is emitted.
pub proof fn lemma_burst_yields_one_trigger(times: Seq<int>, window: int)
    requires
        times.len() >= 1,
        window >= 0,
        forall|i: int| 0 <= i < times.len() ==> #[trigger] times[i] <= times[0] + window,
    ensures
        burst_count(times, window) == 1,
{
    lemma_leading_within_index(times, times[0] + window, times.len() as int);
    assert(leading_within(times, times[0] + window) == times.len());
    assert(burst_count(times, window) == 1 + burst_count(
        times.skip(times.len() as int),
        window,
    ));
    assert(times.skip(times.len() as int) =~= Seq::<int>::empty());
    assert(burst_count(Seq::<int>::empty(), window) == 0);
}

/// Two raw signals separated by more than the debounce window produce two
/// rebuild triggers.
pub proof fn lemma_separated_signals_two_triggers(times: Seq<int>, window: int)
    requires
        times.len() == 2,
        window >= 0,
        times[1] > times[0] + window,
    ensures
        burst_count(times, window) == 2,
{
    lemma_leading_within_index(times, times[0] + window, 1);
    assert(burst_count(times, window) == 1 + burst_count(times.skip(1), window));
    let rest = times.skip(1);
    assert(rest.len() == 1);
    assert(rest[0] == times[1]);
    lemma_leading_within_index(rest, rest[0] + window, 1);
    assert(burst_count(rest, window) == 1 + burst_count(rest.skip(1), window));
    assert(rest.skip(1) =~= Seq::<int>::empty());
    assert(burst_count(Seq::<int>::empty(), window) == 0);
}

// ---------------------------------------------------------------------------
// Path watcher
// ---------------------------------------------------------------------------
/// Whether a path is excluded from watching: some ignore path is a prefix of
/// it (exact prefix match against the path string).
pub open spec fn spec_is_ignored(path: Seq<char>, ignores: Seq<Seq<char>>) -> bool {
    exists|i: int| 0 <= i < ignores.len() && has_prefix(path, ignores[i])
}

/// Decides whether a discovered path is excluded by the ignore list.
pub fn is_ignored(path: &str, ignore_paths: &Vec<String>) -> (r: bool)
    ensures
        r == spec_is_ignored(path@, ignore_paths@.map_values(|s: String| s@)),
{
    let ghost ignores = ignore_paths@.map_values(|s: String| s@);
    let mut i: usize = 0;
    while i < ignore_paths.len()
        invariant
            0 <= i <= ignore_paths.len(),
            ignores == ignore_paths@.map_values(|s: String| s@),
            forall|j: int| 0 <= j < i ==> !has_prefix(path@, ignores[j]),
        decreases ignore_paths.len() - i,
    {
        if starts_with_str(path, ignore_paths[i].as_str()) {
            proof {
                assert(has_prefix(path@, ignores[i as int]));
            }
            return true;
        }
        i += 1;
    }
    false
}

/// Keeps, in order, exactly the discovered paths that no ignore path
/// prefixes: the set of files the watcher registers for change notification.
pub fn watch_filter(paths: &Vec<String>, ignore_paths: &Vec<String>) -> (r: Vec<String>)
    ensures
        r@.map_values(|s: String| s@) == paths@.map_values(|s: String| s@).filter(
            |p: Seq<char>| !spec_is_ignored(p, ignore_paths@.map_values(|s: String| s@)),
        ),
{
    let ghost ignores = ignore_paths@.map_values(|s: String| s@);
    let ghost f = |p: Seq<char>| !spec_is_ignored(p, ignores);
    let mut out: Vec<String> = Vec::new();
    let mut i: usize = 0;
    proof {
        reveal(Seq::filter);
        assert(paths@.map_values(|s: String| s@).take(0) =~= Seq::<Seq<char>>::empty());
    }
    while i < paths.len()
        invariant
            0 <= i <= paths.len(),
            ignores == ignore_paths@.map_values(|s: String| s@),
            f == (|p: Seq<char>| !spec_is_ignored(p, ignores)),
            out@.map_values(|s: String| s@) == paths@.map_values(|s: String| s@).take(
                i as int,
            ).filter(f),
        decreases paths.len() - i,
    {
        let ghost pre = paths@.map_values(|s: String| s@).take(i as int);
        let ghost post = paths@.map_values(|s: String| s@).take(i + 1);
        proof {
            reveal(Seq::filter);
            assert(post.drop_last() =~= pre);
            assert(post.last() == paths@[i as int]@);
        }
        let keep = !is_ignored(paths[i].as_str(), ignore_paths);
        let ghost old_out = out@;
        if keep {
            let p = crate::strutil::clone_string(&paths[i]);
            out.push(p);
            proof {
                assert(out@.map_values(|s: String| s@) =~= old_out.map_values(|s: String| s@)
                    + seq![paths@[i as int]@]);
            }
        }
        i += 1;
    }
    proof {
        assert(paths@.map_values(|s: String| s@).take(paths@.len() as int) =~= paths@.map_values(
            |s: String| s@,
        ));
    }
    out
}

// ---------------------------------------------------------------------------
// Reverse proxy
// ---------------------------------------------------------------------------
/// An HTTP response as this module models it: a status code, the response
/// headers, and the body text. The unverified front door converts between
/// this and its wire representation.
pub struct HttpResponse {
    pub status: u16,
    pub headers: Vec<(String, String)>,
    pub body: String,
}

/// The fixed response returned whenever the child cannot be reached.
pub fn unavailable_response() -> (r: HttpResponse)
    ensures
        r.status == 503,
        r.body@ == "service unavailable"@,
        r.headers@.len() == 0,
{
    HttpResponse { status: 503, headers: Vec::new(), body: "service unavailable".to_owned() }
}

/// What the proxy answers the original caller: the child's response relayed
/// unchanged on success, and the fixed 503 `service unavailable` response on
/// any transport-level failure (`None`).
pub fn proxy_response(upstream: Option<HttpResponse>) -> (r: HttpResponse)
    ensures
        match upstream {
            Some(resp) => r == resp,
            None => r.status == 503 && r.body@ == "service unavailable"@ && r.headers@.len()
                == 0,
        },
{
    match upstream {
        Some(resp) => resp,
        None => unavailable_response(),
    }
}

/// The authority component of the child's address: `host:port` with the port
/// in decimal.
pub fn child_authority(child_host: &str, child_port: u16) -> (r: String)
    ensures
        r@ == child_host@ + ":"@ + dec_digits(child_port as nat),
{
    let mut s = child_host.to_owned();
    s.append(":");
    let p = u16_to_decimal(child_port);
    s.append(p.as_str());
    s
}

/// The rewritten target of an admitted request: scheme `http`, the child's
/// authority, and the original path and query unchanged.
pub fn proxy_target(child_host: &str, child_port: u16, path_and_query: &str) -> (r: String)
    ensures
        r@ == "http://"@ + child_host@ + ":"@ + dec_digits(child_port as nat)
            + path_and_query@,
{
    let mut s = "http://".to_owned();
    let auth = child_authority(child_host, child_port);
    s.append(auth.as_str());
    s.append(path_and_query);
    s
}

/// The environment the child is spawned with: exactly `HOST` and `PORT`, set
/// to the child's bind host and decimal port.
pub fn child_env(child_host: &str, child_port: u16) -> (r: Vec<(String, String)>)
    ensures
        r@.len() == 2,
        r@[0].0@ == "HOST"@ && r@[0].1@ == child_host@,
        r@[1].0@ == "PORT"@ && r@[1].1@ == dec_digits(child_port as nat),
{
    let mut env: Vec<(String, String)> = Vec::new();
    env.push(("HOST".to_owned(), child_host.to_owned()));
    env.push(("PORT".to_owned(), u16_to_decimal(child_port)));
    env
}

} // verus!
