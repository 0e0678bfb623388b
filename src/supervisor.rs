//! The table of supervised tunnel-agent processes, one per hostname, and
//! the command line each one is started with.
//!
//! The table is generic over the process handle: the caller spawns and
//! kills processes, and the table decides when to.
use vstd::prelude::*;
use vstd::string::*;
use crate::text::{decimal, push_decimal, same_text};

verus! {

/// The kind of tunnel the agent opens.
#[derive(Debug, Clone, Copy, PartialEq, Eq, Structural)]
pub enum Protocol {
    Tcp,
    Ssh,
}

/// `"ssh"` selects SSH; anything else, or nothing, selects TCP.
pub open spec fn protocol_of(requested: Option<Seq<char>>) -> Protocol {
    match requested {
        Some(p) => if p == "ssh"@ {
            Protocol::Ssh
        } else {
            Protocol::Tcp
        },
        None => Protocol::Tcp,
    }
}

pub open spec fn opt_view(p: Option<&str>) -> Option<Seq<char>> {
    match p {
        Some(s) => Some(s@),
        None => None,
    }
}

/// The agent sub-command of a protocol.
pub open spec fn protocol_word(p: Protocol) -> Seq<char> {
    match p {
        Protocol::Tcp => "tcp"@,
        Protocol::Ssh => "ssh"@,
    }
}

/// The agent's arguments for a tunnel to `hostname` served on `local_port`.
pub open spec fn agent_args_spec(hostname: Seq<char>, local_port: u16, p: Protocol) -> Seq<Seq<char>> {
    seq![
        "access"@,
        protocol_word(p),
        "--hostname"@,
        hostname,
        "--url"@,
        "localhost:"@ + decimal(local_port as nat),
    ]
}

/// The views of a list of strings.
pub open spec fn views(v: Seq<String>) -> Seq<Seq<char>> {
    v.map_values(|s: String| s@)
}

/// Picks the protocol for a requested name.
pub fn select_protocol(requested: Option<&str>) -> (r: Protocol)
    ensures
        r == protocol_of(opt_view(requested)),
{
    proof {
        reveal_strlit("ssh");
    }
    match requested {
        Some(p) => if same_text(p, "ssh") {
            Protocol::Ssh
        } else {
            Protocol::Tcp
        },
        None => Protocol::Tcp,
    }
}

/// The agent's arguments for a tunnel to `hostname` on `local_port`.
pub fn agent_args(hostname: &str, local_port: u16, protocol: Option<&str>) -> (r: Vec<String>)
    ensures
        views(r@) == agent_args_spec(hostname@, local_port, protocol_of(opt_view(protocol))),
{
    let p = select_protocol(protocol);
    let mut url = String::from_str("localhost:");
    push_decimal(&mut url, local_port);
    let mut r: Vec<String> = Vec::new();
    r.push(String::from_str("access"));
    r.push(
        match p {
            Protocol::Tcp => String::from_str("tcp"),
            Protocol::Ssh => String::from_str("ssh"),
        },
    );
    r.push(String::from_str("--hostname"));
    r.push(String::from_str(hostname));
    r.push(String::from_str("--url"));
    r.push(url);
    assert(views(r@) =~= agent_args_spec(hostname@, local_port, p));
    r
}

/// What a start request calls for.
#[derive(Debug)]
pub enum StartPlan {
    /// The hostname already has a process: nothing to do.
    AlreadyRunning,
    /// Spawn the agent with these arguments.
    Spawn(Vec<String>),
}

/// Processes keyed by hostname, at most one per hostname.
pub struct ProcessTable<H> {
    entries: Vec<(String, H)>,
    contents: Ghost<Map<Seq<char>, H>>,
}

/// The arguments a start request spawns with on table `m`, or `None` when
/// the hostname is already tracked.
pub open spec fn start_spawn_spec<H>(
    m: Map<Seq<char>, H>,
    hostname: Seq<char>,
    local_port: u16,
    protocol: Option<Seq<char>>,
) -> Option<Seq<Seq<char>>> {
    if m.contains_key(hostname) {
        None
    } else {
        Some(agent_args_spec(hostname, local_port, protocol_of(protocol)))
    }
}

/// The table after a start request on `m`; `spawned` is the handle of the
/// process it spawned, `None` when the spawn failed.
pub open spec fn after_start<H>(m: Map<Seq<char>, H>, hostname: Seq<char>, spawned: Option<H>) -> Map<
    Seq<char>,
    H,
> {
    if m.contains_key(hostname) {
        m
    } else {
        match spawned {
            Some(h) => m.insert(hostname, h),
            None => m,
        }
    }
}

impl<H> ProcessTable<H> {
    /// Hostname to handle, for every tracked process.
    pub closed spec fn view(&self) -> Map<Seq<char>, H> {
        self.contents@
    }

    pub closed spec fn wf(&self) -> bool {
        let e = self.entries@;
        let m = self.contents@;
        &&& forall|i: int, j: int|
            0 <= i < j < e.len() ==> (#[trigger] e[i]).0@ != (#[trigger] e[j]).0@
        &&& forall|i: int|
            0 <= i < e.len() ==> m.contains_key((#[trigger] e[i]).0@) && m[e[i].0@] == e[i].1
        &&& forall|k: Seq<char>|
            #[trigger] m.contains_key(k) ==> exists|i: int| 0 <= i < e.len() && (#[trigger] e[i]).0@ == k
        &&& m.dom().finite()
        &&& m.dom().len() == e.len()
    }

    /// An empty table.
    pub fn new() -> (r: Self)
        ensures
            r.wf(),
            r@ == Map::<Seq<char>, H>::empty(),
    {
        ProcessTable { entries: Vec::new(), contents: Ghost(Map::empty()) }
    }

    fn find(&self, hostname: &str) -> (r: Option<usize>)
        requires
            self.wf(),
        ensures
            match r {
                Some(i) => i < self.entries@.len() && self.entries@[i as int].0@ == hostname@,
                None => !self@.contains_key(hostname@),
            },
    {
        let mut i: usize = 0;
        while i < self.entries.len()
            invariant
                self.wf(),
                0 <= i <= self.entries@.len(),
                forall|j: int| 0 <= j < i ==> (#[trigger] self.entries@[j]).0@ != hostname@,
            decreases self.entries@.len() - i,
        {
            if same_text(self.entries[i].0.as_str(), hostname) {
                return Some(i);
            }
            i = i + 1;
        }
        None
    }

    /// Whether `hostname` has a process.
    pub fn contains(&self, hostname: &str) -> (r: bool)
        requires
            self.wf(),
        ensures
            r == self@.contains_key(hostname@),
    {
        match self.find(hostname) {
            Some(i) => true,
            None => false,
        }
    }

    /// The handle tracked for `hostname`.
    pub fn handle(&self, hostname: &str) -> (r: Option<&H>)
        requires
            self.wf(),
        ensures
            match r {
                Some(h) => self@.contains_key(hostname@) && self@[hostname@] == *h,
                None => !self@.contains_key(hostname@),
            },
    {
        match self.find(hostname) {
            Some(i) => Some(&self.entries[i].1),
            None => None,
        }
    }

    /// Number of tracked processes.
    pub fn len(&self) -> (r: usize)
        requires
            self.wf(),
        ensures
            r == self@.len(),
    {
        self.entries.len()
    }

    /// Decides a start request: nothing when `hostname` is tracked, else
    /// the agent's arguments to spawn with.
    pub fn plan_start(&self, hostname: &str, local_port: u16, protocol: Option<&str>) -> (r: StartPlan)
        requires
            self.wf(),
        ensures
            match r {
                StartPlan::AlreadyRunning => start_spawn_spec(
                    self@,
                    hostname@,
                    local_port,
                    opt_view(protocol),
                ) is None,
                StartPlan::Spawn(args) => start_spawn_spec(
                    self@,
                    hostname@,
                    local_port,
                    opt_view(protocol),
                ) == Some(views(args@)),
            },
    {
        if self.contains(hostname) {
            StartPlan::AlreadyRunning
        } else {
            StartPlan::Spawn(agent_args(hostname, local_port, protocol))
        }
    }

    /// Records the outcome of the spawn a start request called for: a
    /// handle is tracked under `hostname`; a spawn error is handed back and
    /// leaves the table as it was.
    pub fn record_start(&mut self, hostname: String, spawned: Result<H, String>) -> (r: Result<(), String>)
        requires
            old(self).wf(),
            !old(self)@.contains_key(hostname@),
        ensures
            final(self).wf(),
            match spawned {
                Ok(h) => r is Ok && final(self)@ == after_start(old(self)@, hostname@, Some(h)),
                Err(e) => r == Err::<(), String>(e) && final(self)@ == after_start(
                    old(self)@,
                    hostname@,
                    None,
                ),
            },
    {
        match spawned {
            Ok(h) => {
                let ghost key = hostname@;
                let ghost old_e = self.entries@;
                self.contents = Ghost(self.contents@.insert(key, h));
                self.entries.push((hostname, h));
                proof {
                    let e = self.entries@;
                    let m = self.contents@;
                    assert forall|i: int| 0 <= i < e.len() implies m.contains_key(
                        (#[trigger] e[i]).0@,
                    ) && m[e[i].0@] == e[i].1 by {
                        if i < old_e.len() {
                            assert(e[i] == old_e[i]);
                        }
                    }
                    assert forall|k: Seq<char>| #[trigger] m.contains_key(k) implies exists|i: int|
                        0 <= i < e.len() && (#[trigger] e[i]).0@ == k by {
                        if k == key {
                            assert(e[e.len() - 1].0@ == k);
                        } else {
                            assert(old(self).contents@.contains_key(k));
                            let i = choose|i: int| 0 <= i < old_e.len() && (#[trigger] old_e[i]).0@ == k;
                            assert(e[i] == old_e[i]);
                        }
                    }
                    assert forall|i: int, j: int| 0 <= i < j < e.len() implies (#[trigger] e[i]).0@
                        != (#[trigger] e[j]).0@ by {
                        if j < old_e.len() {
                            assert(e[i] == old_e[i] && e[j] == old_e[j]);
                        } else {
                            assert(e[i] == old_e[i]);
                        }
                    }
                }
                Ok(())
            },
            Err(e) => Err(e),
        }
    }

    /// Stops tracking `hostname`, handing back its handle for the caller
    /// to kill; a hostname without a process leaves the table as it is.
    pub fn stop(&mut self, hostname: &str) -> (r: Option<H>)
        requires
            old(self).wf(),
        ensures
            final(self).wf(),
            final(self)@ == old(self)@.remove(hostname@),
            !final(self)@.contains_key(hostname@),
            match r {
                Some(h) => old(self)@.contains_key(hostname@) && old(self)@[hostname@] == h,
                None => !old(self)@.contains_key(hostname@),
            },
    {
        match self.find(hostname) {
            None => {
                assert(self.contents@.remove(hostname@) =~= self.contents@);
                None
            },
            Some(i) => {
                let ghost old_e = self.entries@;
                let ghost key = hostname@;
                let (_, h) = self.entries.remove(i);
                self.contents = Ghost(self.contents@.remove(key));
                proof {
                    let e = self.entries@;
                    let m = self.contents@;
                    assert forall|a: int| 0 <= a < e.len() implies m.contains_key(
                        (#[trigger] e[a]).0@,
                    ) && m[e[a].0@] == e[a].1 by {
                        if a < i {
                            assert(e[a] == old_e[a]);
                            assert(old_e[a].0@ != old_e[i as int].0@);
                        } else {
                            assert(e[a] == old_e[a + 1]);
                            assert(old_e[i as int].0@ != old_e[a + 1].0@);
                        }
                    }
                    assert forall|k: Seq<char>| #[trigger] m.contains_key(k) implies exists|a: int|
                        0 <= a < e.len() && (#[trigger] e[a]).0@ == k by {
                        assert(old(self).contents@.contains_key(k));
                        let a = choose|a: int| 0 <= a < old_e.len() && (#[trigger] old_e[a]).0@ == k;
                        if a < i {
                            assert(e[a] == old_e[a]);
                        } else {
                            assert(a != i);
                            assert(e[a - 1] == old_e[a]);
                        }
                    }
                    assert forall|a: int, b: int| 0 <= a < b < e.len() implies (#[trigger] e[a]).0@
                        != (#[trigger] e[b]).0@ by {
                        let a2 = if a < i { a } else { a + 1 };
                        let b2 = if b < i { b } else { b + 1 };
                        assert(e[a] == old_e[a2] && e[b] == old_e[b2]);
                    }
                }
                Some(h)
            },
        }
    }
}

/// Starting a hostname twice tracks one process: after a first start that
/// left the hostname tracked, a second start with the same port and
/// protocol spawns nothing and leaves the table as it is.
pub proof fn law_start_idempotent<H>(
    m: Map<Seq<char>, H>,
    hostname: Seq<char>,
    local_port: u16,
    protocol: Option<Seq<char>>,
    first: H,
    second: Option<H>,
)
    requires
        m.dom().finite(),
    ensures
        ({
            let m1 = after_start(m, hostname, Some(first));
            &&& m1.contains_key(hostname)
            &&& m1.len() == if m.contains_key(hostname) { m.len() } else { m.len() + 1 }
            &&& start_spawn_spec(m1, hostname, local_port, protocol) is None
            &&& after_start(m1, hostname, second) == m1
        }),
{
}

/// A hostname that was spawned for is not spawned for again, whatever port
/// and protocol a later start names, and its first handle stays tracked.
pub proof fn law_no_respawn_across_protocols<H>(
    m: Map<Seq<char>, H>,
    hostname: Seq<char>,
    first_port: u16,
    first_protocol: Option<Seq<char>>,
    first: H,
    local_port: u16,
    protocol: Option<Seq<char>>,
    second: Option<H>,
)
    requires
        start_spawn_spec(m, hostname, first_port, first_protocol) is Some,
    ensures
        ({
            let m1 = after_start(m, hostname, Some(first));
            &&& start_spawn_spec(m1, hostname, local_port, protocol) is None
            &&& after_start(m1, hostname, second) == m1
            &&& m1[hostname] == first
        }),
{
}

/// Stopping leaves the hostname untracked and every other entry as it was,
/// whether or not the hostname was tracked; stopping again changes nothing.
pub proof fn law_stop_always_clears<H>(m: Map<Seq<char>, H>, hostname: Seq<char>)
    ensures
        !m.remove(hostname).contains_key(hostname),
        forall|k: Seq<char>|
            k != hostname ==> (#[trigger] m.remove(hostname).contains_key(k) == m.contains_key(k)),
        forall|k: Seq<char>|
            k != hostname && m.contains_key(k) ==> #[trigger] m.remove(hostname)[k] == m[k],
        m.remove(hostname).remove(hostname) == m.remove(hostname),
{
    assert(m.remove(hostname).remove(hostname) =~= m.remove(hostname));
}

/// Any protocol name other than `"ssh"` gives the arguments that `"tcp"`
/// and no protocol at all give.
pub proof fn law_unknown_protocol_is_tcp(hostname: Seq<char>, local_port: u16, requested: Seq<char>)
    requires
        requested != "ssh"@,
    ensures
        agent_args_spec(hostname, local_port, protocol_of(Some(requested))) == agent_args_spec(
            hostname,
            local_port,
            protocol_of(Some("tcp"@)),
        ),
        agent_args_spec(hostname, local_port, protocol_of(Some(requested))) == agent_args_spec(
            hostname,
            local_port,
            protocol_of(None),
        ),
{
    reveal_strlit("tcp");
    reveal_strlit("ssh");
    assert("tcp"@[0] != "ssh"@[0]);
}

} // verus!
