//! The lifecycle of one instance as a state machine. Each operation decides
//! the next state and tells the caller which outside work to perform
//! (spawn, graceful stop, kill, manifest flush); the caller reports the
//! results back as events.

use vstd::prelude::*;

use crate::messages::instance_messages::AlterServer;
use crate::model::{Error, InstanceDescriptor, InstanceState, Ports};

verus! {

/// File name of the manifest inside an instance's directory.
pub const MANIFEST_NAME: &'static str = "msrvDesc.json";

/// Script that writes ports, memory and password into the server properties.
pub const PATCH_SH_PATH: &'static str = "/app/patch.sh";

/// The server's properties file inside an instance's directory.
pub const SERVER_PROPERTIES_FILE: &'static str = "server.properties";

/// Settings that every instance shares.
#[derive(Debug, Clone)]
pub struct InstanceEnv {
    /// Seconds to wait before connecting RCON, and for a graceful stop.
    pub timeout: u64,
    /// Shared RCON password.
    pub password: String,
}

/// Why an instance directory could not be loaded.
#[derive(Debug, Clone, Copy, PartialEq, Eq, Structural)]
pub enum LoadError {
    PathIsNotDir,
    /// The manifest is absent or unreadable.
    NoManifest,
    /// The manifest could not be parsed.
    BadManifest,
}

/// Outside work that `switch_run` asks for.
#[derive(Debug, Clone, Copy, PartialEq, Eq, Structural)]
pub enum SwitchAction {
    /// Already in the requested run state.
    Nothing,
    /// Spawn the process, then connect RCON after the timeout.
    Launch,
    /// Run the graceful-stop sequence in the background.
    GracefulStop,
}

/// What the operating system reports of an instance's process.
#[derive(Debug, Clone, Copy, PartialEq, Eq, Structural)]
pub enum ProcessSample {
    /// The process can no longer be queried.
    Gone,
    /// The process exists but its status could not be read.
    Unreadable,
    /// Resident memory, in kibibytes.
    Resident(u64),
}

/// Outside work that `tick` asks for.
#[derive(Debug, Clone, Copy, PartialEq, Eq, Structural)]
pub enum TickOutcome {
    Nothing,
    /// Rewrite the manifest from the descriptor.
    Flush,
}

/// Whether the state has a live process.
pub open spec fn has_process(s: InstanceState) -> bool {
    s == InstanceState::Running || s == InstanceState::Starting || s == InstanceState::Stopping
}

/// Whether the state is one in which the instance is at rest.
pub open spec fn is_idle(s: InstanceState) -> bool {
    s == InstanceState::Stopped || s == InstanceState::Crashed
}

/// The answer of `switch_run(should_run)` in state `s`.
pub open spec fn switch_outcome(s: InstanceState, should_run: bool) -> Result<SwitchAction, Error> {
    if is_idle(s) {
        Ok(if should_run { SwitchAction::Launch } else { SwitchAction::Nothing })
    } else if s == InstanceState::Running {
        Ok(if should_run { SwitchAction::Nothing } else { SwitchAction::GracefulStop })
    } else {
        Err(Error::BadState)
    }
}

/// The state after `switch_run(should_run)` in state `s`. A launch leaves
/// the state as it is until the process has been spawned (`launched`).
pub open spec fn switch_state(s: InstanceState, should_run: bool) -> InstanceState {
    match switch_outcome(s, should_run) {
        Ok(SwitchAction::GracefulStop) => InstanceState::Stopping,
        _ => s,
    }
}

/// The state after `launched` in state `s`.
pub open spec fn launched_state(s: InstanceState) -> InstanceState {
    if is_idle(s) {
        InstanceState::Starting
    } else {
        s
    }
}

/// The state after a heartbeat with the given process sample.
pub open spec fn tick_state(s: InstanceState, sample: ProcessSample) -> InstanceState {
    if (s == InstanceState::Running || s == InstanceState::Starting) && sample == ProcessSample::Gone {
        InstanceState::Crashed
    } else {
        s
    }
}

/// The memory reading after a heartbeat with the given process sample.
pub open spec fn tick_memory(s: InstanceState, sample: ProcessSample, m: Option<u64>) -> Option<u64> {
    if s == InstanceState::Running || s == InstanceState::Starting {
        match sample {
            ProcessSample::Resident(kib) => Some((kib / 1024) as u64),
            _ => m,
        }
    } else if is_idle(s) {
        None
    } else {
        m
    }
}

/// The descriptor after `alter` applies the given changes.
pub open spec fn altered(d: InstanceDescriptor, msg: AlterServer) -> InstanceDescriptor {
    InstanceDescriptor {
        max_memory: match msg.max_memory {
            Some(m) => m,
            None => d.max_memory,
        },
        ports: match msg.port {
            Some(p) => Ports { port: p, ..d.ports },
            None => d.ports,
        },
        java_args: match msg.java_args {
            Some(a) => a,
            None => d.java_args,
        },
        ..d
    }
}

/// Where the last component of a `/`-separated path starts.
pub open spec fn name_start(p: Seq<char>) -> int
    decreases p.len(),
{
    if p.len() == 0 {
        0
    } else if p.last() == '/' {
        p.len() as int
    } else {
        name_start(p.drop_last())
    }
}

/// The last component of a `/`-separated path.
pub open spec fn file_name_of(p: Seq<char>) -> Seq<char> {
    p.subrange(name_start(p), p.len() as int)
}

/// The decimal digits of `n`, most significant first, without padding.
pub open spec fn decimal_of(n: nat) -> Seq<char>
    decreases n,
{
    if n < 10 {
        seq![(n + 48) as char]
    } else {
        decimal_of(n / 10).push(((n % 10) + 48) as char)
    }
}

/// The text of one decimal digit.
fn digit_text(d: u64) -> (r: &'static str)
    requires
        d < 10,
    ensures
        r@ == seq![(d + 48) as char],
{
    proof {
        reveal_strlit("0");
        reveal_strlit("1");
        reveal_strlit("2");
        reveal_strlit("3");
        reveal_strlit("4");
        reveal_strlit("5");
        reveal_strlit("6");
        reveal_strlit("7");
        reveal_strlit("8");
        reveal_strlit("9");
    }
    let r = if d == 0 {
        "0"
    } else if d == 1 {
        "1"
    } else if d == 2 {
        "2"
    } else if d == 3 {
        "3"
    } else if d == 4 {
        "4"
    } else if d == 5 {
        "5"
    } else if d == 6 {
        "6"
    } else if d == 7 {
        "7"
    } else if d == 8 {
        "8"
    } else {
        "9"
    };
    assert(r@ =~= seq![(d + 48) as char]);
    r
}

/// The decimal digits of `n`.
fn decimal(n: u64) -> (r: String)
    ensures
        r@ == decimal_of(n as nat),
{
    let mut m: u64 = n;
    let mut acc: String = String::new();
    while m >= 10
        invariant
            decimal_of(n as nat) == decimal_of(m as nat) + acc@,
        decreases m,
    {
        let d = digit_text(m % 10);
        let ghost before = acc@;
        acc = d.to_owned().concat(acc.as_str());
        assert(decimal_of(m as nat) == decimal_of((m / 10) as nat).push(((m % 10) + 48) as char));
        assert(decimal_of(m as nat) + before =~= decimal_of((m / 10) as nat) + acc@);
        m = m / 10;
    }
    let r = digit_text(m).to_owned().concat(acc.as_str());
    assert(r@ =~= decimal_of(n as nat));
    r
}

/// The characters of each string.
pub open spec fn strings_of(v: Seq<String>) -> Seq<Seq<char>> {
    v.map_values(|s: String| s@)
}

/// The arguments given to the JVM: the heap ceiling in mebibytes, the
/// class path, the configured launch arguments and `--nogui`.
pub open spec fn launch_args_of(d: InstanceDescriptor, classpath: Seq<char>) -> Seq<Seq<char>> {
    seq![
        seq!['-', 'X', 'm', 'x'] + decimal_of(d.max_memory as nat) + seq!['M'],
        seq!['-', 'D', 'l', 'e', 'g', 'a', 'c', 'y', 'C', 'l', 'a', 's', 's', 'P', 'a', 't', 'h'],
        classpath,
    ] + strings_of(d.java_args@) + seq![seq!['-', '-', 'n', 'o', 'g', 'u', 'i']]
}

/// The environment of the script that patches the server's properties:
/// both ports, the memory ceiling in whole gibibytes and the password.
pub open spec fn patch_env_of(d: InstanceDescriptor, password: Seq<char>) -> Seq<(Seq<char>, Seq<char>)> {
    seq![
        (seq!['M', 'P', 'O', 'R', 'T'], decimal_of(d.ports.port as nat)),
        (seq!['M', 'R', 'C', 'O', 'N'], decimal_of(d.ports.rcon as nat)),
        (seq!['M', 'A', 'X', 'M', 'E', 'M', 'O', 'R', 'Y'], decimal_of(d.max_memory as nat / 1024) + seq!['G']),
        (seq!['P', 'A', 'S', 'S', 'W', 'O', 'R', 'D'], password),
    ]
}

/// How to start an instance's process.
#[derive(Debug)]
pub struct LaunchPlan {
    /// Arguments of the JVM, in order.
    pub args: Vec<String>,
    /// Variables for the properties-patching script, in order.
    pub patch_env: Vec<(String, String)>,
}

/// The launch of the instance described by `desc`, with the given class
/// path and the shared password.
pub fn launch_plan(desc: &InstanceDescriptor, classpath: String, password: String) -> (r: LaunchPlan)
    ensures
        strings_of(r.args@) == launch_args_of(*desc, classpath@),
        r.patch_env@.map_values(|e: (String, String)| (e.0@, e.1@)) == patch_env_of(*desc, password@),
{
    proof {
        reveal_strlit("-Xmx");
        reveal_strlit("M");
        reveal_strlit("-DlegacyClassPath");
        reveal_strlit("--nogui");
        reveal_strlit("MPORT");
        reveal_strlit("MRCON");
        reveal_strlit("MAXMEMORY");
        reveal_strlit("G");
        reveal_strlit("PASSWORD");
    }
    let mut args: Vec<String> = Vec::new();
    args.push("-Xmx".to_owned().concat(decimal(desc.max_memory).as_str()).concat("M"));
    args.push("-DlegacyClassPath".to_owned());
    args.push(classpath);
    let ghost head = args@;
    let mut i: usize = 0;
    while i < desc.java_args.len()
        invariant
            i <= desc.java_args@.len(),
            args@.len() == 3 + i,
            args@.subrange(0, 3) == head,
            forall|j: int| 0 <= j < i ==> #[trigger] args@[3 + j]@ == desc.java_args@[j]@,
        decreases desc.java_args@.len() - i,
    {
        args.push(desc.java_args[i].clone());
        i += 1;
        assert(args@.subrange(0, 3) =~= head);
    }
    args.push("--nogui".to_owned());
    assert("-Xmx"@ =~= seq!['-', 'X', 'm', 'x']);
    assert("M"@ =~= seq!['M']);
    assert("-DlegacyClassPath"@ =~= seq!['-', 'D', 'l', 'e', 'g', 'a', 'c', 'y', 'C', 'l', 'a', 's', 's', 'P', 'a', 't', 'h']);
    assert("--nogui"@ =~= seq!['-', '-', 'n', 'o', 'g', 'u', 'i']);
    assert(strings_of(args@) =~= launch_args_of(*desc, classpath@)) by {
        assert(args@[0] == head[0]);
        assert(args@[1] == head[1]);
        assert(args@[2] == head[2]);
        let want = launch_args_of(*desc, classpath@);
        assert forall|j: int| 0 <= j < want.len() implies #[trigger] strings_of(args@)[j] == want[j] by {
            if 3 <= j < want.len() - 1 {
                assert(args@[3 + (j - 3)]@ == desc.java_args@[j - 3]@);
            }
        }
    }
    let mut env: Vec<(String, String)> = Vec::new();
    env.push(("MPORT".to_owned(), decimal(desc.ports.port as u64)));
    env.push(("MRCON".to_owned(), decimal(desc.ports.rcon as u64)));
    env.push(("MAXMEMORY".to_owned(), decimal(desc.max_memory / 1024).concat("G")));
    env.push(("PASSWORD".to_owned(), password));
    assert("MPORT"@ =~= seq!['M', 'P', 'O', 'R', 'T']);
    assert("MRCON"@ =~= seq!['M', 'R', 'C', 'O', 'N']);
    assert("MAXMEMORY"@ =~= seq!['M', 'A', 'X', 'M', 'E', 'M', 'O', 'R', 'Y']);
    assert("G"@ =~= seq!['G']);
    assert("PASSWORD"@ =~= seq!['P', 'A', 'S', 'S', 'W', 'O', 'R', 'D']);
    assert(env@.map_values(|e: (String, String)| (e.0@, e.1@)) =~= patch_env_of(*desc, password@));
    LaunchPlan { args, patch_env: env }
}

/// The command written to a server's standard input to stop it.
pub open spec fn stop_command_bytes() -> Seq<u8> {
    seq![115u8, 116u8, 111u8, 112u8, 10u8]
}

/// The bytes of the stop command: `stop` and a newline.
pub fn stop_command() -> (r: Vec<u8>)
    ensures
        r@ == stop_command_bytes(),
{
    let r: Vec<u8> = vec![115u8, 116u8, 111u8, 112u8, 10u8];
    assert(r@ =~= stop_command_bytes());
    r
}

/// The result of one write of the stop command to a process's input.
#[derive(Debug, Clone, Copy, PartialEq, Eq, Structural)]
pub enum WriteOutcome {
    /// That many bytes were accepted.
    Wrote(usize),
    /// The write was interrupted before anything was accepted.
    Interrupted,
    Failed,
}

/// The result of waiting, up to the timeout, for a process to exit.
#[derive(Debug, Clone, Copy, PartialEq, Eq, Structural)]
pub enum WaitOutcome {
    Exited,
    TimedOut,
    Failed,
}

/// Where the write of the stop command goes after one attempt, `written`
/// bytes having been accepted before it: `Some(n)` to write again from byte
/// `n`, `None` to stop writing and wait for the process. An interrupted
/// write is retried; a write of nothing or a failure ends the writing.
pub fn next_write(written: usize, outcome: WriteOutcome) -> (r: Option<usize>)
    requires
        written < stop_command_bytes().len(),
        outcome matches WriteOutcome::Wrote(n) ==> written + n <= stop_command_bytes().len(),
    ensures
        outcome == WriteOutcome::Interrupted ==> r == Some(written),
        outcome == WriteOutcome::Failed ==> r is None,
        outcome matches WriteOutcome::Wrote(n) ==> r == if n > 0 && written + n
            < stop_command_bytes().len() {
            Some((written + n) as usize)
        } else {
            None::<usize>
        },
{
    match outcome {
        WriteOutcome::Wrote(n) => {
            if n > 0 && written + n < 5 {
                Some(written + n)
            } else {
                None
            }
        },
        WriteOutcome::Interrupted => Some(written),
        WriteOutcome::Failed => None,
    }
}

/// Whether the process is to be killed after waiting for it: unless it
/// exited in time. It is reaped in the background either way.
pub fn must_kill(outcome: WaitOutcome) -> (r: bool)
    ensures
        r == (outcome != WaitOutcome::Exited),
{
    match outcome {
        WaitOutcome::Exited => false,
        _ => true,
    }
}

/// Once an instance at rest is started (the launch asked for and the
/// process spawned) and its process can be sampled, a heartbeat gives it a
/// memory reading; once the process is gone, the next heartbeat marks it
/// `Crashed`. Both hold in `Running` as in `Starting`.
pub proof fn lemma_tick_after_start(s: InstanceState, kib: u64, m: Option<u64>)
    requires
        is_idle(s),
    ensures
        switch_outcome(s, true) == Ok::<SwitchAction, Error>(SwitchAction::Launch),
        launched_state(switch_state(s, true)) == InstanceState::Starting,
        tick_memory(launched_state(switch_state(s, true)), ProcessSample::Resident(kib), m) == Some(
            (kib / 1024) as u64,
        ),
        tick_state(launched_state(switch_state(s, true)), ProcessSample::Resident(kib))
            == InstanceState::Starting,
        tick_state(launched_state(switch_state(s, true)), ProcessSample::Gone)
            == InstanceState::Crashed,
        tick_memory(InstanceState::Running, ProcessSample::Resident(kib), m) == Some((kib / 1024) as u64),
        tick_state(InstanceState::Running, ProcessSample::Gone) == InstanceState::Crashed,
{
}

/// One managed server: its directory, its descriptor and its lifecycle state.
pub struct Instance {
    place: String,
    env: InstanceEnv,
    state: InstanceState,
    desc: InstanceDescriptor,
}

impl Instance {
    /// The lifecycle state.
    pub closed spec fn phase(&self) -> InstanceState {
        self.state
    }

    /// The descriptor, also while it is not yet written to disk.
    pub closed spec fn descriptor(&self) -> InstanceDescriptor {
        self.desc
    }

    /// The directory of the instance.
    pub closed spec fn location(&self) -> Seq<char> {
        self.place@
    }

    /// The shared settings.
    pub closed spec fn environment(&self) -> InstanceEnv {
        self.env
    }

    /// A new instance whose archive is still to be unpacked at `at`.
    pub fn create(at: String, desc: InstanceDescriptor, env: InstanceEnv) -> (r: Self)
        ensures
            r.phase() == InstanceState::Downloading,
            r.descriptor() == desc,
            r.location() == at@,
            r.environment() == env,
    {
        Instance { place: at, env, state: InstanceState::Downloading, desc }
    }

    /// An instance at rest from the outcome of reading its manifest, with
    /// the ports that it claims.
    pub fn load(place: String, env: InstanceEnv, manifest: Result<InstanceDescriptor, LoadError>) -> (r:
        Result<(Self, Ports), LoadError>)
        ensures
            manifest is Err ==> r == Err::<(Self, Ports), LoadError>(manifest->Err_0),
            manifest is Ok ==> r is Ok && r->Ok_0.0.phase() == InstanceState::Stopped
                && r->Ok_0.0.descriptor() == manifest->Ok_0 && r->Ok_0.1 == manifest->Ok_0.ports
                && r->Ok_0.0.location() == place@ && r->Ok_0.0.environment() == env,
    {
        match manifest {
            Ok(desc) => {
                let ports = desc.ports;
                Ok((Instance { place, env, state: InstanceState::Stopped, desc }, ports))
            },
            Err(e) => Err(e),
        }
    }

    /// The directory of the instance.
    pub fn place(&self) -> (r: &String)
        ensures
            r@ == self.location(),
    {
        &self.place
    }

    /// The shared settings.
    pub fn env(&self) -> (r: &InstanceEnv)
        ensures
            *r == self.environment(),
    {
        &self.env
    }

    /// The name of the instance: the last component of its directory.
    pub fn name(&self) -> (r: String)
        ensures
            r@ == file_name_of(self.location()),
    {
        let p = self.place.as_str();
        let len = p.unicode_len();
        let mut i: usize = len;
        assert(p@.subrange(0, len as int) =~= p@);
        while i > 0 && p.get_char(i - 1) != '/'
            invariant
                i <= len,
                len == p@.len(),
                p@ == self.place@,
                name_start(p@) == name_start(p@.subrange(0, i as int)),
            decreases i,
        {
            assert(p@.subrange(0, i as int).drop_last() =~= p@.subrange(0, i - 1));
            i -= 1;
        }
        assert(name_start(p@) == i) by {
            if i > 0 {
                assert(p@.subrange(0, i as int).last() == '/');
            }
        }
        let s = p.substring_char(i, len);
        s.to_owned()
    }

    /// The lifecycle state.
    pub fn state(&self) -> (r: InstanceState)
        ensures
            r == self.phase(),
    {
        self.state
    }

    /// The descriptor; `None` while the archive is being unpacked.
    pub fn desc(&self) -> (r: Option<&InstanceDescriptor>)
        ensures
            self.phase() == InstanceState::Downloading ==> r is None,
            self.phase() != InstanceState::Downloading ==> r is Some && *r->Some_0
                == self.descriptor(),
    {
        if self.state == InstanceState::Downloading {
            None
        } else {
            Some(&self.desc)
        }
    }

    /// Asks for the process to run or not. From `Stopped` or `Crashed`,
    /// `true` asks for a launch and changes nothing until `launched` reports
    /// the spawn; from `Running`,
    /// `false` moves to `Stopping` and asks for a graceful stop; a request
    /// for the current run state does nothing; any other state fails with
    /// `BadState`.
    pub fn switch_run(&mut self, should_run: bool) -> (r: Result<SwitchAction, Error>)
        ensures
            r == switch_outcome(old(self).phase(), should_run),
            final(self).phase() == switch_state(old(self).phase(), should_run),
            final(self).descriptor() == old(self).descriptor(),
            final(self).location() == old(self).location(),
            final(self).environment() == old(self).environment(),
    {
        match self.state {
            InstanceState::Stopped | InstanceState::Crashed => {
                if should_run {
                    Ok(SwitchAction::Launch)
                } else {
                    Ok(SwitchAction::Nothing)
                }
            },
            InstanceState::Running => {
                if should_run {
                    Ok(SwitchAction::Nothing)
                } else {
                    self.state = InstanceState::Stopping;
                    Ok(SwitchAction::GracefulStop)
                }
            },
            _ => Err(Error::BadState),
        }
    }

    /// The process asked for by a launch has been spawned: `Stopped` or
    /// `Crashed` becomes `Starting`, and RCON is to be connected after the
    /// timeout. Returns whether the state changed. A launch whose spawn
    /// fails never reaches this, so the state stays as it was.
    pub fn launched(&mut self) -> (r: bool)
        ensures
            r == is_idle(old(self).phase()),
            final(self).phase() == launched_state(old(self).phase()),
            final(self).descriptor() == old(self).descriptor(),
            final(self).location() == old(self).location(),
            final(self).environment() == old(self).environment(),
    {
        if self.state == InstanceState::Stopped || self.state == InstanceState::Crashed {
            self.state = InstanceState::Starting;
            true
        } else {
            false
        }
    }

    /// The RCON client connected: `Starting` becomes `Running`. In any other
    /// state it fails with `RconUnavailable` and the client is to be dropped.
    pub fn rcon_up(&mut self) -> (r: Result<(), Error>)
        ensures
            old(self).phase() == InstanceState::Starting ==> r is Ok && final(self).phase()
                == InstanceState::Running,
            old(self).phase() != InstanceState::Starting ==> r == Err::<(), Error>(
                Error::RconUnavailable,
            ) && final(self).phase() == old(self).phase(),
            final(self).descriptor() == old(self).descriptor(),
            final(self).location() == old(self).location(),
            final(self).environment() == old(self).environment(),
    {
        if self.state == InstanceState::Starting {
            self.state = InstanceState::Running;
            Ok(())
        } else {
            Err(Error::RconUnavailable)
        }
    }

    /// The RCON connection failed or closed: a `Starting` or `Running`
    /// instance becomes `Crashed`. Returns whether its process is to be
    /// killed.
    pub fn rcon_down(&mut self) -> (r: bool)
        ensures
            r == (old(self).phase() == InstanceState::Starting || old(self).phase()
                == InstanceState::Running),
            final(self).phase() == if r { InstanceState::Crashed } else { old(self).phase() },
            final(self).descriptor() == old(self).descriptor(),
            final(self).location() == old(self).location(),
            final(self).environment() == old(self).environment(),
    {
        if self.state == InstanceState::Starting || self.state == InstanceState::Running {
            self.state = InstanceState::Crashed;
            true
        } else {
            false
        }
    }

    /// Moves to `Crashed` from any state. Returns whether a live process is
    /// to be terminated and the RCON client dropped. Calling it twice
    /// changes nothing more.
    pub fn kill(&mut self) -> (r: bool)
        ensures
            r == has_process(old(self).phase()),
            final(self).phase() == InstanceState::Crashed,
            final(self).descriptor() == old(self).descriptor(),
            final(self).location() == old(self).location(),
            final(self).environment() == old(self).environment(),
    {
        let live = self.state == InstanceState::Running || self.state == InstanceState::Starting
            || self.state == InstanceState::Stopping;
        self.state = InstanceState::Crashed;
        live
    }

    /// The graceful stop finished: `Stopping` becomes `Stopped`. Returns
    /// whether the state changed.
    pub fn stop_completed(&mut self) -> (r: bool)
        ensures
            r == (old(self).phase() == InstanceState::Stopping),
            final(self).phase() == if r { InstanceState::Stopped } else { old(self).phase() },
            final(self).descriptor() == old(self).descriptor(),
            final(self).location() == old(self).location(),
            final(self).environment() == old(self).environment(),
    {
        if self.state == InstanceState::Stopping {
            self.state = InstanceState::Stopped;
            true
        } else {
            false
        }
    }

    /// The archive was unpacked (`succeeded`) or not. A `Downloading`
    /// instance becomes `Stopped` on success and its manifest is to be
    /// written; on failure it fails with `Io` and is to be removed. In any
    /// other state it fails with `BadState`.
    pub fn unpack_finished(&mut self, succeeded: bool) -> (r: Result<(), Error>)
        ensures
            old(self).phase() != InstanceState::Downloading ==> r == Err::<(), Error>(
                Error::BadState,
            ) && final(self).phase() == old(self).phase(),
            old(self).phase() == InstanceState::Downloading && succeeded ==> r is Ok
                && final(self).phase() == InstanceState::Stopped,
            old(self).phase() == InstanceState::Downloading && !succeeded ==> r == Err::<
                (),
                Error,
            >(Error::Io) && final(self).phase() == InstanceState::Downloading,
            final(self).descriptor() == old(self).descriptor(),
            final(self).location() == old(self).location(),
            final(self).environment() == old(self).environment(),
    {
        if self.state != InstanceState::Downloading {
            Err(Error::BadState)
        } else if succeeded {
            self.state = InstanceState::Stopped;
            Ok(())
        } else {
            Err(Error::Io)
        }
    }

    /// Whether RCON commands and subscriptions can be served: only while
    /// `Running`, else `RconUnavailable`.
    pub fn rcon_available(&self) -> (r: Result<(), Error>)
        ensures
            self.phase() == InstanceState::Running ==> r is Ok,
            self.phase() != InstanceState::Running ==> r == Err::<(), Error>(
                Error::RconUnavailable,
            ),
    {
        if self.state == InstanceState::Running {
            Ok(())
        } else {
            Err(Error::RconUnavailable)
        }
    }

    /// Applies the given changes to the descriptor of a `Stopped` or
    /// `Crashed` instance, whose manifest is then to be flushed; fails with
    /// `BadState`, changing nothing, in any other state.
    pub fn alter(&mut self, msg: AlterServer) -> (r: Result<(), Error>)
        ensures
            is_idle(old(self).phase()) ==> r is Ok && final(self).descriptor() == altered(
                old(self).descriptor(),
                msg,
            ),
            !is_idle(old(self).phase()) ==> r == Err::<(), Error>(Error::BadState)
                && final(self).descriptor() == old(self).descriptor(),
            final(self).phase() == old(self).phase(),
            final(self).location() == old(self).location(),
            final(self).environment() == old(self).environment(),
    {
        if !(self.state == InstanceState::Stopped || self.state == InstanceState::Crashed) {
            return Err(Error::BadState);
        }
        if let Some(port) = msg.port {
            self.desc.ports.port = port;
        }
        if let Some(max_memory) = msg.max_memory {
            self.desc.max_memory = max_memory;
        }
        if let Some(java_args) = msg.java_args {
            self.desc.java_args = java_args;
        }
        Ok(())
    }

    /// Whether a heartbeat needs a sample of the process: only while
    /// `Starting` or `Running`.
    pub fn needs_sample(&self) -> (r: bool)
        ensures
            r == (self.phase() == InstanceState::Running || self.phase()
                == InstanceState::Starting),
    {
        self.state == InstanceState::Running || self.state == InstanceState::Starting
    }

    /// The periodic heartbeat. While `Starting` or `Running`, a resident
    /// size sets the memory reading (in mebibytes) and a process that is
    /// gone means `Crashed`. While `Stopped` or `Crashed`, the reading is
    /// cleared and the manifest is to be flushed. Otherwise nothing changes.
    pub fn tick(&mut self, sample: ProcessSample) -> (r: TickOutcome)
        ensures
            final(self).phase() == tick_state(old(self).phase(), sample),
            final(self).descriptor() == (InstanceDescriptor {
                memory: tick_memory(old(self).phase(), sample, old(self).descriptor().memory),
                ..old(self).descriptor()
            }),
            r == if is_idle(old(self).phase()) { TickOutcome::Flush } else { TickOutcome::Nothing },
            final(self).location() == old(self).location(),
            final(self).environment() == old(self).environment(),
    {
        match self.state {
            InstanceState::Running | InstanceState::Starting => {
                match sample {
                    ProcessSample::Resident(kib) => {
                        self.desc.memory = Some(kib / 1024);
                    },
                    ProcessSample::Gone => {
                        self.state = InstanceState::Crashed;
                    },
                    ProcessSample::Unreadable => {},
                }
                TickOutcome::Nothing
            },
            InstanceState::Stopped | InstanceState::Crashed => {
                self.desc.memory = None;
                TickOutcome::Flush
            },
            _ => TickOutcome::Nothing,
        }
    }
}

} // verus!
