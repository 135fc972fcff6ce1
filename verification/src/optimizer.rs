//! The session optimizer: which tuning steps run for the game, the commands that
//! carry them out, and the stack of commands that undo them.

use vstd::prelude::*;
use crate::gpu::IntelGpuState;
use crate::platform::Platform;
use crate::text::{extend_chars, from_chars, push_decimal, to_chars};

verus! {

/// What the session changes while the game runs.
#[derive(Debug, Clone)]
pub struct SessionConfig {
    pub target_process: String,
    pub dry_run: bool,
    pub set_process_priority: bool,
    pub enable_power_mode: bool,
    pub apply_gpu_profile: bool,
    pub enable_driver_upscaling: bool,
}

/// A program and its arguments.
#[derive(Debug, Clone)]
pub struct CommandSpec {
    pub program: String,
    pub args: Vec<String>,
}

impl View for CommandSpec {
    type V = (Seq<char>, Seq<Seq<char>>);

    open spec fn view(&self) -> (Seq<char>, Seq<Seq<char>>) {
        (self.program@, self.args@.map_values(|a: String| a@))
    }
}

/// The command `program args...` as a value.
pub open spec fn command(program: Seq<char>, args: Seq<Seq<char>>) -> (Seq<char>, Seq<Seq<char>>) {
    (program, args)
}

impl CommandSpec {
    pub fn new(program: &str, args: &[&str]) -> (c: Self)
        ensures
            c@ == command(program@, args@.map_values(|a: &str| a@)),
    {
        let mut out: Vec<String> = Vec::new();
        let n = args.len();
        for i in 0..n
            invariant
                n == args@.len(),
                out@.map_values(|a: String| a@) == args@.take(i as int).map_values(|a: &str| a@),
        {
            let s = String::from_str(args[i]);
            let ghost before = out@;
            out.push(s);
            assert(out@.map_values(|a: String| a@) =~= before.map_values(|a: String| a@).push(s@));
            assert(args@.take(i + 1).map_values(|a: &str| a@) =~= args@.take(i as int).map_values(
                |a: &str| a@,
            ).push(args@[i as int]@));
        }
        assert(args@.take(n as int) =~= args@);
        CommandSpec { program: String::from_str(program), args: out }
    }
}

/// One thing to do while applying the session.
#[derive(Debug, Clone)]
pub enum SessionAction {
    /// Run `command`. When it succeeds and `undo` is given, remember `undo`; when
    /// it fails, stop with an error if `required`, otherwise warn and go on.
    Run { command: CommandSpec, undo: Option<CommandSpec>, required: bool },
    /// Look up the graphics adapters and report the advice for them; when
    /// `pin_clock`, also pin the clock of an Intel adapter.
    GpuProfile { pin_clock: bool },
    /// Report how to enable driver or OS upscaling.
    DriverUpscaling,
}

/// An action as a value.
pub enum ActionView {
    Run((Seq<char>, Seq<Seq<char>>), Option<(Seq<char>, Seq<Seq<char>>)>, bool),
    GpuProfile(bool),
    DriverUpscaling,
}

impl View for SessionAction {
    type V = ActionView;

    open spec fn view(&self) -> ActionView {
        match self {
            SessionAction::Run { command, undo, required } => ActionView::Run(
                command@,
                match undo {
                    Some(u) => Some(u@),
                    None => None,
                },
                *required,
            ),
            SessionAction::GpuProfile { pin_clock } => ActionView::GpuProfile(*pin_clock),
            SessionAction::DriverUpscaling => ActionView::DriverUpscaling,
        }
    }
}

/// The actions of a session for process `pid` on `platform`, in order: the power
/// scheme (required, undone later by restoring what `prior` says was in force), the process priority (not required, never
/// undone), the GPU profile, driver upscaling; each only when enabled. A dry
/// run leaves the GPU clock alone, as it changes no setting of the system.
pub open spec fn spec_actions(c: SessionConfig, platform: Platform, pid: u32, prior: Seq<char>) -> Seq<
    ActionView,
> {
    (if c.enable_power_mode {
        seq![
            ActionView::Run(
                spec_power_commands(platform).0,
                Some(spec_power_restore(platform, prior)),
                true,
            ),
        ]
    } else {
        seq![]
    }) + (if c.set_process_priority {
        seq![ActionView::Run(spec_priority_command(platform, pid), None, false)]
    } else {
        seq![]
    }) + (if c.apply_gpu_profile {
        seq![ActionView::GpuProfile(!c.dry_run)]
    } else {
        seq![]
    }) + (if c.enable_driver_upscaling {
        seq![ActionView::DriverUpscaling]
    } else {
        seq![]
    })
}

/// The command that switches to the fast power scheme, and the one that switches back.
pub open spec fn spec_power_commands(p: Platform) -> (
    (Seq<char>, Seq<Seq<char>>),
    (Seq<char>, Seq<Seq<char>>),
) {
    match p {
        Platform::Windows => (
            command("powercfg"@, seq!["/setactive"@, "SCHEME_MIN"@]),
            command("powercfg"@, seq!["/setactive"@, "SCHEME_BALANCED"@]),
        ),
        Platform::MacOs => (
            command("pmset"@, seq!["-a"@, "lowpowermode"@, "0"@]),
            command("pmset"@, seq!["-a"@, "lowpowermode"@, "1"@]),
        ),
        Platform::Linux => (
            command(
                "sh"@,
                seq![
                    "-c"@,
                    "command -v cpupower >/dev/null && cpupower frequency-set -g performance || true"@,
                ],
            ),
            command(
                "sh"@,
                seq![
                    "-c"@,
                    "command -v cpupower >/dev/null && cpupower frequency-set -g powersave || true"@,
                ],
            ),
        ),
    }
}

/// A character that may stand in a CPU frequency governor's name.
pub open spec fn is_governor_char(c: char) -> bool {
    ('a' <= c && c <= 'z') || ('0' <= c && c <= '9') || c == '_' || c == '-'
}

/// A governor name: not empty, and made only of lower-case letters, digits,
/// `_` and `-`, so that it can stand in a shell command as it is.
pub open spec fn is_governor_name(g: Seq<char>) -> bool {
    g.len() > 0 && forall|i: int| 0 <= i < g.len() ==> is_governor_char(#[trigger] g[i])
}

/// The shell command that switches every CPU to governor `g` where `cpupower`
/// is installed.
pub open spec fn governor_script(g: Seq<char>) -> Seq<char> {
    "command -v cpupower >/dev/null && cpupower frequency-set -g "@ + g + " || true"@
}

/// The command that undoes the power step on `platform`, given what was read of
/// the power setting before it (on Linux, the contents of the first CPU's
/// `scaling_governor`): on Linux the governor that was in force, where the text
/// names one; otherwise the platform's default restore command.
pub open spec fn spec_power_restore(p: Platform, prior: Seq<char>) -> (Seq<char>, Seq<Seq<char>>) {
    if p == Platform::Linux && is_governor_name(crate::text::trim(prior)) {
        command("sh"@, seq!["-c"@, governor_script(crate::text::trim(prior))])
    } else {
        spec_power_commands(p).1
    }
}

/// The command that raises the priority of process `pid`.
pub open spec fn spec_priority_command(p: Platform, pid: u32) -> (Seq<char>, Seq<Seq<char>>) {
    if p == Platform::Windows {
        command(
            "powershell"@,
            seq![
                "-NoProfile"@,
                "-Command"@,
                "(Get-Process -Id "@ + crate::text::decimal(pid as nat) + ").PriorityClass='High'"@,
            ],
        )
    } else {
        command("renice"@, seq!["-n"@, "-5"@, "-p"@, crate::text::decimal(pid as nat)])
    }
}

/// The undo stack after `a` was carried out, `ok` telling whether it took
/// effect: the undo of a command that took effect is remembered on top, and
/// nothing else changes.
pub open spec fn reverts_after_action(
    reverts: Seq<(Seq<char>, Seq<Seq<char>>)>,
    a: ActionView,
    ok: bool,
) -> Seq<(Seq<char>, Seq<Seq<char>>)> {
    match a {
        ActionView::Run(_, Some(u), _) => if ok {
            reverts.push(u)
        } else {
            reverts
        },
        _ => reverts,
    }
}

/// Whether the outcome of `a` ends the session with an error: only a required
/// command that did not take effect does.
pub open spec fn action_fails(a: ActionView, ok: bool) -> bool {
    match a {
        ActionView::Run(_, _, required) => required && !ok,
        _ => false,
    }
}

/// The undo stack after each of `actions`, in order, took effect.
pub open spec fn reverts_after_all(
    reverts: Seq<(Seq<char>, Seq<Seq<char>>)>,
    actions: Seq<ActionView>,
) -> Seq<(Seq<char>, Seq<Seq<char>>)>
    decreases actions.len(),
{
    if actions.len() == 0 {
        reverts
    } else {
        reverts_after_all(reverts_after_action(reverts, actions[0], true), actions.drop_first())
    }
}

fn append_str(out: &mut Vec<char>, s: &str)
    ensures
        final(out)@ == old(out)@ + s@,
{
    let c = to_chars(s);
    extend_chars(out, c.as_slice());
}

/// Whether `g` is a governor name.
fn governor_name_ok(g: &[char]) -> (b: bool)
    ensures
        b == is_governor_name(g@),
{
    let n = g.len();
    if n == 0 {
        return false;
    }
    for i in 0..n
        invariant
            n == g@.len(),
            forall|k: int| 0 <= k < i ==> is_governor_char(#[trigger] g@[k]),
    {
        let c = g[i];
        if !(('a' <= c && c <= 'z') || ('0' <= c && c <= '9') || c == '_' || c == '-') {
            return false;
        }
    }
    true
}

/// Applies session tuning and remembers how to undo it.
pub struct Optimizer {
    config: SessionConfig,
    revert_commands: Vec<CommandSpec>,
    intel_gpu_state: Option<IntelGpuState>,
}

impl Optimizer {
    pub closed spec fn spec_config(&self) -> SessionConfig {
        self.config
    }

    /// The undo commands not yet run, oldest first.
    pub closed spec fn spec_reverts(&self) -> Seq<(Seq<char>, Seq<Seq<char>>)> {
        self.revert_commands@.map_values(|c: CommandSpec| c@)
    }

    pub closed spec fn spec_gpu_state(&self) -> Option<IntelGpuState> {
        self.intel_gpu_state
    }

    pub fn new(config: SessionConfig) -> (o: Self)
        ensures
            o.spec_config() == config,
            o.spec_reverts() == Seq::<(Seq<char>, Seq<Seq<char>>)>::empty(),
            o.spec_gpu_state() is None,
    {
        let o = Self { config, revert_commands: Vec::new(), intel_gpu_state: None };
        assert(o.spec_reverts() =~= Seq::<(Seq<char>, Seq<Seq<char>>)>::empty());
        o
    }

    /// The session settings.
    pub fn config(&self) -> (c: &SessionConfig)
        ensures
            *c == self.spec_config(),
    {
        &self.config
    }

    /// What to do, in order, to tune the session for `process` on `platform`,
    /// where `prior_power` is what was read of the power setting beforehand
    /// (empty where nothing could be read).
    pub fn apply(
        &self,
        process: &crate::process::GameProcess,
        platform: Platform,
        prior_power: &str,
    ) -> (actions: Vec<SessionAction>)
        ensures
            actions@.map_values(|a: SessionAction| a@) == spec_actions(
                self.spec_config(),
                platform,
                process.pid,
                prior_power@,
            ),
    {
        let mut actions: Vec<SessionAction> = Vec::new();
        let ghost c = self.config;
        let ghost p1 = if c.enable_power_mode {
            seq![
                ActionView::Run(
                    spec_power_commands(platform).0,
                    Some(spec_power_restore(platform, prior_power@)),
                    true,
                ),
            ]
        } else {
            seq![]
        };
        let ghost p2 = if c.set_process_priority {
            seq![ActionView::Run(spec_priority_command(platform, process.pid), None, false)]
        } else {
            seq![]
        };
        let ghost p3 = if c.apply_gpu_profile {
            seq![ActionView::GpuProfile(!c.dry_run)]
        } else {
            seq![]
        };
        let ghost p4 = if c.enable_driver_upscaling {
            seq![ActionView::DriverUpscaling]
        } else {
            seq![]
        };
        if self.config.enable_power_mode {
            let (on, _) = Self::power_mode_commands(platform);
            let off = Self::power_restore_command(platform, prior_power);
            actions.push(SessionAction::Run { command: on, undo: Some(off), required: true });
        }
        assert(actions@.map_values(|a: SessionAction| a@) =~= p1);
        if self.config.set_process_priority {
            let cmd = Self::priority_command(platform, process.pid);
            actions.push(SessionAction::Run { command: cmd, undo: None, required: false });
        }
        assert(actions@.map_values(|a: SessionAction| a@) =~= p1 + p2);
        if self.config.apply_gpu_profile {
            actions.push(SessionAction::GpuProfile { pin_clock: !self.config.dry_run });
        }
        assert(actions@.map_values(|a: SessionAction| a@) =~= p1 + p2 + p3);
        if self.config.enable_driver_upscaling {
            actions.push(SessionAction::DriverUpscaling);
        }
        assert(actions@.map_values(|a: SessionAction| a@) =~= p1 + p2 + p3 + p4);
        actions
    }

    /// The power-mode command and its undo command on `platform`.
    pub fn power_mode_commands(platform: Platform) -> (r: (CommandSpec, CommandSpec))
        ensures
            (r.0@, r.1@) == spec_power_commands(platform),
    {
        match platform {
            Platform::Windows => {
                let a = CommandSpec::new("powercfg", &["/setactive", "SCHEME_MIN"]);
                let b = CommandSpec::new("powercfg", &["/setactive", "SCHEME_BALANCED"]);
                assert(a@.1 =~= seq!["/setactive"@, "SCHEME_MIN"@]);
                assert(b@.1 =~= seq!["/setactive"@, "SCHEME_BALANCED"@]);
                (a, b)
            },
            Platform::MacOs => {
                let a = CommandSpec::new("pmset", &["-a", "lowpowermode", "0"]);
                let b = CommandSpec::new("pmset", &["-a", "lowpowermode", "1"]);
                assert(a@.1 =~= seq!["-a"@, "lowpowermode"@, "0"@]);
                assert(b@.1 =~= seq!["-a"@, "lowpowermode"@, "1"@]);
                (a, b)
            },
            Platform::Linux => {
                let a = CommandSpec::new(
                    "sh",
                    &[
                        "-c",
                        "command -v cpupower >/dev/null && cpupower frequency-set -g performance || true",
                    ],
                );
                let b = CommandSpec::new(
                    "sh",
                    &[
                        "-c",
                        "command -v cpupower >/dev/null && cpupower frequency-set -g powersave || true",
                    ],
                );
                assert(a@.1 =~= seq![
                    "-c"@,
                    "command -v cpupower >/dev/null && cpupower frequency-set -g performance || true"@,
                ]);
                assert(b@.1 =~= seq![
                    "-c"@,
                    "command -v cpupower >/dev/null && cpupower frequency-set -g powersave || true"@,
                ]);
                (a, b)
            },
        }
    }

    /// The command that undoes the power step on `platform`, given what was read
    /// of the power setting before it (on Linux, the first CPU's governor).
    pub fn power_restore_command(platform: Platform, prior: &str) -> (c: CommandSpec)
        ensures
            c@ == spec_power_restore(platform, prior@),
    {
        let raw = to_chars(prior);
        let g = crate::text::trimmed(raw.as_slice());
        if platform == Platform::Linux && governor_name_ok(g.as_slice()) {
            let mut script: Vec<char> = Vec::new();
            append_str(&mut script, "command -v cpupower >/dev/null && cpupower frequency-set -g ");
            extend_chars(&mut script, g.as_slice());
            append_str(&mut script, " || true");
            let mut args: Vec<String> = Vec::new();
            args.push(String::from_str("-c"));
            args.push(from_chars(script.as_slice()));
            let c = CommandSpec { program: String::from_str("sh"), args };
            assert(script@ =~= governor_script(g@));
            assert(c@.1 =~= seq!["-c"@, governor_script(g@)]);
            c
        } else {
            let (_, off) = Self::power_mode_commands(platform);
            off
        }
    }

    /// The command that raises the priority of process `pid` on `platform`.
    pub fn priority_command(platform: Platform, pid: u32) -> (c: CommandSpec)
        ensures
            c@ == spec_priority_command(platform, pid),
    {
        let mut num: Vec<char> = Vec::new();
        push_decimal(&mut num, pid as u64);
        assert(num@ =~= crate::text::decimal(pid as nat));
        let num_s = from_chars(num.as_slice());
        if platform == Platform::Windows {
            let mut script: Vec<char> = Vec::new();
            append_str(&mut script, "(Get-Process -Id ");
            extend_chars(&mut script, num.as_slice());
            append_str(&mut script, ").PriorityClass='High'");
            let script_s = from_chars(script.as_slice());
            let mut args: Vec<String> = Vec::new();
            args.push(String::from_str("-NoProfile"));
            args.push(String::from_str("-Command"));
            args.push(script_s);
            let c = CommandSpec { program: String::from_str("powershell"), args };
            assert(c@.1 =~= seq![
                "-NoProfile"@,
                "-Command"@,
                "(Get-Process -Id "@ + crate::text::decimal(pid as nat) + ").PriorityClass='High'"@,
            ]);
            c
        } else {
            let mut args: Vec<String> = Vec::new();
            args.push(String::from_str("-n"));
            args.push(String::from_str("-5"));
            args.push(String::from_str("-p"));
            args.push(num_s);
            let c = CommandSpec { program: String::from_str("renice"), args };
            assert(c@.1 =~= seq!["-n"@, "-5"@, "-p"@, crate::text::decimal(pid as nat)]);
            c
        }
    }

    /// Remembers `command` as the undo of a step that took effect.
    pub fn push_revert(&mut self, command: CommandSpec)
        ensures
            final(self).spec_reverts() == old(self).spec_reverts().push(command@),
            final(self).spec_config() == old(self).spec_config(),
            final(self).spec_gpu_state() == old(self).spec_gpu_state(),
    {
        let ghost before = self.revert_commands@;
        self.revert_commands.push(command);
        assert(self.revert_commands@.map_values(|c: CommandSpec| c@) =~= before.map_values(
            |c: CommandSpec| c@,
        ).push(command@));
    }

    /// The most recent undo command not yet run, taken off the stack.
    pub fn pop_revert(&mut self) -> (r: Option<CommandSpec>)
        ensures
            old(self).spec_reverts().len() == 0 ==> r is None && final(self).spec_reverts()
                == old(self).spec_reverts(),
            old(self).spec_reverts().len() > 0 ==> (r matches Some(c) && c@ == old(
                self,
            ).spec_reverts().last() && final(self).spec_reverts() == old(
                self,
            ).spec_reverts().drop_last()),
            final(self).spec_config() == old(self).spec_config(),
            final(self).spec_gpu_state() == old(self).spec_gpu_state(),
    {
        let ghost before = self.revert_commands@;
        let r = self.revert_commands.pop();
        proof {
            if before.len() > 0 {
                assert(self.revert_commands@.map_values(|c: CommandSpec| c@) =~= before.map_values(
                    |c: CommandSpec| c@,
                ).drop_last());
            }
        }
        r
    }

    /// Records how `action` went; `succeeded` tells whether its command ran and
    /// exited successfully. In a dry run nothing is run and every command counts
    /// as done. The undo of a command that took effect is remembered; a required
    /// command that did not take effect ends the session with an error; any other
    /// outcome changes nothing.
    pub fn record_outcome(&mut self, action: SessionAction, succeeded: bool) -> (r: Result<(), ()>)
        ensures
            final(self).spec_reverts() == reverts_after_action(
                old(self).spec_reverts(),
                action@,
                succeeded || old(self).spec_config().dry_run,
            ),
            r is Err <==> action_fails(action@, succeeded || old(self).spec_config().dry_run),
            final(self).spec_config() == old(self).spec_config(),
            final(self).spec_gpu_state() == old(self).spec_gpu_state(),
    {
        let ok = succeeded || self.config.dry_run;
        match action {
            SessionAction::Run { command: _, undo, required } => {
                if ok {
                    match undo {
                        Some(u) => {
                            self.push_revert(u);
                        },
                        None => {},
                    }
                    Ok(())
                } else if required {
                    Err(())
                } else {
                    Ok(())
                }
            },
            _ => Ok(()),
        }
    }

    /// Whether undoing the session goes on after an undo command ran;
    /// `succeeded` tells whether it exited successfully. A failed undo command
    /// stops the undoing with an error; in a dry run nothing is run and every
    /// undo command counts as done.
    pub fn revert_outcome(&self, succeeded: bool) -> (r: Result<(), ()>)
        ensures
            r is Ok <==> succeeded || self.spec_config().dry_run,
    {
        if succeeded || self.config.dry_run {
            Ok(())
        } else {
            Err(())
        }
    }

    /// The number of undo commands not yet run.
    pub fn pending_reverts(&self) -> (n: usize)
        ensures
            n == self.spec_reverts().len(),
    {
        self.revert_commands.len()
    }

    /// Remembers the GPU frequency limits that were in force before pinning.
    pub fn set_intel_gpu_state(&mut self, state: IntelGpuState)
        ensures
            final(self).spec_gpu_state() == Some(state),
            final(self).spec_reverts() == old(self).spec_reverts(),
            final(self).spec_config() == old(self).spec_config(),
    {
        self.intel_gpu_state = Some(state);
    }

    /// The remembered GPU frequency limits, forgotten from now on.
    pub fn take_intel_gpu_state(&mut self) -> (r: Option<IntelGpuState>)
        ensures
            r == old(self).spec_gpu_state(),
            final(self).spec_gpu_state() is None,
            final(self).spec_reverts() == old(self).spec_reverts(),
            final(self).spec_config() == old(self).spec_config(),
    {
        self.intel_gpu_state.take()
    }
}


/// Undo commands come back last-in, first-out: popping right after remembering a
/// command gives that command back and leaves the earlier ones as they were, so a
/// session is undone in the reverse order of the steps that took effect.
pub proof fn lemma_revert_is_last_in_first_out(
    before: Seq<(Seq<char>, Seq<Seq<char>>)>,
    command: (Seq<char>, Seq<Seq<char>>),
)
    ensures
        before.push(command).len() > 0,
        before.push(command).last() == command,
        before.push(command).drop_last() == before,
{
    assert(before.push(command).drop_last() =~= before);
}

proof fn lemma_reverts_after_concat(
    reverts: Seq<(Seq<char>, Seq<Seq<char>>)>,
    a: Seq<ActionView>,
    b: Seq<ActionView>,
)
    ensures
        reverts_after_all(reverts, a + b) == reverts_after_all(reverts_after_all(reverts, a), b),
    decreases a.len(),
{
    if a.len() == 0 {
        assert(a + b =~= b);
    } else {
        assert((a + b).drop_first() =~= a.drop_first() + b);
        assert((a + b)[0] == a[0]);
        lemma_reverts_after_concat(reverts_after_action(reverts, a[0], true), a.drop_first(), b);
    }
}

proof fn lemma_reverts_after_short(reverts: Seq<(Seq<char>, Seq<Seq<char>>)>, a: Seq<ActionView>)
    requires
        a.len() <= 1,
    ensures
        reverts_after_all(reverts, a) == if a.len() == 0 {
            reverts
        } else {
            reverts_after_action(reverts, a[0], true)
        },
{
    if a.len() == 1 {
        assert(a.drop_first().len() == 0);
        assert(reverts_after_all(reverts_after_action(reverts, a[0], true), a.drop_first())
            == reverts_after_action(reverts, a[0], true));
    }
}

/// When every step of a session takes effect, exactly one undo command is
/// remembered: the one that restores the power setting that was in force before,
/// and only when the power step is enabled. The process priority, the GPU profile and driver upscaling
/// leave nothing on the undo stack.
pub proof fn lemma_session_remembers_power_restore(
    c: SessionConfig,
    platform: Platform,
    pid: u32,
    prior: Seq<char>,
    reverts: Seq<(Seq<char>, Seq<Seq<char>>)>,
)
    ensures
        reverts_after_all(reverts, spec_actions(c, platform, pid, prior)) == if c.enable_power_mode {
            reverts.push(spec_power_restore(platform, prior))
        } else {
            reverts
        },
{
    let p1 = if c.enable_power_mode {
        seq![
            ActionView::Run(
                spec_power_commands(platform).0,
                Some(spec_power_restore(platform, prior)),
                true,
            ),
        ]
    } else {
        seq![]
    };
    let p2 = if c.set_process_priority {
        seq![ActionView::Run(spec_priority_command(platform, pid), None, false)]
    } else {
        seq![]
    };
    let p3 = if c.apply_gpu_profile {
        seq![ActionView::GpuProfile(!c.dry_run)]
    } else {
        seq![]
    };
    let p4 = if c.enable_driver_upscaling {
        seq![ActionView::DriverUpscaling]
    } else {
        seq![]
    };
    assert(spec_actions(c, platform, pid, prior) == p1 + p2 + p3 + p4);
    lemma_reverts_after_concat(reverts, p1 + p2 + p3, p4);
    lemma_reverts_after_concat(reverts, p1 + p2, p3);
    lemma_reverts_after_concat(reverts, p1, p2);
    lemma_reverts_after_short(reverts, p1);
    let r1 = reverts_after_all(reverts, p1);
    lemma_reverts_after_short(r1, p2);
    let r2 = reverts_after_all(r1, p2);
    lemma_reverts_after_short(r2, p3);
    let r3 = reverts_after_all(r2, p3);
    lemma_reverts_after_short(r3, p4);
}

/// Only the power step can fail a session: every other step that does not take
/// effect is passed over. In a dry run no step fails, whatever its outcome, and
/// the GPU clock is left alone.
pub proof fn lemma_session_failures(
    c: SessionConfig,
    platform: Platform,
    pid: u32,
    prior: Seq<char>,
    i: int,
    ok: bool,
)
    requires
        0 <= i < spec_actions(c, platform, pid, prior).len(),
    ensures
        action_fails(spec_actions(c, platform, pid, prior)[i], ok || c.dry_run)
            ==> c.enable_power_mode && i == 0,
        c.dry_run ==> !action_fails(spec_actions(c, platform, pid, prior)[i], ok || c.dry_run),
        c.dry_run ==> spec_actions(c, platform, pid, prior)[i] != ActionView::GpuProfile(true),
{
    let a = spec_actions(c, platform, pid, prior);
    if !c.enable_power_mode || i > 0 {
        assert(!action_fails(a[i], ok || c.dry_run));
    }
}

/// On Linux the session is undone back to the governor that was in force before
/// it: where the text read beforehand names a governor, the undo command switches
/// to exactly that governor.
pub proof fn lemma_undo_restores_prior_governor(prior: Seq<char>)
    requires
        is_governor_name(crate::text::trim(prior)),
    ensures
        spec_power_restore(Platform::Linux, prior) == command(
            "sh"@,
            seq!["-c"@, governor_script(crate::text::trim(prior))],
        ),
{
}

} // verus!
