//! The flow execution state machine.
//!
//! A flow is an ordered list of steps. Each step is gated by its execution
//! policy against the run state so far, then either launched or recorded as
//! aborted. Non-hook results drive the overall Running/Failed state and the
//! "previous result" pointer; hook results never touch either. The launch
//! itself happens outside: its outcome (spawn failure, or exit code, output
//! streams and duration) comes in as a plain value, and everything decided
//! from it is verified here.

use vstd::prelude::*;
use vstd::string::*;
use crate::env::{
    Env,
    env_entries_view,
    extend_env,
    spec_parse_env,
    parse_env_file,
    lemma_env_view_concat,
};
use crate::capture::{ChildStreams, DualOutputStream, OutputStream, capture_command};

verus! {

/// A run-unique token naming one step instance.
pub type CommandId = u64;

/// When a step may run, judged against the context before the step.
#[derive(Clone, Copy, PartialEq, Eq, Structural, Debug)]
pub enum ExecutionPolicy {
    /// Run unless the overall state is already Failed.
    NoPriorFailed,
    /// Run unless the previous non-hook result has a non-zero exit code.
    PriorSuccess,
    /// Always run.
    Always,
}

/// The overall state of a run; it moves from Running to Failed at the first
/// failing non-hook step and never moves back.
#[derive(Clone, Copy, PartialEq, Eq, Structural, Debug)]
pub enum RunState {
    Running,
    Failed,
}

/// What one step ended as. An aborted result stands for a step the policy
/// skipped: it never ran, its exit code is 0 by convention.
#[derive(Clone, Copy, PartialEq, Eq, Structural, Debug)]
pub struct ExecutionResult {
    pub command_id: CommandId,
    /// For a hook, the identifier of the main step it decorates.
    pub focus: Option<CommandId>,
    /// The child's exit code; -1 when it ended without one; 0 for a skip.
    pub exit_code: i32,
    /// True when the policy skipped the step.
    pub aborted: bool,
    /// Wall-clock duration of the launch, when one happened.
    pub duration_ms: Option<u64>,
}

/// One step definition: immutable once the flow is built.
#[derive(Clone)]
pub struct Command {
    pub name: String,
    pub run: String,
    /// Step-level environment overrides, layered over the accumulated one.
    pub env: Env,
    /// Optional working-directory override; absolute, or joined onto the
    /// run working directory.
    pub cwd: Option<String>,
    pub policy: ExecutionPolicy,
    /// A hook never affects the overall state or the previous result.
    pub is_hook: bool,
    /// For a hook, the identifier of the main step it decorates.
    pub focus: Option<CommandId>,
}

/// An ordered, named list of steps with flow-level environment and
/// working directory.
pub struct Flow {
    pub name: String,
    pub steps: Vec<(CommandId, Command)>,
    pub env: Env,
    pub cwd: Option<String>,
}

/// Run-wide mutable state, updated once per step, strictly in order.
pub struct ExecutionContext {
    /// The accumulated environment; grows only by what steps write to
    /// their output files.
    pub env: Env,
    /// The run working directory.
    pub cwd: String,
    pub current: CommandId,
    /// The result of the previous non-hook step, aborted ones included.
    pub previous: Option<ExecutionResult>,
    /// The display name of the previous non-hook step.
    pub previous_name: Option<String>,
    pub state: RunState,
    /// When set, no step is launched: every executed step reports exit 0.
    pub dry_run: bool,
}

/// A step failed when it actually ran and exited non-zero.
pub open spec fn step_failed(r: ExecutionResult) -> bool {
    !r.aborted && r.exit_code != 0
}

/// Whether the policy lets a step run, judged against the state and the
/// previous non-hook result before the step.
pub open spec fn policy_allows(
    p: ExecutionPolicy,
    state: RunState,
    prev: Option<ExecutionResult>,
) -> bool {
    match p {
        ExecutionPolicy::NoPriorFailed => !(state is Failed),
        ExecutionPolicy::PriorSuccess => match prev {
            None => true,
            Some(pr) => pr.exit_code == 0,
        },
        ExecutionPolicy::Always => true,
    }
}

/// When each policy skips a step: under `PriorSuccess` exactly when the
/// previous non-hook result exists with a non-zero exit code; under
/// `NoPriorFailed` exactly when the overall state is already Failed; under
/// `Always` never.
pub proof fn lemma_policy_gates(state: RunState, prev: Option<ExecutionResult>)
    ensures
        !policy_allows(ExecutionPolicy::PriorSuccess, state, prev) <==> (prev matches Some(p)
            && p.exit_code != 0),
        !policy_allows(ExecutionPolicy::NoPriorFailed, state, prev) <==> state is Failed,
        policy_allows(ExecutionPolicy::Always, state, prev),
{
}

/// Evaluates the step's policy against the context before the step.
pub fn should_run(policy: &ExecutionPolicy, context: &ExecutionContext) -> (b: bool)
    ensures
        b == policy_allows(*policy, context.state, context.previous),
{
    match policy {
        ExecutionPolicy::NoPriorFailed => match context.state {
            RunState::Running => true,
            RunState::Failed => false,
        },
        ExecutionPolicy::PriorSuccess => match &context.previous {
            None => true,
            Some(pr) => pr.exit_code == 0,
        },
        ExecutionPolicy::Always => true,
    }
}

/// The result recorded for a step the policy skipped: aborted, exit 0,
/// no duration. A skip is not a failure.
pub fn synthesize_aborted(command_id: CommandId, focus: Option<CommandId>) -> (r: ExecutionResult)
    ensures
        r == (ExecutionResult {
            command_id,
            focus,
            exit_code: 0,
            aborted: true,
            duration_ms: None::<u64>,
        }),
{
    ExecutionResult { command_id, focus, exit_code: 0, aborted: true, duration_ms: None }
}

/// Folds one step's result into the run: a hook touches nothing; a non-hook
/// result becomes the previous result unconditionally and moves the state
/// to Failed exactly when the step ran and exited non-zero.
pub fn record_result(
    context: &mut ExecutionContext,
    name: &String,
    is_hook: bool,
    result: &ExecutionResult,
)
    ensures
        is_hook ==> final(context).state == old(context).state && final(context).previous == old(context).previous && final(context).previous_name == old(context).previous_name,
        !is_hook ==> final(context).previous == Some(*result) && final(context).previous_name
            == Some(*name) && (final(context).state is Failed <==> old(context).state is Failed
            || step_failed(*result)),
        final(context).env == old(context).env,
        final(context).cwd == old(context).cwd,
        final(context).current == old(context).current,
        final(context).dry_run == old(context).dry_run,
{
    if !is_hook {
        if !result.aborted && result.exit_code != 0 {
            context.state = RunState::Failed;
        }
        context.previous = Some(*result);
        context.previous_name = Some(name.clone());
    }
}

/// A step's effective working directory: the override itself when it is
/// absolute, the override joined onto the current directory when relative,
/// the current directory when there is none.
pub open spec fn spec_resolve_cwd(current: Seq<char>, cwd: Option<Seq<char>>) -> Seq<char> {
    match cwd {
        None => current,
        Some(c) => if c.len() > 0 && c[0] == '/' {
            c
        } else {
            current + seq!['/'] + c
        },
    }
}

/// Resolves a working-directory override against the current directory.
pub fn resolve_cwd(current: &String, cwd: Option<&String>) -> (r: String)
    ensures
        r@ == spec_resolve_cwd(
            current@,
            match cwd {
                None => None,
                Some(c) => Some(c@),
            },
        ),
{
    match cwd {
        None => current.clone(),
        Some(c) => {
            let n = c.as_str().unicode_len();
            if n > 0 && c.as_str().get_char(0) == '/' {
                c.clone()
            } else {
                let mut s = current.clone();
                s.append("/");
                s.append(c.as_str());
                proof {
                    reveal_strlit("/");
                    assert(current@ + "/"@ + c@ =~= s@);
                }
                s
            }
        }
    }
}

/// How a launch attempt ended: the spawn itself failed, or the child ran
/// and exited, leaving an exit code, its two output streams, and how long
/// it took.
pub enum SpawnOutcome {
    SpawnFailed,
    Exited { exit_code: Option<i32>, duration_ms: Option<u64>, streams: ChildStreams },
}

/// Everything the runner observed around one launched step: the path of
/// the scoped output file it exposed, how the launch ended, and what the
/// output file held afterwards (`None` when absent or empty).
pub struct StepOutcome {
    pub output_path: String,
    pub spawn: SpawnOutcome,
    pub output_file: Option<String>,
}

/// Why a run stopped. Every one of these is fatal: no later step runs.
#[derive(Clone, Copy, PartialEq, Eq, Structural, Debug)]
pub enum ExecutionError {
    /// The child process could not be started.
    SpawnFailed,
    /// A sink rejected a captured chunk or a flush.
    OutputWrite,
    /// A step's output file was not newline-separated `KEY=VALUE` lines.
    MalformedOutputFile,
    /// The dotenv file given at run start was malformed.
    MalformedDotenv,
}

pub open spec fn spawn_exited(o: SpawnOutcome) -> bool {
    o is Exited
}

pub open spec fn spawn_code(o: SpawnOutcome) -> Option<i32> {
    match o {
        SpawnOutcome::Exited { exit_code, .. } => exit_code,
        SpawnOutcome::SpawnFailed => None,
    }
}

pub open spec fn spawn_duration(o: SpawnOutcome) -> Option<u64> {
    match o {
        SpawnOutcome::Exited { duration_ms, .. } => duration_ms,
        SpawnOutcome::SpawnFailed => None,
    }
}

pub open spec fn spawn_stdout(o: SpawnOutcome) -> Seq<u8> {
    match o {
        SpawnOutcome::Exited { streams, .. } => streams.stdout@,
        SpawnOutcome::SpawnFailed => Seq::empty(),
    }
}

pub open spec fn spawn_stderr(o: SpawnOutcome) -> Seq<u8> {
    match o {
        SpawnOutcome::Exited { streams, .. } => streams.stderr@,
        SpawnOutcome::SpawnFailed => Seq::empty(),
    }
}

/// The exit code a result carries: the child's own, or -1 when the child
/// ended without one.
pub open spec fn spec_effective_exit(code: Option<i32>) -> int {
    match code {
        Some(v) => v as int,
        None => -1,
    }
}

pub fn effective_exit_code(code: &Option<i32>) -> (r: i32)
    ensures
        r as int == spec_effective_exit(*code),
{
    match code {
        Some(v) => *v,
        None => -1,
    }
}

/// Whether a step's output file, if present, parses as `KEY=VALUE` lines.
pub open spec fn output_file_wellformed(f: Option<String>) -> bool {
    match f {
        None => true,
        Some(t) => spec_parse_env(t@) is Some,
    }
}

/// Turns one launch outcome into a step result, delivering the child's
/// captured streams to the output on the way. In a dry run nothing was
/// launched: the result reports exit 0 and the output is untouched. A spawn
/// failure is fatal. Otherwise the result carries the child's effective
/// exit code and duration, and the delivered bytes of each stream grow by
/// exactly that stream's contents.
pub fn execute_command(
    command: &Command,
    context: &ExecutionContext,
    outcome: &SpawnOutcome,
    output: &mut DualOutputStream,
) -> (r: Result<ExecutionResult, ExecutionError>)
    ensures
        final(output).all_accept() == old(output).all_accept(),
        context.dry_run ==> r is Ok,
        !context.dry_run ==> ((r matches Err(e) && e == ExecutionError::SpawnFailed) <==> !spawn_exited(
            *outcome,
        )),
        r matches Err(e) ==> e == ExecutionError::SpawnFailed || e == ExecutionError::OutputWrite,
        !context.dry_run && spawn_exited(*outcome) && old(output).all_accept() ==> r is Ok,
        r matches Ok(result) ==> {
            &&& result.command_id == context.current
            &&& result.focus == command.focus
            &&& !result.aborted
            &&& (context.dry_run ==> result.exit_code == 0 && result.duration_ms is None && final(output).delivered(OutputStream::Stdout) == old(output).delivered(OutputStream::Stdout)
                && final(output).delivered(OutputStream::Stderr) == old(output).delivered(
                OutputStream::Stderr,
            ))
            &&& (!context.dry_run ==> spawn_exited(*outcome) && result.exit_code as int
                == spec_effective_exit(spawn_code(*outcome)) && result.duration_ms
                == spawn_duration(*outcome) && final(output).delivered(OutputStream::Stdout)
                == old(output).delivered(OutputStream::Stdout) + spawn_stdout(*outcome) && final(output).delivered(OutputStream::Stderr) == old(output).delivered(OutputStream::Stderr)
                + spawn_stderr(*outcome))
        },
{
    if context.dry_run {
        return Ok(
            ExecutionResult {
                command_id: context.current,
                focus: command.focus,
                exit_code: 0,
                aborted: false,
                duration_ms: None,
            },
        );
    }
    match outcome {
        SpawnOutcome::SpawnFailed => Err(ExecutionError::SpawnFailed),
        SpawnOutcome::Exited { exit_code, duration_ms, streams } => {
            match capture_command(streams, output) {
                Ok(()) => {}
                Err(_) => {
                    return Err(ExecutionError::OutputWrite);
                }
            }
            let code = effective_exit_code(exit_code);
            Ok(
                ExecutionResult {
                    command_id: context.current,
                    focus: command.focus,
                    exit_code: code,
                    aborted: false,
                    duration_ms: *duration_ms,
                },
            )
        }
    }
}

/// Drives a run, one step at a time, carrying the run-wide state.
pub struct Executor {
    pub context: ExecutionContext,
}

impl Executor {
    pub fn new(context: ExecutionContext) -> (r: Self)
        ensures
            r.context == context,
    {
        Executor { context }
    }

    /// Runs one step of the flow: gates it by its policy, turns the launch
    /// outcome into a result, merges what the step wrote to its output file
    /// into the accumulated environment, and records the result. A hook
    /// changes neither the overall state nor the previous result; a skipped
    /// step is aborted, never a failure.
    pub fn execute(
        &mut self,
        command_id: CommandId,
        command: &Command,
        outcome: &StepOutcome,
        output: &mut DualOutputStream,
    ) -> (r: Result<ExecutionResult, ExecutionError>)
        ensures
            final(self).context.current == command_id,
            final(self).context.cwd == old(self).context.cwd,
            final(self).context.dry_run == old(self).context.dry_run,
            final(output).all_accept() == old(output).all_accept(),
            !policy_allows(command.policy, old(self).context.state, old(self).context.previous)
                ==> r is Ok,
            policy_allows(command.policy, old(self).context.state, old(self).context.previous)
                && (old(self).context.dry_run || spawn_exited(outcome.spawn)) && old(output).all_accept() && output_file_wellformed(outcome.output_file) ==> r is Ok,
            match r {
                Ok(result) => {
                    &&& result.command_id == command_id
                    &&& result.focus == command.focus
                    &&& (result.aborted <==> !policy_allows(
                        command.policy,
                        old(self).context.state,
                        old(self).context.previous,
                    ))
                    &&& (result.aborted ==> result.exit_code == 0 && result.duration_ms is None)
                    &&& (!result.aborted && old(self).context.dry_run ==> result.exit_code == 0
                        && result.duration_ms is None)
                    &&& (!result.aborted && !old(self).context.dry_run ==> spawn_exited(
                        outcome.spawn,
                    ) && result.exit_code as int == spec_effective_exit(spawn_code(outcome.spawn))
                        && result.duration_ms == spawn_duration(outcome.spawn))
                    &&& (command.is_hook ==> final(self).context.state == old(self).context.state
                        && final(self).context.previous == old(self).context.previous && final(self).context.previous_name == old(self).context.previous_name)
                    &&& (!command.is_hook ==> final(self).context.previous == Some(result) && final(self).context.previous_name == Some(command.name) && (final(self).context.state
                        is Failed <==> old(self).context.state is Failed || step_failed(result)))
                    &&& (result.aborted ==> final(self).context.env == old(self).context.env
                        && final(output).delivered(OutputStream::Stdout) == old(output).delivered(
                        OutputStream::Stdout,
                    ) && final(output).delivered(OutputStream::Stderr) == old(output).delivered(
                        OutputStream::Stderr,
                    ))
                    &&& (!result.aborted && outcome.output_file is None ==> final(self).context.env
                        == old(self).context.env)
                    &&& (!result.aborted ==> (outcome.output_file matches Some(t)
                        ==> spec_parse_env(t@) is Some && env_entries_view(final(self).context.env@)
                        == env_entries_view(old(self).context.env@) + spec_parse_env(t@).unwrap()))
                    &&& (!result.aborted && !old(self).context.dry_run ==> final(output).delivered(
                        OutputStream::Stdout,
                    ) == old(output).delivered(OutputStream::Stdout) + spawn_stdout(outcome.spawn)
                        && final(output).delivered(OutputStream::Stderr) == old(output).delivered(
                        OutputStream::Stderr,
                    ) + spawn_stderr(outcome.spawn))
                    &&& (!result.aborted && old(self).context.dry_run ==> final(output).delivered(
                        OutputStream::Stdout,
                    ) == old(output).delivered(OutputStream::Stdout) && final(output).delivered(
                        OutputStream::Stderr,
                    ) == old(output).delivered(OutputStream::Stderr))
                },
                Err(e) => {
                    &&& final(self).context.state == old(self).context.state
                    &&& final(self).context.previous == old(self).context.previous
                    &&& final(self).context.previous_name == old(self).context.previous_name
                    &&& final(self).context.env == old(self).context.env
                    &&& policy_allows(
                        command.policy,
                        old(self).context.state,
                        old(self).context.previous,
                    )
                    &&& (e == ExecutionError::SpawnFailed <==> !old(self).context.dry_run
                        && !spawn_exited(outcome.spawn))
                    &&& (e == ExecutionError::MalformedOutputFile ==> (
                    outcome.output_file matches Some(t) && spec_parse_env(t@) is None))
                    &&& e != ExecutionError::MalformedDotenv
                },
            },
    {
        self.context.current = command_id;
        let will_run = should_run(&command.policy, &self.context);
        if !will_run {
            let result = synthesize_aborted(command_id, command.focus);
            record_result(&mut self.context, &command.name, command.is_hook, &result);
            return Ok(result);
        }
        let result = match execute_command(command, &self.context, &outcome.spawn, output) {
            Ok(rr) => rr,
            Err(e) => {
                return Err(e);
            }
        };
        match &outcome.output_file {
            None => {}
            Some(text) => {
                match parse_env_file(text) {
                    Ok(pairs) => {
                        proof {
                            crate::env::lemma_env_view_concat(self.context.env@, pairs@);
                        }
                        extend_env(&mut self.context.env, &pairs);
                    }
                    Err(_) => {
                        return Err(ExecutionError::MalformedOutputFile);
                    }
                }
            }
        }
        record_result(&mut self.context, &command.name, command.is_hook, &result);
        Ok(result)
    }
}

/// True when some non-hook step among the first `n` ran and exited
/// non-zero: exactly when the overall state has moved to Failed.
pub open spec fn spec_any_failure(
    steps: Seq<(CommandId, Command)>,
    results: Seq<ExecutionResult>,
    n: int,
) -> bool {
    exists|i: int| 0 <= i < n && !steps[i].1.is_hook && step_failed(results[i])
}

/// The overall state after the first `n` steps.
pub open spec fn spec_state_before(
    steps: Seq<(CommandId, Command)>,
    results: Seq<ExecutionResult>,
    n: int,
) -> RunState {
    if spec_any_failure(steps, results, n) {
        RunState::Failed
    } else {
        RunState::Running
    }
}

/// The previous non-hook result as step `n` sees it: the latest non-hook
/// result among the first `n`, aborted ones included.
pub open spec fn spec_prev_before(
    steps: Seq<(CommandId, Command)>,
    results: Seq<ExecutionResult>,
    n: int,
) -> Option<ExecutionResult>
    decreases n,
{
    if n <= 0 {
        None
    } else if !steps[n - 1].1.is_hook {
        Some(results[n - 1])
    } else {
        spec_prev_before(steps, results, n - 1)
    }
}

proof fn lemma_prev_before_push(
    steps: Seq<(CommandId, Command)>,
    results: Seq<ExecutionResult>,
    r: ExecutionResult,
    n: int,
)
    requires
        0 <= n <= results.len(),
    ensures
        spec_prev_before(steps, results.push(r), n) == spec_prev_before(steps, results, n),
    decreases n,
{
    if n > 0 {
        assert(results.push(r)[n - 1] == results[n - 1]);
        lemma_prev_before_push(steps, results, r, n - 1);
    }
}

proof fn lemma_any_failure_push(
    steps: Seq<(CommandId, Command)>,
    results: Seq<ExecutionResult>,
    r: ExecutionResult,
    n: int,
)
    requires
        0 <= n <= results.len(),
    ensures
        spec_any_failure(steps, results.push(r), n) == spec_any_failure(steps, results, n),
{
    if spec_any_failure(steps, results.push(r), n) {
        let i = choose|i: int| 0 <= i < n && !steps[i].1.is_hook && step_failed(results.push(r)[i]);
        assert(results.push(r)[i] == results[i]);
        assert(spec_any_failure(steps, results, n));
    }
    if spec_any_failure(steps, results, n) {
        let i = choose|i: int| 0 <= i < n && !steps[i].1.is_hook && step_failed(results[i]);
        assert(results.push(r)[i] == results[i]);
        assert(spec_any_failure(steps, results.push(r), n));
    }
}

proof fn lemma_any_failure_snoc(
    steps: Seq<(CommandId, Command)>,
    results: Seq<ExecutionResult>,
    r: ExecutionResult,
    n: int,
)
    requires
        0 <= n == results.len(),
    ensures
        spec_any_failure(steps, results.push(r), n + 1) == (spec_any_failure(steps, results, n) || (
        !steps[n].1.is_hook && step_failed(r))),
{
    lemma_any_failure_push(steps, results, r, n);
    assert(results.push(r)[n] == r);
    if spec_any_failure(steps, results.push(r), n + 1) {
        let i = choose|i: int|
            0 <= i < n + 1 && !steps[i].1.is_hook && step_failed(results.push(r)[i]);
        if i < n {
            assert(results.push(r)[i] == results[i]);
            assert(spec_any_failure(steps, results, n));
        }
    }
    if spec_any_failure(steps, results, n) {
        let i = choose|i: int| 0 <= i < n && !steps[i].1.is_hook && step_failed(results[i]);
        assert(results.push(r)[i] == results[i]);
        assert(spec_any_failure(steps, results.push(r), n + 1));
    }
    if !steps[n].1.is_hook && step_failed(r) {
        assert(spec_any_failure(steps, results.push(r), n + 1));
    }
}

/// What a whole run produced: the ordered results and the final context.
pub struct FlowRun {
    pub results: Vec<ExecutionResult>,
    pub context: ExecutionContext,
}

/// Copies an environment.
pub fn clone_env(env: &Env) -> (r: Env)
    ensures
        r@ == env@,
{
    let n = env.len();
    let mut out: Env = Vec::new();
    let mut j: usize = 0;
    while j < n
        invariant
            j <= n == env@.len(),
            out@ == env@.subrange(0, j as int),
        decreases n - j,
    {
        let k = env[j].0.clone();
        let v = env[j].1.clone();
        out.push((k, v));
        proof {
            assert(env@.subrange(0, j as int).push(env@[j as int]) =~= env@.subrange(
                0,
                j as int + 1,
            ));
        }
        j = j + 1;
    }
    proof {
        assert(env@.subrange(0, n as int) =~= env@);
    }
    out
}

/// Runs a whole flow against the given launch outcomes, one per step, in
/// definition order. The base environment is the process environment, then
/// the dotenv contents, then the flow environment, later bindings winning.
/// The run stops at the first fatal error. On completion: every step has a
/// result in order; a result is aborted exactly when its policy refused the
/// state and previous result before it; and the final state is Failed
/// exactly when some non-hook step ran and exited non-zero.
pub fn execute_flow(
    flow: &Flow,
    process_env: &Env,
    dotenv: Option<&String>,
    current_dir: &String,
    dry_run: bool,
    outcomes: &Vec<StepOutcome>,
    output: &mut DualOutputStream,
) -> (r: Result<FlowRun, ExecutionError>)
    requires
        outcomes@.len() == flow.steps@.len(),
    ensures
        final(output).all_accept() == old(output).all_accept(),
        (r matches Err(e) && e == ExecutionError::MalformedDotenv) <==> (dotenv matches Some(t)
            && spec_parse_env(t@) is None),
        (match dotenv {
            None => true,
            Some(t) => spec_parse_env(t@) is Some,
        }) && old(output).all_accept() && (forall|i: int|
            0 <= i < outcomes@.len() ==> (dry_run || spawn_exited(outcomes@[i].spawn))
                && output_file_wellformed(outcomes@[i].output_file)) ==> r is Ok,
        match r {
            Ok(run) => {
                &&& run.results@.len() == flow.steps@.len()
                &&& run.context.dry_run == dry_run
                &&& forall|i: int|
                    0 <= i < flow.steps@.len() ==> #[trigger] run.results@[i].command_id
                        == flow.steps@[i].0
                &&& forall|i: int|
                    0 <= i < flow.steps@.len() ==> #[trigger] run.results@[i].focus
                        == flow.steps@[i].1.focus
                &&& forall|i: int|
                    0 <= i < flow.steps@.len() ==> ((#[trigger] run.results@[i].aborted)
                        <==> !policy_allows(
                        flow.steps@[i].1.policy,
                        spec_state_before(flow.steps@, run.results@, i),
                        spec_prev_before(flow.steps@, run.results@, i),
                    ))
                &&& forall|i: int|
                    0 <= i < flow.steps@.len() && (#[trigger] run.results@[i]).aborted
                        ==> run.results@[i].exit_code == 0
                &&& forall|i: int|
                    0 <= i < flow.steps@.len() && !(#[trigger] run.results@[i]).aborted ==> (
                    dry_run ==> run.results@[i].exit_code == 0) && (!dry_run ==> spawn_exited(
                        outcomes@[i].spawn,
                    ) && run.results@[i].exit_code as int == spec_effective_exit(
                        spawn_code(outcomes@[i].spawn),
                    ))
                &&& (run.context.state is Failed <==> spec_any_failure(
                    flow.steps@,
                    run.results@,
                    flow.steps@.len() as int,
                ))
                &&& run.context.previous == spec_prev_before(
                    flow.steps@,
                    run.results@,
                    flow.steps@.len() as int,
                )
            },
            Err(_) => true,
        },
{
    let mut base_env = clone_env(process_env);
    match dotenv {
        None => {}
        Some(text) => {
            match parse_env_file(text) {
                Ok(pairs) => {
                    extend_env(&mut base_env, &pairs);
                }
                Err(_) => {
                    return Err(ExecutionError::MalformedDotenv);
                }
            }
        }
    }
    extend_env(&mut base_env, &flow.env);
    let cwd = resolve_cwd(
        current_dir,
        match &flow.cwd {
            None => None,
            Some(c) => Some(c),
        },
    );
    let mut executor = Executor::new(
        ExecutionContext {
            env: base_env,
            cwd,
            current: 0,
            previous: None,
            previous_name: None,
            state: RunState::Running,
            dry_run,
        },
    );
    let mut results: Vec<ExecutionResult> = Vec::new();
    let n = flow.steps.len();
    let mut i: usize = 0;
    while i < n
        invariant
            i <= n == flow.steps@.len(),
            outcomes@.len() == n,
            results@.len() == i,
            !(dotenv matches Some(t) && spec_parse_env(t@) is None),
            executor.context.dry_run == dry_run,
            (executor.context.state is Failed <==> spec_any_failure(
                flow.steps@,
                results@,
                i as int,
            )),
            executor.context.previous == spec_prev_before(flow.steps@, results@, i as int),
            output.all_accept() == old(output).all_accept(),
            forall|j: int|
                0 <= j < i ==> #[trigger] results@[j].command_id == flow.steps@[j].0,
            forall|j: int| 0 <= j < i ==> #[trigger] results@[j].focus == flow.steps@[j].1.focus,
            forall|j: int|
                0 <= j < i ==> ((#[trigger] results@[j].aborted) <==> !policy_allows(
                    flow.steps@[j].1.policy,
                    spec_state_before(flow.steps@, results@, j),
                    spec_prev_before(flow.steps@, results@, j),
                )),
            forall|j: int|
                0 <= j < i && (#[trigger] results@[j]).aborted ==> results@[j].exit_code == 0,
            forall|j: int|
                0 <= j < i && !(#[trigger] results@[j]).aborted ==> (dry_run ==> results@[j].exit_code
                    == 0) && (!dry_run ==> spawn_exited(outcomes@[j].spawn)
                    && results@[j].exit_code as int == spec_effective_exit(
                    spawn_code(outcomes@[j].spawn),
                )),
        decreases n - i,
    {
        let step = &flow.steps[i];
        let ghost old_results = results@;
        let ghost old_state = executor.context.state;
        let ghost old_prev = executor.context.previous;
        let res = executor.execute(step.0, &step.1, &outcomes[i], output);
        let result = match res {
            Ok(rr) => rr,
            Err(e) => {
                return Err(e);
            }
        };
        results.push(result);
        proof {
            let steps = flow.steps@;
            let ii = i as int;
            lemma_any_failure_push(steps, old_results, result, ii);
            lemma_prev_before_push(steps, old_results, result, ii);
            lemma_any_failure_snoc(steps, old_results, result, ii);
            assert(results@ == old_results.push(result));
            assert(results@[ii] == result);
            // the state seen by the step that just ran
            assert(old_state == spec_state_before(steps, results@, ii));
            assert(old_prev == spec_prev_before(steps, results@, ii));
            // state and previous after the step
            if step.1.is_hook {
                assert(spec_prev_before(steps, results@, ii + 1) == spec_prev_before(
                    steps,
                    results@,
                    ii,
                ));
                assert(!(!steps[ii].1.is_hook && step_failed(result)));
                assert(executor.context.state is Failed <==> spec_any_failure(
                    steps,
                    results@,
                    ii + 1,
                ));
            } else {
                assert(spec_prev_before(steps, results@, ii + 1) == Some(result));
            }
            // clauses already established stay, since pushed entries are at ii
            assert forall|j: int| 0 <= j < ii implies ((#[trigger] results@[j].aborted)
                <==> !policy_allows(
                steps[j].1.policy,
                spec_state_before(steps, results@, j),
                spec_prev_before(steps, results@, j),
            )) by {
                lemma_any_failure_push(steps, old_results, result, j);
                lemma_prev_before_push(steps, old_results, result, j);
                assert(results@[j] == old_results[j]);
            }
        }
        i = i + 1;
    }
    match output.flush() {
        Ok(()) => {}
        Err(_) => {
            return Err(ExecutionError::OutputWrite);
        }
    }
    Ok(FlowRun { results, context: executor.context })
}


/// The decimal digit character for `d`.
pub open spec fn spec_digit_char(d: int) -> char {
    if d == 0 {
        '0'
    } else if d == 1 {
        '1'
    } else if d == 2 {
        '2'
    } else if d == 3 {
        '3'
    } else if d == 4 {
        '4'
    } else if d == 5 {
        '5'
    } else if d == 6 {
        '6'
    } else if d == 7 {
        '7'
    } else if d == 8 {
        '8'
    } else {
        '9'
    }
}

/// The decimal digits of `n`, most significant first.
pub open spec fn spec_u64_chars(n: nat) -> Seq<char>
    decreases n,
{
    if n < 10 {
        seq![spec_digit_char(n as int)]
    } else {
        spec_u64_chars(n / 10).push(spec_digit_char((n % 10) as int))
    }
}

/// The decimal rendering of a signed value: a minus sign when negative,
/// then the digits of the magnitude.
pub open spec fn spec_i32_chars(n: int) -> Seq<char> {
    if n < 0 {
        seq!['-'] + spec_u64_chars((-n) as nat)
    } else {
        spec_u64_chars(n as nat)
    }
}

fn digit_string(d: u64) -> (s: String)
    requires
        d < 10,
    ensures
        s@ == seq![spec_digit_char(d as int)],
{
    let lit: &str = if d == 0 {
        "0"
    } else if d == 1 {
        "1"
    } else if d == 2 {
        "2"
    } else if d == 3 {
        "3"
    } else if d == 4 {
        "4"
    } else if d == 5 {
        "5"
    } else if d == 6 {
        "6"
    } else if d == 7 {
        "7"
    } else if d == 8 {
        "8"
    } else {
        "9"
    };
    let s = String::from_str(lit);
    proof {
        reveal_strlit("0");
        reveal_strlit("1");
        reveal_strlit("2");
        reveal_strlit("3");
        reveal_strlit("4");
        reveal_strlit("5");
        reveal_strlit("6");
        reveal_strlit("7");
        reveal_strlit("8");
        reveal_strlit("9");
        assert(s@ =~= seq![spec_digit_char(d as int)]);
    }
    s
}

/// Renders an identifier in decimal.
pub fn render_u64(n: u64) -> (s: String)
    ensures
        s@ == spec_u64_chars(n as nat),
    decreases n,
{
    if n < 10 {
        digit_string(n)
    } else {
        let q = n / 10;
        let d = n % 10;
        let mut s = render_u64(q);
        let ds = digit_string(d);
        s.append(ds.as_str());
        proof {
            assert(spec_u64_chars(n as nat) == spec_u64_chars(q as nat).push(
                spec_digit_char(d as int),
            ));
            assert(spec_u64_chars(q as nat).push(spec_digit_char(d as int)) =~= spec_u64_chars(
                q as nat,
            ) + seq![spec_digit_char(d as int)]);
        }
        s
    }
}

/// Renders an exit code in decimal, with a minus sign when negative.
pub fn render_i32(n: i32) -> (s: String)
    ensures
        s@ == spec_i32_chars(n as int),
{
    if n >= 0 {
        render_u64(n as u64)
    } else {
        let wide: i64 = n as i64;
        let mag: u64 = (-wide) as u64;
        let mut s = String::from_str("-");
        let digits = render_u64(mag);
        s.append(digits.as_str());
        proof {
            reveal_strlit("-");
            assert(s@ =~= seq!['-'] + spec_u64_chars(mag as nat));
        }
        s
    }
}

/// The variables synthesized from the previous non-hook result: its display
/// name when one is known, its identifier and its exit code.
pub open spec fn spec_prev_entries(
    prev: Option<ExecutionResult>,
    prev_name: Option<String>,
) -> Seq<(Seq<char>, Seq<char>)> {
    match prev {
        None => Seq::empty(),
        Some(p) => (match prev_name {
            Some(nm) => seq![("NAUMAN_PREV_NAME"@, nm@)],
            None => Seq::empty(),
        }) + seq![
            ("NAUMAN_PREV_ID"@, spec_u64_chars(p.command_id as nat)),
            ("NAUMAN_PREV_CODE"@, spec_i32_chars(p.exit_code as int)),
        ],
    }
}

/// The variables synthesized for the step itself: its display name, its
/// identifier, and the path of its scoped output file.
pub open spec fn spec_task_entries(
    command_id: CommandId,
    name: Seq<char>,
    output_path: Seq<char>,
) -> Seq<(Seq<char>, Seq<char>)> {
    seq![
        ("NAUMAN_TASK_NAME"@, name),
        ("NAUMAN_TASK_ID"@, spec_u64_chars(command_id as nat)),
        ("NAUMAN_OUTPUT_FILE"@, output_path),
    ]
}

/// Everything synthesized for one step, previous-result variables first.
pub open spec fn spec_step_entries(
    prev: Option<ExecutionResult>,
    prev_name: Option<String>,
    command_id: CommandId,
    name: Seq<char>,
    output_path: Seq<char>,
) -> Seq<(Seq<char>, Seq<char>)> {
    spec_prev_entries(prev, prev_name) + spec_task_entries(command_id, name, output_path)
}

/// Appends the synthesized variables for one step to an environment.
pub fn inject_step_entries(
    env: &mut Env,
    prev: &Option<ExecutionResult>,
    prev_name: &Option<String>,
    command_id: CommandId,
    name: &String,
    output_path: &String,
)
    ensures
        env_entries_view(final(env)@) == env_entries_view(old(env)@) + spec_step_entries(
            *prev,
            *prev_name,
            command_id,
            name@,
            output_path@,
        ),
{
    match prev {
        None => {}
        Some(p) => {
            match prev_name {
                None => {}
                Some(nm) => {
                    env.push((String::from_str("NAUMAN_PREV_NAME"), nm.clone()));
                }
            }
            env.push((String::from_str("NAUMAN_PREV_ID"), render_u64(p.command_id)));
            env.push((String::from_str("NAUMAN_PREV_CODE"), render_i32(p.exit_code)));
        }
    }
    env.push((String::from_str("NAUMAN_TASK_NAME"), name.clone()));
    env.push((String::from_str("NAUMAN_TASK_ID"), render_u64(command_id)));
    env.push((String::from_str("NAUMAN_OUTPUT_FILE"), output_path.clone()));
    proof {
        assert(env_entries_view(final(env)@) =~= env_entries_view(old(env)@) + spec_step_entries(
            *prev,
            *prev_name,
            command_id,
            name@,
            output_path@,
        ));
    }
}

/// What a launch needs: the child\'s full environment and working directory.
pub struct LaunchPlan {
    pub env: Env,
    pub cwd: String,
}

/// Prepares one step\'s launch. The child\'s environment is the accumulated
/// run environment, then the step\'s own overrides, then the synthesized
/// variables, later bindings winning; its working directory is the step\'s
/// override resolved against the run working directory.
pub fn build_launch_plan(
    context: &ExecutionContext,
    command_id: CommandId,
    command: &Command,
    output_path: &String,
) -> (plan: LaunchPlan)
    ensures
        env_entries_view(plan.env@) == env_entries_view(context.env@) + env_entries_view(
            command.env@,
        ) + spec_step_entries(
            context.previous,
            context.previous_name,
            command_id,
            command.name@,
            output_path@,
        ),
        plan.cwd@ == spec_resolve_cwd(
            context.cwd@,
            match command.cwd {
                None => None,
                Some(c) => Some(c@),
            },
        ),
{
    let mut env = clone_env(&context.env);
    extend_env(&mut env, &command.env);
    proof {
        lemma_env_view_concat(context.env@, command.env@);
    }
    inject_step_entries(
        &mut env,
        &context.previous,
        &context.previous_name,
        command_id,
        &command.name,
        output_path,
    );
    let cwd = resolve_cwd(
        &context.cwd,
        match &command.cwd {
            None => None,
            Some(c) => Some(c),
        },
    );
    proof {
        assert(env_entries_view(context.env@ + command.env@) + spec_step_entries(
            context.previous,
            context.previous_name,
            command_id,
            command.name@,
            output_path@,
        ) =~= env_entries_view(context.env@) + env_entries_view(command.env@) + spec_step_entries(
            context.previous,
            context.previous_name,
            command_id,
            command.name@,
            output_path@,
        ));
    }
    LaunchPlan { env, cwd }
}

} // verus!

