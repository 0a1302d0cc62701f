use nauman::capture::{ChildStreams, DualOutputStream};
use nauman::env::{lookup_env, Env};
use nauman::execution::{
    build_launch_plan, execute_flow, render_i32, render_u64, resolve_cwd, Command, ExecutionContext,
    ExecutionError, ExecutionPolicy, ExecutionResult, Flow, RunState, SpawnOutcome, StepOutcome,
};
use nauman::output::MultiplexedOutput;

fn cmd(name: &str, run: &str, policy: ExecutionPolicy) -> Command {
    Command {
        name: name.to_string(),
        run: run.to_string(),
        env: Vec::new(),
        cwd: None,
        policy,
        is_hook: false,
        focus: None,
    }
}

fn hook(name: &str, run: &str, focus: u64) -> Command {
    Command {
        name: name.to_string(),
        run: run.to_string(),
        env: Vec::new(),
        cwd: None,
        policy: ExecutionPolicy::Always,
        is_hook: true,
        focus: Some(focus),
    }
}

fn exited(code: i32) -> StepOutcome {
    StepOutcome {
        output_path: "/tmp/out.env".to_string(),
        spawn: SpawnOutcome::Exited {
            exit_code: Some(code),
            duration_ms: Some(5),
            streams: ChildStreams { stdout: Vec::new(), stderr: Vec::new() },
        },
        output_file: None,
    }
}

fn exited_writing(code: i32, file: &str) -> StepOutcome {
    let mut o = exited(code);
    o.output_file = Some(file.to_string());
    o
}

fn dual() -> DualOutputStream {
    DualOutputStream::new(MultiplexedOutput::new(), MultiplexedOutput::new())
}

fn flow_of(steps: Vec<(u64, Command)>) -> Flow {
    Flow { name: "job".to_string(), steps, env: Vec::new(), cwd: None }
}

fn run_flow(flow: &Flow, outcomes: Vec<StepOutcome>) -> Result<(Vec<ExecutionResult>, ExecutionContext), ExecutionError> {
    let process_env: Env = Vec::new();
    let mut output = dual();
    execute_flow(
        flow,
        &process_env,
        None,
        &"/work".to_string(),
        false,
        &outcomes,
        &mut output,
    )
    .map(|run| (run.results, run.context))
}

#[test]
fn failing_then_prior_success_then_always() {
    // A fails; B under PriorSuccess is aborted; C under Always still runs.
    let flow = flow_of(vec![
        (1, cmd("A", "exit 1", ExecutionPolicy::NoPriorFailed)),
        (2, cmd("B", "echo hi", ExecutionPolicy::PriorSuccess)),
        (3, cmd("C", "echo bye", ExecutionPolicy::Always)),
    ]);
    let (results, context) = run_flow(&flow, vec![exited(1), exited(0), exited(0)]).unwrap();
    assert_eq!(results.len(), 3);
    assert_eq!(results[0].exit_code, 1);
    assert!(!results[0].aborted);
    assert!(results[1].aborted);
    assert_eq!(results[1].exit_code, 0);
    assert!(!results[2].aborted);
    assert_eq!(results[2].exit_code, 0);
    assert_eq!(context.state, RunState::Failed);
}

#[test]
fn hook_failure_never_flips_overall_state() {
    // The main step succeeds; its hook exits non-zero; the run stays clean.
    let flow = flow_of(vec![
        (1, cmd("main", "true", ExecutionPolicy::NoPriorFailed)),
        (2, hook("after-main", "exit 7", 1)),
    ]);
    let (results, context) = run_flow(&flow, vec![exited(0), exited(7)]).unwrap();
    assert_eq!(results[1].exit_code, 7);
    assert_eq!(results[1].focus, Some(1));
    assert_eq!(context.state, RunState::Running);
    // the hook result is recorded but never becomes "previous"
    assert_eq!(context.previous.unwrap().command_id, 1);
}

#[test]
fn hook_on_failing_main_step_keeps_the_failed_state() {
    // The main step fails; the hook also fails; the state is whatever the
    // main step set, and the hook's exit code is still in its own result.
    let flow = flow_of(vec![
        (1, cmd("main", "exit 1", ExecutionPolicy::NoPriorFailed)),
        (2, hook("after-main", "exit 9", 1)),
    ]);
    let (results, context) = run_flow(&flow, vec![exited(1), exited(9)]).unwrap();
    assert_eq!(context.state, RunState::Failed);
    assert_eq!(results[1].exit_code, 9);
    assert!(!results[1].aborted);
    assert_eq!(context.previous.unwrap().command_id, 1);
    assert_eq!(context.previous.unwrap().exit_code, 1);
}

#[test]
fn prior_success_runs_after_a_clean_step() {
    let flow = flow_of(vec![
        (1, cmd("A", "true", ExecutionPolicy::Always)),
        (2, cmd("B", "echo", ExecutionPolicy::PriorSuccess)),
    ]);
    let (results, context) = run_flow(&flow, vec![exited(0), exited(0)]).unwrap();
    assert!(!results[1].aborted);
    assert_eq!(context.state, RunState::Running);
}

#[test]
fn no_prior_failed_aborts_once_the_run_failed() {
    let flow = flow_of(vec![
        (1, cmd("A", "exit 2", ExecutionPolicy::Always)),
        (2, cmd("B", "echo", ExecutionPolicy::NoPriorFailed)),
    ]);
    let (results, _) = run_flow(&flow, vec![exited(2), exited(0)]).unwrap();
    assert!(results[1].aborted);
    assert_eq!(results[1].exit_code, 0);
    assert!(results[1].duration_ms.is_none());
}

#[test]
fn aborted_step_becomes_previous_with_exit_zero() {
    // A fails, B is aborted (recorded as previous with exit 0), so C under
    // PriorSuccess runs again.
    let flow = flow_of(vec![
        (1, cmd("A", "exit 1", ExecutionPolicy::Always)),
        (2, cmd("B", "echo", ExecutionPolicy::PriorSuccess)),
        (3, cmd("C", "echo", ExecutionPolicy::PriorSuccess)),
    ]);
    let (results, _) = run_flow(&flow, vec![exited(1), exited(0), exited(0)]).unwrap();
    assert!(results[1].aborted);
    assert!(!results[2].aborted);
}

#[test]
fn output_file_round_trip_reaches_the_next_step() {
    // The first step writes FOO=bar to its output file; the next step's
    // launch environment holds FOO=bar.
    let flow = flow_of(vec![(1, cmd("writer", "echo FOO=bar > $NAUMAN_OUTPUT_FILE", ExecutionPolicy::Always))]);
    let (_, context) = run_flow(&flow, vec![exited_writing(0, "FOO=bar\n")]).unwrap();
    let next = cmd("reader", "echo $FOO", ExecutionPolicy::Always);
    let plan = build_launch_plan(&context, 2, &next, &"/tmp/out2.env".to_string());
    assert_eq!(lookup_env(&plan.env, &"FOO".to_string()), Some("bar".to_string()));
}

#[test]
fn step_without_output_file_leaves_environment_unchanged() {
    let flow = flow_of(vec![(1, cmd("quiet", "true", ExecutionPolicy::Always))]);
    let process_env: Env = vec![("HOME".to_string(), "/root".to_string())];
    let mut output = dual();
    let run = execute_flow(&flow, &process_env, None, &"/work".to_string(), false, &vec![exited(0)], &mut output)
        .unwrap();
    assert_eq!(run.context.env, process_env);
}

#[test]
fn environment_precedence_chain() {
    // process X=1 < flow X=2 < step X=3 < what the step writes, X=4: the
    // step itself sees 3, the next step sees 4.
    let process_env: Env = vec![("X".to_string(), "1".to_string())];
    let mut step = cmd("first", "echo", ExecutionPolicy::Always);
    step.env = vec![("X".to_string(), "3".to_string())];
    let flow = Flow {
        name: "job".to_string(),
        steps: vec![(1, step.clone())],
        env: vec![("X".to_string(), "2".to_string())],
        cwd: None,
    };
    let mut output = dual();
    let run = execute_flow(
        &flow,
        &process_env,
        None,
        &"/work".to_string(),
        false,
        &vec![exited_writing(0, "X=4\n")],
        &mut output,
    )
    .unwrap();
    // what the first step itself saw: its own override wins over flow/process
    let before = ExecutionContext {
        env: {
            let mut e = process_env.clone();
            e.push(("X".to_string(), "2".to_string()));
            e
        },
        cwd: "/work".to_string(),
        current: 1,
        previous: None,
        previous_name: None,
        state: RunState::Running,
        dry_run: false,
    };
    let plan1 = build_launch_plan(&before, 1, &step, &"/tmp/f1".to_string());
    assert_eq!(lookup_env(&plan1.env, &"X".to_string()), Some("3".to_string()));
    // what the next step sees: the value the first step wrote
    let next = cmd("second", "echo", ExecutionPolicy::Always);
    let plan2 = build_launch_plan(&run.context, 2, &next, &"/tmp/f2".to_string());
    assert_eq!(lookup_env(&plan2.env, &"X".to_string()), Some("4".to_string()));
}

#[test]
fn dotenv_layers_between_process_and_flow() {
    let process_env: Env = vec![("X".to_string(), "1".to_string()), ("D".to_string(), "p".to_string())];
    let dotenv = "D=dot\nE=extra\n".to_string();
    let flow = flow_of(vec![(1, cmd("a", "true", ExecutionPolicy::Always))]);
    let mut output = dual();
    let run = execute_flow(&flow, &process_env, Some(&dotenv), &"/work".to_string(), false, &vec![exited(0)], &mut output)
        .unwrap();
    assert_eq!(lookup_env(&run.context.env, &"D".to_string()), Some("dot".to_string()));
    assert_eq!(lookup_env(&run.context.env, &"E".to_string()), Some("extra".to_string()));
    assert_eq!(lookup_env(&run.context.env, &"X".to_string()), Some("1".to_string()));
}

#[test]
fn malformed_dotenv_is_fatal_at_start() {
    let flow = flow_of(vec![(1, cmd("a", "true", ExecutionPolicy::Always))]);
    let process_env: Env = Vec::new();
    let bad = "NOSEPARATOR".to_string();
    let mut output = dual();
    let r = execute_flow(&flow, &process_env, Some(&bad), &"/work".to_string(), false, &vec![exited(0)], &mut output);
    assert_eq!(r.err().unwrap(), ExecutionError::MalformedDotenv);
}

#[test]
fn malformed_output_file_is_fatal() {
    let flow = flow_of(vec![(1, cmd("a", "true", ExecutionPolicy::Always))]);
    let r = run_flow(&flow, vec![exited_writing(0, "not a pair")]);
    assert_eq!(r.err().unwrap(), ExecutionError::MalformedOutputFile);
}

#[test]
fn spawn_failure_is_fatal_and_stops_the_run() {
    let flow = flow_of(vec![
        (1, cmd("a", "missing-binary", ExecutionPolicy::Always)),
        (2, cmd("b", "echo", ExecutionPolicy::Always)),
    ]);
    let failed = StepOutcome {
        output_path: "/tmp/f".to_string(),
        spawn: SpawnOutcome::SpawnFailed,
        output_file: None,
    };
    let r = run_flow(&flow, vec![failed, exited(0)]);
    assert_eq!(r.err().unwrap(), ExecutionError::SpawnFailed);
}

#[test]
fn dry_run_reports_exit_zero_without_launching() {
    let flow = flow_of(vec![(1, cmd("a", "exit 1", ExecutionPolicy::Always))]);
    let failed = StepOutcome {
        output_path: "/tmp/f".to_string(),
        spawn: SpawnOutcome::SpawnFailed,
        output_file: None,
    };
    let process_env: Env = Vec::new();
    let mut output = dual();
    let run = execute_flow(&flow, &process_env, None, &"/work".to_string(), true, &vec![failed], &mut output)
        .unwrap();
    assert_eq!(run.results[0].exit_code, 0);
    assert!(!run.results[0].aborted);
    assert_eq!(run.context.state, RunState::Running);
}

#[test]
fn child_without_exit_code_reports_minus_one() {
    let flow = flow_of(vec![(1, cmd("killed", "sleep 100", ExecutionPolicy::Always))]);
    let outcome = StepOutcome {
        output_path: "/tmp/f".to_string(),
        spawn: SpawnOutcome::Exited {
            exit_code: None,
            duration_ms: Some(10),
            streams: ChildStreams { stdout: Vec::new(), stderr: Vec::new() },
        },
        output_file: None,
    };
    let (results, context) = run_flow(&flow, vec![outcome]).unwrap();
    assert_eq!(results[0].exit_code, -1);
    assert_eq!(context.state, RunState::Failed);
}

#[test]
fn synthesized_variables_in_the_launch_plan() {
    let context = ExecutionContext {
        env: Vec::new(),
        cwd: "/work".to_string(),
        current: 7,
        previous: Some(ExecutionResult {
            command_id: 7,
            focus: None,
            exit_code: -1,
            aborted: false,
            duration_ms: Some(3),
        }),
        previous_name: Some("alpha".to_string()),
        state: RunState::Failed,
        dry_run: false,
    };
    let step = cmd("beta", "echo", ExecutionPolicy::Always);
    let plan = build_launch_plan(&context, 12, &step, &"/tmp/task.env".to_string());
    let get = |k: &str| lookup_env(&plan.env, &k.to_string());
    assert_eq!(get("NAUMAN_PREV_NAME"), Some("alpha".to_string()));
    assert_eq!(get("NAUMAN_PREV_ID"), Some("7".to_string()));
    assert_eq!(get("NAUMAN_PREV_CODE"), Some("-1".to_string()));
    assert_eq!(get("NAUMAN_TASK_NAME"), Some("beta".to_string()));
    assert_eq!(get("NAUMAN_TASK_ID"), Some("12".to_string()));
    assert_eq!(get("NAUMAN_OUTPUT_FILE"), Some("/tmp/task.env".to_string()));
}

#[test]
fn launch_plan_resolves_the_working_directory() {
    let mut context = ExecutionContext {
        env: Vec::new(),
        cwd: "/work".to_string(),
        current: 1,
        previous: None,
        previous_name: None,
        state: RunState::Running,
        dry_run: false,
    };
    let mut step = cmd("a", "true", ExecutionPolicy::Always);
    step.cwd = Some("sub/dir".to_string());
    let plan = build_launch_plan(&context, 1, &step, &"/tmp/f".to_string());
    assert_eq!(plan.cwd, "/work/sub/dir");
    step.cwd = Some("/abs".to_string());
    let plan = build_launch_plan(&context, 1, &step, &"/tmp/f".to_string());
    assert_eq!(plan.cwd, "/abs");
    step.cwd = None;
    context.cwd = "/elsewhere".to_string();
    let plan = build_launch_plan(&context, 1, &step, &"/tmp/f".to_string());
    assert_eq!(plan.cwd, "/elsewhere");
}

#[test]
fn resolve_cwd_cases() {
    let current = "/base".to_string();
    assert_eq!(resolve_cwd(&current, None), "/base");
    assert_eq!(resolve_cwd(&current, Some(&"/abs/path".to_string())), "/abs/path");
    assert_eq!(resolve_cwd(&current, Some(&"rel".to_string())), "/base/rel");
}

#[test]
fn decimal_rendering_is_exact() {
    assert_eq!(render_u64(0), "0");
    assert_eq!(render_u64(7), "7");
    assert_eq!(render_u64(12345), "12345");
    assert_eq!(render_i32(0), "0");
    assert_eq!(render_i32(-1), "-1");
    assert_eq!(render_i32(-2147483648), "-2147483648");
    assert_eq!(render_i32(2147483647), "2147483647");
}
