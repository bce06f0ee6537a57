use riceforge::error::RiceForgeError;
use riceforge::pipeline::{Pipeline, PipelineManager, PipelineRun, PipelineStep, PipelineWhen};

fn step(name: &str, when: PipelineWhen) -> PipelineStep {
    PipelineStep { name: name.to_string(), run: format!("echo {name}"), when }
}

#[test]
fn pipeline_when_defaults_to_always() {
    assert_eq!(PipelineWhen::default(), PipelineWhen::Always);
}

#[test]
fn pipeline_runs_matching_steps_in_order() {
    let p = Pipeline {
        steps: vec![
            step("a", PipelineWhen::Install),
            step("b", PipelineWhen::Remove),
            step("c", PipelineWhen::Always),
            step("d", PipelineWhen::Install),
        ],
    };
    assert_eq!(PipelineManager::run_steps(&p, &PipelineWhen::Install), vec![0, 2, 3]);
    assert_eq!(PipelineManager::run_steps(&p, &PipelineWhen::Remove), vec![1, 2]);
}

#[test]
fn pipeline_should_run() {
    assert!(PipelineManager::should_run(&step("x", PipelineWhen::Always), &PipelineWhen::Remove));
    assert!(!PipelineManager::should_run(&step("x", PipelineWhen::Install), &PipelineWhen::Remove));
}

#[test]
fn pipeline_error_messages() {
    let s = step("build", PipelineWhen::Install);
    assert_eq!(
        PipelineManager::launch_error(&s, "no sh"),
        RiceForgeError::Pipeline("step 'build' failed to launch: no sh".to_string())
    );
    assert_eq!(
        PipelineManager::exit_error(&s, "exit status: 2"),
        RiceForgeError::Pipeline("step 'build' exited with exit status: 2".to_string())
    );
}

#[test]
fn pipeline_paths_are_in_the_checkout() {
    assert!(PipelineManager::pipeline_path("r").ends_with("riceforge/rices/r/pipeline.toml"));
    assert!(PipelineManager::work_dir("r").ends_with("riceforge/rices/r"));
}

#[test]
fn pipeline_paths_in_rices_dir() {
    assert_eq!(PipelineManager::pipeline_path_in("/d/rices", "r"), "/d/rices/r/pipeline.toml");
    assert_eq!(PipelineManager::work_dir_in("/d/rices", "r"), "/d/rices/r");
}

#[test]
fn pipeline_run_stops_at_first_failure() {
    let p = Pipeline {
        steps: vec![step("a", PipelineWhen::Always), step("b", PipelineWhen::Install), step("c", PipelineWhen::Always)],
    };
    let run = PipelineRun::start(&p, &PipelineWhen::Install);
    assert_eq!(run.next(), Some(0));
    let run = run.record(&p.steps[0], None, true, "exit status: 0");
    assert_eq!(run.next(), Some(1));
    let run = run.record(&p.steps[1], None, false, "exit status: 1");
    assert_eq!(run.next(), None);
    assert_eq!(
        run.finish(),
        Err(RiceForgeError::Pipeline("step 'b' exited with exit status: 1".to_string()))
    );
}

#[test]
fn pipeline_run_succeeds_when_every_step_does() {
    let p = Pipeline { steps: vec![step("a", PipelineWhen::Remove), step("b", PipelineWhen::Install)] };
    let mut run = PipelineRun::start(&p, &PipelineWhen::Install);
    let mut ran = vec![];
    while let Some(i) = run.next() {
        ran.push(i);
        run = run.record(&p.steps[i], None, true, "exit status: 0");
    }
    assert_eq!(ran, vec![1]);
    assert_eq!(run.finish(), Ok(()));
}

#[test]
fn pipeline_run_reports_launch_failure() {
    let p = Pipeline { steps: vec![step("a", PipelineWhen::Always)] };
    let run = PipelineRun::start(&p, &PipelineWhen::Remove);
    let run = run.record(&p.steps[0], Some("no sh".to_string()), false, "");
    assert_eq!(run.finish(), Err(RiceForgeError::Pipeline("step 'a' failed to launch: no sh".to_string())));
}
