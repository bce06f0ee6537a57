use riceforge::error::RiceForgeError;
use riceforge::install_flow::{InstallAction, InstallEvent, InstallFlow, InstallStage};

fn run(mut flow: InstallFlow, events: Vec<InstallEvent>) -> (InstallFlow, Vec<InstallAction>) {
    let mut actions = Vec::new();
    for e in events {
        let (n, a) = flow.step(e);
        flow = n;
        actions.push(a);
    }
    (flow, actions)
}

#[test]
fn install_flow_full_run() {
    let flow = InstallFlow::new("r", false, false, false, true);
    let (flow, actions) = run(
        flow,
        vec![
            InstallEvent::Started { installed: false },
            InstallEvent::Cloned("abc".to_string()),
            InstallEvent::Planned { needs_backup: true },
            InstallEvent::BackedUp("20260101_000000".to_string()),
            InstallEvent::PackagesChecked { any_missing: true },
            InstallEvent::PackagesInstalled,
            InstallEvent::Applied,
            InstallEvent::Recorded,
            InstallEvent::PipelineLoaded { present: true },
            InstallEvent::PipelineDone,
            InstallEvent::Cleaned,
        ],
    );
    assert_eq!(
        actions,
        vec![
            InstallAction::Clone,
            InstallAction::Plan,
            InstallAction::Backup,
            InstallAction::CheckPackages,
            InstallAction::InstallPackages,
            InstallAction::Apply,
            InstallAction::Record { commit: "abc".to_string(), backup_id: Some("20260101_000000".to_string()) },
            InstallAction::LoadPipeline,
            InstallAction::RunPipeline,
            InstallAction::Clean,
            InstallAction::Done { dry_run: false },
        ]
    );
    assert_eq!(flow.stage, InstallStage::Finished);
}

#[test]
fn install_flow_refuses_installed_rice() {
    let (flow, a) = InstallFlow::new("r", false, false, false, false).step(InstallEvent::Started { installed: true });
    assert_eq!(a, InstallAction::Refuse(RiceForgeError::AlreadyInstalled("r".to_string())));
    assert_eq!(flow.stage, InstallStage::Finished);
}

#[test]
fn install_flow_force_and_dry_run_skip_the_gate() {
    let (_, a) = InstallFlow::new("r", false, false, true, false).step(InstallEvent::Started { installed: true });
    assert_eq!(a, InstallAction::Clone);
    let (_, a) = InstallFlow::new("r", true, false, false, false).step(InstallEvent::Started { installed: true });
    assert_eq!(a, InstallAction::Clone);
}

#[test]
fn install_flow_dry_run_stops_after_plan() {
    let (flow, actions) = run(
        InstallFlow::new("r", true, false, false, true),
        vec![
            InstallEvent::Started { installed: false },
            InstallEvent::Cloned("abc".to_string()),
            InstallEvent::Planned { needs_backup: true },
        ],
    );
    assert_eq!(actions.last(), Some(&InstallAction::Done { dry_run: true }));
    assert_eq!(flow.stage, InstallStage::Finished);
}

#[test]
fn install_flow_without_backup_or_packages() {
    let (_, actions) = run(
        InstallFlow::new("r", false, true, false, true),
        vec![
            InstallEvent::Started { installed: false },
            InstallEvent::Cloned("c".to_string()),
            InstallEvent::Planned { needs_backup: false },
            InstallEvent::Applied,
            InstallEvent::Recorded,
            InstallEvent::PipelineLoaded { present: false },
            InstallEvent::Cleaned,
        ],
    );
    assert_eq!(
        actions,
        vec![
            InstallAction::Clone,
            InstallAction::Plan,
            InstallAction::Apply,
            InstallAction::Record { commit: "c".to_string(), backup_id: None },
            InstallAction::LoadPipeline,
            InstallAction::Clean,
            InstallAction::Done { dry_run: false },
        ]
    );
}

#[test]
fn install_flow_ignores_out_of_order_events() {
    let flow = InstallFlow::new("r", false, false, false, false);
    let (n, a) = flow.clone().step(InstallEvent::Applied);
    assert_eq!(a, InstallAction::Ignore);
    assert_eq!(n, flow);
}

#[test]
fn install_flow_checks_packages_only_with_dependencies() {
    assert!(InstallFlow::new("r", false, false, false, true).checks_packages());
    assert!(!InstallFlow::new("r", false, true, false, true).checks_packages());
    assert!(!InstallFlow::new("r", false, false, false, false).checks_packages());
}
