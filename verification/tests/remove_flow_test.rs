use riceforge::models::{InstalledRice, Timestamp};
use riceforge::remove_flow::{RemoveAction, RemoveEvent, RemoveFlow, RemoveStage};

fn entry(backup: Option<&str>) -> InstalledRice {
    InstalledRice {
        rice_id: "r".to_string(),
        commit_hash: "c".to_string(),
        installed_at: Timestamp { secs: 1, nanos: 0 },
        backup_id: backup.map(String::from),
    }
}

fn run(mut flow: RemoveFlow, events: Vec<RemoveEvent>) -> (RemoveFlow, Vec<RemoveAction>) {
    let mut actions = Vec::new();
    for e in events {
        let (n, a) = flow.step(e);
        flow = n;
        actions.push(a);
    }
    (flow, actions)
}

#[test]
fn remove_flow_with_pipeline_restore_and_purge() {
    let (flow, actions) = run(
        RemoveFlow::new(&entry(Some("b1")), true, true),
        vec![
            RemoveEvent::Started,
            RemoveEvent::PipelineLoaded { present: true },
            RemoveEvent::PipelineDone,
            RemoveEvent::LinksRemoved,
            RemoveEvent::Restored,
            RemoveEvent::Unrecorded,
            RemoveEvent::Purged,
        ],
    );
    assert_eq!(
        actions,
        vec![
            RemoveAction::LoadPipeline,
            RemoveAction::RunPipeline,
            RemoveAction::RemoveLinks,
            RemoveAction::Restore("b1".to_string()),
            RemoveAction::Unrecord { missing_backup: false },
            RemoveAction::Purge,
            RemoveAction::Done,
        ]
    );
    assert_eq!(flow.stage, RemoveStage::Finished);
}

#[test]
fn remove_flow_restore_without_backup_is_reported() {
    let (_, actions) = run(
        RemoveFlow::new(&entry(None), true, false),
        vec![
            RemoveEvent::Started,
            RemoveEvent::PipelineLoaded { present: false },
            RemoveEvent::LinksRemoved,
            RemoveEvent::Unrecorded,
        ],
    );
    assert_eq!(
        actions,
        vec![
            RemoveAction::LoadPipeline,
            RemoveAction::RemoveLinks,
            RemoveAction::Unrecord { missing_backup: true },
            RemoveAction::Done,
        ]
    );
}

#[test]
fn remove_flow_without_restore_keeps_backup() {
    let (_, actions) = run(
        RemoveFlow::new(&entry(Some("b1")), false, false),
        vec![RemoveEvent::Started, RemoveEvent::PipelineLoaded { present: false }, RemoveEvent::LinksRemoved],
    );
    assert_eq!(actions.last(), Some(&RemoveAction::Unrecord { missing_backup: false }));
}

#[test]
fn remove_flow_ignores_out_of_order_events() {
    let flow = RemoveFlow::new(&entry(None), false, false);
    let (n, a) = flow.clone().step(RemoveEvent::Purged);
    assert_eq!(a, RemoveAction::Ignore);
    assert_eq!(n, flow);
}
