use hearthdeck::settings::{
    action, actions, pressable, recommended_categories, Action, CategorizationPhase,
    CategorizationSnapshot, CategorizationStatus, ModelStatus, Panel, ReportCategory, ScanReport,
};

fn report() -> ScanReport {
    ScanReport {
        app_count: 12,
        categories: vec![
            ReportCategory {
                name: "Media".into(),
                recommended: true,
            },
            ReportCategory {
                name: "Misc".into(),
                recommended: false,
            },
            ReportCategory {
                name: "Work".into(),
                recommended: true,
            },
        ],
        unclassified: vec!["x".into()],
        categorizer: "model".into(),
    }
}

fn panel(enabled: bool, running: bool, reported: bool, model: ModelStatus) -> Panel {
    Panel {
        capable: Some(true),
        snapshot: Some(CategorizationSnapshot {
            enabled,
            report: if reported { Some(report()) } else { None },
            status: CategorizationStatus {
                running,
                model,
                phase: CategorizationPhase::Idle,
                completed: 0,
                total: 0,
            },
        }),
    }
}

fn downloaded() -> ModelStatus {
    ModelStatus::Downloaded {
        bytes: 850,
        path: "/var/lib/model".into(),
    }
}

#[test]
fn nothing_is_offered_before_the_first_read() {
    let unknown = Panel {
        capable: None,
        snapshot: None,
    };
    assert!(actions(&unknown).is_empty());
    assert!(!pressable(Action::Toggle, &unknown));
}

#[test]
fn only_the_switch_is_offered_before_the_opt_in() {
    let off = panel(false, false, true, downloaded());
    assert_eq!(actions(&off), vec![Action::Toggle]);
    assert!(pressable(Action::Toggle, &off));
    assert!(!pressable(Action::Categorize, &off));
    assert!(!pressable(Action::Reset, &off));
}

#[test]
fn an_opted_in_screen_offers_what_the_state_allows() {
    let on = panel(true, false, true, downloaded());
    assert_eq!(
        actions(&on),
        vec![
            Action::Toggle,
            Action::Categorize,
            Action::CreateCollections,
            Action::Reset,
            Action::RemoveModel,
        ]
    );
    let fresh = panel(true, false, false, ModelStatus::Absent);
    assert_eq!(actions(&fresh), vec![Action::Toggle, Action::Categorize]);
    let external = panel(
        true,
        false,
        false,
        ModelStatus::External {
            path: "/opt/model".into(),
        },
    );
    assert_eq!(actions(&external), vec![Action::Toggle, Action::Categorize]);
}

#[test]
fn a_running_scan_keeps_the_row_but_locks_the_checkpoint() {
    let idle = panel(true, false, true, downloaded());
    let busy = panel(true, true, true, downloaded());
    assert_eq!(actions(&idle), actions(&busy));
    assert!(!pressable(Action::Categorize, &busy));
    assert!(!pressable(Action::CreateCollections, &busy));
    assert!(!pressable(Action::RemoveModel, &busy));
    assert!(pressable(Action::Toggle, &busy));
    assert!(pressable(Action::Reset, &busy));
    assert!(!pressable(
        Action::CreateCollections,
        &panel(true, false, false, downloaded())
    ));
}

#[test]
fn widget_ids_lead_back_to_their_action() {
    for a in [
        Action::Toggle,
        Action::Categorize,
        Action::CreateCollections,
        Action::Reset,
        Action::RemoveModel,
    ] {
        assert_eq!(action(a.id()), Some(a));
    }
    assert_eq!(
        Action::Reset.id(),
        "settings-categorization-reset"
    );
    assert_eq!(action("app-entry-writer"), None);
}

#[test]
fn the_summary_lists_the_recommended_categories() {
    assert_eq!(recommended_categories(&report()), vec!["Media", "Work"]);
}

use hearthdeck::settings::{status_line, StatusLine};

#[test]
fn the_status_line_follows_the_phase_and_the_checkpoint() {
    let unknown = Panel {
        capable: None,
        snapshot: None,
    };
    assert_eq!(status_line(&unknown), StatusLine::Reading);
    assert_eq!(status_line(&panel(false, false, false, ModelStatus::Absent)), StatusLine::Off);
    assert_eq!(status_line(&panel(true, false, false, ModelStatus::Absent)), StatusLine::ModelAbsent);
    assert_eq!(
        status_line(&panel(
            true,
            false,
            false,
            ModelStatus::Downloaded {
                bytes: 2048,
                path: "/var/lib/model.bin".into()
            }
        )),
        StatusLine::ModelDownloaded {
            bytes: 2048,
            path: "/var/lib/model.bin".into()
        }
    );
    let mut scanning = panel(true, true, false, ModelStatus::External { path: "/m".into() });
    if let Some(snapshot) = scanning.snapshot.as_mut() {
        snapshot.status.phase = CategorizationPhase::Scanning;
        snapshot.status.completed = 3;
        snapshot.status.total = 9;
    }
    assert_eq!(
        status_line(&scanning),
        StatusLine::Scanning {
            completed: 3,
            total: 9
        }
    );
}
