//! The settings screen's rules: which smart-categorization controls are on
//! offer, and which of them a press would be accepted on.
//!
//! Smart categorization both costs something (a large download, a local model
//! run over the library) and changes something (the library's category tabs and
//! the dashboard), so it happens only when asked, and the way back is always on
//! offer.
use crate::app_group::strs;
use vstd::prelude::*;

verus! {

/// Where the categorization model stands on this machine.
#[derive(Clone, Debug)]
pub enum ModelStatus {
    /// Nothing downloaded yet.
    Absent,
    /// A checkpoint the daemon downloaded, of `bytes` bytes, at `path`.
    Downloaded { bytes: u64, path: String },
    /// A checkpoint the operator provides at `path`; the daemon never deletes it.
    External { path: String },
}

/// What a categorization run is doing.
#[derive(Clone, Copy, Debug, PartialEq, Eq, Structural)]
pub enum CategorizationPhase {
    Idle,
    Downloading,
    Loading,
    Scanning,
}

/// The daemon's categorization status.
#[derive(Clone, Debug)]
pub struct CategorizationStatus {
    /// A run holds the checkpoint.
    pub running: bool,
    pub model: ModelStatus,
    pub phase: CategorizationPhase,
    pub completed: u64,
    pub total: u64,
}

/// One category a run proposed.
#[derive(Clone, Debug)]
pub struct ReportCategory {
    pub name: String,
    /// The run recommends this category as a tab of its own.
    pub recommended: bool,
}

/// What the last run found.
#[derive(Clone, Debug)]
pub struct ScanReport {
    pub app_count: u64,
    pub categories: Vec<ReportCategory>,
    pub unclassified: Vec<String>,
    /// The engine that classified the library.
    pub categorizer: String,
}

/// The daemon's categorization state as the settings screen reads it.
#[derive(Clone, Debug)]
pub struct CategorizationSnapshot {
    /// The operator opted in.
    pub enabled: bool,
    /// The stored report of the last run, if there is one.
    pub report: Option<ScanReport>,
    pub status: CategorizationStatus,
}

/// One control the screen offers. Kept as data, so that the drawn controls,
/// the gamepad's focus order and the press handler share one list.
#[derive(Clone, Copy, Debug, PartialEq, Eq, Structural)]
pub enum Action {
    /// The opt-in itself: on installs and activates the model, off restores
    /// everything the model changed.
    Toggle,
    /// Classify the library with the model.
    Categorize,
    /// Publish the last run's rails as dashboard collections.
    CreateCollections,
    /// Give the tabs back to the ones derived from the entries themselves.
    Reset,
    /// Free the downloaded checkpoint.
    RemoveModel,
}

/// The widget id each control carries, so the gamepad's focus can be
/// addressed to it.
pub open spec fn action_id(a: Action) -> Seq<char> {
    match a {
        Action::Toggle => "settings-categorization-toggle"@,
        Action::Categorize => "settings-categorization-categorize"@,
        Action::CreateCollections => "settings-categorization-create-collections"@,
        Action::Reset => "settings-categorization-reset"@,
        Action::RemoveModel => "settings-categorization-remove-model"@,
    }
}

/// Every action, in declaration order.
pub open spec fn all_actions() -> Seq<Action> {
    seq![
        Action::Toggle,
        Action::Categorize,
        Action::CreateCollections,
        Action::Reset,
        Action::RemoveModel,
    ]
}

impl Action {
    /// The widget id the control carries.
    pub fn id(self) -> (r: &'static str)
        ensures
            r@ == action_id(self),
    {
        match self {
            Action::Toggle => "settings-categorization-toggle",
            Action::Categorize => "settings-categorization-categorize",
            Action::CreateCollections => "settings-categorization-create-collections",
            Action::Reset => "settings-categorization-reset",
            Action::RemoveModel => "settings-categorization-remove-model",
        }
    }
}

/// The first action, in declaration order, whose widget id is `id`.
pub open spec fn action_for(id: Seq<char>) -> Option<Action> {
    if id == action_id(Action::Toggle) {
        Some(Action::Toggle)
    } else if id == action_id(Action::Categorize) {
        Some(Action::Categorize)
    } else if id == action_id(Action::CreateCollections) {
        Some(Action::CreateCollections)
    } else if id == action_id(Action::Reset) {
        Some(Action::Reset)
    } else if id == action_id(Action::RemoveModel) {
        Some(Action::RemoveModel)
    } else {
        None
    }
}

/// The action a widget id stands for, or `None` when the id belongs to
/// something else.
pub fn action(id: &str) -> (r: Option<Action>)
    ensures
        r == action_for(id@),
{
    let all = [
        Action::Toggle,
        Action::Categorize,
        Action::CreateCollections,
        Action::Reset,
        Action::RemoveModel,
    ];
    let mut i: usize = 0;
    proof {
        reveal_with_fuel(first_action_from, 6);
    }
    while i < 5
        invariant
            i <= 5,
            all@ == all_actions(),
            action_for(id@) == first_action_from(id@, i as int),
        decreases 5 - i,
    {
        let candidate = all[i];
        if crate::text::str_equal(candidate.id(), id) {
            return Some(candidate);
        }
        i = i + 1;
    }
    None
}

/// The first action from position `from` of [`all_actions`] whose id is `id`.
pub open spec fn first_action_from(id: Seq<char>, from: int) -> Option<Action>
    decreases 5 - from,
{
    if from < 0 || from >= 5 {
        None
    } else if action_id(all_actions()[from]) == id {
        Some(all_actions()[from])
    } else {
        first_action_from(id, from + 1)
    }
}

/// What the screen shows, gathered by the caller.
#[derive(Clone, Debug)]
pub struct Panel {
    /// Whether the deployment provides categorization at all; `None` until the
    /// health reply arrives.
    pub capable: Option<bool>,
    /// The daemon's state, or `None` before the first read comes back.
    pub snapshot: Option<CategorizationSnapshot>,
}

/// The controls on offer, in the order they are drawn: none before the first
/// read; the switch first and always; the two that make the model work only
/// once it is on; the two that read the stored report only when there is one;
/// and removing the model only when the daemon downloaded it.
pub open spec fn offered(panel: Panel) -> Seq<Action> {
    match panel.snapshot {
        None => seq![],
        Some(s) => if !s.enabled {
            seq![Action::Toggle]
        } else {
            let base = seq![Action::Toggle, Action::Categorize];
            let with_report = if s.report is Some {
                base + seq![Action::CreateCollections, Action::Reset]
            } else {
                base
            };
            if s.status.model is Downloaded {
                with_report.push(Action::RemoveModel)
            } else {
                with_report
            }
        },
    }
}

/// Whether a press on `a` would be accepted: the switch whenever the state is
/// known; the rest only once the model is on, and whatever touches the
/// checkpoint only while no run holds it.
pub open spec fn accepts(a: Action, panel: Panel) -> bool {
    let known = panel.snapshot is Some;
    let busy = known && panel.snapshot->0.status.running;
    let enabled = known && panel.snapshot->0.enabled;
    match a {
        Action::Toggle => known,
        Action::Categorize | Action::RemoveModel => enabled && !busy,
        Action::CreateCollections => enabled && !busy && panel.snapshot->0.report is Some,
        Action::Reset => enabled,
    }
}

/// The controls on offer for the state `panel` describes, in the order they
/// are drawn.
pub fn actions(panel: &Panel) -> (r: Vec<Action>)
    ensures
        r@ == offered(*panel),
{
    let snapshot = match &panel.snapshot {
        Some(s) => s,
        None => {
            return Vec::new();
        },
    };
    let mut actions = vec![Action::Toggle];
    if !snapshot.enabled {
        return actions;
    }
    actions.push(Action::Categorize);
    if snapshot.report.is_some() {
        actions.push(Action::CreateCollections);
        actions.push(Action::Reset);
    }
    let downloaded = match snapshot.status.model {
        ModelStatus::Downloaded { .. } => true,
        _ => false,
    };
    if downloaded {
        actions.push(Action::RemoveModel);
    }
    proof {
        let base = seq![Action::Toggle, Action::Categorize];
        assert(base + seq![Action::CreateCollections, Action::Reset] =~= base.push(
            Action::CreateCollections,
        ).push(Action::Reset));
    }
    actions
}

/// Whether pressing `action` would be accepted in the state `panel` describes.
pub fn pressable(action: Action, panel: &Panel) -> (r: bool)
    ensures
        r == accepts(action, *panel),
{
    let (known, busy, enabled, reported) = match &panel.snapshot {
        Some(s) => (true, s.status.running, s.enabled, s.report.is_some()),
        None => (false, false, false, false),
    };
    match action {
        Action::Toggle => known,
        Action::Categorize | Action::RemoveModel => enabled && !busy,
        Action::CreateCollections => enabled && !busy && reported,
        Action::Reset => enabled,
    }
}

/// The names of the categories a run recommends, in report order.
pub open spec fn recommended_names(cs: Seq<ReportCategory>) -> Seq<Seq<char>>
    decreases cs.len(),
{
    if cs.len() == 0 {
        seq![]
    } else {
        let rest = recommended_names(cs.drop_last());
        if cs.last().recommended {
            rest.push(cs.last().name@)
        } else {
            rest
        }
    }
}

/// The names of the categories `report` recommends, in report order: what the
/// screen lists under the summary of the last run.
pub fn recommended_categories(report: &ScanReport) -> (r: Vec<String>)
    ensures
        strs(r@) == recommended_names(report.categories@),
{
    let mut r: Vec<String> = Vec::new();
    let mut i: usize = 0;
    while i < report.categories.len()
        invariant
            i <= report.categories@.len(),
            strs(r@) == recommended_names(report.categories@.subrange(0, i as int)),
        decreases report.categories@.len() - i,
    {
        proof {
            assert(report.categories@.subrange(0, i + 1).drop_last() =~= report.categories@.subrange(
                0,
                i as int,
            ));
        }
        if report.categories[i].recommended {
            let ghost before = r@;
            r.push(crate::text::to_owned_string(report.categories[i].name.as_str()));
            assert(strs(r@) =~= strs(before).push(report.categories@[i as int].name@));
        }
        i = i + 1;
    }
    assert(report.categories@.subrange(0, report.categories@.len() as int) =~= report.categories@);
    r
}

/// A panel that differs from `panel` only in whether a run is in progress.
pub open spec fn with_running(panel: Panel, running: bool) -> Panel {
    match panel.snapshot {
        None => panel,
        Some(s) => Panel {
            capable: panel.capable,
            snapshot: Some(
                CategorizationSnapshot {
                    status: CategorizationStatus { running, ..s.status },
                    ..s
                },
            ),
        },
    }
}

/// A run starting or finishing never changes which controls are drawn, so the
/// row does not jump about mid-scan.
pub proof fn running_never_changes_the_row(panel: Panel, running: bool)
    ensures
        offered(with_running(panel, running)) == offered(panel),
{
}

/// While a run holds the checkpoint, nothing that reads or writes it can be
/// pressed; the switch and the reset stay pressable.
pub proof fn a_running_scan_holds_the_checkpoint(panel: Panel)
    requires
        panel.snapshot matches Some(s) && s.status.running,
    ensures
        !accepts(Action::Categorize, panel),
        !accepts(Action::CreateCollections, panel),
        !accepts(Action::RemoveModel, panel),
        accepts(Action::Toggle, panel),
        accepts(Action::Reset, panel) == panel.snapshot->0.enabled,
{
}

/// Without the opt-in, only the switch is offered or accepted: a scan with no
/// opt-in is refused.
pub proof fn nothing_but_the_switch_without_the_opt_in(panel: Panel, a: Action)
    requires
        panel.snapshot matches Some(s) && !s.enabled,
        a != Action::Toggle,
    ensures
        !accepts(a, panel),
        offered(panel) == seq![Action::Toggle],
{
}

/// The switch is drawn first whenever the state is known: it is the only way
/// back.
pub proof fn the_switch_comes_first(panel: Panel)
    requires
        panel.snapshot is Some,
    ensures
        offered(panel).len() > 0,
        offered(panel)[0] == Action::Toggle,
{
}

/// Every widget id leads back to its own action.
pub proof fn ids_lead_back_to_their_action(a: Action)
    ensures
        action_for(action_id(a)) == Some(a),
{
    reveal_strlit("settings-categorization-toggle");
    reveal_strlit("settings-categorization-categorize");
    reveal_strlit("settings-categorization-create-collections");
    reveal_strlit("settings-categorization-reset");
    reveal_strlit("settings-categorization-remove-model");
    assert(action_id(Action::Toggle).len() == 30);
    assert(action_id(Action::Categorize).len() == 34);
    assert(action_id(Action::CreateCollections).len() == 42);
    assert(action_id(Action::Reset).len() == 29);
    assert(action_id(Action::RemoveModel).len() == 36);
}

/// The line that says where categorization stands. Each reads as the
/// interface's message of the same name, filled in with the values given;
/// a checkpoint's size is written out by the caller.
#[derive(Clone, Debug, PartialEq, Eq)]
pub enum StatusLine {
    /// The first read of the daemon's state has not come back.
    Reading,
    Downloading,
    Loading,
    Scanning { completed: u64, total: u64 },
    /// Idle with the opt-in off.
    Off,
    /// Idle with the opt-in on and no checkpoint yet.
    ModelAbsent,
    /// Idle with a downloaded checkpoint of `bytes` bytes at `path`.
    ModelDownloaded { bytes: u64, path: String },
    /// Idle with a checkpoint the operator provides at `path`.
    ModelExternal { path: String },
}

/// The model line of an idle, opted-in state.
pub open spec fn model_line_is(line: StatusLine, model: ModelStatus) -> bool {
    match model {
        ModelStatus::Absent => line == StatusLine::ModelAbsent,
        ModelStatus::Downloaded { bytes, path } => line matches StatusLine::ModelDownloaded { bytes: b, path: p }
            && b == bytes && p@ == path@,
        ModelStatus::External { path } => line matches StatusLine::ModelExternal { path: p } && p@ == path@,
    }
}

/// What the checkpoint line says of `model`, as [`model_line_is`] says.
pub fn model_line(model: &ModelStatus) -> (r: StatusLine)
    ensures
        model_line_is(r, *model),
{
    match model {
        ModelStatus::Absent => StatusLine::ModelAbsent,
        ModelStatus::Downloaded { bytes, path } => StatusLine::ModelDownloaded {
            bytes: *bytes,
            path: crate::text::to_owned_string(path.as_str()),
        },
        ModelStatus::External { path } => StatusLine::ModelExternal {
            path: crate::text::to_owned_string(path.as_str()),
        },
    }
}

/// The status line of the panel: reading until the daemon's state is in;
/// then the phase of a run, with the progress of a scan; and when idle, the
/// checkpoint's line with the opt-in on, or that it is off.
pub fn status_line(panel: &Panel) -> (r: StatusLine)
    ensures
        match panel.snapshot {
            None => r == StatusLine::Reading,
            Some(snapshot) => match snapshot.status.phase {
                CategorizationPhase::Downloading => r == StatusLine::Downloading,
                CategorizationPhase::Loading => r == StatusLine::Loading,
                CategorizationPhase::Scanning => r == StatusLine::Scanning {
                    completed: snapshot.status.completed,
                    total: snapshot.status.total,
                },
                CategorizationPhase::Idle => if snapshot.enabled {
                    model_line_is(r, snapshot.status.model)
                } else {
                    r == StatusLine::Off
                },
            },
        },
{
    match &panel.snapshot {
        None => StatusLine::Reading,
        Some(snapshot) => match snapshot.status.phase {
            CategorizationPhase::Downloading => StatusLine::Downloading,
            CategorizationPhase::Loading => StatusLine::Loading,
            CategorizationPhase::Scanning => StatusLine::Scanning {
                completed: snapshot.status.completed,
                total: snapshot.status.total,
            },
            CategorizationPhase::Idle => if snapshot.enabled {
                model_line(&snapshot.status.model)
            } else {
                StatusLine::Off
            },
        },
    }
}

} // verus!
