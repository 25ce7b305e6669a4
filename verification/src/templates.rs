//! What the dashboard's pages and fragments are drawn from. Each value here is
//! handed to a template as it stands; the rendering itself lives with the web
//! server.
use vstd::prelude::*;

verus! {

/// One instant as a page shows it: machine-readable and for people.
#[derive(Debug, Clone, Default)]
pub struct Stamp {
    pub machine: String,
    pub text: String,
}

impl Stamp {
    /// Whether there is a time to show at all.
    pub fn is_empty(&self) -> (empty: bool)
        ensures
            empty == (self.text@.len() == 0),
    {
        self.text.as_str().is_empty()
    }
}

/// The counters and the user every full page carries in its header.
#[derive(Debug, Default)]
pub struct Chrome {
    pub nodes_total: usize,
    pub silent: usize,
    pub open_alarms: i64,
    pub open_orders: i64,
    pub user_name: String,
    pub user_role: String,
}

/// One node's status badge, swapped in place.
pub struct NodeStatusFragment {
    pub node_id: i64,
    pub state: &'static str,
    pub at: Stamp,
}

/// The login form.
pub struct LoginTemplate {
    pub error: Option<String>,
}

/// One account as the administration page lists it.
pub struct AdminUserRow {
    pub id: i64,
    pub email: String,
    pub full_name: String,
    pub role: String,
    pub deactivated: bool,
}

/// One node as the administration page lists it.
pub struct AdminNodeRow {
    pub id: i64,
    pub name: String,
    pub suspended: bool,
    pub enrolled: bool,
}

/// Somebody a node can be handed to.
pub struct Owner {
    pub id: i64,
    pub name: String,
    pub selected: bool,
}

/// The node edit form, opened from the pencil.
pub struct NodeEditForm {
    pub id: i64,
    pub name: String,
    pub latitude: String,
    pub longitude: String,
    pub owner_id: Option<i64>,
    pub owners: Vec<Owner>,
    pub may_assign_owner: bool,
    pub report_interval_seconds: i32,
    pub interval_min: i32,
    pub interval_max: i32,
}

/// A credential, rendered once and never again.
pub struct CredentialReveal {
    pub node_id: i64,
    pub node_name: String,
    pub credential: String,
}

/// The accounts, either the whole list or one row swapped in place.
pub struct AdminUsersFragment {
    pub users: Vec<AdminUserRow>,
    pub roles: Vec<(&'static str, &'static str)>,
    pub current_user_id: i64,
    pub list: bool,
}

/// The nodes, either the whole list or one row swapped in place.
pub struct AdminNodesFragment {
    pub nodes: Vec<AdminNodeRow>,
    pub list: bool,
}

/// The administration page.
pub struct AdminTemplate {
    pub users: Vec<AdminUserRow>,
    pub nodes: Vec<AdminNodeRow>,
    pub roles: Vec<(&'static str, &'static str)>,
    pub current_user_id: i64,
    pub list: bool,
    pub nodes_total: usize,
    pub silent: usize,
    pub open_alarms: i64,
    pub open_orders: i64,
    pub user_name: String,
    pub user_role: String,
    pub live: bool,
}

/// The drift page.
pub struct DriftTemplate {
    pub nodes_total: usize,
    pub silent: usize,
    pub open_alarms: i64,
    pub open_orders: i64,
    pub user_name: String,
    pub user_role: String,
    pub live: bool,
}

/// The operations tiles, with every figure already formatted.
pub struct OpsTilesFragment {
    pub healthy: bool,
    pub problems: Vec<String>,
    pub window_seconds: i64,
    pub measurements: String,
    pub health: String,
    pub rejected: String,
    pub failed: String,
    pub http_requests: String,
    pub http_server_errors: String,
    pub http_mean_ms: String,
    pub http_slowest_ms: String,
    pub pool_size: usize,
    pub pool_available: usize,
    pub pool_waiting: usize,
    pub measurements_total: u64,
    pub registrations: u64,
    pub alarms_raised: u64,
    pub last_ingest: Stamp,
    pub last_detection: Stamp,
}

/// A move an operator or technician may make on an alarm.
#[derive(Debug, Clone, Copy)]
pub struct Transition {
    pub to: &'static str,
    pub label: &'static str,
}

/// One alarm as the feed draws it.
pub struct AlarmRow {
    pub id: i64,
    pub node_id: i64,
    pub node_name: String,
    pub metric: &'static str,
    pub state: &'static str,
    pub raised_at: Stamp,
    pub summary: String,
    pub actions: Vec<Transition>,
    pub may_dispatch: bool,
}

/// One alarm on its own, for a swap in place.
pub struct AlarmEntry {
    pub alarm: AlarmRow,
}

/// The backlog, drawn once when the dashboard loads.
pub struct AlarmList {
    pub alarms: Vec<AlarmRow>,
}

/// A placeholder that fetches one alarm, or replaces it.
pub struct AlarmStub {
    pub alarm_id: i64,
    pub replace: bool,
}

/// One of the panel's span buttons, with its links already built.
pub struct SpanChoice {
    pub label: &'static str,
    pub url: String,
    pub fragment: String,
    pub current: bool,
}

/// One channel a node watches, and the metrics it gets a chart for.
pub struct ChannelView {
    pub id: i64,
    pub name: String,
    pub frequency: String,
    pub modulation: &'static str,
    pub metrics: Vec<&'static str>,
}

/// What this viewer may do with the node in front of them.
pub struct PanelRights {
    pub edit: bool,
    pub inspect: bool,
}

/// One metric of one live dwell, already formatted.
pub struct LiveReading {
    pub name: &'static str,
    pub value: String,
}

/// One dwell, pushed out of band into an open inspect strip.
pub struct LiveReadings {
    pub node_id: i64,
    pub slug: String,
    pub label: String,
    pub at: Stamp,
    pub readings: Vec<LiveReading>,
}

/// One channel the inspect strip leaves a row for.
pub struct LiveChannel {
    pub name: String,
    pub slug: String,
}

/// Whether the node answered, on its own for a renewal.
pub struct LiveRenewal {
    pub reachable: bool,
}

/// The inspect strip, opened from the panel's live toggle.
pub struct LivePanel {
    pub node_id: i64,
    pub channels: Vec<LiveChannel>,
    pub reachable: bool,
    pub renew_seconds: i64,
}

/// One work order as the list draws it.
pub struct WorkOrderRow {
    pub id: i64,
    pub alarm_id: i64,
    pub node_name: String,
    pub station_name: String,
    pub technician: String,
    pub status: &'static str,
    pub dispatched_at: Stamp,
    pub completed_at: Stamp,
    pub fault_present: Option<bool>,
    pub cause: String,
    pub action_taken: String,
    pub may_complete: bool,
}

/// Every work order this viewer may see.
pub struct WorkOrderList {
    pub orders: Vec<WorkOrderRow>,
}

/// One work order on its own, for a swap in place after a field report.
pub struct WorkOrderEntry {
    pub order: WorkOrderRow,
}

/// Somebody an alarm can be sent to.
pub struct Technician {
    pub id: i64,
    pub name: String,
}

/// The dispatch form, opened from an alarm entry.
pub struct DispatchForm {
    pub alarm_id: i64,
    pub technicians: Vec<Technician>,
    pub station_name: String,
}

} // verus!
