//! The queue of configuration changes.
//!
//! Requests to add, remove or toggle a folder are queued in arrival order.
//! While the initial scan runs they wait; once it has completed, the queue
//! is drained and each request is carried out exactly once, in order.

use vstd::prelude::*;
use crate::text::opt_view;

verus! {

/// A request to change the configuration.
#[derive(Debug, Clone)]
pub enum ConfigChangeRequest {
    AddBlacklist { parent_id: i32, folder_path: String, folder_alias: Option<String> },
    DeleteFolder { folder_id: i32, folder_path: String, is_blacklist: bool },
    AddWhitelist { folder_path: String, folder_alias: Option<String> },
    ToggleFolder { folder_id: i32, is_blacklist: bool, folder_path: String },
    BundleExtensionChange,
}

/// A request as contracts see it.
pub enum RequestView {
    AddBlacklist { parent_id: i32, folder_path: Seq<char>, folder_alias: Option<Seq<char>> },
    DeleteFolder { folder_id: i32, folder_path: Seq<char>, is_blacklist: bool },
    AddWhitelist { folder_path: Seq<char>, folder_alias: Option<Seq<char>> },
    ToggleFolder { folder_id: i32, is_blacklist: bool, folder_path: Seq<char> },
    BundleExtensionChange,
}

impl View for ConfigChangeRequest {
    type V = RequestView;

    open spec fn view(&self) -> RequestView {
        match self {
            ConfigChangeRequest::AddBlacklist { parent_id, folder_path, folder_alias } => {
                RequestView::AddBlacklist {
                    parent_id: *parent_id,
                    folder_path: folder_path@,
                    folder_alias: opt_view(*folder_alias),
                }
            },
            ConfigChangeRequest::DeleteFolder { folder_id, folder_path, is_blacklist } => {
                RequestView::DeleteFolder {
                    folder_id: *folder_id,
                    folder_path: folder_path@,
                    is_blacklist: *is_blacklist,
                }
            },
            ConfigChangeRequest::AddWhitelist { folder_path, folder_alias } => {
                RequestView::AddWhitelist {
                    folder_path: folder_path@,
                    folder_alias: opt_view(*folder_alias),
                }
            },
            ConfigChangeRequest::ToggleFolder { folder_id, is_blacklist, folder_path } => {
                RequestView::ToggleFolder {
                    folder_id: *folder_id,
                    is_blacklist: *is_blacklist,
                    folder_path: folder_path@,
                }
            },
            ConfigChangeRequest::BundleExtensionChange => RequestView::BundleExtensionChange,
        }
    }
}

/// What carrying out a request takes besides the change itself.
#[derive(Debug, Clone)]
pub enum ChangeAction {
    /// Purge the records that were accepted under this path.
    PurgePath(String),
    /// Scan this directory.
    ScanDirectory(String),
    /// Nothing; the change takes effect at the next start.
    Nothing,
}

/// An action as contracts see it.
pub enum ActionView {
    PurgePath(Seq<char>),
    ScanDirectory(Seq<char>),
    Nothing,
}

impl View for ChangeAction {
    type V = ActionView;

    open spec fn view(&self) -> ActionView {
        match self {
            ChangeAction::PurgePath(p) => ActionView::PurgePath(p@),
            ChangeAction::ScanDirectory(p) => ActionView::ScanDirectory(p@),
            ChangeAction::Nothing => ActionView::Nothing,
        }
    }
}

/// The action of a request: a folder that is deleted or becomes blacklisted
/// has its records purged, a folder that becomes monitored is scanned.
pub open spec fn action_of(request: RequestView) -> ActionView {
    match request {
        RequestView::AddBlacklist { folder_path, .. } => ActionView::PurgePath(folder_path),
        RequestView::DeleteFolder { folder_path, .. } => ActionView::PurgePath(folder_path),
        RequestView::AddWhitelist { folder_path, .. } => ActionView::ScanDirectory(folder_path),
        RequestView::ToggleFolder { folder_path, is_blacklist, .. } => if is_blacklist {
            ActionView::PurgePath(folder_path)
        } else {
            ActionView::ScanDirectory(folder_path)
        },
        RequestView::BundleExtensionChange => ActionView::Nothing,
    }
}

/// The action that carrying out `request` takes.
pub fn plan_change(request: &ConfigChangeRequest) -> (out: ChangeAction)
    ensures
        out@ == action_of(request@),
{
    match request {
        ConfigChangeRequest::AddBlacklist { folder_path, .. } => ChangeAction::PurgePath(
            folder_path.clone(),
        ),
        ConfigChangeRequest::DeleteFolder { folder_path, .. } => ChangeAction::PurgePath(
            folder_path.clone(),
        ),
        ConfigChangeRequest::AddWhitelist { folder_path, .. } => ChangeAction::ScanDirectory(
            folder_path.clone(),
        ),
        ConfigChangeRequest::ToggleFolder { folder_path, is_blacklist, .. } => {
            if *is_blacklist {
                ChangeAction::PurgePath(folder_path.clone())
            } else {
                ChangeAction::ScanDirectory(folder_path.clone())
            }
        },
        ConfigChangeRequest::BundleExtensionChange => ChangeAction::Nothing,
    }
}

/// What became of a submitted request.
#[derive(Debug, Clone, Copy, PartialEq, Eq, Structural)]
pub enum QueueStatus {
    /// It waits for the initial scan to complete.
    Queued,
    /// It was queued and the queue was drained at once.
    QueuedForProcessing,
}

/// The views of a list of requests.
pub open spec fn request_views(v: Seq<ConfigChangeRequest>) -> Seq<RequestView> {
    v.map_values(|r: ConfigChangeRequest| r@)
}

/// The queue and the flag that says whether the initial scan has completed.
pub struct ConfigChangeQueue {
    pending_config_changes: Vec<ConfigChangeRequest>,
    initial_scan_completed: bool,
}

impl ConfigChangeQueue {
    /// The requests that wait, in arrival order.
    pub closed spec fn pending(&self) -> Seq<RequestView> {
        request_views(self.pending_config_changes@)
    }

    /// The initial scan has completed.
    pub closed spec fn scan_completed(&self) -> bool {
        self.initial_scan_completed
    }

    /// An empty queue before the initial scan.
    pub fn new() -> (out: ConfigChangeQueue)
        ensures
            out.pending().len() == 0,
            !out.scan_completed(),
    {
        let out = ConfigChangeQueue {
            pending_config_changes: Vec::new(),
            initial_scan_completed: false,
        };
        assert(out.pending() =~= Seq::<RequestView>::empty());
        out
    }

    /// Whether the initial scan has completed.
    pub fn is_initial_scan_completed(&self) -> (b: bool)
        ensures
            b == self.scan_completed(),
    {
        self.initial_scan_completed
    }

    /// Appends a request to the queue.
    pub fn add_pending_config_change(&mut self, change: ConfigChangeRequest)
        ensures
            final(self).pending() == old(self).pending().push(change@),
            final(self).scan_completed() == old(self).scan_completed(),
    {
        let ghost before = self.pending();
        self.pending_config_changes.push(change);
        assert(self.pending() =~= before.push(change@));
    }

    /// Whether a request waits.
    pub fn has_pending_config_changes(&self) -> (b: bool)
        ensures
            b == (self.pending().len() > 0),
    {
        self.pending_config_changes.len() > 0
    }

    /// How many requests wait.
    pub fn get_pending_config_changes_count(&self) -> (n: usize)
        ensures
            n == self.pending().len(),
    {
        self.pending_config_changes.len()
    }

    /// Drains the queue: hands out every waiting request, in arrival order,
    /// and leaves the queue empty.
    pub fn process_pending_config_changes(&mut self) -> (out: Vec<ConfigChangeRequest>)
        ensures
            request_views(out@) == old(self).pending(),
            final(self).pending().len() == 0,
            final(self).scan_completed() == old(self).scan_completed(),
    {
        let mut out: Vec<ConfigChangeRequest> = Vec::new();
        std::mem::swap(&mut out, &mut self.pending_config_changes);
        assert(self.pending() =~= Seq::<RequestView>::empty());
        out
    }

    /// Sets the flag. Setting it to completed drains the queue; otherwise
    /// the queue stays as it is and nothing is handed out.
    pub fn set_initial_scan_completed(&mut self, completed: bool) -> (out: Vec<
        ConfigChangeRequest,
    >)
        ensures
            final(self).scan_completed() == completed,
            if completed {
                request_views(out@) == old(self).pending() && final(self).pending().len() == 0
            } else {
                out@.len() == 0 && final(self).pending() == old(self).pending()
            },
    {
        self.initial_scan_completed = completed;
        if completed {
            self.process_pending_config_changes()
        } else {
            Vec::new()
        }
    }

    /// Submits a request. It is always queued. If the initial scan has
    /// completed, the queue is drained at once, the new request last.
    pub fn submit(&mut self, change: ConfigChangeRequest) -> (out: (
        QueueStatus,
        Vec<ConfigChangeRequest>,
    ))
        ensures
            final(self).scan_completed() == old(self).scan_completed(),
            if old(self).scan_completed() {
                &&& out.0 == QueueStatus::QueuedForProcessing
                &&& request_views(out.1@) == old(self).pending().push(change@)
                &&& final(self).pending().len() == 0
            } else {
                &&& out.0 == QueueStatus::Queued
                &&& out.1@.len() == 0
                &&& final(self).pending() == old(self).pending().push(change@)
            },
    {
        self.add_pending_config_change(change);
        if self.initial_scan_completed {
            (QueueStatus::QueuedForProcessing, self.process_pending_config_changes())
        } else {
            (QueueStatus::Queued, Vec::new())
        }
    }
}

} // verus!
