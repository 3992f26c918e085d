//! Application state: view modes, sort orders, modal input, selection,
//! filtering and sorting of the host list.

use vstd::prelude::*;

use crate::filter::{filter_indices, filtered_idx};
use crate::history::{is_fav, History};
use crate::server::{Server, ServerGroup};
use crate::sort::{sort_servers_by, sorted_spec};
use crate::text::{pop_char, push_char, str_eq};
use vstd::string::StringExecFns;
use crate::tunnel::TunnelManager;

verus! {

/// Which screen the dashboard is showing.
#[derive(Debug, Clone, Copy, PartialEq, Eq, Structural, Default)]
pub enum ViewMode {
    #[default]
    ServerList,
    GroupList,
    ServerDetails,
    CommandOutput,
    Tunnels,
    Help,
}

/// Sort order for the server list; cycled in the order the variants are
/// declared, wrapping from `Group` back to `Name`.
#[derive(Debug, Clone, Copy, PartialEq, Eq, Structural, Default)]
pub enum SortOrder {
    #[default]
    Name,
    Favorites,
    RecentlyUsed,
    Latency,
    CpuUsage,
    RamUsage,
    Group,
}

/// The persisted textual tag of each sort order.
pub open spec fn sort_order_tag(o: SortOrder) -> Seq<char> {
    match o {
        SortOrder::Name => "name"@,
        SortOrder::Favorites => "favorites"@,
        SortOrder::RecentlyUsed => "recent"@,
        SortOrder::Latency => "latency"@,
        SortOrder::CpuUsage => "cpu"@,
        SortOrder::RamUsage => "ram"@,
        SortOrder::Group => "group"@,
    }
}

/// The sort order denoted by a textual tag; unknown tags denote `Name`.
pub open spec fn sort_order_of_tag(s: Seq<char>) -> SortOrder {
    if s == "name"@ {
        SortOrder::Name
    } else if s == "favorites"@ {
        SortOrder::Favorites
    } else if s == "recent"@ {
        SortOrder::RecentlyUsed
    } else if s == "latency"@ {
        SortOrder::Latency
    } else if s == "cpu"@ {
        SortOrder::CpuUsage
    } else if s == "ram"@ {
        SortOrder::RamUsage
    } else if s == "group"@ {
        SortOrder::Group
    } else {
        SortOrder::Name
    }
}

impl SortOrder {
    /// The textual tag of this sort order, used for persistence.
    pub fn as_str(&self) -> (r: &'static str)
        ensures
            r@ == sort_order_tag(*self),
    {
        match self {
            SortOrder::Name => "name",
            SortOrder::Favorites => "favorites",
            SortOrder::RecentlyUsed => "recent",
            SortOrder::Latency => "latency",
            SortOrder::CpuUsage => "cpu",
            SortOrder::RamUsage => "ram",
            SortOrder::Group => "group",
        }
    }

    /// Parses a persisted tag; anything unrecognised falls back to `Name`.
    pub fn from_str(s: &str) -> (r: Self)
        ensures
            r == sort_order_of_tag(s@),
    {
        if str_eq(s, "name") {
            SortOrder::Name
        } else if str_eq(s, "favorites") {
            SortOrder::Favorites
        } else if str_eq(s, "recent") {
            SortOrder::RecentlyUsed
        } else if str_eq(s, "latency") {
            SortOrder::Latency
        } else if str_eq(s, "cpu") {
            SortOrder::CpuUsage
        } else if str_eq(s, "ram") {
            SortOrder::RamUsage
        } else if str_eq(s, "group") {
            SortOrder::Group
        } else {
            SortOrder::Name
        }
    }

    /// The sort order that follows this one in the cycle.
    pub fn next_in_cycle(&self) -> (r: Self)
        ensures
            r == sort_order_next(*self),
    {
        match self {
            SortOrder::Name => SortOrder::Favorites,
            SortOrder::Favorites => SortOrder::RecentlyUsed,
            SortOrder::RecentlyUsed => SortOrder::Latency,
            SortOrder::Latency => SortOrder::CpuUsage,
            SortOrder::CpuUsage => SortOrder::RamUsage,
            SortOrder::RamUsage => SortOrder::Group,
            SortOrder::Group => SortOrder::Name,
        }
    }
}

/// The successor of each sort order in the cycle.
pub open spec fn sort_order_next(o: SortOrder) -> SortOrder {
    match o {
        SortOrder::Name => SortOrder::Favorites,
        SortOrder::Favorites => SortOrder::RecentlyUsed,
        SortOrder::RecentlyUsed => SortOrder::Latency,
        SortOrder::Latency => SortOrder::CpuUsage,
        SortOrder::CpuUsage => SortOrder::RamUsage,
        SortOrder::RamUsage => SortOrder::Group,
        SortOrder::Group => SortOrder::Name,
    }
}

/// How long a status message stays up, in seconds.
pub const STATUS_MESSAGE_TIMEOUT_SECS: u64 = 3;

/// Which modal text input is live. At most one is, by construction: all
/// keystrokes feed that one buffer until the mode is left.
#[derive(Debug, Clone, Copy, PartialEq, Eq, Structural, Default)]
pub enum InputMode {
    #[default]
    Normal,
    Filtering,
    CommandEntry,
    PipeEntry,
    SaveEntry,
    TunnelEntry,
    InstallMenu,
}

/// The whole mutable state of the dashboard. Only the owning loop ever
/// touches it; background work reports back through messages that the
/// loop applies here.
#[derive(Debug)]
pub struct App {
    pub servers: Vec<Server>,
    pub groups: Vec<ServerGroup>,
    pub selected_index: usize,
    pub selected_group: usize,
    pub view_mode: ViewMode,
    pub sort_order: SortOrder,
    pub input_mode: InputMode,
    pub filter_text: String,
    pub should_quit: bool,
    pub status_message: Option<String>,
    /// When the status message was set, as a caller-supplied millisecond
    /// timestamp.
    pub status_message_time: Option<u64>,
    pub is_fetching: bool,
    pub history: History,
    pub command_text: String,
    pub command_output: Option<String>,
    pub command_server: Option<String>,
    pub is_running_command: bool,
    pub pipe_text: String,
    pub save_path: String,
    pub tunnel_manager: TunnelManager,
    pub tunnel_input: String,
    pub selected_tunnel: usize,
    pub install_menu_selection: usize,
}

/// The filtered view of the app's host list.
pub open spec fn app_filtered(app: App) -> Seq<int> {
    filtered_idx(app.servers@, app.filter_text@)
}

/// The display name of the host the selection rests on, if the selection
/// is within the filtered view.
pub open spec fn app_selected_host(app: App) -> Option<Seq<char>> {
    let f = app_filtered(app);
    if app.selected_index < f.len() {
        Some(app.servers@[f[app.selected_index as int]].host@)
    } else {
        None
    }
}

/// How many rows the current view navigates over.
pub open spec fn nav_count(app: App) -> int {
    match app.view_mode {
        ViewMode::ServerList => app_filtered(app).len() as int,
        ViewMode::GroupList => app.groups@.len() as int,
        _ => 0,
    }
}

impl App {
    /// The pieces with their own invariants are well formed.
    pub open spec fn wf(&self) -> bool {
        self.history.wf() && self.tunnel_manager.wf()
    }

    /// A fresh dashboard: empty host list, server-list view, name order,
    /// no modal input, nothing running.
    pub fn new() -> (r: Self)
        ensures
            r.wf(),
            r.servers@ == Seq::<Server>::empty(),
            r.groups@ == Seq::<ServerGroup>::empty(),
            r.selected_index == 0 && r.selected_group == 0 && r.selected_tunnel == 0,
            r.view_mode == ViewMode::ServerList,
            r.sort_order == SortOrder::Name,
            r.input_mode == InputMode::Normal,
            r.filter_text@ == Seq::<char>::empty(),
            !r.should_quit && !r.is_fetching && !r.is_running_command,
            r.status_message is None && r.status_message_time is None,
            r.command_output is None && r.command_server is None,
            r.command_text@ == Seq::<char>::empty(),
            r.pipe_text@ == Seq::<char>::empty(),
            r.save_path@ == Seq::<char>::empty(),
            r.tunnel_input@ == Seq::<char>::empty(),
            r.install_menu_selection == 0,
            r.tunnel_manager.tunnels@ == Seq::<crate::tunnel::Tunnel>::empty(),
            r.history.entries@.len() == 0 && r.history.favorites@.len() == 0,
    {
        App {
            servers: Vec::new(),
            groups: Vec::new(),
            selected_index: 0,
            selected_group: 0,
            view_mode: ViewMode::ServerList,
            sort_order: SortOrder::Name,
            input_mode: InputMode::Normal,
            filter_text: String::new(),
            should_quit: false,
            status_message: None,
            status_message_time: None,
            is_fetching: false,
            history: History::new(),
            command_text: String::new(),
            command_output: None,
            command_server: None,
            is_running_command: false,
            pipe_text: String::new(),
            save_path: String::new(),
            tunnel_manager: TunnelManager::new(),
            tunnel_input: String::new(),
            selected_tunnel: 0,
            install_menu_selection: 0,
        }
    }

    /// Shows a transient status message, stamped for expiry.
    pub fn set_status(&mut self, msg: String, now_ms: u64)
        ensures
            *final(self) == (App {
                status_message: Some(msg),
                status_message_time: Some(now_ms),
                ..*old(self)
            }),
    {
        self.status_message = Some(msg);
        self.status_message_time = Some(now_ms);
    }

    /// Clears the status message once it has been up for the timeout.
    pub fn clear_expired_status(&mut self, now_ms: u64)
        ensures
            *final(self) == (if expired(*old(self), now_ms) {
                App { status_message: None, status_message_time: None, ..*old(self) }
            } else {
                *old(self)
            }),
    {
        match self.status_message_time {
            Some(t) => {
                if now_ms >= t && (now_ms - t) / 1000 >= STATUS_MESSAGE_TIMEOUT_SECS {
                    self.status_message = None;
                    self.status_message_time = None;
                }
            },
            None => {},
        }
    }

    /// Replaces the status message without restarting its clock.
    pub fn update_status(&mut self, msg: String)
        ensures
            *final(self) == (App { status_message: Some(msg), ..*old(self) }),
    {
        self.status_message = Some(msg);
    }

    /// Drops the status message.
    pub fn clear_status(&mut self)
        ensures
            *final(self) == (App { status_message: None, ..*old(self) }),
    {
        self.status_message = None;
    }

    /// Enters command entry; the buffer starts empty.
    pub fn start_command_input(&mut self)
        ensures
            *final(self) == (App {
                input_mode: InputMode::CommandEntry,
                command_text: final(self).command_text,
                ..*old(self)
            }),
            final(self).command_text@ == Seq::<char>::empty(),
    {
        self.input_mode = InputMode::CommandEntry;
        self.command_text = String::new();
    }

    /// Leaves command entry.
    pub fn stop_command_input(&mut self)
        ensures
            *final(self) == (App { input_mode: InputMode::Normal, ..*old(self) }),
    {
        self.input_mode = InputMode::Normal;
    }

    /// Appends one character to the command buffer.
    pub fn command_push(&mut self, c: char)
        ensures
            *final(self) == (App { command_text: final(self).command_text, ..*old(self) }),
            final(self).command_text@ == old(self).command_text@.push(c),
    {
        push_char(&mut self.command_text, c);
    }

    /// Removes the last character of the command buffer, if any.
    pub fn command_pop(&mut self)
        ensures
            *final(self) == (App { command_text: final(self).command_text, ..*old(self) }),
            final(self).command_text@ == pop_spec(old(self).command_text@),
    {
        pop_char(&mut self.command_text);
    }

    /// Enters pipe entry; the buffer starts empty.
    pub fn start_pipe_input(&mut self)
        ensures
            *final(self) == (App {
                input_mode: InputMode::PipeEntry,
                pipe_text: final(self).pipe_text,
                ..*old(self)
            }),
            final(self).pipe_text@ == Seq::<char>::empty(),
    {
        self.input_mode = InputMode::PipeEntry;
        self.pipe_text = String::new();
    }

    /// Leaves pipe entry.
    pub fn stop_pipe_input(&mut self)
        ensures
            *final(self) == (App { input_mode: InputMode::Normal, ..*old(self) }),
    {
        self.input_mode = InputMode::Normal;
    }

    /// Appends one character to the pipe buffer.
    pub fn pipe_push(&mut self, c: char)
        ensures
            *final(self) == (App { pipe_text: final(self).pipe_text, ..*old(self) }),
            final(self).pipe_text@ == old(self).pipe_text@.push(c),
    {
        push_char(&mut self.pipe_text, c);
    }

    /// Removes the last character of the pipe buffer, if any.
    pub fn pipe_pop(&mut self)
        ensures
            *final(self) == (App { pipe_text: final(self).pipe_text, ..*old(self) }),
            final(self).pipe_text@ == pop_spec(old(self).pipe_text@),
    {
        pop_char(&mut self.pipe_text);
    }

    /// Enters save-path entry; the buffer starts empty.
    pub fn start_save_input(&mut self)
        ensures
            *final(self) == (App {
                input_mode: InputMode::SaveEntry,
                save_path: final(self).save_path,
                ..*old(self)
            }),
            final(self).save_path@ == Seq::<char>::empty(),
    {
        self.input_mode = InputMode::SaveEntry;
        self.save_path = String::new();
    }

    /// Leaves save-path entry.
    pub fn stop_save_input(&mut self)
        ensures
            *final(self) == (App { input_mode: InputMode::Normal, ..*old(self) }),
    {
        self.input_mode = InputMode::Normal;
    }

    /// Appends one character to the save-path buffer.
    pub fn save_path_push(&mut self, c: char)
        ensures
            *final(self) == (App { save_path: final(self).save_path, ..*old(self) }),
            final(self).save_path@ == old(self).save_path@.push(c),
    {
        push_char(&mut self.save_path, c);
    }

    /// Removes the last character of the save-path buffer, if any.
    pub fn save_path_pop(&mut self)
        ensures
            *final(self) == (App { save_path: final(self).save_path, ..*old(self) }),
            final(self).save_path@ == pop_spec(old(self).save_path@),
    {
        pop_char(&mut self.save_path);
    }

    /// Enters tunnel-spec entry; the buffer starts empty.
    pub fn start_tunnel_input(&mut self)
        ensures
            *final(self) == (App {
                input_mode: InputMode::TunnelEntry,
                tunnel_input: final(self).tunnel_input,
                ..*old(self)
            }),
            final(self).tunnel_input@ == Seq::<char>::empty(),
    {
        self.input_mode = InputMode::TunnelEntry;
        self.tunnel_input = String::new();
    }

    /// Leaves tunnel-spec entry.
    pub fn stop_tunnel_input(&mut self)
        ensures
            *final(self) == (App { input_mode: InputMode::Normal, ..*old(self) }),
    {
        self.input_mode = InputMode::Normal;
    }

    /// Appends one character to the tunnel-spec buffer.
    pub fn tunnel_input_push(&mut self, c: char)
        ensures
            *final(self) == (App { tunnel_input: final(self).tunnel_input, ..*old(self) }),
            final(self).tunnel_input@ == old(self).tunnel_input@.push(c),
    {
        push_char(&mut self.tunnel_input, c);
    }

    /// Removes the last character of the tunnel-spec buffer, if any.
    pub fn tunnel_input_pop(&mut self)
        ensures
            *final(self) == (App { tunnel_input: final(self).tunnel_input, ..*old(self) }),
            final(self).tunnel_input@ == pop_spec(old(self).tunnel_input@),
    {
        pop_char(&mut self.tunnel_input);
    }

    /// Enters filter entry; the pattern starts empty.
    pub fn start_filtering(&mut self)
        ensures
            *final(self) == (App {
                input_mode: InputMode::Filtering,
                filter_text: final(self).filter_text,
                ..*old(self)
            }),
            final(self).filter_text@ == Seq::<char>::empty(),
    {
        self.input_mode = InputMode::Filtering;
        self.filter_text = String::new();
    }

    /// Leaves filter entry; the pattern stays applied.
    pub fn stop_filtering(&mut self)
        ensures
            *final(self) == (App { input_mode: InputMode::Normal, ..*old(self) }),
    {
        self.input_mode = InputMode::Normal;
    }

    /// Appends one character to the pattern and rewinds the selection.
    pub fn filter_push(&mut self, c: char)
        ensures
            *final(self) == (App {
                filter_text: final(self).filter_text,
                selected_index: 0,
                ..*old(self)
            }),
            final(self).filter_text@ == old(self).filter_text@.push(c),
    {
        push_char(&mut self.filter_text, c);
        self.selected_index = 0;
    }

    /// Removes the last pattern character and rewinds the selection.
    pub fn filter_pop(&mut self)
        ensures
            *final(self) == (App {
                filter_text: final(self).filter_text,
                selected_index: 0,
                ..*old(self)
            }),
            final(self).filter_text@ == pop_spec(old(self).filter_text@),
    {
        pop_char(&mut self.filter_text);
        self.selected_index = 0;
    }

    /// Clears the pattern and rewinds the selection.
    pub fn filter_clear(&mut self)
        ensures
            *final(self) == (App {
                filter_text: final(self).filter_text,
                selected_index: 0,
                ..*old(self)
            }),
            final(self).filter_text@ == Seq::<char>::empty(),
    {
        self.filter_text = String::new();
        self.selected_index = 0;
    }

    /// The filtered view of the host list, as ascending indices into
    /// `servers`.
    pub fn filtered_servers(&self) -> (r: Vec<usize>)
        ensures
            r@.map_values(|u: usize| u as int) == app_filtered(*self),
    {
        filter_indices(&self.servers, self.filter_text.as_str())
    }

    /// The host the selection rests on, if it lies within the filtered
    /// view.
    pub fn selected_server(&self) -> (r: Option<&Server>)
        ensures
            (match app_selected_host(*self) {
                Some(h) => r is Some && r->0.host@ == h && *r->0 == self.servers@[app_filtered(
                    *self,
                )[self.selected_index as int]],
                None => r is None,
            }),
    {
        let f = self.filtered_servers();
        if self.selected_index < f.len() {
            let idx = f[self.selected_index];
            proof {
                crate::filter::lemma_filtered_idx_props(self.servers@, self.filter_text@);
            }
            Some(&self.servers[idx])
        } else {
            None
        }
    }

    /// Moves the selection of the current view up one row, saturating at
    /// the top.
    pub fn select_previous(&mut self)
        ensures
            *final(self) == select_previous_post(*old(self)),
    {
        let count = match self.view_mode {
            ViewMode::ServerList => self.filtered_servers().len(),
            ViewMode::GroupList => self.groups.len(),
            _ => 0,
        };
        if count > 0 {
            match self.view_mode {
                ViewMode::ServerList => {
                    if self.selected_index > 0 {
                        self.selected_index = self.selected_index - 1;
                    }
                },
                ViewMode::GroupList => {
                    if self.selected_group > 0 {
                        self.selected_group = self.selected_group - 1;
                    }
                },
                _ => {},
            }
        }
    }

    /// Moves the selection of the current view down one row, saturating
    /// at the last row.
    pub fn select_next(&mut self)
        ensures
            *final(self) == select_next_post(*old(self)),
    {
        let count = match self.view_mode {
            ViewMode::ServerList => self.filtered_servers().len(),
            ViewMode::GroupList => self.groups.len(),
            _ => 0,
        };
        if count > 0 {
            match self.view_mode {
                ViewMode::ServerList => {
                    if self.selected_index < count - 1 {
                        self.selected_index = self.selected_index + 1;
                    }
                },
                ViewMode::GroupList => {
                    if self.selected_group < count - 1 {
                        self.selected_group = self.selected_group + 1;
                    }
                },
                _ => {},
            }
        }
    }

    /// Re-sorts the host list under the current order.
    pub fn sort_servers(&mut self)
        requires
            old(self).wf(),
        ensures
            final(self).wf(),
            *final(self) == (App { servers: final(self).servers, ..*old(self) }),
            sorted_spec(final(self).servers@, old(self).sort_order, old(self).history),
            final(self).servers@.to_multiset() == old(self).servers@.to_multiset(),
    {
        let order = self.sort_order;
        sort_servers_by(&mut self.servers, order, &self.history);
    }

    /// Advances to the next sort order in the cycle and re-sorts.
    pub fn cycle_sort_order(&mut self)
        requires
            old(self).wf(),
        ensures
            final(self).wf(),
            *final(self) == (App {
                sort_order: sort_order_next(old(self).sort_order),
                servers: final(self).servers,
                ..*old(self)
            }),
            sorted_spec(
                final(self).servers@,
                sort_order_next(old(self).sort_order),
                old(self).history,
            ),
            final(self).servers@.to_multiset() == old(self).servers@.to_multiset(),
    {
        self.sort_order = self.sort_order.next_in_cycle();
        self.sort_servers();
    }

    /// Flips the favorite status of the host the selection rests on,
    /// identified by name so a later re-sort can find it again; does
    /// nothing when the selection is out of view.
    pub fn toggle_selected_favorite(&mut self)
        requires
            old(self).wf(),
        ensures
            final(self).wf(),
            *final(self) == (App { history: final(self).history, ..*old(self) }),
            (match app_selected_host(*old(self)) {
                Some(h) => {
                    &&& is_fav(final(self).history, h) == !is_fav(old(self).history, h)
                    &&& forall|s: Seq<char>|
                        s != h ==> (#[trigger] is_fav(final(self).history, s)) == is_fav(
                            old(self).history,
                            s,
                        )
                    &&& final(self).history.entries@ == old(self).history.entries@
                },
                None => final(self).history == old(self).history,
            }),
    {
        let f = self.filtered_servers();
        if self.selected_index < f.len() {
            let idx = f[self.selected_index];
            proof {
                crate::filter::lemma_filtered_idx_props(self.servers@, self.filter_text@);
            }
            let host = self.servers[idx].host.clone();
            self.history.toggle_favorite(host.as_str());
        }
    }
}

/// Every host has been probed at least once.
pub open spec fn all_checked(servers: Seq<Server>) -> bool {
    forall|i: int| 0 <= i < servers.len() ==> (#[trigger] servers[i].last_check) is Some
}

impl App {
    /// Applies one probe result to the host it belongs to, stamped with
    /// the time of application; an index beyond the current list is
    /// ignored rather than trusted. Once every host carries a check
    /// stamp, the fleet-wide fetching flag drops.
    pub fn apply_health_update(&mut self, upd: crate::health::HealthUpdate, now_ms: u64)
        ensures
            upd.server_idx < old(self).servers@.len() ==> final(self).servers@ == old(
                self,
            ).servers@.update(
                upd.server_idx as int,
                (Server {
                    latency: upd.latency,
                    status: upd.status,
                    metrics: upd.metrics,
                    last_check: Some(now_ms),
                    ..old(self).servers@[upd.server_idx as int]
                }),
            ),
            upd.server_idx >= old(self).servers@.len() ==> final(self).servers@ == old(
                self,
            ).servers@,
            final(self).is_fetching == (if all_checked(final(self).servers@) {
                false
            } else {
                old(self).is_fetching
            }),
            *final(self) == (App {
                servers: final(self).servers,
                is_fetching: final(self).is_fetching,
                ..*old(self)
            }),
    {
        if upd.server_idx < self.servers.len() {
            let idx = upd.server_idx;
            let updated = Server {
                host: self.servers[idx].host.clone(),
                hostname: self.servers[idx].hostname.clone(),
                user: clone_opt_str(&self.servers[idx].user),
                port: self.servers[idx].port,
                identity_file: clone_opt_str(&self.servers[idx].identity_file),
                group: clone_opt_str(&self.servers[idx].group),
                latency: upd.latency,
                status: upd.status,
                metrics: upd.metrics,
                last_check: Some(now_ms),
            };
            self.servers.set(idx, updated);
            proof {
                assert(self.servers@ =~= old(self).servers@.update(
                    idx as int,
                    (Server {
                        latency: upd.latency,
                        status: upd.status,
                        metrics: self.servers@[idx as int].metrics,
                        last_check: Some(now_ms),
                        ..old(self).servers@[idx as int]
                    }),
                ));
                assert(self.servers@[idx as int].metrics == upd.metrics);
            }
        }
        let mut all = true;
        let mut i: usize = 0;
        while i < self.servers.len()
            invariant
                0 <= i <= self.servers@.len(),
                all == (forall|j: int|
                    0 <= j < i ==> (#[trigger] self.servers@[j].last_check) is Some),
            decreases self.servers@.len() - i,
        {
            let present = match self.servers[i].last_check {
                Some(_) => true,
                None => false,
            };
            if !present {
                all = false;
                proof {
                    assert(self.servers@[i as int].last_check is None);
                }
            }
            i = i + 1;
        }
        if all {
            self.is_fetching = false;
        }
    }

    /// Applies a finished remote command: the running flag drops and the
    /// output pane shows the command's output, or the error prefixed with
    /// "Error: ".
    pub fn apply_command_result(&mut self, result: Result<String, String>)
        ensures
            *final(self) == (App {
                is_running_command: false,
                command_output: final(self).command_output,
                ..*old(self)
            }),
            final(self).command_output is Some,
            final(self).command_output->0@ == (match result {
                Ok(o) => o@,
                Err(e) => "Error: "@ + e@,
            }),
    {
        self.is_running_command = false;
        match result {
            Ok(o) => {
                self.command_output = Some(o);
            },
            Err(e) => {
                let msg = prefix_error(&e);
                self.command_output = Some(msg);
            },
        }
    }

    /// Flips the selected host's favorite status and, while sorted by
    /// favorites, re-sorts and re-selects the same host by name, so the
    /// selection follows identity rather than position.
    pub fn apply_toggle_favorite(&mut self)
        requires
            old(self).wf(),
        ensures
            final(self).wf(),
            app_selected_host(*old(self)) is None ==> *final(self) == *old(self),
            (match app_selected_host(*old(self)) {
                Some(h) => {
                    &&& is_fav(final(self).history, h) == !is_fav(old(self).history, h)
                    &&& forall|s: Seq<char>|
                        s != h ==> (#[trigger] is_fav(final(self).history, s)) == is_fav(
                            old(self).history,
                            s,
                        )
                    &&& final(self).history.entries@ == old(self).history.entries@
                    &&& final(self).filter_text == old(self).filter_text
                    &&& final(self).sort_order == old(self).sort_order
                    &&& final(self).servers@.to_multiset() == old(self).servers@.to_multiset()
                    &&& (old(self).sort_order != SortOrder::Favorites ==> final(self).servers@
                        == old(self).servers@ && final(self).selected_index == old(
                        self,
                    ).selected_index)
                    &&& (old(self).sort_order == SortOrder::Favorites ==> sorted_spec(
                        final(self).servers@,
                        SortOrder::Favorites,
                        final(self).history,
                    ) && app_selected_host(*final(self)) == Some(h))
                },
                None => true,
            }),
    {
        let f = self.filtered_servers();
        if self.selected_index >= f.len() {
            return ;
        }
        let idx = f[self.selected_index];
        proof {
            crate::filter::lemma_filtered_idx_props(self.servers@, self.filter_text@);
            assert(f@.map_values(|u: usize| u as int)[old(self).selected_index as int] == idx as int);
        }
        let ghost orig = *old(self);
        let ghost star = self.servers@[idx as int];
        let host = self.servers[idx].host.clone();
        proof {
            assert(host@ == star.host@);
            assert(app_selected_host(orig) == Some(star.host@));
        }
        self.history.toggle_favorite(host.as_str());
        if !matches!(self.sort_order, SortOrder::Favorites) {
            return ;
        }
        sort_servers_by(&mut self.servers, SortOrder::Favorites, &self.history);
        proof {
            broadcast use vstd::seq_lib::group_to_multiset_ensures;

            assert(orig.servers@.contains(star));
            assert(orig.servers@.to_multiset().count(star) > 0);
            assert(self.servers@.to_multiset().count(star) > 0);
            assert(self.servers@.contains(star));
        }
        // the toggled host is still in the (unchanged) filtered set;
        // walk the filtered view to put the selection back on it
        let f2 = self.filtered_servers();
        proof {
            crate::filter::lemma_filtered_idx_props(self.servers@, self.filter_text@);
            let i2 = choose|i2: int|
                0 <= i2 < self.servers@.len() && self.servers@[i2] == star;
            if self.filter_text@.len() > 0 {
                assert(crate::filter::matches_filter(self.servers@[i2], self.filter_text@));
            }
            assert(app_filtered(*self).contains(i2));
        }
        let mut k: usize = 0;
        while k < f2.len()
            invariant
                0 <= k <= f2@.len(),
                self.wf(),
                orig == *old(self),
                f2@.map_values(|u: usize| u as int) == app_filtered(*self),
                host@ == star.host@,
                app_selected_host(orig) == Some(star.host@),
                is_fav(self.history, star.host@) == !is_fav(orig.history, star.host@),
                forall|s: Seq<char>|
                    s != star.host@ ==> (#[trigger] is_fav(self.history, s)) == is_fav(
                        orig.history,
                        s,
                    ),
                self.history.entries@ == orig.history.entries@,
                self.filter_text == orig.filter_text,
                self.sort_order == orig.sort_order,
                orig.sort_order == SortOrder::Favorites,
                self.servers@.to_multiset() == orig.servers@.to_multiset(),
                sorted_spec(self.servers@, SortOrder::Favorites, self.history),
                exists|i2: int|
                    0 <= i2 < self.servers@.len() && (#[trigger] self.servers@[i2]) == star
                        && app_filtered(*self).contains(i2),
                forall|q: int|
                    0 <= q < k ==> (#[trigger] self.servers@[app_filtered(*self)[q]].host@)
                        != host@,
                forall|q: int|
                    0 <= q < app_filtered(*self).len() ==> 0 <= (#[trigger] app_filtered(
                        *self,
                    )[q]) < self.servers@.len(),
            decreases f2@.len() - k,
        {
            let si = f2[k];
            proof {
                assert(f2@.map_values(|u: usize| u as int)[k as int] == si as int);
            }
            if crate::text::str_eq(self.servers[si].host.as_str(), host.as_str()) {
                self.selected_index = k;
                proof {
                    assert(app_filtered(*self)[k as int] == si as int);
                    assert(app_selected_host(*self) == Some(star.host@));
                }
                return ;
            }
            k = k + 1;
        }
        proof {
            let i2 = choose|i2: int|
                0 <= i2 < self.servers@.len() && (#[trigger] self.servers@[i2]) == star
                    && app_filtered(*self).contains(i2);
            let q = choose|q: int|
                0 <= q < app_filtered(*self).len() && app_filtered(*self)[q] == i2;
            assert(self.servers@[app_filtered(*self)[q]].host@ == host@);
            assert(false);
        }
    }
}

fn clone_opt_str(o: &Option<String>) -> (r: Option<String>)
    ensures
        r == *o,
{
    match o {
        Some(s) => Some(s.clone()),
        None => None,
    }
}

/// Prefixes an error message for the output pane.
fn prefix_error(e: &String) -> (r: String)
    ensures
        r@ == "Error: "@ + e@,
{
    String::from_str("Error: ").concat(e.as_str())
}

impl Default for App {
    fn default() -> (r: Self)
        ensures
            r.wf(),
            r.servers@ == Seq::<Server>::empty(),
            r.view_mode == ViewMode::ServerList,
            r.sort_order == SortOrder::Name,
            r.input_mode == InputMode::Normal,
            !r.should_quit,
    {
        App::new()
    }
}

/// The state after one upward navigation step: the selection of the
/// current view moves up one row, saturating at the top.
pub open spec fn select_previous_post(a: App) -> App {
    if nav_count(a) == 0 {
        a
    } else {
        match a.view_mode {
            ViewMode::ServerList => App {
                selected_index: sat_sub(a.selected_index as int) as usize,
                ..a
            },
            ViewMode::GroupList => App {
                selected_group: sat_sub(a.selected_group as int) as usize,
                ..a
            },
            _ => a,
        }
    }
}

/// The state after one downward navigation step: the selection of the
/// current view moves down one row, stopping at the last row.
pub open spec fn select_next_post(a: App) -> App {
    if nav_count(a) == 0 {
        a
    } else {
        match a.view_mode {
            ViewMode::ServerList => App {
                selected_index: inc_capped(a.selected_index as int, nav_count(a)) as usize,
                ..a
            },
            ViewMode::GroupList => App {
                selected_group: inc_capped(a.selected_group as int, nav_count(a)) as usize,
                ..a
            },
            _ => a,
        }
    }
}

/// Saturating decrement used by upward navigation.
pub open spec fn sat_sub(i: int) -> int {
    if i > 0 {
        i - 1
    } else {
        0
    }
}

/// Increment capped at the last row, used by downward navigation.
pub open spec fn inc_capped(i: int, count: int) -> int {
    if i < count - 1 {
        i + 1
    } else {
        i
    }
}

/// A buffer after removing its last character, if it had one.
pub open spec fn pop_spec(s: Seq<char>) -> Seq<char> {
    if s.len() > 0 {
        s.drop_last()
    } else {
        s
    }
}

/// The status message has been up for the timeout at time `now_ms`.
pub open spec fn expired(app: App, now_ms: u64) -> bool {
    match app.status_message_time {
        Some(t) => now_ms >= t && (now_ms - t) / 1000 >= STATUS_MESSAGE_TIMEOUT_SECS,
        None => false,
    }
}

} // verus!
