//! The event dispatcher: maps one key of input, under the current view
//! and modal mode, to a state change and an action request for the
//! runtime to carry out. Every transition is stated as a relation between
//! the state before and after the key.

use vstd::prelude::*;

use crate::app::{
    app_filtered, app_selected_host, select_next_post, select_previous_post, sort_order_next, App,
    InputMode, ViewMode,
};
use crate::sort::sorted_spec;
use crate::tunnel::{has_port, row_count};

verus! {

/// One key of user input, as the dispatcher understands it; the terminal
/// layer translates raw events into these.
#[derive(Debug, Clone, Copy, PartialEq, Eq, Structural)]
pub enum KeyInput {
    Up,
    Down,
    Enter,
    Esc,
    Backspace,
    Delete,
    Home,
    End,
    PageUp,
    PageDown,
    Char(char),
    CtrlC,
    Other,
}

/// What the runtime should do after a key has been applied to the state.
#[derive(Debug)]
pub enum HandleResult {
    Continue,
    /// Connect interactively to the host at this index.
    LaunchSsh(usize),
    RefreshAll,
    RefreshServer(usize),
    ToggleFavorite,
    SortOrderChanged,
    /// Run this command on the host at this index.
    RunCommand(usize, String),
    CopyToClipboard,
    /// Save the output pane to this path.
    SaveToFile(String),
    /// Pipe the output pane to this local command.
    PipeToCommand(String),
    /// Open tunnels to the host at this index per this spec text.
    OpenTunnel(usize, String),
    CloseTunnel(u16),
    CloseTunnelGroup(u32),
    CloseAllTunnels,
}

/// The filter-entry transition: Esc abandons the pattern, Enter keeps it,
/// Backspace and characters edit it; every key stays in the session.
pub open spec fn filter_step(pre: App, key: KeyInput, post: App, r: HandleResult) -> bool {
    match key {
        KeyInput::Esc => {
            &&& post == (App {
                input_mode: InputMode::Normal,
                filter_text: post.filter_text,
                selected_index: 0,
                ..pre
            })
            &&& post.filter_text@ == Seq::<char>::empty()
            &&& r is Continue
        },
        KeyInput::Enter => post == (App { input_mode: InputMode::Normal, ..pre }) && r is Continue,
        KeyInput::Backspace => {
            &&& post == (App {
                filter_text: post.filter_text,
                selected_index: 0,
                ..pre
            })
            &&& post.filter_text@ == crate::app::pop_spec(pre.filter_text@)
            &&& r is Continue
        },
        KeyInput::Char(c) => {
            &&& post == (App {
                filter_text: post.filter_text,
                selected_index: 0,
                ..pre
            })
            &&& post.filter_text@ == pre.filter_text@.push(c)
            &&& r is Continue
        },
        _ => post == pre && r is Continue,
    }
}

/// One of the plain text-entry transitions (command, pipe, save path,
/// tunnel spec): which buffer is live is fixed by the input mode.
pub open spec fn command_step(pre: App, key: KeyInput, post: App, r: HandleResult) -> bool {
    match key {
        KeyInput::Esc => post == (App { input_mode: InputMode::Normal, ..pre }) && r is Continue,
        KeyInput::Enter => {
            if pre.command_text@.len() > 0 && app_selected_host(pre) is Some {
                &&& post == (App {
                    input_mode: InputMode::Normal,
                    command_server: post.command_server,
                    ..pre
                })
                &&& post.command_server is Some
                &&& post.command_server->0@ == app_selected_host(pre)->0
                &&& r is RunCommand
                &&& r->RunCommand_0 as int == app_filtered(pre)[pre.selected_index as int]
                &&& r->RunCommand_1@ == pre.command_text@
            } else {
                post == (App { input_mode: InputMode::Normal, ..pre }) && r is Continue
            }
        },
        KeyInput::Backspace => {
            &&& post == (App { command_text: post.command_text, ..pre })
            &&& post.command_text@ == crate::app::pop_spec(pre.command_text@)
            &&& r is Continue
        },
        KeyInput::Char(c) => {
            &&& post == (App { command_text: post.command_text, ..pre })
            &&& post.command_text@ == pre.command_text@.push(c)
            &&& r is Continue
        },
        _ => post == pre && r is Continue,
    }
}

/// The pipe-entry transition.
pub open spec fn pipe_step(pre: App, key: KeyInput, post: App, r: HandleResult) -> bool {
    match key {
        KeyInput::Esc => post == (App { input_mode: InputMode::Normal, ..pre }) && r is Continue,
        KeyInput::Enter => {
            if pre.pipe_text@.len() > 0 {
                &&& post == (App { input_mode: InputMode::Normal, ..pre })
                &&& r is PipeToCommand
                &&& r->PipeToCommand_0@ == pre.pipe_text@
            } else {
                post == (App { input_mode: InputMode::Normal, ..pre }) && r is Continue
            }
        },
        KeyInput::Backspace => {
            &&& post == (App { pipe_text: post.pipe_text, ..pre })
            &&& post.pipe_text@ == crate::app::pop_spec(pre.pipe_text@)
            &&& r is Continue
        },
        KeyInput::Char(c) => {
            &&& post == (App { pipe_text: post.pipe_text, ..pre })
            &&& post.pipe_text@ == pre.pipe_text@.push(c)
            &&& r is Continue
        },
        _ => post == pre && r is Continue,
    }
}

/// The save-path transition.
pub open spec fn save_step(pre: App, key: KeyInput, post: App, r: HandleResult) -> bool {
    match key {
        KeyInput::Esc => post == (App { input_mode: InputMode::Normal, ..pre }) && r is Continue,
        KeyInput::Enter => {
            if pre.save_path@.len() > 0 {
                &&& post == (App { input_mode: InputMode::Normal, ..pre })
                &&& r is SaveToFile
                &&& r->SaveToFile_0@ == pre.save_path@
            } else {
                post == (App { input_mode: InputMode::Normal, ..pre }) && r is Continue
            }
        },
        KeyInput::Backspace => {
            &&& post == (App { save_path: post.save_path, ..pre })
            &&& post.save_path@ == crate::app::pop_spec(pre.save_path@)
            &&& r is Continue
        },
        KeyInput::Char(c) => {
            &&& post == (App { save_path: post.save_path, ..pre })
            &&& post.save_path@ == pre.save_path@.push(c)
            &&& r is Continue
        },
        _ => post == pre && r is Continue,
    }
}

/// The tunnel-spec transition.
pub open spec fn tunnel_entry_step(pre: App, key: KeyInput, post: App, r: HandleResult) -> bool {
    match key {
        KeyInput::Esc => post == (App { input_mode: InputMode::Normal, ..pre }) && r is Continue,
        KeyInput::Enter => {
            if pre.tunnel_input@.len() > 0 && app_selected_host(pre) is Some {
                &&& post == (App { input_mode: InputMode::Normal, ..pre })
                &&& r is OpenTunnel
                &&& r->OpenTunnel_0 as int == app_filtered(pre)[pre.selected_index as int]
                &&& r->OpenTunnel_1@ == pre.tunnel_input@
            } else {
                post == (App { input_mode: InputMode::Normal, ..pre }) && r is Continue
            }
        },
        KeyInput::Backspace => {
            &&& post == (App { tunnel_input: post.tunnel_input, ..pre })
            &&& post.tunnel_input@ == crate::app::pop_spec(pre.tunnel_input@)
            &&& r is Continue
        },
        KeyInput::Char(c) => {
            &&& post == (App { tunnel_input: post.tunnel_input, ..pre })
            &&& post.tunnel_input@ == pre.tunnel_input@.push(c)
            &&& r is Continue
        },
        _ => post == pre && r is Continue,
    }
}

/// The install-menu transition: only leaving it does anything.
pub open spec fn install_step(pre: App, key: KeyInput, post: App, r: HandleResult) -> bool {
    match key {
        KeyInput::Esc => post == (App { input_mode: InputMode::Normal, ..pre }) && r is Continue,
        _ => post == pre && r is Continue,
    }
}

/// Reserved lowercase shortcut letters of the server list; any other
/// lowercase letter jumps straight to the host at that alphabet position.
pub open spec fn reserved_letter(ch: char) -> bool {
    ch == 's' || ch == 'j' || ch == 'k' || ch == 'n' || ch == 'q' || ch == 'r' || ch == 'd' || ch
        == 'g' || ch == 'f' || ch == 'c' || ch == 't'
}

/// The jump target of a shortcut character, as a position in the
/// filtered view.
pub open spec fn shortcut_pos(ch: char) -> int {
    if 'a' <= ch && ch <= 'z' {
        ch as int - 'a' as int
    } else {
        26 + (ch as int - '0' as int)
    }
}

/// The server-list transition: navigation, filtering, sorting, favorite
/// toggling, connecting, refreshing, view switches and shortcut jumps.
pub open spec fn server_list_step(pre: App, key: KeyInput, post: App, r: HandleResult) -> bool {
    match key {
        KeyInput::Up => post == select_previous_post(pre) && r is Continue,
        KeyInput::Down => post == select_next_post(pre) && r is Continue,
        KeyInput::Enter => {
            if app_selected_host(pre) is Some {
                post == pre && r is LaunchSsh && r->LaunchSsh_0 as int == app_filtered(
                    pre,
                )[pre.selected_index as int]
            } else {
                post == pre && r is Continue
            }
        },
        KeyInput::Home => post == (App { selected_index: 0, ..pre }) && r is Continue,
        KeyInput::End => {
            if app_filtered(pre).len() > 0 {
                post == (App {
                    selected_index: (app_filtered(pre).len() - 1) as usize,
                    ..pre
                }) && r is Continue
            } else {
                post == pre && r is Continue
            }
        },
        KeyInput::PageUp => {
            post == (App {
                selected_index: (if pre.selected_index >= 10 {
                    pre.selected_index - 10
                } else {
                    0
                }) as usize,
                ..pre
            }) && r is Continue
        },
        KeyInput::PageDown => {
            let cap = if app_filtered(pre).len() == 0 {
                0int
            } else {
                app_filtered(pre).len() - 1
            };
            post == (App {
                selected_index: (if pre.selected_index + 10 <= cap {
                    pre.selected_index + 10
                } else {
                    cap
                }) as usize,
                ..pre
            }) && r is Continue
        },
        KeyInput::Char(ch) => {
            if ch == 'k' {
                post == select_previous_post(pre) && r is Continue
            } else if ch == 'j' || ch == 'n' {
                post == select_next_post(pre) && r is Continue
            } else if ch == 'N' {
                post == select_previous_post(pre) && r is Continue
            } else if ch == '/' {
                &&& post == (App {
                    input_mode: InputMode::Filtering,
                    filter_text: post.filter_text,
                    ..pre
                })
                &&& post.filter_text@ == Seq::<char>::empty()
                &&& r is Continue
            } else if ch == 'G' {
                post == (App { view_mode: ViewMode::GroupList, selected_group: 0, ..pre })
                    && r is Continue
            } else if ch == 's' {
                &&& post == (App {
                    sort_order: sort_order_next(pre.sort_order),
                    servers: post.servers,
                    ..pre
                })
                &&& sorted_spec(post.servers@, sort_order_next(pre.sort_order), pre.history)
                &&& post.servers@.to_multiset() == pre.servers@.to_multiset()
                &&& r is SortOrderChanged
            } else if ch == 'f' {
                post == pre && r is ToggleFavorite
            } else if ch == 'c' {
                &&& post == (App {
                    input_mode: InputMode::CommandEntry,
                    command_text: post.command_text,
                    ..pre
                })
                &&& post.command_text@ == Seq::<char>::empty()
                &&& r is Continue
            } else if ch == 't' {
                &&& post == (App {
                    input_mode: InputMode::TunnelEntry,
                    tunnel_input: post.tunnel_input,
                    ..pre
                })
                &&& post.tunnel_input@ == Seq::<char>::empty()
                &&& r is Continue
            } else if ch == 'T' {
                post == (App { view_mode: ViewMode::Tunnels, selected_tunnel: 0, ..pre })
                    && r is Continue
            } else if ch == 'r' {
                post == pre && r is RefreshAll
            } else if ch == 'R' {
                if app_selected_host(pre) is Some {
                    post == pre && r is RefreshServer && r->RefreshServer_0 as int == app_filtered(
                        pre,
                    )[pre.selected_index as int]
                } else {
                    post == pre && r is Continue
                }
            } else if ch == 'd' || ch == ' ' {
                post == (App { view_mode: ViewMode::ServerDetails, ..pre }) && r is Continue
            } else if ch == '?' {
                post == (App { view_mode: ViewMode::Help, ..pre }) && r is Continue
            } else if ('a' <= ch && ch <= 'z' && !reserved_letter(ch)) || ('0' <= ch && ch
                <= '9') {
                let p = shortcut_pos(ch);
                if p < app_filtered(pre).len() {
                    &&& post == (App { selected_index: p as usize, ..pre })
                    &&& r is LaunchSsh
                    &&& r->LaunchSsh_0 as int == app_filtered(pre)[p]
                } else {
                    post == pre && r is Continue
                }
            } else {
                post == pre && r is Continue
            }
        },
        _ => post == pre && r is Continue,
    }
}

/// The group-list transition: navigate groups, open one as a filter, or
/// leave.
pub open spec fn group_list_step(pre: App, key: KeyInput, post: App, r: HandleResult) -> bool {
    match key {
        KeyInput::Up => post == select_previous_post(pre) && r is Continue,
        KeyInput::Down => post == select_next_post(pre) && r is Continue,
        KeyInput::Enter => group_open_step(pre, post, r),
        KeyInput::Esc => {
            post == (App {
                status_message: None,
                view_mode: ViewMode::ServerList,
                ..pre
            }) && r is Continue
        },
        KeyInput::Char(ch) => {
            if ch == 'k' {
                post == select_previous_post(pre) && r is Continue
            } else if ch == 'j' {
                post == select_next_post(pre) && r is Continue
            } else if ch == 'l' {
                group_open_step(pre, post, r)
            } else if ch == 'h' {
                post == (App {
                    status_message: None,
                    view_mode: ViewMode::ServerList,
                    ..pre
                }) && r is Continue
            } else if ch == '?' {
                post == (App { view_mode: ViewMode::Help, ..pre }) && r is Continue
            } else {
                post == pre && r is Continue
            }
        },
        _ => post == pre && r is Continue,
    }
}

/// Opening the selected group: its name becomes the filter and the view
/// returns to the server list.
pub open spec fn group_open_step(pre: App, post: App, r: HandleResult) -> bool {
    if pre.selected_group < pre.groups@.len() {
        &&& post == (App {
            filter_text: post.filter_text,
            view_mode: ViewMode::ServerList,
            selected_index: 0,
            ..pre
        })
        &&& post.filter_text@ == pre.groups@[pre.selected_group as int].name@
        &&& r is Continue
    } else {
        post == pre && r is Continue
    }
}

/// The host-details transition.
pub open spec fn details_step(pre: App, key: KeyInput, post: App, r: HandleResult) -> bool {
    match key {
        KeyInput::Esc => {
            post == (App {
                status_message: None,
                view_mode: ViewMode::ServerList,
                ..pre
            }) && r is Continue
        },
        KeyInput::Enter => {
            if app_selected_host(pre) is Some {
                post == pre && r is LaunchSsh && r->LaunchSsh_0 as int == app_filtered(
                    pre,
                )[pre.selected_index as int]
            } else {
                post == pre && r is Continue
            }
        },
        KeyInput::Up => post == select_previous_post(pre) && r is Continue,
        KeyInput::Down => post == select_next_post(pre) && r is Continue,
        KeyInput::Char(ch) => {
            if ch == 'q' || ch == 'd' || ch == ' ' {
                post == (App {
                    status_message: None,
                    view_mode: ViewMode::ServerList,
                    ..pre
                }) && r is Continue
            } else if ch == 'k' {
                post == select_previous_post(pre) && r is Continue
            } else if ch == 'j' {
                post == select_next_post(pre) && r is Continue
            } else if ch == 'r' || ch == 'R' {
                if app_selected_host(pre) is Some {
                    post == pre && r is RefreshServer && r->RefreshServer_0 as int == app_filtered(
                        pre,
                    )[pre.selected_index as int]
                } else {
                    post == pre && r is Continue
                }
            } else {
                post == pre && r is Continue
            }
        },
        _ => post == pre && r is Continue,
    }
}

/// The help-screen transition: any of its close keys returns to the list.
pub open spec fn help_step(pre: App, key: KeyInput, post: App, r: HandleResult) -> bool {
    match key {
        KeyInput::Esc => {
            post == (App {
                status_message: None,
                view_mode: ViewMode::ServerList,
                ..pre
            }) && r is Continue
        },
        KeyInput::Char(ch) => {
            if ch == 'q' || ch == '?' {
                post == (App {
                    status_message: None,
                    view_mode: ViewMode::ServerList,
                    ..pre
                }) && r is Continue
            } else {
                post == pre && r is Continue
            }
        },
        _ => post == pre && r is Continue,
    }
}

/// The command-output transition: close, run another command, copy, save
/// or pipe.
pub open spec fn output_step(pre: App, key: KeyInput, post: App, r: HandleResult) -> bool {
    match key {
        KeyInput::Esc => {
            post == (App {
                view_mode: ViewMode::ServerList,
                command_output: None,
                ..pre
            }) && r is Continue
        },
        KeyInput::Char(ch) => {
            if ch == 'q' {
                post == (App {
                    view_mode: ViewMode::ServerList,
                    command_output: None,
                    ..pre
                }) && r is Continue
            } else if ch == 'c' {
                &&& post == (App {
                    input_mode: InputMode::CommandEntry,
                    command_text: post.command_text,
                    view_mode: ViewMode::ServerList,
                    ..pre
                })
                &&& post.command_text@ == Seq::<char>::empty()
                &&& r is Continue
            } else if ch == 'y' {
                post == pre && r is CopyToClipboard
            } else if ch == '>' {
                &&& post == (App {
                    input_mode: InputMode::SaveEntry,
                    save_path: post.save_path,
                    ..pre
                })
                &&& post.save_path@ == Seq::<char>::empty()
                &&& r is Continue
            } else if ch == '|' {
                &&& post == (App {
                    input_mode: InputMode::PipeEntry,
                    pipe_text: post.pipe_text,
                    ..pre
                })
                &&& post.pipe_text@ == Seq::<char>::empty()
                &&& r is Continue
            } else {
                post == pre && r is Continue
            }
        },
        _ => post == pre && r is Continue,
    }
}

/// The tunnel-list transition: navigation over the display rows, closing
/// the selected row (one port, or a whole batch), closing everything, or
/// opening a new tunnel.
pub open spec fn tunnels_step(pre: App, key: KeyInput, post: App, r: HandleResult) -> bool {
    match key {
        KeyInput::Esc => {
            post == (App { view_mode: ViewMode::ServerList, ..pre }) && r is Continue
        },
        KeyInput::Up => {
            post == (App {
                selected_tunnel: crate::app::sat_sub(pre.selected_tunnel as int) as usize,
                ..pre
            }) && r is Continue
        },
        KeyInput::Down => {
            &&& post == tunnel_down_post(pre)
            &&& r is Continue
        },
        KeyInput::Delete => tunnel_close_step(pre, post, r),
        KeyInput::Char(ch) => {
            if ch == 'q' {
                post == (App { view_mode: ViewMode::ServerList, ..pre }) && r is Continue
            } else if ch == 'k' {
                post == (App {
                    selected_tunnel: crate::app::sat_sub(pre.selected_tunnel as int) as usize,
                    ..pre
                }) && r is Continue
            } else if ch == 'j' {
                post == tunnel_down_post(pre) && r is Continue
            } else if ch == 'd' {
                tunnel_close_step(pre, post, r)
            } else if ch == 'D' {
                post == pre && r is CloseAllTunnels
            } else if ch == 't' {
                &&& post == (App {
                    input_mode: InputMode::TunnelEntry,
                    tunnel_input: post.tunnel_input,
                    view_mode: ViewMode::ServerList,
                    ..pre
                })
                &&& post.tunnel_input@ == Seq::<char>::empty()
                &&& r is Continue
            } else {
                post == pre && r is Continue
            }
        },
        _ => post == pre && r is Continue,
    }
}

/// The state after one downward step over the tunnel rows, stopping at
/// the last row.
pub open spec fn tunnel_down_post(pre: App) -> App {
    let rows = row_count(pre.tunnel_manager.tunnels@, 0);
    if rows > 0 && pre.selected_tunnel < rows - 1 {
        App { selected_tunnel: (pre.selected_tunnel + 1) as usize, ..pre }
    } else {
        pre
    }
}

/// Closing the selected display row: a tracked port for a single row, a
/// live batch id for a batch row, nothing when the selection is out of
/// range.
pub open spec fn tunnel_close_step(pre: App, post: App, r: HandleResult) -> bool {
    &&& post == pre
    &&& match r {
        HandleResult::CloseTunnel(p) => has_port(pre.tunnel_manager, p),
        HandleResult::CloseTunnelGroup(g) => exists|i: int|
            0 <= i < pre.tunnel_manager.tunnels@.len()
                && (#[trigger] pre.tunnel_manager.tunnels@[i].group_id) == Some(g),
        HandleResult::Continue => true,
        _ => false,
    }
}

/// The Normal-mode transition: the global quit/close keys first, then the
/// current view's own handling.
pub open spec fn normal_step(pre: App, key: KeyInput, post: App, r: HandleResult) -> bool {
    if key == KeyInput::CtrlC {
        post == (App { should_quit: true, ..pre }) && r is Continue
    } else if key == KeyInput::Esc || key == KeyInput::Char('q') {
        if pre.view_mode == ViewMode::Help || pre.view_mode == ViewMode::ServerDetails
            || pre.view_mode == ViewMode::CommandOutput || pre.view_mode == ViewMode::Tunnels {
            post == (App {
                status_message: None,
                view_mode: ViewMode::ServerList,
                ..pre
            }) && r is Continue
        } else {
            post == (App {
                status_message: None,
                should_quit: true,
                ..pre
            }) && r is Continue
        }
    } else {
        match pre.view_mode {
            ViewMode::ServerList => server_list_step(pre, key, post, r),
            ViewMode::GroupList => group_list_step(pre, key, post, r),
            ViewMode::ServerDetails => details_step(pre, key, post, r),
            ViewMode::CommandOutput => output_step(pre, key, post, r),
            ViewMode::Tunnels => tunnels_step(pre, key, post, r),
            ViewMode::Help => help_step(pre, key, post, r),
        }
    }
}

/// The whole dispatcher relation: a live modal mode consumes the key for
/// its buffer; otherwise Normal-mode handling applies.
pub open spec fn dispatch_step(pre: App, key: KeyInput, post: App, r: HandleResult) -> bool {
    match pre.input_mode {
        InputMode::Normal => normal_step(pre, key, post, r),
        InputMode::Filtering => filter_step(pre, key, post, r),
        InputMode::CommandEntry => command_step(pre, key, post, r),
        InputMode::PipeEntry => pipe_step(pre, key, post, r),
        InputMode::SaveEntry => save_step(pre, key, post, r),
        InputMode::TunnelEntry => tunnel_entry_step(pre, key, post, r),
        InputMode::InstallMenu => install_step(pre, key, post, r),
    }
}

/// Handles keys while the filter pattern is being entered.
pub fn handle_filter_input(app: &mut App, key: KeyInput) -> (r: HandleResult)
    ensures
        filter_step(*old(app), key, *final(app), r),
{
    match key {
        KeyInput::Esc => {
            app.stop_filtering();
            app.filter_clear();
        },
        KeyInput::Enter => {
            app.stop_filtering();
        },
        KeyInput::Backspace => {
            app.filter_pop();
        },
        KeyInput::Char(c) => {
            app.filter_push(c);
        },
        _ => {},
    }
    HandleResult::Continue
}

/// Handles keys while a remote command is being entered.
pub fn handle_command_input(app: &mut App, key: KeyInput) -> (r: HandleResult)
    ensures
        command_step(*old(app), key, *final(app), r),
{
    match key {
        KeyInput::Esc => {
            app.stop_command_input();
            HandleResult::Continue
        },
        KeyInput::Enter => {
            if !app.command_text.as_str().is_empty() {
                let f = app.filtered_servers();
                if app.selected_index < f.len() {
                    let idx = f[app.selected_index];
                    proof {
                        assert(f@.map_values(|u: usize| u as int)[app.selected_index as int]
                            == idx as int);
                        crate::filter::lemma_filtered_idx_props(app.servers@, app.filter_text@);
                    }
                    let cmd = app.command_text.clone();
                    app.stop_command_input();
                    app.command_server = Some(app.servers[idx].host.clone());
                    return HandleResult::RunCommand(idx, cmd);
                }
            }
            app.stop_command_input();
            HandleResult::Continue
        },
        KeyInput::Backspace => {
            app.command_pop();
            HandleResult::Continue
        },
        KeyInput::Char(c) => {
            app.command_push(c);
            HandleResult::Continue
        },
        _ => HandleResult::Continue,
    }
}

/// Handles keys while a pipe command is being entered.
pub fn handle_pipe_input(app: &mut App, key: KeyInput) -> (r: HandleResult)
    ensures
        pipe_step(*old(app), key, *final(app), r),
{
    match key {
        KeyInput::Esc => {
            app.stop_pipe_input();
            HandleResult::Continue
        },
        KeyInput::Enter => {
            if !app.pipe_text.as_str().is_empty() {
                let cmd = app.pipe_text.clone();
                app.stop_pipe_input();
                return HandleResult::PipeToCommand(cmd);
            }
            app.stop_pipe_input();
            HandleResult::Continue
        },
        KeyInput::Backspace => {
            app.pipe_pop();
            HandleResult::Continue
        },
        KeyInput::Char(c) => {
            app.pipe_push(c);
            HandleResult::Continue
        },
        _ => HandleResult::Continue,
    }
}

/// Handles keys while a save path is being entered.
pub fn handle_save_input(app: &mut App, key: KeyInput) -> (r: HandleResult)
    ensures
        save_step(*old(app), key, *final(app), r),
{
    match key {
        KeyInput::Esc => {
            app.stop_save_input();
            HandleResult::Continue
        },
        KeyInput::Enter => {
            if !app.save_path.as_str().is_empty() {
                let path = app.save_path.clone();
                app.stop_save_input();
                return HandleResult::SaveToFile(path);
            }
            app.stop_save_input();
            HandleResult::Continue
        },
        KeyInput::Backspace => {
            app.save_path_pop();
            HandleResult::Continue
        },
        KeyInput::Char(c) => {
            app.save_path_push(c);
            HandleResult::Continue
        },
        _ => HandleResult::Continue,
    }
}

/// Handles keys while a tunnel spec is being entered.
pub fn handle_tunnel_input(app: &mut App, key: KeyInput) -> (r: HandleResult)
    ensures
        tunnel_entry_step(*old(app), key, *final(app), r),
{
    match key {
        KeyInput::Esc => {
            app.stop_tunnel_input();
            HandleResult::Continue
        },
        KeyInput::Enter => {
            if !app.tunnel_input.as_str().is_empty() {
                let f = app.filtered_servers();
                if app.selected_index < f.len() {
                    let idx = f[app.selected_index];
                    proof {
                        assert(f@.map_values(|u: usize| u as int)[app.selected_index as int]
                            == idx as int);
                    }
                    let spec_text = app.tunnel_input.clone();
                    app.stop_tunnel_input();
                    return HandleResult::OpenTunnel(idx, spec_text);
                }
            }
            app.stop_tunnel_input();
            HandleResult::Continue
        },
        KeyInput::Backspace => {
            app.tunnel_input_pop();
            HandleResult::Continue
        },
        KeyInput::Char(c) => {
            app.tunnel_input_push(c);
            HandleResult::Continue
        },
        _ => HandleResult::Continue,
    }
}

/// Handles keys while the install menu is up.
pub fn handle_install_input(app: &mut App, key: KeyInput) -> (r: HandleResult)
    ensures
        install_step(*old(app), key, *final(app), r),
{
    match key {
        KeyInput::Esc => {
            app.input_mode = InputMode::Normal;
        },
        _ => {},
    }
    HandleResult::Continue
}

/// Handles keys on the server list.
pub fn handle_server_list_input(app: &mut App, key: KeyInput) -> (r: HandleResult)
    requires
        old(app).wf(),
    ensures
        final(app).wf(),
        server_list_step(*old(app), key, *final(app), r),
{
    match key {
        KeyInput::Up => {
            app.select_previous();
            HandleResult::Continue
        },
        KeyInput::Down => {
            app.select_next();
            HandleResult::Continue
        },
        KeyInput::Enter => {
            let f = app.filtered_servers();
            if app.selected_index < f.len() {
                let idx = f[app.selected_index];
                proof {
                    assert(f@.map_values(|u: usize| u as int)[app.selected_index as int]
                        == idx as int);
                }
                return HandleResult::LaunchSsh(idx);
            }
            HandleResult::Continue
        },
        KeyInput::Home => {
            app.selected_index = 0;
            HandleResult::Continue
        },
        KeyInput::End => {
            let count = app.filtered_servers().len();
            if count > 0 {
                app.selected_index = count - 1;
            }
            HandleResult::Continue
        },
        KeyInput::PageUp => {
            app.selected_index = if app.selected_index >= 10 {
                app.selected_index - 10
            } else {
                0
            };
            HandleResult::Continue
        },
        KeyInput::PageDown => {
            let count = app.filtered_servers().len();
            let cap = if count == 0 {
                0
            } else {
                count - 1
            };
            let target = if app.selected_index <= usize::MAX - 10 {
                app.selected_index + 10
            } else {
                usize::MAX
            };
            app.selected_index = if target <= cap {
                target
            } else {
                cap
            };
            HandleResult::Continue
        },
        KeyInput::Char(ch) => handle_server_list_char(app, ch),
        _ => HandleResult::Continue,
    }
}

/// The character keys of the server list.
fn handle_server_list_char(app: &mut App, ch: char) -> (r: HandleResult)
    requires
        old(app).wf(),
    ensures
        final(app).wf(),
        server_list_step(*old(app), KeyInput::Char(ch), *final(app), r),
{
    if ch == 'k' {
        app.select_previous();
        HandleResult::Continue
    } else if ch == 'j' || ch == 'n' {
        app.select_next();
        HandleResult::Continue
    } else if ch == 'N' {
        app.select_previous();
        HandleResult::Continue
    } else if ch == '/' {
        app.start_filtering();
        HandleResult::Continue
    } else if ch == 'G' {
        app.view_mode = ViewMode::GroupList;
        app.selected_group = 0;
        HandleResult::Continue
    } else if ch == 's' {
        app.cycle_sort_order();
        HandleResult::SortOrderChanged
    } else if ch == 'f' {
        HandleResult::ToggleFavorite
    } else if ch == 'c' {
        app.start_command_input();
        HandleResult::Continue
    } else if ch == 't' {
        app.start_tunnel_input();
        HandleResult::Continue
    } else if ch == 'T' {
        app.view_mode = ViewMode::Tunnels;
        app.selected_tunnel = 0;
        HandleResult::Continue
    } else if ch == 'r' {
        HandleResult::RefreshAll
    } else if ch == 'R' {
        let f = app.filtered_servers();
        if app.selected_index < f.len() {
            let idx = f[app.selected_index];
            proof {
                assert(f@.map_values(|u: usize| u as int)[app.selected_index as int] == idx as int);
            }
            return HandleResult::RefreshServer(idx);
        }
        HandleResult::Continue
    } else if ch == 'd' || ch == ' ' {
        app.view_mode = ViewMode::ServerDetails;
        HandleResult::Continue
    } else if ch == '?' {
        app.view_mode = ViewMode::Help;
        HandleResult::Continue
    } else if (ch >= 'a' && ch <= 'z' && ch != 's' && ch != 'j' && ch != 'k' && ch != 'n' && ch
        != 'q' && ch != 'r' && ch != 'd' && ch != 'g' && ch != 'f' && ch != 'c' && ch != 't') || (ch
        >= '0' && ch <= '9') {
        let p: usize = if ch >= 'a' && ch <= 'z' {
            (ch as u32 - 'a' as u32) as usize
        } else {
            26 + (ch as u32 - '0' as u32) as usize
        };
        proof {
            assert(p as int == shortcut_pos(ch));
        }
        let f = app.filtered_servers();
        if p < f.len() {
            let idx = f[p];
            proof {
                assert(f@.map_values(|u: usize| u as int)[p as int] == idx as int);
            }
            app.selected_index = p;
            return HandleResult::LaunchSsh(idx);
        }
        HandleResult::Continue
    } else {
        HandleResult::Continue
    }
}

/// Handles keys on the group list.
pub fn handle_group_list_input(app: &mut App, key: KeyInput) -> (r: HandleResult)
    ensures
        group_list_step(*old(app), key, *final(app), r),
{
    match key {
        KeyInput::Up => {
            app.select_previous();
            HandleResult::Continue
        },
        KeyInput::Down => {
            app.select_next();
            HandleResult::Continue
        },
        KeyInput::Enter => open_selected_group(app),
        KeyInput::Esc => {
            app.status_message = None;
            app.view_mode = ViewMode::ServerList;
            HandleResult::Continue
        },
        KeyInput::Char(ch) => {
            if ch == 'k' {
                app.select_previous();
                HandleResult::Continue
            } else if ch == 'j' {
                app.select_next();
                HandleResult::Continue
            } else if ch == 'l' {
                open_selected_group(app)
            } else if ch == 'h' {
                app.status_message = None;
                app.view_mode = ViewMode::ServerList;
                HandleResult::Continue
            } else if ch == '?' {
                app.view_mode = ViewMode::Help;
                HandleResult::Continue
            } else {
                HandleResult::Continue
            }
        },
        _ => HandleResult::Continue,
    }
}

fn open_selected_group(app: &mut App) -> (r: HandleResult)
    ensures
        group_open_step(*old(app), *final(app), r),
{
    if app.selected_group < app.groups.len() {
        let name = app.groups[app.selected_group].name.clone();
        app.filter_text = name;
        app.view_mode = ViewMode::ServerList;
        app.selected_index = 0;
    }
    HandleResult::Continue
}

/// Handles keys on the host-details screen.
pub fn handle_details_input(app: &mut App, key: KeyInput) -> (r: HandleResult)
    ensures
        details_step(*old(app), key, *final(app), r),
{
    match key {
        KeyInput::Esc => {
            app.status_message = None;
            app.view_mode = ViewMode::ServerList;
            HandleResult::Continue
        },
        KeyInput::Enter => {
            let f = app.filtered_servers();
            if app.selected_index < f.len() {
                let idx = f[app.selected_index];
                proof {
                    assert(f@.map_values(|u: usize| u as int)[app.selected_index as int]
                        == idx as int);
                }
                return HandleResult::LaunchSsh(idx);
            }
            HandleResult::Continue
        },
        KeyInput::Up => {
            app.select_previous();
            HandleResult::Continue
        },
        KeyInput::Down => {
            app.select_next();
            HandleResult::Continue
        },
        KeyInput::Char(ch) => {
            if ch == 'q' || ch == 'd' || ch == ' ' {
                app.status_message = None;
                app.view_mode = ViewMode::ServerList;
                HandleResult::Continue
            } else if ch == 'k' {
                app.select_previous();
                HandleResult::Continue
            } else if ch == 'j' {
                app.select_next();
                HandleResult::Continue
            } else if ch == 'r' || ch == 'R' {
                let f = app.filtered_servers();
                if app.selected_index < f.len() {
                    let idx = f[app.selected_index];
                    proof {
                        assert(f@.map_values(|u: usize| u as int)[app.selected_index as int]
                            == idx as int);
                    }
                    return HandleResult::RefreshServer(idx);
                }
                HandleResult::Continue
            } else {
                HandleResult::Continue
            }
        },
        _ => HandleResult::Continue,
    }
}

/// Handles keys on the help screen.
pub fn handle_help_input(app: &mut App, key: KeyInput) -> (r: HandleResult)
    ensures
        help_step(*old(app), key, *final(app), r),
{
    match key {
        KeyInput::Esc => {
            app.status_message = None;
            app.view_mode = ViewMode::ServerList;
        },
        KeyInput::Char(ch) => {
            if ch == 'q' || ch == '?' {
                app.status_message = None;
                app.view_mode = ViewMode::ServerList;
            }
        },
        _ => {},
    }
    HandleResult::Continue
}

/// Handles keys on the command-output pane.
pub fn handle_command_output_input(app: &mut App, key: KeyInput) -> (r: HandleResult)
    ensures
        output_step(*old(app), key, *final(app), r),
{
    match key {
        KeyInput::Esc => {
            app.view_mode = ViewMode::ServerList;
            app.command_output = None;
            HandleResult::Continue
        },
        KeyInput::Char(ch) => {
            if ch == 'q' {
                app.view_mode = ViewMode::ServerList;
                app.command_output = None;
                HandleResult::Continue
            } else if ch == 'c' {
                app.start_command_input();
                app.view_mode = ViewMode::ServerList;
                HandleResult::Continue
            } else if ch == 'y' {
                HandleResult::CopyToClipboard
            } else if ch == '>' {
                app.start_save_input();
                HandleResult::Continue
            } else if ch == '|' {
                app.start_pipe_input();
                HandleResult::Continue
            } else {
                HandleResult::Continue
            }
        },
        _ => HandleResult::Continue,
    }
}

/// Handles keys on the tunnel list.
pub fn handle_tunnels_input(app: &mut App, key: KeyInput) -> (r: HandleResult)
    requires
        old(app).wf(),
    ensures
        final(app).wf(),
        tunnels_step(*old(app), key, *final(app), r),
{
    match key {
        KeyInput::Esc => {
            app.view_mode = ViewMode::ServerList;
            HandleResult::Continue
        },
        KeyInput::Up => {
            if app.selected_tunnel > 0 {
                app.selected_tunnel = app.selected_tunnel - 1;
            }
            HandleResult::Continue
        },
        KeyInput::Down => {
            let count = app.tunnel_manager.display_count();
            if count > 0 && app.selected_tunnel < count - 1 {
                app.selected_tunnel = app.selected_tunnel + 1;
            }
            HandleResult::Continue
        },
        KeyInput::Delete => close_selected_tunnel(app),
        KeyInput::Char(ch) => {
            if ch == 'q' {
                app.view_mode = ViewMode::ServerList;
                HandleResult::Continue
            } else if ch == 'k' {
                if app.selected_tunnel > 0 {
                    app.selected_tunnel = app.selected_tunnel - 1;
                }
                HandleResult::Continue
            } else if ch == 'j' {
                let count = app.tunnel_manager.display_count();
                if count > 0 && app.selected_tunnel < count - 1 {
                    app.selected_tunnel = app.selected_tunnel + 1;
                }
                HandleResult::Continue
            } else if ch == 'd' {
                close_selected_tunnel(app)
            } else if ch == 'D' {
                HandleResult::CloseAllTunnels
            } else if ch == 't' {
                app.view_mode = ViewMode::ServerList;
                app.start_tunnel_input();
                HandleResult::Continue
            } else {
                HandleResult::Continue
            }
        },
        _ => HandleResult::Continue,
    }
}

fn close_selected_tunnel(app: &mut App) -> (r: HandleResult)
    requires
        old(app).wf(),
    ensures
        final(app).wf(),
        tunnel_close_step(*old(app), *final(app), r),
{
    let items = app.tunnel_manager.get_display_items();
    if app.selected_tunnel < items.len() {
        let sel = app.selected_tunnel;
        match &items[sel] {
            crate::tunnel::TunnelDisplayItem::Single { local_port, .. } => {
                proof {
                    let s = app.tunnel_manager.tunnels@;
                    let it = items@[sel as int];
                    assert(crate::tunnel::item_ok(s, it));
                    let w = choose|w: int|
                        0 <= w < s.len() && (#[trigger] s[w]) == (crate::tunnel::Tunnel {
                            local_port: it->Single_local_port,
                            remote_host: it->Single_remote_host,
                            remote_port: it->Single_remote_port,
                            server_host: it->Single_server_host,
                            group_id: None,
                        });
                    assert(s[w].local_port == it->Single_local_port);
                    assert(has_port(app.tunnel_manager, *local_port));
                }
                HandleResult::CloseTunnel(*local_port)
            },
            crate::tunnel::TunnelDisplayItem::Group { group_id, .. } => {
                proof {
                    assert(crate::tunnel::item_ok(app.tunnel_manager.tunnels@, items@[sel as int]));
                    let ms = app.tunnel_manager.tunnels@.filter(
                        crate::tunnel::gid_pred(items@[sel as int]->Group_group_id),
                    );
                    assert(ms.len() >= 1);
                    crate::tunnel::lemma_filter_member(
                        app.tunnel_manager.tunnels@,
                        crate::tunnel::gid_pred(items@[sel as int]->Group_group_id),
                    );
                    let w = choose|w: int|
                        0 <= w < app.tunnel_manager.tunnels@.len() && crate::tunnel::gid_pred(
                            items@[sel as int]->Group_group_id,
                        )(#[trigger] app.tunnel_manager.tunnels@[w]);
                    assert(app.tunnel_manager.tunnels@[w].group_id == Some(
                        items@[sel as int]->Group_group_id,
                    ));
                }
                HandleResult::CloseTunnelGroup(*group_id)
            },
        }
    } else {
        HandleResult::Continue
    }
}

/// Applies one key of input to the state: a live modal mode consumes it
/// for its buffer, the global quit/close keys act everywhere else, and
/// anything further goes to the current view's handler.
pub fn handle_key_event(app: &mut App, key: KeyInput) -> (r: HandleResult)
    requires
        old(app).wf(),
    ensures
        final(app).wf(),
        dispatch_step(*old(app), key, *final(app), r),
{
    match app.input_mode {
        InputMode::Filtering => handle_filter_input(app, key),
        InputMode::CommandEntry => handle_command_input(app, key),
        InputMode::PipeEntry => handle_pipe_input(app, key),
        InputMode::SaveEntry => handle_save_input(app, key),
        InputMode::TunnelEntry => handle_tunnel_input(app, key),
        InputMode::InstallMenu => handle_install_input(app, key),
        InputMode::Normal => {
            let quit_key = match key {
                KeyInput::Esc => true,
                KeyInput::Char(c) => c == 'q',
                _ => false,
            };
            if matches!(key, KeyInput::CtrlC) {
                app.should_quit = true;
                return HandleResult::Continue;
            }
            if quit_key {
                app.status_message = None;
                let closes = match app.view_mode {
                    ViewMode::Help => true,
                    ViewMode::ServerDetails => true,
                    ViewMode::CommandOutput => true,
                    ViewMode::Tunnels => true,
                    _ => false,
                };
                if closes {
                    app.view_mode = ViewMode::ServerList;
                } else {
                    app.should_quit = true;
                }
                return HandleResult::Continue;
            }
            match app.view_mode {
                ViewMode::ServerList => handle_server_list_input(app, key),
                ViewMode::GroupList => handle_group_list_input(app, key),
                ViewMode::ServerDetails => handle_details_input(app, key),
                ViewMode::CommandOutput => handle_command_output_input(app, key),
                ViewMode::Tunnels => handle_tunnels_input(app, key),
                ViewMode::Help => handle_help_input(app, key),
            }
        },
    }
}

} // verus!
