//! Starting the program, opening connections and keeping settings.
use vstd::prelude::*;
use std::collections::VecDeque;
use vstd::hash_map::StringHashMap;
use vstd::string::StringExecFns;
use crate::collections::{TextMap, TextSet};
use crate::connection::{
    legacy_profile, migrate_legacy_profile, profile_prefix, restored_cleared_buffer_names,
    AppSettings, AppSettingsView, BackendType, ConnectionHandle, ConnectionProfile,
    ConnectionProfileView, ConnectionView,
};
use crate::models::copy_list;
use crate::seqs::{keep_items, views};
use crate::session::log_entry;
use crate::state::{index_map, AppView, Clock, WeeChatApp};
use crate::text::{
    clone_opt, clone_texts, decimal, join2, join3, opt_text, parse_u64, parse_unsigned, same_text,
    texts, u64_text,
};

verus! {

// ---------------------------------------------------------------------------
// Starting
// ---------------------------------------------------------------------------

/// The profiles that settings hold, together with the one of an older form.
pub open spec fn profiles_of(settings: AppSettingsView) -> Seq<ConnectionProfileView> {
    match legacy_profile(settings) {
        Some(profile) => settings.connections.push(profile),
        None => settings.connections,
    }
}

/// The state in which the program starts.
pub open spec fn started(settings: AppSettingsView) -> AppView {
    AppView {
        connections: Seq::empty(),
        profiles: profiles_of(settings),
        show_connection_log: false,
        connection_log_unread: false,
        selected_conn_log: None,
        session_passwords: Map::empty(),
        buffers: Seq::empty(),
        selected_buffer_id: None,
        last_chat_buffer_name: settings.last_chat_buffer_name,
        input_text: Seq::empty(),
        show_hidden_buffers: settings.show_hidden_buffers,
        show_filtered_lines: settings.show_filtered_lines,
        show_inline_images: settings.show_inline_images,
        show_link_previews: settings.show_link_previews,
        auto_reconnect: settings.auto_reconnect,
        completion: None,
        mention_completion: None,
        selected_mentions: Seq::empty(),
        command_completion: None,
        command_completion_pending: None,
        command_completion_request_seq: 0,
        command_history: Seq::empty(),
        history_index: None,
        focus_input: false,
        reply_target: None,
        profile_card: None,
        open_thread_buffer_id: None,
        open_thread_snapshot: None,
        thread_input_text: Seq::empty(),
        focus_thread_input: false,
        pending_buffer_switch: None,
        buffer_order: settings.buffer_order,
        cleared_buffer_ids: Set::empty(),
        cleared_buffer_names: settings.cleared_buffer_names.union(settings.read_markers.dom()),
        read_markers: settings.read_markers,
        muted_buffer_names: settings.muted_buffer_names,
        last_notif_at: Map::empty(),
        request_attention: false,
        selected_view_since: None,
        loading_more_buffer_id: None,
        history_request_counts: Map::empty(),
        history_exhausted_buffer_ids: Set::empty(),
        history_scroll_anchors: Map::empty(),
        history_top_armed_buffer_ids: Set::empty(),
        force_scroll_to_bottom_buffer_id: None,
        collapsed_servers: settings.collapsed_servers,
        file_share_uploading: false,
        file_share_status: None,
        file_share_target_buffer_id: None,
        file_share_expected_filename: None,
        file_share_started_at: None,
        file_share_error: None,
        file_share_duration: settings.file_share_duration,
        pending_redaction: None,
        pending_redaction_error: None,
        outbox: Seq::empty(),
    }
}

fn profiles_in(settings: &AppSettings) -> (profiles: Vec<ConnectionProfile>)
    ensures
        views(profiles@) == profiles_of(settings@),
{
    let mut profiles = copy_list(&settings.connections);
    match migrate_legacy_profile(settings) {
        Some(profile) => {
            let ghost before = profiles@;
            profiles.push(profile);
            assert(views(profiles@) =~= views(before).push(profile@));
        },
        None => {},
    }
    profiles
}

impl WeeChatApp {
    /// The program as it starts: with what the settings keep, and with no
    /// connection. Relay ids of an earlier run are not taken over, for they may
    /// now mean other buffers.
    pub fn new(settings: &AppSettings) -> (app: Self)
        ensures
            app.wf(),
            app@ == started(settings@),
    {
        let app = WeeChatApp {
            connections: Vec::new(),
            profiles: profiles_in(settings),
            show_connection_log: false,
            connection_log_unread: false,
            selected_conn_log: None,
            session_passwords: TextMap::new(),
            buffers: Vec::new(),
            buffer_idx: StringHashMap::new(),
            selected_buffer_id: None,
            last_chat_buffer_name: clone_opt(&settings.last_chat_buffer_name),
            input_text: String::new(),
            show_hidden_buffers: settings.show_hidden_buffers,
            show_filtered_lines: settings.show_filtered_lines,
            show_inline_images: settings.show_inline_images,
            show_link_previews: settings.show_link_previews,
            auto_reconnect: settings.auto_reconnect,
            completion: None,
            mention_completion: None,
            selected_mentions: Vec::new(),
            command_completion: None,
            command_completion_pending: None,
            command_completion_request_seq: 0,
            command_history: VecDeque::new(),
            history_index: None,
            focus_input: false,
            reply_target: None,
            profile_card: None,
            open_thread_buffer_id: None,
            open_thread_snapshot: None,
            thread_input_text: String::new(),
            focus_thread_input: false,
            pending_buffer_switch: None,
            buffer_order: clone_texts(&settings.buffer_order),
            cleared_buffer_ids: TextSet::new(),
            cleared_buffer_names: restored_cleared_buffer_names(settings),
            read_markers: settings.read_markers.copy(),
            muted_buffer_names: settings.muted_buffer_names.clone(),
            last_notif_at: TextMap::new(),
            request_attention: false,
            selected_view_since: None,
            loading_more_buffer_id: None,
            history_request_counts: TextMap::new(),
            history_exhausted_buffer_ids: TextSet::new(),
            history_scroll_anchors: TextMap::new(),
            history_top_armed_buffer_ids: TextSet::new(),
            force_scroll_to_bottom_buffer_id: None,
            collapsed_servers: settings.collapsed_servers.clone(),
            file_share_uploading: false,
            file_share_status: None,
            file_share_target_buffer_id: None,
            file_share_expected_filename: None,
            file_share_started_at: None,
            file_share_error: None,
            file_share_duration: settings.file_share_duration.clone(),
            pending_redaction: None,
            pending_redaction_error: None,
            outbox: Vec::new(),
        };
        proof {
            assert(app@.connections =~= Seq::empty());
            assert(app@.buffers =~= Seq::empty());
            assert(app@.input_text =~= Seq::empty());
            assert(app@.selected_mentions =~= Seq::empty());
            assert(app@.command_history =~= Seq::empty());
            assert(app@.thread_input_text =~= Seq::empty());
            assert(app@.outbox =~= Seq::empty());
            reveal(index_map);
            assert(app.buffer_idx@ =~= index_map(app@.buffers));
        }
        app
    }

    /// The profiles that connect by themselves when the program starts.
    pub fn auto_connect_profiles(&self) -> (profiles: Vec<ConnectionProfile>)
        ensures
            views(profiles@) == self@.profiles.filter(|p: ConnectionProfileView| p.auto_connect),
    {
        let keep = |p: &ConnectionProfile| -> (r: bool)
            ensures
                r == p@.auto_connect,
            { p.auto_connect };
        keep_items(
            copy_list(&self.profiles),
            keep,
            Ghost(|p: ConnectionProfileView| p.auto_connect),
        )
    }
}

// ---------------------------------------------------------------------------
// Settings
// ---------------------------------------------------------------------------

impl AppView {
    /// What is kept of a state. `shown` holds the settings on how things look.
    pub open spec fn kept(self, shown: AppSettingsView) -> AppSettingsView {
        AppSettingsView {
            backend_type: BackendType::WeeChat,
            host: Seq::empty(),
            port: Seq::empty(),
            irc_nick: Seq::empty(),
            use_ssl: false,
            accept_invalid_certs: false,
            save_password: false,
            cleared_buffer_ids: Set::empty(),
            show_filtered_lines: self.show_filtered_lines,
            auto_reconnect: self.auto_reconnect,
            show_inline_images: self.show_inline_images,
            show_link_previews: self.show_link_previews,
            show_hidden_buffers: self.show_hidden_buffers,
            buffer_order: self.buffer_order,
            cleared_buffer_names: self.cleared_buffer_names,
            read_markers: self.read_markers,
            muted_buffer_names: self.muted_buffer_names,
            connections: self.profiles,
            file_share_duration: self.file_share_duration,
            collapsed_servers: self.collapsed_servers,
            last_chat_buffer_name: self.last_chat_buffer_name,
            ..shown
        }
    }
}

impl WeeChatApp {
    /// What is kept until the next run. `shown` holds the settings on how
    /// things look. Relay ids are not kept, nor are the fields of the older
    /// form.
    pub fn save(&self, shown: &AppSettings) -> (settings: AppSettings)
        ensures
            settings@ == self@.kept(shown@),
    {
        let settings = AppSettings {
            backend_type: BackendType::WeeChat,
            host: String::new(),
            port: String::new(),
            irc_nick: String::new(),
            use_ssl: false,
            show_filtered_lines: self.show_filtered_lines,
            colored_nicks: shown.colored_nicks,
            use_monospace: shown.use_monospace,
            show_timestamps: shown.show_timestamps,
            show_buffers: shown.show_buffers,
            show_nicklist: shown.show_nicklist,
            auto_reconnect: self.auto_reconnect,
            show_titlebar: shown.show_titlebar,
            show_server_headers: shown.show_server_headers,
            show_inline_images: self.show_inline_images,
            show_link_previews: self.show_link_previews,
            emoji_rendering: shown.emoji_rendering,
            show_hidden_buffers: self.show_hidden_buffers,
            buffer_order: clone_texts(&self.buffer_order),
            cleared_buffer_ids: TextSet::new(),
            cleared_buffer_names: self.cleared_buffer_names.clone(),
            read_markers: self.read_markers.copy(),
            save_password: false,
            font_name: shown.font_name.clone(),
            font_path: shown.font_path.clone(),
            muted_buffer_names: self.muted_buffer_names.clone(),
            show_toolbar: shown.show_toolbar,
            accept_invalid_certs: false,
            connections: copy_list(&self.profiles),
            prefix_align_max: shown.prefix_align_max,
            prefix_suffix: shown.prefix_suffix.clone(),
            file_share_duration: self.file_share_duration.clone(),
            collapsed_servers: self.collapsed_servers.clone(),
            adaptive_theme: shown.adaptive_theme,
            last_chat_buffer_name: clone_opt(&self.last_chat_buffer_name),
        };
        proof {
            assert(settings@.host =~= Seq::empty());
            assert(settings@.port =~= Seq::empty());
            assert(settings@.irc_nick =~= Seq::empty());
        }
        settings
    }
}

/// What is kept comes back at the next start: the profiles, the order of the
/// buffers, the read markers, the muted buffers, the collapsed servers, the
/// last conversation and the switches. Every buffer that counted as read, or
/// that has a read marker, counts as read.
pub proof fn settings_survive_a_restart(state: AppView, shown: AppSettingsView)
    ensures
        ({
            let again = started(state.kept(shown));
            &&& again.profiles == state.profiles
            &&& again.buffer_order == state.buffer_order
            &&& again.read_markers == state.read_markers
            &&& again.muted_buffer_names == state.muted_buffer_names
            &&& again.collapsed_servers == state.collapsed_servers
            &&& again.last_chat_buffer_name == state.last_chat_buffer_name
            &&& again.show_hidden_buffers == state.show_hidden_buffers
            &&& again.show_filtered_lines == state.show_filtered_lines
            &&& again.show_inline_images == state.show_inline_images
            &&& again.show_link_previews == state.show_link_previews
            &&& again.auto_reconnect == state.auto_reconnect
            &&& again.file_share_duration == state.file_share_duration
            &&& again.cleared_buffer_names == state.cleared_buffer_names.union(
                state.read_markers.dom(),
            )
        }),
{
}

/// Relay ids of an earlier run have no effect on a later one.
pub proof fn relay_ids_do_not_survive(settings: AppSettingsView, ids: Set<Seq<char>>)
    ensures
        started(AppSettingsView { cleared_buffer_ids: ids, ..settings }) == started(settings),
        started(settings).cleared_buffer_ids == Set::<Seq<char>>::empty(),
{
}

// ---------------------------------------------------------------------------
// Connecting
// ---------------------------------------------------------------------------

/// The port of the relay: 9001 where the profile gives no port.
pub open spec fn relay_port(port: Seq<char>) -> nat {
    match parse_unsigned(port, u16::MAX as nat) {
        Some(n) => n,
        None => 9001,
    }
}

pub fn relay_port_of(port: &str) -> (number: u16)
    ensures
        number == relay_port(port@),
{
    match parse_u64(port, u16::MAX as u64) {
        Some(n) => n as u16,
        None => 9001,
    }
}

/// What an SSH tunnel is started with.
#[derive(Debug)]
pub struct TunnelRequest {
    pub ssh_host: String,
    pub ssh_port: Option<u16>,
    pub ssh_user: String,
    pub password: Option<String>,
    pub host: String,
    pub port: u16,
}

pub ghost struct TunnelView {
    pub ssh_host: Seq<char>,
    pub ssh_port: Option<u16>,
    pub ssh_user: Seq<char>,
    pub password: Option<Seq<char>>,
    pub host: Seq<char>,
    pub port: u16,
}

impl View for TunnelRequest {
    type V = TunnelView;

    open spec fn view(&self) -> TunnelView {
        TunnelView {
            ssh_host: self.ssh_host@,
            ssh_port: self.ssh_port,
            ssh_user: self.ssh_user@,
            password: opt_text(self.password),
            host: self.host@,
            port: self.port,
        }
    }
}

/// Whether a profile asks for an SSH tunnel.
pub open spec fn wants_tunnel(profile: ConnectionProfileView) -> bool {
    profile.ssh_enabled && profile.ssh_host.len() > 0
}

/// The tunnel that a profile asks for. The password is that of this session,
/// or else the stored one, where the profile keeps it.
pub fn tunnel_request(
    profile: &ConnectionProfile,
    session: Option<String>,
    stored: Option<String>,
) -> (request: Option<TunnelRequest>)
    ensures
        match request {
            Some(r) => wants_tunnel(profile@) && r@ == (TunnelView {
                ssh_host: profile@.ssh_host,
                ssh_port: profile@.ssh_port,
                ssh_user: profile@.ssh_user,
                password: if session is Some {
                    opt_text(session)
                } else if profile@.ssh_save_password {
                    opt_text(stored)
                } else {
                    None
                },
                host: profile@.host,
                port: relay_port(profile@.port) as u16,
            }),
            None => !wants_tunnel(profile@),
        },
{
    if !profile.ssh_enabled || profile.ssh_host.as_str().is_empty() {
        return None;
    }
    let password = match session {
        Some(password) => Some(password),
        None => if profile.ssh_save_password {
            stored
        } else {
            None
        },
    };
    Some(
        TunnelRequest {
            ssh_host: profile.ssh_host.clone(),
            ssh_port: profile.ssh_port,
            ssh_user: profile.ssh_user.clone(),
            password,
            host: profile.host.clone(),
            port: relay_port_of(profile.port.as_str()),
        },
    )
}

/// What became of the SSH tunnel.
#[derive(Debug)]
pub enum TunnelOutcome {
    Unused,
    /// It listens on this local port.
    Started(u16),
    Failed(String),
}

/// What a client connects with.
#[derive(Debug)]
pub struct ClientConfig {
    pub backend_type: BackendType,
    pub label: String,
    pub host: String,
    pub port: u16,
    pub nick: String,
    pub username: String,
    pub sasl_username: String,
    pub password: String,
    pub use_ssl: bool,
    pub accept_invalid_certs: bool,
    pub channel: String,
    pub tunnel_port: Option<u16>,
    pub auto_reconnect: bool,
}

pub ghost struct ClientView {
    pub backend_type: BackendType,
    pub label: Seq<char>,
    pub host: Seq<char>,
    pub port: u16,
    pub nick: Seq<char>,
    pub username: Seq<char>,
    pub sasl_username: Seq<char>,
    pub password: Seq<char>,
    pub use_ssl: bool,
    pub accept_invalid_certs: bool,
    pub channel: Seq<char>,
    pub tunnel_port: Option<u16>,
    pub auto_reconnect: bool,
}

impl View for ClientConfig {
    type V = ClientView;

    open spec fn view(&self) -> ClientView {
        ClientView {
            backend_type: self.backend_type,
            label: self.label@,
            host: self.host@,
            port: self.port,
            nick: self.nick@,
            username: self.username@,
            sasl_username: self.sasl_username@,
            password: self.password@,
            use_ssl: self.use_ssl,
            accept_invalid_certs: self.accept_invalid_certs,
            channel: self.channel@,
            tunnel_port: self.tunnel_port,
            auto_reconnect: self.auto_reconnect,
        }
    }
}

/// The local port of a tunnel that a profile asked for and that runs.
pub open spec fn tunnel_port(profile: ConnectionProfileView, tunnel: TunnelOutcome) -> Option<u16> {
    match tunnel {
        TunnelOutcome::Started(port) if wants_tunnel(profile) => Some(port),
        _ => None,
    }
}

/// What the client of a profile connects with: directly, or to the near end of
/// the tunnel.
pub open spec fn client_config(
    profile: ConnectionProfileView,
    password: Seq<char>,
    tunnel: TunnelOutcome,
    auto_reconnect: bool,
) -> ClientView {
    let local = tunnel_port(profile, tunnel);
    ClientView {
        backend_type: profile.backend_type,
        label: profile.label,
        host: if local is Some {
            "127.0.0.1"@
        } else {
            profile.host
        },
        port: match local {
            Some(port) => port,
            None => relay_port(profile.port) as u16,
        },
        nick: if profile.nick.len() == 0 {
            "user"@
        } else {
            profile.nick
        },
        username: profile.username,
        sasl_username: profile.sasl_username,
        password,
        use_ssl: profile.use_ssl,
        accept_invalid_certs: profile.accept_invalid_certs,
        channel: profile.channel,
        tunnel_port: local,
        auto_reconnect: profile.auto_reconnect && auto_reconnect,
    }
}

/// What is noted about the tunnel.
pub open spec fn tunnel_note(profile: ConnectionProfileView, tunnel: TunnelOutcome) -> Option<
    Seq<char>,
> {
    if !wants_tunnel(profile) {
        None
    } else {
        match tunnel {
            TunnelOutcome::Unused => None,
            TunnelOutcome::Started(port) => Some(
                "SSH tunnel started: 127.0.0.1:"@ + decimal(port as nat) + " → "@ + profile.host
                    + ":"@ + decimal(relay_port(profile.port)),
            ),
            TunnelOutcome::Failed(error) => Some(
                "SSH tunnel failed to start: "@ + error@ + " — connecting directly"@,
            ),
        }
    }
}

pub open spec fn scheme(profile: ConnectionProfileView) -> Seq<char> {
    match profile.backend_type {
        BackendType::Soju => if profile.use_ssl {
            "ircs"@
        } else {
            "irc"@
        },
        BackendType::WeeChat => if profile.use_ssl {
            "wss"@
        } else {
            "ws"@
        },
    }
}

pub open spec fn endpoint(profile: ConnectionProfileView) -> Seq<char> {
    scheme(profile) + "://"@ + profile.host + ":"@ + decimal(relay_port(profile.port)) + (
    match profile.backend_type {
        BackendType::Soju => ""@,
        BackendType::WeeChat => "/api"@,
    })
}

/// The first entries of the log of a connection.
pub open spec fn first_log(
    profile: ConnectionProfileView,
    tunnel: TunnelOutcome,
    stamp: Seq<char>,
) -> Seq<Seq<char>> {
    let notes = match tunnel_note(profile, tunnel) {
        Some(note) => seq![log_entry(stamp, note)],
        None => Seq::empty(),
    };
    notes.push(log_entry(stamp, "Connecting to "@ + endpoint(profile))).push(
        log_entry(
            stamp,
            "SSL/TLS: "@ + (if profile.use_ssl {
                "enabled"@
            } else {
                "disabled"@
            }),
        ),
    )
}

/// A connection that is being opened.
pub open spec fn opening(
    profile: ConnectionProfileView,
    tunnel: TunnelOutcome,
    auto_reconnect: bool,
    stamp: Seq<char>,
) -> ConnectionView {
    ConnectionView {
        prefix: profile_prefix(profile.label),
        label: profile.label,
        backend_type: profile.backend_type,
        status: "Connecting..."@,
        is_connecting: true,
        connecting_pending: true,
        auth_error: None,
        auto_reconnect: profile.auto_reconnect && auto_reconnect,
        connection_log: first_log(profile, tunnel, stamp),
        tunnel_port: tunnel_port(profile, tunnel),
    }
}

impl AppView {
    /// The state after a connection was begun. A connection with the same
    /// prefix gives way to it.
    pub open spec fn connecting(
        self,
        profile: ConnectionProfileView,
        password: Seq<char>,
        tunnel: TunnelOutcome,
        stamp: Seq<char>,
    ) -> AppView {
        let prefix = profile_prefix(profile.label);
        AppView {
            connections: self.connections.filter(|c: ConnectionView| c.prefix != prefix).push(
                opening(profile, tunnel, self.auto_reconnect, stamp),
            ),
            session_passwords: if password.len() > 0 {
                self.session_passwords.insert(prefix, password)
            } else {
                self.session_passwords
            },
            selected_conn_log: if self.selected_conn_log is None {
                Some(prefix)
            } else {
                self.selected_conn_log
            },
            ..self
        }.log_touched()
    }
}

fn tunnel_port_of(profile: &ConnectionProfile, tunnel: &TunnelOutcome) -> (port: Option<u16>)
    ensures
        port == tunnel_port(profile@, *tunnel),
{
    if !profile.ssh_enabled || profile.ssh_host.as_str().is_empty() {
        return None;
    }
    match tunnel {
        TunnelOutcome::Started(port) => Some(*port),
        _ => None,
    }
}

fn tunnel_note_of(profile: &ConnectionProfile, tunnel: &TunnelOutcome) -> (note: Option<String>)
    ensures
        opt_text(note) == tunnel_note(profile@, *tunnel),
{
    if !profile.ssh_enabled || profile.ssh_host.as_str().is_empty() {
        return None;
    }
    match tunnel {
        TunnelOutcome::Unused => None,
        TunnelOutcome::Started(port) => {
            let local = u64_text(*port as u64);
            let far = u64_text(relay_port_of(profile.port.as_str()) as u64);
            let near = join3("SSH tunnel started: 127.0.0.1:", local.as_str(), " → ");
            let host = join3(near.as_str(), profile.host.as_str(), ":");
            Some(join2(host.as_str(), far.as_str()))
        },
        TunnelOutcome::Failed(error) => Some(
            join3("SSH tunnel failed to start: ", error.as_str(), " — connecting directly"),
        ),
    }
}

fn endpoint_of(profile: &ConnectionProfile) -> (text: String)
    ensures
        text@ == endpoint(profile@),
{
    let (scheme, path) = match profile.backend_type {
        BackendType::Soju => (if profile.use_ssl { "ircs" } else { "irc" }, ""),
        BackendType::WeeChat => (if profile.use_ssl { "wss" } else { "ws" }, "/api"),
    };
    let port = u64_text(relay_port_of(profile.port.as_str()) as u64);
    let host = join3(scheme, "://", profile.host.as_str());
    let address = join3(host.as_str(), ":", port.as_str());
    join2(address.as_str(), path)
}

fn log_entry_of(stamp: &str, message: &str) -> (text: String)
    ensures
        text@ == log_entry(stamp@, message@),
{
    let head = join3("[", stamp, "]  ");
    join2(head.as_str(), message)
}

fn first_log_of(profile: &ConnectionProfile, tunnel: &TunnelOutcome, stamp: &str) -> (log: VecDeque<
    String,
>)
    ensures
        texts(log@) == first_log(profile@, *tunnel, stamp@),
{
    let mut log: VecDeque<String> = VecDeque::new();
    match tunnel_note_of(profile, tunnel) {
        Some(note) => {
            log.push_back(log_entry_of(stamp, note.as_str()));
        },
        None => {},
    }
    let address = endpoint_of(profile);
    let first = join2("Connecting to ", address.as_str());
    log.push_back(log_entry_of(stamp, first.as_str()));
    let second = join2("SSL/TLS: ", if profile.use_ssl { "enabled" } else { "disabled" });
    log.push_back(log_entry_of(stamp, second.as_str()));
    assert(texts(log@) =~= first_log(profile@, *tunnel, stamp@));
    log
}

fn client_config_of(
    profile: &ConnectionProfile,
    password: &str,
    tunnel: &TunnelOutcome,
    auto_reconnect: bool,
) -> (config: ClientConfig)
    ensures
        config@ == client_config(profile@, password@, *tunnel, auto_reconnect),
{
    let local = tunnel_port_of(profile, tunnel);
    ClientConfig {
        backend_type: profile.backend_type,
        label: profile.label.clone(),
        host: match local {
            Some(_) => "127.0.0.1".to_owned(),
            None => profile.host.clone(),
        },
        port: match local {
            Some(port) => port,
            None => relay_port_of(profile.port.as_str()),
        },
        nick: if profile.nick.as_str().is_empty() {
            "user".to_owned()
        } else {
            profile.nick.clone()
        },
        username: profile.username.clone(),
        sasl_username: profile.sasl_username.clone(),
        password: password.to_owned(),
        use_ssl: profile.use_ssl,
        accept_invalid_certs: profile.accept_invalid_certs,
        channel: profile.channel.clone(),
        tunnel_port: local,
        auto_reconnect: profile.auto_reconnect && auto_reconnect,
    }
}

impl WeeChatApp {
    fn put_connection(&mut self, conn: ConnectionHandle)
        ensures
            final(self)@ == (AppView {
                connections: old(self)@.connections.filter(
                    |c: ConnectionView| c.prefix != conn@.prefix,
                ).push(conn@),
                ..old(self)@
            }),
            old(self).wf() ==> final(self).wf(),
    {
        let ghost before = self@;
        let mut all: Vec<ConnectionHandle> = Vec::new();
        core::mem::swap(&mut all, &mut self.connections);
        let prefix = conn.prefix.as_str();
        let keep = |c: &ConnectionHandle| -> (r: bool)
            ensures
                r == (c@.prefix != prefix@),
            { !same_text(c.prefix.as_str(), prefix) };
        let mut kept = keep_items(
            all,
            keep,
            Ghost(|c: ConnectionView| c.prefix != conn@.prefix),
        );
        let ghost others = kept@;
        kept.push(conn);
        assert(views(kept@) =~= views(others).push(conn@));
        self.connections = kept;
        assert(self@.buffers == before.buffers);
    }

    fn note_session(&mut self, prefix: &str, password: &str)
        ensures
            final(self)@ == (AppView {
                session_passwords: if password@.len() > 0 {
                    old(self)@.session_passwords.insert(prefix@, password@)
                } else {
                    old(self)@.session_passwords
                },
                selected_conn_log: if old(self)@.selected_conn_log is None {
                    Some(prefix@)
                } else {
                    old(self)@.selected_conn_log
                },
                ..old(self)@
            }),
            old(self).wf() ==> final(self).wf(),
    {
        let ghost before = self@;
        if !password.is_empty() {
            self.session_passwords.insert(prefix.to_owned(), password.to_owned());
        }
        if self.selected_conn_log.is_none() {
            self.selected_conn_log = Some(prefix.to_owned());
        }
        assert(self@.buffers == before.buffers);
    }

    /// Begins a connection with a profile, once its tunnel was started or
    /// failed to. A connection with the same prefix gives way to it, and the
    /// password is remembered for this session. The answer is what the client
    /// is to connect with.
    pub fn do_connect(
        &mut self,
        profile: &ConnectionProfile,
        password: &str,
        tunnel: &TunnelOutcome,
        clock: &Clock,
    ) -> (config: ClientConfig)
        ensures
            final(self)@ == old(self)@.connecting(profile@, password@, *tunnel, clock.hms@),
            config@ == client_config(profile@, password@, *tunnel, old(self)@.auto_reconnect),
            old(self).wf() ==> final(self).wf(),
    {
        let config = client_config_of(profile, password, tunnel, self.auto_reconnect);
        let prefix = profile.prefix();
        let conn = ConnectionHandle {
            prefix: prefix.clone(),
            label: profile.label.clone(),
            backend_type: profile.backend_type,
            status: "Connecting...".to_owned(),
            is_connecting: true,
            connecting_pending: true,
            auth_error: None,
            auto_reconnect: profile.auto_reconnect && self.auto_reconnect,
            connection_log: first_log_of(profile, tunnel, clock.hms.as_str()),
            tunnel_port: tunnel_port_of(profile, tunnel),
        };
        self.put_connection(conn);
        self.note_session(prefix.as_str(), password);
        self.touch_log();
        config
    }
}

/// After a connection was begun, exactly one connection has its prefix, and it
/// is the new one.
pub proof fn connecting_replaces_the_stale_connection(
    state: AppView,
    profile: ConnectionProfileView,
    password: Seq<char>,
    tunnel: TunnelOutcome,
    stamp: Seq<char>,
)
    ensures
        ({
            let after = state.connecting(profile, password, tunnel, stamp).connections;
            &&& after.len() > 0
            &&& after.last() == opening(profile, tunnel, state.auto_reconnect, stamp)
            &&& forall|i: int|
                0 <= i < after.len() - 1 ==> (#[trigger] after[i]).prefix != profile_prefix(
                    profile.label,
                )
        }),
{
    let p = |c: ConnectionView| c.prefix != profile_prefix(profile.label);
    let kept = state.connections.filter(p);
    assert forall|i: int| 0 <= i < kept.len() implies (#[trigger] kept[i]).prefix != profile_prefix(
        profile.label,
    ) by {
        state.connections.lemma_filter_pred(p, i);
    }
}

} // verus!
