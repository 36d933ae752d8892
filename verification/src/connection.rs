//! Connections: saved profiles, running connections and settings.
use vstd::prelude::*;
use std::collections::VecDeque;
use crate::collections::{TextMap, TextSet};
use crate::markers::{MarkerView, SavedReadMarker};
use crate::models::opt_view;
use crate::seqs::views;
use crate::text::{
    alphanumeric, chars_of, is_alphanumeric, join2, join3, lowercase, opt_text, same_text, text_of,
    texts, to_lowercase,
};

verus! {

#[derive(Debug, Clone, Copy, PartialEq, Eq, Structural)]
pub enum BackendType {
    WeeChat,
    Soju,
}

impl Default for BackendType {
    fn default() -> (kind: Self)
        ensures
            kind == BackendType::WeeChat,
    {
        BackendType::WeeChat
    }
}

/// A saved connection.
#[derive(Debug, PartialEq, Eq)]
pub struct ConnectionProfile {
    pub label: String,
    pub backend_type: BackendType,
    pub host: String,
    pub port: String,
    pub nick: String,
    pub username: String,
    pub sasl_username: String,
    pub use_ssl: bool,
    pub accept_invalid_certs: bool,
    pub auto_connect: bool,
    pub save_password: bool,
    pub channel: String,
    pub ssh_enabled: bool,
    pub ssh_host: String,
    pub ssh_port: Option<u16>,
    pub ssh_user: String,
    pub ssh_save_password: bool,
    pub auto_reconnect: bool,
}

pub ghost struct ConnectionProfileView {
    pub label: Seq<char>,
    pub backend_type: BackendType,
    pub host: Seq<char>,
    pub port: Seq<char>,
    pub nick: Seq<char>,
    pub username: Seq<char>,
    pub sasl_username: Seq<char>,
    pub use_ssl: bool,
    pub accept_invalid_certs: bool,
    pub auto_connect: bool,
    pub save_password: bool,
    pub channel: Seq<char>,
    pub ssh_enabled: bool,
    pub ssh_host: Seq<char>,
    pub ssh_port: Option<u16>,
    pub ssh_user: Seq<char>,
    pub ssh_save_password: bool,
    pub auto_reconnect: bool,
}

impl View for ConnectionProfile {
    type V = ConnectionProfileView;

    open spec fn view(&self) -> ConnectionProfileView {
        ConnectionProfileView {
            label: self.label@,
            backend_type: self.backend_type,
            host: self.host@,
            port: self.port@,
            nick: self.nick@,
            username: self.username@,
            sasl_username: self.sasl_username@,
            use_ssl: self.use_ssl,
            accept_invalid_certs: self.accept_invalid_certs,
            auto_connect: self.auto_connect,
            save_password: self.save_password,
            channel: self.channel@,
            ssh_enabled: self.ssh_enabled,
            ssh_host: self.ssh_host@,
            ssh_port: self.ssh_port,
            ssh_user: self.ssh_user@,
            ssh_save_password: self.ssh_save_password,
            auto_reconnect: self.auto_reconnect,
        }
    }
}

impl Clone for ConnectionProfile {
    fn clone(&self) -> (copy: Self)
        ensures
            copy@ == self@,
    {
        ConnectionProfile {
            label: self.label.clone(),
            backend_type: self.backend_type,
            host: self.host.clone(),
            port: self.port.clone(),
            nick: self.nick.clone(),
            username: self.username.clone(),
            sasl_username: self.sasl_username.clone(),
            use_ssl: self.use_ssl,
            accept_invalid_certs: self.accept_invalid_certs,
            auto_connect: self.auto_connect,
            save_password: self.save_password,
            channel: self.channel.clone(),
            ssh_enabled: self.ssh_enabled,
            ssh_host: self.ssh_host.clone(),
            ssh_port: self.ssh_port,
            ssh_user: self.ssh_user.clone(),
            ssh_save_password: self.ssh_save_password,
            auto_reconnect: self.auto_reconnect,
        }
    }
}


/// A character of a connection prefix.
pub open spec fn slug_char(c: char) -> char {
    if alphanumeric(c) || c == '-' {
        c
    } else {
        '_'
    }
}

/// A text as a connection prefix: everything but letters, digits and hyphens
/// becomes an underscore.
pub open spec fn slug(text: Seq<char>) -> Seq<char> {
    text.map_values(|c: char| slug_char(c))
}

pub open spec fn profile_prefix(label: Seq<char>) -> Seq<char> {
    if label.len() == 0 {
        "conn"@
    } else {
        slug(lowercase(label))
    }
}

pub fn slug_of(text: &str) -> (prefix: String)
    ensures
        prefix@ == slug(text@),
{
    let chars = chars_of(text);
    let mut out: Vec<char> = Vec::new();
    let mut i: usize = 0;
    while i < chars.len()
        invariant
            i <= chars@.len(),
            chars@ == text@,
            out@ == slug(text@).take(i as int),
        decreases chars@.len() - i,
    {
        let c: char = chars[i];
        out.push(if is_alphanumeric(c) || c == '-' { c } else { '_' });
        assert(out@ =~= slug(text@).take(i + 1));
        i = i + 1;
    }
    assert(slug(text@).take(i as int) =~= slug(text@));
    text_of(out.as_slice())
}

impl ConnectionProfile {
    /// A stable prefix for the buffers of this connection, safe in file names.
    pub fn prefix(&self) -> (prefix: String)
        ensures
            prefix@ == profile_prefix(self@.label),
            prefix@.len() > 0,
    {
        if self.label.as_str().is_empty() {
            proof {
                reveal_strlit("conn");
            }
            return "conn".to_owned();
        }
        let lowered = to_lowercase(self.label.as_str());
        slug_of(lowered.as_str())
    }

    /// The key of the relay password in the secure store.
    pub fn keyring_host_key(&self) -> (key: String)
        ensures
            key@ == self@.label + "@"@ + self@.host,
    {
        join3(self.label.as_str(), "@", self.host.as_str())
    }

    /// The key of the SSH password in the secure store.
    pub fn ssh_keyring_key(&self) -> (key: String)
        ensures
            key@ == "ssh:"@ + self@.label + "@"@ + self@.ssh_host,
    {
        let head = join3("ssh:", self.label.as_str(), "@");
        join2(head.as_str(), self.ssh_host.as_str())
    }
}

pub open spec fn default_profile() -> ConnectionProfileView {
    ConnectionProfileView {
        label: Seq::empty(),
        backend_type: BackendType::WeeChat,
        host: "localhost"@,
        port: "9001"@,
        nick: Seq::empty(),
        username: Seq::empty(),
        sasl_username: Seq::empty(),
        use_ssl: true,
        accept_invalid_certs: false,
        auto_connect: false,
        save_password: false,
        channel: Seq::empty(),
        ssh_enabled: false,
        ssh_host: Seq::empty(),
        ssh_port: None,
        ssh_user: Seq::empty(),
        ssh_save_password: false,
        auto_reconnect: true,
    }
}

impl Default for ConnectionProfile {
    fn default() -> (profile: Self)
        ensures
            profile@ == default_profile(),
    {
        ConnectionProfile {
            label: String::new(),
            backend_type: BackendType::WeeChat,
            host: "localhost".to_owned(),
            port: "9001".to_owned(),
            nick: String::new(),
            username: String::new(),
            sasl_username: String::new(),
            use_ssl: true,
            accept_invalid_certs: false,
            auto_connect: false,
            save_password: false,
            channel: String::new(),
            ssh_enabled: false,
            ssh_host: String::new(),
            ssh_port: None,
            ssh_user: String::new(),
            ssh_save_password: false,
            auto_reconnect: true,
        }
    }
}

/// A running connection.
#[derive(Debug)]
pub struct ConnectionHandle {
    pub prefix: String,
    pub label: String,
    pub backend_type: BackendType,
    pub status: String,
    pub is_connecting: bool,
    pub connecting_pending: bool,
    pub auth_error: Option<String>,
    pub auto_reconnect: bool,
    pub connection_log: VecDeque<String>,
    /// The local port of the SSH tunnel that the connection goes through.
    pub tunnel_port: Option<u16>,
}

pub ghost struct ConnectionView {
    pub prefix: Seq<char>,
    pub label: Seq<char>,
    pub backend_type: BackendType,
    pub status: Seq<char>,
    pub is_connecting: bool,
    pub connecting_pending: bool,
    pub auth_error: Option<Seq<char>>,
    pub auto_reconnect: bool,
    pub connection_log: Seq<Seq<char>>,
    pub tunnel_port: Option<u16>,
}

impl View for ConnectionHandle {
    type V = ConnectionView;

    open spec fn view(&self) -> ConnectionView {
        ConnectionView {
            prefix: self.prefix@,
            label: self.label@,
            backend_type: self.backend_type,
            status: self.status@,
            is_connecting: self.is_connecting,
            connecting_pending: self.connecting_pending,
            auth_error: opt_text(self.auth_error),
            auto_reconnect: self.auto_reconnect,
            connection_log: texts(self.connection_log@),
            tunnel_port: self.tunnel_port,
        }
    }
}

/// What is kept between two runs of the program.
#[derive(Debug)]
pub struct AppSettings {
    pub backend_type: BackendType,
    pub host: String,
    pub port: String,
    pub irc_nick: String,
    pub use_ssl: bool,
    pub show_filtered_lines: bool,
    pub colored_nicks: bool,
    pub use_monospace: bool,
    pub show_timestamps: bool,
    pub show_buffers: bool,
    pub show_nicklist: bool,
    pub auto_reconnect: bool,
    pub show_titlebar: bool,
    pub show_server_headers: bool,
    pub show_inline_images: bool,
    pub show_link_previews: bool,
    pub emoji_rendering: bool,
    pub show_hidden_buffers: bool,
    pub buffer_order: Vec<String>,
    /// Relay ids of an earlier run. They mean nothing after a restart.
    pub cleared_buffer_ids: TextSet,
    /// Buffers that the user has read, by their stable full names.
    pub cleared_buffer_names: TextSet,
    pub read_markers: TextMap<SavedReadMarker>,
    pub save_password: bool,
    pub font_name: String,
    pub font_path: String,
    pub muted_buffer_names: TextSet,
    pub show_toolbar: bool,
    pub accept_invalid_certs: bool,
    pub connections: Vec<ConnectionProfile>,
    pub prefix_align_max: usize,
    pub prefix_suffix: String,
    pub file_share_duration: String,
    pub collapsed_servers: TextSet,
    pub adaptive_theme: bool,
    pub last_chat_buffer_name: Option<String>,
}

pub ghost struct AppSettingsView {
    pub backend_type: BackendType,
    pub host: Seq<char>,
    pub port: Seq<char>,
    pub irc_nick: Seq<char>,
    pub use_ssl: bool,
    pub show_filtered_lines: bool,
    pub colored_nicks: bool,
    pub use_monospace: bool,
    pub show_timestamps: bool,
    pub show_buffers: bool,
    pub show_nicklist: bool,
    pub auto_reconnect: bool,
    pub show_titlebar: bool,
    pub show_server_headers: bool,
    pub show_inline_images: bool,
    pub show_link_previews: bool,
    pub emoji_rendering: bool,
    pub show_hidden_buffers: bool,
    pub buffer_order: Seq<Seq<char>>,
    pub cleared_buffer_ids: Set<Seq<char>>,
    pub cleared_buffer_names: Set<Seq<char>>,
    pub read_markers: Map<Seq<char>, MarkerView>,
    pub save_password: bool,
    pub font_name: Seq<char>,
    pub font_path: Seq<char>,
    pub muted_buffer_names: Set<Seq<char>>,
    pub show_toolbar: bool,
    pub accept_invalid_certs: bool,
    pub connections: Seq<ConnectionProfileView>,
    pub prefix_align_max: usize,
    pub prefix_suffix: Seq<char>,
    pub file_share_duration: Seq<char>,
    pub collapsed_servers: Set<Seq<char>>,
    pub adaptive_theme: bool,
    pub last_chat_buffer_name: Option<Seq<char>>,
}

impl View for AppSettings {
    type V = AppSettingsView;

    open spec fn view(&self) -> AppSettingsView {
        AppSettingsView {
            backend_type: self.backend_type,
            host: self.host@,
            port: self.port@,
            irc_nick: self.irc_nick@,
            use_ssl: self.use_ssl,
            show_filtered_lines: self.show_filtered_lines,
            colored_nicks: self.colored_nicks,
            use_monospace: self.use_monospace,
            show_timestamps: self.show_timestamps,
            show_buffers: self.show_buffers,
            show_nicklist: self.show_nicklist,
            auto_reconnect: self.auto_reconnect,
            show_titlebar: self.show_titlebar,
            show_server_headers: self.show_server_headers,
            show_inline_images: self.show_inline_images,
            show_link_previews: self.show_link_previews,
            emoji_rendering: self.emoji_rendering,
            show_hidden_buffers: self.show_hidden_buffers,
            buffer_order: texts(self.buffer_order@),
            cleared_buffer_ids: self.cleared_buffer_ids@,
            cleared_buffer_names: self.cleared_buffer_names@,
            read_markers: self.read_markers@,
            save_password: self.save_password,
            font_name: self.font_name@,
            font_path: self.font_path@,
            muted_buffer_names: self.muted_buffer_names@,
            show_toolbar: self.show_toolbar,
            accept_invalid_certs: self.accept_invalid_certs,
            connections: views(self.connections@),
            prefix_align_max: self.prefix_align_max,
            prefix_suffix: self.prefix_suffix@,
            file_share_duration: self.file_share_duration@,
            collapsed_servers: self.collapsed_servers@,
            adaptive_theme: self.adaptive_theme,
            last_chat_buffer_name: opt_text(self.last_chat_buffer_name),
        }
    }
}


pub fn default_true() -> (value: bool)
    ensures
        value,
{
    true
}

pub fn default_prefix_suffix() -> (suffix: String)
    ensures
        suffix@ == "│"@,
{
    "│".to_owned()
}

pub fn default_file_share_duration() -> (duration: String)
    ensures
        duration@ == "24h"@,
{
    "24h".to_owned()
}

pub open spec fn default_settings() -> AppSettingsView {
    AppSettingsView {
        backend_type: BackendType::WeeChat,
        host: "localhost"@,
        port: "9001"@,
        irc_nick: Seq::empty(),
        use_ssl: true,
        show_filtered_lines: false,
        colored_nicks: true,
        use_monospace: true,
        show_timestamps: true,
        show_buffers: true,
        show_nicklist: true,
        auto_reconnect: true,
        show_titlebar: true,
        show_server_headers: true,
        show_inline_images: true,
        show_link_previews: true,
        emoji_rendering: false,
        show_hidden_buffers: false,
        buffer_order: Seq::empty(),
        cleared_buffer_ids: Set::empty(),
        cleared_buffer_names: Set::empty(),
        read_markers: Map::empty(),
        save_password: false,
        font_name: Seq::empty(),
        font_path: Seq::empty(),
        muted_buffer_names: Set::empty(),
        show_toolbar: true,
        accept_invalid_certs: false,
        connections: Seq::empty(),
        prefix_align_max: 0,
        prefix_suffix: "│"@,
        file_share_duration: "24h"@,
        collapsed_servers: Set::empty(),
        adaptive_theme: false,
        last_chat_buffer_name: None,
    }
}

impl Default for AppSettings {
    fn default() -> (settings: Self)
        ensures
            settings@ == default_settings(),
    {
        let settings = AppSettings {
            backend_type: BackendType::WeeChat,
            host: "localhost".to_owned(),
            port: "9001".to_owned(),
            irc_nick: String::new(),
            use_ssl: true,
            show_filtered_lines: false,
            colored_nicks: true,
            use_monospace: true,
            show_timestamps: true,
            show_buffers: true,
            show_nicklist: true,
            auto_reconnect: true,
            show_titlebar: true,
            show_server_headers: true,
            show_inline_images: true,
            show_link_previews: true,
            emoji_rendering: false,
            show_hidden_buffers: false,
            buffer_order: Vec::new(),
            cleared_buffer_ids: TextSet::new(),
            cleared_buffer_names: TextSet::new(),
            read_markers: TextMap::new(),
            save_password: false,
            font_name: String::new(),
            font_path: String::new(),
            muted_buffer_names: TextSet::new(),
            show_toolbar: true,
            accept_invalid_certs: false,
            connections: Vec::new(),
            prefix_align_max: 0,
            prefix_suffix: "│".to_owned(),
            file_share_duration: "24h".to_owned(),
            collapsed_servers: TextSet::new(),
            adaptive_theme: false,
            last_chat_buffer_name: None,
        };
        assert(settings@.connections =~= Seq::empty());
        assert(settings@.buffer_order =~= Seq::empty());
        settings
    }
}

/// The profile of a single connection that settings of an older form describe.
pub open spec fn legacy_profile(settings: AppSettingsView) -> Option<ConnectionProfileView> {
    let configured = settings.host != "localhost"@ || settings.port != "9001"@ || !settings.use_ssl
        || settings.accept_invalid_certs || settings.save_password || settings.irc_nick.len() > 0;
    if settings.connections.len() > 0 || settings.host.len() == 0 || !configured {
        None
    } else {
        Some(
            ConnectionProfileView {
                label: settings.host,
                backend_type: settings.backend_type,
                host: settings.host,
                port: settings.port,
                nick: settings.irc_nick,
                username: Seq::empty(),
                sasl_username: Seq::empty(),
                use_ssl: settings.use_ssl,
                accept_invalid_certs: settings.accept_invalid_certs,
                auto_connect: true,
                save_password: settings.save_password,
                channel: Seq::empty(),
                ssh_enabled: false,
                ssh_host: Seq::empty(),
                ssh_port: None,
                ssh_user: Seq::empty(),
                ssh_save_password: false,
                auto_reconnect: settings.auto_reconnect,
            },
        )
    }
}

/// The profile of a single connection that settings of an older form describe.
/// There is none where profiles are saved already, or where nothing differs
/// from the defaults.
pub fn migrate_legacy_profile(settings: &AppSettings) -> (profile: Option<ConnectionProfile>)
    ensures
        opt_view(profile) == legacy_profile(settings@),
{
    if settings.connections.len() > 0 || settings.host.as_str().is_empty() {
        return None;
    }
    let defaults = AppSettings::default();
    let configured = !same_text(settings.host.as_str(), defaults.host.as_str()) || !same_text(
        settings.port.as_str(),
        defaults.port.as_str(),
    ) || settings.use_ssl != defaults.use_ssl || settings.accept_invalid_certs
        != defaults.accept_invalid_certs || settings.save_password
        || !settings.irc_nick.as_str().is_empty();
    if !configured {
        return None;
    }
    Some(
        ConnectionProfile {
            label: settings.host.clone(),
            backend_type: settings.backend_type,
            host: settings.host.clone(),
            port: settings.port.clone(),
            nick: settings.irc_nick.clone(),
            username: String::new(),
            sasl_username: String::new(),
            use_ssl: settings.use_ssl,
            accept_invalid_certs: settings.accept_invalid_certs,
            auto_connect: true,
            save_password: settings.save_password,
            channel: String::new(),
            ssh_enabled: false,
            ssh_host: String::new(),
            ssh_port: None,
            ssh_user: String::new(),
            ssh_save_password: false,
            auto_reconnect: settings.auto_reconnect,
        },
    )
}

/// The buffers that count as read when the program starts. A saved read marker
/// exists only where the user has been, so its buffer counts too.
pub fn restored_cleared_buffer_names(settings: &AppSettings) -> (names: TextSet)
    ensures
        names@ == settings@.cleared_buffer_names.union(settings@.read_markers.dom()),
{
    let mut names = settings.cleared_buffer_names.clone();
    let marked = settings.read_markers.keys();
    let mut i: usize = 0;
    assert(texts(marked@).take(0).to_set() =~= Set::empty());
    assert(names@ =~= settings@.cleared_buffer_names.union(texts(marked@).take(0).to_set()));
    while i < marked.len()
        invariant
            i <= marked@.len(),
            names@ == settings@.cleared_buffer_names.union(
                texts(marked@).take(i as int).to_set(),
            ),
        decreases marked@.len() - i,
    {
        names.insert(marked[i].clone());
        proof {
            let before = texts(marked@).take(i as int);
            let after = texts(marked@).take(i + 1);
            assert(after =~= before.push(marked@[i as int]@));
            assert(after.to_set() =~= before.to_set().insert(marked@[i as int]@)) by {
                assert forall|t: Seq<char>|
                    before.to_set().insert(marked@[i as int]@).contains(t) implies after.contains(
                    t,
                ) by {
                    if t == marked@[i as int]@ {
                        assert(after[i as int] == t);
                    } else {
                        let k = choose|k: int| 0 <= k < before.len() && before[k] == t;
                        assert(after[k] == t);
                    }
                }
            }
            assert(names@ =~= settings@.cleared_buffer_names.union(after.to_set()));
        }
        i = i + 1;
    }
    assert(texts(marked@).take(i as int) =~= texts(marked@));
    names
}

} // verus!
