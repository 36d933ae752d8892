//! Profiles, connections and settings.
use vstd::prelude::*;
use crate::backend::BackendEvent;
use crate::connection::{
    legacy_profile, profile_prefix, slug, AppSettingsView, ConnectionProfileView, ConnectionView,
};
use crate::laws::texts::written_numbers_are_read_back;
use crate::secure_storage::{found, LoadView};
use crate::session::log_entry;
use crate::startup::{client_config, endpoint, opening, relay_port, started, TunnelOutcome};
use crate::state::{connection_place, ActionView, AppView, Clock};
use crate::text::{all_digits, alphanumeric, contains, decimal};

verus! {

/// A client goes to the host of its profile, with the port, the names, the
/// password and the encryption that belong to it.
pub proof fn clients_follow_their_profile(
    profile: ConnectionProfileView,
    password: Seq<char>,
    tunnel: TunnelOutcome,
    auto_reconnect: bool,
)
    ensures
        ({
            let config = client_config(profile, password, tunnel, auto_reconnect);
            &&& profile.nick.len() > 0 ==> config.nick == profile.nick
            &&& profile.nick.len() == 0 ==> config.nick == "user"@
            &&& config.username == profile.username
            &&& config.sasl_username == profile.sasl_username
            &&& config.password == password
            &&& config.label == profile.label
            &&& config.backend_type == profile.backend_type
            &&& config.use_ssl == profile.use_ssl
            &&& config.accept_invalid_certs == profile.accept_invalid_certs
            &&& config.channel == profile.channel
            &&& config.auto_reconnect <==> profile.auto_reconnect && auto_reconnect
            &&& !(tunnel is Started) || !profile.ssh_enabled || profile.ssh_host.len() == 0 ==> {
                &&& config.host == profile.host
                &&& config.port == relay_port(profile.port)
                &&& config.tunnel_port is None
            }
            &&& tunnel is Started && profile.ssh_enabled && profile.ssh_host.len() > 0 ==> {
                &&& config.host == "127.0.0.1"@
                &&& config.port == tunnel->Started_0
                &&& config.tunnel_port == Some(tunnel->Started_0)
            }
        }),
{
    lemma_port(profile.port);
}

/// Profiles with different nicks connect under different nicks.
pub proof fn different_nicks_stay_different(
    profile: ConnectionProfileView,
    other: ConnectionProfileView,
    password: Seq<char>,
    tunnel: TunnelOutcome,
    auto_reconnect: bool,
)
    requires
        profile.nick.len() > 0,
        other.nick.len() > 0,
        profile.nick != other.nick,
    ensures
        client_config(profile, password, tunnel, auto_reconnect).nick != client_config(
            other,
            password,
            tunnel,
            auto_reconnect,
        ).nick,
{
}

proof fn lemma_port(port: Seq<char>)
    ensures
        relay_port(port) <= u16::MAX,
{
}

/// A port that is written down is the port that is used, and 9001 is used
/// where none can be read.
pub proof fn written_ports_are_used(n: nat, text: Seq<char>)
    ensures
        n <= 65535 ==> relay_port(decimal(n)) == n,
        text.len() == 0 ==> relay_port(text) == 9001,
        text.len() > 0 && text[0] != '+' && !all_digits(text) ==> relay_port(text) == 9001,
{
    written_numbers_are_read_back(n);
}

/// A new connection carries the name of its profile, is being opened, and says
/// in its log where it leads.
pub proof fn new_connections_are_being_opened(
    state: AppView,
    profile: ConnectionProfileView,
    password: Seq<char>,
    tunnel: TunnelOutcome,
    stamp: Seq<char>,
)
    ensures
        ({
            let after = state.connecting(profile, password, tunnel, stamp);
            let c = after.connections.last();
            &&& after.connections.len() > 0
            &&& c.label == profile.label && c.backend_type == profile.backend_type
            &&& c.prefix == profile_prefix(profile.label)
            &&& c.is_connecting && c.connecting_pending && c.auth_error is None
            &&& c.status == "Connecting..."@
            &&& c.auto_reconnect <==> profile.auto_reconnect && state.auto_reconnect
            &&& c.connection_log.contains(
                "["@ + stamp + "]  "@ + ("Connecting to "@ + endpoint(profile)),
            )
            &&& profile.use_ssl ==> c.connection_log.contains(
                "["@ + stamp + "]  "@ + ("SSL/TLS: "@ + "enabled"@),
            )
            &&& !profile.use_ssl ==> c.connection_log.contains(
                "["@ + stamp + "]  "@ + ("SSL/TLS: "@ + "disabled"@),
            )
            &&& password.len() > 0 ==> after.session_passwords.contains_key(c.prefix)
                && after.session_passwords[c.prefix] == password
            &&& after.buffers == state.buffers && after.profiles == state.profiles
            &&& state.selected_conn_log is None ==> after.selected_conn_log == Some(c.prefix)
            &&& state.selected_conn_log is Some ==> after.selected_conn_log
                == state.selected_conn_log
        }),
{
    let c = opening(profile, tunnel, state.auto_reconnect, stamp);
    let log = c.connection_log;
    assert(log[log.len() - 2] == "["@ + stamp + "]  "@ + ("Connecting to "@ + endpoint(profile)));
    assert(log[log.len() - 1] == "["@ + stamp + "]  "@ + ("SSL/TLS: "@ + (if profile.use_ssl {
        "enabled"@
    } else {
        "disabled"@
    })));
}

/// The address in the log names the protocol, the host and the port.
pub proof fn addresses_name_host_and_port(profile: ConnectionProfileView)
    ensures
        ({
            let place = "://"@ + profile.host + ":"@ + decimal(relay_port(profile.port));
            &&& profile.backend_type is WeeChat && profile.use_ssl ==> endpoint(profile) == "wss"@
                + place + "/api"@
            &&& profile.backend_type is WeeChat && !profile.use_ssl ==> endpoint(profile) == "ws"@
                + place + "/api"@
            &&& profile.backend_type is Soju && profile.use_ssl ==> endpoint(profile) == "ircs"@
                + place
            &&& profile.backend_type is Soju && !profile.use_ssl ==> endpoint(profile) == "irc"@
                + place
        }),
{
    let place = "://"@ + profile.host + ":"@ + decimal(relay_port(profile.port));
    reveal_strlit("");
    assert("wss"@ + "://"@ + profile.host + ":"@ + decimal(relay_port(profile.port)) + "/api"@
        =~= "wss"@ + place + "/api"@);
    assert("ws"@ + "://"@ + profile.host + ":"@ + decimal(relay_port(profile.port)) + "/api"@
        =~= "ws"@ + place + "/api"@);
    assert("ircs"@ + "://"@ + profile.host + ":"@ + decimal(relay_port(profile.port)) + ""@
        =~= "ircs"@ + place);
    assert("irc"@ + "://"@ + profile.host + ":"@ + decimal(relay_port(profile.port)) + ""@
        =~= "irc"@ + place);
}

/// Letters, digits and hyphens of a name stay in a prefix; everything else
/// becomes an underscore, so that no prefix holds a slash.
pub proof fn prefixes_are_safe_names(text: Seq<char>, i: int)
    requires
        0 <= i < text.len(),
    ensures
        slug(text).len() == text.len(),
        alphanumeric(text[i]) || text[i] == '-' ==> slug(text)[i] == text[i],
        !alphanumeric(text[i]) && text[i] != '-' ==> slug(text)[i] == '_',
{
}

/// A password that the store gave under the key of a profile is used; one kept
/// under host and port only where there is no other.
pub proof fn found_passwords_are_given(password: Seq<char>, error: Seq<char>)
    ensures
        found(LoadView::Found(password)) == Some(password),
        found(LoadView::Missing) is None,
        found(LoadView::Unavailable(error)) is None,
{
}

/// Settings of an older kind become one profile that says what they said, but
/// only where there are no profiles and the user had set something.
pub proof fn older_settings_become_a_profile(settings: AppSettingsView)
    ensures
        match legacy_profile(settings) {
            Some(p) => {
                &&& settings.connections.len() == 0 && settings.host.len() > 0
                &&& p.host == settings.host && p.label == settings.host
                &&& p.port == settings.port && p.nick == settings.irc_nick
                &&& p.use_ssl == settings.use_ssl
                &&& p.accept_invalid_certs == settings.accept_invalid_certs
                &&& p.backend_type == settings.backend_type
                &&& p.save_password == settings.save_password
                &&& p.auto_reconnect == settings.auto_reconnect
                &&& p.auto_connect && !p.ssh_enabled
            },
            None => settings.connections.len() > 0 || settings.host.len() == 0 || settings.host
                == "localhost"@ && settings.port == "9001"@ && settings.use_ssl,
        },
        settings.connections.len() > 0 ==> legacy_profile(settings) is None,
        settings.connections.len() == 0 && settings.host.len() > 0 && (settings.host
            != "localhost"@ || settings.port != "9001"@ || settings.irc_nick.len() > 0)
            ==> legacy_profile(settings) is Some,
{
}

/// The program begins with what its settings say, field by field.
pub proof fn the_program_begins_as_set(settings: AppSettingsView)
    ensures
        ({
            let state = started(settings);
            &&& state.show_hidden_buffers == settings.show_hidden_buffers
            &&& state.show_filtered_lines == settings.show_filtered_lines
            &&& state.show_inline_images == settings.show_inline_images
            &&& state.show_link_previews == settings.show_link_previews
            &&& state.auto_reconnect == settings.auto_reconnect
            &&& state.buffer_order == settings.buffer_order
            &&& state.read_markers == settings.read_markers
            &&& state.muted_buffer_names == settings.muted_buffer_names
            &&& state.collapsed_servers == settings.collapsed_servers
            &&& state.file_share_duration == settings.file_share_duration
            &&& state.last_chat_buffer_name == settings.last_chat_buffer_name
            &&& settings.connections.len() > 0 ==> state.profiles == settings.connections
            &&& forall|name: Seq<char>| #[trigger]
                state.cleared_buffer_names.contains(name)
                    <==> settings.cleared_buffer_names.contains(name)
                    || settings.read_markers.contains_key(name)
            &&& state.buffers.len() == 0 && state.connections.len() == 0 && state.outbox.len() == 0
            &&& state.selected_buffer_id is None && state.input_text.len() == 0
            &&& state.open_thread_buffer_id is None && !state.file_share_uploading
        }),
{
}

/// What is written down is what the program holds, field by field, and what the
/// window shows stays as it is shown.
pub proof fn the_program_is_written_down(state: AppView, shown: AppSettingsView)
    ensures
        ({
            let kept = state.kept(shown);
            &&& kept.show_hidden_buffers == state.show_hidden_buffers
            &&& kept.show_filtered_lines == state.show_filtered_lines
            &&& kept.show_inline_images == state.show_inline_images
            &&& kept.show_link_previews == state.show_link_previews
            &&& kept.auto_reconnect == state.auto_reconnect
            &&& kept.buffer_order == state.buffer_order
            &&& kept.read_markers == state.read_markers
            &&& kept.cleared_buffer_names == state.cleared_buffer_names
            &&& kept.muted_buffer_names == state.muted_buffer_names
            &&& kept.collapsed_servers == state.collapsed_servers
            &&& kept.file_share_duration == state.file_share_duration
            &&& kept.last_chat_buffer_name == state.last_chat_buffer_name
            &&& kept.connections == state.profiles
            &&& kept.colored_nicks == shown.colored_nicks
            &&& kept.use_monospace == shown.use_monospace
            &&& kept.show_timestamps == shown.show_timestamps
            &&& kept.show_buffers == shown.show_buffers
            &&& kept.show_nicklist == shown.show_nicklist
            &&& kept.show_titlebar == shown.show_titlebar
            &&& kept.show_server_headers == shown.show_server_headers
            &&& kept.emoji_rendering == shown.emoji_rendering
            &&& kept.show_toolbar == shown.show_toolbar
            &&& kept.font_name == shown.font_name && kept.font_path == shown.font_path
            &&& kept.prefix_align_max == shown.prefix_align_max
            &&& kept.prefix_suffix == shown.prefix_suffix
            &&& kept.adaptive_theme == shown.adaptive_theme
        }),
{
}

/// The connection with a prefix, as its events find it.
pub open spec fn connection_at(state: AppView, prefix: Seq<char>, i: int) -> bool {
    &&& 0 <= i < state.connections.len()
    &&& state.connections[i].prefix == prefix
    &&& forall|j: int| 0 <= j < i ==> (#[trigger] state.connections[j]).prefix != prefix
}

proof fn lemma_connection_at(state: AppView, prefix: Seq<char>, i: int)
    requires
        connection_at(state, prefix, i),
    ensures
        connection_place(state.connections, prefix) == Some(i),
{
    let p = |c: ConnectionView| c.prefix == prefix;
    crate::seqs::lemma_first_from(state.connections, p, 0);
    assert(p(state.connections[i]));
    let k = crate::seqs::first_index(state.connections, p)->0;
    if k < i {
        assert(state.connections[k].prefix != prefix);
    }
}

/// A connection that came up says so, forgets its errors, and asks for the
/// buffers of the server.
pub proof fn connected_connections_say_so(state: AppView, prefix: Seq<char>, clock: Clock, i: int)
    requires
        connection_at(state, prefix, i),
    ensures
        ({
            let after = state.handling(prefix, BackendEvent::Connected, clock);
            let c = after.connections[i];
            &&& c.status == "Connected"@ && !c.is_connecting && !c.connecting_pending
            &&& c.auth_error is None
            &&& after.outbox == state.outbox.push(
                ActionView::FetchBufferList { conn: prefix },
            ).push(ActionView::SyncSubscriptions { conn: prefix })
        }),
{
    lemma_connection_at(state, prefix, i);
    let came = state.changing_connection(prefix, |c: ConnectionView| c.connected(clock.hm@));
    let dropped = came.buffers_dropped(prefix).cleared_ids_dropped(prefix);
    assert(dropped.connections[i].prefix == prefix);
    assert(connection_at(dropped, prefix, i));
    lemma_connection_at(dropped, prefix, i);
}

/// A connection that ended says so. One that had not come up yet says that it
/// was refused; one that had is no longer connected.
pub proof fn ended_connections_say_so(state: AppView, prefix: Seq<char>, clock: Clock, i: int)
    requires
        connection_at(state, prefix, i),
    ensures
        ({
            let before = state.connections[i];
            let c = state.handling(prefix, BackendEvent::Disconnected, clock).connections[i];
            &&& !c.is_connecting
            &&& before.connecting_pending ==> c.auth_error is Some && !c.connecting_pending
                && c.status.len() == 0
            &&& !before.connecting_pending ==> c.status == "Disconnected"@ && c.auth_error
                == before.auth_error
        }),
{
    lemma_connection_at(state, prefix, i);
}

/// An error is told with its own words, and a refused password as such.
pub proof fn errors_are_told(
    state: AppView,
    prefix: Seq<char>,
    error: String,
    clock: Clock,
    i: int,
)
    requires
        connection_at(state, prefix, i),
    ensures
        ({
            let before = state.connections[i];
            let c = state.handling(prefix, BackendEvent::Error(error), clock).connections[i];
            let d = state.handling(prefix, BackendEvent::AuthError(error), clock).connections[i];
            &&& c == d
            &&& !before.connecting_pending ==> c.status == "Error: "@ + error@
            &&& before.connecting_pending && (contains(error@, "401"@) || contains(error@, "403"@))
                ==> c.auth_error == Some(
                "Wrong password or relay not configured to accept this connection."@,
            )
            &&& before.connecting_pending && c.auth_error != Some(
                "Wrong password or relay not configured to accept this connection."@,
            ) ==> c.auth_error == Some("Connection failed: "@ + error@)
            &&& before.connecting_pending ==> !c.connecting_pending
        }),
{
    lemma_connection_at(state, prefix, i);
}

/// What is logged stands at the end of the log of its connection, behind the
/// time.
pub proof fn logs_end_with_what_was_logged(
    state: AppView,
    prefix: Seq<char>,
    message: String,
    clock: Clock,
    i: int,
)
    requires
        connection_at(state, prefix, i),
    ensures
        ({
            let after = state.handling(prefix, BackendEvent::ConnLog(message), clock);
            let log = after.connections[i].connection_log;
            &&& log.len() > 0
            &&& log.last() == "["@ + clock.hms@ + "]  "@ + message@
            &&& after.buffers == state.buffers && after.outbox == state.outbox
            &&& !state.show_connection_log ==> after.connection_log_unread
            &&& forall|j: int|
                0 <= j < state.connections.len() && j != i ==> (#[trigger] after.connections[j])
                    == state.connections[j]
        }),
{
    lemma_connection_at(state, prefix, i);
    let entry = log_entry(clock.hms@, message@);
    let long = state.connections[i].connection_log.push(entry);
    assert(long.last() == entry);
    assert(long.len() > crate::state::MAX_LOG_ENTRIES ==> long.skip(1).last() == entry);
}

} // verus!
