//! Server configuration and the decisions around starting and stopping.

use vstd::prelude::*;

use crate::text::{chars_of, decimal, decimal_text, digits_value, law_decimal_is_read_back};

verus! {

/// The name of the daemon's socket inside its runtime directory.
pub const SOCKET_NAME: &'static str = "ctermd.sock";

/// What every Windows named pipe starts with.
pub const PIPE_PREFIX: &'static str = "\\\\.\\pipe\\";

/// Server configuration
#[derive(Debug, PartialEq, Eq)]
pub struct ServerConfig {
    /// Use TCP instead of Unix socket
    pub use_tcp: bool,
    /// TCP bind address (default: 127.0.0.1)
    pub bind_addr: String,
    /// TCP port (default: 50051)
    pub port: u16,
    /// Unix socket path
    pub socket_path: String,
    /// Stable logical identity reported to clients during the handshake.
    pub identity: String,
    /// Default scrollback lines for new sessions
    pub scrollback_lines: usize,
    /// Run in foreground (don't daemonize)
    pub foreground: bool,
}

impl ServerConfig {
    /// The defaults, with the socket at the given path.
    pub open spec fn is_default_at(&self, socket_path: Seq<char>) -> bool {
        &&& !self.use_tcp
        &&& self.bind_addr@ == "127.0.0.1"@
        &&& self.port == 50051
        &&& self.socket_path@ == socket_path
        &&& self.identity@ == "cterm"@
        &&& self.scrollback_lines == 10000
        &&& !self.foreground
    }

    /// The default configuration for a socket path.
    pub fn for_socket(socket_path: String) -> (config: ServerConfig)
        ensures
            config.is_default_at(socket_path@),
    {
        ServerConfig {
            use_tcp: false,
            bind_addr: "127.0.0.1".to_owned(),
            port: 50051,
            socket_path,
            identity: "cterm".to_owned(),
            scrollback_lines: 10000,
            foreground: false,
        }
    }

    /// The address that a TCP server binds to: `<address>:<port>`.
    pub fn tcp_endpoint(&self) -> (endpoint: String)
        ensures
            endpoint@ == endpoint_text(self.bind_addr@, self.port as nat),
    {
        let port = decimal_text(self.port as u64);
        self.bind_addr.clone().concat(":").concat(port.as_str())
    }
}

impl Default for ServerConfig {
    /// The default configuration, with the socket under its plain name.
    fn default() -> (config: Self)
        ensures
            config.is_default_at(SOCKET_NAME@),
    {
        ServerConfig::for_socket(SOCKET_NAME.to_owned())
    }
}

/// The address that a TCP server binds to.
pub open spec fn endpoint_text(address: Seq<char>, port: nat) -> Seq<char> {
    address + ":"@ + decimal(port)
}

/// An endpoint is its address, a colon and its port in decimal, from which the port is
/// read back.
pub proof fn law_endpoints_name_address_and_port(address: Seq<char>, port: nat)
    ensures
        endpoint_text(address, port).take(address.len() as int) == address,
        endpoint_text(address, port)[address.len() as int] == ':',
        digits_value(endpoint_text(address, port).skip(address.len() + 1int)) == port,
{
    reveal_strlit(":");
    law_decimal_is_read_back(port);
    assert(endpoint_text(address, port).take(address.len() as int) =~= address);
    assert(endpoint_text(address, port).skip(address.len() + 1int) =~= decimal(port));
}

/// A server listens at its socket and not over TCP, keeps ten thousand lines, runs in the
/// background and is called `cterm` unless it is told otherwise; over TCP it would listen
/// on this machine alone.
pub proof fn law_servers_are_local_by_default(config: ServerConfig, socket_path: Seq<char>)
    requires
        config.is_default_at(socket_path),
    ensures
        !config.use_tcp,
        !config.foreground,
        config.socket_path@ == socket_path,
        config.identity@ == "cterm"@,
        config.scrollback_lines == 10_000,
        endpoint_text(config.bind_addr@, config.port as nat) == "127.0.0.1:50051"@,
{
    reveal_strlit("127.0.0.1");
    reveal_strlit(":");
    reveal_strlit("127.0.0.1:50051");
    reveal_with_fuel(decimal, 6);
    assert(decimal(50051) =~= seq!['5', '0', '0', '5', '1']);
    assert(endpoint_text(config.bind_addr@, config.port as nat) =~= "127.0.0.1:50051"@);
}

/// What to do about the socket path before binding it.
#[derive(Debug, Clone, Copy, PartialEq, Eq, Structural)]
pub enum SocketStartup {
    /// Nothing is there.
    Bind,
    /// A socket is there that nobody answers: remove it and bind.
    RemoveStale,
    /// Another daemon answers there.
    Refuse,
}

/// Whether a socket is stale: nothing answers on it. The answer is authoritative,
/// whatever a leftover PID file claims.
pub fn is_socket_stale(answered: bool) -> (stale: bool)
    ensures
        stale == !answered,
{
    !answered
}

/// What to do about the socket path before binding it.
pub open spec fn startup_of(exists: bool, answered: bool) -> SocketStartup {
    if !exists {
        SocketStartup::Bind
    } else if answered {
        SocketStartup::Refuse
    } else {
        SocketStartup::RemoveStale
    }
}

/// A socket is removed only if it is there and nobody answers on it, and a server refuses
/// to start exactly where somebody does.
pub proof fn law_answering_sockets_are_left_alone(exists: bool, answered: bool)
    ensures
        startup_of(exists, answered) == SocketStartup::RemoveStale <==> exists && !answered,
        startup_of(exists, answered) == SocketStartup::Refuse <==> exists && answered,
        startup_of(exists, answered) == SocketStartup::Bind <==> !exists,
{
}

/// What to do about the socket path before binding it.
pub fn socket_startup(exists: bool, answered: bool) -> (startup: SocketStartup)
    ensures
        startup == startup_of(exists, answered),
{
    if !exists {
        SocketStartup::Bind
    } else if is_socket_stale(answered) {
        SocketStartup::RemoveStale
    } else {
        SocketStartup::Refuse
    }
}

/// The reason for not binding a socket on which a daemon answers.
pub fn socket_in_use_message(path: &str) -> (message: String)
    ensures
        message@ == "Socket "@ + path@ + " already exists and daemon appears to be running"@,
{
    "Socket ".to_owned().concat(path).concat(" already exists and daemon appears to be running")
}

/// An absolute named pipe with a name.
pub open spec fn is_named_pipe(endpoint: Seq<char>) -> bool {
    PIPE_PREFIX@.is_prefix_of(endpoint) && endpoint.len() > PIPE_PREFIX@.len()
}

/// Every name behind the prefix of pipes is a pipe, the prefix alone is none, and neither
/// is anything that does not begin with two backslashes, a dot, a backslash and `pipe`.
pub proof fn law_pipes_have_a_name_behind_the_prefix(name: Seq<char>, endpoint: Seq<char>)
    ensures
        name.len() > 0 ==> is_named_pipe(
            seq!['\\', '\\', '.', '\\', 'p', 'i', 'p', 'e', '\\'] + name,
        ),
        !is_named_pipe(seq!['\\', '\\', '.', '\\', 'p', 'i', 'p', 'e', '\\']),
        is_named_pipe(endpoint) ==> endpoint.len() > 9 && endpoint[0] == '\\' && endpoint[1] == '\\'
            && endpoint[2] == '.' && endpoint[3] == '\\' && endpoint[4] == 'p' && endpoint[5] == 'i'
            && endpoint[6] == 'p' && endpoint[7] == 'e' && endpoint[8] == '\\',
{
    reveal_strlit("\\\\.\\pipe\\");
    let prefix = seq!['\\', '\\', '.', '\\', 'p', 'i', 'p', 'e', '\\'];
    assert(PIPE_PREFIX@ =~= prefix);
    assert(prefix =~= (prefix + name).subrange(0, prefix.len() as int));
    if is_named_pipe(endpoint) {
        assert(endpoint.subrange(0, 9)[0] == prefix[0]);
        assert(endpoint.subrange(0, 9)[1] == prefix[1]);
        assert(endpoint.subrange(0, 9)[2] == prefix[2]);
        assert(endpoint.subrange(0, 9)[3] == prefix[3]);
        assert(endpoint.subrange(0, 9)[4] == prefix[4]);
        assert(endpoint.subrange(0, 9)[5] == prefix[5]);
        assert(endpoint.subrange(0, 9)[6] == prefix[6]);
        assert(endpoint.subrange(0, 9)[7] == prefix[7]);
        assert(endpoint.subrange(0, 9)[8] == prefix[8]);
    }
}

/// Accepts an absolute named pipe with a name, and refuses any other endpoint with
/// the endpoint itself.
pub fn validate_windows_named_pipe_endpoint(endpoint: &str) -> (result: Result<(), String>)
    ensures
        match result {
            Ok(()) => is_named_pipe(endpoint@),
            Err(refused) => !is_named_pipe(endpoint@) && refused@ == endpoint@,
        },
{
    let chars = chars_of(endpoint);
    let prefix = chars_of(PIPE_PREFIX);
    if chars.len() <= prefix.len() {
        return Err(endpoint.to_owned());
    }
    let mut index: usize = 0;
    while index < prefix.len()
        invariant
            index <= prefix@.len() < chars@.len(),
            prefix@ == PIPE_PREFIX@,
            chars@ == endpoint@,
            forall|i: int| 0 <= i < index ==> chars@[i] == prefix@[i],
        decreases prefix@.len() - index,
    {
        if chars[index] != prefix[index] {
            proof {
                if PIPE_PREFIX@.is_prefix_of(endpoint@) {
                    assert(endpoint@.subrange(0, prefix@.len() as int)[index as int]
                        == chars@[index as int]);
                }
            }
            return Err(endpoint.to_owned());
        }
        index += 1;
    }
    proof {
        assert(prefix@ =~= endpoint@.subrange(0, prefix@.len() as int));
    }
    Ok(())
}

/// Whether a daemon stops after a cleanup.
pub open spec fn stops_when(cleaned: nat, remaining: nat, had_sessions: bool) -> bool {
    cleaned > 0 && remaining == 0 && had_sessions
}

/// A daemon goes on while a session is left, while it never had one, and while nothing
/// was cleaned up; the cleanup of its last session stops it.
pub proof fn law_daemons_stop_with_their_last_session(cleaned: nat, remaining: nat, had: bool)
    ensures
        remaining > 0 ==> !stops_when(cleaned, remaining, had),
        !stops_when(cleaned, remaining, false),
        !stops_when(0, remaining, had),
        stops_when(cleaned + 1, 0, true),
{
}

/// After a periodic cleanup: the daemon stops when it removed the last of its
/// sessions and had some at all.
pub fn stops_after_cleanup(cleaned: usize, remaining: usize, had_sessions: bool) -> (stops: bool)
    ensures
        stops == stops_when(cleaned as nat, remaining as nat, had_sessions),
{
    cleaned > 0 && remaining == 0 && had_sessions
}

/// A default configuration has its socket under the plain name of the daemon's socket, and
/// under no other.
pub proof fn law_default_sockets_have_the_plain_name(config: ServerConfig, path: Seq<char>)
    requires
        config.is_default_at(SOCKET_NAME@),
    ensures
        config.socket_path@ == "ctermd.sock"@,
        config.is_default_at(path) ==> path == "ctermd.sock"@,
{
}

} // verus!
