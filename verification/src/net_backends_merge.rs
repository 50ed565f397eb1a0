//! Unification of devp2p and libp2p for handlers that go by a session, with one configuration for
//! each backend.
//!
//! Where a backend has to be asked, the methods say what to ask, and take the reply.
use vstd::prelude::*;

use crate::config::{BasicNetworkConfiguration, ReservedProtocols};
use crate::peer_id::PeerId;
use crate::routing::{
    merge_peers, route, BackendRef, Delegate, HandlerEvent, PeerCall, Session, SessionCall, Step,
};
use crate::service::{NetworkServiceInner, StartStep};
use crate::types::{
    Backend, NonReservedPeerMode, PacketId, ProtocolId, SessionInfo, SocketAddr, TimerToken,
};

verus! {

/// Network service configuration
#[derive(Debug, Clone, PartialEq, Eq)]
pub struct NetworkConfiguration<S, F> {
    /// Directory path to store general network configuration. None means nothing will be saved
    pub config_path: Option<String>,
    /// Directory path to store network-specific configuration. None means nothing will be saved
    pub net_config_path: Option<String>,
    /// IP address to listen for incoming connections. Listen to all connections by default
    pub listen_address: Option<String>,
    /// IP address to advertise. Detected automatically if none.
    pub public_address: Option<String>,
    /// Port for UDP connections, same as TCP by default
    pub udp_port: Option<u16>,
    /// Enable NAT configuration
    pub nat_enabled: bool,
    /// Enable discovery
    pub discovery_enabled: bool,
    /// List of initial node addresses
    pub boot_nodes: Vec<String>,
    /// Use provided node key instead of default
    pub use_secret: Option<S>,
    /// Max number of connected peers to maintain
    pub max_peers: u32,
    /// Min number of connected peers to maintain
    pub min_peers: u32,
    /// Max pending peers.
    pub max_pending_peers: u32,
    /// Reserved snapshot sync peers.
    pub snapshot_peers: u32,
    /// List of reserved node addresses.
    pub reserved_nodes: Vec<String>,
    /// The non-reserved peer mode.
    pub allow_non_reserved: bool,
    /// IP Filtering
    pub ip_filter: F,
    /// Client version string
    pub client_version: String,
}

/// What comes of parsing an address that may be missing.
pub open spec fn parses<P, E>(
    parse: P,
    text: Option<String>,
    parsed: Result<Option<SocketAddr>, E>,
) -> bool where P: Fn(&String) -> Result<SocketAddr, E> {
    match (text, parsed) {
        (None, Ok(None)) => true,
        (Some(text), Ok(Some(addr))) => call_ensures(parse, (&text,), Ok(addr)),
        (Some(text), Err(err)) => call_ensures(parse, (&text,), Err(err)),
        _ => false,
    }
}

/// What comes of formatting an address that may be missing.
pub open spec fn formats<W>(format: W, addr: Option<SocketAddr>, text: Option<String>) -> bool where
    W: Fn(&SocketAddr) -> String,
 {
    match (addr, text) {
        (None, None) => true,
        (Some(addr), Some(text)) => call_ensures(format, (&addr,), text),
        _ => false,
    }
}

/// The number of peers that is reserved for snapshots, where nothing else is reserved: `warp` names
/// the protocol by which snapshots are got.
pub open spec fn snapshots_only(warp: ProtocolId, peers: u32) -> Map<ProtocolId, u32> {
    Map::<ProtocolId, u32>::empty().insert(warp, peers)
}

/// The number of peers that a reservation holds for snapshots.
pub open spec fn snapshots_of(warp: ProtocolId, reserved: Map<ProtocolId, u32>) -> u32 {
    match reserved.get(warp) {
        Some(peers) => peers,
        None => 0,
    }
}

/// Whether the two forms of a configuration agree, but for the addresses and the reservations.
pub open spec fn same_settings<S, F>(
    config: NetworkConfiguration<S, F>,
    basic: BasicNetworkConfiguration<S, F>,
) -> bool {
    &&& basic.config_path == config.config_path
    &&& basic.net_config_path == config.net_config_path
    &&& basic.udp_port == config.udp_port
    &&& basic.nat_enabled == config.nat_enabled
    &&& basic.discovery_enabled == config.discovery_enabled
    &&& basic.boot_nodes == config.boot_nodes
    &&& basic.use_secret == config.use_secret
    &&& basic.max_peers == config.max_peers
    &&& basic.min_peers == config.min_peers
    &&& basic.max_handshakes == config.max_pending_peers
    &&& basic.reserved_nodes == config.reserved_nodes
    &&& basic.ip_filter == config.ip_filter
    &&& (basic.non_reserved_mode is Accept <==> config.allow_non_reserved)
    &&& basic.client_version == config.client_version
}

/// What comes of turning a configuration into one for a backend: the address to listen on is parsed
/// first, and the first address that is not one is the error.
pub open spec fn becomes_basic<S, F, P, E>(
    config: NetworkConfiguration<S, F>,
    warp: ProtocolId,
    parse: P,
    r: Result<BasicNetworkConfiguration<S, F>, E>,
) -> bool where P: Fn(&String) -> Result<SocketAddr, E> {
    match r {
        Ok(basic) => {
            &&& same_settings(config, basic)
            &&& parses(parse, config.listen_address, Ok::<Option<SocketAddr>, E>(basic.listen_address))
            &&& parses(parse, config.public_address, Ok::<Option<SocketAddr>, E>(basic.public_address))
            &&& basic.reserved_protocols@ == snapshots_only(warp, config.snapshot_peers)
        },
        Err(err) => {
            ||| parses(parse, config.listen_address, Err::<Option<SocketAddr>, E>(err))
            ||| {
                &&& parses(parse, config.public_address, Err::<Option<SocketAddr>, E>(err))
                &&& exists|addr: Option<SocketAddr>| #[trigger]
                    parses(parse, config.listen_address, Ok::<Option<SocketAddr>, E>(addr))
            }
        },
    }
}

/// What comes of turning a configuration for a backend back.
pub open spec fn comes_of_basic<S, F, W>(
    basic: BasicNetworkConfiguration<S, F>,
    warp: ProtocolId,
    format: W,
    config: NetworkConfiguration<S, F>,
) -> bool where W: Fn(&SocketAddr) -> String {
    &&& same_settings(config, basic)
    &&& formats(format, basic.listen_address, config.listen_address)
    &&& formats(format, basic.public_address, config.public_address)
    &&& config.snapshot_peers == snapshots_of(warp, basic.reserved_protocols@)
}

/// Parses an address that may be missing.
fn parse_address<P, E>(text: &Option<String>, parse: &P) -> (r: Result<
    Option<SocketAddr>,
    E,
>) where P: Fn(&String) -> Result<SocketAddr, E>
    requires
        forall|text: &String| call_requires(*parse, (text,)),
    ensures
        parses(*parse, *text, r),
{
    match text {
        None => Ok(None),
        Some(text) => match parse(text) {
            Ok(addr) => Ok(Some(addr)),
            Err(err) => Err(err),
        },
    }
}

/// Formats an address that may be missing.
fn format_address<W>(addr: &Option<SocketAddr>, format: &W) -> (r: Option<String>) where
    W: Fn(&SocketAddr) -> String,

    requires
        forall|addr: &SocketAddr| call_requires(*format, (addr,)),
    ensures
        formats(*format, *addr, r),
{
    match addr {
        None => None,
        Some(addr) => Some(format(addr)),
    }
}

impl<S, F> NetworkConfiguration<S, F> {
    /// Create a new default config, given that of a backend.
    pub fn new<W>(
        default: BasicNetworkConfiguration<S, F>,
        warp: ProtocolId,
        format: W,
    ) -> (r: Self) where W: Fn(&SocketAddr) -> String
        requires
            forall|addr: &SocketAddr| call_requires(format, (addr,)),
        ensures
            comes_of_basic(default, warp, format, r),
    {
        NetworkConfiguration::from_basic(default, warp, format)
    }

    /// Create a new local config, given that of a backend.
    pub fn new_local<W>(
        local: BasicNetworkConfiguration<S, F>,
        warp: ProtocolId,
        format: W,
    ) -> (r: Self) where W: Fn(&SocketAddr) -> String
        requires
            forall|addr: &SocketAddr| call_requires(format, (addr,)),
        ensures
            comes_of_basic(local, warp, format, r),
    {
        NetworkConfiguration::from_basic(local, warp, format)
    }

    /// Attempt to convert this config into a BasicNetworkConfiguration.
    pub fn into_basic<P, E>(self, warp: ProtocolId, parse: P) -> (r: Result<
        BasicNetworkConfiguration<S, F>,
        E,
    >) where P: Fn(&String) -> Result<SocketAddr, E>
        requires
            forall|text: &String| call_requires(parse, (text,)),
        ensures
            becomes_basic(self, warp, parse, r),
    {
        let listen_address = match parse_address(&self.listen_address, &parse) {
            Ok(addr) => addr,
            Err(err) => {
                return Err(err);
            },
        };
        assert(parses(parse, self.listen_address, Ok::<Option<SocketAddr>, E>(listen_address)));
        let public_address = match parse_address(&self.public_address, &parse) {
            Ok(addr) => addr,
            Err(err) => {
                return Err(err);
            },
        };
        let mut reserved_protocols = ReservedProtocols::new();
        reserved_protocols.insert(warp, self.snapshot_peers);
        Ok(
            BasicNetworkConfiguration {
                config_path: self.config_path,
                net_config_path: self.net_config_path,
                listen_address,
                public_address,
                udp_port: self.udp_port,
                nat_enabled: self.nat_enabled,
                discovery_enabled: self.discovery_enabled,
                boot_nodes: self.boot_nodes,
                use_secret: self.use_secret,
                max_peers: self.max_peers,
                min_peers: self.min_peers,
                max_handshakes: self.max_pending_peers,
                reserved_protocols,
                reserved_nodes: self.reserved_nodes,
                ip_filter: self.ip_filter,
                non_reserved_mode: if self.allow_non_reserved {
                    NonReservedPeerMode::Accept
                } else {
                    NonReservedPeerMode::Deny
                },
                client_version: self.client_version,
            },
        )
    }

    /// Converts the config of a backend into this form.
    pub fn from_basic<W>(
        other: BasicNetworkConfiguration<S, F>,
        warp: ProtocolId,
        format: W,
    ) -> (r: Self) where W: Fn(&SocketAddr) -> String
        requires
            forall|addr: &SocketAddr| call_requires(format, (addr,)),
        ensures
            comes_of_basic(other, warp, format, r),
    {
        let snapshot_peers: u32 = match other.reserved_protocols.get(&warp) {
            Some(peers) => peers,
            None => 0,
        };
        NetworkConfiguration {
            config_path: other.config_path,
            net_config_path: other.net_config_path,
            listen_address: format_address(&other.listen_address, &format),
            public_address: format_address(&other.public_address, &format),
            udp_port: other.udp_port,
            nat_enabled: other.nat_enabled,
            discovery_enabled: other.discovery_enabled,
            boot_nodes: other.boot_nodes,
            use_secret: other.use_secret,
            max_peers: other.max_peers,
            min_peers: other.min_peers,
            max_pending_peers: other.max_handshakes,
            snapshot_peers,
            reserved_nodes: other.reserved_nodes,
            ip_filter: other.ip_filter,
            allow_non_reserved: match other.non_reserved_mode {
                NonReservedPeerMode::Accept => true,
                NonReservedPeerMode::Deny => false,
            },
            client_version: other.client_version,
        }
    }
}

/// Turning a configuration into one for a backend and back changes nothing but, possibly, how an
/// address is written; addresses that are missing stay missing.
pub proof fn law_config_round_trip<S, F, P, W, E>(
    config: NetworkConfiguration<S, F>,
    basic: BasicNetworkConfiguration<S, F>,
    back: NetworkConfiguration<S, F>,
    warp: ProtocolId,
    parse: P,
    format: W,
) where P: Fn(&String) -> Result<SocketAddr, E>, W: Fn(&SocketAddr) -> String
    requires
        becomes_basic(config, warp, parse, Ok::<BasicNetworkConfiguration<S, F>, E>(basic)),
        comes_of_basic(basic, warp, format, back),
    ensures
        config.listen_address is None <==> back.listen_address is None,
        config.public_address is None <==> back.public_address is None,
        back == (NetworkConfiguration {
            listen_address: back.listen_address,
            public_address: back.public_address,
            ..config
        }),
{
}

/// Turning the configuration of a backend into the other form and back keeps every setting, where
/// parsing undoes formatting. Of the reservations only that for snapshots stays; where there was
/// none, it is 0.
pub proof fn law_basic_config_round_trip<S, F, P, W, E>(
    basic: BasicNetworkConfiguration<S, F>,
    config: NetworkConfiguration<S, F>,
    back: Result<BasicNetworkConfiguration<S, F>, E>,
    warp: ProtocolId,
    parse: P,
    format: W,
) where P: Fn(&String) -> Result<SocketAddr, E>, W: Fn(&SocketAddr) -> String
    requires
        comes_of_basic(basic, warp, format, config),
        becomes_basic(config, warp, parse, back),
        forall|addr: SocketAddr, text: String, parsed: Result<SocketAddr, E>|
            #![trigger call_ensures(format, (&addr,), text), call_ensures(parse, (&text,), parsed)]
            call_ensures(format, (&addr,), text) && call_ensures(parse, (&text,), parsed)
                ==> parsed == Ok::<SocketAddr, E>(addr),
    ensures
        back matches Ok(same) && same.reserved_protocols@ == snapshots_only(
            warp,
            snapshots_of(warp, basic.reserved_protocols@),
        ) && same == (BasicNetworkConfiguration {
            reserved_protocols: same.reserved_protocols,
            ..basic
        }),
{
    match back {
        Ok(same) => {
            match (basic.listen_address, config.listen_address) {
                (Some(addr), Some(text)) => {
                    assert(call_ensures(format, (&addr,), text));
                    assert(call_ensures(parse, (&text,), Ok(same.listen_address->0)));
                },
                _ => {},
            }
            match (basic.public_address, config.public_address) {
                (Some(addr), Some(text)) => {
                    assert(call_ensures(format, (&addr,), text));
                    assert(call_ensures(parse, (&text,), Ok(same.public_address->0)));
                },
                _ => {},
            }
        },
        Err(err) => {
            if parses(parse, config.listen_address, Err::<Option<SocketAddr>, E>(err)) {
                let addr = basic.listen_address->0;
                let text = config.listen_address->0;
                assert(call_ensures(format, (&addr,), text));
                assert(call_ensures(parse, (&text,), Err(err)));
            } else {
                let addr = basic.public_address->0;
                let text = config.public_address->0;
                assert(call_ensures(format, (&addr,), text));
                assert(call_ensures(parse, (&text,), Err(err)));
            }
        },
    }
}

/// Unification of devp2p and libp2p.
pub struct NetBackend<D, L> {
    /// The backends.
    pub inner: NetworkServiceInner<D, L>,
}

/// Why the backends were not opened.
#[derive(Debug, PartialEq, Eq)]
pub enum OpenError<X, E> {
    /// An address of a configuration is not one.
    Address(X),
    /// A backend failed to open.
    Backend(E),
}

/// What is done next to open the backends.
pub enum OpenStep<D, L, S, F, X, E> {
    /// Open devp2p with a configuration.
    OpenDevp2p {
        /// The configuration.
        config: BasicNetworkConfiguration<S, F>,
        /// The configuration of libp2p, if that is to be opened then.
        libp2p: Option<NetworkConfiguration<S, F>>,
    },
    /// Open libp2p with a configuration.
    OpenLibp2p {
        /// The configuration.
        config: BasicNetworkConfiguration<S, F>,
        /// Devp2p, if that is open.
        devp2p: Option<D>,
    },
    /// The backends are open, or something failed.
    Done(Result<NetBackend<D, L>, OpenError<X, E>>),
}

/// What is done next where the backends are asked one after the other, up to the first error.
pub enum ChainStep<A, E> {
    /// Ask a backend.
    Ask(Backend, A),
    /// This comes out.
    Done(Result<(), E>),
}

/// The context in which a handler acts in a session.
pub struct MergedNetworkContext<'a, D, L, C> {
    /// The devp2p service, if it is enabled.
    pub devp2p: Option<&'a D>,
    /// The libp2p service, if it is enabled.
    pub libp2p: Option<&'a L>,
    /// The protocol of the session.
    pub protocol: ProtocolId,
    /// The context that a backend handed out for what is being handled.
    pub context: Session<'a, C>,
}

/// The step that opens libp2p, once its configuration was or was not turned into one for a backend.
pub open spec fn opens_libp2p<D, L, S, F, P, X, E>(
    libp2p: NetworkConfiguration<S, F>,
    devp2p: Option<D>,
    warp: ProtocolId,
    parse: P,
    r: OpenStep<D, L, S, F, X, E>,
) -> bool where P: Fn(&String) -> Result<SocketAddr, X> {
    match r {
        OpenStep::OpenLibp2p { config, devp2p: opened } => opened == devp2p && becomes_basic(
            libp2p,
            warp,
            parse,
            Ok::<BasicNetworkConfiguration<S, F>, X>(config),
        ),
        OpenStep::Done(Err(OpenError::Address(err))) => becomes_basic(
            libp2p,
            warp,
            parse,
            Err::<BasicNetworkConfiguration<S, F>, X>(err),
        ),
        _ => false,
    }
}

/// Decides how libp2p is opened, beside devp2p if that is open.
fn open_libp2p<D, L, S, F, P, X, E>(
    libp2p: NetworkConfiguration<S, F>,
    devp2p: Option<D>,
    warp: ProtocolId,
    parse: P,
) -> (r: OpenStep<D, L, S, F, X, E>) where P: Fn(&String) -> Result<SocketAddr, X>
    requires
        forall|text: &String| call_requires(parse, (text,)),
    ensures
        opens_libp2p(libp2p, devp2p, warp, parse, r),
{
    match libp2p.into_basic(warp, parse) {
        Ok(config) => OpenStep::OpenLibp2p { config, devp2p },
        Err(err) => OpenStep::Done(Err(OpenError::Address(err))),
    }
}

impl<D, L> NetBackend<D, L> {
    /// Decides which backend is opened first, and with what. At least one has to be configured.
    pub fn new<S, F, P, X, E>(
        devp2p_config: Option<NetworkConfiguration<S, F>>,
        libp2p_config: Option<NetworkConfiguration<S, F>>,
        warp: ProtocolId,
        parse: P,
    ) -> (r: OpenStep<D, L, S, F, X, E>) where P: Fn(&String) -> Result<SocketAddr, X>
        requires
            devp2p_config is Some || libp2p_config is Some,
            forall|text: &String| call_requires(parse, (text,)),
        ensures
            match devp2p_config {
                Some(devp2p) => match r {
                    OpenStep::OpenDevp2p { config, libp2p } => libp2p == libp2p_config
                        && becomes_basic(
                        devp2p,
                        warp,
                        parse,
                        Ok::<BasicNetworkConfiguration<S, F>, X>(config),
                    ),
                    OpenStep::Done(Err(OpenError::Address(err))) => becomes_basic(
                        devp2p,
                        warp,
                        parse,
                        Err::<BasicNetworkConfiguration<S, F>, X>(err),
                    ),
                    _ => false,
                },
                None => opens_libp2p(libp2p_config->0, None::<D>, warp, parse, r),
            },
    {
        match devp2p_config {
            Some(devp2p) => match devp2p.into_basic(warp, parse) {
                Ok(config) => OpenStep::OpenDevp2p { config, libp2p: libp2p_config },
                Err(err) => OpenStep::Done(Err(OpenError::Address(err))),
            },
            None => match libp2p_config {
                Some(libp2p) => open_libp2p(libp2p, None, warp, parse),
                None => vstd::pervasive::unreached(),
            },
        }
    }

    /// Decides how the opening goes on after devp2p.
    pub fn opened_devp2p<S, F, P, X, E>(
        reply: Result<D, E>,
        libp2p_config: Option<NetworkConfiguration<S, F>>,
        warp: ProtocolId,
        parse: P,
    ) -> (r: OpenStep<D, L, S, F, X, E>) where P: Fn(&String) -> Result<SocketAddr, X>
        requires
            forall|text: &String| call_requires(parse, (text,)),
        ensures
            match (reply, libp2p_config) {
                (Err(err), _) => r == OpenStep::<D, L, S, F, X, E>::Done(
                    Err(OpenError::Backend(err)),
                ),
                (Ok(devp2p), None) => r == OpenStep::<D, L, S, F, X, E>::Done(
                    Ok(NetBackend { inner: NetworkServiceInner::Devp2p(devp2p) }),
                ),
                (Ok(devp2p), Some(libp2p)) => opens_libp2p(libp2p, Some(devp2p), warp, parse, r),
            },
    {
        match reply {
            Err(err) => OpenStep::Done(Err(OpenError::Backend(err))),
            Ok(devp2p) => match libp2p_config {
                None => OpenStep::Done(
                    Ok(NetBackend { inner: NetworkServiceInner::Devp2p(devp2p) }),
                ),
                Some(libp2p) => open_libp2p(libp2p, Some(devp2p), warp, parse),
            },
        }
    }

    /// Ends the opening after libp2p.
    pub fn opened_libp2p<X, E>(devp2p: Option<D>, reply: Result<L, E>) -> (r: Result<
        NetBackend<D, L>,
        OpenError<X, E>,
    >)
        ensures
            r == match (devp2p, reply) {
                (_, Err(err)) => Err::<NetBackend<D, L>, OpenError<X, E>>(OpenError::Backend(err)),
                (Some(devp2p), Ok(libp2p)) => Ok(
                    NetBackend { inner: NetworkServiceInner::Both(devp2p, libp2p) },
                ),
                (None, Ok(libp2p)) => Ok(NetBackend { inner: NetworkServiceInner::Libp2p(libp2p) }),
            },
    {
        match reply {
            Err(err) => Err(OpenError::Backend(err)),
            Ok(libp2p) => match devp2p {
                Some(devp2p) => Ok(NetBackend { inner: NetworkServiceInner::Both(devp2p, libp2p) }),
                None => Ok(NetBackend { inner: NetworkServiceInner::Libp2p(libp2p) }),
            },
        }
    }

    /// The first step where the backends are asked one after the other: devp2p comes first.
    pub open spec fn chain_step<A, E>(&self, request: A) -> ChainStep<A, E> {
        ChainStep::Ask(self.inner.enabled()[0], request)
    }

    /// The step that follows the reply of a backend.
    pub open spec fn chained_step<A, E>(
        &self,
        backend: Backend,
        reply: Result<(), E>,
        request: A,
    ) -> ChainStep<A, E> {
        match reply {
            Err(err) => ChainStep::Done(Err(err)),
            Ok(()) => if self.inner is Both && backend is Devp2p {
                ChainStep::Ask(Backend::Libp2p, request)
            } else {
                ChainStep::Done(Ok(()))
            },
        }
    }

    /// Decides which backend is asked first.
    fn chain<A, E>(&self, request: A) -> (r: ChainStep<A, E>)
        ensures
            r == self.chain_step::<A, E>(request),
    {
        match self.inner {
            NetworkServiceInner::Devp2p(_) => ChainStep::Ask(Backend::Devp2p, request),
            NetworkServiceInner::Libp2p(_) => ChainStep::Ask(Backend::Libp2p, request),
            NetworkServiceInner::Both(_, _) => ChainStep::Ask(Backend::Devp2p, request),
        }
    }

    /// Decides what follows the reply of a backend to a request that goes to the backends one after
    /// the other.
    pub fn chained<A, E>(&self, backend: Backend, reply: Result<(), E>, request: A) -> (r: ChainStep<
        A,
        E,
    >)
        requires
            self.inner.has(backend),
        ensures
            r == self.chained_step::<A, E>(backend, reply, request),
    {
        match reply {
            Err(err) => ChainStep::Done(Err(err)),
            Ok(()) => match self.inner {
                NetworkServiceInner::Both(_, _) => match backend {
                    Backend::Devp2p => ChainStep::Ask(Backend::Libp2p, request),
                    Backend::Libp2p => ChainStep::Done(Ok(())),
                },
                _ => ChainStep::Done(Ok(())),
            },
        }
    }

    /// Register a new protocol handler with the event loop: decides which backend comes first. Each
    /// is given the handler in a wrapper.
    pub fn register_protocol<'v, E>(
        &self,
        protocol: ProtocolId,
        packet_count: u8,
        versions: &'v [u8],
    ) -> (r: ChainStep<(ProtocolId, u8, &'v [u8]), E>)
        ensures
            r == self.chain_step::<(ProtocolId, u8, &'v [u8]), E>((protocol, packet_count, versions)),
    {
        self.chain((protocol, packet_count, versions))
    }

    /// Returns network configuration: the backend whose configuration it is.
    pub fn config(&self) -> (r: BackendRef<'_, D, L>)
        ensures
            r == match &self.inner {
                NetworkServiceInner::Devp2p(devp2p) => BackendRef::<D, L>::Devp2p(devp2p),
                NetworkServiceInner::Libp2p(libp2p) => BackendRef::Libp2p(libp2p),
                NetworkServiceInner::Both(devp2p, _) => BackendRef::Devp2p(devp2p),
            },
    {
        match &self.inner {
            NetworkServiceInner::Devp2p(devp2p) => BackendRef::Devp2p(devp2p),
            NetworkServiceInner::Libp2p(libp2p) => BackendRef::Libp2p(libp2p),
            NetworkServiceInner::Both(devp2p, _) => BackendRef::Devp2p(devp2p),
        }
    }

    /// Start network IO: decides which backend comes first.
    pub fn start<E>(&self) -> (r: StartStep<E>)
        ensures
            r == self.inner.start_step::<E>(),
    {
        self.inner.start()
    }

    /// Decides how the start goes on after the reply of a backend.
    pub fn started<E>(&self, backend: Backend, reply: Result<(), E>) -> (r: StartStep<E>)
        requires
            self.inner.has(backend),
        ensures
            r == self.inner.started_step::<E>(backend, reply),
    {
        self.inner.started(backend, reply)
    }

    /// Stop network IO: decides which backend comes first.
    pub fn stop<E>(&self) -> (r: ChainStep<(), E>)
        ensures
            r == self.chain_step::<(), E>(()),
    {
        self.chain(())
    }

    /// Get a list of all connected peers by id, given those of the backends. A backend that is not
    /// enabled has none.
    pub fn connected_peers(&self, devp2p: Vec<PeerId>, libp2p: Vec<PeerId>) -> (r: Vec<PeerId>)
        requires
            self.inner.has(Backend::Devp2p) ==> forall|i: int|
                0 <= i < devp2p@.len() ==> crate::peer_id::InternalPeerId::Devp2p(
                    #[trigger] devp2p@[i],
                ).in_range(),
            self.inner.has(Backend::Libp2p) ==> forall|i: int|
                0 <= i < libp2p@.len() ==> crate::peer_id::InternalPeerId::Libp2p(
                    #[trigger] libp2p@[i],
                ).in_range(),
        ensures
            r@ == crate::routing::exposed_peers(
                Backend::Devp2p,
                if self.inner.has(Backend::Devp2p) {
                    devp2p@
                } else {
                    Seq::empty()
                },
            ) + crate::routing::exposed_peers(
                Backend::Libp2p,
                if self.inner.has(Backend::Libp2p) {
                    libp2p@
                } else {
                    Seq::empty()
                },
            ),
    {
        let devp2p = if self.inner.devp2p().is_some() {
            devp2p
        } else {
            Vec::new()
        };
        let libp2p = if self.inner.libp2p().is_some() {
            libp2p
        } else {
            Vec::new()
        };
        merge_peers(&devp2p, &libp2p)
    }

    /// Try to add a reserved peer: decides which backend comes first.
    pub fn add_reserved_peer<'p, E>(&self, peer: &'p str) -> (r: ChainStep<&'p str, E>)
        ensures
            r == self.chain_step::<&'p str, E>(peer),
    {
        self.chain(peer)
    }

    /// Try to remove a reserved peer: decides which backend comes first.
    pub fn remove_reserved_peer<'p, E>(&self, peer: &'p str) -> (r: ChainStep<&'p str, E>)
        ensures
            r == self.chain_step::<&'p str, E>(peer),
    {
        self.chain(peer)
    }

    /// Set the non-reserved peer mode: the backends to be told the mode, in this order.
    pub fn set_non_reserved_mode(&self, mode: NonReservedPeerMode) -> (r: Vec<
        (Backend, NonReservedPeerMode),
    >)
        ensures
            r@ == self.inner.enabled().map_values(|backend: Backend| (backend, mode)),
    {
        self.inner.set_non_reserved_mode(mode)
    }

    /// Returns external url if available: it is that of devp2p.
    pub fn external_url(&self) -> (r: Delegate<'_, D, (), Option<String>>)
        ensures
            r == Delegate::<D, (), Option<String>>::to(self.inner.spec_devp2p(), (), None),
    {
        Delegate::new(self.inner.devp2p(), (), None)
    }

    /// The context of a protocol outside of any session.
    pub open spec fn spec_context<'a, C>(
        &'a self,
        protocol: ProtocolId,
    ) -> crate::service::MergedNetworkContext<'a, D, L, C> {
        crate::service::MergedNetworkContext { inner: &self.inner, protocol, context: None }
    }

    /// Executes action in the network context
    pub fn with_context<C, A>(&self, protocol: ProtocolId, action: A) where
        A: FnOnce(&crate::service::MergedNetworkContext<'_, D, L, C>),

        requires
            action.requires((&self.spec_context::<C>(protocol),)),
        ensures
            action.ensures((&self.spec_context::<C>(protocol),), ()),
    {
        self.with_context_eval(protocol, action);
    }

    /// Evaluates function in the network context
    pub fn with_context_eval<C, A, T>(&self, protocol: ProtocolId, action: A) -> (r: Option<
        T,
    >) where A: FnOnce(&crate::service::MergedNetworkContext<'_, D, L, C>) -> T
        requires
            action.requires((&self.spec_context::<C>(protocol),)),
        ensures
            r matches Some(value) && action.ensures((&self.spec_context::<C>(protocol),), value),
    {
        let context: crate::service::MergedNetworkContext<'_, D, L, C> =
            crate::service::MergedNetworkContext { inner: &self.inner, protocol, context: None };
        Some(action(&context))
    }

    /// What a wrapped handler is told of an event of its backend, and in which context. That its
    /// protocol is registered it is told once: by libp2p, where both backends are enabled.
    pub open spec fn forwarded<'a, 'd, C>(
        &'a self,
        backend: Backend,
        io: &'a C,
        protocol: ProtocolId,
        event: HandlerEvent<'d>,
    ) -> Option<(MergedNetworkContext<'a, D, L, C>, HandlerEvent<'d>)> {
        if event is Initialize && backend is Devp2p && self.inner is Both {
            None
        } else {
            Some(
                (
                    MergedNetworkContext {
                        devp2p: self.inner.spec_devp2p(),
                        libp2p: self.inner.spec_libp2p(),
                        protocol,
                        context: crate::routing::session_of(backend, io),
                    },
                    event.exposed(backend),
                ),
            )
        }
    }

    /// Decides what a wrapped handler is told of an event of its backend, which handed out a context
    /// for a protocol.
    pub fn forward<'a, 'd, C>(
        &'a self,
        backend: Backend,
        io: &'a C,
        protocol: ProtocolId,
        event: HandlerEvent<'d>,
    ) -> (r: Option<(MergedNetworkContext<'a, D, L, C>, HandlerEvent<'d>)>)
        requires
            event.in_range(backend),
        ensures
            r == self.forwarded(backend, io, protocol, event),
    {
        if let NetworkServiceInner::Both(_, _) = self.inner {
            if let Backend::Devp2p = backend {
                if let HandlerEvent::Initialize = event {
                    return None;
                }
            }
        }
        let context = Session::new(backend, io);
        Some(
            (
                MergedNetworkContext {
                    devp2p: self.inner.devp2p(),
                    libp2p: self.inner.libp2p(),
                    protocol,
                    context,
                },
                event.into_exposed(backend),
            ),
        )
    }
}

impl<'a, D, L, C> MergedNetworkContext<'a, D, L, C> {
    /// Where a call that concerns a peer goes.
    pub open spec fn route(&self, peer: PeerId) -> crate::routing::Route<'a, D, L, C> {
        crate::routing::route_of(self.devp2p, self.libp2p, Some(self.context), peer)
    }

    /// The session, which there always is.
    fn session(&self) -> (r: Option<Session<'a, C>>)
        ensures
            r == Some(self.context),
    {
        match &self.context {
            Session::Devp2p(context) => Some(Session::Devp2p(*context)),
            Session::Libp2p(context) => Some(Session::Libp2p(*context)),
        }
    }

    /// Decides what is done with a call that concerns a peer.
    fn dispatch<R>(&self, peer: PeerId, call: PeerCall, absent: R) -> (r: Step<'a, D, L, C, R>)
        ensures
            r == self.route(peer).step(self.protocol, call, absent),
    {
        route(self.devp2p, self.libp2p, &self.session(), peer).into_step(self.protocol, call, absent)
    }

    /// Sends a packet of the handler's protocol. The backend of the peer has to be enabled.
    pub fn send(&self, peer: PeerId, packet_id: PacketId, data: Vec<u8>) -> (r: Step<'a, D, L, C, ()>)
        requires
            self.route(peer) !is Absent,
        ensures
            r == self.route(peer).step(self.protocol, PeerCall::Send { packet_id, data }, ()),
    {
        self.dispatch(peer, PeerCall::Send { packet_id, data }, ())
    }

    /// Sends a packet of any protocol. The backend of the peer has to be enabled.
    pub fn send_protocol(
        &self,
        protocol: ProtocolId,
        peer: PeerId,
        packet_id: PacketId,
        data: Vec<u8>,
    ) -> (r: Step<'a, D, L, C, ()>)
        requires
            self.route(peer) !is Absent,
        ensures
            r == self.route(peer).step(
                self.protocol,
                PeerCall::SendProtocol { protocol, packet_id, data },
                (),
            ),
    {
        self.dispatch(peer, PeerCall::SendProtocol { protocol, packet_id, data }, ())
    }

    /// Answers the peer whose packet is being handled, through the context of the session.
    pub fn respond(&self, packet_id: PacketId, data: Vec<u8>) -> (r: SessionCall<
        'a,
        C,
        (PacketId, Vec<u8>),
    >)
        ensures
            r == (SessionCall {
                context: crate::routing::session_context(self.context),
                arguments: (packet_id, data),
            }),
    {
        SessionCall { context: self.context.context(), arguments: (packet_id, data) }
    }

    /// Disconnects a peer and keeps it away. Of a peer of a disabled backend nothing is done.
    pub fn disable_peer(&self, peer: PeerId) -> (r: Step<'a, D, L, C, ()>)
        ensures
            r == self.route(peer).step(self.protocol, PeerCall::DisablePeer, ()),
    {
        self.dispatch(peer, PeerCall::DisablePeer, ())
    }

    /// Disconnects a peer. Of a peer of a disabled backend nothing is done.
    pub fn disconnect_peer(&self, peer: PeerId) -> (r: Step<'a, D, L, C, ()>)
        ensures
            r == self.route(peer).step(self.protocol, PeerCall::DisconnectPeer, ()),
    {
        self.dispatch(peer, PeerCall::DisconnectPeer, ())
    }

    /// Whether the session has expired, which the context of the session knows.
    pub fn is_expired(&self) -> (r: SessionCall<'a, C, ()>)
        ensures
            r == (SessionCall {
                context: crate::routing::session_context(self.context),
                arguments: (),
            }),
    {
        SessionCall { context: self.context.context(), arguments: () }
    }

    /// Asks the context of the session for the handler to be told when some time is over.
    pub fn register_timer(&self, token: TimerToken, ms: u64) -> (r: SessionCall<
        'a,
        C,
        (TimerToken, u64),
    >)
        ensures
            r == (SessionCall {
                context: crate::routing::session_context(self.context),
                arguments: (token, ms),
            }),
    {
        SessionCall { context: self.context.context(), arguments: (token, ms) }
    }

    /// Asks for the client version of a peer; that of a peer of a disabled backend is empty.
    pub fn peer_client_version(&self, peer: PeerId) -> (r: Step<'a, D, L, C, String>)
        ensures
            exists|none: String|
                none@ == Seq::<char>::empty() && r == #[trigger] self.route(peer).step(
                    self.protocol,
                    PeerCall::PeerClientVersion,
                    none,
                ),
    {
        self.dispatch(peer, PeerCall::PeerClientVersion, String::new())
    }

    /// Asks for the session with a peer; a peer of a disabled backend has none.
    pub fn session_info(&self, peer: PeerId) -> (r: Step<'a, D, L, C, Option<SessionInfo>>)
        ensures
            r == self.route(peer).step(self.protocol, PeerCall::SessionInfo, None::<SessionInfo>),
    {
        self.dispatch(peer, PeerCall::SessionInfo, None)
    }

    /// Asks for the version of a protocol that is spoken with a peer; with a peer of a disabled
    /// backend none is.
    pub fn protocol_version(&self, protocol: ProtocolId, peer: PeerId) -> (r: Step<
        'a,
        D,
        L,
        C,
        Option<u8>,
    >)
        ensures
            r == self.route(peer).step(
                self.protocol,
                PeerCall::ProtocolVersion(protocol),
                None::<u8>,
            ),
    {
        self.dispatch(peer, PeerCall::ProtocolVersion(protocol), None)
    }

    /// The protocol of the session.
    pub fn subprotocol_name(&self) -> (r: ProtocolId)
        ensures
            r == self.protocol,
    {
        self.protocol
    }
}

/// What the sender of a packet is answered, given the reply of the backend. The backend has to have
/// the protocol.
pub fn send_reply<E>(reply: Option<Result<(), E>>) -> (r: Result<(), E>)
    requires
        reply is Some,
    ensures
        Some(r) == reply,
{
    match reply {
        Some(reply) => reply,
        None => vstd::pervasive::unreached(),
    }
}

/// The client version of a peer, given the reply of the backend, if it has the protocol.
pub fn peer_client_version_reply(reply: Option<String>) -> (r: String)
    ensures
        match reply {
            Some(version) => r == version,
            None => r@ == Seq::<char>::empty(),
        },
{
    match reply {
        Some(version) => version,
        None => String::new(),
    }
}

/// A handler that is told of a peer reaches that very peer by the identifier it was given, through
/// the context that the backend handed out.
pub proof fn law_answers_reach_the_sender<'a, 'd, D, L, C>(
    backends: &'a NetBackend<D, L>,
    backend: Backend,
    io: &'a C,
    protocol: ProtocolId,
    event: HandlerEvent<'d>,
)
    requires
        event.in_range(backend),
        event.peer() is Some,
    ensures
        backends.forwarded(backend, io, protocol, event) matches Some((context, told))
            && told.peer() matches Some(peer) && context.route(peer)
            == crate::routing::Route::<D, L, C>::Session(io, event.peer()->0),
{
    crate::routing::lemma_session_route(
        backends.inner.spec_devp2p(),
        backends.inner.spec_libp2p(),
        backend,
        io,
        event.peer()->0,
    );
}

/// The backends that are asked, and what comes out, where they are asked one after the other and
/// reply as given.
pub open spec fn chain_outcome<D, L, A, E>(
    backends: NetBackend<D, L>,
    step: ChainStep<A, E>,
    devp2p: Result<(), E>,
    libp2p: Result<(), E>,
    steps: nat,
) -> Option<(Seq<(Backend, A)>, Result<(), E>)>
    decreases steps,
{
    match step {
        ChainStep::Done(outcome) => Some((Seq::empty(), outcome)),
        _ if steps == 0 => None,
        ChainStep::Ask(backend, request) => {
            let reply = match backend {
                Backend::Devp2p => devp2p,
                Backend::Libp2p => libp2p,
            };
            match chain_outcome(
                backends,
                backends.chained_step::<A, E>(backend, reply, request),
                devp2p,
                libp2p,
                (steps - 1) as nat,
            ) {
                Some((asked, outcome)) => Some((seq![(backend, request)] + asked, outcome)),
                None => None,
            }
        },
    }
}

/// Where the backends are asked one after the other, every enabled backend gets the same request,
/// devp2p first; after an error no other backend is asked, and the error comes out.
pub proof fn law_first_error_ends_the_chain<D, L, A, E>(
    backends: NetBackend<D, L>,
    request: A,
    devp2p: Result<(), E>,
    libp2p: Result<(), E>,
)
    ensures
        chain_outcome(backends, backends.chain_step::<A, E>(request), devp2p, libp2p, 2) == Some(
            if backends.inner.has(Backend::Devp2p) && devp2p is Err {
                (seq![(Backend::Devp2p, request)], devp2p)
            } else {
                (
                    backends.inner.enabled().map_values(|backend: Backend| (backend, request)),
                    if backends.inner.has(Backend::Libp2p) && libp2p is Err {
                        libp2p
                    } else {
                        Ok(())
                    },
                )
            },
        ),
{
    reveal_with_fuel(chain_outcome, 3);
    let all = backends.inner.enabled().map_values(|backend: Backend| (backend, request));
    let none = Seq::<(Backend, A)>::empty();
    assert(seq![(Backend::Devp2p, request)] + none =~= seq![(Backend::Devp2p, request)]);
    match backends.inner {
        NetworkServiceInner::Devp2p(_) => {
            assert(seq![(Backend::Devp2p, request)] + none =~= all);
        },
        NetworkServiceInner::Libp2p(_) => {
            assert(seq![(Backend::Libp2p, request)] + none =~= all);
        },
        NetworkServiceInner::Both(_, _) => {
            assert(seq![(Backend::Devp2p, request)] + (seq![(Backend::Libp2p, request)] + none)
                =~= all);
        },
    }
}

/// Every enabled backend is told that a protocol is registered, and exactly one passes that on to the
/// handler, which is so initialized once: libp2p, where it is enabled, and else devp2p.
pub proof fn law_handler_is_initialized_once<'a, D, L, C>(
    backends: &'a NetBackend<D, L>,
    io: &'a C,
    protocol: ProtocolId,
)
    ensures
        backends.inner.enabled().filter(
            |backend: Backend|
                backends.forwarded(backend, io, protocol, HandlerEvent::Initialize) is Some,
        ) == seq![
            if backends.inner.has(Backend::Libp2p) {
                Backend::Libp2p
            } else {
                Backend::Devp2p
            },
        ],
{
    let passes_on = |backend: Backend|
        backends.forwarded(backend, io, protocol, HandlerEvent::Initialize) is Some;
    let all = backends.inner.enabled();
    reveal_with_fuel(Seq::filter, 3);
    if backends.inner is Both {
        assert(all.drop_last() =~= seq![Backend::Devp2p]);
        assert(all.drop_last().drop_last() =~= seq![]);
        assert(all.filter(passes_on) =~= seq![Backend::Libp2p]);
    } else {
        assert(all.drop_last() =~= seq![]);
        assert(all.filter(passes_on) =~= all);
    }
}

} // verus!
