//! How the two ends of a connection are set up.

use vstd::prelude::*;

use crate::auth::{AuthCidGenerator, Authenticator, Direction, Peers};
use crate::net::{IpAddr, Ipv4Addr};
use crate::ping::MAX_PING_BYTES;

verus! {

/// The generator of a server at `local_ip`: the connection IDs it advertises are
/// tokens for the client-to-server direction, so every packet a client sends
/// carries one.
pub fn server_cid_generator(local_ip: Ipv4Addr) -> (generator: AuthCidGenerator)
    ensures
        generator.issues() == Direction::ClientToServer,
        generator.at() == local_ip,
        generator == AuthCidGenerator::made(Direction::ClientToServer, local_ip),
{
    AuthCidGenerator::new(Direction::ClientToServer, local_ip)
}

/// The generator of the client of `peers`: the connection IDs it advertises are
/// tokens for the server-to-client direction.
pub fn client_cid_generator(peers: Peers) -> (generator: AuthCidGenerator)
    ensures
        generator.issues() == Direction::ServerToClient,
        generator.at() == peers.client,
        generator == AuthCidGenerator::made(Direction::ServerToClient, peers.client),
{
    AuthCidGenerator::new(Direction::ServerToClient, peers.client)
}

/// Why a server cannot listen where it was asked to.
#[derive(Debug, Clone, Copy, PartialEq, Eq)]
pub enum ListenError {
    /// The tag covers both addresses, which must be IPv4.
    NotIpv4(IpAddr),
    /// The tag covers the server's address, which must be a concrete one.
    Wildcard,
}

/// What a server is set up with.
#[derive(Debug, Clone, Copy)]
pub struct ServerPlan {
    /// The address it listens at.
    pub ip: Ipv4Addr,
    /// What inbound packets are checked by, if they are.
    pub authenticator: Option<Authenticator>,
}

/// Sets up a server that listens at `listen`, and checks inbound packets unless
/// validation is turned off.
pub fn plan_server(listen: IpAddr, no_dcid_validation: bool) -> (plan: Result<
    ServerPlan,
    ListenError,
>)
    ensures
        match listen {
            IpAddr::V6(_) => plan == Err::<ServerPlan, ListenError>(ListenError::NotIpv4(listen)),
            IpAddr::V4(ip) => if ip == Ipv4Addr::wildcard() {
                plan == Err::<ServerPlan, ListenError>(ListenError::Wildcard)
            } else {
                &&& plan matches Ok(plan)
                &&& plan.ip == ip
                &&& plan.authenticator is None <==> no_dcid_validation
                &&& plan.authenticator matches Some(authenticator) ==> authenticator.accepts()
                    == Direction::ClientToServer && authenticator.at() == ip && authenticator
                    == Authenticator::made(Direction::ClientToServer, ip)
            },
        },
{
    match listen {
        IpAddr::V6(_) => Err(ListenError::NotIpv4(listen)),
        IpAddr::V4(ip) => {
            if ip.is_unspecified() {
                return Err(ListenError::Wildcard);
            }
            let authenticator = if no_dcid_validation {
                None
            } else {
                Some(Authenticator::new(Direction::ClientToServer, ip))
            };
            Ok(ServerPlan { ip, authenticator })
        },
    }
}

/// Why a client cannot ping as it was asked to.
#[derive(Debug, Clone, Copy, PartialEq, Eq)]
pub enum ClientError {
    /// The payload size exceeds the protocol maximum.
    PayloadTooLarge(usize),
    /// The tag covers both addresses, which must be IPv4.
    NotIpv4(IpAddr),
}

/// What a client is set up with.
#[derive(Debug, Clone, Copy)]
pub struct ClientPlan {
    /// The two ends.
    pub peers: Peers,
    /// What inbound packets are checked by.
    pub authenticator: Authenticator,
}

/// Sets up a client at `local_ip` that pings `server` with payloads of `size`
/// bytes.
pub fn plan_client(size: usize, server: IpAddr, local_ip: Ipv4Addr) -> (plan: Result<
    ClientPlan,
    ClientError,
>)
    ensures
        if size > MAX_PING_BYTES {
            plan == Err::<ClientPlan, ClientError>(ClientError::PayloadTooLarge(size))
        } else {
            match server {
                IpAddr::V6(_) => plan == Err::<ClientPlan, ClientError>(
                    ClientError::NotIpv4(server),
                ),
                IpAddr::V4(ip) => {
                    &&& plan matches Ok(plan)
                    &&& plan.peers == (Peers { client: local_ip, server: ip })
                    &&& plan.authenticator.accepts() == Direction::ServerToClient
                    &&& plan.authenticator.at() == local_ip
                    &&& plan.authenticator == Authenticator::made(
                        Direction::ServerToClient,
                        local_ip,
                    )
                },
            }
        },
{
    if size > MAX_PING_BYTES {
        return Err(ClientError::PayloadTooLarge(size));
    }
    match server {
        IpAddr::V6(_) => Err(ClientError::NotIpv4(server)),
        IpAddr::V4(ip) => Ok(
            ClientPlan {
                peers: Peers { client: local_ip, server: ip },
                authenticator: Authenticator::new(Direction::ServerToClient, local_ip),
            },
        ),
    }
}

/// What came of waiting for a peer to open a stream.
#[derive(Debug, Clone, Copy, PartialEq, Eq)]
pub enum AcceptOutcome {
    /// It opened one.
    Opened,
    /// Its application closed the connection.
    ApplicationClosed,
    /// Its transport closed the connection.
    ConnectionClosed,
    /// Our own endpoint is shutting down.
    LocallyClosed,
    /// The connection failed in any other way.
    Failed,
}

/// What the server does next for a connection.
#[derive(Debug, Clone, Copy, PartialEq, Eq)]
pub enum ServeAction {
    /// Echo the stream, and wait for the next.
    Echo,
    /// The service has ended.
    Stop,
    /// The service has failed.
    Fail,
}

/// A peer that closed cleanly, or an endpoint shutting down, is a normal end of
/// service rather than a failure.
pub fn serve_step(outcome: AcceptOutcome) -> (action: ServeAction)
    ensures
        action is Echo <==> outcome is Opened,
        action is Stop <==> outcome is ApplicationClosed || outcome is ConnectionClosed || outcome
            is LocallyClosed,
        action is Fail <==> outcome is Failed,
{
    match outcome {
        AcceptOutcome::Opened => ServeAction::Echo,
        AcceptOutcome::ApplicationClosed
        | AcceptOutcome::ConnectionClosed
        | AcceptOutcome::LocallyClosed => ServeAction::Stop,
        AcceptOutcome::Failed => ServeAction::Fail,
    }
}

} // verus!
