//! A tunnel: the pair of relays that connects a client-facing stream and a
//! destination-facing stream after a successful CONNECT.
//!
//! A [`Tunnel`] is built from the two established streams and a name for each
//! side. Starting it hands the streams back together with one relay per
//! direction; the driver runs both relays to their end, in any interleaving,
//! and [`TunnelStats::combine`] turns the two results into the result of the
//! tunnel.

use crate::relay::{
    delivered, lemma_relay_counts_what_it_reads, lemma_relay_forwards_what_it_reads, reported,
    Relay, RelayError, RelayEvent,
};
use vstd::prelude::*;

verus! {

/// The bytes that a completed tunnel carried in each direction.
#[derive(Clone, Copy, PartialEq, Eq, Structural, Debug)]
pub struct TunnelStats {
    /// Bytes read from the client and passed to the destination.
    pub client_to_dest: usize,
    /// Bytes read from the destination and passed to the client.
    pub dest_to_client: usize,
}

/// Why a tunnel could not be started.
#[derive(Clone, Copy, PartialEq, Eq, Structural, Debug)]
pub enum TunnelError {
    /// The tunnel was started before, and gave its streams away then.
    AlreadyStarted,
}

/// Two established streams waiting to be joined, with a name for each side.
///
/// The stream types are whatever the driver uses; the tunnel only keeps them
/// until it is started.
pub struct Tunnel<C, T> {
    client_dest: Option<(C, T)>,
    client_name: String,
    dest_name: String,
}

/// A started tunnel: the two streams, released to the driver, and the relay of
/// each direction with its label.
pub struct TunnelSession<C, T> {
    /// The client-facing stream.
    pub client: C,
    /// The destination-facing stream.
    pub dest: T,
    /// The label of the client-to-destination direction.
    pub upstream_label: String,
    /// The relay that copies from the client to the destination.
    pub upstream: Relay,
    /// The label of the destination-to-client direction.
    pub downstream_label: String,
    /// The relay that copies from the destination to the client.
    pub downstream: Relay,
}

/// The label of the direction that copies from the side named `from` to the
/// side named `to`.
pub open spec fn direction_label(from: Seq<char>, to: Seq<char>) -> Seq<char> {
    from + " -> "@ + to
}

/// The result of a tunnel, from the results of its two directions: the counts
/// of both if both succeeded, else the error of the destination-to-client
/// direction if it has one, else that of the client-to-destination direction.
pub open spec fn joined<X>(upstream: Result<usize, X>, downstream: Result<usize, X>) -> Result<
    TunnelStats,
    X,
> {
    match downstream {
        Err(error) => Err(error),
        Ok(dest_to_client) => match upstream {
            Err(error) => Err(error),
            Ok(client_to_dest) => Ok(TunnelStats { client_to_dest, dest_to_client }),
        },
    }
}

fn label(from: &String, to: &String) -> (text: String)
    ensures
        text@ == direction_label(from@, to@),
{
    let mut text = from.clone();
    text.append(" -> ");
    text.append(to.as_str());
    text
}

impl TunnelStats {
    /// Combines the results of the two directions of one tunnel, once both
    /// have ended. If either failed the tunnel failed, and the count of the
    /// other direction is dropped.
    pub fn combine<X>(upstream: Result<usize, X>, downstream: Result<usize, X>) -> (r: Result<
        TunnelStats,
        X,
    >)
        ensures
            r == joined(upstream, downstream),
    {
        match downstream {
            Err(error) => Err(error),
            Ok(dest_to_client) => match upstream {
                Err(error) => Err(error),
                Ok(client_to_dest) => Ok(TunnelStats { client_to_dest, dest_to_client }),
            },
        }
    }
}

impl<C, T> Tunnel<C, T> {
    /// The streams the tunnel holds, client first; none once it was started.
    pub closed spec fn streams(&self) -> Option<(C, T)> {
        self.client_dest
    }

    /// The name of the client side.
    pub closed spec fn client_name(&self) -> Seq<char> {
        self.client_name@
    }

    /// The name of the destination side.
    pub closed spec fn dest_name(&self) -> Seq<char> {
        self.dest_name@
    }

    /// Pairs two established streams under the given names.
    pub fn new(client_name: String, client: C, dest_name: String, dest: T) -> (tunnel: Self)
        ensures
            tunnel.streams() == Some((client, dest)),
            tunnel.client_name() == client_name@,
            tunnel.dest_name() == dest_name@,
    {
        Tunnel { client_dest: Some((client, dest)), client_name, dest_name }
    }

    /// Starts the tunnel: releases both streams and sets up a relay for each
    /// direction, neither of which has begun.
    ///
    /// A tunnel can be started once. After that it holds no streams, and
    /// starting it again is refused.
    pub fn start(&mut self) -> (r: Result<TunnelSession<C, T>, TunnelError>)
        ensures
            r is Ok <==> old(self).streams() is Some,
            r matches Ok(session) ==> {
                &&& old(self).streams() == Some((session.client, session.dest))
                &&& session.upstream_label@ == direction_label(
                    old(self).client_name(),
                    old(self).dest_name(),
                )
                &&& session.downstream_label@ == direction_label(
                    old(self).dest_name(),
                    old(self).client_name(),
                )
                &&& session.upstream == Relay::fresh()
                &&& session.downstream == Relay::fresh()
            },
            r matches Err(error) ==> error == TunnelError::AlreadyStarted,
            final(self).streams() is None,
            final(self).client_name() == old(self).client_name(),
            final(self).dest_name() == old(self).dest_name(),
    {
        match self.client_dest.take() {
            None => Err(TunnelError::AlreadyStarted),
            Some((client, dest)) => Ok(
                TunnelSession {
                    client,
                    dest,
                    upstream_label: label(&self.client_name, &self.dest_name),
                    upstream: Relay::new(),
                    downstream_label: label(&self.dest_name, &self.client_name),
                    downstream: Relay::new(),
                },
            ),
        }
    }
}

/// The two directions of a tunnel do not mix. Whatever is delivered in one
/// direction, and however the other direction fares meanwhile, each relay
/// hands on to its destination exactly the bytes of its own source, in order.
pub proof fn lemma_directions_stay_apart<E>(
    upstream: Seq<RelayEvent<E>>,
    downstream: Seq<RelayEvent<E>>,
)
    requires
        Relay::fresh().well_driven(upstream),
        Relay::fresh().well_driven(downstream),
    ensures
        Relay::fresh().forwarded(upstream) == delivered(upstream),
        Relay::fresh().forwarded(downstream) == delivered(downstream),
{
    lemma_relay_forwards_what_it_reads(upstream);
    lemma_relay_forwards_what_it_reads(downstream);
}

/// The statistics of a tunnel are the bytes of each direction. When both
/// relays run to their end, the tunnel reports for each direction the number
/// of bytes that its source delivered, however the reads were cut and whatever
/// happened in the other direction. A direction whose source ends at once
/// counts zero and leaves the count of the other untouched.
pub proof fn lemma_stats_count_both_directions<E>(
    upstream: Seq<RelayEvent<E>>,
    downstream: Seq<RelayEvent<E>>,
)
    requires
        Relay::fresh().well_driven(upstream),
        Relay::fresh().well_driven(downstream),
        delivered(upstream).len() <= usize::MAX,
        delivered(downstream).len() <= usize::MAX,
        Relay::fresh().run(upstream).phase is Finished,
        Relay::fresh().run(downstream).phase is Finished,
    ensures
        reported(Relay::fresh().answer(upstream)) is Some,
        reported(Relay::fresh().answer(downstream)) is Some,
        joined(
            reported(Relay::fresh().answer(upstream))->0,
            reported(Relay::fresh().answer(downstream))->0,
        ) == Ok::<TunnelStats, RelayError<E>>(
            TunnelStats {
                client_to_dest: delivered(upstream).len() as usize,
                dest_to_client: delivered(downstream).len() as usize,
            },
        ),
{
    lemma_relay_counts_what_it_reads(upstream);
    lemma_relay_counts_what_it_reads(downstream);
}

/// A tunnel fails if either direction fails. The error it reports is that of
/// the destination-to-client direction if that one failed, else that of the
/// other direction; it reports statistics only if both directions finished.
pub proof fn lemma_tunnel_fails_with_a_direction<X>(
    upstream: Result<usize, X>,
    downstream: Result<usize, X>,
)
    ensures
        joined(upstream, downstream) is Ok <==> upstream is Ok && downstream is Ok,
        downstream matches Err(error) ==> joined(upstream, downstream) == Err::<TunnelStats, X>(
            error,
        ),
        downstream is Ok ==> (upstream matches Err(error) ==> joined(upstream, downstream) == Err::<
            TunnelStats,
            X,
        >(error)),
{
}

} // verus!
