use crate::error::StackError;
use crate::protocol::engine::{
    packet_error, shutdown_spec, shutdown_view, Engine, PacketOutcome, ShutdownOutcome,
    ShutdownView,
};
use crate::application::ServerApp;
use crate::ipv4_header::ipv4_parse_result;
use crate::protocol::router::{router_parsed, router_reply};
use crate::protocol::tcp::tcp_parsed_fields;
use crate::protocol::tcp::connections::{failed_table, is_closing, retransmit_spec, segs_fields, TableView};
use crate::protocol::tcp::TcpSegment;
use vstd::prelude::*;

verus! {

/// The result of polling the device, and optionally the shutdown eventfd, for readability.
#[derive(Clone, Copy, Debug, PartialEq, Eq, Structural)]
pub enum PollOutcome {
    /// The device became readable and the shutdown eventfd did not.
    Readable,
    /// The shutdown eventfd became readable and the device did not.
    Shutdown,
    /// Both became readable.
    Both,
    /// The timeout elapsed with neither becoming readable.
    Timeout,
}

/// What the server loop observed since its last step. Failed polls and reads are not events: the
/// loop stops on them with their error.
#[derive(Debug)]
pub enum LoopEvent {
    /// Polling was interrupted by a signal; `shutdown` tells whether shutdown was requested.
    PollInterrupted { shutdown: bool },
    /// Polling returned `outcome`; `shutdown` tells whether shutdown was requested.
    Polled { outcome: PollOutcome, shutdown: bool },
    /// Reading the device was interrupted by a signal; `shutdown` tells whether shutdown was
    /// requested.
    ReadInterrupted { shutdown: bool },
    /// A packet was read. `shutdown_too` tells whether the poll before it also saw the shutdown
    /// eventfd readable while shutdown was requested; `isn` is a fresh random initial sequence
    /// number for a connection the packet may open.
    PacketRead { data: Vec<u8>, isn: u32, shutdown_too: bool },
}

/// What the server loop does next.
#[derive(Debug)]
pub enum Reaction {
    /// Poll again.
    Wait,
    /// Read a packet from the device.
    Read,
    /// A shutdown signal was handled with `outcome`: send any FIN-ACKs it carries, then exit if
    /// `exit`, otherwise poll again.
    Shutdown { outcome: ShutdownOutcome, exit: bool },
    /// The grace period elapsed with `remaining` connections: exit.
    GraceElapsed { remaining: usize },
    /// Retransmission deadlines passed: send these segments, then poll again.
    Retransmit { to_send: Vec<TcpSegment> },
    /// A packet was handled (or skipped, with the reason): send any reply, then handle `shutdown`
    /// the same way as a shutdown signal, then exit if `exit`, otherwise poll again.
    Packet {
        handled: Result<PacketOutcome, StackError>,
        shutdown: Option<ShutdownOutcome>,
        exit: bool,
    },
}

/// The decisions of the server loop, independent of any I/O: the caller polls and reads the
/// device, writes what it is told to, and feeds back what happened.
#[derive(Debug)]
pub struct Server {
    pub engine: Engine,
    /// Whether this loop has already reacted to a shutdown signal; once it has, it stops watching
    /// the shutdown eventfd (which stays readable) so that polling does not spin.
    pub draining: bool,
}

/// Whether handling the packet `data` with the connection table `t`, the server running `app`,
/// gave `handled` and left the table `t2` (see `Engine::handle_packet`): the packet is skipped or
/// fails exactly as `packet_error` says, a skipped packet leaves the table alone, and a handled one
/// is parsed and answered as `router_reply` says.
pub open spec fn packet_handled(
    data: Seq<u8>,
    t: TableView,
    app: ServerApp,
    isn: u32,
    now: u64,
    handled: Result<PacketOutcome, StackError>,
    t2: TableView,
) -> bool {
    &&& (handled is Err) == (packet_error(data, t, app, isn, now) is Some)
    &&& (handled matches Err(e) ==> packet_error(data, t, app, isn, now) == Some(e))
    &&& (handled matches Err(e) ==> e is SkippingPacket ==> t2 == t)
    &&& (handled matches Err(e) ==> e is CreatingReply ==> (ipv4_parse_result(data) matches Ok((h, p))
        && t2 == failed_table(t, tcp_parsed_fields(p, h.ip_pair), now)))
    &&& (handled matches Ok(o) ==> ipv4_parse_result(data) matches Ok((h, p)) && o.incoming.ipv4_hdr
        == h && router_parsed(o.incoming.router, p, h.protocol, h.ip_pair) && router_reply(
        o.incoming.router,
        t,
        app,
        isn,
        now,
        o.reply,
        t2,
    ))
}

/// Whether `c` has no connection closing and a shutdown under way.
pub open spec fn drained(e: Engine) -> bool {
    e.shutdown_deadline is Some && !(exists|i: int|
        0 <= i < e.tcp_connections.table().len() && is_closing(
            #[trigger] e.tcp_connections.table()[i].1.tcp_state,
        ))
}

impl Server {
    /// Well-formedness: the engine is well formed.
    pub open spec fn wf(&self) -> bool {
        self.engine.wf()
    }

    /// A server loop around `engine`, not yet draining.
    pub fn new(engine: Engine) -> (r: Self)
        ensures
            r.engine == engine,
            !r.draining,
    {
        Server { engine, draining: false }
    }

    /// What to poll with at `now`: the timeout (see `Engine::poll_timeout`) and whether to watch
    /// the shutdown eventfd, which is only until the loop first reacts to a shutdown signal.
    pub fn poll_args(&self, now: u64) -> (r: (Option<u128>, bool))
        ensures
            r.1 == !self.draining,
            r.0 == self.engine.poll_timeout_spec(now),
    {
        (self.engine.poll_timeout(now), !self.draining)
    }

    /// Whether `now` has reached the shutdown deadline.
    pub fn grace_period_elapsed(&self, now: u64) -> (r: bool)
        ensures
            r == (self.engine.shutdown_deadline matches Some(d) && d <= now),
    {
        self.engine.grace_period_elapsed(now)
    }

    /// Reacts to a shutdown signal at `now`: the loop is draining from then on, and the engine
    /// decides (see `shutdown_spec`); the loop exits if there was nothing to wait for.
    fn on_shutdown(&mut self, now: u64) -> (r: Result<(ShutdownOutcome, bool), StackError>)
        requires
            old(self).wf(),
        ensures
            final(self).wf(),
            final(self).draining,
            final(self).engine.shutdown_grace_period == old(self).engine.shutdown_grace_period,
            final(self).engine.app == old(self).engine.app,
            final(self).engine.tcp_connections.rto == old(self).engine.tcp_connections.rto,
            final(self).engine.tcp_connections.max_retries == old(self).engine.tcp_connections.max_retries,
            (shutdown_view(
                match r {
                    Ok((o, _)) => Ok(o),
                    Err(e) => Err(e),
                },
            ), final(self).engine.tcp_connections.table(), final(self).engine.shutdown_deadline)
                == shutdown_spec(
                old(self).engine.tcp_connections.table(),
                old(self).engine.shutdown_grace_period,
                old(self).engine.shutdown_deadline,
                now,
            ),
            (r matches Ok((o, exit)) ==> exit == (o is NoConnections)),
    {
        self.draining = true;
        match self.engine.handle_shutdown(now) {
            Err(e) => Err(e),
            Ok(outcome) => {
                let exit = match outcome {
                    ShutdownOutcome::NoConnections => true,
                    _ => false,
                };
                Ok((outcome, exit))
            },
        }
    }

    /// Decides what the loop does next after `event` at `now`:
    /// - an interruption, or a poll that saw only the shutdown eventfd, is a shutdown signal if
    ///   shutdown was requested (see `on_shutdown`) and is otherwise ignored;
    /// - a poll that timed out ends the loop if the grace period elapsed, and otherwise
    ///   retransmits what is due;
    /// - a poll that saw the device readable leads to a read;
    /// - a packet read is handled (a packet that fails to parse or to get a reply is skipped, not
    ///   an error), then a shutdown signal that came with it, then the loop exits if that said so
    ///   or if the shutdown under way has no connection left closing.
    ///
    /// Only an error of the shutdown handling (a deadline that overflows) is returned as an error.
    pub fn react(&mut self, event: LoopEvent, now: u64) -> (r: Result<Reaction, StackError>)
        requires
            old(self).wf(),
        ensures
            final(self).wf(),
            (match event {
                LoopEvent::PollInterrupted { shutdown } | LoopEvent::ReadInterrupted { shutdown }
                | LoopEvent::Polled { outcome: PollOutcome::Shutdown, shutdown } => if shutdown {
                    (shutdown_view(
                        match r {
                            Ok(Reaction::Shutdown { outcome, .. }) => Ok(outcome),
                            Err(e) => Err(e),
                            _ => Err(StackError::Overflowed),
                        },
                    ), final(self).engine.tcp_connections.table(), final(self).engine.shutdown_deadline)
                        == shutdown_spec(
                        old(self).engine.tcp_connections.table(),
                        old(self).engine.shutdown_grace_period,
                        old(self).engine.shutdown_deadline,
                        now,
                    ) && final(self).draining && (r is Ok ==> (r matches Ok(
                        Reaction::Shutdown { outcome, exit },
                    ) && exit == (outcome is NoConnections)))
                } else {
                    r matches Ok(Reaction::Wait) && final(self).engine == old(self).engine
                        && final(self).draining == old(self).draining
                },
                LoopEvent::Polled { outcome: PollOutcome::Timeout, .. } => if old(
                    self,
                ).engine.shutdown_deadline matches Some(d) && d <= now {
                    r == Ok::<_, StackError>(
                        Reaction::GraceElapsed {
                            remaining: old(self).engine.tcp_connections.table().len() as usize,
                        },
                    ) && final(self).engine == old(self).engine && final(self).draining == old(
                        self,
                    ).draining
                } else {
                    r matches Ok(Reaction::Retransmit { to_send }) && (
                    final(self).engine.tcp_connections.table(),
                    segs_fields(to_send@),
                    ) == retransmit_spec(
                        old(self).engine.tcp_connections.table(),
                        old(self).engine.tcp_connections.rto,
                        old(self).engine.tcp_connections.max_retries,
                        now,
                    ) && final(self).engine.shutdown_deadline == old(self).engine.shutdown_deadline
                        && final(self).draining == old(self).draining
                },
                LoopEvent::Polled { .. } => r matches Ok(Reaction::Read) && final(self).engine
                    == old(self).engine && final(self).draining == old(self).draining,
                LoopEvent::PacketRead { data, isn, shutdown_too } => match r {
                    Ok(Reaction::Packet { handled, shutdown, exit }) => {
                        &&& final(self).engine.app == old(self).engine.app
                        &&& !shutdown_too ==> packet_handled(
                            data@,
                            old(self).engine.tcp_connections.table(),
                            old(self).engine.app,
                            isn,
                            now,
                            handled,
                            final(self).engine.tcp_connections.table(),
                        ) && final(self).engine.shutdown_deadline == old(self).engine.shutdown_deadline
                        &&& shutdown_too ==> exists|t2: TableView|
                            #[trigger] packet_handled(
                                data@,
                                old(self).engine.tcp_connections.table(),
                                old(self).engine.app,
                                isn,
                                now,
                                handled,
                                t2,
                            ) && (shutdown matches Some(o) && (
                                shutdown_view(Ok(o)),
                                final(self).engine.tcp_connections.table(),
                                final(self).engine.shutdown_deadline,
                            ) == shutdown_spec(
                                t2,
                                old(self).engine.shutdown_grace_period,
                                old(self).engine.shutdown_deadline,
                                now,
                            ))
                        &&& (shutdown is Some) == shutdown_too
                        &&& shutdown_too ==> final(self).draining
                        &&& !shutdown_too ==> final(self).draining == old(self).draining
                            && !exit == !drained(final(self).engine)
                        &&& (shutdown matches Some(o) ==> exit == (o is NoConnections || drained(
                            final(self).engine,
                        )))
                    },
                    Err(e) => shutdown_too && exists|h: Result<PacketOutcome, StackError>, t2: TableView|
                        #[trigger] packet_handled(
                            data@,
                            old(self).engine.tcp_connections.table(),
                            old(self).engine.app,
                            isn,
                            now,
                            h,
                            t2,
                        ) && (
                            Err::<ShutdownView, _>(e),
                            final(self).engine.tcp_connections.table(),
                            final(self).engine.shutdown_deadline,
                        ) == shutdown_spec(
                            t2,
                            old(self).engine.shutdown_grace_period,
                            old(self).engine.shutdown_deadline,
                            now,
                        ),
                    _ => false,
                },
            }),
    {
        match event {
            LoopEvent::PollInterrupted { shutdown } | LoopEvent::ReadInterrupted { shutdown }
            | LoopEvent::Polled { outcome: PollOutcome::Shutdown, shutdown } => {
                if shutdown {
                    match self.on_shutdown(now) {
                        Ok((outcome, exit)) => Ok(Reaction::Shutdown { outcome, exit }),
                        Err(e) => Err(e),
                    }
                } else {
                    // Interrupted by a signal unrelated to shutdown -> just poll again
                    Ok(Reaction::Wait)
                }
            },
            LoopEvent::Polled { outcome: PollOutcome::Timeout, .. } => {
                if self.engine.grace_period_elapsed(now) {
                    // Grace period ended with connections left -> forcefully exit
                    Ok(Reaction::GraceElapsed { remaining: self.engine.connection_count() })
                } else {
                    // A retransmit deadline elapsed -> retransmit all expired segments
                    Ok(Reaction::Retransmit { to_send: self.engine.make_retransmissions(now) })
                }
            },
            LoopEvent::Polled { .. } => Ok(Reaction::Read),
            LoopEvent::PacketRead { data, isn, shutdown_too } => {
                let handled = self.engine.handle_packet(data.as_slice(), isn, now);
                let ghost t_mid = self.engine.tcp_connections.table();
                assert(packet_handled(
                    data@,
                    old(self).engine.tcp_connections.table(),
                    old(self).engine.app,
                    isn,
                    now,
                    handled,
                    t_mid,
                ));
                let mut exit = false;
                let shutdown = if shutdown_too {
                    match self.on_shutdown(now) {
                        Ok((o, stop)) => {
                            exit = stop;
                            Some(o)
                        },
                        Err(e) => return Err(e),
                    }
                } else {
                    None
                };
                if !exit && self.engine.draining_complete() {
                    exit = true;
                }
                Ok(Reaction::Packet { handled, shutdown, exit })
            },
        }
    }
}

} // verus!
