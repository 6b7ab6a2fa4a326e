//! The network sampler's decisions: which probe replies count as lost, the
//! loss percentage over a series of probes, and the sample built from a
//! latency measurement and a finished probe series.
use vstd::prelude::*;
use crate::monitor::NetworkMetrics;

verus! {

/// Number of probes in a full network sample.
pub const SAMPLE_PROBES: u64 = 10;

/// What one probe request came back with.
#[derive(Clone, Copy, Debug, PartialEq, Eq, Structural)]
pub enum ProbeReply {
    /// The exchange failed: connection, timeout or protocol error.
    TransportError,
    /// A response arrived with this HTTP status code.
    Status(u16),
}

/// A probe is lost when it failed or its status is not a 2xx success.
pub open spec fn is_lost(reply: ProbeReply) -> bool {
    match reply {
        ProbeReply::TransportError => true,
        ProbeReply::Status(code) => !(200 <= code <= 299),
    }
}

pub open spec fn count_lost(replies: Seq<ProbeReply>) -> nat
    decreases replies.len(),
{
    if replies.len() == 0 {
        0
    } else {
        count_lost(replies.drop_last()) + if is_lost(replies.last()) { 1nat } else { 0nat }
    }
}

proof fn lemma_count_lost_bound(replies: Seq<ProbeReply>)
    ensures
        count_lost(replies) <= replies.len(),
    decreases replies.len(),
{
    if replies.len() > 0 {
        lemma_count_lost_bound(replies.drop_last());
    }
}

/// Whether `reply` counts as a lost probe.
pub fn probe_lost(reply: ProbeReply) -> (r: bool)
    ensures
        r == is_lost(reply),
{
    match reply {
        ProbeReply::TransportError => true,
        ProbeReply::Status(code) => !(200 <= code && code <= 299),
    }
}

/// A series of probes: how many are planned, and the replies so far.
pub struct PacketLossProbe {
    planned: u64,
    sent: u64,
    lost: u64,
    replies: Ghost<Seq<ProbeReply>>,
}

impl PacketLossProbe {
    pub closed spec fn spec_planned(&self) -> nat {
        self.planned as nat
    }

    /// The replies recorded so far, in order.
    pub closed spec fn spec_replies(&self) -> Seq<ProbeReply> {
        self.replies@
    }

    pub closed spec fn wf(&self) -> bool {
        &&& self.sent == self.replies@.len()
        &&& self.sent <= self.planned
        &&& self.lost == count_lost(self.replies@)
    }

    /// A series of `planned` probes with none sent yet.
    pub fn new(planned: u64) -> (r: PacketLossProbe)
        ensures
            r.wf(),
            r.spec_planned() == planned,
            r.spec_replies() == Seq::<ProbeReply>::empty(),
    {
        PacketLossProbe { planned, sent: 0, lost: 0, replies: Ghost(Seq::empty()) }
    }

    /// Whether every planned probe has been recorded.
    pub fn is_done(&self) -> (r: bool)
        requires
            self.wf(),
        ensures
            r == (self.spec_replies().len() == self.spec_planned()),
    {
        self.sent >= self.planned
    }

    /// Records the reply to the next probe.
    pub fn record(&mut self, reply: ProbeReply)
        requires
            old(self).wf(),
            old(self).spec_replies().len() < old(self).spec_planned(),
        ensures
            final(self).wf(),
            final(self).spec_planned() == old(self).spec_planned(),
            final(self).spec_replies() == old(self).spec_replies().push(reply),
    {
        let ghost after = self.replies@.push(reply);
        proof {
            assert(after.drop_last() =~= self.replies@);
            lemma_count_lost_bound(self.replies@);
        }
        if probe_lost(reply) {
            self.lost = self.lost + 1;
        }
        self.sent = self.sent + 1;
        self.replies = Ghost(after);
    }

    /// Number of lost probes among the replies recorded so far. The loss
    /// percentage is `lost * 100 / sent`.
    pub fn lost(&self) -> (r: u64)
        requires
            self.wf(),
        ensures
            r == count_lost(self.spec_replies()),
    {
        self.lost
    }

    /// Number of replies recorded so far.
    pub fn sent(&self) -> (r: u64)
        requires
            self.wf(),
        ensures
            r == self.spec_replies().len(),
    {
        self.sent
    }
}

/// A fresh sample from a latency measurement (whole milliseconds) and a
/// finished series of `SAMPLE_PROBES` probes, whose loss percentage is a
/// whole number: bandwidth is not measured and is 0, and the sample is not
/// yet scored.
pub fn sample_metrics(timestamp: u64, latency: u32, probe: &PacketLossProbe) -> (r: NetworkMetrics)
    requires
        probe.wf(),
        probe.spec_replies().len() == SAMPLE_PROBES,
    ensures
        r.timestamp == timestamp,
        r.latency == latency,
        r.packet_loss * SAMPLE_PROBES == count_lost(probe.spec_replies()) * 100,
        r.bandwidth == 0,
        !r.is_anomaly,
{
    proof {
        lemma_count_lost_bound(probe.spec_replies());
    }
    let per_probe: u64 = 100 / SAMPLE_PROBES;
    assert(per_probe == 10);
    let packet_loss = probe.lost() * per_probe;
    NetworkMetrics { timestamp, latency, packet_loss, bandwidth: 0, is_anomaly: false }
}

} // verus!
