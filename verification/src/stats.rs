//! The counters of a transfer.

use crate::items::Stats;
use crate::packet::TRANSFER_BUFFER_SIZE;
use vstd::prelude::*;

verus! {

/// Where the counters of a transfer stand.
#[derive(Clone, Copy, Debug, PartialEq, Eq, Structural)]
pub struct TransferStats {
    pub confirmed_packets: usize,
    pub sent_packets: usize,
    pub total_data: usize,
    pub complete: bool,
}

/// A loss: `lost` of `sent` packets.
#[derive(Clone, Copy, Debug, PartialEq, Eq, Structural)]
pub struct Loss {
    pub lost: usize,
    pub sent: usize,
}

/// How many of the packets that were sent are not confirmed.
pub open spec fn lost(sent: int, confirmed: int) -> int {
    if sent > confirmed {
        sent - confirmed
    } else {
        0
    }
}

impl Default for TransferStats {
    fn default() -> (stats: Self)
        ensures
            stats == (TransferStats {
                confirmed_packets: 0,
                sent_packets: 0,
                total_data: 0,
                complete: false,
            }),
    {
        TransferStats { confirmed_packets: 0, sent_packets: 0, total_data: 0, complete: false }
    }
}

impl TransferStats {
    /// The confirmed bytes.
    pub fn confirmed(&self) -> (bytes: usize)
        requires
            self.confirmed_packets * TRANSFER_BUFFER_SIZE <= usize::MAX,
        ensures
            bytes == self.confirmed_packets * TRANSFER_BUFFER_SIZE,
    {
        self.confirmed_packets * TRANSFER_BUFFER_SIZE
    }

    /// What was lost on the way, as a fraction of what was sent; `None` where nothing was sent.
    pub fn packet_loss(&self) -> (loss: Option<Loss>)
        ensures
            match loss {
                None => self.sent_packets == 0,
                Some(loss) => {
                    &&& self.sent_packets > 0
                    &&& loss.sent == self.sent_packets
                    &&& loss.lost == lost(self.sent_packets as int, self.confirmed_packets as int)
                },
            },
    {
        let sent: usize = self.sent_packets;
        if sent == 0 {
            return None;
        }
        Some(Loss { lost: sent.saturating_sub(self.confirmed_packets), sent })
    }

    /// The bytes to transfer.
    pub fn total(&self) -> (bytes: usize)
        ensures
            bytes == self.total_data,
    {
        self.total_data
    }

    pub fn is_complete(&self) -> (complete: bool)
        ensures
            complete == self.complete,
    {
        self.complete
    }

    /// Takes over counters that a remote client reports, those that are asked for.
    pub fn report(&mut self, stats: &Stats, sent: bool, confirmed: bool, total: bool)
        ensures
            final(self).complete == old(self).complete,
            final(self).sent_packets == if sent {
                stats.sent_packets as usize
            } else {
                old(self).sent_packets
            },
            final(self).confirmed_packets == if confirmed {
                stats.confirmed_packets as usize
            } else {
                old(self).confirmed_packets
            },
            final(self).total_data == if total {
                stats.total_data as usize
            } else {
                old(self).total_data
            },
    {
        if sent {
            self.sent_packets = stats.sent_packets as usize;
        }
        if confirmed {
            self.confirmed_packets = stats.confirmed_packets as usize;
        }
        if total {
            self.total_data = stats.total_data as usize;
        }
    }
}

impl Stats {
    /// The counters as they are reported.
    pub fn from(stats: &TransferStats) -> (report: Self)
        ensures
            report.confirmed_packets == stats.confirmed_packets,
            report.sent_packets == stats.sent_packets,
            report.total_data == stats.total_data,
    {
        Stats {
            confirmed_packets: stats.confirmed_packets as u64,
            sent_packets: stats.sent_packets as u64,
            total_data: stats.total_data as u64,
        }
    }
}

/// A lost packet is one that was sent: the loss never exceeds what was sent, and with what was
/// confirmed it makes up all that was sent, unless more was confirmed than sent.
pub proof fn law_loss(sent: int, confirmed: int)
    requires
        0 <= confirmed,
        0 < sent,
    ensures
        0 <= lost(sent, confirmed) <= sent,
        confirmed <= sent ==> lost(sent, confirmed) + confirmed == sent,
        lost(sent, confirmed) == 0 <==> confirmed >= sent,
{
}

/// The line that a remote client writes to its output: the encoded report and a newline.
pub fn stats_line(encoded: &Vec<u8>) -> (line: Vec<u8>)
    ensures
        line@ == encoded@.push(10u8),
{
    let mut line = encoded.clone();
    proof {
        assert(line@ =~= encoded@);
    }
    line.push(10);
    line
}

/// The encoded report in what a remote client wrote: the last byte is a newline.
pub fn stats_payload(data: &Vec<u8>) -> (payload: Vec<u8>)
    requires
        data@.len() > 0,
    ensures
        payload@ == data@.drop_last(),
{
    let mut payload = data.clone();
    proof {
        assert(payload@ =~= data@);
    }
    payload.truncate(data.len() - 1);
    proof {
        assert(payload@ =~= data@.drop_last());
    }
    payload
}

/// What one side puts into a line, the other side takes out of it.
pub proof fn law_stats_line(encoded: Seq<u8>)
    ensures
        encoded.push(10u8).drop_last() == encoded,
        encoded.push(10u8).len() > 0,
{
    assert(encoded.push(10u8).drop_last() =~= encoded);
}

/// Every packet that is confirmed stands for 1024 bytes.
pub proof fn law_confirmed(stats: TransferStats, bytes: usize)
    requires
        stats.confirmed_packets * TRANSFER_BUFFER_SIZE <= usize::MAX,
        call_ensures(TransferStats::confirmed, (&stats,), bytes),
    ensures
        bytes == 1024 * stats.confirmed_packets,
{
}

/// What is lost is what was sent and is not confirmed; there is no loss to speak of before
/// something was sent.
pub proof fn law_packet_loss(stats: TransferStats, loss: Option<Loss>)
    requires
        call_ensures(TransferStats::packet_loss, (&stats,), loss),
    ensures
        loss is None <==> stats.sent_packets == 0,
        loss matches Some(loss) ==> {
            &&& loss.sent == stats.sent_packets
            &&& stats.confirmed_packets <= stats.sent_packets ==> loss.lost
                + stats.confirmed_packets == stats.sent_packets
            &&& stats.confirmed_packets > stats.sent_packets ==> loss.lost == 0
        },
{
}

/// What one end reports of its counters, the other end takes over, those that are asked for, and
/// keeps its own of the others.
pub proof fn law_reported(
    counters: TransferStats,
    reported: Stats,
    stats: &mut TransferStats,
    sent: bool,
    confirmed: bool,
    total: bool,
)
    requires
        call_ensures(Stats::from, (&counters,), reported),
        call_ensures(TransferStats::report, (stats, &reported, sent, confirmed, total), ()),
    ensures
        final(stats).sent_packets == if sent {
            counters.sent_packets
        } else {
            old(stats).sent_packets
        },
        final(stats).confirmed_packets == if confirmed {
            counters.confirmed_packets
        } else {
            old(stats).confirmed_packets
        },
        final(stats).total_data == if total {
            counters.total_data
        } else {
            old(stats).total_data
        },
        final(stats).complete == old(stats).complete,
{
}

/// The report that one end puts into a line is the one that the other end takes out of it, and
/// the line ends with a line feed.
pub proof fn law_report_line(encoded: Vec<u8>, line: Vec<u8>, payload: Vec<u8>)
    requires
        call_ensures(stats_line, (&encoded,), line),
        call_ensures(stats_payload, (&line,), payload),
    ensures
        payload@ == encoded@,
        line@.len() == encoded@.len() + 1,
        line@.last() == 10,
{
    law_stats_line(encoded@);
}

/// The counters that are asked for are told.
pub proof fn law_counters(stats: TransferStats, total: usize, complete: bool)
    requires
        call_ensures(TransferStats::total, (&stats,), total),
        call_ensures(TransferStats::is_complete, (&stats,), complete),
    ensures
        total == stats.total_data,
        complete <==> stats.complete,
{
}

} // verus!
