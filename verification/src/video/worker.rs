//! Decisions of the video decoding loop: which queued command wins, how the
//! loop's counters move, and how a bounded decoding session spends its budget.
//!
//! The application runs the loop on its own thread; it reads packets, decodes
//! them, sends frames and sleeps as these functions direct.
use vstd::prelude::*;
use crate::player::WorkerPerFrameStatus;

verus! {

/// Decoded frames buffered between the decoding thread and the player.
pub const FRAME_QUEUE_CAP: usize = 32;

/// Packets read and decoded per turn of the loop before it pauses.
pub const PACKETS_PER_BURST: usize = 16;

/// A request sent to the decoding loop.
#[derive(Debug, Clone, Copy, PartialEq, Eq, Structural)]
pub enum DecodeCommand {
    /// Restart decoding from this position, in microseconds.
    Seek(i64),
    Shutdown,
}

/// What the loop does about the commands queued since its last turn.
#[derive(Debug, Clone, Copy, PartialEq, Eq, Structural)]
pub enum CommandAction {
    /// Nothing was asked.
    Continue,
    /// Seek to this position (the latest one asked for), then go on.
    Seek(i64),
    Shutdown,
}

/// The action for the queued commands `cmds` (oldest first): any shutdown
/// wins, else the latest seek, else nothing.
pub open spec fn command_action(cmds: Seq<DecodeCommand>) -> CommandAction
    decreases cmds.len(),
{
    if cmds.len() == 0 {
        CommandAction::Continue
    } else {
        let rest = command_action(cmds.drop_last());
        match cmds.last() {
            DecodeCommand::Shutdown => CommandAction::Shutdown,
            DecodeCommand::Seek(p) => match rest {
                CommandAction::Shutdown => CommandAction::Shutdown,
                _ => CommandAction::Seek(p),
            },
        }
    }
}

/// Decides what the queued commands ask of the loop.
pub fn drain_commands(cmds: &[DecodeCommand]) -> (r: CommandAction)
    ensures
        r == command_action(cmds@),
{
    let mut action = CommandAction::Continue;
    let mut i: usize = 0;
    while i < cmds.len()
        invariant
            i <= cmds@.len(),
            action == command_action(cmds@.take(i as int)),
        decreases cmds@.len() - i,
    {
        assert(cmds@.take(i + 1).drop_last() =~= cmds@.take(i as int));
        match cmds[i] {
            DecodeCommand::Shutdown => {
                action = CommandAction::Shutdown;
            },
            DecodeCommand::Seek(p) => {
                match action {
                    CommandAction::Shutdown => {},
                    _ => {
                        action = CommandAction::Seek(p);
                    },
                }
            },
        }
        i = i + 1;
    }
    assert(cmds@.take(i as int) =~= cmds@);
    action
}

/// A shutdown anywhere in the queue stops the loop, whatever was queued
/// around it.
pub proof fn law_shutdown_wins(cmds: Seq<DecodeCommand>, k: int)
    requires
        0 <= k < cmds.len(),
        cmds[k] == DecodeCommand::Shutdown,
    ensures
        command_action(cmds) == CommandAction::Shutdown,
    decreases cmds.len(),
{
    if k < cmds.len() - 1 {
        law_shutdown_wins(cmds.drop_last(), k);
    }
}

/// What the loop does when the demuxer has no more packets.
#[derive(Debug, Clone, Copy, PartialEq, Eq, Structural)]
pub enum EndAction {
    /// First time at the end: drain the decoder's delayed frames.
    Flush,
    /// Already flushed: wait for a command.
    Wait,
}

/// The loop's running counts of packets read and frames decoded since the
/// last seek (each wraps around at `u64::MAX`), the presentation time of the
/// last frame sent, and whether the end of the stream has been reached.
#[derive(Debug, Clone, Copy, PartialEq, Eq, Structural)]
pub struct WorkerCounters {
    pub demuxed: u64,
    pub decoded: u64,
    pub last_frame_pts_us: i64,
    pub at_end: bool,
}

impl WorkerCounters {
    /// Counts from zero, before the end of the stream.
    pub fn new() -> (r: WorkerCounters)
        ensures
            r.demuxed == 0 && r.decoded == 0 && r.last_frame_pts_us == 0 && !r.at_end,
    {
        WorkerCounters { demuxed: 0, decoded: 0, last_frame_pts_us: 0, at_end: false }
    }

    /// A seek starts the counts again, away from the end of the stream.
    pub fn on_seeked(&mut self)
        ensures
            final(self).demuxed == 0 && final(self).decoded == 0,
            final(self).last_frame_pts_us == 0 && !final(self).at_end,
    {
        self.demuxed = 0;
        self.decoded = 0;
        self.last_frame_pts_us = 0;
        self.at_end = false;
    }

    /// One more packet read.
    pub fn count_packet(&mut self)
        ensures
            *final(self) == (WorkerCounters { demuxed: old(self).demuxed.wrapping_add(1), ..*old(self) }),
    {
        self.demuxed = self.demuxed.wrapping_add(1);
    }

    /// One more frame decoded and sent, presented at `pts_us`.
    pub fn count_frame(&mut self, pts_us: i64)
        ensures
            *final(self) == (WorkerCounters {
                decoded: old(self).decoded.wrapping_add(1),
                last_frame_pts_us: pts_us,
                ..*old(self)
            }),
    {
        self.decoded = self.decoded.wrapping_add(1);
        self.last_frame_pts_us = pts_us;
    }

    /// The demuxer has no more packets: the decoder is flushed the first
    /// time, and the stream is then marked as ended until the next seek.
    pub fn on_demux_end(&mut self) -> (a: EndAction)
        ensures
            a == if old(self).at_end {
                EndAction::Wait
            } else {
                EndAction::Flush
            },
            *final(self) == (WorkerCounters { at_end: true, ..*old(self) }),
    {
        if self.at_end {
            EndAction::Wait
        } else {
            self.at_end = true;
            EndAction::Flush
        }
    }

    /// How long the loop rests after a turn: `pause_after_burst_ms`, or
    /// `END_OF_STREAM_PAUSE_MS` once the stream has ended and nothing was
    /// decoded.
    pub fn rest_ms(&self, decoded_any: bool) -> (r: u64)
        ensures
            r == if self.at_end && !decoded_any {
                END_OF_STREAM_PAUSE_MS
            } else if decoded_any {
                1u64
            } else {
                5u64
            },
    {
        if self.at_end && !decoded_any {
            END_OF_STREAM_PAUSE_MS
        } else {
            pause_after_burst_ms(decoded_any)
        }
    }

    /// The status the loop publishes, with whether it is still running.
    pub fn status(&self, running: bool) -> (r: WorkerPerFrameStatus)
        ensures
            r.demuxed_packets == self.demuxed,
            r.decoded_frames == self.decoded,
            r.last_frame_pts_us == self.last_frame_pts_us,
            r.worker_running == running,
    {
        WorkerPerFrameStatus {
            demuxed_packets: self.demuxed,
            decoded_frames: self.decoded,
            last_frame_pts_us: self.last_frame_pts_us,
            worker_running: running,
        }
    }
}

/// One thing that happens to the loop's counters during a run.
pub enum WorkerEvent {
    /// A packet was read (`count_packet`).
    Packet,
    /// A frame presented at this time was sent (`count_frame`).
    FrameSent(i64),
    /// The demuxer had no more packets (`on_demux_end`).
    End,
    /// A seek was carried out (`on_seeked`).
    Seeked,
}

impl WorkerCounters {
    /// The counters after `e`, as the methods' contracts state them.
    pub open spec fn after(self, e: WorkerEvent) -> WorkerCounters {
        match e {
            WorkerEvent::Packet => WorkerCounters { demuxed: self.demuxed.wrapping_add(1), ..self },
            WorkerEvent::FrameSent(t) => WorkerCounters {
                decoded: self.decoded.wrapping_add(1),
                last_frame_pts_us: t,
                ..self
            },
            WorkerEvent::End => WorkerCounters { at_end: true, ..self },
            WorkerEvent::Seeked => WorkerCounters { demuxed: 0, decoded: 0, last_frame_pts_us: 0, at_end: false },
        }
    }

    /// The counters after the events `es`, in order.
    pub open spec fn after_all(self, es: Seq<WorkerEvent>) -> WorkerCounters
        decreases es.len(),
    {
        if es.len() == 0 {
            self
        } else {
            self.after(es[0]).after_all(es.drop_first())
        }
    }

    /// How many of the end-of-stream events in `es` flush the decoder.
    pub open spec fn flushes(self, es: Seq<WorkerEvent>) -> nat
        decreases es.len(),
    {
        if es.len() == 0 {
            0
        } else {
            (if es[0] is End && !self.at_end {
                1nat
            } else {
                0nat
            }) + self.after(es[0]).flushes(es.drop_first())
        }
    }
}

/// Between two seeks the decoder is flushed at most once, and not at all when
/// the stream had already ended.
pub proof fn law_flush_once(c: WorkerCounters, es: Seq<WorkerEvent>)
    requires
        forall|i: int| 0 <= i < es.len() ==> !(#[trigger] es[i] is Seeked),
    ensures
        c.flushes(es) <= 1,
        c.at_end ==> c.flushes(es) == 0,
        c.flushes(es) == 1 ==> c.after_all(es).at_end,
    decreases es.len(),
{
    if es.len() > 0 {
        let t = es.drop_first();
        assert forall|i: int| 0 <= i < t.len() implies !(#[trigger] t[i] is Seeked) by {
            assert(t[i] == es[i + 1]);
        }
        assert(!(es[0] is Seeked));
        law_flush_once(c.after(es[0]), t);
        if c.after(es[0]).at_end {
            law_rests_at_end(c.after(es[0]), t);
        }
    }
}

/// Once the end of the stream has been seen and no seek follows, the loop
/// stays at the end and rests `END_OF_STREAM_PAUSE_MS` after a turn that
/// decoded nothing.
pub proof fn law_rests_at_end(c: WorkerCounters, es: Seq<WorkerEvent>)
    requires
        c.at_end,
        forall|i: int| 0 <= i < es.len() ==> !(#[trigger] es[i] is Seeked),
    ensures
        c.after_all(es).at_end,
    decreases es.len(),
{
    if es.len() > 0 {
        let t = es.drop_first();
        assert forall|i: int| 0 <= i < t.len() implies !(#[trigger] t[i] is Seeked) by {
            assert(t[i] == es[i + 1]);
        }
        assert(!(es[0] is Seeked));
        law_rests_at_end(c.after(es[0]), t);
    }
}

/// The status reports the time of the last frame sent: after a frame at `t`,
/// events that send no frame and do not seek leave it at `t`.
pub proof fn law_last_frame_reported(c: WorkerCounters, t: i64, es: Seq<WorkerEvent>)
    requires
        forall|i: int| 0 <= i < es.len() ==> !(#[trigger] es[i] is Seeked) && !(es[i] is FrameSent),
    ensures
        c.after_all(seq![WorkerEvent::FrameSent(t)] + es).last_frame_pts_us == t,
{
    let all = seq![WorkerEvent::FrameSent(t)] + es;
    assert(all.drop_first() =~= es);
    lemma_no_frame_keeps_time(c.after(WorkerEvent::FrameSent(t)), es);
}

proof fn lemma_no_frame_keeps_time(c: WorkerCounters, es: Seq<WorkerEvent>)
    requires
        forall|i: int| 0 <= i < es.len() ==> !(#[trigger] es[i] is Seeked) && !(es[i] is FrameSent),
    ensures
        c.after_all(es).last_frame_pts_us == c.last_frame_pts_us,
    decreases es.len(),
{
    if es.len() > 0 {
        let t = es.drop_first();
        assert forall|i: int| 0 <= i < t.len() implies !(#[trigger] t[i] is Seeked) && !(t[i] is FrameSent) by {
            assert(t[i] == es[i + 1]);
        }
        assert(!(es[0] is Seeked) && !(es[0] is FrameSent));
        lemma_no_frame_keeps_time(c.after(es[0]), t);
    }
}

/// What reading from the demuxer gave.
#[derive(Debug, Clone, Copy, PartialEq, Eq, Structural)]
pub enum PacketRead {
    /// A packet.
    Packet,
    /// No more packets.
    End,
    /// The demuxer failed.
    Failed,
}

/// What the loop does after a read.
#[derive(Debug, Clone, Copy, PartialEq, Eq, Structural)]
pub enum BurstAction {
    /// Decode the packet and send its frames (a decoding error skips it).
    Decode,
    /// Flush the decoder, send its frames, and end the turn.
    Flush,
    /// End the turn.
    Stop,
}

/// One turn of the loop: at most `PACKETS_PER_BURST` reads, and whether a
/// frame was sent.
#[derive(Debug, Clone, Copy, PartialEq, Eq, Structural)]
pub struct Burst {
    pub reads: usize,
    pub decoded_any: bool,
}

impl Burst {
    /// A turn with nothing read yet.
    pub fn new() -> (r: Burst)
        ensures
            r.reads == 0 && !r.decoded_any,
    {
        Burst { reads: 0, decoded_any: false }
    }

    /// Whether the turn reads another packet.
    pub fn wants_read(&self) -> (r: bool)
        ensures
            r == (self.reads < PACKETS_PER_BURST),
    {
        self.reads < PACKETS_PER_BURST
    }

    /// Handles a read: a packet is counted and decoded; the end of the
    /// stream flushes the decoder the first time and then ends the turn; a
    /// demuxer failure ends the turn.
    pub fn on_read(&mut self, counters: &mut WorkerCounters, read: PacketRead) -> (a: BurstAction)
        requires
            old(self).reads < PACKETS_PER_BURST,
        ensures
            final(self).reads == old(self).reads + 1,
            final(self).decoded_any == old(self).decoded_any,
            match read {
                PacketRead::Packet => a == BurstAction::Decode && *final(counters) == old(counters).after(WorkerEvent::Packet),
                PacketRead::End => a == (if old(counters).at_end {
                    BurstAction::Stop
                } else {
                    BurstAction::Flush
                }) && *final(counters) == old(counters).after(WorkerEvent::End),
                PacketRead::Failed => a == BurstAction::Stop && *final(counters) == *old(counters),
            },
    {
        self.reads = self.reads + 1;
        match read {
            PacketRead::Packet => {
                counters.count_packet();
                BurstAction::Decode
            },
            PacketRead::End => match counters.on_demux_end() {
                EndAction::Flush => BurstAction::Flush,
                EndAction::Wait => BurstAction::Stop,
            },
            PacketRead::Failed => BurstAction::Stop,
        }
    }

    /// A frame presented at `pts_us` was sent.
    pub fn on_frame_sent(&mut self, counters: &mut WorkerCounters, pts_us: i64)
        ensures
            final(self).reads == old(self).reads,
            final(self).decoded_any,
            *final(counters) == old(counters).after(WorkerEvent::FrameSent(pts_us)),
    {
        counters.count_frame(pts_us);
        self.decoded_any = true;
    }

    /// How long the loop rests after this turn.
    pub fn rest_ms(&self, counters: &WorkerCounters) -> (r: u64)
        ensures
            r == if counters.at_end && !self.decoded_any {
                END_OF_STREAM_PAUSE_MS
            } else if self.decoded_any {
                1u64
            } else {
                5u64
            },
    {
        counters.rest_ms(self.decoded_any)
    }
}

/// How long the loop rests after a turn at the end of the stream.
pub const END_OF_STREAM_PAUSE_MS: u64 = 20;

/// How long the loop rests after a turn: briefly when it decoded something,
/// longer when it did not.
pub fn pause_after_burst_ms(decoded_any: bool) -> (r: u64)
    ensures
        r == if decoded_any {
            1u64
        } else {
            5u64
        },
{
    if decoded_any {
        1
    } else {
        5
    }
}

/// Packets a bounded decoding session reads at most.
pub const SESSION_PACKET_LIMIT: usize = 200;

/// A decoding session that stops after `max_frames` frames or
/// `SESSION_PACKET_LIMIT` packets.
#[derive(Debug, Clone, Copy, PartialEq, Eq, Structural)]
pub struct DecodeBudget {
    pub max_frames: usize,
    pub decoded: usize,
    pub packets_tried: usize,
}

impl DecodeBudget {
    /// The counts never pass their limits.
    pub open spec fn wf(&self) -> bool {
        self.decoded <= self.max_frames && self.packets_tried <= SESSION_PACKET_LIMIT
    }

    /// A session with nothing decoded yet.
    pub fn new(max_frames: usize) -> (r: DecodeBudget)
        ensures
            r.wf(),
            r.max_frames == max_frames && r.decoded == 0 && r.packets_tried == 0,
    {
        DecodeBudget { max_frames, decoded: 0, packets_tried: 0 }
    }

    /// Whether another packet is read.
    pub fn wants_packet(&self) -> (r: bool)
        ensures
            r == (self.decoded < self.max_frames && self.packets_tried < SESSION_PACKET_LIMIT),
    {
        self.decoded < self.max_frames && self.packets_tried < SESSION_PACKET_LIMIT
    }

    /// Counts a packet of `len` bytes; whether it is worth decoding (packets
    /// under four bytes are skipped).
    pub fn on_packet(&mut self, len: usize) -> (decode: bool)
        requires
            old(self).wf(),
            old(self).packets_tried < SESSION_PACKET_LIMIT,
        ensures
            final(self).wf(),
            *final(self) == (DecodeBudget { packets_tried: (old(self).packets_tried + 1) as usize, ..*old(self) }),
            decode == (len >= 4),
    {
        self.packets_tried = self.packets_tried + 1;
        len >= 4
    }

    /// Counts a decoded frame; whether more frames are taken.
    pub fn on_frame(&mut self) -> (more: bool)
        requires
            old(self).wf(),
            old(self).decoded < old(self).max_frames,
        ensures
            final(self).wf(),
            *final(self) == (DecodeBudget { decoded: (old(self).decoded + 1) as usize, ..*old(self) }),
            more == (final(self).decoded < final(self).max_frames),
    {
        self.decoded = self.decoded + 1;
        self.decoded < self.max_frames
    }

    /// Whether the decoder's delayed frames are still wanted at the end.
    pub fn wants_flush(&self) -> (r: bool)
        ensures
            r == (self.decoded < self.max_frames),
    {
        self.decoded < self.max_frames
    }
}

} // verus!
