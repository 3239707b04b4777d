//! The host's recording tool: what it decides between its dealings with the
//! debug probe, the terminal and the file system.

use vstd::prelude::*;

use crate::pcm::{decoded, joined, left_over, Decoder};
use crate::pdm::SAMPLE_RATE_HZ;

verus! {

/// The channel that carries audio if none bears its name.
pub const PCM_CHANNEL: usize = 1;

/// How long attaching to the target's channels may be retried: 3 s.
pub const ATTACH_DEADLINE_NS: u128 = 3_000_000_000;

/// The pause between two attempts to attach.
pub const ATTACH_RETRY_MS: u64 = 50;

/// The pause after a read that found nothing.
pub const IDLE_SLEEP_MS: u64 = 2;

/// The least time between two progress reports: 1 s.
pub const REPORT_EVERY_NS: u128 = 1_000_000_000;

/// Why the tool gives up.
#[derive(Clone, Copy, PartialEq, Eq, Structural, Debug)]
pub enum CaptureError {
    /// No firmware file was named.
    Usage,
    /// No debug probe is connected.
    NoProbe,
    /// The firmware has no channel to record.
    NoPcmChannel,
}

impl CaptureError {
    /// What the tool says.
    pub fn message(&self) -> (text: &'static str)
        ensures
            text@ == match *self {
                CaptureError::Usage => "usage: capture <firmware.elf> [out.wav]"@,
                CaptureError::NoProbe => "no debug probe found (is the DK plugged in?)"@,
                CaptureError::NoPcmChannel => "firmware has no RTT pcm channel"@,
            },
    {
        match self {
            CaptureError::Usage => "usage: capture <firmware.elf> [out.wav]",
            CaptureError::NoProbe => "no debug probe found (is the DK plugged in?)",
            CaptureError::NoPcmChannel => "firmware has no RTT pcm channel",
        }
    }
}

/// What the command line asks for.
pub struct Args {
    pub elf: String,
    pub wav: String,
}

/// Reads the command line, without the program's own name: the firmware file,
/// then, if given, the file to record to. What follows is ignored.
pub fn parse_args(args: &Vec<String>) -> (parsed: Result<Args, CaptureError>)
    ensures
        args@.len() == 0 ==> parsed == Err::<Args, CaptureError>(CaptureError::Usage),
        args@.len() > 0 ==> parsed is Ok && parsed->Ok_0.elf@ == args@[0]@ && parsed->Ok_0.wav@
            == if args@.len() > 1 {
            args@[1]@
        } else {
            "capture.wav"@
        },
{
    if args.len() == 0 {
        return Err(CaptureError::Usage);
    }
    let wav: String = if args.len() > 1 {
        args[1].clone()
    } else {
        "capture.wav".to_owned()
    };
    Ok(Args { elf: args[0].clone(), wav })
}

/// The probe to use of those found: the first.
pub fn pick_probe(found: usize) -> (picked: Result<usize, CaptureError>)
    ensures
        picked == if found == 0 {
            Err::<usize, CaptureError>(CaptureError::NoProbe)
        } else {
            Ok(0)
        },
{
    if found == 0 {
        Err(CaptureError::NoProbe)
    } else {
        Ok(0)
    }
}

/// Where to look for the channels' control block.
#[derive(Clone, Copy, PartialEq, Eq, Structural, Debug)]
pub enum ScanRegion {
    /// At this address.
    Exact(u64),
    /// All over the target's memory.
    Ram,
}

/// Where to look, given the address that the firmware file names, if any.
pub fn scan_region(symbol: Option<u64>) -> (region: ScanRegion)
    ensures
        region == match symbol {
            Some(address) => ScanRegion::Exact(address),
            None => ScanRegion::Ram,
        },
{
    match symbol {
        Some(address) => ScanRegion::Exact(address),
        None => ScanRegion::Ram,
    }
}

/// What follows an attempt to attach.
#[derive(Clone, Copy, PartialEq, Eq, Structural, Debug)]
pub enum Attach {
    /// It worked.
    Attached,
    /// Pause this long, then try again.
    RetryAfterMs(u64),
    /// It did not work in time.
    GiveUp,
}

/// An attempt to attach, which ended `waited_ns` after the first one began.
pub struct Attempt {
    pub attached: bool,
    pub waited_ns: u128,
}

/// What follows an attempt.
pub open spec fn attach_next(attempt: Attempt) -> Attach {
    if attempt.attached {
        Attach::Attached
    } else if attempt.waited_ns < ATTACH_DEADLINE_NS {
        Attach::RetryAfterMs(ATTACH_RETRY_MS)
    } else {
        Attach::GiveUp
    }
}

/// How attaching ends, if it ends with one of these attempts: as the first one that
/// is not followed by another.
pub open spec fn attach_end(attempts: Seq<Attempt>) -> Option<Attach>
    decreases attempts.len(),
{
    if attempts.len() == 0 {
        None
    } else if attach_end(attempts.drop_last()) is Some {
        attach_end(attempts.drop_last())
    } else if attach_next(attempts.last()) is RetryAfterMs {
        None
    } else {
        Some(attach_next(attempts.last()))
    }
}

/// The attempts before the `k`-th failed before the deadline.
pub open spec fn retried_before(attempts: Seq<Attempt>, k: int) -> bool {
    forall|i: int|
        0 <= i < k ==> !(#[trigger] attempts[i]).attached && attempts[i].waited_ns
            < ATTACH_DEADLINE_NS
}

/// Attaching succeeds exactly when some attempt does and all earlier ones failed
/// before the deadline of 3 s. It fails exactly when some attempt fails at the
/// deadline or later and all earlier ones failed before it. It goes on exactly as long
/// as all attempts fail before the deadline.
pub proof fn law_attaching_ends(attempts: Seq<Attempt>)
    ensures
        attach_end(attempts) == Some(Attach::Attached) <==> exists|k: int|
            #![trigger attempts[k]]
            0 <= k < attempts.len() && attempts[k].attached && forall|i: int|
                0 <= i < k ==> !(#[trigger] attempts[i]).attached && attempts[i].waited_ns
                    < 3_000_000_000,
        attach_end(attempts) == Some(Attach::GiveUp) <==> exists|k: int|
            #![trigger attempts[k]]
            0 <= k < attempts.len() && !attempts[k].attached && attempts[k].waited_ns
                >= 3_000_000_000 && forall|i: int|
                0 <= i < k ==> !(#[trigger] attempts[i]).attached && attempts[i].waited_ns
                    < 3_000_000_000,
        attach_end(attempts) is None <==> forall|i: int|
            0 <= i < attempts.len() ==> !(#[trigger] attempts[i]).attached && attempts[i].waited_ns
                < 3_000_000_000,
    decreases attempts.len(),
{
    if attempts.len() > 0 {
        let front = attempts.drop_last();
        let last = attempts.len() - 1;
        law_attaching_ends(front);
        assert(forall|i: int| 0 <= i < last ==> #[trigger] front[i] == attempts[i]);
        assert(forall|i: int| 0 <= i < last ==> #[trigger] attempts[i] == front[i]);
        assert(attempts[last] == attempts.last());
    }
}

/// Attaching ends with the `k`-th attempt exactly as that one does, if all earlier ones
/// failed in time and it is not repeated itself.
pub proof fn law_first_unrepeated_attempt_decides(attempts: Seq<Attempt>, k: int)
    requires
        0 <= k < attempts.len(),
        retried_before(attempts, k),
    ensures
        attempts[k].attached ==> attach_end(attempts) == Some(Attach::Attached),
        !attempts[k].attached && attempts[k].waited_ns >= 3_000_000_000 ==> attach_end(attempts)
            == Some(Attach::GiveUp),
{
    law_attaching_ends(attempts);
}

/// An attempt that works ends the wait, and one that does not is repeated after 50 ms
/// as long as 3 s have not passed.
pub proof fn law_attempts_are_repeated_for_three_seconds(attempt: Attempt)
    ensures
        attempt.attached <==> attach_next(attempt) == Attach::Attached,
        !attempt.attached && attempt.waited_ns < 3_000_000_000 <==> attach_next(attempt)
            == Attach::RetryAfterMs(50),
{
}

/// What follows an attempt to attach that ended `waited_ns` after the first one
/// began.
pub fn attach_rtt(attached: bool, waited_ns: u128) -> (next: Attach)
    ensures
        next == attach_next(Attempt { attached, waited_ns }),
{
    if attached {
        Attach::Attached
    } else if waited_ns < ATTACH_DEADLINE_NS {
        Attach::RetryAfterMs(ATTACH_RETRY_MS)
    } else {
        Attach::GiveUp
    }
}

/// Whether the core has to be set running after attaching; `halted` is nothing
/// if the core could not be asked.
pub fn resume_needed(halted: Option<bool>) -> (resume: bool)
    ensures
        resume == (halted == Some(true)),
{
    match halted {
        Some(halted) => halted,
        None => false,
    }
}

/// Channel names as values.
pub open spec fn names_of(names: Seq<Option<String>>) -> Seq<Option<Seq<char>>> {
    Seq::new(
        names.len(),
        |i: int|
            match names[i] {
                Some(name) => Some(name@),
                None => None,
            },
    )
}

/// `i` is the first place at which `wanted` stands among the names.
pub open spec fn first_named(names: Seq<Option<Seq<char>>>, wanted: Seq<char>, i: int) -> bool {
    &&& 0 <= i < names.len()
    &&& names[i] == Some(wanted)
    &&& forall|j: int| 0 <= j < i ==> #[trigger] names[j] != Some(wanted)
}

fn position(names: &Vec<Option<String>>, wanted: &str) -> (at: Option<usize>)
    ensures
        match at {
            Some(i) => first_named(names_of(names@), wanted@, i as int),
            None => forall|j: int|
                0 <= j < names@.len() ==> #[trigger] names_of(names@)[j] != Some(wanted@),
        },
{
    let key: String = wanted.to_owned();
    for i in 0..names.len()
        invariant
            key@ == wanted@,
            forall|j: int| 0 <= j < i ==> #[trigger] names_of(names@)[j] != Some(wanted@),
    {
        if let Some(name) = &names[i] {
            if *name == key {
                return Some(i);
            }
        }
    }
    None
}

/// The channel to record: the first one named `pcm`, or the usual one.
pub fn pcm_channel(names: &Vec<Option<String>>) -> (channel: usize)
    ensures
        first_named(names_of(names@), "pcm"@, channel as int) || (channel == PCM_CHANNEL && forall|
            j: int,
        |
            0 <= j < names@.len() ==> #[trigger] names_of(names@)[j] != Some("pcm"@)),
{
    match position(names, "pcm") {
        Some(i) => i,
        None => PCM_CHANNEL,
    }
}

/// The channel whose text is shown: the first one named `log`, if any.
pub fn log_channel(names: &Vec<Option<String>>) -> (channel: Option<usize>)
    ensures
        match channel {
            Some(i) => first_named(names_of(names@), "log"@, i as int),
            None => forall|j: int|
                0 <= j < names@.len() ==> #[trigger] names_of(names@)[j] != Some("log"@),
        },
{
    position(names, "log")
}

/// The format of the recorded file.
#[derive(Clone, Copy, PartialEq, Eq, Structural, Debug)]
pub struct WavFormat {
    pub channels: u16,
    pub sample_rate: u32,
    pub bits_per_sample: u16,
}

/// Recordings are mono, 16 bits, at the rate at which the device samples.
pub fn wav_format() -> (format: WavFormat)
    ensures
        format == (WavFormat {
            channels: 1,
            sample_rate: SAMPLE_RATE_HZ,
            bits_per_sample: 16,
        }),
{
    WavFormat { channels: 1, sample_rate: SAMPLE_RATE_HZ, bits_per_sample: 16 }
}

/// What the recording loop does on its next turn.
#[derive(Clone, Copy, PartialEq, Eq, Structural, Debug)]
pub enum Turn {
    /// Close the file and report the end.
    Finish,
    /// Show what the log channel has, if there is one, then read the audio
    /// channel.
    Read { log: Option<usize>, pcm: usize },
}

/// What follows a read of the audio channel.
pub enum Taken {
    /// Nothing had come: pause this long, then take the next turn.
    Idle { sleep_ms: u64 },
    /// Write these samples, then see whether to report.
    Samples(Vec<i16>),
}

/// The recording loop.
pub struct Recorder {
    pcm: usize,
    log: Option<usize>,
    decoder: Decoder,
}

impl Recorder {
    /// The recorded channel.
    pub closed spec fn pcm(&self) -> usize {
        self.pcm
    }

    /// The channel whose text is shown.
    pub closed spec fn log(&self) -> Option<usize> {
        self.log
    }

    /// The low byte of a sample whose high byte has not come yet.
    pub closed spec fn carry(&self) -> Option<u8> {
        self.decoder.carry()
    }

    /// Samples recorded so far.
    pub closed spec fn total(&self) -> u64 {
        self.decoder.total()
    }

    /// A recording that has not begun, on channels with these names.
    pub fn new(names: &Vec<Option<String>>) -> (r: Recorder)
        ensures
            first_named(names_of(names@), "pcm"@, r.pcm() as int) || (r.pcm() == PCM_CHANNEL
                && forall|j: int|
                0 <= j < names@.len() ==> #[trigger] names_of(names@)[j] != Some("pcm"@)),
            match r.log() {
                Some(i) => first_named(names_of(names@), "log"@, i as int),
                None => forall|j: int|
                    0 <= j < names@.len() ==> #[trigger] names_of(names@)[j] != Some("log"@),
            },
            r.carry() is None,
            r.total() == 0,
    {
        Recorder { pcm: pcm_channel(names), log: log_channel(names), decoder: Decoder::new() }
    }

    /// The next turn; `stop` is whether the user has asked to stop.
    pub fn turn(&self, stop: bool) -> (turn: Turn)
        ensures
            turn == if stop {
                Turn::Finish
            } else {
                Turn::Read { log: self.log(), pcm: self.pcm() }
            },
    {
        if stop {
            Turn::Finish
        } else {
            Turn::Read { log: self.log, pcm: self.pcm }
        }
    }

    /// Takes in the bytes that a read of the audio channel gave. The count of
    /// samples must not leave 64 bits.
    pub fn take(&mut self, bytes: &[u8]) -> (taken: Taken)
        requires
            old(self).total() + decoded(joined(old(self).carry(), bytes@)).len() <= u64::MAX,
        ensures
            final(self).pcm() == old(self).pcm(),
            final(self).log() == old(self).log(),
            bytes@.len() == 0 ==> taken == (Taken::Idle { sleep_ms: IDLE_SLEEP_MS })
                && *final(self) == *old(self),
            bytes@.len() > 0 ==> taken is Samples && taken->Samples_0@ == decoded(
                joined(old(self).carry(), bytes@),
            ) && final(self).carry() == left_over(joined(old(self).carry(), bytes@))
                && final(self).total() == old(self).total() + taken->Samples_0@.len(),
    {
        if bytes.len() == 0 {
            Taken::Idle { sleep_ms: IDLE_SLEEP_MS }
        } else {
            Taken::Samples(self.decoder.feed(bytes))
        }
    }

    /// The count of samples to report, if the last report is long enough ago.
    pub fn report(&self, since_last_ns: u128) -> (report: Option<u64>)
        ensures
            report == if since_last_ns >= REPORT_EVERY_NS {
                Some(self.total())
            } else {
                None
            },
    {
        if since_last_ns >= REPORT_EVERY_NS {
            Some(self.decoder.count())
        } else {
            None
        }
    }

    /// The count of samples recorded.
    pub fn recorded(&self) -> (n: u64)
        ensures
            n == self.total(),
    {
        self.decoder.count()
    }
}

/// A channel bears a name exactly when it has one and it is that.
pub proof fn law_channels_bear_their_names(
    names: Seq<Option<String>>,
    wanted: Seq<char>,
    i: int,
    j: int,
)
    requires
        0 <= j < names.len(),
    ensures
        names_of(names).len() == names.len(),
        names_of(names)[j] == Some(wanted) <==> (names[j] matches Some(name) && name@ == wanted),
        first_named(names_of(names), wanted, i) ==> {
            &&& 0 <= i < names.len()
            &&& names[i] matches Some(name) && name@ == wanted
            &&& j < i ==> !(names[j] matches Some(name) && name@ == wanted)
        },
{
    if first_named(names_of(names), wanted, i) && j < i {
        assert(names_of(names)[j] != Some(wanted));
    }
}

/// The tool's pauses, its usual channel and the rate it records at.
pub proof fn law_recording_parameters()
    ensures
        PCM_CHANNEL == 1,
        ATTACH_DEADLINE_NS == 3 * 1_000_000_000,
        ATTACH_RETRY_MS == 50,
        IDLE_SLEEP_MS == 2,
        REPORT_EVERY_NS == 1_000_000_000,
        SAMPLE_RATE_HZ == 16_000,
{
}

} // verus!
