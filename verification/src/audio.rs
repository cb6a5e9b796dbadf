//! Around the capture of audio: the header of a recording, the choice of the input device, the
//! samples that an output sample lies between, and the collecting of captured chunks.

use vstd::prelude::*;

use crate::realtime::SESSION_SAMPLE_RATE;
use crate::text;
use crate::text::{decimal, lowercased, occurs, trimmed};

verus! {

/// The rate of the audio that the session takes.
pub const TARGET_SAMPLE_RATE: u32 = SESSION_SAMPLE_RATE;

/// How long an input device may take to start, in milliseconds.
pub const INIT_TIMEOUT: u64 = 5_000;

// ---------------------------------------------------------------------------------------------
// The header of a recording
// ---------------------------------------------------------------------------------------------

/// A 16-bit number, low byte first.
pub open spec fn le16(n: int) -> Seq<u8> {
    seq![(n % 256) as u8, (n / 256 % 256) as u8]
}

/// A 32-bit number, low byte first.
pub open spec fn le32(n: int) -> Seq<u8> {
    seq![
        (n % 256) as u8,
        (n / 256 % 256) as u8,
        (n / 65536 % 256) as u8,
        (n / 16777216 % 256) as u8,
    ]
}

/// The header of a WAV file of 16-bit samples: `RIFF`, the length of what follows, `WAVE`; `fmt `
/// and its 16 bytes (plain samples, channels, rate, bytes per second, bytes per frame, bits per
/// sample); `data` and its length.
pub open spec fn wav_header(rate: int, channels: int, data_len: int) -> Seq<u8> {
    seq![82u8, 73, 70, 70] + le32(36 + data_len) + seq![87u8, 65, 86, 69] + seq![
        102u8,
        109,
        116,
        32,
    ] + le32(16) + le16(1) + le16(channels) + le32(rate) + le32(rate * (2 * channels)) + le16(
        2 * channels,
    ) + le16(16) + seq![100u8, 97, 116, 97] + le32(data_len)
}

fn byte(n: u32, shift: u32) -> (r: u8)
    requires
        shift == 1 || shift == 256 || shift == 65536 || shift == 16777216,
    ensures
        r == (n as int / shift as int % 256) as u8,
{
    (n / shift % 256) as u8
}

/// The header of a WAV file of 16-bit samples.
pub fn header_for(rate: u32, channels: u16, data_len: u32) -> (r: [u8; 44])
    requires
        2 * channels <= u16::MAX,
        rate * (2 * channels) <= u32::MAX,
        36 + data_len <= u32::MAX,
    ensures
        r@ == wav_header(rate as int, channels as int, data_len as int),
{
    let align: u16 = 2 * channels;
    let speed: u32 = rate * align as u32;
    let size: u32 = 36 + data_len;
    let ch: u32 = channels as u32;
    let al: u32 = align as u32;
    let r: [u8; 44] = [
        82,
        73,
        70,
        70,
        byte(size, 1),
        byte(size, 256),
        byte(size, 65536),
        byte(size, 16777216),
        87,
        65,
        86,
        69,
        102,
        109,
        116,
        32,
        16,
        0,
        0,
        0,
        1,
        0,
        byte(ch, 1),
        byte(ch, 256),
        byte(rate, 1),
        byte(rate, 256),
        byte(rate, 65536),
        byte(rate, 16777216),
        byte(speed, 1),
        byte(speed, 256),
        byte(speed, 65536),
        byte(speed, 16777216),
        byte(al, 1),
        byte(al, 256),
        16,
        0,
        100,
        97,
        116,
        97,
        byte(data_len, 1),
        byte(data_len, 256),
        byte(data_len, 65536),
        byte(data_len, 16777216),
    ];
    assert(r@ =~= wav_header(rate as int, channels as int, data_len as int));
    r
}

/// The header of a recording of what is sent: one channel at the session's rate.
pub fn header(data_len: u32) -> (r: [u8; 44])
    requires
        36 + data_len <= u32::MAX,
    ensures
        r@ == wav_header(TARGET_SAMPLE_RATE as int, 1, data_len as int),
{
    header_for(TARGET_SAMPLE_RATE, 1, data_len)
}

/// A header states its own length and that of the data: it is 44 bytes long, and the first length
/// counts everything behind it.
pub proof fn lemma_header_is_consistent(rate: int, channels: int, data_len: int)
    ensures
        wav_header(rate, channels, data_len).len() == 44,
        wav_header(rate, channels, data_len).subrange(4, 8) == le32(44 - 8 + data_len),
        wav_header(rate, channels, data_len).subrange(40, 44) == le32(data_len),
{
    assert(wav_header(rate, channels, data_len).subrange(4, 8) =~= le32(36 + data_len));
    assert(wav_header(rate, channels, data_len).subrange(40, 44) =~= le32(data_len));
}

/// What a number is whose four bytes are given, low byte first.
pub open spec fn from_le32(b: Seq<u8>) -> int {
    b[0] + b[1] * 256 + b[2] * 65536 + b[3] * 16777216
}

/// A length written into a header reads back.
pub proof fn lemma_le32_reads_back(n: int)
    requires
        0 <= n <= u32::MAX,
    ensures
        from_le32(le32(n)) == n,
{
}

/// How many bytes of data a recording has, as its header can state them.
#[derive(Debug, Clone, Copy, PartialEq, Eq, Structural)]
pub struct Recorded {
    pub written: u32,
}

impl Recorded {
    pub fn new() -> (r: Recorded)
        ensures
            r.written == 0,
    {
        Recorded { written: 0 }
    }

    /// More bytes were written. The count stays at the largest number that can be stated.
    pub fn grow(&mut self, len: usize)
        ensures
            final(self).written == (if old(self).written + (len as int) % 0x1_0000_0000
                <= u32::MAX {
                old(self).written + (len as int) % 0x1_0000_0000
            } else {
                u32::MAX as int
            }),
    {
        let len: u64 = len as u64;
        let more: u32 = (len % 0x1_0000_0000) as u32;
        self.written = self.written.saturating_add(more);
    }
}

// ---------------------------------------------------------------------------------------------
// The input device
// ---------------------------------------------------------------------------------------------

/// Which input device is opened.
#[derive(Debug, Clone, PartialEq, Eq)]
pub enum DeviceChoice {
    /// The system's default.
    Default,
    /// The device at that place in the list.
    At(usize),
    /// There is none, as the message says.
    Missing(String),
}

/// The device at that place has a name, in lower case, that contains what is wanted.
pub open spec fn fits(lowered: Seq<Option<String>>, i: int, want: Seq<char>) -> bool {
    0 <= i < lowered.len() && (lowered[i] matches Some(n) && occurs(n@, want))
}

/// The first device whose name, in lower case, contains what is wanted.
pub fn find_device(lowered: &[Option<String>], want: &str) -> (r: Option<usize>)
    ensures
        match r {
            Some(i) => fits(lowered@, i as int, want@) && (forall|j: int|
                0 <= j < i ==> !fits(lowered@, j, want@)),
            None => forall|j: int| !fits(lowered@, j, want@),
        },
{
    for i in 0..lowered.len()
        invariant
            forall|j: int| 0 <= j < i ==> !fits(lowered@, j, want@),
    {
        if let Some(n) = &lowered[i] {
            if text::contains(n.as_str(), want) {
                return Some(i);
            }
        }
    }
    None
}

/// The device at that place has a name that contains what is wanted, in whatever case.
pub open spec fn named_like(names: Seq<Option<String>>, i: int, want: Seq<char>) -> bool {
    0 <= i < names.len() && (names[i] matches Some(n) && occurs(lowercased(n@), lowercased(want)))
}

/// No device has a name that contains what is wanted.
pub open spec fn none_like(names: Seq<Option<String>>, want: Seq<char>) -> bool {
    forall|j: int| !named_like(names, j, want)
}

/// Which of the named devices is opened: the default where none is wanted, else the first that
/// has the wanted words in its name. A device whose name cannot be read is passed over.
pub fn pick_device(names: &[Option<String>], wanted: Option<&str>) -> (r: DeviceChoice)
    ensures
        match wanted {
            Some(want) if trimmed(want@).len() > 0 => match r {
                DeviceChoice::Default => false,
                DeviceChoice::At(i) => named_like(names@, i as int, want@) && (forall|j: int|
                    0 <= j < i ==> !named_like(names@, j, want@)),
                DeviceChoice::Missing(m) => (forall|j: int| !named_like(names@, j, want@)) && m@
                    == "no input device matching '"@ + lowercased(want@) + "'"@,
            },
            _ => r == DeviceChoice::Default,
        },
        r is Missing ==> wanted is Some && none_like(names@, wanted->Some_0@),
{
    let want = match wanted {
        Some(w) => w,
        None => return DeviceChoice::Default,
    };
    if text::is_blank(want) {
        return DeviceChoice::Default;
    }
    let lower = text::to_lowercase(want);
    let mut lowered: Vec<Option<String>> = Vec::new();
    for i in 0..names.len()
        invariant
            lowered@.len() == i,
            lower@ == lowercased(want@),
            forall|j: int|
                0 <= j < i ==> #[trigger] fits(lowered@, j, lower@) == named_like(
                    names@,
                    j,
                    want@,
                ),
    {
        let name = match &names[i] {
            Some(n) => Some(text::to_lowercase(n.as_str())),
            None => None,
        };
        let ghost before = lowered@;
        lowered.push(name);
        assert forall|j: int| 0 <= j < i + 1 implies #[trigger] fits(lowered@, j, lower@)
            == named_like(names@, j, want@) by {
            if j < i {
                assert(fits(before, j, lower@) == fits(lowered@, j, lower@));
            }
        }
    }
    match find_device(lowered.as_slice(), lower.as_str()) {
        Some(i) => {
            assert forall|j: int| 0 <= j < i implies !named_like(names@, j, want@) by {
                assert(!fits(lowered@, j, lower@));
            }
            DeviceChoice::At(i)
        },
        None => {
            assert forall|j: int| !named_like(names@, j, want@) by {
                assert(!fits(lowered@, j, lower@));
            }
            let mut out = text::join("no input device matching '", lower.as_str());
            out.append("'");
            DeviceChoice::Missing(out)
        },
    }
}

/// Why a capture did not come about.
#[derive(Debug, Clone, PartialEq, Eq)]
pub enum CaptureFault {
    /// The devices could not be listed.
    Devices(String),
    /// There is no default device.
    NoDefault,
    /// No device has the wanted name, as the message says.
    NoMatch(String),
    /// The device did not state its format.
    Config(String),
    /// The device's format is none that can be read.
    Format(String),
    Open(String),
    Start(String),
    TimedOut,
}

/// What is said of a capture that did not come about.
pub open spec fn capture_text(f: CaptureFault) -> Seq<char> {
    match f {
        CaptureFault::Devices(e) => "enumerate input devices: "@ + e@,
        CaptureFault::NoDefault => "no default input device (microphone)"@,
        CaptureFault::NoMatch(m) => m@,
        CaptureFault::Config(e) => "input config query failed: "@ + e@,
        CaptureFault::Format(e) => "unsupported sample format: "@ + e@,
        CaptureFault::Open(e) => "failed to open microphone: "@ + e@,
        CaptureFault::Start(e) => "failed to start microphone: "@ + e@,
        CaptureFault::TimedOut => "audio device did not start within 5s"@,
    }
}

impl CaptureFault {
    /// What is said of it.
    pub fn message(&self) -> (r: String)
        ensures
            r@ == capture_text(*self),
    {
        match self {
            CaptureFault::Devices(e) => text::join("enumerate input devices: ", e.as_str()),
            CaptureFault::NoDefault => text::copy("no default input device (microphone)"),
            CaptureFault::NoMatch(m) => text::copy(m.as_str()),
            CaptureFault::Config(e) => text::join("input config query failed: ", e.as_str()),
            CaptureFault::Format(e) => text::join("unsupported sample format: ", e.as_str()),
            CaptureFault::Open(e) => text::join("failed to open microphone: ", e.as_str()),
            CaptureFault::Start(e) => text::join("failed to start microphone: ", e.as_str()),
            CaptureFault::TimedOut => text::copy("audio device did not start within 5s"),
        }
    }
}

/// What a capture does, for the log.
pub fn describe(src_rate: u32, channels: u16, format: &str) -> (r: String)
    ensures
        r@ == decimal(src_rate as int) + "Hz x"@ + decimal(channels as int) + " "@ + format@
            + " -> "@ + decimal(TARGET_SAMPLE_RATE as int) + "Hz mono i16"@,
{
    let mut out = text::write_u64(src_rate as u64);
    out.append("Hz x");
    out.append(text::write_u64(channels as u64).as_str());
    out.append(" ");
    out.append(format);
    out.append(" -> ");
    out.append(text::write_u64(TARGET_SAMPLE_RATE as u64).as_str());
    out.append("Hz mono i16");
    out
}

// ---------------------------------------------------------------------------------------------
// Samples and chunks
// ---------------------------------------------------------------------------------------------

/// A sample that an output sample is made of.
#[derive(Debug, Clone, Copy, PartialEq, Eq, Structural)]
pub enum Tap {
    /// The last of the block before.
    Previous,
    /// The one at that place in this block.
    At(usize),
}

/// The sample at a place relative to the start of a block of that length, which must not lie
/// behind its end.
pub open spec fn tap_at(i: int, len: int) -> Option<Tap> {
    if i < 0 {
        Some(Tap::Previous)
    } else if i < len {
        Some(Tap::At(i as usize))
    } else {
        None
    }
}

/// The two samples that an output sample lies between, where its place, rounded down, is `i`.
/// None where the second has not been captured yet.
pub fn taps(i: i64, len: usize) -> (r: Option<(Tap, Tap)>)
    requires
        i < i64::MAX,
    ensures
        match r {
            Some((a, b)) => tap_at(i as int, len as int) == Some(a) && tap_at(i + 1, len as int)
                == Some(b),
            None => tap_at(i as int, len as int) is None || tap_at(i + 1, len as int) is None,
        },
{
    let first = if i < 0 {
        Tap::Previous
    } else if (i as u64) < len as u64 {
        Tap::At(i as usize)
    } else {
        return None;
    };
    let j: i64 = i + 1;
    let second = if j < 0 {
        Tap::Previous
    } else if (j as u64) < len as u64 {
        Tap::At(j as usize)
    } else {
        return None;
    };
    Some((first, second))
}

/// The samples of two blocks in a row are used without a gap at the seam: the place in front of a
/// block is the last place of the block before it.
pub proof fn lemma_blocks_meet(i: int, len: int)
    requires
        len > 0,
    ensures
        tap_at(-1, len) == Some(Tap::Previous),
        0 <= i < len ==> tap_at(i, len) == Some(Tap::At(i as usize)),
        tap_at(len, len) is None,
{
}

/// Chunks one after another.
pub open spec fn strung(chunks: Seq<Vec<u8>>) -> Seq<u8>
    decreases chunks.len(),
{
    if chunks.len() == 0 {
        Seq::empty()
    } else {
        strung(chunks.drop_last()) + chunks.last()@
    }
}

/// All captured chunks as one run of bytes, if there are any bytes.
pub fn read_pending_bytes(chunks: &[Vec<u8>]) -> (r: Option<Vec<u8>>)
    ensures
        r is Some <==> strung(chunks@).len() > 0,
        r matches Some(b) ==> b@ == strung(chunks@),
{
    let mut out: Vec<u8> = Vec::new();
    assert(chunks@.take(0) =~= Seq::empty());
    for i in 0..chunks.len()
        invariant
            out@ == strung(chunks@.take(i as int)),
    {
        let ghost t = chunks@.take(i + 1);
        assert(t.drop_last() =~= chunks@.take(i as int));
        assert(t.last() == chunks@[i as int]);
        let n: usize = chunks[i].len();
        let ghost before = out@;
        for k in 0..n
            invariant
                i < chunks@.len(),
                n == chunks@[i as int]@.len(),
                out@ == before + chunks@[i as int]@.take(k as int),
        {
            out.push(chunks[i][k]);
            assert(out@ =~= before + chunks@[i as int]@.take(k + 1));
        }
        assert(chunks@[i as int]@.take(n as int) =~= chunks@[i as int]@);
    }
    assert(chunks@.take(chunks@.len() as int) =~= chunks@);
    if out.len() == 0 {
        return None;
    }
    Some(out)
}

/// What the header of a recording states, by the places where a player looks: the three marks, the
/// format (plain samples), the channels, the rate, the bytes of a second and of a frame, the bits of
/// a sample, and the lengths of the file and of the data.
pub proof fn lemma_what_a_header_states(rate: u32, channels: u16, data_len: u32, r: [u8; 44])
    requires
        call_ensures(header_for, (rate, channels, data_len), r),
        2 * channels <= u16::MAX,
        rate * (2 * channels) <= u32::MAX,
        36 + data_len <= u32::MAX,
    ensures
        r@.len() == 44,
        r@.subrange(0, 4) == seq!['R' as u8, 'I' as u8, 'F' as u8, 'F' as u8],
        from_le32(r@.subrange(4, 8)) == 36 + data_len,
        r@.subrange(8, 12) == seq!['W' as u8, 'A' as u8, 'V' as u8, 'E' as u8],
        r@.subrange(12, 16) == seq!['f' as u8, 'm' as u8, 't' as u8, ' ' as u8],
        from_le32(r@.subrange(16, 20)) == 16,
        r@[20] + 256 * r@[21] == 1,
        r@[22] + 256 * r@[23] == channels,
        from_le32(r@.subrange(24, 28)) == rate,
        from_le32(r@.subrange(28, 32)) == rate * (2 * channels),
        r@[32] + 256 * r@[33] == 2 * channels,
        r@[34] + 256 * r@[35] == 16,
        r@.subrange(36, 40) == seq!['d' as u8, 'a' as u8, 't' as u8, 'a' as u8],
        from_le32(r@.subrange(40, 44)) == data_len,
{
    let h = r@;
    lemma_le32_reads_back(36 + data_len);
    lemma_le32_reads_back(16);
    lemma_le32_reads_back(rate as int);
    assert(rate * (2 * channels) >= 0) by (nonlinear_arith)
        requires
            rate >= 0,
            channels >= 0,
    ;
    lemma_le32_reads_back(rate * (2 * channels));
    lemma_le32_reads_back(data_len as int);
    assert(h.subrange(0, 4) =~= seq!['R' as u8, 'I' as u8, 'F' as u8, 'F' as u8]);
    assert(h.subrange(4, 8) =~= le32(36 + data_len));
    assert(h.subrange(8, 12) =~= seq!['W' as u8, 'A' as u8, 'V' as u8, 'E' as u8]);
    assert(h.subrange(12, 16) =~= seq!['f' as u8, 'm' as u8, 't' as u8, ' ' as u8]);
    assert(h.subrange(16, 20) =~= le32(16));
    assert(h.subrange(24, 28) =~= le32(rate as int));
    assert(h.subrange(28, 32) =~= le32(rate * (2 * channels)));
    assert(h.subrange(36, 40) =~= seq!['d' as u8, 'a' as u8, 't' as u8, 'a' as u8]);
    assert(h.subrange(40, 44) =~= le32(data_len as int));
}

/// A recording of what is sent is headed as one channel at 24 000 samples a second.
pub proof fn lemma_the_header_of_what_is_sent(data_len: u32, r: [u8; 44], same: [u8; 44])
    requires
        call_ensures(header, (data_len,), r),
        call_ensures(header_for, (24_000, 1, data_len), same),
        36 + data_len <= u32::MAX,
    ensures
        r@ == same@,
{
}

/// A recording grows by what is written to it, up to what its header can state.
pub proof fn lemma_a_recording_grows(first: Recorded, rec: &mut Recorded, len: usize)
    requires
        call_ensures(Recorded::new, (), first),
        call_ensures(Recorded::grow, (rec, len), ()),
        len <= u32::MAX,
    ensures
        first.written == 0,
        old(rec).written + len <= u32::MAX ==> final(rec).written == old(rec).written + len,
        old(rec).written + len > u32::MAX ==> final(rec).written == u32::MAX,
{
}

/// The device that is opened: the default exactly where no name is wanted; else the first in the
/// list whose name contains the wanted one, in whatever case, and none where there is no such
/// device. A device further up the list is never passed over for one further down.
pub proof fn lemma_which_device_is_opened(
    names: &[Option<String>],
    wanted: &str,
    k: int,
    r: DeviceChoice,
    unwanted: DeviceChoice,
)
    requires
        call_ensures(pick_device, (names, Some(wanted)), r),
        call_ensures(pick_device, (names, None::<&str>), unwanted),
    ensures
        unwanted is Default,
        r is Default <==> trimmed(wanted@).len() == 0,
        r matches DeviceChoice::At(i) ==> i < names@.len() && (names@[i as int] matches Some(n)
            && occurs(lowercased(n@), lowercased(wanted@))),
        trimmed(wanted@).len() > 0 && 0 <= k < names@.len() && (names@[k] matches Some(n) && occurs(
            lowercased(n@),
            lowercased(wanted@),
        )) ==> (r matches DeviceChoice::At(i) && i <= k),
        r matches DeviceChoice::Missing(m) ==> m@ == "no input device matching '"@ + lowercased(
            wanted@,
        ) + "'"@,
{
    if trimmed(wanted@).len() > 0 && 0 <= k < names@.len() && (names@[k] matches Some(n) && occurs(
        lowercased(n@),
        lowercased(wanted@),
    )) {
        assert(named_like(names@, k, wanted@));
        if let DeviceChoice::At(i) = r {
            if k < i {
                assert(!named_like(names@, k, wanted@));
            }
        }
        assert(!none_like(names@, wanted@));
    }
}

/// A capture that does not come about is said with what went wrong, and with the reason as it is.
pub proof fn lemma_what_is_said_of_a_capture(f: CaptureFault, r: String)
    requires
        call_ensures(CaptureFault::message, (&f,), r),
    ensures
        match f {
            CaptureFault::Devices(e) => r@ == "enumerate input devices: "@ + e@,
            CaptureFault::NoDefault => r@ == "no default input device (microphone)"@,
            CaptureFault::NoMatch(m) => r@ == m@,
            CaptureFault::Config(e) => r@ == "input config query failed: "@ + e@,
            CaptureFault::Format(e) => r@ == "unsupported sample format: "@ + e@,
            CaptureFault::Open(e) => r@ == "failed to open microphone: "@ + e@,
            CaptureFault::Start(e) => r@ == "failed to start microphone: "@ + e@,
            CaptureFault::TimedOut => r@ == "audio device did not start within 5s"@,
        },
{
}

/// An output sample lies between two captured samples that follow one another, of which the first
/// may be the last of the block before. It has to wait exactly where the second of them is not
/// captured yet.
pub proof fn lemma_neighbours_follow_one_another(i: i64, len: usize, r: Option<(Tap, Tap)>)
    requires
        i < i64::MAX,
        call_ensures(taps, (i, len), r),
    ensures
        r is Some <==> i + 1 < len,
        r matches Some((a, b)) ==> (i >= 0 ==> a == Tap::At(i as usize) && b == Tap::At(
            (i + 1) as usize,
        )) && (i == -1 ==> a == Tap::Previous && b == Tap::At(0)) && (i < -1 ==> a == Tap::Previous
            && b == Tap::Previous),
{
}

proof fn lemma_strung_behind(chunks: Seq<Vec<u8>>, last: Vec<u8>)
    ensures
        strung(chunks.push(last)) == strung(chunks) + last@,
{
    assert(chunks.push(last).drop_last() =~= chunks);
}

/// Nothing that was captured is lost or reordered: what is read is every chunk, one behind another,
/// so that a further chunk comes behind all of it. There is something to read exactly where a chunk
/// holds anything.
pub proof fn lemma_captured_audio_is_read_whole(
    some: &[Vec<u8>],
    more: &[Vec<u8>],
    last: Vec<u8>,
    a: Option<Vec<u8>>,
    b: Option<Vec<u8>>,
)
    requires
        more@ == some@.push(last),
        call_ensures(read_pending_bytes, (some,), a),
        call_ensures(read_pending_bytes, (more,), b),
    ensures
        a is None && last@.len() == 0 ==> b is None,
        a is None && last@.len() > 0 ==> (b matches Some(all) && all@ == last@),
        a matches Some(before) ==> (b matches Some(all) && all@ == before@ + last@),
        some@.len() == 0 ==> a is None,
{
    lemma_strung_behind(some@, last);
    if a is None {
        assert(strung(some@) + last@ =~= last@);
    }
}

} // verus!
