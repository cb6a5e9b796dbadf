use codex_mic::audio::{
    describe, find_device, header, header_for, pick_device, read_pending_bytes, taps,
    CaptureFault, DeviceChoice, Recorded, Tap, TARGET_SAMPLE_RATE,
};

#[test]
fn wav_header_describes_24k_mono_pcm16() {
    let h = header(48_000);
    assert_eq!(&h[0..4], b"RIFF");
    assert_eq!(&h[8..12], b"WAVE");
    assert_eq!(&h[36..40], b"data");
    assert_eq!(u32::from_le_bytes(h[4..8].try_into().unwrap()), 36 + 48_000);
    assert_eq!(u32::from_le_bytes(h[40..44].try_into().unwrap()), 48_000);
    assert_eq!(u16::from_le_bytes(h[20..22].try_into().unwrap()), 1, "PCM");
    assert_eq!(u16::from_le_bytes(h[22..24].try_into().unwrap()), 1, "mono");
    assert_eq!(
        u32::from_le_bytes(h[24..28].try_into().unwrap()),
        TARGET_SAMPLE_RATE
    );
    assert_eq!(u16::from_le_bytes(h[34..36].try_into().unwrap()), 16, "bits");
    assert_eq!(
        u32::from_le_bytes(h[28..32].try_into().unwrap()),
        TARGET_SAMPLE_RATE * 2
    );
    assert_eq!(u16::from_le_bytes(h[32..34].try_into().unwrap()), 2);
}

#[test]
fn header_of_a_stereo_recording() {
    let h = header_for(44_100, 2, 0x0102_0304);
    assert_eq!(&h[12..16], b"fmt ");
    assert_eq!(u32::from_le_bytes(h[16..20].try_into().unwrap()), 16);
    assert_eq!(u16::from_le_bytes(h[22..24].try_into().unwrap()), 2);
    assert_eq!(u32::from_le_bytes(h[24..28].try_into().unwrap()), 44_100);
    assert_eq!(u32::from_le_bytes(h[28..32].try_into().unwrap()), 176_400);
    assert_eq!(u16::from_le_bytes(h[32..34].try_into().unwrap()), 4);
    assert_eq!(&h[40..44], &[4, 3, 2, 1]);
}

#[test]
fn recorded_length_never_wraps() {
    let mut r = Recorded::new();
    r.grow(100);
    r.grow(28);
    assert_eq!(r.written, 128);
    r.grow(u32::MAX as usize);
    assert_eq!(r.written, u32::MAX);
    r.grow(1);
    assert_eq!(r.written, u32::MAX);
}

fn names() -> Vec<Option<String>> {
    vec![
        Some("Built-in Array".to_string()),
        None,
        Some("USB Microphone".to_string()),
        Some("Other USB".to_string()),
    ]
}

#[test]
fn device_is_found_by_part_of_its_name_in_any_case() {
    assert_eq!(pick_device(&names(), Some("usb")), DeviceChoice::At(2));
    assert_eq!(pick_device(&names(), Some("OTHER")), DeviceChoice::At(3));
    assert_eq!(pick_device(&names(), None), DeviceChoice::Default);
    assert_eq!(pick_device(&names(), Some("  ")), DeviceChoice::Default);
    assert_eq!(
        pick_device(&names(), Some("ÜBER")),
        DeviceChoice::Missing("no input device matching 'über'".to_string())
    );
    assert_eq!(pick_device(&[Some("Über Mic".to_string())], Some("ÜBER")), DeviceChoice::At(0));
    // White space around the wanted words counts.
    assert_eq!(
        pick_device(&names(), Some(" usb ")),
        DeviceChoice::Missing("no input device matching ' usb '".to_string())
    );
}

#[test]
fn first_fitting_device_is_taken() {
    let lowered = [None, Some("ab".to_string()), Some("abc".to_string())];
    assert_eq!(find_device(&lowered, "b"), Some(1));
    assert_eq!(find_device(&lowered, "c"), Some(2));
    assert_eq!(find_device(&lowered, "x"), None);
    assert_eq!(find_device(&[], ""), None);
}

#[test]
fn capture_faults_say_what_happened() {
    let e = || "boom".to_string();
    for (fault, text) in [
        (CaptureFault::Devices(e()), "enumerate input devices: boom"),
        (CaptureFault::NoDefault, "no default input device (microphone)"),
        (CaptureFault::NoMatch(e()), "boom"),
        (CaptureFault::Config(e()), "input config query failed: boom"),
        (CaptureFault::Format(e()), "unsupported sample format: boom"),
        (CaptureFault::Open(e()), "failed to open microphone: boom"),
        (CaptureFault::Start(e()), "failed to start microphone: boom"),
        (CaptureFault::TimedOut, "audio device did not start within 5s"),
    ] {
        assert_eq!(fault.message(), text);
    }
    assert_eq!(describe(48_000, 2, "F32"), "48000Hz x2 F32 -> 24000Hz mono i16");
}

#[test]
fn output_samples_lie_between_two_captured_ones() {
    assert_eq!(taps(-2, 4), Some((Tap::Previous, Tap::Previous)));
    assert_eq!(taps(-1, 4), Some((Tap::Previous, Tap::At(0))));
    assert_eq!(taps(0, 4), Some((Tap::At(0), Tap::At(1))));
    assert_eq!(taps(2, 4), Some((Tap::At(2), Tap::At(3))));
    assert_eq!(taps(3, 4), None);
    assert_eq!(taps(9, 4), None);
    assert_eq!(taps(-1, 0), None);
}

#[test]
fn pending_chunks_are_joined_in_order() {
    assert_eq!(read_pending_bytes(&[]), None);
    assert_eq!(read_pending_bytes(&[vec![], vec![]]), None);
    assert_eq!(
        read_pending_bytes(&[vec![1, 2], vec![], vec![3]]),
        Some(vec![1, 2, 3])
    );
}
