//! Encoding settings: codecs, encoders and rate control.

use vstd::prelude::*;

verus! {

use crate::enc_helper::Codec;
use crate::enc_helper::EncoderType;

/// Constant-quantization rate control.
#[derive(Debug, PartialEq, Eq, Clone, Copy, Structural)]
pub struct RateControlCQP {
    /// Quality level.
    pub quality: u32,
}

/// Variable-bitrate rate control.
#[derive(Debug, PartialEq, Eq, Clone, Copy, Structural)]
pub struct RateControlVBR {
    /// Target bitrate in kbps.
    pub target_bitrate: u32,
    /// Maximum bitrate in kbps.
    pub max_bitrate: u32,
}

/// Constant-bitrate rate control.
#[derive(Debug, PartialEq, Eq, Clone, Copy, Structural)]
pub struct RateControlCBR {
    /// Target bitrate in kbps.
    pub target_bitrate: u32,
}

/// Which rate-control method an encoder runs under.
#[derive(Debug, PartialEq, Eq, Clone, Copy, Structural)]
pub enum RateControlMethod {
    CQP,
    VBR,
    CBR,
}

/// The configuration string of a rate-control method.
pub open spec fn spec_rate_control_method_str(m: RateControlMethod) -> Seq<char> {
    match m {
        RateControlMethod::CQP => "cqp"@,
        RateControlMethod::VBR => "vbr"@,
        RateControlMethod::CBR => "cbr"@,
    }
}

impl RateControlMethod {
    pub fn as_str(&self) -> (r: &'static str)
        ensures
            r@ == spec_rate_control_method_str(*self),
    {
        match self {
            RateControlMethod::CQP => "cqp",
            RateControlMethod::VBR => "vbr",
            RateControlMethod::CBR => "cbr",
        }
    }
}

/// The method a configuration string names, exactly.
pub open spec fn spec_rate_control_of(s: Seq<char>) -> Option<RateControlMethod> {
    if s == "cqp"@ {
        Option::Some(RateControlMethod::CQP)
    } else if s == "vbr"@ {
        Option::Some(RateControlMethod::VBR)
    } else if s == "cbr"@ {
        Option::Some(RateControlMethod::CBR)
    } else {
        Option::None
    }
}

impl RateControlMethod {
    /// Parse a configuration string; an unknown one is an error naming
    /// it.
    pub fn parse_name(s: &str) -> (r: Result<RateControlMethod, String>)
        ensures
            match spec_rate_control_of(s@) {
                Option::Some(m) => r == Ok::<RateControlMethod, String>(m),
                Option::None => r matches Err(msg) && msg@ == "invalid rate control method: "@
                    + s@,
            },
    {
        if crate::json::str_eq(s, "cqp") {
            Ok(RateControlMethod::CQP)
        } else if crate::json::str_eq(s, "vbr") {
            Ok(RateControlMethod::VBR)
        } else if crate::json::str_eq(s, "cbr") {
            Ok(RateControlMethod::CBR)
        } else {
            Err(
                <String as vstd::string::StringExecFns>::from_str(
                    "invalid rate control method: ",
                ).concat(s),
            )
        }
    }
}

impl core::str::FromStr for RateControlMethod {
    type Err = String;

    fn from_str(s: &str) -> Result<Self, String> {
        RateControlMethod::parse_name(s)
    }
}

/// Parsing inverts naming: every method's configuration string parses
/// back to exactly that method.
pub proof fn lemma_rate_control_name_round_trip(m: RateControlMethod)
    ensures
        spec_rate_control_of(spec_rate_control_method_str(m)) == Option::Some(m),
{
    reveal_strlit("cqp");
    reveal_strlit("vbr");
    reveal_strlit("cbr");
    match m {
        RateControlMethod::CQP => {},
        RateControlMethod::VBR => {
            assert("vbr"@[0] == 'v' && "cqp"@[0] == 'c');
        },
        RateControlMethod::CBR => {
            assert("cbr"@[0] == 'c' && "cqp"@[1] == 'q' && "cbr"@[1] == 'b' && "vbr"@[0] == 'v');
        },
    }
}

/// A chosen rate control with its settings.
#[derive(Debug, PartialEq, Eq, Clone, Copy, Structural)]
pub enum RateControl {
    CQP(RateControlCQP),
    VBR(RateControlVBR),
    CBR(RateControlCBR),
}

/// How audio is captured from the system.
#[derive(Debug, PartialEq, Eq, Clone, Copy, Structural)]
pub enum AudioCaptureMethod {
    PULSEAUDIO,
    PIPEWIRE,
    ALSA,
}

/// The display name of a capture method.
pub open spec fn spec_audio_capture_method_str(m: AudioCaptureMethod) -> Seq<char> {
    match m {
        AudioCaptureMethod::PULSEAUDIO => "PulseAudio"@,
        AudioCaptureMethod::PIPEWIRE => "PipeWire"@,
        AudioCaptureMethod::ALSA => "ALSA"@,
    }
}

impl AudioCaptureMethod {
    pub fn as_str(&self) -> (r: &'static str)
        ensures
            r@ == spec_audio_capture_method_str(*self),
    {
        match self {
            AudioCaptureMethod::PULSEAUDIO => "PulseAudio",
            AudioCaptureMethod::PIPEWIRE => "PipeWire",
            AudioCaptureMethod::ALSA => "ALSA",
        }
    }
}

/// The capture method a name designates, ASCII case ignored.
pub open spec fn spec_audio_capture_of(s: Seq<char>) -> Option<AudioCaptureMethod> {
    if crate::gpu::folded(s) == crate::gpu::folded("PulseAudio"@) {
        Option::Some(AudioCaptureMethod::PULSEAUDIO)
    } else if crate::gpu::folded(s) == crate::gpu::folded("PipeWire"@) {
        Option::Some(AudioCaptureMethod::PIPEWIRE)
    } else if crate::gpu::folded(s) == crate::gpu::folded("ALSA"@) {
        Option::Some(AudioCaptureMethod::ALSA)
    } else {
        Option::None
    }
}

impl AudioCaptureMethod {
    /// Parse a capture-method name, ASCII case ignored; an unknown one
    /// is an error naming it.
    pub fn parse_name(s: &str) -> (r: Result<AudioCaptureMethod, String>)
        ensures
            match spec_audio_capture_of(s@) {
                Option::Some(m) => r == Ok::<AudioCaptureMethod, String>(m),
                Option::None => r matches Err(msg) && msg@ == "invalid audio capture method: "@
                    + s@,
            },
    {
        if crate::gpu::eq_ignore_ascii_case(s, "PulseAudio") {
            Ok(AudioCaptureMethod::PULSEAUDIO)
        } else if crate::gpu::eq_ignore_ascii_case(s, "PipeWire") {
            Ok(AudioCaptureMethod::PIPEWIRE)
        } else if crate::gpu::eq_ignore_ascii_case(s, "ALSA") {
            Ok(AudioCaptureMethod::ALSA)
        } else {
            Err(
                <String as vstd::string::StringExecFns>::from_str(
                    "invalid audio capture method: ",
                ).concat(s),
            )
        }
    }
}

impl core::str::FromStr for AudioCaptureMethod {
    type Err = String;

    fn from_str(s: &str) -> Result<Self, String> {
        AudioCaptureMethod::parse_name(s)
    }
}

/// Parsing inverts naming: every capture method's display name parses
/// back to exactly that method.
pub proof fn lemma_audio_capture_name_round_trip(m: AudioCaptureMethod)
    ensures
        spec_audio_capture_of(spec_audio_capture_method_str(m)) == Option::Some(m),
{
    reveal_strlit("PulseAudio");
    reveal_strlit("PipeWire");
    reveal_strlit("ALSA");
    assert("PulseAudio"@.len() == 10);
    assert("PipeWire"@.len() == 8);
    assert("ALSA"@.len() == 4);
    crate::gpu::lemma_folded_ascii("PulseAudio"@);
    crate::gpu::lemma_folded_ascii("PipeWire"@);
    crate::gpu::lemma_folded_ascii("ALSA"@);
}

/// Settings shared by audio and video encoding.
#[derive(Debug)]
pub struct EncodingOptionsBase {
    /// Codec, such as `H.264` or `Opus`.
    pub codec: Codec,
    /// Encoder override, such as `vah264lpenc`; empty selects
    /// automatically.
    pub encoder: String,
    /// Rate control with its settings.
    pub rate_control: RateControl,
}

/// Video encoding settings.
#[derive(Debug)]
pub struct VideoEncodingOptions {
    pub base: EncodingOptionsBase,
    pub encoder_type: EncoderType,
}

/// Audio encoding settings.
#[derive(Debug)]
pub struct AudioEncodingOptions {
    pub base: EncodingOptionsBase,
    pub capture_method: AudioCaptureMethod,
}

/// Video and audio encoding settings together.
#[derive(Debug)]
pub struct EncodingArgs {
    pub video: VideoEncodingOptions,
    pub audio: AudioEncodingOptions,
}


// ---------------------------------------------------------------------
// Display lines
// ---------------------------------------------------------------------
/// The lines a rate-control choice prints as.
pub open spec fn spec_rate_control_lines(rc: RateControl) -> Seq<Seq<char>> {
    match rc {
        RateControl::CQP(c) => seq![
            "> Rate Control: CQP"@,
            "-> Quality: "@ + crate::json::spec_nat_chars(c.quality as int),
        ],
        RateControl::VBR(v) => seq![
            "> Rate Control: VBR"@,
            "-> Target Bitrate: "@ + crate::json::spec_nat_chars(v.target_bitrate as int),
            "-> Max Bitrate: "@ + crate::json::spec_nat_chars(v.max_bitrate as int),
        ],
        RateControl::CBR(c) => seq![
            "> Rate Control: CBR"@,
            "-> Target Bitrate: "@ + crate::json::spec_nat_chars(c.target_bitrate as int),
        ],
    }
}

/// The lines the shared encoding settings print as.
pub open spec fn spec_encoding_base_lines(b: EncodingOptionsBase) -> Seq<Seq<char>> {
    seq![
        "> Codec: '"@ + crate::enc_helper::spec_codec_str(b.codec) + "'"@,
        "> Encoder: '"@ + b.encoder@ + "'"@,
    ] + spec_rate_control_lines(b.rate_control)
}

/// The lines the video settings print as.
pub open spec fn spec_video_encoding_lines(v: VideoEncodingOptions) -> Seq<Seq<char>> {
    seq!["Video Encoding Options:"@] + spec_encoding_base_lines(v.base) + seq![
        "> Encoder Type: "@ + crate::enc_helper::spec_encoder_type_str(v.encoder_type),
    ]
}

/// The lines the audio settings print as.
pub open spec fn spec_audio_encoding_lines(a: AudioEncodingOptions) -> Seq<Seq<char>> {
    seq!["Audio Encoding Options:"@] + spec_encoding_base_lines(a.base) + seq![
        "> Capture Method: "@ + spec_audio_capture_method_str(a.capture_method),
    ]
}

/// The lines all encoding settings print as.
pub open spec fn spec_encoding_args_lines(e: EncodingArgs) -> Seq<Seq<char>> {
    seq!["Encoding Arguments:"@] + spec_video_encoding_lines(e.video)
        + spec_audio_encoding_lines(e.audio)
}

impl EncodingOptionsBase {
    /// The settings as display lines; the driver prints them.
    pub fn debug_print(&self) -> (r: Vec<String>)
        ensures
            r@.len() == spec_encoding_base_lines(*self).len(),
            forall|i: int|
                0 <= i < r@.len() ==> (#[trigger] r@[i])@ == spec_encoding_base_lines(*self)[i],
    {
        let mut r: Vec<String> = Vec::new();
        let mut l = <String as vstd::string::StringExecFns>::from_str("> Codec: '");
        l.append(self.codec.as_str());
        l.append("'");
        r.push(l);
        let mut l = <String as vstd::string::StringExecFns>::from_str("> Encoder: '");
        l.append(self.encoder.as_str());
        l.append("'");
        r.push(l);
        match &self.rate_control {
            RateControl::CQP(c) => {
                r.push(<String as vstd::string::StringExecFns>::from_str("> Rate Control: CQP"));
                let mut l = <String as vstd::string::StringExecFns>::from_str("-> Quality: ");
                let q = crate::json::u32_to_string(c.quality);
                l.append(q.as_str());
                r.push(l);
            },
            RateControl::VBR(v) => {
                r.push(<String as vstd::string::StringExecFns>::from_str("> Rate Control: VBR"));
                let mut l = <String as vstd::string::StringExecFns>::from_str(
                    "-> Target Bitrate: ",
                );
                let t = crate::json::u32_to_string(v.target_bitrate);
                l.append(t.as_str());
                r.push(l);
                let mut l = <String as vstd::string::StringExecFns>::from_str("-> Max Bitrate: ");
                let m = crate::json::u32_to_string(v.max_bitrate);
                l.append(m.as_str());
                r.push(l);
            },
            RateControl::CBR(c) => {
                r.push(<String as vstd::string::StringExecFns>::from_str("> Rate Control: CBR"));
                let mut l = <String as vstd::string::StringExecFns>::from_str(
                    "-> Target Bitrate: ",
                );
                let t = crate::json::u32_to_string(c.target_bitrate);
                l.append(t.as_str());
                r.push(l);
            },
        }
        r
    }
}

impl VideoEncodingOptions {
    /// The settings as display lines; the driver prints them.
    pub fn debug_print(&self) -> (r: Vec<String>)
        ensures
            r@.len() == spec_video_encoding_lines(*self).len(),
            forall|i: int|
                0 <= i < r@.len() ==> (#[trigger] r@[i])@ == spec_video_encoding_lines(*self)[i],
    {
        let mut r: Vec<String> = Vec::new();
        r.push(<String as vstd::string::StringExecFns>::from_str("Video Encoding Options:"));
        let mut base = self.base.debug_print();
        let ghost bsnap = base@;
        r.append(&mut base);
        let mut l = <String as vstd::string::StringExecFns>::from_str("> Encoder Type: ");
        l.append(self.encoder_type.as_str());
        r.push(l);
        proof {
            let lines = spec_video_encoding_lines(*self);
            let bl = spec_encoding_base_lines(self.base);
            assert forall|i: int| 0 <= i < r@.len() implies (#[trigger] r@[i])@ == lines[i] by {
                if 1 <= i <= bl.len() {
                    assert(r@[i] == bsnap[i - 1]);
                    assert(lines[i] == bl[i - 1]);
                }
            }
        }
        r
    }
}

impl AudioEncodingOptions {
    /// The settings as display lines; the driver prints them.
    pub fn debug_print(&self) -> (r: Vec<String>)
        ensures
            r@.len() == spec_audio_encoding_lines(*self).len(),
            forall|i: int|
                0 <= i < r@.len() ==> (#[trigger] r@[i])@ == spec_audio_encoding_lines(*self)[i],
    {
        let mut r: Vec<String> = Vec::new();
        r.push(<String as vstd::string::StringExecFns>::from_str("Audio Encoding Options:"));
        let mut base = self.base.debug_print();
        let ghost bsnap = base@;
        r.append(&mut base);
        let mut l = <String as vstd::string::StringExecFns>::from_str("> Capture Method: ");
        l.append(self.capture_method.as_str());
        r.push(l);
        proof {
            let lines = spec_audio_encoding_lines(*self);
            let bl = spec_encoding_base_lines(self.base);
            assert forall|i: int| 0 <= i < r@.len() implies (#[trigger] r@[i])@ == lines[i] by {
                if 1 <= i <= bl.len() {
                    assert(r@[i] == bsnap[i - 1]);
                    assert(lines[i] == bl[i - 1]);
                }
            }
        }
        r
    }
}

impl EncodingArgs {
    /// The settings as display lines; the driver prints them.
    pub fn debug_print(&self) -> (r: Vec<String>)
        ensures
            r@.len() == spec_encoding_args_lines(*self).len(),
            forall|i: int|
                0 <= i < r@.len() ==> (#[trigger] r@[i])@ == spec_encoding_args_lines(*self)[i],
    {
        let mut r: Vec<String> = Vec::new();
        r.push(<String as vstd::string::StringExecFns>::from_str("Encoding Arguments:"));
        let mut video = self.video.debug_print();
        let ghost vsnap = video@;
        r.append(&mut video);
        let mut audio = self.audio.debug_print();
        let ghost asnap = audio@;
        r.append(&mut audio);
        proof {
            let lines = spec_encoding_args_lines(*self);
            let vl = spec_video_encoding_lines(self.video);
            let al = spec_audio_encoding_lines(self.audio);
            assert forall|i: int| 0 <= i < r@.len() implies (#[trigger] r@[i])@ == lines[i] by {
                if 1 <= i <= vl.len() {
                    assert(r@[i] == vsnap[i - 1]);
                    assert(lines[i] == vl[i - 1]);
                } else if i > vl.len() {
                    assert(r@[i] == asnap[i - 1 - vl.len()]);
                    assert(lines[i] == al[i - 1 - vl.len()]);
                }
            }
        }
        r
    }
}

} // verus!
