//! Encoder identity data.
//!
//! Scoring encoders against the machine's GPUs and wiring them into the
//! media pipeline happens outside; this module holds the codec and
//! encoder vocabulary those decisions are written in, and the record an
//! encoder choice is carried around as.

use vstd::prelude::*;

verus! {

use crate::gpu::GPUInfo;

#[derive(Debug, Eq, PartialEq, Clone, Copy, Structural)]
pub enum AudioCodec {
    OPUS,
}

/// The display name of an audio codec.
pub open spec fn spec_audio_codec_str(c: AudioCodec) -> Seq<char> {
    match c {
        AudioCodec::OPUS => "Opus"@,
    }
}

impl AudioCodec {
    pub fn as_str(&self) -> (r: &'static str)
        ensures
            r@ == spec_audio_codec_str(*self),
    {
        match self {
            AudioCodec::OPUS => "Opus",
        }
    }
}

/// The audio codec a name designates, ASCII case ignored.
pub open spec fn spec_audio_codec_of(s: Seq<char>) -> Option<AudioCodec> {
    if crate::gpu::folded(s) == crate::gpu::folded("Opus"@) {
        Option::Some(AudioCodec::OPUS)
    } else {
        Option::None
    }
}

impl AudioCodec {
    /// Parse an audio codec name, ASCII case ignored; an unknown one is
    /// an error naming it.
    pub fn parse_name(s: &str) -> (r: Result<AudioCodec, String>)
        ensures
            match spec_audio_codec_of(s@) {
                Option::Some(c) => r == Ok::<AudioCodec, String>(c),
                Option::None => r matches Err(msg) && msg@ == "invalid audio codec: "@ + s@,
            },
    {
        if crate::gpu::eq_ignore_ascii_case(s, "Opus") {
            Ok(AudioCodec::OPUS)
        } else {
            Err(
                <String as vstd::string::StringExecFns>::from_str("invalid audio codec: ").concat(
                    s,
                ),
            )
        }
    }
}

impl core::str::FromStr for AudioCodec {
    type Err = String;

    fn from_str(s: &str) -> Result<Self, String> {
        AudioCodec::parse_name(s)
    }
}

/// Parsing inverts naming for the audio codec.
pub proof fn lemma_audio_codec_name_round_trip(c: AudioCodec)
    ensures
        spec_audio_codec_of(spec_audio_codec_str(c)) == Option::Some(c),
{
}

#[derive(Debug, Eq, PartialEq, Clone, Copy, Structural)]
pub enum VideoCodec {
    H264,
    H265,
    AV1,
}

/// The display name of a video codec.
pub open spec fn spec_video_codec_str(c: VideoCodec) -> Seq<char> {
    match c {
        VideoCodec::H264 => "H.264"@,
        VideoCodec::H265 => "H.265"@,
        VideoCodec::AV1 => "AV1"@,
    }
}

impl VideoCodec {
    pub fn as_str(&self) -> (r: &'static str)
        ensures
            r@ == spec_video_codec_str(*self),
    {
        match self {
            VideoCodec::H264 => "H.264",
            VideoCodec::H265 => "H.265",
            VideoCodec::AV1 => "AV1",
        }
    }
}

/// The video codec a name or alias designates, ASCII case ignored.
pub open spec fn spec_video_codec_of(s: Seq<char>) -> Option<VideoCodec> {
    if crate::gpu::folded(s) == crate::gpu::folded("H.264"@) || crate::gpu::folded(s)
        == crate::gpu::folded("h264"@) || crate::gpu::folded(s) == crate::gpu::folded("avc"@) {
        Option::Some(VideoCodec::H264)
    } else if crate::gpu::folded(s) == crate::gpu::folded("H.265"@) || crate::gpu::folded(s)
        == crate::gpu::folded("h265"@) || crate::gpu::folded(s) == crate::gpu::folded("hevc"@)
        || crate::gpu::folded(s) == crate::gpu::folded("hev1"@) {
        Option::Some(VideoCodec::H265)
    } else if crate::gpu::folded(s) == crate::gpu::folded("AV1"@) || crate::gpu::folded(s)
        == crate::gpu::folded("av1"@) {
        Option::Some(VideoCodec::AV1)
    } else {
        Option::None
    }
}

impl VideoCodec {
    /// Parse a video codec name or alias, ASCII case ignored; an
    /// unknown one is an error naming it.
    pub fn parse_name(s: &str) -> (r: Result<VideoCodec, String>)
        ensures
            match spec_video_codec_of(s@) {
                Option::Some(c) => r == Ok::<VideoCodec, String>(c),
                Option::None => r matches Err(msg) && msg@ == "invalid video codec: "@ + s@,
            },
    {
        if crate::gpu::eq_ignore_ascii_case(s, "H.264") || crate::gpu::eq_ignore_ascii_case(
            s,
            "h264",
        ) || crate::gpu::eq_ignore_ascii_case(s, "avc") {
            Ok(VideoCodec::H264)
        } else if crate::gpu::eq_ignore_ascii_case(s, "H.265") || crate::gpu::eq_ignore_ascii_case(
            s,
            "h265",
        ) || crate::gpu::eq_ignore_ascii_case(s, "hevc") || crate::gpu::eq_ignore_ascii_case(
            s,
            "hev1",
        ) {
            Ok(VideoCodec::H265)
        } else if crate::gpu::eq_ignore_ascii_case(s, "AV1") || crate::gpu::eq_ignore_ascii_case(
            s,
            "av1",
        ) {
            Ok(VideoCodec::AV1)
        } else {
            Err(
                <String as vstd::string::StringExecFns>::from_str("invalid video codec: ").concat(
                    s,
                ),
            )
        }
    }
}

impl core::str::FromStr for VideoCodec {
    type Err = String;

    fn from_str(s: &str) -> Result<Self, String> {
        VideoCodec::parse_name(s)
    }
}

/// Parsing inverts naming: every video codec's display name parses back
/// to exactly that codec.
pub proof fn lemma_video_codec_name_round_trip(c: VideoCodec)
    ensures
        spec_video_codec_of(spec_video_codec_str(c)) == Option::Some(c),
{
    reveal_strlit("H.264");
    reveal_strlit("H.265");
    reveal_strlit("AV1");
    reveal_strlit("h264");
    reveal_strlit("h265");
    reveal_strlit("hevc");
    reveal_strlit("hev1");
    reveal_strlit("avc");
    reveal_strlit("av1");
    assert("H.264"@.len() == 5 && "H.265"@.len() == 5 && "AV1"@.len() == 3);
    assert("h264"@.len() == 4 && "h265"@.len() == 4 && "hevc"@.len() == 4 && "hev1"@.len() == 4);
    assert("avc"@.len() == 3 && "av1"@.len() == 3);
    crate::gpu::lemma_folded_ascii("H.264"@);
    crate::gpu::lemma_folded_ascii("H.265"@);
    crate::gpu::lemma_folded_ascii("AV1"@);
    crate::gpu::lemma_folded_ascii("h264"@);
    crate::gpu::lemma_folded_ascii("h265"@);
    crate::gpu::lemma_folded_ascii("hevc"@);
    crate::gpu::lemma_folded_ascii("hev1"@);
    crate::gpu::lemma_folded_ascii("avc"@);
    crate::gpu::lemma_folded_ascii("av1"@);
    match c {
        VideoCodec::H264 => {},
        VideoCodec::H265 => {
            assert(crate::gpu::folded("H.265"@)[4] == crate::gpu::lower_byte('5' as u8));
            assert(crate::gpu::folded("H.264"@)[4] == crate::gpu::lower_byte('4' as u8));
        },
        VideoCodec::AV1 => {
            assert(crate::gpu::folded("AV1"@)[2] == crate::gpu::lower_byte('1' as u8));
            assert(crate::gpu::folded("avc"@)[2] == crate::gpu::lower_byte('c' as u8));
        },
    }
}

#[derive(Debug, Eq, PartialEq, Clone, Copy, Structural)]
pub enum Codec {
    Audio(AudioCodec),
    Video(VideoCodec),
}

/// The display name of a codec.
pub open spec fn spec_codec_str(c: Codec) -> Seq<char> {
    match c {
        Codec::Audio(a) => spec_audio_codec_str(a),
        Codec::Video(v) => spec_video_codec_str(v),
    }
}

impl Codec {
    pub fn as_str(&self) -> (r: &'static str)
        ensures
            r@ == spec_codec_str(*self),
    {
        match self {
            Codec::Audio(codec) => codec.as_str(),
            Codec::Video(codec) => codec.as_str(),
        }
    }
}

#[derive(Debug, Eq, PartialEq, Clone, Copy, Structural)]
pub enum EncoderAPI {
    QSV,
    VAAPI,
    NVENC,
    AMF,
    SOFTWARE,
    UNKNOWN,
}

/// The display name of an encoder interface.
pub open spec fn spec_encoder_api_str(a: EncoderAPI) -> Seq<char> {
    match a {
        EncoderAPI::QSV => "Intel QuickSync Video"@,
        EncoderAPI::VAAPI => "Video Acceleration API"@,
        EncoderAPI::NVENC => "NVIDIA NVENC"@,
        EncoderAPI::AMF => "AMD Media Framework"@,
        EncoderAPI::SOFTWARE => "Software"@,
        EncoderAPI::UNKNOWN => "Unknown"@,
    }
}

impl EncoderAPI {
    pub fn to_str(&self) -> (r: &'static str)
        ensures
            r@ == spec_encoder_api_str(*self),
    {
        match self {
            EncoderAPI::QSV => "Intel QuickSync Video",
            EncoderAPI::VAAPI => "Video Acceleration API",
            EncoderAPI::NVENC => "NVIDIA NVENC",
            EncoderAPI::AMF => "AMD Media Framework",
            EncoderAPI::SOFTWARE => "Software",
            EncoderAPI::UNKNOWN => "Unknown",
        }
    }
}

#[derive(Debug, Eq, PartialEq, Clone, Copy, Structural)]
pub enum EncoderType {
    SOFTWARE,
    HARDWARE,
}

/// The display name of an encoder type.
pub open spec fn spec_encoder_type_str(t: EncoderType) -> Seq<char> {
    match t {
        EncoderType::SOFTWARE => "Software"@,
        EncoderType::HARDWARE => "Hardware"@,
    }
}

impl EncoderType {
    pub fn as_str(&self) -> (r: &'static str)
        ensures
            r@ == spec_encoder_type_str(*self),
    {
        match self {
            EncoderType::SOFTWARE => "Software",
            EncoderType::HARDWARE => "Hardware",
        }
    }
}

/// One selectable video encoder and the element parameters chosen for
/// it.
#[derive(Debug)]
pub struct VideoEncoderInfo {
    pub name: String,
    pub codec: VideoCodec,
    pub encoder_type: EncoderType,
    pub encoder_api: EncoderAPI,
    pub parameters: Vec<(String, String)>,
    pub gpu_info: Option<GPUInfo>,
}

/// One `key=value` pair as it appears in the parameter line.
pub open spec fn spec_param_text(p: (String, String)) -> Seq<char> {
    p.0@ + "="@ + p.1@
}

/// The space-separated parameter line.
pub open spec fn spec_params_text(ps: Seq<(String, String)>) -> Seq<char>
    decreases ps.len(),
{
    if ps.len() == 0 {
        Seq::empty()
    } else if ps.len() == 1 {
        spec_param_text(ps.last())
    } else {
        spec_params_text(ps.drop_last()) + " "@ + spec_param_text(ps.last())
    }
}

impl VideoEncoderInfo {
    /// A record for a named encoder, with no parameters chosen yet.
    pub fn new(
        name: String,
        codec: VideoCodec,
        encoder_type: EncoderType,
        encoder_api: EncoderAPI,
    ) -> (r: Self)
        ensures
            r.name@ == name@,
            r.codec == codec,
            r.encoder_type == encoder_type,
            r.encoder_api == encoder_api,
            r.parameters@ =~= Seq::<(String, String)>::empty(),
            r.gpu_info is None,
    {
        VideoEncoderInfo {
            name,
            codec,
            encoder_type,
            encoder_api,
            parameters: Vec::new(),
            gpu_info: None,
        }
    }

    /// Append one `key=value` parameter.
    pub fn set_parameter(&mut self, key: &str, value: &str)
        ensures
            final(self).parameters@.len() == old(self).parameters@.len() + 1,
            final(self).parameters@.last().0@ == key@,
            final(self).parameters@.last().1@ == value@,
            final(self).parameters@.drop_last() == old(self).parameters@,
            final(self).name == old(self).name,
            final(self).codec == old(self).codec,
            final(self).encoder_type == old(self).encoder_type,
            final(self).encoder_api == old(self).encoder_api,
            final(self).gpu_info == old(self).gpu_info,
    {
        self.parameters.push((String::from_str(key), String::from_str(value)));
        proof {
            assert(self.parameters@.drop_last() =~= old(self).parameters@);
        }
    }

    /// The parameters as one `key=value key=value …` line.
    pub fn get_parameters_string(&self) -> (r: String)
        ensures
            r@ == spec_params_text(self.parameters@),
    {
        let mut out = String::new();
        let mut i: usize = 0;
        while i < self.parameters.len()
            invariant
                i <= self.parameters@.len(),
                out@ == spec_params_text(self.parameters@.subrange(0, i as int)),
            decreases self.parameters@.len() - i,
        {
            if i > 0 {
                out.append(" ");
            }
            out.append(self.parameters[i].0.as_str());
            out.append("=");
            out.append(self.parameters[i].1.as_str());
            i = i + 1;
            proof {
                assert(self.parameters@.subrange(0, i as int).drop_last() =~= self.parameters@
                    .subrange(0, i - 1));
                assert(self.parameters@.subrange(0, i as int).last() == self.parameters@[i - 1]);
            }
        }
        proof {
            assert(self.parameters@.subrange(0, self.parameters@.len() as int)
                =~= self.parameters@);
        }
        out
    }
}


// ---------------------------------------------------------------------
// Element-parameter selection
// ---------------------------------------------------------------------
/// Quantization value for one element property, judged on its folded
/// name: minimum/intra properties get the base quality, the rest of the
/// quantization properties a slightly looser one.
pub open spec fn cqp_value(pl: Seq<u8>, quality: int) -> Option<int> {
    if !crate::gpu::contains_bytes(pl, crate::gpu::folded("qp"@)) {
        Option::None
    } else if crate::gpu::contains_bytes(pl, crate::gpu::folded("i"@)) || crate::gpu::contains_bytes(
        pl,
        crate::gpu::folded("min"@),
    ) {
        Option::Some(quality)
    } else if crate::gpu::contains_bytes(pl, crate::gpu::folded("p"@)) || crate::gpu::contains_bytes(
        pl,
        crate::gpu::folded("max"@),
    ) {
        Option::Some(quality + 2)
    } else {
        Option::None
    }
}

/// Bitrate value for one element property under variable bitrate: plain
/// bitrate properties get the target, maximum-bitrate properties the cap
/// — except on `svtav1enc`, whose cap property is left alone.
pub open spec fn vbr_value(pl: Seq<u8>, name: Seq<char>, bitrate: int, max_bitrate: int) -> Option<
    int,
> {
    if !crate::gpu::contains_bytes(pl, crate::gpu::folded("bitrate"@)) {
        Option::None
    } else if !crate::gpu::contains_bytes(pl, crate::gpu::folded("max"@)) {
        Option::Some(bitrate)
    } else if name != "svtav1enc"@ {
        Option::Some(max_bitrate)
    } else {
        Option::None
    }
}

/// Bitrate value for one element property under constant bitrate: only
/// the plain bitrate properties are set.
pub open spec fn cbr_value(pl: Seq<u8>, bitrate: int) -> Option<int> {
    if crate::gpu::contains_bytes(pl, crate::gpu::folded("bitrate"@)) && !crate::gpu::contains_bytes(
        pl,
        crate::gpu::folded("max"@),
    ) {
        Option::Some(bitrate)
    } else {
        Option::None
    }
}

/// Keyframe-distance value for one element property: every property
/// spelling a group-of-pictures bound gets the chosen size.
pub open spec fn gop_value(pl: Seq<u8>, gop_size: int) -> Option<int> {
    if crate::gpu::contains_bytes(pl, crate::gpu::folded("gop-size"@)) || crate::gpu::contains_bytes(
        pl,
        crate::gpu::folded("int-max"@),
    ) || crate::gpu::contains_bytes(pl, crate::gpu::folded("max-dist"@))
        || crate::gpu::contains_bytes(pl, crate::gpu::folded("intra-period-length"@)) {
        Option::Some(gop_size)
    } else {
        Option::None
    }
}

/// How many of `props` the cqp rule sets.
pub open spec fn cqp_count(props: Seq<String>, quality: int) -> int
    decreases props.len(),
{
    if props.len() == 0 {
        0
    } else {
        cqp_count(props.drop_last(), quality) + if cqp_value(
            crate::gpu::folded(props.last()@),
            quality,
        ) is Some {
            1int
        } else {
            0int
        }
    }
}

/// One appended parameter is a property the cqp rule set, with the
/// value the rule chose.
pub open spec fn cqp_justified(p: (String, String), props: Seq<String>, quality: int) -> bool {
    exists|j: int|
        0 <= j < props.len() && p.0@ == #[trigger] props[j]@ && (cqp_value(
            crate::gpu::folded(props[j]@),
            quality,
        ) matches Some(v) && vstd::utf8::encode_utf8(p.1@) == crate::json::spec_nat_text(v))
}

/// How many of `props` the vbr rule sets.
pub open spec fn vbr_count(props: Seq<String>, name: Seq<char>, bitrate: int, max_bitrate: int) -> int
    decreases props.len(),
{
    if props.len() == 0 {
        0
    } else {
        vbr_count(props.drop_last(), name, bitrate, max_bitrate) + if vbr_value(
            crate::gpu::folded(props.last()@),
            name, bitrate, max_bitrate,
        ) is Some {
            1int
        } else {
            0int
        }
    }
}

/// One appended parameter is a property the vbr rule set, with the
/// value the rule chose.
pub open spec fn vbr_justified(p: (String, String), props: Seq<String>, name: Seq<char>, bitrate: int, max_bitrate: int) -> bool {
    exists|j: int|
        0 <= j < props.len() && p.0@ == #[trigger] props[j]@ && (vbr_value(
            crate::gpu::folded(props[j]@),
            name, bitrate, max_bitrate,
        ) matches Some(v) && vstd::utf8::encode_utf8(p.1@) == crate::json::spec_nat_text(v))
}

/// How many of `props` the cbr rule sets.
pub open spec fn cbr_count(props: Seq<String>, bitrate: int) -> int
    decreases props.len(),
{
    if props.len() == 0 {
        0
    } else {
        cbr_count(props.drop_last(), bitrate) + if cbr_value(
            crate::gpu::folded(props.last()@),
            bitrate,
        ) is Some {
            1int
        } else {
            0int
        }
    }
}

/// One appended parameter is a property the cbr rule set, with the
/// value the rule chose.
pub open spec fn cbr_justified(p: (String, String), props: Seq<String>, bitrate: int) -> bool {
    exists|j: int|
        0 <= j < props.len() && p.0@ == #[trigger] props[j]@ && (cbr_value(
            crate::gpu::folded(props[j]@),
            bitrate,
        ) matches Some(v) && vstd::utf8::encode_utf8(p.1@) == crate::json::spec_nat_text(v))
}

/// How many of `props` the gop rule sets.
pub open spec fn gop_count(props: Seq<String>, gop_size: int) -> int
    decreases props.len(),
{
    if props.len() == 0 {
        0
    } else {
        gop_count(props.drop_last(), gop_size) + if gop_value(
            crate::gpu::folded(props.last()@),
            gop_size,
        ) is Some {
            1int
        } else {
            0int
        }
    }
}

/// One appended parameter is a property the gop rule set, with the
/// value the rule chose.
pub open spec fn gop_justified(p: (String, String), props: Seq<String>, gop_size: int) -> bool {
    exists|j: int|
        0 <= j < props.len() && p.0@ == #[trigger] props[j]@ && (gop_value(
            crate::gpu::folded(props[j]@),
            gop_size,
        ) matches Some(v) && vstd::utf8::encode_utf8(p.1@) == crate::json::spec_nat_text(v))
}


/// What the constant-quantization rule sets one element property to, if anything.
fn cqp_param_for(prop: &str, quality: u32) -> (r: Option<(String, String)>)
    requires
        quality + 2 <= u32::MAX,
    ensures
        match cqp_value(crate::gpu::folded(prop@), quality as int) {
            Option::Some(v) => r matches Some(p) && p.0@ == prop@ && vstd::utf8::encode_utf8(p.1@)
                == crate::json::spec_nat_text(v),
            Option::None => r is None,
        },
{
    if !crate::gpu::contains_ignore_ascii_case(prop, "qp") {
        None
    } else if crate::gpu::contains_ignore_ascii_case(prop, "i")
        || crate::gpu::contains_ignore_ascii_case(prop, "min") {
        Some((<String as vstd::string::StringExecFns>::from_str(prop), crate::json::u32_to_string(quality)))
    } else if crate::gpu::contains_ignore_ascii_case(prop, "p")
        || crate::gpu::contains_ignore_ascii_case(prop, "max") {
        Some((<String as vstd::string::StringExecFns>::from_str(prop), crate::json::u32_to_string(quality + 2)))
    } else {
        None
    }
}

/// What the variable-bitrate rule sets one element property to, if anything.
fn vbr_param_for(prop: &str, name: &str, bitrate: u32, max_bitrate: u32) -> (r: Option<(String, String)>)
    requires
    ensures
        match vbr_value(crate::gpu::folded(prop@), name@, bitrate as int, max_bitrate as int) {
            Option::Some(v) => r matches Some(p) && p.0@ == prop@ && vstd::utf8::encode_utf8(p.1@)
                == crate::json::spec_nat_text(v),
            Option::None => r is None,
        },
{
    if !crate::gpu::contains_ignore_ascii_case(prop, "bitrate") {
        None
    } else if !crate::gpu::contains_ignore_ascii_case(prop, "max") {
        Some((<String as vstd::string::StringExecFns>::from_str(prop), crate::json::u32_to_string(bitrate)))
    } else if !crate::json::str_eq(name, "svtav1enc") {
        Some((<String as vstd::string::StringExecFns>::from_str(prop), crate::json::u32_to_string(max_bitrate)))
    } else {
        None
    }
}

/// What the constant-bitrate rule sets one element property to, if anything.
fn cbr_param_for(prop: &str, bitrate: u32) -> (r: Option<(String, String)>)
    requires
    ensures
        match cbr_value(crate::gpu::folded(prop@), bitrate as int) {
            Option::Some(v) => r matches Some(p) && p.0@ == prop@ && vstd::utf8::encode_utf8(p.1@)
                == crate::json::spec_nat_text(v),
            Option::None => r is None,
        },
{
    if crate::gpu::contains_ignore_ascii_case(prop, "bitrate")
        && !crate::gpu::contains_ignore_ascii_case(prop, "max") {
        Some((<String as vstd::string::StringExecFns>::from_str(prop), crate::json::u32_to_string(bitrate)))
    } else {
        None
    }
}

/// What the keyframe-distance rule sets one element property to, if anything.
fn gop_param_for(prop: &str, gop_size: u32) -> (r: Option<(String, String)>)
    requires
    ensures
        match gop_value(crate::gpu::folded(prop@), gop_size as int) {
            Option::Some(v) => r matches Some(p) && p.0@ == prop@ && vstd::utf8::encode_utf8(p.1@)
                == crate::json::spec_nat_text(v),
            Option::None => r is None,
        },
{
    if crate::gpu::contains_ignore_ascii_case(prop, "gop-size")
        || crate::gpu::contains_ignore_ascii_case(prop, "int-max")
        || crate::gpu::contains_ignore_ascii_case(prop, "max-dist")
        || crate::gpu::contains_ignore_ascii_case(prop, "intra-period-length") {
        Some((<String as vstd::string::StringExecFns>::from_str(prop), crate::json::u32_to_string(gop_size)))
    } else {
        None
    }
}

/// Apply the constant-quantization rule to every listed element property, appending the
/// chosen `key=value` parameters to a copy of `encoder`.
pub fn encoder_cqp_params(encoder: &VideoEncoderInfo, properties: &Vec<String>, quality: u32) -> (r:
    VideoEncoderInfo)
    requires
        quality + 2 <= u32::MAX,
    ensures
        r.name == encoder.name,
        r.codec == encoder.codec,
        r.encoder_type == encoder.encoder_type,
        r.encoder_api == encoder.encoder_api,
        r.gpu_info == encoder.gpu_info,
        r.parameters@.len() == encoder.parameters@.len() + cqp_count(properties@, quality as int),
        r.parameters@.subrange(0, encoder.parameters@.len() as int) == encoder.parameters@,
        forall|k: int|
            encoder.parameters@.len() <= k < r.parameters@.len() ==> #[trigger] cqp_justified(
                r.parameters@[k],
                properties@,
                quality as int,
            ),
{
    let mut out = clone_encoder_info(encoder);
    let ghost base_len = encoder.parameters@.len() as int;
    proof {
        assert(properties@.subrange(0, 0).len() == 0);
        assert(out.parameters@.subrange(0, base_len) =~= encoder.parameters@);
    }
    let mut i: usize = 0;
    while i < properties.len()
        invariant
        quality + 2 <= u32::MAX,
            i <= properties@.len(),
            base_len == encoder.parameters@.len(),
            base_len <= out.parameters@.len(),
            out.name == encoder.name,
            out.codec == encoder.codec,
            out.encoder_type == encoder.encoder_type,
            out.encoder_api == encoder.encoder_api,
            out.gpu_info == encoder.gpu_info,
            out.parameters@.len() == encoder.parameters@.len() + cqp_count(
                properties@.subrange(0, i as int),
                quality as int,
            ),
            out.parameters@.subrange(0, base_len) == encoder.parameters@,
            forall|k: int|
                base_len <= k < out.parameters@.len() ==> #[trigger] cqp_justified(
                    out.parameters@[k],
                    properties@,
                    quality as int,
                ),
        decreases properties@.len() - i,
    {
        let ghost pre = out.parameters@;
        match cqp_param_for(properties[i].as_str(), quality) {
            Some(p) => {
                proof {
                    assert(p.0@ == properties@[i as int]@);
                }
                out.parameters.push(p);
                proof {
                    assert(out.parameters@.drop_last() == pre);
                    assert forall|t: int| 0 <= t < base_len implies out.parameters@[t] == pre[t] by {
                        assert(out.parameters@[t] == out.parameters@.drop_last()[t]);
                    }
                    assert(out.parameters@.subrange(0, base_len) =~= pre.subrange(0, base_len));
                    assert forall|k: int|
                        base_len <= k < out.parameters@.len() implies #[trigger] cqp_justified(
                        out.parameters@[k],
                        properties@,
                        quality as int,
                    ) by {
                        if k < pre.len() {
                            assert(out.parameters@[k] == pre[k]);
                        } else {
                            assert(out.parameters@[k] == p);
                            assert(0 <= i < properties@.len() && p.0@ == properties@[i as int]@ && (
                            cqp_value(crate::gpu::folded(properties@[i as int]@), quality as int) matches
                                Some(v) && vstd::utf8::encode_utf8(p.1@)
                                == crate::json::spec_nat_text(v)));
                        }
                    }
                }
            },
            None => {
            },
        }
        i = i + 1;
        proof {
            assert(properties@.subrange(0, i as int).drop_last() =~= properties@.subrange(
                0,
                i - 1,
            ));
            assert(properties@.subrange(0, i as int).last() == properties@[i - 1]);
        }
    }
    proof {
        assert(properties@.subrange(0, properties@.len() as int) =~= properties@);
    }
    out
}

/// Apply the constant-bitrate rule to every listed element property, appending the
/// chosen `key=value` parameters to a copy of `encoder`.
pub fn encoder_cbr_params(encoder: &VideoEncoderInfo, properties: &Vec<String>, bitrate: u32) -> (r:
    VideoEncoderInfo)
    requires
    ensures
        r.name == encoder.name,
        r.codec == encoder.codec,
        r.encoder_type == encoder.encoder_type,
        r.encoder_api == encoder.encoder_api,
        r.gpu_info == encoder.gpu_info,
        r.parameters@.len() == encoder.parameters@.len() + cbr_count(properties@, bitrate as int),
        r.parameters@.subrange(0, encoder.parameters@.len() as int) == encoder.parameters@,
        forall|k: int|
            encoder.parameters@.len() <= k < r.parameters@.len() ==> #[trigger] cbr_justified(
                r.parameters@[k],
                properties@,
                bitrate as int,
            ),
{
    let mut out = clone_encoder_info(encoder);
    let ghost base_len = encoder.parameters@.len() as int;
    proof {
        assert(properties@.subrange(0, 0).len() == 0);
        assert(out.parameters@.subrange(0, base_len) =~= encoder.parameters@);
    }
    let mut i: usize = 0;
    while i < properties.len()
        invariant
            i <= properties@.len(),
            base_len == encoder.parameters@.len(),
            base_len <= out.parameters@.len(),
            out.name == encoder.name,
            out.codec == encoder.codec,
            out.encoder_type == encoder.encoder_type,
            out.encoder_api == encoder.encoder_api,
            out.gpu_info == encoder.gpu_info,
            out.parameters@.len() == encoder.parameters@.len() + cbr_count(
                properties@.subrange(0, i as int),
                bitrate as int,
            ),
            out.parameters@.subrange(0, base_len) == encoder.parameters@,
            forall|k: int|
                base_len <= k < out.parameters@.len() ==> #[trigger] cbr_justified(
                    out.parameters@[k],
                    properties@,
                    bitrate as int,
                ),
        decreases properties@.len() - i,
    {
        let ghost pre = out.parameters@;
        match cbr_param_for(properties[i].as_str(), bitrate) {
            Some(p) => {
                proof {
                    assert(p.0@ == properties@[i as int]@);
                }
                out.parameters.push(p);
                proof {
                    assert(out.parameters@.drop_last() == pre);
                    assert forall|t: int| 0 <= t < base_len implies out.parameters@[t] == pre[t] by {
                        assert(out.parameters@[t] == out.parameters@.drop_last()[t]);
                    }
                    assert(out.parameters@.subrange(0, base_len) =~= pre.subrange(0, base_len));
                    assert forall|k: int|
                        base_len <= k < out.parameters@.len() implies #[trigger] cbr_justified(
                        out.parameters@[k],
                        properties@,
                        bitrate as int,
                    ) by {
                        if k < pre.len() {
                            assert(out.parameters@[k] == pre[k]);
                        } else {
                            assert(out.parameters@[k] == p);
                            assert(0 <= i < properties@.len() && p.0@ == properties@[i as int]@ && (
                            cbr_value(crate::gpu::folded(properties@[i as int]@), bitrate as int) matches
                                Some(v) && vstd::utf8::encode_utf8(p.1@)
                                == crate::json::spec_nat_text(v)));
                        }
                    }
                }
            },
            None => {
            },
        }
        i = i + 1;
        proof {
            assert(properties@.subrange(0, i as int).drop_last() =~= properties@.subrange(
                0,
                i - 1,
            ));
            assert(properties@.subrange(0, i as int).last() == properties@[i - 1]);
        }
    }
    proof {
        assert(properties@.subrange(0, properties@.len() as int) =~= properties@);
    }
    out
}

/// Apply the keyframe-distance rule to every listed element property, appending the
/// chosen `key=value` parameters to a copy of `encoder`.
pub fn encoder_gop_params(encoder: &VideoEncoderInfo, properties: &Vec<String>, gop_size: u32) -> (r:
    VideoEncoderInfo)
    requires
    ensures
        r.name == encoder.name,
        r.codec == encoder.codec,
        r.encoder_type == encoder.encoder_type,
        r.encoder_api == encoder.encoder_api,
        r.gpu_info == encoder.gpu_info,
        encoder.parameters@.len() <= r.parameters@.len(),
        r.parameters@.len() == encoder.parameters@.len() + gop_count(properties@, gop_size as int),
        r.parameters@.subrange(0, encoder.parameters@.len() as int) == encoder.parameters@,
        forall|k: int|
            encoder.parameters@.len() <= k < r.parameters@.len() ==> #[trigger] gop_justified(
                r.parameters@[k],
                properties@,
                gop_size as int,
            ),
{
    let mut out = clone_encoder_info(encoder);
    let ghost base_len = encoder.parameters@.len() as int;
    proof {
        assert(properties@.subrange(0, 0).len() == 0);
        assert(out.parameters@.subrange(0, base_len) =~= encoder.parameters@);
    }
    let mut i: usize = 0;
    while i < properties.len()
        invariant
            i <= properties@.len(),
            base_len == encoder.parameters@.len(),
            base_len <= out.parameters@.len(),
            out.name == encoder.name,
            out.codec == encoder.codec,
            out.encoder_type == encoder.encoder_type,
            out.encoder_api == encoder.encoder_api,
            out.gpu_info == encoder.gpu_info,
            out.parameters@.len() == encoder.parameters@.len() + gop_count(
                properties@.subrange(0, i as int),
                gop_size as int,
            ),
            out.parameters@.subrange(0, base_len) == encoder.parameters@,
            forall|k: int|
                base_len <= k < out.parameters@.len() ==> #[trigger] gop_justified(
                    out.parameters@[k],
                    properties@,
                    gop_size as int,
                ),
        decreases properties@.len() - i,
    {
        let ghost pre = out.parameters@;
        match gop_param_for(properties[i].as_str(), gop_size) {
            Some(p) => {
                proof {
                    assert(p.0@ == properties@[i as int]@);
                }
                out.parameters.push(p);
                proof {
                    assert(out.parameters@.drop_last() == pre);
                    assert forall|t: int| 0 <= t < base_len implies out.parameters@[t] == pre[t] by {
                        assert(out.parameters@[t] == out.parameters@.drop_last()[t]);
                    }
                    assert(out.parameters@.subrange(0, base_len) =~= pre.subrange(0, base_len));
                    assert forall|k: int|
                        base_len <= k < out.parameters@.len() implies #[trigger] gop_justified(
                        out.parameters@[k],
                        properties@,
                        gop_size as int,
                    ) by {
                        if k < pre.len() {
                            assert(out.parameters@[k] == pre[k]);
                        } else {
                            assert(out.parameters@[k] == p);
                            assert(0 <= i < properties@.len() && p.0@ == properties@[i as int]@ && (
                            gop_value(crate::gpu::folded(properties@[i as int]@), gop_size as int) matches
                                Some(v) && vstd::utf8::encode_utf8(p.1@)
                                == crate::json::spec_nat_text(v)));
                        }
                    }
                }
            },
            None => {
            },
        }
        i = i + 1;
        proof {
            assert(properties@.subrange(0, i as int).drop_last() =~= properties@.subrange(
                0,
                i - 1,
            ));
            assert(properties@.subrange(0, i as int).last() == properties@[i - 1]);
        }
    }
    proof {
        assert(properties@.subrange(0, properties@.len() as int) =~= properties@);
    }
    out
}

/// Apply the variable-bitrate rule to every listed element property, appending the
/// chosen `key=value` parameters to a copy of `encoder`.
pub fn encoder_vbr_params(encoder: &VideoEncoderInfo, properties: &Vec<String>, bitrate: u32, max_bitrate: u32) -> (r:
    VideoEncoderInfo)
    requires
    ensures
        r.name == encoder.name,
        r.codec == encoder.codec,
        r.encoder_type == encoder.encoder_type,
        r.encoder_api == encoder.encoder_api,
        r.gpu_info == encoder.gpu_info,
        r.parameters@.len() == encoder.parameters@.len() + vbr_count(properties@, encoder.name@, bitrate as int, max_bitrate as int),
        r.parameters@.subrange(0, encoder.parameters@.len() as int) == encoder.parameters@,
        forall|k: int|
            encoder.parameters@.len() <= k < r.parameters@.len() ==> #[trigger] vbr_justified(
                r.parameters@[k],
                properties@,
                encoder.name@, bitrate as int, max_bitrate as int,
            ),
{
    let mut out = clone_encoder_info(encoder);
    let ghost base_len = encoder.parameters@.len() as int;
    proof {
        assert(properties@.subrange(0, 0).len() == 0);
        assert(out.parameters@.subrange(0, base_len) =~= encoder.parameters@);
    }
    let mut i: usize = 0;
    while i < properties.len()
        invariant
            i <= properties@.len(),
            base_len == encoder.parameters@.len(),
            base_len <= out.parameters@.len(),
            out.name == encoder.name,
            out.codec == encoder.codec,
            out.encoder_type == encoder.encoder_type,
            out.encoder_api == encoder.encoder_api,
            out.gpu_info == encoder.gpu_info,
            out.parameters@.len() == encoder.parameters@.len() + vbr_count(
                properties@.subrange(0, i as int),
                encoder.name@, bitrate as int, max_bitrate as int,
            ),
            out.parameters@.subrange(0, base_len) == encoder.parameters@,
            forall|k: int|
                base_len <= k < out.parameters@.len() ==> #[trigger] vbr_justified(
                    out.parameters@[k],
                    properties@,
                    encoder.name@, bitrate as int, max_bitrate as int,
                ),
        decreases properties@.len() - i,
    {
        let ghost pre = out.parameters@;
        match vbr_param_for(properties[i].as_str(), out.name.as_str(), bitrate, max_bitrate) {
            Some(p) => {
                proof {
                    assert(p.0@ == properties@[i as int]@);
                }
                out.parameters.push(p);
                proof {
                    assert(out.parameters@.drop_last() == pre);
                    assert forall|t: int| 0 <= t < base_len implies out.parameters@[t] == pre[t] by {
                        assert(out.parameters@[t] == out.parameters@.drop_last()[t]);
                    }
                    assert(out.parameters@.subrange(0, base_len) =~= pre.subrange(0, base_len));
                    assert forall|k: int|
                        base_len <= k < out.parameters@.len() implies #[trigger] vbr_justified(
                        out.parameters@[k],
                        properties@,
                        encoder.name@, bitrate as int, max_bitrate as int,
                    ) by {
                        if k < pre.len() {
                            assert(out.parameters@[k] == pre[k]);
                        } else {
                            assert(out.parameters@[k] == p);
                            assert(0 <= i < properties@.len() && p.0@ == properties@[i as int]@ && (
                            vbr_value(crate::gpu::folded(properties@[i as int]@), encoder.name@, bitrate as int, max_bitrate as int) matches
                                Some(v) && vstd::utf8::encode_utf8(p.1@)
                                == crate::json::spec_nat_text(v)));
                        }
                    }
                }
            },
            None => {
            },
        }
        i = i + 1;
        proof {
            assert(properties@.subrange(0, i as int).drop_last() =~= properties@.subrange(
                0,
                i - 1,
            ));
            assert(properties@.subrange(0, i as int).last() == properties@[i - 1]);
        }
    }
    proof {
        assert(properties@.subrange(0, properties@.len() as int) =~= properties@);
    }
    out
}


// ---------------------------------------------------------------------
// Encoder identification and lookup
// ---------------------------------------------------------------------
/// `p` is a byte-for-byte prefix of `s`.
pub open spec fn is_prefix_bytes(p: Seq<u8>, s: Seq<u8>) -> bool {
    p.len() <= s.len() && s.subrange(0, p.len() as int) == p
}

/// The interface an encoder element speaks, judged from its name: the
/// hardware namespaces map to their interfaces, and a software encoder
/// is its own.
pub open spec fn spec_encoder_api_of(name: Seq<u8>, t: EncoderType) -> EncoderAPI {
    match t {
        EncoderType::HARDWARE => {
            if is_prefix_bytes(vstd::utf8::encode_utf8("qsv"@), name) {
                EncoderAPI::QSV
            } else if is_prefix_bytes(vstd::utf8::encode_utf8("va"@), name) {
                EncoderAPI::VAAPI
            } else if is_prefix_bytes(vstd::utf8::encode_utf8("nv"@), name) {
                EncoderAPI::NVENC
            } else if is_prefix_bytes(vstd::utf8::encode_utf8("amf"@), name) {
                EncoderAPI::AMF
            } else {
                EncoderAPI::UNKNOWN
            }
        },
        EncoderType::SOFTWARE => EncoderAPI::SOFTWARE,
    }
}

/// The interface of a named encoder of the given type.
pub fn get_encoder_api(encoder: &str, encoder_type: &EncoderType) -> (r: EncoderAPI)
    ensures
        r == spec_encoder_api_of(vstd::utf8::encode_utf8(encoder@), *encoder_type),
{
    match encoder_type {
        EncoderType::HARDWARE => {
            if crate::gpu::starts_with(encoder, "qsv") {
                EncoderAPI::QSV
            } else if crate::gpu::starts_with(encoder, "va") {
                EncoderAPI::VAAPI
            } else if crate::gpu::starts_with(encoder, "nv") {
                EncoderAPI::NVENC
            } else if crate::gpu::starts_with(encoder, "amf") {
                EncoderAPI::AMF
            } else {
                EncoderAPI::UNKNOWN
            }
        },
        EncoderType::SOFTWARE => EncoderAPI::SOFTWARE,
    }
}

/// The video codec an encoder name advertises, judged case-insensitively.
pub open spec fn spec_codec_of_name(name: Seq<char>) -> Option<VideoCodec> {
    if crate::gpu::contains_bytes(crate::gpu::folded(name), crate::gpu::folded("h264"@)) {
        Option::Some(VideoCodec::H264)
    } else if crate::gpu::contains_bytes(crate::gpu::folded(name), crate::gpu::folded("h265"@)) {
        Option::Some(VideoCodec::H265)
    } else if crate::gpu::contains_bytes(crate::gpu::folded(name), crate::gpu::folded("av1"@)) {
        Option::Some(VideoCodec::AV1)
    } else {
        Option::None
    }
}

/// The video codec in an encoder's name, if any.
pub fn codec_from_encoder_name(name: &str) -> (r: Option<VideoCodec>)
    ensures
        r == spec_codec_of_name(name@),
{
    if crate::gpu::contains_ignore_ascii_case(name, "h264") {
        Some(VideoCodec::H264)
    } else if crate::gpu::contains_ignore_ascii_case(name, "h265") {
        Some(VideoCodec::H265)
    } else if crate::gpu::contains_ignore_ascii_case(name, "av1") {
        Some(VideoCodec::AV1)
    } else {
        None
    }
}

/// Two encoder records carrying the same facts: equal fields, and the
/// same parameter pairs.
pub open spec fn enc_like(a: VideoEncoderInfo, b: VideoEncoderInfo) -> bool {
    a.name == b.name && a.codec == b.codec && a.encoder_type == b.encoder_type && a.encoder_api
        == b.encoder_api && a.parameters@ == b.parameters@ && a.gpu_info == b.gpu_info
}

pub(crate) fn clone_encoder_info(e: &VideoEncoderInfo) -> (r: VideoEncoderInfo)
    ensures
        enc_like(r, *e),
{
    let mut parameters: Vec<(String, String)> = Vec::new();
    let mut i: usize = 0;
    while i < e.parameters.len()
        invariant
            i <= e.parameters@.len(),
            parameters@ =~= e.parameters@.subrange(0, i as int),
        decreases e.parameters@.len() - i,
    {
        parameters.push((e.parameters[i].0.clone(), e.parameters[i].1.clone()));
        i = i + 1;
        proof {
            assert(parameters@ =~= e.parameters@.subrange(0, i as int));
        }
    }
    proof {
        assert(e.parameters@.subrange(0, e.parameters@.len() as int) =~= e.parameters@);
        assert(parameters@ =~= e.parameters@);
    }
    let gpu_info = match &e.gpu_info {
        Some(g) => Some(crate::gpu::clone_gpu(g)),
        None => None,
    };
    VideoEncoderInfo {
        name: e.name.clone(),
        codec: e.codec,
        encoder_type: e.encoder_type,
        encoder_api: e.encoder_api,
        parameters,
        gpu_info,
    }
}

/// Whether an encoder answers to `name`, ASCII case ignored.
pub open spec fn encoder_name_matches(e: VideoEncoderInfo, name: Seq<char>) -> bool {
    crate::gpu::folded(e.name@) == crate::gpu::folded(name)
}

/// The first encoder answering to `name`, ASCII case ignored; not
/// finding one is an error.
pub fn get_encoder_by_name(encoders: &Vec<VideoEncoderInfo>, name: &str) -> (r: Result<
    VideoEncoderInfo,
    String,
>)
    ensures
        match r {
            Ok(e) => exists|i: int|
                0 <= i < encoders@.len() && #[trigger] encoder_name_matches(encoders@[i], name@)
                    && enc_like(e, encoders@[i]) && forall|j: int|
                    0 <= j < i ==> !encoder_name_matches(encoders@[j], name@),
            Err(_) => forall|i: int|
                0 <= i < encoders@.len() ==> !encoder_name_matches(encoders@[i], name@),
        },
{
    let mut i: usize = 0;
    while i < encoders.len()
        invariant
            i <= encoders@.len(),
            forall|j: int| 0 <= j < i ==> !encoder_name_matches(encoders@[j], name@),
        decreases encoders@.len() - i,
    {
        if crate::gpu::eq_ignore_ascii_case(encoders[i].name.as_str(), name) {
            let e = clone_encoder_info(&encoders[i]);
            proof {
                assert(encoder_name_matches(encoders@[i as int], name@));
            }
            return Ok(e);
        }
        i = i + 1;
    }
    Err(<String as vstd::string::StringExecFns>::from_str("encoder not found: ").concat(name))
}

/// The encoders for one video codec, in their order of appearance.
pub fn get_encoders_by_videocodec(encoders: &Vec<VideoEncoderInfo>, codec: &VideoCodec) -> (r: Vec<
    VideoEncoderInfo,
>)
    ensures
        r@.len() == encoders@.filter(|e: VideoEncoderInfo| e.codec == *codec).len(),
        forall|k: int|
            0 <= k < r@.len() ==> enc_like(
                #[trigger] r@[k],
                encoders@.filter(|e: VideoEncoderInfo| e.codec == *codec)[k],
            ),
{
    let ghost pred = |e: VideoEncoderInfo| e.codec == *codec;
    let mut r: Vec<VideoEncoderInfo> = Vec::new();
    let mut i: usize = 0;
    proof {
        reveal(Seq::filter);
        assert(encoders@.subrange(0, 0) =~= Seq::<VideoEncoderInfo>::empty());
        assert(r@ =~= encoders@.subrange(0, 0).filter(pred));
    }
    while i < encoders.len()
        invariant
            i <= encoders@.len(),
            r@.len() == encoders@.subrange(0, i as int).filter(pred).len(),
            forall|k: int|
                0 <= k < r@.len() ==> enc_like(
                    #[trigger] r@[k],
                    encoders@.subrange(0, i as int).filter(pred)[k],
                ),
            pred == (|e: VideoEncoderInfo| e.codec == *codec),
        decreases encoders@.len() - i,
    {
        if encoders[i].codec == *codec {
            r.push(clone_encoder_info(&encoders[i]));
        }
        i = i + 1;
        proof {
            reveal(Seq::filter);
            assert(encoders@.subrange(0, i as int).drop_last() =~= encoders@.subrange(0, i - 1));
            assert(encoders@.subrange(0, i as int).last() == encoders@[i - 1]);
        }
    }
    proof {
        assert(encoders@.subrange(0, encoders@.len() as int) =~= encoders@);
    }
    r
}

/// The encoders of one type, hardware or software, in their order of
/// appearance.
pub fn get_encoders_by_type(encoders: &Vec<VideoEncoderInfo>, encoder_type: &EncoderType) -> (r:
    Vec<VideoEncoderInfo>)
    ensures
        r@.len() == encoders@.filter(|e: VideoEncoderInfo| e.encoder_type == *encoder_type).len(),
        forall|k: int|
            0 <= k < r@.len() ==> enc_like(
                #[trigger] r@[k],
                encoders@.filter(|e: VideoEncoderInfo| e.encoder_type == *encoder_type)[k],
            ),
{
    let ghost pred = |e: VideoEncoderInfo| e.encoder_type == *encoder_type;
    let mut r: Vec<VideoEncoderInfo> = Vec::new();
    let mut i: usize = 0;
    proof {
        reveal(Seq::filter);
        assert(encoders@.subrange(0, 0) =~= Seq::<VideoEncoderInfo>::empty());
        assert(r@ =~= encoders@.subrange(0, 0).filter(pred));
    }
    while i < encoders.len()
        invariant
            i <= encoders@.len(),
            r@.len() == encoders@.subrange(0, i as int).filter(pred).len(),
            forall|k: int|
                0 <= k < r@.len() ==> enc_like(
                    #[trigger] r@[k],
                    encoders@.subrange(0, i as int).filter(pred)[k],
                ),
            pred == (|e: VideoEncoderInfo| e.encoder_type == *encoder_type),
        decreases encoders@.len() - i,
    {
        if encoders[i].encoder_type == *encoder_type {
            r.push(clone_encoder_info(&encoders[i]));
        }
        i = i + 1;
        proof {
            reveal(Seq::filter);
            assert(encoders@.subrange(0, i as int).drop_last() =~= encoders@.subrange(0, i - 1));
            assert(encoders@.subrange(0, i as int).last() == encoders@[i - 1]);
        }
    }
    proof {
        assert(encoders@.subrange(0, encoders@.len() as int) =~= encoders@);
    }
    r
}

/// How well an encoder suits low-latency streaming: the dedicated
/// hardware interfaces first, then the accelerated and software ones,
/// with the software encoders ranked by name.
pub open spec fn spec_encoder_score(e: VideoEncoderInfo) -> int {
    (match e.encoder_api {
        EncoderAPI::NVENC => 3int,
        EncoderAPI::QSV => 3,
        EncoderAPI::AMF => 3,
        EncoderAPI::VAAPI => 2,
        EncoderAPI::SOFTWARE => 1,
        EncoderAPI::UNKNOWN => 0,
    }) + (if e.encoder_type == EncoderType::SOFTWARE {
        if e.name@ == "openh264enc"@ {
            2int
        } else if e.name@ == "x264enc"@ {
            1
        } else if e.name@ == "svtav1enc"@ {
            2
        } else if e.name@ == "av1enc"@ {
            1
        } else {
            0
        }
    } else {
        0
    })
}

fn encoder_score(e: &VideoEncoderInfo) -> (r: i32)
    ensures
        r as int == spec_encoder_score(*e),
{
    let api: i32 = match e.encoder_api {
        EncoderAPI::NVENC => 3,
        EncoderAPI::QSV => 3,
        EncoderAPI::AMF => 3,
        EncoderAPI::VAAPI => 2,
        EncoderAPI::SOFTWARE => 1,
        EncoderAPI::UNKNOWN => 0,
    };
    let bonus: i32 = if matches!(e.encoder_type, EncoderType::SOFTWARE) {
        if crate::json::str_eq(e.name.as_str(), "openh264enc") {
            2
        } else if crate::json::str_eq(e.name.as_str(), "x264enc") {
            1
        } else if crate::json::str_eq(e.name.as_str(), "svtav1enc") {
            2
        } else if crate::json::str_eq(e.name.as_str(), "av1enc") {
            1
        } else {
            0
        }
    } else {
        0
    };
    api + bonus
}

/// The candidates for a codec and type: filtered by codec first, then
/// by type.
pub open spec fn spec_encoder_candidates(
    encoders: Seq<VideoEncoderInfo>,
    codec: VideoCodec,
    encoder_type: EncoderType,
) -> Seq<VideoEncoderInfo> {
    encoders.filter(|e: VideoEncoderInfo| e.codec == codec).filter(
        |e: VideoEncoderInfo| e.encoder_type == encoder_type,
    )
}

/// The best-scoring encoder for the desired codec and type: the first
/// candidate no other candidate outranks, as long as it scores at all.
/// Asking with an audio codec, or having no ranked candidate, is an
/// error.
pub fn get_best_compatible_encoder(
    encoders: &Vec<VideoEncoderInfo>,
    codec: &Codec,
    encoder_type: &EncoderType,
) -> (r: Result<VideoEncoderInfo, String>)
    ensures
        (*codec) is Audio ==> r is Err,
        (*codec) matches Codec::Video(vc) ==> ({
            let cands = spec_encoder_candidates(encoders@, vc, *encoder_type);
            match r {
                Ok(e) => exists|i: int|
                    0 <= i < cands.len() && enc_like(e, cands[i]) && #[trigger] spec_encoder_score(
                        cands[i],
                    ) >= 1 && (forall|j: int|
                        0 <= j < cands.len() ==> spec_encoder_score(cands[j])
                            <= spec_encoder_score(cands[i])) && (forall|j: int|
                        0 <= j < i ==> spec_encoder_score(cands[j]) < spec_encoder_score(cands[i])),
                Err(_) => forall|j: int|
                    0 <= j < cands.len() ==> #[trigger] spec_encoder_score(cands[j]) <= 0,
            }
        }),
{
    let vc = match codec {
        Codec::Video(c) => *c,
        Codec::Audio(_) => {
            return Err(
                <String as vstd::string::StringExecFns>::from_str(
                    "an audio codec names no video encoder",
                ),
            );
        },
    };
    let ghost p1 = |e: VideoEncoderInfo| e.codec == vc;
    let ghost p2 = |e: VideoEncoderInfo| e.encoder_type == *encoder_type;
    let mut best_idx: Option<usize> = None;
    let ghost mut best_pos: int = 0;
    let mut best_score: i32 = 0;
    let mut i: usize = 0;
    proof {
        reveal(Seq::filter);
        assert(encoders@.subrange(0, 0).len() == 0);
        assert(encoders@.subrange(0, 0).filter(p1).len() == 0);
        assert(encoders@.subrange(0, 0).filter(p1).filter(p2).len() == 0);
    }
    while i < encoders.len()
        invariant
            i <= encoders@.len(),
            p1 == (|e: VideoEncoderInfo| e.codec == vc),
            p2 == (|e: VideoEncoderInfo| e.encoder_type == *encoder_type),
            ({
                let cands = encoders@.subrange(0, i as int).filter(p1).filter(p2);
                match best_idx {
                    Some(b) => b < i && 0 <= best_pos < cands.len() && cands[best_pos]
                        == encoders@[b as int] && spec_encoder_score(cands[best_pos])
                        == best_score as int && best_score >= 1 && (forall|j: int|
                        0 <= j < cands.len() ==> spec_encoder_score(cands[j]) <= best_score as int)
                        && (forall|j: int|
                        0 <= j < best_pos ==> spec_encoder_score(cands[j]) < best_score as int),
                    None => best_score == 0 && forall|j: int|
                        0 <= j < cands.len() ==> spec_encoder_score(cands[j]) <= 0,
                }
            }),
        decreases encoders@.len() - i,
    {
        let ghost pre_cands = encoders@.subrange(0, i as int).filter(p1).filter(p2);
        let is_candidate = encoders[i].codec == vc && encoders[i].encoder_type == *encoder_type;
        proof {
            reveal(Seq::filter);
            let pre1 = encoders@.subrange(0, i as int).filter(p1);
            assert(encoders@.subrange(0, i + 1).drop_last() =~= encoders@.subrange(0, i as int));
            assert(encoders@.subrange(0, i + 1).last() == encoders@[i as int]);
            if p1(encoders@[i as int]) {
                assert(encoders@.subrange(0, i + 1).filter(p1) == pre1.push(encoders@[i as int]));
                assert(pre1.push(encoders@[i as int]).drop_last() =~= pre1);
                assert(pre1.push(encoders@[i as int]).last() == encoders@[i as int]);
            } else {
                assert(encoders@.subrange(0, i + 1).filter(p1) == pre1);
            }
            if is_candidate {
                assert(encoders@.subrange(0, i + 1).filter(p1).filter(p2) == pre_cands.push(
                    encoders@[i as int],
                ));
            } else {
                assert(encoders@.subrange(0, i + 1).filter(p1).filter(p2) == pre_cands);
            }
        }
        if is_candidate {
            let score = encoder_score(&encoders[i]);
            if score > best_score {
                best_idx = Some(i);
                proof {
                    best_pos = pre_cands.len() as int;
                }
                best_score = score;
            }
        }
        i = i + 1;
    }
    proof {
        assert(encoders@.subrange(0, encoders@.len() as int) =~= encoders@);
    }
    match best_idx {
        Some(b) => {
            let e = clone_encoder_info(&encoders[b]);
            proof {
                let cands = spec_encoder_candidates(encoders@, vc, *encoder_type);
                assert(cands == encoders@.filter(p1).filter(p2));
                assert(cands[best_pos] == encoders@[b as int]);
                assert(enc_like(e, cands[best_pos]));
                assert(0 <= best_pos < cands.len() && enc_like(e, cands[best_pos])
                    && spec_encoder_score(cands[best_pos]) >= 1 && (forall|j: int|
                    0 <= j < cands.len() ==> spec_encoder_score(cands[j]) <= spec_encoder_score(
                        cands[best_pos],
                    )) && (forall|j: int|
                    0 <= j < best_pos ==> spec_encoder_score(cands[j]) < spec_encoder_score(
                        cands[best_pos],
                    )));
            }
            Ok(e)
        },
        None => {
            proof {
                let cands = spec_encoder_candidates(encoders@, vc, *encoder_type);
                assert(cands == encoders@.filter(p1).filter(p2));
            }
            Err(<String as vstd::string::StringExecFns>::from_str("no compatible encoder found"))
        },
    }
}

/// The fixed low-latency settings of an encoder, keyed by its interface
/// and, among the software encoders, its name.
pub open spec fn spec_low_latency_extras(e: VideoEncoderInfo) -> Seq<(Seq<char>, Seq<char>)> {
    match e.encoder_api {
        EncoderAPI::QSV => seq![("low-latency"@, "true"@), ("target-usage"@, "7"@)],
        EncoderAPI::VAAPI => seq![("target-usage"@, "7"@)],
        EncoderAPI::NVENC => seq![
            ("multi-pass"@, "disabled"@),
            ("preset"@, "p1"@),
            ("tune"@, "ultra-low-latency"@),
        ],
        EncoderAPI::AMF => seq![
            ("preset"@, "speed"@),
            (
                "usage"@,
                if e.codec == VideoCodec::AV1 {
                    "low-latency"@
                } else {
                    "ultra-low-latency"@
                },
            ),
        ],
        EncoderAPI::SOFTWARE => {
            if e.name@ == "openh264enc"@ {
                seq![("complexity"@, "low"@), ("usage-type"@, "screen"@)]
            } else if e.name@ == "x264enc"@ {
                seq![
                    ("rc-lookahead"@, "0"@),
                    ("speed-preset"@, "ultrafast"@),
                    ("tune"@, "zerolatency"@),
                ]
            } else if e.name@ == "svtav1enc"@ {
                seq![("preset"@, "11"@), ("parameters-string"@, "lookahead=0"@)]
            } else if e.name@ == "av1enc"@ {
                seq![
                    ("usage-profile"@, "realtime"@),
                    ("cpu-used"@, "10"@),
                    ("lag-in-frames"@, "0"@),
                ]
            } else {
                Seq::<(Seq<char>, Seq<char>)>::empty()
            }
        },
        EncoderAPI::UNKNOWN => Seq::<(Seq<char>, Seq<char>)>::empty(),
    }
}

/// Tune an encoder for low latency: keyframe distance bounded at two
/// seconds through every matching element property, then the interface's
/// fixed settings appended in order.
pub fn encoder_low_latency_params(
    encoder: &VideoEncoderInfo,
    properties: &Vec<String>,
    framerate: u32,
) -> (r: VideoEncoderInfo)
    requires
        framerate <= 0x7fffffff,
    ensures
        r.name == encoder.name,
        r.codec == encoder.codec,
        r.encoder_type == encoder.encoder_type,
        r.encoder_api == encoder.encoder_api,
        r.gpu_info == encoder.gpu_info,
        r.parameters@.len() == encoder.parameters@.len() + gop_count(
            properties@,
            2 * framerate as int,
        ) + spec_low_latency_extras(*encoder).len(),
        r.parameters@.subrange(0, encoder.parameters@.len() as int) == encoder.parameters@,
        forall|k: int|
            encoder.parameters@.len() <= k < encoder.parameters@.len() + gop_count(
                properties@,
                2 * framerate as int,
            ) ==> #[trigger] gop_justified(r.parameters@[k], properties@, 2 * framerate as int),
        forall|t: int|
            0 <= t < spec_low_latency_extras(*encoder).len() ==> ({
                let base = encoder.parameters@.len() + gop_count(properties@, 2 * framerate as int);
                r.parameters@[base + t].0@ == (#[trigger] spec_low_latency_extras(*encoder)[t]).0
                    && r.parameters@[base + t].1@ == spec_low_latency_extras(*encoder)[t].1
            }),
{
    let gop_size = framerate * 2;
    proof {
        assert(gop_size as int == 2 * framerate as int);
    }
    let mut out = encoder_gop_params(encoder, properties, gop_size);
    let ghost gbase = out.parameters@;
    let is_openh264 = crate::json::str_eq(out.name.as_str(), "openh264enc");
    let is_x264 = crate::json::str_eq(out.name.as_str(), "x264enc");
    let is_svtav1 = crate::json::str_eq(out.name.as_str(), "svtav1enc");
    let is_av1 = crate::json::str_eq(out.name.as_str(), "av1enc");
    match out.encoder_api {
        EncoderAPI::QSV => {
            out.set_parameter("low-latency", "true");
            let ghost s1 = out.parameters@;
            out.set_parameter("target-usage", "7");
            proof {
                lemma_two_appended(gbase, s1, out.parameters@);
            }
        },
        EncoderAPI::VAAPI => {
            out.set_parameter("target-usage", "7");
        },
        EncoderAPI::NVENC => {
            out.set_parameter("multi-pass", "disabled");
            let ghost s1 = out.parameters@;
            out.set_parameter("preset", "p1");
            let ghost s2 = out.parameters@;
            out.set_parameter("tune", "ultra-low-latency");
            proof {
                lemma_three_appended(gbase, s1, s2, out.parameters@);
            }
        },
        EncoderAPI::AMF => {
            out.set_parameter("preset", "speed");
            let ghost s1 = out.parameters@;
            let usage = if matches!(out.codec, VideoCodec::AV1) {
                "low-latency"
            } else {
                "ultra-low-latency"
            };
            out.set_parameter("usage", usage);
            proof {
                lemma_two_appended(gbase, s1, out.parameters@);
            }
        },
        EncoderAPI::SOFTWARE => {
            if is_openh264 {
                out.set_parameter("complexity", "low");
                let ghost s1 = out.parameters@;
                out.set_parameter("usage-type", "screen");
                proof {
                    lemma_two_appended(gbase, s1, out.parameters@);
                }
            } else if is_x264 {
                out.set_parameter("rc-lookahead", "0");
                let ghost s1 = out.parameters@;
                out.set_parameter("speed-preset", "ultrafast");
                let ghost s2 = out.parameters@;
                out.set_parameter("tune", "zerolatency");
                proof {
                    lemma_three_appended(gbase, s1, s2, out.parameters@);
                }
            } else if is_svtav1 {
                out.set_parameter("preset", "11");
                let ghost s1 = out.parameters@;
                out.set_parameter("parameters-string", "lookahead=0");
                proof {
                    lemma_two_appended(gbase, s1, out.parameters@);
                }
            } else if is_av1 {
                out.set_parameter("usage-profile", "realtime");
                let ghost s1 = out.parameters@;
                out.set_parameter("cpu-used", "10");
                let ghost s2 = out.parameters@;
                out.set_parameter("lag-in-frames", "0");
                proof {
                    lemma_three_appended(gbase, s1, s2, out.parameters@);
                }
            }
        },
        EncoderAPI::UNKNOWN => {},
    }
    proof {
        assert forall|t: int| 0 <= t < gbase.len() implies out.parameters@[t] == gbase[t] by {
            if out.parameters@.len() == gbase.len() + 1 {
                assert(out.parameters@[t] == out.parameters@.drop_last()[t]);
            }
        }
        assert(out.parameters@.subrange(0, encoder.parameters@.len() as int) =~= gbase.subrange(
            0,
            encoder.parameters@.len() as int,
        ));
        assert forall|k: int|
            encoder.parameters@.len() <= k < gbase.len() implies #[trigger] gop_justified(
            out.parameters@[k],
            properties@,
            2 * framerate as int,
        ) by {
            assert(out.parameters@[k] == gbase[k]);
        }
    }
    out
}

/// Appending one pair, then another, leaves the first at its place.
proof fn lemma_two_appended(
    base: Seq<(String, String)>,
    s1: Seq<(String, String)>,
    s2: Seq<(String, String)>,
)
    requires
        s1.len() == base.len() + 1,
        s2.len() == s1.len() + 1,
        s1.drop_last() == base,
        s2.drop_last() == s1,
    ensures
        s2.len() == base.len() + 2,
        s2[base.len() as int] == s1.last(),
        s2[base.len() + 1int] == s2.last(),
        forall|i: int| 0 <= i < base.len() ==> #[trigger] s2[i] == base[i],
        s2.subrange(0, base.len() as int) =~= base,
{
    assert forall|i: int| 0 <= i < base.len() implies #[trigger] s2[i] == base[i] by {
        assert(s2[i] == s2.drop_last()[i]);
        assert(s1[i] == s1.drop_last()[i]);
    }
    assert(s2[base.len() as int] == s2.drop_last()[base.len() as int]);
}

/// Appending three pairs in order leaves each at its place.
proof fn lemma_three_appended(
    base: Seq<(String, String)>,
    s1: Seq<(String, String)>,
    s2: Seq<(String, String)>,
    s3: Seq<(String, String)>,
)
    requires
        s1.len() == base.len() + 1,
        s2.len() == s1.len() + 1,
        s3.len() == s2.len() + 1,
        s1.drop_last() == base,
        s2.drop_last() == s1,
        s3.drop_last() == s2,
    ensures
        s3.len() == base.len() + 3,
        s3[base.len() as int] == s1.last(),
        s3[base.len() + 1int] == s2.last(),
        s3[base.len() + 2int] == s3.last(),
        forall|i: int| 0 <= i < base.len() ==> #[trigger] s3[i] == base[i],
        s3.subrange(0, base.len() as int) =~= base,
{
    lemma_two_appended(base, s1, s2);
    assert forall|i: int| 0 <= i < base.len() implies #[trigger] s3[i] == base[i] by {
        assert(s3[i] == s3.drop_last()[i]);
        assert(s2[i] == base[i]);
    }
    assert(s3[base.len() as int] == s3.drop_last()[base.len() as int]);
    assert(s3[base.len() + 1int] == s3.drop_last()[base.len() + 1int]);
}

} // verus!
