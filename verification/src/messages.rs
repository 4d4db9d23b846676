//! Typed control messages and their wire codec.
//!
//! Every message is one flat object: the envelope fields (`payload_type`
//! discriminant and an optional opaque `latency` token) stand alongside
//! the variant's own fields.  Decoding is two-phase: `decode_envelope`
//! reads only the discriminant and token, ignoring unknown fields; the
//! typed decoders read the full body and fail with a `DecodeError` when a
//! required field is absent or mistyped, or when the discriminant names a
//! different kind.  Each decoder is specified against a spec-level
//! decode function, and each encoder's contract states that what it
//! produces decodes back to exactly the message given.

use vstd::prelude::*;

verus! {

use crate::errors::DecodeError;
use crate::json::JsonValue;
use crate::json::spec_obj_lookup;
use crate::json::obj_lookup;
use crate::json::obj_take;
use crate::json::str_eq;
use crate::json::Json;
use crate::json::jv_model;
use crate::json::spec_model_lookup;

broadcast use vstd::string::group_string_axioms;

// ---------------------------------------------------------------------
// Message data
// ---------------------------------------------------------------------
/// Envelope fields carried by every control message.
#[derive(Debug)]
pub struct MessageBase {
    /// Discriminant, unique per logical message kind.
    pub payload_type: String,
    /// Opaque latency-tracking token, passed through unmodified.
    pub latency: Option<JsonValue>,
}

/// Role a joining peer announces.
#[derive(Clone, Copy, Debug, PartialEq, Eq, Structural)]
pub enum JoinerRole {
    Node,
    Client,
}

/// Status of the relay's answer; only `Accepted` lets negotiation
/// proceed.
#[derive(Clone, Copy, Debug, PartialEq, Eq, Structural)]
pub enum AnswerStatus {
    Offline,
    InUse,
    Accepted,
}

/// A session description: its kind (`offer` or `answer`) and its text.
#[derive(Debug)]
pub struct SessionDescription {
    pub sdp_type: String,
    pub sdp: String,
}

/// A discovered network path endpoint, exchanged to establish the peer
/// connection.
#[derive(Debug)]
pub struct IceCandidateInit {
    pub candidate: String,
    pub sdp_mid: Option<String>,
    pub sdp_mline_index: Option<u16>,
    pub username_fragment: Option<String>,
}

/// `join` — announce this peer and its role.
#[derive(Debug)]
pub struct MessageJoin {
    pub base: MessageBase,
    pub joiner_role: JoinerRole,
}

/// `answer` — the relay's verdict on an announcement.
#[derive(Debug)]
pub struct MessageAnswer {
    pub base: MessageBase,
    pub status: AnswerStatus,
}

/// A message whose body is a single untyped `data` value.
#[derive(Debug)]
pub struct MessageRaw {
    pub base: MessageBase,
    pub data: JsonValue,
}

/// `sdp` — a session description, offer or answer.
#[derive(Debug)]
pub struct MessageSDP {
    pub base: MessageBase,
    pub sdp: SessionDescription,
}

/// `ice` — one trickled candidate.
#[derive(Debug)]
pub struct MessageICE {
    pub base: MessageBase,
    pub candidate: IceCandidateInit,
}

/// `log` — telemetry, decoded but not interpreted by this core.
#[derive(Debug)]
pub struct MessageLog {
    pub base: MessageBase,
    pub level: String,
    pub message: String,
    pub time: String,
}

// ---------------------------------------------------------------------
// Spec-level decode
// ---------------------------------------------------------------------
/// What the envelope of a decoded message holds.
pub struct EnvelopeModel {
    pub payload_type: Seq<char>,
    pub latency: Option<JsonValue>,
}

pub struct SdpModel {
    pub env: EnvelopeModel,
    pub sdp_type: Seq<char>,
    pub sdp: Seq<char>,
}

pub struct IceModel {
    pub env: EnvelopeModel,
    pub candidate: Seq<char>,
    pub sdp_mid: Option<Seq<char>>,
    pub sdp_mline_index: Option<u16>,
    pub username_fragment: Option<Seq<char>>,
}

pub struct JoinModel {
    pub env: EnvelopeModel,
    pub joiner_role: JoinerRole,
}

pub struct AnswerModel {
    pub env: EnvelopeModel,
    pub status: AnswerStatus,
}

pub struct RawModel {
    pub env: EnvelopeModel,
    pub data: JsonValue,
}

pub struct LogModel {
    pub env: EnvelopeModel,
    pub level: Seq<char>,
    pub message: Seq<char>,
    pub time: Seq<char>,
}

/// The latency token of an object: absent and `null` both mean none.
pub open spec fn spec_latency(fields: Seq<(String, JsonValue)>) -> Option<JsonValue> {
    match spec_obj_lookup(fields, "latency"@) {
        Option::None => Option::None,
        Option::Some(l) => match l {
            JsonValue::Null => Option::None,
            _ => Option::Some(l),
        },
    }
}

/// A required string member: absent is `MissingField`, non-string is
/// `WrongType`.
pub open spec fn spec_str_member(fields: Seq<(String, JsonValue)>, key: Seq<char>) -> Result<
    Seq<char>,
    DecodeError,
> {
    match spec_obj_lookup(fields, key) {
        Option::None => Err(DecodeError::MissingField),
        Option::Some(m) => match m {
            JsonValue::Str(s) => Ok(s@),
            _ => Err(DecodeError::WrongType),
        },
    }
}

/// An optional string member: absent and `null` mean none.
pub open spec fn spec_opt_str_member(fields: Seq<(String, JsonValue)>, key: Seq<char>) -> Result<
    Option<Seq<char>>,
    DecodeError,
> {
    match spec_obj_lookup(fields, key) {
        Option::None => Ok(Option::None),
        Option::Some(m) => match m {
            JsonValue::Null => Ok(Option::None),
            JsonValue::Str(s) => Ok(Option::Some(s@)),
            _ => Err(DecodeError::WrongType),
        },
    }
}

/// An optional small-integer member: absent and `null` mean none; an
/// integer outside the line-index range is `WrongType`.
pub open spec fn spec_opt_u16_member(fields: Seq<(String, JsonValue)>, key: Seq<char>) -> Result<
    Option<u16>,
    DecodeError,
> {
    match spec_obj_lookup(fields, key) {
        Option::None => Ok(Option::None),
        Option::Some(m) => match m {
            JsonValue::Null => Ok(Option::None),
            JsonValue::Int(i) => if 0 <= i <= 65535 {
                Ok(Option::Some(i as u16))
            } else {
                Err(DecodeError::WrongType)
            },
            _ => Err(DecodeError::WrongType),
        },
    }
}

/// The envelope of `v`: the discriminant and the latency token, with
/// every other field ignored.
pub open spec fn spec_decode_envelope(v: JsonValue) -> Result<EnvelopeModel, DecodeError> {
    match v {
        JsonValue::Obj(fields) => match spec_str_member(fields@, "payload_type"@) {
            Err(e) => Err(e),
            Ok(pt) => Ok(EnvelopeModel { payload_type: pt, latency: spec_latency(fields@) }),
        },
        _ => Err(DecodeError::WrongType),
    }
}

/// The envelope, then the discriminant check for `kind`.
pub open spec fn spec_check_kind(v: JsonValue, kind: Seq<char>) -> Result<
    EnvelopeModel,
    DecodeError,
> {
    match spec_decode_envelope(v) {
        Err(e) => Err(e),
        Ok(em) => if em.payload_type == kind {
            Ok(em)
        } else {
            Err(DecodeError::WrongPayloadType)
        },
    }
}

pub open spec fn spec_decode_sdp(v: JsonValue) -> Result<SdpModel, DecodeError> {
    match spec_check_kind(v, "sdp"@) {
        Err(e) => Err(e),
        Ok(em) => match spec_obj_lookup(v->Obj_0@, "sdp"@) {
            Option::None => Err(DecodeError::MissingField),
            Option::Some(sv) => match sv {
                JsonValue::Obj(sf) => match (
                    spec_str_member(sf@, "type"@),
                    spec_str_member(sf@, "sdp"@),
                ) {
                    (Ok(t), Ok(x)) => Ok(SdpModel { env: em, sdp_type: t, sdp: x }),
                    (Err(e), _) => Err(e),
                    (_, Err(e)) => Err(e),
                },
                _ => Err(DecodeError::WrongType),
            },
        },
    }
}

pub open spec fn spec_decode_ice(v: JsonValue) -> Result<IceModel, DecodeError> {
    match spec_check_kind(v, "ice"@) {
        Err(e) => Err(e),
        Ok(em) => match spec_obj_lookup(v->Obj_0@, "candidate"@) {
            Option::None => Err(DecodeError::MissingField),
            Option::Some(cv) => match cv {
                JsonValue::Obj(cf) => match (
                    spec_str_member(cf@, "candidate"@),
                    spec_opt_str_member(cf@, "sdpMid"@),
                    spec_opt_u16_member(cf@, "sdpMLineIndex"@),
                    spec_opt_str_member(cf@, "usernameFragment"@),
                ) {
                    (Ok(c), Ok(mid), Ok(idx), Ok(uf)) => Ok(
                        IceModel {
                            env: em,
                            candidate: c,
                            sdp_mid: mid,
                            sdp_mline_index: idx,
                            username_fragment: uf,
                        },
                    ),
                    (Err(e), _, _, _) => Err(e),
                    (_, Err(e), _, _) => Err(e),
                    (_, _, Err(e), _) => Err(e),
                    (_, _, _, Err(e)) => Err(e),
                },
                _ => Err(DecodeError::WrongType),
            },
        },
    }
}

/// The role named by a `joiner_role` string.
pub open spec fn spec_role_of(s: Seq<char>) -> Option<JoinerRole> {
    if s == "node"@ {
        Option::Some(JoinerRole::Node)
    } else if s == "client"@ {
        Option::Some(JoinerRole::Client)
    } else {
        Option::None
    }
}

/// The status named by an answer `status` string.
pub open spec fn spec_status_of(s: Seq<char>) -> Option<AnswerStatus> {
    if s == "offline"@ {
        Option::Some(AnswerStatus::Offline)
    } else if s == "in_use"@ {
        Option::Some(AnswerStatus::InUse)
    } else if s == "ok"@ {
        Option::Some(AnswerStatus::Accepted)
    } else {
        Option::None
    }
}

pub open spec fn spec_decode_join(v: JsonValue) -> Result<JoinModel, DecodeError> {
    match spec_check_kind(v, "join"@) {
        Err(e) => Err(e),
        Ok(em) => match spec_str_member(v->Obj_0@, "joiner_role"@) {
            Err(e) => Err(e),
            Ok(s) => match spec_role_of(s) {
                Option::Some(role) => Ok(JoinModel { env: em, joiner_role: role }),
                Option::None => Err(DecodeError::WrongType),
            },
        },
    }
}

pub open spec fn spec_decode_answer(v: JsonValue) -> Result<AnswerModel, DecodeError> {
    match spec_check_kind(v, "answer"@) {
        Err(e) => Err(e),
        Ok(em) => match spec_str_member(v->Obj_0@, "status"@) {
            Err(e) => Err(e),
            Ok(s) => match spec_status_of(s) {
                Option::Some(status) => Ok(AnswerModel { env: em, status }),
                Option::None => Err(DecodeError::WrongType),
            },
        },
    }
}

/// A raw message: the envelope plus the untyped `data` member, whatever
/// discriminant the envelope carries.
pub open spec fn spec_decode_raw(v: JsonValue) -> Result<RawModel, DecodeError> {
    match spec_decode_envelope(v) {
        Err(e) => Err(e),
        Ok(em) => match spec_obj_lookup(v->Obj_0@, "data"@) {
            Option::None => Err(DecodeError::MissingField),
            Option::Some(d) => Ok(RawModel { env: em, data: d }),
        },
    }
}

pub open spec fn spec_decode_log(v: JsonValue) -> Result<LogModel, DecodeError> {
    match spec_check_kind(v, "log"@) {
        Err(e) => Err(e),
        Ok(em) => match (
            spec_str_member(v->Obj_0@, "level"@),
            spec_str_member(v->Obj_0@, "message"@),
            spec_str_member(v->Obj_0@, "time"@),
        ) {
            (Ok(l), Ok(m), Ok(t)) => Ok(LogModel { env: em, level: l, message: m, time: t }),
            (Err(e), _, _) => Err(e),
            (_, Err(e), _) => Err(e),
            (_, _, Err(e)) => Err(e),
        },
    }
}


/// The discriminant a model document yields at the envelope layer,
/// error for error the same as decoding the value it denotes.
pub open spec fn spec_envelope_kind(j: Json) -> Result<Seq<char>, DecodeError> {
    match j {
        Json::Obj(fs) => match spec_model_lookup(fs, "payload_type"@) {
            Option::None => Err(DecodeError::MissingField),
            Option::Some(m) => match m {
                Json::Str(s) => Ok(s),
                _ => Err(DecodeError::WrongType),
            },
        },
        _ => Err(DecodeError::WrongType),
    }
}

/// The envelope decode of a value and the discriminant of its model
/// agree, success for success and error for error.
pub proof fn lemma_envelope_kind_model(v: JsonValue)
    ensures
        spec_envelope_kind(jv_model(v)) == (match spec_decode_envelope(v) {
            Ok(em) => Ok::<Seq<char>, DecodeError>(em.payload_type),
            Err(e) => Err::<Seq<char>, DecodeError>(e),
        }),
{
    match v {
        JsonValue::Obj(fields) => {
            crate::json::lemma_lookup_model(fields@, "payload_type"@);
        },
        _ => {},
    }
}

/// Envelope/variant agreement: a message whose discriminant reads `sdp`
/// but whose body lacks an `sdp` member still decodes at the envelope
/// layer — the discriminant alone is read — while the typed decode of
/// the same object fails with a missing-field error rather than
/// defaulting.
pub proof fn lemma_envelope_variant_agreement(v: JsonValue)
    requires
        v matches JsonValue::Obj(fields) && spec_str_member(fields@, "payload_type"@) == Ok::<
            Seq<char>,
            DecodeError,
        >("sdp"@) && spec_obj_lookup(fields@, "sdp"@) is None,
    ensures
        spec_decode_envelope(v) matches Ok(em) && em.payload_type == "sdp"@,
        spec_decode_sdp(v) == Err::<SdpModel, DecodeError>(DecodeError::MissingField),
{
}

// ---------------------------------------------------------------------
// Encoders
// ---------------------------------------------------------------------
/// A latency token as decoding will see it: an explicit `null` means no
/// token, like an absent field.
pub open spec fn norm_latency(l: Option<JsonValue>) -> Option<JsonValue> {
    match l {
        Option::Some(JsonValue::Null) => Option::None,
        _ => l,
    }
}

/// The wire string of a role.
pub open spec fn spec_role_text(r: JoinerRole) -> Seq<char> {
    match r {
        JoinerRole::Node => "node"@,
        JoinerRole::Client => "client"@,
    }
}

impl JoinerRole {
    /// The wire string of this role.
    pub fn as_str(&self) -> (r: &'static str)
        ensures
            r@ == spec_role_text(*self),
    {
        match self {
            JoinerRole::Node => "node",
            JoinerRole::Client => "client",
        }
    }
}

impl MessageJoin {
    /// The wire object of this message: `payload_type`, the latency
    /// token when one is present, and the role.  What this produces
    /// decodes back to exactly this message.
    pub fn to_json(self) -> (r: JsonValue)
        ensures
            spec_decode_join(r) matches Ok(mm) && mm.env.payload_type == "join"@
                && mm.env.latency == norm_latency(self.base.latency) && mm.joiner_role
                == self.joiner_role,
    {
        let ghost lat = self.base.latency;
        let mut fields: Vec<(String, JsonValue)> = Vec::new();
        fields.push(
            (String::from_str("payload_type"), JsonValue::Str(String::from_str("join"))),
        );
        match self.base.latency {
            Option::Some(l) => fields.push((String::from_str("latency"), l)),
            Option::None => {},
        }
        fields.push(
            (String::from_str("joiner_role"), JsonValue::Str(String::from_str(self.joiner_role.as_str()))),
        );
        proof {
            reveal_strlit("payload_type");
            reveal_strlit("latency");
            reveal_strlit("joiner_role");
            reveal_strlit("join");
            reveal_strlit("node");
            reveal_strlit("client");
            assert("payload_type"@.len() == 12);
            assert("latency"@.len() == 7);
            assert("joiner_role"@.len() == 11);
            assert("join"@.len() == 4);
            assert("node"@.len() == 4);
            assert("client"@.len() == 6);
        }
        let r = JsonValue::Obj(fields);
        proof {
            let fs = r->Obj_0@;
            assert(spec_obj_lookup(fs, "payload_type"@) == Option::Some(fs[0].1));
            if lat is Some {
                assert(fs.len() == 3);
                assert(fs.drop_first()[0] == fs[1]);
                assert(fs.drop_first().drop_first()[0] == fs[2]);
                assert(spec_obj_lookup(fs.drop_first(), "latency"@) == Option::Some(fs[1].1));
                assert(spec_obj_lookup(fs, "latency"@) == Option::Some(fs[1].1));
                assert(spec_obj_lookup(fs.drop_first().drop_first(), "joiner_role"@)
                    == Option::Some(fs[2].1));
                assert(spec_obj_lookup(fs.drop_first(), "joiner_role"@) == Option::Some(fs[2].1));
                assert(spec_obj_lookup(fs, "joiner_role"@) == Option::Some(fs[2].1));
            } else {
                assert(fs.len() == 2);
                assert(fs.drop_first()[0] == fs[1]);
                assert(fs.drop_first().len() == 1);
                assert(fs.drop_first().drop_first().len() == 0);
                assert(spec_obj_lookup(fs.drop_first().drop_first(), "latency"@) is None);
                assert(spec_obj_lookup(fs.drop_first(), "latency"@) is None);
                assert(spec_obj_lookup(fs, "latency"@) is None);
                assert(spec_obj_lookup(fs.drop_first(), "joiner_role"@) == Option::Some(fs[1].1));
                assert(spec_obj_lookup(fs, "joiner_role"@) == Option::Some(fs[1].1));
            }
            assert(spec_decode_join(r) matches Ok(mm) && mm.env.payload_type == "join"@
                && mm.env.latency == norm_latency(lat) && mm.joiner_role == self.joiner_role);
        }
        r
    }
}

/// The views of an optional string.
pub open spec fn opt_str_view(o: Option<String>) -> Option<Seq<char>> {
    match o {
        Option::Some(s) => Option::Some(s@),
        Option::None => Option::None,
    }
}

impl MessageRaw {
    /// The wire object of this message: its own discriminant, the
    /// latency token when one is present, and the untyped `data` value.
    /// What this produces decodes back to exactly this message.
    pub fn to_json(self) -> (r: JsonValue)
        ensures
            spec_decode_raw(r) matches Ok(mm) && mm.env.payload_type == self.base.payload_type@
                && mm.env.latency == norm_latency(self.base.latency) && mm.data == self.data,
    {
        let ghost lat = self.base.latency;
        let mut fields: Vec<(String, JsonValue)> = Vec::new();
        fields.push((String::from_str("payload_type"), JsonValue::Str(self.base.payload_type)));
        match self.base.latency {
            Option::Some(l) => fields.push((String::from_str("latency"), l)),
            Option::None => {},
        }
        fields.push((String::from_str("data"), self.data));
        proof {
            reveal_strlit("payload_type");
            reveal_strlit("latency");
            reveal_strlit("data");
            assert("payload_type"@.len() == 12);
            assert("latency"@.len() == 7);
            assert("data"@.len() == 4);
        }
        let r = JsonValue::Obj(fields);
        proof {
            let fs = r->Obj_0@;
            assert(spec_obj_lookup(fs, "payload_type"@) == Option::Some(fs[0].1));
            if lat is Some {
                assert(fs.len() == 3);
                assert(fs.drop_first()[0] == fs[1]);
                assert(fs.drop_first().drop_first()[0] == fs[2]);
                assert(spec_obj_lookup(fs.drop_first(), "latency"@) == Option::Some(fs[1].1));
                assert(spec_obj_lookup(fs, "latency"@) == Option::Some(fs[1].1));
                assert(spec_obj_lookup(fs.drop_first().drop_first(), "data"@) == Option::Some(
                    fs[2].1,
                ));
                assert(spec_obj_lookup(fs.drop_first(), "data"@) == Option::Some(fs[2].1));
                assert(spec_obj_lookup(fs, "data"@) == Option::Some(fs[2].1));
            } else {
                assert(fs.len() == 2);
                assert(fs.drop_first()[0] == fs[1]);
                assert(fs.drop_first().drop_first().len() == 0);
                assert(spec_obj_lookup(fs.drop_first().drop_first(), "latency"@) is None);
                assert(spec_obj_lookup(fs.drop_first(), "latency"@) is None);
                assert(spec_obj_lookup(fs, "latency"@) is None);
                assert(spec_obj_lookup(fs.drop_first(), "data"@) == Option::Some(fs[1].1));
                assert(spec_obj_lookup(fs, "data"@) == Option::Some(fs[1].1));
            }
            assert(spec_decode_raw(r) matches Ok(mm) && mm.env.payload_type
                == self.base.payload_type@ && mm.env.latency == norm_latency(lat) && mm.data
                == self.data);
        }
        r
    }
}

impl MessageSDP {
    /// The wire object of this message: `payload_type`, the latency
    /// token when one is present, and the description as an object with
    /// its kind and text.  What this produces decodes back to exactly
    /// this message.
    pub fn to_json(self) -> (r: JsonValue)
        ensures
            spec_decode_sdp(r) matches Ok(mm) && mm.env.payload_type == "sdp"@ && mm.env.latency
                == norm_latency(self.base.latency) && mm.sdp_type == self.sdp.sdp_type@ && mm.sdp
                == self.sdp.sdp@,
    {
        let ghost lat = self.base.latency;
        let mut body: Vec<(String, JsonValue)> = Vec::new();
        body.push((String::from_str("type"), JsonValue::Str(self.sdp.sdp_type)));
        body.push((String::from_str("sdp"), JsonValue::Str(self.sdp.sdp)));
        let mut fields: Vec<(String, JsonValue)> = Vec::new();
        fields.push((String::from_str("payload_type"), JsonValue::Str(String::from_str("sdp"))));
        match self.base.latency {
            Option::Some(l) => fields.push((String::from_str("latency"), l)),
            Option::None => {},
        }
        let ghost bodysnap = body@;
        fields.push((String::from_str("sdp"), JsonValue::Obj(body)));
        proof {
            reveal_strlit("payload_type");
            reveal_strlit("latency");
            reveal_strlit("sdp");
            reveal_strlit("type");
            assert("payload_type"@.len() == 12);
            assert("latency"@.len() == 7);
            assert("sdp"@.len() == 3);
            assert("type"@.len() == 4);
        }
        let r = JsonValue::Obj(fields);
        proof {
            let fs = r->Obj_0@;
            assert(spec_obj_lookup(fs, "payload_type"@) == Option::Some(fs[0].1));
            if lat is Some {
                assert(fs.len() == 3);
                assert(fs.drop_first()[0] == fs[1]);
                assert(fs.drop_first().drop_first()[0] == fs[2]);
                assert(spec_obj_lookup(fs.drop_first(), "latency"@) == Option::Some(fs[1].1));
                assert(spec_obj_lookup(fs, "latency"@) == Option::Some(fs[1].1));
                assert(spec_obj_lookup(fs.drop_first().drop_first(), "sdp"@) == Option::Some(
                    fs[2].1,
                ));
                assert(spec_obj_lookup(fs.drop_first(), "sdp"@) == Option::Some(fs[2].1));
                assert(spec_obj_lookup(fs, "sdp"@) == Option::Some(fs[2].1));
            } else {
                assert(fs.len() == 2);
                assert(fs.drop_first()[0] == fs[1]);
                assert(fs.drop_first().drop_first().len() == 0);
                assert(spec_obj_lookup(fs.drop_first().drop_first(), "latency"@) is None);
                assert(spec_obj_lookup(fs.drop_first(), "latency"@) is None);
                assert(spec_obj_lookup(fs, "latency"@) is None);
                assert(spec_obj_lookup(fs.drop_first(), "sdp"@) == Option::Some(fs[1].1));
                assert(spec_obj_lookup(fs, "sdp"@) == Option::Some(fs[1].1));
            }
            let bs = bodysnap;
            assert(bs.len() == 2);
            assert(bs.drop_first()[0] == bs[1]);
            assert(spec_obj_lookup(bs, "type"@) == Option::Some(bs[0].1));
            assert(spec_obj_lookup(bs.drop_first(), "sdp"@) == Option::Some(bs[1].1));
            assert(spec_obj_lookup(bs, "sdp"@) == Option::Some(bs[1].1));
            assert(spec_decode_sdp(r) matches Ok(mm) && mm.env.payload_type == "sdp"@
                && mm.env.latency == norm_latency(lat) && mm.sdp_type == self.sdp.sdp_type@
                && mm.sdp == self.sdp.sdp@);
        }
        r
    }
}

impl MessageICE {
    /// The wire object of this message: `payload_type`, the latency
    /// token when one is present, and the candidate as an object whose
    /// optional members are explicit `null`s when absent.  What this
    /// produces decodes back to exactly this message.
    pub fn to_json(self) -> (r: JsonValue)
        ensures
            spec_decode_ice(r) matches Ok(mm) && mm.env.payload_type == "ice"@ && mm.env.latency
                == norm_latency(self.base.latency) && mm.candidate == self.candidate.candidate@
                && mm.sdp_mid == opt_str_view(self.candidate.sdp_mid) && mm.sdp_mline_index
                == self.candidate.sdp_mline_index && mm.username_fragment == opt_str_view(
                self.candidate.username_fragment,
            ),
    {
        let ghost lat = self.base.latency;
        let ghost cand = self.candidate;
        let mut body: Vec<(String, JsonValue)> = Vec::new();
        body.push((String::from_str("candidate"), JsonValue::Str(self.candidate.candidate)));
        match self.candidate.sdp_mid {
            Option::Some(s) => body.push((String::from_str("sdpMid"), JsonValue::Str(s))),
            Option::None => body.push((String::from_str("sdpMid"), JsonValue::Null)),
        }
        match self.candidate.sdp_mline_index {
            Option::Some(i) => body.push(
                (String::from_str("sdpMLineIndex"), JsonValue::Int(i as i64)),
            ),
            Option::None => body.push((String::from_str("sdpMLineIndex"), JsonValue::Null)),
        }
        match self.candidate.username_fragment {
            Option::Some(s) => body.push(
                (String::from_str("usernameFragment"), JsonValue::Str(s)),
            ),
            Option::None => body.push((String::from_str("usernameFragment"), JsonValue::Null)),
        }
        let mut fields: Vec<(String, JsonValue)> = Vec::new();
        fields.push((String::from_str("payload_type"), JsonValue::Str(String::from_str("ice"))));
        match self.base.latency {
            Option::Some(l) => fields.push((String::from_str("latency"), l)),
            Option::None => {},
        }
        let ghost bodysnap = body@;
        fields.push((String::from_str("candidate"), JsonValue::Obj(body)));
        proof {
            reveal_strlit("payload_type");
            reveal_strlit("latency");
            reveal_strlit("ice");
            reveal_strlit("candidate");
            reveal_strlit("sdpMid");
            reveal_strlit("sdpMLineIndex");
            reveal_strlit("usernameFragment");
            assert("payload_type"@.len() == 12);
            assert("latency"@.len() == 7);
            assert("ice"@.len() == 3);
            assert("candidate"@.len() == 9);
            assert("sdpMid"@.len() == 6);
            assert("sdpMLineIndex"@.len() == 13);
            assert("usernameFragment"@.len() == 16);
        }
        let r = JsonValue::Obj(fields);
        proof {
            let fs = r->Obj_0@;
            assert(spec_obj_lookup(fs, "payload_type"@) == Option::Some(fs[0].1));
            if lat is Some {
                assert(fs.len() == 3);
                assert(fs.drop_first()[0] == fs[1]);
                assert(fs.drop_first().drop_first()[0] == fs[2]);
                assert(spec_obj_lookup(fs.drop_first(), "latency"@) == Option::Some(fs[1].1));
                assert(spec_obj_lookup(fs, "latency"@) == Option::Some(fs[1].1));
                assert(spec_obj_lookup(fs.drop_first().drop_first(), "candidate"@) == Option::Some(
                    fs[2].1,
                ));
                assert(spec_obj_lookup(fs.drop_first(), "candidate"@) == Option::Some(fs[2].1));
                assert(spec_obj_lookup(fs, "candidate"@) == Option::Some(fs[2].1));
            } else {
                assert(fs.len() == 2);
                assert(fs.drop_first()[0] == fs[1]);
                assert(fs.drop_first().drop_first().len() == 0);
                assert(spec_obj_lookup(fs.drop_first().drop_first(), "latency"@) is None);
                assert(spec_obj_lookup(fs.drop_first(), "latency"@) is None);
                assert(spec_obj_lookup(fs, "latency"@) is None);
                assert(spec_obj_lookup(fs.drop_first(), "candidate"@) == Option::Some(fs[1].1));
                assert(spec_obj_lookup(fs, "candidate"@) == Option::Some(fs[1].1));
            }
            let bs = bodysnap;
            assert(bs.len() == 4);
            assert(bs.drop_first()[0] == bs[1]);
            assert(bs.drop_first().drop_first()[0] == bs[2]);
            assert(bs.drop_first().drop_first().drop_first()[0] == bs[3]);
            assert(spec_obj_lookup(bs, "candidate"@) == Option::Some(bs[0].1));
            assert(spec_obj_lookup(bs.drop_first(), "sdpMid"@) == Option::Some(bs[1].1));
            assert(spec_obj_lookup(bs, "sdpMid"@) == Option::Some(bs[1].1));
            assert(spec_obj_lookup(bs.drop_first().drop_first(), "sdpMLineIndex"@) == Option::Some(
                bs[2].1,
            ));
            assert(spec_obj_lookup(bs.drop_first(), "sdpMLineIndex"@) == Option::Some(bs[2].1));
            assert(spec_obj_lookup(bs, "sdpMLineIndex"@) == Option::Some(bs[2].1));
            assert(spec_obj_lookup(bs.drop_first().drop_first().drop_first(), "usernameFragment"@)
                == Option::Some(bs[3].1));
            assert(spec_obj_lookup(bs.drop_first().drop_first(), "usernameFragment"@)
                == Option::Some(bs[3].1));
            assert(spec_obj_lookup(bs.drop_first(), "usernameFragment"@) == Option::Some(bs[3].1));
            assert(spec_obj_lookup(bs, "usernameFragment"@) == Option::Some(bs[3].1));
            assert(spec_decode_ice(r) matches Ok(mm) && mm.env.payload_type == "ice"@
                && mm.env.latency == norm_latency(lat) && mm.candidate == cand.candidate@
                && mm.sdp_mid == opt_str_view(cand.sdp_mid) && mm.sdp_mline_index
                == cand.sdp_mline_index && mm.username_fragment == opt_str_view(
                cand.username_fragment,
            ));
        }
        r
    }
}

// ---------------------------------------------------------------------
// Decoders
// ---------------------------------------------------------------------
fn str_member(fields: &Vec<(String, JsonValue)>, key: &str) -> (r: Result<String, DecodeError>)
    ensures
        match spec_str_member(fields@, key@) {
            Ok(sq) => r matches Ok(s) && s@ == sq,
            Err(e) => r == Err::<String, DecodeError>(e),
        },
{
    match obj_lookup(fields, key) {
        Option::None => Err(DecodeError::MissingField),
        Option::Some(m) => match m {
            JsonValue::Str(s) => Ok(s.clone()),
            _ => Err(DecodeError::WrongType),
        },
    }
}

fn opt_str_member(fields: &Vec<(String, JsonValue)>, key: &str) -> (r: Result<
    Option<String>,
    DecodeError,
>)
    ensures
        match spec_opt_str_member(fields@, key@) {
            Ok(o) => r matches Ok(ro) && match o {
                Option::Some(sq) => ro matches Some(s) && s@ == sq,
                Option::None => ro is None,
            },
            Err(e) => r == Err::<Option<String>, DecodeError>(e),
        },
{
    match obj_lookup(fields, key) {
        Option::None => Ok(Option::None),
        Option::Some(m) => match m {
            JsonValue::Null => Ok(Option::None),
            JsonValue::Str(s) => Ok(Option::Some(s.clone())),
            _ => Err(DecodeError::WrongType),
        },
    }
}

fn opt_u16_member(fields: &Vec<(String, JsonValue)>, key: &str) -> (r: Result<
    Option<u16>,
    DecodeError,
>)
    ensures
        match spec_opt_u16_member(fields@, key@) {
            Ok(o) => r == Ok::<Option<u16>, DecodeError>(o),
            Err(e) => r == Err::<Option<u16>, DecodeError>(e),
        },
{
    match obj_lookup(fields, key) {
        Option::None => Ok(Option::None),
        Option::Some(m) => match m {
            JsonValue::Null => Ok(Option::None),
            JsonValue::Int(i) => if 0 <= *i && *i <= 65535 {
                Ok(Option::Some(*i as u16))
            } else {
                Err(DecodeError::WrongType)
            },
            _ => Err(DecodeError::WrongType),
        },
    }
}

fn take_latency(fields: &mut Vec<(String, JsonValue)>) -> (r: Option<JsonValue>)
    ensures
        r == spec_latency(old(fields)@),
        forall|k: Seq<char>|
            k != "latency"@ ==> #[trigger] spec_obj_lookup(final(fields)@, k) == spec_obj_lookup(
                old(fields)@,
                k,
            ),
{
    match obj_take(fields, "latency") {
        Option::None => Option::None,
        Option::Some(l) => match l {
            JsonValue::Null => Option::None,
            other => Option::Some(other),
        },
    }
}

/// Decode only the envelope: the discriminant and the latency token.
/// Unknown fields, and the variant body, are ignored.
pub fn decode_envelope(v: JsonValue) -> (r: Result<MessageBase, DecodeError>)
    ensures
        match spec_decode_envelope(v) {
            Ok(em) => r matches Ok(m) && m.payload_type@ == em.payload_type && m.latency
                == em.latency,
            Err(e) => r == Err::<MessageBase, DecodeError>(e),
        },
{
    match v {
        JsonValue::Obj(mut fields) => {
            let pt = match str_member(&fields, "payload_type") {
                Ok(s) => s,
                Err(e) => {
                    return Err(e);
                },
            };
            let latency = take_latency(&mut fields);
            Ok(MessageBase { payload_type: pt, latency })
        },
        _ => Err(DecodeError::WrongType),
    }
}

/// Decode a full `sdp` message.
pub fn decode_sdp(v: JsonValue) -> (r: Result<MessageSDP, DecodeError>)
    ensures
        match spec_decode_sdp(v) {
            Ok(mm) => r matches Ok(m) && m.base.payload_type@ == mm.env.payload_type
                && m.base.latency == mm.env.latency && m.sdp.sdp_type@ == mm.sdp_type
                && m.sdp.sdp@ == mm.sdp,
            Err(e) => r == Err::<MessageSDP, DecodeError>(e),
        },
{
    match v {
        JsonValue::Obj(mut fields) => {
            let pt = match str_member(&fields, "payload_type") {
                Ok(s) => s,
                Err(e) => {
                    return Err(e);
                },
            };
            if !str_eq(pt.as_str(), "sdp") {
                return Err(DecodeError::WrongPayloadType);
            }
            let body = match obj_lookup(&fields, "sdp") {
                Option::None => {
                    return Err(DecodeError::MissingField);
                },
                Option::Some(sv) => match sv {
                    JsonValue::Obj(sf) => {
                        let t = match str_member(sf, "type") {
                            Ok(s) => s,
                            Err(e) => {
                                return Err(e);
                            },
                        };
                        let x = match str_member(sf, "sdp") {
                            Ok(s) => s,
                            Err(e) => {
                                return Err(e);
                            },
                        };
                        SessionDescription { sdp_type: t, sdp: x }
                    },
                    _ => {
                        return Err(DecodeError::WrongType);
                    },
                },
            };
            let latency = take_latency(&mut fields);
            Ok(MessageSDP { base: MessageBase { payload_type: pt, latency }, sdp: body })
        },
        _ => Err(DecodeError::WrongType),
    }
}

/// Decode a full `ice` message.
pub fn decode_ice(v: JsonValue) -> (r: Result<MessageICE, DecodeError>)
    ensures
        match spec_decode_ice(v) {
            Ok(mm) => r matches Ok(m) && m.base.payload_type@ == mm.env.payload_type
                && m.base.latency == mm.env.latency && m.candidate.candidate@ == mm.candidate
                && (match mm.sdp_mid {
                Option::Some(sq) => m.candidate.sdp_mid matches Some(s) && s@ == sq,
                Option::None => m.candidate.sdp_mid is None,
            }) && m.candidate.sdp_mline_index == mm.sdp_mline_index && (match mm.username_fragment {
                Option::Some(sq) => m.candidate.username_fragment matches Some(s) && s@ == sq,
                Option::None => m.candidate.username_fragment is None,
            }),
            Err(e) => r == Err::<MessageICE, DecodeError>(e),
        },
{
    match v {
        JsonValue::Obj(mut fields) => {
            let pt = match str_member(&fields, "payload_type") {
                Ok(s) => s,
                Err(e) => {
                    return Err(e);
                },
            };
            if !str_eq(pt.as_str(), "ice") {
                return Err(DecodeError::WrongPayloadType);
            }
            let cand = match obj_lookup(&fields, "candidate") {
                Option::None => {
                    return Err(DecodeError::MissingField);
                },
                Option::Some(cv) => match cv {
                    JsonValue::Obj(cf) => {
                        let c = match str_member(cf, "candidate") {
                            Ok(s) => s,
                            Err(e) => {
                                return Err(e);
                            },
                        };
                        let mid = match opt_str_member(cf, "sdpMid") {
                            Ok(o) => o,
                            Err(e) => {
                                return Err(e);
                            },
                        };
                        let idx = match opt_u16_member(cf, "sdpMLineIndex") {
                            Ok(o) => o,
                            Err(e) => {
                                return Err(e);
                            },
                        };
                        let uf = match opt_str_member(cf, "usernameFragment") {
                            Ok(o) => o,
                            Err(e) => {
                                return Err(e);
                            },
                        };
                        IceCandidateInit {
                            candidate: c,
                            sdp_mid: mid,
                            sdp_mline_index: idx,
                            username_fragment: uf,
                        }
                    },
                    _ => {
                        return Err(DecodeError::WrongType);
                    },
                },
            };
            let latency = take_latency(&mut fields);
            Ok(MessageICE { base: MessageBase { payload_type: pt, latency }, candidate: cand })
        },
        _ => Err(DecodeError::WrongType),
    }
}

/// Decode a full `join` message.
pub fn decode_join(v: JsonValue) -> (r: Result<MessageJoin, DecodeError>)
    ensures
        match spec_decode_join(v) {
            Ok(mm) => r matches Ok(m) && m.base.payload_type@ == mm.env.payload_type
                && m.base.latency == mm.env.latency && m.joiner_role == mm.joiner_role,
            Err(e) => r == Err::<MessageJoin, DecodeError>(e),
        },
{
    match v {
        JsonValue::Obj(mut fields) => {
            let pt = match str_member(&fields, "payload_type") {
                Ok(s) => s,
                Err(e) => {
                    return Err(e);
                },
            };
            if !str_eq(pt.as_str(), "join") {
                return Err(DecodeError::WrongPayloadType);
            }
            let role_text = match str_member(&fields, "joiner_role") {
                Ok(s) => s,
                Err(e) => {
                    return Err(e);
                },
            };
            let role = if str_eq(role_text.as_str(), "node") {
                JoinerRole::Node
            } else if str_eq(role_text.as_str(), "client") {
                JoinerRole::Client
            } else {
                return Err(DecodeError::WrongType);
            };
            let latency = take_latency(&mut fields);
            Ok(MessageJoin { base: MessageBase { payload_type: pt, latency }, joiner_role: role })
        },
        _ => Err(DecodeError::WrongType),
    }
}

/// Decode a full `answer` message.
pub fn decode_answer(v: JsonValue) -> (r: Result<MessageAnswer, DecodeError>)
    ensures
        match spec_decode_answer(v) {
            Ok(mm) => r matches Ok(m) && m.base.payload_type@ == mm.env.payload_type
                && m.base.latency == mm.env.latency && m.status == mm.status,
            Err(e) => r == Err::<MessageAnswer, DecodeError>(e),
        },
{
    match v {
        JsonValue::Obj(mut fields) => {
            let pt = match str_member(&fields, "payload_type") {
                Ok(s) => s,
                Err(e) => {
                    return Err(e);
                },
            };
            if !str_eq(pt.as_str(), "answer") {
                return Err(DecodeError::WrongPayloadType);
            }
            let status_text = match str_member(&fields, "status") {
                Ok(s) => s,
                Err(e) => {
                    return Err(e);
                },
            };
            let status = if str_eq(status_text.as_str(), "offline") {
                AnswerStatus::Offline
            } else if str_eq(status_text.as_str(), "in_use") {
                AnswerStatus::InUse
            } else if str_eq(status_text.as_str(), "ok") {
                AnswerStatus::Accepted
            } else {
                return Err(DecodeError::WrongType);
            };
            let latency = take_latency(&mut fields);
            Ok(MessageAnswer { base: MessageBase { payload_type: pt, latency }, status })
        },
        _ => Err(DecodeError::WrongType),
    }
}

/// Decode a raw message: envelope plus the untyped `data` member.
pub fn decode_raw(v: JsonValue) -> (r: Result<MessageRaw, DecodeError>)
    ensures
        match spec_decode_raw(v) {
            Ok(mm) => r matches Ok(m) && m.base.payload_type@ == mm.env.payload_type
                && m.base.latency == mm.env.latency && m.data == mm.data,
            Err(e) => r == Err::<MessageRaw, DecodeError>(e),
        },
{
    match v {
        JsonValue::Obj(mut fields) => {
            let pt = match str_member(&fields, "payload_type") {
                Ok(s) => s,
                Err(e) => {
                    return Err(e);
                },
            };
            proof {
                reveal_strlit("data");
                reveal_strlit("latency");
                assert("latency"@.len() == 7);
                assert("data"@.len() == 4);
                assert("latency"@ != "data"@);
            }
            let ghost orig = fields@;
            let data = match obj_take(&mut fields, "data") {
                Option::Some(d) => d,
                Option::None => {
                    return Err(DecodeError::MissingField);
                },
            };
            proof {
                assert(spec_obj_lookup(fields@, "latency"@) == spec_obj_lookup(orig, "latency"@));
                assert(spec_latency(fields@) == spec_latency(orig));
            }
            let latency = take_latency(&mut fields);
            Ok(MessageRaw { base: MessageBase { payload_type: pt, latency }, data })
        },
        _ => Err(DecodeError::WrongType),
    }
}

/// Decode a full `log` message.
pub fn decode_log(v: JsonValue) -> (r: Result<MessageLog, DecodeError>)
    ensures
        match spec_decode_log(v) {
            Ok(mm) => r matches Ok(m) && m.base.payload_type@ == mm.env.payload_type
                && m.base.latency == mm.env.latency && m.level@ == mm.level && m.message@
                == mm.message && m.time@ == mm.time,
            Err(e) => r == Err::<MessageLog, DecodeError>(e),
        },
{
    match v {
        JsonValue::Obj(mut fields) => {
            let pt = match str_member(&fields, "payload_type") {
                Ok(s) => s,
                Err(e) => {
                    return Err(e);
                },
            };
            if !str_eq(pt.as_str(), "log") {
                return Err(DecodeError::WrongPayloadType);
            }
            let level = match str_member(&fields, "level") {
                Ok(s) => s,
                Err(e) => {
                    return Err(e);
                },
            };
            let message = match str_member(&fields, "message") {
                Ok(s) => s,
                Err(e) => {
                    return Err(e);
                },
            };
            let time = match str_member(&fields, "time") {
                Ok(s) => s,
                Err(e) => {
                    return Err(e);
                },
            };
            let latency = take_latency(&mut fields);
            Ok(MessageLog { base: MessageBase { payload_type: pt, latency }, level, message, time })
        },
        _ => Err(DecodeError::WrongType),
    }
}

} // verus!
