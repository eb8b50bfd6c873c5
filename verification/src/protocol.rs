//! The envelope that peers exchange, and its JSON wire form.
//!
//! On the wire an envelope is either a bare JSON string naming a variant
//! without payload, or a JSON object with a single member: the variant's tag,
//! holding the payload. Field names follow the browser's WebRTC vocabulary
//! and are case-sensitive.

use crate::json::{
    json_parsed, json_quoted, lemma_object_view, member, members_view, parse, quote, same_text,
    spec_member, Json, JsonView,
};
use vstd::prelude::*;
use vstd::string::*;

verus! {

/// One signaling message.
#[derive(Clone, Debug, PartialEq, Eq)]
pub enum Envelope {
    /// An ICE candidate.
    Candidate {
        candidate: String,
        sdp_m_line_index: i32,
        sdp_mid: String,
        username_fragment: String,
        creator: Option<bool>,
    },
    /// A session description that opens a negotiation.
    Offer { sdp_type: String, sdp: String },
    /// A session description that answers an offer.
    Answer { sdp_type: String, sdp: String },
    /// A status notice that the relay itself sends.
    Alert { detail: String },
    /// Free text, passed through.
    Text { body: String },
    /// The peer is ready to negotiate.
    Ready,
    /// What a frame decodes to when it is no envelope. Never forwarded.
    Unknown,
}

/// The mathematical value of an [`Envelope`].
pub enum EnvelopeView {
    Candidate {
        candidate: Seq<char>,
        sdp_m_line_index: i32,
        sdp_mid: Seq<char>,
        username_fragment: Seq<char>,
        creator: Option<bool>,
    },
    Offer { sdp_type: Seq<char>, sdp: Seq<char> },
    Answer { sdp_type: Seq<char>, sdp: Seq<char> },
    Alert { detail: Seq<char> },
    Text { body: Seq<char> },
    Ready,
    Unknown,
}

impl View for Envelope {
    type V = EnvelopeView;

    open spec fn view(&self) -> EnvelopeView {
        match self {
            Envelope::Candidate {
                candidate,
                sdp_m_line_index,
                sdp_mid,
                username_fragment,
                creator,
            } => EnvelopeView::Candidate {
                candidate: candidate@,
                sdp_m_line_index: *sdp_m_line_index,
                sdp_mid: sdp_mid@,
                username_fragment: username_fragment@,
                creator: *creator,
            },
            Envelope::Offer { sdp_type, sdp } => EnvelopeView::Offer {
                sdp_type: sdp_type@,
                sdp: sdp@,
            },
            Envelope::Answer { sdp_type, sdp } => EnvelopeView::Answer {
                sdp_type: sdp_type@,
                sdp: sdp@,
            },
            Envelope::Alert { detail } => EnvelopeView::Alert { detail: detail@ },
            Envelope::Text { body } => EnvelopeView::Text { body: body@ },
            Envelope::Ready => EnvelopeView::Ready,
            Envelope::Unknown => EnvelopeView::Unknown,
        }
    }
}

/// The text of the member `name`, where there is one and it is a string.
pub open spec fn spec_text_member(members: Seq<(Seq<char>, JsonView)>, name: Seq<char>) -> Option<
    Seq<char>,
> {
    match spec_member(members, name) {
        Some(JsonView::Text(text)) => Some(text),
        _ => None,
    }
}

/// The two fields of a session description, where `payload` is an object
/// that holds both as strings.
pub open spec fn spec_description(payload: JsonView) -> Option<(Seq<char>, Seq<char>)> {
    match payload {
        JsonView::Object(members) => match (
            spec_text_member(members, "type"@),
            spec_text_member(members, "sdp"@),
        ) {
            (Some(sdp_type), Some(sdp)) => Some((sdp_type, sdp)),
            _ => None,
        },
        _ => None,
    }
}

/// The media line index, where the member is an integer that fits in 32 bits.
pub open spec fn spec_line_index(members: Seq<(Seq<char>, JsonView)>) -> Option<i32> {
    match spec_member(members, "sdpMLineIndex"@) {
        Some(JsonView::Number(Some(n))) => if i32::MIN <= n <= i32::MAX {
            Some(n as i32)
        } else {
            None
        },
        _ => None,
    }
}

/// The `creator` flag: `Some(None)` where the member is missing or null,
/// `Some(Some(b))` where it is the boolean `b`, `None` where it is anything
/// else.
pub open spec fn spec_creator(members: Seq<(Seq<char>, JsonView)>) -> Option<Option<bool>> {
    match spec_member(members, "creator"@) {
        None => Some(None),
        Some(JsonView::Null) => Some(None),
        Some(JsonView::Bool(b)) => Some(Some(b)),
        _ => None,
    }
}

/// The candidate that `payload` holds, or `Unknown`.
pub open spec fn spec_candidate(payload: JsonView) -> EnvelopeView {
    match payload {
        JsonView::Object(members) => match (
            spec_text_member(members, "candidate"@),
            spec_line_index(members),
            spec_text_member(members, "sdpMid"@),
            spec_text_member(members, "usernameFragment"@),
            spec_creator(members),
        ) {
            (
                Some(candidate),
                Some(sdp_m_line_index),
                Some(sdp_mid),
                Some(username_fragment),
                Some(creator),
            ) => EnvelopeView::Candidate {
                candidate,
                sdp_m_line_index,
                sdp_mid,
                username_fragment,
                creator,
            },
            _ => EnvelopeView::Unknown,
        },
        _ => EnvelopeView::Unknown,
    }
}

/// The envelope with the tag `tag` and the payload `payload`.
pub open spec fn spec_tagged(tag: Seq<char>, payload: JsonView) -> EnvelopeView {
    if tag == "Candidate"@ {
        spec_candidate(payload)
    } else if tag == "Offer"@ {
        match spec_description(payload) {
            Some((sdp_type, sdp)) => EnvelopeView::Offer { sdp_type, sdp },
            None => EnvelopeView::Unknown,
        }
    } else if tag == "Answer"@ {
        match spec_description(payload) {
            Some((sdp_type, sdp)) => EnvelopeView::Answer { sdp_type, sdp },
            None => EnvelopeView::Unknown,
        }
    } else if tag == "Alert"@ {
        match payload {
            JsonView::Text(detail) => EnvelopeView::Alert { detail },
            _ => EnvelopeView::Unknown,
        }
    } else if tag == "Text"@ {
        match payload {
            JsonView::Text(body) => EnvelopeView::Text { body },
            _ => EnvelopeView::Unknown,
        }
    } else {
        EnvelopeView::Unknown
    }
}

/// The envelope that a JSON document stands for: `Ready` for the bare string
/// `"Ready"`, the tagged variant for an object with exactly one member, and
/// `Unknown` for everything else.
pub open spec fn spec_from_json(doc: JsonView) -> EnvelopeView {
    match doc {
        JsonView::Text(tag) => if tag == "Ready"@ {
            EnvelopeView::Ready
        } else {
            EnvelopeView::Unknown
        },
        JsonView::Object(members) => if members.len() == 1 {
            spec_tagged(members[0].0, members[0].1)
        } else {
            EnvelopeView::Unknown
        },
        _ => EnvelopeView::Unknown,
    }
}

/// The envelope that a text frame stands for: `Unknown` where the frame is
/// not JSON, else what its document stands for.
pub open spec fn spec_decode(text: Seq<char>) -> EnvelopeView {
    match json_parsed(text) {
        Some(doc) => spec_from_json(doc),
        None => EnvelopeView::Unknown,
    }
}

/// A frame that is not JSON decodes to `Unknown`.
pub proof fn lemma_malformed_is_unknown(text: Seq<char>)
    requires
        json_parsed(text) is None,
    ensures
        spec_decode(text) == EnvelopeView::Unknown,
{
}

/// A document that is neither a string nor an object with exactly one
/// member stands for `Unknown`, and so does a string other than `"Ready"`.
pub proof fn lemma_shapeless_is_unknown(doc: JsonView)
    requires
        match doc {
            JsonView::Text(tag) => tag != "Ready"@,
            JsonView::Object(members) => members.len() != 1,
            _ => true,
        },
    ensures
        spec_from_json(doc) == EnvelopeView::Unknown,
{
}

/// An object whose single member carries a tag that names no variant with a
/// payload stands for `Unknown`, whatever the payload.
pub proof fn lemma_unknown_tag_is_unknown(tag: Seq<char>, payload: JsonView)
    requires
        tag != "Candidate"@,
        tag != "Offer"@,
        tag != "Answer"@,
        tag != "Alert"@,
        tag != "Text"@,
    ensures
        spec_tagged(tag, payload) == EnvelopeView::Unknown,
        spec_from_json(JsonView::Object(seq![(tag, payload)])) == EnvelopeView::Unknown,
{
}

/// The character of one decimal digit.
pub open spec fn spec_digit(d: nat) -> char {
    seq!['0', '1', '2', '3', '4', '5', '6', '7', '8', '9'][d as int]
}

/// The decimal digits of `n`, most significant first, without leading zeros.
pub open spec fn spec_digits(n: nat) -> Seq<char>
    decreases n,
{
    if n < 10 {
        seq![spec_digit(n)]
    } else {
        spec_digits(n / 10).push(spec_digit(n % 10))
    }
}

/// The decimal form of an integer, with a minus sign where it is negative.
pub open spec fn spec_decimal(i: int) -> Seq<char> {
    if i < 0 {
        seq!['-'] + spec_digits((-i) as nat)
    } else {
        spec_digits(i as nat)
    }
}

/// The JSON form of the `creator` flag.
pub open spec fn spec_flag(creator: Option<bool>) -> Seq<char> {
    match creator {
        None => "null"@,
        Some(true) => "true"@,
        Some(false) => "false"@,
    }
}

/// The wire form of an envelope. Strings are written as `serde_json` quotes
/// them; everything around them is fixed.
pub open spec fn spec_encode(envelope: EnvelopeView) -> Seq<char> {
    match envelope {
        EnvelopeView::Candidate {
            candidate,
            sdp_m_line_index,
            sdp_mid,
            username_fragment,
            creator,
        } => "{\"Candidate\":{\"candidate\":"@ + json_quoted(candidate) + ",\"sdpMLineIndex\":"@
            + spec_decimal(sdp_m_line_index as int) + ",\"sdpMid\":"@ + json_quoted(sdp_mid)
            + ",\"usernameFragment\":"@ + json_quoted(username_fragment) + ",\"creator\":"@
            + spec_flag(creator) + "}}"@,
        EnvelopeView::Offer { sdp_type, sdp } => "{\"Offer\":{\"type\":"@ + json_quoted(sdp_type)
            + ",\"sdp\":"@ + json_quoted(sdp) + "}}"@,
        EnvelopeView::Answer { sdp_type, sdp } => "{\"Answer\":{\"type\":"@ + json_quoted(
            sdp_type,
        ) + ",\"sdp\":"@ + json_quoted(sdp) + "}}"@,
        EnvelopeView::Alert { detail } => "{\"Alert\":"@ + json_quoted(detail) + "}"@,
        EnvelopeView::Text { body } => "{\"Text\":"@ + json_quoted(body) + "}"@,
        EnvelopeView::Ready => "\"Ready\""@,
        EnvelopeView::Unknown => "\"Unknown\""@,
    }
}

/// One decimal digit as text.
fn digit_text(d: u32) -> (text: &'static str)
    requires
        d < 10,
    ensures
        text@ == seq![spec_digit(d as nat)],
{
    proof {
        reveal_strlit("0");
        reveal_strlit("1");
        reveal_strlit("2");
        reveal_strlit("3");
        reveal_strlit("4");
        reveal_strlit("5");
        reveal_strlit("6");
        reveal_strlit("7");
        reveal_strlit("8");
        reveal_strlit("9");
    }
    let text = match d {
        0 => "0",
        1 => "1",
        2 => "2",
        3 => "3",
        4 => "4",
        5 => "5",
        6 => "6",
        7 => "7",
        8 => "8",
        _ => "9",
    };
    assert(text@ =~= seq![spec_digit(d as nat)]);
    text
}

/// Writes a natural number in decimal.
fn digits(n: u32) -> (text: String)
    ensures
        text@ == spec_digits(n as nat),
    decreases n,
{
    if n < 10 {
        String::from_str(digit_text(n))
    } else {
        let mut text = digits(n / 10);
        text.append(digit_text(n % 10));
        assert(text@ =~= spec_digits(n as nat));
        text
    }
}

/// Writes an integer in decimal.
pub fn decimal(value: i32) -> (text: String)
    ensures
        text@ == spec_decimal(value as int),
{
    if value < 0 {
        let magnitude: u32 = (-(value as i64)) as u32;
        let mut text = String::from_str("-");
        text.append(digits(magnitude).as_str());
        proof {
            reveal_strlit("-");
            assert(text@ =~= spec_decimal(value as int));
        }
        text
    } else {
        digits(value as u32)
    }
}

/// Writes the `creator` flag.
fn flag(creator: Option<bool>) -> (text: &'static str)
    ensures
        text@ == spec_flag(creator),
{
    match creator {
        None => "null",
        Some(true) => "true",
        Some(false) => "false",
    }
}

/// Writes a session description behind the opening of its tag.
fn description_text(tag_open: &str, sdp_type: &str, sdp: &str) -> (text: String)
    ensures
        text@ == tag_open@ + json_quoted(sdp_type@) + ",\"sdp\":"@ + json_quoted(sdp@) + "}}"@,
{
    let mut text = String::from_str(tag_open);
    text.append(quote(sdp_type).as_str());
    text.append(",\"sdp\":");
    text.append(quote(sdp).as_str());
    text.append("}}");
    text
}

/// Writes a string payload behind the opening of its tag.
fn quoted_text(tag_open: &str, payload: &str) -> (text: String)
    ensures
        text@ == tag_open@ + json_quoted(payload@) + "}"@,
{
    let mut text = String::from_str(tag_open);
    text.append(quote(payload).as_str());
    text.append("}");
    text
}

/// Reads the member `name` where it is a string.
fn text_member(members: &Vec<(String, Json)>, name: &str) -> (found: Option<String>)
    ensures
        spec_text_member(members_view(members@), name@) == match found {
            Some(text) => Some(text@),
            None => None,
        },
{
    match member(members, name) {
        Some(Json::Text(text)) => Some(text.clone()),
        _ => None,
    }
}

/// Reads the two fields of a session description.
fn description(payload: &Json) -> (found: Option<(String, String)>)
    ensures
        spec_description(payload@) == match found {
            Some(pair) => Some((pair.0@, pair.1@)),
            None => None,
        },
{
    match payload {
        Json::Object(members) => {
            proof {
                lemma_object_view(*members);
            }
            match text_member(members, "type") {
                Some(sdp_type) => match text_member(members, "sdp") {
                    Some(sdp) => Some((sdp_type, sdp)),
                    None => None,
                },
                None => None,
            }
        },
        _ => None,
    }
}

/// Reads the media line index.
fn line_index(members: &Vec<(String, Json)>) -> (found: Option<i32>)
    ensures
        found == spec_line_index(members_view(members@)),
{
    match member(members, "sdpMLineIndex") {
        Some(Json::Number(Some(n))) => {
            if -2147483648 <= *n && *n <= 2147483647 {
                Some(*n as i32)
            } else {
                None
            }
        },
        _ => None,
    }
}

/// Reads the `creator` flag.
fn creator_flag(members: &Vec<(String, Json)>) -> (found: Option<Option<bool>>)
    ensures
        found == spec_creator(members_view(members@)),
{
    match member(members, "creator") {
        None => Some(None),
        Some(Json::Null) => Some(None),
        Some(Json::Bool(b)) => Some(Some(*b)),
        _ => None,
    }
}

/// Reads a candidate.
fn candidate(payload: &Json) -> (envelope: Envelope)
    ensures
        envelope@ == spec_candidate(payload@),
{
    match payload {
        Json::Object(members) => {
            proof {
                lemma_object_view(*members);
            }
            let candidate = text_member(members, "candidate");
            let sdp_m_line_index = line_index(members);
            let sdp_mid = text_member(members, "sdpMid");
            let username_fragment = text_member(members, "usernameFragment");
            let creator = creator_flag(members);
            match (candidate, sdp_m_line_index, sdp_mid, username_fragment, creator) {
                (
                    Some(candidate),
                    Some(sdp_m_line_index),
                    Some(sdp_mid),
                    Some(username_fragment),
                    Some(creator),
                ) => Envelope::Candidate {
                    candidate,
                    sdp_m_line_index,
                    sdp_mid,
                    username_fragment,
                    creator,
                },
                _ => Envelope::Unknown,
            }
        },
        _ => Envelope::Unknown,
    }
}

/// Reads the variant that `tag` names from `payload`.
fn tagged(tag: &str, payload: &Json) -> (envelope: Envelope)
    ensures
        envelope@ == spec_tagged(tag@, payload@),
{
    if same_text(tag, "Candidate") {
        candidate(payload)
    } else if same_text(tag, "Offer") {
        match description(payload) {
            Some((sdp_type, sdp)) => Envelope::Offer { sdp_type, sdp },
            None => Envelope::Unknown,
        }
    } else if same_text(tag, "Answer") {
        match description(payload) {
            Some((sdp_type, sdp)) => Envelope::Answer { sdp_type, sdp },
            None => Envelope::Unknown,
        }
    } else if same_text(tag, "Alert") {
        match payload {
            Json::Text(detail) => Envelope::Alert { detail: detail.clone() },
            _ => Envelope::Unknown,
        }
    } else if same_text(tag, "Text") {
        match payload {
            Json::Text(body) => Envelope::Text { body: body.clone() },
            _ => Envelope::Unknown,
        }
    } else {
        Envelope::Unknown
    }
}

impl Envelope {
    /// Reads an envelope from a parsed JSON document. Every document gives
    /// an envelope; one that matches no variant gives `Unknown`.
    pub fn from_json(doc: &Json) -> (envelope: Envelope)
        ensures
            envelope@ == spec_from_json(doc@),
    {
        match doc {
            Json::Text(tag) => {
                if same_text(tag.as_str(), "Ready") {
                    Envelope::Ready
                } else {
                    Envelope::Unknown
                }
            },
            Json::Object(members) => {
                proof {
                    lemma_object_view(*members);
                }
                if members.len() == 1 {
                    tagged(members[0].0.as_str(), &members[0].1)
                } else {
                    Envelope::Unknown
                }
            },
            _ => Envelope::Unknown,
        }
    }

    /// Encodes the envelope as one text frame. Every variant has a wire
    /// form, `Unknown` and the variants without payload included.
    pub fn encode(&self) -> (text: String)
        ensures
            text@ == spec_encode(self@),
    {
        match self {
            Envelope::Candidate {
                candidate,
                sdp_m_line_index,
                sdp_mid,
                username_fragment,
                creator,
            } => {
                let mut text = String::from_str("{\"Candidate\":{\"candidate\":");
                text.append(quote(candidate.as_str()).as_str());
                text.append(",\"sdpMLineIndex\":");
                text.append(decimal(*sdp_m_line_index).as_str());
                text.append(",\"sdpMid\":");
                text.append(quote(sdp_mid.as_str()).as_str());
                text.append(",\"usernameFragment\":");
                text.append(quote(username_fragment.as_str()).as_str());
                text.append(",\"creator\":");
                text.append(flag(*creator));
                text.append("}}");
                text
            },
            Envelope::Offer { sdp_type, sdp } => description_text(
                "{\"Offer\":{\"type\":",
                sdp_type.as_str(),
                sdp.as_str(),
            ),
            Envelope::Answer { sdp_type, sdp } => description_text(
                "{\"Answer\":{\"type\":",
                sdp_type.as_str(),
                sdp.as_str(),
            ),
            Envelope::Alert { detail } => quoted_text("{\"Alert\":", detail.as_str()),
            Envelope::Text { body } => quoted_text("{\"Text\":", body.as_str()),
            Envelope::Ready => String::from_str("\"Ready\""),
            Envelope::Unknown => String::from_str("\"Unknown\""),
        }
    }

    /// Decodes one text frame. Decoding never fails: a frame that is not
    /// JSON, or whose document matches no variant, decodes to `Unknown`.
    pub fn decode(text: &str) -> (envelope: Envelope)
        ensures
            envelope@ == spec_decode(text@),
    {
        match parse(text) {
            Some(doc) => Envelope::from_json(&doc),
            None => Envelope::Unknown,
        }
    }
}

} // verus!
