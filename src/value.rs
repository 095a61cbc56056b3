//! The shapes of header values, their named sub-fields, and the value view.

use vstd::prelude::*;
use vstd::utf8::{decode_utf8, valid_utf8};
use crate::error::SipParseError;

verus! {

/// The shape of a header value.
#[derive(Clone, Copy, Debug, PartialEq, Eq, Structural)]
pub enum HeaderValueType {
    /// A header with an empty value. No tags.
    EmptyValue,
    /// A run of token characters. No tags.
    TokenValue,
    /// Digits only. No tags.
    Digit,
    /// Tags: AbsoluteURI.
    AbsoluteURI,
    /// Tags: PureValue.
    QuotedValue,
    /// Tags: AinfoType, AinfoValue.
    AuthentificationInfo,
    /// Tags: Number, Method.
    CSeq,
    /// No tags.
    DateString,
    /// No tags.
    Utf8Text,
    /// Tags: Major, optional Minor.
    Version,
    /// Tags: the digest credential fields.
    AuthorizationDigest,
    /// Tags: ID, optional Host.
    CallID,
    /// Tags: PureValue.
    CallInfo,
    /// Contact, From, To, Record-Route, Route. Tags: Star, DisplayName, AbsoluteURI.
    NameAddr,
    /// Tags: TimveVal, Delay.
    Timestamp,
    /// Tags: Seconds, optional Comment.
    RetryAfter,
    /// No tags.
    UserAgent,
    /// Tags: ProtocolName, ProtocolVersion, ProtocolTransport, Host, optional Port.
    Via,
    /// Tags: WarnCode, WarnAgent, WarnText.
    Warning,
    /// A header that is not one of the known ones. No tags.
    ExtensionHeader,
}

/// A named sub-field of a header value. Tags are kept in the order of this
/// enumeration.
#[derive(Clone, Copy, Debug, PartialEq, Eq, PartialOrd, Ord, Structural)]
pub enum HeaderTagType {
    PureValue,
    AinfoType,
    AinfoValue,
    AbsoluteURI,
    AuthSchema,
    Username,
    Domain,
    Realm,
    Nonce,
    DigestUri,
    Dresponse,
    Algorithm,
    Cnonce,
    Opaque,
    Stale,
    QopValue,
    NonceCount,
    Number,
    Method,
    ID,
    Host,
    Port,
    Star,
    DisplayName,
    Seconds,
    Comment,
    Major,
    Minor,
    TimveVal,
    Delay,
    ProtocolName,
    ProtocolVersion,
    ProtocolTransport,
    WarnCode,
    WarnAgent,
    WarnText,
}

impl HeaderTagType {
    /// The position of the tag in the declared order.
    pub open spec fn rank(self) -> int {
        match self {
            HeaderTagType::PureValue => 0,
            HeaderTagType::AinfoType => 1,
            HeaderTagType::AinfoValue => 2,
            HeaderTagType::AbsoluteURI => 3,
            HeaderTagType::AuthSchema => 4,
            HeaderTagType::Username => 5,
            HeaderTagType::Domain => 6,
            HeaderTagType::Realm => 7,
            HeaderTagType::Nonce => 8,
            HeaderTagType::DigestUri => 9,
            HeaderTagType::Dresponse => 10,
            HeaderTagType::Algorithm => 11,
            HeaderTagType::Cnonce => 12,
            HeaderTagType::Opaque => 13,
            HeaderTagType::Stale => 14,
            HeaderTagType::QopValue => 15,
            HeaderTagType::NonceCount => 16,
            HeaderTagType::Number => 17,
            HeaderTagType::Method => 18,
            HeaderTagType::ID => 19,
            HeaderTagType::Host => 20,
            HeaderTagType::Port => 21,
            HeaderTagType::Star => 22,
            HeaderTagType::DisplayName => 23,
            HeaderTagType::Seconds => 24,
            HeaderTagType::Comment => 25,
            HeaderTagType::Major => 26,
            HeaderTagType::Minor => 27,
            HeaderTagType::TimveVal => 28,
            HeaderTagType::Delay => 29,
            HeaderTagType::ProtocolName => 30,
            HeaderTagType::ProtocolVersion => 31,
            HeaderTagType::ProtocolTransport => 32,
            HeaderTagType::WarnCode => 33,
            HeaderTagType::WarnAgent => 34,
            HeaderTagType::WarnText => 35,
        }
    }
}

/// A map from tag to the bytes of the sub-field, held as a vector sorted by tag.
#[derive(Debug, PartialEq)]
pub struct HeaderTags<'a> {
    pub entries: Vec<(HeaderTagType, &'a [u8])>,
}

impl<'a> HeaderTags<'a> {
    /// The tags with the bytes of each sub-field.
    pub open spec fn view(&self) -> Seq<(HeaderTagType, Seq<u8>)> {
        self.entries@.map_values(|e: (HeaderTagType, &'a [u8])| (e.0, e.1@))
    }

    /// Keys are unique and ascending in the enumeration's order.
    pub open spec fn wf(&self) -> bool {
        forall|i: int, j: int|
            0 <= i < j < self.entries@.len() ==> (#[trigger] self.entries@[i]).0.rank()
                < (#[trigger] self.entries@[j]).0.rank()
    }

    /// The bytes recorded for `tag`, if any.
    pub fn get(&self, tag: HeaderTagType) -> (r: Option<&'a [u8]>)
        requires
            self.wf(),
        ensures
            r matches Some(b) ==> exists|i: int|
                0 <= i < self.entries@.len() && #[trigger] self.entries@[i] == (tag, b),
            r is None ==> forall|i: int|
                0 <= i < self.entries@.len() ==> (#[trigger] self.entries@[i]).0 != tag,
    {
        let mut i: usize = 0;
        while i < self.entries.len()
            invariant
                i <= self.entries@.len(),
                forall|k: int| 0 <= k < i ==> (#[trigger] self.entries@[k]).0 != tag,
            decreases self.entries@.len() - i,
        {
            if self.entries[i].0 == tag {
                return Some(self.entries[i].1);
            }
            i = i + 1;
        }
        None
    }
}

/// A parsed URI embedded in a value: the bytes it was read from.
#[derive(Debug, PartialEq)]
pub struct SipUri<'a> {
    pub raw: &'a [u8],
}

/// Relies on `core::str::from_utf8`: it succeeds exactly on valid UTF-8 and then
/// gives the string those bytes encode.
#[verifier::external_body]
pub(crate) fn utf8_str<'a>(b: &'a [u8]) -> (r: Option<&'a str>)
    ensures
        r is Some <==> valid_utf8(b@),
        r matches Some(t) ==> t@ == decode_utf8(b@),
{
    core::str::from_utf8(b).ok()
}

/// One parsed value occurrence, a view into the caller's buffer.
#[derive(Debug, PartialEq)]
pub struct HeaderValue<'a> {
    pub vstr: &'a str,
    pub vtype: HeaderValueType,
    pub vtags: Option<HeaderTags<'a>>,
    pub sip_uri: Option<SipUri<'a>>,
}

impl<'a> HeaderValue<'a> {
    /// The tags, viewed as tag and bytes.
    pub open spec fn tags_view(&self) -> Option<Seq<(HeaderTagType, Seq<u8>)>> {
        match self.vtags {
            Some(t) => Some(t@),
            None => None,
        }
    }

    /// The value of a header written with nothing after the colon.
    pub fn create_empty_value() -> (r: HeaderValue<'a>)
        ensures
            r.vstr@ == Seq::<char>::empty(),
            r.vtype == HeaderValueType::EmptyValue,
            r.vtags is None,
            r.sip_uri is None,
    {
        proof {
            reveal_strlit("");
        }
        HeaderValue { vstr: "", vtype: HeaderValueType::EmptyValue, vtags: None, sip_uri: None }
    }

    /// Builds a value over the bytes `val`, which must be valid UTF-8.
    pub fn new(
        val: &'a [u8],
        vtype: HeaderValueType,
        vtags: Option<HeaderTags<'a>>,
        sip_uri: Option<SipUri<'a>>,
    ) -> (r: Result<HeaderValue<'a>, SipParseError>)
        ensures
            r is Ok <==> valid_utf8(val@),
            r matches Err(e) ==> e == SipParseError::Decode,
            r matches Ok(v) ==> {
                &&& v.vstr@ == decode_utf8(val@)
                &&& v.vtype == vtype
                &&& v.vtags == vtags
                &&& v.sip_uri == sip_uri
            },
    {
        match utf8_str(val) {
            Some(vstr) => Ok(HeaderValue { vstr, vtype, vtags, sip_uri }),
            None => Err(SipParseError::Decode),
        }
    }

    /// The named sub-fields, for shapes that have them.
    pub fn tags(&self) -> (r: Option<&HeaderTags<'a>>)
        ensures
            r == match self.vtags {
                Some(t) => Some(&t),
                None => None::<&HeaderTags<'a>>,
            },
    {
        self.vtags.as_ref()
    }

    /// The URI embedded in the value, where the grammar extracted one.
    pub fn sip_uri(&self) -> (r: Option<&SipUri<'a>>)
        ensures
            r == match self.sip_uri {
                Some(u) => Some(&u),
                None => None::<&SipUri<'a>>,
            },
    {
        self.sip_uri.as_ref()
    }
}

} // verus!
