//! The value grammars that a header name selects.

use vstd::prelude::*;
use vstd::utf8::{decode_utf8, valid_utf8};
use crate::bnf::{ByteClass, run_end, lemma_run_end_bounds, take_while};
use crate::error::SipParseError;
use crate::value::{HeaderTagType, HeaderTags, HeaderValue, HeaderValueType};

verus! {

/// Which value grammar reads a header's value.
#[derive(Clone, Copy, Debug, PartialEq, Eq, Structural)]
pub enum ValueGrammar {
    /// `1*DIGIT`
    Digit,
    /// `token`
    Token,
    /// `word [ "@" word ]`
    CallID,
    /// `protocol-name "/" version "/" transport 1*WSP host [ ":" port ]`
    Via,
    /// `1*word-char`, for headers that are not known.
    Extension,
}

/// What a grammar matched at a position: where the value ends, its shape, and
/// each tag with the start and end of its bytes.
pub struct ValueMatch {
    pub end: int,
    pub vtype: HeaderValueType,
    pub tags: Option<Seq<(HeaderTagType, int, int)>>,
}

/// The bytes of each tag.
pub open spec fn tag_bytes(s: Seq<u8>, ts: Seq<(HeaderTagType, int, int)>) -> Seq<(HeaderTagType, Seq<u8>)> {
    ts.map_values(|t: (HeaderTagType, int, int)| (t.0, s.subrange(t.1, t.2)))
}

/// A non-empty run of class `c` at `i`, as a value of shape `vtype` without tags.
pub open spec fn run_match(s: Seq<u8>, i: int, c: ByteClass, vtype: HeaderValueType) -> Option<ValueMatch> {
    let e = run_end(s, i, c);
    if e > i {
        Some(ValueMatch { end: e, vtype, tags: None })
    } else {
        None
    }
}

/// `word [ "@" word ]`: tags ID and, after an `@`, Host.
pub open spec fn call_id_match(s: Seq<u8>, i: int) -> Option<ValueMatch> {
    let a = run_end(s, i, ByteClass::Word);
    if a == i {
        None
    } else if a < s.len() && s[a] == 0x40u8 {
        let b = run_end(s, a + 1, ByteClass::Word);
        if b > a + 1 {
            Some(ValueMatch {
                end: b,
                vtype: HeaderValueType::CallID,
                tags: Some(seq![(HeaderTagType::ID, i, a), (HeaderTagType::Host, a + 1, b)]),
            })
        } else {
            None
        }
    } else {
        Some(ValueMatch {
            end: a,
            vtype: HeaderValueType::CallID,
            tags: Some(seq![(HeaderTagType::ID, i, a)]),
        })
    }
}

/// A non-empty token at `i` followed by `/`: the end of the token.
pub open spec fn token_slash(s: Seq<u8>, i: int) -> Option<int> {
    let a = run_end(s, i, ByteClass::Token);
    if a > i && a < s.len() && s[a] == 0x2Fu8 {
        Some(a)
    } else {
        None
    }
}

/// `protocol-name "/" version "/" transport 1*WSP host [ ":" port ]`.
pub open spec fn via_match(s: Seq<u8>, i: int) -> Option<ValueMatch> {
    match token_slash(s, i) {
        None => None,
        Some(a) => match token_slash(s, a + 1) {
            None => None,
            Some(b) => {
                let c = run_end(s, b + 1, ByteClass::Token);
                let d = run_end(s, c, ByteClass::Wsp);
                let e = run_end(s, d, ByteClass::Token);
                if c == b + 1 || d == c || e == d {
                    None
                } else if e < s.len() && s[e] == 0x3Au8 {
                    let f = run_end(s, e + 1, ByteClass::Digit);
                    if f == e + 1 {
                        None
                    } else {
                        Some(ValueMatch {
                            end: f,
                            vtype: HeaderValueType::Via,
                            tags: Some(seq![
                                (HeaderTagType::Host, d, e),
                                (HeaderTagType::Port, e + 1, f),
                                (HeaderTagType::ProtocolName, i, a),
                                (HeaderTagType::ProtocolVersion, a + 1, b),
                                (HeaderTagType::ProtocolTransport, b + 1, c),
                            ]),
                        })
                    }
                } else {
                    Some(ValueMatch {
                        end: e,
                        vtype: HeaderValueType::Via,
                        tags: Some(seq![
                            (HeaderTagType::Host, d, e),
                            (HeaderTagType::ProtocolName, i, a),
                            (HeaderTagType::ProtocolVersion, a + 1, b),
                            (HeaderTagType::ProtocolTransport, b + 1, c),
                        ]),
                    })
                }
            },
        },
    }
}

/// What grammar `g` matches at `i`, if anything.
pub open spec fn grammar_match(g: ValueGrammar, s: Seq<u8>, i: int) -> Option<ValueMatch> {
    match g {
        ValueGrammar::Digit => run_match(s, i, ByteClass::Digit, HeaderValueType::Digit),
        ValueGrammar::Token => run_match(s, i, ByteClass::Token, HeaderValueType::TokenValue),
        ValueGrammar::Extension => run_match(s, i, ByteClass::Word, HeaderValueType::ExtensionHeader),
        ValueGrammar::CallID => call_id_match(s, i),
        ValueGrammar::Via => via_match(s, i),
    }
}

/// `v` is the value that match `m` at `i` describes, over the bytes `s`.
pub open spec fn value_is(v: HeaderValue, s: Seq<u8>, i: int, m: ValueMatch) -> bool {
    &&& v.vstr@ == decode_utf8(s.subrange(i, m.end))
    &&& v.vtype == m.vtype
    &&& v.tags_view() == match m.tags {
        Some(ts) => Some(tag_bytes(s, ts)),
        None => None::<Seq<(HeaderTagType, Seq<u8>)>>,
    }
    &&& v.vtags matches Some(t) ==> t.wf()
    &&& v.sip_uri is None
}

/// What reading a value with grammar `g` at `i` gives: the match, or the error.
pub open spec fn grammar_result(g: ValueGrammar, s: Seq<u8>, i: int) -> Result<ValueMatch, SipParseError> {
    match grammar_match(g, s, i) {
        None => Err(SipParseError::ValueGrammar),
        Some(m) => if valid_utf8(s.subrange(i, m.end)) {
            Ok(m)
        } else {
            Err(SipParseError::Decode)
        },
    }
}

/// The bytes from `a` to `b`.
pub fn span<'a>(s: &'a [u8], a: usize, b: usize) -> (r: &'a [u8])
    requires
        a <= b <= s@.len(),
    ensures
        r@ == s@.subrange(a as int, b as int),
{
    &s[a..b]
}

/// The tags of a match, as a map over the bytes of `s`.
pub open spec fn tags_are(t: Option<HeaderTags>, s: Seq<u8>, m: ValueMatch) -> bool {
    &&& t matches Some(x) ==> x.wf()
    &&& match (t, m.tags) {
        (Some(x), Some(ts)) => x@ == tag_bytes(s, ts),
        (None, None) => true,
        _ => false,
    }
}

fn run_value<'a>(s: &'a [u8], i: usize, c: ByteClass, vtype: HeaderValueType) -> (r: Option<(usize, HeaderValueType, Option<HeaderTags<'a>>)>)
    requires
        i <= s@.len(),
    ensures
        r is None <==> run_match(s@, i as int, c, vtype) is None,
        r matches Some((e, vt, t)) ==> {
            let m = run_match(s@, i as int, c, vtype)->Some_0;
            e == m.end && vt == m.vtype && tags_are(t, s@, m)
        },
{
    let e = take_while(s, i, c);
    if e > i {
        Some((e, vtype, None))
    } else {
        None
    }
}

fn call_id_value<'a>(s: &'a [u8], i: usize) -> (r: Option<(usize, HeaderValueType, Option<HeaderTags<'a>>)>)
    requires
        i <= s@.len(),
    ensures
        r is None <==> call_id_match(s@, i as int) is None,
        r matches Some((e, vt, t)) ==> {
            let m = call_id_match(s@, i as int)->Some_0;
            e == m.end && vt == m.vtype && tags_are(t, s@, m)
        },
{
    let a = take_while(s, i, ByteClass::Word);
    if a == i {
        return None;
    }
    let mut entries: Vec<(HeaderTagType, &'a [u8])> = Vec::new();
    entries.push((HeaderTagType::ID, span(s, i, a)));
    if a < s.len() && s[a] == 0x40u8 {
        let b = take_while(s, a + 1, ByteClass::Word);
        if b == a + 1 {
            return None;
        }
        entries.push((HeaderTagType::Host, span(s, a + 1, b)));
        let t = HeaderTags { entries };
        proof {
            let ts = seq![(HeaderTagType::ID, i as int, a as int), (HeaderTagType::Host, a + 1, b as int)];
            assert(t@ =~= tag_bytes(s@, ts));
        }
        Some((b, HeaderValueType::CallID, Some(t)))
    } else {
        let t = HeaderTags { entries };
        proof {
            let ts = seq![(HeaderTagType::ID, i as int, a as int)];
            assert(t@ =~= tag_bytes(s@, ts));
        }
        Some((a, HeaderValueType::CallID, Some(t)))
    }
}

fn token_slash_at(s: &[u8], i: usize) -> (r: Option<usize>)
    requires
        i <= s@.len(),
    ensures
        r == match token_slash(s@, i as int) {
            Some(a) => Some(a as usize),
            None => None::<usize>,
        },
        r matches Some(a) ==> i < a < s@.len() && s@.len() <= usize::MAX,
{
    let a = take_while(s, i, ByteClass::Token);
    if a > i && a < s.len() && s[a] == 0x2Fu8 {
        Some(a)
    } else {
        None
    }
}

fn via_value<'a>(s: &'a [u8], i: usize) -> (r: Option<(usize, HeaderValueType, Option<HeaderTags<'a>>)>)
    requires
        i <= s@.len(),
    ensures
        r is None <==> via_match(s@, i as int) is None,
        r matches Some((e, vt, t)) ==> {
            let m = via_match(s@, i as int)->Some_0;
            e == m.end && vt == m.vtype && tags_are(t, s@, m)
        },
{
    let a = match token_slash_at(s, i) {
        Some(a) => a,
        None => return None,
    };
    let b = match token_slash_at(s, a + 1) {
        Some(b) => b,
        None => return None,
    };
    let c = take_while(s, b + 1, ByteClass::Token);
    let d = take_while(s, c, ByteClass::Wsp);
    let e = take_while(s, d, ByteClass::Token);
    if c == b + 1 || d == c || e == d {
        return None;
    }
    let mut entries: Vec<(HeaderTagType, &'a [u8])> = Vec::new();
    entries.push((HeaderTagType::Host, span(s, d, e)));
    let mut end = e;
    if e < s.len() && s[e] == 0x3Au8 {
        let f = take_while(s, e + 1, ByteClass::Digit);
        if f == e + 1 {
            return None;
        }
        entries.push((HeaderTagType::Port, span(s, e + 1, f)));
        end = f;
    }
    entries.push((HeaderTagType::ProtocolName, span(s, i, a)));
    entries.push((HeaderTagType::ProtocolVersion, span(s, a + 1, b)));
    entries.push((HeaderTagType::ProtocolTransport, span(s, b + 1, c)));
    let t = HeaderTags { entries };
    proof {
        let m = via_match(s@, i as int)->Some_0;
        let ts = m.tags->Some_0;
        assert(t@ =~= tag_bytes(s@, ts));
    }
    Some((end, HeaderValueType::Via, Some(t)))
}

/// Reads a value at `i` with grammar `g`.
pub fn take_grammar_value<'a>(g: ValueGrammar, s: &'a [u8], i: usize) -> (r: Result<(usize, HeaderValue<'a>), SipParseError>)
    requires
        i <= s@.len(),
    ensures
        match grammar_result(g, s@, i as int) {
            Err(e) => r matches Err(x) && x == e,
            Ok(m) => r matches Ok((e, v)) && e == m.end && value_is(v, s@, i as int, m),
        },
{
    let found = match g {
        ValueGrammar::Digit => run_value(s, i, ByteClass::Digit, HeaderValueType::Digit),
        ValueGrammar::Token => run_value(s, i, ByteClass::Token, HeaderValueType::TokenValue),
        ValueGrammar::Extension => run_value(s, i, ByteClass::Word, HeaderValueType::ExtensionHeader),
        ValueGrammar::CallID => call_id_value(s, i),
        ValueGrammar::Via => via_value(s, i),
    };
    match found {
        None => Err(SipParseError::ValueGrammar),
        Some((e, vtype, tags)) => {
            proof {
                lemma_grammar_end(g, s@, i as int);
            }
            let v = HeaderValue::new(span(s, i, e), vtype, tags, None)?;
            Ok((e, v))
        },
    }
}

/// A match ends within the input and after its start.
pub proof fn lemma_grammar_end(g: ValueGrammar, s: Seq<u8>, i: int)
    requires
        0 <= i <= s.len(),
    ensures
        grammar_match(g, s, i) matches Some(m) ==> i < m.end <= s.len(),
{
    lemma_run_end_bounds(s, i, ByteClass::Digit);
    lemma_run_end_bounds(s, i, ByteClass::Token);
    lemma_run_end_bounds(s, i, ByteClass::Word);
    let a = run_end(s, i, ByteClass::Word);
    if a < s.len() {
        lemma_run_end_bounds(s, a + 1, ByteClass::Word);
    }
    if let Some(a) = token_slash(s, i) {
        lemma_run_end_bounds(s, a + 1, ByteClass::Token);
        if let Some(b) = token_slash(s, a + 1) {
            lemma_run_end_bounds(s, b + 1, ByteClass::Token);
            let c = run_end(s, b + 1, ByteClass::Token);
            lemma_run_end_bounds(s, c, ByteClass::Wsp);
            let d = run_end(s, c, ByteClass::Wsp);
            lemma_run_end_bounds(s, d, ByteClass::Token);
            let e = run_end(s, d, ByteClass::Token);
            if e < s.len() {
                lemma_run_end_bounds(s, e + 1, ByteClass::Digit);
            }
        }
    }
}

} // verus!
