//! One header line: its name, and one record per comma-separated value.

use vstd::prelude::*;
use vstd::utf8::{decode_utf8, valid_utf8};
use std::collections::VecDeque;
use crate::bnf::{ByteClass, crlf_at, is_crlf, lemma_run_end_bounds, lemma_sep_end, run_end, sep_end, take_sep, take_while};
use crate::error::SipParseError;
use crate::grammar::{ValueGrammar, ValueMatch, grammar_result, lemma_grammar_end, take_grammar_value, value_is, span};
use crate::params::{GenericParams, ParamSpan, lemma_params_from_bounds, param_bytes, params_from};
use crate::rfc::{SipRFCHeader, ascii_ci_eq, eq_ascii, rfc_lookup};
use crate::value::{HeaderValue, HeaderValueType, utf8_str};

verus! {

/// Where one value occurrence lies in the input: its start, what the grammar
/// matched, its parameters, and the end of the raw span.
pub struct HeaderSpan {
    pub start: int,
    pub value: ValueMatch,
    pub params: Option<Seq<ParamSpan>>,
    pub end: int,
}

/// The header name at the start of `s` and the colon after it: the position
/// past the separator and the end of the name.
pub open spec fn name_result(s: Seq<u8>) -> Result<(int, int), SipParseError> {
    let n = run_end(s, 0, ByteClass::Token);
    if n == 0 {
        Err(SipParseError::Name)
    } else {
        match sep_end(s, n, 0x3Au8) {
            None => Err(SipParseError::Name),
            Some(k) => if valid_utf8(s.subrange(0, n)) {
                Ok((k, n))
            } else {
                Err(SipParseError::Name)
            },
        }
    }
}

/// Whether the byte at `j` may follow a value: comma, semicolon, space or line end.
pub open spec fn terminator_at(s: Seq<u8>, j: int) -> bool {
    s[j] == 0x2Cu8 || s[j] == 0x3Bu8 || s[j] == 0x20u8 || crlf_at(s, j)
}

/// One value occurrence with its parameters, read with grammar `g` at `i`.
#[verifier::opaque]
pub open spec fn value_step(g: ValueGrammar, s: Seq<u8>, i: int) -> Result<HeaderSpan, SipParseError> {
    if crlf_at(s, i) {
        Ok(HeaderSpan {
            start: i,
            value: ValueMatch { end: i, vtype: HeaderValueType::EmptyValue, tags: None },
            params: None,
            end: i,
        })
    } else {
        match grammar_result(g, s, i) {
            Err(e) => Err(e),
            Ok(m) => {
                let j = run_end(s, m.end, ByteClass::Wsp);
                if j >= s.len() || !terminator_at(s, j) {
                    Err(SipParseError::Terminator)
                } else if s[j] == 0x3Bu8 {
                    match params_from(s, j) {
                        None => Err(SipParseError::ParameterGrammar),
                        Some((k, ps)) => Ok(HeaderSpan { start: i, value: m, params: Some(ps), end: k }),
                    }
                } else {
                    Ok(HeaderSpan { start: i, value: m, params: None, end: j })
                }
            },
        }
    }
}

/// The occurrences from `i` on: where the group ends and the span of each.
/// After a comma the separator always matches and moves past `i`, so the two
/// `EmptyInput` branches inside the comma case are never taken.
pub open spec fn group_from(g: ValueGrammar, s: Seq<u8>, i: int) -> Result<(int, Seq<HeaderSpan>), SipParseError>
    decreases s.len() - i,
{
    match value_step(g, s, i) {
        Err(e) => Err(e),
        Ok(h) => if h.end >= s.len() {
            Err(SipParseError::EmptyInput)
        } else if s[h.end] == 0x2Cu8 {
            match sep_end(s, h.end, 0x2Cu8) {
                Some(k) => if i < k <= s.len() {
                    match group_from(g, s, k) {
                        Err(e) => Err(e),
                        Ok((r, hs)) => Ok((r, seq![h] + hs)),
                    }
                } else {
                    Err(SipParseError::EmptyInput)
                },
                None => Err(SipParseError::EmptyInput),
            }
        } else {
            Ok((h.end, seq![h]))
        },
    }
}

/// The grammar for a header name: the registry's, or the extension grammar.
pub open spec fn grammar_for(rfc: Option<SipRFCHeader>) -> ValueGrammar {
    match rfc {
        Some(h) => h.spec_grammar(),
        None => ValueGrammar::Extension,
    }
}

/// The name of the header that `s` starts with.
pub open spec fn spec_name_of(s: Seq<u8>) -> Seq<char> {
    decode_utf8(s.subrange(0, name_result(s)->Ok_0.1))
}

/// A whole header group: where it ends, its classification, the position of
/// its first value, and the span of each occurrence.
pub open spec fn parse_result(s: Seq<u8>) -> Result<(int, Option<SipRFCHeader>, int, Seq<HeaderSpan>), SipParseError> {
    match name_result(s) {
        Err(e) => Err(e),
        Ok((k, n)) => {
            let rfc = rfc_lookup(decode_utf8(s.subrange(0, n)));
            match group_from(grammar_for(rfc), s, k) {
                Err(e) => Err(e),
                Ok((r, hs)) => Ok((r, rfc, k, hs)),
            }
        },
    }
}

/// `h` is the record for span `hs` of `s`, under the header name `name`.
pub open spec fn header_is(h: Header, s: Seq<u8>, name: Seq<char>, hs: HeaderSpan) -> bool {
    &&& h.name@ == name
    &&& h.raw_value_param@ == s.subrange(hs.start, hs.end)
    &&& value_is(h.value, s, hs.start, hs.value)
    &&& match (h.parameters, hs.params) {
        (Some(p), Some(ps)) => p@ == param_bytes(s, ps),
        (None, None) => true,
        _ => false,
    }
}

/// One occurrence of a named header.
#[derive(Debug, PartialEq)]
pub struct Header<'a> {
    /// The header name as written; compare it without ASCII case.
    pub name: &'a str,
    /// The value.
    pub value: HeaderValue<'a>,
    /// The parameters after the value, where a `;` followed it.
    pub parameters: Option<GenericParams<'a>>,
    /// The bytes of the value and its parameters as written.
    pub raw_value_param: &'a [u8],
}

impl<'a> Header<'a> {
    pub fn new(
        name: &'a str,
        value: HeaderValue<'a>,
        parameters: Option<GenericParams<'a>>,
        raw_value_param: &'a [u8],
    ) -> (r: Header<'a>)
        ensures
            r.name == name,
            r.value == value,
            r.parameters == parameters,
            r.raw_value_param == raw_value_param,
    {
        Header { name, value, parameters, raw_value_param }
    }

    /// Whether the header's name is `other`, compared without ASCII case.
    pub fn name_eq(&self, other: &str) -> (r: bool)
        ensures
            r == ascii_ci_eq(self.name@, other@),
    {
        eq_ascii(self.name, other)
    }

    /// The parameters after the value, if any.
    pub fn params(&self) -> (r: Option<&GenericParams<'a>>)
        ensures
            r == match self.parameters {
                Some(p) => Some(&p),
                None => None::<&GenericParams<'a>>,
            },
    {
        self.parameters.as_ref()
    }

    /// The registry entry for `header_name` and its grammar; the extension
    /// grammar for a name the registry does not know.
    pub fn find_parser(header_name: &'a str) -> (r: (Option<SipRFCHeader>, ValueGrammar))
        ensures
            r.0 == rfc_lookup(header_name@),
            r.1 == grammar_for(r.0),
    {
        match SipRFCHeader::from_str(header_name) {
            Some(rfc_header) => (Some(rfc_header), rfc_header.get_parser()),
            None => (None, ValueGrammar::Extension),
        }
    }

    /// Reads the header name and the colon after it; returns the input after
    /// them and the name.
    pub fn take_name(source_input: &'a [u8]) -> (r: Result<(&'a [u8], &'a str), SipParseError>)
        ensures
            match name_result(source_input@) {
                Err(e) => r matches Err(x) && x == e,
                Ok((k, n)) => r matches Ok((rest, name)) && rest@ == source_input@.subrange(k, source_input@.len() as int)
                    && name@ == decode_utf8(source_input@.subrange(0, n)),
            },
    {
        let n = take_while(source_input, 0, ByteClass::Token);
        if n == 0 {
            return Err(SipParseError::Name);
        }
        let k = match take_sep(source_input, n, 0x3Au8) {
            Some(k) => k,
            None => return Err(SipParseError::Name),
        };
        match utf8_str(span(source_input, 0, n)) {
            Some(name) => Ok((span(source_input, k, source_input.len()), name)),
            None => Err(SipParseError::Name),
        }
    }

    /// Reads one value at `at` with grammar `parser`, and the parameters after
    /// it; returns where they end. A line end at `at` is an empty value.
    pub fn take_value(
        input: &'a [u8],
        at: usize,
        parser: ValueGrammar,
    ) -> (r: Result<(usize, (HeaderValue<'a>, Option<GenericParams<'a>>)), SipParseError>)
        requires
            at <= input@.len(),
        ensures
            match value_step(parser, input@, at as int) {
                Err(e) => r matches Err(x) && x == e,
                Ok(h) => r matches Ok((end, (v, p))) && end == h.end && value_is(v, input@, at as int, h.value)
                    && match (p, h.params) {
                        (Some(p), Some(ps)) => p@ == param_bytes(input@, ps),
                        (None, None) => true,
                        _ => false,
                    },
            },
    {
        reveal(value_step);
        if is_crlf(input, at) {
            let v = HeaderValue::create_empty_value();
            proof {
                assert(input@.subrange(at as int, at as int) =~= Seq::<u8>::empty());
                assert(decode_utf8(Seq::<u8>::empty()) =~= Seq::<char>::empty());
            }
            return Ok((at, (v, None)));
        }
        let (end, value) = take_grammar_value(parser, input, at)?;
        proof {
            lemma_grammar_end(parser, input@, at as int);
        }
        let inp = take_while(input, end, ByteClass::Wsp);
        if inp >= input.len() {
            return Err(SipParseError::Terminator);
        }
        if input[inp] != 0x2Cu8 && input[inp] != 0x3Bu8 && input[inp] != 0x20u8 && !is_crlf(input, inp) {
            return Err(SipParseError::Terminator);
        }
        let (inp, params) = Header::try_take_parameters(input, inp)?;
        Ok((inp, (value, params)))
    }

    /// Reads the parameter list at `at` where a `;` stands there; nothing otherwise.
    fn try_take_parameters(input: &'a [u8], at: usize) -> (r: Result<(usize, Option<GenericParams<'a>>), SipParseError>)
        requires
            at <= input@.len(),
        ensures
            !(at < input@.len() && input@[at as int] == 0x3Bu8) ==> (r matches Ok((k, p)) && k == at && p is None),
            at < input@.len() && input@[at as int] == 0x3Bu8 ==> match params_from(input@, at as int) {
                None => r matches Err(e) && e == SipParseError::ParameterGrammar,
                Some((k, ps)) => r matches Ok((e, Some(p))) && e == k && p@ == param_bytes(input@, ps),
            },
    {
        if at >= input.len() || input[at] != 0x3Bu8 {
            return Ok((at, None));
        }
        let (inp, parameters) = GenericParams::parse(input, at)?;
        Ok((inp, Some(parameters)))
    }

    /// Reads a header group: the name, then one record per comma-separated
    /// value in the order written. Returns the input from the line end on,
    /// the registry entry of the name, and the records.
    pub fn parse(input: &'a [u8]) -> (r: Result<(&'a [u8], (Option<SipRFCHeader>, VecDeque<Header<'a>>)), SipParseError>)
        ensures
            match parse_result(input@) {
                Err(e) => r matches Err(x) && x == e,
                Ok((end, rfc, _first, hs)) => r matches Ok((rest, (c, headers)))
                    && rest@ == input@.subrange(end, input@.len() as int)
                    && c == rfc
                    && headers@.len() == hs.len()
                    && forall|j: int| 0 <= j < hs.len() ==> header_is(#[trigger] headers@[j], input@, spec_name_of(input@), hs[j]),
            },
    {
        let mut headers: VecDeque<Header<'a>> = VecDeque::new();
        let ghost s = input@;
        let ghost n = run_end(s, 0, ByteClass::Token);
        let (rest, header_name) = Header::take_name(input)?;
        let (rfc_type, value_parser) = Header::find_parser(header_name);
        proof {
            lemma_sep_end(s, n, 0x3Au8);
        }
        let ghost first = name_result(s)->Ok_0.0;
        let mut inp: usize = input.len() - rest.len();
        let ghost mut acc: Seq<HeaderSpan> = Seq::empty();
        loop
            invariant
                first <= inp <= s.len(),
                s == input@,
                header_name@ == spec_name_of(s),
                rfc_type == rfc_lookup(spec_name_of(s)),
                value_parser == grammar_for(rfc_type),
                name_result(s) matches Ok((f, _)) && f == first,
                group_from(value_parser, s, first) == prepend_group(acc, group_from(value_parser, s, inp as int)),
                headers@.len() == acc.len(),
                forall|j: int| 0 <= j < acc.len() ==> header_is(#[trigger] headers@[j], s, spec_name_of(s), acc[j]),
            decreases s.len() - inp,
        {
            let (end, (value, params)) = Header::take_value(input, inp, value_parser)?;
            let ghost h = value_step(value_parser, s, inp as int)->Ok_0;
            proof {
                lemma_value_step_bounds(value_parser, s, inp as int);
            }
            let ghost before = headers@;
            headers.push_back(Header::new(header_name, value, params, span(input, inp, end)));
            proof {
                assert forall|j: int| 0 <= j < acc.len() + 1 implies header_is(#[trigger] headers@[j], s, spec_name_of(s), (acc + seq![h])[j]) by {
                    if j < acc.len() {
                        assert(headers@[j] == before[j]);
                    }
                }
            }
            if end >= input.len() {
                return Err(SipParseError::EmptyInput);
            }
            if input[end] == 0x2Cu8 {
                let next = match take_sep(input, end, 0x2Cu8) {
                    Some(next) => next,
                    None => return Err(SipParseError::EmptyInput),
                };
                proof {
                    lemma_prepend_group_twice(acc, seq![h], group_from(value_parser, s, next as int));
                    acc = acc + seq![h];
                }
                inp = next;
            } else {
                proof {
                    acc = acc + seq![h];
                }
                return Ok((span(input, end, input.len()), (rfc_type, headers)));
            }
        }
    }
}

/// Prefixes `acc` to the occurrences of a successful read.
pub open spec fn prepend_group(acc: Seq<HeaderSpan>, o: Result<(int, Seq<HeaderSpan>), SipParseError>) -> Result<(int, Seq<HeaderSpan>), SipParseError> {
    match o {
        Ok((r, hs)) => Ok((r, acc + hs)),
        Err(e) => Err(e),
    }
}

proof fn lemma_prepend_group_twice(a: Seq<HeaderSpan>, b: Seq<HeaderSpan>, o: Result<(int, Seq<HeaderSpan>), SipParseError>)
    ensures
        prepend_group(a, prepend_group(b, o)) == prepend_group(a + b, o),
{
    if let Ok((r, hs)) = o {
        assert(a + (b + hs) =~= (a + b) + hs);
    }
}

/// An occurrence starts where it was asked to and ends within the input.
pub proof fn lemma_value_step_bounds(g: ValueGrammar, s: Seq<u8>, i: int)
    requires
        0 <= i <= s.len(),
    ensures
        value_step(g, s, i) matches Ok(h) ==> h.start == i && i <= h.value.end <= h.end <= s.len(),
{
    reveal(value_step);
    lemma_grammar_end(g, s, i);
    if let Some(m) = crate::grammar::grammar_match(g, s, i) {
        lemma_run_end_bounds(s, m.end, ByteClass::Wsp);
        let j = run_end(s, m.end, ByteClass::Wsp);
        if j < s.len() {
            lemma_params_from_bounds(s, j);
        }
    }
}

} // verus!
