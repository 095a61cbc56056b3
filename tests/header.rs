use sipmsg::error::SipParseError;
use sipmsg::grammar::ValueGrammar;
use sipmsg::header::Header;
use sipmsg::params::GenericParams;
use sipmsg::rfc::SipRFCHeader;
use sipmsg::value::{HeaderTagType, HeaderValue, HeaderValueType};

#[test]
fn single_value_round_trip() {
    let input = b"Content-Length: 42\r\n";
    let (rest, (rfc, headers)) = Header::parse(input).unwrap();
    assert_eq!(rest, b"\r\n");
    assert_eq!(rfc, Some(SipRFCHeader::ContentLength));
    assert_eq!(headers.len(), 1);
    let h = &headers[0];
    assert!(h.name_eq("content-length"));
    assert_eq!(h.name, "Content-Length");
    assert_eq!(h.value.vtype, HeaderValueType::Digit);
    assert_eq!(h.value.vstr, "42");
    assert_eq!(h.raw_value_param, b"42");
    assert!(h.params().is_none());
    assert!(h.value.tags().is_none());
    assert!(h.value.sip_uri().is_none());
}

#[test]
fn name_case_does_not_change_classification() {
    let spellings: [&[u8]; 3] = [
        b"Via: SIP/2.0/UDP host1\r\n",
        b"VIA: SIP/2.0/UDP host1\r\n",
        b"via: SIP/2.0/UDP host1\r\n",
    ];
    let mut names = Vec::new();
    for input in spellings {
        let (_, (rfc, headers)) = Header::parse(input).unwrap();
        assert_eq!(rfc, Some(SipRFCHeader::Via));
        names.push(headers[0].name);
    }
    let (_, (_, first)) = Header::parse(spellings[0]).unwrap();
    for n in names {
        assert!(first[0].name_eq(n));
    }
    assert!(!first[0].name_eq("Vias"));
}

#[test]
fn comma_repetition_keeps_order_and_count() {
    let input = b"Via: SIP/2.0/UDP host1;branch=1, SIP/2.0/UDP host2;branch=2\r\n";
    let (rest, (rfc, headers)) = Header::parse(input).unwrap();
    assert_eq!(rest, b"\r\n");
    assert_eq!(rfc, Some(SipRFCHeader::Via));
    assert_eq!(headers.len(), 2);
    let expected = [("host1", "1"), ("host2", "2")];
    for (h, (host, branch)) in headers.iter().zip(expected.iter()) {
        assert_eq!(h.name, "Via");
        assert_eq!(h.value.vtype, HeaderValueType::Via);
        let tags = h.value.tags().unwrap();
        assert_eq!(tags.get(HeaderTagType::Host), Some(host.as_bytes()));
        assert_eq!(tags.get(HeaderTagType::ProtocolName), Some(&b"SIP"[..]));
        assert_eq!(tags.get(HeaderTagType::ProtocolVersion), Some(&b"2.0"[..]));
        assert_eq!(tags.get(HeaderTagType::ProtocolTransport), Some(&b"UDP"[..]));
        assert_eq!(tags.get(HeaderTagType::Port), None);
        let params = h.params().unwrap();
        assert_eq!(params.params.len(), 1);
        assert_eq!(params.params[0].0, b"branch");
        assert_eq!(params.params[0].1, Some(branch.as_bytes()));
    }
    assert_eq!(headers[0].raw_value_param, b"SIP/2.0/UDP host1;branch=1");
    assert_eq!(headers[1].raw_value_param, b"SIP/2.0/UDP host2;branch=2");
    assert_eq!(headers[0].value.vstr, "SIP/2.0/UDP host1");
}

#[test]
fn empty_value_shortcut() {
    let (rest, (rfc, headers)) = Header::parse(b"Foo:\r\n").unwrap();
    assert_eq!(rest, b"\r\n");
    assert_eq!(rfc, None);
    assert_eq!(headers.len(), 1);
    assert_eq!(headers[0].value.vtype, HeaderValueType::EmptyValue);
    assert_eq!(headers[0].value.vstr, "");
    assert!(headers[0].params().is_none());
    assert_eq!(headers[0].raw_value_param, b"");
}

#[test]
fn empty_value_after_whitespace() {
    let (rest, (_, headers)) = Header::parse(b"Subject:  \r\n").unwrap();
    assert_eq!(rest, b"\r\n");
    assert_eq!(headers[0].value.vtype, HeaderValueType::EmptyValue);
}

#[test]
fn unknown_header_uses_extension_shape() {
    let (rest, (rfc, headers)) = Header::parse(b"X-Custom: anything-goes\r\n").unwrap();
    assert_eq!(rest, b"\r\n");
    assert_eq!(rfc, None);
    assert_eq!(headers.len(), 1);
    assert_eq!(headers[0].value.vtype, HeaderValueType::ExtensionHeader);
    assert_eq!(headers[0].value.vstr, "anything-goes");
    assert_eq!(headers[0].name, "X-Custom");
}

#[test]
fn disallowed_byte_after_value_is_rejected() {
    assert_eq!(Header::parse(b"Foo: bar#\r\n").unwrap_err(), SipParseError::Terminator);
}

#[test]
fn input_ending_after_value_is_rejected() {
    assert_eq!(Header::parse(b"Foo: bar").unwrap_err(), SipParseError::Terminator);
    assert_eq!(Header::parse(b"Foo: bar   ").unwrap_err(), SipParseError::Terminator);
}

#[test]
fn input_ending_after_parameters_is_rejected() {
    assert_eq!(Header::parse(b"Foo: bar;a=b").unwrap_err(), SipParseError::EmptyInput);
}

#[test]
fn bad_names_are_rejected() {
    assert_eq!(Header::parse(b": bar\r\n").unwrap_err(), SipParseError::Name);
    assert_eq!(Header::parse(b"Foo bar\r\n").unwrap_err(), SipParseError::Name);
    assert_eq!(Header::parse(b"").unwrap_err(), SipParseError::Name);
}

#[test]
fn value_grammar_failure_is_reported() {
    assert_eq!(Header::parse(b"Content-Length: abc\r\n").unwrap_err(), SipParseError::ValueGrammar);
    assert_eq!(Header::parse(b"Via: SIP/2.0 host\r\n").unwrap_err(), SipParseError::ValueGrammar);
}

#[test]
fn malformed_parameters_are_rejected() {
    assert_eq!(Header::parse(b"Foo: bar;=x\r\n").unwrap_err(), SipParseError::ParameterGrammar);
    assert_eq!(Header::parse(b"Foo: bar;a=\r\n").unwrap_err(), SipParseError::ParameterGrammar);
}

#[test]
fn one_bad_occurrence_fails_the_group() {
    assert_eq!(Header::parse(b"Max-Forwards: 70, x\r\n").unwrap_err(), SipParseError::ValueGrammar);
}

#[test]
fn invalid_utf8_value_is_a_decode_error() {
    let bytes: &[u8] = &[0x66, 0xff, 0x6f];
    assert_eq!(
        HeaderValue::new(bytes, HeaderValueType::Utf8Text, None, None).unwrap_err(),
        SipParseError::Decode
    );
    let ok = HeaderValue::new(b"caf\xc3\xa9", HeaderValueType::Utf8Text, None, None).unwrap();
    assert_eq!(ok.vstr, "caf\u{e9}");
}

#[test]
fn raw_spans_and_separators_account_for_every_byte() {
    let input = b"Allow: INVITE , ACK,BYE ;x=1\r\n";
    let (rest, (rfc, headers)) = Header::parse(input).unwrap();
    assert_eq!(rfc, Some(SipRFCHeader::Allow));
    assert_eq!(headers.len(), 3);
    let raws: Vec<&[u8]> = headers.iter().map(|h| h.raw_value_param).collect();
    assert_eq!(raws, vec![&b"INVITE "[..], &b"ACK"[..], &b"BYE ;x=1"[..]]);
    let first = b"Allow: ".len();
    let separators = b", ".len() + b",".len();
    let spans: usize = raws.iter().map(|r| r.len()).sum();
    assert_eq!(first + spans + separators + rest.len(), input.len());
    assert_eq!(rest, b"\r\n");
}

#[test]
fn parsing_twice_gives_equal_records() {
    let input = b"Via: SIP/2.0/TCP a.example.com:5060;branch=z9;rport, SIP/2.0/UDP b\r\n";
    let first = Header::parse(input).unwrap();
    let second = Header::parse(input).unwrap();
    assert_eq!(first, second);
    assert_eq!(first.1 .1.len(), 2);
}

#[test]
fn via_port_and_flag_parameter() {
    let input = b"Via: SIP/2.0/TCP a.example.com:5060;branch=z9;rport\r\n";
    let (_, (_, headers)) = Header::parse(input).unwrap();
    let tags = headers[0].value.tags().unwrap();
    assert_eq!(tags.get(HeaderTagType::Host), Some(&b"a.example.com"[..]));
    assert_eq!(tags.get(HeaderTagType::Port), Some(&b"5060"[..]));
    let keys: Vec<HeaderTagType> = tags.entries.iter().map(|e| e.0).collect();
    let mut sorted = keys.clone();
    sorted.sort();
    assert_eq!(keys, sorted);
    let params = headers[0].params().unwrap();
    assert_eq!(params.params[1], (&b"rport"[..], None));
}

#[test]
fn call_id_tags() {
    let (_, (rfc, headers)) = Header::parse(b"call-id: f81d4@host.example\r\n").unwrap();
    assert_eq!(rfc, Some(SipRFCHeader::CallID));
    let tags = headers[0].value.tags().unwrap();
    assert_eq!(headers[0].value.vtype, HeaderValueType::CallID);
    assert_eq!(tags.get(HeaderTagType::ID), Some(&b"f81d4"[..]));
    assert_eq!(tags.get(HeaderTagType::Host), Some(&b"host.example"[..]));
    let (_, (_, plain)) = Header::parse(b"Call-ID: abc\r\n").unwrap();
    assert_eq!(plain[0].value.tags().unwrap().get(HeaderTagType::Host), None);
}

#[test]
fn find_parser_dispatch() {
    assert_eq!(Header::find_parser("MAX-FORWARDS"), (Some(SipRFCHeader::MaxForwards), ValueGrammar::Digit));
    assert_eq!(Header::find_parser("Supported"), (Some(SipRFCHeader::Supported), ValueGrammar::Token));
    assert_eq!(Header::find_parser("X-Other"), (None, ValueGrammar::Extension));
    assert_eq!(SipRFCHeader::Via.name(), "Via");
}

#[test]
fn take_name_returns_rest() {
    let (rest, name) = Header::take_name(b"To :  <sip:a@b>").unwrap();
    assert_eq!(name, "To");
    assert_eq!(rest, b"<sip:a@b>");
}

#[test]
fn take_value_stops_at_comma() {
    let input = b"70 , 5";
    let (end, (value, params)) = Header::take_value(input, 0, ValueGrammar::Digit).unwrap();
    assert_eq!(end, 3);
    assert_eq!(value.vstr, "70");
    assert!(params.is_none());
}

#[test]
fn generic_params_parse() {
    let input = b";a=1; b;c=x.y,";
    let (end, params) = GenericParams::parse(input, 0).unwrap();
    assert_eq!(end, input.len() - 1);
    assert_eq!(params.params.len(), 3);
    assert_eq!(params.params[1], (&b"b"[..], None));
    assert_eq!(params.params[2], (&b"c"[..], Some(&b"x.y"[..])));
}

#[test]
fn create_empty_value_is_empty() {
    let v = HeaderValue::create_empty_value();
    assert_eq!(v.vstr, "");
    assert_eq!(v.vtype, HeaderValueType::EmptyValue);
    assert!(v.tags().is_none());
    assert!(v.sip_uri().is_none());
}
