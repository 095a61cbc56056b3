//! The registry of known headers: canonical names, compared without ASCII case,
//! and the value grammar of each.

use vstd::prelude::*;
use crate::grammar::ValueGrammar;

verus! {

/// A header that the registry knows.
#[derive(Clone, Copy, Debug, PartialEq, Eq, Structural)]
pub enum SipRFCHeader {
    Allow,
    CallID,
    ContentEncoding,
    ContentLength,
    Expires,
    MaxForwards,
    MinExpires,
    ProxyRequire,
    Require,
    Supported,
    Unsupported,
    Via,
}

/// The number of entries in the registry.
pub const REGISTRY_LEN: usize = 12;

/// The registry's entries, in lookup order.
pub open spec fn registry_entry(i: int) -> SipRFCHeader {
    if i == 0 {
        SipRFCHeader::Allow
    } else if i == 1 {
        SipRFCHeader::CallID
    } else if i == 2 {
        SipRFCHeader::ContentEncoding
    } else if i == 3 {
        SipRFCHeader::ContentLength
    } else if i == 4 {
        SipRFCHeader::Expires
    } else if i == 5 {
        SipRFCHeader::MaxForwards
    } else if i == 6 {
        SipRFCHeader::MinExpires
    } else if i == 7 {
        SipRFCHeader::ProxyRequire
    } else if i == 8 {
        SipRFCHeader::Require
    } else if i == 9 {
        SipRFCHeader::Supported
    } else if i == 10 {
        SipRFCHeader::Unsupported
    } else {
        SipRFCHeader::Via
    }
}

/// The code of `c` with ASCII upper-case letters mapped to lower case.
pub open spec fn ascii_lower_code(c: char) -> u32 {
    if 0x41 <= c as u32 <= 0x5A {
        (c as u32 + 32) as u32
    } else {
        c as u32
    }
}

/// Equality of two strings with ASCII letters compared without case.
pub open spec fn ascii_ci_eq(a: Seq<char>, b: Seq<char>) -> bool {
    a.len() == b.len() && forall|i: int|
        0 <= i < a.len() ==> ascii_lower_code(#[trigger] a[i]) == ascii_lower_code(b[i])
}

/// Relies on `unicase::eq_ascii`: equality of the two strings with ASCII letters
/// compared without case (`str::eq_ignore_ascii_case`).
#[verifier::external_body]
pub(crate) fn eq_ascii(a: &str, b: &str) -> (r: bool)
    ensures
        r == ascii_ci_eq(a@, b@),
{
    unicase::eq_ascii(a, b)
}

/// The first registry entry from `i` on whose name equals `name` without case.
pub open spec fn lookup_from(name: Seq<char>, i: int) -> Option<SipRFCHeader>
    decreases REGISTRY_LEN - i,
{
    if 0 <= i < REGISTRY_LEN {
        if ascii_ci_eq(name, registry_entry(i).spec_name()) {
            Some(registry_entry(i))
        } else {
            lookup_from(name, i + 1)
        }
    } else {
        None
    }
}

/// The known header whose canonical name equals `name` without ASCII case.
pub open spec fn rfc_lookup(name: Seq<char>) -> Option<SipRFCHeader> {
    lookup_from(name, 0)
}

fn registry_entry_at(i: usize) -> (r: SipRFCHeader)
    ensures
        r == registry_entry(i as int),
{
    if i == 0 {
        SipRFCHeader::Allow
    } else if i == 1 {
        SipRFCHeader::CallID
    } else if i == 2 {
        SipRFCHeader::ContentEncoding
    } else if i == 3 {
        SipRFCHeader::ContentLength
    } else if i == 4 {
        SipRFCHeader::Expires
    } else if i == 5 {
        SipRFCHeader::MaxForwards
    } else if i == 6 {
        SipRFCHeader::MinExpires
    } else if i == 7 {
        SipRFCHeader::ProxyRequire
    } else if i == 8 {
        SipRFCHeader::Require
    } else if i == 9 {
        SipRFCHeader::Supported
    } else if i == 10 {
        SipRFCHeader::Unsupported
    } else {
        SipRFCHeader::Via
    }
}

impl SipRFCHeader {
    pub open spec fn spec_name(self) -> Seq<char> {
        match self {
            SipRFCHeader::Allow => "Allow"@,
            SipRFCHeader::CallID => "Call-ID"@,
            SipRFCHeader::ContentEncoding => "Content-Encoding"@,
            SipRFCHeader::ContentLength => "Content-Length"@,
            SipRFCHeader::Expires => "Expires"@,
            SipRFCHeader::MaxForwards => "Max-Forwards"@,
            SipRFCHeader::MinExpires => "Min-Expires"@,
            SipRFCHeader::ProxyRequire => "Proxy-Require"@,
            SipRFCHeader::Require => "Require"@,
            SipRFCHeader::Supported => "Supported"@,
            SipRFCHeader::Unsupported => "Unsupported"@,
            SipRFCHeader::Via => "Via"@,
        }
    }

    /// The canonical spelling of the header's name.
    pub fn name(&self) -> (r: &'static str)
        ensures
            r@ == self.spec_name(),
    {
        match self {
            SipRFCHeader::Allow => "Allow",
            SipRFCHeader::CallID => "Call-ID",
            SipRFCHeader::ContentEncoding => "Content-Encoding",
            SipRFCHeader::ContentLength => "Content-Length",
            SipRFCHeader::Expires => "Expires",
            SipRFCHeader::MaxForwards => "Max-Forwards",
            SipRFCHeader::MinExpires => "Min-Expires",
            SipRFCHeader::ProxyRequire => "Proxy-Require",
            SipRFCHeader::Require => "Require",
            SipRFCHeader::Supported => "Supported",
            SipRFCHeader::Unsupported => "Unsupported",
            SipRFCHeader::Via => "Via",
        }
    }

    pub open spec fn spec_grammar(self) -> ValueGrammar {
        match self {
            SipRFCHeader::CallID => ValueGrammar::CallID,
            SipRFCHeader::ContentLength | SipRFCHeader::Expires | SipRFCHeader::MaxForwards
            | SipRFCHeader::MinExpires => ValueGrammar::Digit,
            SipRFCHeader::Via => ValueGrammar::Via,
            _ => ValueGrammar::Token,
        }
    }

    /// The grammar that reads this header's value.
    pub fn get_parser(&self) -> (r: ValueGrammar)
        ensures
            r == self.spec_grammar(),
    {
        match self {
            SipRFCHeader::CallID => ValueGrammar::CallID,
            SipRFCHeader::ContentLength | SipRFCHeader::Expires | SipRFCHeader::MaxForwards
            | SipRFCHeader::MinExpires => ValueGrammar::Digit,
            SipRFCHeader::Via => ValueGrammar::Via,
            _ => ValueGrammar::Token,
        }
    }

    /// The known header named `name`, compared without ASCII case.
    pub fn from_str(name: &str) -> (r: Option<SipRFCHeader>)
        ensures
            r == rfc_lookup(name@),
    {
        let mut i: usize = 0;
        while i < REGISTRY_LEN
            invariant
                i <= REGISTRY_LEN,
                lookup_from(name@, 0) == lookup_from(name@, i as int),
            decreases REGISTRY_LEN - i,
        {
            let h = registry_entry_at(i);
            if eq_ascii(name, h.name()) {
                return Some(h);
            }
            i = i + 1;
        }
        None
    }
}

/// Spellings that agree without ASCII case name the same known header, or none.
pub proof fn lemma_lookup_ignores_case(a: Seq<char>, b: Seq<char>)
    requires
        ascii_ci_eq(a, b),
    ensures
        rfc_lookup(a) == rfc_lookup(b),
{
    lemma_lookup_from_ignores_case(a, b, 0);
}

proof fn lemma_lookup_from_ignores_case(a: Seq<char>, b: Seq<char>, i: int)
    requires
        ascii_ci_eq(a, b),
    ensures
        lookup_from(a, i) == lookup_from(b, i),
    decreases REGISTRY_LEN - i,
{
    if 0 <= i < REGISTRY_LEN {
        let c = registry_entry(i).spec_name();
        assert(ascii_ci_eq(a, c) == ascii_ci_eq(b, c)) by {
            if ascii_ci_eq(a, c) {
                assert forall|k: int| 0 <= k < b.len() implies ascii_lower_code(#[trigger] b[k])
                    == ascii_lower_code(c[k]) by {
                    assert(ascii_lower_code(a[k]) == ascii_lower_code(b[k]));
                }
            }
            if ascii_ci_eq(b, c) {
                assert forall|k: int| 0 <= k < a.len() implies ascii_lower_code(#[trigger] a[k])
                    == ascii_lower_code(c[k]) by {
                    assert(ascii_lower_code(b[k]) == ascii_lower_code(c[k]));
                }
            }
        }
        lemma_lookup_from_ignores_case(a, b, i + 1);
    }
}

} // verus!
