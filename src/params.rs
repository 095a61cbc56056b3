//! Generic parameters after a value: `*( ";" *WSP token [ "=" token ] )`.

use vstd::prelude::*;
use crate::bnf::{ByteClass, run_end, lemma_run_end_bounds, take_while};
use crate::error::SipParseError;
use crate::grammar::span;

verus! {

/// Where a parameter's name and its value, if any, lie in the input.
pub type ParamSpan = ((int, int), Option<(int, int)>);

/// The parameter that follows the `;` at `i`: where it ends, and its spans.
pub open spec fn param_at(s: Seq<u8>, i: int) -> Option<(int, ParamSpan)> {
    let n0 = run_end(s, i + 1, ByteClass::Wsp);
    let n1 = run_end(s, n0, ByteClass::Token);
    if n1 == n0 {
        None
    } else if n1 < s.len() && s[n1] == 0x3Du8 {
        let v1 = run_end(s, n1 + 1, ByteClass::Token);
        if v1 == n1 + 1 {
            None
        } else {
            Some((v1, ((n0, n1), Some((n1 + 1, v1)))))
        }
    } else {
        Some((n1, ((n0, n1), None)))
    }
}

/// Prefixes `acc` to the parameters of a successful read.
pub open spec fn prepend_params(acc: Seq<ParamSpan>, o: Option<(int, Seq<ParamSpan>)>) -> Option<(int, Seq<ParamSpan>)> {
    match o {
        Some((k, ps)) => Some((k, acc + ps)),
        None => None,
    }
}

/// The parameters from `i` on: where the list ends and the spans of each, or
/// `None` where one of them is malformed.
pub open spec fn params_from(s: Seq<u8>, i: int) -> Option<(int, Seq<ParamSpan>)>
    decreases s.len() - i,
{
    if 0 <= i < s.len() && s[i] == 0x3Bu8 {
        match param_at(s, i) {
            None => None,
            Some((e, p)) => if i < e <= s.len() {
                prepend_params(seq![p], params_from(s, e))
            } else {
                None
            },
        }
    } else {
        Some((i, Seq::empty()))
    }
}

/// The bytes of each parameter's name and value.
pub open spec fn param_bytes(s: Seq<u8>, ps: Seq<ParamSpan>) -> Seq<(Seq<u8>, Option<Seq<u8>>)> {
    ps.map_values(|p: ParamSpan| (s.subrange(p.0.0, p.0.1), match p.1 {
        Some(v) => Some(s.subrange(v.0, v.1)),
        None => None,
    }))
}

proof fn lemma_param_at(s: Seq<u8>, i: int)
    requires
        0 <= i < s.len(),
    ensures
        param_at(s, i) matches Some((e, p)) ==> {
            &&& i < p.0.0 < p.0.1 <= e <= s.len()
            &&& p.1 matches Some(v) ==> p.0.1 < v.0 < v.1 == e
        },
{
    lemma_run_end_bounds(s, i + 1, ByteClass::Wsp);
    let n0 = run_end(s, i + 1, ByteClass::Wsp);
    lemma_run_end_bounds(s, n0, ByteClass::Token);
    let n1 = run_end(s, n0, ByteClass::Token);
    if n1 < s.len() {
        lemma_run_end_bounds(s, n1 + 1, ByteClass::Token);
    }
}

/// A parameter list ends after it starts and within the input.
pub proof fn lemma_params_from_bounds(s: Seq<u8>, i: int)
    requires
        0 <= i <= s.len(),
    ensures
        params_from(s, i) matches Some((k, ps)) ==> i <= k <= s.len(),
    decreases s.len() - i,
{
    if 0 <= i < s.len() && s[i] == 0x3Bu8 {
        lemma_param_at(s, i);
        if let Some((e, p)) = param_at(s, i) {
            if i < e <= s.len() {
                lemma_params_from_bounds(s, e);
            }
        }
    }
}

proof fn lemma_prepend_twice(a: Seq<ParamSpan>, b: Seq<ParamSpan>, o: Option<(int, Seq<ParamSpan>)>)
    ensures
        prepend_params(a, prepend_params(b, o)) == prepend_params(a + b, o),
{
    if let Some((k, ps)) = o {
        assert(a + (b + ps) =~= (a + b) + ps);
    }
}

/// Each entry's name and value as bytes.
pub open spec fn entries_view(v: Seq<(&[u8], Option<&[u8]>)>) -> Seq<(Seq<u8>, Option<Seq<u8>>)> {
    v.map_values(|x: (&[u8], Option<&[u8]>)| (x.0@, match x.1 {
        Some(b) => Some(b@),
        None => None,
    }))
}

/// The parameters that follow a value, in the order written.
#[derive(Debug, PartialEq)]
pub struct GenericParams<'a> {
    pub params: Vec<(&'a [u8], Option<&'a [u8]>)>,
}

impl<'a> GenericParams<'a> {
    /// Each parameter's name and value as bytes.
    pub open spec fn view(&self) -> Seq<(Seq<u8>, Option<Seq<u8>>)> {
        entries_view(self.params@)
    }

    /// Reads the parameter list that starts at `i`; returns where it ends.
    pub fn parse(s: &'a [u8], i: usize) -> (r: Result<(usize, GenericParams<'a>), SipParseError>)
        requires
            i <= s@.len(),
        ensures
            match params_from(s@, i as int) {
                None => r matches Err(e) && e == SipParseError::ParameterGrammar,
                Some((k, ps)) => r matches Ok((e, p)) && e == k && p@ == param_bytes(s@, ps),
            },
    {
        let mut params: Vec<(&'a [u8], Option<&'a [u8]>)> = Vec::new();
        let ghost mut acc: Seq<ParamSpan> = Seq::empty();
        let mut j: usize = i;
        while j < s.len() && s[j] == 0x3Bu8
            invariant
                i <= j <= s@.len(),
                params_from(s@, i as int) == prepend_params(acc, params_from(s@, j as int)),
                entries_view(params@) == param_bytes(s@, acc),
                params@.len() == acc.len(),
            decreases s@.len() - j,
        {
            proof {
                lemma_param_at(s@, j as int);
            }
            let n0 = take_while(s, j + 1, ByteClass::Wsp);
            let n1 = take_while(s, n0, ByteClass::Token);
            if n1 == n0 {
                return Err(SipParseError::ParameterGrammar);
            }
            let mut end = n1;
            let mut value: Option<&'a [u8]> = None;
            if n1 < s.len() && s[n1] == 0x3Du8 {
                let v1 = take_while(s, n1 + 1, ByteClass::Token);
                if v1 == n1 + 1 {
                    return Err(SipParseError::ParameterGrammar);
                }
                value = Some(span(s, n1 + 1, v1));
                end = v1;
            }
            let ghost p: ParamSpan = (param_at(s@, j as int)->Some_0).1;
            let ghost before = params@;
            params.push((span(s, n0, n1), value));
            proof {
                lemma_prepend_twice(acc, seq![p], params_from(s@, end as int));
                let acc0 = acc;
                acc = acc + seq![p];
                assert forall|k: int| 0 <= k < acc.len() implies #[trigger] entries_view(params@)[k]
                    == param_bytes(s@, acc)[k] by {
                    if k < acc0.len() {
                        assert(params@[k] == before[k]);
                        assert(acc[k] == acc0[k]);
                        assert(entries_view(before)[k] == param_bytes(s@, acc0)[k]);
                    }
                }
                assert(entries_view(params@) =~= param_bytes(s@, acc));
            }
            j = end;
        }
        proof {
            assert(acc + Seq::<ParamSpan>::empty() =~= acc);
        }
        Ok((j, GenericParams { params }))
    }
}

} // verus!
