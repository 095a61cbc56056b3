//! Properties of header parsing that relate several reads or the whole input.

use vstd::prelude::*;
use crate::bnf::{ByteClass, lemma_run_end_bounds, lemma_sep_end, run_end, sep_end};
use crate::grammar::ValueGrammar;
use crate::header::{Header, HeaderSpan, grammar_for, group_from, header_is, lemma_value_step_bounds, parse_result, spec_name_of, value_step};
use crate::rfc::{ascii_ci_eq, lemma_lookup_ignores_case};
use crate::value::{HeaderTagType, HeaderValueType};

verus! {

/// The occurrences `hs` cover the input from `first` to `end` without gap or
/// overlap: each raw span starts where the previous comma and its whitespace
/// end, the first starts at `first` and the last ends at `end`.
pub open spec fn spans_tile(s: Seq<u8>, first: int, end: int, hs: Seq<HeaderSpan>) -> bool {
    &&& hs.len() >= 1
    &&& hs[0].start == first
    &&& hs[hs.len() - 1].end == end
    &&& forall|j: int| 0 <= j < hs.len() ==> (#[trigger] hs[j]).start <= hs[j].end
    &&& forall|j: int|
        #![trigger hs[j], hs[j + 1]]
        0 <= j < hs.len() - 1 ==> s[hs[j].end] == 0x2Cu8 && sep_end(s, hs[j].end, 0x2Cu8) == Some(
            hs[j + 1].start,
        )
}

proof fn lemma_group_tiles(g: ValueGrammar, s: Seq<u8>, i: int)
    requires
        0 <= i <= s.len(),
    ensures
        group_from(g, s, i) matches Ok((r, hs)) ==> spans_tile(s, i, r, hs) && r < s.len(),
    decreases s.len() - i,
{
    lemma_value_step_bounds(g, s, i);
    if let Ok(h) = value_step(g, s, i) {
        if h.end < s.len() && s[h.end] == 0x2Cu8 {
            if let Some(k) = sep_end(s, h.end, 0x2Cu8) {
                if i < k <= s.len() {
                    lemma_group_tiles(g, s, k);
                    if let Ok((r, hs)) = group_from(g, s, k) {
                        let all = seq![h] + hs;
                        assert forall|j: int|
                            #![trigger all[j], all[j + 1]]
                            0 <= j < all.len() - 1 implies s[all[j].end] == 0x2Cu8 && sep_end(
                                s,
                                all[j].end,
                                0x2Cu8,
                            ) == Some(all[j + 1].start) by {
                            if j == 0 {
                                assert(all[0] == h);
                                assert(all[1] == hs[0]);
                            } else {
                                let p = j - 1;
                                assert(all[j] == hs[p]);
                                assert(all[j + 1] == hs[p + 1]);
                            }
                        }
                        assert(forall|j: int| 0 < j < all.len() ==> all[j] == hs[j - 1]);
                    }
                }
            }
        }
    }
}

/// Byte accounting: the raw spans of a parsed header group and the comma
/// separators between them make up exactly the input from the first value to
/// the end of the group, which stops before the input runs out.
pub proof fn lemma_parse_accounts_for_every_byte(s: Seq<u8>)
    requires
        parse_result(s) is Ok,
    ensures
        parse_result(s) matches Ok((end, _rfc, first, hs)) && spans_tile(s, first, end, hs) && end < s.len(),
{
    if let Ok((end, rfc, first, hs)) = parse_result(s) {
        lemma_sep_end(s, run_end(s, 0, ByteClass::Token), 0x3Au8);
        lemma_run_end_bounds(s, 0, ByteClass::Token);
        lemma_group_tiles(grammar_for(rfc), s, first);
    }
}

/// Spellings of a header name that agree without ASCII case get the same
/// registry classification.
pub proof fn lemma_classification_ignores_case(a: Seq<u8>, b: Seq<u8>)
    requires
        parse_result(a) is Ok,
        parse_result(b) is Ok,
        ascii_ci_eq(spec_name_of(a), spec_name_of(b)),
    ensures
        parse_result(a)->Ok_0.1 == parse_result(b)->Ok_0.1,
{
    lemma_lookup_ignores_case(spec_name_of(a), spec_name_of(b));
}

/// What a record holds: name, value text, shape, tags, parameters and raw span.
pub open spec fn header_view(h: Header) -> (Seq<char>, Seq<char>, HeaderValueType, Option<Seq<(HeaderTagType, Seq<u8>)>>, Option<Seq<(Seq<u8>, Option<Seq<u8>>)>>, Seq<u8>) {
    (h.name@, h.value.vstr@, h.value.vtype, h.value.tags_view(), match h.parameters {
        Some(p) => Some(p@),
        None => None,
    }, h.raw_value_param@)
}

/// Parsing the same bytes twice gives records with equal contents: each record
/// is determined by the input.
pub proof fn lemma_parse_is_deterministic(s: Seq<u8>, a: Seq<Header>, b: Seq<Header>)
    requires
        parse_result(s) is Ok,
        a.len() == parse_result(s)->Ok_0.3.len(),
        b.len() == parse_result(s)->Ok_0.3.len(),
        forall|j: int| 0 <= j < a.len() ==> header_is(#[trigger] a[j], s, spec_name_of(s), parse_result(s)->Ok_0.3[j]),
        forall|j: int| 0 <= j < b.len() ==> header_is(#[trigger] b[j], s, spec_name_of(s), parse_result(s)->Ok_0.3[j]),
    ensures
        forall|j: int| 0 <= j < a.len() ==> header_view(#[trigger] a[j]) == header_view(b[j]),
{
    assert forall|j: int| 0 <= j < a.len() implies header_view(#[trigger] a[j]) == header_view(b[j]) by {
        assert(header_is(a[j], s, spec_name_of(s), parse_result(s)->Ok_0.3[j]));
        assert(header_is(b[j], s, spec_name_of(s), parse_result(s)->Ok_0.3[j]));
    }
}

} // verus!
