//! The selector language: dot-separated segments, each a key with an
//! optional `[index]` or `[subkey=value]` filter.  Parsing is proved exact
//! against a recursive specification of the grammar.

use vstd::prelude::*;

use crate::bytes::{
    find_byte, lemma_find_props, parse_usize_digits, spec_find, spec_parse_usize, spec_split,
    spec_trim, split_bytes, sub_bytes, trim_bytes,
};
use crate::edit::{EditError, SpecEditError};

verus! {

/// A filter on a sequence node: an index, or the first item whose `key`
/// maps to `value`.
pub enum SelectorFilter {
    Index(usize),
    KeyValue { key: Vec<u8>, value: Vec<u8> },
}

/// One parsed selector segment: the mapping key to follow, an optional
/// sequence filter, and the raw (trimmed) segment text for error messages.
pub struct SelectorPart {
    pub key: Vec<u8>,
    pub filter: Option<SelectorFilter>,
    pub raw: Vec<u8>,
}

pub enum SpecSelectorFilter {
    Index(int),
    KeyValue { key: Seq<u8>, value: Seq<u8> },
}

pub struct SpecSelectorPart {
    pub key: Seq<u8>,
    pub filter: Option<SpecSelectorFilter>,
    pub raw: Seq<u8>,
}

impl View for SelectorFilter {
    type V = SpecSelectorFilter;

    open spec fn view(&self) -> SpecSelectorFilter {
        match self {
            SelectorFilter::Index(i) => SpecSelectorFilter::Index(*i as int),
            SelectorFilter::KeyValue { key, value } => SpecSelectorFilter::KeyValue {
                key: key@,
                value: value@,
            },
        }
    }
}

impl View for SelectorPart {
    type V = SpecSelectorPart;

    open spec fn view(&self) -> SpecSelectorPart {
        SpecSelectorPart {
            key: self.key@,
            filter: match self.filter {
                Some(f) => Some(f@),
                None => None,
            },
            raw: self.raw@,
        }
    }
}

impl DeepView for SelectorPart {
    type V = SpecSelectorPart;

    open spec fn deep_view(&self) -> SpecSelectorPart {
        self@
    }
}

/// Quotes stripped from a filter value: one pair of matching double or
/// single quotes around at least one byte, anything else unchanged.
pub open spec fn spec_unquote(v: Seq<u8>) -> Seq<u8> {
    if v.len() >= 2 && ((v[0] == 34 && v.last() == 34) || (v[0] == 39 && v.last() == 39)) {
        v.subrange(1, v.len() - 1)
    } else {
        v
    }
}

fn unquote(v: Vec<u8>) -> (r: Vec<u8>)
    ensures
        r@ == spec_unquote(v@),
{
    if v.len() >= 2 && ((v[0] == 34 && v[v.len() - 1] == 34) || (v[0] == 39 && v[v.len() - 1]
        == 39)) {
        sub_bytes(v.as_slice(), 1, v.len() - 1)
    } else {
        v
    }
}

/// One segment parsed: trim, split off a `[...]` filter, validate.
pub open spec fn spec_parse_part(seg: Seq<u8>) -> Result<SpecSelectorPart, SpecEditError> {
    let t = spec_trim(seg);
    if t.len() == 0 {
        Err(SpecEditError::EmptySegment)
    } else {
        let br = spec_find(t, 91);
        if br == t.len() {
            Ok(SpecSelectorPart { key: t, filter: None, raw: t })
        } else if t.last() != 93 {
            Err(SpecEditError::MissingClosingBracket { segment: t })
        } else {
            let key = spec_trim(t.take(br as int));
            if key.len() == 0 {
                Err(SpecEditError::MissingKey { segment: t })
            } else {
                let inner = t.subrange(br as int + 1, t.len() - 1);
                let eq = spec_find(inner, 61);
                if eq == inner.len() {
                    match spec_parse_usize(spec_trim(inner)) {
                        Some(i) => Ok(
                            SpecSelectorPart {
                                key,
                                filter: Some(SpecSelectorFilter::Index(i)),
                                raw: t,
                            },
                        ),
                        None => Err(SpecEditError::InvalidIndex { segment: t }),
                    }
                } else {
                    let fkey = spec_trim(inner.take(eq as int));
                    let fval = spec_unquote(spec_trim(inner.skip(eq as int + 1)));
                    if fval.len() == 0 {
                        Err(SpecEditError::EmptyFilterValue { segment: t })
                    } else if fkey.len() == 0 {
                        Err(SpecEditError::EmptyFilterKey { segment: t })
                    } else {
                        Ok(
                            SpecSelectorPart {
                                key,
                                filter: Some(
                                    SpecSelectorFilter::KeyValue { key: fkey, value: fval },
                                ),
                                raw: t,
                            },
                        )
                    }
                }
            }
        }
    }
}

pub open spec fn part_result_view(r: Result<SelectorPart, EditError>) -> Result<
    SpecSelectorPart,
    SpecEditError,
> {
    match r {
        Ok(p) => Ok(p@),
        Err(e) => Err(e@),
    }
}

/// Parse one selector segment.
pub fn parse_selector_part(seg: &[u8]) -> (r: Result<SelectorPart, EditError>)
    ensures
        part_result_view(r) == spec_parse_part(seg@),
{
    let t = trim_bytes(seg);
    if t.len() == 0 {
        return Err(EditError::EmptySegment);
    }
    let br = match find_byte(t.as_slice(), 91) {
        None => {
            let key = sub_bytes(t.as_slice(), 0, t.len());
            proof {
                assert(key@ =~= t@);
            }
            return Ok(SelectorPart { key, filter: None, raw: t });
        },
        Some(br) => br,
    };
    proof {
        lemma_find_props(t@, 91);
    }
    if t[t.len() - 1] != 93 {
        return Err(EditError::MissingClosingBracket { segment: t });
    }
    let key_raw = sub_bytes(t.as_slice(), 0, br);
    let key = trim_bytes(key_raw.as_slice());
    if key.len() == 0 {
        return Err(EditError::MissingKey { segment: t });
    }
    assert(br < t@.len() - 1) by {
        assert(t@[br as int] == 91);
        assert(t@[t@.len() - 1] == 93);
    }
    let inner = sub_bytes(t.as_slice(), br + 1, t.len() - 1);
    match find_byte(inner.as_slice(), 61) {
        None => {
            let trimmed_inner = trim_bytes(inner.as_slice());
            match parse_usize_digits(trimmed_inner.as_slice()) {
                Some(i) => Ok(
                    SelectorPart { key, filter: Some(SelectorFilter::Index(i)), raw: t },
                ),
                None => Err(EditError::InvalidIndex { segment: t }),
            }
        },
        Some(eq) => {
            let fkey_raw = sub_bytes(inner.as_slice(), 0, eq);
            let fkey = trim_bytes(fkey_raw.as_slice());
            let fval_raw = sub_bytes(inner.as_slice(), eq + 1, inner.len());
            proof {
                assert(fval_raw@ =~= inner@.skip(eq + 1));
            }
            let fval = unquote(trim_bytes(fval_raw.as_slice()));
            if fval.len() == 0 {
                Err(EditError::EmptyFilterValue { segment: t })
            } else if fkey.len() == 0 {
                Err(EditError::EmptyFilterKey { segment: t })
            } else {
                Ok(
                    SelectorPart {
                        key,
                        filter: Some(SelectorFilter::KeyValue { key: fkey, value: fval }),
                        raw: t,
                    },
                )
            }
        },
    }
}

/// A whole selector parsed front to back; the first bad segment's error
/// wins.
pub open spec fn spec_parse_parts(segs: Seq<Seq<u8>>) -> Result<
    Seq<SpecSelectorPart>,
    SpecEditError,
>
    decreases segs.len(),
{
    if segs.len() == 0 {
        Ok(Seq::<SpecSelectorPart>::empty())
    } else {
        match spec_parse_part(segs[0]) {
            Err(e) => Err(e),
            Ok(p) => match spec_parse_parts(segs.drop_first()) {
                Err(e) => Err(e),
                Ok(ps) => Ok(seq![p] + ps),
            },
        }
    }
}

/// The parse of a selector string: its dot-separated segments, each parsed.
pub open spec fn spec_parse_selector(s: Seq<u8>) -> Result<
    Seq<SpecSelectorPart>,
    SpecEditError,
> {
    spec_parse_parts(spec_split(s, 46))
}

pub open spec fn parts_result_view(r: Result<Vec<SelectorPart>, EditError>) -> Result<
    Seq<SpecSelectorPart>,
    SpecEditError,
> {
    match r {
        Ok(v) => Ok(v.deep_view()),
        Err(e) => Err(e@),
    }
}

fn parse_parts_from(segs: &Vec<Vec<u8>>, i: usize) -> (r: Result<Vec<SelectorPart>, EditError>)
    requires
        i <= segs.len(),
    ensures
        parts_result_view(r) == spec_parse_parts(segs.deep_view().skip(i as int)),
    decreases segs.len() - i,
{
    if i == segs.len() {
        proof {
            assert(segs.deep_view().skip(i as int) =~= Seq::<Seq<u8>>::empty());
        }
        let empty: Vec<SelectorPart> = Vec::new();
        proof {
            assert(empty.deep_view() =~= Seq::<SpecSelectorPart>::empty());
        }
        return Ok(empty);
    }
    proof {
        assert(segs.deep_view().skip(i as int)[0] == segs.deep_view()[i as int]);
        assert(segs.deep_view()[i as int] == segs@[i as int]@);
        assert(segs.deep_view().skip(i as int).drop_first() =~= segs.deep_view().skip(i + 1));
    }
    match parse_selector_part(segs[i].as_slice()) {
        Err(e) => Err(e),
        Ok(p) => match parse_parts_from(segs, i + 1) {
            Err(e) => Err(e),
            Ok(mut ps) => {
                let ghost tail = ps.deep_view();
                ps.insert(0, p);
                proof {
                    assert(ps.deep_view() =~= seq![p@] + tail);
                }
                Ok(ps)
            },
        },
    }
}

/// Every segment a successful parse yields has nonempty raw text: the
/// empty segment is rejected before anything else.
pub proof fn lemma_parsed_part_raw_nonempty(seg: Seq<u8>)
    ensures
        spec_parse_part(seg) matches Ok(p) ==> p.raw.len() > 0,
{
}

pub proof fn lemma_parsed_parts_raws_nonempty(segs: Seq<Seq<u8>>)
    ensures
        spec_parse_parts(segs) matches Ok(ps) ==> forall|i: int|
            0 <= i < ps.len() ==> (#[trigger] ps[i].raw).len() > 0,
    decreases segs.len(),
{
    if segs.len() > 0 {
        match spec_parse_part(segs[0]) {
            Err(_) => {},
            Ok(p) => {
                lemma_parsed_part_raw_nonempty(segs[0]);
                lemma_parsed_parts_raws_nonempty(segs.drop_first());
                match spec_parse_parts(segs.drop_first()) {
                    Err(_) => {},
                    Ok(ps) => {
                        let whole = seq![p] + ps;
                        assert forall|i: int| 0 <= i < whole.len() implies (#[trigger] whole[i].raw).len()
                            > 0 by {
                            if i > 0 {
                                assert(whole[i] == ps[i - 1]);
                            }
                        }
                    },
                }
            },
        }
    }
}

/// Parse a whole selector: split on `.`, parse each segment.
pub fn parse_selector(selector: &[u8]) -> (r: Result<Vec<SelectorPart>, EditError>)
    ensures
        parts_result_view(r) == spec_parse_selector(selector@),
{
    let segs = split_bytes(selector, 46);
    proof {
        assert(segs.deep_view().skip(0) =~= segs.deep_view());
    }
    parse_parts_from(&segs, 0)
}

} // verus!
