//! The position-tracked document tree that the YAML editor works on: an
//! arena of nodes addressed by 1-based ids, each carrying its byte span and
//! line in the source text.  Selector traversal, scalar query and splice
//! edit are all proved exact against recursive specifications; the laws at
//! the end relate query and edit.

use vstd::prelude::*;

use crate::bytes::{append_bytes, bytes_eq, spec_join, sub_bytes};
use crate::edit::{EditError, SpecEditError};
use crate::selector::{SelectorFilter, SelectorPart, SpecSelectorFilter, SpecSelectorPart};

verus! {

/// The quoting style of a scalar, as the parser saw it.
#[derive(Debug, Clone, Copy, PartialEq, Eq, Structural)]
pub enum ScalarKind {
    Plain,
    SingleQuoted,
    DoubleQuoted,
    Other,
}

/// A node's payload: scalar bytes, sequence item ids, or mapping pairs of
/// (key id, value id).  Ids are 1-based; 0 is never a node.
pub enum YamlData {
    Scalar { value: Vec<u8>, kind: ScalarKind },
    Sequence { items: Vec<usize> },
    Mapping { pairs: Vec<(usize, usize)> },
    Empty,
}

/// A node with its byte span `[start, end)` and 0-based source line.
pub struct YamlNode {
    pub data: YamlData,
    pub start: usize,
    pub end: usize,
    pub line: usize,
}

/// A parsed document: node 1 is the root.
pub struct YamlDoc {
    pub nodes: Vec<YamlNode>,
}

pub enum SpecYamlData {
    Scalar { value: Seq<u8>, kind: ScalarKind },
    Sequence { items: Seq<usize> },
    Mapping { pairs: Seq<(usize, usize)> },
    Empty,
}

pub struct SpecYamlNode {
    pub data: SpecYamlData,
    pub start: usize,
    pub end: usize,
    pub line: usize,
}

impl View for YamlData {
    type V = SpecYamlData;

    open spec fn view(&self) -> SpecYamlData {
        match self {
            YamlData::Scalar { value, kind } => SpecYamlData::Scalar {
                value: value@,
                kind: *kind,
            },
            YamlData::Sequence { items } => SpecYamlData::Sequence { items: items@ },
            YamlData::Mapping { pairs } => SpecYamlData::Mapping { pairs: pairs@ },
            YamlData::Empty => SpecYamlData::Empty,
        }
    }
}

impl View for YamlNode {
    type V = SpecYamlNode;

    open spec fn view(&self) -> SpecYamlNode {
        SpecYamlNode { data: self.data@, start: self.start, end: self.end, line: self.line }
    }
}

impl View for YamlDoc {
    type V = Seq<SpecYamlNode>;

    open spec fn view(&self) -> Seq<SpecYamlNode> {
        Seq::new(self.nodes@.len(), |i: int| self.nodes@[i]@)
    }
}

/// Every node's byte span lies within the text, on character boundaries:
/// what the parser's position marks guarantee for a document it produced
/// from that text.
pub open spec fn spans_well_formed(doc: Seq<SpecYamlNode>, text: Seq<u8>) -> bool {
    forall|i: int|
        0 <= i < doc.len() ==> (#[trigger] doc[i]).start <= doc[i].end <= text.len()
            && vstd::utf8::is_char_boundary(text, doc[i].start as int)
            && vstd::utf8::is_char_boundary(text, doc[i].end as int)
}

/// Ids are 1-based.
pub open spec fn valid_id(doc: Seq<SpecYamlNode>, id: usize) -> bool {
    1 <= id <= doc.len()
}

pub open spec fn doc_node(doc: Seq<SpecYamlNode>, id: usize) -> SpecYamlNode {
    doc[id - 1]
}

/// The node with the given 1-based id, if the id is in range.
pub fn get_node(doc: &YamlDoc, id: usize) -> (r: Option<&YamlNode>)
    ensures
        match r {
            Some(n) => valid_id(doc@, id) && n@ == doc_node(doc@, id),
            None => !valid_id(doc@, id),
        },
{
    if 1 <= id && id <= doc.nodes.len() {
        Some(&doc.nodes[id - 1])
    } else {
        None
    }
}

// ---------------------------------------------------------------------------
// Traversal
// ---------------------------------------------------------------------------

/// Whether a mapping pair's key node is a scalar equal to `key`.
pub open spec fn pair_key_matches(
    doc: Seq<SpecYamlNode>,
    p: (usize, usize),
    key: Seq<u8>,
) -> bool {
    valid_id(doc, p.0) && match doc_node(doc, p.0).data {
        SpecYamlData::Scalar { value, .. } => value == key,
        _ => false,
    }
}

/// The first pair whose key scalar equals `key`.
pub open spec fn spec_find_pair(
    doc: Seq<SpecYamlNode>,
    pairs: Seq<(usize, usize)>,
    key: Seq<u8>,
) -> Option<(usize, usize)>
    decreases pairs.len(),
{
    if pairs.len() == 0 {
        None
    } else if pair_key_matches(doc, pairs[0], key) {
        Some(pairs[0])
    } else {
        spec_find_pair(doc, pairs.drop_first(), key)
    }
}

fn find_pair_from(doc: &YamlDoc, pairs: &Vec<(usize, usize)>, j: usize, key: &[u8]) -> (r:
    Option<(usize, usize)>)
    requires
        j <= pairs.len(),
    ensures
        r == spec_find_pair(doc@, pairs@.skip(j as int), key@),
    decreases pairs.len() - j,
{
    if j == pairs.len() {
        proof {
            assert(pairs@.skip(j as int) =~= Seq::<(usize, usize)>::empty());
        }
        return None;
    }
    proof {
        assert(pairs@.skip(j as int)[0] == pairs@[j as int]);
        assert(pairs@.skip(j as int).drop_first() =~= pairs@.skip(j as int + 1));
    }
    let (k, v) = pairs[j];
    let hit = match get_node(doc, k) {
        Some(n) => match &n.data {
            YamlData::Scalar { value, .. } => bytes_eq(value.as_slice(), key),
            _ => false,
        },
        None => false,
    };
    if hit {
        Some((k, v))
    } else {
        find_pair_from(doc, pairs, j + 1, key)
    }
}

/// Whether a sequence item is a mapping whose `key` maps to the scalar
/// `value`.
pub open spec fn kv_item_matches(
    doc: Seq<SpecYamlNode>,
    id: usize,
    key: Seq<u8>,
    value: Seq<u8>,
) -> bool {
    valid_id(doc, id) && match doc_node(doc, id).data {
        SpecYamlData::Mapping { pairs } => match spec_find_pair(doc, pairs, key) {
            Some(p) => valid_id(doc, p.1) && match doc_node(doc, p.1).data {
                SpecYamlData::Scalar { value: sv, .. } => sv == value,
                _ => false,
            },
            None => false,
        },
        _ => false,
    }
}

/// The first sequence item matching a `key=value` filter.
pub open spec fn spec_find_kv(
    doc: Seq<SpecYamlNode>,
    items: Seq<usize>,
    key: Seq<u8>,
    value: Seq<u8>,
) -> Option<usize>
    decreases items.len(),
{
    if items.len() == 0 {
        None
    } else if kv_item_matches(doc, items[0], key, value) {
        Some(items[0])
    } else {
        spec_find_kv(doc, items.drop_first(), key, value)
    }
}

fn find_kv_from(doc: &YamlDoc, items: &Vec<usize>, j: usize, key: &[u8], value: &[u8]) -> (r:
    Option<usize>)
    requires
        j <= items.len(),
    ensures
        r == spec_find_kv(doc@, items@.skip(j as int), key@, value@),
    decreases items.len() - j,
{
    if j == items.len() {
        proof {
            assert(items@.skip(j as int) =~= Seq::<usize>::empty());
        }
        return None;
    }
    proof {
        assert(items@.skip(j as int)[0] == items@[j as int]);
        assert(items@.skip(j as int).drop_first() =~= items@.skip(j as int + 1));
    }
    let id = items[j];
    let hit = match get_node(doc, id) {
        Some(n) => match &n.data {
            YamlData::Mapping { pairs } => match find_pair_from(doc, pairs, 0, key) {
                Some((_, vid)) => {
                    proof {
                        assert(pairs@.skip(0) =~= pairs@);
                    }
                    match get_node(doc, vid) {
                        Some(vn) => match &vn.data {
                            YamlData::Scalar { value: sv, .. } => bytes_eq(
                                sv.as_slice(),
                                value,
                            ),
                            _ => false,
                        },
                        None => false,
                    }
                },
                None => {
                    proof {
                        assert(pairs@.skip(0) =~= pairs@);
                    }
                    false
                },
            },
            _ => false,
        },
        None => false,
    };
    if hit {
        Some(id)
    } else {
        find_kv_from(doc, items, j + 1, key, value)
    }
}

/// The sequence item a filter picks: the id at an in-range index, or the
/// first item matching `key=value`; `None` (an error to the caller) when the
/// index is out of range, its id is dangling, or no item matches.
pub open spec fn spec_apply_filter(
    doc: Seq<SpecYamlNode>,
    items: Seq<usize>,
    f: SpecSelectorFilter,
) -> Option<usize> {
    match f {
        SpecSelectorFilter::Index(i) => {
            if 0 <= i < items.len() && valid_id(doc, items[i]) {
                Some(items[i])
            } else {
                None
            }
        },
        SpecSelectorFilter::KeyValue { key, value } => spec_find_kv(doc, items, key, value),
    }
}

fn apply_filter(doc: &YamlDoc, items: &Vec<usize>, f: &SelectorFilter) -> (r: Option<usize>)
    ensures
        r == spec_apply_filter(doc@, items@, f@),
{
    match f {
        SelectorFilter::Index(i) => {
            if *i < items.len() {
                let id = items[*i];
                if 1 <= id && id <= doc.nodes.len() {
                    Some(id)
                } else {
                    None
                }
            } else {
                None
            }
        },
        SelectorFilter::KeyValue { key, value } => {
            proof {
                assert(items@.skip(0) =~= items@);
            }
            find_kv_from(doc, items, 0, key.as_slice(), value.as_slice())
        },
    }
}

/// The dotted prefix after one more segment: errors name exactly the
/// segments processed so far.
pub open spec fn spec_extend_prefix(prefix: Seq<u8>, raw: Seq<u8>) -> Seq<u8> {
    if prefix.len() == 0 {
        raw
    } else {
        prefix + seq![46u8] + raw
    }
}

/// Selector traversal from the node `id`: follow each segment's key through
/// a mapping, then its filter through a sequence.  Returns the final node id
/// and the full dotted prefix, or the error the first failing segment
/// produces, naming the prefix processed up to and including that segment.
pub open spec fn spec_resolve(
    doc: Seq<SpecYamlNode>,
    id: usize,
    parts: Seq<SpecSelectorPart>,
    prefix: Seq<u8>,
) -> Result<(usize, Seq<u8>), SpecEditError>
    decreases parts.len(),
{
    if parts.len() == 0 {
        Ok((id, prefix))
    } else {
        let part = parts[0];
        let pfx = spec_extend_prefix(prefix, part.raw);
        match doc_node(doc, id).data {
            SpecYamlData::Mapping { pairs } => match spec_find_pair(doc, pairs, part.key) {
                None => Err(SpecEditError::KeyNotFound { prefix: pfx }),
                Some(p) => {
                    if !valid_id(doc, p.1) {
                        Err(SpecEditError::KeyNotFound { prefix: pfx })
                    } else {
                        match part.filter {
                            None => spec_resolve(doc, p.1, parts.drop_first(), pfx),
                            Some(f) => match doc_node(doc, p.1).data {
                                SpecYamlData::Sequence { items } => match spec_apply_filter(
                                    doc,
                                    items,
                                    f,
                                ) {
                                    Some(nid) => spec_resolve(
                                        doc,
                                        nid,
                                        parts.drop_first(),
                                        pfx,
                                    ),
                                    None => Err(SpecEditError::KeyNotFound { prefix: pfx }),
                                },
                                _ => Err(SpecEditError::NotASequence { prefix: pfx }),
                            },
                        }
                    }
                },
            },
            _ => Err(SpecEditError::NotAMapping { prefix: pfx }),
        }
    }
}

fn resolve_from(
    doc: &YamlDoc,
    id: usize,
    parts: &Vec<SelectorPart>,
    i: usize,
    prefix: Vec<u8>,
) -> (r: Result<(usize, Vec<u8>), EditError>)
    requires
        i <= parts.len(),
        valid_id(doc@, id),
    ensures
        match r {
            Ok((nid, p)) => spec_resolve(doc@, id, parts.deep_view().skip(i as int), prefix@)
                == Ok::<_, SpecEditError>((nid, p@)) && valid_id(doc@, nid),
            Err(e) => spec_resolve(doc@, id, parts.deep_view().skip(i as int), prefix@) == Err::<
                (usize, Seq<u8>),
                _,
            >(e@),
        },
    decreases parts.len() - i,
{
    if i == parts.len() {
        proof {
            assert(parts.deep_view().skip(i as int) =~= Seq::<SpecSelectorPart>::empty());
        }
        return Ok((id, prefix));
    }
    proof {
        assert(parts.deep_view().skip(i as int)[0] == parts.deep_view()[i as int]);
        assert(parts.deep_view()[i as int] == parts@[i as int]@);
        assert(parts.deep_view().skip(i as int).drop_first() =~= parts.deep_view().skip(
            i as int + 1,
        ));
    }
    let part = &parts[i];
    let mut pfx = prefix;
    if pfx.len() == 0 {
        pfx = sub_bytes(part.raw.as_slice(), 0, part.raw.len());
        proof {
            assert(pfx@ =~= part.raw@);
        }
    } else {
        pfx.push(46);
        append_bytes(&mut pfx, part.raw.as_slice());
        proof {
            assert(pfx@ =~= spec_extend_prefix(prefix@, part.raw@));
        }
    }
    let node = match get_node(doc, id) {
        Some(n) => n,
        None => {
            proof {
                assert(false);
            }
            return Err(EditError::NoRootNode);
        },
    };
    let pairs = match &node.data {
        YamlData::Mapping { pairs } => pairs,
        _ => {
            return Err(EditError::NotAMapping { prefix: pfx });
        },
    };
    proof {
        assert(pairs@.skip(0) =~= pairs@);
    }
    let (_, vid) = match find_pair_from(doc, pairs, 0, part.key.as_slice()) {
        Some(p) => p,
        None => {
            return Err(EditError::KeyNotFound { prefix: pfx });
        },
    };
    if !(1 <= vid && vid <= doc.nodes.len()) {
        return Err(EditError::KeyNotFound { prefix: pfx });
    }
    match &part.filter {
        None => resolve_from(doc, vid, parts, i + 1, pfx),
        Some(f) => {
            let vnode = match get_node(doc, vid) {
                Some(n) => n,
                None => {
                    proof {
                        assert(false);
                    }
                    return Err(EditError::NoRootNode);
                },
            };
            let items = match &vnode.data {
                YamlData::Sequence { items } => items,
                _ => {
                    return Err(EditError::NotASequence { prefix: pfx });
                },
            };
            match apply_filter(doc, items, f) {
                Some(nid) => {
                    assert(valid_id(doc@, nid)) by {
                        match f@ {
                            SpecSelectorFilter::Index(_) => {},
                            SpecSelectorFilter::KeyValue { key, value } => {
                                lemma_find_kv_valid(doc@, items@, key, value);
                            },
                        }
                    }
                    resolve_from(doc, nid, parts, i + 1, pfx)
                },
                None => Err(EditError::KeyNotFound { prefix: pfx }),
            }
        },
    }
}

pub proof fn lemma_find_kv_valid(doc: Seq<SpecYamlNode>, items: Seq<usize>, key: Seq<u8>, value: Seq<
    u8,
>)
    ensures
        match spec_find_kv(doc, items, key, value) {
            Some(id) => valid_id(doc, id),
            None => true,
        },
    decreases items.len(),
{
    if items.len() > 0 && !kv_item_matches(doc, items[0], key, value) {
        lemma_find_kv_valid(doc, items.drop_first(), key, value);
    }
}

// ---------------------------------------------------------------------------
// Query and edit on a resolved tree
// ---------------------------------------------------------------------------

/// 1-based line of a 0-based line, saturating at `usize::MAX`.
pub open spec fn line_1based(l: usize) -> usize {
    if l == usize::MAX {
        l
    } else {
        (l + 1) as usize
    }
}

/// A scalar rendered in its quoting style: plain and unrecognized styles
/// pass the bytes through, quoted styles wrap them in their quote bytes.
pub open spec fn spec_styled(kind: ScalarKind, value: Seq<u8>) -> Seq<u8> {
    match kind {
        ScalarKind::Plain => value,
        ScalarKind::SingleQuoted => seq![39u8] + value + seq![39u8],
        ScalarKind::DoubleQuoted => seq![34u8] + value + seq![34u8],
        ScalarKind::Other => value,
    }
}

/// The result of a query: the scalar's bytes and its 1-based line; or the
/// error of the first failing segment, or `NotAScalar` naming the whole
/// selector when traversal lands on a non-scalar.
pub open spec fn spec_query_tree(
    doc: Seq<SpecYamlNode>,
    parts: Seq<SpecSelectorPart>,
) -> Result<(Seq<u8>, usize), SpecEditError> {
    if doc.len() == 0 {
        Err(SpecEditError::NoRootNode)
    } else {
        match spec_resolve(doc, 1, parts, Seq::<u8>::empty()) {
            Err(e) => Err(e),
            Ok((id, pfx)) => match doc_node(doc, id).data {
                SpecYamlData::Scalar { value, .. } => Ok(
                    (value, line_1based(doc_node(doc, id).line)),
                ),
                _ => Err(SpecEditError::NotAScalar { prefix: pfx }),
            },
        }
    }
}

/// The result of an edit: the document text with the resolved scalar's byte
/// span replaced by the new value in the scalar's own quoting style.
pub open spec fn spec_edit_tree(
    doc: Seq<SpecYamlNode>,
    text: Seq<u8>,
    parts: Seq<SpecSelectorPart>,
    new_value: Seq<u8>,
) -> Result<Seq<u8>, SpecEditError> {
    if doc.len() == 0 {
        Err(SpecEditError::NoRootNode)
    } else {
        match spec_resolve(doc, 1, parts, Seq::<u8>::empty()) {
            Err(e) => Err(e),
            Ok((id, pfx)) => match doc_node(doc, id).data {
                SpecYamlData::Scalar { value, kind } => {
                    let n = doc_node(doc, id);
                    if n.start <= n.end <= text.len() {
                        Ok(
                            text.take(n.start as int) + spec_styled(kind, new_value)
                                + text.skip(n.end as int),
                        )
                    } else {
                        Err(SpecEditError::InvalidSpan)
                    }
                },
                _ => Err(SpecEditError::NotAScalar { prefix: pfx }),
            },
        }
    }
}

/// Query the tree: resolve the selector, demand a scalar, report its bytes
/// and 1-based line.
pub fn query_tree(doc: &YamlDoc, parts: &Vec<SelectorPart>) -> (r: Result<
    (Vec<u8>, usize),
    EditError,
>)
    ensures
        match r {
            Ok((v, ln)) => spec_query_tree(doc@, parts.deep_view()) == Ok::<_, SpecEditError>(
                (v@, ln),
            ),
            Err(e) => spec_query_tree(doc@, parts.deep_view()) == Err::<(Seq<u8>, usize), _>(e@),
        },
{
    if doc.nodes.len() == 0 {
        return Err(EditError::NoRootNode);
    }
    proof {
        assert(parts.deep_view().skip(0) =~= parts.deep_view());
    }
    let (id, pfx) = match resolve_from(doc, 1, parts, 0, Vec::new()) {
        Ok(p) => p,
        Err(e) => {
            return Err(e);
        },
    };
    let node = match get_node(doc, id) {
        Some(n) => n,
        None => {
            proof {
                assert(false);
            }
            return Err(EditError::NoRootNode);
        },
    };
    match &node.data {
        YamlData::Scalar { value, .. } => {
            let v = sub_bytes(value.as_slice(), 0, value.len());
            proof {
                assert(v@ =~= value@);
            }
            let ln = if node.line == usize::MAX {
                node.line
            } else {
                node.line + 1
            };
            Ok((v, ln))
        },
        _ => Err(EditError::NotAScalar { prefix: pfx }),
    }
}

/// Edit the tree's source text: resolve the selector, demand a scalar whose
/// span fits the text, splice the styled new value over that span.
pub fn edit_tree(doc: &YamlDoc, text: &[u8], parts: &Vec<SelectorPart>, new_value: &[u8]) -> (r:
    Result<Vec<u8>, EditError>)
    ensures
        match r {
            Ok(out) => spec_edit_tree(doc@, text@, parts.deep_view(), new_value@) == Ok::<
                _,
                SpecEditError,
            >(out@),
            Err(e) => spec_edit_tree(doc@, text@, parts.deep_view(), new_value@) == Err::<
                Seq<u8>,
                _,
            >(e@),
        },
{
    if doc.nodes.len() == 0 {
        return Err(EditError::NoRootNode);
    }
    proof {
        assert(parts.deep_view().skip(0) =~= parts.deep_view());
    }
    let (id, pfx) = match resolve_from(doc, 1, parts, 0, Vec::new()) {
        Ok(p) => p,
        Err(e) => {
            return Err(e);
        },
    };
    let node = match get_node(doc, id) {
        Some(n) => n,
        None => {
            proof {
                assert(false);
            }
            return Err(EditError::NoRootNode);
        },
    };
    match &node.data {
        YamlData::Scalar { kind, .. } => {
            if !(node.start <= node.end && node.end <= text.len()) {
                return Err(EditError::InvalidSpan);
            }
            let mut out = sub_bytes(text, 0, node.start);
            match kind {
                ScalarKind::SingleQuoted => {
                    out.push(39);
                    append_bytes(&mut out, new_value);
                    out.push(39);
                },
                ScalarKind::DoubleQuoted => {
                    out.push(34);
                    append_bytes(&mut out, new_value);
                    out.push(34);
                },
                _ => {
                    append_bytes(&mut out, new_value);
                },
            }
            let suffix = sub_bytes(text, node.end, text.len());
            append_bytes(&mut out, suffix.as_slice());
            proof {
                assert(out@ =~= text@.take(node@.start as int) + spec_styled(
                    node@.data->Scalar_kind,
                    new_value@,
                ) + text@.skip(node@.end as int));
            }
            Ok(out)
        },
        _ => Err(EditError::NotAScalar { prefix: pfx }),
    }
}

// ---------------------------------------------------------------------------
// Laws
// ---------------------------------------------------------------------------

/// The dotted join of the raw texts of the first `k` segments.
pub open spec fn spec_raws_prefix(parts: Seq<SpecSelectorPart>, k: int) -> Seq<u8> {
    spec_join(parts.take(k).map_values(|p: SpecSelectorPart| p.raw), 46)
}

/// The scalar that `parts` resolves to sits in `text` exactly as its styled
/// rendering: what the parser guarantees for a span-faithful document.
pub open spec fn scalar_span_coherent(
    doc: Seq<SpecYamlNode>,
    parts: Seq<SpecSelectorPart>,
    text: Seq<u8>,
) -> bool {
    match spec_resolve(doc, 1, parts, Seq::<u8>::empty()) {
        Ok((id, _)) => match doc_node(doc, id).data {
            SpecYamlData::Scalar { value, kind } => {
                let n = doc_node(doc, id);
                n.start <= n.end <= text.len() && text.subrange(n.start as int, n.end as int)
                    == spec_styled(kind, value)
            },
            _ => true,
        },
        Err(_) => true,
    }
}

/// Law (round trip): editing a document with the very value a query of the
/// same selector returned gives the document back unchanged, whenever the
/// queried scalar's byte span holds exactly its styled rendering.
pub proof fn lemma_edit_query_roundtrip(
    doc: Seq<SpecYamlNode>,
    text: Seq<u8>,
    parts: Seq<SpecSelectorPart>,
)
    requires
        spec_query_tree(doc, parts) is Ok,
        scalar_span_coherent(doc, parts, text),
    ensures
        spec_edit_tree(doc, text, parts, spec_query_tree(doc, parts)->Ok_0.0) == Ok::<
            _,
            SpecEditError,
        >(text),
{
    let (id, _) = spec_resolve(doc, 1, parts, Seq::<u8>::empty())->Ok_0;
    let n = doc_node(doc, id);
    match n.data {
        SpecYamlData::Scalar { value, kind } => {
            assert(text.take(n.start as int) + spec_styled(kind, value) + text.skip(
                n.end as int,
            ) =~= text);
        },
        _ => {
            assert(false);
        },
    }
}

/// Every segment's raw text is nonempty: true of every parsed selector.
pub open spec fn wf_parts(parts: Seq<SpecSelectorPart>) -> bool {
    forall|i: int| 0 <= i < parts.len() ==> (#[trigger] parts[i].raw).len() > 0
}

proof fn lemma_join_nonempty(raws: Seq<Seq<u8>>, sep: u8)
    requires
        raws.len() >= 1,
        raws[0].len() > 0,
    ensures
        spec_join(raws, sep).len() > 0,
    decreases raws.len(),
{
    if raws.len() > 1 {
        assert(raws.drop_last()[0] == raws[0]);
        lemma_join_nonempty(raws.drop_last(), sep);
    }
}

proof fn lemma_raws_prefix_extend(parts: Seq<SpecSelectorPart>, k: int)
    requires
        0 <= k < parts.len(),
        wf_parts(parts),
    ensures
        spec_raws_prefix(parts, k + 1) == spec_extend_prefix(
            spec_raws_prefix(parts, k),
            parts[k].raw,
        ),
{
    let raws = parts.take(k + 1).map_values(|p: SpecSelectorPart| p.raw);
    let raws_k = parts.take(k).map_values(|p: SpecSelectorPart| p.raw);
    assert(raws.drop_last() =~= raws_k);
    assert(raws.last() == parts[k].raw);
    if k == 0 {
        assert(raws_k =~= Seq::<Seq<u8>>::empty());
        assert(spec_raws_prefix(parts, k) == Seq::<u8>::empty());
        assert(raws.len() == 1);
        assert(spec_join(raws, 46) == raws[0]);
    } else {
        assert(raws_k[0] == parts[0].raw);
        assert(parts[0].raw.len() > 0);
        lemma_join_nonempty(raws_k, 46);
        assert(spec_raws_prefix(parts, k).len() > 0);
        assert(spec_join(raws, 46) == spec_join(raws_k, 46) + seq![46u8] + parts[k].raw);
    }
}

proof fn lemma_resolve_prefix_general(
    doc: Seq<SpecYamlNode>,
    id: usize,
    parts: Seq<SpecSelectorPart>,
    whole: Seq<SpecSelectorPart>,
    k: int,
)
    requires
        0 <= k <= whole.len(),
        parts =~= whole.skip(k),
        wf_parts(whole),
    ensures
        match spec_resolve(doc, id, parts, spec_raws_prefix(whole, k)) {
            Ok((_, pfx)) => pfx == spec_raws_prefix(whole, whole.len() as int),
            Err(e) => match e {
                SpecEditError::NotAMapping { prefix } => exists|j: int|
                    k < j <= whole.len() && prefix == #[trigger] spec_raws_prefix(whole, j),
                SpecEditError::KeyNotFound { prefix } => exists|j: int|
                    k < j <= whole.len() && prefix == #[trigger] spec_raws_prefix(whole, j),
                SpecEditError::NotASequence { prefix } => exists|j: int|
                    k < j <= whole.len() && prefix == #[trigger] spec_raws_prefix(whole, j),
                SpecEditError::NotAScalar { .. } => false,
                _ => true,
            },
        },
    decreases parts.len(),
{
    if parts.len() == 0 {
        assert(k == whole.len());
        assert(whole.take(k) =~= whole);
    } else {
        let part = parts[0];
        assert(part == whole[k]);
        lemma_raws_prefix_extend(whole, k);
        let pfx = spec_extend_prefix(spec_raws_prefix(whole, k), part.raw);
        assert(pfx == spec_raws_prefix(whole, k + 1));
        assert(parts.drop_first() =~= whole.skip(k + 1));
        match doc_node(doc, id).data {
            SpecYamlData::Mapping { pairs } => match spec_find_pair(doc, pairs, part.key) {
                None => {},
                Some(p) => {
                    if valid_id(doc, p.1) {
                        match part.filter {
                            None => {
                                lemma_resolve_prefix_general(
                                    doc,
                                    p.1,
                                    parts.drop_first(),
                                    whole,
                                    k + 1,
                                );
                            },
                            Some(f) => match doc_node(doc, p.1).data {
                                SpecYamlData::Sequence { items } => match spec_apply_filter(
                                    doc,
                                    items,
                                    f,
                                ) {
                                    Some(nid) => {
                                        lemma_resolve_prefix_general(
                                            doc,
                                            nid,
                                            parts.drop_first(),
                                            whole,
                                            k + 1,
                                        );
                                    },
                                    None => {},
                                },
                                _ => {},
                            },
                        }
                    }
                },
            },
            _ => {},
        }
    }
}

/// Law (errors name their prefix): whenever a query fails because a segment
/// hit a non-mapping, a missing key or failed filter, or a non-sequence,
/// the error carries the dotted join of the raw segments processed up to
/// and including the failing one; and a `NotAScalar` failure names the
/// whole selector.
pub proof fn lemma_query_error_names_prefix(
    doc: Seq<SpecYamlNode>,
    parts: Seq<SpecSelectorPart>,
)
    requires
        wf_parts(parts),
    ensures
        match spec_query_tree(doc, parts) {
            Err(e) => match e {
                SpecEditError::NotAMapping { prefix } => exists|j: int|
                    1 <= j <= parts.len() && prefix == #[trigger] spec_raws_prefix(parts, j),
                SpecEditError::KeyNotFound { prefix } => exists|j: int|
                    1 <= j <= parts.len() && prefix == #[trigger] spec_raws_prefix(parts, j),
                SpecEditError::NotASequence { prefix } => exists|j: int|
                    1 <= j <= parts.len() && prefix == #[trigger] spec_raws_prefix(parts, j),
                SpecEditError::NotAScalar { prefix } => prefix == spec_raws_prefix(
                    parts,
                    parts.len() as int,
                ),
                _ => true,
            },
            Ok(_) => true,
        },
{
    if doc.len() > 0 {
        assert(parts =~= parts.skip(0));
        assert(parts.take(0) =~= Seq::<SpecSelectorPart>::empty());
        assert(spec_raws_prefix(parts, 0) =~= Seq::<u8>::empty());
        lemma_resolve_prefix_general(doc, 1, parts, parts, 0);
        assert(spec_resolve(doc, 1, parts, Seq::<u8>::empty()) == spec_resolve(
            doc,
            1,
            parts,
            spec_raws_prefix(parts, 0),
        ));
    }
}

} // verus!
