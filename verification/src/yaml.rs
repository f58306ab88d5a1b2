//! The YAML editor: `query` and `edit` over selector paths.  Parsing is one
//! trusted call into `libyaml_safer`; the parsed document is converted,
//! field by field, into the verified [`crate::yamltree::YamlDoc`] arena,
//! and everything after the parse is proved.

use vstd::prelude::*;
use vstd::string::StringExecFns;
use vstd::utf8::{encode_utf8, valid_utf8};

use crate::edit::{EditError, LineContext, SpecEditError};
use crate::selector::{
    parse_selector, spec_parse_selector, SelectorPart, SpecSelectorPart,
};
use crate::strutil::{bytes_to_string, str_to_bytes};
use crate::yamltree::{
    doc_node, edit_tree, query_tree, spec_edit_tree, spec_query_tree, spec_resolve, valid_id,
    ScalarKind, SpecYamlData, SpecYamlNode, YamlData, YamlDoc, YamlNode,
};

verus! {

#[verifier::external_type_specification]
#[verifier::external_body]
pub struct ExYamlDocument(libyaml_safer::Document);

/// What a parse of `text` yields: `None` when the text is not YAML, else
/// the node arena.  `libyaml_safer`'s parse is a function of the input
/// bytes alone.
pub uninterp spec fn yaml_doc_of(text: Seq<u8>) -> Option<Seq<SpecYamlNode>>;

/// The modelled contents of a parsed `libyaml_safer` document: one node per
/// arena slot, each with its data, byte span and 0-based line.
pub uninterp spec fn yaml_nodes(d: &libyaml_safer::Document) -> Seq<SpecYamlNode>;

/// Every scalar in the arena holds valid UTF-8 (scalars come out of the
/// parser as Rust `String`s).
pub open spec fn all_scalars_utf8(doc: Seq<SpecYamlNode>) -> bool {
    forall|i: int|
        0 <= i < doc.len() ==> (#[trigger] doc[i].data) is Scalar ==> valid_utf8(
            doc[i].data->Scalar_value,
        )
}

/// A leading byte-order mark, in any of the three encodings the parser
/// recognizes.  The parser consumes such a mark without counting it into
/// its position marks, so documents carrying one are rejected before the
/// parse: only then do the marks index the input text itself.
pub open spec fn starts_with_bom(s: Seq<u8>) -> bool {
    (s.len() >= 3 && s[0] == 0xef && s[1] == 0xbb && s[2] == 0xbf) || (s.len() >= 2 && s[0]
        == 0xff && s[1] == 0xfe) || (s.len() >= 2 && s[0] == 0xfe && s[1] == 0xff)
}

fn has_bom(text: &[u8]) -> (r: bool)
    ensures
        r == starts_with_bom(text@),
{
    (text.len() >= 3 && text[0] == 0xef && text[1] == 0xbb && text[2] == 0xbf) || (text.len()
        >= 2 && text[0] == 0xff && text[1] == 0xfe) || (text.len() >= 2 && text[0] == 0xfe
        && text[1] == 0xff)
}

/// Relies on `libyaml_safer::Document::load` (with `Parser::new` and
/// `Parser::set_input_string` preparing its argument): parsing is a
/// function of the input bytes alone, it fails exactly when the text is
/// not well-formed YAML, every scalar it yields is a Rust `String`, hence
/// valid UTF-8, and — for input free of a byte-order mark, which the
/// reader would swallow without counting — every node's marks are byte
/// offsets into the input that the reader advanced character by
/// character: within the text, on character boundaries.
#[verifier::external_body]
fn load_yaml(text: &[u8]) -> (r: Result<libyaml_safer::Document, String>)
    requires
        !starts_with_bom(text@),
    ensures
        r matches Ok(d) ==> yaml_doc_of(text@) == Some(yaml_nodes(&d))
            && all_scalars_utf8(yaml_nodes(&d)) && crate::yamltree::spans_well_formed(
            yaml_nodes(&d),
            text@,
        ),
        r is Ok <==> yaml_doc_of(text@) is Some,
{
    let mut parser = libyaml_safer::Parser::new();
    let mut data = text;
    parser.set_input_string(&mut data);
    libyaml_safer::Document::load(&mut parser).map_err(|e| format!("{}", e))
}

/// The coarse shape of an arena node.
#[derive(Debug, Clone, Copy, PartialEq, Eq, Structural)]
pub enum NodeTag {
    Scalar,
    Sequence,
    Mapping,
    Empty,
}

/// Relies on the `nodes` field of `libyaml_safer::Document`: the arena has
/// one slot per node.
#[verifier::external_body]
fn node_count(d: &libyaml_safer::Document) -> (r: usize)
    ensures
        r == yaml_nodes(d).len(),
{
    d.nodes.len()
}

/// Relies on `start_mark` / `end_mark` of `libyaml_safer::Node`: byte
/// offsets of the node's span and its 0-based starting line.
#[verifier::external_body]
fn node_span(d: &libyaml_safer::Document, i: usize) -> (r: (usize, usize, usize))
    requires
        i < yaml_nodes(d).len(),
    ensures
        r.0 == yaml_nodes(d)[i as int].start,
        r.1 == yaml_nodes(d)[i as int].end,
        r.2 == yaml_nodes(d)[i as int].line,
{
    let n = &d.nodes[i];
    (n.start_mark.index as usize, n.end_mark.index as usize, n.start_mark.line as usize)
}

/// Relies on the `data` field of `libyaml_safer::Node`: which of the four
/// node shapes this slot holds.
#[verifier::external_body]
fn node_tag(d: &libyaml_safer::Document, i: usize) -> (r: NodeTag)
    requires
        i < yaml_nodes(d).len(),
    ensures
        r == NodeTag::Scalar <==> yaml_nodes(d)[i as int].data is Scalar,
        r == NodeTag::Sequence <==> yaml_nodes(d)[i as int].data is Sequence,
        r == NodeTag::Mapping <==> yaml_nodes(d)[i as int].data is Mapping,
        r == NodeTag::Empty <==> yaml_nodes(d)[i as int].data is Empty,
{
    match &d.nodes[i].data {
        libyaml_safer::NodeData::Scalar { .. } => NodeTag::Scalar,
        libyaml_safer::NodeData::Sequence { .. } => NodeTag::Sequence,
        libyaml_safer::NodeData::Mapping { .. } => NodeTag::Mapping,
        libyaml_safer::NodeData::NoNode => NodeTag::Empty,
    }
}

/// Relies on `NodeData::Scalar`'s `value`: the scalar's text, a `String`.
#[verifier::external_body]
fn scalar_value(d: &libyaml_safer::Document, i: usize) -> (r: Vec<u8>)
    requires
        i < yaml_nodes(d).len(),
        yaml_nodes(d)[i as int].data is Scalar,
    ensures
        r@ == yaml_nodes(d)[i as int].data->Scalar_value,
{
    match &d.nodes[i].data {
        libyaml_safer::NodeData::Scalar { value, .. } => value.clone().into_bytes(),
        _ => Vec::new(),
    }
}

/// Relies on `NodeData::Scalar`'s `style`: the scalar's quoting style.
#[verifier::external_body]
fn scalar_style(d: &libyaml_safer::Document, i: usize) -> (r: ScalarKind)
    requires
        i < yaml_nodes(d).len(),
        yaml_nodes(d)[i as int].data is Scalar,
    ensures
        r == yaml_nodes(d)[i as int].data->Scalar_kind,
{
    match &d.nodes[i].data {
        libyaml_safer::NodeData::Scalar { style, .. } => match style {
            libyaml_safer::ScalarStyle::Plain => ScalarKind::Plain,
            libyaml_safer::ScalarStyle::SingleQuoted => ScalarKind::SingleQuoted,
            libyaml_safer::ScalarStyle::DoubleQuoted => ScalarKind::DoubleQuoted,
            _ => ScalarKind::Other,
        },
        _ => ScalarKind::Other,
    }
}

/// Relies on `NodeData::Sequence`'s `items`: the item node ids, 1-based.
#[verifier::external_body]
fn sequence_items(d: &libyaml_safer::Document, i: usize) -> (r: Vec<usize>)
    requires
        i < yaml_nodes(d).len(),
        yaml_nodes(d)[i as int].data is Sequence,
    ensures
        r@ == yaml_nodes(d)[i as int].data->Sequence_items,
{
    match &d.nodes[i].data {
        libyaml_safer::NodeData::Sequence { items, .. } => items.iter().map(
            |x| *x as usize,
        ).collect(),
        _ => Vec::new(),
    }
}

/// Relies on `NodeData::Mapping`'s `pairs`: the (key id, value id) pairs,
/// 1-based.
#[verifier::external_body]
fn mapping_pairs(d: &libyaml_safer::Document, i: usize) -> (r: Vec<(usize, usize)>)
    requires
        i < yaml_nodes(d).len(),
        yaml_nodes(d)[i as int].data is Mapping,
    ensures
        r@ == yaml_nodes(d)[i as int].data->Mapping_pairs,
{
    match &d.nodes[i].data {
        libyaml_safer::NodeData::Mapping { pairs, .. } => pairs.iter().map(
            |p| (p.key as usize, p.value as usize),
        ).collect(),
        _ => Vec::new(),
    }
}

/// Convert the parsed document into the verified arena, slot by slot.
fn extract_doc(d: &libyaml_safer::Document) -> (t: YamlDoc)
    ensures
        t@ == yaml_nodes(d),
{
    let n = node_count(d);
    let mut nodes: Vec<YamlNode> = Vec::new();
    let mut i: usize = 0;
    while i < n
        invariant
            i <= n,
            n == yaml_nodes(d).len(),
            nodes@.len() == i,
            forall|j: int| 0 <= j < i ==> #[trigger] nodes@[j]@ == yaml_nodes(d)[j],
        decreases n - i,
    {
        let (start, end, line) = node_span(d, i);
        let data = match node_tag(d, i) {
            NodeTag::Scalar => YamlData::Scalar {
                value: scalar_value(d, i),
                kind: scalar_style(d, i),
            },
            NodeTag::Sequence => YamlData::Sequence { items: sequence_items(d, i) },
            NodeTag::Mapping => YamlData::Mapping { pairs: mapping_pairs(d, i) },
            NodeTag::Empty => YamlData::Empty,
        };
        let node = YamlNode { data, start, end, line };
        proof {
            assert(node@ == yaml_nodes(d)[i as int]);
        }
        nodes.push(node);
        i += 1;
    }
    let t = YamlDoc { nodes };
    proof {
        assert(t@ =~= yaml_nodes(d));
    }
    t
}

/// Parse YAML text into the verified arena.  Text carrying a byte-order
/// mark is rejected: the parser's position marks would not account for
/// it, so no span-faithful arena can be built over such input.
pub fn parse_yaml(text: &[u8]) -> (r: Result<YamlDoc, EditError>)
    ensures
        r matches Ok(t) ==> !starts_with_bom(text@) && yaml_doc_of(text@) == Some(t@)
            && all_scalars_utf8(t@) && crate::yamltree::spans_well_formed(t@, text@),
        r is Ok <==> (!starts_with_bom(text@) && yaml_doc_of(text@) is Some),
        r matches Err(e) ==> e@ == SpecEditError::ParseFailure,
{
    if has_bom(text) {
        return Err(
            EditError::ParseFailure {
                detail: String::from_str("the document starts with a byte-order mark"),
            },
        );
    }
    match load_yaml(text) {
        Ok(d) => Ok(extract_doc(&d)),
        Err(detail) => Err(EditError::ParseFailure { detail }),
    }
}

// ---------------------------------------------------------------------------
// The public editor
// ---------------------------------------------------------------------------

/// The result of a YAML query: parse the document, parse the selector,
/// traverse, demand a scalar.
pub open spec fn spec_yaml_query(text: Seq<u8>, selector: Seq<u8>) -> Result<
    (Seq<u8>, usize),
    SpecEditError,
> {
    if starts_with_bom(text) {
        Err(SpecEditError::ParseFailure)
    } else {
        match yaml_doc_of(text) {
            None => Err(SpecEditError::ParseFailure),
            Some(doc) => match spec_parse_selector(selector) {
                Err(e) => Err(e),
                Ok(parts) => spec_query_tree(doc, parts),
            },
        }
    }
}

/// The result of a YAML edit: as the query, then splice the new value over
/// the scalar's byte span in its own quoting style.
pub open spec fn spec_yaml_edit(
    text: Seq<u8>,
    selector: Seq<u8>,
    new_value: Seq<u8>,
) -> Result<Seq<u8>, SpecEditError> {
    if starts_with_bom(text) {
        Err(SpecEditError::ParseFailure)
    } else {
        match yaml_doc_of(text) {
            None => Err(SpecEditError::ParseFailure),
            Some(doc) => match spec_parse_selector(selector) {
                Err(e) => Err(e),
                Ok(parts) => spec_edit_tree(doc, text, parts, new_value),
            },
        }
    }
}

/// The spans of the scalar a selector resolves to hold exactly its styled
/// rendering in the document text: what the parser's position marks
/// guarantee for a document it produced from that text.
pub open spec fn yaml_spans_coherent(text: Seq<u8>, selector: Seq<u8>) -> bool {
    match yaml_doc_of(text) {
        Some(doc) => match spec_parse_selector(selector) {
            Ok(parts) => crate::yamltree::scalar_span_coherent(doc, parts, text),
            Err(_) => true,
        },
        None => true,
    }
}

/// Law (round trip): editing a document with the very value a query of the
/// same selector returned gives the document back byte for byte, whenever
/// the queried scalar's span holds exactly its styled rendering.
pub proof fn lemma_yaml_edit_query_roundtrip(text: Seq<u8>, selector: Seq<u8>)
    requires
        spec_yaml_query(text, selector) is Ok,
        yaml_spans_coherent(text, selector),
    ensures
        spec_yaml_edit(text, selector, spec_yaml_query(text, selector)->Ok_0.0) == Ok::<
            _,
            SpecEditError,
        >(text),
{
    let doc = yaml_doc_of(text)->Some_0;
    let parts = spec_parse_selector(selector)->Ok_0;
    crate::yamltree::lemma_edit_query_roundtrip(doc, text, parts);
}

/// Law (line numbers are 1-based): a successful query never reports line 0.
pub proof fn lemma_yaml_query_line_one_based(text: Seq<u8>, selector: Seq<u8>)
    ensures
        match spec_yaml_query(text, selector) {
            Ok((_, ln)) => ln >= 1,
            Err(_) => true,
        },
{
}

/// Law (errors name their prefix): whenever a query fails at a segment —
/// on a non-mapping, a missing key or failed filter, or a non-sequence —
/// the error carries the dotted join of the raw segments processed up to
/// and including the failing one, and a `NotAScalar` failure names the
/// whole selector.
pub proof fn lemma_yaml_query_error_prefix(text: Seq<u8>, selector: Seq<u8>)
    ensures
        spec_parse_selector(selector) matches Ok(parts) ==> match spec_yaml_query(
            text,
            selector,
        ) {
            Err(e) => match e {
                SpecEditError::NotAMapping { prefix } => exists|j: int|
                    1 <= j <= parts.len() && prefix == #[trigger] crate::yamltree::spec_raws_prefix(
                        parts,
                        j,
                    ),
                SpecEditError::KeyNotFound { prefix } => exists|j: int|
                    1 <= j <= parts.len() && prefix == #[trigger] crate::yamltree::spec_raws_prefix(
                        parts,
                        j,
                    ),
                SpecEditError::NotASequence { prefix } => exists|j: int|
                    1 <= j <= parts.len() && prefix == #[trigger] crate::yamltree::spec_raws_prefix(
                        parts,
                        j,
                    ),
                SpecEditError::NotAScalar { prefix } => prefix
                    == crate::yamltree::spec_raws_prefix(parts, parts.len() as int),
                _ => true,
            },
            Ok(_) => true,
        },
{
    match spec_parse_selector(selector) {
        Err(_) => {},
        Ok(parts) => {
            crate::selector::lemma_parsed_parts_raws_nonempty(
                crate::bytes::spec_split(selector, 46),
            );
            assert(crate::yamltree::wf_parts(parts));
            match yaml_doc_of(text) {
                None => {},
                Some(doc) => {
                    crate::yamltree::lemma_query_error_names_prefix(doc, parts);
                },
            }
        },
    }
}

proof fn lemma_resolve_ok_valid(
    doc: Seq<SpecYamlNode>,
    id: usize,
    parts: Seq<SpecSelectorPart>,
    prefix: Seq<u8>,
)
    requires
        valid_id(doc, id),
    ensures
        match spec_resolve(doc, id, parts, prefix) {
            Ok((nid, _)) => valid_id(doc, nid),
            Err(_) => true,
        },
    decreases parts.len(),
{
    if parts.len() > 0 {
        let part = parts[0];
        let pfx = crate::yamltree::spec_extend_prefix(prefix, part.raw);
        match doc_node(doc, id).data {
            SpecYamlData::Mapping { pairs } => match crate::yamltree::spec_find_pair(
                doc,
                pairs,
                part.key,
            ) {
                None => {},
                Some(p) => {
                    if valid_id(doc, p.1) {
                        match part.filter {
                            None => {
                                lemma_resolve_ok_valid(doc, p.1, parts.drop_first(), pfx);
                            },
                            Some(f) => match doc_node(doc, p.1).data {
                                SpecYamlData::Sequence { items } => match crate::yamltree::spec_apply_filter(
                                    doc,
                                    items,
                                    f,
                                ) {
                                    Some(nid) => {
                                        lemma_filter_valid(doc, items, f);
                                        lemma_resolve_ok_valid(
                                            doc,
                                            nid,
                                            parts.drop_first(),
                                            pfx,
                                        );
                                    },
                                    None => {},
                                },
                                _ => {},
                            },
                        }
                    }
                },
            },
            _ => {},
        }
    }
}

proof fn lemma_filter_valid(
    doc: Seq<SpecYamlNode>,
    items: Seq<usize>,
    f: crate::selector::SpecSelectorFilter,
)
    ensures
        match crate::yamltree::spec_apply_filter(doc, items, f) {
            Some(id) => valid_id(doc, id),
            None => true,
        },
{
    match f {
        crate::selector::SpecSelectorFilter::Index(_) => {},
        crate::selector::SpecSelectorFilter::KeyValue { key, value } => {
            crate::yamltree::lemma_find_kv_valid(doc, items, key, value);
        },
    }
}

/// Query a YAML file for a value at a given selector: the scalar's text and
/// its 1-based line.
pub fn query(file_content: &str, selector: &str) -> (r: Result<LineContext, EditError>)
    ensures
        match r {
            Ok(lc) => spec_yaml_query(encode_utf8(file_content@), encode_utf8(selector@))
                == Ok::<_, SpecEditError>((encode_utf8(lc.value@), lc.line_number)),
            Err(e) => spec_yaml_query(encode_utf8(file_content@), encode_utf8(selector@))
                == Err::<(Seq<u8>, usize), _>(e@),
        },
{
    let text = str_to_bytes(file_content);
    let sel = str_to_bytes(selector);
    let doc = match parse_yaml(text.as_slice()) {
        Ok(doc) => doc,
        Err(e) => {
            return Err(e);
        },
    };
    let parts = match parse_selector(sel.as_slice()) {
        Ok(parts) => parts,
        Err(e) => {
            return Err(e);
        },
    };
    match query_tree(&doc, &parts) {
        Ok((v, ln)) => {
            proof {
                let sdoc = doc@;
                let sparts = parts.deep_view();
                if sdoc.len() > 0 {
                    lemma_resolve_ok_valid(sdoc, 1, sparts, Seq::<u8>::empty());
                    match spec_resolve(sdoc, 1, sparts, Seq::<u8>::empty()) {
                        Ok((id, _)) => {
                            assert(doc_node(sdoc, id) == sdoc[id - 1]);
                            assert(valid_utf8(v@));
                        },
                        Err(_) => {
                            assert(false);
                        },
                    }
                }
            }
            let value = match bytes_to_string(v) {
                Some(s) => s,
                None => {
                    proof {
                        assert(false);
                    }
                    String::new()
                },
            };
            Ok(LineContext { value, line_number: ln })
        },
        Err(e) => Err(e),
    }
}

/// Edit a YAML file for a given selector: replace the selected scalar with
/// `new_value`, keeping the scalar's quoting style and everything else in
/// the file byte for byte.
pub fn edit(file_content: &str, selector: &str, new_value: &str) -> (r: Result<
    String,
    EditError,
>)
    ensures
        match r {
            Ok(s) => spec_yaml_edit(
                encode_utf8(file_content@),
                encode_utf8(selector@),
                encode_utf8(new_value@),
            ) == Ok::<_, SpecEditError>(encode_utf8(s@)),
            Err(e) => spec_yaml_edit(
                encode_utf8(file_content@),
                encode_utf8(selector@),
                encode_utf8(new_value@),
            ) == Err::<Seq<u8>, _>(e@),
        },
        r is Ok <==> spec_yaml_edit(
            encode_utf8(file_content@),
            encode_utf8(selector@),
            encode_utf8(new_value@),
        ) is Ok,
{
    let text = str_to_bytes(file_content);
    let sel = str_to_bytes(selector);
    let nv = str_to_bytes(new_value);
    let doc = match parse_yaml(text.as_slice()) {
        Ok(doc) => doc,
        Err(e) => {
            return Err(e);
        },
    };
    let parts = match parse_selector(sel.as_slice()) {
        Ok(parts) => parts,
        Err(e) => {
            return Err(e);
        },
    };
    match edit_tree(&doc, text.as_slice(), &parts, nv.as_slice()) {
        Ok(out) => {
            proof {
                vstd::utf8::encode_utf8_valid_utf8(file_content@);
                vstd::utf8::encode_utf8_valid_utf8(new_value@);
                lemma_splice_output_valid(doc@, text@, parts.deep_view(), nv@, out@);
            }
            match bytes_to_string(out) {
                Some(s) => Ok(s),
                None => {
                    proof {
                        assert(false);
                    }
                    Err(
                        EditError::ParseFailure {
                            detail: String::from_str("the edited text is not valid UTF-8"),
                        },
                    )
                },
            }
        },
        Err(e) => Err(e),
    }
}

/// A successful tree edit of a span-faithful document is valid UTF-8: the
/// splice cuts the text at character boundaries and inserts the encoding
/// of a string, at most wrapped in ASCII quotes.
proof fn lemma_splice_output_valid(
    doc: Seq<SpecYamlNode>,
    text: Seq<u8>,
    parts: Seq<SpecSelectorPart>,
    nv: Seq<u8>,
    out: Seq<u8>,
)
    requires
        valid_utf8(text),
        valid_utf8(nv),
        crate::yamltree::spans_well_formed(doc, text),
        spec_edit_tree(doc, text, parts, nv) == Ok::<Seq<u8>, SpecEditError>(out),
    ensures
        valid_utf8(out),
{
    broadcast use vstd::utf8::valid_utf8_concat;

    lemma_resolve_ok_valid(doc, 1, parts, Seq::<u8>::empty());
    match crate::yamltree::spec_resolve(doc, 1, parts, Seq::<u8>::empty()) {
        Ok((id, _)) => {
            let n = doc_node(doc, id);
            assert(doc[id - 1] == n);
            assert(n.start <= n.end <= text.len());
            vstd::utf8::valid_utf8_split(text, n.start as int);
            vstd::utf8::valid_utf8_split(text, n.end as int);
            assert(text.subrange(0, n.start as int) =~= text.take(n.start as int));
            assert(text.subrange(n.end as int, text.len() as int) =~= text.skip(n.end as int));
            let k = n.data->Scalar_kind;
            let styled = crate::yamltree::spec_styled(k, nv);
            assert(valid_utf8(styled)) by {
                assert(seq![39u8][0] == 39u8);
                assert(seq![34u8][0] == 34u8);
                crate::strutil::lemma_ascii_valid_utf8(seq![39u8]);
                crate::strutil::lemma_ascii_valid_utf8(seq![34u8]);
                match k {
                    ScalarKind::SingleQuoted => {
                        assert(valid_utf8(seq![39u8] + nv));
                        assert(styled =~= (seq![39u8] + nv) + seq![39u8]);
                    },
                    ScalarKind::DoubleQuoted => {
                        assert(valid_utf8(seq![34u8] + nv));
                        assert(styled =~= (seq![34u8] + nv) + seq![34u8]);
                    },
                    _ => {},
                }
            }
            assert(valid_utf8(text.take(n.start as int) + styled));
            assert(out =~= (text.take(n.start as int) + styled) + text.skip(n.end as int));
            assert(valid_utf8(out));
        },
        Err(_) => {
            assert(false);
        },
    }
}

/// Law (edit fails exactly as query fails): for a span-faithful parsed
/// document, an edit succeeds exactly where a query of the same selector
/// succeeds, and a failing edit reports the very error the query reports —
/// both resolve the selector identically and both demand a scalar.
pub proof fn lemma_edit_errs_iff_query_errs(
    text: Seq<u8>,
    selector: Seq<u8>,
    new_value: Seq<u8>,
)
    requires
        match yaml_doc_of(text) {
            Some(doc) => crate::yamltree::spans_well_formed(doc, text),
            None => true,
        },
    ensures
        spec_yaml_edit(text, selector, new_value) is Ok <==> spec_yaml_query(text, selector)
            is Ok,
        spec_yaml_edit(text, selector, new_value) matches Err(e1) ==> (spec_yaml_query(
            text,
            selector,
        ) matches Err(e2) && e1 == e2),
{
    match yaml_doc_of(text) {
        None => {},
        Some(doc) => match spec_parse_selector(selector) {
            Err(_) => {},
            Ok(parts) => {
                if doc.len() > 0 {
                    lemma_resolve_ok_valid(doc, 1, parts, Seq::<u8>::empty());
                    match crate::yamltree::spec_resolve(doc, 1, parts, Seq::<u8>::empty()) {
                        Ok((id, _)) => {
                            assert(doc[id - 1] == doc_node(doc, id));
                        },
                        Err(_) => {},
                    }
                }
            },
        },
    }
}

} // verus!
