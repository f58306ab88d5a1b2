//! The TOML editor: dot-separated selectors over `toml_edit`'s
//! format-preserving document.  The document itself stays behind trusted
//! wrappers, modelled as a tree of tables and string leaves; every
//! traversal decision — which keys are followed, where an array of tables
//! aborts the edit, when a key is missing — is proved against that model.
//! Rendering is `toml_edit`'s own and is not modelled beyond its name.

use vstd::prelude::*;
use vstd::utf8::encode_utf8;

use crate::bytes::{spec_contains, spec_split, split_bytes, sub_bytes};
use crate::edit::{EditError, LineContext, SpecEditError};
use crate::strutil::{bytes_to_string, str_to_bytes};

verus! {

#[verifier::external_type_specification]
#[verifier::external_body]
pub struct ExDocumentMut(toml_edit::DocumentMut);

#[verifier::external_type_specification]
#[verifier::external_body]
pub struct ExItem(toml_edit::Item);

/// The modelled shape of a TOML node: tables (of any concrete kind) keyed
/// by the UTF-8 bytes of their keys, with entries holding placeholder
/// items left out; string leaves carrying the UTF-8 bytes of their decoded
/// value; arrays of tables; any other value; or a placeholder.
pub enum TomlNode {
    Table(Map<Seq<u8>, TomlNode>),
    ArrayOfTables,
    Str(Seq<u8>),
    OtherValue,
    Missing,
}

/// What a parse of `text` yields: `None` when the text is not TOML, else
/// the root table.  `toml_edit`'s parse is a function of the input alone.
pub uninterp spec fn toml_doc_of(text: Seq<char>) -> Option<TomlNode>;

/// The modelled contents of a parsed document's root table.
pub uninterp spec fn toml_root(d: &toml_edit::DocumentMut) -> TomlNode;

/// The modelled contents of one item of the document.
pub uninterp spec fn toml_item(i: &toml_edit::Item) -> TomlNode;

/// Relies on `str::parse::<toml_edit::DocumentMut>`: parsing is a function
/// of the input alone, it fails exactly on malformed TOML, and the root of
/// a parsed document is always a table.
#[verifier::external_body]
fn parse_toml(text: &str) -> (r: Result<toml_edit::DocumentMut, String>)
    ensures
        r matches Ok(d) ==> toml_doc_of(text@) == Some(toml_root(&d)) && toml_root(&d) is Table,
        r is Ok <==> toml_doc_of(text@) is Some,
{
    text.parse::<toml_edit::DocumentMut>().map_err(|e| format!("{}", e))
}

/// The entry a read of key `k` reaches: present non-placeholder entries
/// only, as `toml_edit`'s `get` filters placeholders.
pub open spec fn get_step(t: TomlNode, k: Seq<u8>) -> Option<TomlNode> {
    match t {
        TomlNode::Table(m) => {
            if m.contains_key(k) {
                Some(m[k])
            } else {
                None
            }
        },
        _ => None,
    }
}

/// Relies on `toml_edit::Item::get` (on the root item): a string key
/// reaches a table entry that is present and not a placeholder, and
/// nothing else.
#[verifier::external_body]
fn doc_get<'a>(d: &'a toml_edit::DocumentMut, key: &str) -> (r: Option<&'a toml_edit::Item>)
    ensures
        match r {
            Some(it) => get_step(toml_root(d), encode_utf8(key@)) == Some(toml_item(it)) && !(
            toml_item(it) is Missing),
            None => get_step(toml_root(d), encode_utf8(key@)) is None,
        },
{
    d.as_item().get(key)
}

/// Relies on `toml_edit::Item::get`: as [`doc_get`], one level down.
#[verifier::external_body]
fn item_get<'a>(it: &'a toml_edit::Item, key: &str) -> (r: Option<&'a toml_edit::Item>)
    ensures
        match r {
            Some(sub) => get_step(toml_item(it), encode_utf8(key@)) == Some(toml_item(sub)) && !(
            toml_item(sub) is Missing),
            None => get_step(toml_item(it), encode_utf8(key@)) is None,
        },
{
    it.get(key)
}

/// Relies on `toml_edit::DocumentMut::as_item`: the root item, a table.
#[verifier::external_body]
fn doc_as_item<'a>(d: &'a toml_edit::DocumentMut) -> (r: &'a toml_edit::Item)
    ensures
        toml_item(r) == toml_root(d),
{
    d.as_item()
}

/// Relies on `toml_edit::Item::is_table_like`: true exactly for tables and
/// inline tables, the nodes a string key can be written through.
#[verifier::external_body]
fn item_is_table_like(it: &toml_edit::Item) -> (r: bool)
    ensures
        r == (toml_item(it) is Table),
{
    it.is_table_like()
}

/// Relies on `toml_edit::Item::is_array_of_tables`.
#[verifier::external_body]
fn item_is_array_of_tables(it: &toml_edit::Item) -> (r: bool)
    ensures
        r == (toml_item(it) is ArrayOfTables),
{
    it.is_array_of_tables()
}

/// Relies on `toml_edit::Item::as_str`: `Some` exactly for string values,
/// yielding the decoded string.
#[verifier::external_body]
fn item_as_str(it: &toml_edit::Item) -> (r: Option<String>)
    ensures
        r matches Some(s) ==> toml_item(it) == TomlNode::Str(encode_utf8(s@)),
        r is Some <==> toml_item(it) is Str,
{
    it.as_str().map(|s| s.to_string())
}

// ---------------------------------------------------------------------------
// The modelled write path
// ---------------------------------------------------------------------------

/// The entry a write traversal descends into: a missing key reads as a
/// placeholder, which the write will create.
pub open spec fn set_step(t: TomlNode, k: Seq<u8>) -> TomlNode {
    match t {
        TomlNode::Table(m) => {
            if m.contains_key(k) {
                m[k]
            } else {
                TomlNode::Missing
            }
        },
        _ => TomlNode::Missing,
    }
}

/// A write along `path` never indexes into a value that cannot be indexed:
/// every node on the way is a table, or missing (and will be created).
pub open spec fn assign_safe(t: TomlNode, path: Seq<Seq<u8>>) -> bool
    decreases path.len(),
{
    if path.len() == 0 {
        true
    } else {
        (t is Table || t is Missing) && assign_safe(set_step(t, path[0]), path.drop_first())
    }
}

/// The tree after a write of the string `v` at `path`: tables along the
/// way are updated, missing ones are created, the final entry becomes a
/// string leaf.
pub open spec fn spec_assign(t: TomlNode, path: Seq<Seq<u8>>, v: Seq<u8>) -> TomlNode
    decreases path.len(),
{
    if path.len() == 0 {
        TomlNode::Str(v)
    } else {
        let sub = spec_assign(set_step(t, path[0]), path.drop_first(), v);
        match t {
            TomlNode::Table(m) => TomlNode::Table(m.insert(path[0], sub)),
            _ => TomlNode::Table(Map::<Seq<u8>, TomlNode>::empty().insert(path[0], sub)),
        }
    }
}

pub open spec fn strs_bytes(ks: Seq<Seq<char>>) -> Seq<Seq<u8>> {
    ks.map_values(|k: Seq<char>| encode_utf8(k))
}

/// What the parse–assign–render chain produces: the document text after
/// writing the string `v` at `path`, with the formatting of everything
/// else preserved; a function of the three arguments alone.
pub uninterp spec fn toml_assigned_render(
    text: Seq<char>,
    path: Seq<Seq<u8>>,
    v: Seq<u8>,
) -> Seq<char>;

/// Relies on `toml_edit`'s parse (`FromStr`), its `IndexMut` chain
/// (`doc[k0][k1].. = value(v)`: tables along the path are entered, missing
/// entries are created, the final entry is replaced by a formatted string)
/// and its `Display`: the result is deterministic in the three arguments,
/// `None` exactly when the text does not parse, and the format-preserving
/// render parses back to the written tree.
#[verifier::external_body]
fn assigned_render(text: &str, path: &Vec<String>, v: &str) -> (r: Option<String>)
    requires
        path.len() >= 1,
        match toml_doc_of(text@) {
            Some(root) => assign_safe(root, strs_bytes(path.deep_view())),
            None => true,
        },
    ensures
        r is Some <==> toml_doc_of(text@) is Some,
        r matches Some(s) ==> s@ == toml_assigned_render(
            text@,
            strs_bytes(path.deep_view()),
            encode_utf8(v@),
        ) && toml_doc_of(s@) == Some(
            spec_assign(
                toml_doc_of(text@)->Some_0,
                strs_bytes(path.deep_view()),
                encode_utf8(v@),
            ),
        ),
{
    let mut d = match text.parse::<toml_edit::DocumentMut>() {
        Ok(d) => d,
        Err(_) => return None,
    };
    if path.len() == 1 {
        d[path[0].as_str()] = toml_edit::value(v);
    } else {
        let mut item = &mut d[path[0].as_str()];
        for k in &path[1..path.len() - 1] {
            item = &mut item[k.as_str()];
        }
        item[path[path.len() - 1].as_str()] = toml_edit::value(v);
    }
    Some(format!("{}", d))
}

// ---------------------------------------------------------------------------
// Selector keys
// ---------------------------------------------------------------------------

/// The selector's dot-separated keys, as byte sequences.
pub open spec fn spec_sel_keys(sel: Seq<char>) -> Seq<Seq<u8>> {
    spec_split(encode_utf8(sel), 46)
}

/// Every dot-separated key of a selector is valid UTF-8 on its own:
/// splitting the selector's (valid) UTF-8 encoding on the ASCII `.` can
/// never cut a character's encoding.
pub proof fn lemma_sel_keys_valid(sel: Seq<char>)
    ensures
        forall|i: int|
            0 <= i < spec_sel_keys(sel).len() ==> vstd::utf8::valid_utf8(
                #[trigger] spec_sel_keys(sel)[i],
            ),
{
    vstd::utf8::encode_utf8_valid_utf8(sel);
    crate::strutil::lemma_split_pieces_valid(encode_utf8(sel), 46);
}

/// Split a selector on `.` into its keys.
#[verifier::loop_isolation(false)]
fn keys_from_selector(selector: &str) -> (ks: Vec<String>)
    ensures
        strs_bytes(ks.deep_view()) == spec_sel_keys(selector@),
        ks.len() >= 1,
{
    let sel = str_to_bytes(selector);
    let pieces = split_bytes(sel.as_slice(), 46);
    let ghost target = spec_sel_keys(selector@);
    proof {
        assert(pieces.deep_view() == target);
        lemma_sel_keys_valid(selector@);
    }
    let mut keys: Vec<String> = Vec::new();
    let mut i: usize = 0;
    while i < pieces.len()
        invariant
            i <= pieces.len(),
            pieces.deep_view() == target,
            pieces.len() == target.len(),
            keys.len() == i,
            strs_bytes(keys.deep_view()) =~= target.take(i as int),
        decreases pieces.len() - i,
    {
        proof {
            assert(pieces.deep_view()[i as int] == pieces@[i as int]@);
        }
        let piece = sub_bytes(pieces[i].as_slice(), 0, pieces[i].len());
        proof {
            assert(piece@ =~= target[i as int]);
        }
        match bytes_to_string(piece) {
            Some(k) => {
                let ghost old_keys = keys.deep_view();
                keys.push(k);
                proof {
                    assert(keys.deep_view() =~= old_keys.push(k@));
                    assert(strs_bytes(keys.deep_view()) =~= target.take(i + 1));
                }
            },
            None => {
                proof {
                    assert(false);
                }
            },
        }
        i += 1;
    }
    proof {
        assert(target.take(target.len() as int) =~= target);
        crate::bytes::lemma_split_nonempty(encode_utf8(selector@), 46);
    }
    keys
}

// ---------------------------------------------------------------------------
// Read traversal
// ---------------------------------------------------------------------------

/// The node a read of `path` reaches: every step must find its key (a
/// missing key, or any non-table on the way, is `TomlKeyNotFound`), and
/// every node entered before the last step must not be an array of tables.
pub open spec fn spec_get_value(root: TomlNode, path: Seq<Seq<u8>>, sel: Seq<char>) -> Result<
    TomlNode,
    SpecEditError,
>
    decreases path.len(),
{
    if path.len() <= 1 {
        let k = if path.len() == 0 {
            Seq::<u8>::empty()
        } else {
            path[0]
        };
        match get_step(root, k) {
            Some(c) => Ok(c),
            None => Err(SpecEditError::TomlKeyNotFound { selector: sel }),
        }
    } else {
        match get_step(root, path[0]) {
            None => Err(SpecEditError::TomlKeyNotFound { selector: sel }),
            Some(c) => {
                if c is ArrayOfTables {
                    Err(SpecEditError::ArrayOfTables)
                } else {
                    spec_get_value(c, path.drop_first(), sel)
                }
            },
        }
    }
}

fn get_value_from(
    it: &toml_edit::Item,
    keys: &Vec<String>,
    i: usize,
    selector: &str,
) -> (r: Result<String, EditError>)
    requires
        i < keys.len(),
    ensures
        match r {
            Ok(s) => ({
                let looked = spec_get_value(
                    toml_item(it),
                    strs_bytes(keys.deep_view()).skip(i as int),
                    selector@,
                );
                looked == Ok::<_, SpecEditError>(TomlNode::Str(encode_utf8(s@)))
            }),
            Err(e) => ({
                let looked = spec_get_value(
                    toml_item(it),
                    strs_bytes(keys.deep_view()).skip(i as int),
                    selector@,
                );
                looked == Err::<TomlNode, _>(e@) || (looked matches Ok(n) && !(n is Str) && e@
                    == SpecEditError::NotAString { selector: selector@ })
            }),
        },
    decreases keys.len() - i,
{
    let ghost path = strs_bytes(keys.deep_view()).skip(i as int);
    proof {
        assert(path[0] == encode_utf8(keys.deep_view()[i as int]));
        assert(keys.deep_view()[i as int] == keys@[i as int]@);
    }
    let sub = match item_get(it, keys[i].as_str()) {
        Some(sub) => sub,
        None => {
            return Err(
                EditError::TomlKeyNotFound { selector: String::from_str(selector) },
            );
        },
    };
    if i + 1 == keys.len() {
        proof {
            assert(path.len() == 1);
        }
        match item_as_str(sub) {
            Some(s) => Ok(s),
            None => Err(EditError::NotAString { selector: String::from_str(selector) }),
        }
    } else {
        proof {
            assert(path.drop_first() =~= strs_bytes(keys.deep_view()).skip(i as int + 1));
        }
        if item_is_array_of_tables(sub) {
            Err(EditError::ArrayOfTables)
        } else {
            get_value_from(sub, keys, i + 1, selector)
        }
    }
}

// ---------------------------------------------------------------------------
// Write traversal
// ---------------------------------------------------------------------------

/// The checks a write performs after entering `c`, with `rest` keys left:
/// an array of tables aborts; any other non-table that would have to be
/// indexed is reported missing; tables and placeholders pass.
pub open spec fn spec_set_rest(c: TomlNode, rest: Seq<Seq<u8>>, sel: Seq<char>) -> Result<
    (),
    SpecEditError,
>
    decreases rest.len(),
{
    if c is ArrayOfTables {
        Err(SpecEditError::ArrayOfTables)
    } else if !(c is Table || c is Missing) {
        Err(SpecEditError::TomlKeyNotFound { selector: sel })
    } else if rest.len() <= 1 {
        Ok(())
    } else {
        spec_set_rest(set_step(c, rest[0]), rest.drop_first(), sel)
    }
}

/// Whether a write of `path` into `root` is accepted: a single key always
/// is (the root is a table); a longer path is checked level by level.
pub open spec fn spec_set_check(root: TomlNode, path: Seq<Seq<u8>>, sel: Seq<char>) -> Result<
    (),
    SpecEditError,
>
    decreases path.len(),
{
    if path.len() <= 1 {
        Ok(())
    } else {
        spec_set_rest(set_step(root, path[0]), path.drop_first(), sel)
    }
}

proof fn lemma_set_rest_safe(c: TomlNode, rest: Seq<Seq<u8>>, sel: Seq<char>)
    requires
        spec_set_rest(c, rest, sel) is Ok,
    ensures
        assign_safe(c, rest),
    decreases rest.len(),
{
    if rest.len() == 0 {
    } else if rest.len() == 1 {
        assert(assign_safe(set_step(c, rest[0]), rest.drop_first()));
    } else {
        lemma_set_rest_safe(set_step(c, rest[0]), rest.drop_first(), sel);
    }
}

proof fn lemma_set_check_safe(root: TomlNode, path: Seq<Seq<u8>>, sel: Seq<char>)
    requires
        spec_set_check(root, path, sel) is Ok,
        root is Table,
        path.len() >= 1,
    ensures
        assign_safe(root, path),
{
    if path.len() == 1 {
        assert(assign_safe(set_step(root, path[0]), path.drop_first()));
    } else {
        lemma_set_rest_safe(set_step(root, path[0]), path.drop_first(), sel);
    }
}

/// Check the write path below the first key, mirroring [`spec_set_rest`]:
/// `cur` is the item the traversal holds, `None` standing for a missing
/// entry that the write would create.
fn check_set_rest(
    cur: Option<&toml_edit::Item>,
    keys: &Vec<String>,
    i: usize,
    selector: &str,
) -> (r: Result<(), EditError>)
    requires
        1 <= i < keys.len(),
        cur matches Some(it) ==> !(toml_item(it) is Missing),
    ensures
        ({
            let c = match cur {
                Some(it) => toml_item(it),
                None => TomlNode::Missing,
            };
            let rest = strs_bytes(keys.deep_view()).skip(i as int);
            match r {
                Ok(()) => spec_set_rest(c, rest, selector@) is Ok,
                Err(e) => spec_set_rest(c, rest, selector@) == Err::<(), _>(e@),
            }
        }),
    decreases keys.len() - i,
{
    let ghost rest = strs_bytes(keys.deep_view()).skip(i as int);
    proof {
        assert(rest[0] == encode_utf8(keys.deep_view()[i as int]));
        assert(keys.deep_view()[i as int] == keys@[i as int]@);
        assert(rest.drop_first() =~= strs_bytes(keys.deep_view()).skip(i as int + 1));
    }
    match cur {
        None => {
            if i + 1 == keys.len() {
                Ok(())
            } else {
                check_set_rest(None, keys, i + 1, selector)
            }
        },
        Some(it) => {
            if item_is_array_of_tables(it) {
                return Err(EditError::ArrayOfTables);
            }
            if !item_is_table_like(it) {
                return Err(
                    EditError::TomlKeyNotFound { selector: String::from_str(selector) },
                );
            }
            if i + 1 == keys.len() {
                return Ok(());
            }
            match item_get(it, keys[i].as_str()) {
                Some(sub) => check_set_rest(Some(sub), keys, i + 1, selector),
                None => check_set_rest(None, keys, i + 1, selector),
            }
        },
    }
}

/// Check the whole write path, mirroring [`spec_set_check`]: a single key
/// always passes (the root is a table); a longer path is checked level by
/// level, without touching the document.
fn check_set(
    d: &toml_edit::DocumentMut,
    keys: &Vec<String>,
    selector: &str,
) -> (r: Result<(), EditError>)
    requires
        toml_root(d) is Table,
        keys.len() >= 1,
    ensures
        ({
            let path = strs_bytes(keys.deep_view());
            match r {
                Ok(()) => spec_set_check(toml_root(d), path, selector@) is Ok,
                Err(e) => spec_set_check(toml_root(d), path, selector@) == Err::<(), _>(e@),
            }
        }),
{
    let ghost path = strs_bytes(keys.deep_view());
    if keys.len() >= 2 {
        proof {
            assert(path[0] == encode_utf8(keys.deep_view()[0]));
            assert(keys.deep_view()[0] == keys@[0]@);
            assert(path.drop_first() =~= path.skip(1));
        }
        let first = doc_get(d, keys[0].as_str());
        match first {
            Some(it) => check_set_rest(Some(it), keys, 1, selector),
            None => check_set_rest(None, keys, 1, selector),
        }
    } else {
        Ok(())
    }
}

proof fn lemma_set_rest_err_kind(c: TomlNode, rest: Seq<Seq<u8>>, sel: Seq<char>)
    ensures
        match spec_set_rest(c, rest, sel) {
            Err(e) => e is ArrayOfTables || e is TomlKeyNotFound,
            Ok(_) => true,
        },
    decreases rest.len(),
{
    if !(c is ArrayOfTables) && (c is Table || c is Missing) && rest.len() > 1 {
        lemma_set_rest_err_kind(set_step(c, rest[0]), rest.drop_first(), sel);
    }
}

/// A failing write check reports an array of tables or a missing key,
/// nothing else.
pub proof fn lemma_set_check_err_kind(root: TomlNode, path: Seq<Seq<u8>>, sel: Seq<char>)
    ensures
        match spec_set_check(root, path, sel) {
            Err(e) => e is ArrayOfTables || e is TomlKeyNotFound,
            Ok(_) => true,
        },
{
    if path.len() > 1 {
        lemma_set_rest_err_kind(set_step(root, path[0]), path.drop_first(), sel);
    }
}

/// A failing read reports an array of tables or a missing key, nothing
/// else.
pub proof fn lemma_get_value_err_kind(root: TomlNode, path: Seq<Seq<u8>>, sel: Seq<char>)
    ensures
        match spec_get_value(root, path, sel) {
            Err(e) => e is ArrayOfTables || e is TomlKeyNotFound,
            Ok(_) => true,
        },
    decreases path.len(),
{
    if path.len() > 1 {
        match get_step(root, path[0]) {
            Some(c) => {
                if !(c is ArrayOfTables) {
                    lemma_get_value_err_kind(c, path.drop_first(), sel);
                }
            },
            None => {},
        }
    }
}

proof fn lemma_get_ok_set_rest(c: TomlNode, rest: Seq<Seq<u8>>, sel: Seq<char>)
    requires
        spec_get_value(c, rest, sel) is Ok,
        !(c is ArrayOfTables),
        rest.len() >= 1,
    ensures
        spec_set_rest(c, rest, sel) is Ok,
    decreases rest.len(),
{
    if rest.len() == 1 {
        assert(get_step(c, rest[0]) is Some);
        assert(c is Table);
    } else {
        match get_step(c, rest[0]) {
            Some(sub) => {
                assert(c is Table);
                assert(set_step(c, rest[0]) == sub);
                lemma_get_ok_set_rest(sub, rest.drop_first(), sel);
            },
            None => {
                assert(false);
            },
        }
    }
}

/// A selector whose value a query reads can also be written: the sentinel
/// substitution after a successful read never fails its checks.
pub proof fn lemma_get_ok_implies_set_ok(root: TomlNode, path: Seq<Seq<u8>>, sel: Seq<char>)
    requires
        spec_get_value(root, path, sel) is Ok,
    ensures
        spec_set_check(root, path, sel) is Ok,
{
    if path.len() > 1 {
        match get_step(root, path[0]) {
            Some(c) => {
                assert(root is Table);
                assert(set_step(root, path[0]) == c);
                lemma_get_ok_set_rest(c, path.drop_first(), sel);
            },
            None => {
                assert(false);
            },
        }
    }
}

// ---------------------------------------------------------------------------
// The public editor
// ---------------------------------------------------------------------------

/// Whether an edit of `sel` in `text` is accepted: the text must parse and
/// the write path must pass its checks.
pub open spec fn spec_toml_edit_check(text: Seq<char>, sel: Seq<char>) -> Result<
    (),
    SpecEditError,
> {
    match toml_doc_of(text) {
        None => Err(SpecEditError::ParseFailure),
        Some(root) => spec_set_check(root, spec_sel_keys(sel), sel),
    }
}

/// The string value a query of `sel` in `text` returns.
pub open spec fn spec_toml_query_value(text: Seq<char>, sel: Seq<char>) -> Result<
    Seq<u8>,
    SpecEditError,
> {
    match toml_doc_of(text) {
        None => Err(SpecEditError::ParseFailure),
        Some(root) => match spec_get_value(root, spec_sel_keys(sel), sel) {
            Err(e) => Err(e),
            Ok(node) => match node {
                TomlNode::Str(b) => Ok(b),
                _ => Err(SpecEditError::NotAString { selector: sel }),
            },
        },
    }
}

/// Update a TOML file with a new value at a dot-separated selector.
///
/// The selector is a dot-separated list of keys to the value; missing
/// intermediate tables are created; a selector running into an array of
/// tables fails and leaves the text unedited.  The returned text is the
/// edited document exactly as `toml_edit` renders it, with the formatting
/// of everything but the edited value preserved, and it parses back to
/// the updated tree.
pub fn edit(file_content: &str, selector: &str, new_value: &str) -> (r: Result<
    String,
    EditError,
>)
    ensures
        match r {
            Ok(s) => spec_toml_edit_check(file_content@, selector@) is Ok && s@
                == toml_assigned_render(
                file_content@,
                spec_sel_keys(selector@),
                encode_utf8(new_value@),
            ) && toml_doc_of(s@) == Some(
                spec_assign(
                    toml_doc_of(file_content@)->Some_0,
                    spec_sel_keys(selector@),
                    encode_utf8(new_value@),
                ),
            ),
            Err(e) => spec_toml_edit_check(file_content@, selector@) == Err::<(), _>(e@),
        },
        r is Ok <==> spec_toml_edit_check(file_content@, selector@) is Ok,
{
    let keys = keys_from_selector(selector);
    let doc = match parse_toml(file_content) {
        Ok(d) => d,
        Err(detail) => {
            return Err(EditError::ParseFailure { detail });
        },
    };
    match check_set(&doc, &keys, selector) {
        Ok(()) => {},
        Err(e) => {
            proof {
                lemma_set_check_err_kind(
                    toml_root(&doc),
                    strs_bytes(keys.deep_view()),
                    selector@,
                );
            }
            return Err(e);
        },
    }
    proof {
        lemma_set_check_safe(toml_root(&doc), strs_bytes(keys.deep_view()), selector@);
    }
    match assigned_render(file_content, &keys, new_value) {
        Some(s) => Ok(s),
        None => {
            proof {
                assert(false);
            }
            Err(EditError::LineNumberNotFound)
        },
    }
}

/// The 1-based index of the first line of `pieces` containing `needle`.
pub open spec fn spec_first_containing(pieces: Seq<Seq<u8>>, needle: Seq<u8>) -> Option<int>
    decreases pieces.len(),
{
    if pieces.len() == 0 {
        None
    } else if spec_contains(pieces[0], needle) {
        Some(0)
    } else {
        match spec_first_containing(pieces.drop_first(), needle) {
            Some(i) => Some(i + 1),
            None => None,
        }
    }
}

fn line_containing_from(pieces: &Vec<Vec<u8>>, j: usize, needle: &[u8]) -> (r: Option<usize>)
    requires
        j <= pieces.len(),
    ensures
        match r {
            Some(i) => j <= i < pieces.len() && spec_first_containing(
                pieces.deep_view().skip(j as int),
                needle@,
            ) == Some(i - j),
            None => spec_first_containing(pieces.deep_view().skip(j as int), needle@) is None,
        },
    decreases pieces.len() - j,
{
    if j == pieces.len() {
        proof {
            assert(pieces.deep_view().skip(j as int) =~= Seq::<Seq<u8>>::empty());
        }
        return None;
    }
    proof {
        assert(pieces.deep_view().skip(j as int)[0] == pieces.deep_view()[j as int]);
        assert(pieces.deep_view()[j as int] == pieces@[j as int]@);
        assert(pieces.deep_view().skip(j as int).drop_first() =~= pieces.deep_view().skip(
            j as int + 1,
        ));
    }
    if crate::bytes::contains_bytes(pieces[j].as_slice(), needle) {
        Some(j)
    } else {
        line_containing_from(pieces, j + 1, needle)
    }
}

/// The bytes of the sentinel that the line scan substitutes.
pub open spec fn spec_detector_bytes() -> Seq<u8> {
    encode_utf8("<<<<<<<monoverse-detector>>>>>>"@)
}

/// The 1-based line the sentinel lands on when written at the selector's
/// path and the document is re-rendered; `None` when the sentinel never
/// appears in the rendered text.
pub open spec fn spec_sentinel_line(text: Seq<char>, sel: Seq<char>) -> Option<int> {
    let rendered = toml_assigned_render(text, spec_sel_keys(sel), spec_detector_bytes());
    match spec_first_containing(
        spec_split(encode_utf8(rendered), 10),
        spec_detector_bytes(),
    ) {
        Some(i) => Some(i + 1),
        None => None,
    }
}

/// Query a TOML file for a value at a dot-separated selector: the string
/// value, and the 1-based line it lands on when rewritten — found by
/// substituting a sentinel value and scanning the re-rendered document.
pub fn query(file_content: &str, selector: &str) -> (r: Result<LineContext, EditError>)
    ensures
        match r {
            Ok(lc) => spec_toml_query_value(file_content@, selector@) == Ok::<
                _,
                SpecEditError,
            >(encode_utf8(lc.value@)) && Some(lc.line_number as int) == spec_sentinel_line(
                file_content@,
                selector@,
            ),
            Err(e) => if e@ == SpecEditError::LineNumberNotFound {
                spec_toml_query_value(file_content@, selector@) is Ok && spec_sentinel_line(
                    file_content@,
                    selector@,
                ) is None
            } else {
                spec_toml_query_value(file_content@, selector@) == Err::<Seq<u8>, _>(e@)
            },
        },
        r is Ok <==> (spec_toml_query_value(file_content@, selector@) is Ok
            && spec_sentinel_line(file_content@, selector@) is Some),
{
    let keys = keys_from_selector(selector);
    let doc = match parse_toml(file_content) {
        Ok(d) => d,
        Err(detail) => {
            return Err(EditError::ParseFailure { detail });
        },
    };
    let root = doc_as_item(&doc);
    proof {
        assert(strs_bytes(keys.deep_view()).skip(0) =~= strs_bytes(keys.deep_view()));
    }
    let value = match get_value_from(root, &keys, 0, selector) {
        Ok(v) => v,
        Err(e) => {
            proof {
                lemma_get_value_err_kind(
                    toml_root(&doc),
                    strs_bytes(keys.deep_view()),
                    selector@,
                );
            }
            return Err(e);
        },
    };
    proof {
        lemma_get_ok_implies_set_ok(toml_root(&doc), strs_bytes(keys.deep_view()), selector@);
        lemma_set_check_safe(toml_root(&doc), strs_bytes(keys.deep_view()), selector@);
    }
    let detector = "<<<<<<<monoverse-detector>>>>>>";
    let rendered = match assigned_render(file_content, &keys, detector) {
        Some(s) => s,
        None => {
            proof {
                assert(false);
            }
            return Err(EditError::LineNumberNotFound);
        },
    };
    let rendered_bytes = str_to_bytes(rendered.as_str());
    let needle = str_to_bytes(detector);
    let lines = split_bytes(rendered_bytes.as_slice(), 10);
    proof {
        assert(lines.deep_view().skip(0) =~= lines.deep_view());
    }
    match line_containing_from(&lines, 0, needle.as_slice()) {
        Some(i) => Ok(LineContext { value, line_number: i + 1 }),
        None => Err(EditError::LineNumberNotFound),
    }
}

/// Query a TOML file for the string value at a dot-separated selector,
/// without a line number.
pub fn query_value(file_content: &str, selector: &str) -> (r: Result<String, EditError>)
    ensures
        match r {
            Ok(s) => spec_toml_query_value(file_content@, selector@) == Ok::<
                _,
                SpecEditError,
            >(encode_utf8(s@)),
            Err(e) => spec_toml_query_value(file_content@, selector@) == Err::<Seq<u8>, _>(
                e@,
            ),
        },
        r is Ok <==> spec_toml_query_value(file_content@, selector@) is Ok,
{
    let keys = keys_from_selector(selector);
    let doc = match parse_toml(file_content) {
        Ok(d) => d,
        Err(detail) => {
            return Err(EditError::ParseFailure { detail });
        },
    };
    let root = doc_as_item(&doc);
    proof {
        assert(strs_bytes(keys.deep_view()).skip(0) =~= strs_bytes(keys.deep_view()));
        lemma_get_value_err_kind(toml_root(&doc), strs_bytes(keys.deep_view()), selector@);
    }
    get_value_from(root, &keys, 0, selector)
}

} // verus!
