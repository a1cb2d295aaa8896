//! Decoder for the component-tree encoding of the modern dialect.
//!
//! The raw payload is normalized first: inside any nested `extra` array, a
//! bare string entry is promoted to an object holding only a `text` field.
//! The normalized tree is then read into typed nodes and decoded depth-first
//! in document order: a node's own text becomes one segment carrying only
//! that node's explicitly set color, bold and italic — children inherit
//! nothing.  The top-level node's own text is finally decoded through the
//! legacy encoding and appended, as the two encodings may coexist in one
//! description.  A payload that fails to parse or to type yields the fixed
//! placeholder segment instead of an error.

use vstd::prelude::*;

use crate::json::{jval_of, json_parse, jvals_of, jfields_of, lemma_jfields_of_pointwise,
    lemma_jvals_of_pointwise, parse_json, JsonValue, JVal};
use crate::legacy::{decode_legacy, decode_legacy_spec};
use crate::style::{color_of_name, name_color, Rgb, SegView, StyleSet, StyledSegment};

verus! {

// ---------------------------------------------------------------------------
// Normalization
// ---------------------------------------------------------------------------

/// The value of one `extra` entry after normalization: a bare string becomes
/// an object with only a `text` field; an object has its own `extra` array
/// normalized in turn; anything else is kept as it is.
pub open spec fn norm_entry(v: JVal) -> JVal
    decreases v,
{
    match v {
        JVal::Str(s) => JVal::Obj(seq![("text"@, JVal::Str(s))]),
        JVal::Obj(fields) => JVal::Obj(norm_fields(fields)),
        _ => v,
    }
}

/// Object fields after normalization: only an `extra` field holding an array
/// changes, each of its entries normalized.
pub open spec fn norm_fields(fields: Seq<(Seq<char>, JVal)>) -> Seq<(Seq<char>, JVal)>
    decreases fields,
{
    if fields.len() == 0 {
        Seq::empty()
    } else {
        let k = fields[0].0;
        let v = fields[0].1;
        let v2 = match v {
            JVal::Arr(items) => if k == "extra"@ {
                JVal::Arr(norm_entries(items))
            } else {
                v
            },
            _ => v,
        };
        seq![(k, v2)] + norm_fields(fields.skip(1))
    }
}

/// The entries of an `extra` array after normalization, in order.
pub open spec fn norm_entries(items: Seq<JVal>) -> Seq<JVal>
    decreases items,
{
    if items.len() == 0 {
        Seq::empty()
    } else {
        seq![norm_entry(items[0])] + norm_entries(items.skip(1))
    }
}

/// A whole payload after normalization.  Only an object is touched: its
/// `extra` array, if any, is normalized.  In particular a bare string at the
/// top level is not promoted.
pub open spec fn norm_top(v: JVal) -> JVal {
    match v {
        JVal::Obj(fields) => JVal::Obj(norm_fields(fields)),
        _ => v,
    }
}

/// `norm_entries` maps the sequence pointwise.
pub proof fn lemma_norm_entries_pointwise(items: Seq<JVal>)
    ensures
        norm_entries(items).len() == items.len(),
        forall|i: int| 0 <= i < items.len() ==> norm_entries(items)[i] == norm_entry(items[i]),
    decreases items.len(),
{
    if items.len() > 0 {
        lemma_norm_entries_pointwise(items.skip(1));
        assert forall|i: int| 0 <= i < items.len() implies norm_entries(items)[i] == norm_entry(
            items[i],
        ) by {
            if i > 0 {
                assert(norm_entries(items)[i] == norm_entries(items.skip(1))[i - 1]);
                assert(items.skip(1)[i - 1] == items[i]);
            }
        }
    }
}

/// A bare string entry and the object holding only that string under `text`
/// normalize to the same value: after normalization the two are structurally
/// indistinguishable.
pub proof fn lemma_string_entry_like_text_object(s: Seq<char>)
    ensures
        norm_entry(JVal::Str(s)) == norm_entry(JVal::Obj(seq![("text"@, JVal::Str(s))])),
{
    reveal_strlit("text");
    reveal_strlit("extra");
    let fields = seq![("text"@, JVal::Str(s))];
    assert(fields.skip(1) =~= Seq::<(Seq<char>, JVal)>::empty());
    assert(norm_fields(fields) =~= fields);
}

// ---------------------------------------------------------------------------
// Typed extraction
// ---------------------------------------------------------------------------

/// One typed component-tree node.
pub struct DescNode {
    pub text: String,
    pub color: Option<String>,
    pub bold: Option<bool>,
    pub italic: Option<bool>,
    pub extra: Vec<DescNode>,
}

/// The mathematical value of a [`DescNode`].
pub struct DescView {
    pub text: Seq<char>,
    pub color: Option<Seq<char>>,
    pub bold: Option<bool>,
    pub italic: Option<bool>,
    pub extra: Seq<DescView>,
}

/// The mathematical value of a [`DescNode`].
pub open spec fn desc_view(n: DescNode) -> DescView
    decreases n,
{
    DescView {
        text: n.text@,
        color: match n.color {
            Some(c) => Some(c@),
            None => None,
        },
        bold: n.bold,
        italic: n.italic,
        extra: desc_views(n.extra@),
    }
}

/// The mathematical values of a node sequence, in order.
pub open spec fn desc_views(ns: Seq<DescNode>) -> Seq<DescView>
    decreases ns,
{
    if ns.len() == 0 {
        Seq::empty()
    } else {
        seq![desc_view(ns[0])] + desc_views(ns.skip(1))
    }
}

/// `desc_views` maps the sequence pointwise.
pub proof fn lemma_desc_views_pointwise(ns: Seq<DescNode>)
    ensures
        desc_views(ns).len() == ns.len(),
        forall|i: int| 0 <= i < ns.len() ==> desc_views(ns)[i] == desc_view(ns[i]),
    decreases ns.len(),
{
    if ns.len() > 0 {
        lemma_desc_views_pointwise(ns.skip(1));
        assert forall|i: int| 0 <= i < ns.len() implies desc_views(ns)[i] == desc_view(
            ns[i],
        ) by {
            if i > 0 {
                assert(desc_views(ns)[i] == desc_views(ns.skip(1))[i - 1]);
                assert(ns.skip(1)[i - 1] == ns[i]);
            }
        }
    }
}

/// The value of the first field with the given key, if any.
pub open spec fn lookup(fields: Seq<(Seq<char>, JVal)>, key: Seq<char>) -> Option<JVal>
    decreases fields,
{
    if fields.len() == 0 {
        None
    } else if fields[0].0 == key {
        Some(fields[0].1)
    } else {
        lookup(fields.skip(1), key)
    }
}

/// How one optional string-typed field reads: absent or null is no value, a
/// string is its value, any other shape fails the whole node.
pub open spec fn read_opt_str(f: Option<JVal>) -> Option<Option<Seq<char>>> {
    match f {
        None => Some(None),
        Some(JVal::Null) => Some(None),
        Some(JVal::Str(s)) => Some(Some(s)),
        Some(_) => None,
    }
}

/// How one optional boolean field reads, as `read_opt_str` does for strings.
pub open spec fn read_opt_bool(f: Option<JVal>) -> Option<Option<bool>> {
    match f {
        None => Some(None),
        Some(JVal::Null) => Some(None),
        Some(JVal::Bool(b)) => Some(Some(b)),
        Some(_) => None,
    }
}

/// The typed children read from an object's fields: the value of the first
/// `extra` field, which must be absent, null, or an array of well-typed
/// nodes.
pub open spec fn extract_extra(fields: Seq<(Seq<char>, JVal)>) -> Option<Seq<DescView>>
    decreases fields,
{
    if fields.len() == 0 {
        Some(Seq::empty())
    } else if fields[0].0 == "extra"@ {
        match fields[0].1 {
            JVal::Null => Some(Seq::empty()),
            JVal::Arr(items) => extract_nodes(items),
            _ => None,
        }
    } else {
        extract_extra(fields.skip(1))
    }
}

/// The typed node a (normalized) value reads as: an object whose `text` is a
/// string, whose `color`, `bold` and `italic` are absent, null or of their
/// one type, and whose `extra` children all read as nodes in turn.  Anything
/// else fails.
pub open spec fn extract_node(v: JVal) -> Option<DescView>
    decreases v,
{
    match v {
        JVal::Obj(fields) => match lookup(fields, "text"@) {
            Some(JVal::Str(text)) => match (
                read_opt_str(lookup(fields, "color"@)),
                read_opt_bool(lookup(fields, "bold"@)),
                read_opt_bool(lookup(fields, "italic"@)),
                extract_extra(fields),
            ) {
                (Some(color), Some(bold), Some(italic), Some(extra)) => Some(
                    DescView { text, color, bold, italic, extra },
                ),
                _ => None,
            },
            _ => None,
        },
        _ => None,
    }
}

/// The typed nodes an `extra` array reads as: every entry must read as one.
pub open spec fn extract_nodes(items: Seq<JVal>) -> Option<Seq<DescView>>
    decreases items,
{
    if items.len() == 0 {
        Some(Seq::empty())
    } else {
        match (extract_node(items[0]), extract_nodes(items.skip(1))) {
            (Some(d), Some(ds)) => Some(seq![d] + ds),
            _ => None,
        }
    }
}

/// `extract_nodes` succeeds exactly when every entry reads as a node, and
/// then reads the sequence pointwise.
pub proof fn lemma_extract_nodes_pointwise(items: Seq<JVal>)
    ensures
        extract_nodes(items) is Some <==> (forall|i: int|
            0 <= i < items.len() ==> extract_node(#[trigger] items[i]) is Some),
        extract_nodes(items) matches Some(ds) ==> ds.len() == items.len() && (forall|i: int|
            0 <= i < items.len() ==> Some(#[trigger] ds[i]) == extract_node(items[i])),
    decreases items.len(),
{
    if items.len() > 0 {
        let tail = items.skip(1);
        lemma_extract_nodes_pointwise(tail);
        assert(tail.len() == items.len() - 1);
        if forall|i: int| 0 <= i < items.len() ==> extract_node(#[trigger] items[i]) is Some {
            assert forall|i: int| 0 <= i < tail.len() implies extract_node(
                #[trigger] tail[i],
            ) is Some by {
                assert(tail[i] == items[i + 1]);
                assert(extract_node(items[i + 1]) is Some);
            }
            assert(extract_node(items[0]) is Some);
            assert(extract_nodes(items) is Some);
        }
        if extract_node(items[0]) is Some && extract_nodes(tail) is Some {
            let d = extract_node(items[0])->0;
            let ds = extract_nodes(tail)->0;
            assert(extract_nodes(items) == Some(seq![d] + ds));
            assert forall|i: int| 0 <= i < items.len() implies extract_node(
                #[trigger] items[i],
            ) is Some by {
                if i > 0 {
                    assert(tail[i - 1] == items[i]);
                    assert(extract_node(tail[i - 1]) is Some);
                }
            }
            assert forall|i: int| 0 <= i < items.len() implies Some(
                #[trigger] (seq![d] + ds)[i],
            ) == extract_node(items[i]) by {
                if i > 0 {
                    assert((seq![d] + ds)[i] == ds[i - 1]);
                    assert(tail[i - 1] == items[i]);
                }
            }
        } else {
            assert(extract_nodes(items) is None);
            if extract_node(items[0]) is Some {
                assert(extract_nodes(tail) is None);
                let ghost j = choose|j: int|
                    0 <= j < tail.len() && !(extract_node(#[trigger] tail[j]) is Some);
                assert(tail[j] == items[j + 1]);
                assert(!(extract_node(items[j + 1]) is Some));
            }
        }
    }
}

// ---------------------------------------------------------------------------
// Decoding the typed tree
// ---------------------------------------------------------------------------

/// The one segment a node emits for its own text: only that node's explicit
/// color, bold and italic, resolved through the name palette.
pub open spec fn own_segment(n: DescView) -> SegView {
    SegView {
        text: n.text,
        color: match n.color {
            Some(c) => name_color(c),
            None => None,
        },
        styles: StyleSet {
            obfuscated: false,
            bold: n.bold == Some(true),
            strikethrough: false,
            underline: false,
            italic: n.italic == Some(true),
        },
    }
}

/// The segments a node emits: its own text first, then each child in array
/// order, depth-first.
pub open spec fn decode_node(n: DescView) -> Seq<SegView>
    decreases n,
{
    seq![own_segment(n)] + decode_nodes(n.extra)
}

/// The segments a node sequence emits, in order.
pub open spec fn decode_nodes(ns: Seq<DescView>) -> Seq<SegView>
    decreases ns,
{
    if ns.len() == 0 {
        Seq::empty()
    } else {
        decode_node(ns[0]) + decode_nodes(ns.skip(1))
    }
}

/// A node's subtree in document (pre-)order: the node, then each child's
/// subtree.
pub open spec fn preorder(n: DescView) -> Seq<DescView>
    decreases n,
{
    seq![n] + preorder_all(n.extra)
}

/// The subtrees of a node sequence in document order.
pub open spec fn preorder_all(ns: Seq<DescView>) -> Seq<DescView>
    decreases ns,
{
    if ns.len() == 0 {
        Seq::empty()
    } else {
        preorder(ns[0]) + preorder_all(ns.skip(1))
    }
}

/// No inheritance: the emitted segments are exactly the nodes of the tree in
/// document order, each mapped to its own segment — no segment carries a
/// color or style attribute that its own node does not set.
pub proof fn lemma_decode_node_no_inheritance(n: DescView)
    ensures
        decode_node(n) == preorder(n).map_values(|m: DescView| own_segment(m)),
    decreases n,
{
    lemma_decode_nodes_no_inheritance(n.extra);
    assert(decode_node(n) =~= preorder(n).map_values(|m: DescView| own_segment(m)));
}

/// The sequence form of [`lemma_decode_node_no_inheritance`].
pub proof fn lemma_decode_nodes_no_inheritance(ns: Seq<DescView>)
    ensures
        decode_nodes(ns) == preorder_all(ns).map_values(|m: DescView| own_segment(m)),
    decreases ns,
{
    if ns.len() == 0 {
        assert(decode_nodes(ns) =~= preorder_all(ns).map_values(|m: DescView| own_segment(m)));
    } else {
        lemma_decode_node_no_inheritance(ns[0]);
        lemma_decode_nodes_no_inheritance(ns.skip(1));
        assert(preorder_all(ns) == preorder(ns[0]) + preorder_all(ns.skip(1)));
        assert(decode_nodes(ns) =~= preorder_all(ns).map_values(|m: DescView| own_segment(m)));
    }
}

// ---------------------------------------------------------------------------
// Executable extraction
// ---------------------------------------------------------------------------

/// The normalized value of one field: only an `extra` array changes.
pub open spec fn norm_field_value(k: Seq<char>, v: JVal) -> JVal {
    match v {
        JVal::Arr(items) => if k == "extra"@ {
            JVal::Arr(norm_entries(items))
        } else {
            v
        },
        _ => v,
    }
}

/// Looking a key up after normalization reads the normalized value of what
/// the raw lookup finds.
proof fn lemma_lookup_norm(fields: Seq<(Seq<char>, JVal)>, key: Seq<char>)
    ensures
        lookup(norm_fields(fields), key) == match lookup(fields, key) {
            None => None,
            Some(v) => Some(norm_field_value(key, v)),
        },
    decreases fields.len(),
{
    if fields.len() > 0 {
        lemma_lookup_norm(fields.skip(1), key);
        let nf = norm_fields(fields);
        assert(nf[0].0 == fields[0].0);
        assert(nf.skip(1) =~= norm_fields(fields.skip(1)));
        if fields[0].0 == key {
            assert(nf[0].1 == norm_field_value(key, fields[0].1));
        }
    }
}

/// Reading the children after normalization normalizes the raw `extra`
/// array's entries first.
proof fn lemma_extract_extra_norm(fields: Seq<(Seq<char>, JVal)>)
    ensures
        extract_extra(norm_fields(fields)) == match lookup(fields, "extra"@) {
            None => Some(Seq::<DescView>::empty()),
            Some(JVal::Null) => Some(Seq::<DescView>::empty()),
            Some(JVal::Arr(items)) => extract_nodes(norm_entries(items)),
            Some(_) => None,
        },
    decreases fields.len(),
{
    if fields.len() > 0 {
        lemma_extract_extra_norm(fields.skip(1));
        let nf = norm_fields(fields);
        assert(nf[0].0 == fields[0].0);
        assert(nf.skip(1) =~= norm_fields(fields.skip(1)));
        if fields[0].0 == "extra"@ {
            assert(nf[0].1 == norm_field_value("extra"@, fields[0].1));
        }
    }
}

/// Finds the first field with the given key.
fn obj_get<'a>(fields: &'a Vec<(String, JsonValue)>, key: &str) -> (r: Option<&'a JsonValue>)
    ensures
        r matches Some(x) ==> lookup(jfields_of(fields@), key@) == Some(jval_of(*x)),
        r matches Some(x) ==> exists|i: int| 0 <= i < fields@.len() && *x == fields@[i].1,
        r is None ==> lookup(jfields_of(fields@), key@) is None,
{
    proof {
        lemma_jfields_of_pointwise(fields@);
    }
    let n = fields.len();
    let mut j: usize = 0;
    while j < n
        invariant
            n == fields@.len(),
            j <= n,
            forall|i: int| 0 <= i < j ==> fields@[i].0@ != key@,
            forall|i: int| 0 <= i < fields@.len() ==> jfields_of(fields@)[i] == (
                fields@[i].0@,
                jval_of(fields@[i].1),
            ),
            jfields_of(fields@).len() == fields@.len(),
        decreases n - j,
    {
        if crate::style::str_eq(fields[j].0.as_str(), key) {
            proof {
                lemma_lookup_prefix_miss(jfields_of(fields@), key@, j as int);
            }
            return Some(&fields[j].1);
        }
        j += 1;
    }
    proof {
        lemma_lookup_prefix_miss(jfields_of(fields@), key@, n as int);
    }
    None
}

/// If the first `j` fields all miss the key, the lookup is decided by the
/// rest; at a hit on position `j` it returns that value, and past the end it
/// returns nothing.
proof fn lemma_lookup_prefix_miss(fields: Seq<(Seq<char>, JVal)>, key: Seq<char>, j: int)
    requires
        0 <= j <= fields.len(),
        forall|i: int| 0 <= i < j ==> fields[i].0 != key,
    ensures
        j < fields.len() && fields[j].0 == key ==> lookup(fields, key) == Some(fields[j].1),
        j == fields.len() ==> lookup(fields, key) is None,
    decreases j,
{
    if j == 0 {
    } else {
        assert(fields[0].0 != key);
        lemma_lookup_prefix_miss(fields.skip(1), key, j - 1);
        assert(forall|i: int| 0 <= i < fields.skip(1).len() ==> fields.skip(1)[i] == fields[i + 1]);
    }
}

/// Reads the typed node out of a raw object's fields, normalizing on the
/// way: the result is what typed extraction yields on the normalized object.
fn extract_obj(fields: &Vec<(String, JsonValue)>) -> (r: Option<DescNode>)
    ensures
        r matches Some(d) ==> extract_node(JVal::Obj(norm_fields(jfields_of(fields@)))) == Some(
            desc_view(d),
        ),
        r is None ==> extract_node(JVal::Obj(norm_fields(jfields_of(fields@)))) is None,
    decreases fields@,
{
    let ghost jf = jfields_of(fields@);
    proof {
        lemma_lookup_norm(jf, "text"@);
        lemma_lookup_norm(jf, "color"@);
        lemma_lookup_norm(jf, "bold"@);
        lemma_lookup_norm(jf, "italic"@);
        lemma_extract_extra_norm(jf);
    }
    let text: String = match obj_get(fields, "text") {
        Some(JsonValue::Str(s)) => s.clone(),
        _ => {
            return None;
        },
    };
    let color: Option<String> = match obj_get(fields, "color") {
        None => None,
        Some(JsonValue::Null) => None,
        Some(JsonValue::Str(s)) => Some(s.clone()),
        _ => {
            return None;
        },
    };
    let bold: Option<bool> = match obj_get(fields, "bold") {
        None => None,
        Some(JsonValue::Null) => None,
        Some(JsonValue::Bool(b)) => Some(*b),
        _ => {
            return None;
        },
    };
    let italic: Option<bool> = match obj_get(fields, "italic") {
        None => None,
        Some(JsonValue::Null) => None,
        Some(JsonValue::Bool(b)) => Some(*b),
        _ => {
            return None;
        },
    };
    let extra: Vec<DescNode> = match obj_get(fields, "extra") {
        None => Vec::new(),
        Some(JsonValue::Null) => Vec::new(),
        Some(JsonValue::Arr(items)) => {
            match extract_entries(items) {
                Some(ds) => ds,
                None => {
                    return None;
                },
            }
        },
        _ => {
            return None;
        },
    };
    let node = DescNode { text, color, bold, italic, extra };
    proof {
        assert(extract_node(JVal::Obj(norm_fields(jf))) == Some(desc_view(node)));
    }
    Some(node)
}

/// Reads the typed nodes out of a raw `extra` array, normalizing on the way.
fn extract_entries(items: &Vec<JsonValue>) -> (r: Option<Vec<DescNode>>)
    ensures
        r matches Some(ds) ==> extract_nodes(norm_entries(jvals_of(items@))) == Some(
            desc_views(ds@),
        ),
        r is None ==> extract_nodes(norm_entries(jvals_of(items@))) is None,
    decreases items@,
{
    proof {
        lemma_jvals_of_pointwise(items@);
        lemma_norm_entries_pointwise(jvals_of(items@));
        lemma_extract_nodes_pointwise(norm_entries(jvals_of(items@)));
    }
    let ghost ne = norm_entries(jvals_of(items@));
    let n = items.len();
    let mut out: Vec<DescNode> = Vec::new();
    let mut j: usize = 0;
    while j < n
        invariant
            n == items@.len(),
            j <= n,
            out@.len() == j,
            ne == norm_entries(jvals_of(items@)),
            ne.len() == n,
            forall|i: int| 0 <= i < n ==> ne[i] == norm_entry(jval_of(items@[i])),
            forall|i: int| 0 <= i < j ==> extract_node(#[trigger] ne[i]) == Some(
                desc_view(out@[i]),
            ),
        decreases n - j,
    {
        proof {
            assert(decreases_to!(items@ => items@[j as int]));
        }
        match extract_entry(&items[j]) {
            Some(d) => {
                out.push(d);
            },
            None => {
                proof {
                    assert(extract_node(ne[j as int]) is None);
                    lemma_extract_nodes_pointwise(ne);
                }
                return None;
            },
        }
        j += 1;
    }
    proof {
        lemma_extract_nodes_pointwise(ne);
        lemma_desc_views_pointwise(out@);
        assert(extract_nodes(ne) is Some);
        let ds = extract_nodes(ne)->0;
        assert(ds =~= desc_views(out@));
    }
    Some(out)
}

/// Reads one raw `extra` entry as a typed node, normalizing on the way: a
/// bare string reads as a node holding only that text.
fn extract_entry(v: &JsonValue) -> (r: Option<DescNode>)
    ensures
        r matches Some(d) ==> extract_node(norm_entry(jval_of(*v))) == Some(desc_view(d)),
        r is None ==> extract_node(norm_entry(jval_of(*v))) is None,
    decreases *v,
{
    match v {
        JsonValue::Str(s) => {
            let node = DescNode {
                text: s.clone(),
                color: None,
                bold: None,
                italic: None,
                extra: Vec::new(),
            };
            proof {
                reveal_strlit("text");
                reveal_strlit("color");
                reveal_strlit("bold");
                reveal_strlit("italic");
                reveal_strlit("extra");
                assert("text"@.len() == 4);
                assert("color"@.len() == 5);
                assert("bold"@.len() == 4);
                assert("italic"@.len() == 6);
                assert("extra"@.len() == 5);
                assert("text"@[0] == 't');
                assert("bold"@[0] == 'b');
                assert("text"@ != "color"@);
                assert("text"@ != "bold"@);
                assert("text"@ != "italic"@);
                assert("text"@ != "extra"@);
                let fs = seq![("text"@, JVal::Str(s@))];
                assert(fs.skip(1) =~= Seq::<(Seq<char>, JVal)>::empty());
                assert(lookup(Seq::<(Seq<char>, JVal)>::empty(), "color"@) is None);
                assert(lookup(Seq::<(Seq<char>, JVal)>::empty(), "bold"@) is None);
                assert(lookup(Seq::<(Seq<char>, JVal)>::empty(), "italic"@) is None);
                assert(extract_extra(Seq::<(Seq<char>, JVal)>::empty()) == Some(
                    Seq::<DescView>::empty(),
                ));
                assert(lookup(fs, "text"@) == Some(JVal::Str(s@)));
                assert(lookup(fs, "color"@) is None);
                assert(lookup(fs, "bold"@) is None);
                assert(lookup(fs, "italic"@) is None);
                assert(extract_extra(fs) == Some(Seq::<DescView>::empty()));
                assert(desc_view(node).extra =~= Seq::<DescView>::empty());
                assert(extract_node(norm_entry(jval_of(*v))) == Some(desc_view(node)));
            }
            Some(node)
        },
        JsonValue::Obj(fields) => extract_obj(fields),
        _ => None,
    }
}

/// Reads a whole raw payload as the typed top-level node, normalizing on the
/// way.  Only an object can read as the top level: in particular a bare
/// string payload fails, as normalization does not promote it.
fn extract_desc(v: &JsonValue) -> (r: Option<DescNode>)
    ensures
        r matches Some(d) ==> extract_node(norm_top(jval_of(*v))) == Some(desc_view(d)),
        r is None ==> extract_node(norm_top(jval_of(*v))) is None,
    decreases *v,
{
    match v {
        JsonValue::Obj(fields) => extract_obj(fields),
        _ => None,
    }
}

// ---------------------------------------------------------------------------
// Executable decoding
// ---------------------------------------------------------------------------

/// `decode_nodes` of one more node appends that node's segments.
proof fn lemma_decode_nodes_snoc(ns: Seq<DescView>, d: DescView)
    ensures
        decode_nodes(ns.push(d)) == decode_nodes(ns) + decode_node(d),
    decreases ns.len(),
{
    if ns.len() == 0 {
        assert(ns.push(d)[0] == d);
        assert(ns.push(d).skip(1) =~= Seq::<DescView>::empty());
        assert(decode_nodes(Seq::<DescView>::empty()) == Seq::<SegView>::empty());
        assert(decode_nodes(ns) + decode_node(d) =~= decode_node(d));
        assert(decode_nodes(ns.push(d)) =~= decode_node(d) + Seq::<SegView>::empty());
        assert(decode_node(d) + Seq::<SegView>::empty() =~= decode_node(d));
    } else {
        lemma_decode_nodes_snoc(ns.skip(1), d);
        assert(ns.push(d)[0] == ns[0]);
        assert(ns.push(d).skip(1) =~= ns.skip(1).push(d));
        assert(decode_nodes(ns.push(d)) == decode_node(ns[0]) + (decode_nodes(ns.skip(1))
            + decode_node(d)));
        assert(decode_node(ns[0]) + (decode_nodes(ns.skip(1)) + decode_node(d)) =~= (decode_node(
            ns[0],
        ) + decode_nodes(ns.skip(1))) + decode_node(d));
    }
}

/// Appends the segments one node emits: its own segment, then its children's.
fn push_node_segments(n: &DescNode, out: &mut Vec<StyledSegment>)
    ensures
        final(out).deep_view() == old(out).deep_view() + decode_node(desc_view(*n)),
    decreases *n,
{
    let color = match &n.color {
        Some(c) => color_of_name(c.as_str()),
        None => None,
    };
    let bold = match n.bold {
        Some(true) => true,
        _ => false,
    };
    let italic = match n.italic {
        Some(true) => true,
        _ => false,
    };
    let seg = StyledSegment {
        text: n.text.clone(),
        color,
        styles: StyleSet {
            obfuscated: false,
            bold,
            strikethrough: false,
            underline: false,
            italic,
        },
    };
    let ghost mid = old(out).deep_view().push(own_segment(desc_view(*n)));
    out.push(seg);
    proof {
        assert(seg@ == own_segment(desc_view(*n)));
        assert(out.deep_view() =~= mid);
    }
    push_nodes_segments(&n.extra, out);
    proof {
        assert(mid + decode_nodes(desc_views(n.extra@)) =~= old(out).deep_view() + decode_node(
            desc_view(*n),
        ));
    }
}

/// Appends the segments a node sequence emits, in order.
fn push_nodes_segments(ns: &Vec<DescNode>, out: &mut Vec<StyledSegment>)
    ensures
        final(out).deep_view() == old(out).deep_view() + decode_nodes(desc_views(ns@)),
    decreases ns@,
{
    proof {
        lemma_desc_views_pointwise(ns@);
    }
    let ghost dvs = desc_views(ns@);
    let n = ns.len();
    let mut j: usize = 0;
    proof {
        assert(dvs.take(0) =~= Seq::<DescView>::empty());
        assert(out.deep_view() =~= old(out).deep_view() + decode_nodes(dvs.take(0)));
    }
    while j < n
        invariant
            n == ns@.len(),
            j <= n,
            dvs == desc_views(ns@),
            dvs.len() == n,
            forall|i: int| 0 <= i < n ==> dvs[i] == desc_view(ns@[i]),
            out.deep_view() == old(out).deep_view() + decode_nodes(dvs.take(j as int)),
        decreases n - j,
    {
        proof {
            assert(decreases_to!(ns@ => ns@[j as int]));
        }
        push_node_segments(&ns[j], out);
        proof {
            lemma_decode_nodes_snoc(dvs.take(j as int), dvs[j as int]);
            assert(dvs.take(j as int).push(dvs[j as int]) =~= dvs.take(j as int + 1));
            assert((old(out).deep_view() + decode_nodes(dvs.take(j as int))) + decode_node(
                dvs[j as int],
            ) =~= old(out).deep_view() + decode_nodes(dvs.take(j as int + 1)));
        }
        j += 1;
    }
    proof {
        assert(dvs.take(n as int) =~= dvs);
    }
}

// ---------------------------------------------------------------------------
// The whole description
// ---------------------------------------------------------------------------

/// The fixed placeholder segment shown when a description cannot be decoded:
/// the failure caption in bold bright red.
pub open spec fn placeholder_segment() -> SegView {
    SegView {
        text: "显示失败"@,
        color: Some(Rgb { r: 255, g: 85, b: 85 }),
        styles: StyleSet {
            obfuscated: false,
            bold: true,
            strikethrough: false,
            underline: false,
            italic: false,
        },
    }
}

/// Builds the fixed placeholder segment.
pub fn placeholder() -> (r: StyledSegment)
    ensures
        r@ == placeholder_segment(),
{
    StyledSegment {
        text: "显示失败".to_owned(),
        color: Some(Rgb { r: 255, g: 85, b: 85 }),
        styles: StyleSet {
            obfuscated: false,
            bold: true,
            strikethrough: false,
            underline: false,
            italic: false,
        },
    }
}

/// The segments a whole description payload decodes to: on a malformed or
/// ill-typed payload the fixed placeholder alone; otherwise the normalized
/// tree's children in document order, followed by the top-level text decoded
/// through the legacy encoding.
pub open spec fn decode_description_spec(p: Option<JVal>) -> Seq<SegView> {
    match p {
        None => seq![placeholder_segment()],
        Some(v) => match extract_node(norm_top(v)) {
            None => seq![placeholder_segment()],
            Some(d) => decode_nodes(d.extra) + decode_legacy_spec(d.text),
        },
    }
}

/// Decodes the modern dialect's raw description payload into its styled
/// segments.  A payload that does not parse as JSON, or whose normalized
/// tree does not type as a component tree, yields exactly the fixed
/// placeholder segment.
pub fn decode_java_description(s: &str) -> (segs: Vec<StyledSegment>)
    ensures
        segs.deep_view() == decode_description_spec(json_parse(s@)),
        json_parse(s@) is None ==> segs.deep_view() == seq![placeholder_segment()],
{
    match parse_json(s) {
        None => {
            let mut segs: Vec<StyledSegment> = Vec::new();
            segs.push(placeholder());
            proof {
                assert(segs.deep_view() =~= seq![placeholder_segment()]);
            }
            segs
        },
        Some(jv) => {
            match extract_desc(&jv) {
                None => {
                    let mut segs: Vec<StyledSegment> = Vec::new();
                    segs.push(placeholder());
                    proof {
                        assert(segs.deep_view() =~= seq![placeholder_segment()]);
                    }
                    segs
                },
                Some(d) => {
                    let mut segs: Vec<StyledSegment> = Vec::new();
                    push_nodes_segments(&d.extra, &mut segs);
                    let mut tail = decode_legacy(d.text.as_str());
                    let ghost head_view = segs.deep_view();
                    let ghost tail_view = tail.deep_view();
                    segs.append(&mut tail);
                    proof {
                        assert(segs.deep_view() =~= head_view + tail_view);
                        assert(Seq::<SegView>::empty() + decode_nodes(desc_views(d.extra@))
                            =~= decode_nodes(desc_views(d.extra@)));
                        assert(desc_view(d).extra == desc_views(d.extra@));
                        assert(desc_view(d).text == d.text@);
                    }
                    segs
                },
            }
        },
    }
}

} // verus!
