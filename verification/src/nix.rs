//! The abstract syntax-tree interface the declaration extractor consumes: a
//! node kind, rendered text, a character span for diagnostics, and children.
//! A host program fills this in from whatever parser produced the tree.

use vstd::prelude::*;

verus! {

use crate::error::Error;
use crate::error::ErrorV;
use crate::error::SourceInfo;
use crate::error::SourceInfoV;
use crate::error::Span;
use crate::strutil::parse_i64;
use crate::strutil::spec_parse_int;
use vstd::string::StrSliceExecFns;

/// The node kinds the extractor distinguishes; everything else is `Other`.
#[derive(Clone, Copy, Debug, PartialEq, Eq, Structural)]
pub enum NodeKind {
    /// A member selection such as `uptix.dockerImage`.
    Select,
    /// A string literal, rendered with its quotes.
    Str,
    /// An attribute set `{ ... }`.
    AttrSet,
    /// One `key = value;` binding inside an attribute set.
    KeyValue,
    /// An integer literal.
    Integer,
    /// A floating-point literal.
    Float,
    /// Any other node.
    Other,
}

/// One node of the parsed tree: its kind, rendered source text, the character
/// offset and length of that text in the file, and its children in order.
pub struct Node {
    pub kind: NodeKind,
    pub text: String,
    pub start: usize,
    pub len: usize,
    pub children: Vec<Node>,
}

/// Diagnostic name of a node kind.
pub open spec fn spec_kind_name(k: NodeKind) -> Seq<char> {
    match k {
        NodeKind::Select => "NODE_SELECT"@,
        NodeKind::Str => "NODE_STRING"@,
        NodeKind::AttrSet => "NODE_ATTR_SET"@,
        NodeKind::KeyValue => "NODE_KEY_VALUE"@,
        NodeKind::Integer => "NODE_LITERAL"@,
        NodeKind::Float => "NODE_LITERAL"@,
        NodeKind::Other => "NODE_OTHER"@,
    }
}

pub fn kind_name(k: NodeKind) -> (r: &'static str)
    ensures
        r@ == spec_kind_name(k),
{
    match k {
        NodeKind::Select => "NODE_SELECT",
        NodeKind::Str => "NODE_STRING",
        NodeKind::AttrSet => "NODE_ATTR_SET",
        NodeKind::KeyValue => "NODE_KEY_VALUE",
        NodeKind::Integer => "NODE_LITERAL",
        NodeKind::Float => "NODE_LITERAL",
        NodeKind::Other => "NODE_OTHER",
    }
}

/// The file a tree was parsed from, carried along for diagnostics.
#[derive(Clone, Debug)]
pub struct ParsingContext {
    pub file: String,
    pub text: String,
}

impl ParsingContext {
    pub fn new(file_path: &str, content: &str) -> (r: ParsingContext)
        ensures
            r.file@ == file_path@,
            r.text@ == content@,
    {
        ParsingContext { file: file_path.to_owned(), text: content.to_owned() }
    }

    /// The source-file record placed into declaration-shape errors.
    pub fn src(&self) -> (r: SourceInfo)
        ensures
            r@ == (SourceInfoV { name: self.file@, text: self.text@ }),
    {
        SourceInfo { name: self.file.clone(), text: self.text.clone() }
    }
}

/// The declaration-shape error raised when `node` was expected to be of kind
/// `expected`: it carries the function name, the source, and the exact span
/// of the offending node.
pub open spec fn spec_unexpected_argument(
    ctx: ParsingContext,
    function: Seq<char>,
    node: Node,
    expected: NodeKind,
    help: Seq<char>,
) -> ErrorV {
    ErrorV::UnexpectedArgument {
        function,
        src: SourceInfoV { name: ctx.file@, text: ctx.text@ },
        argument_pos: Span { start: node.start, len: node.len },
        expected_type: spec_kind_name(expected),
        help,
    }
}

/// Checks that a declaration argument has the expected node kind, or reports
/// a source-anchored error whose span is exactly the offending node's span.
pub fn assert_kind<'a>(
    context: &ParsingContext,
    function: &str,
    node: &'a Node,
    expected_kind: NodeKind,
    help: &str,
) -> (r: Result<&'a Node, Error>)
    ensures
        node.kind == expected_kind ==> (r matches Ok(n) && n == node),
        node.kind != expected_kind ==> (r matches Err(e) && e@ == spec_unexpected_argument(
            *context,
            function@,
            *node,
            expected_kind,
            help@,
        )),
{
    if node.kind == expected_kind {
        return Ok(node);
    }
    Err(
        Error::UnexpectedArgument {
            function: function.to_owned(),
            src: context.src(),
            argument_pos: Span { start: node.start, len: node.len },
            expected_type: kind_name(expected_kind).to_owned(),
            help: help.to_owned(),
        },
    )
}

/// A plain value read out of the tree: a string, an integer, or a nested
/// attribute set kept as key/value pairs in source order.
pub enum NixValue {
    Str(String),
    Int(i64),
    /// A floating-point literal, carried as its raw text: no declaration
    /// reads one, but an unread binding may hold one.
    Float(String),
    Attrs(Vec<(String, NixValue)>),
}

/// Mathematical image of a `NixValue`.
pub enum NixValueV {
    Str(Seq<char>),
    Int(int),
    Float(Seq<char>),
    Attrs(Seq<(Seq<char>, NixValueV)>),
}

pub open spec fn nix_value_view(v: NixValue) -> NixValueV
    decreases v, 0int,
{
    match v {
        NixValue::Str(s) => NixValueV::Str(s@),
        NixValue::Int(i) => NixValueV::Int(i as int),
        NixValue::Float(s) => NixValueV::Float(s@),
        NixValue::Attrs(ps) => NixValueV::Attrs(nix_attrs_view_from(ps@, 0)),
    }
}

pub open spec fn nix_attrs_view_from(ps: Seq<(String, NixValue)>, i: int) -> Seq<
    (Seq<char>, NixValueV),
>
    decreases ps, ps.len() - i,
{
    if i < 0 || i >= ps.len() {
        Seq::empty()
    } else {
        seq![(ps[i].0@, nix_value_view(ps[i].1))] + nix_attrs_view_from(ps, i + 1)
    }
}

/// What reading a value out of a node yields: the unquoted text of a string
/// literal, the value of an integer literal, the bindings of an attribute
/// set in source order, and an error for every other shape.
pub open spec fn spec_value_from_node(node: Node) -> Result<NixValueV, ErrorV>
    decreases node, 0int,
{
    match node.kind {
        NodeKind::Str => if node.text@.len() >= 2 {
            Ok(NixValueV::Str(node.text@.subrange(1, node.text@.len() - 1)))
        } else {
            Err(ErrorV::NixParsingError("malformed string literal"@))
        },
        NodeKind::Integer => match spec_parse_int(node.text@) {
            Some(x) => if i64::MIN <= x <= i64::MAX {
                Ok(NixValueV::Int(x))
            } else {
                Err(ErrorV::NixParsingError("invalid integer literal"@))
            },
            None => Err(ErrorV::NixParsingError("invalid integer literal"@)),
        },
        NodeKind::Float => Ok(NixValueV::Float(node.text@)),
        NodeKind::AttrSet => match spec_attr_pairs(node.children@, 0) {
            Ok(ps) => Ok(NixValueV::Attrs(ps)),
            Err(e) => Err(e),
        },
        _ => Err(ErrorV::NixParsingError("Unexpected node"@)),
    }
}

pub open spec fn spec_attr_pairs(cs: Seq<Node>, i: int) -> Result<
    Seq<(Seq<char>, NixValueV)>,
    ErrorV,
>
    decreases cs, cs.len() - i,
{
    if i < 0 || i >= cs.len() {
        Ok(Seq::empty())
    } else {
        let child = cs[i];
        if child.kind != NodeKind::KeyValue {
            Err(ErrorV::NixParsingError("Unexpected node, expected key value"@))
        } else if child.children@.len() < 2 {
            Err(ErrorV::NixParsingError("Unexpected node, expected key value"@))
        } else {
            match spec_value_from_node(child.children@[1]) {
                Err(e) => Err(e),
                Ok(v) => match spec_attr_pairs(cs, i + 1) {
                    Err(e) => Err(e),
                    Ok(rest) => Ok(seq![(child.children@[0].text@, v)] + rest),
                },
            }
        }
    }
}

proof fn lemma_attrs_view_push_from(ps: Seq<(String, NixValue)>, p: (String, NixValue), i: int)
    requires
        0 <= i <= ps.len(),
    ensures
        nix_attrs_view_from(ps.push(p), i) == nix_attrs_view_from(ps, i) + seq![
            (p.0@, nix_value_view(p.1)),
        ],
    decreases ps.len() - i,
{
    let whole = ps.push(p);
    if i == ps.len() {
        assert(whole[i] == p);
        assert(nix_attrs_view_from(whole, i + 1) =~= Seq::<(Seq<char>, NixValueV)>::empty());
        assert(nix_attrs_view_from(whole, i) =~= seq![(p.0@, nix_value_view(p.1))]);
        assert(nix_attrs_view_from(ps, i) =~= Seq::<(Seq<char>, NixValueV)>::empty());
        assert(nix_attrs_view_from(ps, i) + seq![(p.0@, nix_value_view(p.1))] =~= seq![
            (p.0@, nix_value_view(p.1)),
        ]);
    } else {
        lemma_attrs_view_push_from(ps, p, i + 1);
        assert(whole[i] == ps[i]);
        assert(nix_attrs_view_from(whole, i) =~= nix_attrs_view_from(ps, i) + seq![
            (p.0@, nix_value_view(p.1)),
        ]);
    }
}

/// Reads a plain value out of a node, failing on any node shape that does
/// not denote one.
pub fn value_from_node(node: &Node) -> (r: Result<NixValue, Error>)
    ensures
        match r {
            Ok(v) => spec_value_from_node(*node) == Ok::<NixValueV, ErrorV>(nix_value_view(v)),
            Err(e) => spec_value_from_node(*node) == Err::<NixValueV, ErrorV>(e@),
        },
    decreases *node,
{
    match node.kind {
        NodeKind::Str => {
            let n = node.text.as_str().unicode_len();
            if n >= 2 {
                let inner = node.text.as_str().substring_char(1, n - 1).to_owned();
                Ok(NixValue::Str(inner))
            } else {
                Err(Error::NixParsingError("malformed string literal".to_owned()))
            }
        },
        NodeKind::Integer => {
            match parse_i64(node.text.as_str()) {
                Some(v) => Ok(NixValue::Int(v)),
                None => Err(Error::NixParsingError("invalid integer literal".to_owned())),
            }
        },
        NodeKind::Float => Ok(NixValue::Float(node.text.clone())),
        NodeKind::AttrSet => {
            let mut pairs: Vec<(String, NixValue)> = Vec::new();
            let mut i: usize = 0;
            proof {
                assert(nix_attrs_view_from(pairs@, 0) =~= Seq::<(Seq<char>, NixValueV)>::empty());
            }
            loop
                invariant
                    node.kind == NodeKind::AttrSet,
                    i <= node.children@.len(),
                    match spec_attr_pairs(node.children@, i as int) {
                        Ok(rest) => spec_attr_pairs(node.children@, 0) == Ok::<
                            Seq<(Seq<char>, NixValueV)>,
                            ErrorV,
                        >(nix_attrs_view_from(pairs@, 0) + rest),
                        Err(e) => spec_attr_pairs(node.children@, 0) == Err::<
                            Seq<(Seq<char>, NixValueV)>,
                            ErrorV,
                        >(e),
                    },
                decreases node.children@.len() - i,
            {
                if i == node.children.len() {
                    proof {
                        assert(spec_attr_pairs(node.children@, i as int) == Ok::<
                            Seq<(Seq<char>, NixValueV)>,
                            ErrorV,
                        >(Seq::empty()));
                        assert(nix_attrs_view_from(pairs@, 0) + Seq::<
                            (Seq<char>, NixValueV),
                        >::empty() =~= nix_attrs_view_from(pairs@, 0));
                        assert(spec_attr_pairs(node.children@, 0) == Ok::<
                            Seq<(Seq<char>, NixValueV)>,
                            ErrorV,
                        >(nix_attrs_view_from(pairs@, 0)));
                        assert(nix_value_view(NixValue::Attrs(pairs)) == NixValueV::Attrs(
                            nix_attrs_view_from(pairs@, 0),
                        ));
                        assert(spec_value_from_node(*node) == Ok::<NixValueV, ErrorV>(
                            NixValueV::Attrs(nix_attrs_view_from(pairs@, 0)),
                        ));
                    }
                    return Ok(NixValue::Attrs(pairs));
                }
                let child = &node.children[i];
                if !matches!(child.kind, NodeKind::KeyValue) {
                    proof {
                        assert(spec_attr_pairs(node.children@, i as int) == Err::<
                            Seq<(Seq<char>, NixValueV)>,
                            ErrorV,
                        >(ErrorV::NixParsingError("Unexpected node, expected key value"@)));
                        assert(spec_attr_pairs(node.children@, 0) == Err::<
                            Seq<(Seq<char>, NixValueV)>,
                            ErrorV,
                        >(ErrorV::NixParsingError("Unexpected node, expected key value"@)));
                        assert(spec_value_from_node(*node) == Err::<NixValueV, ErrorV>(
                            ErrorV::NixParsingError("Unexpected node, expected key value"@),
                        ));
                    }
                    return Err(
                        Error::NixParsingError("Unexpected node, expected key value".to_owned()),
                    );
                }
                if child.children.len() < 2 {
                    proof {
                        assert(spec_attr_pairs(node.children@, i as int) == Err::<
                            Seq<(Seq<char>, NixValueV)>,
                            ErrorV,
                        >(ErrorV::NixParsingError("Unexpected node, expected key value"@)));
                        assert(spec_attr_pairs(node.children@, 0) == Err::<
                            Seq<(Seq<char>, NixValueV)>,
                            ErrorV,
                        >(ErrorV::NixParsingError("Unexpected node, expected key value"@)));
                        assert(spec_value_from_node(*node) == Err::<NixValueV, ErrorV>(
                            ErrorV::NixParsingError("Unexpected node, expected key value"@),
                        ));
                    }
                    return Err(
                        Error::NixParsingError("Unexpected node, expected key value".to_owned()),
                    );
                }
                let key_text = child.children[0].text.clone();
                proof {
                    assert(decreases_to!(*node => node.children@[i as int]));
                }
                let value = match value_from_node(&child.children[1]) {
                    Ok(v) => v,
                    Err(e) => {
                        return Err(e);
                    },
                };
                let ghost old_pairs = pairs@;
                let ghost gpair = (key_text, value);
                pairs.push((key_text, value));
                proof {
                    let cs = node.children@;
                    lemma_attrs_view_push_from(old_pairs, gpair, 0);
                    assert(pairs@ == old_pairs.push(gpair));
                    let one = seq![(cs[i as int].children@[0].text@, nix_value_view(gpair.1))];
                    assert(seq![(gpair.0@, nix_value_view(gpair.1))] =~= one);
                    assert(nix_attrs_view_from(pairs@, 0) == nix_attrs_view_from(old_pairs, 0)
                        + one);
                    match spec_attr_pairs(cs, i as int + 1) {
                        Ok(rest2) => {
                            assert(spec_attr_pairs(cs, i as int) == Ok::<
                                Seq<(Seq<char>, NixValueV)>,
                                ErrorV,
                            >(one + rest2));
                            assert(nix_attrs_view_from(old_pairs, 0) + (one + rest2)
                                =~= nix_attrs_view_from(pairs@, 0) + rest2);
                        },
                        Err(e) => {
                            assert(spec_attr_pairs(cs, i as int) == Err::<
                                Seq<(Seq<char>, NixValueV)>,
                                ErrorV,
                            >(e));
                        },
                    }
                }
                i = i + 1;
            }
        },
        NodeKind::Select => Err(Error::NixParsingError("Unexpected node".to_owned())),
        NodeKind::KeyValue => Err(Error::NixParsingError("Unexpected node".to_owned())),
        NodeKind::Other => Err(Error::NixParsingError("Unexpected node".to_owned())),
    }
}

} // verus!
