use vstd::prelude::*;
use crate::error::SplitError;
use crate::error::SplitError::{ParseFailure, TextExtraction};
use crate::language::{LangId, lang_of, lang_from_str};
use crate::tree::{
    SyntaxTree, TreeNode, TreeV, NodeV, kind_of, kind_from_str, tree_wf, children_after,
};

verus! {

#[verifier::external_type_specification]
#[verifier::external_body]
pub struct ExTsParser(tree_sitter::Parser);

/// One node of a parsed tree exactly as the grammar reports it: the
/// kind still a string, the node's own source text, and the index of
/// its parent in the flat node list (the root records itself).
pub struct RawNode {
    pub kind: String,
    pub named: bool,
    pub text: String,
    pub parent: usize,
}

/// The mathematical image of one raw node.
pub ghost struct RawNodeV {
    pub kind: Seq<char>,
    pub named: bool,
    pub text: Seq<char>,
    pub parent: int,
}

impl View for RawNode {
    type V = RawNodeV;

    open spec fn view(&self) -> RawNodeV {
        RawNodeV { kind: self.kind@, named: self.named, text: self.text@, parent: self.parent as int }
    }
}

/// A parsed tree flattened in source (pre-)order: the root first, every
/// other node after its parent, siblings in source order.
pub struct RawTree {
    pub nodes: Vec<RawNode>,
}

/// The mathematical image of a whole raw tree.
pub ghost struct RawTreeV {
    pub nodes: Seq<RawNodeV>,
}

impl View for RawTree {
    type V = RawTreeV;

    open spec fn view(&self) -> RawTreeV {
        RawTreeV { nodes: self.nodes@.map_values(|n: RawNode| n@) }
    }
}

/// A well-formed raw tree: non-empty, and every node after the root
/// points to a parent strictly before it.
pub open spec fn raw_wf(t: RawTreeV) -> bool {
    &&& t.nodes.len() > 0
    &&& forall|j: int| 1 <= j < t.nodes.len() ==> 0 <= (#[trigger] t.nodes[j]).parent < j
}

/// The registered language a parser value is configured for, if any;
/// the three parser constructors below are the only sources of such
/// values.
pub uninterp spec fn parser_lang(p: tree_sitter::Parser) -> Option<LangId>;

/// The flattened tree the grammar of `lang` yields for `text`, or None
/// when the parser can produce no tree or a node's span cannot be
/// sliced back out of the text. Grammars are fixed compiled tables and
/// parsing reads nothing else, so this is a function of the language
/// and the text alone.
pub uninterp spec fn parsed_tree_of(lang: LangId, text: Seq<char>) -> Option<RawTreeV>;

/// Relies on tree_sitter::Parser::{new, set_language} and the
/// tree_sitter_rust grammar constant, a fixed compiled table: a parser
/// configured for that grammar (left without one if the parser rejects
/// it, in which case parsing yields nothing).
#[verifier::external_body]
fn rust_parser() -> (r: tree_sitter::Parser)
    ensures
        parser_lang(r) == Some(LangId::Rust),
{
    let mut p = tree_sitter::Parser::new();
    let _ = p.set_language(&tree_sitter_rust::LANGUAGE.into());
    p
}

/// Relies on tree_sitter::Parser::{new, set_language} and the
/// tree_sitter_python grammar constant, a fixed compiled table: a
/// parser configured for that grammar (left without one if the parser
/// rejects it, in which case parsing yields nothing).
#[verifier::external_body]
fn python_parser() -> (r: tree_sitter::Parser)
    ensures
        parser_lang(r) == Some(LangId::Python),
{
    let mut p = tree_sitter::Parser::new();
    let _ = p.set_language(&tree_sitter_python::LANGUAGE.into());
    p
}

/// Relies on tree_sitter::Parser::{new, set_language} and the
/// tree_sitter_javascript grammar constant, a fixed compiled table: a
/// parser configured for that grammar (left without one if the parser
/// rejects it, in which case parsing yields nothing).
#[verifier::external_body]
fn javascript_parser() -> (r: tree_sitter::Parser)
    ensures
        parser_lang(r) == Some(LangId::Javascript),
{
    let mut p = tree_sitter::Parser::new();
    let _ = p.set_language(&tree_sitter_javascript::LANGUAGE.into());
    p
}

/// Relies on tree_sitter::{Parser::parse, Tree::root_node,
/// Node::{child, child_count, kind, is_named, byte_range}} and
/// str::get: parsing is a pure function of the configured grammar and
/// the text, and the body only copies the resulting tree out flat, in
/// source order, each node's text sliced by its byte range (a range
/// off a character boundary fails the extraction).
#[verifier::external_body]
fn parse_with(parser: &mut tree_sitter::Parser, text: &str) -> (r: Result<RawTree, SplitError>)
    ensures
        parser_lang(*old(parser)) matches Some(lang) ==> {
            &&& ((r is Ok) <==> parsed_tree_of(lang, text@) is Some)
            &&& (r matches Ok(t) ==> Some(t@) == parsed_tree_of(lang, text@) && raw_wf(t@))
        },
        r matches Err(e) ==> e == SplitError::ParseFailure || e == SplitError::TextExtraction,
{
    let tree = parser.parse(text, None).ok_or(ParseFailure)?;
    let mut nodes: Vec<RawNode> = vec![];
    let mut stack = vec![(tree.root_node(), 0)];
    while let Some((n, parent)) = stack.pop() {
        let s = text.get(n.byte_range()).ok_or(TextExtraction)?;
        nodes.push(RawNode { kind: n.kind().to_string(), named: n.is_named(), text: s.to_string(), parent });
        for k in (0..n.child_count()).rev() {
            stack.push((n.child(k).ok_or(ParseFailure)?, nodes.len() - 1));
        }
    }
    Ok(RawTree { nodes })
}

/// The children of flat node `i`: the nodes after the root whose parent
/// is `i`, in order — source order, since the flat list is.
pub open spec fn raw_kids_upto(nodes: Seq<RawNodeV>, i: int, upto: int) -> Seq<int>
    decreases upto,
{
    if upto <= 1 {
        Seq::empty()
    } else {
        raw_kids_upto(nodes, i, upto - 1) + (if nodes[upto - 1].parent == i {
            seq![upto - 1]
        } else {
            Seq::empty()
        })
    }
}

/// All children of flat node `i`.
pub open spec fn raw_kids(nodes: Seq<RawNodeV>, i: int) -> Seq<int> {
    raw_kids_upto(nodes, i, nodes.len() as int)
}

/// The structured tree a flat parse denotes: kinds resolved to their
/// closed tags, children grouped under their parents, the root at
/// index zero.
pub open spec fn assembled(rt: RawTreeV) -> TreeV {
    TreeV {
        nodes: Seq::new(
            rt.nodes.len(),
            |i: int|
                NodeV {
                    kind: kind_of(rt.nodes[i].kind),
                    named: rt.nodes[i].named,
                    text: rt.nodes[i].text,
                    children: raw_kids(rt.nodes, i),
                },
        ),
        root: 0,
    }
}

proof fn lemma_raw_kids_range(nodes: Seq<RawNodeV>, i: int, upto: int, q: int)
    requires
        0 <= q < raw_kids_upto(nodes, i, upto).len(),
    ensures
        1 <= raw_kids_upto(nodes, i, upto)[q] < upto,
        nodes[raw_kids_upto(nodes, i, upto)[q]].parent == i,
    decreases upto,
{
    if upto <= 1 {
    } else {
        let prefix = raw_kids_upto(nodes, i, upto - 1);
        if q < prefix.len() {
            lemma_raw_kids_range(nodes, i, upto - 1, q);
        }
    }
}

/// Grouping a well-formed flat parse yields a well-formed tree: every
/// child's flat index is above its parent's, and the root is node zero.
proof fn lemma_assembled_wf(rt: RawTreeV)
    requires
        raw_wf(rt),
    ensures
        tree_wf(assembled(rt)),
{
    let at = assembled(rt);
    assert forall|i: int| 0 <= i < at.nodes.len() implies children_after(at.nodes, i) by {
        assert forall|j: int|
            0 <= j < at.nodes[i].children.len() implies i < #[trigger] at.nodes[i].children[j]
            < at.nodes.len() by {
            assert(at.nodes[i].children == raw_kids(rt.nodes, i));
            lemma_raw_kids_range(rt.nodes, i, rt.nodes.len() as int, j);
            let c = raw_kids(rt.nodes, i)[j];
            assert(rt.nodes[c].parent == i);
            assert(0 <= rt.nodes[c].parent < c);
        }
    }
}

/// Group a flat parse into the structured tree, resolving every kind
/// string to its closed tag; exactly the `assembled` of the flat form.
fn assemble(raw: &RawTree) -> (t: SyntaxTree)
    ensures
        t@ == assembled(raw@),
{
    let n = raw.nodes.len();
    let mut nodes: Vec<TreeNode> = Vec::new();
    for i in 0..n
        invariant
            n == raw.nodes@.len(),
            nodes@.len() == i,
            forall|q: int| 0 <= q < i ==> (#[trigger] nodes@[q])@ == assembled(raw@).nodes[q],
    {
        let rn = &raw.nodes[i];
        let mut kids: Vec<usize> = Vec::new();
        proof {
            assert(kids@.map_values(|c: usize| c as int) =~= raw_kids_upto(
                raw@.nodes,
                i as int,
                1,
            ));
        }
        let mut j: usize = 1;
        while j < n
            invariant
                n == raw.nodes@.len(),
                i < n,
                1 <= j <= n || (n == 0 && j == 1),
                kids@.map_values(|c: usize| c as int) == raw_kids_upto(
                    raw@.nodes,
                    i as int,
                    j as int,
                ),
            decreases n - j,
        {
            if raw.nodes[j].parent == i {
                kids.push(j);
            }
            proof {
                if raw@.nodes[j as int].parent == i as int {
                    assert(kids@.map_values(|c: usize| c as int) =~= raw_kids_upto(
                        raw@.nodes,
                        i as int,
                        j as int,
                    ) + seq![j as int]);
                } else {
                    assert(raw_kids_upto(raw@.nodes, i as int, j as int + 1) =~= raw_kids_upto(
                        raw@.nodes,
                        i as int,
                        j as int,
                    ));
                }
            }
            j = j + 1;
        }
        proof {
            if n == 0 {
            } else {
                assert(kids@.map_values(|c: usize| c as int) == raw_kids(raw@.nodes, i as int));
            }
        }
        let kind = kind_from_str(rn.kind.as_str());
        nodes.push(TreeNode { kind, named: rn.named, text: rn.text.clone(), children: kids });
        proof {
            assert(nodes@.last()@.children =~= assembled(raw@).nodes[i as int].children);
            assert(nodes@.last()@ == assembled(raw@).nodes[i as int]);
        }
    }
    let t = SyntaxTree { nodes, root: 0 };
    proof {
        assert(t@.nodes =~= assembled(raw@).nodes);
        assert(t@ == assembled(raw@));
    }
    t
}

/// Build the library's syntax tree for `text` under the grammar of
/// `lang`: exactly the assembly of the tree the grammar yields, and
/// well-formed; fails exactly when the grammar yields none.
pub fn parse_tree(lang: LangId, text: &str) -> (r: Result<SyntaxTree, SplitError>)
    ensures
        (r is Ok) <==> parsed_tree_of(lang, text@) is Some,
        r matches Ok(t) ==> parsed_tree_of(lang, text@) matches Some(rt) && t@ == assembled(rt)
            && t.wf(),
        r matches Err(e) ==> e == SplitError::ParseFailure || e == SplitError::TextExtraction,
{
    let mut parser = match lang {
        LangId::Rust => rust_parser(),
        LangId::Python => python_parser(),
        LangId::Javascript => javascript_parser(),
    };
    proof {
        assert(parser_lang(parser) == Some(lang));
    }
    match parse_with(&mut parser, text) {
        Ok(raw) => {
            proof {
                lemma_assembled_wf(raw@);
            }
            Ok(assemble(&raw))
        },
        Err(e) => Err(e),
    }
}

/// The parser adapter: parse `text` as `language`. Fails with
/// UnsupportedLanguage exactly when no grammar is registered for the
/// identifier; for a registered language it returns exactly the
/// assembly of the grammar's tree, failing exactly when the grammar
/// yields none.
pub fn parse(text: &str, language: &str) -> (r: Result<SyntaxTree, SplitError>)
    ensures
        (r matches Err(e) && e == SplitError::UnsupportedLanguage) <==> lang_of(language@)
            is None,
        lang_of(language@) matches Some(l) ==> {
            &&& ((r is Ok) <==> parsed_tree_of(l, text@) is Some)
            &&& (r matches Ok(t) ==> parsed_tree_of(l, text@) matches Some(rt) && t@ == assembled(
                rt,
            ) && t.wf())
        },
{
    match lang_from_str(language) {
        Some(lang) => parse_tree(lang, text),
        None => Err(SplitError::UnsupportedLanguage),
    }
}

} // verus!
