use vstd::prelude::*;
use crate::strutil::str_eq;

verus! {

/// The grammar categories the extractors care about, one closed tag per
/// parser-emitted node kind; everything else collapses into `Other`.
#[derive(Debug, Clone, Copy, PartialEq, Eq, Structural)]
pub enum NodeKind {
    // Rust
    StructItem,
    EnumItem,
    TraitItem,
    ImplItem,
    FunctionItem,
    ConstItem,
    StaticItem,
    TypeItem,
    MacroDefinition,
    AttributeItem,
    UseDeclaration,
    ModItem,
    LineComment,
    BlockComment,
    DeclarationList,
    TypeParameters,
    Attribute,
    // Python
    FunctionDefinition,
    ClassDefinition,
    // Javascript
    FunctionDeclaration,
    ClassDeclaration,
    MethodDefinition,
    ImportStatement,
    ExportStatement,
    VariableDeclaration,
    ClassBody,
    Identifier,
    Program,
    /// Any node kind no extractor recognizes; always treated as a no-op.
    Other,
}

/// The kind tag denoted by a parser's node-kind string.
pub open spec fn kind_of(s: Seq<char>) -> NodeKind {
    if s == "struct_item"@ {
        NodeKind::StructItem
    } else if s == "enum_item"@ {
        NodeKind::EnumItem
    } else if s == "trait_item"@ {
        NodeKind::TraitItem
    } else if s == "impl_item"@ {
        NodeKind::ImplItem
    } else if s == "function_item"@ {
        NodeKind::FunctionItem
    } else if s == "const_item"@ {
        NodeKind::ConstItem
    } else if s == "static_item"@ {
        NodeKind::StaticItem
    } else if s == "type_item"@ {
        NodeKind::TypeItem
    } else if s == "macro_definition"@ {
        NodeKind::MacroDefinition
    } else if s == "attribute_item"@ {
        NodeKind::AttributeItem
    } else if s == "use_declaration"@ {
        NodeKind::UseDeclaration
    } else if s == "mod_item"@ {
        NodeKind::ModItem
    } else if s == "line_comment"@ {
        NodeKind::LineComment
    } else if s == "block_comment"@ {
        NodeKind::BlockComment
    } else if s == "declaration_list"@ {
        NodeKind::DeclarationList
    } else if s == "type_parameters"@ {
        NodeKind::TypeParameters
    } else if s == "attribute"@ {
        NodeKind::Attribute
    } else if s == "function_definition"@ {
        NodeKind::FunctionDefinition
    } else if s == "class_definition"@ {
        NodeKind::ClassDefinition
    } else if s == "function_declaration"@ {
        NodeKind::FunctionDeclaration
    } else if s == "class_declaration"@ {
        NodeKind::ClassDeclaration
    } else if s == "method_definition"@ {
        NodeKind::MethodDefinition
    } else if s == "import_statement"@ {
        NodeKind::ImportStatement
    } else if s == "export_statement"@ {
        NodeKind::ExportStatement
    } else if s == "variable_declaration"@ {
        NodeKind::VariableDeclaration
    } else if s == "class_body"@ {
        NodeKind::ClassBody
    } else if s == "identifier"@ {
        NodeKind::Identifier
    } else if s == "program"@ {
        NodeKind::Program
    } else {
        NodeKind::Other
    }
}

/// Map a parser's node-kind string to its closed tag.
pub fn kind_from_str(s: &str) -> (k: NodeKind)
    ensures
        k == kind_of(s@),
{
    if str_eq(s, "struct_item") {
        NodeKind::StructItem
    } else if str_eq(s, "enum_item") {
        NodeKind::EnumItem
    } else if str_eq(s, "trait_item") {
        NodeKind::TraitItem
    } else if str_eq(s, "impl_item") {
        NodeKind::ImplItem
    } else if str_eq(s, "function_item") {
        NodeKind::FunctionItem
    } else if str_eq(s, "const_item") {
        NodeKind::ConstItem
    } else if str_eq(s, "static_item") {
        NodeKind::StaticItem
    } else if str_eq(s, "type_item") {
        NodeKind::TypeItem
    } else if str_eq(s, "macro_definition") {
        NodeKind::MacroDefinition
    } else if str_eq(s, "attribute_item") {
        NodeKind::AttributeItem
    } else if str_eq(s, "use_declaration") {
        NodeKind::UseDeclaration
    } else if str_eq(s, "mod_item") {
        NodeKind::ModItem
    } else if str_eq(s, "line_comment") {
        NodeKind::LineComment
    } else if str_eq(s, "block_comment") {
        NodeKind::BlockComment
    } else if str_eq(s, "declaration_list") {
        NodeKind::DeclarationList
    } else if str_eq(s, "type_parameters") {
        NodeKind::TypeParameters
    } else if str_eq(s, "attribute") {
        NodeKind::Attribute
    } else if str_eq(s, "function_definition") {
        NodeKind::FunctionDefinition
    } else if str_eq(s, "class_definition") {
        NodeKind::ClassDefinition
    } else if str_eq(s, "function_declaration") {
        NodeKind::FunctionDeclaration
    } else if str_eq(s, "class_declaration") {
        NodeKind::ClassDeclaration
    } else if str_eq(s, "method_definition") {
        NodeKind::MethodDefinition
    } else if str_eq(s, "import_statement") {
        NodeKind::ImportStatement
    } else if str_eq(s, "export_statement") {
        NodeKind::ExportStatement
    } else if str_eq(s, "variable_declaration") {
        NodeKind::VariableDeclaration
    } else if str_eq(s, "class_body") {
        NodeKind::ClassBody
    } else if str_eq(s, "identifier") {
        NodeKind::Identifier
    } else if str_eq(s, "program") {
        NodeKind::Program
    } else {
        NodeKind::Other
    }
}

/// One node of a parsed syntax tree, in arena form: its kind tag,
/// whether the grammar marks it as named, its own source text, and the
/// arena indices of its children in source order.
#[derive(Debug, Clone)]
pub struct TreeNode {
    pub kind: NodeKind,
    pub named: bool,
    pub text: String,
    pub children: Vec<usize>,
}

/// The mathematical image of one tree node.
pub ghost struct NodeV {
    pub kind: NodeKind,
    pub named: bool,
    pub text: Seq<char>,
    pub children: Seq<int>,
}

impl View for TreeNode {
    type V = NodeV;

    open spec fn view(&self) -> NodeV {
        NodeV {
            kind: self.kind,
            named: self.named,
            text: self.text@,
            children: self.children@.map_values(|c: usize| c as int),
        }
    }
}

/// The mathematical image of a whole tree: the arena plus the root index.
pub ghost struct TreeV {
    pub nodes: Seq<NodeV>,
    pub root: int,
}

/// A syntax tree over one document, owned by one split call. Nodes are
/// stored in source (pre-)order, so every child index is above its
/// parent's own.
#[derive(Debug, Clone)]
pub struct SyntaxTree {
    pub nodes: Vec<TreeNode>,
    pub root: usize,
}

impl View for SyntaxTree {
    type V = TreeV;

    open spec fn view(&self) -> TreeV {
        TreeV { nodes: self.nodes@.map_values(|n: TreeNode| n@), root: self.root as int }
    }
}

/// `k` indexes a node of the arena.
pub open spec fn kid_ok(t: TreeV, k: int) -> bool {
    0 <= k < t.nodes.len()
}

/// Every child of node `i` sits strictly after `i` and inside the arena.
pub open spec fn children_after(nodes: Seq<NodeV>, i: int) -> bool {
    forall|j: int|
        0 <= j < nodes[i].children.len() ==> i < #[trigger] nodes[i].children[j] < nodes.len()
}

/// Every node's children sit strictly after it.
pub open spec fn nodes_wf(nodes: Seq<NodeV>) -> bool {
    forall|i: int| 0 <= i < nodes.len() ==> children_after(nodes, i)
}

/// Every child of node `i` sits strictly after `i` and inside the arena.
pub open spec fn node_wf(t: TreeV, i: int) -> bool {
    children_after(t.nodes, i)
}

/// A well-formed tree: a valid root and child indices that always point
/// strictly forward, so walks terminate and never leave the arena.
pub open spec fn tree_wf(t: TreeV) -> bool {
    &&& 0 <= t.root < t.nodes.len()
    &&& nodes_wf(t.nodes)
}

impl SyntaxTree {
    /// The executable face of `tree_wf`.
    pub open spec fn wf(&self) -> bool {
        tree_wf(self@)
    }
}

/// The text of node `k`, total over arbitrary indices.
pub open spec fn node_text_at(t: TreeV, k: int) -> Seq<char> {
    if kid_ok(t, k) {
        t.nodes[k].text
    } else {
        Seq::empty()
    }
}

} // verus!
