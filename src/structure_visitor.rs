use vstd::prelude::*;

use crate::parse_describe::{kind_tag, range_text, StructureElementKind};
use crate::source_model::{range_at, SourceRange};
use crate::token_writer::{string_token, TokenWriter};

verus! {

/// The categories of declaration node that the engine's syntax tree has.
#[derive(Clone, Copy, Debug, PartialEq, Eq, Structural)]
pub enum NodeCategory {
    ExternCrate,
    Use,
    Static,
    Const,
    Fn,
    Method,
    Mod,
    ForeignMod,
    Ty,
    Enum,
    Variant,
    Struct,
    Trait,
    DefaultImpl,
    Impl,
    Mac,
}

/// The outline kind of a node category; none for the categories that the
/// outline leaves out.
pub open spec fn kind_of(c: NodeCategory) -> Option<StructureElementKind> {
    match c {
        NodeCategory::ExternCrate => Some(StructureElementKind::ExternCrate),
        NodeCategory::Use => Some(StructureElementKind::Use),
        NodeCategory::Static => Some(StructureElementKind::Var),
        NodeCategory::Const => Some(StructureElementKind::Var),
        NodeCategory::Fn => Some(StructureElementKind::Function),
        NodeCategory::Method => Some(StructureElementKind::Function),
        NodeCategory::Mod => Some(StructureElementKind::Mod),
        NodeCategory::Ty => Some(StructureElementKind::TypeAlias),
        NodeCategory::Enum => Some(StructureElementKind::Enum),
        NodeCategory::Variant => Some(StructureElementKind::EnumVariant),
        NodeCategory::Struct => Some(StructureElementKind::Struct),
        NodeCategory::Trait => Some(StructureElementKind::Trait),
        NodeCategory::Impl => Some(StructureElementKind::Impl),
        NodeCategory::ForeignMod | NodeCategory::DefaultImpl | NodeCategory::Mac => None,
    }
}

/// Classifies a node category.
pub fn classify(c: NodeCategory) -> (r: Option<StructureElementKind>)
    ensures
        r == kind_of(c),
{
    match c {
        NodeCategory::ExternCrate => Some(StructureElementKind::ExternCrate),
        NodeCategory::Use => Some(StructureElementKind::Use),
        NodeCategory::Static => Some(StructureElementKind::Var),
        NodeCategory::Const => Some(StructureElementKind::Var),
        NodeCategory::Fn => Some(StructureElementKind::Function),
        NodeCategory::Method => Some(StructureElementKind::Function),
        NodeCategory::Mod => Some(StructureElementKind::Mod),
        NodeCategory::Ty => Some(StructureElementKind::TypeAlias),
        NodeCategory::Enum => Some(StructureElementKind::Enum),
        NodeCategory::Variant => Some(StructureElementKind::EnumVariant),
        NodeCategory::Struct => Some(StructureElementKind::Struct),
        NodeCategory::Trait => Some(StructureElementKind::Trait),
        NodeCategory::Impl => Some(StructureElementKind::Impl),
        NodeCategory::ForeignMod | NodeCategory::DefaultImpl | NodeCategory::Mac => None,
    }
}

/// One declaration node: its category, its identifier if it has one, and
/// its span as character indexes into the buffer.
#[derive(Debug)]
pub struct DeclNode {
    pub category: NodeCategory,
    pub name: Option<String>,
    pub lo: usize,
    pub hi: usize,
}

pub open spec fn name_view(name: Option<String>) -> Option<Seq<char>> {
    match name {
        None => None,
        Some(s) => Some(s@),
    }
}

pub open spec fn name_text(name: Option<Seq<char>>) -> Seq<char> {
    match name {
        None => Seq::empty(),
        Some(n) => string_token(n),
    }
}

/// How an element opens: its kind, its name if any, its range.
pub open spec fn element_open(k: StructureElementKind, name: Option<Seq<char>>, sr: SourceRange) -> Seq<char> {
    kind_tag(k) + " { "@ + name_text(name) + range_text(sr) + " "@
}

pub open spec fn element_close() -> Seq<char> {
    "}\n"@
}

/// An element without children.
pub open spec fn leaf_text(k: StructureElementKind, name: Option<Seq<char>>, sr: SourceRange) -> Seq<char> {
    element_open(k, name, sr) + element_close()
}

pub open spec fn node_in(text: Seq<char>, n: DeclNode) -> bool {
    n.lo <= n.hi <= text.len()
}

/// The text of a node that has no children of its own, or nothing where its
/// category is left out.
pub open spec fn node_leaf_text(text: Seq<char>, n: DeclNode) -> Seq<char> {
    match kind_of(n.category) {
        None => Seq::empty(),
        Some(k) => leaf_text(k, name_view(n.name), range_at(text, n.lo as int, n.hi as int)),
    }
}

/// The text of a sequence of such nodes, in their order.
pub open spec fn leaves_text(text: Seq<char>, ns: Seq<DeclNode>) -> Seq<char>
    decreases ns.len(),
{
    if ns.len() == 0 {
        Seq::empty()
    } else {
        leaves_text(text, ns.drop_last()) + node_leaf_text(text, ns.last())
    }
}

/// One element of kind `k` for each node, in the nodes' order.
pub open spec fn leaves_of_kind(text: Seq<char>, ns: Seq<DeclNode>, k: StructureElementKind) -> Seq<char>
    decreases ns.len(),
{
    if ns.len() == 0 {
        Seq::empty()
    } else {
        leaves_of_kind(text, ns.drop_last(), k) + leaf_text(
            k,
            name_view(ns.last().name),
            range_at(text, ns.last().lo as int, ns.last().hi as int),
        )
    }
}

/// Where every node is of a category that maps to `k`, each node becomes one
/// element of kind `k`, none is left out, and they keep their order.
pub proof fn lemma_children_of_kind(text: Seq<char>, ns: Seq<DeclNode>, k: StructureElementKind)
    requires
        forall|i: int| 0 <= i < ns.len() ==> kind_of(#[trigger] ns[i].category) == Some(k),
    ensures
        leaves_text(text, ns) == leaves_of_kind(text, ns, k),
    decreases ns.len(),
{
    if ns.len() > 0 {
        assert(kind_of(ns[ns.len() - 1].category) == Some(k));
        lemma_children_of_kind(text, ns.drop_last(), k);
    }
}

/// An enum declaration with its variants gives one enum element whose
/// children are one variant element per variant, in declaration order.
pub proof fn lemma_enum_outline(text: Seq<char>, node: DeclNode, variants: Seq<DeclNode>)
    requires
        node.category == NodeCategory::Enum,
        forall|i: int| 0 <= i < variants.len() ==> (#[trigger] variants[i]).category == NodeCategory::Variant,
    ensures
        kind_of(node.category) == Some(StructureElementKind::Enum),
        leaves_text(text, variants) == leaves_of_kind(text, variants, StructureElementKind::EnumVariant),
{
    assert forall|i: int| 0 <= i < variants.len() implies kind_of(#[trigger] variants[i].category)
        == Some(StructureElementKind::EnumVariant) by {
        assert(variants[i].category == NodeCategory::Variant);
    }
    lemma_children_of_kind(text, variants, StructureElementKind::EnumVariant);
}

/// An impl block or a trait whose members are methods (with a body or
/// only a signature) gives one element of the block's kind whose children
/// are one function element per method, in source order.
pub proof fn lemma_members_outline(text: Seq<char>, node: DeclNode, members: Seq<DeclNode>)
    requires
        node.category == NodeCategory::Impl || node.category == NodeCategory::Trait,
        forall|i: int| 0 <= i < members.len() ==> (#[trigger] members[i]).category == NodeCategory::Method,
    ensures
        node.category == NodeCategory::Impl ==> kind_of(node.category) == Some(StructureElementKind::Impl),
        node.category == NodeCategory::Trait ==> kind_of(node.category) == Some(StructureElementKind::Trait),
        leaves_text(text, members) == leaves_of_kind(text, members, StructureElementKind::Function),
{
    assert forall|i: int| 0 <= i < members.len() implies kind_of(#[trigger] members[i].category)
        == Some(StructureElementKind::Function) by {
        assert(members[i].category == NodeCategory::Method);
    }
    lemma_children_of_kind(text, members, StructureElementKind::Function);
}

/// A declaration of a recognised category always leaves text in the outline.
pub proof fn lemma_recognised_nonempty(text: Seq<char>, node: DeclNode)
    requires
        kind_of(node.category).is_some(),
    ensures
        node_leaf_text(text, node).len() > 0,
{
    let k = kind_of(node.category).unwrap();
    assert(node_leaf_text(text, node).len() >= kind_tag(k).len());
    reveal_strlit("Var");
    reveal_strlit("Function");
    reveal_strlit("Struct");
    reveal_strlit("Impl");
    reveal_strlit("Trait");
    reveal_strlit("Enum");
    reveal_strlit("EnumVariant");
    reveal_strlit("ExternCrate");
    reveal_strlit("Mod");
    reveal_strlit("Use");
    reveal_strlit("TypeAlias");
}

/// Writes the outline of a syntax tree as the tree is walked: each
/// recognised declaration opens an element, whose children follow it
/// before it is closed.
pub struct StructureVisitor {
    pub writer: TokenWriter,
    pub source: Vec<char>,
    pub depth: usize,
}

impl StructureVisitor {
    pub open spec fn wf(&self) -> bool {
        self.source@.len() < usize::MAX
    }

    /// A visitor that writes after what `writer` holds, for the buffer `source`.
    pub fn new(writer: TokenWriter, source: Vec<char>) -> (r: StructureVisitor)
        requires
            source@.len() < usize::MAX,
        ensures
            r.wf(),
            r.writer.out@ == writer.out@,
            r.source@ == source@,
            r.depth == 0,
    {
        StructureVisitor { writer, source, depth: 0 }
    }

    fn write_open(&mut self, k: StructureElementKind, name: &Option<String>, lo: usize, hi: usize)
        requires
            old(self).wf(),
            lo <= hi <= old(self).source@.len(),
        ensures
            final(self).wf(),
            final(self).source@ == old(self).source@,
            final(self).depth == old(self).depth,
            final(self).writer.out@ == old(self).writer.out@ + element_open(
                k,
                name_view(*name),
                range_at(old(self).source@, lo as int, hi as int),
            ),
    {
        let sr = SourceRange::new(&self.source, lo, hi);
        k.writeString(&mut self.writer);
        self.writer.writeRaw(" { ");
        match name {
            None => {},
            Some(n) => self.writer.writeStringToken(n.as_str()),
        }
        crate::parse_describe::outputString_SourceRange(&sr, &mut self.writer);
        self.writer.writeRaw(" ");
        assert(self.writer.out@ =~= old(self).writer.out@ + element_open(
            k,
            name_view(*name),
            range_at(old(self).source@, lo as int, hi as int),
        ));
    }

    /// Opens the element of `node`, if its category is one the outline
    /// reports, and says whether it did. Its children come next, and then
    /// `end_element`.
    pub fn begin_element(&mut self, node: &DeclNode) -> (opened: bool)
        requires
            old(self).wf(),
            node_in(old(self).source@, *node),
            old(self).depth < usize::MAX,
        ensures
            final(self).wf(),
            final(self).source@ == old(self).source@,
            opened == kind_of(node.category).is_some(),
            opened ==> final(self).depth == old(self).depth + 1,
            !opened ==> final(self).depth == old(self).depth,
            final(self).writer.out@ == old(self).writer.out@ + match kind_of(node.category) {
                None => Seq::empty(),
                Some(k) => element_open(
                    k,
                    name_view(node.name),
                    range_at(old(self).source@, node.lo as int, node.hi as int),
                ),
            },
    {
        match classify(node.category) {
            None => {
                assert(self.writer.out@ =~= old(self).writer.out@ + Seq::<char>::empty());
                false
            },
            Some(k) => {
                self.write_open(k, &node.name, node.lo, node.hi);
                self.depth = self.depth + 1;
                true
            },
        }
    }

    /// Closes the innermost open element.
    pub fn end_element(&mut self)
        requires
            old(self).wf(),
            old(self).depth > 0,
        ensures
            final(self).wf(),
            final(self).source@ == old(self).source@,
            final(self).depth == old(self).depth - 1,
            final(self).writer.out@ == old(self).writer.out@ + element_close(),
    {
        self.writer.writeRaw("}\n");
        self.depth = self.depth - 1;
    }

    /// Writes the elements of nodes that have no children, in their order,
    /// leaving out the categories that the outline does not report.
    pub fn visit_leaves(&mut self, nodes: &Vec<DeclNode>)
        requires
            old(self).wf(),
            forall|i: int| 0 <= i < nodes@.len() ==> node_in(old(self).source@, #[trigger] nodes@[i]),
        ensures
            final(self).wf(),
            final(self).source@ == old(self).source@,
            final(self).depth == old(self).depth,
            final(self).writer.out@ == old(self).writer.out@ + leaves_text(old(self).source@, nodes@),
    {
        let ghost start = self.writer.out@;
        let mut i: usize = 0;
        while i < nodes.len()
            invariant
                self.wf(),
                self.source@ == old(self).source@,
                self.depth == old(self).depth,
                i <= nodes@.len(),
                forall|j: int| 0 <= j < nodes@.len() ==> node_in(self.source@, #[trigger] nodes@[j]),
                self.writer.out@ == start + leaves_text(self.source@, nodes@.take(i as int)),
            decreases nodes@.len() - i,
        {
            let n = &nodes[i];
            match classify(n.category) {
                None => {},
                Some(k) => {
                    self.write_open(k, &n.name, n.lo, n.hi);
                    self.writer.writeRaw("}\n");
                },
            }
            proof {
                assert(nodes@.take(i + 1).drop_last() =~= nodes@.take(i as int));
                assert(nodes@.take(i + 1).last() == nodes@[i as int]);
            }
            i = i + 1;
            assert(self.writer.out@ =~= start + leaves_text(self.source@, nodes@.take(i as int)));
        }
        assert(nodes@.take(i as int) =~= nodes@);
    }

    /// Writes a declaration whose children have none of their own: an
    /// enum and its variants, an impl block or a trait and its members.
    /// The children are nested inside the element of the declaration.
    pub fn visit_container(&mut self, node: &DeclNode, children: &Vec<DeclNode>)
        requires
            old(self).wf(),
            node_in(old(self).source@, *node),
            forall|i: int| 0 <= i < children@.len() ==> node_in(old(self).source@, #[trigger] children@[i]),
        ensures
            final(self).wf(),
            final(self).source@ == old(self).source@,
            final(self).depth == old(self).depth,
            final(self).writer.out@ == old(self).writer.out@ + match kind_of(node.category) {
                None => Seq::empty(),
                Some(k) => element_open(
                    k,
                    name_view(node.name),
                    range_at(old(self).source@, node.lo as int, node.hi as int),
                ) + leaves_text(old(self).source@, children@) + element_close(),
            },
    {
        match classify(node.category) {
            None => {
                assert(self.writer.out@ =~= old(self).writer.out@ + Seq::<char>::empty());
            },
            Some(k) => {
                self.write_open(k, &node.name, node.lo, node.hi);
                self.visit_leaves(children);
                self.writer.writeRaw("}\n");
                assert(self.writer.out@ =~= old(self).writer.out@ + element_open(
                    k,
                    name_view(node.name),
                    range_at(old(self).source@, node.lo as int, node.hi as int),
                ) + leaves_text(old(self).source@, children@) + element_close());
            },
        }
    }
}

} // verus!
