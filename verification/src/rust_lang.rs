use vstd::prelude::*;
use vstd::string::StrSliceExecFns;
use crate::document::{Document, Metadata, contents_of, all_metadata_empty};
use crate::strutil::{with_nl, is_doc_text, indent_lines, append_line, append_indented, doc_text};
use crate::tree::{SyntaxTree, TreeV, NodeV, NodeKind, kid_ok, node_wf};

verus! {

/// Type-introducing declarations; their chunks also pick up any
/// attribute nodes sitting directly inside them.
pub open spec fn is_type_decl(k: NodeKind) -> bool {
    k == NodeKind::StructItem || k == NodeKind::EnumItem || k == NodeKind::TraitItem
}

/// Remaining standalone declarations, emitted with context but without
/// an inner attribute scan.
pub open spec fn is_plain_decl(k: NodeKind) -> bool {
    ||| k == NodeKind::FunctionItem
    ||| k == NodeKind::ConstItem
    ||| k == NodeKind::StaticItem
    ||| k == NodeKind::TypeItem
    ||| k == NodeKind::MacroDefinition
}

/// Context accumulators: carried forward and prepended to the next
/// standalone chunk, never emitted on their own.
pub open spec fn is_rust_context(k: NodeKind) -> bool {
    k == NodeKind::AttributeItem || k == NodeKind::UseDeclaration || k == NodeKind::ModItem
}

/// The concatenated text of the attribute nodes among `kids`, one line each.
pub open spec fn attrs_from(t: TreeV, kids: Seq<int>) -> Seq<char>
    decreases kids.len(),
{
    if kids.len() == 0 {
        Seq::empty()
    } else {
        let h: Seq<char> = if kid_ok(t, kids[0]) && t.nodes[kids[0]].kind == NodeKind::Attribute {
            with_nl(t.nodes[kids[0]].text)
        } else {
            Seq::empty()
        };
        h + attrs_from(t, kids.drop_first())
    }
}

/// One standalone chunk: accumulated doc comments, then accumulated
/// context, then (for type declarations) directly attached attributes,
/// then the node's own source text.
pub open spec fn standalone_chunk(t: TreeV, n: NodeV, doc: Seq<char>, ctx: Seq<char>) -> Seq<
    char,
> {
    doc + ctx + (if is_type_decl(n.kind) {
        attrs_from(t, n.children)
    } else {
        Seq::empty()
    }) + n.text
}

/// The synthesized header of an implementation block: its optional
/// generic parameter clause and the (possibly "`Trait` for `Type`")
/// subject built from its non-body children.
pub open spec fn impl_header(tp: Seq<char>, ity: Seq<char>) -> Seq<char> {
    if tp.len() == 0 {
        "impl "@ + ity
    } else {
        "impl"@ + tp + " "@ + ity
    }
}

/// One extracted member: the container's header line, the member's
/// accumulated in-container comments indented one level, the member
/// text, and a closing delimiter.
pub open spec fn member_chunk(hdr: Seq<char>, fctx: Seq<char>, body: Seq<char>) -> Seq<char> {
    hdr + " {\n"@ + indent_lines(fctx) + body + "\n}"@
}

/// Walk a declaration list: functions become wrapped member chunks,
/// comments accumulate onto the next member, anything else is a no-op.
/// Comments never consumed by a member are dropped when the list ends.
pub open spec fn members_walk(t: TreeV, kids: Seq<int>, hdr: Seq<char>, fctx: Seq<char>) -> Seq<
    Seq<char>,
>
    decreases kids.len(),
{
    if kids.len() == 0 {
        Seq::empty()
    } else {
        let k = kids[0];
        let rest = kids.drop_first();
        if !kid_ok(t, k) || !t.nodes[k].named {
            members_walk(t, rest, hdr, fctx)
        } else if t.nodes[k].kind == NodeKind::FunctionItem {
            seq![member_chunk(hdr, fctx, t.nodes[k].text)] + members_walk(
                t,
                rest,
                hdr,
                Seq::empty(),
            )
        } else if t.nodes[k].kind == NodeKind::LineComment || t.nodes[k].kind
            == NodeKind::BlockComment {
            members_walk(t, rest, hdr, fctx + with_nl(t.nodes[k].text))
        } else {
            members_walk(t, rest, hdr, fctx)
        }
    }
}

/// Walk the named children of an implementation block, building the
/// header from the children before its body and emitting one chunk per
/// function member of the body; the header state resets after a body.
pub open spec fn impl_walk(t: TreeV, kids: Seq<int>, tp: Seq<char>, ity: Seq<char>) -> Seq<
    Seq<char>,
>
    decreases kids.len(),
{
    if kids.len() == 0 {
        Seq::empty()
    } else {
        let k = kids[0];
        let rest = kids.drop_first();
        if !kid_ok(t, k) || !t.nodes[k].named {
            impl_walk(t, rest, tp, ity)
        } else if t.nodes[k].kind == NodeKind::DeclarationList {
            members_walk(t, t.nodes[k].children, impl_header(tp, ity), Seq::empty()) + impl_walk(
                t,
                rest,
                Seq::empty(),
                Seq::empty(),
            )
        } else if t.nodes[k].kind == NodeKind::TypeParameters {
            impl_walk(t, rest, t.nodes[k].text, ity)
        } else {
            impl_walk(
                t,
                rest,
                tp,
                if ity.len() == 0 {
                    t.nodes[k].text
                } else {
                    ity + " for "@ + t.nodes[k].text
                },
            )
        }
    }
}

/// All member chunks of implementation node `n`.
pub open spec fn impl_chunks(t: TreeV, n: NodeV) -> Seq<Seq<char>> {
    impl_walk(t, n.children, Seq::empty(), Seq::empty())
}

/// Walk the named top-level children of a Rust source file, threading
/// the doc-comment and context accumulators.
pub open spec fn rust_walk(t: TreeV, kids: Seq<int>, doc: Seq<char>, ctx: Seq<char>) -> Seq<
    Seq<char>,
>
    decreases kids.len(),
{
    if kids.len() == 0 {
        Seq::empty()
    } else {
        let k = kids[0];
        let rest = kids.drop_first();
        if !kid_ok(t, k) || !t.nodes[k].named {
            rust_walk(t, rest, doc, ctx)
        } else {
            let n = t.nodes[k];
            if is_type_decl(n.kind) || is_plain_decl(n.kind) {
                seq![standalone_chunk(t, n, doc, ctx)] + rust_walk(t, rest, Seq::empty(), Seq::empty())
            } else if n.kind == NodeKind::ImplItem {
                impl_chunks(t, n) + rust_walk(t, rest, Seq::empty(), Seq::empty())
            } else if is_rust_context(n.kind) {
                rust_walk(t, rest, doc, ctx + with_nl(n.text))
            } else if n.kind == NodeKind::LineComment && is_doc_text(n.text) {
                rust_walk(t, rest, doc + with_nl(n.text), ctx)
            } else {
                rust_walk(t, rest, doc, ctx)
            }
        }
    }
}

/// The chunks of a whole Rust source tree.
pub open spec fn rust_chunks(t: TreeV) -> Seq<Seq<char>> {
    if 0 <= t.root < t.nodes.len() {
        rust_walk(t, t.nodes[t.root].children, Seq::empty(), Seq::empty())
    } else {
        Seq::empty()
    }
}

/// Build one standalone chunk for node `k` from the current accumulators.
fn build_standalone(tree: &SyntaxTree, k: usize, doc: &String, ctx: &String) -> (c: String)
    requires
        tree.wf(),
        (k as int) < tree@.nodes.len(),
    ensures
        c@ == standalone_chunk(tree@, tree@.nodes[k as int], doc@, ctx@),
{
    let ghost tv: TreeV = tree@;
    let node = &tree.nodes[k];
    let mut content = String::new();
    content.append(doc.as_str());
    content.append(ctx.as_str());
    let is_type = match node.kind {
        NodeKind::StructItem | NodeKind::EnumItem | NodeKind::TraitItem => true,
        _ => false,
    };
    if is_type {
        let ghost ckv: Seq<int> = tv.nodes[k as int].children;
        let ghost base: Seq<char> = content@;
        let ckids = &node.children;
        proof {
            assert(ckv.skip(0) =~= ckv);
        }
        for i in 0..ckids.len()
            invariant
                tv == tree@,
                tree.wf(),
                (k as int) < tv.nodes.len(),
                ckids@ == tree.nodes@[k as int].children@,
                ckv == tv.nodes[k as int].children,
                content@ + attrs_from(tv, ckv.skip(i as int)) == base + attrs_from(tv, ckv),
        {
            proof {
                assert(node_wf(tv, k as int));
                assert(0 <= ckv[i as int] < tv.nodes.len());
                assert(ckv.skip(i as int)[0] == ckv[i as int]);
                assert(ckv.skip(i as int).drop_first() =~= ckv.skip(i as int + 1));
            }
            let c = ckids[i];
            let child = &tree.nodes[c];
            if match child.kind {
                NodeKind::Attribute => true,
                _ => false,
            } {
                append_line(&mut content, child.text.as_str());
            }
        }
        proof {
            assert(ckv.skip(ckids@.len() as int).len() == 0);
            assert(content@ + attrs_from(tv, ckv.skip(ckids@.len() as int)) =~= content@);
        }
    }
    content.append(node.text.as_str());
    proof {
        assert(content@ =~= standalone_chunk(tv, tv.nodes[k as int], doc@, ctx@));
    }
    content
}

/// Extract the member chunks of implementation node `k`, appending them
/// to `out`.
fn impl_extract(tree: &SyntaxTree, k: usize, out: &mut Vec<Document>)
    requires
        tree.wf(),
        (k as int) < tree@.nodes.len(),
    ensures
        contents_of(final(out)@) == contents_of(old(out)@) + impl_chunks(
            tree@,
            tree@.nodes[k as int],
        ),
        forall|i: int| 0 <= i < old(out)@.len() ==> final(out)@[i] == old(out)@[i],
        forall|i: int|
            old(out)@.len() <= i < final(out)@.len() ==> (#[trigger] final(out)@[i])
                .metadata.is_empty_spec(),
{
    let ghost tv: TreeV = tree@;
    let ghost base: Seq<Document> = out@;
    let node = &tree.nodes[k];
    let ghost ikv: Seq<int> = tv.nodes[k as int].children;
    let mut tp = String::new();
    let mut ity = String::new();
    let ikids = &node.children;
    proof {
        assert(ikv.skip(0) =~= ikv);
        assert(contents_of(out@) + impl_walk(tv, ikv.skip(0), tp@, ity@) =~= contents_of(base)
            + impl_chunks(tv, tv.nodes[k as int]));
    }
    for i in 0..ikids.len()
        invariant
            tv == tree@,
            tree.wf(),
            (k as int) < tv.nodes.len(),
            ikids@ == tree.nodes@[k as int].children@,
            ikv == tv.nodes[k as int].children,
            contents_of(out@) + impl_walk(tv, ikv.skip(i as int), tp@, ity@) == contents_of(base)
                + impl_chunks(tv, tv.nodes[k as int]),
            base.len() <= out@.len(),
            forall|q: int| 0 <= q < base.len() ==> out@[q] == base[q],
            forall|q: int|
                base.len() <= q < out@.len() ==> (#[trigger] out@[q]).metadata.is_empty_spec(),
    {
        proof {
            assert(node_wf(tv, k as int));
            assert(0 <= ikv[i as int] < tv.nodes.len());
            assert(ikv.skip(i as int)[0] == ikv[i as int]);
            assert(ikv.skip(i as int).drop_first() =~= ikv.skip(i as int + 1));
        }
        let c = ikids[i];
        let child = &tree.nodes[c];
        if !child.named {
        } else if match child.kind {
            NodeKind::DeclarationList => true,
            _ => false,
        } {
            // Synthesize the container header once for this body.
            let mut hdr = String::new();
            if tp.as_str().is_empty() {
                hdr.append("impl ");
            } else {
                hdr.append("impl");
                hdr.append(tp.as_str());
                hdr.append(" ");
            }
            hdr.append(ity.as_str());
            proof {
                assert(hdr@ =~= impl_header(tp@, ity@));
            }
            let ghost mkv: Seq<int> = tv.nodes[c as int].children;
            let mut fctx = String::new();
            let mkids = &child.children;
            proof {
                assert(mkv.skip(0) =~= mkv);
                assert(fctx@ =~= Seq::<char>::empty());
                assert(contents_of(out@) + members_walk(tv, mkv.skip(0), hdr@, fctx@) + impl_walk(
                    tv,
                    ikv.skip(i as int + 1),
                    Seq::empty(),
                    Seq::empty(),
                ) =~= contents_of(out@) + (members_walk(tv, mkv, hdr@, Seq::empty()) + impl_walk(
                    tv,
                    ikv.skip(i as int + 1),
                    Seq::empty(),
                    Seq::empty(),
                )));
            }
            for m in 0..mkids.len()
                invariant
                    tv == tree@,
                    tree.wf(),
                    (k as int) < tv.nodes.len(),
                    (c as int) < tv.nodes.len(),
                    mkids@ == tree.nodes@[c as int].children@,
                    mkv == tv.nodes[c as int].children,
                    ikv == tv.nodes[k as int].children,
                    contents_of(out@) + members_walk(tv, mkv.skip(m as int), hdr@, fctx@)
                        + impl_walk(tv, ikv.skip(i as int + 1), Seq::empty(), Seq::empty())
                        == contents_of(base) + impl_chunks(tv, tv.nodes[k as int]),
                    base.len() <= out@.len(),
                    forall|q: int| 0 <= q < base.len() ==> out@[q] == base[q],
                    forall|q: int|
                        base.len() <= q < out@.len() ==> (#[trigger] out@[q]).metadata.is_empty_spec(),
            {
                proof {
                    assert(node_wf(tv, c as int));
                    assert(0 <= mkv[m as int] < tv.nodes.len());
                    assert(mkv.skip(m as int)[0] == mkv[m as int]);
                    assert(mkv.skip(m as int).drop_first() =~= mkv.skip(m as int + 1));
                }
                let mc = mkids[m];
                let member = &tree.nodes[mc];
                if !member.named {
                } else if match member.kind {
                    NodeKind::FunctionItem => true,
                    _ => false,
                } {
                    let mut chunk = String::new();
                    chunk.append(hdr.as_str());
                    chunk.append(" {\n");
                    append_indented(&mut chunk, fctx.as_str());
                    chunk.append(member.text.as_str());
                    chunk.append("\n}");
                    proof {
                        assert(chunk@ =~= member_chunk(hdr@, fctx@, tv.nodes[mc as int].text));
                    }
                    let ghost emitted = chunk@;
                    out.push(Document { content: chunk, metadata: Metadata::empty() });
                    fctx = String::new();
                    proof {
                        assert(contents_of(out@) =~= contents_of(out@.drop_last()) + seq![emitted]);
                        assert(fctx@ =~= Seq::<char>::empty());
                        assert(contents_of(out@) + members_walk(
                            tv,
                            mkv.skip(m as int + 1),
                            hdr@,
                            fctx@,
                        ) + impl_walk(tv, ikv.skip(i as int + 1), Seq::empty(), Seq::empty())
                            =~= contents_of(out@.drop_last()) + (seq![emitted] + members_walk(
                            tv,
                            mkv.skip(m as int + 1),
                            hdr@,
                            fctx@,
                        )) + impl_walk(tv, ikv.skip(i as int + 1), Seq::empty(), Seq::empty()));
                    }
                } else if match member.kind {
                    NodeKind::LineComment | NodeKind::BlockComment => true,
                    _ => false,
                } {
                    append_line(&mut fctx, member.text.as_str());
                }
            }
            proof {
                assert(mkv.skip(mkids@.len() as int).len() == 0);
            }
            tp = String::new();
            ity = String::new();
            proof {
                assert(tp@ =~= Seq::<char>::empty());
                assert(ity@ =~= Seq::<char>::empty());
                assert(contents_of(out@) + impl_walk(tv, ikv.skip(i as int + 1), tp@, ity@)
                    =~= contents_of(out@) + (members_walk(tv, mkv, hdr@, Seq::empty()).skip(
                    members_walk(tv, mkv, hdr@, Seq::empty()).len() as int,
                ) + impl_walk(tv, ikv.skip(i as int + 1), tp@, ity@)));
            }
        } else if match child.kind {
            NodeKind::TypeParameters => true,
            _ => false,
        } {
            tp = child.text.clone();
        } else {
            if ity.as_str().is_empty() {
                ity = child.text.clone();
            } else {
                ity.append(" for ");
                ity.append(child.text.as_str());
            }
        }
    }
    proof {
        assert(ikv.skip(ikids@.len() as int).len() == 0);
        assert(contents_of(out@) + impl_walk(tv, ikv.skip(ikids@.len() as int), tp@, ity@)
            =~= contents_of(out@));
    }
}

/// Split a parsed Rust source tree into chunks: standalone declarations
/// carry their accumulated doc comments and context; implementation
/// blocks yield one wrapped chunk per function member.
pub fn split_rust(tree: &SyntaxTree) -> (r: Vec<Document>)
    requires
        tree.wf(),
    ensures
        contents_of(r@) == rust_chunks(tree@),
        all_metadata_empty(r@),
{
    let ghost tv: TreeV = tree@;
    let root = tree.root;
    let ghost kv: Seq<int> = tv.nodes[tv.root].children;
    let mut out: Vec<Document> = Vec::new();
    let mut doc_comments = String::new();
    let mut context = String::new();
    let kids = &tree.nodes[root].children;
    proof {
        assert(kv.skip(0) =~= kv);
        assert(contents_of(out@) + rust_walk(tv, kv.skip(0), doc_comments@, context@)
            =~= rust_walk(tv, tv.nodes[tv.root].children, Seq::empty(), Seq::empty()));
    }
    for j in 0..kids.len()
        invariant
            tv == tree@,
            tree.wf(),
            kids@ == tree.nodes@[tv.root].children@,
            kv == tv.nodes[tv.root].children,
            contents_of(out@) + rust_walk(tv, kv.skip(j as int), doc_comments@, context@)
                == rust_chunks(tv),
            all_metadata_empty(out@),
    {
        proof {
            assert(node_wf(tv, tv.root));
            assert(0 <= kv[j as int] < tv.nodes.len());
            assert(kv.skip(j as int)[0] == kv[j as int]);
            assert(kv.skip(j as int).drop_first() =~= kv.skip(j as int + 1));
        }
        let k = kids[j];
        let node = &tree.nodes[k];
        if !node.named {
        } else {
            match node.kind {
                NodeKind::StructItem
                | NodeKind::EnumItem
                | NodeKind::TraitItem
                | NodeKind::FunctionItem
                | NodeKind::ConstItem
                | NodeKind::StaticItem
                | NodeKind::TypeItem
                | NodeKind::MacroDefinition => {
                    let chunk = build_standalone(tree, k, &doc_comments, &context);
                    let ghost emitted = chunk@;
                    out.push(Document { content: chunk, metadata: Metadata::empty() });
                    doc_comments = String::new();
                    context = String::new();
                    proof {
                        assert(contents_of(out@) =~= contents_of(out@.drop_last()) + seq![emitted]);
                        assert(doc_comments@ =~= Seq::<char>::empty());
                        assert(context@ =~= Seq::<char>::empty());
                        assert(contents_of(out@) + rust_walk(
                            tv,
                            kv.skip(j as int + 1),
                            doc_comments@,
                            context@,
                        ) =~= contents_of(out@.drop_last()) + (seq![emitted] + rust_walk(
                            tv,
                            kv.skip(j as int + 1),
                            doc_comments@,
                            context@,
                        )));
                    }
                },
                NodeKind::ImplItem => {
                    proof {
                        assert(all_metadata_empty(out@));
                    }
                    let ghost pre: Seq<Document> = out@;
                    impl_extract(tree, k, &mut out);
                    doc_comments = String::new();
                    context = String::new();
                    proof {
                        assert(doc_comments@ =~= Seq::<char>::empty());
                        assert(context@ =~= Seq::<char>::empty());
                        assert(contents_of(out@) + rust_walk(
                            tv,
                            kv.skip(j as int + 1),
                            doc_comments@,
                            context@,
                        ) =~= contents_of(pre) + (impl_chunks(tv, tv.nodes[kv[j as int]])
                            + rust_walk(tv, kv.skip(j as int + 1), doc_comments@, context@)));
                        assert forall|q: int| 0 <= q < out@.len() implies (#[trigger] out@[q])
                            .metadata.is_empty_spec() by {
                            if q < pre.len() {
                                assert(out@[q] == pre[q]);
                                assert(pre[q].metadata.is_empty_spec());
                            }
                        }
                    }
                },
                NodeKind::AttributeItem | NodeKind::UseDeclaration | NodeKind::ModItem => {
                    append_line(&mut context, node.text.as_str());
                },
                NodeKind::LineComment => {
                    if doc_text(node.text.as_str()) {
                        append_line(&mut doc_comments, node.text.as_str());
                    }
                },
                _ => {},
            }
        }
    }
    proof {
        assert(kv.skip(kids@.len() as int).len() == 0);
        assert(contents_of(out@) + rust_walk(
            tv,
            kv.skip(kids@.len() as int),
            doc_comments@,
            context@,
        ) =~= contents_of(out@));
    }
    out
}

} // verus!
