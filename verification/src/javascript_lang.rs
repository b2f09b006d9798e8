use vstd::prelude::*;
use vstd::string::StrSliceExecFns;
use crate::document::{Document, Metadata, contents_of, all_metadata_empty};
use crate::strutil::{with_nl, append_line};
use crate::tree::{SyntaxTree, TreeV, NodeV, NodeKind, kid_ok, node_wf};

verus! {

/// The name a class declaration resolves to: the text of its first
/// named identifier child, or the empty string when none exists.
pub open spec fn js_class_name_from(t: TreeV, kids: Seq<int>) -> Seq<char>
    decreases kids.len(),
{
    if kids.len() == 0 {
        Seq::empty()
    } else if kid_ok(t, kids[0]) && t.nodes[kids[0]].named && t.nodes[kids[0]].kind
        == NodeKind::Identifier {
        t.nodes[kids[0]].text
    } else {
        js_class_name_from(t, kids.drop_first())
    }
}

/// A method extracted out of a class body, wrapped in a minimal
/// class-name header so it stays self-describing out of context.
pub open spec fn js_method_chunk(name: Seq<char>, body: Seq<char>) -> Seq<char> {
    "class "@ + name + " {\n"@ + body + "\n}"@
}

/// One wrapped chunk per named method definition among `kids`.
pub open spec fn js_methods_in(t: TreeV, kids: Seq<int>, name: Seq<char>) -> Seq<Seq<char>>
    decreases kids.len(),
{
    if kids.len() == 0 {
        Seq::empty()
    } else {
        let k = kids[0];
        let rest = kids.drop_first();
        if kid_ok(t, k) && t.nodes[k].named && t.nodes[k].kind == NodeKind::MethodDefinition {
            seq![js_method_chunk(name, t.nodes[k].text)] + js_methods_in(t, rest, name)
        } else {
            js_methods_in(t, rest, name)
        }
    }
}

/// The wrapped method chunks of every class body among `kids`.
pub open spec fn js_class_bodies(t: TreeV, kids: Seq<int>, name: Seq<char>) -> Seq<Seq<char>>
    decreases kids.len(),
{
    if kids.len() == 0 {
        Seq::empty()
    } else {
        let k = kids[0];
        let rest = kids.drop_first();
        if kid_ok(t, k) && t.nodes[k].named && t.nodes[k].kind == NodeKind::ClassBody {
            js_methods_in(t, t.nodes[k].children, name) + js_class_bodies(t, rest, name)
        } else {
            js_class_bodies(t, rest, name)
        }
    }
}

/// All wrapped method chunks of class declaration `n`.
pub open spec fn js_class_member_chunks(t: TreeV, n: NodeV) -> Seq<Seq<char>> {
    js_class_bodies(t, n.children, js_class_name_from(t, n.children))
}

/// Walk the named top-level children of a Javascript program, threading
/// the import/export/top-level-variable context. Context is never
/// cleared: every later standalone chunk keeps carrying it.
pub open spec fn js_walk(t: TreeV, at_program: bool, kids: Seq<int>, ctx: Seq<char>) -> Seq<
    Seq<char>,
>
    decreases kids.len(),
{
    if kids.len() == 0 {
        Seq::empty()
    } else {
        let k = kids[0];
        let rest = kids.drop_first();
        if !kid_ok(t, k) || !t.nodes[k].named {
            js_walk(t, at_program, rest, ctx)
        } else {
            let n = t.nodes[k];
            if n.kind == NodeKind::FunctionDeclaration || n.kind == NodeKind::MethodDefinition {
                seq![ctx + n.text] + js_walk(t, at_program, rest, ctx)
            } else if n.kind == NodeKind::ClassDeclaration {
                seq![ctx + n.text] + js_class_member_chunks(t, n) + js_walk(
                    t,
                    at_program,
                    rest,
                    ctx,
                )
            } else if n.kind == NodeKind::ImportStatement || n.kind == NodeKind::ExportStatement {
                js_walk(t, at_program, rest, ctx + with_nl(n.text))
            } else if n.kind == NodeKind::VariableDeclaration && at_program {
                js_walk(t, at_program, rest, ctx + with_nl(n.text))
            } else {
                js_walk(t, at_program, rest, ctx)
            }
        }
    }
}

/// The chunks of a whole Javascript source tree.
pub open spec fn js_chunks(t: TreeV) -> Seq<Seq<char>> {
    if 0 <= t.root < t.nodes.len() {
        js_walk(t, t.nodes[t.root].kind == NodeKind::Program, t.nodes[t.root].children, Seq::empty())
    } else {
        Seq::empty()
    }
}

/// Resolve the class name of node `k`: its first named identifier child.
fn get_class_name(tree: &SyntaxTree, k: usize) -> (name: String)
    requires
        tree.wf(),
        (k as int) < tree@.nodes.len(),
    ensures
        name@ == js_class_name_from(tree@, tree@.nodes[k as int].children),
{
    let ghost tv: TreeV = tree@;
    let ghost ckv: Seq<int> = tv.nodes[k as int].children;
    let node = &tree.nodes[k];
    let ckids = &node.children;
    proof {
        assert(ckv.skip(0) =~= ckv);
    }
    for i in 0..ckids.len()
        invariant
            tv == tree@,
            tree.wf(),
            (k as int) < tv.nodes.len(),
            ckids@ == tree.nodes@[k as int].children@,
            ckv == tv.nodes[k as int].children,
            js_class_name_from(tv, ckv.skip(i as int)) == js_class_name_from(tv, ckv),
    {
        proof {
            assert(node_wf(tv, k as int));
            assert(0 <= ckv[i as int] < tv.nodes.len());
            assert(ckv.skip(i as int)[0] == ckv[i as int]);
            assert(ckv.skip(i as int).drop_first() =~= ckv.skip(i as int + 1));
        }
        let c = ckids[i];
        let child = &tree.nodes[c];
        if child.named && match child.kind {
            NodeKind::Identifier => true,
            _ => false,
        } {
            return child.text.clone();
        }
    }
    proof {
        assert(ckv.skip(ckids@.len() as int).len() == 0);
    }
    String::new()
}

/// Extract the wrapped method chunks of class declaration `k`,
/// appending them to `out`.
fn js_class_extract(tree: &SyntaxTree, k: usize, out: &mut Vec<Document>)
    requires
        tree.wf(),
        (k as int) < tree@.nodes.len(),
    ensures
        contents_of(final(out)@) == contents_of(old(out)@) + js_class_member_chunks(
            tree@,
            tree@.nodes[k as int],
        ),
        forall|i: int| 0 <= i < old(out)@.len() ==> final(out)@[i] == old(out)@[i],
        forall|i: int|
            old(out)@.len() <= i < final(out)@.len() ==> (#[trigger] final(out)@[i])
                .metadata.is_empty_spec(),
{
    let ghost tv: TreeV = tree@;
    let ghost base: Seq<Document> = out@;
    let name = get_class_name(tree, k);
    let node = &tree.nodes[k];
    let ghost ckv: Seq<int> = tv.nodes[k as int].children;
    let ckids = &node.children;
    proof {
        assert(ckv.skip(0) =~= ckv);
        assert(contents_of(out@) + js_class_bodies(tv, ckv.skip(0), name@) =~= contents_of(base)
            + js_class_member_chunks(tv, tv.nodes[k as int]));
    }
    for i in 0..ckids.len()
        invariant
            tv == tree@,
            tree.wf(),
            (k as int) < tv.nodes.len(),
            ckids@ == tree.nodes@[k as int].children@,
            ckv == tv.nodes[k as int].children,
            name@ == js_class_name_from(tv, ckv),
            contents_of(out@) + js_class_bodies(tv, ckv.skip(i as int), name@) == contents_of(base)
                + js_class_member_chunks(tv, tv.nodes[k as int]),
            base.len() <= out@.len(),
            forall|q: int| 0 <= q < base.len() ==> out@[q] == base[q],
            forall|q: int|
                base.len() <= q < out@.len() ==> (#[trigger] out@[q]).metadata.is_empty_spec(),
    {
        proof {
            assert(node_wf(tv, k as int));
            assert(0 <= ckv[i as int] < tv.nodes.len());
            assert(ckv.skip(i as int)[0] == ckv[i as int]);
            assert(ckv.skip(i as int).drop_first() =~= ckv.skip(i as int + 1));
        }
        let c = ckids[i];
        let child = &tree.nodes[c];
        if child.named && match child.kind {
            NodeKind::ClassBody => true,
            _ => false,
        } {
            let ghost mkv: Seq<int> = tv.nodes[c as int].children;
            let mkids = &child.children;
            proof {
                assert(mkv.skip(0) =~= mkv);
                assert(contents_of(out@) + js_methods_in(tv, mkv.skip(0), name@) + js_class_bodies(
                    tv,
                    ckv.skip(i as int + 1),
                    name@,
                ) =~= contents_of(out@) + (js_methods_in(tv, mkv, name@) + js_class_bodies(
                    tv,
                    ckv.skip(i as int + 1),
                    name@,
                )));
            }
            for m in 0..mkids.len()
                invariant
                    tv == tree@,
                    tree.wf(),
                    (k as int) < tv.nodes.len(),
                    (c as int) < tv.nodes.len(),
                    mkids@ == tree.nodes@[c as int].children@,
                    mkv == tv.nodes[c as int].children,
                    ckv == tv.nodes[k as int].children,
                    name@ == js_class_name_from(tv, ckv),
                    contents_of(out@) + js_methods_in(tv, mkv.skip(m as int), name@)
                        + js_class_bodies(tv, ckv.skip(i as int + 1), name@) == contents_of(base)
                        + js_class_member_chunks(tv, tv.nodes[k as int]),
                    base.len() <= out@.len(),
                    forall|q: int| 0 <= q < base.len() ==> out@[q] == base[q],
                    forall|q: int|
                        base.len() <= q < out@.len() ==> (#[trigger] out@[q]).metadata.is_empty_spec(),
            {
                proof {
                    assert(node_wf(tv, c as int));
                    assert(0 <= mkv[m as int] < tv.nodes.len());
                    assert(mkv.skip(m as int)[0] == mkv[m as int]);
                    assert(mkv.skip(m as int).drop_first() =~= mkv.skip(m as int + 1));
                }
                let mc = mkids[m];
                let member = &tree.nodes[mc];
                if member.named && match member.kind {
                    NodeKind::MethodDefinition => true,
                    _ => false,
                } {
                    let mut chunk = String::new();
                    chunk.append("class ");
                    chunk.append(name.as_str());
                    chunk.append(" {\n");
                    chunk.append(member.text.as_str());
                    chunk.append("\n}");
                    proof {
                        assert(chunk@ =~= js_method_chunk(name@, tv.nodes[mc as int].text));
                    }
                    let ghost emitted = chunk@;
                    out.push(Document { content: chunk, metadata: Metadata::empty() });
                    proof {
                        assert(contents_of(out@) =~= contents_of(out@.drop_last()) + seq![emitted]);
                        assert(contents_of(out@) + js_methods_in(tv, mkv.skip(m as int + 1), name@)
                            + js_class_bodies(tv, ckv.skip(i as int + 1), name@) =~= contents_of(
                            out@.drop_last(),
                        ) + (seq![emitted] + js_methods_in(tv, mkv.skip(m as int + 1), name@))
                            + js_class_bodies(tv, ckv.skip(i as int + 1), name@));
                    }
                }
            }
            proof {
                assert(mkv.skip(mkids@.len() as int).len() == 0);
                assert(contents_of(out@) + js_class_bodies(tv, ckv.skip(i as int + 1), name@)
                    =~= contents_of(out@) + (js_methods_in(tv, mkv, name@).skip(
                    js_methods_in(tv, mkv, name@).len() as int,
                ) + js_class_bodies(tv, ckv.skip(i as int + 1), name@)));
            }
        }
    }
    proof {
        assert(ckv.skip(ckids@.len() as int).len() == 0);
        assert(contents_of(out@) + js_class_bodies(tv, ckv.skip(ckids@.len() as int), name@)
            =~= contents_of(out@));
    }
}

/// Split a parsed Javascript source tree: top-level functions and
/// classes become standalone chunks carrying accumulated context, and
/// each method directly inside a class body additionally becomes a
/// chunk wrapped in a minimal class-name header.
pub fn split_javascript(tree: &SyntaxTree) -> (r: Vec<Document>)
    requires
        tree.wf(),
    ensures
        contents_of(r@) == js_chunks(tree@),
        all_metadata_empty(r@),
{
    let ghost tv: TreeV = tree@;
    let root = tree.root;
    let ghost kv: Seq<int> = tv.nodes[tv.root].children;
    let mut out: Vec<Document> = Vec::new();
    let mut context = String::new();
    let at_program = match tree.nodes[root].kind {
        NodeKind::Program => true,
        _ => false,
    };
    let kids = &tree.nodes[root].children;
    proof {
        assert(kv.skip(0) =~= kv);
        assert(contents_of(out@) + js_walk(tv, at_program, kv.skip(0), context@) =~= js_walk(
            tv,
            tv.nodes[tv.root].kind == NodeKind::Program,
            tv.nodes[tv.root].children,
            Seq::empty(),
        ));
    }
    for j in 0..kids.len()
        invariant
            tv == tree@,
            tree.wf(),
            kids@ == tree.nodes@[tv.root].children@,
            kv == tv.nodes[tv.root].children,
            at_program == (tv.nodes[tv.root].kind == NodeKind::Program),
            contents_of(out@) + js_walk(tv, at_program, kv.skip(j as int), context@) == js_chunks(
                tv,
            ),
            all_metadata_empty(out@),
    {
        proof {
            assert(node_wf(tv, tv.root));
            assert(0 <= kv[j as int] < tv.nodes.len());
            assert(kv.skip(j as int)[0] == kv[j as int]);
            assert(kv.skip(j as int).drop_first() =~= kv.skip(j as int + 1));
        }
        let k = kids[j];
        let node = &tree.nodes[k];
        if !node.named {
        } else {
            match node.kind {
                NodeKind::FunctionDeclaration | NodeKind::MethodDefinition => {
                    let mut chunk = String::new();
                    chunk.append(context.as_str());
                    chunk.append(node.text.as_str());
                    let ghost emitted = chunk@;
                    out.push(Document { content: chunk, metadata: Metadata::empty() });
                    proof {
                        assert(contents_of(out@) =~= contents_of(out@.drop_last()) + seq![emitted]);
                        assert(contents_of(out@) + js_walk(
                            tv,
                            at_program,
                            kv.skip(j as int + 1),
                            context@,
                        ) =~= contents_of(out@.drop_last()) + (seq![emitted] + js_walk(
                            tv,
                            at_program,
                            kv.skip(j as int + 1),
                            context@,
                        )));
                    }
                },
                NodeKind::ClassDeclaration => {
                    let mut chunk = String::new();
                    chunk.append(context.as_str());
                    chunk.append(node.text.as_str());
                    let ghost emitted = chunk@;
                    out.push(Document { content: chunk, metadata: Metadata::empty() });
                    let ghost pre: Seq<Document> = out@;
                    proof {
                        assert(contents_of(pre) =~= contents_of(pre.drop_last()) + seq![emitted]);
                    }
                    js_class_extract(tree, k, &mut out);
                    proof {
                        assert(contents_of(out@) + js_walk(
                            tv,
                            at_program,
                            kv.skip(j as int + 1),
                            context@,
                        ) =~= contents_of(pre.drop_last()) + ((seq![emitted]
                            + js_class_member_chunks(tv, tv.nodes[kv[j as int]])) + js_walk(
                            tv,
                            at_program,
                            kv.skip(j as int + 1),
                            context@,
                        )));
                        assert forall|q: int| 0 <= q < out@.len() implies (#[trigger] out@[q])
                            .metadata.is_empty_spec() by {
                            if q < pre.len() {
                                assert(out@[q] == pre[q]);
                                assert(pre[q].metadata.is_empty_spec());
                            }
                        }
                    }
                },
                NodeKind::ImportStatement | NodeKind::ExportStatement => {
                    append_line(&mut context, node.text.as_str());
                },
                NodeKind::VariableDeclaration => {
                    if at_program {
                        append_line(&mut context, node.text.as_str());
                    }
                },
                _ => {},
            }
        }
    }
    proof {
        assert(kv.skip(kids@.len() as int).len() == 0);
        assert(contents_of(out@) + js_walk(tv, at_program, kv.skip(kids@.len() as int), context@)
            =~= contents_of(out@));
    }
    out
}

} // verus!
