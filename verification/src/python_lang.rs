use vstd::prelude::*;
use crate::document::{Document, contents_of, all_metadata_empty};
use crate::fallback::{fallback_chunks, fallback_split};
use crate::tree::{SyntaxTree, TreeV, NodeKind, kid_ok, node_wf};

verus! {

/// The only structurally significant top-level kinds for Python.
pub open spec fn is_python_decl(k: NodeKind) -> bool {
    k == NodeKind::FunctionDefinition || k == NodeKind::ClassDefinition
}

/// Walk the named top-level children of a Python module: each function
/// or class definition goes through the generic size-bounded packer;
/// everything else is ignored.
pub open spec fn python_walk(t: TreeV, kids: Seq<int>, max: int) -> Seq<Seq<char>>
    decreases kids.len(),
{
    if kids.len() == 0 {
        Seq::empty()
    } else {
        let k = kids[0];
        let rest = kids.drop_first();
        if kid_ok(t, k) && t.nodes[k].named && is_python_decl(t.nodes[k].kind) {
            fallback_chunks(t, k, max) + python_walk(t, rest, max)
        } else {
            python_walk(t, rest, max)
        }
    }
}

/// The chunks of a whole Python source tree under budget `max`.
pub open spec fn python_chunks(t: TreeV, max: int) -> Seq<Seq<char>> {
    if 0 <= t.root < t.nodes.len() {
        python_walk(t, t.nodes[t.root].children, max)
    } else {
        Seq::empty()
    }
}

/// Split a parsed Python source tree: one greedy-packed chunk group per
/// top-level function or class definition.
pub fn split_python(tree: &SyntaxTree, max_size: usize) -> (r: Vec<Document>)
    requires
        tree.wf(),
    ensures
        contents_of(r@) == python_chunks(tree@, max_size as int),
        all_metadata_empty(r@),
{
    let ghost tv: TreeV = tree@;
    let root = tree.root;
    let ghost kv: Seq<int> = tv.nodes[tv.root].children;
    let mut out: Vec<Document> = Vec::new();
    let kids = &tree.nodes[root].children;
    proof {
        assert(kv.skip(0) =~= kv);
        assert(contents_of(out@) + python_walk(tv, kv.skip(0), max_size as int) =~= python_walk(
            tv,
            tv.nodes[tv.root].children,
            max_size as int,
        ));
    }
    for j in 0..kids.len()
        invariant
            tv == tree@,
            tree.wf(),
            kids@ == tree.nodes@[tv.root].children@,
            kv == tv.nodes[tv.root].children,
            contents_of(out@) + python_walk(tv, kv.skip(j as int), max_size as int)
                == python_chunks(tv, max_size as int),
            all_metadata_empty(out@),
    {
        proof {
            assert(node_wf(tv, tv.root));
            assert(0 <= kv[j as int] < tv.nodes.len());
            assert(kv.skip(j as int)[0] == kv[j as int]);
            assert(kv.skip(j as int).drop_first() =~= kv.skip(j as int + 1));
        }
        let k = kids[j];
        let node = &tree.nodes[k];
        if node.named && match node.kind {
            NodeKind::FunctionDefinition | NodeKind::ClassDefinition => true,
            _ => false,
        } {
            let ghost pre: Seq<Document> = out@;
            let mut chunks = fallback_split(tree, k, max_size);
            let ghost produced: Seq<Document> = chunks@;
            out.append(&mut chunks);
            proof {
                assert(out@ =~= pre + produced);
                assert(contents_of(pre + produced) =~= contents_of(pre) + contents_of(produced));
                assert(contents_of(out@) + python_walk(tv, kv.skip(j as int + 1), max_size as int)
                    =~= contents_of(pre) + (fallback_chunks(tv, kv[j as int], max_size as int)
                    + python_walk(tv, kv.skip(j as int + 1), max_size as int)));
                assert forall|q: int| 0 <= q < out@.len() implies (#[trigger] out@[q])
                    .metadata.is_empty_spec() by {
                    if q < pre.len() {
                        assert(out@[q] == pre[q]);
                    } else {
                        assert(out@[q] == produced[q - pre.len()]);
                    }
                }
            }
        }
    }
    proof {
        assert(kv.skip(kids@.len() as int).len() == 0);
        assert(contents_of(out@) + python_walk(tv, kv.skip(kids@.len() as int), max_size as int)
            =~= contents_of(out@));
    }
    out
}

} // verus!
