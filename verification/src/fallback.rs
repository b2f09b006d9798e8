use vstd::prelude::*;
use vstd::string::StrSliceExecFns;
use crate::document::{Document, Metadata, contents_of, all_metadata_empty};
use crate::tree::{SyntaxTree, TreeV, kid_ok, node_wf, node_text_at};

verus! {

/// Greedy size-bounded packing of the texts of `kids` (in order) on top
/// of a running buffer `cur`: a chunk is flushed whenever the next text
/// would push a non-empty buffer over `max`, and any non-empty remainder
/// is flushed at the end. No text is ever cut inside one child.
pub open spec fn pack_children(t: TreeV, kids: Seq<int>, cur: Seq<char>, max: int) -> Seq<
    Seq<char>,
>
    decreases kids.len(),
{
    if kids.len() == 0 {
        if cur.len() > 0 {
            seq![cur]
        } else {
            Seq::empty()
        }
    } else {
        let ct = node_text_at(t, kids[0]);
        if cur.len() + ct.len() > max && cur.len() > 0 {
            seq![cur] + pack_children(t, kids.drop_first(), ct, max)
        } else {
            pack_children(t, kids.drop_first(), cur + ct, max)
        }
    }
}

/// What the generic fallback split of node `n` produces: the node's own
/// text verbatim when it fits the budget, otherwise its direct children
/// greedily packed into chunks.
pub open spec fn fallback_chunks(t: TreeV, n: int, max: int) -> Seq<Seq<char>> {
    if !kid_ok(t, n) {
        Seq::empty()
    } else if t.nodes[n].text.len() <= max {
        seq![t.nodes[n].text]
    } else {
        pack_children(t, t.nodes[n].children, Seq::empty(), max)
    }
}

/// Split node `n` of `tree` by the generic size-bounded strategy.
pub fn fallback_split(tree: &SyntaxTree, n: usize, max_size: usize) -> (r: Vec<Document>)
    requires
        tree.wf(),
        (n as int) < tree@.nodes.len(),
    ensures
        contents_of(r@) == fallback_chunks(tree@, n as int, max_size as int),
        all_metadata_empty(r@),
{
    let ghost tv: TreeV = tree@;
    let node = &tree.nodes[n];
    let mut out: Vec<Document> = Vec::new();
    let tlen = node.text.as_str().unicode_len();
    if tlen <= max_size {
        out.push(Document { content: node.text.clone(), metadata: Metadata::empty() });
        proof {
            assert(contents_of(out@) =~= seq![tv.nodes[n as int].text]);
        }
        return out;
    }
    let ghost kv: Seq<int> = tv.nodes[n as int].children;
    let mut cur = String::new();
    let kids = &node.children;
    proof {
        assert(node_wf(tv, n as int));
        assert(kv.skip(0) =~= kv);
        assert(cur@ =~= Seq::<char>::empty());
        assert(contents_of(out@) + pack_children(tv, kv.skip(0), cur@, max_size as int)
            =~= pack_children(tv, kv, Seq::empty(), max_size as int));
    }
    for j in 0..kids.len()
        invariant
            tree.wf(),
            (n as int) < tv.nodes.len(),
            tv == tree@,
            kids@ == tree.nodes@[n as int].children@,
            kv == tv.nodes[n as int].children,
            contents_of(out@) + pack_children(tv, kv.skip(j as int), cur@, max_size as int)
                == pack_children(tv, kv, Seq::empty(), max_size as int),
            all_metadata_empty(out@),
    {
        proof {
            assert(node_wf(tv, n as int));
            assert(0 <= kv[j as int] < tv.nodes.len());
        }
        let k = kids[j];
        let child = &tree.nodes[k];
        let clen = child.text.as_str().unicode_len();
        let cur_len = cur.as_str().unicode_len();
        proof {
            assert(node_text_at(tv, kv[j as int]) == child.text@);
            assert(kv.skip(j as int).drop_first() =~= kv.skip(j as int + 1));
            assert(kv.skip(j as int)[0] == kv[j as int]);
        }
        if cur_len > 0 && (cur_len > max_size || clen > max_size - cur_len) {
            let ghost flushed = cur@;
            out.push(Document { content: cur, metadata: Metadata::empty() });
            cur = child.text.clone();
            proof {
                assert(contents_of(out@) =~= contents_of(out@.drop_last()) + seq![flushed]);
                assert(contents_of(out@) + pack_children(
                    tv,
                    kv.skip(j as int + 1),
                    cur@,
                    max_size as int,
                ) =~= contents_of(out@.drop_last()) + (seq![flushed] + pack_children(
                    tv,
                    kv.skip(j as int + 1),
                    cur@,
                    max_size as int,
                )));
            }
        } else {
            cur.append(child.text.as_str());
        }
    }
    let cur_len = cur.as_str().unicode_len();
    if cur_len > 0 {
        let ghost flushed = cur@;
        out.push(Document { content: cur, metadata: Metadata::empty() });
        proof {
            assert(contents_of(out@) =~= contents_of(out@.drop_last()) + seq![flushed]);
            assert(kv.skip(kids@.len() as int).len() == 0);
        }
    } else {
        proof {
            assert(kv.skip(kids@.len() as int).len() == 0);
            assert(contents_of(out@) + pack_children(
                tv,
                kv.skip(kids@.len() as int),
                cur@,
                max_size as int,
            ) =~= contents_of(out@));
        }
    }
    out
}

} // verus!
