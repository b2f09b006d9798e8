use vstd::prelude::*;
use crate::fallback::{pack_children, fallback_chunks};
use crate::javascript_lang::{js_walk, js_methods_in, js_method_chunk};
use crate::rust_lang::{
    members_walk, member_chunk, impl_header, is_type_decl, is_plain_decl, rust_walk,
};
use crate::strutil::{begins_with, ends_with, lemma_concat_begins_with, lemma_concat_ends_with};
use crate::tree::{TreeV, NodeKind, kid_ok, node_text_at};

verus! {

// ---------------------------------------------------------------------
// Fallback packer
// ---------------------------------------------------------------------

/// Fallback idempotence: splitting a node whose text already fits the
/// budget returns exactly one chunk, equal to that text verbatim.
pub proof fn fallback_small_input_is_identity(t: TreeV, n: int, max: int)
    requires
        kid_ok(t, n),
        t.nodes[n].text.len() <= max,
    ensures
        fallback_chunks(t, n, max) == seq![t.nodes[n].text],
{
}

/// The concatenated text of the nodes indexed by `kids`, in order.
pub open spec fn concat_texts(t: TreeV, kids: Seq<int>) -> Seq<char>
    decreases kids.len(),
{
    if kids.len() == 0 {
        Seq::empty()
    } else {
        node_text_at(t, kids[0]) + concat_texts(t, kids.drop_first())
    }
}

/// The concatenation of a sequence of chunks.
pub open spec fn concat_chunks(cs: Seq<Seq<char>>) -> Seq<char>
    decreases cs.len(),
{
    if cs.len() == 0 {
        Seq::empty()
    } else {
        cs[0] + concat_chunks(cs.drop_first())
    }
}

proof fn lemma_concat_chunks_cons(c: Seq<char>, cs: Seq<Seq<char>>)
    ensures
        concat_chunks(seq![c] + cs) == c + concat_chunks(cs),
{
    assert((seq![c] + cs)[0] == c);
    assert((seq![c] + cs).drop_first() =~= cs);
    assert((seq![c] + cs).len() == cs.len() + 1);
}

/// The packer loses nothing and reorders nothing: the concatenation of
/// the chunks it produces is the running buffer followed by the
/// concatenation of all the children's texts.
pub proof fn fallback_pack_loses_nothing(t: TreeV, kids: Seq<int>, cur: Seq<char>, max: int)
    ensures
        concat_chunks(pack_children(t, kids, cur, max)) == cur + concat_texts(t, kids),
    decreases kids.len(),
{
    if kids.len() == 0 {
        if cur.len() > 0 {
            assert(seq![cur][0] == cur);
            assert(seq![cur].drop_first() =~= Seq::<Seq<char>>::empty());
            assert(concat_chunks(Seq::<Seq<char>>::empty()) == Seq::<char>::empty());
            assert(concat_chunks(seq![cur]) == cur + concat_chunks(seq![cur].drop_first()));
            assert(concat_chunks(seq![cur]) =~= cur + concat_texts(t, kids));
        } else {
            assert(cur =~= Seq::<char>::empty());
            assert(concat_chunks(pack_children(t, kids, cur, max)) =~= cur + concat_texts(t, kids));
        }
    } else {
        let ct = node_text_at(t, kids[0]);
        let rest = kids.drop_first();
        if cur.len() + ct.len() > max && cur.len() > 0 {
            fallback_pack_loses_nothing(t, rest, ct, max);
            lemma_concat_chunks_cons(cur, pack_children(t, rest, ct, max));
            assert(concat_chunks(pack_children(t, kids, cur, max)) =~= cur + concat_texts(t, kids));
        } else {
            fallback_pack_loses_nothing(t, rest, cur + ct, max);
            assert((cur + ct) + concat_texts(t, rest) =~= cur + concat_texts(t, kids));
        }
    }
}

/// Fallback coverage for an over-budget node: the chunks' concatenated
/// content is exactly the concatenation of the node's children's texts,
/// so every child appears exactly once and nothing else appears.
pub proof fn fallback_covers_all_children(t: TreeV, n: int, max: int)
    requires
        kid_ok(t, n),
        t.nodes[n].text.len() > max,
    ensures
        concat_chunks(fallback_chunks(t, n, max)) == concat_texts(t, t.nodes[n].children),
{
    fallback_pack_loses_nothing(t, t.nodes[n].children, Seq::empty(), max);
    assert(Seq::<char>::empty() + concat_texts(t, t.nodes[n].children) =~= concat_texts(
        t,
        t.nodes[n].children,
    ));
}

proof fn lemma_pack_flushes_oversized_buffer(t: TreeV, kids: Seq<int>, cur: Seq<char>, max: int)
    requires
        cur.len() > max,
        max >= 0,
    ensures
        pack_children(t, kids, cur, max).len() >= 1,
        pack_children(t, kids, cur, max)[0] == cur,
    decreases kids.len(),
{
    if kids.len() == 0 {
    } else {
        let ct = node_text_at(t, kids[0]);
        assert(cur.len() + ct.len() > max);
        assert(pack_children(t, kids, cur, max) == seq![cur] + pack_children(
            t,
            kids.drop_first(),
            ct,
            max,
        ));
        assert((seq![cur] + pack_children(t, kids.drop_first(), ct, max))[0] == cur);
    }
}

proof fn lemma_pack_oversized_child_is_own_chunk(
    t: TreeV,
    kids: Seq<int>,
    cur: Seq<char>,
    max: int,
    j: int,
)
    requires
        max >= 0,
        0 <= j < kids.len(),
        node_text_at(t, kids[j]).len() > max,
    ensures
        pack_children(t, kids, cur, max).contains(node_text_at(t, kids[j])),
    decreases kids.len(),
{
    let ct = node_text_at(t, kids[0]);
    let rest = kids.drop_first();
    if j == 0 {
        if cur.len() + ct.len() > max && cur.len() > 0 {
            lemma_pack_flushes_oversized_buffer(t, rest, ct, max);
            let packed = pack_children(t, kids, cur, max);
            assert(packed == seq![cur] + pack_children(t, rest, ct, max));
            assert(packed[1] == ct);
        } else {
            // The buffer must be empty, since the oversized child alone
            // would overflow it; the child becomes the whole new buffer.
            assert(cur.len() == 0);
            assert(cur + ct =~= ct);
            lemma_pack_flushes_oversized_buffer(t, rest, ct, max);
            let packed = pack_children(t, kids, cur, max);
            assert(packed == pack_children(t, rest, ct, max));
            assert(packed[0] == ct);
        }
    } else {
        assert(rest[j - 1] == kids[j]);
        if cur.len() + ct.len() > max && cur.len() > 0 {
            lemma_pack_oversized_child_is_own_chunk(t, rest, ct, max, j - 1);
            let tail = pack_children(t, rest, ct, max);
            let w = choose|w: int| 0 <= w < tail.len() && tail[w] == node_text_at(t, kids[j]);
            assert((seq![cur] + tail)[w + 1] == node_text_at(t, kids[j]));
        } else {
            lemma_pack_oversized_child_is_own_chunk(t, rest, cur + ct, max, j - 1);
        }
    }
}

/// Fallback never splits inside a child: a child whose own text exceeds
/// the budget comes out whole, as one chunk of its own. (Together with
/// `fallback_covers_all_children`, it appears exactly once overall.)
pub proof fn fallback_keeps_oversized_child_whole(t: TreeV, n: int, max: int, j: int)
    requires
        max >= 0,
        kid_ok(t, n),
        t.nodes[n].text.len() > max,
        0 <= j < t.nodes[n].children.len(),
        node_text_at(t, t.nodes[n].children[j]).len() > max,
    ensures
        fallback_chunks(t, n, max).contains(node_text_at(t, t.nodes[n].children[j])),
{
    lemma_pack_oversized_child_is_own_chunk(t, t.nodes[n].children, Seq::empty(), max, j);
}

// ---------------------------------------------------------------------
// Composite header stability
// ---------------------------------------------------------------------

/// Composite header stability: every member chunk extracted from one
/// declaration list opens with the same synthesized header line, so any
/// two methods of the same implementation-for-type container produce
/// byte-identical opening lines.
pub proof fn member_chunks_share_header(t: TreeV, kids: Seq<int>, hdr: Seq<char>, fctx: Seq<char>)
    ensures
        forall|j: int|
            0 <= j < members_walk(t, kids, hdr, fctx).len() ==> begins_with(
                #[trigger] members_walk(t, kids, hdr, fctx)[j],
                hdr + " {\n"@,
            ),
    decreases kids.len(),
{
    if kids.len() == 0 {
    } else {
        let k = kids[0];
        let rest = kids.drop_first();
        if !kid_ok(t, k) || !t.nodes[k].named {
            member_chunks_share_header(t, rest, hdr, fctx);
            assert(members_walk(t, kids, hdr, fctx) == members_walk(t, rest, hdr, fctx));
            assert forall|j: int| 0 <= j < members_walk(t, kids, hdr, fctx).len() implies
                begins_with(#[trigger] members_walk(t, kids, hdr, fctx)[j], hdr + " {\n"@) by {
                assert(members_walk(t, kids, hdr, fctx)[j] == members_walk(t, rest, hdr, fctx)[j]);
            }
        } else if t.nodes[k].kind == NodeKind::FunctionItem {
            member_chunks_share_header(t, rest, hdr, Seq::empty());
            let head = member_chunk(hdr, fctx, t.nodes[k].text);
            assert(head =~= (hdr + " {\n"@) + (crate::strutil::indent_lines(fctx)
                + t.nodes[k].text + "\n}"@));
            lemma_concat_begins_with(
                hdr + " {\n"@,
                crate::strutil::indent_lines(fctx) + t.nodes[k].text + "\n}"@,
            );
            let walked = members_walk(t, kids, hdr, fctx);
            assert(walked == seq![head] + members_walk(t, rest, hdr, Seq::empty()));
            assert forall|j: int| 0 <= j < walked.len() implies begins_with(
                #[trigger] walked[j],
                hdr + " {\n"@,
            ) by {
                if j == 0 {
                    assert(walked[0] == head);
                } else {
                    assert(walked[j] == members_walk(t, rest, hdr, Seq::empty())[j - 1]);
                }
            }
        } else if t.nodes[k].kind == NodeKind::LineComment || t.nodes[k].kind
            == NodeKind::BlockComment {
            let fctx2 = fctx + crate::strutil::with_nl(t.nodes[k].text);
            member_chunks_share_header(t, rest, hdr, fctx2);
            assert(members_walk(t, kids, hdr, fctx) == members_walk(t, rest, hdr, fctx2));
            assert forall|j: int| 0 <= j < members_walk(t, kids, hdr, fctx).len() implies
                begins_with(#[trigger] members_walk(t, kids, hdr, fctx)[j], hdr + " {\n"@) by {
                assert(members_walk(t, kids, hdr, fctx)[j] == members_walk(t, rest, hdr, fctx2)[j]);
            }
        } else {
            member_chunks_share_header(t, rest, hdr, fctx);
            assert(members_walk(t, kids, hdr, fctx) == members_walk(t, rest, hdr, fctx));
            assert forall|j: int| 0 <= j < members_walk(t, kids, hdr, fctx).len() implies
                begins_with(#[trigger] members_walk(t, kids, hdr, fctx)[j], hdr + " {\n"@) by {
                assert(members_walk(t, kids, hdr, fctx)[j] == members_walk(t, rest, hdr, fctx)[j]);
            }
        }
    }
}

/// The Javascript counterpart: every method chunk extracted from one
/// class body opens with the same minimal class-name header line.
pub proof fn js_method_chunks_share_header(t: TreeV, kids: Seq<int>, name: Seq<char>)
    ensures
        forall|j: int|
            0 <= j < js_methods_in(t, kids, name).len() ==> begins_with(
                #[trigger] js_methods_in(t, kids, name)[j],
                "class "@ + name + " {\n"@,
            ),
    decreases kids.len(),
{
    if kids.len() == 0 {
    } else {
        let k = kids[0];
        let rest = kids.drop_first();
        js_method_chunks_share_header(t, rest, name);
        if !(kid_ok(t, k) && t.nodes[k].named && t.nodes[k].kind == NodeKind::MethodDefinition) {
            assert(js_methods_in(t, kids, name) == js_methods_in(t, rest, name));
            assert forall|j: int| 0 <= j < js_methods_in(t, kids, name).len() implies
                begins_with(#[trigger] js_methods_in(t, kids, name)[j], "class "@ + name + " {\n"@) by {
                assert(js_methods_in(t, kids, name)[j] == js_methods_in(t, rest, name)[j]);
            }
        }
        if kid_ok(t, k) && t.nodes[k].named && t.nodes[k].kind == NodeKind::MethodDefinition {
            let head = js_method_chunk(name, t.nodes[k].text);
            assert(head =~= ("class "@ + name + " {\n"@) + (t.nodes[k].text + "\n}"@));
            lemma_concat_begins_with("class "@ + name + " {\n"@, t.nodes[k].text + "\n}"@);
            let walked = js_methods_in(t, kids, name);
            assert(walked == seq![head] + js_methods_in(t, rest, name));
            assert forall|j: int| 0 <= j < walked.len() implies begins_with(
                #[trigger] walked[j],
                "class "@ + name + " {\n"@,
            ) by {
                if j == 0 {
                    assert(walked[0] == head);
                } else {
                    assert(walked[j] == js_methods_in(t, rest, name)[j - 1]);
                }
            }
        }
    }
}

// ---------------------------------------------------------------------
// Context non-leak
// ---------------------------------------------------------------------

/// Node `k` makes the Rust extractor emit chunks (a standalone
/// declaration or an implementation block).
pub open spec fn rust_emits(t: TreeV, k: int) -> bool {
    &&& kid_ok(t, k)
    &&& t.nodes[k].named
    &&& (is_type_decl(t.nodes[k].kind) || is_plain_decl(t.nodes[k].kind) || t.nodes[k].kind
        == NodeKind::ImplItem)
}

/// Context non-leak (Rust): a node that only accumulates context (an
/// import, an attribute, a doc comment) or is ignored, standing as the
/// very last top-level child, produces zero extra chunks. Each split
/// call starts from empty accumulators, so nothing of it survives into
/// a later run either.
pub proof fn rust_trailing_context_adds_no_chunk(
    t: TreeV,
    kids: Seq<int>,
    k: int,
    doc: Seq<char>,
    ctx: Seq<char>,
)
    requires
        !rust_emits(t, k),
    ensures
        rust_walk(t, kids.push(k), doc, ctx) == rust_walk(t, kids, doc, ctx),
    decreases kids.len(),
{
    assert forall|d: Seq<char>, c: Seq<char>| #[trigger] rust_walk(t, Seq::<int>::empty(), d, c)
        == Seq::<Seq<char>>::empty() by {}
    if kids.len() == 0 {
        let single = kids.push(k);
        assert(single[0] == k);
        assert(single.drop_first() =~= Seq::<int>::empty());
        if !kid_ok(t, k) || !t.nodes[k].named {
            assert(rust_walk(t, single, doc, ctx) == rust_walk(t, single.drop_first(), doc, ctx));
        } else {
            let n = t.nodes[k];
            if crate::rust_lang::is_rust_context(n.kind) {
                assert(rust_walk(t, single, doc, ctx) == rust_walk(
                    t,
                    single.drop_first(),
                    doc,
                    ctx + crate::strutil::with_nl(n.text),
                ));
            } else if n.kind == NodeKind::LineComment && crate::strutil::is_doc_text(n.text) {
                assert(rust_walk(t, single, doc, ctx) == rust_walk(
                    t,
                    single.drop_first(),
                    doc + crate::strutil::with_nl(n.text),
                    ctx,
                ));
            } else {
                assert(rust_walk(t, single, doc, ctx) == rust_walk(t, single.drop_first(), doc, ctx));
            }
        }
        assert(rust_walk(t, kids, doc, ctx) == Seq::<Seq<char>>::empty());
    } else {
        assert(kids.push(k)[0] == kids[0]);
        assert(kids.push(k).drop_first() =~= kids.drop_first().push(k));
        let rest = kids.drop_first();
        let k0 = kids[0];
        if !kid_ok(t, k0) || !t.nodes[k0].named {
            rust_trailing_context_adds_no_chunk(t, rest, k, doc, ctx);
            assert(rust_walk(t, kids.push(k), doc, ctx) == rust_walk(t, rest.push(k), doc, ctx));
            assert(rust_walk(t, kids, doc, ctx) == rust_walk(t, rest, doc, ctx));
        } else {
            let n = t.nodes[k0];
            if is_type_decl(n.kind) || is_plain_decl(n.kind) {
                rust_trailing_context_adds_no_chunk(t, rest, k, Seq::empty(), Seq::empty());
                assert(rust_walk(t, kids.push(k), doc, ctx) == seq![
                    crate::rust_lang::standalone_chunk(t, n, doc, ctx),
                ] + rust_walk(t, rest.push(k), Seq::empty(), Seq::empty()));
                assert(rust_walk(t, kids, doc, ctx) == seq![
                    crate::rust_lang::standalone_chunk(t, n, doc, ctx),
                ] + rust_walk(t, rest, Seq::empty(), Seq::empty()));
            } else if n.kind == NodeKind::ImplItem {
                rust_trailing_context_adds_no_chunk(t, rest, k, Seq::empty(), Seq::empty());
                assert(rust_walk(t, kids.push(k), doc, ctx) == crate::rust_lang::impl_chunks(t, n)
                    + rust_walk(t, rest.push(k), Seq::empty(), Seq::empty()));
                assert(rust_walk(t, kids, doc, ctx) == crate::rust_lang::impl_chunks(t, n)
                    + rust_walk(t, rest, Seq::empty(), Seq::empty()));
            } else if crate::rust_lang::is_rust_context(n.kind) {
                let c2 = ctx + crate::strutil::with_nl(n.text);
                rust_trailing_context_adds_no_chunk(t, rest, k, doc, c2);
                assert(rust_walk(t, kids.push(k), doc, ctx) == rust_walk(t, rest.push(k), doc, c2));
                assert(rust_walk(t, kids, doc, ctx) == rust_walk(t, rest, doc, c2));
            } else if n.kind == NodeKind::LineComment && crate::strutil::is_doc_text(n.text) {
                let d2 = doc + crate::strutil::with_nl(n.text);
                rust_trailing_context_adds_no_chunk(t, rest, k, d2, ctx);
                assert(rust_walk(t, kids.push(k), doc, ctx) == rust_walk(t, rest.push(k), d2, ctx));
                assert(rust_walk(t, kids, doc, ctx) == rust_walk(t, rest, d2, ctx));
            } else {
                rust_trailing_context_adds_no_chunk(t, rest, k, doc, ctx);
                assert(rust_walk(t, kids.push(k), doc, ctx) == rust_walk(t, rest.push(k), doc, ctx));
                assert(rust_walk(t, kids, doc, ctx) == rust_walk(t, rest, doc, ctx));
            }
        }
    }
}

/// Node `k` makes the Javascript extractor emit chunks.
pub open spec fn js_emits(t: TreeV, k: int) -> bool {
    &&& kid_ok(t, k)
    &&& t.nodes[k].named
    &&& (t.nodes[k].kind == NodeKind::FunctionDeclaration || t.nodes[k].kind
        == NodeKind::MethodDefinition || t.nodes[k].kind == NodeKind::ClassDeclaration)
}

/// Context non-leak (Javascript): an import, export or top-level
/// variable standing as the very last top-level child produces zero
/// extra chunks.
pub proof fn js_trailing_context_adds_no_chunk(
    t: TreeV,
    at_program: bool,
    kids: Seq<int>,
    k: int,
    ctx: Seq<char>,
)
    requires
        !js_emits(t, k),
    ensures
        js_walk(t, at_program, kids.push(k), ctx) == js_walk(t, at_program, kids, ctx),
    decreases kids.len(),
{
    assert forall|c: Seq<char>| #[trigger] js_walk(t, at_program, Seq::<int>::empty(), c)
        == Seq::<Seq<char>>::empty() by {}
    if kids.len() == 0 {
        let single = kids.push(k);
        assert(single[0] == k);
        assert(single.drop_first() =~= Seq::<int>::empty());
        if !kid_ok(t, k) || !t.nodes[k].named {
            assert(js_walk(t, at_program, single, ctx) == js_walk(
                t,
                at_program,
                single.drop_first(),
                ctx,
            ));
        } else {
            let n = t.nodes[k];
            if n.kind == NodeKind::ImportStatement || n.kind == NodeKind::ExportStatement || (n.kind
                == NodeKind::VariableDeclaration && at_program) {
                assert(js_walk(t, at_program, single, ctx) == js_walk(
                    t,
                    at_program,
                    single.drop_first(),
                    ctx + crate::strutil::with_nl(n.text),
                ));
            } else {
                assert(js_walk(t, at_program, single, ctx) == js_walk(
                    t,
                    at_program,
                    single.drop_first(),
                    ctx,
                ));
            }
        }
        assert(js_walk(t, at_program, kids, ctx) == Seq::<Seq<char>>::empty());
    } else {
        assert(kids.push(k)[0] == kids[0]);
        assert(kids.push(k).drop_first() =~= kids.drop_first().push(k));
        let rest = kids.drop_first();
        let k0 = kids[0];
        if !kid_ok(t, k0) || !t.nodes[k0].named {
            js_trailing_context_adds_no_chunk(t, at_program, rest, k, ctx);
            assert(js_walk(t, at_program, kids.push(k), ctx) == js_walk(t, at_program, rest.push(k), ctx));
            assert(js_walk(t, at_program, kids, ctx) == js_walk(t, at_program, rest, ctx));
        } else {
            let n = t.nodes[k0];
            if n.kind == NodeKind::FunctionDeclaration || n.kind == NodeKind::MethodDefinition {
                js_trailing_context_adds_no_chunk(t, at_program, rest, k, ctx);
                assert(js_walk(t, at_program, kids.push(k), ctx) == seq![ctx + n.text] + js_walk(
                    t,
                    at_program,
                    rest.push(k),
                    ctx,
                ));
                assert(js_walk(t, at_program, kids, ctx) == seq![ctx + n.text] + js_walk(
                    t,
                    at_program,
                    rest,
                    ctx,
                ));
            } else if n.kind == NodeKind::ClassDeclaration {
                js_trailing_context_adds_no_chunk(t, at_program, rest, k, ctx);
                assert(js_walk(t, at_program, kids.push(k), ctx) == seq![ctx + n.text]
                    + crate::javascript_lang::js_class_member_chunks(t, n) + js_walk(
                    t,
                    at_program,
                    rest.push(k),
                    ctx,
                ));
                assert(js_walk(t, at_program, kids, ctx) == seq![ctx + n.text]
                    + crate::javascript_lang::js_class_member_chunks(t, n) + js_walk(
                    t,
                    at_program,
                    rest,
                    ctx,
                ));
            } else if n.kind == NodeKind::ImportStatement || n.kind == NodeKind::ExportStatement {
                let c2 = ctx + crate::strutil::with_nl(n.text);
                js_trailing_context_adds_no_chunk(t, at_program, rest, k, c2);
                assert(js_walk(t, at_program, kids.push(k), ctx) == js_walk(t, at_program, rest.push(k), c2));
                assert(js_walk(t, at_program, kids, ctx) == js_walk(t, at_program, rest, c2));
            } else if n.kind == NodeKind::VariableDeclaration && at_program {
                let c2 = ctx + crate::strutil::with_nl(n.text);
                js_trailing_context_adds_no_chunk(t, at_program, rest, k, c2);
                assert(js_walk(t, at_program, kids.push(k), ctx) == js_walk(t, at_program, rest.push(k), c2));
                assert(js_walk(t, at_program, kids, ctx) == js_walk(t, at_program, rest, c2));
            } else {
                js_trailing_context_adds_no_chunk(t, at_program, rest, k, ctx);
                assert(js_walk(t, at_program, kids.push(k), ctx) == js_walk(t, at_program, rest.push(k), ctx));
                assert(js_walk(t, at_program, kids, ctx) == js_walk(t, at_program, rest, ctx));
            }
        }
    }
}

// ---------------------------------------------------------------------
// Coverage
// ---------------------------------------------------------------------

/// `chunks` and `suffixes` line up: one chunk per expected unit, in
/// order, each chunk carrying its unit's text at its tail.
pub open spec fn aligned(chunks: Seq<Seq<char>>, suffixes: Seq<Seq<char>>) -> bool {
    &&& chunks.len() == suffixes.len()
    &&& forall|j: int| 0 <= j < chunks.len() ==> ends_with(#[trigger] chunks[j], suffixes[j])
}

proof fn lemma_align_concat(
    a: Seq<Seq<char>>,
    b: Seq<Seq<char>>,
    sa: Seq<Seq<char>>,
    sb: Seq<Seq<char>>,
)
    requires
        aligned(a, sa),
        aligned(b, sb),
    ensures
        aligned(a + b, sa + sb),
{
    assert forall|j: int| 0 <= j < (a + b).len() implies ends_with(
        #[trigger] (a + b)[j],
        (sa + sb)[j],
    ) by {
        if j < a.len() {
            assert((a + b)[j] == a[j]);
            assert((sa + sb)[j] == sa[j]);
        } else {
            assert((a + b)[j] == b[j - a.len()]);
            assert((sa + sb)[j] == sb[j - sa.len()]);
        }
    }
}

proof fn lemma_align_cons(c: Seq<char>, suf: Seq<char>, b: Seq<Seq<char>>, sb: Seq<Seq<char>>)
    requires
        ends_with(c, suf),
        aligned(b, sb),
    ensures
        aligned(seq![c] + b, seq![suf] + sb),
{
    assert forall|j: int| 0 <= j < (seq![c] + b).len() implies ends_with(
        #[trigger] (seq![c] + b)[j],
        (seq![suf] + sb)[j],
    ) by {
        if j == 0 {
            assert((seq![c] + b)[0] == c);
            assert((seq![suf] + sb)[0] == suf);
        } else {
            assert((seq![c] + b)[j] == b[j - 1]);
            assert((seq![suf] + sb)[j] == sb[j - 1]);
        }
    }
}

/// The tail every member chunk of a declaration list must carry: the
/// member's own text and the closing delimiter, in source order.
pub open spec fn member_unit_suffixes(t: TreeV, kids: Seq<int>) -> Seq<Seq<char>>
    decreases kids.len(),
{
    if kids.len() == 0 {
        Seq::empty()
    } else {
        let k = kids[0];
        let rest = kids.drop_first();
        if kid_ok(t, k) && t.nodes[k].named && t.nodes[k].kind == NodeKind::FunctionItem {
            seq![t.nodes[k].text + "\n}"@] + member_unit_suffixes(t, rest)
        } else {
            member_unit_suffixes(t, rest)
        }
    }
}

/// The member units of every body of an implementation block.
pub open spec fn impl_unit_suffixes(t: TreeV, kids: Seq<int>) -> Seq<Seq<char>>
    decreases kids.len(),
{
    if kids.len() == 0 {
        Seq::empty()
    } else {
        let k = kids[0];
        let rest = kids.drop_first();
        if kid_ok(t, k) && t.nodes[k].named && t.nodes[k].kind == NodeKind::DeclarationList {
            member_unit_suffixes(t, t.nodes[k].children) + impl_unit_suffixes(t, rest)
        } else {
            impl_unit_suffixes(t, rest)
        }
    }
}

/// The structurally significant top-level units of a Rust source file,
/// in source order: each standalone declaration's own text, and each
/// implementation member's text with its closing delimiter.
pub open spec fn rust_unit_suffixes_from(t: TreeV, kids: Seq<int>) -> Seq<Seq<char>>
    decreases kids.len(),
{
    if kids.len() == 0 {
        Seq::empty()
    } else {
        let k = kids[0];
        let rest = kids.drop_first();
        if !kid_ok(t, k) || !t.nodes[k].named {
            rust_unit_suffixes_from(t, rest)
        } else if is_type_decl(t.nodes[k].kind) || is_plain_decl(t.nodes[k].kind) {
            seq![t.nodes[k].text] + rust_unit_suffixes_from(t, rest)
        } else if t.nodes[k].kind == NodeKind::ImplItem {
            impl_unit_suffixes(t, t.nodes[k].children) + rust_unit_suffixes_from(t, rest)
        } else {
            rust_unit_suffixes_from(t, rest)
        }
    }
}

/// The top-level units of a whole Rust tree.
pub open spec fn rust_unit_suffixes(t: TreeV) -> Seq<Seq<char>> {
    if 0 <= t.root < t.nodes.len() {
        rust_unit_suffixes_from(t, t.nodes[t.root].children)
    } else {
        Seq::empty()
    }
}

proof fn lemma_members_aligned(t: TreeV, kids: Seq<int>, hdr: Seq<char>, fctx: Seq<char>)
    ensures
        aligned(members_walk(t, kids, hdr, fctx), member_unit_suffixes(t, kids)),
    decreases kids.len(),
{
    if kids.len() == 0 {
    } else {
        let k = kids[0];
        let rest = kids.drop_first();
        if !kid_ok(t, k) || !t.nodes[k].named {
            lemma_members_aligned(t, rest, hdr, fctx);
            assert(members_walk(t, kids, hdr, fctx) == members_walk(t, rest, hdr, fctx));
        } else if t.nodes[k].kind == NodeKind::FunctionItem {
            lemma_members_aligned(t, rest, hdr, Seq::empty());
            let body = t.nodes[k].text;
            let head = member_chunk(hdr, fctx, body);
            assert(head =~= (hdr + " {\n"@ + crate::strutil::indent_lines(fctx)) + (body
                + "\n}"@));
            lemma_concat_ends_with(
                hdr + " {\n"@ + crate::strutil::indent_lines(fctx),
                body + "\n}"@,
            );
            lemma_align_cons(
                head,
                body + "\n}"@,
                members_walk(t, rest, hdr, Seq::empty()),
                member_unit_suffixes(t, rest),
            );
            assert(members_walk(t, kids, hdr, fctx) == seq![head] + members_walk(
                t,
                rest,
                hdr,
                Seq::empty(),
            ));
            assert(member_unit_suffixes(t, kids) == seq![body + "\n}"@] + member_unit_suffixes(
                t,
                rest,
            ));
        } else if t.nodes[k].kind == NodeKind::LineComment || t.nodes[k].kind
            == NodeKind::BlockComment {
            lemma_members_aligned(t, rest, hdr, fctx + crate::strutil::with_nl(t.nodes[k].text));
            assert(members_walk(t, kids, hdr, fctx) == members_walk(
                t,
                rest,
                hdr,
                fctx + crate::strutil::with_nl(t.nodes[k].text),
            ));
            assert(member_unit_suffixes(t, kids) == member_unit_suffixes(t, rest));
        } else {
            lemma_members_aligned(t, rest, hdr, fctx);
            assert(members_walk(t, kids, hdr, fctx) == members_walk(t, rest, hdr, fctx));
        }
    }
}

proof fn lemma_impl_aligned(t: TreeV, kids: Seq<int>, tp: Seq<char>, ity: Seq<char>)
    ensures
        aligned(crate::rust_lang::impl_walk(t, kids, tp, ity), impl_unit_suffixes(t, kids)),
    decreases kids.len(),
{
    if kids.len() == 0 {
    } else {
        let k = kids[0];
        let rest = kids.drop_first();
        if !kid_ok(t, k) || !t.nodes[k].named {
            lemma_impl_aligned(t, rest, tp, ity);
            assert(crate::rust_lang::impl_walk(t, kids, tp, ity) == crate::rust_lang::impl_walk(
                t,
                rest,
                tp,
                ity,
            ));
        } else if t.nodes[k].kind == NodeKind::DeclarationList {
            lemma_members_aligned(t, t.nodes[k].children, impl_header(tp, ity), Seq::empty());
            lemma_impl_aligned(t, rest, Seq::empty(), Seq::empty());
            lemma_align_concat(
                members_walk(t, t.nodes[k].children, impl_header(tp, ity), Seq::empty()),
                crate::rust_lang::impl_walk(t, rest, Seq::empty(), Seq::empty()),
                member_unit_suffixes(t, t.nodes[k].children),
                impl_unit_suffixes(t, rest),
            );
            assert(crate::rust_lang::impl_walk(t, kids, tp, ity) == members_walk(
                t,
                t.nodes[k].children,
                impl_header(tp, ity),
                Seq::empty(),
            ) + crate::rust_lang::impl_walk(t, rest, Seq::empty(), Seq::empty()));
            assert(impl_unit_suffixes(t, kids) == member_unit_suffixes(t, t.nodes[k].children)
                + impl_unit_suffixes(t, rest));
        } else if t.nodes[k].kind == NodeKind::TypeParameters {
            lemma_impl_aligned(t, rest, t.nodes[k].text, ity);
            assert(crate::rust_lang::impl_walk(t, kids, tp, ity) == crate::rust_lang::impl_walk(
                t,
                rest,
                t.nodes[k].text,
                ity,
            ));
            assert(impl_unit_suffixes(t, kids) == impl_unit_suffixes(t, rest));
        } else {
            let ity2: Seq<char> = if ity.len() == 0 {
                t.nodes[k].text
            } else {
                ity + " for "@ + t.nodes[k].text
            };
            lemma_impl_aligned(t, rest, tp, ity2);
            assert(crate::rust_lang::impl_walk(t, kids, tp, ity) == crate::rust_lang::impl_walk(
                t,
                rest,
                tp,
                ity2,
            ));
            assert(impl_unit_suffixes(t, kids) == impl_unit_suffixes(t, rest));
        }
    }
}

proof fn lemma_rust_aligned(t: TreeV, kids: Seq<int>, doc: Seq<char>, ctx: Seq<char>)
    ensures
        aligned(rust_walk(t, kids, doc, ctx), rust_unit_suffixes_from(t, kids)),
    decreases kids.len(),
{
    if kids.len() == 0 {
    } else {
        let k = kids[0];
        let rest = kids.drop_first();
        if !kid_ok(t, k) || !t.nodes[k].named {
            lemma_rust_aligned(t, rest, doc, ctx);
            assert(rust_walk(t, kids, doc, ctx) == rust_walk(t, rest, doc, ctx));
        } else {
            let n = t.nodes[k];
            if is_type_decl(n.kind) || is_plain_decl(n.kind) {
                lemma_rust_aligned(t, rest, Seq::empty(), Seq::empty());
                let head = crate::rust_lang::standalone_chunk(t, n, doc, ctx);
                assert(head =~= (doc + ctx + (if is_type_decl(n.kind) {
                    crate::rust_lang::attrs_from(t, n.children)
                } else {
                    Seq::<char>::empty()
                })) + n.text);
                lemma_concat_ends_with(
                    doc + ctx + (if is_type_decl(n.kind) {
                        crate::rust_lang::attrs_from(t, n.children)
                    } else {
                        Seq::<char>::empty()
                    }),
                    n.text,
                );
                lemma_align_cons(
                    head,
                    n.text,
                    rust_walk(t, rest, Seq::empty(), Seq::empty()),
                    rust_unit_suffixes_from(t, rest),
                );
                assert(rust_walk(t, kids, doc, ctx) == seq![head] + rust_walk(
                    t,
                    rest,
                    Seq::empty(),
                    Seq::empty(),
                ));
                assert(rust_unit_suffixes_from(t, kids) == seq![n.text]
                    + rust_unit_suffixes_from(t, rest));
            } else if n.kind == NodeKind::ImplItem {
                lemma_impl_aligned(t, n.children, Seq::empty(), Seq::empty());
                lemma_rust_aligned(t, rest, Seq::empty(), Seq::empty());
                lemma_align_concat(
                    crate::rust_lang::impl_chunks(t, n),
                    rust_walk(t, rest, Seq::empty(), Seq::empty()),
                    impl_unit_suffixes(t, n.children),
                    rust_unit_suffixes_from(t, rest),
                );
                assert(rust_walk(t, kids, doc, ctx) == crate::rust_lang::impl_chunks(t, n)
                    + rust_walk(t, rest, Seq::empty(), Seq::empty()));
                assert(rust_unit_suffixes_from(t, kids) == impl_unit_suffixes(t, n.children)
                    + rust_unit_suffixes_from(t, rest));
            } else if crate::rust_lang::is_rust_context(n.kind) {
                lemma_rust_aligned(t, rest, doc, ctx + crate::strutil::with_nl(n.text));
                assert(rust_walk(t, kids, doc, ctx) == rust_walk(
                    t,
                    rest,
                    doc,
                    ctx + crate::strutil::with_nl(n.text),
                ));
                assert(rust_unit_suffixes_from(t, kids) == rust_unit_suffixes_from(t, rest));
            } else if n.kind == NodeKind::LineComment && crate::strutil::is_doc_text(n.text) {
                lemma_rust_aligned(t, rest, doc + crate::strutil::with_nl(n.text), ctx);
                assert(rust_walk(t, kids, doc, ctx) == rust_walk(
                    t,
                    rest,
                    doc + crate::strutil::with_nl(n.text),
                    ctx,
                ));
                assert(rust_unit_suffixes_from(t, kids) == rust_unit_suffixes_from(t, rest));
            } else {
                lemma_rust_aligned(t, rest, doc, ctx);
                assert(rust_walk(t, kids, doc, ctx) == rust_walk(t, rest, doc, ctx));
                assert(rust_unit_suffixes_from(t, kids) == rust_unit_suffixes_from(t, rest));
            }
        }
    }
}

/// Coverage (Rust): the extractor emits exactly one chunk per
/// structurally significant top-level unit, in source order — one per
/// standalone declaration and one per implementation member — and each
/// chunk ends with that unit's full text, so no declaration is omitted,
/// duplicated or cut.
pub proof fn rust_chunks_cover_declarations(t: TreeV)
    ensures
        crate::rust_lang::rust_chunks(t).len() == rust_unit_suffixes(t).len(),
        forall|j: int|
            0 <= j < crate::rust_lang::rust_chunks(t).len() ==> ends_with(
                #[trigger] crate::rust_lang::rust_chunks(t)[j],
                rust_unit_suffixes(t)[j],
            ),
{
    if 0 <= t.root < t.nodes.len() {
        lemma_rust_aligned(t, t.nodes[t.root].children, Seq::empty(), Seq::empty());
    }
}


/// The tail every wrapped method chunk of a class body must carry.
pub open spec fn js_method_unit_suffixes(t: TreeV, kids: Seq<int>) -> Seq<Seq<char>>
    decreases kids.len(),
{
    if kids.len() == 0 {
        Seq::empty()
    } else {
        let k = kids[0];
        let rest = kids.drop_first();
        if kid_ok(t, k) && t.nodes[k].named && t.nodes[k].kind == NodeKind::MethodDefinition {
            seq![t.nodes[k].text + "\n}"@] + js_method_unit_suffixes(t, rest)
        } else {
            js_method_unit_suffixes(t, rest)
        }
    }
}

/// The method units of every class body among `kids`.
pub open spec fn js_body_unit_suffixes(t: TreeV, kids: Seq<int>) -> Seq<Seq<char>>
    decreases kids.len(),
{
    if kids.len() == 0 {
        Seq::empty()
    } else {
        let k = kids[0];
        let rest = kids.drop_first();
        if kid_ok(t, k) && t.nodes[k].named && t.nodes[k].kind == NodeKind::ClassBody {
            js_method_unit_suffixes(t, t.nodes[k].children) + js_body_unit_suffixes(t, rest)
        } else {
            js_body_unit_suffixes(t, rest)
        }
    }
}

/// The structurally significant top-level units of a Javascript
/// program, in source order: each standalone declaration's own text,
/// with the wrapped method units of each class following its class.
pub open spec fn js_unit_suffixes_from(t: TreeV, at_program: bool, kids: Seq<int>) -> Seq<
    Seq<char>,
>
    decreases kids.len(),
{
    if kids.len() == 0 {
        Seq::empty()
    } else {
        let k = kids[0];
        let rest = kids.drop_first();
        if !kid_ok(t, k) || !t.nodes[k].named {
            js_unit_suffixes_from(t, at_program, rest)
        } else {
            let n = t.nodes[k];
            if n.kind == NodeKind::FunctionDeclaration || n.kind == NodeKind::MethodDefinition {
                seq![n.text] + js_unit_suffixes_from(t, at_program, rest)
            } else if n.kind == NodeKind::ClassDeclaration {
                seq![n.text] + js_body_unit_suffixes(t, n.children) + js_unit_suffixes_from(
                    t,
                    at_program,
                    rest,
                )
            } else {
                js_unit_suffixes_from(t, at_program, rest)
            }
        }
    }
}

/// The top-level units of a whole Javascript tree.
pub open spec fn js_unit_suffixes(t: TreeV) -> Seq<Seq<char>> {
    if 0 <= t.root < t.nodes.len() {
        js_unit_suffixes_from(
            t,
            t.nodes[t.root].kind == NodeKind::Program,
            t.nodes[t.root].children,
        )
    } else {
        Seq::empty()
    }
}

proof fn lemma_js_methods_aligned(t: TreeV, kids: Seq<int>, name: Seq<char>)
    ensures
        aligned(js_methods_in(t, kids, name), js_method_unit_suffixes(t, kids)),
    decreases kids.len(),
{
    if kids.len() == 0 {
    } else {
        let k = kids[0];
        let rest = kids.drop_first();
        lemma_js_methods_aligned(t, rest, name);
        if kid_ok(t, k) && t.nodes[k].named && t.nodes[k].kind == NodeKind::MethodDefinition {
            let body = t.nodes[k].text;
            let head = js_method_chunk(name, body);
            assert(head =~= ("class "@ + name + " {\n"@) + (body + "\n}"@));
            lemma_concat_ends_with("class "@ + name + " {\n"@, body + "\n}"@);
            lemma_align_cons(
                head,
                body + "\n}"@,
                js_methods_in(t, rest, name),
                js_method_unit_suffixes(t, rest),
            );
            assert(js_methods_in(t, kids, name) == seq![head] + js_methods_in(t, rest, name));
            assert(js_method_unit_suffixes(t, kids) == seq![body + "\n}"@]
                + js_method_unit_suffixes(t, rest));
        } else {
            assert(js_methods_in(t, kids, name) == js_methods_in(t, rest, name));
            assert(js_method_unit_suffixes(t, kids) == js_method_unit_suffixes(t, rest));
        }
    }
}

proof fn lemma_js_bodies_aligned(t: TreeV, kids: Seq<int>, name: Seq<char>)
    ensures
        aligned(crate::javascript_lang::js_class_bodies(t, kids, name), js_body_unit_suffixes(t, kids)),
    decreases kids.len(),
{
    if kids.len() == 0 {
    } else {
        let k = kids[0];
        let rest = kids.drop_first();
        lemma_js_bodies_aligned(t, rest, name);
        if kid_ok(t, k) && t.nodes[k].named && t.nodes[k].kind == NodeKind::ClassBody {
            lemma_js_methods_aligned(t, t.nodes[k].children, name);
            lemma_align_concat(
                js_methods_in(t, t.nodes[k].children, name),
                crate::javascript_lang::js_class_bodies(t, rest, name),
                js_method_unit_suffixes(t, t.nodes[k].children),
                js_body_unit_suffixes(t, rest),
            );
            assert(crate::javascript_lang::js_class_bodies(t, kids, name) == js_methods_in(
                t,
                t.nodes[k].children,
                name,
            ) + crate::javascript_lang::js_class_bodies(t, rest, name));
            assert(js_body_unit_suffixes(t, kids) == js_method_unit_suffixes(
                t,
                t.nodes[k].children,
            ) + js_body_unit_suffixes(t, rest));
        } else {
            assert(crate::javascript_lang::js_class_bodies(t, kids, name)
                == crate::javascript_lang::js_class_bodies(t, rest, name));
            assert(js_body_unit_suffixes(t, kids) == js_body_unit_suffixes(t, rest));
        }
    }
}

proof fn lemma_js_aligned(t: TreeV, at_program: bool, kids: Seq<int>, ctx: Seq<char>)
    ensures
        aligned(js_walk(t, at_program, kids, ctx), js_unit_suffixes_from(t, at_program, kids)),
    decreases kids.len(),
{
    if kids.len() == 0 {
    } else {
        let k = kids[0];
        let rest = kids.drop_first();
        if !kid_ok(t, k) || !t.nodes[k].named {
            lemma_js_aligned(t, at_program, rest, ctx);
            assert(js_walk(t, at_program, kids, ctx) == js_walk(t, at_program, rest, ctx));
        } else {
            let n = t.nodes[k];
            if n.kind == NodeKind::FunctionDeclaration || n.kind == NodeKind::MethodDefinition {
                lemma_js_aligned(t, at_program, rest, ctx);
                lemma_concat_ends_with(ctx, n.text);
                lemma_align_cons(
                    ctx + n.text,
                    n.text,
                    js_walk(t, at_program, rest, ctx),
                    js_unit_suffixes_from(t, at_program, rest),
                );
                assert(js_walk(t, at_program, kids, ctx) == seq![ctx + n.text] + js_walk(
                    t,
                    at_program,
                    rest,
                    ctx,
                ));
                assert(js_unit_suffixes_from(t, at_program, kids) == seq![n.text]
                    + js_unit_suffixes_from(t, at_program, rest));
            } else if n.kind == NodeKind::ClassDeclaration {
                lemma_js_aligned(t, at_program, rest, ctx);
                lemma_js_bodies_aligned(t, n.children, crate::javascript_lang::js_class_name_from(t, n.children));
                lemma_concat_ends_with(ctx, n.text);
                lemma_align_cons(
                    ctx + n.text,
                    n.text,
                    crate::javascript_lang::js_class_member_chunks(t, n),
                    js_body_unit_suffixes(t, n.children),
                );
                lemma_align_concat(
                    seq![ctx + n.text] + crate::javascript_lang::js_class_member_chunks(t, n),
                    js_walk(t, at_program, rest, ctx),
                    seq![n.text] + js_body_unit_suffixes(t, n.children),
                    js_unit_suffixes_from(t, at_program, rest),
                );
                assert(js_walk(t, at_program, kids, ctx) == (seq![ctx + n.text]
                    + crate::javascript_lang::js_class_member_chunks(t, n)) + js_walk(
                    t,
                    at_program,
                    rest,
                    ctx,
                ));
                assert(js_unit_suffixes_from(t, at_program, kids) == (seq![n.text]
                    + js_body_unit_suffixes(t, n.children)) + js_unit_suffixes_from(
                    t,
                    at_program,
                    rest,
                ));
            } else if n.kind == NodeKind::ImportStatement || n.kind == NodeKind::ExportStatement {
                lemma_js_aligned(t, at_program, rest, ctx + crate::strutil::with_nl(n.text));
                assert(js_walk(t, at_program, kids, ctx) == js_walk(
                    t,
                    at_program,
                    rest,
                    ctx + crate::strutil::with_nl(n.text),
                ));
                assert(js_unit_suffixes_from(t, at_program, kids) == js_unit_suffixes_from(
                    t,
                    at_program,
                    rest,
                ));
            } else if n.kind == NodeKind::VariableDeclaration && at_program {
                lemma_js_aligned(t, at_program, rest, ctx + crate::strutil::with_nl(n.text));
                assert(js_walk(t, at_program, kids, ctx) == js_walk(
                    t,
                    at_program,
                    rest,
                    ctx + crate::strutil::with_nl(n.text),
                ));
                assert(js_unit_suffixes_from(t, at_program, kids) == js_unit_suffixes_from(
                    t,
                    at_program,
                    rest,
                ));
            } else {
                lemma_js_aligned(t, at_program, rest, ctx);
                assert(js_walk(t, at_program, kids, ctx) == js_walk(t, at_program, rest, ctx));
                assert(js_unit_suffixes_from(t, at_program, kids) == js_unit_suffixes_from(
                    t,
                    at_program,
                    rest,
                ));
            }
        }
    }
}

/// Coverage (Javascript): the extractor emits exactly one chunk per
/// top-level unit in source order — one per standalone declaration, and
/// one wrapped chunk per method of each class body — each ending with
/// that unit's full text.
pub proof fn js_chunks_cover_declarations(t: TreeV)
    ensures
        crate::javascript_lang::js_chunks(t).len() == js_unit_suffixes(t).len(),
        forall|j: int|
            0 <= j < crate::javascript_lang::js_chunks(t).len() ==> ends_with(
                #[trigger] crate::javascript_lang::js_chunks(t)[j],
                js_unit_suffixes(t)[j],
            ),
{
    if 0 <= t.root < t.nodes.len() {
        lemma_js_aligned(
            t,
            t.nodes[t.root].kind == NodeKind::Program,
            t.nodes[t.root].children,
            Seq::empty(),
        );
    }
}

/// The texts of the structurally significant top-level units of a
/// Python module, in source order.
pub open spec fn python_unit_texts(t: TreeV, kids: Seq<int>) -> Seq<Seq<char>>
    decreases kids.len(),
{
    if kids.len() == 0 {
        Seq::empty()
    } else {
        let k = kids[0];
        let rest = kids.drop_first();
        if kid_ok(t, k) && t.nodes[k].named && crate::python_lang::is_python_decl(t.nodes[k].kind) {
            seq![t.nodes[k].text] + python_unit_texts(t, rest)
        } else {
            python_unit_texts(t, rest)
        }
    }
}

proof fn lemma_python_exact(t: TreeV, kids: Seq<int>, max: int)
    requires
        forall|j: int|
            0 <= j < kids.len() ==> ((kid_ok(t, #[trigger] kids[j]) && t.nodes[kids[j]].named
                && crate::python_lang::is_python_decl(t.nodes[kids[j]].kind))
                ==> t.nodes[kids[j]].text.len() <= max),
    ensures
        crate::python_lang::python_walk(t, kids, max) == python_unit_texts(t, kids),
    decreases kids.len(),
{
    if kids.len() == 0 {
    } else {
        let k = kids[0];
        let rest = kids.drop_first();
        assert forall|j: int|
            0 <= j < rest.len() implies ((kid_ok(t, #[trigger] rest[j]) && t.nodes[rest[j]].named
                && crate::python_lang::is_python_decl(t.nodes[rest[j]].kind))
                ==> t.nodes[rest[j]].text.len() <= max) by {
            assert(rest[j] == kids[j + 1]);
        }
        lemma_python_exact(t, rest, max);
        if kid_ok(t, k) && t.nodes[k].named && crate::python_lang::is_python_decl(
            t.nodes[k].kind,
        ) {
            assert(t.nodes[k].text.len() <= max);
            assert(crate::fallback::fallback_chunks(t, k, max) == seq![t.nodes[k].text]);
            assert(crate::python_lang::python_walk(t, kids, max) == seq![t.nodes[k].text]
                + crate::python_lang::python_walk(t, rest, max));
            assert(python_unit_texts(t, kids) == seq![t.nodes[k].text] + python_unit_texts(
                t,
                rest,
            ));
        } else {
            assert(crate::python_lang::python_walk(t, kids, max)
                == crate::python_lang::python_walk(t, rest, max));
            assert(python_unit_texts(t, kids) == python_unit_texts(t, rest));
        }
    }
}

/// Every structurally significant top-level declaration of the Python
/// tree has text within the budget.
pub open spec fn python_decls_within_budget(t: TreeV, max: int) -> bool {
    forall|j: int|
        0 <= j < t.nodes[t.root].children.len() ==> {
            let k = #[trigger] t.nodes[t.root].children[j];
            (kid_ok(t, k) && t.nodes[k].named && crate::python_lang::is_python_decl(
                t.nodes[k].kind,
            )) ==> t.nodes[k].text.len() <= max
        }
}

/// Coverage (Python): when every top-level definition fits the budget,
/// the chunks are exactly the definitions' texts, verbatim, in source
/// order — nothing omitted, duplicated or altered.
pub proof fn python_chunks_cover_declarations(t: TreeV, max: int)
    requires
        0 <= t.root < t.nodes.len(),
        python_decls_within_budget(t, max),
    ensures
        crate::python_lang::python_chunks(t, max) == python_unit_texts(
            t,
            t.nodes[t.root].children,
        ),
{
    lemma_python_exact(t, t.nodes[t.root].children, max);
}

} // verus!
