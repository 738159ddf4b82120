//! Document-level laws of the parser, stated over its specification.

use vstd::prelude::*;
use crate::markup::{Elem, sp_document};
use crate::lyrics::{
    DocModel, ErrModel, sp_parse_lyrics, sp_line, sp_line_id, sp_div_lines_from,
    sp_body_lines_from, sp_first_child, with_ids,
};
use crate::numtext::{sp_dec_str, lemma_dec_str_injective};

verus! {

/// The line nodes of one segment, from position `i` on, in document order.
pub open spec fn sp_p_nodes_from(d: Elem, i: int) -> Seq<Elem>
    decreases d.children.len() - i,
{
    if 0 <= i < d.children.len() {
        if d.children[i].tag == "p"@ {
            seq![d.children[i]] + sp_p_nodes_from(d, i + 1)
        } else {
            sp_p_nodes_from(d, i + 1)
        }
    } else {
        Seq::empty()
    }
}

/// The line nodes of every segment of the body, from position `i` on, in
/// segment order then line order.
pub open spec fn sp_line_nodes_from(b: Elem, i: int) -> Seq<Elem>
    decreases b.children.len() - i,
{
    if 0 <= i < b.children.len() {
        if b.children[i].tag == "div"@ {
            sp_p_nodes_from(b.children[i], 0) + sp_line_nodes_from(b, i + 1)
        } else {
            sp_line_nodes_from(b, i + 1)
        }
    } else {
        Seq::empty()
    }
}

/// The line nodes of the body, in document order.
pub open spec fn sp_line_nodes(b: Elem) -> Seq<Elem> {
    sp_line_nodes_from(b, 0)
}

/// Within one segment, the extracted lines are exactly the segment's line
/// nodes, in order.
pub proof fn lemma_div_lines_match(d: Elem, i: int)
    requires
        sp_div_lines_from(d, i) is Ok,
    ensures
        sp_div_lines_from(d, i)->Ok_0.len() == sp_p_nodes_from(d, i).len(),
        forall|k: int|
            0 <= k < sp_p_nodes_from(d, i).len() ==> sp_line(#[trigger] sp_p_nodes_from(d, i)[k])
                == Ok::<(Seq<char>, int, int), ErrModel>(sp_div_lines_from(d, i)->Ok_0[k]),
    decreases d.children.len() - i,
{
    if 0 <= i < d.children.len() {
        let c = d.children[i];
        if c.tag == "p"@ {
            lemma_div_lines_match(d, i + 1);
            let l = sp_line(c)->Ok_0;
            let rest = sp_div_lines_from(d, i + 1)->Ok_0;
            let nrest = sp_p_nodes_from(d, i + 1);
            let ls = sp_div_lines_from(d, i)->Ok_0;
            let ns = sp_p_nodes_from(d, i);
            assert(ls == seq![l] + rest);
            assert(ns == seq![c] + nrest);
            assert forall|k: int| 0 <= k < ns.len() implies sp_line(#[trigger] ns[k]) == Ok::<
                (Seq<char>, int, int),
                ErrModel,
            >(ls[k]) by {
                if k == 0 {
                    assert(ns[0] == c);
                    assert(ls[0] == l);
                } else {
                    assert(ns[k] == nrest[k - 1]);
                    assert(ls[k] == rest[k - 1]);
                }
            }
        } else {
            lemma_div_lines_match(d, i + 1);
        }
    }
}

/// Across the body, the extracted lines are exactly the line nodes of all
/// segments, in order.
pub proof fn lemma_body_lines_match(b: Elem, i: int)
    requires
        sp_body_lines_from(b, i) is Ok,
    ensures
        sp_body_lines_from(b, i)->Ok_0.len() == sp_line_nodes_from(b, i).len(),
        forall|k: int|
            0 <= k < sp_line_nodes_from(b, i).len() ==> sp_line(
                #[trigger] sp_line_nodes_from(b, i)[k],
            ) == Ok::<(Seq<char>, int, int), ErrModel>(sp_body_lines_from(b, i)->Ok_0[k]),
    decreases b.children.len() - i,
{
    if 0 <= i < b.children.len() {
        let c = b.children[i];
        if c.tag == "div"@ {
            lemma_div_lines_match(c, 0);
            lemma_body_lines_match(b, i + 1);
            let dls = sp_div_lines_from(c, 0)->Ok_0;
            let dns = sp_p_nodes_from(c, 0);
            let rest = sp_body_lines_from(b, i + 1)->Ok_0;
            let nrest = sp_line_nodes_from(b, i + 1);
            let ls = sp_body_lines_from(b, i)->Ok_0;
            let ns = sp_line_nodes_from(b, i);
            assert(ls == dls + rest);
            assert(ns == dns + nrest);
            assert forall|k: int| 0 <= k < ns.len() implies sp_line(#[trigger] ns[k]) == Ok::<
                (Seq<char>, int, int),
                ErrModel,
            >(ls[k]) by {
                if k < dns.len() {
                    assert(ns[k] == dns[k]);
                    assert(ls[k] == dls[k]);
                } else {
                    assert(ns[k] == nrest[k - dns.len()]);
                    assert(ls[k] == rest[k - dns.len()]);
                }
            }
        } else {
            lemma_body_lines_match(b, i + 1);
        }
    }
}

/// Order preservation, nothing dropped, nothing duplicated: when a parse
/// succeeds, its lines stand in one-to-one correspondence with the line
/// nodes of the body's segments, in document order; line `k` carries the
/// text and the two offsets of line node `k`, and the identifier of
/// position `k`.
pub proof fn lemma_order_preservation(s: Seq<char>, d: DocModel)
    requires
        sp_parse_lyrics(s) == Ok::<DocModel, ErrModel>(d),
    ensures
        sp_document(s) is Some,
        sp_first_child(sp_document(s)->Some_0, "body"@) is Some,
        d.lines.len() == sp_line_nodes(sp_first_child(sp_document(s)->Some_0, "body"@)->Some_0).len(),
        forall|k: int|
            0 <= k < d.lines.len() ==> {
                let node = sp_line_nodes(sp_first_child(sp_document(s)->Some_0, "body"@)->Some_0)[k];
                &&& sp_line(node) is Ok
                &&& (#[trigger] d.lines[k]).text == sp_line(node)->Ok_0.0
                &&& d.lines[k].start == sp_line(node)->Ok_0.1
                &&& d.lines[k].end == sp_line(node)->Ok_0.2
                &&& d.lines[k].id == sp_line_id(k)
            },
{
    let root = sp_document(s)->Some_0;
    let body = sp_first_child(root, "body"@)->Some_0;
    let ls = sp_body_lines_from(body, 0)->Ok_0;
    lemma_body_lines_match(body, 0);
    assert(d.lines == with_ids(ls));
    assert forall|k: int| 0 <= k < d.lines.len() implies {
        let node = sp_line_nodes(body)[k];
        &&& sp_line(node) is Ok
        &&& (#[trigger] d.lines[k]).text == sp_line(node)->Ok_0.0
        &&& d.lines[k].start == sp_line(node)->Ok_0.1
        &&& d.lines[k].end == sp_line(node)->Ok_0.2
        &&& d.lines[k].id == sp_line_id(k)
    } by {
        assert(d.lines[k] == with_ids(ls)[k]);
        assert(sp_line(sp_line_nodes(body)[k]) == Ok::<(Seq<char>, int, int), ErrModel>(ls[k]));
    }
}

/// Identifier uniqueness: a successful parse gives its lines pairwise
/// distinct identifiers.
pub proof fn lemma_identifiers_unique(s: Seq<char>, d: DocModel)
    requires
        sp_parse_lyrics(s) == Ok::<DocModel, ErrModel>(d),
    ensures
        forall|i: int, j: int|
            0 <= i < j < d.lines.len() ==> (#[trigger] d.lines[i]).id != (#[trigger] d.lines[j]).id,
{
    assert forall|i: int, j: int|
        0 <= i < j < d.lines.len() implies (#[trigger] d.lines[i]).id != (
    #[trigger] d.lines[j]).id by {
        assert(d.lines[i].id == sp_line_id(i));
        assert(d.lines[j].id == sp_line_id(j));
        if sp_line_id(i) == sp_line_id(j) {
            lemma_concat_cancel("line-"@, sp_dec_str(i), sp_dec_str(j));
            lemma_dec_str_injective(i, j);
        }
    }
}

/// A shared prefix cancels on the left of sequence concatenation.
pub proof fn lemma_concat_cancel(p: Seq<char>, a: Seq<char>, b: Seq<char>)
    requires
        p + a == p + b,
    ensures
        a == b,
{
    assert(a =~= (p + a).subrange(p.len() as int, (p + a).len() as int));
    assert(b =~= (p + b).subrange(p.len() as int, (p + b).len() as int));
}

/// Round-trip stability: the parse result is a function of the input text
/// alone, so two parses of the same text agree on the lines (identifiers
/// included, which are positional), the leading silence and the
/// songwriters.
pub proof fn lemma_round_trip_stable(s: Seq<char>, d1: DocModel, d2: DocModel)
    requires
        sp_parse_lyrics(s) == Ok::<DocModel, ErrModel>(d1),
        sp_parse_lyrics(s) == Ok::<DocModel, ErrModel>(d2),
    ensures
        d1.lines == d2.lines,
        d1.leading_silence == d2.leading_silence,
        d1.songwriters == d2.songwriters,
{
}

} // verus!
