//! General properties of the parser's state machine, stated and proved over
//! the model: depth-driven termination of a node's extent, isolation of the
//! attribute buckets, the automatic close of the exit gate, last-write-wins
//! for repeated keys, and append-only collection of children.

use vstd::prelude::*;
use crate::model::{
    NodeType, ObjM, StM, spec_close, spec_key, spec_param_line, spec_run, spec_step, spec_val,
    opens_context,
};
use crate::params::{Attrs, empty_attrs};
use crate::strutil::spec_indent;

verus! {

/// Emitted nodes are final: one step only ever appends to the output, so a
/// node, once closed, is never altered by later lines.
pub proof fn lemma_out_append_only(st: StM, line: Seq<char>)
    ensures
        st.out.is_prefix_of(spec_step(st, line).out),
{
    let lvl = spec_indent(line);
    let st1 = spec_close(st, lvl);
    assert(st.out.is_prefix_of(st1.out));
    assert(st1.out == spec_step(st, line).out);
}

/// Emitted nodes are final over any run: however many lines follow, the
/// nodes already emitted stay in place, unchanged and in order.
pub proof fn lemma_run_out_append_only(st: StM, lines: Seq<Seq<char>>)
    ensures
        st.out.is_prefix_of(spec_run(st, lines).out),
    decreases lines.len(),
{
    if lines.len() == 0 {
    } else {
        lemma_out_append_only(st, lines[0]);
        lemma_run_out_append_only(spec_step(st, lines[0]), lines.drop_first());
    }
}

/// Depth termination: any line back at or below a named node's level — a
/// sibling header at the same indentation in particular — closes the node
/// and emits it exactly as collected from the lines since its header; with
/// `lemma_run_out_append_only`, nothing later ever changes it.
pub proof fn lemma_sibling_header_closes(st: StM, line: Seq<char>)
    requires
        spec_indent(line) <= st.node.level,
        st.node.name.len() > 0,
        !(spec_indent(line) <= st.child.level && st.child.common != empty_attrs() && st.inside),
    ensures
        spec_step(st, line).out == st.out.push(st.node),
{
}

/// Bucket isolation, one direction: a parameter line written while the
/// common-data bucket is active never changes specific data — neither the
/// miscellaneous bucket nor the gates, on the node and on the open child
/// alike.
pub proof fn lemma_common_leaves_specific(st: StM, line: Seq<char>)
    requires
        st.place == NodeType::DadosComuns,
    ensures
        spec_param_line(st, line).node.object.misc == st.node.object.misc,
        spec_param_line(st, line).node.object.nav == st.node.object.nav,
        spec_param_line(st, line).child.misc == st.child.misc,
        spec_param_line(st, line).child.nav == st.child.nav,
{
}

/// Bucket isolation, the other direction: a parameter line written while the
/// specific-data bucket is active never changes common data, on the node and
/// on the open child alike.
pub proof fn lemma_specific_leaves_common(st: StM, line: Seq<char>)
    requires
        st.place == NodeType::DadosEspecificos,
    ensures
        spec_param_line(st, line).node.object.common == st.node.object.common,
        spec_param_line(st, line).child.common == st.child.common,
{
}

/// Gate auto-close: writing `StringConfiguracao` while the `GateOut` bucket
/// is active switches the bucket to `DadosEspecificos`; a following
/// parameter line at a deeper indentation is then routed to the
/// miscellaneous specific data of the open object and leaves both gates
/// unchanged.
pub proof fn lemma_gate_auto_close(st: StM, line: Seq<char>, next: Seq<char>)
    requires
        st.place == NodeType::GateOut,
        spec_key(line) == "StringConfiguracao"@,
        !opens_context(next),
        spec_indent(next) > st.child.level,
        spec_indent(next) > st.node.level,
    ensures
        spec_param_line(st, line).place == NodeType::DadosEspecificos,
        ({
            let st2 = spec_param_line(st, line);
            let st3 = spec_step(st2, next);
            &&& st3.node.object.nav == st2.node.object.nav
            &&& st3.child.nav == st2.child.nav
            &&& (st2.inside ==> st3.child.misc == st2.child.misc.insert(
                spec_key(next),
                spec_val(next),
            ))
            &&& (!st2.inside ==> st3.node.object.misc == st2.node.object.misc.insert(
                spec_key(next),
                spec_val(next),
            ))
        }),
{
}

/// The map a parameter line writes into, given the current place and whether
/// a children block is open.
pub open spec fn bucket_of(st: StM) -> Attrs {
    match st.place {
        NodeType::DadosComuns => if st.inside {
            st.child.common
        } else {
            st.node.object.common
        },
        NodeType::DadosEspecificos => if st.inside {
            st.child.misc
        } else {
            st.node.object.misc
        },
        NodeType::GateIn => if st.inside {
            st.child.nav.gate_in
        } else {
            st.node.object.nav.gate_in
        },
        NodeType::GateOut => if st.inside {
            st.child.nav.gate_out
        } else {
            st.node.object.nav.gate_out
        },
        NodeType::Other => st.node.parameters,
        _ => empty_attrs(),
    }
}

/// Last write wins: two parameter lines carrying the same key into the same
/// active bucket leave the second line's value in the bucket.
pub proof fn lemma_last_write_wins(st: StM, l1: Seq<char>, l2: Seq<char>)
    requires
        st.place == NodeType::DadosComuns || st.place == NodeType::DadosEspecificos || st.place
            == NodeType::GateIn || st.place == NodeType::GateOut || st.place == NodeType::Other,
        st.place == NodeType::GateOut ==> spec_key(l1) != "StringConfiguracao"@,
        spec_key(l1) == spec_key(l2),
    ensures
        ({
            let stb = spec_param_line(spec_param_line(st, l1), l2);
            &&& bucket_of(stb).dom().contains(spec_key(l1))
            &&& bucket_of(stb)[spec_key(l1)] == spec_val(l2)
        }),
{
}

/// Children ordering: one step either leaves a node's children alone,
/// appends the child the line just closed, or belongs to a fresh node with
/// no children yet; children are never reordered, rewritten or dropped, so
/// they stand in `children` in the order their headers appeared.
pub proof fn lemma_children_append_only(st: StM, line: Seq<char>)
    ensures
        spec_step(st, line).node.sons == st.node.sons || spec_step(st, line).node.sons
            == st.node.sons.push(st.child) || spec_step(st, line).node.sons
            == Seq::<ObjM>::empty(),
{
}

} // verus!
