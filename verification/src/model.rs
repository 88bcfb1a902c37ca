//! Mathematical model of the object-tree format: the shape of a parsed
//! document and a line-by-line specification of the parser as a state
//! machine over character sequences.

use vstd::prelude::*;
use crate::params::{Attrs, empty_attrs};
use crate::strutil::{contains_sub, find_char, find_sub, spec_indent, spec_lines, spec_trim};

verus! {

/// The structural keyword a node/keyword line carries, with `Other` as the
/// fallback for unrecognized text. It doubles as the parser's current
/// bucket: the destination of subsequent parameter lines.
#[derive(Clone, Copy, Debug)]
pub enum NodeType {
    IObjeto,
    IObjetoNav,
    GateIn,
    GateOut,
    DadosComuns,
    DadosEspecificos,
    Filhos,
    Other,
}

/// Model of a pair of navigation gates.
#[verifier::ext_equal]
pub struct NavM {
    pub gate_in: Attrs,
    pub gate_out: Attrs,
}

/// Model of one object's attribute payload: common data, miscellaneous
/// specific data, and the navigation gates.
#[verifier::ext_equal]
pub struct ObjM {
    pub level: int,
    pub common: Attrs,
    pub misc: Attrs,
    pub nav: NavM,
}

/// Model of one top-level node: its header, fallback parameters, its own
/// payload, and the payloads of its nested children in document order.
#[verifier::ext_equal]
pub struct NodeM {
    pub level: int,
    pub name: Seq<char>,
    pub parameters: Attrs,
    pub object: ObjM,
    pub sons: Seq<ObjM>,
}

/// The parser's running state: nodes already emitted, the node and child
/// under construction, whether a children block is open, and the current
/// bucket.
#[verifier::ext_equal]
pub struct StM {
    pub out: Seq<NodeM>,
    pub node: NodeM,
    pub child: ObjM,
    pub inside: bool,
    pub place: NodeType,
}

/// A fresh, empty object payload.
pub open spec fn empty_obj() -> ObjM {
    ObjM {
        level: 0,
        common: empty_attrs(),
        misc: empty_attrs(),
        nav: NavM { gate_in: empty_attrs(), gate_out: empty_attrs() },
    }
}

/// A fresh, unnamed node.
pub open spec fn empty_node() -> NodeM {
    NodeM {
        level: 0,
        name: Seq::empty(),
        parameters: empty_attrs(),
        object: empty_obj(),
        sons: Seq::empty(),
    }
}

/// The state the parser starts from: nothing emitted, fallback bucket.
pub open spec fn init_state() -> StM {
    StM {
        out: Seq::empty(),
        node: empty_node(),
        child: empty_obj(),
        inside: false,
        place: NodeType::Other,
    }
}

// ---------------------------------------------------------------------------
// Line classification
// ---------------------------------------------------------------------------

/// A line is a node/keyword line when its first hyphen comes before any
/// equals sign, or when it has neither marker.
pub open spec fn spec_is_node(line: Seq<char>) -> bool {
    let h = find_char(line, '-');
    let e = find_char(line, '=');
    e < 0 || (0 <= h && h < e)
}

/// A node/keyword line is demoted to a parameter line when it carries the
/// explicit empty-object marker `Nil`.
pub open spec fn opens_context(line: Seq<char>) -> bool {
    spec_is_node(line) && !contains_sub(line, "Nil"@)
}

/// The keyword of a node/keyword line: the text before its first hyphen,
/// trimmed, matched against the fixed vocabulary.
pub open spec fn spec_node_type(s: Seq<char>) -> NodeType {
    if s == "IObjetoNav"@ {
        NodeType::IObjetoNav
    } else if s == "IObjeto"@ {
        NodeType::IObjeto
    } else if s == "GateIn"@ {
        NodeType::GateIn
    } else if s == "GateOut"@ {
        NodeType::GateOut
    } else if s == "DadosComuns"@ {
        NodeType::DadosComuns
    } else if s == "DadosEspecificos"@ {
        NodeType::DadosEspecificos
    } else if s == "Filhos"@ {
        NodeType::Filhos
    } else {
        NodeType::Other
    }
}

/// Keyword carried by `line`: trim it, cut at the first hyphen, trim again.
pub open spec fn spec_keyword(line: Seq<char>) -> NodeType {
    let t = spec_trim(line);
    let h = find_char(t, '-');
    let seg = if h < 0 {
        t
    } else {
        t.take(h)
    };
    spec_node_type(spec_trim(seg))
}

// ---------------------------------------------------------------------------
// Parameter splitting
// ---------------------------------------------------------------------------

/// The key of a parameter line split on the first occurrence of `sep`:
/// everything before it, trimmed (the whole line when `sep` is absent).
pub open spec fn split_key(s: Seq<char>, sep: Seq<char>) -> Seq<char> {
    let t = find_sub(s, sep);
    if t < 0 {
        spec_trim(s)
    } else {
        spec_trim(s.take(t))
    }
}

/// The value of a parameter line split on the first occurrence of `sep`:
/// everything after it, trimmed; `None` when `sep` is absent or the value
/// trims to nothing.
pub open spec fn split_val(s: Seq<char>, sep: Seq<char>) -> Option<Seq<char>> {
    let t = find_sub(s, sep);
    if t < 0 {
        None
    } else {
        let v = spec_trim(s.skip(t + sep.len()));
        if v.len() == 0 {
            None
        } else {
            Some(v)
        }
    }
}

/// The key of a parameter line.
pub open spec fn spec_key(line: Seq<char>) -> Seq<char> {
    split_key(line, "="@)
}

/// The value of a parameter line.
pub open spec fn spec_val(line: Seq<char>) -> Option<Seq<char>> {
    split_val(line, "="@)
}

// ---------------------------------------------------------------------------
// The state machine
// ---------------------------------------------------------------------------

/// Lazy block closing, checked before every line: a line back at or below
/// the open child's level finalizes that child; failing that, one back at or
/// below the named node's level finalizes the node and leaves the children
/// block.
pub open spec fn spec_close(st: StM, lvl: int) -> StM {
    if lvl <= st.child.level && st.child.common != empty_attrs() && st.inside {
        StM {
            node: NodeM { sons: st.node.sons.push(st.child), ..st.node },
            child: empty_obj(),
            ..st
        }
    } else if lvl <= st.node.level && st.node.name.len() > 0 {
        StM { out: st.out.push(st.node), node: empty_node(), inside: false, ..st }
    } else {
        st
    }
}

/// A node/keyword line: it always retags the bucket; `IObjeto` names a node
/// or starts a child, `Filhos` opens the children block only at exactly one
/// level below the node, unrecognized text renames the node.
pub open spec fn spec_node_line(st: StM, line: Seq<char>, lvl: int) -> StM {
    let kw = spec_keyword(line);
    let st1 = StM { place: kw, ..st };
    match kw {
        NodeType::IObjeto => if st1.inside {
            StM { child: ObjM { level: lvl, ..st1.child }, ..st1 }
        } else {
            StM { node: NodeM { name: spec_trim(line), level: lvl, ..st1.node }, ..st1 }
        },
        NodeType::Filhos => if lvl == st1.node.level + 1 {
            StM { inside: true, ..st1 }
        } else {
            st1
        },
        NodeType::Other => StM {
            node: NodeM { name: spec_trim(line), level: lvl, ..st1.node },
            ..st1
        },
        _ => st1,
    }
}

/// A parameter line: its `key = value` pair goes to the bucket the current
/// place selects, on the open child when inside a children block and on the
/// node itself otherwise; writing `StringConfiguracao` while in `GateOut`
/// closes that gate by switching the bucket to `DadosEspecificos`.
pub open spec fn spec_param_line(st: StM, line: Seq<char>) -> StM {
    let k = spec_key(line);
    let v = spec_val(line);
    match st.place {
        NodeType::DadosComuns => if st.inside {
            StM { child: ObjM { common: st.child.common.insert(k, v), ..st.child }, ..st }
        } else {
            StM {
                node: NodeM {
                    object: ObjM { common: st.node.object.common.insert(k, v), ..st.node.object },
                    ..st.node
                },
                ..st
            }
        },
        NodeType::DadosEspecificos => if st.inside {
            StM { child: ObjM { misc: st.child.misc.insert(k, v), ..st.child }, ..st }
        } else {
            StM {
                node: NodeM {
                    object: ObjM { misc: st.node.object.misc.insert(k, v), ..st.node.object },
                    ..st.node
                },
                ..st
            }
        },
        NodeType::GateIn => if st.inside {
            StM {
                child: ObjM {
                    nav: NavM { gate_in: st.child.nav.gate_in.insert(k, v), ..st.child.nav },
                    ..st.child
                },
                ..st
            }
        } else {
            StM {
                node: NodeM {
                    object: ObjM {
                        nav: NavM {
                            gate_in: st.node.object.nav.gate_in.insert(k, v),
                            ..st.node.object.nav
                        },
                        ..st.node.object
                    },
                    ..st.node
                },
                ..st
            }
        },
        NodeType::GateOut => {
            let place2 = if k == "StringConfiguracao"@ {
                NodeType::DadosEspecificos
            } else {
                NodeType::GateOut
            };
            if st.inside {
                StM {
                    child: ObjM {
                        nav: NavM { gate_out: st.child.nav.gate_out.insert(k, v), ..st.child.nav },
                        ..st.child
                    },
                    place: place2,
                    ..st
                }
            } else {
                StM {
                    node: NodeM {
                        object: ObjM {
                            nav: NavM {
                                gate_out: st.node.object.nav.gate_out.insert(k, v),
                                ..st.node.object.nav
                            },
                            ..st.node.object
                        },
                        ..st.node
                    },
                    place: place2,
                    ..st
                }
            }
        },
        NodeType::Other => StM {
            node: NodeM { parameters: st.node.parameters.insert(k, v), ..st.node },
            ..st
        },
        _ => st,
    }
}

/// One line of input: close what the indentation ends, then dispatch the
/// line as a node/keyword line or as a parameter line.
pub open spec fn spec_step(st: StM, line: Seq<char>) -> StM {
    let lvl = spec_indent(line);
    let st1 = spec_close(st, lvl);
    if opens_context(line) {
        spec_node_line(st1, line, lvl)
    } else {
        spec_param_line(st1, line)
    }
}

/// All lines, in order.
pub open spec fn spec_run(st: StM, lines: Seq<Seq<char>>) -> StM
    decreases lines.len(),
{
    if lines.len() == 0 {
        st
    } else {
        spec_run(spec_step(st, lines[0]), lines.drop_first())
    }
}

/// Running one more line is stepping the state the earlier lines reached.
pub proof fn lemma_run_snoc(st: StM, lines: Seq<Seq<char>>, line: Seq<char>)
    ensures
        spec_run(st, lines.push(line)) == spec_step(spec_run(st, lines), line),
    decreases lines.len(),
{
    if lines.len() == 0 {
        assert(spec_run(st, lines) == st);
        assert(lines.push(line)[0] == line);
        assert(lines.push(line).drop_first() =~= Seq::<Seq<char>>::empty());
        assert(spec_run(st, lines.push(line)) == spec_run(
            spec_step(st, line),
            lines.push(line).drop_first(),
        ));
        assert(spec_run(spec_step(st, line), Seq::<Seq<char>>::empty()) == spec_step(st, line));
    } else {
        assert(lines.push(line)[0] == lines[0]);
        assert(spec_run(st, lines.push(line)) == spec_run(
            spec_step(st, lines[0]),
            lines.push(line).drop_first(),
        ));
        assert(lines.push(line).drop_first() =~= lines.drop_first().push(line));
        lemma_run_snoc(spec_step(st, lines[0]), lines.drop_first(), line);
        assert(spec_run(st, lines) == spec_run(spec_step(st, lines[0]), lines.drop_first()));
    }
}

/// End of input: a child still in progress with common data joins the node's
/// children, and the current node is emitted unconditionally.
pub open spec fn spec_flush(st: StM) -> Seq<NodeM> {
    let nd = if st.child.common != empty_attrs() {
        NodeM { sons: st.node.sons.push(st.child), ..st.node }
    } else {
        st.node
    };
    st.out.push(nd)
}

/// The document a text parses to: every line of the text through the state
/// machine, then the end-of-input flush.
pub open spec fn spec_parse(text: Seq<char>) -> Seq<NodeM> {
    spec_flush(spec_run(init_state(), spec_lines(text)))
}

} // verus!
