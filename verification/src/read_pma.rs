//! The object-tree parser: executable types mirroring the document model,
//! the line-classification helpers, and the one-pass parsing driver.

use vstd::prelude::*;
use crate::model::{
    NavM, NodeM, NodeType, ObjM, empty_node, empty_obj, init_state, spec_close, spec_is_node,
    spec_key, spec_keyword, spec_node_line, spec_node_type, spec_param_line, spec_parse, spec_run,
    spec_step, spec_val, split_key, split_val, lemma_run_snoc,
};
use crate::params::{Attrs, Params, empty_attrs};
use crate::strutil::{
    contains_str, find_char, find_char_in, find_sub_in, lemma_find_char, lemma_find_sub,
    spec_indent, spec_trim, split_lines, str_eq, trim_of,
};

verus! {

// ---------------------------------------------------------------------------
// Data types
// ---------------------------------------------------------------------------

/// One navigation gate: a bucket of positional/configuration parameters.
#[derive(Debug)]
pub struct Gate {
    pub parameters: Params,
}

impl View for Gate {
    type V = Attrs;

    open spec fn view(&self) -> Attrs {
        self.parameters@
    }
}

/// The navigation payload of an object: its entry and exit gates.
#[derive(Debug)]
pub struct IObjetoNav {
    pub gate_in: Gate,
    pub gate_out: Gate,
}

impl View for IObjetoNav {
    type V = NavM;

    open spec fn view(&self) -> NavM {
        NavM { gate_in: self.gate_in@, gate_out: self.gate_out@ }
    }
}

/// One object's attribute payload: common data plus specific data, the
/// latter a pair of a miscellaneous bucket and the navigation gates.
#[derive(Debug)]
pub struct IObjeto {
    pub level: usize,
    pub common_data: Params,
    pub specific_data: (Params, IObjetoNav),
}

impl View for IObjeto {
    type V = ObjM;

    open spec fn view(&self) -> ObjM {
        ObjM {
            level: self.level as int,
            common: self.common_data@,
            misc: self.specific_data.0@,
            nav: self.specific_data.1@,
        }
    }
}

/// One top-level node: its header line, fallback parameters, its own
/// payload, and its nested children.
#[derive(Debug)]
pub struct PMANode {
    pub level: usize,
    pub name: String,
    pub parameters: Params,
    pub object_data: IObjeto,
    pub sons: Vec<IObjeto>,
}

impl View for PMANode {
    type V = NodeM;

    open spec fn view(&self) -> NodeM {
        NodeM {
            level: self.level as int,
            name: self.name@,
            parameters: self.parameters@,
            object: self.object_data@,
            sons: Seq::new(self.sons@.len(), |i: int| self.sons@[i]@),
        }
    }
}

/// A parsed document: its top-level nodes in document order.
#[derive(Debug)]
pub struct PMAFile(pub Vec<PMANode>);

impl View for PMAFile {
    type V = Seq<NodeM>;

    open spec fn view(&self) -> Seq<NodeM> {
        Seq::new(self.0@.len(), |i: int| self.0@[i]@)
    }
}

/// An ordered collection of object payloads.
#[derive(Debug)]
pub struct Rota(pub Vec<IObjeto>);

impl View for Rota {
    type V = Seq<ObjM>;

    open spec fn view(&self) -> Seq<ObjM> {
        Seq::new(self.0@.len(), |i: int| self.0@[i]@)
    }
}

/// The navigation flavour a `Tipo` value names.
#[derive(Clone, Copy, Debug, PartialEq, Eq, Structural)]
pub enum Nav {
    Rota,
    Waypoint,
    Reccelite,
    Perna,
}

/// Which navigation flavour a `Tipo` value names, or an error for any other
/// text.
pub open spec fn spec_nav(s: Seq<char>) -> Result<Nav, ()> {
    if s == "NavPerna"@ {
        Ok(Nav::Perna)
    } else if s == "NavReccelite"@ {
        Ok(Nav::Reccelite)
    } else if s == "NavWaypoint"@ {
        Ok(Nav::Waypoint)
    } else if s == "NavRota"@ {
        Ok(Nav::Rota)
    } else {
        Err(())
    }
}

impl Nav {
    /// Recognize a navigation type name.
    pub fn from_str(s: &str) -> (r: Result<Nav, ()>)
        ensures
            r == spec_nav(s@),
    {
        if str_eq(s, "NavPerna") {
            Ok(Nav::Perna)
        } else if str_eq(s, "NavReccelite") {
            Ok(Nav::Reccelite)
        } else if str_eq(s, "NavWaypoint") {
            Ok(Nav::Waypoint)
        } else if str_eq(s, "NavRota") {
            Ok(Nav::Rota)
        } else {
            Err(())
        }
    }
}

impl NodeType {
    /// Recognize a structural keyword; any unknown text is the fallback
    /// `Other`, so this never fails.
    pub fn from_str(s: &str) -> (r: Result<NodeType, ()>)
        ensures
            r == Ok::<NodeType, ()>(spec_node_type(s@)),
    {
        if str_eq(s, "IObjetoNav") {
            Ok(NodeType::IObjetoNav)
        } else if str_eq(s, "IObjeto") {
            Ok(NodeType::IObjeto)
        } else if str_eq(s, "GateIn") {
            Ok(NodeType::GateIn)
        } else if str_eq(s, "GateOut") {
            Ok(NodeType::GateOut)
        } else if str_eq(s, "DadosComuns") {
            Ok(NodeType::DadosComuns)
        } else if str_eq(s, "DadosEspecificos") {
            Ok(NodeType::DadosEspecificos)
        } else if str_eq(s, "Filhos") {
            Ok(NodeType::Filhos)
        } else {
            Ok(NodeType::Other)
        }
    }
}

// ---------------------------------------------------------------------------
// Constructors
// ---------------------------------------------------------------------------

impl Gate {
    /// An empty gate.
    pub fn new() -> (r: Self)
        ensures
            r@ == empty_attrs(),
    {
        Gate { parameters: Params::new() }
    }
}

impl IObjetoNav {
    /// Two empty gates.
    pub fn new() -> (r: Self)
        ensures
            r@ == (NavM { gate_in: empty_attrs(), gate_out: empty_attrs() }),
    {
        IObjetoNav { gate_in: Gate::new(), gate_out: Gate::new() }
    }
}

impl IObjeto {
    /// An empty object payload at level 0.
    pub fn new() -> (r: Self)
        ensures
            r@ == empty_obj(),
    {
        IObjeto {
            level: 0,
            common_data: Params::new(),
            specific_data: (Params::new(), IObjetoNav::new()),
        }
    }
}

impl PMANode {
    /// An unnamed node with nothing collected yet.
    pub fn new() -> (r: Self)
        ensures
            r@ == empty_node(),
    {
        let r = PMANode {
            level: 0,
            name: String::new(),
            parameters: Params::new(),
            object_data: IObjeto::new(),
            sons: Vec::new(),
        };
        proof {
            assert(r@.sons =~= Seq::<ObjM>::empty());
            assert(r@ =~= empty_node());
        }
        r
    }
}

impl Default for Gate {
    fn default() -> (r: Self)
        ensures
            r@ == empty_attrs(),
    {
        Gate::new()
    }
}

impl Default for IObjetoNav {
    fn default() -> (r: Self)
        ensures
            r@ == (NavM { gate_in: empty_attrs(), gate_out: empty_attrs() }),
    {
        IObjetoNav::new()
    }
}

impl Default for IObjeto {
    fn default() -> (r: Self)
        ensures
            r@ == empty_obj(),
    {
        IObjeto::new()
    }
}

impl Default for PMANode {
    fn default() -> (r: Self)
        ensures
            r@ == empty_node(),
    {
        PMANode::new()
    }
}

impl Default for PMAFile {
    fn default() -> (r: Self)
        ensures
            r@ == Seq::<NodeM>::empty(),
    {
        let r = PMAFile(Vec::new());
        proof {
            assert(r@ =~= Seq::<NodeM>::empty());
        }
        r
    }
}

impl Default for Rota {
    fn default() -> (r: Self)
        ensures
            r@ == Seq::<ObjM>::empty(),
    {
        let r = Rota(Vec::new());
        proof {
            assert(r@ =~= Seq::<ObjM>::empty());
        }
        r
    }
}

// ---------------------------------------------------------------------------
// Small methods
// ---------------------------------------------------------------------------

impl PMANode {
    /// Write a fallback parameter directly on the node.
    pub fn add_parameter(&mut self, k: String, v: Option<String>)
        ensures
            final(self)@ == (NodeM {
                parameters: old(self)@.parameters.insert(k@, v.deep_view()),
                ..old(self)@
            }),
    {
        self.parameters.insert(k, v);
        proof {
            assert(self@.sons =~= old(self)@.sons);
            assert(self@ =~= NodeM {
                parameters: old(self)@.parameters.insert(k@, v.deep_view()),
                ..old(self)@
            });
        }
    }

    /// Rename the node to the trimmed header text.
    pub fn update_name(&mut self, name: &str)
        ensures
            final(self)@ == (NodeM { name: spec_trim(name@), ..old(self)@ }),
    {
        self.name = trim_of(name).to_owned();
        proof {
            assert(self@.sons =~= old(self)@.sons);
            assert(self@ =~= NodeM { name: spec_trim(name@), ..old(self)@ });
        }
    }

    /// Record the indentation level of the node's header.
    pub fn update_level(&mut self, level: usize)
        ensures
            final(self)@ == (NodeM { level: level as int, ..old(self)@ }),
    {
        self.level = level;
        proof {
            assert(self@.sons =~= old(self)@.sons);
            assert(self@ =~= NodeM { level: level as int, ..old(self)@ });
        }
    }

    /// The node itself when `tipo` occurs among its fallback parameters,
    /// as a copy; nothing otherwise.
    pub fn get_nodes_by_type(&self, tipo: &str) -> (r: Option<PMANode>)
        ensures
            match r {
                Some(n) => self@.parameters.dom().contains(tipo@) && n@ == self@,
                None => !self@.parameters.dom().contains(tipo@),
            },
    {
        match self.parameters.get(tipo) {
            Some(_) => Some(self.clone()),
            None => None,
        }
    }
}

impl IObjeto {
    /// Record the indentation level of the child's header.
    pub fn update_level(&mut self, level: usize)
        ensures
            final(self)@ == (ObjM { level: level as int, ..old(self)@ }),
    {
        self.level = level;
        proof {
            assert(self@ =~= ObjM { level: level as int, ..old(self)@ });
        }
    }
}

impl PMAFile {
    /// Append a finished node to the document.
    pub fn push_nod(&mut self, node: PMANode)
        ensures
            final(self)@ == old(self)@.push(node@),
    {
        self.0.push(node);
        proof {
            assert(self@ =~= old(self)@.push(node@));
        }
    }
}

// ---------------------------------------------------------------------------
// Clones
// ---------------------------------------------------------------------------

impl Clone for Gate {
    /// A copy with the same parameters.
    fn clone(&self) -> (r: Self)
        ensures
            r@ == self@,
    {
        Gate { parameters: self.parameters.clone() }
    }
}

impl Clone for IObjetoNav {
    /// A copy with the same gates.
    fn clone(&self) -> (r: Self)
        ensures
            r@ == self@,
    {
        IObjetoNav { gate_in: self.gate_in.clone(), gate_out: self.gate_out.clone() }
    }
}

impl Clone for IObjeto {
    /// A copy with the same payload.
    fn clone(&self) -> (r: Self)
        ensures
            r@ == self@,
    {
        IObjeto {
            level: self.level,
            common_data: self.common_data.clone(),
            specific_data: (self.specific_data.0.clone(), self.specific_data.1.clone()),
        }
    }
}

impl Clone for PMANode {
    /// A copy with the same header, parameters, payload and children.
    fn clone(&self) -> (r: Self)
        ensures
            r@ == self@,
    {
        let mut sons: Vec<IObjeto> = Vec::new();
        let mut i: usize = 0;
        while i < self.sons.len()
            invariant
                0 <= i <= self.sons@.len(),
                sons@.len() == i,
                forall|j: int| 0 <= j < i ==> sons@[j]@ == self.sons@[j]@,
            decreases self.sons@.len() - i,
        {
            sons.push(self.sons[i].clone());
            i = i + 1;
        }
        let r = PMANode {
            level: self.level,
            name: self.name.clone(),
            parameters: self.parameters.clone(),
            object_data: self.object_data.clone(),
            sons,
        };
        proof {
            assert(r@.sons =~= self@.sons);
            assert(r@ =~= self@);
        }
        r
    }
}

impl Clone for PMAFile {
    /// A copy with the same nodes.
    fn clone(&self) -> (r: Self)
        ensures
            r@ == self@,
    {
        let mut nodes: Vec<PMANode> = Vec::new();
        let mut i: usize = 0;
        while i < self.0.len()
            invariant
                0 <= i <= self.0@.len(),
                nodes@.len() == i,
                forall|j: int| 0 <= j < i ==> nodes@[j]@ == self.0@[j]@,
            decreases self.0@.len() - i,
        {
            nodes.push(self.0[i].clone());
            i = i + 1;
        }
        let r = PMAFile(nodes);
        proof {
            assert(r@ =~= self@);
        }
        r
    }
}

// ---------------------------------------------------------------------------
// Line helpers
// ---------------------------------------------------------------------------

/// Is the line a node/keyword line? True when its first hyphen comes before
/// any equals sign, or when it has neither marker.
pub fn is_node(line: &str) -> (r: bool)
    ensures
        r == spec_is_node(line@),
{
    let eq_index = find_char_in(line, '=');
    let hyphen_index = find_char_in(line, '-');
    match (hyphen_index, eq_index) {
        (_, None) => true,
        (Some(h), Some(e)) => h < e,
        (None, Some(_)) => false,
    }
}

/// The line's indentation: its number of leading tab characters.
pub fn get_indentation_level(line: &str) -> (r: usize)
    ensures
        r as int == spec_indent(line@),
{
    let n = line.unicode_len();
    let mut i: usize = 0;
    while i < n && line.get_char(i) == '\t'
        invariant
            n == line@.len(),
            0 <= i <= n,
            forall|j: int| 0 <= j < i ==> line@[j] == '\t',
        decreases n - i,
    {
        i = i + 1;
    }
    proof {
        crate::strutil::lemma_indent_is(line@, i as int);
    }
    i
}

// ---------------------------------------------------------------------------
// The parsing driver
// ---------------------------------------------------------------------------

impl PMAFile {
    /// Parse a whole document in one forward pass over its lines and append
    /// the nodes it declares, exactly as the line-by-line state machine of
    /// the model describes.
    pub fn read(&mut self, content: &str)
        ensures
            final(self)@ == old(self)@ + spec_parse(content@),
    {
        let lines = split_lines(content);
        let ghost lv: Seq<Seq<char>> = lines.deep_view();
        let mut current_node = PMANode::new();
        let mut current_child = IObjeto::new();
        let mut inside_sons = false;
        let mut current_working_place = NodeType::Other;
        proof {
            assert(lv.take(0) =~= Seq::<Seq<char>>::empty());
            assert(spec_run(init_state(), Seq::<Seq<char>>::empty()) == init_state());
            assert(old(self)@ + Seq::<NodeM>::empty() =~= old(self)@);
        }
        let mut i: usize = 0;
        while i < lines.len()
            invariant
                lv == lines.deep_view(),
                lv.len() == lines@.len(),
                0 <= i <= lines@.len(),
                current_node@ == spec_run(init_state(), lv.take(i as int)).node,
                current_child@ == spec_run(init_state(), lv.take(i as int)).child,
                inside_sons == spec_run(init_state(), lv.take(i as int)).inside,
                current_working_place == spec_run(init_state(), lv.take(i as int)).place,
                self@ == old(self)@ + spec_run(init_state(), lv.take(i as int)).out,
            decreases lines@.len() - i,
        {
            let ghost g0 = spec_run(init_state(), lv.take(i as int));
            let line_ref = &lines[i];
            let line: &str = line_ref.as_str();
            proof {
                assert(lines.deep_view()[i as int] == lines@[i as int]@);
            }
            let ghost gl = lv[i as int];
            let ghost lvl_s = spec_indent(gl);
            let ghost g1 = spec_close(g0, lvl_s);

            let nd = is_node(line);
            let has_nil = contains_str(line, "Nil");
            let actual_level = get_indentation_level(line);

            // lazy block close, driven by the line's indentation
            if actual_level <= current_child.level && !current_child.common_data.is_empty()
                && inside_sons {
                current_node.sons.push(current_child);
                current_child = IObjeto::new();
                proof {
                    assert(current_node@.sons =~= g0.node.sons.push(g0.child));
                    assert(current_node@ =~= (NodeM {
                        sons: g0.node.sons.push(g0.child),
                        ..g0.node
                    }));
                }
            } else if actual_level <= current_node.level && !current_node.name.as_str().is_empty() {
                self.push_nod(current_node);
                current_node = PMANode::new();
                inside_sons = false;
                proof {
                    assert((old(self)@ + g0.out).push(g0.node) =~= old(self)@ + g0.out.push(
                        g0.node,
                    ));
                }
            }
            proof {
                assert(current_node@ == g1.node);
                assert(current_child@ == g1.child);
                assert(inside_sons == g1.inside);
                assert(current_working_place == g1.place);
                assert(self@ == old(self)@ + g1.out);
            }

            if nd && !has_nil {
                // a node/keyword line: take the keyword before the first hyphen
                let trimmed = trim_of(line);
                proof {
                    lemma_find_char(trimmed@, '-');
                }
                let h = find_char_in(trimmed, '-');
                let seg: &str = match h {
                    Some(j) => trimmed.substring_char(0, j),
                    None => trimmed,
                };
                proof {
                    let hh = find_char(spec_trim(gl), '-');
                    if hh >= 0 {
                        assert(seg@ =~= spec_trim(gl).take(hh));
                    }
                }
                let seg2 = trim_of(seg);
                let kw = match NodeType::from_str(seg2) {
                    Ok(k) => k,
                    Err(_) => NodeType::Other,
                };
                proof {
                    assert(kw == spec_keyword(gl));
                }
                current_working_place = kw;
                match kw {
                    NodeType::IObjeto => {
                        if inside_sons {
                            current_child.update_level(actual_level);
                        } else {
                            current_node.update_name(line);
                            current_node.update_level(actual_level);
                        }
                    },
                    NodeType::Filhos => {
                        if actual_level >= 1 && actual_level - 1 == current_node.level {
                            inside_sons = true;
                        }
                    },
                    NodeType::Other => {
                        current_node.update_name(line);
                        current_node.update_level(actual_level);
                    },
                    _ => {},
                }
                proof {
                    let g2 = spec_node_line(g1, gl, lvl_s);
                    assert(current_node@ == g2.node);
                    assert(current_child@ == g2.child);
                    assert(inside_sons == g2.inside);
                    assert(current_working_place == g2.place);
                    assert(self@ == old(self)@ + g2.out);
                }
            } else {
                // a parameter line: route its key/value to the current bucket
                let kv = split_into_tuple(line, "=");
                let k = kv.0;
                let v = kv.1;
                proof {
                    assert(k@ == spec_key(gl));
                    assert(v.deep_view() == spec_val(gl));
                }
                match current_working_place {
                    NodeType::DadosComuns => {
                        if inside_sons {
                            current_child.common_data.insert(k, v);
                        } else {
                            current_node.object_data.common_data.insert(k, v);
                        }
                    },
                    NodeType::DadosEspecificos => {
                        if inside_sons {
                            current_child.specific_data.0.insert(k, v);
                        } else {
                            current_node.object_data.specific_data.0.insert(k, v);
                        }
                    },
                    NodeType::GateIn => {
                        if inside_sons {
                            current_child.specific_data.1.gate_in.parameters.insert(k, v);
                        } else {
                            current_node.object_data.specific_data.1.gate_in.parameters.insert(
                                k,
                                v,
                            );
                        }
                    },
                    NodeType::GateOut => {
                        let is_sc = str_eq(k.as_str(), "StringConfiguracao");
                        if inside_sons {
                            current_child.specific_data.1.gate_out.parameters.insert(k, v);
                        } else {
                            current_node.object_data.specific_data.1.gate_out.parameters.insert(
                                k,
                                v,
                            );
                        }
                        if is_sc {
                            current_working_place = NodeType::DadosEspecificos;
                        }
                    },
                    NodeType::Other => {
                        current_node.add_parameter(k, v);
                    },
                    _ => {},
                }
                proof {
                    let g2 = spec_param_line(g1, gl);
                    assert(current_node@ =~= g2.node);
                    assert(current_child@ =~= g2.child);
                    assert(inside_sons == g2.inside);
                    assert(current_working_place == g2.place);
                    assert(self@ == old(self)@ + g2.out);
                }
            }
            proof {
                lemma_run_snoc(init_state(), lv.take(i as int), gl);
                assert(lv.take(i as int).push(gl) =~= lv.take(i as int + 1));
                assert(spec_run(init_state(), lv.take(i as int + 1)) == spec_step(g0, gl));
            }
            i = i + 1;
        }
        proof {
            assert(lv.take(lv.len() as int) =~= lv);
        }
        let ghost gf = spec_run(init_state(), lv);
        // end-of-input flush
        if !current_child.common_data.is_empty() {
            current_node.sons.push(current_child);
            proof {
                assert(current_node@.sons =~= gf.node.sons.push(gf.child));
                assert(current_node@ =~= (NodeM { sons: gf.node.sons.push(gf.child), ..gf.node }));
            }
        }
        proof {
            assert((old(self)@ + gf.out).push(current_node@) =~= old(self)@ + gf.out.push(
                current_node@,
            ));
        }
        self.push_nod(current_node);
    }
}

/// Split a line on the first occurrence of `separator` into a trimmed key
/// and an optional trimmed value; the value is absent when the separator is,
/// or when nothing but white space follows it.
pub fn split_into_tuple(string: &str, separator: &str) -> (r: (String, Option<String>))
    ensures
        r.0@ == split_key(string@, separator@),
        r.1.deep_view() == split_val(string@, separator@),
{
    let f = find_sub_in(string, separator);
    match f {
        Some(t) => {
            proof {
                lemma_find_sub(string@, separator@);
            }
            let n = string.unicode_len();
            let m = separator.unicode_len();
            let head = string.substring_char(0, t);
            proof {
                assert(head@ =~= string@.take(t as int));
            }
            let key = trim_of(head).to_owned();
            let tail = string.substring_char(t + m, n);
            proof {
                assert(tail@ =~= string@.skip(t + m));
            }
            let val = trim_of(tail);
            if val.unicode_len() == 0 {
                (key, None)
            } else {
                (key, Some(val.to_owned()))
            }
        },
        None => {
            let key = trim_of(string).to_owned();
            (key, None)
        },
    }
}

} // verus!
