//! Reading an environment from its serialized form: a section of nodes,
//! whose names stand for new nodes of the current environment, followed by
//! a section of triples over those names.

use vstd::prelude::*;

use crate::agent::env_state::{designation_local, names_of, symbol_structure, EnvState, AMLANG_DESIGNATION};
use crate::env::entry::{EntryMut, EntryMutKind};
use crate::builtin::{builtin_fn_named, generate_builtin_map, lookup_builtin, spec_builtin, BuiltIn, BuiltInFn};
use crate::env::environment::{node_key, EnvModel, Environment};
use crate::env::local_node::LocalNode;
use crate::env::mem_backend::index_id_conv::{is_triple_id, spec_is_triple_id, triple_bit};
use crate::primitive::{Node, Primitive, Symbol, SymbolTable};
use crate::reader::ParseError;
use crate::sexp::{clone_sexp, empty_list, list_elements, list_elems, Cons, Sexp};
use crate::text::str_eq;

verus! {

broadcast use vstd::string::group_string_axioms;

/// Why a serialized environment could not be read.
#[derive(Debug, PartialEq)]
pub enum DeserializeError {
    FileStreamError(String),
    ParseError(ParseError),
    MissingNodeSection,
    MissingTripleSection,
    ExtraneousSection,
    InvalidSexp(Sexp),
    UnexpectedCommand(Sexp),
    MissingCommand,
    ExpectedSymbol,
    ExtraneousNodeInfo,
    UnrecognizedBuiltIn(Symbol),
}

/// What evaluating a node's command gives: its structure, an error, or
/// nothing, where reading stops without an answer.
pub enum EvalStep {
    Value(Sexp),
    Failed(DeserializeError),
    Stuck,
}

/// The only element of an argument list, if it has exactly one.
pub open spec fn quoted(args: Option<Box<Sexp>>) -> Option<Sexp> {
    match args {
        Some(d) => if list_elems(*d).len() == 1 {
            Some(list_elems(*d)[0])
        } else {
            None
        },
        None => None,
    }
}

/// What a node's command evaluates to.
pub open spec fn eval_step(command: Sexp) -> EvalStep {
    match command {
        Sexp::Primitive(_) => EvalStep::Failed(DeserializeError::InvalidSexp(command)),
        Sexp::Cons(c) => match c.car {
            Some(head) => match *head {
                Sexp::Primitive(Primitive::Symbol(sym)) => if sym@ == "quote"@ {
                    match quoted(c.cdr) {
                        Some(x) => EvalStep::Value(x),
                        None => EvalStep::Stuck,
                    }
                } else if sym@ == "__builtin"@ {
                    match quoted(c.cdr) {
                        Some(Sexp::Primitive(Primitive::Symbol(b))) => match builtin_fn_named(b@) {
                            Some(f) => EvalStep::Value(
                                Sexp::Primitive(Primitive::BuiltIn(spec_builtin(f))),
                            ),
                            None => EvalStep::Failed(DeserializeError::UnrecognizedBuiltIn(b)),
                        },
                        Some(_) => EvalStep::Failed(DeserializeError::ExpectedSymbol),
                        None => EvalStep::Stuck,
                    }
                } else if sym@ == "apply"@ || sym@ == "lambda"@ {
                    EvalStep::Value(empty_list())
                } else {
                    EvalStep::Stuck
                },
                _ => EvalStep::Failed(DeserializeError::ExpectedSymbol),
            },
            None => EvalStep::Failed(DeserializeError::ExpectedSymbol),
        },
    }
}

/// The state of reading the node section: the structures of the nodes added
/// so far and the table of their names; or the error, with the nodes added
/// before it; or stuck.
pub enum NodesState {
    Next { added: Seq<Option<Sexp>>, table: Map<Seq<char>, LocalNode> },
    Failed { error: DeserializeError, added: Seq<Option<Sexp>> },
    Stuck,
}

/// The effect of one entry of the node section, where `base` is the number
/// of nodes the environment had before the section.
pub open spec fn node_step(
    e: Sexp,
    base: nat,
    added: Seq<Option<Sexp>>,
    table: Map<Seq<char>, LocalNode>,
) -> NodesState {
    let next = LocalNode((base + added.len()) as u64);
    match e {
        Sexp::Primitive(Primitive::Symbol(sym)) => if sym@ == AMLANG_DESIGNATION@ {
            NodesState::Next { added, table: table.insert(sym@, LocalNode(1)) }
        } else {
            NodesState::Next { added: added.push(None), table: table.insert(sym@, next) }
        },
        Sexp::Primitive(_) => NodesState::Failed { error: DeserializeError::ExpectedSymbol, added },
        Sexp::Cons(_) => {
            let el = list_elems(e);
            if el.len() == 0 {
                NodesState::Failed { error: DeserializeError::ExpectedSymbol, added }
            } else {
                match el[0] {
                    Sexp::Primitive(Primitive::Symbol(sym)) => if el.len() == 1 {
                        NodesState::Failed { error: DeserializeError::MissingCommand, added }
                    } else if el.len() > 2 {
                        NodesState::Failed { error: DeserializeError::ExtraneousNodeInfo, added }
                    } else {
                        match eval_step(el[1]) {
                            EvalStep::Value(x) => NodesState::Next {
                                added: added.push(Some(x)),
                                table: table.insert(sym@, next),
                            },
                            EvalStep::Failed(error) => NodesState::Failed { error, added },
                            EvalStep::Stuck => NodesState::Stuck,
                        }
                    },
                    _ => NodesState::Failed { error: DeserializeError::ExpectedSymbol, added },
                }
            }
        },
    }
}

/// The effect of the entries of the node section, in order.
pub open spec fn nodes_fold(entries: Seq<Sexp>, base: nat) -> NodesState
    decreases entries.len(),
{
    if entries.len() == 0 {
        NodesState::Next { added: Seq::empty(), table: Map::empty() }
    } else {
        match nodes_fold(entries.drop_last(), base) {
            NodesState::Next { added, table } => node_step(entries.last(), base, added, table),
            other => other,
        }
    }
}

/// The entries of a section after its command and the elements it skips.
pub open spec fn section_entries(el: Seq<Sexp>, skipped: int) -> Seq<Sexp> {
    if el.len() <= skipped {
        Seq::empty()
    } else {
        el.skip(skipped)
    }
}

/// Whether a structure is the symbol `name`.
pub open spec fn is_command(s: Sexp, name: Seq<char>) -> bool {
    s matches Sexp::Primitive(Primitive::Symbol(sym)) && sym@ == name
}

/// The effect of a node section: `(nodes <skipped> entries...)`.
pub open spec fn nodes_section(structure: Sexp, base: nat) -> NodesState {
    match structure {
        Sexp::Primitive(_) => NodesState::Failed {
            error: DeserializeError::InvalidSexp(structure),
            added: Seq::empty(),
        },
        Sexp::Cons(_) => {
            let el = list_elems(structure);
            if el.len() == 0 {
                NodesState::Failed { error: DeserializeError::MissingCommand, added: Seq::empty() }
            } else if !is_command(el[0], "nodes"@) {
                NodesState::Failed {
                    error: DeserializeError::UnexpectedCommand(el[0]),
                    added: Seq::empty(),
                }
            } else {
                nodes_fold(section_entries(el, 2), base)
            }
        },
    }
}

/// The model after appending nodes with the given structures.
pub open spec fn with_nodes(m: EnvModel, added: Seq<Option<Sexp>>) -> EnvModel {
    EnvModel { nodes: m.nodes + added, ..m }
}

/// What reading the triple section has made of an environment so far: its
/// triples, and the names that its designation node holds (None where it
/// holds no table of names).
pub struct TriplesView {
    pub triples: Seq<(LocalNode, LocalNode, LocalNode)>,
    pub names: Option<Map<Seq<char>, Node>>,
}

/// The view of a model.
pub open spec fn view_of(m: EnvModel) -> TriplesView {
    TriplesView { triples: m.triples, names: names_of(m) }
}

/// Whether model `m` shows view `v` and is model `m0` with its triples and
/// the table of its designation node changed alone.
pub open spec fn shows(m0: EnvModel, m: EnvModel, v: TriplesView) -> bool {
    &&& m.triples == v.triples
    &&& names_of(m) == v.names
    &&& m.designations == m0.designations
    &&& m.nodes.len() == m0.nodes.len()
    &&& forall|i: int|
        0 <= i < m0.nodes.len() && i != designation_local().0 ==> #[trigger] m.nodes[i]
            == m0.nodes[i]
}

/// The state of reading the triple section: the view so far; or the error,
/// with the view as the error left it; or stuck.
pub enum TriplesState {
    Next(TriplesView),
    Failed(DeserializeError, TriplesView),
    Stuck,
}

/// The node that the element `i` of a triple entry names, if it names one:
/// None for an error, Some(None) where reading gets stuck.
pub open spec fn entry_node(el: Seq<Sexp>, i: int, table: Map<Seq<char>, LocalNode>) -> Option<
    Option<LocalNode>,
> {
    if el.len() > i {
        match el[i] {
            Sexp::Primitive(Primitive::Symbol(sym)) => if table.contains_key(sym@) {
                Some(Some(table[sym@]))
            } else {
                Some(None)
            },
            _ => None,
        }
    } else {
        None
    }
}

/// The effect of one entry of the triple section on view `v` of environment
/// `env`, whose nodes are those of model `m0`.
pub open spec fn triple_step(
    e: Sexp,
    env: LocalNode,
    table: Map<Seq<char>, LocalNode>,
    m0: EnvModel,
    v: TriplesView,
) -> TriplesState {
    match e {
        Sexp::Primitive(_) => TriplesState::Failed(DeserializeError::InvalidSexp(e), v),
        Sexp::Cons(_) => {
            let el = list_elems(e);
            match entry_node(el, 0, table) {
                None => TriplesState::Failed(DeserializeError::ExpectedSymbol, v),
                Some(None) => TriplesState::Stuck,
                Some(Some(s)) => match entry_node(el, 1, table) {
                    None => TriplesState::Failed(DeserializeError::ExpectedSymbol, v),
                    Some(None) => TriplesState::Stuck,
                    Some(Some(p)) => match entry_node(el, 2, table) {
                        None => TriplesState::Failed(DeserializeError::ExpectedSymbol, v),
                        Some(None) => TriplesState::Stuck,
                        Some(Some(o)) => {
                            let v1 = TriplesView { triples: v.triples.push((s, p, o)), names: v.names };
                            if p == LocalNode(1) && o != LocalNode(1) {
                                match symbol_structure(m0, o) {
                                    Some(name) => match v1.names {
                                        Some(t) => TriplesState::Next(
                                            TriplesView {
                                                triples: v1.triples,
                                                names: Some(t.insert(name@, Node { env, local: s })),
                                            },
                                        ),
                                        None => TriplesState::Stuck,
                                    },
                                    None => TriplesState::Failed(DeserializeError::ExpectedSymbol, v1),
                                }
                            } else {
                                TriplesState::Next(v1)
                            }
                        },
                    },
                },
            }
        },
    }
}

/// The effect of the entries of the triple section, in order.
pub open spec fn triples_fold(
    entries: Seq<Sexp>,
    env: LocalNode,
    table: Map<Seq<char>, LocalNode>,
    m0: EnvModel,
    v: TriplesView,
) -> TriplesState
    decreases entries.len(),
{
    if entries.len() == 0 {
        TriplesState::Next(v)
    } else {
        match triples_fold(entries.drop_last(), env, table, m0, v) {
            TriplesState::Next(v1) => triple_step(entries.last(), env, table, m0, v1),
            other => other,
        }
    }
}

/// The effect of a triple section `(triples entries...)` on model `m`.
pub open spec fn triples_section(
    structure: Sexp,
    env: LocalNode,
    table: Map<Seq<char>, LocalNode>,
    m: EnvModel,
) -> TriplesState {
    match structure {
        Sexp::Primitive(_) => TriplesState::Failed(
            DeserializeError::InvalidSexp(structure),
            view_of(m),
        ),
        Sexp::Cons(_) => {
            let el = list_elems(structure);
            if el.len() == 0 {
                TriplesState::Failed(DeserializeError::MissingCommand, view_of(m))
            } else if !is_command(el[0], "triples"@) {
                TriplesState::Failed(DeserializeError::UnexpectedCommand(el[0]), view_of(m))
            } else {
                triples_fold(section_entries(el, 1), env, table, m, view_of(m))
            }
        },
    }
}

/// The only element of an argument list, if it has exactly one.
fn quoted_arg(args: &Option<Box<Sexp>>) -> (res: Option<Sexp>)
    ensures
        res == quoted(*args),
{
    match args {
        Some(d) => {
            let el = list_elements(d);
            if el.len() == 1 {
                Some(clone_sexp(&el[0]))
            } else {
                None
            }
        },
        None => None,
    }
}

/// How a step of reading goes on: to the next step, to an error, or
/// nowhere.
#[derive(Clone, Copy, Debug, PartialEq, Eq, Structural)]
pub enum StepKind {
    Next,
    Failed,
    Stuck,
}

pub open spec fn eval_kind(s: EvalStep) -> StepKind {
    match s {
        EvalStep::Value(_) => StepKind::Next,
        EvalStep::Failed(_) => StepKind::Failed,
        EvalStep::Stuck => StepKind::Stuck,
    }
}

pub open spec fn nodes_kind(s: NodesState) -> StepKind {
    match s {
        NodesState::Next { .. } => StepKind::Next,
        NodesState::Failed { .. } => StepKind::Failed,
        NodesState::Stuck => StepKind::Stuck,
    }
}

/// How evaluating the command goes on.
fn eval_kind_of(command: &Sexp) -> (res: StepKind)
    ensures
        res == eval_kind(eval_step(*command)),
{
    proof {
        reveal_strlit("quote");
        reveal_strlit("__builtin");
        reveal_strlit("apply");
        reveal_strlit("lambda");
    }
    match command {
        Sexp::Primitive(_) => StepKind::Failed,
        Sexp::Cons(c) => match &c.car {
            Some(head) => match &**head {
                Sexp::Primitive(Primitive::Symbol(sym)) => {
                    if str_eq(sym.as_str(), "quote") {
                        if quoted_arg(&c.cdr).is_none() {
                            StepKind::Stuck
                        } else {
                            StepKind::Next
                        }
                    } else if str_eq(sym.as_str(), "__builtin") {
                        match quoted_arg(&c.cdr) {
                            Some(Sexp::Primitive(Primitive::Symbol(b))) => {
                                let map = generate_builtin_map();
                                if lookup_builtin(&map, b.as_str()).is_some() {
                                    StepKind::Next
                                } else {
                                    StepKind::Failed
                                }
                            },
                            Some(_) => StepKind::Failed,
                            None => StepKind::Stuck,
                        }
                    } else if str_eq(sym.as_str(), "apply") || str_eq(sym.as_str(), "lambda") {
                        StepKind::Next
                    } else {
                        StepKind::Stuck
                    }
                },
                _ => StepKind::Failed,
            },
            None => StepKind::Failed,
        },
    }
}

/// How a node entry goes on, whatever was read before it.
fn node_entry_kind(e: &Sexp) -> (res: StepKind)
    ensures
        forall|base: nat, added: Seq<Option<Sexp>>, table: Map<Seq<char>, LocalNode>|
            #![trigger node_step(*e, base, added, table)]
            nodes_kind(node_step(*e, base, added, table)) == res,
{
    match e {
        Sexp::Primitive(Primitive::Symbol(_)) => StepKind::Next,
        Sexp::Primitive(_) => StepKind::Failed,
        Sexp::Cons(_) => {
            let el = list_elements(e);
            if el.len() == 0 {
                return StepKind::Failed;
            }
            match &el[0] {
                Sexp::Primitive(Primitive::Symbol(_)) => {
                    if el.len() == 1 || el.len() > 2 {
                        StepKind::Failed
                    } else {
                        eval_kind_of(&el[1])
                    }
                },
                _ => StepKind::Failed,
            }
        },
    }
}

pub struct EnvSerializer<E: Environment> {
    env_state: EnvState<E>,
}

impl<E: Environment> EnvSerializer<E> {
    pub closed spec fn spec_state(&self) -> EnvState<E> {
        self.env_state
    }

    pub fn new(env_state: EnvState<E>) -> (res: Self)
        ensures
            res.spec_state() == env_state,
    {
        Self { env_state }
    }

    pub fn from_env(env_state: EnvState<E>) -> (res: Self)
        ensures
            res.spec_state() == env_state,
    {
        Self { env_state }
    }

    /// The state that is read into.
    pub fn state(&self) -> (res: &EnvState<E>)
        ensures
            *res == self.spec_state(),
    {
        &self.env_state
    }

    pub fn extract_env(self) -> (res: EnvState<E>)
        ensures
            res == self.spec_state(),
    {
        self.env_state
    }

    /// Whether reading the node section gets stuck (the reading this
    /// follows gives up there).
    pub fn nodes_section_stuck(&self, structure: &Sexp) -> (res: bool)
        ensures
            res == (nodes_section(*structure, self.spec_state().current().model().nodes.len()) is Stuck),
    {
        let ghost base = self.spec_state().current().model().nodes.len();
        proof {
            reveal_strlit("nodes");
        }
        match structure {
            Sexp::Primitive(_) => false,
            Sexp::Cons(_) => {
                let el = list_elements(structure);
                if el.len() == 0 {
                    return false;
                }
                let is_nodes = match &el[0] {
                    Sexp::Primitive(Primitive::Symbol(sym)) => str_eq(sym.as_str(), "nodes"),
                    _ => false,
                };
                if !is_nodes {
                    return false;
                }
                let n = el.len();
                if n <= 2 {
                    return false;
                }
                let ghost entries = el@.skip(2);
                assert(nodes_section(*structure, base) == nodes_fold(entries, base));
                let mut i: usize = 2;
                assert(entries.take(0) =~= Seq::<Sexp>::empty());
                while i < n
                    invariant
                        2 < n == el@.len(),
                        2 <= i <= n,
                        entries == el@.skip(2),
                        nodes_section(*structure, base) == nodes_fold(entries, base),
                        base == self.spec_state().current().model().nodes.len(),
                        nodes_fold(entries.take(i - 2), base) is Next,
                    decreases n - i,
                {
                    let ghost prefix = entries.take(i - 2);
                    assert(entries.take(i - 1).drop_last() =~= prefix);
                    assert(entries.take(i - 1).last() == el@[i as int]);
                    let kind = node_entry_kind(&el[i]);
                    proof {
                        let st = nodes_fold(prefix, base);
                        if let NodesState::Next { added, table } = st {
                            assert(nodes_kind(node_step(el@[i as int], base, added, table)) == kind);
                        }
                    }
                    if kind == StepKind::Stuck {
                        proof {
                            // The rest of the section is never read.
                            lemma_nodes_fold_stops(entries, (i - 1) as int, base);
                        }
                        return true;
                    }
                    if kind == StepKind::Failed {
                        proof {
                            lemma_nodes_fold_stops(entries, (i - 1) as int, base);
                        }
                        return false;
                    }
                    i = i + 1;
                }
                assert(entries.take(n - 2) =~= entries);
                false
            },
        }
    }

    /// The structure that a node's command stands for.
    fn eval_structure(&mut self, structure: Sexp, builtins: &Vec<(&'static str, BuiltIn)>) -> (res: Result<
        Sexp,
        DeserializeError,
    >)
        requires
            forall|i: int|
                0 <= i < builtins@.len() ==> builtin_fn_named((#[trigger] builtins@[i]).0@) == Some(
                    builtins@[i].1.spec_fun(),
                ) && builtins@[i].1 == spec_builtin(builtins@[i].1.spec_fun()),
            forall|n: Seq<char>| #[trigger]
                builtin_fn_named(n) is Some ==> exists|i: int|
                    0 <= i < builtins@.len() && (#[trigger] builtins@[i]).0@ == n,
            !(eval_step(structure) is Stuck),
        ensures
            *final(self) == *old(self),
            eval_step(structure) matches EvalStep::Value(x) ==> res == Ok::<Sexp, DeserializeError>(x),
            eval_step(structure) matches EvalStep::Failed(e) ==> res == Err::<Sexp, DeserializeError>(e),
    {
        proof {
            reveal_strlit("quote");
            reveal_strlit("__builtin");
            reveal_strlit("apply");
            reveal_strlit("lambda");
        }
        let ghost original = structure;
        match structure {
            Sexp::Primitive(p) => Err(DeserializeError::InvalidSexp(Sexp::Primitive(p))),
            Sexp::Cons(cons) => {
                let (car, cdr) = cons.consume();
                let command = match car {
                    Some(b) => match *b {
                        Sexp::Primitive(Primitive::Symbol(sym)) => sym,
                        _ => {
                            return Err(DeserializeError::ExpectedSymbol);
                        },
                    },
                    None => {
                        return Err(DeserializeError::ExpectedSymbol);
                    },
                };
                if str_eq(command.as_str(), "quote") {
                    match quoted_arg(&cdr) {
                        Some(x) => Ok(x),
                        None => vstd::pervasive::unreached(),
                    }
                } else if str_eq(command.as_str(), "__builtin") {
                    match quoted_arg(&cdr) {
                        Some(Sexp::Primitive(Primitive::Symbol(sym))) => match lookup_builtin(
                            builtins,
                            sym.as_str(),
                        ) {
                            Some(b) => Ok(Sexp::Primitive(Primitive::BuiltIn(b))),
                            None => Err(DeserializeError::UnrecognizedBuiltIn(sym)),
                        },
                        Some(_) => Err(DeserializeError::ExpectedSymbol),
                        None => vstd::pervasive::unreached(),
                    }
                } else if str_eq(command.as_str(), "apply") || str_eq(command.as_str(), "lambda") {
                    Ok(Sexp::default())
                } else {
                    vstd::pervasive::unreached()
                }
            },
        }
    }

    /// Reads the node section into the current environment: each entry
    /// names a new node (an atom, or the structure its command stands for),
    /// except the designation, which names the designation node. Returns
    /// the table of the names.
    pub fn deserialize_nodes(&mut self, structure: Sexp) -> (res: Result<SymbolTable, DeserializeError>)
        requires
            old(self).spec_state().wf(),
            old(self).spec_state().has_current(),
            !(nodes_section(structure, old(self).spec_state().current().model().nodes.len()) is Stuck),
            old(self).spec_state().current().model().nodes.len() + list_elems(structure).len()
                < triple_bit(),
        ensures
            final(self).spec_state().wf(),
            final(self).spec_state().same_place(&old(self).spec_state()),
            final(self).spec_state().envs().dom() == old(self).spec_state().envs().dom(),
            forall|id: u64|
                id != old(self).spec_state().spec_env().0 && #[trigger] old(
                    self,
                ).spec_state().envs().contains_key(id) ==> final(self).spec_state().envs()[id]
                    == old(self).spec_state().envs()[id],
            match nodes_section(structure, old(self).spec_state().current().model().nodes.len()) {
                NodesState::Next { added, table } => res matches Ok(t) && t@ == table
                    && (old(self).spec_state().current().model().nodes.len() >= 2 ==> table_valid(
                    table,
                    final(self).spec_state().current().model(),
                ))
                    && final(self).spec_state().current().model() == with_nodes(
                    old(self).spec_state().current().model(),
                    added,
                ),
                NodesState::Failed { error, added } => res == Err::<SymbolTable, DeserializeError>(
                    error,
                ) && final(self).spec_state().current().model() == with_nodes(
                    old(self).spec_state().current().model(),
                    added,
                ),
                NodesState::Stuck => false,
            },
    {
        proof {
            reveal_strlit("nodes");
        }
        let ghost s0 = self.env_state;
        let ghost m0 = s0.current().model();
        let ghost base = m0.nodes.len();
        assert(with_nodes(m0, Seq::empty()) =~= m0);
        let ghost whole = structure;
        let el = list_elements(&structure);
        match structure {
            Sexp::Primitive(p) => {
                return Err(DeserializeError::InvalidSexp(Sexp::Primitive(p)));
            },
            Sexp::Cons(_) => {},
        }
        if el.len() == 0 {
            return Err(DeserializeError::MissingCommand);
        }
        let is_nodes = match &el[0] {
            Sexp::Primitive(Primitive::Symbol(sym)) => str_eq(sym.as_str(), "nodes"),
            _ => false,
        };
        if !is_nodes {
            return Err(DeserializeError::UnexpectedCommand(clone_sexp(&el[0])));
        }
        let designation = self.env_state.designation();
        let builtins = generate_builtin_map();
        let mut table = SymbolTable::new();
        let n = el.len();
        if n <= 2 {
            proof {
                assert(section_entries(el@, 2) =~= Seq::<Sexp>::empty());
                assert(table@ =~= Map::<Seq<char>, LocalNode>::empty());
            }
            return Ok(table);
        }
        let ghost entries = el@.skip(2);
        assert(nodes_section(whole, base) == nodes_fold(entries, base));
        let ghost mut added: Seq<Option<Sexp>> = Seq::empty();
        assert(entries.take(0) =~= Seq::<Sexp>::empty());
        assert(table@ =~= Map::<Seq<char>, LocalNode>::empty());
        let mut i: usize = 2;
        while i < n
            invariant
                2 < n == el@.len(),
                2 <= i <= n,
                s0 == old(self).spec_state(),
                m0 == s0.current().model(),
                whole == structure,
                el@ == list_elems(whole),
                entries == el@.skip(2),
                nodes_section(whole, base) == nodes_fold(entries, base),
                !(nodes_fold(entries, base) is Stuck),
                nodes_fold(entries.take(i - 2), base) == (NodesState::Next { added, table: table@ }),
                added.len() <= i - 2,
                base == m0.nodes.len(),
                base + n < triple_bit(),
                designation == LocalNode(1),
                self.env_state.wf(),
                self.env_state.has_current(),
                self.env_state.same_place(&s0),
                self.env_state.envs().dom() == s0.envs().dom(),
                forall|id: u64|
                    id != s0.spec_env().0 && #[trigger] s0.envs().contains_key(id)
                        ==> self.env_state.envs()[id] == s0.envs()[id],
                self.env_state.current().model() == with_nodes(m0, added),
                forall|k: int|
                    0 <= k < builtins@.len() ==> builtin_fn_named((#[trigger] builtins@[k]).0@)
                        == Some(builtins@[k].1.spec_fun()) && builtins@[k].1 == spec_builtin(
                        builtins@[k].1.spec_fun(),
                    ),
                forall|nm: Seq<char>| #[trigger]
                    builtin_fn_named(nm) is Some ==> exists|k: int|
                        0 <= k < builtins@.len() && (#[trigger] builtins@[k]).0@ == nm,
            decreases n - i,
        {
            let ghost prefix = entries.take(i - 2);
            let ghost next_prefix = entries.take(i - 1);
            assert(next_prefix.drop_last() =~= prefix);
            assert(next_prefix.last() == el@[i as int]);
            let ghost step = node_step(el@[i as int], base, added, table@);
            assert(nodes_fold(next_prefix, base) == step);
            let ghost cur0 = self.env_state.current().model();
            match &el[i] {
                Sexp::Primitive(Primitive::Symbol(sym)) => {
                    if str_eq(sym.as_str(), AMLANG_DESIGNATION) {
                        table.insert(sym.clone(), designation);
                    } else {
                        let node = self.env_state.env().insert_node(None);
                        table.insert(sym.clone(), node);
                        proof {
                            added = added.push(None);
                            assert(self.env_state.current().model() =~= with_nodes(m0, added));
                        }
                    }
                },
                Sexp::Primitive(_) => {
                    proof {
                        lemma_nodes_fold_stops(entries, (i - 1) as int, base);
                        assert(self.env_state.same_place(&s0));
                        assert(self.env_state.envs().dom() == s0.envs().dom());
                    }
                    return Err(DeserializeError::ExpectedSymbol);
                },
                Sexp::Cons(_) => {
                    let parts = list_elements(&el[i]);
                    if parts.len() == 0 {
                        proof {
                            lemma_nodes_fold_stops(entries, (i - 1) as int, base);
                        }
                        return Err(DeserializeError::ExpectedSymbol);
                    }
                    let sym = match &parts[0] {
                        Sexp::Primitive(Primitive::Symbol(sym)) => sym.clone(),
                        _ => {
                            proof {
                                lemma_nodes_fold_stops(entries, (i - 1) as int, base);
                            }
                            return Err(DeserializeError::ExpectedSymbol);
                        },
                    };
                    if parts.len() == 1 {
                        proof {
                            lemma_nodes_fold_stops(entries, (i - 1) as int, base);
                        }
                        return Err(DeserializeError::MissingCommand);
                    }
                    if parts.len() > 2 {
                        proof {
                            lemma_nodes_fold_stops(entries, (i - 1) as int, base);
                        }
                        return Err(DeserializeError::ExtraneousNodeInfo);
                    }
                    proof {
                        if eval_step(parts@[1]) is Stuck {
                            lemma_nodes_fold_stops(entries, (i - 1) as int, base);
                        }
                    }
                    let structure = match self.eval_structure(clone_sexp(&parts[1]), &builtins) {
                        Ok(x) => x,
                        Err(err) => {
                            proof {
                                lemma_nodes_fold_stops(entries, (i - 1) as int, base);
                            }
                            return Err(err);
                        },
                    };
                    let node = self.env_state.env().insert_node(Some(structure));
                    table.insert(sym, node);
                    proof {
                        added = added.push(Some(structure));
                        assert(self.env_state.current().model() =~= with_nodes(m0, added));
                    }
                },
            }
            i = i + 1;
        }
        assert(entries.take(n - 2) =~= entries);
        proof {
            lemma_nodes_fold_table(entries, base);
        }
        Ok(table)
    }

    /// Reads the triple section into the current environment: each entry
    /// names the subject, predicate and object of a new triple. A triple
    /// whose predicate is the designation node, and whose object is another
    /// node, also names its subject, by the symbol that is the object's
    /// structure, in the table of names of the designation node; the other
    /// names stay.
    pub fn deserialize_triples(&mut self, structure: Sexp, table: SymbolTable) -> (res: Result<
        (),
        DeserializeError,
    >)
        requires
            old(self).spec_state().wf(),
            old(self).spec_state().has_current(),
            table_valid(table@, old(self).spec_state().current().model()),
            !(triples_section(
                structure,
                old(self).spec_state().spec_env(),
                table@,
                old(self).spec_state().current().model(),
            ) is Stuck),
            old(self).spec_state().current().model().triples.len() + list_elems(structure).len()
                < triple_bit(),
        ensures
            final(self).spec_state().wf(),
            final(self).spec_state().same_place(&old(self).spec_state()),
            final(self).spec_state().envs().dom() == old(self).spec_state().envs().dom(),
            forall|id: u64|
                id != old(self).spec_state().spec_env().0 && #[trigger] old(
                    self,
                ).spec_state().envs().contains_key(id) ==> final(self).spec_state().envs()[id]
                    == old(self).spec_state().envs()[id],
            match triples_section(
                structure,
                old(self).spec_state().spec_env(),
                table@,
                old(self).spec_state().current().model(),
            ) {
                TriplesState::Next(v) => res is Ok && shows(
                    old(self).spec_state().current().model(),
                    final(self).spec_state().current().model(),
                    v,
                ),
                TriplesState::Failed(error, v) => res == Err::<(), DeserializeError>(error) && shows(
                    old(self).spec_state().current().model(),
                    final(self).spec_state().current().model(),
                    v,
                ),
                TriplesState::Stuck => false,
            },
    {
        proof {
            reveal_strlit("triples");
        }
        let ghost s0 = self.env_state;
        let ghost m0 = s0.current().model();
        let ghost env = s0.spec_env();
        let ghost whole = structure;
        assert(shows(m0, m0, view_of(m0)));
        let el = list_elements(&structure);
        match structure {
            Sexp::Primitive(p) => {
                return Err(DeserializeError::InvalidSexp(Sexp::Primitive(p)));
            },
            Sexp::Cons(_) => {},
        }
        if el.len() == 0 {
            return Err(DeserializeError::MissingCommand);
        }
        let is_triples = match &el[0] {
            Sexp::Primitive(Primitive::Symbol(sym)) => str_eq(sym.as_str(), "triples"),
            _ => false,
        };
        if !is_triples {
            return Err(DeserializeError::UnexpectedCommand(clone_sexp(&el[0])));
        }
        let designation = self.env_state.designation();
        let n = el.len();
        if n <= 1 {
            proof {
                assert(section_entries(el@, 1) =~= Seq::<Sexp>::empty());
            }
            return Ok(());
        }
        let ghost entries = el@.skip(1);
        let ghost v0 = view_of(m0);
        assert(triples_section(whole, env, table@, m0) == triples_fold(entries, env, table@, m0, v0));
        assert(entries.take(0) =~= Seq::<Sexp>::empty());
        let ghost mut v = v0;
        let mut i: usize = 1;
        while i < n
            invariant
                1 < n == el@.len(),
                1 <= i <= n,
                s0 == old(self).spec_state(),
                m0 == s0.current().model(),
                env == s0.spec_env(),
                whole == structure,
                el@ == list_elems(whole),
                entries == el@.skip(1),
                v0 == view_of(m0),
                triples_section(whole, env, table@, m0) == triples_fold(entries, env, table@, m0, v0),
                !(triples_fold(entries, env, table@, m0, v0) is Stuck),
                triples_fold(entries.take(i - 1), env, table@, m0, v0) == TriplesState::Next(v),
                shows(m0, self.env_state.current().model(), v),
                self.env_state.current().model().triples.len() <= m0.triples.len() + i - 1,
                m0.triples.len() + n < triple_bit(),
                table_valid(table@, m0),
                designation == LocalNode(1),
                self.env_state.wf(),
                self.env_state.has_current(),
                self.env_state.same_place(&s0),
                self.env_state.envs().dom() == s0.envs().dom(),
                forall|id: u64|
                    id != s0.spec_env().0 && #[trigger] s0.envs().contains_key(id)
                        ==> self.env_state.envs()[id] == s0.envs()[id],
            decreases n - i,
        {
            let ghost prefix = entries.take(i - 1);
            let ghost next_prefix = entries.take(i as int);
            assert(next_prefix.drop_last() =~= prefix);
            assert(next_prefix.last() == el@[i as int]);
            assert(triples_fold(next_prefix, env, table@, m0, v0) == triple_step(
                el@[i as int],
                env,
                table@,
                m0,
                v,
            ));
            let parts = match &el[i] {
                Sexp::Primitive(p) => {
                    proof {
                        lemma_triples_fold_stops(entries, i as int, env, table@, m0, v0);
                    }
                    return Err(DeserializeError::InvalidSexp(clone_sexp(&el[i])));
                },
                Sexp::Cons(_) => list_elements(&el[i]),
            };
            let s = match entry_part(&parts, 0, &table) {
                Some(Some(n)) => n,
                Some(None) => {
                    proof {
                        lemma_triples_fold_stops(entries, i as int, env, table@, m0, v0);
                    }
                    vstd::pervasive::unreached()
                },
                None => {
                    proof {
                        lemma_triples_fold_stops(entries, i as int, env, table@, m0, v0);
                    }
                    return Err(DeserializeError::ExpectedSymbol);
                },
            };
            let p = match entry_part(&parts, 1, &table) {
                Some(Some(n)) => n,
                Some(None) => {
                    proof {
                        lemma_triples_fold_stops(entries, i as int, env, table@, m0, v0);
                    }
                    vstd::pervasive::unreached()
                },
                None => {
                    proof {
                        lemma_triples_fold_stops(entries, i as int, env, table@, m0, v0);
                    }
                    return Err(DeserializeError::ExpectedSymbol);
                },
            };
            let o = match entry_part(&parts, 2, &table) {
                Some(Some(n)) => n,
                Some(None) => {
                    proof {
                        lemma_triples_fold_stops(entries, i as int, env, table@, m0, v0);
                    }
                    vstd::pervasive::unreached()
                },
                None => {
                    proof {
                        lemma_triples_fold_stops(entries, i as int, env, table@, m0, v0);
                    }
                    return Err(DeserializeError::ExpectedSymbol);
                },
            };
            let ghost before = self.env_state.current().model();
            self.env_state.env().insert_triple(s, p, o);
            proof {
                v = TriplesView { triples: v.triples.push((s, p, o)), names: v.names };
                let cur = self.env_state.current().model();
                assert(cur == before.with_triple(s, p, o));
                assert(names_of(cur) == names_of(before));
                assert(shows(m0, cur, v));
            }
            if p.id() == designation.id() && o.id() != designation.id() {
                let name = match self.symbol_of(o) {
                    Some(sym) => sym,
                    None => {
                        proof {
                            lemma_triples_fold_stops(entries, i as int, env, table@, m0, v0);
                        }
                        return Err(DeserializeError::ExpectedSymbol);
                    },
                };
                let subject = self.env_state.globalize(s);
                let ghost mid = self.env_state.current().model();
                proof {
                    if names_of(mid) is None {
                        lemma_triples_fold_stops(entries, i as int, env, table@, m0, v0);
                    }
                }
                let mut names = {
                    let current = self.env_state.current_env();
                    let entry = current.entry(designation);
                    match entry.as_option() {
                        Some(Sexp::Primitive(Primitive::SymNodeTable(t))) => t.clone(),
                        _ => vstd::pervasive::unreached(),
                    }
                };
                let ghost name_view = name@;
                names.insert(name, subject);
                self.env_state.env().entry_update(
                    EntryMut::new(
                        designation,
                        EntryMutKind::Owned(Sexp::Primitive(Primitive::SymNodeTable(names))),
                    ),
                );
                proof {
                    v = TriplesView {
                        triples: v.triples,
                        names: Some(v.names->0.insert(name_view, Node { env, local: s })),
                    };
                    let cur = self.env_state.current().model();
                    assert(cur == mid.with_structure(
                        designation,
                        Some(Sexp::Primitive(Primitive::SymNodeTable(names))),
                    ));
                    assert(shows(m0, cur, v));
                }
            }
            i = i + 1;
        }
        assert(entries.take(n - 1) =~= entries);
        Ok(())
    }

    /// Reads a serialized environment, given as its sections in order, into
    /// the current environment: the node section, then the triple section
    /// over the names of the first; a missing section, or a section more, is
    /// an error.
    pub fn deserialize_sections(&mut self, sections: Vec<Sexp>) -> (res: Result<(), DeserializeError>)
        requires
            old(self).spec_state().wf(),
            old(self).spec_state().has_current(),
            old(self).spec_state().current().model().nodes.len() >= 2,
            sections@.len() >= 1 ==> !(nodes_section(
                sections@[0],
                old(self).spec_state().current().model().nodes.len(),
            ) is Stuck),
            sections@.len() >= 1 ==> old(self).spec_state().current().model().nodes.len()
                + list_elems(sections@[0]).len() < triple_bit(),
            sections@.len() >= 2 ==> old(self).spec_state().current().model().triples.len()
                + list_elems(sections@[1]).len() < triple_bit(),
            sections@.len() >= 2 ==> (nodes_section(
                sections@[0],
                old(self).spec_state().current().model().nodes.len(),
            ) matches NodesState::Next { added, table } ==> !(triples_section(
                sections@[1],
                old(self).spec_state().spec_env(),
                table,
                with_nodes(old(self).spec_state().current().model(), added),
            ) is Stuck)),
        ensures
            final(self).spec_state().wf(),
            final(self).spec_state().same_place(&old(self).spec_state()),
            final(self).spec_state().envs().dom() == old(self).spec_state().envs().dom(),
            forall|id: u64|
                id != old(self).spec_state().spec_env().0 && #[trigger] old(
                    self,
                ).spec_state().envs().contains_key(id) ==> final(self).spec_state().envs()[id]
                    == old(self).spec_state().envs()[id],
            sections@.len() == 0 ==> res == Err::<(), DeserializeError>(
                DeserializeError::MissingNodeSection,
            ) && final(self).spec_state() == old(self).spec_state(),
            sections@.len() >= 1 ==> ({
                let m0 = old(self).spec_state().current().model();
                let m = final(self).spec_state().current().model();
                match nodes_section(sections@[0], m0.nodes.len()) {
                    NodesState::Failed { error, added } => res == Err::<(), DeserializeError>(error)
                        && m == with_nodes(m0, added),
                    NodesState::Next { added, table } => if sections@.len() == 1 {
                        res == Err::<(), DeserializeError>(DeserializeError::MissingTripleSection)
                            && m == with_nodes(m0, added)
                    } else {
                        match triples_section(
                            sections@[1],
                            old(self).spec_state().spec_env(),
                            table,
                            with_nodes(m0, added),
                        ) {
                            TriplesState::Next(v) => shows(with_nodes(m0, added), m, v) && (if sections@.len()
                                == 2 {
                                res is Ok
                            } else {
                                res == Err::<(), DeserializeError>(
                                    DeserializeError::ExtraneousSection,
                                )
                            }),
                            TriplesState::Failed(error, v) => res == Err::<(), DeserializeError>(error)
                                && shows(with_nodes(m0, added), m, v),
                            TriplesState::Stuck => false,
                        }
                    },
                    NodesState::Stuck => false,
                }
            }),
    {
        let n = sections.len();
        if n == 0 {
            return Err(DeserializeError::MissingNodeSection);
        }
        let mut rest = sections;
        let ghost all = rest@;
        let first = rest.remove(0);
        assert(first == all[0]);
        let table = match self.deserialize_nodes(first) {
            Ok(t) => t,
            Err(e) => {
                return Err(e);
            },
        };
        if n == 1 {
            return Err(DeserializeError::MissingTripleSection);
        }
        let second = rest.remove(0);
        assert(second == all[1]);
        match self.deserialize_triples(second, table) {
            Ok(()) => {},
            Err(e) => {
                return Err(e);
            },
        }
        if n > 2 {
            Err(DeserializeError::ExtraneousSection)
        } else {
            Ok(())
        }
    }

    /// The symbol that the structure of `object` is, if it is one.
    fn symbol_of(&self, object: LocalNode) -> (res: Option<Symbol>)
        requires
            self.spec_state().wf(),
            self.spec_state().has_current(),
            !spec_is_triple_id(object.0),
            object.0 < self.spec_state().current().model().nodes.len(),
        ensures
            res == symbol_structure(self.spec_state().current().model(), object),
    {
        let env = self.env_state.current_env();
        let entry = env.entry(object);
        match entry.as_option() {
            Some(Sexp::Primitive(Primitive::Symbol(sym))) => Some(sym.clone()),
            _ => None,
        }
    }

    /// Whether the designation node of the current environment holds a table
    /// of names.
    fn holds_names(&self) -> (res: bool)
        requires
            self.spec_state().wf(),
            self.spec_state().has_current(),
        ensures
            res == (names_of(self.spec_state().current().model()) is Some),
    {
        let env = self.env_state.current_env();
        if env.all_nodes().len() <= 1 {
            return false;
        }
        let entry = env.entry(LocalNode::new(1));
        match entry.as_option() {
            Some(Sexp::Primitive(Primitive::SymNodeTable(_))) => true,
            _ => false,
        }
    }

    /// How a triple entry goes on, from any view whose names are there
    /// exactly where `has_names` says, of the current environment.
    fn triple_entry_kind(&self, e: &Sexp, table: &SymbolTable, has_names: bool) -> (res: StepKind)
        requires
            self.spec_state().wf(),
            self.spec_state().has_current(),
            table_valid(table@, self.spec_state().current().model()),
        ensures
            forall|v: TriplesView|
                (v.names is Some) == has_names ==> triples_kind(
                    #[trigger] triple_step(
                        *e,
                        self.spec_state().spec_env(),
                        table@,
                        self.spec_state().current().model(),
                        v,
                    ),
                ) == res,
    {
        match e {
            Sexp::Primitive(_) => StepKind::Failed,
            Sexp::Cons(_) => {
                let parts = list_elements(e);
                let s = match entry_part(&parts, 0, table) {
                    None => {
                        return StepKind::Failed;
                    },
                    Some(None) => {
                        return StepKind::Stuck;
                    },
                    Some(Some(n)) => n,
                };
                let p = match entry_part(&parts, 1, table) {
                    None => {
                        return StepKind::Failed;
                    },
                    Some(None) => {
                        return StepKind::Stuck;
                    },
                    Some(Some(n)) => n,
                };
                let o = match entry_part(&parts, 2, table) {
                    None => {
                        return StepKind::Failed;
                    },
                    Some(None) => {
                        return StepKind::Stuck;
                    },
                    Some(Some(n)) => n,
                };
                if p.id() == 1 && o.id() != 1 {
                    if self.symbol_of(o).is_some() {
                        if has_names {
                            StepKind::Next
                        } else {
                            StepKind::Stuck
                        }
                    } else {
                        StepKind::Failed
                    }
                } else {
                    StepKind::Next
                }
            },
        }
    }

    /// Whether reading the triple section gets stuck: on a name that the
    /// table does not hold, or on a designation triple where the designation
    /// node holds no table of names (the reading this follows gives up
    /// there).
    pub fn triples_section_stuck(&self, structure: &Sexp, table: &SymbolTable) -> (res: bool)
        requires
            self.spec_state().wf(),
            self.spec_state().has_current(),
            table_valid(table@, self.spec_state().current().model()),
        ensures
            res == (triples_section(
                *structure,
                self.spec_state().spec_env(),
                table@,
                self.spec_state().current().model(),
            ) is Stuck),
    {
        let ghost m0 = self.spec_state().current().model();
        let ghost env = self.spec_state().spec_env();
        let ghost v0 = view_of(m0);
        proof {
            reveal_strlit("triples");
        }
        match structure {
            Sexp::Primitive(_) => false,
            Sexp::Cons(_) => {
                let el = list_elements(structure);
                if el.len() == 0 {
                    return false;
                }
                let is_triples = match &el[0] {
                    Sexp::Primitive(Primitive::Symbol(sym)) => str_eq(sym.as_str(), "triples"),
                    _ => false,
                };
                if !is_triples {
                    return false;
                }
                let n = el.len();
                if n <= 1 {
                    return false;
                }
                let has_names = self.holds_names();
                let ghost entries = el@.skip(1);
                assert(triples_section(*structure, env, table@, m0) == triples_fold(
                    entries,
                    env,
                    table@,
                    m0,
                    v0,
                ));
                let mut i: usize = 1;
                assert(entries.take(0) =~= Seq::<Sexp>::empty());
                while i < n
                    invariant
                        1 < n == el@.len(),
                        1 <= i <= n,
                        entries == el@.skip(1),
                        m0 == self.spec_state().current().model(),
                        env == self.spec_state().spec_env(),
                        v0 == view_of(m0),
                        has_names == (names_of(m0) is Some),
                        self.spec_state().wf(),
                        self.spec_state().has_current(),
                        table_valid(table@, m0),
                        triples_section(*structure, env, table@, m0) == triples_fold(
                            entries,
                            env,
                            table@,
                            m0,
                            v0,
                        ),
                        triples_fold(entries.take(i - 1), env, table@, m0, v0) is Next,
                    decreases n - i,
                {
                    let ghost prefix = entries.take(i - 1);
                    assert(entries.take(i as int).drop_last() =~= prefix);
                    assert(entries.take(i as int).last() == el@[i as int]);
                    let kind = self.triple_entry_kind(&el[i], table, has_names);
                    proof {
                        lemma_triples_fold_names(prefix, env, table@, m0, v0);
                        let st = triples_fold(prefix, env, table@, m0, v0);
                        if let TriplesState::Next(v1) = st {
                            assert(triples_kind(triple_step(el@[i as int], env, table@, m0, v1)) == kind);
                        }
                    }
                    if kind == StepKind::Stuck {
                        proof {
                            lemma_triples_fold_stops(entries, i as int, env, table@, m0, v0);
                        }
                        return true;
                    }
                    if kind == StepKind::Failed {
                        proof {
                            lemma_triples_fold_stops(entries, i as int, env, table@, m0, v0);
                        }
                        return false;
                    }
                    i = i + 1;
                }
                assert(entries.take(n - 1) =~= entries);
                false
            },
        }
    }
}

/// The node that element `i` of a triple entry names, looked up in the
/// table.
fn entry_part(parts: &Vec<Sexp>, i: usize, table: &SymbolTable) -> (res: Option<Option<LocalNode>>)
    ensures
        res == entry_node(parts@, i as int, table@),
{
    if parts.len() > i {
        match &parts[i] {
            Sexp::Primitive(Primitive::Symbol(sym)) => Some(table.lookup(sym)),
            _ => None,
        }
    } else {
        None
    }
}

/// Whether every name of the table names a node of `m` that is not a triple.
pub open spec fn table_valid(table: Map<Seq<char>, LocalNode>, m: EnvModel) -> bool {
    forall|k: Seq<char>| #[trigger]
        table.contains_key(k) ==> !spec_is_triple_id(table[k].0) && table[k].0 < m.nodes.len()
}

/// Reading triples keeps the designation node holding a table of names
/// exactly where it held one.
pub proof fn lemma_triples_fold_names(
    entries: Seq<Sexp>,
    env: LocalNode,
    table: Map<Seq<char>, LocalNode>,
    m0: EnvModel,
    v: TriplesView,
)
    ensures
        triples_fold(entries, env, table, m0, v) matches TriplesState::Next(v2) ==> (v2.names is Some)
            == (v.names is Some),
    decreases entries.len(),
{
    if entries.len() > 0 {
        lemma_triples_fold_names(entries.drop_last(), env, table, m0, v);
    }
}

/// How a triple entry goes on.
pub open spec fn triples_kind(s: TriplesState) -> StepKind {
    match s {
        TriplesState::Next(_) => StepKind::Next,
        TriplesState::Failed(..) => StepKind::Failed,
        TriplesState::Stuck => StepKind::Stuck,
    }
}

/// Once reading the triple section stops, the entries after make no
/// difference.
pub proof fn lemma_triples_fold_stops(
    entries: Seq<Sexp>,
    k: int,
    env: LocalNode,
    table: Map<Seq<char>, LocalNode>,
    m0: EnvModel,
    v: TriplesView,
)
    requires
        0 <= k <= entries.len(),
        !(triples_fold(entries.take(k), env, table, m0, v) is Next),
    ensures
        triples_fold(entries, env, table, m0, v) == triples_fold(entries.take(k), env, table, m0, v),
    decreases entries.len() - k,
{
    if k < entries.len() {
        assert(entries.take(k + 1).drop_last() =~= entries.take(k));
        lemma_triples_fold_stops(entries, k + 1, env, table, m0, v);
    } else {
        assert(entries.take(k) =~= entries);
    }
}

/// The names that reading the node section gives stand for the designation
/// node or for the nodes it added.
pub proof fn lemma_nodes_fold_table(entries: Seq<Sexp>, base: nat)
    requires
        base + entries.len() < triple_bit(),
    ensures
        nodes_fold(entries, base) matches NodesState::Next { added, table } ==> added.len()
            <= entries.len() && forall|k: Seq<char>| #[trigger]
            table.contains_key(k) ==> table[k] == LocalNode(1) || (base <= table[k].0 < base
                + added.len()),
    decreases entries.len(),
{
    if entries.len() > 0 {
        lemma_nodes_fold_table(entries.drop_last(), base);
        if let NodesState::Next { added, table } = nodes_fold(entries.drop_last(), base) {
            let next = LocalNode((base + added.len()) as u64);
            assert(next.0 == base + added.len());
            if let NodesState::Next { added: a2, table: t2 } = nodes_fold(entries, base) {
                assert forall|k: Seq<char>| #[trigger] t2.contains_key(k) implies t2[k] == LocalNode(
                    1,
                ) || (base <= t2[k].0 < base + a2.len()) by {
                    if table.contains_key(k) && t2[k] == table[k] {
                    } else {
                        assert(t2[k] == next || t2[k] == LocalNode(1));
                    }
                }
            }
        }
    }
}

/// Once reading the node section stops, the entries after make no
/// difference.
pub proof fn lemma_nodes_fold_stops(entries: Seq<Sexp>, k: int, base: nat)
    requires
        0 <= k <= entries.len(),
        !(nodes_fold(entries.take(k), base) is Next),
    ensures
        nodes_fold(entries, base) == nodes_fold(entries.take(k), base),
    decreases entries.len() - k,
{
    if k < entries.len() {
        assert(entries.take(k + 1).drop_last() =~= entries.take(k));
        lemma_nodes_fold_stops(entries, k + 1, base);
    } else {
        assert(entries.take(k) =~= entries);
    }
}

} // verus!
