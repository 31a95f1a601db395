//! The special forms of the language that act on the agent's state: a node
//! of the language environment applied to argument nodes.

use vstd::prelude::*;

use crate::agent::amlang_context::AmlangContext;
use crate::agent::env_state::{
    ask_outcome, env_found, lookup_chain, import_outcome, import_table_unique, node_meaning, node_sexp,
    paths_have_structure, tell_outcome, EnvState,
};
use crate::agent::lang_error::{ExpectedCount, LangError};
use crate::env::environment::{slot, Environment};
use crate::env::local_node::LocalNode;
use crate::env::mem_backend::index_id_conv::{spec_is_triple_id, triple_bit};
use crate::primitive::{Node, Primitive};
use crate::sexp::{empty_list, list_elems, list_elements, Cons, Sexp};

verus! {

broadcast use vstd::string::group_string_axioms;

/// The role a node of the language environment plays among the special
/// forms.
#[derive(Clone, Copy, Debug, PartialEq, Eq, Structural)]
pub enum SpecialRole {
    Tell,
    Ask,
    Def,
    Curr,
    Jump,
    Import,
    EnvFind,
    Apply,
    Eval,
    Exec,
    SetBang,
    Other,
}

/// The role of `n` in context `c`; where two roles share a node, the one
/// listed first wins.
pub open spec fn special_role(c: AmlangContext, n: LocalNode) -> SpecialRole {
    if n == c.tell {
        SpecialRole::Tell
    } else if n == c.ask {
        SpecialRole::Ask
    } else if n == c.def {
        SpecialRole::Def
    } else if n == c.curr {
        SpecialRole::Curr
    } else if n == c.jump {
        SpecialRole::Jump
    } else if n == c.import {
        SpecialRole::Import
    } else if n == c.env_find {
        SpecialRole::EnvFind
    } else if n == c.apply {
        SpecialRole::Apply
    } else if n == c.eval {
        SpecialRole::Eval
    } else if n == c.exec_node {
        SpecialRole::Exec
    } else {
        SpecialRole::Other
    }
}

/// The role of `n` in context `c`.
pub fn role_of(c: &AmlangContext, n: LocalNode) -> (res: SpecialRole)
    ensures
        res == special_role(*c, n),
{
    let id = n.id();
    if id == c.tell.id() {
        SpecialRole::Tell
    } else if id == c.ask.id() {
        SpecialRole::Ask
    } else if id == c.def.id() {
        SpecialRole::Def
    } else if id == c.curr.id() {
        SpecialRole::Curr
    } else if id == c.jump.id() {
        SpecialRole::Jump
    } else if id == c.import.id() {
        SpecialRole::Import
    } else if id == c.env_find.id() {
        SpecialRole::EnvFind
    } else if id == c.apply.id() {
        SpecialRole::Apply
    } else if id == c.eval.id() {
        SpecialRole::Eval
    } else if id == c.exec_node.id() {
        SpecialRole::Exec
    } else {
        SpecialRole::Other
    }
}

/// The error a special form of role `role` gives for `given` arguments, where
/// their number does not fit it.
pub open spec fn arity_error(role: SpecialRole, given: usize) -> Option<LangError> {
    let wrong = |expected: ExpectedCount|
        Some(LangError::WrongArgumentCount { given, expected });
    match role {
        SpecialRole::Tell | SpecialRole::Ask => if given != 3 {
            wrong(ExpectedCount::Exactly(3))
        } else {
            None
        },
        SpecialRole::Curr => if given > 0 {
            wrong(ExpectedCount::Exactly(0))
        } else {
            None
        },
        SpecialRole::Jump | SpecialRole::Import | SpecialRole::EnvFind | SpecialRole::Eval
        | SpecialRole::Exec => if given != 1 {
            wrong(ExpectedCount::Exactly(1))
        } else {
            None
        },
        SpecialRole::Def | SpecialRole::SetBang => if given < 1 {
            wrong(ExpectedCount::AtLeast(1))
        } else if given > 2 {
            wrong(ExpectedCount::AtMost(2))
        } else {
            None
        },
        SpecialRole::Apply => if given != 2 {
            wrong(ExpectedCount::Exactly(2))
        } else {
            None
        },
        SpecialRole::Other => None,
    }
}

/// A result node of an import, as a structure.
pub open spec fn node_result(r: Result<Node, LangError>) -> Result<Sexp, LangError> {
    match r {
        Ok(n) => Ok(node_sexp(n)),
        Err(e) => Err(e),
    }
}

/// The environment found at a path, as a structure: its node in the meta
/// environment, or the empty list.
pub open spec fn found_sexp(r: Option<LocalNode>) -> Sexp {
    match r {
        Some(l) => node_sexp(Node { env: LocalNode(0), local: l }),
        None => empty_list(),
    }
}

/// What the inputs of a special form need beyond a well-formed state: the
/// nodes that its operation reads exist.
pub open spec fn special_ready<E: Environment>(
    s: EnvState<E>,
    special: LocalNode,
    args: Seq<Node>,
) -> bool {
    let role = special_role(s.spec_context(), special);
    let m = s.current().model();
    let mm = s.meta_env().model();
    let mc = s.spec_meta_context();
    &&& s.wf()
    &&& (role == SpecialRole::Tell && args.len() == 3) ==> {
        &&& s.has_current()
        &&& m.valid_node(args[0].local)
        &&& m.valid_node(args[1].local)
        &&& m.valid_node(args[2].local)
        &&& m.triples.len() < triple_bit()
    }
    &&& (role == SpecialRole::Ask && args.len() == 3) ==> {
        let ph = s.spec_context().placeholder;
        &&& s.has_current()
        &&& args[0].local != ph ==> m.valid_node(args[0].local)
        &&& args[1].local != ph ==> m.valid_node(args[1].local)
        &&& args[2].local != ph ==> m.valid_node(args[2].local)
    }
    &&& (role == SpecialRole::Import && args.len() == 1) ==> {
        &&& s.has_current()
        &&& mm.valid_node(s.spec_env())
        &&& mm.valid_node(mc.imports)
        &&& mm.valid_node(mc.import_table)
        &&& mm.valid_node(args[0].env)
        &&& import_table_unique(mm, s.spec_env(), mc.imports, mc.import_table, args[0].env)
        &&& mm.nodes.len() + 2 < triple_bit()
        &&& mm.triples.len() + 2 < triple_bit()
        &&& m.nodes.len() + 2 < triple_bit()
    }
    &&& (role == SpecialRole::EnvFind && args.len() == 1) ==> {
        &&& s.chain_valid()
        &&& s.envs().contains_key(args[0].env.0)
        &&& s.envs()[args[0].env.0].model().valid_node(args[0].local)
        &&& spec_is_triple_id(args[0].local.0) ==> (s.has_current() && 0 <= slot(
            args[0].local.0,
        ) < m.triples.len())
        &&& mm.valid_node(mc.serialize_path)
        &&& paths_have_structure(mm, mc.serialize_path)
    }
}

/// Applies the special node `special` of the language environment to the
/// argument nodes `args`: `tell` and `ask` take a triple pattern, `curr`
/// gives the current position, `jump` moves there, `import` brings a node
/// of another environment into the current one, and `env-find` looks up
/// the environment stored at the path that its argument holds. The
/// arguments stand as given: they are not evaluated further. `def`,
/// `apply`, `eval` and `exec`, once their arguments are counted, need an
/// interpreter of procedures and are reported unsupported here; any other
/// node is refused.
pub fn apply_special<E: Environment>(
    state: &mut EnvState<E>,
    special: LocalNode,
    args: Vec<Node>,
) -> (res: Result<Sexp, LangError>)
    requires
        special_ready(*old(state), special, args@),
    ensures
        ({
            let c = old(state).spec_context();
            let role = special_role(c, special);
            let s0 = *old(state);
            let s1 = *final(state);
            &&& arity_error(role, args.len()) matches Some(e) ==> res == Err::<Sexp, LangError>(e)
                && s1 == s0
            &&& role == SpecialRole::Other ==> (res matches Err(
                LangError::InvalidArgument { given, expected },
            ) && given == node_sexp(Node { env: c.node.local, local: special }) && expected@
                == "special Amlang Node"@ && s1 == s0)
            &&& arity_error(role, args.len()) is None ==> {
                &&& role == SpecialRole::Tell ==> tell_outcome(
                    s0,
                    args@[0].local,
                    args@[1].local,
                    args@[2].local,
                    s1,
                    res,
                )
                &&& role == SpecialRole::Ask ==> ask_outcome(
                    s0,
                    args@[0].local,
                    args@[1].local,
                    args@[2].local,
                    res,
                ) && s1 == s0
                &&& role == SpecialRole::Curr ==> res == Ok::<Sexp, LangError>(
                    node_sexp(Node { env: s0.spec_env(), local: s0.spec_pos() }),
                ) && s1 == s0
                &&& role == SpecialRole::Jump ==> res == Ok::<Sexp, LangError>(node_sexp(args@[0]))
                    && s1.spec_env() == args@[0].env && s1.spec_pos() == args@[0].local
                    && s1.spec_chain() == s0.spec_chain() && s1.spec_context() == c
                    && s1.spec_meta_context() == s0.spec_meta_context() && s1.envs() == s0.envs()
                    && s1.wf()
                &&& role == SpecialRole::Import ==> exists|r: Result<Node, LangError>|
                    import_outcome(s0, args@[0], s1, r) && res == node_result(r)
                &&& role == SpecialRole::EnvFind ==> s1 == s0 && match node_meaning(s0, args@[0]) {
                    Sexp::Primitive(Primitive::LangString(p)) => exists|r: Option<LocalNode>|
                        env_found(
                            s0.meta_env().model(),
                            s0.spec_meta_context().serialize_path,
                            p@,
                            r,
                        ) && res == Ok::<Sexp, LangError>(found_sexp(r)),
                    other => res matches Err(LangError::InvalidArgument { given, expected })
                        && given == other && expected@ == "Node containing string"@,
                }
                &&& (role == SpecialRole::Def || role == SpecialRole::Apply || role
                    == SpecialRole::Eval || role == SpecialRole::Exec) ==> res is Err && (res matches Err(
                    e,
                ) && e is Unsupported) && s1 == s0
            }
        }),
{
    let ghost s0 = *state;
    let role = role_of(state.context(), special);
    let n = args.len();
    match role {
        SpecialRole::Tell | SpecialRole::Ask => {
            if n != 3 {
                return Err(
                    LangError::WrongArgumentCount { given: n, expected: ExpectedCount::Exactly(3) },
                );
            }
            let (s, p, o) = (args[0].local, args[1].local, args[2].local);
            match role {
                SpecialRole::Tell => state.tell(s, p, o),
                _ => state.ask(s, p, o),
            }
        },
        SpecialRole::Curr => {
            if n > 0 {
                return Err(
                    LangError::WrongArgumentCount { given: n, expected: ExpectedCount::Exactly(0) },
                );
            }
            Ok(Sexp::Primitive(Primitive::Node(state.pos())))
        },
        SpecialRole::Jump | SpecialRole::Import | SpecialRole::EnvFind => {
            if n != 1 {
                return Err(
                    LangError::WrongArgumentCount { given: n, expected: ExpectedCount::Exactly(1) },
                );
            }
            let arg = args[0];
            match role {
                SpecialRole::Jump => {
                    state.jump(arg);
                    Ok(Sexp::Primitive(Primitive::Node(state.pos())))
                },
                SpecialRole::Import => {
                    let r = state.import(arg);
                    let out = match r {
                        Ok(imported) => Ok(Sexp::Primitive(Primitive::Node(imported))),
                        Err(e) => Err(e),
                    };
                    assert(import_outcome(s0, arg, *state, r) && out == node_result(r));
                    out
                },
                _ => {
                    let des = state.designate(Primitive::Node(arg));
                    match des {
                        Ok(Sexp::Primitive(Primitive::LangString(path))) => {
                            let found = state.find_env(path.as_str());
                            match found {
                                Some(l) => Ok(
                                    Sexp::Primitive(Primitive::Node(Node::new(LocalNode(0), l))),
                                ),
                                None => Ok(Sexp::default()),
                            }
                        },
                        Ok(other) => Err(
                            LangError::InvalidArgument {
                                given: other,
                                expected: "Node containing string".to_owned(),
                            },
                        ),
                        Err(e) => Err(e),
                    }
                },
            }
        },
        SpecialRole::Def => {
            if n < 1 {
                return Err(
                    LangError::WrongArgumentCount {
                        given: n,
                        expected: ExpectedCount::AtLeast(1),
                    },
                );
            } else if n > 2 {
                return Err(
                    LangError::WrongArgumentCount { given: n, expected: ExpectedCount::AtMost(2) },
                );
            }
            Err(LangError::Unsupported(unsupported_message()))
        },
        SpecialRole::Apply => {
            if n != 2 {
                return Err(
                    LangError::WrongArgumentCount { given: n, expected: ExpectedCount::Exactly(2) },
                );
            }
            Err(LangError::Unsupported(unsupported_message()))
        },
        SpecialRole::Eval | SpecialRole::Exec => {
            if n != 1 {
                return Err(
                    LangError::WrongArgumentCount { given: n, expected: ExpectedCount::Exactly(1) },
                );
            }
            Err(LangError::Unsupported(unsupported_message()))
        },
        SpecialRole::Other | SpecialRole::SetBang => {
            let lang_env = state.context().node.local;
            Err(
                LangError::InvalidArgument {
                    given: Sexp::Primitive(Primitive::Node(Node::new(lang_env, special))),
                    expected: "special Amlang Node".to_owned(),
                },
            )
        },
    }
}

/// The role of `n` among the special forms of the interpreter that runs
/// procedures: `tell`, `ask`, `def`, `set!`, `import`, `apply`, `eval` and
/// `exec`; where two roles share a node, the one listed first wins.
pub open spec fn vm_role(c: AmlangContext, n: LocalNode) -> SpecialRole {
    if n == c.tell {
        SpecialRole::Tell
    } else if n == c.ask {
        SpecialRole::Ask
    } else if n == c.def {
        SpecialRole::Def
    } else if n == c.set {
        SpecialRole::SetBang
    } else if n == c.import {
        SpecialRole::Import
    } else if n == c.apply {
        SpecialRole::Apply
    } else if n == c.eval {
        SpecialRole::Eval
    } else if n == c.exec_node {
        SpecialRole::Exec
    } else {
        SpecialRole::Other
    }
}

/// The role of `n` in context `c` for the interpreter that runs procedures.
pub fn vm_role_of(c: &AmlangContext, n: LocalNode) -> (res: SpecialRole)
    ensures
        res == vm_role(*c, n),
{
    let id = n.id();
    if id == c.tell.id() {
        SpecialRole::Tell
    } else if id == c.ask.id() {
        SpecialRole::Ask
    } else if id == c.def.id() {
        SpecialRole::Def
    } else if id == c.set.id() {
        SpecialRole::SetBang
    } else if id == c.import.id() {
        SpecialRole::Import
    } else if id == c.apply.id() {
        SpecialRole::Apply
    } else if id == c.eval.id() {
        SpecialRole::Eval
    } else if id == c.exec_node.id() {
        SpecialRole::Exec
    } else {
        SpecialRole::Other
    }
}

/// What the inputs of a special form of the interpreter that runs
/// procedures need beyond a well-formed state.
pub open spec fn vm_special_ready<E: Environment>(
    s: EnvState<E>,
    special: LocalNode,
    args: Seq<Node>,
) -> bool {
    let role = vm_role(s.spec_context(), special);
    let m = s.current().model();
    let mm = s.meta_env().model();
    let mc = s.spec_meta_context();
    &&& s.wf()
    &&& (role == SpecialRole::Tell && args.len() == 3) ==> {
        &&& s.has_current()
        &&& m.valid_node(args[0].local)
        &&& m.valid_node(args[1].local)
        &&& m.valid_node(args[2].local)
        &&& m.triples.len() < triple_bit()
    }
    &&& (role == SpecialRole::Ask && args.len() == 3) ==> {
        let ph = s.spec_context().placeholder;
        &&& s.has_current()
        &&& args[0].local != ph ==> m.valid_node(args[0].local)
        &&& args[1].local != ph ==> m.valid_node(args[1].local)
        &&& args[2].local != ph ==> m.valid_node(args[2].local)
    }
    &&& (role == SpecialRole::Import && args.len() == 1) ==> {
        &&& s.has_current()
        &&& mm.valid_node(s.spec_env())
        &&& mm.valid_node(mc.imports)
        &&& mm.valid_node(mc.import_table)
        &&& mm.valid_node(args[0].env)
        &&& import_table_unique(mm, s.spec_env(), mc.imports, mc.import_table, args[0].env)
        &&& mm.nodes.len() + 2 < triple_bit()
        &&& mm.triples.len() + 2 < triple_bit()
        &&& m.nodes.len() + 2 < triple_bit()
    }
}

/// Applies a special node for the interpreter that runs procedures: `tell`
/// and `ask` take a triple pattern and `import` brings a node of another
/// environment into the current one, as `apply_special` does; `def`,
/// `set!`, `apply`, `eval` and `exec`, once their arguments are counted,
/// need procedures and are reported unsupported here; any other node,
/// `curr`, `jump` and `env-find` among them, is refused.
pub fn vm_apply_special<E: Environment>(
    state: &mut EnvState<E>,
    special: LocalNode,
    args: Vec<Node>,
) -> (res: Result<Sexp, LangError>)
    requires
        vm_special_ready(*old(state), special, args@),
    ensures
        ({
            let c = old(state).spec_context();
            let role = vm_role(c, special);
            let s0 = *old(state);
            let s1 = *final(state);
            &&& arity_error(role, args.len()) matches Some(e) ==> res == Err::<Sexp, LangError>(e)
                && s1 == s0
            &&& role == SpecialRole::Other ==> (res matches Err(
                LangError::InvalidArgument { given, expected },
            ) && given == node_sexp(Node { env: c.node.local, local: special }) && expected@
                == "special Amlang Node"@ && s1 == s0)
            &&& arity_error(role, args.len()) is None ==> {
                &&& role == SpecialRole::Tell ==> tell_outcome(
                    s0,
                    args@[0].local,
                    args@[1].local,
                    args@[2].local,
                    s1,
                    res,
                )
                &&& role == SpecialRole::Ask ==> ask_outcome(
                    s0,
                    args@[0].local,
                    args@[1].local,
                    args@[2].local,
                    res,
                ) && s1 == s0
                &&& role == SpecialRole::Import ==> exists|r: Result<Node, LangError>|
                    import_outcome(s0, args@[0], s1, r) && res == node_result(r)
                &&& (role == SpecialRole::Def || role == SpecialRole::SetBang || role
                    == SpecialRole::Apply || role == SpecialRole::Eval || role
                    == SpecialRole::Exec) ==> (res matches Err(e) && e is Unsupported) && s1 == s0
            }
        }),
{
    let ghost s0 = *state;
    let role = vm_role_of(state.context(), special);
    let n = args.len();
    match role {
        SpecialRole::Tell | SpecialRole::Ask => {
            if n != 3 {
                return Err(
                    LangError::WrongArgumentCount { given: n, expected: ExpectedCount::Exactly(3) },
                );
            }
            let (s, p, o) = (args[0].local, args[1].local, args[2].local);
            match role {
                SpecialRole::Tell => state.tell(s, p, o),
                _ => state.ask(s, p, o),
            }
        },
        SpecialRole::Import | SpecialRole::Eval | SpecialRole::Exec => {
            if n != 1 {
                return Err(
                    LangError::WrongArgumentCount { given: n, expected: ExpectedCount::Exactly(1) },
                );
            }
            match role {
                SpecialRole::Import => {
                    let r = state.import(args[0]);
                    let out = match r {
                        Ok(imported) => Ok(Sexp::Primitive(Primitive::Node(imported))),
                        Err(e) => Err(e),
                    };
                    assert(import_outcome(s0, args@[0], *state, r) && out == node_result(r));
                    out
                },
                _ => Err(LangError::Unsupported(unsupported_message())),
            }
        },
        SpecialRole::Def | SpecialRole::SetBang => {
            if n < 1 {
                return Err(
                    LangError::WrongArgumentCount {
                        given: n,
                        expected: ExpectedCount::AtLeast(1),
                    },
                );
            } else if n > 2 {
                return Err(
                    LangError::WrongArgumentCount { given: n, expected: ExpectedCount::AtMost(2) },
                );
            }
            Err(LangError::Unsupported(unsupported_message()))
        },
        SpecialRole::Apply => {
            if n != 2 {
                return Err(
                    LangError::WrongArgumentCount { given: n, expected: ExpectedCount::Exactly(2) },
                );
            }
            Err(LangError::Unsupported(unsupported_message()))
        },
        _ => {
            let lang_env = state.context().node.local;
            Err(
                LangError::InvalidArgument {
                    given: Sexp::Primitive(Primitive::Node(Node::new(lang_env, special))),
                    expected: "special Amlang Node".to_owned(),
                },
            )
        },
    }
}

/// Why a special form that runs procedures is not applied here.
fn unsupported_message() -> String {
    "special form that runs procedures".to_owned()
}

/// The node of the language environment that quotes.
pub open spec fn quote_node(c: AmlangContext) -> Node {
    Node { env: c.node.local, local: c.quote }
}

/// The arguments of a form: the elements of the list after its head.
pub open spec fn form_args(cdr: Option<Box<Sexp>>) -> Seq<Sexp> {
    match cdr {
        Some(d) => list_elems(*d),
        None => Seq::empty(),
    }
}

/// What construing a structure comes to: a value, an error of the
/// language, a head that is no node (the form as given), or a form that
/// needs procedures.
pub enum Construal {
    Value(Sexp),
    Failure(LangError),
    NotAForm(Sexp),
    NeedsProcedures,
}

/// What quoting the arguments `cdr` gives: the one argument itself.
pub open spec fn quote_construal(cdr: Option<Box<Sexp>>) -> Construal {
    let args = form_args(cdr);
    if args.len() == 1 {
        Construal::Value(args[0])
    } else {
        Construal::Failure(
            LangError::WrongArgumentCount {
                given: args.len() as usize,
                expected: ExpectedCount::Exactly(1),
            },
        )
    }
}

/// What a primitive designates in state `s`.
pub open spec fn designation<E: Environment>(s: EnvState<E>, p: Primitive) -> Construal {
    match p {
        Primitive::Symbol(sym) => match lookup_chain(s.spec_chain(), s.envs(), sym@) {
            Some(n) => Construal::Value(node_sexp(n)),
            None => Construal::Failure(LangError::UnboundSymbol(sym)),
        },
        Primitive::Node(n) => Construal::Value(node_meaning(s, n)),
        other => Construal::Value(Sexp::Primitive(other)),
    }
}

/// What construing `structure` in state `s` comes to: a primitive what it
/// designates; a form, by what its head construes to, the quoted argument
/// of `quote`.
pub open spec fn construal<E: Environment>(s: EnvState<E>, structure: Sexp) -> Construal
    decreases structure,
{
    match structure {
        Sexp::Primitive(p) => designation(s, p),
        Sexp::Cons(c) => match c.car {
            None => Construal::Failure(LangError::InvalidSexp(structure)),
            Some(a) => match construal(s, *a) {
                Construal::Value(Sexp::Primitive(Primitive::Node(n))) => if n == quote_node(
                    s.spec_context(),
                ) {
                    quote_construal(c.cdr)
                } else {
                    Construal::NeedsProcedures
                },
                Construal::Value(other) => Construal::NotAForm(
                    Sexp::Cons(Cons { car: Some(Box::new(other)), cdr: c.cdr }),
                ),
                other => other,
            },
        },
    }
}

/// Whether `res` is what construal `k` comes to.
pub open spec fn construed_as(k: Construal, res: Result<Sexp, LangError>) -> bool {
    match k {
        Construal::Value(v) => res == Ok::<Sexp, LangError>(v),
        Construal::Failure(e) => res == Err::<Sexp, LangError>(e),
        Construal::NotAForm(given) => res matches Err(LangError::InvalidArgument { given: g, expected })
            && g == given && expected@ == "special form or Procedure application"@,
        Construal::NeedsProcedures => res matches Err(e) && e is Unsupported,
    }
}

/// What construing `structure` in state `s` gives.
pub open spec fn construed<E: Environment>(
    s: EnvState<E>,
    structure: Sexp,
    res: Result<Sexp, LangError>,
) -> bool {
    construed_as(construal(s, structure), res)
}

/// Whether every node that construing `structure` designates can be read.
pub open spec fn construe_ready<E: Environment>(s: EnvState<E>, structure: Sexp) -> bool
    decreases structure,
{
    match structure {
        Sexp::Primitive(Primitive::Node(n)) => {
            &&& s.envs().contains_key(n.env.0)
            &&& s.envs()[n.env.0].model().valid_node(n.local)
            &&& spec_is_triple_id(n.local.0) ==> (s.has_current() && 0 <= slot(n.local.0)
                < s.current().model().triples.len())
        },
        Sexp::Primitive(_) => true,
        Sexp::Cons(c) => match c.car {
            Some(a) => construe_ready(s, *a),
            None => true,
        },
    }
}

/// The meaning of a structure: a primitive stands for what it designates; a
/// list is a form whose head is construed first and must be a node. A
/// quoted form gives its one argument as it stands. Forms headed by other
/// nodes are applications of procedures, which need an interpreter of
/// procedures and are reported unsupported here.
pub fn construe<E: Environment>(state: &mut EnvState<E>, structure: Sexp) -> (res: Result<
    Sexp,
    LangError,
>)
    requires
        old(state).wf(),
        old(state).chain_valid(),
        construe_ready(*old(state), structure),
    ensures
        *final(state) == *old(state),
        construed(*old(state), structure, res),
    decreases structure,
{
    let ghost s0 = *state;
    let ghost st = structure;
    let out = match structure {
        Sexp::Primitive(p) => state.designate(p),
        Sexp::Cons(c) => {
            let (car, cdr) = c.consume();
            match car {
                None => Err(LangError::InvalidSexp(Sexp::Cons(Cons::new(None, cdr)))),
                Some(a) => {
                    let head = construe(state, *a);
                    let out = match head {
                        Err(e) => Err(e),
                        Ok(Sexp::Primitive(Primitive::Node(n))) => {
                            let quote = Node::new(state.context().node.local, state.context().quote);
                            if n.env.id() == quote.env.id() && n.local.id() == quote.local.id() {
                                let args = match &cdr {
                                    Some(d) => list_elements(d),
                                    None => Vec::new(),
                                };
                                if args.len() == 1 {
                                    let mut args = args;
                                    Ok(args.remove(0))
                                } else {
                                    Err(
                                        LangError::WrongArgumentCount {
                                            given: args.len(),
                                            expected: ExpectedCount::Exactly(1),
                                        },
                                    )
                                }
                            } else {
                                Err(LangError::Unsupported(unsupported_message()))
                            }
                        },
                        Ok(other) => Err(
                            LangError::InvalidArgument {
                                given: Sexp::Cons(Cons::new(Some(Box::new(other)), cdr)),
                                expected: "special form or Procedure application".to_owned(),
                            },
                        ),
                    };
                    out
                },
            }
        },
    };
    assert(construed(s0, st, out));
    out
}

} // verus!
