//! Writing structures as text, the way environments are stored: symbols by
//! name, strings quoted, nodes by their designator or their id.

use vstd::prelude::*;

use crate::agent::env_state::{
    designation_local, first_triple, symbol_structure, EnvState, AMLANG_DESIGNATION,
};
use crate::env::environment::Environment;
use crate::agent::env_header::EnvHeader;
use crate::env::local_node::LocalNode;
use crate::env::mem_backend::index_id_conv::{is_triple_id, spec_is_triple_id, spec_triple_index, triple_bit};
use crate::primitive::{Node, Number, Primitive};
use crate::sexp::{clone_sexp, Cons, Sexp};
use crate::text::chars_of;

verus! {

broadcast use vstd::string::group_string_axioms;

/// The string holding the given characters.
///
/// Calls `String::from_iter` over the characters; the contract claims that
/// the string holds exactly those characters in order, as std documents
/// for collecting characters into a `String`.
#[verifier::external_body]
fn string_from_chars(chars: &Vec<char>) -> (res: String)
    ensures
        res@ == chars@,
{
    String::from_iter(chars.iter())
}

/// The character of a decimal digit.
pub open spec fn digit(d: nat) -> char {
    if d == 0 {
        '0'
    } else if d == 1 {
        '1'
    } else if d == 2 {
        '2'
    } else if d == 3 {
        '3'
    } else if d == 4 {
        '4'
    } else if d == 5 {
        '5'
    } else if d == 6 {
        '6'
    } else if d == 7 {
        '7'
    } else if d == 8 {
        '8'
    } else {
        '9'
    }
}

/// The decimal digits of `n`, without leading zeros.
pub open spec fn decimal(n: nat) -> Seq<char>
    decreases n,
{
    if n < 10 {
        seq![digit(n)]
    } else {
        decimal(n / 10).push(digit(n % 10))
    }
}

/// The decimal text of an integer, with a leading `-` when it is negative.
pub open spec fn integer_text(v: int) -> Seq<char> {
    if v < 0 {
        seq!['-'] + decimal((-v) as nat)
    } else {
        decimal(v as nat)
    }
}

/// `s` with a backslash before each double quote and each backslash.
pub open spec fn escaped(s: Seq<char>) -> Seq<char>
    decreases s.len(),
{
    if s.len() == 0 {
        Seq::empty()
    } else {
        let c = s.last();
        escaped(s.drop_last()) + if c == '"' || c == '\\' {
            seq!['\\', c]
        } else {
            seq![c]
        }
    }
}

fn digit_char(d: u64) -> (c: char)
    requires
        d < 10,
    ensures
        c == digit(d as nat),
{
    if d == 0 {
        '0'
    } else if d == 1 {
        '1'
    } else if d == 2 {
        '2'
    } else if d == 3 {
        '3'
    } else if d == 4 {
        '4'
    } else if d == 5 {
        '5'
    } else if d == 6 {
        '6'
    } else if d == 7 {
        '7'
    } else if d == 8 {
        '8'
    } else {
        '9'
    }
}

/// Appends the decimal digits of `n`.
pub fn push_decimal(out: &mut Vec<char>, n: u64)
    ensures
        final(out)@ == old(out)@ + decimal(n as nat),
    decreases n,
{
    if n >= 10 {
        push_decimal(out, n / 10);
    }
    let ghost before = out@;
    out.push(digit_char(n % 10));
    proof {
        if n >= 10 {
            assert(old(out)@ + decimal((n / 10) as nat) + seq![digit((n % 10) as nat)] =~= old(
                out,
            )@ + decimal(n as nat));
        } else {
            assert(old(out)@.push(digit(n as nat)) =~= old(out)@ + decimal(n as nat));
        }
    }
}

/// Appends the decimal text of `v`.
pub fn push_integer(out: &mut Vec<char>, v: i64)
    ensures
        final(out)@ == old(out)@ + integer_text(v as int),
{
    if v < 0 {
        out.push('-');
        let magnitude: u64 = if v == i64::MIN {
            9223372036854775808u64
        } else {
            (-v) as u64
        };
        push_decimal(out, magnitude);
        assert(old(out)@.push('-') + decimal(magnitude as nat) =~= old(out)@ + (seq!['-']
            + decimal((-v) as nat)));
    } else {
        push_decimal(out, v as u64);
    }
}

/// Appends the characters of `s`.
pub fn push_str(out: &mut Vec<char>, s: &str)
    ensures
        final(out)@ == old(out)@ + s@,
{
    let cs = chars_of(s);
    let mut i: usize = 0;
    while i < cs.len()
        invariant
            cs@ == s@,
            i <= cs@.len(),
            out@ == old(out)@ + cs@.take(i as int),
        decreases cs@.len() - i,
    {
        out.push(cs[i]);
        i = i + 1;
        assert(out@ =~= old(out)@ + cs@.take(i as int));
    }
    assert(cs@.take(cs@.len() as int) =~= cs@);
}

/// Appends `s` with its quotes and backslashes escaped.
pub fn push_escaped(out: &mut Vec<char>, s: &str)
    ensures
        final(out)@ == old(out)@ + escaped(s@),
{
    let cs = chars_of(s);
    let mut i: usize = 0;
    while i < cs.len()
        invariant
            cs@ == s@,
            i <= cs@.len(),
            out@ == old(out)@ + escaped(cs@.take(i as int)),
        decreases cs@.len() - i,
    {
        let c = cs[i];
        let ghost prefix = cs@.take(i as int);
        if c == '"' || c == '\\' {
            out.push('\\');
        }
        out.push(c);
        i = i + 1;
        proof {
            let t = cs@.take(i as int);
            assert(t.drop_last() =~= prefix);
            assert(t.last() == c);
            assert(out@ =~= old(out)@ + escaped(t));
        }
    }
    assert(cs@.take(cs@.len() as int) =~= cs@);
}

/// The name a node is designated by in state `s`, if any.
pub open spec fn designator_name<E: Environment>(s: EnvState<E>, n: Node) -> Option<Seq<char>> {
    if n.local == designation_local() {
        Some(AMLANG_DESIGNATION@)
    } else {
        let m = s.envs()[n.env.0].model();
        let ts = m.with_subject(n.local).intersect(m.with_predicate(designation_local()));
        if ts.is_empty() {
            None
        } else {
            match symbol_structure(m, m.object_of(first_triple(ts))) {
                Some(sym) => Some(sym@),
                None => None,
            }
        }
    }
}

/// Whether the designator of `n` can be looked up in state `s`: its
/// environment exists, and a designation of it names a symbol.
pub open spec fn node_ready<E: Environment>(s: EnvState<E>, n: Node) -> bool {
    n.local != designation_local() ==> {
        &&& s.envs().contains_key(n.env.0)
        &&& s.envs()[n.env.0].model().valid_node(n.local)
        &&& s.envs()[n.env.0].model().valid_node(designation_local())
        &&& {
            let m = s.envs()[n.env.0].model();
            let ts = m.with_subject(n.local).intersect(m.with_predicate(designation_local()));
            !ts.is_empty() ==> m.structure_of(m.object_of(first_triple(ts))) is Some
                && !spec_is_triple_id(m.object_of(first_triple(ts)).0)
        }
    }
}

/// The text of a node: its designator, or else `^` and its id (`^t` and
/// its index for a triple), after `^` and the id of its environment where
/// that is not the current one.
pub open spec fn node_chars<E: Environment>(s: EnvState<E>, n: Node) -> Seq<char> {
    match designator_name(s, n) {
        Some(name) => name,
        None => (if n.env != s.spec_env() {
            seq!['^'] + decimal(n.env.0 as nat)
        } else {
            Seq::empty()
        }) + if spec_is_triple_id(n.local.0) {
            seq!['^', 't'] + decimal(spec_triple_index(n.local.0) as nat)
        } else {
            seq!['^'] + decimal(n.local.0 as nat)
        },
    }
}

/// The text of a primitive; tables have none here.
pub open spec fn primitive_chars<E: Environment>(s: EnvState<E>, p: Primitive) -> Option<
    Seq<char>,
> {
    match p {
        Primitive::Number(Number::Integer(v)) => Some(integer_text(v as int)),
        Primitive::Number(Number::USize(u)) => Some(decimal(u as nat)),
        Primitive::Symbol(sym) => Some(sym@),
        Primitive::LangString(t) => Some(seq!['"'] + escaped(t@) + seq!['"']),
        Primitive::Path(t) => Some("(__path \""@ + t@ + "\")"@),
        Primitive::BuiltIn(b) => Some("(__builtin "@ + b.spec_name() + ")"@),
        Primitive::Node(n) => Some(node_chars(s, n)),
        Primitive::LocalNodeTable(_) => None,
        Primitive::SymNodeTable(_) => None,
    }
}

/// Appends the text of node `n`.
fn push_node<E: Environment>(state: &EnvState<E>, out: &mut Vec<char>, n: Node)
    requires
        state.wf(),
        node_ready(*state, n),
    ensures
        final(out)@ == old(out)@ + node_chars(*state, n),
{
    match state.node_designator(n) {
        Some(sym) => push_str(out, sym.as_str()),
        None => {
            let ghost o0 = out@;
            let current = state.pos().env;
            if n.env.id() != current.id() {
                out.push('^');
                push_decimal(out, n.env.id());
            }
            let ghost o1 = out@;
            let id = n.local.id();
            if is_triple_id(id) {
                out.push('^');
                out.push('t');
                push_decimal(out, id - 0x8000_0000_0000_0000u64);
            } else {
                out.push('^');
                push_decimal(out, id);
            }
            proof {
                let pre = if n.env != state.spec_env() {
                    seq!['^'] + decimal(n.env.0 as nat)
                } else {
                    Seq::<char>::empty()
                };
                assert(o1 =~= o0 + pre);
                let post = if spec_is_triple_id(n.local.0) {
                    seq!['^', 't'] + decimal(spec_triple_index(n.local.0) as nat)
                } else {
                    seq!['^'] + decimal(n.local.0 as nat)
                };
                assert(out@ =~= o1 + post);
                assert(out@ =~= o0 + (pre + post));
            }
        },
    }
}

/// Appends the text of primitive `p`; `false`, with `out` unchanged, for a
/// table.
fn push_primitive<E: Environment>(state: &EnvState<E>, out: &mut Vec<char>, p: &Primitive) -> (res:
    bool)
    requires
        state.wf(),
        *p matches Primitive::Node(n) ==> node_ready(*state, n),
    ensures
        res == primitive_chars(*state, *p) is Some,
        primitive_chars(*state, *p) matches Some(t) ==> final(out)@ == old(out)@ + t,
        primitive_chars(*state, *p) is None ==> final(out)@ == old(out)@,
{
    let ghost o0 = out@;
    match p {
        Primitive::Number(Number::Integer(v)) => push_integer(out, *v),
        Primitive::Number(Number::USize(u)) => push_decimal(out, *u as u64),
        Primitive::Symbol(sym) => push_str(out, sym.as_str()),
        Primitive::LangString(t) => {
            out.push('"');
            push_escaped(out, t.as_str());
            out.push('"');
            assert(out@ =~= o0 + (seq!['"'] + escaped(t@) + seq!['"']));
        },
        Primitive::Path(t) => {
            let ghost lead = "(__path \""@;
            let ghost tail = "\")"@;
            push_str(out, "(__path \"");
            push_str(out, t.as_str());
            push_str(out, "\")");
            assert(out@ =~= o0 + (lead + t@ + tail));
        },
        Primitive::BuiltIn(b) => {
            let ghost lead = "(__builtin "@;
            let ghost tail = ")"@;
            push_str(out, "(__builtin ");
            push_str(out, b.name());
            push_str(out, ")");
            assert(out@ =~= o0 + (lead + b.spec_name() + tail));
        },
        Primitive::Node(n) => push_node(state, out, *n),
        Primitive::LocalNodeTable(_) => {
            return false;
        },
        Primitive::SymNodeTable(_) => {
            return false;
        },
    }
    true
}

/// The text of primitive `p` in state `state`: numbers in decimal, symbols
/// by name, strings quoted with their quotes and backslashes escaped,
/// paths as `(__path "...")`, built-ins as `(__builtin name)`, and nodes
/// by their designator or their id. A table has no text here: `None`.
pub fn primitive_text<E: Environment>(state: &EnvState<E>, p: &Primitive) -> (res: Option<
    String,
>)
    requires
        state.wf(),
        *p matches Primitive::Node(n) ==> node_ready(*state, n),
    ensures
        res is Some == primitive_chars(*state, *p) is Some,
        res matches Some(t) ==> primitive_chars(*state, *p) == Some(t@),
{
    let mut out: Vec<char> = Vec::new();
    if push_primitive(state, &mut out, p) {
        assert(Seq::<char>::empty() + out@ =~= out@);
        Some(string_from_chars(&out))
    } else {
        None
    }
}

/// The text of a structure: a primitive by its text, a list between
/// parentheses with its elements separated by spaces, and an improper tail
/// after ` . `; `None` where a table occurs.
pub open spec fn sexp_chars<E: Environment>(s: EnvState<E>, x: Sexp) -> Option<Seq<char>>
    decreases x,
{
    match x {
        Sexp::Primitive(p) => primitive_chars(s, p),
        Sexp::Cons(c) => match cons_chars(s, c) {
            Some(b) => Some(seq!['('] + b + seq![')']),
            None => None,
        },
    }
}

/// The text of the elements of a list, without its parentheses.
pub open spec fn cons_chars<E: Environment>(s: EnvState<E>, c: Cons) -> Option<Seq<char>>
    decreases c,
{
    match c.car {
        None => Some(Seq::empty()),
        Some(a) => match sexp_chars(s, *a) {
            None => None,
            Some(t) => match c.cdr {
                None => Some(t),
                Some(d) => match *d {
                    Sexp::Cons(dc) => match cons_chars(s, dc) {
                        Some(r) => Some(
                            if dc.car is None {
                                t
                            } else {
                                t + seq![' '] + r
                            },
                        ),
                        None => None,
                    },
                    Sexp::Primitive(p) => match primitive_chars(s, p) {
                        Some(r) => Some(t + seq![' ', '.', ' '] + r),
                        None => None,
                    },
                },
            },
        },
    }
}

/// Whether the designators of all nodes in `x` can be looked up.
pub open spec fn sexp_ready<E: Environment>(s: EnvState<E>, x: Sexp) -> bool
    decreases x,
{
    match x {
        Sexp::Primitive(Primitive::Node(n)) => node_ready(s, n),
        Sexp::Primitive(_) => true,
        Sexp::Cons(c) => (c.car matches Some(a) ==> sexp_ready(s, *a)) && (c.cdr matches Some(d)
            ==> sexp_ready(s, *d)),
    }
}

/// Appends the text of `x`; `false` where a table occurs.
fn push_sexp<E: Environment>(state: &EnvState<E>, out: &mut Vec<char>, x: &Sexp) -> (res: bool)
    requires
        state.wf(),
        sexp_ready(*state, *x),
    ensures
        res == sexp_chars(*state, *x) is Some,
        sexp_chars(*state, *x) matches Some(t) ==> final(out)@ == old(out)@ + t,
    decreases x, 1int,
{
    match x {
        Sexp::Primitive(p) => push_primitive(state, out, p),
        Sexp::Cons(c) => {
            out.push('(');
            let ghost o1 = out@;
            if !push_cons(state, out, c) {
                return false;
            }
            let ghost o2 = out@;
            out.push(')');
            proof {
                let b = cons_chars(*state, *c)->Some_0;
                assert(o2 == o1 + b);
                assert(out@ =~= old(out)@ + (seq!['('] + b + seq![')']));
            }
            true
        },
    }
}

/// Appends the text of the elements of the list `c`; `false` where a table
/// occurs.
fn push_cons<E: Environment>(state: &EnvState<E>, out: &mut Vec<char>, c: &Cons) -> (res: bool)
    requires
        state.wf(),
        sexp_ready(*state, Sexp::Cons(*c)),
    ensures
        res == cons_chars(*state, *c) is Some,
        cons_chars(*state, *c) matches Some(t) ==> final(out)@ == old(out)@ + t,
    decreases c, 0int,
{
    let ghost s0 = *state;
    match &c.car {
        None => {
            assert(old(out)@ + Seq::<char>::empty() =~= old(out)@);
            true
        },
        Some(a) => {
            if !push_sexp(state, out, a) {
                return false;
            }
            let ghost o1 = out@;
            let ghost t = sexp_chars(s0, **a)->Some_0;
            match &c.cdr {
                None => true,
                Some(d) => match &**d {
                    Sexp::Cons(dc) => {
                        if dc.car.is_none() {
                            true
                        } else {
                            out.push(' ');
                            let ok = push_cons(state, out, dc);
                            proof {
                                if ok {
                                    let r = cons_chars(s0, *dc)->Some_0;
                                    assert(out@ =~= old(out)@ + (t + seq![' '] + r));
                                }
                            }
                            ok
                        }
                    },
                    Sexp::Primitive(p) => {
                        assert(sexp_ready(s0, **d));
                        assert(sexp_ready(s0, Sexp::Primitive(*p)));
                        out.push(' ');
                        out.push('.');
                        out.push(' ');
                        let ok = push_primitive(state, out, p);
                        proof {
                            if ok {
                                let r = primitive_chars(s0, *p)->Some_0;
                                assert(out@ =~= old(out)@ + (t + seq![' ', '.', ' '] + r));
                            }
                        }
                        ok
                    },
                },
            }
        },
    }
}

/// The text of structure `x` in state `state`, as `sexp_chars` gives it;
/// `None` where a table occurs in it.
pub fn sexp_text<E: Environment>(state: &EnvState<E>, x: &Sexp) -> (res: Option<String>)
    requires
        state.wf(),
        sexp_ready(*state, *x),
    ensures
        res is Some == sexp_chars(*state, *x) is Some,
        res matches Some(t) ==> sexp_chars(*state, *x) == Some(t@),
{
    let mut out: Vec<char> = Vec::new();
    if push_sexp(state, &mut out, x) {
        assert(Seq::<char>::empty() + out@ =~= out@);
        Some(string_from_chars(&out))
    } else {
        None
    }
}

/// Whether a stored structure is written as it stands; any other is
/// written quoted.
pub open spec fn written_bare(x: Sexp) -> bool {
    match x {
        Sexp::Primitive(Primitive::SymNodeTable(_)) => true,
        Sexp::Primitive(Primitive::LocalNodeTable(_)) => true,
        Sexp::Primitive(Primitive::BuiltIn(_)) => true,
        Sexp::Primitive(Primitive::Node(_)) => true,
        Sexp::Primitive(Primitive::Path(_)) => true,
        Sexp::Primitive(Primitive::LangString(_)) => true,
        _ => false,
    }
}

/// The node `i` of the current environment of `s`.
pub open spec fn current_node<E: Environment>(s: EnvState<E>, i: int) -> Node {
    Node { env: s.spec_env(), local: LocalNode(i as u64) }
}

/// The line of the node section for node `i`: the node and its structure
/// (quoted where it is not written bare) between parentheses, or, for an
/// atom and for the designation node, whose table is rebuilt on reading,
/// the node alone after a space.
pub open spec fn node_line<E: Environment>(s: EnvState<E>, i: int) -> Option<Seq<char>> {
    let nt = node_chars(s, current_node(s, i));
    match s.current().model().nodes[i] {
        Some(x) => if i == 1 {
            Some(seq![' '] + nt + seq!['\n'])
        } else {
            match sexp_chars(s, x) {
                Some(b) => Some(
                    seq!['('] + nt + seq![' '] + (if written_bare(x) {
                        b
                    } else {
                        "(quote "@ + b + seq![')']
                    }) + seq![')', '\n'],
                ),
                None => None,
            }
        },
        None => Some(seq![' '] + nt + seq!['\n']),
    }
}

/// The lines of the first `k` nodes of the current environment.
pub open spec fn node_lines<E: Environment>(s: EnvState<E>, k: int) -> Option<Seq<char>>
    decreases k,
{
    if k <= 0 {
        Some(Seq::empty())
    } else {
        match (node_lines(s, k - 1), node_line(s, k - 1)) {
            (Some(a), Some(b)) => Some(a + b),
            _ => None,
        }
    }
}

/// The line of the triple section for triple `j`: its three nodes between
/// parentheses.
pub open spec fn triple_line<E: Environment>(s: EnvState<E>, j: int) -> Seq<char> {
    let t = s.current().model().triples[j];
    let g = |l: LocalNode| node_chars(s, Node { env: s.spec_env(), local: l });
    seq!['('] + g(t.0) + seq![' '] + g(t.1) + seq![' '] + g(t.2) + seq![')', '\n']
}

/// The lines of the first `k` triples of the current environment.
pub open spec fn triple_lines<E: Environment>(s: EnvState<E>, k: int) -> Seq<char>
    decreases k,
{
    if k <= 0 {
        Seq::empty()
    } else {
        triple_lines(s, k - 1) + triple_line(s, k - 1)
    }
}

/// The header line of an environment with `nodes` nodes and `triples`
/// triples.
pub open spec fn header_line(nodes: nat, triples: nat) -> Seq<char> {
    "(header (version \"0.0.3\") (node-count "@ + decimal(nodes) + ") (triple-count "@ + decimal(
        triples,
    ) + "))\n"@
}

/// The text that stores the current environment of `s`: its header, the
/// node section and the triple section, each followed by an empty line;
/// `None` where a structure holds a table.
pub open spec fn env_text_spec<E: Environment>(s: EnvState<E>) -> Option<Seq<char>> {
    let m = s.current().model();
    match node_lines(s, m.nodes.len() as int) {
        Some(nodes) => Some(
            header_line(m.nodes.len(), m.triples.len()) + "\n(section nodes)\n"@ + nodes
                + "\n(section triples)\n"@ + triple_lines(s, m.triples.len() as int) + "\n"@,
        ),
        None => None,
    }
}

/// Whether every node and structure of the current environment of `s` can
/// be written: their designators can be looked up.
pub open spec fn env_ready<E: Environment>(s: EnvState<E>) -> bool {
    let m = s.current().model();
    &&& s.wf()
    &&& s.has_current()
    &&& m.nodes.len() < triple_bit()
    &&& forall|i: int| 0 <= i < m.nodes.len() ==> node_ready(s, #[trigger] current_node(s, i))
    &&& forall|i: int| 0 <= i < m.nodes.len() ==> (#[trigger] m.nodes[i] matches Some(x)
        ==> sexp_ready(s, x))
    &&& forall|j: int|
        0 <= j < m.triples.len() ==> {
            let t = #[trigger] m.triples[j];
            &&& node_ready(s, Node { env: s.spec_env(), local: t.0 })
            &&& node_ready(s, Node { env: s.spec_env(), local: t.1 })
            &&& node_ready(s, Node { env: s.spec_env(), local: t.2 })
        }
}

/// Once the lines of the first `k` nodes have no text, no longer prefix
/// has one.
pub proof fn lemma_node_lines_none<E: Environment>(s: EnvState<E>, k: int, n: int)
    requires
        0 <= k <= n,
        node_lines(s, k) is None,
    ensures
        node_lines(s, n) is None,
    decreases n - k,
{
    if k < n {
        lemma_node_lines_none(s, k + 1, n);
    }
}

/// Whether a structure is written as it stands.
fn is_bare(x: &Sexp) -> (res: bool)
    ensures
        res == written_bare(*x),
{
    match x {
        Sexp::Primitive(Primitive::SymNodeTable(_)) => true,
        Sexp::Primitive(Primitive::LocalNodeTable(_)) => true,
        Sexp::Primitive(Primitive::BuiltIn(_)) => true,
        Sexp::Primitive(Primitive::Node(_)) => true,
        Sexp::Primitive(Primitive::Path(_)) => true,
        Sexp::Primitive(Primitive::LangString(_)) => true,
        _ => false,
    }
}

/// Appends the line of triple `j` of the current environment.
fn push_triple_line<E: Environment>(state: &EnvState<E>, out: &mut Vec<char>, j: usize)
    requires
        env_ready(*state),
        j < state.current().model().triples.len(),
        state.current().model().triples.len() <= triple_bit(),
    ensures
        final(out)@ == old(out)@ + triple_line(*state, j as int),
{
    let ghost m = state.current().model();
    let env_id = state.pos().env;
    let (sj, pj, oj) = {
        let current = state.current_env();
        let t = current.triple_from_index(j);
        proof {
            crate::env::mem_env::lemma_triple_at(j as int);
        }
        (current.triple_subject(t), current.triple_predicate(t), current.triple_object(t))
    };
    let ghost tr = m.triples[j as int];
    assert(sj == tr.0 && pj == tr.1 && oj == tr.2);
    out.push('(');
    push_node(state, out, Node::new(env_id, sj));
    out.push(' ');
    push_node(state, out, Node::new(env_id, pj));
    out.push(' ');
    push_node(state, out, Node::new(env_id, oj));
    out.push(')');
    out.push('\n');
    assert(out@ =~= old(out)@ + triple_line(*state, j as int));
}

/// The text that stores the current environment: its header, then the node
/// section, one line per node, then the triple section, one line per
/// triple; `None` where a structure holds a table.
pub fn env_text<E: Environment>(state: &EnvState<E>) -> (res: Option<String>)
    requires
        env_ready(*state),
    ensures
        res is Some == env_text_spec(*state) is Some,
        res matches Some(t) ==> env_text_spec(*state) == Some(t@),
{
    let ghost s0 = *state;
    let ghost m = s0.current().model();
    let header = EnvHeader::from_env(state.current_env());
    let nc = header.node_count();
    let tc = header.triple_count();
    let env_id = state.pos().env;
    proof {
        s0.lemma_env_wf(s0.spec_env().0);
        s0.current().lemma_wf_bounds();
    }
    let mut out: Vec<char> = Vec::new();
    push_str(&mut out, "(header (version \"0.0.3\") (node-count ");
    push_decimal(&mut out, nc as u64);
    push_str(&mut out, ") (triple-count ");
    push_decimal(&mut out, tc as u64);
    push_str(&mut out, "))\n");
    push_str(&mut out, "\n(section nodes)\n");
    let ghost head = out@;
    assert(head =~= header_line(m.nodes.len(), m.triples.len()) + "\n(section nodes)\n"@);
    assert(head + Seq::<char>::empty() =~= head);
    let mut i: usize = 0;
    while i < nc
        invariant
            *state == s0,
            env_ready(s0),
            m == s0.current().model(),
            env_id == s0.spec_env(),
            nc == m.nodes.len(),
            i <= nc,
            node_lines(s0, i as int) matches Some(a) && out@ == head + a,
        decreases nc - i,
    {
        let ghost before = out@;
        let node = Node::new(env_id, LocalNode(i as u64));
        assert(node == current_node(s0, i as int));
        let structure: Option<Sexp> = {
            let current = state.current_env();
            match current.entry(LocalNode(i as u64)).as_option() {
                Some(x) => Some(clone_sexp(x)),
                None => None,
            }
        };
        assert(structure == m.nodes[i as int]);
        let ghost nt = node_chars(s0, node);
        if i == 1 || structure.is_none() {
            out.push(' ');
            push_node(state, &mut out, node);
            out.push('\n');
            assert(out@ =~= before + (seq![' '] + nt + seq!['\n']));
        } else {
            let x = match structure {
                Some(x) => x,
                None => vstd::pervasive::unreached(),
            };
            out.push('(');
            push_node(state, &mut out, node);
            out.push(' ');
            let ghost o1 = out@;
            let bare = is_bare(&x);
            if !bare {
                push_str(&mut out, "(quote ");
            }
            let ghost o2 = out@;
            if !push_sexp(state, &mut out, &x) {
                proof {
                    assert(node_line(s0, i as int) is None);
                    lemma_node_lines_none(s0, i + 1, nc as int);
                }
                return None;
            }
            let ghost b = sexp_chars(s0, x)->Some_0;
            if !bare {
                out.push(')');
            }
            out.push(')');
            out.push('\n');
            proof {
                let body = if written_bare(x) {
                    b
                } else {
                    "(quote "@ + b + seq![')']
                };
                assert(o1 =~= before + (seq!['('] + nt + seq![' ']));
                assert(out@ =~= before + (seq!['('] + nt + seq![' '] + body + seq![')', '\n']));
            }
        }
        proof {
            let a = node_lines(s0, i as int)->Some_0;
            assert(node_lines(s0, i + 1) == Some(a + node_line(s0, i as int)->Some_0));
            assert(out@ =~= head + (a + node_line(s0, i as int)->Some_0));
        }
        i = i + 1;
    }
    let ghost nodes = node_lines(s0, nc as int)->Some_0;
    push_str(&mut out, "\n(section triples)\n");
    let ghost mid = out@;
    assert(mid =~= head + nodes + "\n(section triples)\n"@);
    assert(mid + triple_lines(s0, 0) =~= mid);
    let mut j: usize = 0;
    while j < tc
        invariant
            *state == s0,
            env_ready(s0),
            m == s0.current().model(),
            env_id == s0.spec_env(),
            tc == m.triples.len(),
            tc <= triple_bit(),
            j <= tc,
            out@ == mid + triple_lines(s0, j as int),
        decreases tc - j,
    {
        push_triple_line(state, &mut out, j);
        j = j + 1;
        assert(out@ =~= mid + triple_lines(s0, j as int));
    }
    push_str(&mut out, "\n");
    assert(out@ =~= header_line(m.nodes.len(), m.triples.len()) + "\n(section nodes)\n"@ + nodes
        + "\n(section triples)\n"@ + triple_lines(s0, m.triples.len() as int) + "\n"@);
    assert(Seq::<char>::empty() + out@ =~= out@);
    Some(string_from_chars(&out))
}


/// How a stored structure stands in its node line: tables, built-ins,
/// nodes, paths and strings, which are read back by their own forms, as
/// they are; any other structure inside `(quote ...)`. The designation node
/// and atoms are written as the node alone.
pub proof fn lemma_node_line_quoting<E: Environment>(s: EnvState<E>, i: int, x: Sexp, b: Seq<char>)
    requires
        0 <= i < s.current().model().nodes.len(),
        i != 1,
        s.current().model().nodes[i] == Some(x),
        sexp_chars(s, x) == Some(b),
    ensures
        node_line(s, i) == Some(
            seq!['('] + node_chars(s, current_node(s, i)) + seq![' '] + (if x matches Sexp::Primitive(p)
                && (p is SymNodeTable || p is LocalNodeTable || p is BuiltIn || p is Node
                || p is Path || p is LangString) {
                b
            } else {
                "(quote "@ + b + seq![')']
            }) + seq![')', '\n'],
        ),
{
}

/// A node holding a path is written with the path's own text, unquoted.
pub proof fn lemma_path_line<E: Environment>(s: EnvState<E>, i: int, t: String)
    requires
        0 <= i < s.current().model().nodes.len(),
        i != 1,
        s.current().model().nodes[i] == Some(Sexp::Primitive(Primitive::Path(t))),
    ensures
        node_line(s, i) == Some(
            seq!['('] + node_chars(s, current_node(s, i)) + seq![' '] + "(__path \""@ + t@
                + "\")"@ + seq![')', '\n'],
        ),
{
}

} // verus!
