//! Built-in procedures: the arithmetic ones, and the table that names them
//! all.

use vstd::prelude::*;

use crate::agent::lang_error::{ExpectedCount, LangError};
use crate::old_environment::Environment;
use crate::primitive::{Number, Primitive};
use crate::sexp::{clone_sexp, Sexp};

verus! {

broadcast use vstd::string::group_string_axioms;

/// The operation of a built-in procedure.
#[derive(Clone, Copy, Debug, PartialEq, Eq, Structural)]
pub enum BuiltInFn {
    Add,
    Sub,
    Mul,
    Div,
    Car,
    Cdr,
    Cons,
    ListLen,
    Println,
    Eq,
    Curr,
    Jump,
    EnvFind,
    EnvJump,
}

/// Whether the operation is arithmetic on integers.
pub open spec fn is_arith(op: BuiltInFn) -> bool {
    op == BuiltInFn::Add || op == BuiltInFn::Sub || op == BuiltInFn::Mul || op == BuiltInFn::Div
}

/// A procedure of the language that is implemented natively.
#[derive(Clone, Copy, Debug, PartialEq, Eq)]
pub struct BuiltIn {
    name: &'static str,
    fun: BuiltInFn,
}

/// The integer a structure holds, if it is an integer.
pub open spec fn integer_of(s: Sexp) -> Option<i64> {
    match s {
        Sexp::Primitive(Primitive::Number(Number::Integer(v))) => Some(v),
        _ => None,
    }
}

/// The integers held by structures that are all integers.
pub open spec fn integers_of(args: Seq<Sexp>) -> Seq<i64> {
    args.map_values(|s: Sexp| integer_of(s)->0)
}

/// Whether the first `k` arguments are all integers.
pub open spec fn numbers_before(args: Seq<Sexp>, k: int) -> bool {
    forall|j: int| 0 <= j < k ==> (#[trigger] integer_of(args[j])) is Some
}

/// One step of an operation; None where it overflows or divides by zero.
pub open spec fn step(op: BuiltInFn, acc: i64, v: i64) -> Option<i64> {
    match op {
        BuiltInFn::Add => acc.checked_add(v),
        BuiltInFn::Sub => acc.checked_sub(v),
        BuiltInFn::Mul => acc.checked_mul(v),
        BuiltInFn::Div => acc.checked_div(v),
        _ => None,
    }
}

/// The operation applied from left to right, starting from `init`; None
/// where some step overflows or divides by zero.
pub open spec fn fold(op: BuiltInFn, init: i64, vals: Seq<i64>) -> Option<i64>
    decreases vals.len(),
{
    if vals.len() == 0 {
        Some(init)
    } else {
        match fold(op, init, vals.drop_last()) {
            Some(acc) => step(op, acc, vals.last()),
            None => None,
        }
    }
}

/// Whether the operation may start from a fixed value (sum and product), or
/// starts from the first argument (difference and quotient).
pub open spec fn has_identity(op: BuiltInFn) -> bool {
    op == BuiltInFn::Add || op == BuiltInFn::Mul
}

pub open spec fn identity(op: BuiltInFn) -> i64 {
    if op == BuiltInFn::Mul {
        1
    } else {
        0
    }
}

/// The result of the operation on integer arguments.
pub open spec fn fold_args(op: BuiltInFn, vals: Seq<i64>) -> Option<i64> {
    if has_identity(op) {
        fold(op, identity(op), vals)
    } else {
        fold(op, vals[0], vals.drop_first())
    }
}

/// Whether applying the operation to the leading integers never overflows
/// or divides by zero, however many of them there are.
pub open spec fn computable(op: BuiltInFn, args: Seq<Sexp>) -> bool {
    forall|k: int|
        #![trigger integers_of(args.take(k))]
        (if has_identity(op) {
            0int
        } else {
            1int
        }) <= k <= args.len() && numbers_before(args, k) ==> fold_args(
            op,
            integers_of(args.take(k)),
        ) is Some
}

/// A prefix of a computable fold is computable.
pub proof fn lemma_fold_prefix(op: BuiltInFn, init: i64, vals: Seq<i64>, j: int)
    requires
        fold(op, init, vals) is Some,
        0 <= j <= vals.len(),
    ensures
        fold(op, init, vals.take(j)) is Some,
    decreases vals.len() - j,
{
    if j < vals.len() {
        lemma_fold_prefix(op, init, vals, j + 1);
        assert(vals.take(j + 1).drop_last() =~= vals.take(j));
    } else {
        assert(vals.take(j) =~= vals);
    }
}

/// The expected outcome of a built-in applied to `args`.
pub open spec fn outcome_matches(op: BuiltInFn, args: Seq<Sexp>, res: Result<Sexp, LangError>) -> bool {
    if !has_identity(op) && args.len() == 0 {
        res == Err::<Sexp, LangError>(
            LangError::WrongArgumentCount { given: 0, expected: ExpectedCount::AtLeast(1) },
        )
    } else if numbers_before(args, args.len() as int) {
        res == Ok::<Sexp, LangError>(
            Sexp::Primitive(
                Primitive::Number(Number::Integer(fold_args(op, integers_of(args))->0)),
            ),
        )
    } else {
        let k = choose|k: int|
            0 <= k < args.len() && numbers_before(args, k) && (#[trigger] integer_of(args[k])) is None;
        res matches Err(LangError::InvalidArgument { given, expected }) && given == args[k]
            && expected@ == "a Number"@
    }
}

/// The first argument that is not an integer is the only one before which
/// all are integers.
proof fn lemma_first_non_number(args: Seq<Sexp>, i: int)
    requires
        0 <= i < args.len(),
        numbers_before(args, i),
        integer_of(args[i]) is None,
    ensures
        (choose|k: int|
            0 <= k < args.len() && numbers_before(args, k) && (#[trigger] integer_of(args[k])) is None)
            == i,
{
    let k = choose|k: int|
        0 <= k < args.len() && numbers_before(args, k) && (#[trigger] integer_of(args[k])) is None;
    assert(0 <= i < args.len() && numbers_before(args, i) && integer_of(args[i]) is None);
    if k < i {
        assert(integer_of(args[k]) is Some);
    } else if k > i {
        assert(integer_of(args[i]) is Some);
    }
}

/// Applies an operation to the arguments from left to right.
fn apply_op(op: BuiltInFn, args: &[Sexp]) -> (res: Result<Sexp, LangError>)
    requires
        is_arith(op),
        computable(op, args@),
    ensures
        outcome_matches(op, args@, res),
{
    let n = args.len();
    let start: usize;
    let mut curr: i64;
    if op == BuiltInFn::Add || op == BuiltInFn::Mul {
        start = 0;
        curr = if op == BuiltInFn::Mul { 1 } else { 0 };
    } else {
        if n < 1 {
            return Err(
                LangError::WrongArgumentCount { given: 0, expected: ExpectedCount::AtLeast(1) },
            );
        }
        match &args[0] {
            Sexp::Primitive(Primitive::Number(Number::Integer(v))) => {
                curr = *v;
            },
            _ => {
                proof {
                    lemma_first_non_number(args@, 0);
                }
                return Err(
                    LangError::InvalidArgument {
                        given: clone_sexp(&args[0]),
                        expected: "a Number".to_owned(),
                    },
                );
            },
        }
        start = 1;
    }
    let ghost init = curr;
    let mut i: usize = start;
    while i < n
        invariant
            n == args@.len(),
            start <= i <= n,
            start == (if has_identity(op) { 0usize } else { 1usize }),
            computable(op, args@),
            numbers_before(args@, i as int),
            has_identity(op) ==> init == identity(op),
            !has_identity(op) ==> n >= 1 && integer_of(args@[0]) == Some(init),
            fold(op, init, integers_of(args@.take(i as int)).skip(start as int)) == Some(curr),
        decreases n - i,
    {
        let ghost prefix = integers_of(args@.take(i as int)).skip(start as int);
        let ghost next = integers_of(args@.take(i + 1)).skip(start as int);
        match &args[i] {
            Sexp::Primitive(Primitive::Number(Number::Integer(v))) => {
                proof {
                    assert(numbers_before(args@, i + 1));
                    assert(next.drop_last() =~= prefix);
                    assert(next.last() == *v);
                    let all = integers_of(args@.take(i + 1));
                    assert(fold_args(op, all) is Some);
                    if has_identity(op) {
                        assert(all.skip(0) =~= all);
                    } else {
                        assert(all.drop_first() =~= all.skip(1));
                        assert(all[0] == init);
                    }
                    assert(fold(op, init, next) is Some);
                }
                let r = match op {
                    BuiltInFn::Add => curr.checked_add(*v),
                    BuiltInFn::Sub => curr.checked_sub(*v),
                    BuiltInFn::Mul => curr.checked_mul(*v),
                    BuiltInFn::Div => curr.checked_div(*v),
                    _ => None,
                };
                match r {
                    Some(x) => {
                        curr = x;
                    },
                    None => {
                        return vstd::pervasive::unreached();
                    },
                }
            },
            _ => {
                proof {
                    lemma_first_non_number(args@, i as int);
                    if !has_identity(op) {
                        assert(n != 0);
                    }
                }
                return Err(
                    LangError::InvalidArgument {
                        given: clone_sexp(&args[i]),
                        expected: "a Number".to_owned(),
                    },
                );
            },
        }
        i = i + 1;
    }
    proof {
        let all = integers_of(args@);
        assert(args@.take(n as int) =~= args@);
        if has_identity(op) {
            assert(all.skip(0) =~= all);
        } else {
            assert(all.drop_first() =~= all.skip(1));
        }
    }
    Ok(Sexp::Primitive(Primitive::Number(Number::Integer(curr))))
}

/// Sum of the arguments (zero for none).
pub fn add(args: &[Sexp]) -> (res: Result<Sexp, LangError>)
    requires
        computable(BuiltInFn::Add, args@),
    ensures
        outcome_matches(BuiltInFn::Add, args@, res),
{
    apply_op(BuiltInFn::Add, args)
}

/// The first argument minus the others.
pub fn sub(args: &[Sexp]) -> (res: Result<Sexp, LangError>)
    requires
        computable(BuiltInFn::Sub, args@),
    ensures
        outcome_matches(BuiltInFn::Sub, args@, res),
{
    apply_op(BuiltInFn::Sub, args)
}

/// Product of the arguments (one for none).
pub fn mul(args: &[Sexp]) -> (res: Result<Sexp, LangError>)
    requires
        computable(BuiltInFn::Mul, args@),
    ensures
        outcome_matches(BuiltInFn::Mul, args@, res),
{
    apply_op(BuiltInFn::Mul, args)
}

/// The first argument divided by each of the others in turn, rounding
/// toward zero.
pub fn div(args: &[Sexp]) -> (res: Result<Sexp, LangError>)
    requires
        computable(BuiltInFn::Div, args@),
    ensures
        outcome_matches(BuiltInFn::Div, args@, res),
{
    apply_op(BuiltInFn::Div, args)
}

impl BuiltIn {
    pub closed spec fn spec_fun(&self) -> BuiltInFn {
        self.fun
    }

    pub closed spec fn spec_name(&self) -> Seq<char> {
        self.name@
    }

    pub fn new(name: &'static str, fun: BuiltInFn) -> (res: BuiltIn)
        ensures
            res.spec_name() == name@,
            res.spec_fun() == fun,
    {
        BuiltIn { name, fun }
    }

    pub fn name(&self) -> (res: &'static str)
        ensures
            res@ == self.spec_name(),
    {
        self.name
    }

    /// The operation the procedure applies.
    pub fn fun(&self) -> (res: BuiltInFn)
        ensures
            res == self.spec_fun(),
    {
        self.fun
    }

    /// Applies an arithmetic procedure to the arguments.
    pub fn call(&self, args: &[Sexp]) -> (res: Result<Sexp, LangError>)
        requires
            is_arith(self.spec_fun()),
            computable(self.spec_fun(), args@),
        ensures
            outcome_matches(self.spec_fun(), args@, res),
    {
        apply_op(self.fun, args)
    }
}

/// The operation that an operator symbol of the language names, if any.
pub open spec fn operator_named(name: Seq<char>) -> Option<BuiltInFn> {
    if name == "+"@ {
        Some(BuiltInFn::Add)
    } else if name == "-"@ {
        Some(BuiltInFn::Sub)
    } else if name == "*"@ {
        Some(BuiltInFn::Mul)
    } else if name == "/"@ {
        Some(BuiltInFn::Div)
    } else {
        None
    }
}

/// The built-in procedures, by the names the language knows them by.
pub fn builtins() -> (res: Environment<BuiltIn>)
    ensures
        res.wf(),
        res.map@.len() == 4,
        res.map@[0].0@ == "+"@ && res.map@[0].1 == spec_builtin(BuiltInFn::Add),
        res.map@[1].0@ == "-"@ && res.map@[1].1 == spec_builtin(BuiltInFn::Sub),
        res.map@[2].0@ == "*"@ && res.map@[2].1 == spec_builtin(BuiltInFn::Mul),
        res.map@[3].0@ == "/"@ && res.map@[3].1 == spec_builtin(BuiltInFn::Div),
        forall|i: int| 0 <= i < 4 ==> operator_named(#[trigger] res.map@[i].0@) == Some(
            res.map@[i].1.spec_fun(),
        ),
{
    let mut m: Vec<(String, BuiltIn)> = Vec::new();
    m.push(("+".to_owned(), BuiltIn { name: "add", fun: BuiltInFn::Add }));
    m.push(("-".to_owned(), BuiltIn { name: "sub", fun: BuiltInFn::Sub }));
    m.push(("*".to_owned(), BuiltIn { name: "mul", fun: BuiltInFn::Mul }));
    m.push(("/".to_owned(), BuiltIn { name: "div", fun: BuiltInFn::Div }));
    proof {
        reveal_strlit("+");
        reveal_strlit("-");
        reveal_strlit("*");
        reveal_strlit("/");
        assert("+"@[0] != "-"@[0]);
        assert("+"@[0] != "*"@[0]);
        assert("+"@[0] != "/"@[0]);
        assert("-"@[0] != "*"@[0]);
        assert("-"@[0] != "/"@[0]);
        assert("*"@[0] != "/"@[0]);
    }
    Environment::new(m)
}

/// The name of the built-in procedure that applies `f`.
pub open spec fn builtin_name(f: BuiltInFn) -> Seq<char> {
    match f {
        BuiltInFn::Add => "add"@,
        BuiltInFn::Sub => "sub"@,
        BuiltInFn::Mul => "mul"@,
        BuiltInFn::Div => "div"@,
        BuiltInFn::Car => "car"@,
        BuiltInFn::Cdr => "cdr"@,
        BuiltInFn::Cons => "cons"@,
        BuiltInFn::ListLen => "list_len"@,
        BuiltInFn::Println => "println"@,
        BuiltInFn::Eq => "eq"@,
        BuiltInFn::Curr => "curr"@,
        BuiltInFn::Jump => "jump"@,
        BuiltInFn::EnvFind => "env_find"@,
        BuiltInFn::EnvJump => "env_jump"@,
    }
}

/// The built-in procedure that applies `f`.
pub closed spec fn spec_builtin(f: BuiltInFn) -> BuiltIn {
    match f {
        BuiltInFn::Add => BuiltIn { name: "add", fun: BuiltInFn::Add },
        BuiltInFn::Sub => BuiltIn { name: "sub", fun: BuiltInFn::Sub },
        BuiltInFn::Mul => BuiltIn { name: "mul", fun: BuiltInFn::Mul },
        BuiltInFn::Div => BuiltIn { name: "div", fun: BuiltInFn::Div },
        BuiltInFn::Car => BuiltIn { name: "car", fun: BuiltInFn::Car },
        BuiltInFn::Cdr => BuiltIn { name: "cdr", fun: BuiltInFn::Cdr },
        BuiltInFn::Cons => BuiltIn { name: "cons", fun: BuiltInFn::Cons },
        BuiltInFn::ListLen => BuiltIn { name: "list_len", fun: BuiltInFn::ListLen },
        BuiltInFn::Println => BuiltIn { name: "println", fun: BuiltInFn::Println },
        BuiltInFn::Eq => BuiltIn { name: "eq", fun: BuiltInFn::Eq },
        BuiltInFn::Curr => BuiltIn { name: "curr", fun: BuiltInFn::Curr },
        BuiltInFn::Jump => BuiltIn { name: "jump", fun: BuiltInFn::Jump },
        BuiltInFn::EnvFind => BuiltIn { name: "env_find", fun: BuiltInFn::EnvFind },
        BuiltInFn::EnvJump => BuiltIn { name: "env_jump", fun: BuiltInFn::EnvJump },
    }
}

/// The built-in procedure of `f` goes by the name of `f`.
pub proof fn lemma_builtin_named(f: BuiltInFn)
    ensures
        spec_builtin(f).spec_name() == builtin_name(f),
        spec_builtin(f).spec_fun() == f,
{
}

/// The operation of the built-in procedure with a given name, if any.
pub open spec fn builtin_fn_named(name: Seq<char>) -> Option<BuiltInFn> {
    if name == "add"@ {
        Some(BuiltInFn::Add)
    } else if name == "sub"@ {
        Some(BuiltInFn::Sub)
    } else if name == "mul"@ {
        Some(BuiltInFn::Mul)
    } else if name == "div"@ {
        Some(BuiltInFn::Div)
    } else if name == "car"@ {
        Some(BuiltInFn::Car)
    } else if name == "cdr"@ {
        Some(BuiltInFn::Cdr)
    } else if name == "cons"@ {
        Some(BuiltInFn::Cons)
    } else if name == "list_len"@ {
        Some(BuiltInFn::ListLen)
    } else if name == "println"@ {
        Some(BuiltInFn::Println)
    } else if name == "eq"@ {
        Some(BuiltInFn::Eq)
    } else if name == "curr"@ {
        Some(BuiltInFn::Curr)
    } else if name == "jump"@ {
        Some(BuiltInFn::Jump)
    } else if name == "env_find"@ {
        Some(BuiltInFn::EnvFind)
    } else if name == "env_jump"@ {
        Some(BuiltInFn::EnvJump)
    } else {
        None
    }
}

/// The names of the built-in procedures are distinct: each names its own
/// operation.
pub proof fn lemma_builtin_names(f: BuiltInFn)
    ensures
        builtin_fn_named(builtin_name(f)) == Some(f),
{
    reveal_strlit("add");
    reveal_strlit("sub");
    reveal_strlit("mul");
    reveal_strlit("div");
    reveal_strlit("car");
    reveal_strlit("cdr");
    reveal_strlit("cons");
    reveal_strlit("list_len");
    reveal_strlit("println");
    reveal_strlit("eq");
    reveal_strlit("curr");
    reveal_strlit("jump");
    reveal_strlit("env_find");
    reveal_strlit("env_jump");
    let n = builtin_name(f);
    // Names of one length differ in a character.
    if n.len() == 3 {
        assert(n[0] != 'a' ==> n != "add"@);
        assert(n[0] != 's' ==> n != "sub"@);
        assert(n[0] != 'm' ==> n != "mul"@);
        assert(n[0] != 'd' ==> n != "div"@);
        assert(n[1] != 'a' ==> n != "car"@);
    }
    if n.len() == 4 {
        assert(n[1] != 'o' ==> n != "cons"@);
        assert(n[0] != 'c' ==> n != "cons"@ && n != "curr"@);
    }
    if n.len() == 8 {
        assert(n[0] != 'l' ==> n != "list_len"@);
        assert(n[4] != 'f' ==> n != "env_find"@);
    }
}

/// The built-in procedures by the names they are stored under.
pub fn generate_builtin_map() -> (res: Vec<(&'static str, BuiltIn)>)
    ensures
        res@.len() == 14,
        forall|i: int| 0 <= i < res@.len() ==> builtin_fn_named((#[trigger] res@[i]).0@) == Some(
            res@[i].1.spec_fun(),
        ) && res@[i].1 == spec_builtin(res@[i].1.spec_fun()),
        forall|name: Seq<char>| #[trigger]
            builtin_fn_named(name) is Some ==> exists|i: int|
                0 <= i < res@.len() && (#[trigger] res@[i]).0@ == name,
{
    let mut m: Vec<(&'static str, BuiltIn)> = Vec::new();
    m.push(("car", BuiltIn { name: "car", fun: BuiltInFn::Car }));
    m.push(("cdr", BuiltIn { name: "cdr", fun: BuiltInFn::Cdr }));
    m.push(("cons", BuiltIn { name: "cons", fun: BuiltInFn::Cons }));
    m.push(("list_len", BuiltIn { name: "list_len", fun: BuiltInFn::ListLen }));
    m.push(("println", BuiltIn { name: "println", fun: BuiltInFn::Println }));
    m.push(("eq", BuiltIn { name: "eq", fun: BuiltInFn::Eq }));
    m.push(("curr", BuiltIn { name: "curr", fun: BuiltInFn::Curr }));
    m.push(("jump", BuiltIn { name: "jump", fun: BuiltInFn::Jump }));
    m.push(("env_find", BuiltIn { name: "env_find", fun: BuiltInFn::EnvFind }));
    m.push(("env_jump", BuiltIn { name: "env_jump", fun: BuiltInFn::EnvJump }));
    m.push(("add", BuiltIn { name: "add", fun: BuiltInFn::Add }));
    m.push(("sub", BuiltIn { name: "sub", fun: BuiltInFn::Sub }));
    m.push(("mul", BuiltIn { name: "mul", fun: BuiltInFn::Mul }));
    m.push(("div", BuiltIn { name: "div", fun: BuiltInFn::Div }));
    proof {
        assert forall|i: int| 0 <= i < m@.len() implies builtin_fn_named((#[trigger] m@[i]).0@)
            == Some(m@[i].1.spec_fun()) && m@[i].1 == spec_builtin(m@[i].1.spec_fun()) by {
            let f = m@[i].1.spec_fun();
            lemma_builtin_names(f);
            assert(m@[i].0@ == builtin_name(f));
        }
        assert forall|name: Seq<char>| #[trigger]
            builtin_fn_named(name) is Some implies exists|i: int|
                0 <= i < m@.len() && (#[trigger] m@[i]).0@ == name by {
            let f = builtin_fn_named(name)->0;
            assert(name == builtin_name(f));
            let i: int = match f {
                BuiltInFn::Car => 0,
                BuiltInFn::Cdr => 1,
                BuiltInFn::Cons => 2,
                BuiltInFn::ListLen => 3,
                BuiltInFn::Println => 4,
                BuiltInFn::Eq => 5,
                BuiltInFn::Curr => 6,
                BuiltInFn::Jump => 7,
                BuiltInFn::EnvFind => 8,
                BuiltInFn::EnvJump => 9,
                BuiltInFn::Add => 10,
                BuiltInFn::Sub => 11,
                BuiltInFn::Mul => 12,
                BuiltInFn::Div => 13,
            };
            assert(m@[i].0@ == name);
        }
    }
    m
}

/// The built-in procedure stored under `name` in `map`, if any.
pub fn lookup_builtin(map: &Vec<(&'static str, BuiltIn)>, name: &str) -> (res: Option<BuiltIn>)
    requires
        forall|i: int| 0 <= i < map@.len() ==> builtin_fn_named((#[trigger] map@[i]).0@) == Some(
            map@[i].1.spec_fun(),
        ) && map@[i].1 == spec_builtin(map@[i].1.spec_fun()),
        forall|n: Seq<char>| #[trigger]
            builtin_fn_named(n) is Some ==> exists|i: int|
                0 <= i < map@.len() && (#[trigger] map@[i]).0@ == n,
    ensures
        match builtin_fn_named(name@) {
            Some(f) => res == Some(spec_builtin(f)),
            None => res is None,
        },
{
    let n = map.len();
    let mut i: usize = 0;
    while i < n
        invariant
            n == map@.len(),
            i <= n,
            forall|k: int| 0 <= k < i ==> map@[k].0@ != name@,
            forall|k: int| 0 <= k < map@.len() ==> builtin_fn_named((#[trigger] map@[k]).0@) == Some(
                map@[k].1.spec_fun(),
            ) && map@[k].1 == spec_builtin(map@[k].1.spec_fun()),
        decreases n - i,
    {
        if crate::text::str_eq(map[i].0, name) {
            return Some(map[i].1);
        }
        i = i + 1;
    }
    proof {
        if builtin_fn_named(name@) is Some {
            let k = choose|k: int| 0 <= k < map@.len() && (#[trigger] map@[k]).0@ == name@;
            assert(map@[k].0@ != name@);
        }
    }
    None
}

} // verus!
