//! Primitive values that node structures are built from.

use vstd::prelude::*;

use crate::builtin::BuiltIn;
use crate::env::local_node::LocalNode;
use crate::text::str_eq;

verus! {

/// A numeric primitive.
#[derive(Clone, Copy, Debug, PartialEq, Eq, Structural)]
pub enum Number {
    Integer(i64),
    USize(usize),
}

/// A symbol, i.e. a name.
#[derive(Debug, PartialEq, Eq, Hash)]
pub struct Symbol {
    name: String,
}

impl View for Symbol {
    type V = Seq<char>;

    closed spec fn view(&self) -> Seq<char> {
        self.name@
    }
}

impl Symbol {
    pub fn new(name: String) -> (res: Symbol)
        ensures
            res@ == name@,
    {
        Symbol { name }
    }

    pub fn as_str(&self) -> (res: &str)
        ensures
            res@ == self@,
    {
        self.name.as_str()
    }

    pub fn as_string(&self) -> (res: &String)
        ensures
            res@ == self@,
    {
        &self.name
    }

    pub fn into_string(self) -> (res: String)
        ensures
            res@ == self@,
    {
        self.name
    }
}

impl Clone for Symbol {
    fn clone(&self) -> (res: Symbol)
        ensures
            res == *self,
    {
        Symbol { name: self.name.clone() }
    }
}

/// A node qualified by the environment it belongs to.
#[derive(Clone, Copy, Debug, PartialEq, Eq, Structural, Hash, PartialOrd, Ord)]
pub struct Node {
    pub env: LocalNode,
    pub local: LocalNode,
}

impl Node {
    pub fn new(env: LocalNode, local: LocalNode) -> (res: Node)
        ensures
            res.env == env,
            res.local == local,
    {
        Node { env, local }
    }

    pub fn env(&self) -> (res: LocalNode)
        ensures
            res == self.env,
    {
        self.env
    }

    pub fn local(&self) -> (res: LocalNode)
        ensures
            res == self.local,
    {
        self.local
    }
}

/// A table from local nodes to local nodes, such as the nodes that imports
/// were given. Later entries shadow earlier entries for the same key.
#[derive(Debug, PartialEq)]
pub struct LocalNodeTable {
    head: Option<Box<TableCell>>,
}

/// An entry of a table, in front of the entries made before it.
#[derive(Debug, PartialEq)]
pub struct TableCell {
    key: LocalNode,
    value: LocalNode,
    next: Option<Box<TableCell>>,
}

/// The table held by a chain of cells; a cell shadows the cells after it.
pub closed spec fn cells_map(cells: Option<Box<TableCell>>) -> Map<LocalNode, LocalNode>
    decreases cells,
{
    match cells {
        None => Map::empty(),
        Some(cell) => cells_map(cell.next).insert(cell.key, cell.value),
    }
}

fn lookup_cells(cells: &Option<Box<TableCell>>, key: &LocalNode) -> (res: Option<LocalNode>)
    ensures
        cells_map(*cells).contains_key(*key) ==> res == Some(cells_map(*cells)[*key]),
        !cells_map(*cells).contains_key(*key) ==> res is None,
    decreases cells,
{
    match cells {
        None => None,
        Some(cell) => {
            if cell.key.0 == key.0 {
                Some(cell.value)
            } else {
                lookup_cells(&cell.next, key)
            }
        },
    }
}

fn clone_cells(cells: &Option<Box<TableCell>>) -> (res: Option<Box<TableCell>>)
    ensures
        res == *cells,
    decreases cells,
{
    match cells {
        None => None,
        Some(cell) => Some(
            Box::new(TableCell { key: cell.key, value: cell.value, next: clone_cells(&cell.next) }),
        ),
    }
}

fn same_cells(a: &Option<Box<TableCell>>, b: &Option<Box<TableCell>>) -> (res: bool)
    ensures
        res == (*a == *b),
    decreases a,
{
    match (a, b) {
        (None, None) => true,
        (Some(x), Some(y)) => x.key.0 == y.key.0 && x.value.0 == y.value.0 && same_cells(
            &x.next,
            &y.next,
        ),
        _ => false,
    }
}

impl View for LocalNodeTable {
    type V = Map<LocalNode, LocalNode>;

    closed spec fn view(&self) -> Map<LocalNode, LocalNode> {
        cells_map(self.head)
    }
}

impl LocalNodeTable {
    pub fn new() -> (res: Self)
        ensures
            res@ == Map::<LocalNode, LocalNode>::empty(),
    {
        LocalNodeTable { head: None }
    }

    pub fn lookup(&self, key: &LocalNode) -> (res: Option<LocalNode>)
        ensures
            self@.contains_key(*key) ==> res == Some(self@[*key]),
            !self@.contains_key(*key) ==> res is None,
    {
        lookup_cells(&self.head, key)
    }

    /// Whether the two tables hold the same entries, made in the same order.
    pub fn same_as(&self, other: &LocalNodeTable) -> (res: bool)
        ensures
            res == (*self == *other),
    {
        same_cells(&self.head, &other.head)
    }

    /// Sets the value of `key`, replacing any earlier one.
    pub fn insert(&mut self, key: LocalNode, value: LocalNode)
        ensures
            final(self)@ == old(self)@.insert(key, value),
    {
        let next = self.head.take();
        self.head = Some(Box::new(TableCell { key, value, next }));
    }
}

impl Default for LocalNodeTable {
    fn default() -> (res: Self)
        ensures
            res@ == Map::<LocalNode, LocalNode>::empty(),
    {
        LocalNodeTable::new()
    }
}

impl Clone for LocalNodeTable {
    fn clone(&self) -> (res: LocalNodeTable)
        ensures
            res == *self,
    {
        LocalNodeTable { head: clone_cells(&self.head) }
    }
}

/// A table from symbols to local nodes; a later entry for a symbol shadows
/// the earlier ones.
#[derive(Debug, PartialEq, Default)]
pub struct SymbolTable {
    entries: Vec<(Symbol, LocalNode)>,
}

/// The table held by a sequence of entries, later entries shadowing
/// earlier ones.
pub open spec fn symbol_map(entries: Seq<(Symbol, LocalNode)>) -> Map<Seq<char>, LocalNode>
    decreases entries.len(),
{
    if entries.len() == 0 {
        Map::empty()
    } else {
        symbol_map(entries.drop_last()).insert(entries.last().0@, entries.last().1)
    }
}

impl View for SymbolTable {
    type V = Map<Seq<char>, LocalNode>;

    closed spec fn view(&self) -> Map<Seq<char>, LocalNode> {
        symbol_map(self.entries@)
    }
}

impl SymbolTable {
    pub fn new() -> (res: Self)
        ensures
            res@ == Map::<Seq<char>, LocalNode>::empty(),
    {
        SymbolTable { entries: Vec::new() }
    }

    /// Sets the node of `symbol`, replacing any earlier one.
    pub fn insert(&mut self, symbol: Symbol, node: LocalNode)
        ensures
            final(self)@ == old(self)@.insert(symbol@, node),
    {
        self.entries.push((symbol, node));
        proof {
            assert(self.entries@.drop_last() =~= old(self).entries@);
        }
    }

    pub fn lookup(&self, symbol: &Symbol) -> (res: Option<LocalNode>)
        ensures
            self@.contains_key(symbol@) ==> res == Some(self@[symbol@]),
            !self@.contains_key(symbol@) ==> res is None,
    {
        let ghost all = self.entries@;
        let mut i: usize = self.entries.len();
        assert(all.take(all.len() as int) =~= all);
        while i > 0
            invariant
                all == self.entries@,
                i <= all.len(),
                forall|k: int| i <= k < all.len() ==> all[k].0@ != symbol@,
                symbol_map(all).contains_key(symbol@) == symbol_map(all.take(i as int)).contains_key(
                    symbol@,
                ),
                symbol_map(all).contains_key(symbol@) ==> symbol_map(all)[symbol@] == symbol_map(
                    all.take(i as int),
                )[symbol@],
            decreases i,
        {
            let ghost prefix = all.take(i as int);
            assert(prefix.drop_last() =~= all.take(i - 1));
            if str_eq(self.entries[i - 1].0.as_str(), symbol.as_str()) {
                return Some(self.entries[i - 1].1);
            }
            i = i - 1;
        }
        None
    }
}

/// A table from symbols to nodes, such as the names an environment's
/// designation node holds. A later entry for a symbol shadows the earlier
/// ones; entries for other symbols stay.
#[derive(Debug, PartialEq)]
pub struct SymNodeTable {
    head: Option<Box<SymCell>>,
}

/// An entry of a symbol table, in front of the entries made before it.
#[derive(Debug, PartialEq)]
pub struct SymCell {
    key: Symbol,
    value: Node,
    next: Option<Box<SymCell>>,
}

/// The table held by a chain of cells; a cell shadows the cells after it.
pub closed spec fn sym_cells_map(cells: Option<Box<SymCell>>) -> Map<Seq<char>, Node>
    decreases cells,
{
    match cells {
        None => Map::empty(),
        Some(cell) => sym_cells_map(cell.next).insert(cell.key@, cell.value),
    }
}

/// Whether two chains hold the same entries in the same order, symbols
/// compared by their names.
pub closed spec fn sym_cells_same(a: Option<Box<SymCell>>, b: Option<Box<SymCell>>) -> bool
    decreases a,
{
    match (a, b) {
        (None, None) => true,
        (Some(x), Some(y)) => x.key@ == y.key@ && x.value == y.value && sym_cells_same(
            x.next,
            y.next,
        ),
        _ => false,
    }
}

fn lookup_sym_cells(cells: &Option<Box<SymCell>>, key: &Symbol) -> (res: Option<Node>)
    ensures
        sym_cells_map(*cells).contains_key(key@) ==> res == Some(sym_cells_map(*cells)[key@]),
        !sym_cells_map(*cells).contains_key(key@) ==> res is None,
    decreases cells,
{
    match cells {
        None => None,
        Some(cell) => {
            if str_eq(cell.key.as_str(), key.as_str()) {
                Some(cell.value)
            } else {
                lookup_sym_cells(&cell.next, key)
            }
        },
    }
}

fn clone_sym_cells(cells: &Option<Box<SymCell>>) -> (res: Option<Box<SymCell>>)
    ensures
        res == *cells,
    decreases cells,
{
    match cells {
        None => None,
        Some(cell) => Some(
            Box::new(
                SymCell {
                    key: cell.key.clone(),
                    value: cell.value,
                    next: clone_sym_cells(&cell.next),
                },
            ),
        ),
    }
}

fn same_sym_cells(a: &Option<Box<SymCell>>, b: &Option<Box<SymCell>>) -> (res: bool)
    ensures
        res == sym_cells_same(*a, *b),
    decreases a,
{
    match (a, b) {
        (None, None) => true,
        (Some(x), Some(y)) => str_eq(x.key.as_str(), y.key.as_str()) && x.value == y.value
            && same_sym_cells(&x.next, &y.next),
        _ => false,
    }
}

impl View for SymNodeTable {
    type V = Map<Seq<char>, Node>;

    closed spec fn view(&self) -> Map<Seq<char>, Node> {
        sym_cells_map(self.head)
    }
}

impl SymNodeTable {
    /// Whether two tables hold the same entries, made in the same order.
    pub closed spec fn same(&self, other: &SymNodeTable) -> bool {
        sym_cells_same(self.head, other.head)
    }

    pub fn new() -> (res: Self)
        ensures
            res@ == Map::<Seq<char>, Node>::empty(),
    {
        SymNodeTable { head: None }
    }

    pub fn lookup(&self, symbol: &Symbol) -> (res: Option<Node>)
        ensures
            self@.contains_key(symbol@) ==> res == Some(self@[symbol@]),
            !self@.contains_key(symbol@) ==> res is None,
    {
        lookup_sym_cells(&self.head, symbol)
    }

    pub fn contains_key(&self, symbol: &Symbol) -> (res: bool)
        ensures
            res == self@.contains_key(symbol@),
    {
        self.lookup(symbol).is_some()
    }

    /// Sets the node of `symbol`, replacing any earlier one; the entries of
    /// other symbols stay.
    pub fn insert(&mut self, symbol: Symbol, node: Node)
        ensures
            final(self)@ == old(self)@.insert(symbol@, node),
    {
        let next = self.head.take();
        self.head = Some(Box::new(SymCell { key: symbol, value: node, next }));
    }

    /// Whether the two tables hold the same entries, made in the same order.
    pub fn same_as(&self, other: &SymNodeTable) -> (res: bool)
        ensures
            res == self.same(other),
    {
        same_sym_cells(&self.head, &other.head)
    }
}

impl Default for SymNodeTable {
    fn default() -> (res: Self)
        ensures
            res@ == Map::<Seq<char>, Node>::empty(),
    {
        SymNodeTable::new()
    }
}

impl Clone for SymNodeTable {
    fn clone(&self) -> (res: SymNodeTable)
        ensures
            res == *self,
    {
        SymNodeTable { head: clone_sym_cells(&self.head) }
    }
}

/// Atomic parts of a structure.
#[derive(Debug, PartialEq)]
pub enum Primitive {
    Number(Number),
    Symbol(Symbol),
    LangString(String),
    Node(Node),
    Path(String),
    LocalNodeTable(LocalNodeTable),
    SymNodeTable(SymNodeTable),
    BuiltIn(BuiltIn),
}

impl Clone for Primitive {
    fn clone(&self) -> (res: Primitive)
        ensures
            res == *self,
    {
        match self {
            Primitive::Number(n) => Primitive::Number(*n),
            Primitive::Symbol(s) => Primitive::Symbol(s.clone()),
            Primitive::LangString(s) => Primitive::LangString(s.clone()),
            Primitive::Node(n) => Primitive::Node(*n),
            Primitive::Path(p) => Primitive::Path(p.clone()),
            Primitive::LocalNodeTable(t) => Primitive::LocalNodeTable(t.clone()),
            Primitive::SymNodeTable(t) => Primitive::SymNodeTable(t.clone()),
            Primitive::BuiltIn(b) => Primitive::BuiltIn(*b),
        }
    }
}

} // verus!
