//! Nodes: the immutable, shared tree cells that hold both code and data, and
//! their mathematical model.
use vstd::prelude::*;
use std::rc::Rc;
use crate::integer::Integer;

verus! {

/// A shared node.
pub type Node = Rc<Sourcedata>;

/// An ordered sequence of top-level nodes.
pub type Program = Vec<Node>;

/// Where a node was read: line, column and the name of the source.
pub struct Source {
    pub line: usize,
    pub column: usize,
    pub source: String,
}

/// The model of a `Source`.
pub struct Location {
    pub line: usize,
    pub column: usize,
    pub source: Seq<char>,
}

impl View for Source {
    type V = Location;

    open spec fn view(&self) -> Location {
        Location { line: self.line, column: self.column, source: self.source@ }
    }
}

impl Source {
    pub fn duplicate(&self) -> (r: Source)
        ensures
            r@ == self@,
    {
        Source { line: self.line, column: self.column, source: self.source.clone() }
    }
}

pub open spec fn location_of(s: Option<Source>) -> Option<Location> {
    match s {
        Some(s) => Some(s@),
        None => None,
    }
}

pub fn duplicate_source(s: &Option<Source>) -> (r: Option<Source>)
    ensures
        location_of(r) == location_of(*s),
{
    match s {
        Some(s) => Some(s.duplicate()),
        None => None,
    }
}

#[derive(Clone, Copy, PartialEq, Eq, Structural, Debug)]
pub enum Boolean {
    True,
    False,
}

/// The primitive functions. `Unwind` and `Define` are reached only through
/// the machine itself and the `define` macro.
#[derive(Clone, Copy, PartialEq, Eq, Structural, Debug)]
pub enum Builtin {
    Add,
    Subtract,
    Equal,
    Head,
    Tail,
    Pair,
    Error,
    Unwind,
    Define,
}

/// The primitive macros: they receive their argument list unevaluated.
#[derive(Clone, Copy, PartialEq, Eq, Structural, Debug)]
pub enum BuiltinMacro {
    Quote,
    Define,
    Function,
    Macro,
    If,
    Wind,
}

pub enum Function {
    Builtin(Builtin),
    /// Parameter names and the body, a list of expressions.
    Library(Vec<String>, Node),
}

pub enum Macro {
    Builtin(BuiltinMacro),
    /// The name the unevaluated argument list is bound to, and the body.
    Library(String, Node),
}

/// The control markers that the machine pushes on its work stack.
pub enum Commands {
    Call(Node),
    Prepare(Node),
    Parameterize,
    Deparameterize(Vec<String>),
    If(Node, Node),
    Evaluate,
    Wind,
}

pub struct Rational {
    pub numerator: Integer,
    pub denominator: Integer,
}

pub struct Complex {
    pub real: Rational,
    pub imaginary: Rational,
}

pub enum Coredata {
    Null,
    Boolean(Boolean),
    Integer(Integer),
    Rational(Rational),
    Complex(Complex),
    String(String),
    Symbol(String),
    Pair(Node, Node),
    Function(Function),
    Macro(Macro),
    Error(Node),
    Internal(Commands),
}

/// A node: where it was read, if it was, and what it holds.
pub struct Sourcedata(pub Option<Source>, pub Coredata);

/// The model of a node's content.
pub enum Form {
    Null,
    Boolean(bool),
    Integer(int),
    Rational(int, int),
    Complex(int, int, int, int),
    Text(Seq<char>),
    Symbol(Seq<char>),
    Pair(Box<Value>, Box<Value>),
    BuiltinFunction(Builtin),
    LibraryFunction(Seq<Seq<char>>, Box<Value>),
    BuiltinMacro(BuiltinMacro),
    LibraryMacro(Seq<char>, Box<Value>),
    Error(Box<Value>),
    Call(Box<Value>),
    Prepare(Box<Value>),
    Parameterize,
    Deparameterize(Seq<Seq<char>>),
    If(Box<Value>, Box<Value>),
    Evaluate,
    Wind,
}

/// The model of a node.
pub struct Value {
    pub at: Option<Location>,
    pub form: Form,
}

pub open spec fn names_of(v: Seq<String>) -> Seq<Seq<char>> {
    v.map_values(|s: String| s@)
}

pub open spec fn values_of(v: Seq<Node>) -> Seq<Value> {
    v.map_values(|n: Node| n@)
}

pub open spec fn value_of(d: Sourcedata) -> Value
    decreases d,
{
    let form = match d.1 {
        Coredata::Null => Form::Null,
        Coredata::Boolean(b) => Form::Boolean(b == Boolean::True),
        Coredata::Integer(i) => Form::Integer(i.value()),
        Coredata::Rational(r) => Form::Rational(r.numerator.value(), r.denominator.value()),
        Coredata::Complex(c) => Form::Complex(
            c.real.numerator.value(),
            c.real.denominator.value(),
            c.imaginary.numerator.value(),
            c.imaginary.denominator.value(),
        ),
        Coredata::String(s) => Form::Text(s@),
        Coredata::Symbol(s) => Form::Symbol(s@),
        Coredata::Pair(h, t) => Form::Pair(Box::new(value_of(*h)), Box::new(value_of(*t))),
        Coredata::Function(Function::Builtin(b)) => Form::BuiltinFunction(b),
        Coredata::Function(Function::Library(p, b)) => Form::LibraryFunction(
            names_of(p@),
            Box::new(value_of(*b)),
        ),
        Coredata::Macro(Macro::Builtin(b)) => Form::BuiltinMacro(b),
        Coredata::Macro(Macro::Library(n, b)) => Form::LibraryMacro(n@, Box::new(value_of(*b))),
        Coredata::Error(e) => Form::Error(Box::new(value_of(*e))),
        Coredata::Internal(Commands::Call(c)) => Form::Call(Box::new(value_of(*c))),
        Coredata::Internal(Commands::Prepare(a)) => Form::Prepare(Box::new(value_of(*a))),
        Coredata::Internal(Commands::Parameterize) => Form::Parameterize,
        Coredata::Internal(Commands::Deparameterize(n)) => Form::Deparameterize(names_of(n@)),
        Coredata::Internal(Commands::If(a, b)) => Form::If(
            Box::new(value_of(*a)),
            Box::new(value_of(*b)),
        ),
        Coredata::Internal(Commands::Evaluate) => Form::Evaluate,
        Coredata::Internal(Commands::Wind) => Form::Wind,
    };
    Value { at: location_of(d.0), form }
}

impl View for Sourcedata {
    type V = Value;

    open spec fn view(&self) -> Value {
        value_of(*self)
    }
}

/// A value read nowhere.
pub open spec fn plain(form: Form) -> Value {
    Value { at: None, form }
}

pub open spec fn null_value() -> Value {
    plain(Form::Null)
}

/// The first element of a pair; the empty list otherwise.
pub open spec fn head_of(v: Value) -> Value {
    match v.form {
        Form::Pair(h, _) => *h,
        _ => null_value(),
    }
}

/// The rest of a pair; the empty list otherwise.
pub open spec fn tail_of(v: Value) -> Value {
    match v.form {
        Form::Pair(_, t) => *t,
        _ => null_value(),
    }
}

/// The elements of a list, up to the first tail that is not a pair.
pub open spec fn list_items(v: Value) -> Seq<Value>
    decreases v,
{
    match v.form {
        Form::Pair(h, t) => seq![*h] + list_items(*t),
        _ => seq![],
    }
}

/// A list of the given values, ending in the empty list.
pub open spec fn list_of(items: Seq<Value>) -> Value
    decreases items.len(),
{
    if items.len() == 0 {
        null_value()
    } else {
        plain(Form::Pair(Box::new(items[0]), Box::new(list_of(items.drop_first()))))
    }
}

pub open spec fn is_pair(v: Value) -> bool {
    v.form is Pair
}

/// Taking the head and the tail of a pair gives back its two parts, and the
/// head and the tail of the empty list are the empty list.
pub proof fn lemma_pair_round_trip(at: Option<Location>, head: Value, tail: Value)
    ensures
        head_of(Value { at, form: Form::Pair(Box::new(head), Box::new(tail)) }) == head,
        tail_of(Value { at, form: Form::Pair(Box::new(head), Box::new(tail)) }) == tail,
        head_of(Value { at, form: Form::Null }) == null_value(),
        tail_of(Value { at, form: Form::Null }) == null_value(),
{
}

pub fn null() -> (r: Node)
    ensures
        r@ == null_value(),
{
    Rc::new(Sourcedata(None, Coredata::Null))
}

impl Sourcedata {
    /// The first element of a pair; the empty list for any other node.
    pub fn head(&self) -> (r: Node)
        ensures
            r@ == head_of(self@),
    {
        match &self.1 {
            Coredata::Pair(h, _) => h.clone(),
            _ => null(),
        }
    }

    /// The rest of a pair; the empty list for any other node.
    pub fn tail(&self) -> (r: Node)
        ensures
            r@ == tail_of(self@),
    {
        match &self.1 {
            Coredata::Pair(_, t) => t.clone(),
            _ => null(),
        }
    }
}

/// The elements of a list, in order, up to the first tail that is not a pair.
pub fn collect_pair_into_vec(list: &Node) -> (r: Vec<Node>)
    ensures
        values_of(r@) == list_items(list@),
{
    let mut items: Vec<Node> = Vec::new();
    let mut rest: Node = list.clone();
    loop
        invariant
            values_of(items@) + list_items(rest@) == list_items(list@),
        ensures
            !is_pair(rest@),
            values_of(items@) + list_items(rest@) == list_items(list@),
        decreases *rest,
    {
        let ghost before = items@;
        let next = match &rest.1 {
            Coredata::Pair(h, t) => {
                items.push(h.clone());
                t.clone()
            },
            _ => break,
        };
        proof {
            assert(values_of(items@) =~= values_of(before) + seq![head_of(rest@)]);
        }
        rest = next;
    }
    proof {
        assert(list_items(rest@) =~= seq![]);
        assert(values_of(items@) + list_items(rest@) =~= values_of(items@));
    }
    items
}

/// A list of the given nodes, ending in the empty list.
pub fn make_list(items: &Vec<Node>) -> (r: Node)
    ensures
        r@ == list_of(values_of(items@)),
{
    let mut list = null();
    let mut i: usize = items.len();
    while i > 0
        invariant
            i <= items@.len(),
            list@ == list_of(values_of(items@).subrange(i as int, items@.len() as int)),
        decreases i,
    {
        i = i - 1;
        let cell = Rc::new(Sourcedata(None, Coredata::Pair(items[i].clone(), list)));
        proof {
            let s = values_of(items@);
            assert(s.subrange(i as int, s.len() as int).drop_first() =~= s.subrange(
                i + 1,
                s.len() as int,
            ));
        }
        list = cell;
    }
    proof {
        assert(values_of(items@).subrange(0, items@.len() as int) =~= values_of(items@));
    }
    list
}

} // verus!
