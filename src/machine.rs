//! The evaluator as an abstract machine over the models of its parts: one
//! step at a time, from a work stack, a store, argument frames and a result.
use vstd::prelude::*;
use crate::integer::{is_integer_literal, literal_value};
use crate::data_structures::{
    head_of, list_items, list_of, null_value, plain, tail_of, Builtin, BuiltinMacro, Form, Location,
    Value,
};
use crate::store::{bind_all, pop_binding, pop_bindings, push_binding, stack_of};

verus! {

/// The whole state of an evaluation.
pub struct Machine {
    /// The work stack; its last element is popped first.
    pub program: Seq<Value>,
    pub store: Map<Seq<char>, Seq<Value>>,
    /// The argument frames of the calls in flight, the newest last.
    pub params: Seq<Seq<Value>>,
    pub result: Value,
}

pub open spec fn unbound_message(name: Seq<char>) -> Seq<char> {
    "`"@ + name + "' does not exist"@
}

pub open spec fn empty_binding_message(name: Seq<char>) -> Seq<char> {
    "`"@ + name + "' does exist but its stack is empty"@
}

pub open spec fn arity_message() -> Seq<char> {
    "during library function call: arity mismatch"@
}

pub open spec fn not_callable_message() -> Seq<char> {
    "element not callable"@
}

pub open spec fn inconsistent_message() -> Seq<char> {
    "the parameter stack is inconsistent"@
}

pub open spec fn text_value(at: Option<Location>, text: Seq<char>) -> Value {
    Value { at, form: Form::Text(text) }
}

pub open spec fn error_value(at: Option<Location>, payload: Value) -> Value {
    Value { at, form: Form::Error(Box::new(payload)) }
}

/// The call of the unwind primitive that a raised error pushes.
pub open spec fn unwind_call() -> Value {
    plain(Form::Call(Box::new(plain(Form::BuiltinFunction(Builtin::Unwind)))))
}

/// Starts an unwind that carries `error`: a call of the unwind primitive
/// with `error` as its one argument.
pub open spec fn raise(m: Machine, error: Value) -> Machine {
    Machine { program: m.program.push(unwind_call()), params: m.params.push(seq![error]), ..m }
}

/// Raises an error whose payload is the text `message`.
pub open spec fn fail(m: Machine, at: Option<Location>, message: Seq<char>) -> Machine {
    raise(m, error_value(at, text_value(at, message)))
}

/// Stops the machine on a broken invariant of its argument frames.
pub open spec fn abort(m: Machine) -> Machine {
    Machine {
        program: seq![],
        result: error_value(None, text_value(None, inconsistent_message())),
        ..m
    }
}

/// Pops the work stack down to the nearest wind marker: a teardown marker
/// on the way pops its bindings, a call marker pops its argument frame.
pub open spec fn unwind_scan(m: Machine) -> Machine
    decreases m.program.len(),
{
    if m.program.len() == 0 {
        m
    } else {
        let rest = Machine { program: m.program.drop_last(), ..m };
        match m.program.last().form {
            Form::Wind => rest,
            Form::Deparameterize(names) => unwind_scan(
                Machine { store: pop_bindings(m.store, names), ..rest },
            ),
            Form::Call(_) => unwind_scan(
                Machine {
                    params: if m.params.len() > 0 {
                        m.params.drop_last()
                    } else {
                        m.params
                    },
                    ..rest
                },
            ),
            _ => unwind_scan(rest),
        }
    }
}

/// The names of `names` that are not in `removed`, in order.
pub open spec fn without(names: Seq<Seq<char>>, removed: Seq<Seq<char>>) -> Seq<Seq<char>>
    decreases names.len(),
{
    if names.len() == 0 {
        seq![]
    } else if removed.contains(names.last()) {
        without(names.drop_last(), removed)
    } else {
        without(names.drop_last(), removed).push(names.last())
    }
}

/// The names of `names` that are also in `others`, in order.
pub open spec fn shared(names: Seq<Seq<char>>, others: Seq<Seq<char>>) -> Seq<Seq<char>>
    decreases names.len(),
{
    if names.len() == 0 {
        seq![]
    } else if others.contains(names.last()) {
        shared(names.drop_last(), others).push(names.last())
    } else {
        shared(names.drop_last(), others)
    }
}

/// Folds a new teardown of `names` into a teardown marker on top of the work
/// stack, if there is one: that marker is taken off, the names the two share
/// lose one binding now, and one teardown list for both comes back.
pub open spec fn tail_merge(m: Machine, names: Seq<Seq<char>>) -> (Machine, Seq<Seq<char>>) {
    if m.program.len() > 0 && m.program.last().form is Deparameterize {
        let existing = m.program.last().form->Deparameterize_0;
        (
            Machine {
                program: m.program.drop_last(),
                store: pop_bindings(m.store, shared(existing, names)),
                ..m
            },
            without(existing, names) + names,
        )
    } else {
        (m, names)
    }
}

/// `items` in reverse order: pushed on the work stack, the first comes off first.
pub open spec fn reversed(items: Seq<Value>) -> Seq<Value>
    decreases items.len(),
{
    if items.len() == 0 {
        seq![]
    } else {
        reversed(items.drop_first()).push(items[0])
    }
}

/// The work that evaluates `items` in order and adds each value to the
/// newest argument frame.
pub open spec fn argument_work(items: Seq<Value>) -> Seq<Value>
    decreases items.len(),
{
    if items.len() == 0 {
        seq![]
    } else {
        argument_work(items.drop_first()) + seq![plain(Form::Parameterize), items[0]]
    }
}

pub open spec fn integer_of(v: Value) -> int {
    match v.form {
        Form::Integer(i) => i,
        _ => 0,
    }
}

pub open spec fn all_integers(vs: Seq<Value>) -> bool {
    forall|i: int| 0 <= i < vs.len() ==> (#[trigger] vs[i]).form is Integer
}

pub open spec fn sum(vs: Seq<Value>) -> int
    decreases vs.len(),
{
    if vs.len() == 0 {
        0
    } else {
        sum(vs.drop_last()) + integer_of(vs.last())
    }
}

/// The first value less the others; the negation of a lone value.
pub open spec fn difference(vs: Seq<Value>) -> int {
    if vs.len() == 0 {
        0
    } else if vs.len() == 1 {
        -integer_of(vs[0])
    } else {
        integer_of(vs[0]) - sum(vs.drop_first())
    }
}

pub open spec fn all_equal(vs: Seq<Value>) -> bool {
    forall|i: int| 0 <= i < vs.len() ==> integer_of(#[trigger] vs[i]) == integer_of(vs[0])
}

pub open spec fn add_message() -> Seq<char> {
    "+ expects integers"@
}

pub open spec fn subtract_message() -> Seq<char> {
    "- expects integers"@
}

pub open spec fn equal_message() -> Seq<char> {
    "= expects integers"@
}

pub open spec fn head_message() -> Seq<char> {
    "head expects one argument"@
}

pub open spec fn tail_message() -> Seq<char> {
    "tail expects one argument"@
}

pub open spec fn pair_message() -> Seq<char> {
    "pair expects two arguments"@
}

pub open spec fn define_message() -> Seq<char> {
    "define expects a name and a value"@
}

pub open spec fn function_message() -> Seq<char> {
    "fn expects a list of parameter names"@
}

pub open spec fn macro_message() -> Seq<char> {
    "mo expects a name to bind the arguments to"@
}

pub open spec fn if_message() -> Seq<char> {
    "if expects a condition and one or two branches"@
}

/// The arguments of the newest frame.
pub open spec fn arguments(m: Machine) -> Seq<Value> {
    if m.params.len() > 0 {
        m.params.last()
    } else {
        seq![]
    }
}

pub open spec fn with_result(m: Machine, result: Value) -> Machine {
    Machine { result, ..m }
}

/// What a primitive function does, given the machine with its frame still
/// on: the machine after it, and the payload of the error it signals.
pub open spec fn native(b: Builtin, m: Machine) -> (Machine, Option<Value>) {
    let args = arguments(m);
    match b {
        Builtin::Add => if all_integers(args) {
            (with_result(m, plain(Form::Integer(sum(args)))), None)
        } else {
            (m, Some(plain(Form::Text(add_message()))))
        },
        Builtin::Subtract => if all_integers(args) {
            (with_result(m, plain(Form::Integer(difference(args)))), None)
        } else {
            (m, Some(plain(Form::Text(subtract_message()))))
        },
        Builtin::Equal => if all_integers(args) {
            (with_result(m, plain(Form::Boolean(all_equal(args)))), None)
        } else {
            (m, Some(plain(Form::Text(equal_message()))))
        },
        Builtin::Head => if args.len() == 1 {
            (with_result(m, head_of(args[0])), None)
        } else {
            (m, Some(plain(Form::Text(head_message()))))
        },
        Builtin::Tail => if args.len() == 1 {
            (with_result(m, tail_of(args[0])), None)
        } else {
            (m, Some(plain(Form::Text(tail_message()))))
        },
        Builtin::Pair => if args.len() == 2 {
            (with_result(m, plain(Form::Pair(Box::new(args[0]), Box::new(args[1])))), None)
        } else {
            (m, Some(plain(Form::Text(pair_message()))))
        },
        Builtin::Error => if args.len() == 1 {
            (m, Some(args[0]))
        } else {
            (m, Some(list_of(args)))
        },
        Builtin::Unwind => (
            unwind_scan(
                with_result(
                    m,
                    if args.len() > 0 {
                        args[0]
                    } else {
                        null_value()
                    },
                ),
            ),
            None,
        ),
        Builtin::Define => if args.len() == 2 && args[0].form is Symbol {
            (
                Machine {
                    store: push_binding(m.store, args[0].form->Symbol_0, args[1]),
                    result: args[1],
                    ..m
                },
                None,
            )
        } else {
            (m, Some(plain(Form::Text(define_message()))))
        },
    }
}

/// A list whose elements are all symbols.
pub open spec fn is_symbol_list(v: Value) -> bool
    decreases v,
{
    match v.form {
        Form::Null => true,
        Form::Pair(h, t) => h.form is Symbol && is_symbol_list(*t),
        _ => false,
    }
}

/// The names of the symbols in a list.
pub open spec fn symbol_names(v: Value) -> Seq<Seq<char>>
    decreases v,
{
    match v.form {
        Form::Pair(h, t) => seq![
            match h.form {
                Form::Symbol(s) => s,
                _ => seq![],
            },
        ] + symbol_names(*t),
        _ => seq![],
    }
}

/// What a primitive macro does; the result register holds its unevaluated
/// argument list, and `at` is where the call was read.
pub open spec fn macro_native(b: BuiltinMacro, m: Machine, at: Option<Location>) -> Machine {
    let args = m.result;
    let items = list_items(args);
    match b {
        BuiltinMacro::Quote => with_result(m, head_of(args)),
        BuiltinMacro::Define => if items.len() == 2 && items[0].form is Symbol {
            Machine {
                program: m.program + seq![
                    plain(Form::Call(Box::new(plain(Form::BuiltinFunction(Builtin::Define))))),
                    plain(Form::Parameterize),
                    items[1],
                ],
                params: m.params.push(seq![items[0]]),
                ..m
            }
        } else {
            fail(m, at, define_message())
        },
        BuiltinMacro::Function => if items.len() >= 1 && is_symbol_list(items[0]) {
            with_result(
                m,
                plain(Form::LibraryFunction(symbol_names(items[0]), Box::new(tail_of(args)))),
            )
        } else {
            fail(m, at, function_message())
        },
        BuiltinMacro::Macro => if items.len() >= 1 && items[0].form is Symbol {
            with_result(
                m,
                plain(Form::LibraryMacro(items[0].form->Symbol_0, Box::new(tail_of(args)))),
            )
        } else {
            fail(m, at, macro_message())
        },
        BuiltinMacro::If => if items.len() == 2 || items.len() == 3 {
            let otherwise = if items.len() == 3 {
                items[2]
            } else {
                null_value()
            };
            Machine {
                program: m.program + seq![
                    plain(Form::If(Box::new(items[1]), Box::new(otherwise))),
                    items[0],
                ],
                ..m
            }
        } else {
            fail(m, at, if_message())
        },
        BuiltinMacro::Wind => Machine {
            program: m.program.push(plain(Form::Wind)) + reversed(items),
            ..m
        },
    }
}

/// The work that `Prepare(args)`, read at `at`, does with the evaluated
/// operator in the result register.
pub open spec fn prepare(m: Machine, at: Option<Location>, args: Value) -> Machine {
    match m.result.form {
        Form::BuiltinFunction(_) | Form::LibraryFunction(_, _) => Machine {
            program: m.program.push(Value { at, form: Form::Call(Box::new(m.result)) })
                + argument_work(list_items(args)),
            params: m.params.push(seq![]),
            ..m
        },
        Form::BuiltinMacro(b) => macro_native(b, with_result(m, args), at),
        Form::LibraryMacro(bound, body) => {
            let evaluating = Machine { program: m.program.push(plain(Form::Evaluate)), ..m };
            let (merged, names) = tail_merge(evaluating, seq![bound]);
            Machine {
                program: merged.program.push(Value { at, form: Form::Deparameterize(names) })
                    + reversed(list_items(*body)),
                store: push_binding(merged.store, bound, args),
                ..merged
            }
        },
        _ => fail(m, at, not_callable_message()),
    }
}

/// The work that `Call(callee)`, read at `at`, does.
pub open spec fn call(m: Machine, at: Option<Location>, callee: Value) -> Machine {
    match callee.form {
        Form::BuiltinFunction(b) => {
            let (after, error) = native(b, m);
            if after.params.len() == 0 {
                abort(after)
            } else {
                let popped = Machine { params: after.params.drop_last(), ..after };
                match error {
                    Some(payload) => raise(popped, error_value(at, payload)),
                    None => popped,
                }
            }
        },
        Form::LibraryFunction(names, body) => if m.params.len() == 0 {
            abort(m)
        } else {
            let args = m.params.last();
            let popped = Machine { params: m.params.drop_last(), ..m };
            if args.len() != names.len() {
                fail(popped, at, arity_message())
            } else {
                let (merged, teardown) = tail_merge(popped, names);
                Machine {
                    program: merged.program.push(Value { at, form: Form::Deparameterize(teardown) })
                        + reversed(list_items(*body)),
                    store: bind_all(merged.store, names, args),
                    ..merged
                }
            }
        },
        _ => fail(m, at, not_callable_message()),
    }
}

/// The value a symbol read at `at` evaluates to: an integer literal, or the
/// newest binding of its name.
pub open spec fn resolve(m: Machine, at: Option<Location>, name: Seq<char>) -> Machine {
    if is_integer_literal(name) {
        with_result(m, Value { at, form: Form::Integer(literal_value(name)) })
    } else if m.store.contains_key(name) {
        if m.store[name].len() > 0 {
            with_result(m, m.store[name].last())
        } else {
            fail(m, at, empty_binding_message(name))
        }
    } else {
        fail(m, at, unbound_message(name))
    }
}

/// One step of the machine: pop the top of the work stack and act on it. A
/// machine with an empty work stack has halted and stays as it is.
///
/// Only the boolean false is falsy for `If`; the empty list counts as true.
/// A symbol whose text is an integer literal stands for that integer, even
/// where its name is bound.
pub open spec fn step(m: Machine) -> Machine {
    if m.program.len() == 0 {
        m
    } else {
        let top = m.program.last();
        let rest = Machine { program: m.program.drop_last(), ..m };
        match top.form {
            Form::Pair(h, t) => Machine {
                program: rest.program + seq![Value { at: h.at, form: Form::Prepare(t) }, *h],
                ..rest
            },
            Form::Symbol(name) => resolve(rest, top.at, name),
            Form::Prepare(args) => prepare(rest, top.at, *args),
            Form::Parameterize => if rest.params.len() == 0 {
                abort(rest)
            } else {
                Machine {
                    params: rest.params.drop_last().push(rest.params.last().push(rest.result)),
                    ..rest
                }
            },
            Form::Call(callee) => call(rest, top.at, *callee),
            Form::Deparameterize(names) => Machine {
                store: pop_bindings(rest.store, names),
                ..rest
            },
            Form::Evaluate => Machine { program: rest.program.push(rest.result), ..rest },
            Form::If(then, otherwise) => if rest.result.form == Form::Boolean(false) {
                Machine { program: rest.program.push(*otherwise), ..rest }
            } else {
                Machine { program: rest.program.push(*then), ..rest }
            },
            Form::Wind => rest,
            _ => with_result(rest, top),
        }
    }
}

/// The machine after `n` steps.
pub open spec fn run(m: Machine, n: nat) -> Machine
    decreases n,
{
    if n == 0 {
        m
    } else {
        step(run(m, (n - 1) as nat))
    }
}

/// How many times `x` occurs in `s`.
pub open spec fn occurrences(s: Seq<Seq<char>>, x: Seq<char>) -> nat
    decreases s.len(),
{
    if s.len() == 0 {
        0
    } else if s.last() == x {
        occurrences(s.drop_last(), x) + 1
    } else {
        occurrences(s.drop_last(), x)
    }
}

/// The number of live bindings of `name`.
pub open spec fn depth(store: Map<Seq<char>, Seq<Value>>, name: Seq<char>) -> nat {
    stack_of(store, name).len()
}

/// `a - b`, or zero where `b` is larger.
pub open spec fn monus(a: nat, b: nat) -> nat {
    if a >= b {
        (a - b) as nat
    } else {
        0
    }
}

pub proof fn lemma_pop_bindings_depth(
    store: Map<Seq<char>, Seq<Value>>,
    names: Seq<Seq<char>>,
    x: Seq<char>,
)
    ensures
        depth(pop_bindings(store, names), x) == monus(depth(store, x), occurrences(names, x)),
    decreases names.len(),
{
    if names.len() > 0 {
        lemma_pop_bindings_depth(store, names.drop_last(), x);
        let before = pop_bindings(store, names.drop_last());
        let after = pop_binding(before, names.last());
        if names.last() == x && before.contains_key(x) && before[x].len() > 1 {
            assert(after[x] == before[x].drop_last());
        }
    }
}

pub proof fn lemma_bind_all_depth(
    store: Map<Seq<char>, Seq<Value>>,
    names: Seq<Seq<char>>,
    values: Seq<Value>,
    x: Seq<char>,
)
    requires
        names.len() == values.len(),
    ensures
        depth(bind_all(store, names, values), x) == depth(store, x) + occurrences(names, x),
    decreases names.len(),
{
    if names.len() > 0 {
        lemma_bind_all_depth(store, names.drop_last(), values.drop_last(), x);
    }
}

pub proof fn lemma_shared_occurrences(names: Seq<Seq<char>>, others: Seq<Seq<char>>, x: Seq<char>)
    ensures
        occurrences(shared(names, others), x) == if others.contains(x) {
            occurrences(names, x)
        } else {
            0
        },
    decreases names.len(),
{
    if names.len() > 0 {
        lemma_shared_occurrences(names.drop_last(), others, x);
        let rest = shared(names.drop_last(), others);
        if others.contains(names.last()) {
            assert(shared(names, others).drop_last() =~= rest);
        }
    }
}

pub proof fn lemma_occurs_once(s: Seq<Seq<char>>, x: Seq<char>)
    requires
        s.no_duplicates(),
        s.contains(x),
    ensures
        occurrences(s, x) == 1,
    decreases s.len(),
{
    let rest = s.drop_last();
    if s.last() == x {
        assert forall|i: int| 0 <= i < rest.len() implies rest[i] != x by {
            assert(s[i] != s[s.len() - 1]);
        }
        lemma_occurs_never(rest, x);
    } else {
        let i = choose|i: int| 0 <= i < s.len() && s[i] == x;
        assert(rest[i] == x);
        lemma_occurs_once(rest, x);
    }
}

pub proof fn lemma_occurs_never(s: Seq<Seq<char>>, x: Seq<char>)
    requires
        !s.contains(x),
    ensures
        occurrences(s, x) == 0,
    decreases s.len(),
{
    if s.len() > 0 {
        assert(!s.drop_last().contains(x)) by {
            if s.drop_last().contains(x) {
                let i = choose|i: int| 0 <= i < s.drop_last().len() && s.drop_last()[i] == x;
                assert(s[i] == x);
            }
        }
        lemma_occurs_never(s.drop_last(), x);
    }
}

/// A call of a library function in tail position: the teardown marker of the
/// running call tops the rest of the work stack. Every name that both calls
/// bind keeps the number of live bindings it had, and the call's teardown
/// marker takes the place of the old one instead of stacking on it, so a
/// function that calls itself in tail position runs in bounded space.
pub proof fn lemma_tail_call_keeps_depth(
    m: Machine,
    callee: Value,
    names: Seq<Seq<char>>,
    body: Value,
    existing: Seq<Seq<char>>,
    x: Seq<char>,
)
    requires
        m.program.len() >= 2,
        m.program.last().form == Form::Call(Box::new(callee)),
        callee.form == Form::LibraryFunction(names, Box::new(body)),
        m.program.drop_last().last().form == Form::Deparameterize(existing),
        m.params.len() > 0,
        m.params.last().len() == names.len(),
        names.no_duplicates(),
        existing.no_duplicates(),
        names.contains(x),
        existing.contains(x),
        depth(m.store, x) >= 1,
    ensures
        depth(step(m).store, x) == depth(m.store, x),
        step(m).program == m.program.drop_last().drop_last().push(
            Value {
                at: m.program.last().at,
                form: Form::Deparameterize(without(existing, names) + names),
            },
        ) + reversed(list_items(body)),
{
    let rest = Machine { program: m.program.drop_last(), ..m };
    let popped = Machine { params: rest.params.drop_last(), ..rest };
    assert(popped.program.last().form is Deparameterize);
    let after_pop = pop_bindings(m.store, shared(existing, names));
    lemma_shared_occurrences(existing, names, x);
    lemma_occurs_once(existing, x);
    lemma_occurs_once(names, x);
    lemma_pop_bindings_depth(m.store, shared(existing, names), x);
    lemma_bind_all_depth(after_pop, names, m.params.last(), x);
}

/// What a teardown of the items of a work stack pops: the bindings that
/// its teardown markers name, the topmost marker first.
pub open spec fn teardown(store: Map<Seq<char>, Seq<Value>>, work: Seq<Value>) -> Map<
    Seq<char>,
    Seq<Value>,
>
    decreases work.len(),
{
    if work.len() == 0 {
        store
    } else {
        match work.last().form {
            Form::Deparameterize(names) => teardown(pop_bindings(store, names), work.drop_last()),
            _ => teardown(store, work.drop_last()),
        }
    }
}

/// The number of call markers among `work`.
pub open spec fn calls_in(work: Seq<Value>) -> nat
    decreases work.len(),
{
    if work.len() == 0 {
        0
    } else if work.last().form is Call {
        calls_in(work.drop_last()) + 1
    } else {
        calls_in(work.drop_last())
    }
}

/// An unwind stops at the nearest wind marker: the work stack below it is
/// left as it was, every teardown marker above it has popped its bindings,
/// every call marker above it has dropped its argument frame, and the result
/// register still holds the error.
pub proof fn lemma_unwind_stops_at_wind(
    m: Machine,
    below: Seq<Value>,
    wind: Value,
    above: Seq<Value>,
)
    requires
        wind.form is Wind,
        m.program == below.push(wind) + above,
        forall|i: int| 0 <= i < above.len() ==> !((#[trigger] above[i]).form is Wind),
        calls_in(above) <= m.params.len(),
    ensures
        unwind_scan(m) == (Machine {
            program: below,
            store: teardown(m.store, above),
            params: m.params.take(m.params.len() - calls_in(above)),
            result: m.result,
        }),
    decreases above.len(),
{
    if above.len() == 0 {
        assert(m.program =~= below.push(wind));
        assert(m.program.drop_last() =~= below);
        assert(m.params.take(m.params.len() as int) =~= m.params);
    } else {
        let top = above.last();
        assert(m.program.last() == top);
        assert(m.program.drop_last() =~= below.push(wind) + above.drop_last());
        let rest = Machine { program: m.program.drop_last(), ..m };
        assert(!(above[above.len() - 1].form is Wind));
        match top.form {
            Form::Deparameterize(names) => {
                lemma_unwind_stops_at_wind(
                    Machine { store: pop_bindings(m.store, names), ..rest },
                    below,
                    wind,
                    above.drop_last(),
                );
            },
            Form::Call(_) => {
                let next = Machine { params: m.params.drop_last(), ..rest };
                lemma_unwind_stops_at_wind(next, below, wind, above.drop_last());
                assert(next.params.take(next.params.len() - calls_in(above.drop_last()))
                    =~= m.params.take(m.params.len() - calls_in(above)));
            },
            _ => {
                lemma_unwind_stops_at_wind(rest, below, wind, above.drop_last());
            },
        }
    }
}

} // verus!
