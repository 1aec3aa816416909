//! The evaluator's own operations on a work stack and an environment: raising
//! and unwinding, the tail-call merge, one step, and the evaluation loop.
use vstd::prelude::*;
use std::rc::Rc;
use crate::builtins::{
    bind_name, call_builtin, call_macro, push_arguments, push_reversed, standard_library,
};
use crate::integer::parse_integer;
use crate::machine::{
    abort, call, empty_binding_message, error_value, fail, prepare, raise, resolve, reversed, run,
    shared, step, tail_merge, text_value, unbound_message, unwind_call, unwind_scan, without,
    Machine,
};
use crate::data_structures::{
    collect_pair_into_vec, duplicate_source, location_of, names_of, plain, values_of, Boolean,
    null, null_value, Builtin, BuiltinMacro, Commands, Coredata, Form, Function, Macro, Node,
    Program, Source, Sourcedata, Value,
};
use crate::store::{bind_all, frames_of, Env, Store};

verus! {

/// The model of a work stack and an environment.
pub open spec fn machine_of(program: Program, env: Env) -> Machine {
    Machine {
        program: values_of(program@),
        store: env.store@,
        params: frames_of(env.params@),
        result: env.result@,
    }
}

/// A text node read at `at`.
pub fn text_node(at: Option<Source>, text: String) -> (r: Node)
    ensures
        r@ == text_value(location_of(at), text@),
{
    Rc::new(Sourcedata(at, Coredata::String(text)))
}

/// An error node read at `at` that carries `payload`.
pub fn error_node(at: Option<Source>, payload: Node) -> (r: Node)
    ensures
        r@ == error_value(location_of(at), payload@),
{
    Rc::new(Sourcedata(at, Coredata::Error(payload)))
}

/// Starts an unwind that carries `error`: pushes a call of the unwind
/// primitive, with `error` already collected as its one argument.
pub fn raise_error(program: &mut Program, env: &mut Env, error: Node)
    requires
        old(env).wf(),
    ensures
        final(env).wf(),
        machine_of(*final(program), *final(env)) == raise(
            machine_of(*old(program), *old(env)),
            error@,
        ),
{
    let ghost error_model = error@;
    let mut frame: Vec<Node> = Vec::new();
    frame.push(error);
    env.params.push(frame);
    let unwind = Rc::new(Sourcedata(None, Coredata::Function(Function::Builtin(Builtin::Unwind))));
    proof {
        assert(unwind@ == plain(Form::BuiltinFunction(Builtin::Unwind)));
    }
    program.push(Rc::new(Sourcedata(None, Coredata::Internal(Commands::Call(unwind)))));
    proof {
        assert(values_of(frame@) =~= seq![error_model]);
        assert(values_of(program@) =~= values_of(old(program)@).push(unwind_call()));
        assert(frames_of(env.params@) =~= frames_of(old(env).params@).push(seq![error_model]));
    }
}

/// Raises an error whose payload is the text `message`, both read at `at`.
pub fn fail_with(program: &mut Program, env: &mut Env, at: &Option<Source>, message: String)
    requires
        old(env).wf(),
    ensures
        final(env).wf(),
        machine_of(*final(program), *final(env)) == fail(
            machine_of(*old(program), *old(env)),
            location_of(*at),
            message@,
        ),
{
    let text = text_node(duplicate_source(at), message);
    let error = error_node(duplicate_source(at), text);
    raise_error(program, env, error);
}

/// Stops the machine: the work stack is emptied and the result is an error.
pub fn abort_evaluation(program: &mut Program, env: &mut Env)
    requires
        old(env).wf(),
    ensures
        final(env).wf(),
        machine_of(*final(program), *final(env)) == abort(machine_of(*old(program), *old(env))),
{
    program.clear();
    let text = text_node(None, String::from_str("the parameter stack is inconsistent"));
    env.result = error_node(None, text);
    proof {
        assert(values_of(program@) =~= seq![]);
    }
}

/// Pops the work stack down to the nearest wind marker, tearing down the
/// bindings and the argument frames of what it pops.
pub fn unwind(program: &mut Program, env: &mut Env)
    requires
        old(env).wf(),
    ensures
        final(env).wf(),
        machine_of(*final(program), *final(env)) == unwind_scan(
            machine_of(*old(program), *old(env)),
        ),
{
    loop
        invariant_except_break
            env.wf(),
            unwind_scan(machine_of(*program, *env)) == unwind_scan(
                machine_of(*old(program), *old(env)),
            ),
        ensures
            env.wf(),
            machine_of(*program, *env) == unwind_scan(machine_of(*old(program), *old(env))),
        decreases program@.len(),
    {
        let ghost before = machine_of(*program, *env);
        let top = match program.pop() {
            Some(t) => t,
            None => break,
        };
        proof {
            assert(values_of(program@) =~= before.program.drop_last());
        }
        match &top.1 {
            Coredata::Internal(Commands::Wind) => {
                break ;
            },
            Coredata::Internal(Commands::Deparameterize(names)) => {
                env.store.pop_all(names);
            },
            Coredata::Internal(Commands::Call(_)) => {
                env.params.pop();
                proof {
                    assert(frames_of(env.params@) =~= if before.params.len() > 0 {
                        before.params.drop_last()
                    } else {
                        before.params
                    });
                }
            },
            _ => {},
        }
    }
}

/// Whether `name` is one of `names`.
pub fn contains_name(names: &Vec<String>, name: &String) -> (r: bool)
    ensures
        r == names_of(names@).contains(name@),
{
    let mut i: usize = 0;
    while i < names.len()
        invariant
            i <= names@.len(),
            forall|j: int| 0 <= j < i ==> names@[j]@ != name@,
        decreases names@.len() - i,
    {
        if names[i] == *name {
            proof {
                assert(names_of(names@)[i as int] == name@);
            }
            return true;
        }
        i = i + 1;
    }
    proof {
        if names_of(names@).contains(name@) {
            let j = choose|j: int| 0 <= j < names@.len() && names_of(names@)[j] == name@;
            assert(names@[j]@ == name@);
        }
    }
    false
}

/// A copy of a list of names.
pub fn copy_names(names: &Vec<String>) -> (r: Vec<String>)
    ensures
        names_of(r@) == names_of(names@),
{
    let mut r: Vec<String> = Vec::new();
    let mut i: usize = 0;
    while i < names.len()
        invariant
            i <= names@.len(),
            names_of(r@) == names_of(names@).take(i as int),
        decreases names@.len() - i,
    {
        let name = names[i].clone();
        proof {
            assert(name@ == names@[i as int]@);
        }
        let ghost prev = r@;
        r.push(name);
        proof {
            assert(names_of(r@) =~= names_of(prev).push(names@[i as int]@));
            assert(names_of(r@) =~= names_of(names@).take(i + 1));
        }
        i = i + 1;
    }
    proof {
        assert(names_of(names@).take(i as int) =~= names_of(names@));
    }
    r
}

/// The tail-call merge: where a teardown marker tops the work stack, it is
/// taken off; each of its names that `names` also holds loses one binding
/// now, and the names it keeps followed by `names` come back, to make the
/// one teardown marker of the new call. Otherwise the work stack stays and
/// `names` come back.
pub fn optimize_tail_call(program: &mut Program, env: &mut Env, names: &Vec<String>) -> (r: Vec<
    String,
>)
    requires
        old(env).wf(),
    ensures
        final(env).wf(),
        machine_of(*final(program), *final(env)) == tail_merge(
            machine_of(*old(program), *old(env)),
            names_of(names@),
        ).0,
        names_of(r@) == tail_merge(machine_of(*old(program), *old(env)), names_of(names@)).1,
{
    let ghost start = machine_of(*program, *env);
    let top = match program.pop() {
        Some(t) => t,
        None => {
            return copy_names(names);
        },
    };
    proof {
        assert(values_of(program@) =~= start.program.drop_last());
    }
    match &top.1 {
        Coredata::Internal(Commands::Deparameterize(existing)) => {
            let ghost ex = names_of(existing@);
            let ghost new = names_of(names@);
            let mut merged: Vec<String> = Vec::new();
            let mut i: usize = 0;
            while i < existing.len()
                invariant
                    i <= existing@.len(),
                    ex == names_of(existing@),
                    new == names_of(names@),
                    env.wf(),
                    names_of(merged@) == without(ex.take(i as int), new),
                    env.store@ == crate::store::pop_bindings(start.store, shared(ex.take(i as int), new)),
                    env.params == old(env).params,
                    env.result == old(env).result,
                decreases existing@.len() - i,
            {
                proof {
                    assert(ex.take(i + 1).drop_last() =~= ex.take(i as int));
                }
                if contains_name(names, &existing[i]) {
                    env.store.pop(&existing[i]);
                    proof {
                        assert(shared(ex.take(i + 1), new) =~= shared(ex.take(i as int), new).push(ex[i as int]));
                        assert(shared(ex.take(i + 1), new).drop_last() =~= shared(ex.take(i as int), new));
                    }
                } else {
                    let name = existing[i].clone();
                    proof {
                        assert(name@ == existing@[i as int]@);
                        assert(shared(ex.take(i + 1), new) =~= shared(ex.take(i as int), new));
                    }
                    merged.push(name);
                    proof {
                        assert(names_of(merged@) =~= without(ex.take(i + 1), new));
                    }
                }
                i = i + 1;
            }
            proof {
                assert(ex.take(i as int) =~= ex);
            }
            let mut j: usize = 0;
            while j < names.len()
                invariant
                    j <= names@.len(),
                    new == names_of(names@),
                    names_of(merged@) == without(ex, new) + new.take(j as int),
                decreases names@.len() - j,
            {
                let name = names[j].clone();
                proof {
                    assert(name@ == names@[j as int]@);
                }
                let ghost prev = merged@;
                merged.push(name);
                proof {
                    assert(names_of(merged@) =~= names_of(prev).push(new[j as int]));
                    assert(names_of(merged@) =~= without(ex, new) + new.take(j + 1));
                }
                j = j + 1;
            }
            proof {
                assert(new.take(j as int) =~= new);
            }
            merged
        },
        _ => {
            program.push(top);
            proof {
                assert(values_of(program@) =~= start.program);
            }
            copy_names(names)
        },
    }
}

/// Evaluates the symbol `name` read at `at`: an integer literal, or else the
/// newest binding of the name.
pub fn resolve_symbol(program: &mut Program, env: &mut Env, at: &Option<Source>, name: &String)
    requires
        old(env).wf(),
    ensures
        final(env).wf(),
        machine_of(*final(program), *final(env)) == resolve(
            machine_of(*old(program), *old(env)),
            location_of(*at),
            name@,
        ),
{
    match parse_integer(name.as_str()) {
        Some(i) => {
            env.result = Rc::new(Sourcedata(duplicate_source(at), Coredata::Integer(i)));
        },
        None => {
            let found: Option<Option<Node>> = match env.store.lookup(name) {
                Some(stack) => if stack.len() > 0 {
                    Some(Some(stack[stack.len() - 1].clone()))
                } else {
                    Some(None)
                },
                None => None,
            };
            match found {
                Some(Some(value)) => {
                    env.result = value;
                },
                Some(None) => {
                    let mut message = String::from_str("`");
                    message.append(name.as_str());
                    message.append("' does exist but its stack is empty");
                    proof {
                        assert(message@ == empty_binding_message(name@));
                    }
                    fail_with(program, env, at, message);
                },
                None => {
                    let mut message = String::from_str("`");
                    message.append(name.as_str());
                    message.append("' does not exist");
                    proof {
                        assert(message@ == unbound_message(name@));
                    }
                    fail_with(program, env, at, message);
                },
            }
        },
    }
}

/// `Prepare(args)` read at `at`: acts on the evaluated operator in the
/// result register.
pub fn prepare_call(program: &mut Program, env: &mut Env, at: &Option<Source>, args: &Node)
    requires
        old(env).wf(),
    ensures
        final(env).wf(),
        machine_of(*final(program), *final(env)) == prepare(
            machine_of(*old(program), *old(env)),
            location_of(*at),
            args@,
        ),
{
    let ghost m = machine_of(*program, *env);
    let callee = env.result.clone();
    match &callee.1 {
        Coredata::Function(_) => {
            let empty: Vec<Node> = Vec::new();
            proof {
                assert(values_of(empty@) =~= seq![]);
            }
            env.params.push(empty);
            let ghost prev = program@;
            program.push(
                Rc::new(Sourcedata(duplicate_source(at), Coredata::Internal(Commands::Call(callee.clone())))),
            );
            proof {
                assert(frames_of(env.params@) =~= m.params.push(seq![]));
                assert(values_of(program@) =~= values_of(prev).push(
                    Value { at: location_of(*at), form: Form::Call(Box::new(m.result)) },
                ));
            }
            let items = collect_pair_into_vec(args);
            push_arguments(program, &items);
        },
        Coredata::Macro(Macro::Builtin(b)) => {
            env.result = args.clone();
            call_macro(*b, program, env, at);
        },
        Coredata::Macro(Macro::Library(bound, body)) => {
            let ghost prev = program@;
            program.push(Rc::new(Sourcedata(None, Coredata::Internal(Commands::Evaluate))));
            proof {
                assert(values_of(program@) =~= values_of(prev).push(plain(Form::Evaluate)));
            }
            let mut single: Vec<String> = Vec::new();
            single.push(bound.clone());
            proof {
                assert(names_of(single@) =~= seq![bound@]);
            }
            let names = optimize_tail_call(program, env, &single);
            env.store.push(bound, args.clone());
            let ghost before = program@;
            program.push(
                Rc::new(Sourcedata(duplicate_source(at), Coredata::Internal(Commands::Deparameterize(names)))),
            );
            proof {
                assert(values_of(program@) =~= values_of(before).push(
                    Value { at: location_of(*at), form: Form::Deparameterize(names_of(names@)) },
                ));
            }
            let items = collect_pair_into_vec(body);
            push_reversed(program, &items);
        },
        _ => {
            fail_with(program, env, at, String::from_str("element not callable"));
        },
    }
}

/// `Call(callee)` read at `at`: runs a primitive function, or binds the
/// arguments of a library function and pushes its body.
pub fn call_function(program: &mut Program, env: &mut Env, at: &Option<Source>, callee: &Node)
    requires
        old(env).wf(),
    ensures
        final(env).wf(),
        machine_of(*final(program), *final(env)) == call(
            machine_of(*old(program), *old(env)),
            location_of(*at),
            callee@,
        ),
{
    let ghost m = machine_of(*program, *env);
    match &callee.1 {
        Coredata::Function(Function::Builtin(b)) => {
            let error = call_builtin(*b, program, env);
            if env.params.len() == 0 {
                abort_evaluation(program, env);
                return ;
            }
            let ghost after = env.params@;
            env.params.pop();
            proof {
                assert(frames_of(env.params@) =~= frames_of(after).drop_last());
            }
            match error {
                Some(payload) => {
                    let error = error_node(duplicate_source(at), payload);
                    raise_error(program, env, error);
                },
                None => {},
            }
        },
        Coredata::Function(Function::Library(names, body)) => {
            let args = match env.params.pop() {
                Some(frame) => frame,
                None => {
                    abort_evaluation(program, env);
                    return ;
                },
            };
            proof {
                assert(frames_of(env.params@) =~= m.params.drop_last());
                assert(values_of(args@) == m.params.last());
            }
            if args.len() != names.len() {
                fail_with(
                    program,
                    env,
                    at,
                    String::from_str("during library function call: arity mismatch"),
                );
                return ;
            }
            let teardown = optimize_tail_call(program, env, names);
            let ghost bound_from = env.store@;
            let ghost params_now = env.params;
            let ghost result_now = env.result;
            let ghost ns = names_of(names@);
            let ghost vs = values_of(args@);
            let mut i: usize = 0;
            while i < names.len()
                invariant
                    i <= names@.len(),
                    names@.len() == args@.len(),
                    ns == names_of(names@),
                    vs == values_of(args@),
                    env.wf(),
                    env.store@ == bind_all(bound_from, ns.take(i as int), vs.take(i as int)),
                    env.params == params_now,
                    env.result == result_now,
                decreases names@.len() - i,
            {
                env.store.push(&names[i], args[i].clone());
                proof {
                    assert(ns.take(i + 1).drop_last() =~= ns.take(i as int));
                    assert(vs.take(i + 1).drop_last() =~= vs.take(i as int));
                }
                i = i + 1;
            }
            proof {
                assert(ns.take(i as int) =~= ns);
                assert(vs.take(i as int) =~= vs);
            }
            let ghost before = program@;
            program.push(
                Rc::new(Sourcedata(duplicate_source(at), Coredata::Internal(Commands::Deparameterize(teardown)))),
            );
            proof {
                assert(values_of(program@) =~= values_of(before).push(
                    Value { at: location_of(*at), form: Form::Deparameterize(names_of(teardown@)) },
                ));
            }
            let items = collect_pair_into_vec(body);
            push_reversed(program, &items);
        },
        _ => {
            fail_with(program, env, at, String::from_str("element not callable"));
        },
    }
}

/// One step of the machine: pops the top of the work stack and acts on it.
pub fn step_once(program: &mut Program, env: &mut Env)
    requires
        old(env).wf(),
    ensures
        final(env).wf(),
        machine_of(*final(program), *final(env)) == step(machine_of(*old(program), *old(env))),
{
    let ghost m = machine_of(*program, *env);
    let top = match program.pop() {
        Some(t) => t,
        None => {
            return ;
        },
    };
    proof {
        assert(values_of(program@) =~= m.program.drop_last());
    }
    match &top.1 {
        Coredata::Pair(h, t) => {
            let ghost prev = program@;
            program.push(
                Rc::new(Sourcedata(duplicate_source(&h.0), Coredata::Internal(Commands::Prepare(t.clone())))),
            );
            program.push(h.clone());
            proof {
                assert(values_of(program@) =~= values_of(prev) + seq![
                    Value { at: h@.at, form: Form::Prepare(Box::new(t@)) },
                    h@,
                ]);
            }
        },
        Coredata::Symbol(name) => {
            resolve_symbol(program, env, &top.0, name);
        },
        Coredata::Internal(Commands::Prepare(args)) => {
            prepare_call(program, env, &top.0, args);
        },
        Coredata::Internal(Commands::Parameterize) => {
            match env.params.pop() {
                Some(frame) => {
                    let mut frame = frame;
                    let ghost f = frame@;
                    frame.push(env.result.clone());
                    env.params.push(frame);
                    proof {
                        assert(values_of(frame@) =~= values_of(f).push(m.result));
                        assert(frames_of(env.params@) =~= m.params.drop_last().push(
                            m.params.last().push(m.result),
                        ));
                    }
                },
                None => {
                    abort_evaluation(program, env);
                },
            }
        },
        Coredata::Internal(Commands::Call(callee)) => {
            call_function(program, env, &top.0, callee);
        },
        Coredata::Internal(Commands::Deparameterize(names)) => {
            env.store.pop_all(names);
        },
        Coredata::Internal(Commands::Evaluate) => {
            let ghost prev = program@;
            program.push(env.result.clone());
            proof {
                assert(values_of(program@) =~= values_of(prev).push(m.result));
            }
        },
        Coredata::Internal(Commands::If(then, otherwise)) => {
            let ghost prev = program@;
            let next = match &env.result.1 {
                Coredata::Boolean(Boolean::False) => otherwise.clone(),
                _ => then.clone(),
            };
            program.push(next);
            proof {
                assert(values_of(program@) =~= values_of(prev).push(next@));
            }
        },
        Coredata::Internal(Commands::Wind) => {},
        _ => {
            env.result = top.clone();
        },
    }
}

/// The machine that evaluates `program` in `env`: the forms are pushed so
/// that the first comes off first.
pub open spec fn initial(program: Program, env: Env) -> Machine {
    Machine {
        program: reversed(values_of(program@)),
        store: env.store@,
        params: frames_of(env.params@),
        result: env.result@,
    }
}

/// `r` is what is left of the machine after `n` steps from `start`, and those
/// steps either emptied the work stack or used up the step budget.
pub open spec fn evaluated(start: Machine, n: nat, r: Env) -> bool {
    let m = run(start, n);
    &&& m.program.len() == 0 || n == u64::MAX
    &&& r.store@ == m.store
    &&& frames_of(r.params@) == m.params
    &&& r.result@ == m.result
}

/// Evaluates a program in an environment: steps the machine until its work
/// stack is empty (or, in principle, for `u64::MAX` steps). The value of the
/// program is the environment's result.
pub fn eval(program: Program, env: Env) -> (r: Env)
    requires
        env.wf(),
    ensures
        r.wf(),
        exists|n: nat| evaluated(initial(program, env), n, r),
{
    let ghost start = initial(program, env);
    let mut env = env;
    let mut work: Program = Vec::new();
    push_reversed(&mut work, &program);
    proof {
        assert(values_of(work@) =~= reversed(values_of(program@)));
    }
    let mut steps: u64 = 0;
    while work.len() > 0 && steps < u64::MAX
        invariant
            env.wf(),
            machine_of(work, env) == run(start, steps as nat),
        decreases u64::MAX - steps,
    {
        step_once(&mut work, &mut env);
        steps = steps + 1;
    }
    proof {
        assert(evaluated(start, steps as nat, env));
    }
    env
}

/// An environment whose store holds the primitive functions and macros and
/// the two booleans, with no argument frame and the empty list as result.
pub fn initialize_environment_with_standard_library() -> (r: Env)
    ensures
        r.wf(),
        r.store@ == standard_library(),
        r.params@.len() == 0,
        r.result@ == null_value(),
{
    proof {
        reveal_strlit("+");
        reveal_strlit("-");
        reveal_strlit("=");
        reveal_strlit("head");
        reveal_strlit("tail");
        reveal_strlit("pair");
        reveal_strlit("error");
        reveal_strlit("'");
        reveal_strlit("define");
        reveal_strlit("fn");
        reveal_strlit("mo");
        reveal_strlit("if");
        reveal_strlit("wind");
        reveal_strlit("true");
        reveal_strlit("false");
        assert("+"@.len() == 1 && "+"@[0] == '+');
        assert("-"@.len() == 1 && "-"@[0] == '-');
        assert("="@.len() == 1 && "="@[0] == '=');
        assert("head"@.len() == 4 && "head"@[0] == 'h');
        assert("tail"@.len() == 4 && "tail"@[0] == 't' && "tail"@[1] == 'a');
        assert("pair"@.len() == 4 && "pair"@[0] == 'p');
        assert("error"@.len() == 5 && "error"@[0] == 'e');
        assert("'"@.len() == 1 && "'"@[0] == '\'');
        assert("define"@.len() == 6 && "define"@[0] == 'd');
        assert("fn"@.len() == 2 && "fn"@[0] == 'f');
        assert("mo"@.len() == 2 && "mo"@[0] == 'm');
        assert("if"@.len() == 2 && "if"@[0] == 'i');
        assert("wind"@.len() == 4 && "wind"@[0] == 'w');
        assert("true"@.len() == 4 && "true"@[0] == 't' && "true"@[1] == 'r');
        assert("false"@.len() == 5 && "false"@[0] == 'f');
    }
    let mut store = Store::new();
    bind_name(&mut store, "+", Coredata::Function(Function::Builtin(Builtin::Add)));
    bind_name(&mut store, "-", Coredata::Function(Function::Builtin(Builtin::Subtract)));
    bind_name(&mut store, "=", Coredata::Function(Function::Builtin(Builtin::Equal)));
    bind_name(&mut store, "head", Coredata::Function(Function::Builtin(Builtin::Head)));
    bind_name(&mut store, "tail", Coredata::Function(Function::Builtin(Builtin::Tail)));
    bind_name(&mut store, "pair", Coredata::Function(Function::Builtin(Builtin::Pair)));
    bind_name(&mut store, "error", Coredata::Function(Function::Builtin(Builtin::Error)));
    bind_name(&mut store, "'", Coredata::Macro(Macro::Builtin(BuiltinMacro::Quote)));
    bind_name(&mut store, "define", Coredata::Macro(Macro::Builtin(BuiltinMacro::Define)));
    bind_name(&mut store, "fn", Coredata::Macro(Macro::Builtin(BuiltinMacro::Function)));
    bind_name(&mut store, "mo", Coredata::Macro(Macro::Builtin(BuiltinMacro::Macro)));
    bind_name(&mut store, "if", Coredata::Macro(Macro::Builtin(BuiltinMacro::If)));
    bind_name(&mut store, "wind", Coredata::Macro(Macro::Builtin(BuiltinMacro::Wind)));
    bind_name(&mut store, "true", Coredata::Boolean(Boolean::True));
    bind_name(&mut store, "false", Coredata::Boolean(Boolean::False));
    proof {
        assert(store@ =~= standard_library());
    }
    Env { store, params: Vec::new(), result: null() }
}

/// The machine that evaluates `program` from the standard library.
pub open spec fn standard_start(program: Seq<Value>) -> Machine {
    Machine {
        program: reversed(program),
        store: standard_library(),
        params: seq![],
        result: null_value(),
    }
}

/// Evaluates a program in a fresh environment that holds the standard
/// library. The value of the program is the environment's result.
pub fn interpret(program: Program) -> (r: Env)
    ensures
        r.wf(),
        exists|n: nat| evaluated(standard_start(values_of(program@)), n, r),
{
    let env = initialize_environment_with_standard_library();
    proof {
        assert(frames_of(env.params@) =~= seq![]);
        assert(initial(program, env) == standard_start(values_of(program@)));
    }
    eval(program, env)
}

} // verus!
