//! The primitive functions and macros, and the table that binds their names.
use vstd::prelude::*;
use std::rc::Rc;
use crate::interpret::{error_node, fail_with, machine_of, raise_error, text_node, unwind};
use crate::integer::{add_integers, integers_equal, subtract_integers, Integer};
use crate::machine::{
    all_equal, all_integers, argument_work, arguments, difference, integer_of, is_symbol_list,
    macro_native, native, reversed, sum, symbol_names,
};
use crate::data_structures::{
    collect_pair_into_vec, list_items, make_list, names_of, null, values_of, Boolean, Builtin,
    BuiltinMacro, Commands, Coredata, Form, Function, Macro, Node, Program, Source, Sourcedata,
    Value, location_of, plain, value_of,
};
use crate::store::{frames_of, Env, Store};

verus! {

pub open spec fn option_value(r: Option<Node>) -> Option<Value> {
    match r {
        Some(n) => Some(n@),
        None => None,
    }
}

/// A copy of the newest argument frame; empty where there is none.
pub fn current_arguments(env: &Env) -> (r: Vec<Node>)
    ensures
        values_of(r@) == (if frames_of(env.params@).len() > 0 {
            frames_of(env.params@).last()
        } else {
            seq![]
        }),
{
    let mut r: Vec<Node> = Vec::new();
    let k = env.params.len();
    if k == 0 {
        proof {
            assert(values_of(r@) =~= seq![]);
        }
        return r;
    }
    let frame = &env.params[k - 1];
    let mut i: usize = 0;
    while i < frame.len()
        invariant
            i <= frame@.len(),
            values_of(r@) == values_of(frame@).take(i as int),
        decreases frame@.len() - i,
    {
        let ghost prev = r@;
        let item = frame[i].clone();
        r.push(item);
        proof {
            assert(values_of(r@) =~= values_of(prev).push(frame@[i as int]@));
            assert(values_of(r@) =~= values_of(frame@).take(i + 1));
        }
        i = i + 1;
    }
    proof {
        assert(values_of(frame@).take(i as int) =~= values_of(frame@));
    }
    r
}

/// The integer a node holds, if it holds one.
pub fn as_integer(n: &Node) -> (r: Option<&Integer>)
    ensures
        r is Some <==> n@.form is Integer,
        r matches Some(i) ==> i.value() == integer_of(n@),
{
    match &n.1 {
        Coredata::Integer(i) => Some(i),
        _ => None,
    }
}

/// The sum of the arguments, if all are integers.
pub fn add_all(args: &Vec<Node>) -> (r: Option<Integer>)
    ensures
        r is Some <==> all_integers(values_of(args@)),
        r matches Some(i) ==> i.value() == sum(values_of(args@)),
{
    let ghost vs = values_of(args@);
    let mut total = Integer::zero();
    let mut i: usize = 0;
    while i < args.len()
        invariant
            i <= args@.len(),
            vs == values_of(args@),
            all_integers(vs.take(i as int)),
            total.value() == sum(vs.take(i as int)),
        decreases args@.len() - i,
    {
        match as_integer(&args[i]) {
            Some(n) => {
                total = add_integers(&total, n);
                proof {
                    assert(vs.take(i + 1).drop_last() =~= vs.take(i as int));
                    assert(all_integers(vs.take(i + 1)));
                }
            },
            None => {
                proof {
                    assert(!(vs[i as int].form is Integer));
                }
                return None;
            },
        }
        i = i + 1;
    }
    proof {
        assert(vs.take(i as int) =~= vs);
    }
    Some(total)
}

/// The first argument less the others, or the negation of a lone argument,
/// if all are integers.
pub fn subtract_all(args: &Vec<Node>) -> (r: Option<Integer>)
    ensures
        r is Some <==> all_integers(values_of(args@)),
        r matches Some(i) ==> i.value() == difference(values_of(args@)),
{
    let ghost vs = values_of(args@);
    if args.len() == 0 {
        return Some(Integer::zero());
    }
    let first = match as_integer(&args[0]) {
        Some(n) => n,
        None => {
            proof {
                assert(!(vs[0].form is Integer));
            }
            return None;
        },
    };
    if args.len() == 1 {
        return Some(subtract_integers(&Integer::zero(), first));
    }
    let mut total = first.duplicate();
    let mut i: usize = 1;
    while i < args.len()
        invariant
            1 <= i <= args@.len(),
            vs == values_of(args@),
            all_integers(vs.take(i as int)),
            total.value() == integer_of(vs[0]) - sum(vs.subrange(1, i as int)),
        decreases args@.len() - i,
    {
        match as_integer(&args[i]) {
            Some(n) => {
                total = subtract_integers(&total, n);
                proof {
                    assert(vs.subrange(1, i + 1).drop_last() =~= vs.subrange(1, i as int));
                    assert(all_integers(vs.take(i + 1)));
                }
            },
            None => {
                proof {
                    assert(!(vs[i as int].form is Integer));
                }
                return None;
            },
        }
        i = i + 1;
    }
    proof {
        assert(vs.take(i as int) =~= vs);
        assert(vs.subrange(1, i as int) =~= vs.drop_first());
    }
    Some(total)
}

/// Whether all arguments equal the first, if all are integers.
pub fn equal_all(args: &Vec<Node>) -> (r: Option<bool>)
    ensures
        r is Some <==> all_integers(values_of(args@)),
        r matches Some(b) ==> b == all_equal(values_of(args@)),
{
    let ghost vs = values_of(args@);
    if args.len() == 0 {
        return Some(true);
    }
    let first = match as_integer(&args[0]) {
        Some(n) => n,
        None => {
            proof {
                assert(!(vs[0].form is Integer));
            }
            return None;
        },
    };
    let mut same = true;
    let mut i: usize = 0;
    while i < args.len()
        invariant
            i <= args@.len(),
            args@.len() > 0,
            vs == values_of(args@),
            first.value() == integer_of(vs[0]),
            all_integers(vs.take(i as int)),
            same == (forall|j: int| 0 <= j < i ==> integer_of(#[trigger] vs[j]) == integer_of(vs[0])),
        decreases args@.len() - i,
    {
        match as_integer(&args[i]) {
            Some(n) => {
                let e = integers_equal(first, n);
                same = same && e;
                proof {
                    assert(integer_of(vs[i as int]) == n.value());
                    assert(all_integers(vs.take(i + 1)));
                }
            },
            None => {
                proof {
                    assert(!(vs[i as int].form is Integer));
                }
                return None;
            },
        }
        i = i + 1;
    }
    proof {
        assert(vs.take(i as int) =~= vs);
    }
    Some(same)
}

/// Runs the primitive function `b` on the newest argument frame, leaving the
/// frame in place; gives back the payload of the error it signals.
pub fn call_builtin(b: Builtin, program: &mut Program, env: &mut Env) -> (r: Option<Node>)
    requires
        old(env).wf(),
    ensures
        final(env).wf(),
        machine_of(*final(program), *final(env)) == native(b, machine_of(*old(program), *old(env))).0,
        option_value(r) == native(b, machine_of(*old(program), *old(env))).1,
{
    let ghost m = machine_of(*program, *env);
    let args = current_arguments(env);
    proof {
        assert(values_of(args@) == arguments(m));
    }
    match b {
        Builtin::Add => match add_all(&args) {
            Some(total) => {
                env.result = Rc::new(Sourcedata(None, Coredata::Integer(total)));
                None
            },
            None => Some(text_node(None, String::from_str("+ expects integers"))),
        },
        Builtin::Subtract => match subtract_all(&args) {
            Some(total) => {
                env.result = Rc::new(Sourcedata(None, Coredata::Integer(total)));
                None
            },
            None => Some(text_node(None, String::from_str("- expects integers"))),
        },
        Builtin::Equal => match equal_all(&args) {
            Some(same) => {
                let value = if same {
                    Boolean::True
                } else {
                    Boolean::False
                };
                env.result = Rc::new(Sourcedata(None, Coredata::Boolean(value)));
                None
            },
            None => Some(text_node(None, String::from_str("= expects integers"))),
        },
        Builtin::Head => if args.len() == 1 {
            env.result = args[0].head();
            None
        } else {
            Some(text_node(None, String::from_str("head expects one argument")))
        },
        Builtin::Tail => if args.len() == 1 {
            env.result = args[0].tail();
            None
        } else {
            Some(text_node(None, String::from_str("tail expects one argument")))
        },
        Builtin::Pair => if args.len() == 2 {
            env.result = Rc::new(
                Sourcedata(None, Coredata::Pair(args[0].clone(), args[1].clone())),
            );
            None
        } else {
            Some(text_node(None, String::from_str("pair expects two arguments")))
        },
        Builtin::Error => if args.len() == 1 {
            Some(args[0].clone())
        } else {
            Some(make_list(&args))
        },
        Builtin::Unwind => {
            env.result = if args.len() > 0 {
                args[0].clone()
            } else {
                null()
            };
            unwind(program, env);
            None
        },
        Builtin::Define => {
            if args.len() == 2 {
                if let Coredata::Symbol(name) = &args[0].1 {
                    env.store.push(name, args[1].clone());
                    env.result = args[1].clone();
                    return None;
                }
            }
            Some(text_node(None, String::from_str("define expects a name and a value")))
        },
    }
}

/// Pushes `items` so that the first comes off the work stack first.
pub fn push_reversed(program: &mut Program, items: &Vec<Node>)
    ensures
        values_of(final(program)@) == values_of(old(program)@) + reversed(values_of(items@)),
{
    let ghost vs = values_of(items@);
    let mut i: usize = items.len();
    while i > 0
        invariant
            i <= items@.len(),
            vs == values_of(items@),
            values_of(program@) == values_of(old(program)@) + reversed(
                vs.subrange(i as int, vs.len() as int),
            ),
        decreases i,
    {
        i = i - 1;
        let ghost prev = program@;
        program.push(items[i].clone());
        proof {
            assert(vs.subrange(i as int, vs.len() as int).drop_first() =~= vs.subrange(
                i + 1,
                vs.len() as int,
            ));
            assert(values_of(program@) =~= values_of(prev).push(vs[i as int]));
        }
    }
    proof {
        assert(vs.subrange(0, vs.len() as int) =~= vs);
    }
}

/// Pushes the work that evaluates `items` in order, each followed by a
/// marker that adds its value to the newest argument frame.
pub fn push_arguments(program: &mut Program, items: &Vec<Node>)
    ensures
        values_of(final(program)@) == values_of(old(program)@) + argument_work(values_of(items@)),
{
    let ghost vs = values_of(items@);
    let mut i: usize = items.len();
    while i > 0
        invariant
            i <= items@.len(),
            vs == values_of(items@),
            values_of(program@) == values_of(old(program)@) + argument_work(
                vs.subrange(i as int, vs.len() as int),
            ),
        decreases i,
    {
        i = i - 1;
        let ghost prev = program@;
        program.push(Rc::new(Sourcedata(None, Coredata::Internal(Commands::Parameterize))));
        program.push(items[i].clone());
        proof {
            assert(vs.subrange(i as int, vs.len() as int).drop_first() =~= vs.subrange(
                i + 1,
                vs.len() as int,
            ));
            assert(values_of(program@) =~= values_of(prev) + seq![
                plain(Form::Parameterize),
                vs[i as int],
            ]);
        }
    }
    proof {
        assert(vs.subrange(0, vs.len() as int) =~= vs);
    }
}

/// The names of a list of symbols, if every element is a symbol.
pub fn symbol_list(list: &Node) -> (r: Option<Vec<String>>)
    ensures
        r is Some <==> is_symbol_list(list@),
        r matches Some(v) ==> names_of(v@) == symbol_names(list@),
{
    let mut names: Vec<String> = Vec::new();
    let mut rest: Node = list.clone();
    loop
        invariant
            names_of(names@) + symbol_names(rest@) == symbol_names(list@),
            is_symbol_list(rest@) == is_symbol_list(list@),
        decreases *rest,
    {
        let next = match &rest.1 {
            Coredata::Null => {
                proof {
                    assert(rest@.form == Form::Null);
                    assert(names_of(names@) + symbol_names(rest@) =~= names_of(names@));
                }
                return Some(names);
            },
            Coredata::Pair(h, t) => match &h.1 {
                Coredata::Symbol(s) => {
                    let ghost prev = names@;
                    names.push(s.clone());
                    proof {
                        assert(h@.form == Form::Symbol(s@));
                        assert(rest@.form == Form::Pair(Box::new(h@), Box::new(t@)));
                        assert(names_of(names@) =~= names_of(prev).push(s@));
                        assert(names_of(names@) + symbol_names(t@) =~= names_of(prev)
                            + symbol_names(rest@));
                    }
                    t.clone()
                },
                _ => {
                    return None;
                },
            },
            _ => {
                return None;
            },
        };
        rest = next;
    }
}

/// Runs the primitive macro `b`; the result register holds its unevaluated
/// argument list, and `at` is where the call was read.
pub fn call_macro(b: BuiltinMacro, program: &mut Program, env: &mut Env, at: &Option<Source>)
    requires
        old(env).wf(),
    ensures
        final(env).wf(),
        machine_of(*final(program), *final(env)) == macro_native(
            b,
            machine_of(*old(program), *old(env)),
            location_of(*at),
        ),
{
    let ghost m = machine_of(*program, *env);
    let args = env.result.clone();
    let items = collect_pair_into_vec(&args);
    match b {
        BuiltinMacro::Quote => {
            env.result = args.head();
        },
        BuiltinMacro::Define => {
            if items.len() == 2 {
                if let Coredata::Symbol(_) = &items[0].1 {
                    let mut frame: Vec<Node> = Vec::new();
                    frame.push(items[0].clone());
                    env.params.push(frame);
                    let define = Rc::new(
                        Sourcedata(None, Coredata::Function(Function::Builtin(Builtin::Define))),
                    );
                    let ghost prev = program@;
                    proof {
                        assert(define@ == plain(Form::BuiltinFunction(Builtin::Define)));
                    }
                    program.push(Rc::new(Sourcedata(None, Coredata::Internal(Commands::Call(define)))));
                    program.push(Rc::new(Sourcedata(None, Coredata::Internal(Commands::Parameterize))));
                    program.push(items[1].clone());
                    proof {
                        assert(values_of(frame@) =~= seq![items@[0]@]);
                        assert(frames_of(env.params@) =~= m.params.push(seq![items@[0]@]));
                        assert(values_of(program@) =~= values_of(prev) + seq![
                            plain(Form::Call(Box::new(plain(Form::BuiltinFunction(Builtin::Define))))),
                            plain(Form::Parameterize),
                            items@[1]@,
                        ]);
                    }
                    return ;
                }
            }
            fail_with(program, env, at, String::from_str("define expects a name and a value"));
        },
        BuiltinMacro::Function => {
            if items.len() >= 1 {
                if let Some(names) = symbol_list(&items[0]) {
                    env.result = Rc::new(
                        Sourcedata(None, Coredata::Function(Function::Library(names, args.tail()))),
                    );
                    return ;
                }
            }
            fail_with(program, env, at, String::from_str("fn expects a list of parameter names"));
        },
        BuiltinMacro::Macro => {
            if items.len() >= 1 {
                if let Coredata::Symbol(name) = &items[0].1 {
                    env.result = Rc::new(
                        Sourcedata(None, Coredata::Macro(Macro::Library(name.clone(), args.tail()))),
                    );
                    return ;
                }
            }
            fail_with(
                program,
                env,
                at,
                String::from_str("mo expects a name to bind the arguments to"),
            );
        },
        BuiltinMacro::If => {
            if items.len() == 2 || items.len() == 3 {
                let otherwise = if items.len() == 3 {
                    items[2].clone()
                } else {
                    null()
                };
                let ghost prev = program@;
                program.push(
                    Rc::new(
                        Sourcedata(
                            None,
                            Coredata::Internal(Commands::If(items[1].clone(), otherwise)),
                        ),
                    ),
                );
                program.push(items[0].clone());
                proof {
                    assert(values_of(program@) =~= values_of(prev) + seq![
                        plain(Form::If(Box::new(items@[1]@), Box::new(otherwise@))),
                        items@[0]@,
                    ]);
                }
            } else {
                fail_with(
                    program,
                    env,
                    at,
                    String::from_str("if expects a condition and one or two branches"),
                );
            }
        },
        BuiltinMacro::Wind => {
            let ghost prev = program@;
            program.push(Rc::new(Sourcedata(None, Coredata::Internal(Commands::Wind))));
            proof {
                assert(values_of(program@) =~= values_of(prev).push(plain(Form::Wind)));
            }
            push_reversed(program, &items);
        },
    }
}

/// The names that an evaluation starts with, each with one binding.
pub open spec fn standard_library() -> Map<Seq<char>, Seq<Value>> {
    map![
        "+"@ => seq![plain(Form::BuiltinFunction(Builtin::Add))],
        "-"@ => seq![plain(Form::BuiltinFunction(Builtin::Subtract))],
        "="@ => seq![plain(Form::BuiltinFunction(Builtin::Equal))],
        "head"@ => seq![plain(Form::BuiltinFunction(Builtin::Head))],
        "tail"@ => seq![plain(Form::BuiltinFunction(Builtin::Tail))],
        "pair"@ => seq![plain(Form::BuiltinFunction(Builtin::Pair))],
        "error"@ => seq![plain(Form::BuiltinFunction(Builtin::Error))],
        "'"@ => seq![plain(Form::BuiltinMacro(BuiltinMacro::Quote))],
        "define"@ => seq![plain(Form::BuiltinMacro(BuiltinMacro::Define))],
        "fn"@ => seq![plain(Form::BuiltinMacro(BuiltinMacro::Function))],
        "mo"@ => seq![plain(Form::BuiltinMacro(BuiltinMacro::Macro))],
        "if"@ => seq![plain(Form::BuiltinMacro(BuiltinMacro::If))],
        "wind"@ => seq![plain(Form::BuiltinMacro(BuiltinMacro::Wind))],
        "true"@ => seq![plain(Form::Boolean(true))],
        "false"@ => seq![plain(Form::Boolean(false))],
    ]
}

/// Binds `name` to `data` in `store`.
pub fn bind_name(store: &mut Store, name: &str, data: Coredata)
    requires
        old(store).wf(),
        !old(store)@.contains_key(name@),
    ensures
        final(store).wf(),
        final(store)@ == old(store)@.insert(name@, seq![value_of(Sourcedata(None, data))]),
{
    store.push(&String::from_str(name), Rc::new(Sourcedata(None, data)));
    proof {
        assert(seq![].push(value_of(Sourcedata(None, data))) =~= seq![value_of(Sourcedata(None, data))]);
    }
}

} // verus!
