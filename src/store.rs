//! The environment: a stack of bindings per name, the argument frames of the
//! calls in flight, and the result register.
use vstd::prelude::*;
use crate::data_structures::{names_of, values_of, Node, Value};

verus! {

/// The live bindings of one name, the newest last.
pub struct Binding {
    pub name: String,
    pub stack: Vec<Node>,
}

/// The bindings of all names, one entry per name.
pub struct Store {
    pub bindings: Vec<Binding>,
}

/// The stack of a name; empty where the name has no entry.
pub open spec fn stack_of(store: Map<Seq<char>, Seq<Value>>, name: Seq<char>) -> Seq<Value> {
    if store.contains_key(name) {
        store[name]
    } else {
        seq![]
    }
}

/// `store` with `v` bound to `name` over its earlier bindings.
pub open spec fn push_binding(
    store: Map<Seq<char>, Seq<Value>>,
    name: Seq<char>,
    v: Value,
) -> Map<Seq<char>, Seq<Value>> {
    store.insert(name, stack_of(store, name).push(v))
}

/// `store` with the newest binding of `name` gone, and its entry gone with
/// its last binding.
pub open spec fn pop_binding(store: Map<Seq<char>, Seq<Value>>, name: Seq<char>) -> Map<
    Seq<char>,
    Seq<Value>,
> {
    if !store.contains_key(name) {
        store
    } else if store[name].len() <= 1 {
        store.remove(name)
    } else {
        store.insert(name, store[name].drop_last())
    }
}

/// One binding popped for each of `names`, in order.
pub open spec fn pop_bindings(store: Map<Seq<char>, Seq<Value>>, names: Seq<Seq<char>>) -> Map<
    Seq<char>,
    Seq<Value>,
>
    decreases names.len(),
{
    if names.len() == 0 {
        store
    } else {
        pop_binding(pop_bindings(store, names.drop_last()), names.last())
    }
}

/// Each of `names` bound to the value at the same place in `values`, in order.
pub open spec fn bind_all(
    store: Map<Seq<char>, Seq<Value>>,
    names: Seq<Seq<char>>,
    values: Seq<Value>,
) -> Map<Seq<char>, Seq<Value>>
    decreases names.len(),
{
    if names.len() == 0 || values.len() == 0 {
        store
    } else {
        push_binding(
            bind_all(store, names.drop_last(), values.drop_last()),
            names.last(),
            values.last(),
        )
    }
}

impl Store {
    /// Each name has at most one entry.
    pub open spec fn wf(&self) -> bool {
        forall|i: int, j: int|
            0 <= i < j < self.bindings@.len() ==> #[trigger] self.bindings@[i].name@
                != #[trigger] self.bindings@[j].name@
    }

    pub open spec fn has_entry(&self, name: Seq<char>) -> bool {
        exists|i: int| 0 <= i < self.bindings@.len() && #[trigger] self.bindings@[i].name@ == name
    }

    pub open spec fn entry_of(&self, name: Seq<char>) -> int {
        choose|i: int| 0 <= i < self.bindings@.len() && #[trigger] self.bindings@[i].name@ == name
    }

    pub proof fn lemma_entry(&self, i: int)
        requires
            self.wf(),
            0 <= i < self.bindings@.len(),
        ensures
            self@.contains_key(self.bindings@[i].name@),
            self@[self.bindings@[i].name@] == values_of(self.bindings@[i].stack@),
    {
        let k = self.bindings@[i].name@;
        assert(self.has_entry(k));
        let j = self.entry_of(k);
        assert(j == i);
    }

    pub proof fn lemma_entries(&self)
        requires
            self.wf(),
        ensures
            forall|i: int|
                0 <= i < self.bindings@.len() ==> self@.contains_key(
                    #[trigger] self.bindings@[i].name@,
                ) && self@[self.bindings@[i].name@] == values_of(self.bindings@[i].stack@),
    {
        assert forall|i: int| 0 <= i < self.bindings@.len() implies self@.contains_key(
            #[trigger] self.bindings@[i].name@,
        ) && self@[self.bindings@[i].name@] == values_of(self.bindings@[i].stack@) by {
            self.lemma_entry(i);
        }
    }

    pub fn new() -> (r: Store)
        ensures
            r.wf(),
            r@ == Map::<Seq<char>, Seq<Value>>::empty(),
    {
        let r = Store { bindings: Vec::new() };
        assert(r@ =~= Map::<Seq<char>, Seq<Value>>::empty());
        r
    }

    /// The place of the entry for `name`, if there is one.
    pub fn find(&self, name: &String) -> (r: Option<usize>)
        requires
            self.wf(),
        ensures
            r is None ==> !self@.contains_key(name@),
            r matches Some(i) ==> i < self.bindings@.len() && self.bindings@[i as int].name@
                == name@,
    {
        let mut i: usize = 0;
        while i < self.bindings.len()
            invariant
                i <= self.bindings@.len(),
                forall|j: int| 0 <= j < i ==> #[trigger] self.bindings@[j].name@ != name@,
            decreases self.bindings@.len() - i,
        {
            if self.bindings[i].name == *name {
                return Some(i);
            }
            i = i + 1;
        }
        None
    }

    /// The stack of bindings of `name`, if it has an entry.
    pub fn lookup(&self, name: &String) -> (r: Option<&Vec<Node>>)
        requires
            self.wf(),
        ensures
            r is None <==> !self@.contains_key(name@),
            r matches Some(s) ==> values_of(s@) == self@[name@],
    {
        match self.find(name) {
            Some(i) => {
                proof {
                    self.lemma_entry(i as int);
                }
                Some(&self.bindings[i].stack)
            },
            None => None,
        }
    }

    /// Binds `value` to `name` over its earlier bindings.
    pub fn push(&mut self, name: &String, value: Node)
        requires
            old(self).wf(),
        ensures
            final(self).wf(),
            final(self)@ == push_binding(old(self)@, name@, value@),
    {
        proof {
            old(self).lemma_entries();
        }
        match self.find(name) {
            Some(i) => {
                let mut entry = Binding { name: String::new(), stack: Vec::new() };
                self.bindings.set_and_swap(i, &mut entry);
                entry.stack.push(value);
                self.bindings.set_and_swap(i, &mut entry);
                proof {
                    self.lemma_entries();
                    assert(values_of(self.bindings@[i as int].stack@) =~= stack_of(
                        old(self)@,
                        name@,
                    ).push(value@));
                    assert forall|k: Seq<char>| self.has_entry(k) == old(self).has_entry(k) by {
                        if old(self).has_entry(k) {
                            let j = old(self).entry_of(k);
                            assert(self.bindings@[j].name@ == k);
                        }
                        if self.has_entry(k) {
                            let j = self.entry_of(k);
                            assert(old(self).bindings@[j].name@ == k);
                        }
                    }
                    assert forall|k: Seq<char>| #[trigger]
                        self@.contains_key(k) && k != name@ implies self@[k] == old(self)@[k] by {
                        let j = self.entry_of(k);
                        assert(old(self).bindings@[j].name@ == k);
                    }
                    assert(self@ =~= push_binding(old(self)@, name@, value@));
                }
            },
            None => {
                let mut stack: Vec<Node> = Vec::new();
                stack.push(value);
                self.bindings.push(Binding { name: name.clone(), stack });
                proof {
                    self.lemma_entries();
                    let n = self.bindings@.len() - 1;
                    assert(values_of(self.bindings@[n].stack@) =~= seq![value@]);
                    assert(self.bindings@[n].name@ == name@);
                    assert(stack_of(old(self)@, name@).push(value@) =~= seq![value@]);
                    assert forall|k: Seq<char>| #[trigger]
                        self@.contains_key(k) && k != name@ implies old(self)@.contains_key(k)
                        && self@[k] == old(self)@[k] by {
                        let j = self.entry_of(k);
                        assert(old(self).bindings@[j].name@ == k);
                    }
                    assert forall|k: Seq<char>| #[trigger]
                        old(self)@.contains_key(k) implies self@.contains_key(k) by {
                        let j = old(self).entry_of(k);
                        assert(self.bindings@[j].name@ == k);
                    }
                    assert(self@ =~= push_binding(old(self)@, name@, value@));
                }
            },
        }
    }

    /// Pops the newest binding of `name`; its entry goes with its last binding.
    pub fn pop(&mut self, name: &String)
        requires
            old(self).wf(),
        ensures
            final(self).wf(),
            final(self)@ == pop_binding(old(self)@, name@),
    {
        proof {
            old(self).lemma_entries();
        }
        match self.find(name) {
            Some(i) => {
                let mut entry = Binding { name: String::new(), stack: Vec::new() };
                self.bindings.set_and_swap(i, &mut entry);
                if entry.stack.len() <= 1 {
                    self.bindings.remove(i);
                    proof {
                        self.lemma_entries();
                        assert forall|k: Seq<char>| #[trigger]
                            self@.contains_key(k) implies k != name@ && old(self)@.contains_key(k)
                            && self@[k] == old(self)@[k] by {
                            let j = self.entry_of(k);
                            if j < i {
                                assert(old(self).bindings@[j].name@ == k);
                            } else {
                                assert(old(self).bindings@[j + 1].name@ == k);
                            }
                        }
                        assert forall|k: Seq<char>| #[trigger]
                            old(self)@.contains_key(k) && k != name@ implies self@.contains_key(
                            k,
                        ) by {
                            let j = old(self).entry_of(k);
                            if j < i {
                                assert(self.bindings@[j].name@ == k);
                            } else {
                                assert(self.bindings@[j - 1].name@ == k);
                            }
                        }
                        assert(self@ =~= pop_binding(old(self)@, name@));
                    }
                } else {
                    entry.stack.pop();
                    self.bindings.set_and_swap(i, &mut entry);
                    proof {
                        self.lemma_entries();
                        assert(values_of(self.bindings@[i as int].stack@) =~= old(
                            self,
                        )@[name@].drop_last());
                        assert forall|k: Seq<char>| self.has_entry(k) == old(self).has_entry(k) by {
                            if old(self).has_entry(k) {
                                let j = old(self).entry_of(k);
                                assert(self.bindings@[j].name@ == k);
                            }
                            if self.has_entry(k) {
                                let j = self.entry_of(k);
                                assert(old(self).bindings@[j].name@ == k);
                            }
                        }
                        assert forall|k: Seq<char>| #[trigger]
                            self@.contains_key(k) && k != name@ implies self@[k] == old(
                            self,
                        )@[k] by {
                            let j = self.entry_of(k);
                            assert(old(self).bindings@[j].name@ == k);
                        }
                        assert(self@ =~= pop_binding(old(self)@, name@));
                    }
                }
            },
            None => {},
        }
    }

    /// Pops one binding for each of `names`, in order.
    pub fn pop_all(&mut self, names: &Vec<String>)
        requires
            old(self).wf(),
        ensures
            final(self).wf(),
            final(self)@ == pop_bindings(old(self)@, names_of(names@)),
    {
        let mut i: usize = 0;
        while i < names.len()
            invariant
                i <= names@.len(),
                self.wf(),
                self@ == pop_bindings(old(self)@, names_of(names@).take(i as int)),
            decreases names@.len() - i,
        {
            self.pop(&names[i]);
            proof {
                assert(names_of(names@).take(i + 1).drop_last() =~= names_of(names@).take(
                    i as int,
                ));
            }
            i = i + 1;
        }
        proof {
            assert(names_of(names@).take(i as int) =~= names_of(names@));
        }
    }
}

impl View for Store {
    type V = Map<Seq<char>, Seq<Value>>;

    open spec fn view(&self) -> Map<Seq<char>, Seq<Value>> {
        Map::new(
            |k: Seq<char>| self.has_entry(k),
            |k: Seq<char>| values_of(self.bindings@[self.entry_of(k)].stack@),
        )
    }
}

/// The state of one evaluation besides its work stack.
pub struct Env {
    pub store: Store,
    pub params: Vec<Vec<Node>>,
    pub result: Node,
}

pub open spec fn frames_of(params: Seq<Vec<Node>>) -> Seq<Seq<Value>> {
    params.map_values(|f: Vec<Node>| values_of(f@))
}

impl Env {
    pub open spec fn wf(&self) -> bool {
        self.store.wf()
    }
}

} // verus!
