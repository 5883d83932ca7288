//! Values and environments: what evaluation produces and where names live.

use vstd::prelude::*;
use crate::expr::{clone_names, names_view, Expr, LispExpression};
use crate::text::same_text;

verus! {

/// The mathematical form of a value. A closure holds its parameter names,
/// its body, and the bindings of the environment it was made in.
pub enum Val {
    Number(u64),
    Boolean(bool),
    Closure(Seq<Seq<char>>, Expr, Map<Seq<char>, Val>),
}

/// The result of evaluating an expression.
#[derive(Debug)]
pub enum LispValue {
    /// A number, held as the bit pattern of its 64-bit IEEE 754 value.
    Number(u64),
    /// A truth value.
    Boolean(bool),
    /// A function: parameter names, the unevaluated body, and a copy of the
    /// environment in which the function was made.
    Lambda(Vec<String>, Box<LispExpression>, Environment),
}

/// One scope: a mapping from names to values, in which no name occurs twice.
#[derive(Debug)]
pub struct Environment {
    bindings: Vec<(String, LispValue)>,
}

/// The map that the first `n` bindings of `b` make up, later ones first.
pub open spec fn bindings_model(b: Seq<(String, LispValue)>, n: nat) -> Map<Seq<char>, Val>
    decreases b, n,
{
    if n == 0 || n > b.len() {
        Map::empty()
    } else {
        bindings_model(b, (n - 1) as nat).insert(b[n - 1].0@, b[n - 1].1.model())
    }
}

impl LispValue {
    /// The mathematical form of this value.
    pub open spec fn model(self) -> Val
        decreases self, 0nat,
    {
        match self {
            LispValue::Number(bits) => Val::Number(bits),
            LispValue::Boolean(b) => Val::Boolean(b),
            LispValue::Lambda(params, body, env) => Val::Closure(
                names_view(params@),
                (*body).model(),
                env.model(),
            ),
        }
    }
}

impl View for LispValue {
    type V = Val;

    open spec fn view(&self) -> Val {
        self.model()
    }
}

/// No two bindings of `b` have the same name.
pub open spec fn distinct_names(b: Seq<(String, LispValue)>) -> bool {
    forall|i: int, j: int| 0 <= i < j < b.len() ==> b[i].0@ != b[j].0@
}

/// A name is bound by the first `n` bindings exactly if one of them has it.
proof fn lemma_bound_names(b: Seq<(String, LispValue)>, n: nat, name: Seq<char>)
    requires
        n <= b.len(),
    ensures
        bindings_model(b, n).contains_key(name) <==> exists|i: int|
            0 <= i < n && #[trigger] b[i].0@ == name,
    decreases n,
{
    if n > 0 {
        lemma_bound_names(b, (n - 1) as nat, name);
        if b[n - 1].0@ == name {
        } else if bindings_model(b, n).contains_key(name) {
            let i = choose|i: int| 0 <= i < n - 1 && #[trigger] b[i].0@ == name;
            assert(0 <= i < n && b[i].0@ == name);
        }
    }
}

/// Where no name occurs twice, each binding's name maps to that binding's value.
proof fn lemma_bound_value(b: Seq<(String, LispValue)>, n: nat, i: int)
    requires
        distinct_names(b),
        0 <= i < n <= b.len(),
    ensures
        bindings_model(b, n).contains_key(b[i].0@),
        bindings_model(b, n)[b[i].0@] == b[i].1.model(),
    decreases n,
{
    if i < n - 1 {
        lemma_bound_value(b, (n - 1) as nat, i);
    }
}

/// The map of the first `n` bindings depends on those bindings alone.
proof fn lemma_same_prefix(a: Seq<(String, LispValue)>, b: Seq<(String, LispValue)>, n: nat)
    requires
        n <= a.len(),
        n <= b.len(),
        forall|i: int| 0 <= i < n ==> a[i].0@ == b[i].0@ && a[i].1.model() == b[i].1.model(),
    ensures
        bindings_model(a, n) == bindings_model(b, n),
    decreases n,
{
    if n > 0 {
        lemma_same_prefix(a, b, (n - 1) as nat);
    }
}

/// Replacing the value of the binding at `i` is an insertion under its name.
proof fn lemma_replace(b: Seq<(String, LispValue)>, i: int, entry: (String, LispValue), n: nat)
    requires
        distinct_names(b),
        0 <= i < n <= b.len(),
        entry.0@ == b[i].0@,
    ensures
        bindings_model(b.update(i, entry), n) == bindings_model(b, n).insert(
            entry.0@,
            entry.1.model(),
        ),
    decreases n,
{
    let c = b.update(i, entry);
    if i == n - 1 {
        lemma_same_prefix(c, b, (n - 1) as nat);
        assert(bindings_model(c, n) =~= bindings_model(b, n).insert(entry.0@, entry.1.model()));
    } else {
        lemma_replace(b, i, entry, (n - 1) as nat);
        assert(b[n - 1].0@ != entry.0@);
        assert(bindings_model(c, n) =~= bindings_model(b, n).insert(entry.0@, entry.1.model()));
    }
}

impl Environment {
    /// The mapping that this environment stands for.
    pub closed spec fn model(self) -> Map<Seq<char>, Val>
        decreases self, 0nat,
    {
        bindings_model(self.bindings@, self.bindings@.len())
    }

    #[verifier::type_invariant]
    spec fn well_formed(self) -> bool {
        distinct_names(self.bindings@)
    }

    /// An environment that binds no name.
    pub fn new() -> (env: Self)
        ensures
            env@ == Map::<Seq<char>, Val>::empty(),
    {
        Environment { bindings: Vec::new() }
    }

    /// The position of the binding of `key`, if there is one.
    fn position(&self, key: &str) -> (found: Option<usize>)
        ensures
            match found {
                Some(i) => i < self.bindings.len() && self.bindings[i as int].0@ == key@,
                None => forall|k: int| 0 <= k < self.bindings.len() ==> self.bindings[k].0@ != key@,
            },
    {
        let mut i: usize = 0;
        while i < self.bindings.len()
            invariant
                i <= self.bindings.len(),
                forall|k: int| 0 <= k < i ==> self.bindings[k].0@ != key@,
            decreases self.bindings.len() - i,
        {
            if same_text(self.bindings[i].0.as_str(), key) {
                return Some(i);
            }
            i += 1;
        }
        None
    }

    /// The value that `key` is bound to, or `None` where it is not bound.
    pub fn get(&self, key: &str) -> (found: Option<&LispValue>)
        ensures
            match found {
                Some(value) => self@.contains_key(key@) && value@ == self@[key@],
                None => !self@.contains_key(key@),
            },
    {
        proof {
            use_type_invariant(self);
            lemma_bound_names(self.bindings@, self.bindings@.len(), key@);
        }
        match self.position(key) {
            Some(i) => {
                proof {
                    lemma_bound_value(self.bindings@, self.bindings@.len(), i as int);
                }
                Some(&self.bindings[i].1)
            },
            None => None,
        }
    }

    /// The names that this environment binds, each once.
    pub fn names(&self) -> (names: Vec<String>)
        ensures
            names_view(names@).no_duplicates(),
            forall|name: Seq<char>| names_view(names@).contains(name) <==> self@.contains_key(name),
    {
        proof {
            use_type_invariant(self);
        }
        let mut names: Vec<String> = Vec::new();
        let mut i: usize = 0;
        while i < self.bindings.len()
            invariant
                i <= self.bindings.len(),
                names.len() == i,
                forall|k: int| 0 <= k < i ==> names[k]@ == self.bindings[k].0@,
            decreases self.bindings.len() - i,
        {
            names.push(self.bindings[i].0.clone());
            i += 1;
        }
        proof {
            let listed = names_view(names@);
            assert forall|name: Seq<char>| listed.contains(name) <==> self@.contains_key(
                name,
            ) by {
                lemma_bound_names(self.bindings@, self.bindings@.len(), name);
                if listed.contains(name) {
                    let k = choose|k: int| 0 <= k < listed.len() && listed[k] == name;
                    assert(self.bindings[k].0@ == name);
                }
                if self@.contains_key(name) {
                    let k = choose|k: int|
                        0 <= k < self.bindings.len() && #[trigger] self.bindings[k].0@ == name;
                    assert(listed[k] == name);
                }
            }
        }
        names
    }

    /// Binds `key` to `value`; an earlier binding of `key` is overwritten.
    pub fn set(&mut self, key: String, value: LispValue)
        ensures
            final(self)@ == old(self)@.insert(key@, value@),
    {
        proof {
            use_type_invariant(&*self);
        }
        let ghost before = self.bindings@;
        let place = self.position(key.as_str());
        let mut bindings: Vec<(String, LispValue)> = Vec::new();
        std::mem::swap(&mut bindings, &mut self.bindings);
        match place {
            Some(i) => {
                proof {
                    lemma_replace(before, i as int, (key, value), before.len());
                }
                bindings.set(i, (key, value));
            },
            None => {
                proof {
                    lemma_same_prefix(before.push((key, value)), before, before.len());
                }
                bindings.push((key, value));
            },
        }
        self.bindings = bindings;
    }

    /// Binds each name of `bindings` to its value, in order: where a name
    /// occurs more than once, the last value stays.
    pub fn extend(&mut self, bindings: Vec<(String, LispValue)>)
        ensures
            final(self)@ == old(self)@.union_prefer_right(
                bindings_model(bindings@, bindings@.len()),
            ),
    {
        let ghost all = bindings@;
        let ghost start = self@;
        for entry in it: bindings
            invariant
                it.seq() == all,
                self@ == start.union_prefer_right(bindings_model(all, it.index() as nat)),
        {
            let ghost so_far = self@;
            let (key, value) = entry;
            self.set(key, value);
            proof {
                assert(so_far.insert(key@, value@) =~= start.union_prefer_right(
                    bindings_model(all, (it.index() + 1) as nat),
                ));
            }
        }
    }
}

impl View for Environment {
    type V = Map<Seq<char>, Val>;

    open spec fn view(&self) -> Map<Seq<char>, Val> {
        self.model()
    }
}

impl Clone for LispValue {
    /// A copy that stands for the same value.
    fn clone(&self) -> (copy: Self)
        ensures
            copy@ == self@,
        decreases self,
    {
        match self {
            LispValue::Number(bits) => LispValue::Number(*bits),
            LispValue::Boolean(b) => LispValue::Boolean(*b),
            LispValue::Lambda(params, body, env) => {
                let body_copy: LispExpression = (**body).clone();
                LispValue::Lambda(clone_names(params), Box::new(body_copy), env.clone())
            },
        }
    }
}

impl Clone for Environment {
    /// A copy with the same bindings, which later changes to this environment
    /// do not reach.
    #[verifier::loop_isolation(false)]
    fn clone(&self) -> (copy: Self)
        ensures
            copy@ == self@,
        decreases self,
    {
        proof {
            use_type_invariant(self);
        }
        let mut bindings: Vec<(String, LispValue)> = Vec::new();
        let mut i: usize = 0;
        while i < self.bindings.len()
            invariant
                i <= self.bindings.len(),
                bindings.len() == i,
                forall|k: int|
                    0 <= k < i ==> bindings[k].0@ == self.bindings[k].0@ && bindings[k].1@
                        == self.bindings[k].1@,
            decreases self.bindings.len() - i,
        {
            let name = self.bindings[i].0.clone();
            let value = self.bindings[i].1.clone();
            bindings.push((name, value));
            i += 1;
        }
        proof {
            lemma_same_prefix(bindings@, self.bindings@, bindings@.len());
        }
        Environment { bindings }
    }
}

} // verus!
