//! The function registry: the signatures of the native functions, by name,
//! and the checks that a call passes before the host runs it.

use super::native_functions::{load_native_functions, with_natives};
use crate::lang::panics::Error;
use crate::lang::value::{values, Number, RuntimeType, RuntimeValue, Value};
use vstd::prelude::*;

verus! {

/// How many arguments a function takes: exactly so many, or so many at
/// least.
#[derive(Clone, Copy, Debug, PartialEq, Eq, Structural)]
pub enum ParamCount {
    Fixed(usize),
    Dynamic(usize),
}

impl ParamCount {
    /// Whether the count is exact.
    pub open spec fn spec_is_fixed(&self) -> bool {
        *self is Fixed
    }

    /// Whether the count is exact.
    #[verifier::when_used_as_spec(spec_is_fixed)]
    pub fn is_fixed(&self) -> (r: bool)
        ensures
            r == self.spec_is_fixed(),
    {
        matches!(self, ParamCount::Fixed(..))
    }

    /// Whether a call with `given` arguments is within the count.
    pub open spec fn admits(self, given: int) -> bool {
        match self {
            ParamCount::Fixed(num) => given == num,
            ParamCount::Dynamic(min) => given >= min,
        }
    }
}

/// The signature of a function as a mathematical value: its arity policy
/// and the kinds of its parameters in order.
pub struct Signature {
    pub count: ParamCount,
    pub kinds: Seq<RuntimeType>,
}

impl Signature {
    /// The kind that the argument at position `i` is held to: the declared
    /// kind of that position; behind the declared kinds of a function with a
    /// minimum count, the last declared kind; any kind where none is
    /// declared for the position.
    pub open spec fn expected(self, i: int) -> RuntimeType {
        if 0 <= i < self.kinds.len() {
            self.kinds[i]
        } else if !self.count.is_fixed() && self.kinds.len() > 0 {
            self.kinds.last()
        } else {
            RuntimeType::Any
        }
    }

    /// Whether every argument is of the kind that its position is held to.
    pub open spec fn takes(self, args: Seq<Value>) -> bool {
        forall|i: int| 0 <= i < args.len() ==> (#[trigger] args[i]).fits(self.expected(i))
    }
}

/// The registry as a mathematical value.
pub type Registry = Map<Seq<char>, Signature>;

/// Why a call of `name` with `args` is refused, or `None` where the host
/// is to run it: the name is registered, the count is within the arity
/// policy, and every argument is of the expected kind.
pub open spec fn refusal(registry: Registry, name: Seq<char>, args: Seq<Value>) -> Option<Error> {
    if !registry.contains_key(name) {
        Some(Error::NameError)
    } else if !registry[name].count.admits(args.len() as int) {
        Some(Error::ArityError)
    } else if !registry[name].takes(args) {
        Some(Error::TypeError)
    } else {
        None
    }
}

/// A call of a registered function with a count of arguments that its
/// arity policy refuses is an arity error, whatever the arguments are.
pub proof fn lemma_wrong_count(registry: Registry, name: Seq<char>, args: Seq<Value>)
    requires
        registry.contains_key(name),
        !registry[name].count.admits(args.len() as int),
    ensures
        refusal(registry, name, args) == Some(Error::ArityError),
{
}

/// A call of a registered function with the right count of arguments, of
/// which the one at position `i` is not of the kind that the position is
/// held to, is a type error.
pub proof fn lemma_wrong_kind(registry: Registry, name: Seq<char>, args: Seq<Value>, i: int)
    requires
        registry.contains_key(name),
        registry[name].count.admits(args.len() as int),
        0 <= i < args.len(),
        !args[i].fits(registry[name].expected(i)),
    ensures
        refusal(registry, name, args) == Some(Error::TypeError),
{
}

/// A call of a function that is not registered is a name error.
pub proof fn lemma_unregistered(registry: Registry, name: Seq<char>, args: Seq<Value>)
    requires
        !registry.contains_key(name),
    ensures
        refusal(registry, name, args) == Some(Error::NameError),
{
}

/// A native function: its name and its signature. What it computes is the
/// host's to provide.
#[derive(Debug)]
pub struct Function {
    pub name: String,
    pub expected_params: ParamCount,
    pub param_types: Vec<RuntimeType>,
}

impl Function {
    /// The signature of the function.
    pub open spec fn signature(&self) -> Signature {
        Signature { count: self.expected_params, kinds: self.param_types@ }
    }

    /// A function of the given name and signature.
    pub fn new(name: String, expected_params: ParamCount, param_types: Vec<RuntimeType>) -> (r: Self)
        ensures
            r.name == name,
            r.expected_params == expected_params,
            r.param_types == param_types,
    {
        Self { name, expected_params, param_types }
    }

    /// The kind that the argument at position `i` is held to.
    fn expected(&self, i: usize) -> (r: RuntimeType)
        ensures
            r == self.signature().expected(i as int),
    {
        let declared = self.param_types.len();
        if i < declared {
            self.param_types[i]
        } else if !self.expected_params.is_fixed() && declared > 0 {
            self.param_types[declared - 1]
        } else {
            RuntimeType::Any
        }
    }
}

/// The first function of the given name, from index `from` on.
pub open spec fn entry(functions: Seq<Function>, name: Seq<char>, from: int) -> Option<int>
    decreases functions.len() - from,
{
    if from < 0 || from >= functions.len() {
        None
    } else if functions[from].name@ == name {
        Some(from)
    } else {
        entry(functions, name, from + 1)
    }
}

/// What `entry` finds is a function of the name.
pub proof fn lemma_entry_found(functions: Seq<Function>, name: Seq<char>, from: int)
    ensures
        match entry(functions, name, from) {
            Some(i) => from <= i < functions.len() && functions[i].name@ == name,
            None => true,
        },
    decreases functions.len() - from,
{
    if !(from < 0 || from >= functions.len()) && functions[from].name@ != name {
        lemma_entry_found(functions, name, from + 1);
    }
}

/// What `entry` finds once one more function lies at the end.
pub proof fn lemma_entry_push(functions: Seq<Function>, added: Function, name: Seq<char>, from: int)
    requires
        0 <= from <= functions.len(),
    ensures
        entry(functions.push(added), name, from) == match entry(functions, name, from) {
            Some(i) => Some(i),
            None => if added.name@ == name {
                Some(functions.len() as int)
            } else {
                None
            },
        },
    decreases functions.len() - from,
{
    let longer = functions.push(added);
    if from < functions.len() {
        if functions[from].name@ != name {
            lemma_entry_push(functions, added, name, from + 1);
        }
    } else {
        assert(entry(longer, name, from + 1) is None);
    }
}

/// `entry` finds the same where the names are the same.
pub proof fn lemma_entry_names(a: Seq<Function>, b: Seq<Function>, name: Seq<char>, from: int)
    requires
        a.len() == b.len(),
        forall|i: int| 0 <= i < a.len() ==> a[i].name@ == b[i].name@,
    ensures
        entry(a, name, from) == entry(b, name, from),
    decreases a.len() - from,
{
    if !(from < 0 || from >= a.len()) && a[from].name@ != name {
        lemma_entry_names(a, b, name, from + 1);
    }
}

/// The table of the native functions.
#[derive(Debug)]
pub struct FunctionRegistry {
    pub functions: Vec<Function>,
}

impl View for FunctionRegistry {
    type V = Registry;

    open spec fn view(&self) -> Registry {
        Map::new(
            |name: Seq<char>| entry(self.functions@, name, 0) is Some,
            |name: Seq<char>| self.functions@[entry(self.functions@, name, 0).unwrap()].signature(),
        )
    }
}

impl FunctionRegistry {
    /// A registry without functions.
    pub fn empty() -> (r: Self)
        ensures
            r@ == Map::<Seq<char>, Signature>::empty(),
    {
        let registry = Self { functions: Vec::new() };
        proof {
            assert(registry@ =~= Map::<Seq<char>, Signature>::empty());
        }
        registry
    }

    /// A registry with the built-in functions.
    pub fn new() -> (r: Self)
        ensures
            r@ == with_natives(Map::empty()),
    {
        let mut instance = Self::empty();
        load_native_functions(&mut instance);
        instance
    }

    /// Registers `function` under its name, in place of a function that
    /// was registered under that name before.
    pub fn add_function(&mut self, function: Function)
        ensures
            final(self)@ == old(self)@.insert(function.name@, function.signature()),
    {
        let ghost before = self.functions@;
        let ghost target = self@.insert(function.name@, function.signature());
        match self.find(&function.name) {
            Some(at) => {
                self.functions.set(at, function);
                proof {
                    lemma_entry_found(before, function.name@, 0);
                    let now = self@;
                    assert forall|name: Seq<char>| #[trigger]
                        now.dom().contains(name) == target.dom().contains(name) by {
                        lemma_entry_names(before, self.functions@, name, 0);
                    }
                    assert(now.dom() =~= target.dom());
                    assert forall|name: Seq<char>| #[trigger] now.dom().contains(name) implies now[name]
                        == target[name] by {
                        lemma_entry_names(before, self.functions@, name, 0);
                        lemma_entry_found(before, name, 0);
                    }
                    assert(now =~= target);
                }
            },
            None => {
                self.functions.push(function);
                proof {
                    let now = self@;
                    assert forall|name: Seq<char>| #[trigger]
                        now.dom().contains(name) == target.dom().contains(name) by {
                        lemma_entry_push(before, function, name, 0);
                        lemma_entry_found(before, name, 0);
                    }
                    assert(now.dom() =~= target.dom());
                    assert forall|name: Seq<char>| #[trigger] now.dom().contains(name) implies now[name]
                        == target[name] by {
                        lemma_entry_push(before, function, name, 0);
                        lemma_entry_found(before, name, 0);
                    }
                    assert(now =~= target);
                }
            },
        }
    }

    /// Checks a call of `function_name` with `args`: the name, then the
    /// count, then the kind of each argument. A call that passes is handed
    /// back as the arguments for the host to run the function with.
    pub fn call(&self, function_name: &str, args: Vec<RuntimeValue>) -> (r: Result<Arguments, Error>)
        ensures
            match refusal(self@, function_name@, values(args@)) {
                Some(e) => r == Err::<Arguments, Error>(e),
                None => r is Ok && r.unwrap().args == args,
            },
    {
        let key = String::from_str(function_name);
        let at = match self.find(&key) {
            Some(at) => at,
            None => {
                return Err(Error::NameError);
            },
        };
        let function = &self.functions[at];
        let ghost sig = function.signature();
        proof {
            lemma_entry_found(self.functions@, key@, 0);
            assert(self@.contains_key(function_name@) && self@[function_name@] == sig);
        }
        match function.expected_params {
            ParamCount::Fixed(num) => {
                if num != args.len() {
                    return Err(Error::ArityError);
                }
            },
            ParamCount::Dynamic(min) => {
                if args.len() < min {
                    return Err(Error::ArityError);
                }
            },
        }
        let n = args.len();
        let mut i: usize = 0;
        while i < n
            invariant
                n == args@.len(),
                i <= n,
                sig == function.signature(),
                self@.contains_key(function_name@),
                self@[function_name@] == sig,
                sig.count.admits(n as int),
                forall|k: int| 0 <= k < i ==> (#[trigger] values(args@)[k]).fits(sig.expected(k)),
            decreases n - i,
        {
            let wanted = function.expected(i);
            if !args[i].matches_type(&wanted) {
                proof {
                    assert(!values(args@)[i as int].fits(sig.expected(i as int)));
                }
                return Err(Error::TypeError);
            }
            i += 1;
        }
        Ok(Arguments::new(args))
    }

    /// The index of the first function of the given name.
    fn find(&self, name: &String) -> (r: Option<usize>)
        ensures
            match r {
                Some(i) => entry(self.functions@, name@, 0) == Some(i as int) && i < self.functions@.len(),
                None => entry(self.functions@, name@, 0) is None,
            },
    {
        let n = self.functions.len();
        let mut i: usize = 0;
        while i < n
            invariant
                n == self.functions@.len(),
                i <= n,
                entry(self.functions@, name@, 0) == entry(self.functions@, name@, i as int),
            decreases n - i,
        {
            if self.functions[i].name == *name {
                return Some(i);
            }
            i += 1;
        }
        None
    }
}

/// The arguments of a call, by position.
#[derive(Debug, PartialEq)]
pub struct Arguments {
    pub args: Vec<RuntimeValue>,
}

impl Arguments {
    /// The arguments `args`.
    pub fn new(args: Vec<RuntimeValue>) -> (r: Self)
        ensures
            r.args == args,
    {
        Arguments { args }
    }

    /// How many arguments there are.
    pub fn len(&self) -> (r: usize)
        ensures
            r == self.args@.len(),
    {
        self.args.len()
    }

    /// All the arguments.
    pub fn args(&self) -> (r: &Vec<RuntimeValue>)
        ensures
            *r == self.args,
    {
        &self.args
    }

    /// The argument at `index`, where there is one.
    fn get(&self, index: usize) -> (r: Result<&RuntimeValue, Error>)
        ensures
            match r {
                Ok(value) => index < self.args@.len() && *value == self.args@[index as int],
                Err(e) => index >= self.args@.len() && e == Error::TypeError,
            },
    {
        if index < self.args.len() {
            Ok(&self.args[index])
        } else {
            Err(Error::TypeError)
        }
    }

    /// Whether there is an argument at `index`.
    pub fn has(&self, index: usize) -> (r: bool)
        ensures
            r == (index < self.args@.len()),
    {
        index < self.args.len()
    }

    /// The string at `index`; a type error where there is no argument at
    /// `index` or it is no string.
    pub fn as_str(&self, index: usize) -> (r: Result<&String, Error>)
        ensures
            match r {
                Ok(value) => index < self.args@.len() && self.args@[index as int] == RuntimeValue::String(
                    *value,
                ),
                Err(e) => e == Error::TypeError && !(index < self.args@.len() && self.args@[index as int]
                    is String),
            },
    {
        match self.get(index) {
            Ok(RuntimeValue::String(value)) => Ok(value),
            _ => Err(Error::TypeError),
        }
    }

    /// The boolean at `index`; a type error where there is no argument at
    /// `index` or it is no boolean.
    pub fn as_bool(&self, index: usize) -> (r: Result<bool, Error>)
        ensures
            match r {
                Ok(value) => index < self.args@.len() && self.args@[index as int] == RuntimeValue::Bool(
                    value,
                ),
                Err(e) => e == Error::TypeError && !(index < self.args@.len() && self.args@[index as int]
                    is Bool),
            },
    {
        match self.get(index) {
            Ok(RuntimeValue::Bool(value)) => Ok(*value),
            _ => Err(Error::TypeError),
        }
    }

    /// The number at `index`; a type error where there is no argument at
    /// `index` or it is no number.
    pub fn as_f32(&self, index: usize) -> (r: Result<Number, Error>)
        ensures
            match r {
                Ok(value) => index < self.args@.len() && self.args@[index as int] == RuntimeValue::Number(
                    value,
                ),
                Err(e) => e == Error::TypeError && !(index < self.args@.len() && self.args@[index as int]
                    is Number),
            },
    {
        match self.get(index) {
            Ok(RuntimeValue::Number(value)) => Ok(*value),
            _ => Err(Error::TypeError),
        }
    }

    /// The argument at `index`, of whatever kind; a type error where there
    /// is none.
    pub fn as_any(&self, index: usize) -> (r: Result<&RuntimeValue, Error>)
        ensures
            match r {
                Ok(value) => index < self.args@.len() && *value == self.args@[index as int],
                Err(e) => e == Error::TypeError && index >= self.args@.len(),
            },
    {
        self.get(index)
    }
}

} // verus!
