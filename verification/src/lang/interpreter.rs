//! The evaluator: a walk over the syntax tree.
//!
//! The library computes neither with numbers nor with the outside world.
//! Where a program needs the number that a literal denotes, the result of
//! an operator on a number, or a call of a native function, the run stops
//! with a request for the host. The host answers, and runs the program
//! again with the answers so far, in order; a run is a function of the
//! program, the environment, the registry and those answers alone.

use super::ast::{lemma_call_model, lemma_if_model, nodes, ASTNode, Node};
use super::env::{assign, declare, resolve, Env, Scope};
use super::func::function_registry::{refusal, Arguments, Function, FunctionRegistry, Registry};
use super::func::native_functions::with_natives;
use super::panics::Error;
use super::parser::{program, Parser};
use super::tokenizer::spec_tokenize;
use super::value::{values, Number, RuntimeType, RuntimeValue, Value, MINUS_ONE, ONE};
use vstd::prelude::*;
use vstd::string::{StrSliceExecFns, StringExecFns};

verus! {

/// What a run asks of the host.
#[derive(Debug, PartialEq)]
#[allow(inconsistent_fields)]
pub enum Request {
    /// The number that the spelling `text` of a literal denotes.
    Literal { text: String },
    /// The result of `operator` on `left` and `right`, of which one at
    /// least is a number.
    Operate { operator: char, left: RuntimeValue, right: RuntimeValue },
    /// The result of the native function `name` on `args`, which have
    /// passed the registry's checks.
    Call { name: String, args: Arguments },
}

/// A request as a mathematical value.
pub enum Ask {
    Literal(Seq<char>),
    Operate(char, Value, Value),
    Call(Seq<char>, Seq<Value>),
}

impl View for Request {
    type V = Ask;

    open spec fn view(&self) -> Ask {
        match self {
            Request::Literal { text } => Ask::Literal(text@),
            Request::Operate { operator, left, right } => Ask::Operate(*operator, left@, right@),
            Request::Call { name, args } => Ask::Call(name@, values(args.args@)),
        }
    }
}

/// The host's answer to a request: a value, or the failure of what was
/// asked.
pub type Reply = Result<RuntimeValue, Error>;

/// The answers as mathematical values.
pub open spec fn answers(replies: Seq<Reply>) -> Seq<Result<Value, Error>> {
    replies.map_values(
        |reply: Reply|
            match reply {
                Ok(value) => Ok(value@),
                Err(e) => Err(e),
            },
    )
}

/// Why an evaluation did not come to a value.
#[derive(Debug, PartialEq)]
pub enum Halt {
    /// The host is to answer a request.
    Need(Request),
    /// The program failed.
    Failed(Error),
}

/// A halt as a mathematical value.
pub enum Stop {
    Need(Ask),
    Failed(Error),
}

impl View for Halt {
    type V = Stop;

    open spec fn view(&self) -> Stop {
        match self {
            Halt::Need(request) => Stop::Need(request@),
            Halt::Failed(e) => Stop::Failed(*e),
        }
    }
}

/// What an operator does with two operands: it has the value, or the host
/// is to compute a value of the given kind.
#[derive(Debug, PartialEq)]
pub enum Plan {
    Value(RuntimeValue),
    Ask { request: Request, kind: RuntimeType },
}

/// A plan as a mathematical value.
pub enum Planned {
    Value(Value),
    Ask(Ask, RuntimeType),
}

impl View for Plan {
    type V = Planned;

    open spec fn view(&self) -> Planned {
        match self {
            Plan::Value(value) => Planned::Value(value@),
            Plan::Ask { request, kind } => Planned::Ask(request@, *kind),
        }
    }
}

/// `text`, `count` times over.
pub open spec fn repeated(text: Seq<char>, count: nat) -> Seq<char>
    decreases count,
{
    if count == 0 {
        Seq::empty()
    } else {
        repeated(text, (count - 1) as nat) + text
    }
}

/// `text` repeated as often as the whole part of `count` says. A count
/// below zero, a count that is not finite, and a count that makes a text
/// of more characters than can be counted, are type errors.
pub open spec fn repetition(text: Seq<char>, count: Number) -> Result<Seq<char>, Error> {
    if count.is_negative() || !count.is_finite() {
        Err(Error::TypeError)
    } else if text.len() > 0 && count.whole() > (usize::MAX as int) / (text.len() as int) {
        Err(Error::TypeError)
    } else {
        Ok(repeated(text, count.whole() as nat))
    }
}

/// Nothing, however often, is nothing.
pub proof fn lemma_repeated_empty(text: Seq<char>, count: nat)
    requires
        text.len() == 0,
    ensures
        repeated(text, count) == Seq::<char>::empty(),
    decreases count,
{
    if count > 0 {
        lemma_repeated_empty(text, (count - 1) as nat);
        assert(repeated(text, (count - 1) as nat) + text =~= Seq::<char>::empty());
    }
}

/// Repeats `text` as often as the whole part of `count` says.
pub fn repeat(text: &str, count: Number) -> (r: Result<String, Error>)
    ensures
        match r {
            Ok(value) => repetition(text@, count) == Ok::<Seq<char>, Error>(value@),
            Err(e) => repetition(text@, count) == Err::<Seq<char>, Error>(e),
        },
{
    if count.is_negative() || !count.is_finite() {
        return Err(Error::TypeError);
    }
    let times = count.whole();
    let length = text.unicode_len();
    if length == 0 {
        proof {
            lemma_repeated_empty(text@, times as nat);
        }
        return Ok(String::new());
    }
    if times > (usize::MAX / length) as u64 {
        return Err(Error::TypeError);
    }
    let mut value = String::new();
    let mut done: u64 = 0;
    while done < times
        invariant
            done <= times,
            value@ == repeated(text@, done as nat),
        decreases times - done,
    {
        value.append(text);
        done += 1;
    }
    Ok(value)
}

/// Whether `operator` is one of the five of arithmetic.
pub open spec fn is_arithmetic(operator: char) -> bool {
    operator == '-' || operator == '+' || operator == '*' || operator == '/' || operator == '^'
}

/// What `operator` does with `left` and `right`.
///
/// Two numbers go to the host: for a value of arithmetic, unless a division
/// is by zero, and for the truth of a comparison. Two strings are joined by
/// `+`. A string and a number, in either order, are joined by `+`, for
/// which they go to the host, or make the string repeated by `*`. Every
/// other combination is a type error.
pub open spec fn plan(operator: char, left: Value, right: Value) -> Result<Planned, Error> {
    let request = Ask::Operate(operator, left, right);
    match (left, right) {
        (Value::Number(_), Value::Number(divisor)) => if operator == '/' && divisor.is_zero() {
            Err(Error::ArithmeticError)
        } else if is_arithmetic(operator) {
            Ok(Planned::Ask(request, RuntimeType::Number))
        } else if operator == '>' || operator == '<' {
            Ok(Planned::Ask(request, RuntimeType::Bool))
        } else {
            Err(Error::TypeError)
        },
        (Value::Text(first), Value::Text(second)) => if operator == '+' {
            Ok(Planned::Value(Value::Text(first + second)))
        } else {
            Err(Error::TypeError)
        },
        (Value::Number(count), Value::Text(text)) | (Value::Text(text), Value::Number(count)) => if operator
            == '+' {
            Ok(Planned::Ask(request, RuntimeType::String))
        } else if operator == '*' {
            match repetition(text, count) {
                Ok(value) => Ok(Planned::Value(Value::Text(value))),
                Err(e) => Err(e),
            }
        } else {
            Err(Error::TypeError)
        },
        _ => Err(Error::TypeError),
    }
}

/// Whether what an operator returned is what `expected` says.
pub open spec fn planned(r: Result<Plan, Error>, expected: Result<Planned, Error>) -> bool {
    match r {
        Ok(found) => expected == Ok::<Planned, Error>(found@),
        Err(e) => expected == Err::<Planned, Error>(e),
    }
}

/// The request for the host to apply `operator`.
fn operation(operator: char, left: RuntimeValue, right: RuntimeValue, kind: RuntimeType) -> (r: Plan)
    ensures
        r@ == Planned::Ask(Ask::Operate(operator, left@, right@), kind),
{
    Plan::Ask { request: Request::Operate { operator, left, right }, kind }
}

impl RuntimeValue {
    /// `self - rhs`: for two numbers.
    pub fn sub(self, rhs: Self) -> (r: Result<Plan, Error>)
        ensures
            planned(r, plan('-', self@, rhs@)),
    {
        match (&self, &rhs) {
            (RuntimeValue::Number(_), RuntimeValue::Number(_)) => Ok(
                operation('-', self, rhs, RuntimeType::Number),
            ),
            _ => Err(Error::TypeError),
        }
    }

    /// `self + rhs`: the sum of two numbers, or two operands joined, of
    /// which one at least is a string and the other a string or a number.
    pub fn add(self, rhs: Self) -> (r: Result<Plan, Error>)
        ensures
            planned(r, plan('+', self@, rhs@)),
    {
        match (&self, &rhs) {
            (RuntimeValue::Number(_), RuntimeValue::Number(_)) => Ok(
                operation('+', self, rhs, RuntimeType::Number),
            ),
            (RuntimeValue::String(left_value), RuntimeValue::String(right_value)) => {
                let mut joined = left_value.clone();
                joined.append(right_value.as_str());
                Ok(Plan::Value(RuntimeValue::String(joined)))
            },
            (RuntimeValue::Number(_), RuntimeValue::String(_)) => Ok(
                operation('+', self, rhs, RuntimeType::String),
            ),
            (RuntimeValue::String(_), RuntimeValue::Number(_)) => Ok(
                operation('+', self, rhs, RuntimeType::String),
            ),
            _ => Err(Error::TypeError),
        }
    }

    /// `self * rhs`: the product of two numbers, or a string repeated as
    /// often as a number says.
    pub fn mul(self, rhs: Self) -> (r: Result<Plan, Error>)
        ensures
            planned(r, plan('*', self@, rhs@)),
    {
        match (&self, &rhs) {
            (RuntimeValue::Number(_), RuntimeValue::Number(_)) => Ok(
                operation('*', self, rhs, RuntimeType::Number),
            ),
            (RuntimeValue::Number(left_value), RuntimeValue::String(right_value)) => {
                match repeat(right_value.as_str(), *left_value) {
                    Ok(value) => Ok(Plan::Value(RuntimeValue::String(value))),
                    Err(e) => Err(e),
                }
            },
            (RuntimeValue::String(left_value), RuntimeValue::Number(right_value)) => {
                match repeat(left_value.as_str(), *right_value) {
                    Ok(value) => Ok(Plan::Value(RuntimeValue::String(value))),
                    Err(e) => Err(e),
                }
            },
            _ => Err(Error::TypeError),
        }
    }

    /// `self / rhs`: for two numbers of which the second is not zero.
    pub fn div(self, rhs: Self) -> (r: Result<Plan, Error>)
        ensures
            planned(r, plan('/', self@, rhs@)),
    {
        match (&self, &rhs) {
            (RuntimeValue::Number(_), RuntimeValue::Number(right_value)) => {
                if right_value.is_zero() {
                    return Err(Error::ArithmeticError);
                }
                Ok(operation('/', self, rhs, RuntimeType::Number))
            },
            _ => Err(Error::TypeError),
        }
    }

    /// `self ^ rhs`: for two numbers.
    pub fn pow(self, rhs: Self) -> (r: Result<Plan, Error>)
        ensures
            planned(r, plan('^', self@, rhs@)),
    {
        match (&self, &rhs) {
            (RuntimeValue::Number(_), RuntimeValue::Number(_)) => Ok(
                operation('^', self, rhs, RuntimeType::Number),
            ),
            _ => Err(Error::TypeError),
        }
    }

    /// `self > rhs` or `self < rhs`, as `operator` says: for two numbers.
    pub fn compare(self, rhs: Self, operator: char) -> (r: Result<Plan, Error>)
        requires
            operator == '>' || operator == '<',
        ensures
            planned(r, plan(operator, self@, rhs@)),
    {
        match (&self, &rhs) {
            (RuntimeValue::Number(_), RuntimeValue::Number(_)) => Ok(
                operation(operator, self, rhs, RuntimeType::Bool),
            ),
            _ => Err(Error::TypeError),
        }
    }
}

/// What a run is given from outside the program: the host's answers so
/// far, in order, and the registry.
pub struct World {
    pub replies: Seq<Result<Value, Error>>,
    pub registry: Registry,
}

/// The state that an evaluation goes through: the scopes, and how many of
/// the answers are used up.
pub struct State {
    pub scopes: Seq<Scope>,
    pub next: int,
}

/// A value with the state behind it, or the halt.
pub type Evaluated = Result<(Value, State), Stop>;

/// Several values with the state behind them, or the halt.
pub type EvaluatedList = Result<(Seq<Value>, State), Stop>;

/// The host's answer to `request`: the next answer, where one is left; a
/// halt for the host to give it, where none is.
pub open spec fn ask(w: World, st: State, request: Ask) -> Evaluated {
    if 0 <= st.next < w.replies.len() {
        match w.replies[st.next] {
            Ok(value) => Ok((value, State { scopes: st.scopes, next: st.next + 1 })),
            Err(e) => Err(Stop::Failed(e)),
        }
    } else {
        Err(Stop::Need(request))
    }
}

/// The host's answer to `request`, which is to be of `kind`; an answer of
/// another kind is a type error.
pub open spec fn ask_for(w: World, st: State, request: Ask, kind: RuntimeType) -> Evaluated {
    match ask(w, st, request) {
        Ok((value, after)) => if value.kind() == kind {
            Ok((value, after))
        } else {
            Err(Stop::Failed(Error::TypeError))
        },
        Err(stop) => Err(stop),
    }
}

/// The result of `operator` on `left` and `right`.
pub open spec fn operate(w: World, st: State, operator: char, left: Value, right: Value) -> Evaluated {
    match plan(operator, left, right) {
        Ok(Planned::Value(value)) => Ok((value, st)),
        Ok(Planned::Ask(request, kind)) => ask_for(w, st, request, kind),
        Err(e) => Err(Stop::Failed(e)),
    }
}

/// The number that a sign multiplies by.
pub open spec fn unit(sign: char) -> Value {
    Value::Number(
        Number {
            bits: if sign == '-' {
                MINUS_ONE
            } else {
                ONE
            },
        },
    )
}

/// The value of `node` in state `st`.
///
/// A literal is its value; a number literal is what the host says that its
/// spelling denotes. A name resolves in the scopes. A declaration and an
/// assignment evaluate their expression, then change the scopes, and are
/// null. A sign multiplies its operand by one or by minus one. A binary
/// expression evaluates the left operand, then the right one, then applies
/// the operator. A call evaluates its arguments from left to right, passes
/// the registry's checks, and is what the host answers. A conditional
/// evaluates its condition, which must be a boolean; where that is true it
/// evaluates the statements of its body in order, in the scope it stands
/// in; it is null.
pub open spec fn eval(w: World, st: State, node: Node) -> Evaluated
    decreases node, 0int,
{
    match node {
        Node::Number(text) => ask_for(w, st, Ask::Literal(text), RuntimeType::Number),
        Node::Bool(value) => Ok((Value::Bool(value), st)),
        Node::Text(value) => Ok((Value::Text(value), st)),
        Node::Identifier(name) => match resolve(st.scopes, name) {
            Some(value) => Ok((value, st)),
            None => Err(Stop::Failed(Error::NameError)),
        },
        Node::Declare(name, value) => match eval(w, st, *value) {
            Ok((found, after)) => match declare(after.scopes, name, found) {
                Some(scopes) => Ok((Value::Null, State { scopes, next: after.next })),
                None => Err(Stop::Failed(Error::NameError)),
            },
            Err(stop) => Err(stop),
        },
        Node::Assign(name, value) => match eval(w, st, *value) {
            Ok((found, after)) => match assign(after.scopes, name, found) {
                Some(scopes) => Ok((Value::Null, State { scopes, next: after.next })),
                None => Err(Stop::Failed(Error::NameError)),
            },
            Err(stop) => Err(stop),
        },
        Node::Unary(sign, operand) => match eval(w, st, *operand) {
            Ok((found, after)) => operate(w, after, '*', found, unit(sign)),
            Err(stop) => Err(stop),
        },
        Node::Binary(left, right, operator) => match eval(w, st, *left) {
            Ok((first, middle)) => match eval(w, middle, *right) {
                Ok((second, after)) => operate(w, after, operator, first, second),
                Err(stop) => Err(stop),
            },
            Err(stop) => Err(stop),
        },
        Node::Call(name, args) => match eval_list(w, st, args, 0) {
            Ok((found, after)) => match refusal(w.registry, name, found) {
                Some(e) => Err(Stop::Failed(e)),
                None => ask(w, after, Ask::Call(name, found)),
            },
            Err(stop) => Err(stop),
        },
        Node::If(condition, body) => match eval(w, st, *condition) {
            Ok((Value::Bool(holds), after)) => if holds {
                match eval_list(w, after, body, 0) {
                    Ok((_, end)) => Ok((Value::Null, end)),
                    Err(stop) => Err(stop),
                }
            } else {
                Ok((Value::Null, after))
            },
            Ok(_) => Err(Stop::Failed(Error::TypeError)),
            Err(stop) => Err(stop),
        },
    }
}

/// The values of `items` from index `from` on, each evaluated in the state
/// that the one before it left.
pub open spec fn eval_list(w: World, st: State, items: Seq<Node>, from: int) -> EvaluatedList
    decreases items, items.len() - from,
{
    if 0 <= from < items.len() {
        match eval(w, st, items[from]) {
            Ok((value, after)) => match eval_list(w, after, items, from + 1) {
                Ok((rest, end)) => Ok((seq![value] + rest, end)),
                Err(stop) => Err(stop),
            },
            Err(stop) => Err(stop),
        }
    } else {
        Ok((Seq::empty(), st))
    }
}

/// The value of the last of `statements`, evaluated in order from state
/// `st`; null where there is none.
pub open spec fn run_all(w: World, st: State, statements: Seq<Node>) -> Evaluated {
    match eval_list(w, st, statements, 0) {
        Ok((found, end)) => Ok(
            (
                if found.len() == 0 {
                    Value::Null
                } else {
                    found.last()
                },
                end,
            ),
        ),
        Err(stop) => Err(stop),
    }
}

/// What a run of `source` comes to in the scopes `scopes`: the text is
/// tokenized, the tokens are parsed, and the statements are evaluated.
pub open spec fn spec_run(w: World, scopes: Seq<Scope>, source: Seq<char>) -> Evaluated {
    match spec_tokenize(source) {
        Ok(tokens) => match program(tokens, 0) {
            Ok(statements) => run_all(w, State { scopes, next: 0 }, statements),
            Err(e) => Err(Stop::Failed(Error::ParseError(e))),
        },
        Err(e) => Err(Stop::Failed(Error::LexError(e))),
    }
}

/// A division of any number by zero, of either sign, is an arithmetic
/// error, in every state and whatever the host has answered.
pub proof fn lemma_division_by_zero(w: World, st: State, dividend: Number, divisor: Number)
    requires
        divisor.is_zero(),
    ensures
        plan('/', Value::Number(dividend), Value::Number(divisor)) == Err::<Planned, Error>(
            Error::ArithmeticError,
        ),
        operate(w, st, '/', Value::Number(dividend), Value::Number(divisor)) == Err::<(Value, State), Stop>(
            Stop::Failed(Error::ArithmeticError),
        ),
{
}

/// A division of a number by a number that is not zero is what the host
/// answers to it, where that is a number.
pub proof fn lemma_division(w: World, st: State, dividend: Number, divisor: Number)
    requires
        !divisor.is_zero(),
    ensures
        operate(w, st, '/', Value::Number(dividend), Value::Number(divisor)) == ask_for(
            w,
            st,
            Ask::Operate('/', Value::Number(dividend), Value::Number(divisor)),
            RuntimeType::Number,
        ),
{
}

/// A run is determined by the program, the scopes, the registry and the
/// host's answers: two runs that agree in these come to the same.
pub proof fn lemma_run_deterministic(
    first: World,
    second: World,
    scopes_first: Seq<Scope>,
    scopes_second: Seq<Scope>,
    source_first: Seq<char>,
    source_second: Seq<char>,
)
    requires
        first.replies =~= second.replies,
        first.registry =~= second.registry,
        scopes_first =~= scopes_second,
        source_first =~= source_second,
    ensures
        spec_run(first, scopes_first, source_first) == spec_run(second, scopes_second, source_second),
{
}

/// How a run ended, where the program did not fail.
#[derive(Debug, PartialEq)]
pub enum Step {
    /// The program has run to its end; this is the value of its last
    /// statement.
    Done(RuntimeValue),
    /// The host is to answer this request and run the program again.
    Need(Request),
}

/// Whether what an evaluation returned, with the scopes it left, is what
/// `expected` says.
pub open spec fn evaluated(r: Result<(RuntimeValue, usize), Halt>, scopes: Seq<Scope>, expected: Evaluated) -> bool {
    match r {
        Ok((value, next)) => expected == Ok::<(Value, State), Stop>(
            (value@, State { scopes, next: next as int }),
        ),
        Err(halt) => expected == Err::<(Value, State), Stop>(halt@),
    }
}

/// The same for an evaluation of several trees.
pub open spec fn evaluated_list(
    r: Result<(Vec<RuntimeValue>, usize), Halt>,
    scopes: Seq<Scope>,
    expected: EvaluatedList,
) -> bool {
    match r {
        Ok((found, next)) => expected == Ok::<(Seq<Value>, State), Stop>(
            (values(found@), State { scopes, next: next as int }),
        ),
        Err(halt) => expected == Err::<(Seq<Value>, State), Stop>(halt@),
    }
}

/// `done` followed by the values that `rest` gave.
pub open spec fn glue(done: Seq<Value>, rest: EvaluatedList) -> EvaluatedList {
    match rest {
        Ok((found, end)) => Ok((done + found, end)),
        Err(stop) => Err(stop),
    }
}

/// An interpreter: one environment and one registry, for all its runs.
#[derive(Debug)]
pub struct Interpreter {
    pub env: Env,
    pub fr: FunctionRegistry,
}

impl Interpreter {
    /// The interpreter's invariant: that of its environment.
    pub open spec fn wf(&self) -> bool {
        self.env.wf()
    }

    /// What a run of this interpreter is given from outside the program.
    pub open spec fn world(&self, replies: Seq<Reply>) -> World {
        World { replies: answers(replies), registry: self.fr@ }
    }

    /// An interpreter with one empty scope and the built-in functions.
    pub fn new() -> (r: Self)
        ensures
            r.wf(),
            r.env@ == seq![Map::<Seq<char>, Value>::empty()],
            r.fr@ == with_natives(Map::empty()),
    {
        Interpreter { env: Env::new(None), fr: FunctionRegistry::new() }
    }

    /// Registers a native function of the host, for the runs to come.
    pub fn add_function(&mut self, function: Function)
        ensures
            final(self).env == old(self).env,
            final(self).fr@ == old(self).fr@.insert(function.name@, function.signature()),
    {
        self.fr.add_function(function);
    }

    /// Runs the program `input` with the host's answers so far.
    ///
    /// A run that comes to its end leaves the environment as the program
    /// made it, and hands back the value of the last statement, or null. A
    /// run that needs one more answer, and a run that fails, leave the
    /// environment as it was.
    pub fn run(&mut self, input: &str, replies: &Vec<Reply>) -> (r: Result<Step, Error>)
        requires
            old(self).wf(),
            input@.len() < u32::MAX,
        ensures
            final(self).wf(),
            final(self).fr == old(self).fr,
            match spec_run(old(self).world(replies@), old(self).env@, input@) {
                Ok((value, end)) => r is Ok && r.unwrap() is Done && r.unwrap()->Done_0@ == value
                    && final(self).env@ == end.scopes,
                Err(Stop::Need(request)) => r is Ok && r.unwrap() is Need && r.unwrap()->Need_0@
                    == request && final(self).env@ == old(self).env@,
                Err(Stop::Failed(e)) => r == Err::<Step, Error>(e) && final(self).env@ == old(self).env@,
            },
    {
        let mut parser = match Parser::new(input) {
            Ok(parser) => parser,
            Err(e) => {
                return Err(Error::LexError(e));
            },
        };
        let ast = match parser.parse() {
            Ok(ast) => ast,
            Err(e) => {
                return Err(Error::ParseError(e));
            },
        };
        self.execute(&ast, replies)
    }

    /// Runs the statements `ast` with the host's answers so far, as `run`
    /// does once it has parsed its text.
    pub fn execute(&mut self, ast: &Vec<ASTNode>, replies: &Vec<Reply>) -> (r: Result<Step, Error>)
        requires
            old(self).wf(),
        ensures
            final(self).wf(),
            final(self).fr == old(self).fr,
            match run_all(
                old(self).world(replies@),
                State { scopes: old(self).env@, next: 0 },
                nodes(ast@),
            ) {
                Ok((value, end)) => r is Ok && r.unwrap() is Done && r.unwrap()->Done_0@ == value
                    && final(self).env@ == end.scopes,
                Err(Stop::Need(request)) => r is Ok && r.unwrap() is Need && r.unwrap()->Need_0@
                    == request && final(self).env@ == old(self).env@,
                Err(Stop::Failed(e)) => r == Err::<Step, Error>(e) && final(self).env@ == old(self).env@,
            },
    {
        let saved = self.env.duplicate();
        match self.statements(ast, replies, 0) {
            Ok((mut found, _)) => {
                match found.pop() {
                    Some(last_value) => Ok(Step::Done(last_value)),
                    None => Ok(Step::Done(RuntimeValue::Null)),
                }
            },
            Err(Halt::Need(request)) => {
                self.env = saved;
                Ok(Step::Need(request))
            },
            Err(Halt::Failed(e)) => {
                self.env = saved;
                Err(e)
            },
        }
    }

    /// Evaluates `items` in order, each in the state that the one before
    /// it left.
    fn statements(&mut self, items: &Vec<ASTNode>, replies: &Vec<Reply>, next: usize) -> (r: Result<
        (Vec<RuntimeValue>, usize),
        Halt,
    >)
        requires
            old(self).wf(),
        ensures
            final(self).wf(),
            final(self).fr == old(self).fr,
            evaluated_list(
                r,
                final(self).env@,
                eval_list(
                    old(self).world(replies@),
                    State { scopes: old(self).env@, next: next as int },
                    nodes(items@),
                    0,
                ),
            ),
        decreases items, 0int,
    {
        let ghost w = self.world(replies@);
        let ghost start = State { scopes: self.env@, next: next as int };
        let ghost trees = nodes(items@);
        let mut found: Vec<RuntimeValue> = Vec::new();
        let mut at = next;
        let n = items.len();
        let mut i: usize = 0;
        while i < n
            invariant
                self.wf(),
                self.fr == old(self).fr,
                w == old(self).world(replies@),
                start == (State { scopes: old(self).env@, next: next as int }),
                trees == nodes(items@),
                n == items@.len(),
                i <= n,
                eval_list(w, start, trees, 0) == glue(
                    values(found@),
                    eval_list(w, State { scopes: self.env@, next: at as int }, trees, i as int),
                ),
            decreases n - i,
        {
            let ghost done = values(found@);
            let ghost here = State { scopes: self.env@, next: at as int };
            match self.initial_expression(&items[i], replies, at) {
                Ok((value, after)) => {
                    proof {
                        let there = State { scopes: self.env@, next: after as int };
                        assert(values(found@.push(value)) =~= done + seq![value@]);
                        match eval_list(w, there, trees, i + 1) {
                            Ok((rest, end)) => {
                                assert(done + (seq![value@] + rest) =~= (done + seq![value@]) + rest);
                            },
                            Err(_) => {},
                        }
                    }
                    found.push(value);
                    at = after;
                },
                Err(halt) => {
                    return Err(halt);
                },
            }
            i += 1;
        }
        proof {
            assert(values(found@) + Seq::<Value>::empty() =~= values(found@));
        }
        Ok((found, at))
    }

    /// Evaluates one tree.
    fn initial_expression(&mut self, node: &ASTNode, replies: &Vec<Reply>, next: usize) -> (r: Result<
        (RuntimeValue, usize),
        Halt,
    >)
        requires
            old(self).wf(),
        ensures
            final(self).wf(),
            final(self).fr == old(self).fr,
            evaluated(
                r,
                final(self).env@,
                eval(old(self).world(replies@), State { scopes: old(self).env@, next: next as int }, node@),
            ),
        decreases node, 1int,
    {
        match node {
            ASTNode::Number(value) => self.ask_for(
                Request::Literal { text: value.clone() },
                RuntimeType::Number,
                replies,
                next,
            ),
            ASTNode::String(value) => Ok((RuntimeValue::String(value.clone()), next)),
            ASTNode::Bool(value) => Ok((RuntimeValue::Bool(*value), next)),
            ASTNode::BinaryExpression { .. } => self.binary_expression(node, replies, next),
            ASTNode::UnaryExpression { .. } => self.unary_expression(node, replies, next),
            ASTNode::FunctionCall { .. } => self.function_call(node, replies, next),
            ASTNode::VarDeclaration { .. } => self.var_declaration(node, replies, next),
            ASTNode::VarAssignment { .. } => self.var_assignment(node, replies, next),
            ASTNode::IfStmt { .. } => self.if_statement(node, replies, next),
            ASTNode::Identifier { name } => match self.env.get(name.as_str()) {
                Ok(value) => Ok((value.clone(), next)),
                Err(e) => Err(Halt::Failed(e)),
            },
        }
    }

    /// Evaluates a declaration: the expression, then the binding.
    fn var_declaration(&mut self, node: &ASTNode, replies: &Vec<Reply>, next: usize) -> (r: Result<
        (RuntimeValue, usize),
        Halt,
    >)
        requires
            old(self).wf(),
            node is VarDeclaration,
        ensures
            final(self).wf(),
            final(self).fr == old(self).fr,
            evaluated(
                r,
                final(self).env@,
                eval(old(self).world(replies@), State { scopes: old(self).env@, next: next as int }, node@),
            ),
        decreases node, 0int,
    {
        match node {
            ASTNode::VarDeclaration { name, value } => {
                let (var_value, after) = match self.initial_expression(value, replies, next) {
                    Ok(found) => found,
                    Err(halt) => {
                        return Err(halt);
                    },
                };
                match self.env.add(name.clone(), var_value) {
                    Ok(()) => Ok((RuntimeValue::Null, after)),
                    Err(e) => Err(Halt::Failed(e)),
                }
            },
            _ => Err(Halt::Failed(Error::TypeError)),
        }
    }

    /// Evaluates an assignment: the expression, then the binding.
    fn var_assignment(&mut self, node: &ASTNode, replies: &Vec<Reply>, next: usize) -> (r: Result<
        (RuntimeValue, usize),
        Halt,
    >)
        requires
            old(self).wf(),
            node is VarAssignment,
        ensures
            final(self).wf(),
            final(self).fr == old(self).fr,
            evaluated(
                r,
                final(self).env@,
                eval(old(self).world(replies@), State { scopes: old(self).env@, next: next as int }, node@),
            ),
        decreases node, 0int,
    {
        match node {
            ASTNode::VarAssignment { name, value } => {
                let (var_value, after) = match self.initial_expression(value, replies, next) {
                    Ok(found) => found,
                    Err(halt) => {
                        return Err(halt);
                    },
                };
                match self.env.update(name.clone(), var_value) {
                    Ok(()) => Ok((RuntimeValue::Null, after)),
                    Err(e) => Err(Halt::Failed(e)),
                }
            },
            _ => Err(Halt::Failed(Error::TypeError)),
        }
    }

    /// Evaluates a binary expression: the left operand, the right one, and
    /// the operator on both.
    fn binary_expression(&mut self, node: &ASTNode, replies: &Vec<Reply>, next: usize) -> (r: Result<
        (RuntimeValue, usize),
        Halt,
    >)
        requires
            old(self).wf(),
            node is BinaryExpression,
        ensures
            final(self).wf(),
            final(self).fr == old(self).fr,
            evaluated(
                r,
                final(self).env@,
                eval(old(self).world(replies@), State { scopes: old(self).env@, next: next as int }, node@),
            ),
        decreases node, 0int,
    {
        match node {
            ASTNode::BinaryExpression { left, right, operator } => {
                let (left, middle) = match self.initial_expression(left, replies, next) {
                    Ok(found) => found,
                    Err(halt) => {
                        return Err(halt);
                    },
                };
                let (right, after) = match self.initial_expression(right, replies, middle) {
                    Ok(found) => found,
                    Err(halt) => {
                        return Err(halt);
                    },
                };
                self.operate(*operator, left, right, replies, after)
            },
            _ => Err(Halt::Failed(Error::TypeError)),
        }
    }

    /// Evaluates a signed expression: the operand, multiplied by one or by
    /// minus one.
    fn unary_expression(&mut self, node: &ASTNode, replies: &Vec<Reply>, next: usize) -> (r: Result<
        (RuntimeValue, usize),
        Halt,
    >)
        requires
            old(self).wf(),
            node is UnaryExpression,
        ensures
            final(self).wf(),
            final(self).fr == old(self).fr,
            evaluated(
                r,
                final(self).env@,
                eval(old(self).world(replies@), State { scopes: old(self).env@, next: next as int }, node@),
            ),
        decreases node, 0int,
    {
        match node {
            ASTNode::UnaryExpression { sign, expr } => {
                let (value, after) = match self.initial_expression(expr, replies, next) {
                    Ok(found) => found,
                    Err(halt) => {
                        return Err(halt);
                    },
                };
                let bits = if *sign == '-' {
                    MINUS_ONE
                } else {
                    ONE
                };
                self.operate('*', value, RuntimeValue::Number(Number { bits }), replies, after)
            },
            _ => Err(Halt::Failed(Error::TypeError)),
        }
    }

    /// Evaluates a call: the arguments from left to right, the registry's
    /// checks, and the host's answer.
    fn function_call(&mut self, node: &ASTNode, replies: &Vec<Reply>, next: usize) -> (r: Result<
        (RuntimeValue, usize),
        Halt,
    >)
        requires
            old(self).wf(),
            node is FunctionCall,
        ensures
            final(self).wf(),
            final(self).fr == old(self).fr,
            evaluated(
                r,
                final(self).env@,
                eval(old(self).world(replies@), State { scopes: old(self).env@, next: next as int }, node@),
            ),
        decreases node, 0int,
    {
        proof {
            lemma_call_model(*node);
        }
        match node {
            ASTNode::FunctionCall { name, args } => {
                let (runtime_values, after) = match self.statements(args, replies, next) {
                    Ok(found) => found,
                    Err(halt) => {
                        return Err(halt);
                    },
                };
                match self.fr.call(name.as_str(), runtime_values) {
                    Ok(arguments) => self.ask(Request::Call { name: name.clone(), args: arguments }, replies, after),
                    Err(e) => Err(Halt::Failed(e)),
                }
            },
            _ => Err(Halt::Failed(Error::TypeError)),
        }
    }

    /// Evaluates a conditional: the condition, and where it holds the
    /// statements of the body.
    fn if_statement(&mut self, node: &ASTNode, replies: &Vec<Reply>, next: usize) -> (r: Result<
        (RuntimeValue, usize),
        Halt,
    >)
        requires
            old(self).wf(),
            node is IfStmt,
        ensures
            final(self).wf(),
            final(self).fr == old(self).fr,
            evaluated(
                r,
                final(self).env@,
                eval(old(self).world(replies@), State { scopes: old(self).env@, next: next as int }, node@),
            ),
        decreases node, 0int,
    {
        proof {
            lemma_if_model(*node);
        }
        match node {
            ASTNode::IfStmt { expr, true_block } => {
                let (condition, after) = match self.initial_expression(expr, replies, next) {
                    Ok(found) => found,
                    Err(halt) => {
                        return Err(halt);
                    },
                };
                match condition {
                    RuntimeValue::Bool(true) => match self.statements(true_block, replies, after) {
                        Ok((_, end)) => Ok((RuntimeValue::Null, end)),
                        Err(halt) => Err(halt),
                    },
                    RuntimeValue::Bool(false) => Ok((RuntimeValue::Null, after)),
                    _ => Err(Halt::Failed(Error::TypeError)),
                }
            },
            _ => Err(Halt::Failed(Error::TypeError)),
        }
    }

    /// Applies `operator` to two values.
    fn operate(
        &self,
        operator: char,
        left: RuntimeValue,
        right: RuntimeValue,
        replies: &Vec<Reply>,
        next: usize,
    ) -> (r: Result<(RuntimeValue, usize), Halt>)
        ensures
            evaluated(
                r,
                self.env@,
                operate(self.world(replies@), State { scopes: self.env@, next: next as int }, operator, left@, right@),
            ),
    {
        let planned = match operator {
            '-' => left.sub(right),
            '+' => left.add(right),
            '*' => left.mul(right),
            '/' => left.div(right),
            '^' => left.pow(right),
            '>' | '<' => left.compare(right, operator),
            _ => Err(Error::TypeError),
        };
        match planned {
            Ok(Plan::Value(value)) => Ok((value, next)),
            Ok(Plan::Ask { request, kind }) => self.ask_for(request, kind, replies, next),
            Err(e) => Err(Halt::Failed(e)),
        }
    }

    /// Takes the host's next answer, or halts for the host to give it.
    fn ask(&self, request: Request, replies: &Vec<Reply>, next: usize) -> (r: Result<
        (RuntimeValue, usize),
        Halt,
    >)
        ensures
            evaluated(
                r,
                self.env@,
                ask(self.world(replies@), State { scopes: self.env@, next: next as int }, request@),
            ),
    {
        if next < replies.len() {
            match &replies[next] {
                Ok(value) => Ok((value.clone(), next + 1)),
                Err(e) => Err(Halt::Failed(*e)),
            }
        } else {
            Err(Halt::Need(request))
        }
    }

    /// Takes the host's next answer, which is to be of `kind`.
    fn ask_for(&self, request: Request, kind: RuntimeType, replies: &Vec<Reply>, next: usize) -> (r: Result<
        (RuntimeValue, usize),
        Halt,
    >)
        ensures
            evaluated(
                r,
                self.env@,
                ask_for(self.world(replies@), State { scopes: self.env@, next: next as int }, request@, kind),
            ),
    {
        match self.ask(request, replies, next) {
            Ok((value, after)) => {
                if value.to_type() == kind {
                    Ok((value, after))
                } else {
                    Err(Halt::Failed(Error::TypeError))
                }
            },
            Err(halt) => Err(halt),
        }
    }
}

} // verus!
