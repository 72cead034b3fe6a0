use std::collections::VecDeque;
use vstd::prelude::*;

use crate::compiler::{CompileError, CompileErrorView, ErrorType};
use crate::resources::ResourceLoc;
use crate::tokenizer::{token_views, Token, TokenView};

verus! {

/// A reference to a resource, as written in source text and not yet looked
/// up.
#[derive(Debug, Clone, PartialEq, Eq)]
pub enum AnonResourceLoc {
    /// A full path, one segment for each name between `::`.
    Absolute(Vec<String>),
    /// A single name, to be searched for from the place of use outwards.
    Relative(String),
}

/// An [`AnonResourceLoc`] as a plain value.
pub enum LocView {
    Absolute(Seq<Seq<char>>),
    Relative(Seq<char>),
}

impl View for AnonResourceLoc {
    type V = LocView;

    open spec fn view(&self) -> LocView {
        match self {
            AnonResourceLoc::Absolute(path) => LocView::Absolute(path.deep_view()),
            AnonResourceLoc::Relative(name) => LocView::Relative(name@),
        }
    }
}

/// An expression.
#[derive(Debug, PartialEq, Eq)]
#[allow(inconsistent_fields)]
pub enum Value {
    MethodCall { on: Box<Value>, name: AnonResourceLoc, parameters: Vec<Value> },
    FunctionCall { fun: AnonResourceLoc, parameters: Vec<Value> },
    Constructor { data_type: AnonResourceLoc, parameters: Vec<Value> },
    GetProperty { on: Box<Value>, name: String },
    /// The comparison inside came out as "greater".
    Greater(Box<Value>),
    Less(Box<Value>),
    GreaterEqual(Box<Value>),
    LessEqual(Box<Value>),
    Equal(Box<Value>),
    NotEqual(Box<Value>),
    String(String),
    Variable(AnonResourceLoc),
    /// A decimal literal, as written.
    Num(String),
    Int(i64),
    Boolean(bool),
}

/// A [`Value`] as a plain value.
#[allow(inconsistent_fields)]
pub enum ValueView {
    MethodCall { on: Box<ValueView>, name: LocView, parameters: Seq<ValueView> },
    FunctionCall { fun: LocView, parameters: Seq<ValueView> },
    Constructor { data_type: LocView, parameters: Seq<ValueView> },
    GetProperty { on: Box<ValueView>, name: Seq<char> },
    Greater(Box<ValueView>),
    Less(Box<ValueView>),
    GreaterEqual(Box<ValueView>),
    LessEqual(Box<ValueView>),
    Equal(Box<ValueView>),
    NotEqual(Box<ValueView>),
    String(Seq<char>),
    Variable(LocView),
    Num(Seq<char>),
    Int(i64),
    Boolean(bool),
}

/// The plain value of the expression `v`.
pub open spec fn value_view(v: Value) -> ValueView
    decreases v,
{
    match v {
        Value::MethodCall { on, name, parameters } => ValueView::MethodCall {
            on: Box::new(value_view(*on)),
            name: name@,
            parameters: parameters_view(parameters),
        },
        Value::FunctionCall { fun, parameters } => ValueView::FunctionCall {
            fun: fun@,
            parameters: parameters_view(parameters),
        },
        Value::Constructor { data_type, parameters } => ValueView::Constructor {
            data_type: data_type@,
            parameters: parameters_view(parameters),
        },
        Value::GetProperty { on, name } => ValueView::GetProperty {
            on: Box::new(value_view(*on)),
            name: name@,
        },
        Value::Greater(inner) => ValueView::Greater(Box::new(value_view(*inner))),
        Value::Less(inner) => ValueView::Less(Box::new(value_view(*inner))),
        Value::GreaterEqual(inner) => ValueView::GreaterEqual(Box::new(value_view(*inner))),
        Value::LessEqual(inner) => ValueView::LessEqual(Box::new(value_view(*inner))),
        Value::Equal(inner) => ValueView::Equal(Box::new(value_view(*inner))),
        Value::NotEqual(inner) => ValueView::NotEqual(Box::new(value_view(*inner))),
        Value::String(text) => ValueView::String(text@),
        Value::Variable(loc) => ValueView::Variable(loc@),
        Value::Num(text) => ValueView::Num(text@),
        Value::Int(n) => ValueView::Int(n),
        Value::Boolean(b) => ValueView::Boolean(b),
    }
}

/// The plain values of the arguments `parameters` of a call.
pub open spec fn parameters_view(parameters: Vec<Value>) -> Seq<ValueView>
    decreases parameters,
{
    Seq::new(
        parameters@.len(),
        |i: int|
            if 0 <= i < parameters@.len() {
                value_view(parameters@[i])
            } else {
                arbitrary()
            },
    )
}

impl View for Value {
    type V = ValueView;

    open spec fn view(&self) -> ValueView {
        value_view(*self)
    }
}

/// The plain values of the expressions `vs`.
pub open spec fn value_views(vs: Seq<Value>) -> Seq<ValueView> {
    vs.map_values(|v: Value| v@)
}

// ---------------------------------------------------------------------
// The operators
// ---------------------------------------------------------------------
/// A binary operator of the language.
#[derive(Debug, Clone, Copy, PartialEq, Eq, Structural)]
pub enum Operator {
    Concat,
    Or,
    And,
    Equal,
    NotEqual,
    Greater,
    Less,
    GreaterEqual,
    LessEqual,
    Add,
    Subtract,
    Multiply,
    Divide,
    Modulo,
}

/// The number of levels of binary operators.
pub const LEVELS: u8 = 7;

/// The operator that a token stands for.
pub open spec fn operator_of(t: TokenView) -> Option<Operator> {
    match t {
        TokenView::Concat => Some(Operator::Concat),
        TokenView::BoolOr => Some(Operator::Or),
        TokenView::BoolAnd => Some(Operator::And),
        TokenView::Equals => Some(Operator::Equal),
        TokenView::NotEquals => Some(Operator::NotEqual),
        TokenView::Greater => Some(Operator::Greater),
        TokenView::Less => Some(Operator::Less),
        TokenView::GreaterEqual => Some(Operator::GreaterEqual),
        TokenView::LessEqual => Some(Operator::LessEqual),
        TokenView::Sum => Some(Operator::Add),
        TokenView::Minus => Some(Operator::Subtract),
        TokenView::Multiply => Some(Operator::Multiply),
        TokenView::Divide => Some(Operator::Divide),
        TokenView::Modulo => Some(Operator::Modulo),
        _ => None,
    }
}

/// The level of an operator; an operator of a higher level binds its
/// operands more tightly.
pub open spec fn level_of(op: Operator) -> nat {
    match op {
        Operator::Concat => 0,
        Operator::Or => 1,
        Operator::And => 2,
        Operator::Equal | Operator::NotEqual => 3,
        Operator::Greater | Operator::Less | Operator::GreaterEqual | Operator::LessEqual => 4,
        Operator::Add | Operator::Subtract => 5,
        Operator::Multiply | Operator::Divide | Operator::Modulo => 6,
    }
}

/// The operator of level `level` that `t` stands for.
pub open spec fn operator_at(level: nat, t: TokenView) -> Option<Operator> {
    match operator_of(t) {
        Some(op) => if level_of(op) == level {
            Some(op)
        } else {
            None
        },
        None => None,
    }
}

/// The method named `name` of the trait `owner` in `std::operators`.
pub open spec fn operators_path(owner: Seq<char>, name: Seq<char>) -> Seq<Seq<char>> {
    seq!["std"@, "operators"@, owner, name]
}

/// The method named `name` of the type `owner` in `std::collections`.
pub open spec fn collections_path(owner: Seq<char>, name: Seq<char>) -> Seq<Seq<char>> {
    seq!["std"@, "collections"@, owner, name]
}

/// The method that an operator is a call of. `&`, `||` and `&&` are calls
/// of one and the same method, and so are the six comparisons, which differ
/// in the marker around the call.
pub open spec fn operator_method(op: Operator) -> Seq<Seq<char>> {
    match op {
        Operator::Concat | Operator::Or | Operator::And => operators_path(
            "Concatenate"@,
            "concatenate"@,
        ),
        Operator::Equal
        | Operator::NotEqual
        | Operator::Greater
        | Operator::Less
        | Operator::GreaterEqual
        | Operator::LessEqual => operators_path("Comparable"@, "compare"@),
        Operator::Add => operators_path("Add"@, "add"@),
        Operator::Subtract => operators_path("Subtract"@, "subtract"@),
        Operator::Multiply => operators_path("Multiply"@, "multiply"@),
        Operator::Divide => operators_path("Divide"@, "divide"@),
        Operator::Modulo => operators_path("Modulo"@, "modulo"@),
    }
}

/// The call of the method at `path` on `on` with the arguments
/// `parameters`.
pub open spec fn method_call(on: ValueView, path: Seq<Seq<char>>, parameters: Seq<ValueView>)
    -> ValueView {
    ValueView::MethodCall { on: Box::new(on), name: LocView::Absolute(path), parameters }
}

/// The expression `on op arg`: a call of the method of `op` on `on` with
/// the one argument `arg`; for the six comparisons the call is wrapped in
/// the marker of the comparison.
pub open spec fn apply(op: Operator, on: ValueView, arg: ValueView) -> ValueView {
    let call = method_call(on, operator_method(op), seq![arg]);
    match op {
        Operator::Equal => ValueView::Equal(Box::new(call)),
        Operator::NotEqual => ValueView::NotEqual(Box::new(call)),
        Operator::Greater => ValueView::Greater(Box::new(call)),
        Operator::Less => ValueView::Less(Box::new(call)),
        Operator::GreaterEqual => ValueView::GreaterEqual(Box::new(call)),
        Operator::LessEqual => ValueView::LessEqual(Box::new(call)),
        _ => call,
    }
}

/// The expression that a list literal with the elements `items` stands
/// for: a new list, with the elements pushed one after the other.
pub open spec fn list_chain(items: Seq<ValueView>) -> ValueView
    decreases items.len(),
{
    if items.len() == 0 {
        ValueView::Constructor {
            data_type: LocView::Absolute(collections_path("List"@, "new"@)),
            parameters: Seq::empty(),
        }
    } else {
        method_call(
            list_chain(items.drop_last()),
            collections_path("List"@, "push"@),
            seq![items.last()],
        )
    }
}

/// The expression that a dictionary literal with the entries `entries`
/// stands for: a new dictionary, with the keys set one after the other.
pub open spec fn dict_chain(entries: Seq<(Seq<char>, ValueView)>) -> ValueView
    decreases entries.len(),
{
    if entries.len() == 0 {
        ValueView::Constructor {
            data_type: LocView::Absolute(collections_path("Dictionary"@, "new"@)),
            parameters: Seq::empty(),
        }
    } else {
        let (key, value) = entries.last();
        method_call(
            dict_chain(entries.drop_last()),
            collections_path("Dictionary"@, "setKey"@),
            seq![ValueView::String(key), value],
        )
    }
}

// ---------------------------------------------------------------------
// The grammar
// ---------------------------------------------------------------------
// Each rule is a function from the tokens at hand to what was read and the
// tokens after it. Where a rule goes on reading after another rule, it does
// so only if that rule has left fewer tokens than there were: this is what
// shows that the reading ends. `lemma_expression_shrinks` and the lemmas
// before it show that every rule does leave fewer tokens, so the other
// branch is never taken.
/// How reading one rule of the grammar from the front of a token sequence
/// ends.
pub enum Parsed<T> {
    /// The rule was read: what it stands for, and the tokens after it.
    Done(T, Seq<TokenView>),
    /// The rule does not fit: why, and the tokens from the first one that
    /// could not be taken.
    Failed(ErrorType, Seq<TokenView>),
}

/// Reads the segments of a path after its first: `::` and a name, as often
/// as `::` follows.
pub open spec fn spec_path(segments: Seq<Seq<char>>, s: Seq<TokenView>) -> Parsed<LocView>
    decreases s.len(),
{
    if s.len() > 0 && s[0] is Relation {
        if s.len() > 1 && s[1] is Identifier {
            spec_path(segments.push(s[1]->Identifier_0), s.skip(2))
        } else {
            Parsed::Failed(ErrorType::InvalidTokenError, s.skip(1))
        }
    } else {
        Parsed::Done(LocView::Absolute(segments), s)
    }
}

/// Reads a reference to a resource: a name alone is a relative reference,
/// a name with further names after `::` an absolute one that holds all of
/// them.
pub open spec fn spec_location(s: Seq<TokenView>) -> Parsed<LocView> {
    if s.len() > 0 && s[0] is Identifier {
        if s.len() > 1 && s[1] is Relation {
            spec_path(seq![s[0]->Identifier_0], s.skip(1))
        } else {
            Parsed::Done(LocView::Relative(s[0]->Identifier_0), s.skip(1))
        }
    } else {
        Parsed::Failed(ErrorType::InvalidTokenError, s)
    }
}

/// Reads an expression whose loosest operator is of level `level` or
/// higher: an operand of the next level and, where an operator of this
/// level follows, the same rule again for all that stands to the right of
/// it. The operand of the highest level is a [`spec_pre`].
pub open spec fn spec_binary(level: nat, s: Seq<TokenView>) -> Parsed<ValueView>
    decreases s.len(), 17 - if level < 6 { level } else { 6 },
{
    let operand = if level < 6 {
        spec_binary(level + 1, s)
    } else {
        spec_pre(s)
    };
    match operand {
        Parsed::Failed(kind, rest) => Parsed::Failed(kind, rest),
        Parsed::Done(first, rest) => {
            if rest.len() > 0 && rest.len() <= s.len() && operator_at(level, rest[0]) is Some {
                match spec_binary(level, rest.skip(1)) {
                    Parsed::Done(second, after) => Parsed::Done(
                        apply(operator_at(level, rest[0])->0, first, second),
                        after,
                    ),
                    Parsed::Failed(kind, after) => Parsed::Failed(kind, after),
                }
            } else {
                Parsed::Done(first, rest)
            }
        },
    }
}

/// Reads a whole expression.
pub open spec fn spec_expression(s: Seq<TokenView>) -> Parsed<ValueView> {
    spec_binary(0, s)
}

/// Reads an accessor chain, with `!` before it or without.
pub open spec fn spec_pre(s: Seq<TokenView>) -> Parsed<ValueView>
    decreases s.len(), 9int,
{
    if s.len() > 0 && s[0] is BoolNot {
        match spec_acc(s.skip(1)) {
            Parsed::Done(inner, rest) => Parsed::Done(
                method_call(inner, operators_path("Not"@, "not"@), Seq::empty()),
                rest,
            ),
            Parsed::Failed(kind, rest) => Parsed::Failed(kind, rest),
        }
    } else {
        spec_acc(s)
    }
}

/// Reads an accessor chain: a primitive and the accessors after it.
pub open spec fn spec_acc(s: Seq<TokenView>) -> Parsed<ValueView>
    decreases s.len(), 8int,
{
    match spec_value(s) {
        Parsed::Done(first, rest) => {
            if rest.len() < s.len() {
                spec_acc_rest(first, rest)
            } else {
                Parsed::Done(first, rest)
            }
        },
        Parsed::Failed(kind, rest) => Parsed::Failed(kind, rest),
    }
}

/// Reads the accessors that follow the expression `on`: `[` index `]`,
/// `.name` and `.name(arguments)`, each applied to all that stands before
/// it.
pub open spec fn spec_acc_rest(on: ValueView, s: Seq<TokenView>) -> Parsed<ValueView>
    decreases s.len(), 0int,
{
    if s.len() > 0 && s[0] is OpenBracket {
        match spec_binary(0, s.skip(1)) {
            Parsed::Done(inside, rest) => {
                if rest.len() > 0 && rest.len() < s.len() && rest[0] is CloseBracket {
                    spec_acc_rest(
                        method_call(on, operators_path("Accessible"@, "getKey"@), seq![inside]),
                        rest.skip(1),
                    )
                } else {
                    Parsed::Failed(ErrorType::InvalidTokenError, rest)
                }
            },
            Parsed::Failed(kind, rest) => Parsed::Failed(kind, rest),
        }
    } else if s.len() > 0 && s[0] is Dot {
        if s.len() > 1 && s[1] is Identifier {
            let name = s[1]->Identifier_0;
            if s.len() > 2 && s[2] is OpenParen {
                match spec_params(s.skip(2)) {
                    Parsed::Done(parameters, rest) => {
                        if rest.len() < s.len() {
                            spec_acc_rest(
                                ValueView::MethodCall {
                                    on: Box::new(on),
                                    name: LocView::Relative(name),
                                    parameters,
                                },
                                rest,
                            )
                        } else {
                            Parsed::Failed(ErrorType::InternalError, rest)
                        }
                    },
                    Parsed::Failed(kind, rest) => Parsed::Failed(kind, rest),
                }
            } else {
                spec_acc_rest(ValueView::GetProperty { on: Box::new(on), name }, s.skip(2))
            }
        } else {
            Parsed::Failed(ErrorType::InvalidTokenError, s.skip(1))
        }
    } else {
        Parsed::Done(on, s)
    }
}

/// Reads a primitive: a literal, a reference to a resource with a list of
/// arguments after it or without, a list literal or a dictionary literal.
pub open spec fn spec_value(s: Seq<TokenView>) -> Parsed<ValueView>
    decreases s.len(), 7int,
{
    if s.len() == 0 {
        Parsed::Failed(ErrorType::InvalidTokenError, s)
    } else {
        match s[0] {
            TokenView::Number(text) => Parsed::Done(ValueView::Num(text), s.skip(1)),
            TokenView::Int(n) => Parsed::Done(ValueView::Int(n), s.skip(1)),
            TokenView::String(text) => Parsed::Done(ValueView::String(text), s.skip(1)),
            TokenView::True => Parsed::Done(ValueView::Boolean(true), s.skip(1)),
            TokenView::False => Parsed::Done(ValueView::Boolean(false), s.skip(1)),
            TokenView::Identifier(_) => match spec_location(s) {
                Parsed::Done(loc, rest) => {
                    if rest.len() > 0 && rest.len() < s.len() && rest[0] is OpenParen {
                        match spec_params(rest) {
                            Parsed::Done(parameters, after) => Parsed::Done(
                                ValueView::FunctionCall { fun: loc, parameters },
                                after,
                            ),
                            Parsed::Failed(kind, after) => Parsed::Failed(kind, after),
                        }
                    } else {
                        Parsed::Done(ValueView::Variable(loc), rest)
                    }
                },
                Parsed::Failed(kind, rest) => Parsed::Failed(kind, rest),
            },
            TokenView::OpenBracket => spec_list(s),
            TokenView::OpenBrace => spec_dict(s),
            _ => Parsed::Failed(ErrorType::InvalidTokenError, s),
        }
    }
}

/// Reads the next element of a list that the token `close` ends: nothing
/// where `close` stands at the front, with a `,` before it or without, and
/// `close` is taken; else an expression, with a `,` before it or without.
pub open spec fn spec_next_item(s: Seq<TokenView>, close: TokenView) -> Parsed<Option<ValueView>>
    decreases s.len(), 19int,
{
    if s.len() == 0 {
        Parsed::Failed(ErrorType::InvalidTokenError, s)
    } else if s[0] == close {
        Parsed::Done(None, s.skip(1))
    } else if s[0] is Separator && s.len() > 1 && s[1] == close {
        Parsed::Done(None, s.skip(2))
    } else {
        let from = if s[0] is Separator {
            s.skip(1)
        } else {
            s
        };
        match spec_binary(0, from) {
            Parsed::Done(item, rest) => Parsed::Done(Some(item), rest),
            Parsed::Failed(kind, rest) => Parsed::Failed(kind, rest),
        }
    }
}

/// Reads the elements of a list after `items`, up to the token `close`,
/// which is taken too.
pub open spec fn spec_items(s: Seq<TokenView>, close: TokenView, items: Seq<ValueView>) -> Parsed<
    Seq<ValueView>,
>
    decreases s.len(), 20int,
{
    match spec_next_item(s, close) {
        Parsed::Done(None, rest) => Parsed::Done(items, rest),
        Parsed::Done(Some(item), rest) => {
            if rest.len() < s.len() {
                spec_items(rest, close, items.push(item))
            } else {
                Parsed::Failed(ErrorType::InternalError, rest)
            }
        },
        Parsed::Failed(kind, rest) => Parsed::Failed(kind, rest),
    }
}

/// Reads a list of arguments in round brackets.
pub open spec fn spec_params(s: Seq<TokenView>) -> Parsed<Seq<ValueView>>
    decreases s.len(), 5int,
{
    if s.len() > 0 && s[0] is OpenParen {
        spec_items(s.skip(1), TokenView::CloseParen, Seq::empty())
    } else {
        Parsed::Failed(ErrorType::InvalidTokenError, s)
    }
}

/// Reads a list literal in square brackets.
pub open spec fn spec_list(s: Seq<TokenView>) -> Parsed<ValueView>
    decreases s.len(), 5int,
{
    if s.len() > 0 && s[0] is OpenBracket {
        match spec_items(s.skip(1), TokenView::CloseBracket, Seq::empty()) {
            Parsed::Done(items, rest) => Parsed::Done(list_chain(items), rest),
            Parsed::Failed(kind, rest) => Parsed::Failed(kind, rest),
        }
    } else {
        Parsed::Failed(ErrorType::InvalidTokenError, s)
    }
}

/// Reads the next entry of a dictionary literal: nothing where `}` stands
/// at the front, with a `,` before it or without, and `}` is taken; else a
/// name, `:` and an expression, with a `,` before them or without.
pub open spec fn spec_next_entry(s: Seq<TokenView>) -> Parsed<Option<(Seq<char>, ValueView)>>
    decreases s.len(), 19int,
{
    if s.len() == 0 {
        Parsed::Failed(ErrorType::InvalidTokenError, s)
    } else if s[0] is CloseBrace {
        Parsed::Done(None, s.skip(1))
    } else if s[0] is Separator && s.len() > 1 && s[1] is CloseBrace {
        Parsed::Done(None, s.skip(2))
    } else {
        let from = if s[0] is Separator {
            s.skip(1)
        } else {
            s
        };
        if from.len() > 0 && from[0] is Identifier {
            if from.len() > 1 && from[1] is TypeDef {
                match spec_binary(0, from.skip(2)) {
                    Parsed::Done(value, rest) => Parsed::Done(
                        Some((from[0]->Identifier_0, value)),
                        rest,
                    ),
                    Parsed::Failed(kind, rest) => Parsed::Failed(kind, rest),
                }
            } else {
                Parsed::Failed(ErrorType::InvalidTokenError, from.skip(1))
            }
        } else {
            Parsed::Failed(ErrorType::InvalidTokenError, from)
        }
    }
}

/// Reads the entries of a dictionary literal after `entries`, up to `}`,
/// which is taken too.
pub open spec fn spec_entries(s: Seq<TokenView>, entries: Seq<(Seq<char>, ValueView)>) -> Parsed<
    Seq<(Seq<char>, ValueView)>,
>
    decreases s.len(), 20int,
{
    match spec_next_entry(s) {
        Parsed::Done(None, rest) => Parsed::Done(entries, rest),
        Parsed::Done(Some(entry), rest) => {
            if rest.len() < s.len() {
                spec_entries(rest, entries.push(entry))
            } else {
                Parsed::Failed(ErrorType::InternalError, rest)
            }
        },
        Parsed::Failed(kind, rest) => Parsed::Failed(kind, rest),
    }
}

/// Reads a dictionary literal in curly brackets.
pub open spec fn spec_dict(s: Seq<TokenView>) -> Parsed<ValueView>
    decreases s.len(), 5int,
{
    if s.len() > 0 && s[0] is OpenBrace {
        match spec_entries(s.skip(1), Seq::empty()) {
            Parsed::Done(entries, rest) => Parsed::Done(dict_chain(entries), rest),
            Parsed::Failed(kind, rest) => Parsed::Failed(kind, rest),
        }
    } else {
        Parsed::Failed(ErrorType::InvalidTokenError, s)
    }
}

// ---------------------------------------------------------------------
// What the parser hands back
// ---------------------------------------------------------------------
/// The error that the parser reports for a failure of kind `kind`. Tokens
/// carry no place in the source text, so the error names none.
pub open spec fn parse_error(kind: ErrorType) -> CompileErrorView {
    CompileErrorView { error_type: kind, info: ""@, loc: Seq::empty(), line_num: 0, line_index: 0 }
}

/// Whether the result `r` of a parsing function and the tokens `after`
/// that it left in the queue are what the grammar says: the value and the
/// tokens after it where the rule was read, else the error of the failure
/// and the tokens from the one that could not be taken.
pub open spec fn settles<T>(
    out: Parsed<T>,
    r: Result<T, CompileErrorView>,
    after: Seq<TokenView>,
) -> bool {
    match out {
        Parsed::Done(v, rest) => r == Ok::<T, CompileErrorView>(v) && after == rest,
        Parsed::Failed(kind, rest) => r == Err::<T, CompileErrorView>(parse_error(kind))
            && after == rest,
    }
}

/// The result of a function that reads an expression, as plain values.
pub open spec fn value_result(r: Result<Value, CompileError>) -> Result<
    ValueView,
    CompileErrorView,
> {
    match r {
        Ok(v) => Ok(v@),
        Err(e) => Err(e@),
    }
}

/// The result of a function that reads a reference, as plain values.
pub open spec fn loc_result(r: Result<AnonResourceLoc, CompileError>) -> Result<
    LocView,
    CompileErrorView,
> {
    match r {
        Ok(v) => Ok(v@),
        Err(e) => Err(e@),
    }
}

/// The result of a function that reads several expressions, as plain
/// values.
pub open spec fn values_result(r: Result<Vec<Value>, CompileError>) -> Result<
    Seq<ValueView>,
    CompileErrorView,
> {
    match r {
        Ok(v) => Ok(value_views(v@)),
        Err(e) => Err(e@),
    }
}

/// What every parsing function keeps to besides the grammar: it takes
/// tokens from the front of the queue only, at least one where it
/// succeeds, and it fails with an `InvalidTokenError` or not at all.
pub open spec fn well_behaved<T>(
    r: Result<T, CompileError>,
    before: Seq<Token>,
    after: Seq<Token>,
) -> bool {
    &&& after.len() <= before.len()
    &&& r is Ok ==> after.len() < before.len()
    &&& r is Err ==> r->Err_0@.error_type == ErrorType::InvalidTokenError
}

// ---------------------------------------------------------------------
// The queue
// ---------------------------------------------------------------------
/// The token at the front of the queue.
fn front(queue: &VecDeque<Token>) -> (r: Option<&Token>)
    ensures
        match r {
            Some(t) => queue@.len() > 0 && *t == queue@[0] && t@ == token_views(queue@)[0],
            None => queue@.len() == 0,
        },
        token_views(queue@).len() == queue@.len(),
{
    if queue.len() > 0 {
        Some(&queue[0])
    } else {
        None
    }
}

/// Takes the token at the front of the queue.
fn pop(queue: &mut VecDeque<Token>) -> (r: Option<Token>)
    ensures
        match r {
            Some(t) => {
                &&& old(queue)@.len() > 0
                &&& t == old(queue)@[0]
                &&& final(queue)@.len() == old(queue)@.len() - 1
                &&& token_views(final(queue)@) == token_views(old(queue)@).skip(1)
            },
            None => old(queue)@.len() == 0 && final(queue)@ == old(queue)@,
        },
{
    let r = queue.pop_front();
    proof {
        if r is Some {
            assert(token_views(queue@) =~= token_views(old(queue)@).skip(1));
        }
    }
    r
}

fn fail<T>(kind: ErrorType) -> (r: Result<T, CompileError>)
    ensures
        r is Err,
        r->Err_0@ == parse_error(kind),
{
    Err(CompileError::new(kind, ResourceLoc::new(), 0, 0, ""))
}

// ---------------------------------------------------------------------
// Building expressions
// ---------------------------------------------------------------------
fn path_of(a: &str, b: &str, c: &str, d: &str) -> (r: AnonResourceLoc)
    ensures
        r@ == LocView::Absolute(seq![a@, b@, c@, d@]),
{
    let mut path: Vec<String> = Vec::new();
    path.push(String::from_str(a));
    path.push(String::from_str(b));
    path.push(String::from_str(c));
    path.push(String::from_str(d));
    assert(path.deep_view() =~= seq![a@, b@, c@, d@]);
    AnonResourceLoc::Absolute(path)
}

fn operator_loc(op: Operator) -> (r: AnonResourceLoc)
    ensures
        r@ == LocView::Absolute(operator_method(op)),
{
    match op {
        Operator::Concat | Operator::Or | Operator::And => path_of(
            "std",
            "operators",
            "Concatenate",
            "concatenate",
        ),
        Operator::Equal
        | Operator::NotEqual
        | Operator::Greater
        | Operator::Less
        | Operator::GreaterEqual
        | Operator::LessEqual => path_of("std", "operators", "Comparable", "compare"),
        Operator::Add => path_of("std", "operators", "Add", "add"),
        Operator::Subtract => path_of("std", "operators", "Subtract", "subtract"),
        Operator::Multiply => path_of("std", "operators", "Multiply", "multiply"),
        Operator::Divide => path_of("std", "operators", "Divide", "divide"),
        Operator::Modulo => path_of("std", "operators", "Modulo", "modulo"),
    }
}

/// The plain values of the arguments of a call are those of its elements.
proof fn lemma_parameters_view(parameters: Vec<Value>)
    ensures
        parameters_view(parameters) == value_views(parameters@),
{
    assert(parameters_view(parameters) =~= value_views(parameters@));
}

fn call_method(on: Value, name: AnonResourceLoc, parameters: Vec<Value>) -> (r: Value)
    ensures
        r@ == (ValueView::MethodCall {
            on: Box::new(on@),
            name: name@,
            parameters: value_views(parameters@),
        }),
{
    proof {
        lemma_parameters_view(parameters);
    }
    Value::MethodCall { on: Box::new(on), name, parameters }
}

fn call_function(fun: AnonResourceLoc, parameters: Vec<Value>) -> (r: Value)
    ensures
        r@ == (ValueView::FunctionCall { fun: fun@, parameters: value_views(parameters@) }),
{
    proof {
        lemma_parameters_view(parameters);
    }
    Value::FunctionCall { fun, parameters }
}

fn construct(data_type: AnonResourceLoc) -> (r: Value)
    ensures
        r@ == (ValueView::Constructor { data_type: data_type@, parameters: Seq::empty() }),
{
    let parameters: Vec<Value> = Vec::new();
    proof {
        lemma_parameters_view(parameters);
        assert(value_views(parameters@) =~= Seq::<ValueView>::empty());
    }
    Value::Constructor { data_type, parameters }
}

/// The expression `first op second`.
fn lower(op: Operator, first: Value, second: Value) -> (r: Value)
    ensures
        r@ == apply(op, first@, second@),
{
    let mut parameters: Vec<Value> = Vec::new();
    parameters.push(second);
    assert(value_views(parameters@) =~= seq![second@]);
    let call = call_method(first, operator_loc(op), parameters);
    match op {
        Operator::Equal => Value::Equal(Box::new(call)),
        Operator::NotEqual => Value::NotEqual(Box::new(call)),
        Operator::Greater => Value::Greater(Box::new(call)),
        Operator::Less => Value::Less(Box::new(call)),
        Operator::GreaterEqual => Value::GreaterEqual(Box::new(call)),
        Operator::LessEqual => Value::LessEqual(Box::new(call)),
        _ => call,
    }
}

/// The operator that the token `t` stands for.
fn operator_for(t: &Token) -> (r: Option<Operator>)
    ensures
        r == operator_of(t@),
{
    match t {
        Token::Concat => Some(Operator::Concat),
        Token::BoolOr => Some(Operator::Or),
        Token::BoolAnd => Some(Operator::And),
        Token::Equals => Some(Operator::Equal),
        Token::NotEquals => Some(Operator::NotEqual),
        Token::Greater => Some(Operator::Greater),
        Token::Less => Some(Operator::Less),
        Token::GreaterEqual => Some(Operator::GreaterEqual),
        Token::LessEqual => Some(Operator::LessEqual),
        Token::Sum => Some(Operator::Add),
        Token::Minus => Some(Operator::Subtract),
        Token::Multiply => Some(Operator::Multiply),
        Token::Divide => Some(Operator::Divide),
        Token::Modulo => Some(Operator::Modulo),
        _ => None,
    }
}

fn level(op: Operator) -> (r: u8)
    ensures
        r == level_of(op),
{
    match op {
        Operator::Concat => 0,
        Operator::Or => 1,
        Operator::And => 2,
        Operator::Equal | Operator::NotEqual => 3,
        Operator::Greater | Operator::Less | Operator::GreaterEqual | Operator::LessEqual => 4,
        Operator::Add | Operator::Subtract => 5,
        Operator::Multiply | Operator::Divide | Operator::Modulo => 6,
    }
}

/// The operator of level `at` that stands at the front of the queue.
fn operator_here(queue: &VecDeque<Token>, at: u8) -> (r: Option<Operator>)
    ensures
        token_views(queue@).len() == queue@.len(),
        r == if queue@.len() > 0 {
            operator_at(at as nat, token_views(queue@)[0])
        } else {
            None
        },
{
    match front(queue) {
        Some(t) => match operator_for(t) {
            Some(op) => if level(op) == at {
                Some(op)
            } else {
                None
            },
            None => None,
        },
        None => None,
    }
}

// ---------------------------------------------------------------------
// The parser
// ---------------------------------------------------------------------
/// Reads one expression from the front of the queue.
///
/// Where the tokens start with an expression, its tree is handed back and
/// the queue is left at the first token after it. Else the result is an
/// `InvalidTokenError`, and the queue is left at the first token that could
/// not be taken. No other error is ever handed back.
pub fn parse_expression(queue: &mut VecDeque<Token>) -> (r: Result<Value, CompileError>)
    ensures
        settles(
            spec_expression(token_views(old(queue)@)),
            value_result(r),
            token_views(final(queue)@),
        ),
        well_behaved(r, old(queue)@, final(queue)@),
    decreases old(queue)@.len(), 17int,
{
    let first = parse_or(queue)?;
    match operator_here(queue, 0) {
        Some(op) => {
            pop(queue);
            let second = parse_expression(queue)?;
            Ok(lower(op, first, second))
        },
        None => Ok(first),
    }
}

fn parse_or(queue: &mut VecDeque<Token>) -> (r: Result<Value, CompileError>)
    ensures
        settles(
            spec_binary(1, token_views(old(queue)@)),
            value_result(r),
            token_views(final(queue)@),
        ),
        well_behaved(r, old(queue)@, final(queue)@),
    decreases old(queue)@.len(), 16int,
{
    let first = parse_and(queue)?;
    match operator_here(queue, 1) {
        Some(op) => {
            pop(queue);
            let second = parse_or(queue)?;
            Ok(lower(op, first, second))
        },
        None => Ok(first),
    }
}

fn parse_and(queue: &mut VecDeque<Token>) -> (r: Result<Value, CompileError>)
    ensures
        settles(
            spec_binary(2, token_views(old(queue)@)),
            value_result(r),
            token_views(final(queue)@),
        ),
        well_behaved(r, old(queue)@, final(queue)@),
    decreases old(queue)@.len(), 15int,
{
    let first = parse_eq(queue)?;
    match operator_here(queue, 2) {
        Some(op) => {
            pop(queue);
            let second = parse_and(queue)?;
            Ok(lower(op, first, second))
        },
        None => Ok(first),
    }
}

fn parse_eq(queue: &mut VecDeque<Token>) -> (r: Result<Value, CompileError>)
    ensures
        settles(
            spec_binary(3, token_views(old(queue)@)),
            value_result(r),
            token_views(final(queue)@),
        ),
        well_behaved(r, old(queue)@, final(queue)@),
    decreases old(queue)@.len(), 14int,
{
    let first = parse_comp(queue)?;
    match operator_here(queue, 3) {
        Some(op) => {
            pop(queue);
            let second = parse_eq(queue)?;
            Ok(lower(op, first, second))
        },
        None => Ok(first),
    }
}

fn parse_comp(queue: &mut VecDeque<Token>) -> (r: Result<Value, CompileError>)
    ensures
        settles(
            spec_binary(4, token_views(old(queue)@)),
            value_result(r),
            token_views(final(queue)@),
        ),
        well_behaved(r, old(queue)@, final(queue)@),
    decreases old(queue)@.len(), 13int,
{
    let first = parse_sum(queue)?;
    match operator_here(queue, 4) {
        Some(op) => {
            pop(queue);
            let second = parse_comp(queue)?;
            Ok(lower(op, first, second))
        },
        None => Ok(first),
    }
}

fn parse_sum(queue: &mut VecDeque<Token>) -> (r: Result<Value, CompileError>)
    ensures
        settles(
            spec_binary(5, token_views(old(queue)@)),
            value_result(r),
            token_views(final(queue)@),
        ),
        well_behaved(r, old(queue)@, final(queue)@),
    decreases old(queue)@.len(), 12int,
{
    let first = parse_term(queue)?;
    match operator_here(queue, 5) {
        Some(op) => {
            pop(queue);
            let second = parse_sum(queue)?;
            Ok(lower(op, first, second))
        },
        None => Ok(first),
    }
}

fn parse_term(queue: &mut VecDeque<Token>) -> (r: Result<Value, CompileError>)
    ensures
        settles(
            spec_binary(6, token_views(old(queue)@)),
            value_result(r),
            token_views(final(queue)@),
        ),
        well_behaved(r, old(queue)@, final(queue)@),
    decreases old(queue)@.len(), 11int,
{
    let first = parse_pre(queue)?;
    match operator_here(queue, 6) {
        Some(op) => {
            pop(queue);
            let second = parse_term(queue)?;
            Ok(lower(op, first, second))
        },
        None => Ok(first),
    }
}

fn parse_pre(queue: &mut VecDeque<Token>) -> (r: Result<Value, CompileError>)
    ensures
        settles(spec_pre(token_views(old(queue)@)), value_result(r), token_views(final(queue)@)),
        well_behaved(r, old(queue)@, final(queue)@),
    decreases old(queue)@.len(), 9int,
{
    match front(queue) {
        Some(Token::BoolNot) => {
            pop(queue);
            let inner = parse_acc(queue)?;
            let parameters: Vec<Value> = Vec::new();
            assert(value_views(parameters@) =~= Seq::<ValueView>::empty());
            Ok(call_method(inner, path_of("std", "operators", "Not", "not"), parameters))
        },
        _ => parse_acc(queue),
    }
}

fn parse_acc(queue: &mut VecDeque<Token>) -> (r: Result<Value, CompileError>)
    ensures
        settles(spec_acc(token_views(old(queue)@)), value_result(r), token_views(final(queue)@)),
        well_behaved(r, old(queue)@, final(queue)@),
    decreases old(queue)@.len(), 8int,
{
    let first = parse_value(queue)?;
    parse_accessors(queue, first)
}

/// Reads the accessors that follow the expression `on`.
fn parse_accessors(queue: &mut VecDeque<Token>, on: Value) -> (r: Result<Value, CompileError>)
    ensures
        settles(
            spec_acc_rest(on@, token_views(old(queue)@)),
            value_result(r),
            token_views(final(queue)@),
        ),
        final(queue)@.len() <= old(queue)@.len(),
        r is Err ==> r->Err_0@.error_type == ErrorType::InvalidTokenError,
    decreases old(queue)@.len(), 0int,
{
    let ghost s = token_views(queue@);
    match front(queue) {
        Some(Token::OpenBracket) => {
            pop(queue);
            let inside = parse_expression(queue)?;
            match front(queue) {
                Some(Token::CloseBracket) => {
                    pop(queue);
                    let mut parameters: Vec<Value> = Vec::new();
                    parameters.push(inside);
                    assert(value_views(parameters@) =~= seq![inside@]);
                    let call = call_method(
                        on,
                        path_of("std", "operators", "Accessible", "getKey"),
                        parameters,
                    );
                    parse_accessors(queue, call)
                },
                _ => fail(ErrorType::InvalidTokenError),
            }
        },
        Some(Token::Dot) => {
            pop(queue);
            match front(queue) {
                Some(Token::Identifier(_)) => {},
                _ => {
                    return fail(ErrorType::InvalidTokenError);
                },
            }
            let name = match pop(queue) {
                Some(Token::Identifier(name)) => name,
                _ => {
                    return fail(ErrorType::InternalError);
                },
            };
            assert(token_views(queue@) =~= s.skip(2));
            match front(queue) {
                Some(Token::OpenParen) => {
                    let parameters = parse_param_list(queue)?;
                    let call = call_method(on, AnonResourceLoc::Relative(name), parameters);
                    parse_accessors(queue, call)
                },
                _ => parse_accessors(queue, Value::GetProperty { on: Box::new(on), name }),
            }
        },
        _ => Ok(on),
    }
}

#[verifier::rlimit(40)]
fn parse_value(queue: &mut VecDeque<Token>) -> (r: Result<Value, CompileError>)
    ensures
        settles(
            spec_value(token_views(old(queue)@)),
            value_result(r),
            token_views(final(queue)@),
        ),
        well_behaved(r, old(queue)@, final(queue)@),
    decreases old(queue)@.len(), 7int,
{
    match front(queue) {
        Some(Token::Number(_)) => {
            match pop(queue) {
                Some(Token::Number(text)) => Ok(Value::Num(text)),
                _ => fail(ErrorType::InternalError),
            }
        },
        Some(Token::Int(_)) => {
            match pop(queue) {
                Some(Token::Int(n)) => Ok(Value::Int(n)),
                _ => fail(ErrorType::InternalError),
            }
        },
        Some(Token::String(_)) => {
            match pop(queue) {
                Some(Token::String(text)) => Ok(Value::String(text)),
                _ => fail(ErrorType::InternalError),
            }
        },
        Some(Token::Identifier(_)) => {
            let resource = parse_resource_location(queue)?;
            match front(queue) {
                Some(Token::OpenParen) => {
                    let parameters = parse_param_list(queue)?;
                    Ok(call_function(resource, parameters))
                },
                _ => Ok(Value::Variable(resource)),
            }
        },
        Some(Token::True) => {
            pop(queue);
            Ok(Value::Boolean(true))
        },
        Some(Token::False) => {
            pop(queue);
            Ok(Value::Boolean(false))
        },
        Some(Token::OpenBracket) => parse_list_literal(queue),
        Some(Token::OpenBrace) => parse_dict_literal(queue),
        _ => fail(ErrorType::InvalidTokenError),
    }
}

/// Takes the `,` at the front of the queue, if one stands there, and says
/// whether the list ends here: where the closing bracket is at the front
/// then, it is taken too.
fn at_end(queue: &mut VecDeque<Token>, close: &Token) -> (r: Option<bool>)
    requires
        close@ is CloseParen || close@ is CloseBracket || close@ is CloseBrace,
    ensures
        ({
            let s = token_views(old(queue)@);
            let after = token_views(final(queue)@);
            match r {
                None => s.len() == 0 && after == s,
                Some(true) => {
                    &&& s.len() > 0
                    &&& if s[0] == close@ {
                        after == s.skip(1)
                    } else {
                        s[0] is Separator && s.len() > 1 && s[1] == close@ && after == s.skip(2)
                    }
                },
                Some(false) => {
                    &&& s.len() > 0
                    &&& s[0] != close@
                    &&& !(s[0] is Separator && s.len() > 1 && s[1] == close@)
                    &&& after == if s[0] is Separator {
                        s.skip(1)
                    } else {
                        s
                    }
                },
            }
        }),
        final(queue)@.len() <= old(queue)@.len(),
        r == Some(true) ==> final(queue)@.len() < old(queue)@.len(),
{
    let ghost s = token_views(queue@);
    let separator = match front(queue) {
        None => {
            return None;
        },
        Some(t) => {
            if same_bracket(t, close) {
                pop(queue);
                return Some(true);
            }
            match t {
                Token::Separator => true,
                _ => false,
            }
        },
    };
    if separator {
        pop(queue);
        let closing = match front(queue) {
            Some(t) => same_bracket(t, close),
            None => false,
        };
        if closing {
            pop(queue);
            assert(token_views(queue@) =~= s.skip(2));
            return Some(true);
        }
    }
    Some(false)
}

/// Whether `t` is the closing bracket `close`.
fn same_bracket(t: &Token, close: &Token) -> (r: bool)
    requires
        close@ is CloseParen || close@ is CloseBracket || close@ is CloseBrace,
    ensures
        r == (t@ == close@),
{
    match (t, close) {
        (Token::CloseParen, Token::CloseParen) => true,
        (Token::CloseBracket, Token::CloseBracket) => true,
        (Token::CloseBrace, Token::CloseBrace) => true,
        _ => false,
    }
}

/// Reads the next element of a list that `close` ends.
fn next_item(queue: &mut VecDeque<Token>, close: &Token) -> (r: Result<
    Option<Value>,
    CompileError,
>)
    requires
        close@ is CloseParen || close@ is CloseBracket,
    ensures
        settles(
            spec_next_item(token_views(old(queue)@), close@),
            match r {
                Ok(Some(v)) => Ok(Some(v@)),
                Ok(None) => Ok(None),
                Err(e) => Err(e@),
            },
            token_views(final(queue)@),
        ),
        well_behaved(r, old(queue)@, final(queue)@),
    decreases old(queue)@.len(), 19int,
{
    match at_end(queue, close) {
        None => fail(ErrorType::InvalidTokenError),
        Some(true) => Ok(None),
        Some(false) => {
            let item = parse_expression(queue)?;
            Ok(Some(item))
        },
    }
}

fn parse_param_list(queue: &mut VecDeque<Token>) -> (r: Result<Vec<Value>, CompileError>)
    ensures
        settles(
            spec_params(token_views(old(queue)@)),
            values_result(r),
            token_views(final(queue)@),
        ),
        well_behaved(r, old(queue)@, final(queue)@),
    decreases old(queue)@.len(), 5int,
{
    match front(queue) {
        Some(Token::OpenParen) => {},
        _ => {
            return fail(ErrorType::InvalidTokenError);
        },
    }
    pop(queue);
    let close = Token::CloseParen;
    let mut out: Vec<Value> = Vec::new();
    assert(value_views(out@) =~= Seq::<ValueView>::empty());
    loop
        invariant
            queue@.len() < old(queue)@.len(),
            close@ == TokenView::CloseParen,
            spec_params(token_views(old(queue)@)) == spec_items(
                token_views(queue@),
                TokenView::CloseParen,
                value_views(out@),
            ),
        decreases queue@.len(),
    {
        let ghost items = value_views(out@);
        match next_item(queue, &close)? {
            None => {
                return Ok(out);
            },
            Some(item) => {
                out.push(item);
                assert(value_views(out@) =~= items.push(item@));
            },
        }
    }
}

/// Reads a reference to a resource from the front of the queue.
///
/// A name alone is a relative reference; a name with further names after
/// `::` is an absolute one and holds all of them, the first included. Where
/// no name stands at the front, or none after a `::`, the result is an
/// `InvalidTokenError` and the queue is left at the token that is no name.
pub fn parse_resource_location(queue: &mut VecDeque<Token>) -> (r: Result<
    AnonResourceLoc,
    CompileError,
>)
    ensures
        settles(
            spec_location(token_views(old(queue)@)),
            loc_result(r),
            token_views(final(queue)@),
        ),
        well_behaved(r, old(queue)@, final(queue)@),
{
    match front(queue) {
        Some(Token::Identifier(_)) => {},
        _ => {
            return fail(ErrorType::InvalidTokenError);
        },
    }
    let first = match pop(queue) {
        Some(Token::Identifier(name)) => name,
        _ => {
            return fail(ErrorType::InternalError);
        },
    };
    match front(queue) {
        Some(Token::Relation) => {},
        _ => {
            return Ok(AnonResourceLoc::Relative(first));
        },
    }
    let mut path: Vec<String> = Vec::new();
    path.push(first);
    assert(path.deep_view() =~= seq![first@]);
    loop
        invariant
            queue@.len() < old(queue)@.len(),
            spec_location(token_views(old(queue)@)) == spec_path(
                path.deep_view(),
                token_views(queue@),
            ),
        decreases queue@.len(),
    {
        let ghost s = token_views(queue@);
        let ghost segments = path.deep_view();
        match front(queue) {
            Some(Token::Relation) => {},
            _ => {
                return Ok(AnonResourceLoc::Absolute(path));
            },
        }
        pop(queue);
        match front(queue) {
            Some(Token::Identifier(_)) => {},
            _ => {
                return fail(ErrorType::InvalidTokenError);
            },
        }
        match pop(queue) {
            Some(Token::Identifier(name)) => {
                path.push(name);
                assert(path.deep_view() =~= segments.push(name@));
                assert(token_views(queue@) =~= s.skip(2));
            },
            _ => {
                return fail(ErrorType::InternalError);
            },
        }
    }
}

fn parse_list_literal(queue: &mut VecDeque<Token>) -> (r: Result<Value, CompileError>)
    ensures
        settles(spec_list(token_views(old(queue)@)), value_result(r), token_views(final(queue)@)),
        well_behaved(r, old(queue)@, final(queue)@),
    decreases old(queue)@.len(), 5int,
{
    match front(queue) {
        Some(Token::OpenBracket) => {},
        _ => {
            return fail(ErrorType::InvalidTokenError);
        },
    }
    pop(queue);
    let close = Token::CloseBracket;
    let ghost start = token_views(queue@);
    let ghost mut items: Seq<ValueView> = Seq::empty();
    let mut current = construct(path_of("std", "collections", "List", "new"));
    loop
        invariant
            queue@.len() < old(queue)@.len(),
            close@ == TokenView::CloseBracket,
            start == token_views(old(queue)@).skip(1),
            token_views(old(queue)@).len() > 0,
            token_views(old(queue)@)[0] is OpenBracket,
            spec_items(start, TokenView::CloseBracket, Seq::empty()) == spec_items(
                token_views(queue@),
                TokenView::CloseBracket,
                items,
            ),
            current@ == list_chain(items),
        decreases queue@.len(),
    {
        match next_item(queue, &close)? {
            None => {
                return Ok(current);
            },
            Some(item) => {
                let mut parameters: Vec<Value> = Vec::new();
                proof {
                    assert(items.push(item@).drop_last() =~= items);
                    items = items.push(item@);
                }
                parameters.push(item);
                assert(value_views(parameters@) =~= seq![item@]);
                current =
                call_method(current, path_of("std", "collections", "List", "push"), parameters);
            },
        }
    }
}

/// Reads the next entry of a dictionary literal.
fn next_entry(queue: &mut VecDeque<Token>) -> (r: Result<Option<(String, Value)>, CompileError>)
    ensures
        settles(
            spec_next_entry(token_views(old(queue)@)),
            match r {
                Ok(Some((key, value))) => Ok(Some((key@, value@))),
                Ok(None) => Ok(None),
                Err(e) => Err(e@),
            },
            token_views(final(queue)@),
        ),
        well_behaved(r, old(queue)@, final(queue)@),
    decreases old(queue)@.len(), 19int,
{
    let close = Token::CloseBrace;
    match at_end(queue, &close) {
        None => {
            return fail(ErrorType::InvalidTokenError);
        },
        Some(true) => {
            return Ok(None);
        },
        Some(false) => {},
    }
    let ghost from = token_views(queue@);
    match front(queue) {
        Some(Token::Identifier(_)) => {},
        _ => {
            return fail(ErrorType::InvalidTokenError);
        },
    }
    let key = match pop(queue) {
        Some(Token::Identifier(name)) => name,
        _ => {
            return fail(ErrorType::InternalError);
        },
    };
    match front(queue) {
        Some(Token::TypeDef) => {},
        _ => {
            return fail(ErrorType::InvalidTokenError);
        },
    }
    pop(queue);
    assert(token_views(queue@) =~= from.skip(2));
    let value = parse_expression(queue)?;
    Ok(Some((key, value)))
}

/// A dictionary literal with one entry more sets one key more.
proof fn lemma_dict_chain_push(entries: Seq<(Seq<char>, ValueView)>, key: Seq<char>, value: ValueView)
    ensures
        dict_chain(entries.push((key, value))) == method_call(
            dict_chain(entries),
            collections_path("Dictionary"@, "setKey"@),
            seq![ValueView::String(key), value],
        ),
{
    let longer = entries.push((key, value));
    assert(longer.drop_last() =~= entries);
    assert(longer.last() == (key, value));
}

/// The expression that sets the key `key` of the dictionary `on` to
/// `value`.
fn set_key(on: Value, key: String, value: Value) -> (r: Value)
    ensures
        r@ == method_call(
            on@,
            collections_path("Dictionary"@, "setKey"@),
            seq![ValueView::String(key@), value@],
        ),
{
    let ghost value_view = value@;
    let text = Value::String(key);
    let mut parameters: Vec<Value> = Vec::new();
    parameters.push(text);
    parameters.push(value);
    assert(value_views(parameters@) =~= seq![text@, value_view]);
    call_method(on, path_of("std", "collections", "Dictionary", "setKey"), parameters)
}

fn parse_dict_literal(queue: &mut VecDeque<Token>) -> (r: Result<Value, CompileError>)
    ensures
        settles(spec_dict(token_views(old(queue)@)), value_result(r), token_views(final(queue)@)),
        well_behaved(r, old(queue)@, final(queue)@),
    decreases old(queue)@.len(), 5int,
{
    match front(queue) {
        Some(Token::OpenBrace) => {},
        _ => {
            return fail(ErrorType::InvalidTokenError);
        },
    }
    pop(queue);
    let ghost start = token_views(queue@);
    let ghost mut entries: Seq<(Seq<char>, ValueView)> = Seq::empty();
    let mut current = construct(path_of("std", "collections", "Dictionary", "new"));
    loop
        invariant
            queue@.len() < old(queue)@.len(),
            start == token_views(old(queue)@).skip(1),
            token_views(old(queue)@).len() > 0,
            token_views(old(queue)@)[0] is OpenBrace,
            spec_entries(start, Seq::empty()) == spec_entries(token_views(queue@), entries),
            current@ == dict_chain(entries),
        decreases queue@.len(),
    {
        match next_entry(queue)? {
            None => {
                return Ok(current);
            },
            Some((key, value)) => {
                proof {
                    lemma_dict_chain_push(entries, key@, value@);
                    entries = entries.push((key@, value@));
                }
                current = set_key(current, key, value);
            },
        }
    }
}

// ---------------------------------------------------------------------
// What holds of every token sequence
// ---------------------------------------------------------------------
/// Whether an outcome takes tokens from the front of `s` only, and fails
/// with an `InvalidTokenError` or not at all.
pub open spec fn keeps<T>(out: Parsed<T>, s: Seq<TokenView>) -> bool {
    match out {
        Parsed::Done(_, rest) => rest.len() <= s.len(),
        Parsed::Failed(kind, rest) => rest.len() <= s.len() && kind
            == ErrorType::InvalidTokenError,
    }
}

/// Whether an outcome [`keeps`] to `s` and, where the rule was read, took
/// at least one token.
pub open spec fn shrinks<T>(out: Parsed<T>, s: Seq<TokenView>) -> bool {
    keeps(out, s) && (out matches Parsed::Done(_, rest) ==> rest.len() < s.len())
}

proof fn lemma_path_keeps(segments: Seq<Seq<char>>, s: Seq<TokenView>)
    ensures
        keeps(spec_path(segments, s), s),
    decreases s.len(),
{
    if s.len() > 0 && s[0] is Relation && s.len() > 1 && s[1] is Identifier {
        lemma_path_keeps(segments.push(s[1]->Identifier_0), s.skip(2));
    }
}

proof fn lemma_location_shrinks(s: Seq<TokenView>)
    ensures
        shrinks(spec_location(s), s),
{
    if s.len() > 0 && s[0] is Identifier && s.len() > 1 && s[1] is Relation {
        lemma_path_keeps(seq![s[0]->Identifier_0], s.skip(1));
    }
}

proof fn lemma_binary_shrinks(level: nat, s: Seq<TokenView>)
    ensures
        shrinks(spec_binary(level, s), s),
    decreases s.len(), 17 - if level < 6 { level } else { 6 },
{
    let operand = if level < 6 {
        lemma_binary_shrinks(level + 1, s);
        spec_binary(level + 1, s)
    } else {
        lemma_pre_shrinks(s);
        spec_pre(s)
    };
    match operand {
        Parsed::Failed(kind, rest) => {},
        Parsed::Done(first, rest) => {
            if rest.len() > 0 && operator_at(level, rest[0]) is Some {
                lemma_binary_shrinks(level, rest.skip(1));
            }
        },
    }
}

proof fn lemma_pre_shrinks(s: Seq<TokenView>)
    ensures
        shrinks(spec_pre(s), s),
    decreases s.len(), 9int,
{
    if s.len() > 0 && s[0] is BoolNot {
        lemma_acc_shrinks(s.skip(1));
    } else {
        lemma_acc_shrinks(s);
    }
}

proof fn lemma_acc_shrinks(s: Seq<TokenView>)
    ensures
        shrinks(spec_acc(s), s),
    decreases s.len(), 8int,
{
    lemma_value_shrinks(s);
    match spec_value(s) {
        Parsed::Done(first, rest) => {
            lemma_acc_rest_keeps(first, rest);
        },
        Parsed::Failed(kind, rest) => {},
    }
}

proof fn lemma_acc_rest_keeps(on: ValueView, s: Seq<TokenView>)
    ensures
        keeps(spec_acc_rest(on, s), s),
    decreases s.len(), 0int,
{
    if s.len() > 0 && s[0] is OpenBracket {
        lemma_binary_shrinks(0, s.skip(1));
        match spec_binary(0, s.skip(1)) {
            Parsed::Done(inside, rest) => {
                if rest.len() > 0 && rest[0] is CloseBracket {
                    lemma_acc_rest_keeps(
                        method_call(on, operators_path("Accessible"@, "getKey"@), seq![inside]),
                        rest.skip(1),
                    );
                }
            },
            Parsed::Failed(kind, rest) => {},
        }
    } else if s.len() > 0 && s[0] is Dot {
        if s.len() > 1 && s[1] is Identifier {
            let name = s[1]->Identifier_0;
            if s.len() > 2 && s[2] is OpenParen {
                lemma_params_shrinks(s.skip(2));
                match spec_params(s.skip(2)) {
                    Parsed::Done(parameters, rest) => {
                        lemma_acc_rest_keeps(
                            ValueView::MethodCall {
                                on: Box::new(on),
                                name: LocView::Relative(name),
                                parameters,
                            },
                            rest,
                        );
                    },
                    Parsed::Failed(kind, rest) => {},
                }
            } else {
                lemma_acc_rest_keeps(ValueView::GetProperty { on: Box::new(on), name }, s.skip(2));
            }
        }
    }
}

proof fn lemma_value_shrinks(s: Seq<TokenView>)
    ensures
        shrinks(spec_value(s), s),
    decreases s.len(), 7int,
{
    if s.len() > 0 {
        match s[0] {
            TokenView::Identifier(_) => {
                lemma_location_shrinks(s);
                match spec_location(s) {
                    Parsed::Done(loc, rest) => {
                        if rest.len() > 0 && rest[0] is OpenParen {
                            lemma_params_shrinks(rest);
                        }
                    },
                    Parsed::Failed(kind, rest) => {},
                }
            },
            TokenView::OpenBracket => {
                lemma_list_shrinks(s);
            },
            TokenView::OpenBrace => {
                lemma_dict_shrinks(s);
            },
            _ => {},
        }
    }
}

#[verifier::rlimit(40)]
proof fn lemma_next_item_shrinks(s: Seq<TokenView>, close: TokenView)
    ensures
        shrinks(spec_next_item(s, close), s),
    decreases s.len(), 19int,
{
    if s.len() > 0 {
        if s[0] is Separator {
            lemma_binary_shrinks(0, s.skip(1));
        } else {
            lemma_binary_shrinks(0, s);
        }
    }
}

proof fn lemma_items_shrinks(s: Seq<TokenView>, close: TokenView, items: Seq<ValueView>)
    ensures
        shrinks(spec_items(s, close, items), s),
    decreases s.len(), 20int,
{
    lemma_next_item_shrinks(s, close);
    match spec_next_item(s, close) {
        Parsed::Done(Some(item), rest) => {
            lemma_items_shrinks(rest, close, items.push(item));
        },
        _ => {},
    }
}

proof fn lemma_params_shrinks(s: Seq<TokenView>)
    ensures
        shrinks(spec_params(s), s),
    decreases s.len(), 5int,
{
    if s.len() > 0 && s[0] is OpenParen {
        lemma_items_shrinks(s.skip(1), TokenView::CloseParen, Seq::empty());
    }
}

proof fn lemma_list_shrinks(s: Seq<TokenView>)
    ensures
        shrinks(spec_list(s), s),
    decreases s.len(), 5int,
{
    if s.len() > 0 && s[0] is OpenBracket {
        lemma_items_shrinks(s.skip(1), TokenView::CloseBracket, Seq::empty());
    }
}

#[verifier::rlimit(40)]
proof fn lemma_next_entry_shrinks(s: Seq<TokenView>)
    ensures
        shrinks(spec_next_entry(s), s),
    decreases s.len(), 19int,
{
    if s.len() > 0 {
        let from = if s[0] is Separator {
            s.skip(1)
        } else {
            s
        };
        if from.len() > 1 {
            lemma_binary_shrinks(0, from.skip(2));
        }
    }
}

proof fn lemma_entries_shrinks(s: Seq<TokenView>, entries: Seq<(Seq<char>, ValueView)>)
    ensures
        shrinks(spec_entries(s, entries), s),
    decreases s.len(), 20int,
{
    lemma_next_entry_shrinks(s);
    match spec_next_entry(s) {
        Parsed::Done(Some(entry), rest) => {
            lemma_entries_shrinks(rest, entries.push(entry));
        },
        _ => {},
    }
}

proof fn lemma_dict_shrinks(s: Seq<TokenView>)
    ensures
        shrinks(spec_dict(s), s),
    decreases s.len(), 5int,
{
    if s.len() > 0 && s[0] is OpenBrace {
        lemma_entries_shrinks(s.skip(1), Seq::empty());
    }
}

/// An expression takes at least one token and only tokens from the front;
/// where the tokens start with no expression, the failure is an
/// `InvalidTokenError`: the grammar never runs into an `InternalError`.
pub proof fn lemma_expression_shrinks(s: Seq<TokenView>)
    ensures
        shrinks(spec_expression(s), s),
{
    lemma_binary_shrinks(0, s);
}

/// The operand of an operator of level `level`: an expression of the next
/// level, or an accessor chain for the highest level.
pub open spec fn spec_operand(level: nat, s: Seq<TokenView>) -> Parsed<ValueView> {
    if level < 6 {
        spec_binary(level + 1, s)
    } else {
        spec_pre(s)
    }
}

/// Where an operand is followed by a binary operator of its level and by an
/// expression of that level, the three are read as one node: a call of the
/// operator's method whose receiver is the operand and whose one argument
/// is the expression to the right, wrapped in the marker of the comparison
/// for `==`, `!=`, `>`, `<`, `>=` and `<=`.
pub proof fn lemma_operator_node(
    level: nat,
    s: Seq<TokenView>,
    first: ValueView,
    rest: Seq<TokenView>,
    second: ValueView,
    after: Seq<TokenView>,
)
    requires
        level < LEVELS,
        spec_operand(level, s) == Parsed::Done(first, rest),
        rest.len() > 0,
        operator_at(level, rest[0]) is Some,
        spec_binary(level, rest.skip(1)) == Parsed::Done(second, after),
    ensures
        spec_binary(level, s) == Parsed::Done(
            apply(operator_at(level, rest[0])->0, first, second),
            after,
        ),
        ({
            let node = apply(operator_at(level, rest[0])->0, first, second);
            let call = match node {
                ValueView::Equal(inner)
                | ValueView::NotEqual(inner)
                | ValueView::Greater(inner)
                | ValueView::Less(inner)
                | ValueView::GreaterEqual(inner)
                | ValueView::LessEqual(inner) => *inner,
                _ => node,
            };
            &&& call is MethodCall
            &&& *call->MethodCall_on == first
            &&& call->MethodCall_parameters == seq![second]
        }),
{
    if level < 6 {
        lemma_binary_shrinks(level + 1, s);
    } else {
        lemma_pre_shrinks(s);
    }
}

} // verus!
