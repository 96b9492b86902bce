//! Conditions on the values of a kernel's parameters.
//!
//! A condition is an expression of the script language of `rhai`. It speaks of the parameters by
//! their names, and of the variants of an enumeration by their paths. Texts that run anything are
//! refused: see [`crate::build::expression`].
use rhai::{Dynamic, Engine, EvalAltResult, Module, Scope, AST};
use vstd::prelude::*;

use crate::build::expression;
use crate::text;

verus! {

/// What stands behind the last two colons of a path, or the whole of it.
pub open spec fn unqualified(value: Seq<char>) -> Seq<char> {
    match text::path_halves(value) {
        Some((_, name)) => name,
        None => value,
    }
}

/// The name of a variant without the path of its enumeration.
pub fn unqualify_variant(value: &str) -> (name: String)
    ensures
        name@ == unqualified(value@),
{
    match text::split_path(value) {
        Some((_, name)) => name,
        None => text::copy_str(value),
    }
}

/// What came out of a condition.
#[derive(Clone, Copy, Debug, PartialEq, Eq, Structural)]
pub enum Evaluation {
    Satisfied,
    Unsatisfied,
    /// The condition speaks of a parameter that has no value.
    UnknownVariable,
    Failed,
}

/// What the outcomes from `from` on amount to: whether all conditions hold, or the first one that has
/// no answer. With `partial`, a condition on a parameter that has no value may still come to hold.
pub open spec fn decided(evaluations: Seq<Evaluation>, partial: bool, from: int) -> Result<
    bool,
    usize,
>
    decreases evaluations.len() - from,
{
    if from >= evaluations.len() {
        Ok(true)
    } else {
        match evaluations[from] {
            Evaluation::Satisfied => decided(evaluations, partial, from + 1),
            Evaluation::Unsatisfied => Ok(false),
            Evaluation::UnknownVariable => if partial {
                decided(evaluations, partial, from + 1)
            } else {
                Err(from as usize)
            },
            Evaluation::Failed => Err(from as usize),
        }
    }
}

/// Whether all conditions hold, or may still come to hold, by their outcomes.
pub fn decide(evaluations: &[Evaluation], partial: bool) -> (decision: Result<bool, usize>)
    ensures
        decision == decided(evaluations@, partial, 0),
{
    let mut i: usize = 0;
    while i < evaluations.len()
        invariant
            i <= evaluations@.len(),
            decided(evaluations@, partial, 0) == decided(evaluations@, partial, i as int),
        decreases evaluations@.len() - i,
    {
        match evaluations[i] {
            Evaluation::Satisfied => {},
            Evaluation::Unsatisfied => {
                return Ok(false);
            },
            Evaluation::UnknownVariable => {
                if !partial {
                    return Err(i);
                }
            },
            Evaluation::Failed => {
                return Err(i);
            },
        }
        i += 1;
    }
    Ok(true)
}

/// Some value is the path of `name` below `namespace`.
pub open spec fn is_variant_of(
    values: Seq<Seq<char>>,
    count: int,
    namespace: Seq<char>,
    name: Seq<char>,
) -> bool {
    exists|i: int|
        0 <= i < count && text::path_halves(#[trigger] values[i]) == Some((namespace, name))
}

/// Some value is the path of a name below `namespace`.
pub open spec fn is_namespace(values: Seq<Seq<char>>, count: int, namespace: Seq<char>) -> bool {
    exists|i: int| #![trigger values[i]]
        0 <= i < count && (text::path_halves(values[i]) matches Some(halves) && halves.0
            == namespace)
}

/// The texts stand in order, and none stands twice.
pub open spec fn is_sorted(texts: Seq<Seq<char>>) -> bool {
    forall|i: int, j: int|
        0 <= i < j < texts.len() ==> text::comes_before(#[trigger] texts[i], #[trigger] texts[j])
}

/// The namespaces of the values, each with its names; both in order and without repetition.
pub open spec fn are_namespaces(
    namespaces: Seq<(Seq<char>, Seq<Seq<char>>)>,
    values: Seq<Seq<char>>,
) -> bool {
    &&& is_sorted(Seq::new(namespaces.len(), |i: int| namespaces[i].0))
    &&& forall|namespace: Seq<char>| #[trigger]
        is_namespace(values, values.len() as int, namespace) <==> exists|i: int|
            0 <= i < namespaces.len() && (#[trigger] namespaces[i]).0 == namespace
    &&& forall|i: int| 0 <= i < namespaces.len() ==> is_sorted((#[trigger] namespaces[i]).1)
    &&& forall|i: int, name: Seq<char>|
        0 <= i < namespaces.len() ==> (#[trigger] namespaces[i].1.contains(name) <==> is_variant_of(
            values,
            values.len() as int,
            namespaces[i].0,
            name,
        ))
}

fn collect_namespaces(values: &[String]) -> (namespaces: Vec<String>)
    ensures
        text::is_ordered(namespaces@),
        forall|namespace: Seq<char>| #[trigger]
            text::is_listed(namespaces@, namespace) <==> is_namespace(
                values.deep_view(),
                values@.len() as int,
                namespace,
            ),
{
    let ghost model = values.deep_view();
    let mut namespaces: Vec<String> = Vec::new();
    let mut i: usize = 0;
    while i < values.len()
        invariant
            i <= values@.len(),
            model == values.deep_view(),
            text::is_ordered(namespaces@),
            forall|namespace: Seq<char>| #[trigger]
                text::is_listed(namespaces@, namespace) <==> is_namespace(
                    model,
                    i as int,
                    namespace,
                ),
        decreases values@.len() - i,
    {
        let ghost before = namespaces@;
        let halves: Option<(String, String)> = text::split_path(values[i].as_str());
        if let Some((namespace, _)) = &halves {
            text::insert_ordered(&mut namespaces, namespace.as_str());
        }
        proof {
            let value = model[i as int];
            assert(value == values@[i as int]@);
            assert forall|namespace: Seq<char>| #[trigger]
                text::is_listed(namespaces@, namespace) <==> is_namespace(
                    model,
                    i + 1,
                    namespace,
                ) by {
                assert(text::is_listed(before, namespace) <==> is_namespace(
                    model,
                    i as int,
                    namespace,
                ));
                if is_namespace(model, i as int, namespace) {
                    let j = choose|j: int| #![trigger model[j]]
                        0 <= j < i && (text::path_halves(model[j]) matches Some(halves)
                            && halves.0 == namespace);
                    assert(is_namespace(model, i + 1, namespace));
                }
                if text::path_halves(value) matches Some(found) && found.0 == namespace {
                    assert(is_namespace(model, i + 1, namespace));
                }
            }
        }
        i += 1;
    }
    namespaces
}

fn collect_names(values: &[String], namespace: &str) -> (names: Vec<String>)
    ensures
        text::is_ordered(names@),
        forall|name: Seq<char>| #[trigger]
            text::is_listed(names@, name) <==> is_variant_of(
                values.deep_view(),
                values@.len() as int,
                namespace@,
                name,
            ),
{
    let ghost model = values.deep_view();
    let mut names: Vec<String> = Vec::new();
    let mut i: usize = 0;
    while i < values.len()
        invariant
            i <= values@.len(),
            model == values.deep_view(),
            text::is_ordered(names@),
            forall|name: Seq<char>| #[trigger]
                text::is_listed(names@, name) <==> is_variant_of(
                    model,
                    i as int,
                    namespace@,
                    name,
                ),
        decreases values@.len() - i,
    {
        let ghost before = names@;
        let halves: Option<(String, String)> = text::split_path(values[i].as_str());
        if let Some((found, name)) = &halves {
            if text::is_same(found.as_str(), namespace) {
                text::insert_ordered(&mut names, name.as_str());
            }
        }
        proof {
            let value = model[i as int];
            assert(value == values@[i as int]@);
            assert forall|name: Seq<char>| #[trigger]
                text::is_listed(names@, name) <==> is_variant_of(
                    model,
                    i + 1,
                    namespace@,
                    name,
                ) by {
                assert(text::is_listed(before, name) <==> is_variant_of(
                    model,
                    i as int,
                    namespace@,
                    name,
                ));
                if is_variant_of(model, i as int, namespace@, name) {
                    let j = choose|j: int|
                        0 <= j < i && text::path_halves(#[trigger] model[j]) == Some(
                            (namespace@, name),
                        );
                    assert(is_variant_of(model, i + 1, namespace@, name));
                }
                if text::path_halves(value) == Some((namespace@, name)) {
                    assert(is_variant_of(model, i + 1, namespace@, name));
                }
            }
        }
        i += 1;
    }
    names
}

/// An ordered list of texts, as texts.
proof fn lemma_listed(texts: Vec<String>)
    requires
        text::is_ordered(texts@),
    ensures
        is_sorted(texts.deep_view()),
        forall|wanted: Seq<char>| #[trigger]
            texts.deep_view().contains(wanted) <==> text::is_listed(texts@, wanted),
{
    let model = texts.deep_view();
    assert forall|i: int, j: int| 0 <= i < j < model.len() implies text::comes_before(
        #[trigger] model[i],
        #[trigger] model[j],
    ) by {
        assert(model[i] == texts@[i]@ && model[j] == texts@[j]@);
    }
    assert forall|wanted: Seq<char>| #[trigger]
        model.contains(wanted) <==> text::is_listed(texts@, wanted) by {
        if model.contains(wanted) {
            let i = choose|i: int| 0 <= i < model.len() && model[i] == wanted;
            assert(texts@[i]@ == wanted);
        }
        if text::is_listed(texts@, wanted) {
            let i = choose|i: int| 0 <= i < texts@.len() && (#[trigger] texts@[i])@ == wanted;
            assert(model[i] == wanted);
        }
    }
}

/// What a name stands for in a condition.
#[verifier::ext_equal]
pub ghost enum ScriptValue {
    /// What an engine that knows the namespaces makes of the text.
    Evaluated { namespaces: Seq<(Seq<char>, Seq<Seq<char>>)>, text: Seq<char> },
    /// The text itself.
    Text(Seq<char>),
}

/// An engine of the script language.
#[verifier::external_type_specification]
#[verifier::external_body]
pub struct ExEngine(Engine);

/// A set of names that an engine can know.
#[verifier::external_type_specification]
#[verifier::external_body]
pub struct ExModule(Module);

/// A value of the script language.
#[verifier::external_type_specification]
#[verifier::external_body]
pub struct ExDynamic(Dynamic);

/// A condition that was read.
#[verifier::external_type_specification]
#[verifier::external_body]
pub struct ExAst(AST);

/// The values of the names that a condition may speak of.
#[verifier::external_type_specification]
#[verifier::external_body]
pub struct ExScope<'a>(Scope<'a>);

/// The namespaces that an engine was given, each with its names, in the order in which it got them.
pub uninterp spec fn engine_namespaces(engine: Engine) -> Seq<(Seq<char>, Seq<Seq<char>>)>;

/// The names that were put into a module, in order.
pub uninterp spec fn module_names(module: Module) -> Seq<Seq<char>>;

/// Where a value comes from.
pub uninterp spec fn dynamic_origin(value: Dynamic) -> ScriptValue;

/// The text that a condition was read from.
pub uninterp spec fn ast_text(ast: AST) -> Seq<char>;

/// The names that were put into a scope with what they stood for, in order.
pub uninterp spec fn scope_bindings(scope: Scope<'static>) -> Seq<(Seq<char>, ScriptValue)>;

/// The conditions that were evaluated in a scope, in order.
pub uninterp spec fn scope_conditions(scope: Scope<'static>) -> Seq<Seq<char>>;

/// Whether an engine that knows the namespaces can find that the text is a condition, or that it is
/// none.
///
/// How deeply a condition may be nested depends on how `rhai` was built, so for a few texts both are
/// possible.
pub uninterp spec fn can_read(
    namespaces: Seq<(Seq<char>, Seq<Seq<char>>)>,
    condition: Seq<char>,
    readable: bool,
) -> bool;

/// Whether an engine that knows the namespaces can find that the text has a value, or that it has
/// none.
///
/// How deeply a text may be nested depends on how `rhai` was built, so for a few texts both are
/// possible.
pub uninterp spec fn can_value(
    namespaces: Seq<(Seq<char>, Seq<Seq<char>>)>,
    text: Seq<char>,
    valued: bool,
) -> bool;

/// Whether a condition can come to an outcome, in an engine that knows the namespaces and in a scope
/// with these bindings where the earlier conditions were evaluated before.
///
/// How deeply a condition may be nested depends on how `rhai` was built, so for a few conditions
/// several outcomes are possible.
pub uninterp spec fn can_come_to(
    namespaces: Seq<(Seq<char>, Seq<Seq<char>>)>,
    bindings: Seq<(Seq<char>, ScriptValue)>,
    earlier: Seq<Seq<char>>,
    condition: Seq<char>,
    outcome: Evaluation,
) -> bool;

/// Calls `rhai::Engine::new`, which gives the engine no namespace.
#[verifier::external_body]
fn new_engine() -> (engine: Engine)
    ensures
        engine_namespaces(engine) == Seq::<(Seq<char>, Seq<Seq<char>>)>::empty(),
{
    Engine::new()
}

/// Calls `rhai::Module::new`: the module has no name yet.
#[verifier::external_body]
fn new_module() -> (module: Module)
    ensures
        module_names(module) == Seq::<Seq<char>>::empty(),
{
    Module::new()
}

/// Calls `rhai::Module::set_var`: the name is a variable of the module and holds its own text.
#[verifier::external_body]
fn set_var(module: &mut Module, name: &str)
    ensures
        module_names(*final(module)) == module_names(*old(module)).push(name@),
{
    module.set_var(name, name.to_owned());
}

/// Calls `rhai::Engine::register_static_module`: the engine knows the names of the module below the
/// namespace.
#[verifier::external_body]
fn register_static_module(engine: &mut Engine, namespace: &str, module: Module)
    ensures
        engine_namespaces(*final(engine)) == engine_namespaces(*old(engine)).push(
            (namespace@, module_names(module)),
        ),
{
    engine.register_static_module(namespace, module.into());
}

/// Calls `rhai::Engine::compile_expression`, which reads a condition or finds that it is none.
#[verifier::external_body]
fn compile(engine: &Engine, condition: &str) -> (ast: Option<AST>)
    ensures
        can_read(engine_namespaces(*engine), condition@, ast is Some),
        ast matches Some(ast) ==> ast_text(ast) == condition@,
{
    engine.compile_expression(condition).ok()
}

/// Calls `rhai::Engine::eval_expression`, which gives the value of a text or finds that it has none.
///
/// The text must be plain: with other texts the call may wait, run without an end or panic.
#[verifier::external_body]
fn eval_expression(engine: &Engine, text: &str) -> (value: Option<Dynamic>)
    requires
        expression::is_plain(text@),
    ensures
        can_value(engine_namespaces(*engine), text@, value is Some),
        value matches Some(value) ==> dynamic_origin(value) == (ScriptValue::Evaluated {
            namespaces: engine_namespaces(*engine),
            text: text@,
        }),
{
    engine.eval_expression::<Dynamic>(text).ok()
}

/// Calls the conversion of a `String` to a `rhai::Dynamic`: the value is the text.
#[verifier::external_body]
fn text_value(text: &str) -> (value: Dynamic)
    ensures
        dynamic_origin(value) == ScriptValue::Text(text@),
{
    text.to_owned().into()
}

/// Calls `rhai::Scope::new`: no name stands for anything yet.
#[verifier::external_body]
fn new_scope() -> (scope: Scope<'static>)
    ensures
        scope_bindings(scope) == Seq::<(Seq<char>, ScriptValue)>::empty(),
        scope_conditions(scope) == Seq::<Seq<char>>::empty(),
{
    Scope::new()
}

/// Calls `rhai::Scope::push`: the name stands for the value.
#[verifier::external_body]
fn push_binding(scope: &mut Scope<'static>, name: &str, value: Dynamic)
    ensures
        scope_bindings(*final(scope)) == scope_bindings(*old(scope)).push(
            (name@, dynamic_origin(value)),
        ),
        scope_conditions(*final(scope)) == scope_conditions(*old(scope)),
{
    scope.push(name.to_owned(), value);
}

/// Calls `rhai::Engine::eval_ast_with_scope` and tells apart its outcomes.
///
/// The condition must be plain: with other conditions the call may wait, run without an end or panic.
/// Which of the possible outcomes it is, is not stated: how deeply a condition may be nested depends
/// on how `rhai` was built.
#[verifier::external_body]
fn evaluate(engine: &Engine, scope: &mut Scope<'static>, ast: &AST) -> (evaluation: Evaluation)
    requires
        expression::is_plain(ast_text(*ast)),
    ensures
        can_come_to(
            engine_namespaces(*engine),
            scope_bindings(*old(scope)),
            scope_conditions(*old(scope)),
            ast_text(*ast),
            evaluation,
        ),
        scope_bindings(*final(scope)) == scope_bindings(*old(scope)),
        scope_conditions(*final(scope)) == scope_conditions(*old(scope)).push(ast_text(*ast)),
{
    match engine.eval_ast_with_scope::<bool>(scope, ast) {
        Ok(true) => Evaluation::Satisfied,
        Ok(false) => Evaluation::Unsatisfied,
        Err(error) => match *error {
            EvalAltResult::ErrorVariableNotFound(..) => Evaluation::UnknownVariable,
            _ => Evaluation::Failed,
        },
    }
}

/// What a name of a binding can stand for: the value of its text, or the text where it has none.
pub open spec fn is_value_of(
    namespaces: Seq<(Seq<char>, Seq<Seq<char>>)>,
    text: Seq<char>,
    value: ScriptValue,
) -> bool {
    ||| value == (ScriptValue::Evaluated { namespaces, text }) && can_value(namespaces, text, true)
    ||| value == ScriptValue::Text(text) && can_value(namespaces, text, false)
}

/// Each name of the scope stands for the unqualified value of its binding.
pub open spec fn is_scope_of(
    namespaces: Seq<(Seq<char>, Seq<Seq<char>>)>,
    bindings: Seq<(Seq<char>, Seq<char>)>,
    scope: Seq<(Seq<char>, ScriptValue)>,
) -> bool {
    &&& scope.len() == bindings.len()
    &&& forall|i: int|
        0 <= i < scope.len() ==> (#[trigger] scope[i]).0 == bindings[i].0 && is_value_of(
            namespaces,
            unqualified(bindings[i].1),
            scope[i].1,
        )
}

/// The first conditions, one after the other, can come to these outcomes.
pub open spec fn are_outcomes(
    namespaces: Seq<(Seq<char>, Seq<Seq<char>>)>,
    scope: Seq<(Seq<char>, ScriptValue)>,
    conditions: Seq<Seq<char>>,
    evaluations: Seq<Evaluation>,
) -> bool {
    &&& evaluations.len() <= conditions.len()
    &&& forall|i: int|
        0 <= i < evaluations.len() ==> can_come_to(
            namespaces,
            scope,
            conditions.take(i),
            conditions[i],
            #[trigger] evaluations[i],
        )
}

/// The decision follows from outcomes that the conditions can come to for the bindings. Conditions
/// behind the one that decides are not asked.
pub open spec fn is_decision(
    namespaces: Seq<(Seq<char>, Seq<Seq<char>>)>,
    conditions: Seq<Seq<char>>,
    bindings: Seq<(Seq<char>, Seq<char>)>,
    partial: bool,
    decision: Result<bool, usize>,
) -> bool {
    exists|scope: Seq<(Seq<char>, ScriptValue)>, evaluations: Seq<Evaluation>|
        is_scope_of(namespaces, bindings, scope) && #[trigger] are_outcomes(
            namespaces,
            scope,
            conditions,
            evaluations,
        ) && decided(evaluations, partial, 0) == decision && (decision == Ok::<bool, usize>(true)
            ==> evaluations.len() == conditions.len()) && (decision matches Err(index) ==> index
            < conditions.len())
}

/// Why conditions have no answer.
#[derive(Clone, Copy, Debug, PartialEq, Eq, Structural)]
pub enum Refusal {
    /// The condition at this position cannot be evaluated.
    Condition(usize),
    /// The value of the binding at this position is not plain.
    Value(usize),
}

/// The first binding from `from` on whose unqualified value is not plain.
pub open spec fn unplain_value(bindings: Seq<(Seq<char>, Seq<char>)>, from: int) -> Option<int>
    decreases bindings.len() - from,
{
    if from >= bindings.len() {
        None
    } else if !expression::is_plain(unqualified(bindings[from].1)) {
        Some(from)
    } else {
        unplain_value(bindings, from + 1)
    }
}

/// The conditions can get the answer for the bindings. Where there are conditions, a value that is not
/// plain is refused.
pub open spec fn is_answer(
    namespaces: Seq<(Seq<char>, Seq<Seq<char>>)>,
    conditions: Seq<Seq<char>>,
    bindings: Seq<(Seq<char>, Seq<char>)>,
    partial: bool,
    answer: Result<bool, Refusal>,
) -> bool {
    if conditions.len() == 0 {
        answer == Ok::<bool, Refusal>(true)
    } else {
        match unplain_value(bindings, 0) {
            Some(index) => answer == Err::<bool, Refusal>(Refusal::Value(index as usize)),
            None => match answer {
                Ok(holds) => is_decision(namespaces, conditions, bindings, partial, Ok(holds)),
                Err(Refusal::Condition(index)) => is_decision(
                    namespaces,
                    conditions,
                    bindings,
                    partial,
                    Err(index),
                ),
                Err(Refusal::Value(_)) => false,
            },
        }
    }
}

fn find_unplain_value(bindings: &[(String, String)]) -> (found: Option<usize>)
    ensures
        match found {
            Some(index) => unplain_value(bindings.deep_view(), 0) == Some(index as int),
            None => unplain_value(bindings.deep_view(), 0) is None && forall|i: int|
                0 <= i < bindings@.len() ==> expression::is_plain(
                    unqualified((#[trigger] bindings.deep_view()[i]).1),
                ),
        },
{
    let ghost model = bindings.deep_view();
    let mut i: usize = 0;
    while i < bindings.len()
        invariant
            i <= bindings@.len(),
            model == bindings.deep_view(),
            unplain_value(model, 0) == unplain_value(model, i as int),
            forall|j: int|
                0 <= j < i ==> expression::is_plain(unqualified((#[trigger] model[j]).1)),
        decreases bindings@.len() - i,
    {
        let value: String = unqualify_variant(bindings[i].1.as_str());
        assert(model[i as int] == bindings@[i as int].deep_view());
        if !expression::check_plain(value.as_str()) {
            return Some(i);
        }
        i += 1;
    }
    None
}

/// The conditions on the parameters of a kernel.
#[derive(Debug)]
pub struct Constraints {
    engine: Engine,
    constraints: Vec<AST>,
}

impl Constraints {
    /// The namespaces that conditions may speak of, each with its names.
    pub closed spec fn namespaces(self) -> Seq<(Seq<char>, Seq<Seq<char>>)> {
        engine_namespaces(self.engine)
    }

    /// The texts of the conditions.
    pub closed spec fn conditions(self) -> Seq<Seq<char>> {
        Seq::new(self.constraints@.len(), |i: int| ast_text(self.constraints@[i]))
    }

    /// All conditions are plain.
    #[verifier::type_invariant]
    spec fn is_valid(self) -> bool {
        forall|i: int|
            0 <= i < self.constraints@.len() ==> expression::is_plain(
                ast_text(#[trigger] self.constraints@[i]),
            )
    }

    /// Reads conditions. The values are those that the parameters may have; where they are paths,
    /// conditions may speak of them.
    ///
    /// The error is the position of the first condition that is not plain or cannot be read.
    pub fn new(values: &[String], conditions: &[String]) -> (constraints: Result<
        Constraints,
        usize,
    >)
        ensures
            match constraints {
                Ok(constraints) => are_namespaces(constraints.namespaces(), values.deep_view())
                    && constraints.conditions() == conditions.deep_view() && forall|i: int|
                    0 <= i < conditions@.len() ==> is_readable(
                        constraints.namespaces(),
                        #[trigger] conditions.deep_view()[i],
                    ),
                Err(index) => is_refused(values.deep_view(), conditions.deep_view(), index as int),
            },
    {
        let engine: Engine = engine_of(values);
        let ghost namespaces = engine_namespaces(engine);
        let mut constraints: Vec<AST> = Vec::new();
        let mut i: usize = 0;
        while i < conditions.len()
            invariant
                i <= conditions@.len(),
                namespaces == engine_namespaces(engine),
                are_namespaces(namespaces, values.deep_view()),
                constraints@.len() == i,
                forall|j: int|
                    0 <= j < i ==> ast_text(#[trigger] constraints@[j]) == conditions@[j]@,
                forall|j: int|
                    0 <= j < i ==> is_readable(namespaces, #[trigger] conditions.deep_view()[j]),
            decreases conditions@.len() - i,
        {
            assert(conditions.deep_view()[i as int] == conditions@[i as int]@);
            if !expression::check_plain(conditions[i].as_str()) {
                assert(is_refused_by(namespaces, conditions.deep_view(), i as int));
                return Err(i);
            }
            match compile(&engine, conditions[i].as_str()) {
                Some(ast) => {
                    constraints.push(ast);
                },
                None => {
                    assert(is_refused_by(namespaces, conditions.deep_view(), i as int));
                    return Err(i);
                },
            }
            i += 1;
        }
        assert forall|j: int| 0 <= j < constraints@.len() implies expression::is_plain(
            ast_text(#[trigger] constraints@[j]),
        ) by {
            assert(is_readable(namespaces, conditions.deep_view()[j]));
        }
        let constraints = Constraints { engine, constraints };
        assert(constraints.conditions() =~= conditions.deep_view());
        Ok(constraints)
    }

    fn scope(&self, bindings: &[(String, String)]) -> (scope: Scope<'static>)
        requires
            forall|i: int|
                0 <= i < bindings@.len() ==> expression::is_plain(
                    unqualified((#[trigger] bindings.deep_view()[i]).1),
                ),
        ensures
            is_scope_of(self.namespaces(), bindings.deep_view(), scope_bindings(scope)),
            scope_conditions(scope) == Seq::<Seq<char>>::empty(),
    {
        let named: Vec<(String, String)> = scope_of(bindings);
        let ghost model = bindings.deep_view();
        assert(named@.len() == named.deep_view().len());
        let mut scope: Scope<'static> = new_scope();
        let mut i: usize = 0;
        while i < named.len()
            invariant
                i <= named@.len(),
                model == bindings.deep_view(),
                named.deep_view() == unqualified_bindings(model),
                named@.len() == model.len(),
                forall|j: int|
                    0 <= j < model.len() ==> expression::is_plain(
                        unqualified((#[trigger] model[j]).1),
                    ),
                is_scope_of(self.namespaces(), model.take(i as int), scope_bindings(scope)),
                scope_conditions(scope) == Seq::<Seq<char>>::empty(),
            decreases named@.len() - i,
        {
            let ghost before = scope_bindings(scope);
            let (name, text) = (named[i].0.as_str(), named[i].1.as_str());
            assert(named.deep_view()[i as int] == (name@, text@));
            assert(name@ == model[i as int].0 && text@ == unqualified(model[i as int].1));
            let value: Dynamic = match eval_expression(&self.engine, text) {
                Some(value) => value,
                None => text_value(text),
            };
            let ghost origin = dynamic_origin(value);
            push_binding(&mut scope, name, value);
            i += 1;
            assert(is_scope_of(self.namespaces(), model.take(i as int), scope_bindings(scope))) by {
                assert(scope_bindings(scope) == before.push((name@, origin)));
                assert forall|j: int| 0 <= j < i implies (#[trigger] scope_bindings(scope)[j]).0
                    == model.take(i as int)[j].0 && is_value_of(
                    self.namespaces(),
                    unqualified(model.take(i as int)[j].1),
                    scope_bindings(scope)[j].1,
                ) by {
                    if j < i - 1 {
                        assert(before.len() == i - 1);
                        assert(scope_bindings(scope)[j] == before[j]);
                        assert(model.take(i - 1)[j] == model[j]);
                    }
                }
            }
        }
        assert(model.take(i as int) =~= model);
        scope
    }

    fn weigh(&self, bindings: &[(String, String)], partial: bool) -> (decision: Result<bool, usize>)
        requires
            forall|i: int|
                0 <= i < bindings@.len() ==> expression::is_plain(
                    unqualified((#[trigger] bindings.deep_view()[i]).1),
                ),
        ensures
            is_decision(
                self.namespaces(),
                self.conditions(),
                bindings.deep_view(),
                partial,
                decision,
            ),
    {
        proof {
            use_type_invariant(self);
        }
        let mut scope: Scope<'static> = self.scope(bindings);
        let ghost bound = scope_bindings(scope);
        let ghost conditions = self.conditions();
        let mut evaluations: Vec<Evaluation> = Vec::new();
        let mut i: usize = 0;
        while i < self.constraints.len()
            invariant
                i <= self.constraints@.len(),
                self.is_valid(),
                conditions == self.conditions(),
                conditions.len() == self.constraints@.len(),
                is_scope_of(self.namespaces(), bindings.deep_view(), bound),
                scope_bindings(scope) == bound,
                scope_conditions(scope) == conditions.take(i as int),
                evaluations@.len() == i,
                are_outcomes(self.namespaces(), bound, conditions, evaluations@),
                decided(evaluations@, partial, 0) == Ok::<bool, usize>(true),
            decreases self.constraints@.len() - i,
        {
            let ghost before = evaluations@;
            let evaluation: Evaluation = evaluate(&self.engine, &mut scope, &self.constraints[i]);
            evaluations.push(evaluation);
            assert(conditions[i as int] == ast_text(self.constraints@[i as int]));
            assert(are_outcomes(self.namespaces(), bound, conditions, evaluations@)) by {
                assert forall|j: int| 0 <= j < evaluations@.len() implies can_come_to(
                    self.namespaces(),
                    bound,
                    conditions.take(j),
                    conditions[j],
                    #[trigger] evaluations@[j],
                ) by {
                    if j < i {
                        assert(evaluations@[j] == before[j]);
                    }
                }
            }
            assert(scope_conditions(scope) =~= conditions.take(i + 1));
            match decide(&evaluations, partial) {
                Ok(true) => {},
                decision => {
                    proof {
                        lemma_decision_is_in_range(evaluations@, partial, 0);
                    }
                    return decision;
                },
            }
            i += 1;
        }
        Ok(true)
    }

    fn ask(&self, bindings: &[(String, String)], partial: bool) -> (answer: Result<bool, Refusal>)
        ensures
            is_answer(
                self.namespaces(),
                self.conditions(),
                bindings.deep_view(),
                partial,
                answer,
            ),
    {
        if self.constraints.len() == 0 {
            return Ok(true);
        }
        if let Some(index) = find_unplain_value(bindings) {
            return Err(Refusal::Value(index));
        }
        match self.weigh(bindings, partial) {
            Ok(holds) => Ok(holds),
            Err(index) => Err(Refusal::Condition(index)),
        }
    }

    /// Whether the conditions may come to hold, where not every parameter has a value yet: none that
    /// can be answered is refused.
    ///
    /// The error names the first value that is not plain or else the first condition that cannot be
    /// evaluated.
    pub fn could_satisfy(&self, bindings: &[(String, String)]) -> (answer: Result<bool, Refusal>)
        ensures
            is_answer(
                self.namespaces(),
                self.conditions(),
                bindings.deep_view(),
                true,
                answer,
            ),
    {
        self.ask(bindings, true)
    }

    /// Whether the conditions hold.
    ///
    /// The error names the first value that is not plain or else the first condition that cannot be
    /// evaluated.
    pub fn satisfied(&self, bindings: &[(String, String)]) -> (answer: Result<bool, Refusal>)
        ensures
            is_answer(
                self.namespaces(),
                self.conditions(),
                bindings.deep_view(),
                false,
                answer,
            ),
    {
        self.ask(bindings, false)
    }
}

/// The condition is plain, and an engine that knows the namespaces can find that it is a condition.
pub open spec fn is_readable(
    namespaces: Seq<(Seq<char>, Seq<Seq<char>>)>,
    condition: Seq<char>,
) -> bool {
    expression::is_plain(condition) && can_read(namespaces, condition, true)
}

/// The condition at `index` is not plain, or an engine that knows the namespaces can find that it is
/// none; those before it can be read.
pub open spec fn is_refused_by(
    namespaces: Seq<(Seq<char>, Seq<Seq<char>>)>,
    conditions: Seq<Seq<char>>,
    index: int,
) -> bool {
    &&& !expression::is_plain(conditions[index]) || can_read(namespaces, conditions[index], false)
    &&& forall|i: int| 0 <= i < index ==> is_readable(namespaces, #[trigger] conditions[i])
}

/// The first condition that cannot be read, with the namespaces of the values, can be the one at
/// `index`.
pub open spec fn is_refused(values: Seq<Seq<char>>, conditions: Seq<Seq<char>>, index: int) -> bool {
    &&& 0 <= index < conditions.len()
    &&& exists|namespaces: Seq<(Seq<char>, Seq<Seq<char>>)>|
        are_namespaces(namespaces, values) && #[trigger] is_refused_by(
            namespaces,
            conditions,
            index,
        )
}

/// An engine that knows the names of all variants among the values.
fn engine_of(values: &[String]) -> (engine: Engine)
    ensures
        are_namespaces(engine_namespaces(engine), values.deep_view()),
{
    let namespaces: Vec<(String, Vec<String>)> = namespaces_of(values);
    let ghost model = namespaces.deep_view();
    let mut engine: Engine = new_engine();
    let mut i: usize = 0;
    while i < namespaces.len()
        invariant
            i <= namespaces@.len(),
            model == namespaces.deep_view(),
            engine_namespaces(engine) == model.take(i as int),
        decreases namespaces@.len() - i,
    {
        let names: &Vec<String> = &namespaces[i].1;
        let mut module: Module = new_module();
        let mut j: usize = 0;
        while j < names.len()
            invariant
                j <= names@.len(),
                module_names(module) == names.deep_view().take(j as int),
            decreases names@.len() - j,
        {
            let ghost before = module_names(module);
            set_var(&mut module, names[j].as_str());
            j += 1;
            assert(names.deep_view()[j - 1] == names@[j - 1]@);
            assert(module_names(module) =~= names.deep_view().take(j as int));
        }
        assert(module_names(module) =~= names.deep_view());
        assert(model[i as int] == (namespaces@[i as int].0@, names.deep_view()));
        register_static_module(&mut engine, namespaces[i].0.as_str(), module);
        i += 1;
        assert(engine_namespaces(engine) =~= model.take(i as int));
    }
    assert(engine_namespaces(engine) =~= model);
    engine
}

proof fn lemma_decision_is_in_range(evaluations: Seq<Evaluation>, partial: bool, from: int)
    requires
        0 <= from <= evaluations.len() <= usize::MAX,
    ensures
        decided(evaluations, partial, from) matches Err(index) ==> index < evaluations.len(),
    decreases evaluations.len() - from,
{
    if from < evaluations.len() {
        lemma_decision_is_in_range(evaluations, partial, from + 1);
    }
}

/// The namespaces of the values that a parameter may have, each with its names.
pub fn namespaces_of(values: &[String]) -> (namespaces: Vec<(String, Vec<String>)>)
    ensures
        are_namespaces(namespaces.deep_view(), values.deep_view()),
{
    let listed: Vec<String> = collect_namespaces(values);
    let ghost all = values.deep_view();
    let mut namespaces: Vec<(String, Vec<String>)> = Vec::new();
    let mut i: usize = 0;
    while i < listed.len()
        invariant
            i <= listed@.len(),
            all == values.deep_view(),
            namespaces@.len() == i,
            forall|j: int|
                0 <= j < i ==> (#[trigger] namespaces@[j]).0@ == listed@[j]@ && is_sorted(
                    namespaces@[j].1.deep_view(),
                ),
            forall|j: int, name: Seq<char>|
                0 <= j < i ==> (#[trigger] namespaces@[j].1.deep_view().contains(name)
                    <==> is_variant_of(all, all.len() as int, namespaces@[j].0@, name)),
        decreases listed@.len() - i,
    {
        let names: Vec<String> = collect_names(values, listed[i].as_str());
        proof {
            lemma_listed(names);
        }
        namespaces.push((text::copy_str(listed[i].as_str()), names));
        i += 1;
    }
    proof {
        let model = namespaces.deep_view();
        assert forall|j: int| 0 <= j < model.len() implies (#[trigger] model[j]) == (
            namespaces@[j].0@,
            namespaces@[j].1.deep_view(),
        ) by {}
        lemma_listed(listed);
        assert(Seq::new(model.len(), |j: int| model[j].0) =~= listed.deep_view());
        assert forall|namespace: Seq<char>| #[trigger]
            is_namespace(all, all.len() as int, namespace) <==> exists|j: int|
                0 <= j < model.len() && (#[trigger] model[j]).0 == namespace by {
            assert(text::is_listed(listed@, namespace) <==> is_namespace(
                all,
                all.len() as int,
                namespace,
            ));
            if text::is_listed(listed@, namespace) {
                let j = choose|j: int| 0 <= j < listed@.len() && (#[trigger] listed@[j])@
                    == namespace;
                assert(model[j].0 == namespace);
            }
            if exists|j: int| 0 <= j < model.len() && (#[trigger] model[j]).0 == namespace {
                let j = choose|j: int| 0 <= j < model.len() && (#[trigger] model[j]).0 == namespace;
                assert(listed@[j]@ == namespace);
            }
        }
        assert forall|j: int, name: Seq<char>| 0 <= j < model.len() implies (
        #[trigger] model[j].1.contains(name) <==> is_variant_of(
            all,
            all.len() as int,
            model[j].0,
            name,
        )) by {
            assert(namespaces@[j].1.deep_view().contains(name) <==> is_variant_of(
                all,
                all.len() as int,
                namespaces@[j].0@,
                name,
            ));
        }
    }
    namespaces
}

/// The bindings with the paths of variants cut down to their names.
pub open spec fn unqualified_bindings(bindings: Seq<(Seq<char>, Seq<char>)>) -> Seq<
    (Seq<char>, Seq<char>),
> {
    bindings.map_values(|binding: (Seq<char>, Seq<char>)| (binding.0, unqualified(binding.1)))
}

/// The names that a condition may speak of, each with the text that it stands for.
pub fn scope_of(bindings: &[(String, String)]) -> (scope: Vec<(String, String)>)
    ensures
        scope.deep_view() == unqualified_bindings(bindings.deep_view()),
{
    let mut scope: Vec<(String, String)> = Vec::new();
    let mut i: usize = 0;
    while i < bindings.len()
        invariant
            i <= bindings@.len(),
            scope.deep_view() == unqualified_bindings(bindings.deep_view()).take(i as int),
        decreases bindings@.len() - i,
    {
        let ghost before = scope.deep_view();
        scope.push(
            (
                text::copy_str(bindings[i].0.as_str()),
                unqualify_variant(bindings[i].1.as_str()),
            ),
        );
        i += 1;
        assert(scope.deep_view() =~= before.push(
            unqualified_bindings(bindings.deep_view())[i - 1],
        ));
        assert(scope.deep_view() =~= unqualified_bindings(bindings.deep_view()).take(i as int));
    }
    assert(scope.deep_view() =~= unqualified_bindings(bindings.deep_view()));
    scope
}

/// Conditions that hold could also have been said to be able to hold.
pub proof fn law_satisfied_is_satisfiable(evaluations: Seq<Evaluation>, from: int)
    requires
        decided(evaluations, false, from) == Ok::<bool, usize>(true),
    ensures
        decided(evaluations, true, from) == Ok::<bool, usize>(true),
    decreases evaluations.len() - from,
{
    if from < evaluations.len() {
        law_satisfied_is_satisfiable(evaluations, from + 1);
    }
}

/// A variant keeps its name when its path is cut off, and cutting again changes nothing.
pub proof fn law_unqualified_name_is_kept(value: Seq<char>)
    ensures
        unqualified(unqualified(value)) == unqualified(value),
{
    lemma_last_separator(value, value.len() as int);
    let name = unqualified(value);
    lemma_last_separator(name, name.len() as int);
    if let Some(index) = text::last_path_separator(name, name.len() as int) {
        if let Some(last) = text::last_path_separator(value, value.len() as int) {
            assert(text::is_path_separator(value, last + 2 + index));
        }
    }
}

proof fn lemma_last_separator(value: Seq<char>, end: int)
    ensures
        match text::last_path_separator(value, end) {
            Some(index) => text::is_path_separator(value, index) && index < end && forall|later: int|
                index < later < end ==> !#[trigger] text::is_path_separator(value, later),
            None => forall|later: int|
                0 <= later < end ==> !#[trigger] text::is_path_separator(value, later),
        },
    decreases end,
{
    if end > 0 {
        lemma_last_separator(value, end - 1);
    }
}

/// An outcome that does not decide: the condition holds or, where parameters may have no value yet, may still
/// come to hold.
pub open spec fn is_open(evaluation: Evaluation, partial: bool) -> bool {
    evaluation is Satisfied || (partial && evaluation is UnknownVariable)
}

proof fn lemma_decided(evaluations: Seq<Evaluation>, partial: bool, from: int, at: int)
    requires
        0 <= from <= evaluations.len() <= usize::MAX,
    ensures
        match decided(evaluations, partial, from) {
            Ok(true) => from <= at < evaluations.len() ==> is_open(evaluations[at], partial),
            Ok(false) => exists|i: int|
                from <= i < evaluations.len() && #[trigger] evaluations[i] is Unsatisfied && (from <= at
                    < i ==> is_open(evaluations[at], partial)),
            Err(index) => from <= index < evaluations.len() && !is_open(
                evaluations[index as int],
                partial,
            ) && evaluations[index as int] !is Unsatisfied && (from <= at < index ==> is_open(
                evaluations[at],
                partial,
            )),
        },
    decreases evaluations.len() - from,
{
    if from < evaluations.len() {
        if is_open(evaluations[from], partial) {
            lemma_decided(evaluations, partial, from + 1, at);
            if let Ok(false) = decided(evaluations, partial, from) {
                let i = choose|i: int|
                    from + 1 <= i < evaluations.len() && #[trigger] evaluations[i] is Unsatisfied && (
                    from + 1 <= at < i ==> is_open(evaluations[at], partial));
                assert(evaluations[i] is Unsatisfied);
            }
        } else {
            assert(evaluations[from] is Unsatisfied || decided(evaluations, partial, from) is Err);
        }
    }
}

/// Conditions hold where every one of them does. They do not where one is refused, and there is no answer where
/// one failed or, once all parameters have values, speaks of one that has none; the first such
/// outcome decides.
pub proof fn law_first_deciding_outcome_counts(
    evaluations: &[Evaluation],
    partial: bool,
    decision: Result<bool, usize>,
    at: int,
)
    requires
        call_ensures(decide, (evaluations, partial), decision),
        0 <= at < evaluations@.len() <= usize::MAX,
    ensures
        match decision {
            Ok(true) => evaluations@[at] is Satisfied || (partial && evaluations@[at] is UnknownVariable),
            Ok(false) => exists|i: int|
                0 <= i < evaluations@.len() && #[trigger] evaluations@[i] is Unsatisfied && (at < i
                    ==> is_open(evaluations@[at], partial)),
            Err(index) => index < evaluations@.len() && (evaluations@[index as int] is Failed || (
            evaluations@[index as int] is UnknownVariable && !partial)) && (at < index ==> is_open(
                evaluations@[at],
                partial,
            )),
        },
{
    lemma_decided(evaluations@, partial, 0, at);
}

/// The name of a variant is what stands behind the last two colons of its path, or all of it.
pub proof fn law_names_stand_behind_the_path(
    value: &str,
    name: String,
    halves: Option<(String, String)>,
)
    requires
        call_ensures(unqualify_variant, (value,), name),
        call_ensures(text::split_path, (value,), halves),
    ensures
        match halves {
            Some((_, back)) => name@ == back@,
            None => name@ == value@,
        },
{
    if let Some((front, back)) = halves {
        assert(halves.deep_view() == Some((front@, back@)));
    }
}

/// Every binding keeps its name, and its value loses its path.
pub proof fn law_bindings_lose_their_paths(
    bindings: &[(String, String)],
    scope: Vec<(String, String)>,
    at: int,
    value: &str,
    name: String,
)
    requires
        call_ensures(scope_of, (bindings,), scope),
        0 <= at < bindings@.len(),
        value@ == bindings@[at].1@,
        call_ensures(unqualify_variant, (value,), name),
    ensures
        scope@.len() == bindings@.len(),
        scope@[at].0@ == bindings@[at].0@,
        scope@[at].1@ == name@,
{
    assert(scope.deep_view().len() == scope@.len());
    assert(bindings.deep_view().len() == bindings@.len());
    assert(scope.deep_view()[at] == scope@[at].deep_view());
    assert(bindings.deep_view()[at] == bindings@[at].deep_view());
    assert(scope@[at].deep_view() == (scope@[at].0@, scope@[at].1@));
    assert(bindings@[at].deep_view() == (bindings@[at].0@, bindings@[at].1@));
}

/// Conditions are said to hold only where each of them can come to hold, also those on parameters without a
/// value; they are said to be able to hold where each can come to hold or speaks of a parameter that
/// has no value.
pub proof fn law_conditions_hold_one_by_one(
    constraints: Constraints,
    bindings: &[(String, String)],
    partial: bool,
    outcomes: usize,
)
    requires
        constraints.conditions().len() == outcomes > 0,
        !partial ==> call_ensures(
            Constraints::satisfied,
            (&constraints, bindings),
            Ok::<bool, Refusal>(true),
        ),
        partial ==> call_ensures(
            Constraints::could_satisfy,
            (&constraints, bindings),
            Ok::<bool, Refusal>(true),
        ),
    ensures
        exists|scope: Seq<(Seq<char>, ScriptValue)>, evaluations: Seq<Evaluation>|
            is_scope_of(constraints.namespaces(), bindings.deep_view(), scope)
                && #[trigger] are_outcomes(
                constraints.namespaces(),
                scope,
                constraints.conditions(),
                evaluations,
            ) && evaluations.len() == outcomes && forall|i: int|
                0 <= i < outcomes ==> (#[trigger] evaluations[i]) is Satisfied || (partial
                    && evaluations[i] is UnknownVariable),
{
    let namespaces = constraints.namespaces();
    let conditions = constraints.conditions();
    assert(is_answer(
        namespaces,
        conditions,
        bindings.deep_view(),
        partial,
        Ok::<bool, Refusal>(true),
    ));
    let (scope, evaluations) = choose|scope: Seq<(Seq<char>, ScriptValue)>, evaluations: Seq<
        Evaluation,
    >|
        is_scope_of(namespaces, bindings.deep_view(), scope) && #[trigger] are_outcomes(
            namespaces,
            scope,
            conditions,
            evaluations,
        ) && decided(evaluations, partial, 0) == Ok::<bool, usize>(true) && evaluations.len()
            == conditions.len();
    assert forall|i: int| 0 <= i < outcomes implies (#[trigger] evaluations[i]) is Satisfied || (partial
        && evaluations[i] is UnknownVariable) by {
        lemma_decided(evaluations, partial, 0, i);
    }
}

/// Where there are no conditions everything holds.
pub proof fn law_no_conditions_always_hold(
    constraints: Constraints,
    bindings: &[(String, String)],
    satisfied: Result<bool, Refusal>,
    satisfiable: Result<bool, Refusal>,
)
    requires
        constraints.conditions().len() == 0,
        call_ensures(Constraints::satisfied, (&constraints, bindings), satisfied),
        call_ensures(Constraints::could_satisfy, (&constraints, bindings), satisfiable),
    ensures
        satisfied == Ok::<bool, Refusal>(true),
        satisfiable == Ok::<bool, Refusal>(true),
{
}

} // verus!
