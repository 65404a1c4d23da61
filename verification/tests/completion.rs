use lavish::engine::{
    command_name_completer, Action, CompletionContext, CompletionRuleEngine, Predicate, Rule,
};

fn ctx(arg_num: usize, token: &str) -> CompletionContext {
    CompletionContext {
        arg_num,
        token: token.to_string(),
    }
}

fn replacements(engine: &CompletionRuleEngine, c: &CompletionContext) -> Vec<String> {
    engine
        .complete(c)
        .into_iter()
        .map(|completion| completion.replacement)
        .collect()
}

#[test]
fn zero_rules_yield_empty_result() {
    let engine = CompletionRuleEngine::new();
    assert!(engine.complete(&ctx(0, "")).is_empty());
    assert!(engine.complete(&ctx(3, "par")).is_empty());
}

#[test]
fn builder_with_zero_rules_yields_valid_empty_engine() {
    let engine = CompletionRuleEngine::builder().build();
    assert!(engine.complete(&ctx(0, "anything")).is_empty());
}

#[test]
fn configured_rules_concatenate_path_then_builtins_at_arg_zero() {
    let engine = command_name_completer(
        vec!["ls".to_string(), "cat".to_string()],
        vec!["cd".to_string(), "alias".to_string()],
    );
    assert_eq!(
        replacements(&engine, &ctx(0, "")),
        vec!["ls", "cat", "cd", "alias"]
    );
}

#[test]
fn configured_rules_yield_nothing_at_nonzero_arg() {
    let engine = command_name_completer(
        vec!["ls".to_string()],
        vec!["cd".to_string()],
    );
    assert!(engine.complete(&ctx(1, "")).is_empty());
    assert!(engine.complete(&ctx(7, "x")).is_empty());
}

#[test]
fn completions_carry_no_description() {
    let engine = command_name_completer(vec!["ls".to_string()], Vec::new());
    let out = engine.complete(&ctx(0, ""));
    assert_eq!(out.len(), 1);
    assert_eq!(out[0].replacement, "ls");
    assert!(out[0].description.is_none());
}

#[test]
fn registration_order_decides_concatenation_order() {
    let mut engine = CompletionRuleEngine::new();
    engine.register(Rule {
        predicate: Predicate::ArgNumIs(2),
        action: Action::OfferNames(vec!["second".to_string()]),
    });
    engine.register(Rule {
        predicate: Predicate::ArgNumIs(0),
        action: Action::OfferNames(vec!["first".to_string()]),
    });
    engine.register(Rule {
        predicate: Predicate::ArgNumIs(0),
        action: Action::OfferNames(vec!["also-first".to_string()]),
    });
    assert_eq!(replacements(&engine, &ctx(0, "")), vec!["first", "also-first"]);
    assert_eq!(replacements(&engine, &ctx(2, "")), vec!["second"]);
    assert!(replacements(&engine, &ctx(1, "")).is_empty());
}

#[test]
fn duplicate_rules_are_retained() {
    let mut engine = CompletionRuleEngine::new();
    let make = || Rule {
        predicate: Predicate::ArgNumIs(0),
        action: Action::OfferNames(vec!["twice".to_string()]),
    };
    engine.register(make());
    engine.register(make());
    assert_eq!(replacements(&engine, &ctx(0, "")), vec!["twice", "twice"]);
}
