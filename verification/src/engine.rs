//! Rule-based completion engine: an ordered list of (predicate, action)
//! rules. Given a completion context, every rule whose predicate holds
//! contributes its candidates, concatenated in registration order.

use vstd::prelude::*;

verus! {

/// Immutable snapshot of the input line relevant to one completion request:
/// the zero-based index of the argument being completed and the partial
/// token under the cursor.
pub struct CompletionContext {
    pub arg_num: usize,
    pub token: String,
}

/// A completion candidate: the replacement text plus optional display
/// metadata. Produced fresh for every request.
pub struct Completion {
    pub replacement: String,
    pub description: Option<String>,
}

/// A boolean check over a completion context, deciding whether a rule's
/// action applies.
pub enum Predicate {
    /// Holds when the argument index under the cursor equals the given one.
    ArgNumIs(usize),
}

/// Candidate generation run when the paired predicate holds.
pub enum Action {
    /// Offer each of the given names as a replacement, in order.
    OfferNames(Vec<String>),
}

/// A predicate paired with the action to run when it holds.
pub struct Rule {
    pub predicate: Predicate,
    pub action: Action,
}

/// Whether `p` holds of the context `ctx`.
pub open spec fn predicate_holds(p: Predicate, ctx: CompletionContext) -> bool {
    match p {
        Predicate::ArgNumIs(k) => ctx.arg_num == k,
    }
}

/// The replacement texts that `a` offers.
pub open spec fn action_names(a: Action) -> Seq<Seq<char>> {
    match a {
        Action::OfferNames(names) => names.deep_view(),
    }
}

/// What one rule contributes to a request: its action's names when its
/// predicate holds, nothing otherwise.
pub open spec fn rule_output(r: Rule, ctx: CompletionContext) -> Seq<Seq<char>> {
    if predicate_holds(r.predicate, ctx) {
        action_names(r.action)
    } else {
        Seq::empty()
    }
}

/// The replacement texts of a whole request: every rule's contribution,
/// concatenated in registration order.
pub open spec fn completions_of(rules: Seq<Rule>, ctx: CompletionContext) -> Seq<Seq<char>>
    decreases rules.len(),
{
    if rules.len() == 0 {
        Seq::empty()
    } else {
        rule_output(rules[0], ctx) + completions_of(rules.drop_first(), ctx)
    }
}

/// Appending a rule appends exactly that rule's contribution.
pub proof fn lemma_completions_of_push(rules: Seq<Rule>, r: Rule, ctx: CompletionContext)
    ensures
        completions_of(rules.push(r), ctx) == completions_of(rules, ctx) + rule_output(r, ctx),
    decreases rules.len(),
{
    if rules.len() == 0 {
        let p = rules.push(r);
        assert(p.len() == 1);
        assert(p[0] == r);
        assert(p.drop_first() =~= Seq::<Rule>::empty());
        assert(completions_of(p.drop_first(), ctx) =~= Seq::<Seq<char>>::empty());
        assert(completions_of(p, ctx) =~= rule_output(r, ctx) + Seq::<Seq<char>>::empty());
        assert(rule_output(r, ctx) + Seq::<Seq<char>>::empty() =~= rule_output(r, ctx));
        assert(completions_of(rules, ctx) + rule_output(r, ctx) =~= rule_output(r, ctx));
    } else {
        assert(rules.push(r).drop_first() =~= rules.drop_first().push(r));
        lemma_completions_of_push(rules.drop_first(), r, ctx);
        assert(rules.push(r)[0] == rules[0]);
        assert(completions_of(rules.push(r), ctx) =~= completions_of(rules, ctx) + rule_output(
            r,
            ctx,
        ));
    }
}

/// With no rules registered, every request yields the empty sequence of
/// candidates.
pub proof fn lemma_no_rules_no_completions(ctx: CompletionContext)
    ensures
        completions_of(Seq::<Rule>::empty(), ctx) == Seq::<Seq<char>>::empty(),
{
}

/// Ordered set of completion rules. Rules are kept in registration order,
/// and a request concatenates the output of every rule whose predicate
/// holds; zero matches is an empty result, not an error.
pub struct CompletionRuleEngine {
    rules: Vec<Rule>,
}

impl CompletionRuleEngine {
    /// The registered rules, in registration order.
    pub closed spec fn rules(self) -> Seq<Rule> {
        self.rules@
    }

    /// An engine with no rules: valid, and matches nothing.
    pub fn new() -> (e: Self)
        ensures
            e.rules() == Seq::<Rule>::empty(),
    {
        CompletionRuleEngine { rules: Vec::new() }
    }

    /// A staging builder with no rules yet.
    pub fn builder() -> (b: EngineBuilder)
        ensures
            b.staged() == Seq::<Rule>::empty(),
    {
        EngineBuilder::default()
    }

    /// Append a rule. Duplicates are permitted and retained; registration
    /// order is preserved.
    pub fn register(&mut self, rule: Rule)
        ensures
            final (self).rules() == old(self).rules().push(rule),
    {
        self.rules.push(rule);
    }

    /// Evaluate every rule against `ctx`, in registration order, and
    /// concatenate the candidates of those whose predicates hold. Every
    /// candidate carries a replacement text and no description.
    pub fn complete(&self, ctx: &CompletionContext) -> (r: Vec<Completion>)
        ensures
            r@.len() == completions_of(self.rules(), *ctx).len(),
            forall|i: int|
                0 <= i < r@.len() ==> #[trigger] r@[i].replacement@ == completions_of(
                    self.rules(),
                    *ctx,
                )[i] && r@[i].description is None,
    {
        let mut out: Vec<Completion> = Vec::new();
        let mut idx: usize = 0;
        while idx < self.rules.len()
            invariant
                idx <= self.rules@.len(),
                out@.len() == completions_of(self.rules@.take(idx as int), *ctx).len(),
                forall|i: int|
                    0 <= i < out@.len() ==> #[trigger] out@[i].replacement@ == completions_of(
                        self.rules@.take(idx as int),
                        *ctx,
                    )[i] && out@[i].description is None,
            decreases self.rules@.len() - idx,
        {
            let ghost prefix = self.rules@.take(idx as int);
            let rule = &self.rules[idx];
            proof {
                assert(self.rules@.take(idx + 1int) =~= prefix.push(self.rules@[idx as int]));
                lemma_completions_of_push(prefix, self.rules@[idx as int], *ctx);
            }
            if predicate_matches(&rule.predicate, ctx) {
                let mut add = run_action(&rule.action);
                let ghost old_out = out@;
                out.append(&mut add);
                proof {
                    assert(forall|i: int|
                        0 <= i < old_out.len() ==> out@[i] == old_out[i]);
                }
            }
            idx = idx + 1;
        }
        proof {
            assert(self.rules@.take(self.rules@.len() as int) =~= self.rules@);
        }
        out
    }
}

/// Whether the rule predicate holds of this context.
fn predicate_matches(p: &Predicate, ctx: &CompletionContext) -> (b: bool)
    ensures
        b == predicate_holds(*p, *ctx),
{
    match p {
        Predicate::ArgNumIs(k) => *k == ctx.arg_num,
    }
}

/// Run one action: one candidate per offered name, in order, with no
/// description attached.
fn run_action(a: &Action) -> (v: Vec<Completion>)
    ensures
        v@.len() == action_names(*a).len(),
        forall|i: int|
            0 <= i < v@.len() ==> #[trigger] v@[i].replacement@ == action_names(*a)[i]
                && v@[i].description is None,
{
    match a {
        Action::OfferNames(names) => {
            let mut v: Vec<Completion> = Vec::new();
            let mut j: usize = 0;
            while j < names.len()
                invariant
                    j <= names@.len(),
                    v@.len() == j,
                    forall|i: int|
                        0 <= i < v@.len() ==> #[trigger] v@[i].replacement@ == names@[i]@
                            && v@[i].description is None,
                decreases names@.len() - j,
            {
                v.push(Completion { replacement: names[j].clone(), description: None });
                j = j + 1;
            }
            v
        },
    }
}

/// Staging type for engine configuration: rules accumulate in order and are
/// sealed into an engine by `build`. Building with zero staged rules yields
/// an engine with an empty rule list.
pub struct EngineBuilder {
    rules: Vec<Rule>,
}

impl EngineBuilder {
    /// The rules staged so far, in the order they were added.
    pub closed spec fn staged(self) -> Seq<Rule> {
        self.rules@
    }

    /// Stage one more rule.
    pub fn reg(self, rule: Rule) -> (b: Self)
        ensures
            b.staged() == self.staged().push(rule),
    {
        let mut rules = self.rules;
        rules.push(rule);
        EngineBuilder { rules }
    }

    /// Seal the staged rules into an engine, in staging order.
    pub fn build(self) -> (e: CompletionRuleEngine)
        ensures
            e.rules() == self.staged(),
    {
        CompletionRuleEngine { rules: self.rules }
    }
}

impl Default for EngineBuilder {
    /// A builder with no staged rules.
    fn default() -> (b: Self)
        ensures
            b.staged() == Seq::<Rule>::empty(),
    {
        EngineBuilder { rules: Vec::new() }
    }
}

/// The engine this shell configures for command-name completion: at
/// argument index zero, offer the executables discovered on the search
/// path, then the registered builtin names; elsewhere, offer nothing.
pub fn command_name_completer(path_commands: Vec<String>, builtin_commands: Vec<String>) -> (e:
    CompletionRuleEngine)
    ensures
        e.rules().len() == 2,
        e.rules()[0].predicate == Predicate::ArgNumIs(0usize),
        action_names(e.rules()[0].action) == path_commands.deep_view(),
        e.rules()[1].predicate == Predicate::ArgNumIs(0usize),
        action_names(e.rules()[1].action) == builtin_commands.deep_view(),
{
    CompletionRuleEngine::builder().reg(
        Rule {
            predicate: Predicate::ArgNumIs(0),
            action: Action::OfferNames(path_commands),
        },
    ).reg(
        Rule {
            predicate: Predicate::ArgNumIs(0),
            action: Action::OfferNames(builtin_commands),
        },
    ).build()
}

/// The two configured command-name rules complete to the concatenation of
/// the path-derived names and the builtin names, in that order, exactly at
/// argument index zero, and to nothing anywhere else.
pub proof fn lemma_command_name_completions(
    rules: Seq<Rule>,
    ext: Seq<Seq<char>>,
    blt: Seq<Seq<char>>,
    ctx: CompletionContext,
)
    requires
        rules.len() == 2,
        rules[0].predicate == Predicate::ArgNumIs(0usize),
        action_names(rules[0].action) == ext,
        rules[1].predicate == Predicate::ArgNumIs(0usize),
        action_names(rules[1].action) == blt,
    ensures
        ctx.arg_num == 0 ==> completions_of(rules, ctx) == ext + blt,
        ctx.arg_num != 0 ==> completions_of(rules, ctx) == Seq::<Seq<char>>::empty(),
{
    let rest = rules.drop_first();
    assert(rest.len() == 1);
    assert(rest[0] == rules[1]);
    assert(rest.drop_first() =~= Seq::<Rule>::empty());
    assert(completions_of(rest.drop_first(), ctx) =~= Seq::<Seq<char>>::empty());
    assert(completions_of(rest, ctx) =~= rule_output(rules[1], ctx) + Seq::<Seq<char>>::empty());
    assert(completions_of(rules, ctx) =~= rule_output(rules[0], ctx) + completions_of(rest, ctx));
    if ctx.arg_num == 0 {
        assert(rule_output(rules[0], ctx) == ext);
        assert(rule_output(rules[1], ctx) == blt);
        assert(completions_of(rules, ctx) =~= ext + blt);
    } else {
        assert(rule_output(rules[0], ctx) =~= Seq::<Seq<char>>::empty());
        assert(rule_output(rules[1], ctx) =~= Seq::<Seq<char>>::empty());
        assert(completions_of(rules, ctx) =~= Seq::<Seq<char>>::empty());
    }
}

} // verus!
