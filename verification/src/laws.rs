//! Laws of the rendering relation.
//!
//! The central one: a template whose referenced bindings are all present
//! and whose substituted texts are free of braces renders successfully,
//! and its output holds no brace characters at all, hence no residual
//! expression markers. Rendering is also a function of its arguments, so
//! two renders of the same tree, context and surroundings agree; that
//! statement lives beside the executor.

use vstd::prelude::*;
use crate::value::{ValueV, spec_assoc_get, spec_truthy, spec_value_chars};
use crate::node::NodeV;
use crate::parser::sp_parse;
use crate::executor::{
    EnvV, rd_nodes, rd_node, rd_each_items, rd_switch_cases, stack_ok, spec_store_get,
    spec_resolve_nested, spec_item_ctx, spec_include_bindings, spec_render_i18n, spec_helper,
    lemma_stack_fits,
};

verus! {

/// Text with no brace characters at all; concatenations of such texts hold
/// no expression markers.
pub open spec fn no_braces(s: Seq<char>) -> bool {
    forall|i: int| 0 <= i < s.len() ==> s[i] != '{' && s[i] != '}'
}

proof fn lemma_no_braces_concat(a: Seq<char>, b: Seq<char>)
    requires
        no_braces(a),
        no_braces(b),
    ensures
        no_braces(a + b),
{
    assert forall|i: int| 0 <= i < (a + b).len() implies (a + b)[i] != '{' && (a + b)[i]
        != '}' by {
        if i < a.len() {
            assert((a + b)[i] == a[i]);
        } else {
            assert((a + b)[i] == b[i - a.len()]);
        }
    }
}

/// A node list every piece of which renders brace-free text: variables and
/// dotted paths are bound to values whose texts are brace-free, branches
/// are clean on both arms, loops are clean for every element, translations
/// and helpers produce brace-free text, and includes resolve, parse and
/// are clean in their merged contexts without revisiting a path.
pub open spec fn clean_nodes(
    env: EnvV,
    stack: Seq<Seq<char>>,
    nodes: Seq<NodeV>,
    ctx: Seq<(Seq<char>, ValueV)>,
) -> bool
    decreases env.store.len() - stack.len(), nodes, 1int,
{
    if nodes.len() == 0 {
        true
    } else {
        clean_node(env, stack, nodes[0], ctx) && clean_nodes(env, stack, nodes.drop_first(), ctx)
    }
}

/// Cleanliness of a loop body for every element from `i` on.
pub open spec fn clean_each(
    env: EnvV,
    stack: Seq<Seq<char>>,
    content: Seq<NodeV>,
    ctx: Seq<(Seq<char>, ValueV)>,
    items: Seq<ValueV>,
    i: int,
) -> bool
    decreases env.store.len() - stack.len(), content, 2 + items.len() - i,
{
    if i < 0 || i >= items.len() {
        true
    } else {
        clean_nodes(env, stack, content, spec_item_ctx(ctx, items[i])) && clean_each(
            env,
            stack,
            content,
            ctx,
            items,
            i + 1,
        )
    }
}

/// Cleanliness of every case arm from `i` on.
pub open spec fn clean_cases(
    env: EnvV,
    stack: Seq<Seq<char>>,
    cases: Seq<(Seq<char>, Seq<NodeV>)>,
    ctx: Seq<(Seq<char>, ValueV)>,
    i: int,
) -> bool
    decreases env.store.len() - stack.len(), cases, 2 + cases.len() - i,
{
    if i < 0 || i >= cases.len() {
        true
    } else {
        clean_nodes(env, stack, cases[i].1, ctx) && clean_cases(env, stack, cases, ctx, i + 1)
    }
}

/// Cleanliness of one node.
pub open spec fn clean_node(
    env: EnvV,
    stack: Seq<Seq<char>>,
    n: NodeV,
    ctx: Seq<(Seq<char>, ValueV)>,
) -> bool
    decreases env.store.len() - stack.len(), n, 0int,
{
    match n {
        NodeV::Text(t) => no_braces(t),
        NodeV::Variable(name) => spec_assoc_get(ctx, name) is Some && no_braces(
            spec_value_chars(spec_assoc_get(ctx, name).unwrap()),
        ),
        NodeV::NestedVariable(parts) => spec_resolve_nested(parts, ctx) is Some && no_braces(
            spec_value_chars(spec_resolve_nested(parts, ctx).unwrap()),
        ),
        NodeV::If { condition, then_content, else_content } => clean_nodes(
            env,
            stack,
            then_content,
            ctx,
        ) && (match else_content {
            Option::Some(e) => clean_nodes(env, stack, e, ctx),
            Option::None => true,
        }),
        NodeV::Each { variable, content } => match spec_assoc_get(ctx, variable) {
            Option::Some(ValueV::Arr(items)) => clean_each(env, stack, content, ctx, items, 0),
            _ => true,
        },
        NodeV::Switch { variable, cases } => clean_cases(env, stack, cases, ctx, 0),
        NodeV::Case { .. } => true,
        NodeV::IfLocale { locale, then_content, else_content } => clean_nodes(
            env,
            stack,
            then_content,
            ctx,
        ) && (match else_content {
            Option::Some(e) => clean_nodes(env, stack, e, ctx),
            Option::None => true,
        }),
        NodeV::Include { path, params } => {
            &&& !stack.contains(path)
            &&& spec_store_get(env.store, path) is Some
            &&& sp_parse(spec_store_get(env.store, path).unwrap()) is Ok
            &&& (stack.len() < env.store.len() ==> clean_nodes(
                env,
                stack.push(path),
                sp_parse(spec_store_get(env.store, path).unwrap())->Ok_0,
                ctx + spec_include_bindings(params, ctx, 0),
            ))
        },
        NodeV::I18n { key, params } => spec_render_i18n(env, key, params, ctx) is Ok && no_braces(
            spec_render_i18n(env, key, params, ctx)->Ok_0,
        ),
        NodeV::Helper { name, args, params } => no_braces(spec_helper(name, args, params, ctx)),
    }
}

/// A clean node list renders: the outcome is success and the rendered text
/// holds no brace characters, so no expression markers survive.
pub proof fn lemma_clean_nodes_render(
    env: EnvV,
    stack: Seq<Seq<char>>,
    nodes: Seq<NodeV>,
    ctx: Seq<(Seq<char>, ValueV)>,
)
    requires
        stack_ok(env.store, stack),
        clean_nodes(env, stack, nodes, ctx),
    ensures
        rd_nodes(env, stack, nodes, ctx) is Ok,
        no_braces(rd_nodes(env, stack, nodes, ctx)->Ok_0),
    decreases env.store.len() - stack.len(), nodes, 1int,
{
    if nodes.len() == 0 {
    } else {
        lemma_clean_node_render(env, stack, nodes[0], ctx);
        lemma_clean_nodes_render(env, stack, nodes.drop_first(), ctx);
        lemma_no_braces_concat(
            rd_node(env, stack, nodes[0], ctx)->Ok_0,
            rd_nodes(env, stack, nodes.drop_first(), ctx)->Ok_0,
        );
    }
}

proof fn lemma_clean_each_render(
    env: EnvV,
    stack: Seq<Seq<char>>,
    content: Seq<NodeV>,
    ctx: Seq<(Seq<char>, ValueV)>,
    items: Seq<ValueV>,
    i: int,
)
    requires
        stack_ok(env.store, stack),
        clean_each(env, stack, content, ctx, items, i),
    ensures
        rd_each_items(env, stack, content, ctx, items, i) is Ok,
        no_braces(rd_each_items(env, stack, content, ctx, items, i)->Ok_0),
    decreases env.store.len() - stack.len(), content, 2 + items.len() - i,
{
    if i < 0 || i >= items.len() {
    } else {
        lemma_clean_nodes_render(env, stack, content, spec_item_ctx(ctx, items[i]));
        lemma_clean_each_render(env, stack, content, ctx, items, i + 1);
        lemma_no_braces_concat(
            rd_nodes(env, stack, content, spec_item_ctx(ctx, items[i]))->Ok_0,
            rd_each_items(env, stack, content, ctx, items, i + 1)->Ok_0,
        );
    }
}

proof fn lemma_clean_cases_render(
    env: EnvV,
    stack: Seq<Seq<char>>,
    cases: Seq<(Seq<char>, Seq<NodeV>)>,
    target: Seq<char>,
    ctx: Seq<(Seq<char>, ValueV)>,
    i: int,
)
    requires
        stack_ok(env.store, stack),
        clean_cases(env, stack, cases, ctx, i),
    ensures
        rd_switch_cases(env, stack, cases, target, ctx, i) is Ok,
        no_braces(rd_switch_cases(env, stack, cases, target, ctx, i)->Ok_0),
    decreases env.store.len() - stack.len(), cases, 2 + cases.len() - i,
{
    if i < 0 || i >= cases.len() {
    } else if cases[i].0 == target {
        lemma_clean_nodes_render(env, stack, cases[i].1, ctx);
    } else {
        lemma_clean_cases_render(env, stack, cases, target, ctx, i + 1);
    }
}

proof fn lemma_clean_node_render(
    env: EnvV,
    stack: Seq<Seq<char>>,
    n: NodeV,
    ctx: Seq<(Seq<char>, ValueV)>,
)
    requires
        stack_ok(env.store, stack),
        clean_node(env, stack, n, ctx),
    ensures
        rd_node(env, stack, n, ctx) is Ok,
        no_braces(rd_node(env, stack, n, ctx)->Ok_0),
    decreases env.store.len() - stack.len(), n, 0int,
{
    match n {
        NodeV::Text(_) => {},
        NodeV::Variable(_) => {},
        NodeV::NestedVariable(_) => {},
        NodeV::If { condition, then_content, else_content } => {
            let truthy = match spec_assoc_get(ctx, condition) {
                Option::Some(v) => spec_truthy(v),
                Option::None => false,
            };
            if truthy {
                lemma_clean_nodes_render(env, stack, then_content, ctx);
            } else {
                match else_content {
                    Option::Some(e) => {
                        lemma_clean_nodes_render(env, stack, e, ctx);
                    },
                    Option::None => {},
                }
            }
        },
        NodeV::Each { variable, content } => {
            match spec_assoc_get(ctx, variable) {
                Option::Some(ValueV::Arr(items)) => {
                    lemma_clean_each_render(env, stack, content, ctx, items, 0);
                },
                _ => {},
            }
        },
        NodeV::Switch { variable, cases } => {
            match spec_assoc_get(ctx, variable) {
                Option::Some(v) => {
                    lemma_clean_cases_render(env, stack, cases, spec_value_chars(v), ctx, 0);
                },
                Option::None => {},
            }
        },
        NodeV::Case { .. } => {},
        NodeV::IfLocale { locale, then_content, else_content } => {
            if env.locale == locale {
                lemma_clean_nodes_render(env, stack, then_content, ctx);
            } else {
                match else_content {
                    Option::Some(e) => {
                        lemma_clean_nodes_render(env, stack, e, ctx);
                    },
                    Option::None => {},
                }
            }
        },
        NodeV::Include { path, params } => {
            let pushed = stack.push(path);
            assert(stack_ok(env.store, pushed)) by {
                assert forall|j: int| 0 <= j < pushed.len() implies spec_store_get(
                    env.store,
                    #[trigger] pushed[j],
                ) is Some by {
                    if j < stack.len() {
                        assert(pushed[j] == stack[j]);
                    } else {
                        assert(pushed[j] == path);
                    }
                }
            }
            lemma_stack_fits(env.store, pushed);
            lemma_clean_nodes_render(
                env,
                pushed,
                sp_parse(spec_store_get(env.store, path).unwrap())->Ok_0,
                ctx + spec_include_bindings(params, ctx, 0),
            );
        },
        NodeV::I18n { .. } => {},
        NodeV::Helper { .. } => {},
    }
}

} // verus!
