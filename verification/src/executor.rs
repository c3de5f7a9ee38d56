//! The tree-walking executor: rendering an abstract syntax tree against a
//! variable context and a locale, as specification functions, and the
//! executable renderer proved to follow them.
//!
//! Include resolution recurses through a path store held in memory; an
//! explicit visitation stack guards against cycles, and the render measure
//! is the number of store paths not yet on that stack.

use vstd::prelude::*;
use crate::value::{
    JsonValue, ValueV, Dec, VarMap, value_view, values_view, entries_view, spec_assoc_get,
    spec_truthy, spec_value_chars, spec_dec_chars, spec_norm_dec, spec_cap_scale, spec_pow10,
    spec_parse_decimal, spec_parse_u64, spec_nat_digits, spec_pad_zeros, spec_digit, dec_wf,
    lemma_pow10_pos, lemma_pow10_bound, lemma_pow10_mono, lemma_norm_dec_wf,
};
use crate::chars::{spec_strip_quotes, spec_contains_char, spec_split_from, spec_match_at};
use crate::node::{NodeV, TemplateNode, node_view, nodes_view, pairs_view, strs_view};
use crate::parser::{sp_parse, kw_open, kw_close, kw_plural, kw_format_number};
use crate::locale::{
    LmV, LocaleManager, spec_resolve_locale, spec_locales_get, spec_get_string, spec_interp_chars,
};
use crate::error::{Error, ErrV, err_view};

verus! {

/// The model of the executor's surroundings: the include store, the active
/// locale, and the optional locale store.
pub struct EnvV {
    pub store: Seq<(Seq<char>, Seq<char>)>,
    pub locale: Seq<char>,
    pub lm: Option<LmV>,
}

/// Look a path up in the include store; the latest entry wins.
pub open spec fn spec_store_get(s: Seq<(Seq<char>, Seq<char>)>, path: Seq<char>) -> Option<
    Seq<char>,
>
    decreases s.len(),
{
    if s.len() == 0 {
        Option::None
    } else if s.last().0 == path {
        Option::Some(s.last().1)
    } else {
        spec_store_get(s.drop_last(), path)
    }
}

/// Look a named parameter up; the latest one wins.
pub open spec fn spec_pairs_get(s: Seq<(Seq<char>, Seq<char>)>, name: Seq<char>) -> Option<
    Seq<char>,
>
    decreases s.len(),
{
    if s.len() == 0 {
        Option::None
    } else if s.last().0 == name {
        Option::Some(s.last().1)
    } else {
        spec_pairs_get(s.drop_last(), name)
    }
}

/// A visitation stack is well formed when its paths are distinct and each
/// one names a store entry.
pub open spec fn stack_ok(store: Seq<(Seq<char>, Seq<char>)>, stack: Seq<Seq<char>>) -> bool {
    &&& stack.no_duplicates()
    &&& forall|i: int| 0 <= i < stack.len() ==> spec_store_get(store, #[trigger] stack[i]) is Some
}

/// The inline marker for a circular include.
pub open spec fn marker_circular(path: Seq<char>) -> Seq<char> {
    "<!-- Circular reference detected: "@ + path + " -->"@
}

/// The inline marker for a missing include.
pub open spec fn marker_missing_include(path: Seq<char>) -> Seq<char> {
    "<!-- Include not found: "@ + path + " -->"@
}

/// The inline marker for an unknown helper.
pub open spec fn marker_unknown_helper(name: Seq<char>) -> Seq<char> {
    "<!-- Unknown helper: "@ + name + " -->"@
}

/// The inline marker for a helper call without arguments.
pub open spec fn marker_helper_no_args() -> Seq<char> {
    "<!-- format_number helper requires arguments -->"@
}

/// The inline marker for a helper argument naming no variable.
pub open spec fn marker_helper_var(name: Seq<char>) -> Seq<char> {
    "<!-- variable "@ + name + " not found -->"@
}

/// A dotted path joined back into one name, from segment `i` on.
pub open spec fn spec_join_dot_from(parts: Seq<Seq<char>>, i: int) -> Seq<char>
    decreases parts.len() - i,
{
    if i < 0 || i >= parts.len() {
        Seq::empty()
    } else if i == parts.len() - 1 {
        parts[i]
    } else {
        parts[i] + seq!['.'] + spec_join_dot_from(parts, i + 1)
    }
}

/// A dotted path joined back into one name.
pub open spec fn spec_join_dot(parts: Seq<Seq<char>>) -> Seq<char> {
    spec_join_dot_from(parts, 0)
}

/// Resolve a dotted path against the context: the first segment names a
/// binding, the rest walk nested objects.
pub open spec fn spec_resolve_nested(
    parts: Seq<Seq<char>>,
    ctx: Seq<(Seq<char>, ValueV)>,
) -> Option<ValueV> {
    if parts.len() == 0 {
        Option::None
    } else {
        match spec_assoc_get(ctx, parts[0]) {
            Option::Some(root) => crate::locale::spec_walk_path(root, parts, 1),
            Option::None => Option::None,
        }
    }
}

/// The value a parameter expression stands for: a quoted literal, a bound
/// variable under the stripped or the raw name, a dotted path, or, failing
/// all of those, the stripped text itself.
pub open spec fn spec_param_value(raw: Seq<char>, ctx: Seq<(Seq<char>, ValueV)>) -> ValueV {
    let clean = spec_strip_quotes(raw);
    if spec_assoc_get(ctx, clean) is Some {
        spec_assoc_get(ctx, clean).unwrap()
    } else if spec_assoc_get(ctx, raw) is Some {
        spec_assoc_get(ctx, raw).unwrap()
    } else if spec_contains_char(clean, '.') {
        match spec_resolve_nested(spec_split_from(clean, '.', 0), ctx) {
            Option::Some(v) => v,
            Option::None => ValueV::Str(clean),
        }
    } else {
        ValueV::Str(clean)
    }
}

/// The helper's view of a value as a number: numbers as they are, strings
/// through the decimal parser with zero for unparseable text, everything
/// else zero.
pub open spec fn spec_as_dec(v: ValueV) -> Dec {
    match v {
        ValueV::Num(d) => d,
        ValueV::Str(s) => match spec_parse_decimal(s) {
            Option::Some(d) => d,
            Option::None => Dec { neg: false, mant: 0, scale: 0 },
        },
        _ => Dec { neg: false, mant: 0, scale: 0 },
    }
}

/// A run of `n` zero characters.
pub open spec fn spec_zeros(n: int) -> Seq<char>
    decreases n,
{
    if n <= 0 {
        Seq::empty()
    } else {
        seq!['0'] + spec_zeros(n - 1)
    }
}

/// The sign prefix of a formatted number.
pub open spec fn spec_sign(neg: bool) -> Seq<char> {
    if neg {
        seq!['-']
    } else {
        Seq::empty()
    }
}

/// Percent formatting: the value times one hundred, rounded half away from
/// zero to one decimal place, with the decimal dropped when it is zero.
pub open spec fn spec_format_percent(d: Dec) -> Seq<char> {
    let p = spec_pow10(d.scale as nat);
    let k = (1000 * (d.mant as nat) + p / 2) / p;
    if k % 10 == 0 {
        let sign = if d.neg && k != 0 {
            seq!['-']
        } else {
            Seq::empty()
        };
        sign + spec_nat_digits(k / 10) + seq!['%']
    } else {
        spec_sign(d.neg) + spec_nat_digits(k / 10) + seq!['.'] + seq![spec_digit(k % 10)] + seq![
            '%',
        ]
    }
}

/// Fixed two-decimal formatting used for currency amounts.
pub open spec fn spec_fixed2(d: Dec) -> Seq<char> {
    let p = spec_pow10(d.scale as nat);
    let n = (100 * (d.mant as nat) + p / 2) / p;
    spec_sign(d.neg) + spec_nat_digits(n / 100) + seq!['.'] + spec_pad_zeros(
        spec_nat_digits(n % 100),
        2,
    )
}

/// Currency formatting: dollars are prefixed, anything else is suffixed
/// with its code.
pub open spec fn spec_format_currency(d: Dec, code: Seq<char>) -> Seq<char> {
    if code == "USD"@ {
        seq!['$'] + spec_fixed2(d)
    } else {
        spec_fixed2(d) + seq![' '] + code
    }
}

/// Fixed-point formatting at `prec` decimal places, rounding half away
/// from zero.
pub open spec fn spec_format_fixed(d: Dec, prec: nat) -> Seq<char> {
    let p = spec_pow10(d.scale as nat);
    if prec == 0 {
        let n = ((d.mant as nat) + p / 2) / p;
        spec_sign(d.neg) + spec_nat_digits(n)
    } else if prec >= d.scale {
        let frac: Seq<char> = if d.scale == 0 {
            spec_zeros(prec as int)
        } else {
            spec_pad_zeros(spec_nat_digits((d.mant as nat) % p), d.scale as int) + spec_zeros(
                prec - d.scale,
            )
        };
        spec_sign(d.neg) + spec_nat_digits((d.mant as nat) / p) + seq!['.'] + frac
    } else {
        let e = spec_pow10((d.scale - prec) as nat);
        let q = ((d.mant as nat) + e / 2) / e;
        let pp = spec_pow10(prec);
        spec_sign(d.neg) + spec_nat_digits(q / pp) + seq!['.'] + spec_pad_zeros(
            spec_nat_digits(q % pp),
            prec as int,
        )
    }
}

/// The number-formatting helper: the first argument names the value; the
/// `style` parameter picks percent, currency or fixed-point form, and
/// anything unrecognized falls back to plain decimal text. A missing
/// variable or argument degrades to an inline marker.
pub open spec fn spec_format_number(
    args: Seq<Seq<char>>,
    params: Seq<(Seq<char>, Seq<char>)>,
    ctx: Seq<(Seq<char>, ValueV)>,
) -> Seq<char> {
    if args.len() == 0 {
        marker_helper_no_args()
    } else {
        match spec_assoc_get(ctx, args[0]) {
            Option::None => marker_helper_var(args[0]),
            Option::Some(v) => {
                let raw = spec_as_dec(v);
                let capped = spec_cap_scale(raw.mant, raw.scale);
                let d = spec_norm_dec(raw.neg, capped.0, capped.1);
                let style = match spec_pairs_get(params, "style"@) {
                    Option::Some(s) => spec_strip_quotes(s),
                    Option::None => "decimal"@,
                };
                if style == "percent"@ {
                    spec_format_percent(d)
                } else if style == "currency"@ {
                    let code = match spec_pairs_get(params, "currency"@) {
                        Option::Some(c) => spec_strip_quotes(c),
                        Option::None => "USD"@,
                    };
                    spec_format_currency(d, code)
                } else if style == "decimal"@ {
                    let prec = match spec_pairs_get(params, "precision"@) {
                        Option::Some(t) => match spec_parse_u64(spec_strip_quotes(t)) {
                            Option::Some(n) => n as nat,
                            Option::None => 2,
                        },
                        Option::None => 2,
                    };
                    spec_format_fixed(d, prec)
                } else {
                    spec_dec_chars(d)
                }
            },
        }
    }
}

/// Dispatch a helper call by name; unknown names degrade to a marker.
pub open spec fn spec_helper(
    name: Seq<char>,
    args: Seq<Seq<char>>,
    params: Seq<(Seq<char>, Seq<char>)>,
    ctx: Seq<(Seq<char>, ValueV)>,
) -> Seq<char> {
    if name == "format_number"@ {
        spec_format_number(args, params, ctx)
    } else {
        marker_unknown_helper(name)
    }
}

/// The value an i18n parameter stands for: a helper-call expression is
/// rendered through the parser and helper dispatch, anything else resolves
/// like an include parameter.
pub open spec fn spec_i18n_param_value(raw: Seq<char>, ctx: Seq<(Seq<char>, ValueV)>) -> ValueV {
    if spec_match_at(raw, kw_plural(), 0) || spec_match_at(raw, kw_format_number(), 0) {
        let wrapped = kw_open() + raw + kw_close();
        match sp_parse(wrapped) {
            Result::Ok(nodes) => if nodes.len() > 0 && nodes[0] is Helper {
                ValueV::Str(
                    spec_helper(nodes[0]->Helper_name, nodes[0]->Helper_args, nodes[0]->Helper_params, ctx),
                )
            } else {
                ValueV::Str(raw)
            },
            Result::Err(_) => ValueV::Str(raw),
        }
    } else {
        spec_param_value(raw, ctx)
    }
}

/// The interpolation bindings built from i18n parameters, from `i` on.
pub open spec fn spec_i18n_bindings(
    params: Seq<(Seq<char>, Seq<char>)>,
    ctx: Seq<(Seq<char>, ValueV)>,
    i: int,
) -> Seq<(Seq<char>, ValueV)>
    decreases params.len() - i,
{
    if i < 0 || i >= params.len() {
        Seq::empty()
    } else {
        seq![(params[i].0, spec_i18n_param_value(params[i].1, ctx))] + spec_i18n_bindings(
            params,
            ctx,
            i + 1,
        )
    }
}

/// Render a translation node: the parameters become interpolation bindings,
/// the key is looked up in the resolved locale, and the lookup is strict.
pub open spec fn spec_render_i18n(
    env: EnvV,
    key: Seq<char>,
    params: Seq<(Seq<char>, Seq<char>)>,
    ctx: Seq<(Seq<char>, ValueV)>,
) -> Result<Seq<char>, ErrV> {
    let bindings = spec_i18n_bindings(params, ctx, 0);
    match env.lm {
        Option::None => Result::Err(ErrV::I18nKeyNotFound { key, locale: env.locale }),
        Option::Some(lm) => match spec_resolve_locale(lm, env.locale) {
            Option::None => Result::Err(ErrV::LocaleNotFound(env.locale)),
            Option::Some(id) => {
                let strings = spec_locales_get(lm.locales, id).unwrap();
                match spec_get_string(strings, key) {
                    Option::None => Result::Err(
                        ErrV::I18nKeyNotFound { key, locale: env.locale },
                    ),
                    Option::Some(t) => Result::Ok(
                        crate::locale::spec_apply_params(t, bindings, 0),
                    ),
                }
            },
        },
    }
}

/// The context additions an include's parameters make, from `i` on.
pub open spec fn spec_include_bindings(
    params: Seq<(Seq<char>, Seq<char>)>,
    ctx: Seq<(Seq<char>, ValueV)>,
    i: int,
) -> Seq<(Seq<char>, ValueV)>
    decreases params.len() - i,
{
    if i < 0 || i >= params.len() {
        Seq::empty()
    } else {
        seq![(params[i].0, spec_param_value(params[i].1, ctx))] + spec_include_bindings(
            params,
            ctx,
            i + 1,
        )
    }
}

/// The context a loop iteration sees: the element bound as `this`, and, for
/// an object element, each property additionally bound as `this.name`.
pub open spec fn spec_this_bindings(entries: Seq<(Seq<char>, ValueV)>, i: int) -> Seq<
    (Seq<char>, ValueV),
>
    decreases entries.len() - i,
{
    if i < 0 || i >= entries.len() {
        Seq::empty()
    } else {
        seq![(seq!['t', 'h', 'i', 's', '.'] + entries[i].0, entries[i].1)] + spec_this_bindings(
            entries,
            i + 1,
        )
    }
}

/// The per-element context of a loop body.
pub open spec fn spec_item_ctx(ctx: Seq<(Seq<char>, ValueV)>, item: ValueV) -> Seq<
    (Seq<char>, ValueV),
> {
    let base = ctx.push((seq!['t', 'h', 'i', 's'], item));
    match item {
        ValueV::Obj(entries) => base + spec_this_bindings(entries, 0),
        _ => base,
    }
}

/// Render a node list: each node's text in order; the first failure stops
/// the render.
pub open spec fn rd_nodes(
    env: EnvV,
    stack: Seq<Seq<char>>,
    nodes: Seq<NodeV>,
    ctx: Seq<(Seq<char>, ValueV)>,
) -> Result<Seq<char>, ErrV>
    decreases env.store.len() - stack.len(), nodes, 1int,
{
    if nodes.len() == 0 {
        Result::Ok(Seq::empty())
    } else {
        match rd_node(env, stack, nodes[0], ctx) {
            Result::Err(e) => Result::Err(e),
            Result::Ok(first) => match rd_nodes(env, stack, nodes.drop_first(), ctx) {
                Result::Err(e) => Result::Err(e),
                Result::Ok(rest) => Result::Ok(first + rest),
            },
        }
    }
}

/// Render the loop body once per element, from element `i` on.
pub open spec fn rd_each_items(
    env: EnvV,
    stack: Seq<Seq<char>>,
    content: Seq<NodeV>,
    ctx: Seq<(Seq<char>, ValueV)>,
    items: Seq<ValueV>,
    i: int,
) -> Result<Seq<char>, ErrV>
    decreases env.store.len() - stack.len(), content, 2 + items.len() - i,
{
    if i < 0 || i >= items.len() {
        Result::Ok(Seq::empty())
    } else {
        match rd_nodes(env, stack, content, spec_item_ctx(ctx, items[i])) {
            Result::Err(e) => Result::Err(e),
            Result::Ok(first) => match rd_each_items(env, stack, content, ctx, items, i + 1) {
                Result::Err(e) => Result::Err(e),
                Result::Ok(rest) => Result::Ok(first + rest),
            },
        }
    }
}

/// Render the first case whose literal equals the switch text, from case
/// `i` on; no match renders nothing.
pub open spec fn rd_switch_cases(
    env: EnvV,
    stack: Seq<Seq<char>>,
    cases: Seq<(Seq<char>, Seq<NodeV>)>,
    target: Seq<char>,
    ctx: Seq<(Seq<char>, ValueV)>,
    i: int,
) -> Result<Seq<char>, ErrV>
    decreases env.store.len() - stack.len(), cases, 2 + cases.len() - i,
{
    if i < 0 || i >= cases.len() {
        Result::Ok(Seq::empty())
    } else if cases[i].0 == target {
        rd_nodes(env, stack, cases[i].1, ctx)
    } else {
        rd_switch_cases(env, stack, cases, target, ctx, i + 1)
    }
}

/// Render one node against the context.
pub open spec fn rd_node(
    env: EnvV,
    stack: Seq<Seq<char>>,
    n: NodeV,
    ctx: Seq<(Seq<char>, ValueV)>,
) -> Result<Seq<char>, ErrV>
    decreases env.store.len() - stack.len(), n, 0int,
{
    match n {
        NodeV::Text(t) => Result::Ok(t),
        NodeV::Variable(name) => match spec_assoc_get(ctx, name) {
            Option::Some(v) => Result::Ok(spec_value_chars(v)),
            Option::None => Result::Err(ErrV::TemplateVariableNotFound(name)),
        },
        NodeV::NestedVariable(parts) => match spec_resolve_nested(parts, ctx) {
            Option::Some(v) => Result::Ok(spec_value_chars(v)),
            Option::None => Result::Err(ErrV::TemplateVariableNotFound(spec_join_dot(parts))),
        },
        NodeV::If { condition, then_content, else_content } => {
            let truthy = match spec_assoc_get(ctx, condition) {
                Option::Some(v) => spec_truthy(v),
                Option::None => false,
            };
            if truthy {
                rd_nodes(env, stack, then_content, ctx)
            } else {
                match else_content {
                    Option::Some(e) => rd_nodes(env, stack, e, ctx),
                    Option::None => Result::Ok(Seq::empty()),
                }
            }
        },
        NodeV::Each { variable, content } => match spec_assoc_get(ctx, variable) {
            Option::Some(ValueV::Arr(items)) => rd_each_items(env, stack, content, ctx, items, 0),
            _ => Result::Ok(Seq::empty()),
        },
        NodeV::Switch { variable, cases } => match spec_assoc_get(ctx, variable) {
            Option::Some(v) => rd_switch_cases(env, stack, cases, spec_value_chars(v), ctx, 0),
            Option::None => Result::Ok(Seq::empty()),
        },
        NodeV::Case { .. } => Result::Ok(Seq::empty()),
        NodeV::IfLocale { locale, then_content, else_content } => {
            if env.locale == locale {
                rd_nodes(env, stack, then_content, ctx)
            } else {
                match else_content {
                    Option::Some(e) => rd_nodes(env, stack, e, ctx),
                    Option::None => Result::Ok(Seq::empty()),
                }
            }
        },
        NodeV::Include { path, params } => {
            if stack.contains(path) {
                Result::Ok(marker_circular(path))
            } else {
                match spec_store_get(env.store, path) {
                    Option::None => Result::Ok(marker_missing_include(path)),
                    Option::Some(content) => {
                        if stack.len() >= env.store.len() {
                            Result::Ok(marker_missing_include(path))
                        } else {
                            match sp_parse(content) {
                                Result::Err(m) => Result::Err(ErrV::TemplateParsing(m)),
                                Result::Ok(inc_nodes) => rd_nodes(
                                    env,
                                    stack.push(path),
                                    inc_nodes,
                                    ctx + spec_include_bindings(params, ctx, 0),
                                ),
                            }
                        }
                    },
                }
            }
        },
        NodeV::I18n { key, params } => spec_render_i18n(env, key, params, ctx),
        NodeV::Helper { name, args, params } => Result::Ok(spec_helper(name, args, params, ctx)),
    }
}

/// The in-memory store of includable template sources, keyed by path.
#[derive(Clone, Debug)]
pub struct TemplateStore {
    pub entries: Vec<(Vec<char>, Vec<char>)>,
}

impl View for TemplateStore {
    type V = Seq<(Seq<char>, Seq<char>)>;

    open spec fn view(&self) -> Seq<(Seq<char>, Seq<char>)> {
        pairs_view(self.entries@)
    }
}

impl TemplateStore {
    /// An empty store.
    pub fn new() -> (r: TemplateStore)
        ensures
            r@ == Seq::<(Seq<char>, Seq<char>)>::empty(),
    {
        let r = TemplateStore { entries: Vec::new() };
        proof {
            assert(r@ =~= Seq::<(Seq<char>, Seq<char>)>::empty());
        }
        r
    }

    /// This store with `content` available under `path`.
    pub fn add(self, path: &str, content: &str) -> (r: TemplateStore)
        ensures
            r@ == self@.push((path@, content@)),
    {
        let mut entries = self.entries;
        let ghost pre = entries@;
        entries.push((crate::chars::str_to_chars(path), crate::chars::str_to_chars(content)));
        proof {
            assert(pairs_view(entries@) =~= pairs_view(pre).push((path@, content@)));
        }
        TemplateStore { entries }
    }

    /// How many sources the store holds.
    pub fn len(&self) -> (r: usize)
        ensures
            r == self@.len(),
    {
        self.entries.len()
    }
}

/// Find the source stored under `path`; the latest entry wins.
fn store_find<'a>(entries: &'a Vec<(Vec<char>, Vec<char>)>, path: &Vec<char>) -> (r: Option<
    &'a Vec<char>,
>)
    ensures
        match spec_store_get(pairs_view(entries@), path@) {
            Option::Some(c) => r.is_some() && r.unwrap()@ == c,
            Option::None => r.is_none(),
        },
{
    let ghost full = pairs_view(entries@);
    let mut i: usize = entries.len();
    proof {
        assert(pairs_view(entries@.subrange(0, entries@.len() as int)) =~= full);
    }
    while i > 0
        invariant
            i <= entries@.len(),
            full == pairs_view(entries@),
            spec_store_get(full, path@) == spec_store_get(
                pairs_view(entries@.subrange(0, i as int)),
                path@,
            ),
        decreases i,
    {
        i = i - 1;
        let hit = crate::value::chars_eq(&entries[i].0, path);
        proof {
            let cur = pairs_view(entries@.subrange(0, i + 1));
            assert(cur.last() == (entries@[i as int].0@, entries@[i as int].1@));
            if !hit {
                assert(cur.drop_last() =~= pairs_view(entries@.subrange(0, i as int)));
            }
        }
        if hit {
            return Some(&entries[i].1);
        }
    }
    proof {
        assert(pairs_view(entries@.subrange(0, 0)) =~= Seq::<(Seq<char>, Seq<char>)>::empty());
    }
    None
}

/// Find a named parameter; the latest one wins.
fn pairs_find<'a>(params: &'a Vec<(Vec<char>, Vec<char>)>, name: &Vec<char>) -> (r: Option<
    &'a Vec<char>,
>)
    ensures
        match spec_pairs_get(pairs_view(params@), name@) {
            Option::Some(c) => r.is_some() && r.unwrap()@ == c,
            Option::None => r.is_none(),
        },
{
    let ghost full = pairs_view(params@);
    let mut i: usize = params.len();
    proof {
        assert(pairs_view(params@.subrange(0, params@.len() as int)) =~= full);
    }
    while i > 0
        invariant
            i <= params@.len(),
            full == pairs_view(params@),
            spec_pairs_get(full, name@) == spec_pairs_get(
                pairs_view(params@.subrange(0, i as int)),
                name@,
            ),
        decreases i,
    {
        i = i - 1;
        let hit = crate::value::chars_eq(&params[i].0, name);
        proof {
            let cur = pairs_view(params@.subrange(0, i + 1));
            assert(cur.last() == (params@[i as int].0@, params@[i as int].1@));
            if !hit {
                assert(cur.drop_last() =~= pairs_view(params@.subrange(0, i as int)));
            }
        }
        if hit {
            return Some(&params[i].1);
        }
    }
    proof {
        assert(pairs_view(params@.subrange(0, 0)) =~= Seq::<(Seq<char>, Seq<char>)>::empty());
    }
    None
}

fn marker_wrap(prefix: &str, middle: &Vec<char>, suffix: &str) -> (r: Vec<char>)
    ensures
        r@ == prefix@ + middle@ + suffix@,
{
    let mut r = crate::chars::str_to_chars(prefix);
    crate::value::push_chars(&mut r, middle);
    let tail = crate::chars::str_to_chars(suffix);
    crate::value::push_chars(&mut r, &tail);
    proof {
        assert(r@ =~= prefix@ + middle@ + suffix@);
    }
    r
}

/// Join a dotted path back into one name, from segment `i` on.
fn join_dot_from(parts: &Vec<Vec<char>>, i: usize) -> (r: Vec<char>)
    ensures
        r@ == spec_join_dot_from(strs_view(parts@), i as int),
    decreases parts@.len() - i,
{
    if i >= parts.len() {
        Vec::new()
    } else if i == parts.len() - 1 {
        let mut r: Vec<char> = Vec::new();
        crate::value::push_chars(&mut r, &parts[i]);
        proof {
            assert(r@ =~= strs_view(parts@)[i as int]);
        }
        r
    } else {
        let mut r: Vec<char> = Vec::new();
        crate::value::push_chars(&mut r, &parts[i]);
        r.push('.');
        let rest = join_dot_from(parts, i + 1);
        crate::value::push_chars(&mut r, &rest);
        proof {
            assert(r@ =~= strs_view(parts@)[i as int] + seq!['.'] + spec_join_dot_from(
                strs_view(parts@),
                i + 1,
            ));
        }
        r
    }
}

/// Resolve a dotted path against the context.
fn resolve_nested<'a>(parts: &Vec<Vec<char>>, ctx: &'a VarMap) -> (r: Option<&'a JsonValue>)
    ensures
        match spec_resolve_nested(strs_view(parts@), ctx@) {
            Option::Some(vv) => r.is_some() && value_view(*r.unwrap()) == vv,
            Option::None => r.is_none(),
        },
{
    if parts.len() == 0 {
        return None;
    }
    proof {
        assert(strs_view(parts@)[0] == parts@[0]@);
    }
    match ctx.get(&parts[0]) {
        Some(root) => crate::locale::walk_path(root, parts, 1),
        None => None,
    }
}

/// The value a parameter expression stands for.
fn param_value(raw: &Vec<char>, ctx: &VarMap) -> (r: JsonValue)
    ensures
        value_view(r) == spec_param_value(raw@, ctx@),
{
    let clean = crate::chars::strip_quotes(raw);
    match ctx.get(&clean) {
        Some(v) => {
            return crate::value::value_clone(v);
        },
        None => {},
    }
    match ctx.get(raw) {
        Some(v) => {
            return crate::value::value_clone(v);
        },
        None => {},
    }
    if crate::chars::contains_char(&clean, '.') {
        let parts = crate::chars::split_from(&clean, '.', 0);
        proof {
            assert(strs_view(parts@) =~= spec_split_from(clean@, '.', 0));
        }
        match resolve_nested(&parts, ctx) {
            Some(v) => {
                return crate::value::value_clone(v);
            },
            None => {},
        }
    }
    JsonValue::Str(clean)
}

/// The helper's view of a value as a number.
fn as_dec(v: &JsonValue) -> (r: Dec)
    ensures
        r == spec_as_dec(value_view(*v)),
{
    match v {
        JsonValue::Num(d) => *d,
        JsonValue::Str(s) => match crate::value::parse_decimal(s) {
            Some(d) => d,
            None => Dec { neg: false, mant: 0, scale: 0 },
        },
        _ => Dec { neg: false, mant: 0, scale: 0 },
    }
}

proof fn lemma_zeros(n: int)
    ensures
        spec_zeros(n).len() == if n <= 0 {
            0int
        } else {
            n
        },
        forall|j: int| 0 <= j < spec_zeros(n).len() ==> spec_zeros(n)[j] == '0',
    decreases n,
{
    if n > 0 {
        lemma_zeros(n - 1);
    }
}

/// A run of `n` zero characters.
fn zeros(n: u64) -> (r: Vec<char>)
    ensures
        r@ == spec_zeros(n as int),
{
    let mut r: Vec<char> = Vec::new();
    let mut i: u64 = 0;
    while i < n
        invariant
            i <= n,
            r@.len() == i,
            forall|j: int| 0 <= j < i ==> r@[j] == '0',
        decreases n - i,
    {
        r.push('0');
        i = i + 1;
    }
    proof {
        lemma_zeros(n as int);
        assert(r@ =~= spec_zeros(n as int));
    }
    r
}

/// Render the number-formatting helper.
#[verifier::rlimit(100)]
fn format_number_helper(
    args: &Vec<Vec<char>>,
    params: &Vec<(Vec<char>, Vec<char>)>,
    ctx: &VarMap,
) -> (r: Vec<char>)
    ensures
        r@ == spec_format_number(strs_view(args@), pairs_view(params@), ctx@),
{
    if args.len() == 0 {
        return crate::chars::str_to_chars("<!-- format_number helper requires arguments -->");
    }
    proof {
        assert(strs_view(args@)[0] == args@[0]@);
    }
    let v = match ctx.get(&args[0]) {
        Some(v) => v,
        None => {
            return marker_wrap("<!-- variable ", &args[0], " not found -->");
        },
    };
    let raw = as_dec(v);
    let d = Dec::new(raw.neg, raw.mant, raw.scale);
    proof {
        lemma_pow10_bound(d.scale as nat);
        lemma_pow10_pos(d.scale as nat);
    }
    let style = match pairs_find(params, &crate::chars::str_to_chars("style")) {
        Some(sv) => crate::chars::strip_quotes(sv),
        None => crate::chars::str_to_chars("decimal"),
    };
    let p64 = crate::value::pow10_u64(d.scale);
    if crate::value::chars_eq(&style, &crate::chars::str_to_chars("percent")) {
        let p = p64 as u128;
        let k = (1000u128 * (d.mant as u128) + p / 2) / p;
        let mut out: Vec<char> = Vec::new();
        if k % 10 == 0 {
            if d.neg && k != 0 {
                out.push('-');
            }
            let digits = crate::value::u128_digits(k / 10);
            crate::value::push_chars(&mut out, &digits);
            out.push('%');
            proof {
                assert(out@ =~= spec_format_percent(d));
            }
        } else {
            if d.neg {
                out.push('-');
            }
            let digits = crate::value::u128_digits(k / 10);
            crate::value::push_chars(&mut out, &digits);
            out.push('.');
            let last = (k % 10) as u64;
            let ld = crate::value::u64_digits(last);
            crate::value::push_chars(&mut out, &ld);
            out.push('%');
            proof {
                assert(spec_nat_digits((k % 10) as nat) =~= seq![spec_digit((k % 10) as nat)]);
                assert(out@ =~= spec_format_percent(d));
            }
        }
        out
    } else if crate::value::chars_eq(&style, &crate::chars::str_to_chars("currency")) {
        let code = match pairs_find(params, &crate::chars::str_to_chars("currency")) {
            Some(cv) => crate::chars::strip_quotes(cv),
            None => crate::chars::str_to_chars("USD"),
        };
        let p = p64 as u128;
        let n = (100u128 * (d.mant as u128) + p / 2) / p;
        let mut fixed: Vec<char> = Vec::new();
        if d.neg {
            fixed.push('-');
        }
        let ip = crate::value::u128_digits(n / 100);
        crate::value::push_chars(&mut fixed, &ip);
        fixed.push('.');
        let fp = crate::value::u64_digits((n % 100) as u64);
        let padded = crate::value::pad_zeros(fp, 2);
        crate::value::push_chars(&mut fixed, &padded);
        proof {
            assert(fixed@ =~= spec_fixed2(d));
        }
        if crate::value::chars_eq(&code, &crate::chars::str_to_chars("USD")) {
            let mut out: Vec<char> = Vec::new();
            out.push('$');
            crate::value::push_chars(&mut out, &fixed);
            proof {
                assert(out@ =~= spec_format_currency(d, code@));
            }
            out
        } else {
            let mut out = fixed;
            out.push(' ');
            crate::value::push_chars(&mut out, &code);
            proof {
                assert(out@ =~= spec_format_currency(d, code@));
            }
            out
        }
    } else if crate::value::chars_eq(&style, &crate::chars::str_to_chars("decimal")) {
        let prec: u64 = match pairs_find(params, &crate::chars::str_to_chars("precision")) {
            Some(tv) => match crate::value::parse_u64(&crate::chars::strip_quotes(tv)) {
                Some(n) => n,
                None => 2,
            },
            None => 2,
        };
        let mut out: Vec<char> = Vec::new();
        if prec == 0 {
            let p = p64 as u128;
            let n = ((d.mant as u128) + p / 2) / p;
            if d.neg {
                out.push('-');
            }
            let digits = crate::value::u128_digits(n);
            crate::value::push_chars(&mut out, &digits);
            proof {
                assert(out@ =~= spec_format_fixed(d, prec as nat));
            }
            out
        } else if prec >= d.scale as u64 {
            if d.neg {
                out.push('-');
            }
            let ip = crate::value::u64_digits(d.mant / p64);
            crate::value::push_chars(&mut out, &ip);
            out.push('.');
            if d.scale == 0 {
                let zs = zeros(prec);
                crate::value::push_chars(&mut out, &zs);
            } else {
                let fp = crate::value::u64_digits(d.mant % p64);
                let padded = crate::value::pad_zeros(fp, d.scale as usize);
                crate::value::push_chars(&mut out, &padded);
                let zs = zeros(prec - d.scale as u64);
                crate::value::push_chars(&mut out, &zs);
            }
            proof {
                assert(out@ =~= spec_format_fixed(d, prec as nat));
            }
            out
        } else {
            let e64 = crate::value::pow10_u64(d.scale - prec as u32);
            proof {
                lemma_pow10_bound((d.scale - prec) as nat);
                lemma_pow10_pos((d.scale - prec) as nat);
                lemma_pow10_bound(prec as nat);
                lemma_pow10_pos(prec as nat);
            }
            let e = e64 as u128;
            let q = ((d.mant as u128) + e / 2) / e;
            let pp64 = crate::value::pow10_u64(prec as u32);
            let pp = pp64 as u128;
            if d.neg {
                out.push('-');
            }
            let ip = crate::value::u128_digits(q / pp);
            crate::value::push_chars(&mut out, &ip);
            out.push('.');
            let fp = crate::value::u128_digits(q % pp);
            let padded = crate::value::pad_zeros(fp, prec as usize);
            crate::value::push_chars(&mut out, &padded);
            proof {
                assert(out@ =~= spec_format_fixed(d, prec as nat));
            }
            out
        }
    } else {
        crate::value::dec_chars(&d)
    }
}

/// Dispatch a helper call by name.
fn helper_call(
    name: &Vec<char>,
    args: &Vec<Vec<char>>,
    params: &Vec<(Vec<char>, Vec<char>)>,
    ctx: &VarMap,
) -> (r: Vec<char>)
    ensures
        r@ == spec_helper(name@, strs_view(args@), pairs_view(params@), ctx@),
{
    if crate::value::chars_eq(name, &crate::chars::str_to_chars("format_number")) {
        format_number_helper(args, params, ctx)
    } else {
        marker_wrap("<!-- Unknown helper: ", name, " -->")
    }
}

/// The value an i18n parameter stands for.
fn i18n_param_value(raw: &Vec<char>, ctx: &VarMap) -> (r: JsonValue)
    ensures
        value_view(r) == spec_i18n_param_value(raw@, ctx@),
{
    let is_helper = crate::chars::match_at(raw, &crate::parser::kv_plural(), 0)
        || crate::chars::match_at(raw, &crate::parser::kv_format_number(), 0);
    if is_helper {
        let mut wrapped = crate::parser::kv_open();
        crate::value::push_chars(&mut wrapped, raw);
        let closing = crate::parser::kv_close();
        crate::value::push_chars(&mut wrapped, &closing);
        proof {
            assert(wrapped@ =~= kw_open() + raw@ + kw_close());
        }
        match crate::parser::parse_chars(&wrapped) {
            Ok(nodes) => {
                if nodes.len() > 0 {
                    proof {
                        crate::node::lemma_nodes_view_index(nodes@, 0);
                    }
                    match &nodes[0] {
                        TemplateNode::Helper { name, args, params } => {
                            return JsonValue::Str(helper_call(name, args, params, ctx));
                        },
                        _ => {},
                    }
                } else {
                    proof {
                        crate::node::lemma_nodes_view_len(nodes@);
                    }
                }
                let mut c: Vec<char> = Vec::new();
                crate::value::push_chars(&mut c, raw);
                proof {
                    assert(c@ =~= raw@);
                }
                JsonValue::Str(c)
            },
            Err(_) => {
                let mut c: Vec<char> = Vec::new();
                crate::value::push_chars(&mut c, raw);
                proof {
                    assert(c@ =~= raw@);
                }
                JsonValue::Str(c)
            },
        }
    } else {
        param_value(raw, ctx)
    }
}

/// Build the interpolation bindings of an i18n node.
fn i18n_bindings(params: &Vec<(Vec<char>, Vec<char>)>, ctx: &VarMap) -> (r: VarMap)
    ensures
        r@ == spec_i18n_bindings(pairs_view(params@), ctx@, 0),
{
    let ghost pv = pairs_view(params@);
    let mut out = VarMap::new();
    let mut i: usize = 0;
    while i < params.len()
        invariant
            i <= params@.len(),
            pv == pairs_view(params@),
            out@ + spec_i18n_bindings(pv, ctx@, i as int) == spec_i18n_bindings(pv, ctx@, 0),
        decreases params@.len() - i,
    {
        let ghost pre = out@;
        let mut name: Vec<char> = Vec::new();
        crate::value::push_chars(&mut name, &params[i].0);
        proof {
            assert(name@ =~= pv[i as int].0);
        }
        let value = i18n_param_value(&params[i].1, ctx);
        out.push_binding(name, value);
        proof {
            assert(spec_i18n_bindings(pv, ctx@, i as int) == seq![
                (pv[i as int].0, spec_i18n_param_value(pv[i as int].1, ctx@)),
            ] + spec_i18n_bindings(pv, ctx@, i + 1));
            assert(pre + spec_i18n_bindings(pv, ctx@, i as int) =~= out@ + spec_i18n_bindings(
                pv,
                ctx@,
                i + 1,
            ));
        }
        i = i + 1;
    }
    proof {
        assert(spec_i18n_bindings(pv, ctx@, params@.len() as int) =~= Seq::<
            (Seq<char>, ValueV),
        >::empty());
        assert(out@ + Seq::<(Seq<char>, ValueV)>::empty() =~= out@);
    }
    out
}

/// The model of an executor assembled from its parts.
pub open spec fn env_of(
    store: TemplateStore,
    lm: Option<LocaleManager>,
    locale: Vec<char>,
) -> EnvV {
    EnvV {
        store: pairs_view(store.entries@),
        locale: locale@,
        lm: match lm {
            Option::None => Option::None,
            Option::Some(m) => Option::Some(m@),
        },
    }
}

proof fn lemma_store_get_names_key(store: Seq<(Seq<char>, Seq<char>)>, path: Seq<char>)
    requires
        spec_store_get(store, path) is Some,
    ensures
        exists|j: int| 0 <= j < store.len() && #[trigger] store[j].0 == path,
    decreases store.len(),
{
    if store.len() > 0 && store.last().0 != path {
        lemma_store_get_names_key(store.drop_last(), path);
        let pre = store.drop_last();
        let j = choose|j: int| 0 <= j < pre.len() && #[trigger] pre[j].0 == path;
        assert(store[j].0 == path);
    }
}

/// A well-formed stack cannot outgrow the store: its members are distinct
/// store keys.
pub(crate) proof fn lemma_stack_fits(store: Seq<(Seq<char>, Seq<char>)>, stack: Seq<Seq<char>>)
    requires
        stack_ok(store, stack),
    ensures
        stack.len() <= store.len(),
{
    broadcast use vstd::seq_lib::group_seq_properties;

    let keys = Seq::new(store.len(), |j: int| store[j].0);
    stack.unique_seq_to_set();
    keys.lemma_cardinality_of_set();
    assert forall|x: Seq<char>| stack.to_set().contains(x) implies keys.to_set().contains(x) by {
        assert(stack.contains(x));
        let i = choose|i: int| 0 <= i < stack.len() && stack[i] == x;
        assert(spec_store_get(store, stack[i]) is Some);
        lemma_store_get_names_key(store, x);
        let j = choose|j: int| 0 <= j < store.len() && #[trigger] store[j].0 == x;
        assert(keys[j] == x);
        assert(keys.contains(x));
    }
    vstd::set_lib::lemma_len_subset(stack.to_set(), keys.to_set());
}

/// Is `path` on the visitation stack?
fn stack_contains(stack: &Vec<Vec<char>>, path: &Vec<char>) -> (r: bool)
    ensures
        r == strs_view(stack@).contains(path@),
{
    let mut i: usize = 0;
    while i < stack.len()
        invariant
            i <= stack@.len(),
            forall|j: int| 0 <= j < i ==> strs_view(stack@)[j] != path@,
        decreases stack@.len() - i,
    {
        if crate::value::chars_eq(&stack[i], path) {
            proof {
                assert(strs_view(stack@)[i as int] == path@);
            }
            return true;
        }
        i = i + 1;
    }
    proof {
        assert forall|j: int| 0 <= j < strs_view(stack@).len() implies strs_view(stack@)[j]
            != path@ by {}
        if strs_view(stack@).contains(path@) {
            let j = choose|j: int|
                0 <= j < strs_view(stack@).len() && strs_view(stack@)[j] == path@;
        }
    }
    false
}

/// Copy the stack and push one more path.
fn stack_push(stack: &Vec<Vec<char>>, path: &Vec<char>) -> (r: Vec<Vec<char>>)
    ensures
        strs_view(r@) == strs_view(stack@).push(path@),
{
    let mut r: Vec<Vec<char>> = Vec::new();
    let mut i: usize = 0;
    while i < stack.len()
        invariant
            i <= stack@.len(),
            r@.len() == i,
            forall|j: int| 0 <= j < i ==> r@[j]@ == stack@[j]@,
        decreases stack@.len() - i,
    {
        let mut c: Vec<char> = Vec::new();
        crate::value::push_chars(&mut c, &stack[i]);
        proof {
            assert(c@ =~= stack@[i as int]@);
        }
        r.push(c);
        i = i + 1;
    }
    let mut p: Vec<char> = Vec::new();
    crate::value::push_chars(&mut p, path);
    proof {
        assert(p@ =~= path@);
    }
    r.push(p);
    proof {
        assert(strs_view(r@) =~= strs_view(stack@).push(path@));
    }
    r
}

/// Render a translation node.
fn render_i18n(
    lm: &Option<LocaleManager>,
    locale: &Vec<char>,
    key: &Vec<char>,
    params: &Vec<(Vec<char>, Vec<char>)>,
    ctx: &VarMap,
    Ghost(env): Ghost<EnvV>,
) -> (r: Result<Vec<char>, Error>)
    requires
        env.locale == locale@,
        env.lm == (match *lm {
            Option::None => Option::<LmV>::None,
            Option::Some(m) => Option::Some(m@),
        }),
    ensures
        ({
            let sp = spec_render_i18n(env, key@, pairs_view(params@), ctx@);
            &&& (r is Ok <==> sp is Ok)
            &&& (r is Ok ==> r->Ok_0@ == sp->Ok_0)
            &&& (r is Err ==> sp is Err && err_view(r->Err_0) == sp->Err_0)
        }),
{
    let bindings = i18n_bindings(params, ctx);
    match lm {
        None => Err(
            Error::I18nKeyNotFound {
                key: crate::chars::chars_to_string(key),
                locale: crate::chars::chars_to_string(locale),
            },
        ),
        Some(manager) => {
            let locale_str = crate::chars::chars_to_string(locale);
            match manager.get_locale(locale_str.as_str()) {
                Err(_) => Err(
                    Error::LocaleNotFound { locale: crate::chars::chars_to_string(locale) },
                ),
                Ok(data) => {
                    let key_str = crate::chars::chars_to_string(key);
                    match data.get_string(key_str.as_str()) {
                        None => Err(
                            Error::I18nKeyNotFound {
                                key: crate::chars::chars_to_string(key),
                                locale: crate::chars::chars_to_string(locale),
                            },
                        ),
                        Some(t) => {
                            let tc = crate::chars::str_to_chars(t.as_str());
                            let out = crate::locale::apply_params(tc, &bindings);
                            Ok(out)
                        },
                    }
                },
            }
        },
    }
}

/// Build the context an include's body is rendered against: the caller's
/// bindings extended with the include's parameters.
fn include_ctx(params: &Vec<(Vec<char>, Vec<char>)>, ctx: &VarMap) -> (r: VarMap)
    ensures
        r@ == ctx@ + spec_include_bindings(pairs_view(params@), ctx@, 0),
{
    let ghost pv = pairs_view(params@);
    let ghost cv = ctx@;
    let mut out = ctx.duplicate();
    let mut i: usize = 0;
    proof {
        assert(out@ + spec_include_bindings(pv, cv, 0) == cv + spec_include_bindings(pv, cv, 0));
    }
    while i < params.len()
        invariant
            i <= params@.len(),
            pv == pairs_view(params@),
            cv == ctx@,
            out@ + spec_include_bindings(pv, cv, i as int) == cv + spec_include_bindings(
                pv,
                cv,
                0,
            ),
        decreases params@.len() - i,
    {
        let ghost pre = out@;
        let mut name: Vec<char> = Vec::new();
        crate::value::push_chars(&mut name, &params[i].0);
        proof {
            assert(name@ =~= pv[i as int].0);
        }
        let value = param_value(&params[i].1, ctx);
        out.push_binding(name, value);
        proof {
            assert(spec_include_bindings(pv, cv, i as int) == seq![
                (pv[i as int].0, spec_param_value(pv[i as int].1, cv)),
            ] + spec_include_bindings(pv, cv, i + 1));
            assert(pre + spec_include_bindings(pv, cv, i as int) =~= out@
                + spec_include_bindings(pv, cv, i + 1));
        }
        i = i + 1;
    }
    proof {
        assert(spec_include_bindings(pv, cv, params@.len() as int) =~= Seq::<
            (Seq<char>, ValueV),
        >::empty());
        assert(out@ + Seq::<(Seq<char>, ValueV)>::empty() =~= out@);
    }
    out
}

/// Build the context one loop iteration sees.
fn item_ctx(ctx: &VarMap, item: &JsonValue) -> (r: VarMap)
    ensures
        r@ == spec_item_ctx(ctx@, value_view(*item)),
{
    let mut out = ctx.duplicate();
    let this_key = crate::chars::str_to_chars("this");
    proof {
        reveal_strlit("this");
        assert(this_key@ =~= seq!['t', 'h', 'i', 's']);
    }
    out.push_binding(this_key, crate::value::value_clone(item));
    match item {
        JsonValue::Obj(entries) => {
            let ghost ev = entries_view(entries@);
            let ghost base = out@;
            proof {
                crate::value::lemma_entries_view_len(entries@);
            }
            let mut i: usize = 0;
            proof {
                assert(base + spec_this_bindings(ev, 0) == base + spec_this_bindings(ev, 0));
            }
            while i < entries.len()
                invariant
                    i <= entries@.len(),
                    ev == entries_view(entries@),
                    ev.len() == entries@.len(),
                    out@ + spec_this_bindings(ev, i as int) == base + spec_this_bindings(ev, 0),
                decreases entries@.len() - i,
            {
                let ghost pre = out@;
                proof {
                    crate::value::lemma_entries_view_index(entries@, i as int);
                }
                let mut key = crate::chars::str_to_chars("this.");
                proof {
                    reveal_strlit("this.");
                    assert(key@ =~= seq!['t', 'h', 'i', 's', '.']);
                }
                crate::value::push_chars(&mut key, &entries[i].0);
                proof {
                    assert(key@ =~= seq!['t', 'h', 'i', 's', '.'] + ev[i as int].0);
                }
                let v = crate::value::value_clone(&entries[i].1);
                out.push_binding(key, v);
                proof {
                    assert(spec_this_bindings(ev, i as int) == seq![
                        (seq!['t', 'h', 'i', 's', '.'] + ev[i as int].0, ev[i as int].1),
                    ] + spec_this_bindings(ev, i + 1));
                    assert(pre + spec_this_bindings(ev, i as int) =~= out@ + spec_this_bindings(
                        ev,
                        i + 1,
                    ));
                }
                i = i + 1;
            }
            proof {
                assert(spec_this_bindings(ev, entries@.len() as int) =~= Seq::<
                    (Seq<char>, ValueV),
                >::empty());
                assert(out@ + Seq::<(Seq<char>, ValueV)>::empty() =~= out@);
                assert(out@ =~= spec_item_ctx(ctx@, value_view(*item)));
            }
        },
        _ => {
            proof {
                assert(out@ =~= spec_item_ctx(ctx@, value_view(*item)));
            }
        },
    }
    out
}

/// Render a node list; the first failure stops the render.
fn x_nodes(
    store: &TemplateStore,
    lm: &Option<LocaleManager>,
    locale: &Vec<char>,
    stack: &Vec<Vec<char>>,
    nodes: &Vec<TemplateNode>,
    ctx: &VarMap,
    idx: usize,
) -> (r: Result<Vec<char>, Error>)
    requires
        stack_ok(pairs_view(store.entries@), strs_view(stack@)),
        idx <= nodes@.len(),
    ensures
        ({
            let sp = rd_nodes(
                env_of(*store, *lm, *locale),
                strs_view(stack@),
                nodes_view(nodes@).skip(idx as int),
                ctx@,
            );
            &&& (r is Ok <==> sp is Ok)
            &&& (r is Ok ==> r->Ok_0@ == sp->Ok_0)
            &&& (r is Err ==> sp is Err && err_view(r->Err_0) == sp->Err_0)
        }),
    decreases
            pairs_view(store.entries@).len() - strs_view(stack@).len(),
            nodes_view(nodes@).skip(idx as int),
            1int,
{
    proof {
        crate::node::lemma_nodes_view_len(nodes@);
    }
    let ghost nv = nodes_view(nodes@).skip(idx as int);
    if idx >= nodes.len() {
        proof {
            assert(nv =~= Seq::<NodeV>::empty());
        }
        return Ok(Vec::new());
    }
    proof {
        crate::node::lemma_nodes_view_index(nodes@, idx as int);
        assert(nv[0] == node_view(nodes@[idx as int]));
        assert(decreases_to!(nv => nv[0]));
    }
    match x_node(store, lm, locale, stack, &nodes[idx], ctx) {
        Err(e) => Err(e),
        Ok(mut first) => {
            proof {
                assert(nv.skip(1) =~= nodes_view(nodes@).skip(idx + 1));
                assert(nv.drop_first() =~= nv.skip(1));
            }
            match x_nodes(store, lm, locale, stack, nodes, ctx, idx + 1) {
                Err(e) => Err(e),
                Ok(rest) => {
                    crate::value::push_chars(&mut first, &rest);
                    Ok(first)
                },
            }
        },
    }
}

/// Render the loop body once per element, from element `idx` on.
fn x_each_items(
    store: &TemplateStore,
    lm: &Option<LocaleManager>,
    locale: &Vec<char>,
    stack: &Vec<Vec<char>>,
    content: &Vec<TemplateNode>,
    ctx: &VarMap,
    items: &Vec<JsonValue>,
    idx: usize,
) -> (r: Result<Vec<char>, Error>)
    requires
        stack_ok(pairs_view(store.entries@), strs_view(stack@)),
        idx <= items@.len(),
    ensures
        ({
            let sp = rd_each_items(
                env_of(*store, *lm, *locale),
                strs_view(stack@),
                nodes_view(content@),
                ctx@,
                values_view(items@),
                idx as int,
            );
            &&& (r is Ok <==> sp is Ok)
            &&& (r is Ok ==> r->Ok_0@ == sp->Ok_0)
            &&& (r is Err ==> sp is Err && err_view(r->Err_0) == sp->Err_0)
        }),
    decreases
            pairs_view(store.entries@).len() - strs_view(stack@).len(),
            nodes_view(content@),
            2 + values_view(items@).len() - idx,
{
    proof {
        crate::value::lemma_values_view_len(items@);
    }
    if idx >= items.len() {
        return Ok(Vec::new());
    }
    proof {
        crate::value::lemma_values_view_index(items@, idx as int);
    }
    let ictx = item_ctx(ctx, &items[idx]);
    proof {
        assert(nodes_view(content@).skip(0) =~= nodes_view(content@));
    }
    match x_nodes(store, lm, locale, stack, content, &ictx, 0) {
        Err(e) => Err(e),
        Ok(mut first) => {
            match x_each_items(store, lm, locale, stack, content, ctx, items, idx + 1) {
                Err(e) => Err(e),
                Ok(rest) => {
                    crate::value::push_chars(&mut first, &rest);
                    Ok(first)
                },
            }
        },
    }
}

/// Render the first case whose literal equals the switch text, from case
/// `idx` on.
fn x_switch_cases(
    store: &TemplateStore,
    lm: &Option<LocaleManager>,
    locale: &Vec<char>,
    stack: &Vec<Vec<char>>,
    cases: &Vec<(Vec<char>, Vec<TemplateNode>)>,
    target: &Vec<char>,
    ctx: &VarMap,
    idx: usize,
) -> (r: Result<Vec<char>, Error>)
    requires
        stack_ok(pairs_view(store.entries@), strs_view(stack@)),
        idx <= cases@.len(),
    ensures
        ({
            let sp = rd_switch_cases(
                env_of(*store, *lm, *locale),
                strs_view(stack@),
                crate::node::cases_view(cases@),
                target@,
                ctx@,
                idx as int,
            );
            &&& (r is Ok <==> sp is Ok)
            &&& (r is Ok ==> r->Ok_0@ == sp->Ok_0)
            &&& (r is Err ==> sp is Err && err_view(r->Err_0) == sp->Err_0)
        }),
    decreases
            pairs_view(store.entries@).len() - strs_view(stack@).len(),
            crate::node::cases_view(cases@),
            2 + crate::node::cases_view(cases@).len() - idx,
{
    proof {
        crate::node::lemma_cases_view_len(cases@);
    }
    if idx >= cases.len() {
        return Ok(Vec::new());
    }
    proof {
        crate::node::lemma_cases_view_index(cases@, idx as int);
    }
    if crate::value::chars_eq(&cases[idx].0, target) {
        proof {
            let cv = crate::node::cases_view(cases@);
            assert(decreases_to!(cv => cv[idx as int]));
            assert(decreases_to!(cv[idx as int] => cv[idx as int].1));
            assert(nodes_view(cases@[idx as int].1@).skip(0) =~= nodes_view(
                cases@[idx as int].1@,
            ));
        }
        match x_nodes(store, lm, locale, stack, &cases[idx].1, ctx, 0) {
            Err(e) => Err(e),
            Ok(out) => Ok(out),
        }
    } else {
        x_switch_cases(store, lm, locale, stack, cases, target, ctx, idx + 1)
    }
}

/// Render one node against the context.
#[verifier::rlimit(100)]
fn x_node(
    store: &TemplateStore,
    lm: &Option<LocaleManager>,
    locale: &Vec<char>,
    stack: &Vec<Vec<char>>,
    n: &TemplateNode,
    ctx: &VarMap,
) -> (r: Result<Vec<char>, Error>)
    requires
        stack_ok(pairs_view(store.entries@), strs_view(stack@)),
    ensures
        ({
            let sp = rd_node(env_of(*store, *lm, *locale), strs_view(stack@), node_view(*n), ctx@);
            &&& (r is Ok <==> sp is Ok)
            &&& (r is Ok ==> r->Ok_0@ == sp->Ok_0)
            &&& (r is Err ==> sp is Err && err_view(r->Err_0) == sp->Err_0)
        }),
    decreases
            pairs_view(store.entries@).len() - strs_view(stack@).len(),
            node_view(*n),
            0int,
{
    let ghost env = env_of(*store, *lm, *locale);
    let ghost sv = strs_view(stack@);
    match n {
        TemplateNode::Text(t) => {
            let mut out: Vec<char> = Vec::new();
            crate::value::push_chars(&mut out, t);
            proof {
                assert(out@ =~= t@);
            }
            Ok(out)
        },
        TemplateNode::Variable(name) => match ctx.get(name) {
            Some(v) => Ok(crate::value::value_chars(v)),
            None => Err(
                Error::TemplateVariableNotFound { name: crate::chars::chars_to_string(name) },
            ),
        },
        TemplateNode::NestedVariable(parts) => match resolve_nested(parts, ctx) {
            Some(v) => Ok(crate::value::value_chars(v)),
            None => {
                let joined = join_dot_from(parts, 0);
                Err(
                    Error::TemplateVariableNotFound {
                        name: crate::chars::chars_to_string(&joined),
                    },
                )
            },
        },
        TemplateNode::If { condition, then_content, else_content } => {
            let truthy = match ctx.get(condition) {
                Some(v) => crate::value::truthy(v),
                None => false,
            };
            proof {
                assert(decreases_to!(node_view(*n) => node_view(*n)->If_then_content));
            }
            if truthy {
                proof {
                    assert(nodes_view(then_content@).skip(0) =~= nodes_view(then_content@));
                }
                x_nodes(store, lm, locale, stack, then_content, ctx, 0)
            } else {
                match else_content {
                    Some(e) => {
                        proof {
                            assert(decreases_to!(node_view(*n) => node_view(
                                *n,
                            )->If_else_content));
                            assert(nodes_view(e@).skip(0) =~= nodes_view(e@));
                        }
                        x_nodes(store, lm, locale, stack, e, ctx, 0)
                    },
                    None => Ok(Vec::new()),
                }
            }
        },
        TemplateNode::Each { variable, content } => match ctx.get(variable) {
            Some(v) => match v {
                JsonValue::Arr(items) => x_each_items(
                    store,
                    lm,
                    locale,
                    stack,
                    content,
                    ctx,
                    items,
                    0,
                ),
                _ => Ok(Vec::new()),
            },
            None => Ok(Vec::new()),
        },
        TemplateNode::Switch { variable, cases } => match ctx.get(variable) {
            Some(v) => {
                let target = crate::value::value_chars(v);
                x_switch_cases(store, lm, locale, stack, cases, &target, ctx, 0)
            },
            None => Ok(Vec::new()),
        },
        TemplateNode::Case { .. } => Ok(Vec::new()),
        TemplateNode::IfLocale { locale: lit, then_content, else_content } => {
            if crate::value::chars_eq(locale, lit) {
                proof {
                    assert(decreases_to!(node_view(*n) => node_view(*n)->IfLocale_then_content));
                    assert(nodes_view(then_content@).skip(0) =~= nodes_view(then_content@));
                }
                x_nodes(store, lm, locale, stack, then_content, ctx, 0)
            } else {
                match else_content {
                    Some(e) => {
                        proof {
                            assert(decreases_to!(node_view(*n) => node_view(
                                *n,
                            )->IfLocale_else_content));
                            assert(nodes_view(e@).skip(0) =~= nodes_view(e@));
                        }
                        x_nodes(store, lm, locale, stack, e, ctx, 0)
                    },
                    None => Ok(Vec::new()),
                }
            }
        },
        TemplateNode::Include { path, params } => {
            if stack_contains(stack, path) {
                return Ok(marker_wrap("<!-- Circular reference detected: ", path, " -->"));
            }
            match store_find(&store.entries, path) {
                None => Ok(marker_wrap("<!-- Include not found: ", path, " -->")),
                Some(content) => {
                    proof {
                        lemma_stack_fits(pairs_view(store.entries@), sv.push(path@));
                        assert(sv.push(path@).len() <= pairs_view(store.entries@).len());
                    }
                    match crate::parser::parse_chars(content) {
                        Err(e) => Err(e),
                        Ok(inc_nodes) => {
                            let merged = include_ctx(params, ctx);
                            let new_stack = stack_push(stack, path);
                            proof {
                                assert(nodes_view(inc_nodes@).skip(0) =~= nodes_view(
                                    inc_nodes@,
                                ));
                            }
                            x_nodes(store, lm, locale, &new_stack, &inc_nodes, &merged, 0)
                        },
                    }
                },
            }
        },
        TemplateNode::I18n { key, params } => render_i18n(
            lm,
            locale,
            key,
            params,
            ctx,
            Ghost(env),
        ),
        TemplateNode::Helper { name, args, params } => Ok(helper_call(name, args, params, ctx)),
    }
}


/// Whether the store holds a source under `path`.
pub fn store_has(store: &TemplateStore, path: &Vec<char>) -> (r: bool)
    ensures
        r == (spec_store_get(store@, path@) is Some),
{
    store_find(&store.entries, path).is_some()
}

/// Render a node list in the given surroundings, from an empty visitation
/// stack.
pub fn render_nodes(
    store: &TemplateStore,
    lm: &Option<LocaleManager>,
    locale: &Vec<char>,
    nodes: &Vec<TemplateNode>,
    vars: &VarMap,
) -> (r: Result<String, Error>)
    ensures
        ({
            let sp = rd_nodes(
                env_of(*store, *lm, *locale),
                Seq::empty(),
                nodes_view(nodes@),
                vars@,
            );
            &&& (r is Ok <==> sp is Ok)
            &&& (r is Ok ==> r->Ok_0@ == sp->Ok_0)
            &&& (r is Err ==> sp is Err && err_view(r->Err_0) == sp->Err_0)
        }),
{
    let stack: Vec<Vec<char>> = Vec::new();
    proof {
        assert(strs_view(stack@) =~= Seq::<Seq<char>>::empty());
        assert(nodes_view(nodes@).skip(0) =~= nodes_view(nodes@));
    }
    match x_nodes(store, lm, locale, &stack, nodes, vars, 0) {
        Ok(out) => Ok(crate::chars::chars_to_string(&out)),
        Err(e) => Err(e),
    }
}

/// The tree-walking renderer: an include store, an optional locale store,
/// and the active locale.
#[derive(Debug)]
pub struct TemplateExecutor {
    pub locale_manager: Option<LocaleManager>,
    pub current_locale: Vec<char>,
    pub template_store: TemplateStore,
}

impl TemplateExecutor {
    /// The model of this executor's surroundings.
    pub open spec fn env(&self) -> EnvV {
        env_of(self.template_store, self.locale_manager, self.current_locale)
    }

    /// An executor with an empty store, no locale data, and the default
    /// locale.
    pub fn new() -> (r: TemplateExecutor)
        ensures
            r.env().store == Seq::<(Seq<char>, Seq<char>)>::empty(),
            r.env().locale == "en"@,
            r.env().lm is None,
    {
        TemplateExecutor {
            locale_manager: None,
            current_locale: crate::chars::str_to_chars("en"),
            template_store: TemplateStore::new(),
        }
    }

    /// This executor with the given include store.
    pub fn with_template_store(self, store: TemplateStore) -> (r: TemplateExecutor)
        ensures
            r.env().store == store@,
            r.env().locale == self.env().locale,
            r.env().lm == self.env().lm,
    {
        TemplateExecutor {
            locale_manager: self.locale_manager,
            current_locale: self.current_locale,
            template_store: store,
        }
    }

    /// This executor with the given locale store and active locale.
    pub fn with_locale_manager(self, manager: LocaleManager, locale: &str) -> (r: TemplateExecutor)
        ensures
            r.env().store == self.env().store,
            r.env().locale == locale@,
            r.env().lm == Option::Some(manager@),
    {
        TemplateExecutor {
            locale_manager: Some(manager),
            current_locale: crate::chars::str_to_chars(locale),
            template_store: self.template_store,
        }
    }

    /// This executor with the active locale changed.
    pub fn with_locale(self, locale: &str) -> (r: TemplateExecutor)
        ensures
            r.env().store == self.env().store,
            r.env().locale == locale@,
            r.env().lm == self.env().lm,
    {
        TemplateExecutor {
            locale_manager: self.locale_manager,
            current_locale: crate::chars::str_to_chars(locale),
            template_store: self.template_store,
        }
    }

    /// The active locale.
    pub fn locale_id(&self) -> (r: String)
        ensures
            r@ == self.env().locale,
    {
        crate::chars::chars_to_string(&self.current_locale)
    }

    /// Render a node list against a variable context: the concatenated text
    /// of every node, or the first error. The result is exactly what the
    /// rendering relation assigns to this tree, context and environment, so
    /// two renders of the same arguments agree.
    pub fn render(&self, nodes: &Vec<TemplateNode>, vars: &VarMap) -> (r: Result<String, Error>)
        ensures
            ({
                let sp = rd_nodes(self.env(), Seq::empty(), nodes_view(nodes@), vars@);
                &&& (r is Ok <==> sp is Ok)
                &&& (r is Ok ==> r->Ok_0@ == sp->Ok_0)
                &&& (r is Err ==> sp is Err && err_view(r->Err_0) == sp->Err_0)
            }),
    {
        render_nodes(
            &self.template_store,
            &self.locale_manager,
            &self.current_locale,
            nodes,
            vars,
        )
    }
}

/// Rendering is deterministic: the same tree, context, environment and
/// stack always produce the same outcome. This is immediate from the
/// rendering relation being a function, and is stated so callers can rely
/// on it without unfolding anything.
pub proof fn lemma_render_deterministic(
    env: EnvV,
    stack: Seq<Seq<char>>,
    nodes: Seq<NodeV>,
    ctx: Seq<(Seq<char>, ValueV)>,
    r1: Result<Seq<char>, ErrV>,
    r2: Result<Seq<char>, ErrV>,
)
    requires
        r1 == rd_nodes(env, stack, nodes, ctx),
        r2 == rd_nodes(env, stack, nodes, ctx),
    ensures
        r1 == r2,
{
}

} // verus!

