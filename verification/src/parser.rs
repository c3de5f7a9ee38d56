//! The recursive-descent template parser: the scanner's behaviour as
//! specification functions over character sequences, and the executable
//! parser proved to follow them.
//!
//! Positions returned by inner specification functions are pinned into the
//! input so the recursion measures are well founded; the executable parser
//! proves its positions only move forward and stay inside the input, so the
//! pins change nothing on real runs.

use vstd::prelude::*;
use crate::chars::{
    spec_match_at, spec_find, spec_find_char, spec_trim, spec_strip_quotes, spec_tokens_from,
    spec_split_once, spec_split_from, spec_contains_char, match_at, find_from, trim_chars,
    strip_quotes, copy_range, tokens_of, split_once_at, split_from, contains_char, str_to_chars,
    lemma_find_in_range, lemma_find_char_in_range,
};
use crate::node::{
    NodeV, TemplateNode, node_view, nodes_view, strs_view, pairs_view, cases_view,
    lemma_nodes_view_concat, lemma_cases_view_concat,
};
use crate::error::{Error, ErrV, err_view};

verus! {

/// The opening braces of an expression.
pub open spec fn kw_open() -> Seq<char> {
    seq!['{', '{']
}

/// The closing braces of an expression.
pub open spec fn kw_close() -> Seq<char> {
    seq!['}', '}']
}

/// The prefix of a conditional block.
pub open spec fn kw_if() -> Seq<char> {
    seq!['#', 'i', 'f', ' ']
}

/// The prefix of a loop block.
pub open spec fn kw_each() -> Seq<char> {
    seq!['#', 'e', 'a', 'c', 'h', ' ']
}

/// The prefix of a switch block.
pub open spec fn kw_switch() -> Seq<char> {
    seq!['#', 's', 'w', 'i', 't', 'c', 'h', ' ']
}

/// The prefix of a locale-conditional block.
pub open spec fn kw_if_locale() -> Seq<char> {
    seq!['#', 'i', 'f', '_', 'l', 'o', 'c', 'a', 'l', 'e', ' ']
}

/// The prefix of an include expression.
pub open spec fn kw_include() -> Seq<char> {
    seq!['>', ' ']
}

/// The prefix of a translation expression.
pub open spec fn kw_i18n() -> Seq<char> {
    seq!['i', '1', '8', 'n', ' ']
}

/// The name prefix of the pluralization helper.
pub open spec fn kw_plural() -> Seq<char> {
    seq!['p', 'l', 'u', 'r', 'a', 'l', ' ']
}

/// The name prefix of the number-formatting helper.
pub open spec fn kw_format_number() -> Seq<char> {
    seq!['f', 'o', 'r', 'm', 'a', 't', '_', 'n', 'u', 'm', 'b', 'e', 'r', ' ']
}

/// The else marker.
pub open spec fn kw_else() -> Seq<char> {
    seq!['{', '{', 'e', 'l', 's', 'e', '}', '}']
}

/// The closer of a conditional block.
pub open spec fn kw_end_if() -> Seq<char> {
    seq!['{', '{', '/', 'i', 'f', '}', '}']
}

/// The closer of a loop block.
pub open spec fn kw_end_each() -> Seq<char> {
    seq!['{', '{', '/', 'e', 'a', 'c', 'h', '}', '}']
}

/// The closer of a switch block.
pub open spec fn kw_end_switch() -> Seq<char> {
    seq!['{', '{', '/', 's', 'w', 'i', 't', 'c', 'h', '}', '}']
}

/// The opener of a case arm.
pub open spec fn kw_case() -> Seq<char> {
    seq!['{', '{', '#', 'c', 'a', 's', 'e', ' ']
}

/// The closer of a case arm.
pub open spec fn kw_end_case() -> Seq<char> {
    seq!['{', '{', '/', 'c', 'a', 's', 'e', '}', '}']
}

/// The closer of a locale-conditional block.
pub open spec fn kw_end_if_locale() -> Seq<char> {
    seq!['{', '{', '/', 'i', 'f', '_', 'l', 'o', 'c', 'a', 'l', 'e', '}', '}']
}

/// `p` pinned into the range `[lo, hi]`.
pub open spec fn pin(lo: int, hi: int, p: int) -> int {
    if p < lo {
        lo
    } else if p > hi {
        hi
    } else {
        p
    }
}

/// `p`, but never below `lo`.
pub open spec fn at_least(lo: int, p: int) -> int {
    if p < lo {
        lo
    } else {
        p
    }
}

/// Whether one of `terms` occurs in `s` at `pos`.
pub open spec fn sp_at_terminator(s: Seq<char>, pos: int, terms: Seq<Seq<char>>) -> bool {
    exists|i: int| 0 <= i < terms.len() && spec_match_at(s, terms[i], pos)
}

/// Parse nodes from `pos` until one of `terms`, the end of input, or a
/// malformed expression.
pub open spec fn sp_nodes(s: Seq<char>, pos: int, terms: Seq<Seq<char>>) -> Result<
    (Seq<NodeV>, int),
    Seq<char>,
>
    decreases s.len() - pos, 3int,
{
    if pos < 0 || pos >= s.len() {
        Result::Ok((Seq::empty(), pos))
    } else if sp_at_terminator(s, pos, terms) {
        Result::Ok((Seq::empty(), pos))
    } else {
        match sp_next(s, pos) {
            Result::Err(m) => Result::Err(m),
            Result::Ok((opt, p1)) => match opt {
                Option::None => Result::Ok((Seq::empty(), p1)),
                Option::Some(n) => {
                    let p2 = pin(pos + 1, s.len() as int, p1);
                    match sp_nodes(s, p2, terms) {
                        Result::Err(m) => Result::Err(m),
                        Result::Ok((rest, p3)) => Result::Ok((seq![n] + rest, p3)),
                    }
                },
            },
        }
    }
}

/// Parse the next node at `pos`: the text before the next opening braces,
/// or the expression they introduce.
pub open spec fn sp_next(s: Seq<char>, pos: int) -> Result<(Option<NodeV>, int), Seq<char>>
    decreases s.len() - pos, 2int,
{
    if pos < 0 || pos >= s.len() {
        Result::Ok((Option::None, pos))
    } else {
        match spec_find(s, kw_open(), pos) {
            Option::Some(f0) => {
                let f = pin(pos, s.len() as int, f0);
                if f > pos {
                    Result::Ok((Option::Some(NodeV::Text(s.subrange(pos, f))), f))
                } else if pos + 2 <= s.len() {
                    sp_expr(s, pos + 2)
                } else {
                    Result::Err(seq!['U', 'n', 'r', 'e', 'a', 'c', 'h', 'e', 'd'])
                }
            },
            Option::None => Result::Ok(
                (Option::Some(NodeV::Text(s.subrange(pos, s.len() as int))), s.len() as int),
            ),
        }
    }
}

/// Classify and parse the expression starting at `pos`, which sits just
/// after the opening braces.
pub open spec fn sp_expr(s: Seq<char>, pos: int) -> Result<(Option<NodeV>, int), Seq<char>>
    decreases s.len() - pos, 1int,
{
    if pos < 0 {
        Result::Err("Unclosed template expression"@)
    } else {
        match spec_find(s, kw_close(), pos) {
            Option::None => Result::Err("Unclosed template expression"@),
            Option::Some(e0) => {
                let e = pin(pos, s.len() as int, e0);
                if e + 2 > s.len() {
                    Result::Err("Unclosed template expression"@)
                } else {
                    let expr = spec_trim(s.subrange(pos, e));
                    let p = e + 2;
                    if spec_match_at(expr, kw_if(), 0) {
                        sp_if(s, p, expr.skip(4))
                    } else if spec_match_at(expr, kw_each(), 0) {
                        sp_each(s, p, expr.skip(6))
                    } else if spec_match_at(expr, kw_switch(), 0) {
                        match sp_switch_cases(s, p) {
                            Result::Err(m) => Result::Err(m),
                            Result::Ok((cases, p2)) => Result::Ok(
                                (
                                    Option::Some(NodeV::Switch { variable: expr.skip(8), cases }),
                                    at_least(p, p2),
                                ),
                            ),
                        }
                    } else if spec_match_at(expr, kw_if_locale(), 0) {
                        sp_if_locale(s, p, spec_strip_quotes(expr.skip(11)))
                    } else if spec_match_at(expr, kw_include(), 0) {
                        match sp_include_node(expr.skip(2)) {
                            Result::Err(m) => Result::Err(m),
                            Result::Ok(n) => Result::Ok((Option::Some(n), p)),
                        }
                    } else if spec_match_at(expr, kw_i18n(), 0) {
                        match sp_i18n_node(expr.skip(5)) {
                            Result::Err(m) => Result::Err(m),
                            Result::Ok(n) => Result::Ok((Option::Some(n), p)),
                        }
                    } else if spec_match_at(expr, kw_plural(), 0) || spec_match_at(
                        expr,
                        kw_format_number(),
                        0,
                    ) {
                        match sp_helper_node(expr) {
                            Result::Err(m) => Result::Err(m),
                            Result::Ok(n) => Result::Ok((Option::Some(n), p)),
                        }
                    } else if spec_contains_char(expr, '.') {
                        Result::Ok(
                            (
                                Option::Some(
                                    NodeV::NestedVariable(spec_split_from(expr, '.', 0)),
                                ),
                                p,
                            ),
                        )
                    } else {
                        Result::Ok((Option::Some(NodeV::Variable(expr)), p))
                    }
                }
            },
        }
    }
}

/// Parse a conditional block body: the then-arm until an else or closer,
/// then an optional else-arm.
pub open spec fn sp_if(s: Seq<char>, pos: int, condition: Seq<char>) -> Result<
    (Option<NodeV>, int),
    Seq<char>,
>
    decreases s.len() - pos, 4int,
{
    if pos < 0 {
        Result::Err("Unclosed template expression"@)
    } else {
        match sp_nodes(s, pos, seq![kw_else(), kw_end_if()]) {
            Result::Err(m) => Result::Err(m),
            Result::Ok((then_content, q1)) => {
                let p1 = pin(pos, s.len() as int, q1);
                if spec_match_at(s, kw_else(), p1) {
                    match sp_nodes(s, p1 + 8, seq![kw_end_if()]) {
                        Result::Err(m) => Result::Err(m),
                        Result::Ok((else_content, q2)) => {
                            let p2 = pin(p1 + 8, s.len() as int, q2);
                            let p3 = if spec_match_at(s, kw_end_if(), p2) {
                                p2 + 7
                            } else {
                                p2
                            };
                            Result::Ok(
                                (
                                    Option::Some(
                                        NodeV::If {
                                            condition,
                                            then_content,
                                            else_content: Option::Some(else_content),
                                        },
                                    ),
                                    p3,
                                ),
                            )
                        },
                    }
                } else {
                    let p3 = if spec_match_at(s, kw_end_if(), p1) {
                        p1 + 7
                    } else {
                        p1
                    };
                    Result::Ok(
                        (
                            Option::Some(
                                NodeV::If { condition, then_content, else_content: Option::None },
                            ),
                            p3,
                        ),
                    )
                }
            },
        }
    }
}

/// Parse a loop block body until its closer.
pub open spec fn sp_each(s: Seq<char>, pos: int, variable: Seq<char>) -> Result<
    (Option<NodeV>, int),
    Seq<char>,
>
    decreases s.len() - pos, 4int,
{
    if pos < 0 {
        Result::Err("Unclosed template expression"@)
    } else {
        match sp_nodes(s, pos, seq![kw_end_each()]) {
            Result::Err(m) => Result::Err(m),
            Result::Ok((content, q1)) => {
                let p1 = pin(pos, s.len() as int, q1);
                let p2 = if spec_match_at(s, kw_end_each(), p1) {
                    p1 + 9
                } else {
                    p1
                };
                Result::Ok((Option::Some(NodeV::Each { variable, content }), p2))
            },
        }
    }
}

/// Parse a locale-conditional block body, like a conditional.
pub open spec fn sp_if_locale(s: Seq<char>, pos: int, locale: Seq<char>) -> Result<
    (Option<NodeV>, int),
    Seq<char>,
>
    decreases s.len() - pos, 4int,
{
    if pos < 0 {
        Result::Err("Unclosed template expression"@)
    } else {
        match sp_nodes(s, pos, seq![kw_else(), kw_end_if_locale()]) {
            Result::Err(m) => Result::Err(m),
            Result::Ok((then_content, q1)) => {
                let p1 = pin(pos, s.len() as int, q1);
                if spec_match_at(s, kw_else(), p1) {
                    match sp_nodes(s, p1 + 8, seq![kw_end_if_locale()]) {
                        Result::Err(m) => Result::Err(m),
                        Result::Ok((else_content, q2)) => {
                            let p2 = pin(p1 + 8, s.len() as int, q2);
                            let p3 = if spec_match_at(s, kw_end_if_locale(), p2) {
                                p2 + 14
                            } else {
                                p2
                            };
                            Result::Ok(
                                (
                                    Option::Some(
                                        NodeV::IfLocale {
                                            locale,
                                            then_content,
                                            else_content: Option::Some(else_content),
                                        },
                                    ),
                                    p3,
                                ),
                            )
                        },
                    }
                } else {
                    let p3 = if spec_match_at(s, kw_end_if_locale(), p1) {
                        p1 + 14
                    } else {
                        p1
                    };
                    Result::Ok(
                        (
                            Option::Some(
                                NodeV::IfLocale {
                                    locale,
                                    then_content,
                                    else_content: Option::None,
                                },
                            ),
                            p3,
                        ),
                    )
                }
            },
        }
    }
}

/// Scan case arms until the switch closer; text between arms is skipped a
/// character at a time, and a case header without closing braces ends the
/// scan where it stands.
pub open spec fn sp_switch_cases(s: Seq<char>, pos: int) -> Result<
    (Seq<(Seq<char>, Seq<NodeV>)>, int),
    Seq<char>,
>
    decreases s.len() - pos, 4int,
{
    if pos < 0 || pos >= s.len() {
        Result::Ok((Seq::empty(), pos))
    } else if spec_match_at(s, kw_end_switch(), pos) {
        Result::Ok((Seq::empty(), pos + 11))
    } else {
        match spec_find(s, kw_case(), pos) {
            Option::None => sp_switch_cases(s, pos + 1),
            Option::Some(c0) => {
                let p1 = at_least(pos, c0) + 8;
                match spec_find(s, kw_close(), p1) {
                    Option::None => Result::Ok((Seq::empty(), p1)),
                    Option::Some(e0) => {
                        let e = pin(p1, s.len() as int, e0);
                        if e + 2 > s.len() || p1 > s.len() {
                            Result::Ok((Seq::empty(), p1))
                        } else {
                            let value = spec_strip_quotes(spec_trim(s.subrange(p1, e)));
                            let p2 = e + 2;
                            match sp_nodes(s, p2, seq![kw_end_case()]) {
                                Result::Err(m) => Result::Err(m),
                                Result::Ok((content, q3)) => {
                                    let p3 = pin(p2, s.len() as int, q3);
                                    let p4 = if spec_match_at(s, kw_end_case(), p3) {
                                        p3 + 9
                                    } else {
                                        p3
                                    };
                                    match sp_switch_cases(s, p4) {
                                        Result::Err(m) => Result::Err(m),
                                        Result::Ok((rest, p5)) => Result::Ok(
                                            (seq![(value, content)] + rest, p5),
                                        ),
                                    }
                                },
                            }
                        }
                    },
                }
            },
        }
    }
}

/// Parse an include expression: the path token, then `name=value` tokens.
pub open spec fn sp_include_node(expr: Seq<char>) -> Result<NodeV, Seq<char>> {
    let tokens = spec_tokens_from(expr, 0);
    if tokens.len() == 0 {
        Result::Err("Empty include expression"@)
    } else {
        Result::Ok(NodeV::Include { path: tokens[0], params: sp_eq_params(tokens.skip(1), 0) })
    }
}

/// The `name=value` pairs among `tokens` from index `i` on; tokens without
/// an equals sign are ignored.
pub open spec fn sp_eq_params(tokens: Seq<Seq<char>>, i: int) -> Seq<(Seq<char>, Seq<char>)>
    decreases tokens.len() - i,
{
    if i < 0 || i >= tokens.len() {
        Seq::empty()
    } else {
        match spec_split_once(tokens[i], '=') {
            Option::Some(p) => seq![p] + sp_eq_params(tokens, i + 1),
            Option::None => sp_eq_params(tokens, i + 1),
        }
    }
}

/// Parse a helper expression: name, positional arguments, and `name=value`
/// parameters.
pub open spec fn sp_helper_node(expr: Seq<char>) -> Result<NodeV, Seq<char>> {
    let tokens = spec_tokens_from(expr, 0);
    if tokens.len() == 0 {
        Result::Err("Empty helper expression"@)
    } else {
        Result::Ok(
            NodeV::Helper {
                name: tokens[0],
                args: sp_plain_args(tokens.skip(1), 0),
                params: sp_eq_params(tokens.skip(1), 0),
            },
        )
    }
}

/// The tokens without an equals sign among `tokens` from index `i` on.
pub open spec fn sp_plain_args(tokens: Seq<Seq<char>>, i: int) -> Seq<Seq<char>>
    decreases tokens.len() - i,
{
    if i < 0 || i >= tokens.len() {
        Seq::empty()
    } else {
        match spec_split_once(tokens[i], '=') {
            Option::Some(_) => sp_plain_args(tokens, i + 1),
            Option::None => seq![tokens[i]] + sp_plain_args(tokens, i + 1),
        }
    }
}

/// The first index at or after `i` that is not a plain space.
pub open spec fn sp_skip_blanks(s: Seq<char>, i: int) -> int
    decreases s.len() - i,
{
    if i < 0 || i >= s.len() {
        s.len() as int
    } else if s[i] == ' ' {
        sp_skip_blanks(s, i + 1)
    } else {
        i
    }
}

/// The first index at or after `i` holding a plain space, or the length.
pub open spec fn sp_blank_end(s: Seq<char>, i: int) -> int
    decreases s.len() - i,
{
    if i < 0 || i >= s.len() {
        s.len() as int
    } else if s[i] == ' ' {
        i
    } else {
        sp_blank_end(s, i + 1)
    }
}

/// Collect a parenthesized parameter value from `i` at nesting `depth`:
/// the text up to the parenthesis that closes the opening one, and the
/// position after it.
pub open spec fn sp_paren_value(s: Seq<char>, i: int, depth: int) -> (Seq<char>, int)
    decreases s.len() - i,
{
    if i < 0 || i >= s.len() {
        (Seq::empty(), s.len() as int)
    } else if s[i] == '(' {
        let r = sp_paren_value(s, i + 1, depth + 1);
        (seq![s[i]] + r.0, r.1)
    } else if s[i] == ')' {
        if depth <= 1 {
            (Seq::empty(), i + 1)
        } else {
            let r = sp_paren_value(s, i + 1, depth - 1);
            (seq![s[i]] + r.0, r.1)
        }
    } else {
        let r = sp_paren_value(s, i + 1, depth);
        (seq![s[i]] + r.0, r.1)
    }
}

/// Parse the translation key at `i`: a quoted string, or a bare token up to
/// the next space. Returns the key and the next position.
pub open spec fn sp_i18n_key(s: Seq<char>, i: int) -> (Seq<char>, int) {
    if 0 <= i < s.len() && s[i] == '"' {
        match spec_find_char(s, '"', i + 1) {
            Option::Some(q) => {
                let q1 = pin(i + 1, s.len() as int, q);
                (s.subrange(i + 1, q1), q1 + 1)
            },
            Option::None => (s.subrange(i + 1, s.len() as int), s.len() as int),
        }
    } else if 0 <= i <= s.len() {
        let e = pin(i, s.len() as int, sp_blank_end(s, i));
        (s.subrange(i, e), e)
    } else {
        (Seq::empty(), s.len() as int)
    }
}

/// Parse `name=value` translation parameters from `i` on; a name without an
/// equals sign is malformed. Values may be quoted, parenthesized helper
/// calls, or bare tokens.
pub open spec fn sp_i18n_params(s: Seq<char>, i: int) -> Result<
    Seq<(Seq<char>, Seq<char>)>,
    Seq<char>,
>
    decreases s.len() - i,
{
    if i < 0 {
        Result::Ok(Seq::empty())
    } else {
        let b = pin(i, s.len() as int, sp_skip_blanks(s, i));
        if b >= s.len() {
            Result::Ok(Seq::empty())
        } else {
            match spec_find_char(s, '=', b) {
                Option::None => Result::Err("Expected '=' in i18n parameter"@),
                Option::Some(j0) => {
                    let j = pin(b, s.len() as int, j0);
                    let name = s.subrange(b, j);
                    if j + 1 < s.len() && s[j + 1] == '(' {
                        let r = sp_paren_value(s, j + 2, 1);
                        let next = pin(j + 2, s.len() as int, r.1);
                        match sp_i18n_params(s, next) {
                            Result::Err(m) => Result::Err(m),
                            Result::Ok(rest) => Result::Ok(seq![(name, r.0)] + rest),
                        }
                    } else if j + 1 < s.len() && s[j + 1] == '"' {
                        match spec_find_char(s, '"', j + 2) {
                            Option::Some(q0) => {
                                let q = pin(j + 2, s.len() as int, q0);
                                let value = s.subrange(j + 2, q);
                                if q + 1 > s.len() {
                                    Result::Ok(seq![(name, value)])
                                } else {
                                    match sp_i18n_params(s, q + 1) {
                                        Result::Err(m) => Result::Err(m),
                                        Result::Ok(rest) => Result::Ok(seq![(name, value)] + rest),
                                    }
                                }
                            },
                            Option::None => {
                                if j + 2 <= s.len() {
                                    Result::Ok(seq![(name, s.subrange(j + 2, s.len() as int))])
                                } else {
                                    Result::Ok(seq![(name, Seq::empty())])
                                }
                            },
                        }
                    } else {
                        let e = pin(j + 1, s.len() as int, sp_blank_end(s, j + 1));
                        if j + 1 > s.len() {
                            Result::Ok(seq![(name, Seq::empty())])
                        } else {
                            let value = s.subrange(j + 1, e);
                            match sp_i18n_params(s, e) {
                                Result::Err(m) => Result::Err(m),
                                Result::Ok(rest) => Result::Ok(seq![(name, value)] + rest),
                            }
                        }
                    }
                },
            }
        }
    }
}

/// Parse a translation expression: the key, then its parameters.
pub open spec fn sp_i18n_node(expr: Seq<char>) -> Result<NodeV, Seq<char>> {
    let b = pin(0, expr.len() as int, sp_skip_blanks(expr, 0));
    let kr = sp_i18n_key(expr, b);
    match sp_i18n_params(expr, kr.1) {
        Result::Err(m) => Result::Err(m),
        Result::Ok(params) => Result::Ok(NodeV::I18n { key: kr.0, params }),
    }
}

/// Parse a whole template source into its node list.
pub open spec fn sp_parse(s: Seq<char>) -> Result<Seq<NodeV>, Seq<char>> {
    match sp_nodes(s, 0, Seq::empty()) {
        Result::Err(m) => Result::Err(m),
        Result::Ok((nodes, _)) => Result::Ok(nodes),
    }
}

pub(crate) fn kv_open() -> (r: Vec<char>)
    ensures
        r@ == kw_open(),
{
    let r = str_to_chars("{{");
    proof {
        reveal_strlit("{{");
        assert(r@ =~= kw_open());
    }
    r
}

pub(crate) fn kv_close() -> (r: Vec<char>)
    ensures
        r@ == kw_close(),
{
    let r = str_to_chars("}}");
    proof {
        reveal_strlit("}}");
        assert(r@ =~= kw_close());
    }
    r
}

fn kv_if() -> (r: Vec<char>)
    ensures
        r@ == kw_if(),
{
    let r = str_to_chars("#if ");
    proof {
        reveal_strlit("#if ");
        assert(r@ =~= kw_if());
    }
    r
}

fn kv_each() -> (r: Vec<char>)
    ensures
        r@ == kw_each(),
{
    let r = str_to_chars("#each ");
    proof {
        reveal_strlit("#each ");
        assert(r@ =~= kw_each());
    }
    r
}

fn kv_switch() -> (r: Vec<char>)
    ensures
        r@ == kw_switch(),
{
    let r = str_to_chars("#switch ");
    proof {
        reveal_strlit("#switch ");
        assert(r@ =~= kw_switch());
    }
    r
}

fn kv_if_locale() -> (r: Vec<char>)
    ensures
        r@ == kw_if_locale(),
{
    let r = str_to_chars("#if_locale ");
    proof {
        reveal_strlit("#if_locale ");
        assert(r@ =~= kw_if_locale());
    }
    r
}

fn kv_include() -> (r: Vec<char>)
    ensures
        r@ == kw_include(),
{
    let r = str_to_chars("> ");
    proof {
        reveal_strlit("> ");
        assert(r@ =~= kw_include());
    }
    r
}

fn kv_i18n() -> (r: Vec<char>)
    ensures
        r@ == kw_i18n(),
{
    let r = str_to_chars("i18n ");
    proof {
        reveal_strlit("i18n ");
        assert(r@ =~= kw_i18n());
    }
    r
}

pub(crate) fn kv_plural() -> (r: Vec<char>)
    ensures
        r@ == kw_plural(),
{
    let r = str_to_chars("plural ");
    proof {
        reveal_strlit("plural ");
        assert(r@ =~= kw_plural());
    }
    r
}

pub(crate) fn kv_format_number() -> (r: Vec<char>)
    ensures
        r@ == kw_format_number(),
{
    let r = str_to_chars("format_number ");
    proof {
        reveal_strlit("format_number ");
        assert(r@ =~= kw_format_number());
    }
    r
}

fn kv_else() -> (r: Vec<char>)
    ensures
        r@ == kw_else(),
{
    let r = str_to_chars("{{else}}");
    proof {
        reveal_strlit("{{else}}");
        assert(r@ =~= kw_else());
    }
    r
}

fn kv_end_if() -> (r: Vec<char>)
    ensures
        r@ == kw_end_if(),
{
    let r = str_to_chars("{{/if}}");
    proof {
        reveal_strlit("{{/if}}");
        assert(r@ =~= kw_end_if());
    }
    r
}

fn kv_end_each() -> (r: Vec<char>)
    ensures
        r@ == kw_end_each(),
{
    let r = str_to_chars("{{/each}}");
    proof {
        reveal_strlit("{{/each}}");
        assert(r@ =~= kw_end_each());
    }
    r
}

fn kv_end_switch() -> (r: Vec<char>)
    ensures
        r@ == kw_end_switch(),
{
    let r = str_to_chars("{{/switch}}");
    proof {
        reveal_strlit("{{/switch}}");
        assert(r@ =~= kw_end_switch());
    }
    r
}

fn kv_case() -> (r: Vec<char>)
    ensures
        r@ == kw_case(),
{
    let r = str_to_chars("{{#case ");
    proof {
        reveal_strlit("{{#case ");
        assert(r@ =~= kw_case());
    }
    r
}

fn kv_end_case() -> (r: Vec<char>)
    ensures
        r@ == kw_end_case(),
{
    let r = str_to_chars("{{/case}}");
    proof {
        reveal_strlit("{{/case}}");
        assert(r@ =~= kw_end_case());
    }
    r
}

fn kv_end_if_locale() -> (r: Vec<char>)
    ensures
        r@ == kw_end_if_locale(),
{
    let r = str_to_chars("{{/if_locale}}");
    proof {
        reveal_strlit("{{/if_locale}}");
        assert(r@ =~= kw_end_if_locale());
    }
    r
}

fn parse_err(msg: &str) -> (r: Error)
    ensures
        err_view(r) == ErrV::TemplateParsing(msg@),
{
    Error::TemplateParsing(String::from_str(msg))
}

/// Is one of `terms` at `pos`?
fn p_at_terminator(s: &Vec<char>, pos: usize, terms: &Vec<Vec<char>>) -> (r: bool)
    ensures
        r == sp_at_terminator(s@, pos as int, strs_view(terms@)),
{
    let mut i: usize = 0;
    while i < terms.len()
        invariant
            i <= terms@.len(),
            forall|j: int| 0 <= j < i ==> !spec_match_at(s@, terms@[j]@, pos as int),
        decreases terms@.len() - i,
    {
        if match_at(s, &terms[i], pos) {
            proof {
                assert(strs_view(terms@)[i as int] == terms@[i as int]@);
            }
            return true;
        }
        i = i + 1;
    }
    proof {
        assert forall|j: int| 0 <= j < strs_view(terms@).len() implies !spec_match_at(
            s@,
            strs_view(terms@)[j],
            pos as int,
        ) by {
            assert(strs_view(terms@)[j] == terms@[j]@);
        }
    }
    false
}

/// Parse nodes until a terminator, the end of input, or a malformed
/// expression; positions only move forward.
pub fn p_nodes(s: &Vec<char>, pos: usize, terms: &Vec<Vec<char>>) -> (r: Result<
    (Vec<TemplateNode>, usize),
    Error,
>)
    requires
        pos <= s@.len(),
    ensures
        ({
            let sp = sp_nodes(s@, pos as int, strs_view(terms@));
            &&& (r is Ok <==> sp is Ok)
            &&& (r is Ok ==> nodes_view(r->Ok_0.0@) == sp->Ok_0.0 && r->Ok_0.1 as int
                == sp->Ok_0.1 && pos <= r->Ok_0.1 <= s@.len())
            &&& (r is Err ==> sp is Err && err_view(r->Err_0) == ErrV::TemplateParsing(
                sp->Err_0,
            ))
        }),
    decreases s@.len() - pos, 3int,
{
    if pos >= s.len() {
        let empty: Vec<TemplateNode> = Vec::new();
        proof {
            assert(nodes_view(empty@) =~= Seq::<NodeV>::empty());
        }
        return Ok((empty, pos));
    }
    if p_at_terminator(s, pos, terms) {
        let empty: Vec<TemplateNode> = Vec::new();
        proof {
            assert(nodes_view(empty@) =~= Seq::<NodeV>::empty());
        }
        return Ok((empty, pos));
    }
    match p_next(s, pos) {
        Err(e) => Err(e),
        Ok((opt, p1)) => match opt {
            None => {
                let empty: Vec<TemplateNode> = Vec::new();
                proof {
                    assert(nodes_view(empty@) =~= Seq::<NodeV>::empty());
                }
                Ok((empty, p1))
            },
            Some(n) => {
                match p_nodes(s, p1, terms) {
                    Err(e) => Err(e),
                    Ok((rest, p3)) => {
                        let ghost nv = node_view(n);
                        let ghost restv = rest@;
                        let mut v: Vec<TemplateNode> = Vec::new();
                        v.push(n);
                        let ghost single = v@;
                        let mut rest = rest;
                        v.append(&mut rest);
                        proof {
                            lemma_nodes_view_concat(single, restv);
                            assert(nodes_view(single) =~= seq![nv] + nodes_view(
                                single.drop_first(),
                            ));
                            assert(single.drop_first() =~= Seq::<TemplateNode>::empty());
                            assert(nodes_view(single) =~= seq![nv]);
                        }
                        Ok((v, p3))
                    },
                }
            },
        },
    }
}

/// Parse the next node at `pos`.
fn p_next(s: &Vec<char>, pos: usize) -> (r: Result<(Option<TemplateNode>, usize), Error>)
    requires
        pos <= s@.len(),
    ensures
        ({
            let sp = sp_next(s@, pos as int);
            &&& (r is Ok <==> sp is Ok)
            &&& (r is Ok ==> {
                &&& (r->Ok_0.0 is Some <==> sp->Ok_0.0 is Some)
                &&& (r->Ok_0.0 is Some ==> node_view(r->Ok_0.0->0) == sp->Ok_0.0->0
                    && r->Ok_0.1 >= pos + 1)
                &&& r->Ok_0.1 as int == sp->Ok_0.1
                &&& pos <= r->Ok_0.1 <= s@.len()
            })
            &&& (r is Err ==> sp is Err && err_view(r->Err_0) == ErrV::TemplateParsing(
                sp->Err_0,
            ))
        }),
    decreases s@.len() - pos, 2int,
{
    if pos >= s.len() {
        return Ok((None, pos));
    }
    let kwo = kv_open();
    proof {
        lemma_find_in_range(s@, kw_open(), pos as int);
    }
    match find_from(s, &kwo, pos) {
        Some(f) => {
            if f > pos {
                let text = copy_range(s, pos, f);
                Ok((Some(TemplateNode::Text(text)), f))
            } else {
                p_expr(s, pos + 2)
            }
        },
        None => {
            let text = copy_range(s, pos, s.len());
            Ok((Some(TemplateNode::Text(text)), s.len()))
        },
    }
}

/// Classify and parse the expression at `pos`, just after the opening
/// braces.
#[verifier::rlimit(80)]
fn p_expr(s: &Vec<char>, pos: usize) -> (r: Result<(Option<TemplateNode>, usize), Error>)
    requires
        pos <= s@.len(),
    ensures
        ({
            let sp = sp_expr(s@, pos as int);
            &&& (r is Ok <==> sp is Ok)
            &&& (r is Ok ==> {
                &&& (r->Ok_0.0 is Some <==> sp->Ok_0.0 is Some)
                &&& (r->Ok_0.0 is Some ==> node_view(r->Ok_0.0->0) == sp->Ok_0.0->0)
                &&& r->Ok_0.1 as int == sp->Ok_0.1
                &&& pos <= r->Ok_0.1 <= s@.len()
            })
            &&& (r is Err ==> sp is Err && err_view(r->Err_0) == ErrV::TemplateParsing(
                sp->Err_0,
            ))
        }),
    decreases s@.len() - pos, 1int,
{
    let kwc = kv_close();
    proof {
        lemma_find_in_range(s@, kw_close(), pos as int);
    }
    match find_from(s, &kwc, pos) {
        None => Err(parse_err("Unclosed template expression")),
        Some(e) => {
            proof {
                assert(s.len() == s@.len());
            }
            let raw = copy_range(s, pos, e);
            let expr = trim_chars(&raw);
            let p = e + 2;
            if match_at(&expr, &kv_if(), 0) {
                let condition = copy_range(&expr, 4, expr.len());
                p_if(s, p, condition)
            } else if match_at(&expr, &kv_each(), 0) {
                let variable = copy_range(&expr, 6, expr.len());
                p_each(s, p, variable)
            } else if match_at(&expr, &kv_switch(), 0) {
                let variable = copy_range(&expr, 8, expr.len());
                match p_switch_cases(s, p) {
                    Err(e) => Err(e),
                    Ok((cases, p2)) => Ok((Some(TemplateNode::Switch { variable, cases }), p2)),
                }
            } else if match_at(&expr, &kv_if_locale(), 0) {
                let locale = strip_quotes(&copy_range(&expr, 11, expr.len()));
                p_if_locale(s, p, locale)
            } else if match_at(&expr, &kv_include(), 0) {
                let inner = copy_range(&expr, 2, expr.len());
                match p_include_node(&inner) {
                    Err(e) => Err(e),
                    Ok(n) => Ok((Some(n), p)),
                }
            } else if match_at(&expr, &kv_i18n(), 0) {
                let inner = copy_range(&expr, 5, expr.len());
                match p_i18n_node(&inner) {
                    Err(e) => Err(e),
                    Ok(n) => Ok((Some(n), p)),
                }
            } else if match_at(&expr, &kv_plural(), 0) || match_at(&expr, &kv_format_number(), 0) {
                match p_helper_node(&expr) {
                    Err(e) => Err(e),
                    Ok(n) => Ok((Some(n), p)),
                }
            } else if contains_char(&expr, '.') {
                let parts = split_from(&expr, '.', 0);
                proof {
                    assert(strs_view(parts@) =~= spec_split_from(expr@, '.', 0));
                }
                Ok((Some(TemplateNode::NestedVariable(parts)), p))
            } else {
                Ok((Some(TemplateNode::Variable(expr)), p))
            }
        },
    }
}

/// Parse a conditional block body.
#[verifier::rlimit(80)]
fn p_if(s: &Vec<char>, pos: usize, condition: Vec<char>) -> (r: Result<
    (Option<TemplateNode>, usize),
    Error,
>)
    requires
        pos <= s@.len(),
    ensures
        ({
            let sp = sp_if(s@, pos as int, condition@);
            &&& (r is Ok <==> sp is Ok)
            &&& (r is Ok ==> {
                &&& (r->Ok_0.0 is Some <==> sp->Ok_0.0 is Some)
                &&& (r->Ok_0.0 is Some ==> node_view(r->Ok_0.0->0) == sp->Ok_0.0->0)
                &&& r->Ok_0.1 as int == sp->Ok_0.1
                &&& pos <= r->Ok_0.1 <= s@.len()
            })
            &&& (r is Err ==> sp is Err && err_view(r->Err_0) == ErrV::TemplateParsing(
                sp->Err_0,
            ))
        }),
    decreases s@.len() - pos, 4int,
{
    let mut terms: Vec<Vec<char>> = Vec::new();
    terms.push(kv_else());
    terms.push(kv_end_if());
    proof {
        assert(strs_view(terms@) =~= seq![kw_else(), kw_end_if()]);
    }
    match p_nodes(s, pos, &terms) {
        Err(e) => Err(e),
        Ok((then_content, p1)) => {
            proof {
                assert(s.len() == s@.len());
            }
            if match_at(s, &kv_else(), p1) {
                let mut terms2: Vec<Vec<char>> = Vec::new();
                terms2.push(kv_end_if());
                proof {
                    assert(strs_view(terms2@) =~= seq![kw_end_if()]);
                }
                match p_nodes(s, p1 + 8, &terms2) {
                    Err(e) => Err(e),
                    Ok((else_content, p2)) => {
                        let p3 = if match_at(s, &kv_end_if(), p2) {
                            p2 + 7
                        } else {
                            p2
                        };
                        Ok(
                            (
                                Some(
                                    TemplateNode::If {
                                        condition,
                                        then_content,
                                        else_content: Some(else_content),
                                    },
                                ),
                                p3,
                            ),
                        )
                    },
                }
            } else {
                let p3 = if match_at(s, &kv_end_if(), p1) {
                    p1 + 7
                } else {
                    p1
                };
                Ok(
                    (
                        Some(TemplateNode::If { condition, then_content, else_content: None }),
                        p3,
                    ),
                )
            }
        },
    }
}

/// Parse a loop block body.
fn p_each(s: &Vec<char>, pos: usize, variable: Vec<char>) -> (r: Result<
    (Option<TemplateNode>, usize),
    Error,
>)
    requires
        pos <= s@.len(),
    ensures
        ({
            let sp = sp_each(s@, pos as int, variable@);
            &&& (r is Ok <==> sp is Ok)
            &&& (r is Ok ==> {
                &&& (r->Ok_0.0 is Some <==> sp->Ok_0.0 is Some)
                &&& (r->Ok_0.0 is Some ==> node_view(r->Ok_0.0->0) == sp->Ok_0.0->0)
                &&& r->Ok_0.1 as int == sp->Ok_0.1
                &&& pos <= r->Ok_0.1 <= s@.len()
            })
            &&& (r is Err ==> sp is Err && err_view(r->Err_0) == ErrV::TemplateParsing(
                sp->Err_0,
            ))
        }),
    decreases s@.len() - pos, 4int,
{
    let mut terms: Vec<Vec<char>> = Vec::new();
    terms.push(kv_end_each());
    proof {
        assert(strs_view(terms@) =~= seq![kw_end_each()]);
    }
    match p_nodes(s, pos, &terms) {
        Err(e) => Err(e),
        Ok((content, p1)) => {
            proof {
                assert(s.len() == s@.len());
            }
            let p2 = if match_at(s, &kv_end_each(), p1) {
                p1 + 9
            } else {
                p1
            };
            Ok((Some(TemplateNode::Each { variable, content }), p2))
        },
    }
}

/// Parse a locale-conditional block body.
#[verifier::rlimit(80)]
fn p_if_locale(s: &Vec<char>, pos: usize, locale: Vec<char>) -> (r: Result<
    (Option<TemplateNode>, usize),
    Error,
>)
    requires
        pos <= s@.len(),
    ensures
        ({
            let sp = sp_if_locale(s@, pos as int, locale@);
            &&& (r is Ok <==> sp is Ok)
            &&& (r is Ok ==> {
                &&& (r->Ok_0.0 is Some <==> sp->Ok_0.0 is Some)
                &&& (r->Ok_0.0 is Some ==> node_view(r->Ok_0.0->0) == sp->Ok_0.0->0)
                &&& r->Ok_0.1 as int == sp->Ok_0.1
                &&& pos <= r->Ok_0.1 <= s@.len()
            })
            &&& (r is Err ==> sp is Err && err_view(r->Err_0) == ErrV::TemplateParsing(
                sp->Err_0,
            ))
        }),
    decreases s@.len() - pos, 4int,
{
    let mut terms: Vec<Vec<char>> = Vec::new();
    terms.push(kv_else());
    terms.push(kv_end_if_locale());
    proof {
        assert(strs_view(terms@) =~= seq![kw_else(), kw_end_if_locale()]);
    }
    match p_nodes(s, pos, &terms) {
        Err(e) => Err(e),
        Ok((then_content, p1)) => {
            proof {
                assert(s.len() == s@.len());
            }
            if match_at(s, &kv_else(), p1) {
                let mut terms2: Vec<Vec<char>> = Vec::new();
                terms2.push(kv_end_if_locale());
                proof {
                    assert(strs_view(terms2@) =~= seq![kw_end_if_locale()]);
                }
                match p_nodes(s, p1 + 8, &terms2) {
                    Err(e) => Err(e),
                    Ok((else_content, p2)) => {
                        let p3 = if match_at(s, &kv_end_if_locale(), p2) {
                            p2 + 14
                        } else {
                            p2
                        };
                        Ok(
                            (
                                Some(
                                    TemplateNode::IfLocale {
                                        locale,
                                        then_content,
                                        else_content: Some(else_content),
                                    },
                                ),
                                p3,
                            ),
                        )
                    },
                }
            } else {
                let p3 = if match_at(s, &kv_end_if_locale(), p1) {
                    p1 + 14
                } else {
                    p1
                };
                Ok(
                    (
                        Some(
                            TemplateNode::IfLocale { locale, then_content, else_content: None },
                        ),
                        p3,
                    ),
                )
            }
        },
    }
}

/// Scan case arms until the switch closer.
#[verifier::rlimit(80)]
fn p_switch_cases(s: &Vec<char>, pos: usize) -> (r: Result<
    (Vec<(Vec<char>, Vec<TemplateNode>)>, usize),
    Error,
>)
    requires
        pos <= s@.len(),
    ensures
        ({
            let sp = sp_switch_cases(s@, pos as int);
            &&& (r is Ok <==> sp is Ok)
            &&& (r is Ok ==> cases_view(r->Ok_0.0@) == sp->Ok_0.0 && r->Ok_0.1 as int
                == sp->Ok_0.1 && pos <= r->Ok_0.1 <= s@.len())
            &&& (r is Err ==> sp is Err && err_view(r->Err_0) == ErrV::TemplateParsing(
                sp->Err_0,
            ))
        }),
    decreases s@.len() - pos, 4int,
{
    if pos >= s.len() {
        let empty: Vec<(Vec<char>, Vec<TemplateNode>)> = Vec::new();
        proof {
            assert(cases_view(empty@) =~= Seq::<(Seq<char>, Seq<NodeV>)>::empty());
        }
        return Ok((empty, pos));
    }
    if match_at(s, &kv_end_switch(), pos) {
        let empty: Vec<(Vec<char>, Vec<TemplateNode>)> = Vec::new();
        proof {
            assert(cases_view(empty@) =~= Seq::<(Seq<char>, Seq<NodeV>)>::empty());
        }
        return Ok((empty, pos + 11));
    }
    proof {
        lemma_find_in_range(s@, kw_case(), pos as int);
    }
    match find_from(s, &kv_case(), pos) {
        None => p_switch_cases(s, pos + 1),
        Some(c) => {
            let p1 = c + 8;
            proof {
                lemma_find_in_range(s@, kw_close(), p1 as int);
            }
            match find_from(s, &kv_close(), p1) {
                None => {
                    let empty: Vec<(Vec<char>, Vec<TemplateNode>)> = Vec::new();
                    proof {
                        assert(cases_view(empty@) =~= Seq::<(Seq<char>, Seq<NodeV>)>::empty());
                    }
                    Ok((empty, p1))
                },
                Some(e) => {
                    let value = strip_quotes(&trim_chars(&copy_range(s, p1, e)));
                    let p2 = e + 2;
                    let mut terms: Vec<Vec<char>> = Vec::new();
                    terms.push(kv_end_case());
                    proof {
                        assert(strs_view(terms@) =~= seq![kw_end_case()]);
                    }
                    match p_nodes(s, p2, &terms) {
                        Err(e) => Err(e),
                        Ok((content, p3)) => {
                            proof {
                                assert(s.len() == s@.len());
                            }
                            let p4 = if match_at(s, &kv_end_case(), p3) {
                                p3 + 9
                            } else {
                                p3
                            };
                            match p_switch_cases(s, p4) {
                                Err(e) => Err(e),
                                Ok((rest, p5)) => {
                                    let ghost cv = (value@, nodes_view(content@));
                                    let ghost restv = rest@;
                                    let mut v: Vec<(Vec<char>, Vec<TemplateNode>)> = Vec::new();
                                    v.push((value, content));
                                    let ghost single = v@;
                                    let mut rest = rest;
                                    v.append(&mut rest);
                                    proof {
                                        lemma_cases_view_concat(single, restv);
                                        assert(cases_view(single) =~= seq![cv] + cases_view(
                                            single.drop_first(),
                                        ));
                                        assert(single.drop_first() =~= Seq::<
                                            (Vec<char>, Vec<TemplateNode>),
                                        >::empty());
                                        assert(cases_view(single) =~= seq![cv]);
                                    }
                                    Ok((v, p5))
                                },
                            }
                        },
                    }
                },
            }
        },
    }
}

/// Parse an include expression into its node.
fn p_include_node(expr: &Vec<char>) -> (r: Result<TemplateNode, Error>)
    ensures
        ({
            let sp = sp_include_node(expr@);
            &&& (r is Ok <==> sp is Ok)
            &&& (r is Ok ==> node_view(r->Ok_0) == sp->Ok_0)
            &&& (r is Err ==> sp is Err && err_view(r->Err_0) == ErrV::TemplateParsing(
                sp->Err_0,
            ))
        }),
{
    let tokens = tokens_of(expr);
    let ghost tv = spec_tokens_from(expr@, 0);
    if tokens.len() == 0 {
        return Err(parse_err("Empty include expression"));
    }
    let mut path: Vec<char> = Vec::new();
    crate::value::push_chars(&mut path, &tokens[0]);
    proof {
        assert(path@ =~= tv[0]);
    }
    let mut params: Vec<(Vec<char>, Vec<char>)> = Vec::new();
    let mut i: usize = 1;
    while i < tokens.len()
        invariant
            1 <= i <= tokens@.len(),
            tokens@.len() == tv.len(),
            forall|k: int| 0 <= k < tv.len() ==> tokens@[k]@ == tv[k],
            sp_eq_params(tv.skip(1), 0) == pairs_view(params@) + sp_eq_params(
                tv.skip(1),
                i - 1,
            ),
        decreases tokens@.len() - i,
    {
        let ghost pre = params@;
        match split_once_at(&tokens[i], '=') {
            Some((name, value)) => {
                proof {
                    assert(tv.skip(1)[i - 1] == tv[i as int]);
                }
                params.push((name, value));
                proof {
                    assert(pairs_view(params@) =~= pairs_view(pre).push(
                        spec_split_once(tv[i as int], '=').unwrap(),
                    ));
                    assert(pairs_view(pre).push(spec_split_once(tv[i as int], '=').unwrap())
                        =~= pairs_view(pre) + seq![
                        spec_split_once(tv[i as int], '=').unwrap(),
                    ]);
                }
            },
            None => {
                proof {
                    assert(tv.skip(1)[i - 1] == tv[i as int]);
                }
            },
        }
        i = i + 1;
    }
    proof {
        assert(sp_eq_params(tv.skip(1), i - 1) =~= Seq::<(Seq<char>, Seq<char>)>::empty());
        assert(pairs_view(params@) =~= pairs_view(params@) + Seq::<
            (Seq<char>, Seq<char>),
        >::empty());
    }
    Ok(TemplateNode::Include { path, params })
}

/// Parse a helper expression into its node.
fn p_helper_node(expr: &Vec<char>) -> (r: Result<TemplateNode, Error>)
    ensures
        ({
            let sp = sp_helper_node(expr@);
            &&& (r is Ok <==> sp is Ok)
            &&& (r is Ok ==> node_view(r->Ok_0) == sp->Ok_0)
            &&& (r is Err ==> sp is Err && err_view(r->Err_0) == ErrV::TemplateParsing(
                sp->Err_0,
            ))
        }),
{
    let tokens = tokens_of(expr);
    let ghost tv = spec_tokens_from(expr@, 0);
    if tokens.len() == 0 {
        return Err(parse_err("Empty helper expression"));
    }
    let mut name: Vec<char> = Vec::new();
    crate::value::push_chars(&mut name, &tokens[0]);
    proof {
        assert(name@ =~= tv[0]);
    }
    let mut args: Vec<Vec<char>> = Vec::new();
    let mut params: Vec<(Vec<char>, Vec<char>)> = Vec::new();
    let mut i: usize = 1;
    while i < tokens.len()
        invariant
            1 <= i <= tokens@.len(),
            tokens@.len() == tv.len(),
            forall|k: int| 0 <= k < tv.len() ==> tokens@[k]@ == tv[k],
            sp_eq_params(tv.skip(1), 0) == pairs_view(params@) + sp_eq_params(
                tv.skip(1),
                i - 1,
            ),
            sp_plain_args(tv.skip(1), 0) == strs_view(args@) + sp_plain_args(
                tv.skip(1),
                i - 1,
            ),
        decreases tokens@.len() - i,
    {
        let ghost prep = params@;
        let ghost prea = args@;
        proof {
            assert(tv.skip(1)[i - 1] == tv[i as int]);
        }
        match split_once_at(&tokens[i], '=') {
            Some((pname, pvalue)) => {
                params.push((pname, pvalue));
                proof {
                    assert(pairs_view(params@) =~= pairs_view(prep) + seq![
                        spec_split_once(tv[i as int], '=').unwrap(),
                    ]);
                }
            },
            None => {
                let mut arg: Vec<char> = Vec::new();
                crate::value::push_chars(&mut arg, &tokens[i]);
                args.push(arg);
                proof {
                    assert(strs_view(args@) =~= strs_view(prea) + seq![tv[i as int]]);
                }
            },
        }
        i = i + 1;
    }
    proof {
        assert(sp_eq_params(tv.skip(1), i - 1) =~= Seq::<(Seq<char>, Seq<char>)>::empty());
        assert(sp_plain_args(tv.skip(1), i - 1) =~= Seq::<Seq<char>>::empty());
        assert(pairs_view(params@) =~= pairs_view(params@) + Seq::<
            (Seq<char>, Seq<char>),
        >::empty());
        assert(strs_view(args@) =~= strs_view(args@) + Seq::<Seq<char>>::empty());
    }
    Ok(TemplateNode::Helper { name, args, params })
}

fn p_skip_blanks(s: &Vec<char>, i: usize) -> (r: usize)
    requires
        i <= s@.len(),
    ensures
        r as int == sp_skip_blanks(s@, i as int),
        i <= r <= s@.len(),
{
    let mut b: usize = i;
    while b < s.len() && s[b] == ' '
        invariant
            i <= b <= s@.len(),
            sp_skip_blanks(s@, i as int) == sp_skip_blanks(s@, b as int),
        decreases s@.len() - b,
    {
        b = b + 1;
    }
    b
}

fn p_blank_end(s: &Vec<char>, i: usize) -> (r: usize)
    requires
        i <= s@.len(),
    ensures
        r as int == sp_blank_end(s@, i as int),
        i <= r <= s@.len(),
{
    let mut b: usize = i;
    while b < s.len() && s[b] != ' '
        invariant
            i <= b <= s@.len(),
            sp_blank_end(s@, i as int) == sp_blank_end(s@, b as int),
        decreases s@.len() - b,
    {
        b = b + 1;
    }
    b
}

fn p_paren_value(s: &Vec<char>, i: usize, depth: u128) -> (r: (Vec<char>, usize))
    requires
        i <= s@.len(),
        depth <= i + 1,
    ensures
        r.0@ == sp_paren_value(s@, i as int, depth as int).0,
        r.1 as int == sp_paren_value(s@, i as int, depth as int).1,
        i <= r.1 <= s@.len(),
    decreases s@.len() - i,
{
    if i >= s.len() {
        return (Vec::new(), s.len());
    }
    let c = s[i];
    if c == '(' {
        let rest = p_paren_value(s, i + 1, depth + 1);
        let mut v: Vec<char> = Vec::new();
        v.push(c);
        crate::value::push_chars(&mut v, &rest.0);
        proof {
            assert(v@ =~= seq![s@[i as int]] + rest.0@);
        }
        (v, rest.1)
    } else if c == ')' {
        if depth <= 1 {
            (Vec::new(), i + 1)
        } else {
            let rest = p_paren_value(s, i + 1, depth - 1);
            let mut v: Vec<char> = Vec::new();
            v.push(c);
            crate::value::push_chars(&mut v, &rest.0);
            proof {
                assert(v@ =~= seq![s@[i as int]] + rest.0@);
            }
            (v, rest.1)
        }
    } else {
        let rest = p_paren_value(s, i + 1, depth);
        let mut v: Vec<char> = Vec::new();
        v.push(c);
        crate::value::push_chars(&mut v, &rest.0);
        proof {
            assert(v@ =~= seq![s@[i as int]] + rest.0@);
        }
        (v, rest.1)
    }
}

fn p_i18n_key(s: &Vec<char>, i: usize) -> (r: (Vec<char>, usize))
    requires
        i <= s@.len(),
    ensures
        r.0@ == sp_i18n_key(s@, i as int).0,
        r.1 as int == sp_i18n_key(s@, i as int).1,
        r.1 <= s@.len() + 1,
{
    if i < s.len() && s[i] == '"' {
        proof {
            lemma_find_char_in_range(s@, '"', i + 1);
        }
        match find_char_from_local(s, '"', i + 1) {
            Some(q) => (copy_range(s, i + 1, q), q + 1),
            None => (copy_range(s, i + 1, s.len()), s.len()),
        }
    } else {
        let e = p_blank_end(s, i);
        (copy_range(s, i, e), e)
    }
}

fn find_char_from_local(s: &Vec<char>, c: char, from: usize) -> (r: Option<usize>)
    ensures
        match spec_find_char(s@, c, from as int) {
            Option::Some(j) => r.is_some() && r.unwrap() as int == j && 0 <= j < s@.len(),
            Option::None => r.is_none(),
        },
{
    crate::chars::find_char_from(s, c, from)
}

fn p_i18n_params(s: &Vec<char>, i: usize) -> (r: Result<Vec<(Vec<char>, Vec<char>)>, Error>)
    requires
        i <= s@.len() + 1,
    ensures
        ({
            let sp = sp_i18n_params(s@, i as int);
            &&& (r is Ok <==> sp is Ok)
            &&& (r is Ok ==> pairs_view(r->Ok_0@) == sp->Ok_0)
            &&& (r is Err ==> sp is Err && err_view(r->Err_0) == ErrV::TemplateParsing(
                sp->Err_0,
            ))
        }),
    decreases s@.len() + 1 - i,
{
    let start = if i > s.len() {
        s.len()
    } else {
        i
    };
    proof {
        if i > s@.len() {
            assert(sp_skip_blanks(s@, i as int) == s@.len() as int);
            assert(sp_i18n_params(s@, i as int) == sp_i18n_params(s@, s@.len() as int)) by {
                assert(pin(i as int, s@.len() as int, sp_skip_blanks(s@, i as int))
                    >= s@.len());
                assert(pin(s@.len() as int, s@.len() as int, sp_skip_blanks(
                    s@,
                    s@.len() as int,
                )) >= s@.len());
            }
        }
    }
    let b = p_skip_blanks(s, start);
    if b >= s.len() {
        let empty: Vec<(Vec<char>, Vec<char>)> = Vec::new();
        proof {
            assert(pairs_view(empty@) =~= Seq::<(Seq<char>, Seq<char>)>::empty());
        }
        return Ok(empty);
    }
    proof {
        lemma_find_char_in_range(s@, '=', b as int);
    }
    match find_char_from_local(s, '=', b) {
        None => Err(parse_err("Expected '=' in i18n parameter")),
        Some(j) => {
            let name = copy_range(s, b, j);
            if j + 1 < s.len() && s[j + 1] == '(' {
                let rv = p_paren_value(s, j + 2, 1);
                match p_i18n_params(s, rv.1) {
                    Err(e) => Err(e),
                    Ok(rest) => {
                        let ghost pv = (name@, rv.0@);
                        let ghost restv = rest@;
                        let mut v: Vec<(Vec<char>, Vec<char>)> = Vec::new();
                        v.push((name, rv.0));
                        let mut rest = rest;
                        v.append(&mut rest);
                        proof {
                            assert(pairs_view(v@) =~= seq![pv] + pairs_view(restv));
                        }
                        Ok(v)
                    },
                }
            } else if j + 1 < s.len() && s[j + 1] == '"' {
                proof {
                    lemma_find_char_in_range(s@, '"', j + 2);
                }
                match find_char_from_local(s, '"', j + 2) {
                    Some(q) => {
                        let value = copy_range(s, j + 2, q);
                        match p_i18n_params(s, q + 1) {
                            Err(e) => Err(e),
                            Ok(rest) => {
                                let ghost pv = (name@, value@);
                                let ghost restv = rest@;
                                let mut v: Vec<(Vec<char>, Vec<char>)> = Vec::new();
                                v.push((name, value));
                                let mut rest = rest;
                                v.append(&mut rest);
                                proof {
                                    assert(pairs_view(v@) =~= seq![pv] + pairs_view(restv));
                                }
                                Ok(v)
                            },
                        }
                    },
                    None => {
                        let value = copy_range(s, j + 2, s.len());
                        let mut v: Vec<(Vec<char>, Vec<char>)> = Vec::new();
                        v.push((name, value));
                        proof {
                            assert(pairs_view(v@) =~= sp_i18n_params(s@, i as int)->Ok_0);
                        }
                        Ok(v)
                    },
                }
            } else {
                let e = p_blank_end(s, j + 1);
                let value = copy_range(s, j + 1, e);
                match p_i18n_params(s, e) {
                    Err(er) => Err(er),
                    Ok(rest) => {
                        let ghost pv = (name@, value@);
                        let ghost restv = rest@;
                        let mut v: Vec<(Vec<char>, Vec<char>)> = Vec::new();
                        v.push((name, value));
                        let mut rest = rest;
                        v.append(&mut rest);
                        proof {
                            assert(pairs_view(v@) =~= seq![pv] + pairs_view(restv));
                        }
                        Ok(v)
                    },
                }
            }
        },
    }
}

/// Parse a translation expression into its node.
fn p_i18n_node(expr: &Vec<char>) -> (r: Result<TemplateNode, Error>)
    ensures
        ({
            let sp = sp_i18n_node(expr@);
            &&& (r is Ok <==> sp is Ok)
            &&& (r is Ok ==> node_view(r->Ok_0) == sp->Ok_0)
            &&& (r is Err ==> sp is Err && err_view(r->Err_0) == ErrV::TemplateParsing(
                sp->Err_0,
            ))
        }),
{
    let b = p_skip_blanks(expr, 0);
    let kr = p_i18n_key(expr, b);
    match p_i18n_params(expr, kr.1) {
        Err(e) => Err(e),
        Ok(params) => Ok(TemplateNode::I18n { key: kr.0, params }),
    }
}

/// Parse a whole template source.
pub fn parse_chars(s: &Vec<char>) -> (r: Result<Vec<TemplateNode>, Error>)
    ensures
        ({
            let sp = sp_parse(s@);
            &&& (r is Ok <==> sp is Ok)
            &&& (r is Ok ==> nodes_view(r->Ok_0@) == sp->Ok_0)
            &&& (r is Err ==> sp is Err && err_view(r->Err_0) == ErrV::TemplateParsing(
                sp->Err_0,
            ))
        }),
{
    let terms: Vec<Vec<char>> = Vec::new();
    proof {
        assert(strs_view(terms@) =~= Seq::<Seq<char>>::empty());
    }
    match p_nodes(s, 0, &terms) {
        Err(e) => Err(e),
        Ok((nodes, _)) => Ok(nodes),
    }
}

/// The template parser: source characters and a scan position.
#[derive(Debug)]
pub struct TemplateParser {
    pub content: Vec<char>,
    pub position: usize,
}

impl TemplateParser {
    /// A parser over `content`, positioned at its start.
    pub fn new(content: &str) -> (r: TemplateParser)
        ensures
            r.content@ == content@,
            r.position == 0,
    {
        TemplateParser { content: str_to_chars(content), position: 0 }
    }

    /// Parse the whole source into its node list; afterwards the position
    /// rests at the end of the input.
    pub fn parse(&mut self) -> (r: Result<Vec<TemplateNode>, Error>)
        ensures
            final(self).content == old(self).content,
            ({
                let sp = sp_parse(old(self).content@);
                &&& (r is Ok <==> sp is Ok)
                &&& (r is Ok ==> nodes_view(r->Ok_0@) == sp->Ok_0)
                &&& (r is Err ==> sp is Err && err_view(r->Err_0) == ErrV::TemplateParsing(
                    sp->Err_0,
                ))
            }),
    {
        let r = parse_chars(&self.content);
        self.position = self.content.len();
        r
    }
}

} // verus!
