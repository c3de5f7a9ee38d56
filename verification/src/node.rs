//! The abstract syntax tree of a template: the closed set of node variants
//! the parser produces and the executor walks, with their models.

use vstd::prelude::*;

verus! {

/// The model of a [`TemplateNode`].
#[verifier::ext_equal]
pub enum NodeV {
    Text(Seq<char>),
    Variable(Seq<char>),
    NestedVariable(Seq<Seq<char>>),
    If { condition: Seq<char>, then_content: Seq<NodeV>, else_content: Option<Seq<NodeV>> },
    Each { variable: Seq<char>, content: Seq<NodeV> },
    Switch { variable: Seq<char>, cases: Seq<(Seq<char>, Seq<NodeV>)> },
    Case { value: Seq<char>, content: Seq<NodeV> },
    IfLocale { locale: Seq<char>, then_content: Seq<NodeV>, else_content: Option<Seq<NodeV>> },
    Include { path: Seq<char>, params: Seq<(Seq<char>, Seq<char>)> },
    I18n { key: Seq<char>, params: Seq<(Seq<char>, Seq<char>)> },
    Helper { name: Seq<char>, args: Seq<Seq<char>>, params: Seq<(Seq<char>, Seq<char>)> },
}

/// One node of a parsed template.
#[derive(Debug)]
pub enum TemplateNode {
    /// Plain text emitted verbatim.
    Text(Vec<char>),
    /// Variable substitution.
    Variable(Vec<char>),
    /// Dotted-path substitution through nested objects.
    NestedVariable(Vec<Vec<char>>),
    /// Conditional block with an optional else arm.
    If {
        condition: Vec<char>,
        then_content: Vec<TemplateNode>,
        else_content: Option<Vec<TemplateNode>>,
    },
    /// Loop over the elements of an array variable.
    Each { variable: Vec<char>, content: Vec<TemplateNode> },
    /// Multi-way branch on the text of a variable.
    Switch { variable: Vec<char>, cases: Vec<(Vec<char>, Vec<TemplateNode>)> },
    /// A case arm; only ever rendered as part of a switch.
    Case { value: Vec<char>, content: Vec<TemplateNode> },
    /// Branch on the active locale rather than a variable.
    IfLocale {
        locale: Vec<char>,
        then_content: Vec<TemplateNode>,
        else_content: Option<Vec<TemplateNode>>,
    },
    /// Cross-file inclusion with named parameters.
    Include { path: Vec<char>, params: Vec<(Vec<char>, Vec<char>)> },
    /// Translation lookup with named parameters.
    I18n { key: Vec<char>, params: Vec<(Vec<char>, Vec<char>)> },
    /// Formatting helper call with positional and named arguments.
    Helper { name: Vec<char>, args: Vec<Vec<char>>, params: Vec<(Vec<char>, Vec<char>)> },
}

/// Model of a list of name-value text pairs.
pub open spec fn pairs_view(s: Seq<(Vec<char>, Vec<char>)>) -> Seq<(Seq<char>, Seq<char>)> {
    Seq::new(s.len(), |i: int| (s[i].0@, s[i].1@))
}

/// Model of a list of texts.
pub open spec fn strs_view(s: Seq<Vec<char>>) -> Seq<Seq<char>> {
    Seq::new(s.len(), |i: int| s[i]@)
}

/// Model of a list of nodes.
pub open spec fn nodes_view(s: Seq<TemplateNode>) -> Seq<NodeV>
    decreases s,
{
    if s.len() == 0 {
        Seq::empty()
    } else {
        seq![node_view(s[0])] + nodes_view(s.drop_first())
    }
}

/// Model of an optional else arm.
pub open spec fn opt_nodes_view(s: Option<Vec<TemplateNode>>) -> Option<Seq<NodeV>>
    decreases s,
{
    match s {
        Option::None => Option::None,
        Option::Some(v) => Option::Some(nodes_view(v@)),
    }
}

/// Model of a list of switch cases.
pub open spec fn cases_view(s: Seq<(Vec<char>, Vec<TemplateNode>)>) -> Seq<(Seq<char>, Seq<NodeV>)>
    decreases s,
{
    if s.len() == 0 {
        Seq::empty()
    } else {
        seq![(s[0].0@, nodes_view(s[0].1@))] + cases_view(s.drop_first())
    }
}

/// Model of a single node.
pub open spec fn node_view(n: TemplateNode) -> NodeV
    decreases n,
{
    match n {
        TemplateNode::Text(t) => NodeV::Text(t@),
        TemplateNode::Variable(v) => NodeV::Variable(v@),
        TemplateNode::NestedVariable(p) => NodeV::NestedVariable(strs_view(p@)),
        TemplateNode::If { condition, then_content, else_content } => NodeV::If {
            condition: condition@,
            then_content: nodes_view(then_content@),
            else_content: opt_nodes_view(else_content),
        },
        TemplateNode::Each { variable, content } => NodeV::Each {
            variable: variable@,
            content: nodes_view(content@),
        },
        TemplateNode::Switch { variable, cases } => NodeV::Switch {
            variable: variable@,
            cases: cases_view(cases@),
        },
        TemplateNode::Case { value, content } => NodeV::Case {
            value: value@,
            content: nodes_view(content@),
        },
        TemplateNode::IfLocale { locale, then_content, else_content } => NodeV::IfLocale {
            locale: locale@,
            then_content: nodes_view(then_content@),
            else_content: opt_nodes_view(else_content),
        },
        TemplateNode::Include { path, params } => NodeV::Include {
            path: path@,
            params: pairs_view(params@),
        },
        TemplateNode::I18n { key, params } => NodeV::I18n { key: key@, params: pairs_view(params@) },
        TemplateNode::Helper { name, args, params } => NodeV::Helper {
            name: name@,
            args: strs_view(args@),
            params: pairs_view(params@),
        },
    }
}

impl View for TemplateNode {
    type V = NodeV;

    open spec fn view(&self) -> NodeV {
        node_view(*self)
    }
}

pub proof fn lemma_nodes_view_len(s: Seq<TemplateNode>)
    ensures
        nodes_view(s).len() == s.len(),
    decreases s,
{
    if s.len() > 0 {
        lemma_nodes_view_len(s.drop_first());
    }
}

pub proof fn lemma_nodes_view_index(s: Seq<TemplateNode>, i: int)
    requires
        0 <= i < s.len(),
    ensures
        nodes_view(s).len() == s.len(),
        nodes_view(s)[i] == node_view(s[i]),
    decreases s,
{
    lemma_nodes_view_len(s);
    if i > 0 {
        lemma_nodes_view_index(s.drop_first(), i - 1);
    }
}

pub proof fn lemma_cases_view_len(s: Seq<(Vec<char>, Vec<TemplateNode>)>)
    ensures
        cases_view(s).len() == s.len(),
    decreases s,
{
    if s.len() > 0 {
        lemma_cases_view_len(s.drop_first());
    }
}

pub proof fn lemma_cases_view_index(s: Seq<(Vec<char>, Vec<TemplateNode>)>, i: int)
    requires
        0 <= i < s.len(),
    ensures
        cases_view(s).len() == s.len(),
        cases_view(s)[i] == (s[i].0@, nodes_view(s[i].1@)),
    decreases s,
{
    lemma_cases_view_len(s);
    if i > 0 {
        lemma_cases_view_index(s.drop_first(), i - 1);
    }
}

pub proof fn lemma_nodes_view_push(s: Seq<TemplateNode>, n: TemplateNode)
    ensures
        nodes_view(s.push(n)) == nodes_view(s).push(node_view(n)),
    decreases s,
{
    lemma_nodes_view_len(s);
    lemma_nodes_view_len(s.push(n));
    assert forall|i: int| 0 <= i < s.len() + 1 implies nodes_view(s.push(n))[i] == nodes_view(
        s,
    ).push(node_view(n))[i] by {
        lemma_nodes_view_index(s.push(n), i);
        if i < s.len() {
            lemma_nodes_view_index(s, i);
            assert(s.push(n)[i] == s[i]);
        } else {
            assert(s.push(n)[i] == n);
        }
    }
    assert(nodes_view(s.push(n)) =~= nodes_view(s).push(node_view(n)));
}

pub proof fn lemma_cases_view_push(
    s: Seq<(Vec<char>, Vec<TemplateNode>)>,
    c: (Vec<char>, Vec<TemplateNode>),
)
    ensures
        cases_view(s.push(c)) == cases_view(s).push((c.0@, nodes_view(c.1@))),
    decreases s,
{
    lemma_cases_view_len(s);
    lemma_cases_view_len(s.push(c));
    assert forall|i: int| 0 <= i < s.len() + 1 implies cases_view(s.push(c))[i] == cases_view(
        s,
    ).push((c.0@, nodes_view(c.1@)))[i] by {
        lemma_cases_view_index(s.push(c), i);
        if i < s.len() {
            lemma_cases_view_index(s, i);
            assert(s.push(c)[i] == s[i]);
        } else {
            assert(s.push(c)[i] == c);
        }
    }
    assert(cases_view(s.push(c)) =~= cases_view(s).push((c.0@, nodes_view(c.1@))));
}

pub proof fn lemma_nodes_view_concat(a: Seq<TemplateNode>, b: Seq<TemplateNode>)
    ensures
        nodes_view(a + b) == nodes_view(a) + nodes_view(b),
{
    lemma_nodes_view_len(a);
    lemma_nodes_view_len(b);
    lemma_nodes_view_len(a + b);
    assert forall|i: int| 0 <= i < a.len() + b.len() implies nodes_view(a + b)[i] == (nodes_view(a)
        + nodes_view(b))[i] by {
        lemma_nodes_view_index(a + b, i);
        if i < a.len() {
            lemma_nodes_view_index(a, i);
            assert((a + b)[i] == a[i]);
        } else {
            lemma_nodes_view_index(b, i - a.len());
            assert((a + b)[i] == b[i - a.len()]);
        }
    }
    assert(nodes_view(a + b) =~= nodes_view(a) + nodes_view(b));
}

pub proof fn lemma_cases_view_concat(
    a: Seq<(Vec<char>, Vec<TemplateNode>)>,
    b: Seq<(Vec<char>, Vec<TemplateNode>)>,
)
    ensures
        cases_view(a + b) == cases_view(a) + cases_view(b),
{
    lemma_cases_view_len(a);
    lemma_cases_view_len(b);
    lemma_cases_view_len(a + b);
    assert forall|i: int| 0 <= i < a.len() + b.len() implies cases_view(a + b)[i] == (cases_view(a)
        + cases_view(b))[i] by {
        lemma_cases_view_index(a + b, i);
        if i < a.len() {
            lemma_cases_view_index(a, i);
            assert((a + b)[i] == a[i]);
        } else {
            lemma_cases_view_index(b, i - a.len());
            assert((a + b)[i] == b[i - a.len()]);
        }
    }
    assert(cases_view(a + b) =~= cases_view(a) + cases_view(b));
}

/// Copy a list of nodes; the copy has the same model.
pub fn nodes_clone(s: &Vec<TemplateNode>) -> (r: Vec<TemplateNode>)
    ensures
        nodes_view(r@) == nodes_view(s@),
    decreases s@,
{
    let mut out: Vec<TemplateNode> = Vec::new();
    let mut i: usize = 0;
    while i < s.len()
        invariant
            i <= s@.len(),
            out@.len() == i,
            forall|j: int| 0 <= j < i ==> node_view(out@[j]) == node_view(s@[j]),
        decreases s@.len() - i,
    {
        proof {
            vstd::std_specs::vec::axiom_vec_index_decreases(*s, i as int);
        }
        out.push(node_clone(&s[i]));
        i = i + 1;
    }
    proof {
        lemma_nodes_view_len(out@);
        lemma_nodes_view_len(s@);
        assert forall|j: int| 0 <= j < s@.len() implies nodes_view(out@)[j] == nodes_view(
            s@,
        )[j] by {
            lemma_nodes_view_index(out@, j);
            lemma_nodes_view_index(s@, j);
        }
        assert(nodes_view(out@) =~= nodes_view(s@));
    }
    out
}

fn chars_copy(s: &Vec<char>) -> (r: Vec<char>)
    ensures
        r@ == s@,
{
    let mut out: Vec<char> = Vec::new();
    crate::value::push_chars(&mut out, s);
    proof {
        assert(out@ =~= s@);
    }
    out
}

fn strs_clone(s: &Vec<Vec<char>>) -> (r: Vec<Vec<char>>)
    ensures
        strs_view(r@) == strs_view(s@),
{
    let mut out: Vec<Vec<char>> = Vec::new();
    let mut i: usize = 0;
    while i < s.len()
        invariant
            i <= s@.len(),
            out@.len() == i,
            forall|j: int| 0 <= j < i ==> out@[j]@ == s@[j]@,
        decreases s@.len() - i,
    {
        out.push(chars_copy(&s[i]));
        i = i + 1;
    }
    proof {
        assert(strs_view(out@) =~= strs_view(s@));
    }
    out
}

fn pairs_clone(s: &Vec<(Vec<char>, Vec<char>)>) -> (r: Vec<(Vec<char>, Vec<char>)>)
    ensures
        pairs_view(r@) == pairs_view(s@),
{
    let mut out: Vec<(Vec<char>, Vec<char>)> = Vec::new();
    let mut i: usize = 0;
    while i < s.len()
        invariant
            i <= s@.len(),
            out@.len() == i,
            forall|j: int| 0 <= j < i ==> out@[j].0@ == s@[j].0@ && out@[j].1@ == s@[j].1@,
        decreases s@.len() - i,
    {
        out.push((chars_copy(&s[i].0), chars_copy(&s[i].1)));
        i = i + 1;
    }
    proof {
        assert(pairs_view(out@) =~= pairs_view(s@));
    }
    out
}

/// Copy one node; the copy has the same model.
pub fn node_clone(n: &TemplateNode) -> (r: TemplateNode)
    ensures
        node_view(r) == node_view(*n),
    decreases *n,
{
    match n {
        TemplateNode::Text(t) => TemplateNode::Text(chars_copy(t)),
        TemplateNode::Variable(v) => TemplateNode::Variable(chars_copy(v)),
        TemplateNode::NestedVariable(p) => TemplateNode::NestedVariable(strs_clone(p)),
        TemplateNode::If { condition, then_content, else_content } => {
            proof {
                assert(decreases_to!(*n => n->If_then_content));
                assert(decreases_to!(*n => n->If_else_content));
            }
            let ec = match else_content {
                Some(e) => Some(nodes_clone(e)),
                None => None,
            };
            TemplateNode::If {
                condition: chars_copy(condition),
                then_content: nodes_clone(then_content),
                else_content: ec,
            }
        },
        TemplateNode::Each { variable, content } => {
            proof {
                assert(decreases_to!(*n => n->Each_content));
            }
            TemplateNode::Each { variable: chars_copy(variable), content: nodes_clone(content) }
        },
        TemplateNode::Switch { variable, cases } => {
            let mut cs: Vec<(Vec<char>, Vec<TemplateNode>)> = Vec::new();
            let mut i: usize = 0;
            while i < cases.len()
                invariant
                    i <= cases@.len(),
                    cs@.len() == i,
                    n->Switch_cases == *cases,
                    *n matches TemplateNode::Switch { .. },
                    forall|j: int|
                        0 <= j < i ==> cs@[j].0@ == cases@[j].0@ && nodes_view(cs@[j].1@)
                            == nodes_view(cases@[j].1@),
                decreases cases@.len() - i,
            {
                proof {
                    vstd::std_specs::vec::axiom_vec_index_decreases(*cases, i as int);
                    assert(decreases_to!(*n => n->Switch_cases));
                    assert(decreases_to!(cases@[i as int] => cases@[i as int].1));
                }
                cs.push((chars_copy(&cases[i].0), nodes_clone(&cases[i].1)));
                i = i + 1;
            }
            proof {
                lemma_cases_view_len(cs@);
                lemma_cases_view_len(cases@);
                assert forall|j: int| 0 <= j < cases@.len() implies cases_view(cs@)[j]
                    == cases_view(cases@)[j] by {
                    lemma_cases_view_index(cs@, j);
                    lemma_cases_view_index(cases@, j);
                }
                assert(cases_view(cs@) =~= cases_view(cases@));
            }
            TemplateNode::Switch { variable: chars_copy(variable), cases: cs }
        },
        TemplateNode::Case { value, content } => {
            proof {
                assert(decreases_to!(*n => n->Case_content));
            }
            TemplateNode::Case { value: chars_copy(value), content: nodes_clone(content) }
        },
        TemplateNode::IfLocale { locale, then_content, else_content } => {
            proof {
                assert(decreases_to!(*n => n->IfLocale_then_content));
                assert(decreases_to!(*n => n->IfLocale_else_content));
            }
            let ec = match else_content {
                Some(e) => Some(nodes_clone(e)),
                None => None,
            };
            TemplateNode::IfLocale {
                locale: chars_copy(locale),
                then_content: nodes_clone(then_content),
                else_content: ec,
            }
        },
        TemplateNode::Include { path, params } => TemplateNode::Include {
            path: chars_copy(path),
            params: pairs_clone(params),
        },
        TemplateNode::I18n { key, params } => TemplateNode::I18n {
            key: chars_copy(key),
            params: pairs_clone(params),
        },
        TemplateNode::Helper { name, args, params } => TemplateNode::Helper {
            name: chars_copy(name),
            args: strs_clone(args),
            params: pairs_clone(params),
        },
    }
}

impl Clone for TemplateNode {
    /// The clone has the same model.
    fn clone(&self) -> (r: TemplateNode)
        ensures
            node_view(r) == node_view(*self),
    {
        node_clone(self)
    }
}

} // verus!
