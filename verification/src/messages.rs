//! Conversation histories: ordered role-tagged turns with builder-style
//! construction and slicing.

use vstd::prelude::*;
use crate::types::{Input, InputMessage, Role};

verus! {

/// The model of one input: its role, and its text when it is a ready
/// message.
pub open spec fn input_role(i: Input) -> Role {
    match i {
        Input::Message(m) => m.role,
        Input::Template(t) => t.role,
    }
}

/// Whether `b` could stand in for `a`: ready messages agree on role and
/// text, templates agree on role.
pub open spec fn input_like(a: Input, b: Input) -> bool {
    match (a, b) {
        (Input::Message(x), Input::Message(y)) => x.role == y.role && x.content@ == y.content@,
        (Input::Template(x), Input::Template(y)) => x.role == y.role,
        _ => false,
    }
}

/// Copy one input; a template input keeps its role.
pub fn input_clone(i: &Input) -> (r: Input)
    ensures
        input_like(*i, r),
{
    match i {
        Input::Message(m) => Input::Message(
            InputMessage { role: m.role, content: m.content.clone() },
        ),
        Input::Template(t) => Input::Template(
            crate::types::TemplateInput { role: t.role, template: t.template.clone() },
        ),
    }
}

/// The inputs of `s` from `i` on whose role is `role`.
pub open spec fn spec_filter_role(s: Seq<Input>, role: Role, i: int) -> Seq<Input>
    decreases s.len() - i,
{
    if i < 0 || i >= s.len() {
        Seq::empty()
    } else if input_role(s[i]) == role {
        seq![s[i]] + spec_filter_role(s, role, i + 1)
    } else {
        spec_filter_role(s, role, i + 1)
    }
}

/// A conversation history.
#[derive(Debug)]
pub struct Messages {
    pub messages: Vec<Input>,
}

impl Messages {
    /// An empty history.
    pub fn new() -> (r: Messages)
        ensures
            r.messages@ == Seq::<Input>::empty(),
    {
        let r = Messages { messages: Vec::new() };
        proof {
            assert(r.messages@ =~= Seq::<Input>::empty());
        }
        r
    }

    /// This history with one more message of the given role.
    pub fn add_message(self, role: Role, content: &str) -> (r: Messages)
        ensures
            r.messages@.len() == self.messages@.len() + 1,
            forall|j: int|
                0 <= j < self.messages@.len() ==> r.messages@[j] == self.messages@[j],
            r.messages@.last() matches Input::Message(m) && m.role == role && m.content@
                == content@,
    {
        let mut messages = self.messages;
        messages.push(
            Input::Message(InputMessage { role, content: String::from_str(content) }),
        );
        Messages { messages }
    }

    /// This history with one more system turn.
    pub fn system(self, content: &str) -> (r: Messages)
        ensures
            r.messages@.len() == self.messages@.len() + 1,
            forall|j: int|
                0 <= j < self.messages@.len() ==> r.messages@[j] == self.messages@[j],
            r.messages@.last() matches Input::Message(m) && m.role == Role::System && m.content@
                == content@,
    {
        self.add_message(Role::System, content)
    }

    /// This history with one more user turn.
    pub fn user(self, content: &str) -> (r: Messages)
        ensures
            r.messages@.len() == self.messages@.len() + 1,
            forall|j: int|
                0 <= j < self.messages@.len() ==> r.messages@[j] == self.messages@[j],
            r.messages@.last() matches Input::Message(m) && m.role == Role::User && m.content@
                == content@,
    {
        self.add_message(Role::User, content)
    }

    /// This history with one more assistant turn.
    pub fn assistant(self, content: &str) -> (r: Messages)
        ensures
            r.messages@.len() == self.messages@.len() + 1,
            forall|j: int|
                0 <= j < self.messages@.len() ==> r.messages@[j] == self.messages@[j],
            r.messages@.last() matches Input::Message(m) && m.role == Role::Assistant
                && m.content@ == content@,
    {
        self.add_message(Role::Assistant, content)
    }

    /// This history with one more developer turn.
    pub fn developer(self, content: &str) -> (r: Messages)
        ensures
            r.messages@.len() == self.messages@.len() + 1,
            forall|j: int|
                0 <= j < self.messages@.len() ==> r.messages@[j] == self.messages@[j],
            r.messages@.last() matches Input::Message(m) && m.role == Role::Developer
                && m.content@ == content@,
    {
        self.add_message(Role::Developer, content)
    }

    /// A history owning the given inputs.
    pub fn from_inputs(inputs: Vec<Input>) -> (r: Messages)
        ensures
            r.messages@ == inputs@,
    {
        Messages { messages: inputs }
    }

    /// The inputs, giving up the history.
    pub fn into_inputs(self) -> (r: Vec<Input>)
        ensures
            r@ == self.messages@,
    {
        self.messages
    }

    /// A view of the inputs.
    pub fn inputs(&self) -> (r: &Vec<Input>)
        ensures
            r == &self.messages,
    {
        &self.messages
    }

    /// This history followed by every turn of `other`.
    pub fn extend(self, other: Messages) -> (r: Messages)
        ensures
            r.messages@ == self.messages@ + other.messages@,
    {
        let mut messages = self.messages;
        let mut more = other.messages;
        messages.append(&mut more);
        Messages { messages }
    }

    /// How many turns the history holds.
    pub fn len(&self) -> (r: usize)
        ensures
            r == self.messages@.len(),
    {
        self.messages.len()
    }

    /// Is the history empty?
    pub fn is_empty(&self) -> (r: bool)
        ensures
            r == (self.messages@.len() == 0),
    {
        self.messages.len() == 0
    }

    /// The last turn, if any.
    pub fn last(&self) -> (r: Option<&Input>)
        ensures
            self.messages@.len() == 0 ==> r is None,
            self.messages@.len() > 0 ==> r is Some && r->0 == &self.messages@.last(),
    {
        if self.messages.len() == 0 {
            None
        } else {
            Some(&self.messages[self.messages.len() - 1])
        }
    }

    /// The first turn, if any.
    pub fn first(&self) -> (r: Option<&Input>)
        ensures
            self.messages@.len() == 0 ==> r is None,
            self.messages@.len() > 0 ==> r is Some && r->0 == &self.messages@[0],
    {
        if self.messages.len() == 0 {
            None
        } else {
            Some(&self.messages[0])
        }
    }

    /// The last `n` turns as a new history.
    pub fn take_last(&self, n: usize) -> (r: Messages)
        ensures
            ({
                let start = if n >= self.messages@.len() {
                    0int
                } else {
                    self.messages@.len() - n
                };
                &&& r.messages@.len() == self.messages@.len() - start
                &&& forall|j: int|
                    0 <= j < r.messages@.len() ==> input_like(
                        self.messages@[start + j],
                        #[trigger] r.messages@[j],
                    )
            }),
    {
        let start = if n >= self.messages.len() {
            0
        } else {
            self.messages.len() - n
        };
        let mut out: Vec<Input> = Vec::new();
        let mut i: usize = start;
        while i < self.messages.len()
            invariant
                start <= i <= self.messages@.len(),
                out@.len() == i - start,
                forall|j: int|
                    0 <= j < out@.len() ==> input_like(
                        self.messages@[start + j],
                        #[trigger] out@[j],
                    ),
            decreases self.messages@.len() - i,
        {
            out.push(input_clone(&self.messages[i]));
            i = i + 1;
        }
        Messages { messages: out }
    }

    /// The first `n` turns as a new history.
    pub fn take_first(&self, n: usize) -> (r: Messages)
        ensures
            ({
                let end = if n >= self.messages@.len() {
                    self.messages@.len() as int
                } else {
                    n as int
                };
                &&& r.messages@.len() == end
                &&& forall|j: int|
                    0 <= j < r.messages@.len() ==> input_like(
                        self.messages@[j],
                        #[trigger] r.messages@[j],
                    )
            }),
    {
        let end = if n >= self.messages.len() {
            self.messages.len()
        } else {
            n
        };
        let mut out: Vec<Input> = Vec::new();
        let mut i: usize = 0;
        while i < end
            invariant
                i <= end <= self.messages@.len(),
                out@.len() == i,
                forall|j: int|
                    0 <= j < out@.len() ==> input_like(self.messages@[j], #[trigger] out@[j]),
            decreases end - i,
        {
            out.push(input_clone(&self.messages[i]));
            i = i + 1;
        }
        Messages { messages: out }
    }

    /// The turns with the given role, in order, as a new history.
    pub fn filter_by_role(&self, role: Role) -> (r: Messages)
        ensures
            ({
                let picked = spec_filter_role(self.messages@, role, 0);
                &&& r.messages@.len() == picked.len()
                &&& forall|j: int|
                    0 <= j < r.messages@.len() ==> input_like(picked[j], #[trigger] r.messages@[j])
            }),
    {
        let ghost full = self.messages@;
        let mut out: Vec<Input> = Vec::new();
        let mut i: usize = 0;
        let ghost mut taken: Seq<Input> = Seq::empty();
        while i < self.messages.len()
            invariant
                i <= full.len(),
                full == self.messages@,
                out@.len() == taken.len(),
                taken + spec_filter_role(full, role, i as int) == spec_filter_role(full, role, 0),
                forall|j: int|
                    0 <= j < out@.len() ==> input_like(taken[j], #[trigger] out@[j]),
            decreases full.len() - i,
        {
            let picked = match &self.messages[i] {
                Input::Message(m) => m.role == role,
                Input::Template(t) => t.role == role,
            };
            if picked {
                out.push(input_clone(&self.messages[i]));
                proof {
                    taken = taken.push(full[i as int]);
                    assert(taken + spec_filter_role(full, role, i + 1) =~= (taken.drop_last()
                        + spec_filter_role(full, role, i as int)));
                }
            } else {
                proof {
                    assert(taken + spec_filter_role(full, role, i + 1) =~= taken
                        + spec_filter_role(full, role, i as int));
                }
            }
            i = i + 1;
        }
        proof {
            assert(spec_filter_role(full, role, full.len() as int) =~= Seq::<Input>::empty());
            assert(taken + Seq::<Input>::empty() =~= taken);
        }
        Messages { messages: out }
    }

    /// This history shortened to its last `n` turns.
    pub fn pop_last(self, n: usize) -> (r: Messages)
        ensures
            r.messages@ == self.messages@.subrange(
                0,
                if n >= self.messages@.len() {
                    0int
                } else {
                    self.messages@.len() - n
                },
            ),
    {
        let new_len = if n >= self.messages.len() {
            0
        } else {
            self.messages.len() - n
        };
        let mut messages = self.messages;
        messages.truncate(new_len);
        proof {
            assert(messages@ =~= messages@);
        }
        Messages { messages }
    }
}

} // verus!
