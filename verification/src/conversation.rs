//! Conversation templates: a compiled template whose rendered text is
//! partitioned into role-tagged turns on markdown-style headers.

use vstd::prelude::*;
use crate::value::{JsonValue, ValueV, VarMap, value_view};
use crate::chars::{
    spec_trim, spec_split_from, spec_match_at, split_from, trim_chars, str_to_chars,
    chars_to_string, match_at, copy_range,
};
use crate::types::{Role, Input};
use crate::messages::Messages;
use crate::template::PromptTemplate;
use crate::error::{Error, ErrV, err_view, strings_view};
use crate::executor::rd_nodes;
use crate::node::nodes_view;

verus! {

/// One line of text: the raw split piece with a trailing carriage return
/// dropped.
pub open spec fn spec_strip_cr(l: Seq<char>) -> Seq<char> {
    if l.len() > 0 && l.last() == '\r' {
        l.drop_last()
    } else {
        l
    }
}

/// The lines of a text: newline-separated pieces, carriage returns
/// stripped, and a final empty piece dropped.
pub open spec fn spec_lines(s: Seq<char>) -> Seq<Seq<char>> {
    let raw = spec_split_from(s, '\n', 0);
    let pieces = Seq::new(raw.len(), |i: int| spec_strip_cr(raw[i]));
    if pieces.len() > 0 && pieces.last().len() == 0 {
        pieces.drop_last()
    } else {
        pieces
    }
}

/// Split a text into lines.
pub fn lines_of(s: &Vec<char>) -> (r: Vec<Vec<char>>)
    ensures
        crate::node::strs_view(r@) == spec_lines(s@),
{
    let raw = split_from(s, '\n', 0);
    let ghost rawv = spec_split_from(s@, '\n', 0);
    let mut pieces: Vec<Vec<char>> = Vec::new();
    let mut i: usize = 0;
    while i < raw.len()
        invariant
            i <= raw@.len(),
            raw@.len() == rawv.len(),
            forall|k: int| 0 <= k < rawv.len() ==> raw@[k]@ == rawv[k],
            pieces@.len() == i,
            forall|k: int| 0 <= k < i ==> pieces@[k]@ == spec_strip_cr(rawv[k]),
        decreases raw@.len() - i,
    {
        let line = &raw[i];
        if line.len() > 0 && line[line.len() - 1] == '\r' {
            let t = copy_range(line, 0, line.len() - 1);
            proof {
                assert(t@ =~= spec_strip_cr(rawv[i as int]));
            }
            pieces.push(t);
        } else {
            let mut t: Vec<char> = Vec::new();
            crate::value::push_chars(&mut t, line);
            proof {
                assert(t@ =~= spec_strip_cr(rawv[i as int]));
            }
            pieces.push(t);
        }
        i = i + 1;
    }
    if pieces.len() > 0 && pieces[pieces.len() - 1].len() == 0 {
        let _ = pieces.pop();
        proof {
            assert(crate::node::strs_view(pieces@) =~= spec_lines(s@));
        }
        pieces
    } else {
        proof {
            assert(crate::node::strs_view(pieces@) =~= spec_lines(s@));
        }
        pieces
    }
}

/// Whether `c` is `lc` or its uppercase form, for a lowercase letter `lc`.
pub open spec fn spec_char_ci(c: char, lc: char) -> bool {
    c == lc || c as u32 + 32 == lc as u32
}

/// Whether `s` spells the lowercase word `w`, ignoring letter case.
pub open spec fn spec_word_ci(s: Seq<char>, w: Seq<char>) -> bool {
    s.len() == w.len() && forall|i: int| 0 <= i < s.len() ==> spec_char_ci(s[i], #[trigger] w[i])
}

fn word_ci(s: &Vec<char>, w: &Vec<char>) -> (r: bool)
    ensures
        r == spec_word_ci(s@, w@),
{
    if s.len() != w.len() {
        return false;
    }
    let mut i: usize = 0;
    while i < s.len()
        invariant
            i <= s@.len(),
            s@.len() == w@.len(),
            forall|j: int| 0 <= j < i ==> spec_char_ci(s@[j], #[trigger] w@[j]),
        decreases s@.len() - i,
    {
        let c = s[i];
        let lc = w[i];
        let cu = (c as u32) as u64;
        let lu = (lc as u32) as u64;
        if !(c == lc || cu + 32 == lu) {
            return false;
        }
        i = i + 1;
    }
    true
}

/// The header prefix of a conversation turn.
pub open spec fn kw_header() -> Seq<char> {
    seq!['#', '#', ' ']
}

/// The role a line names: a trimmed `## ` header whose remainder spells
/// system, user, assistant or developer, ignoring letter case.
pub open spec fn spec_role_header(line: Seq<char>) -> Option<Role> {
    let trimmed = spec_trim(line);
    if !spec_match_at(trimmed, kw_header(), 0) {
        Option::None
    } else {
        let role_text = spec_trim(trimmed.skip(3));
        if spec_word_ci(role_text, "system"@) {
            Option::Some(Role::System)
        } else if spec_word_ci(role_text, "user"@) {
            Option::Some(Role::User)
        } else if spec_word_ci(role_text, "assistant"@) {
            Option::Some(Role::Assistant)
        } else if spec_word_ci(role_text, "developer"@) {
            Option::Some(Role::Developer)
        } else {
            Option::None
        }
    }
}

fn role_header(line: &Vec<char>) -> (r: Option<Role>)
    ensures
        r == spec_role_header(line@),
{
    let trimmed = trim_chars(line);
    let header = str_to_chars("## ");
    proof {
        reveal_strlit("## ");
        assert(header@ =~= kw_header());
    }
    if !match_at(&trimmed, &header, 0) {
        return None;
    }
    let rest = trim_chars(&copy_range(&trimmed, 3, trimmed.len()));
    proof {
        assert(trimmed@.subrange(3, trimmed@.len() as int) =~= trimmed@.skip(3));
    }
    if word_ci(&rest, &str_to_chars("system")) {
        Some(Role::System)
    } else if word_ci(&rest, &str_to_chars("user")) {
        Some(Role::User)
    } else if word_ci(&rest, &str_to_chars("assistant")) {
        Some(Role::Assistant)
    } else if word_ci(&rest, &str_to_chars("developer")) {
        Some(Role::Developer)
    } else {
        None
    }
}

/// Append the finished turn at the end of the text, dropping a turn whose
/// trimmed text is empty; text that never saw a header is left to the
/// whole-content rule.
pub open spec fn spec_flush(
    acc: Seq<(Role, Seq<char>)>,
    cur_role: Option<Role>,
    cur: Seq<char>,
) -> Seq<(Role, Seq<char>)> {
    match cur_role {
        Option::Some(role) => if spec_trim(cur).len() > 0 {
            acc.push((role, spec_trim(cur)))
        } else {
            acc
        },
        Option::None => acc,
    }
}

/// Append the finished turn when a header opens the next one: text
/// gathered before the first header becomes one implicit system turn.
pub open spec fn spec_flush_at_header(
    acc: Seq<(Role, Seq<char>)>,
    cur_role: Option<Role>,
    cur: Seq<char>,
) -> Seq<(Role, Seq<char>)> {
    let role = match cur_role {
        Option::Some(r) => r,
        Option::None => Role::System,
    };
    if spec_trim(cur).len() > 0 {
        acc.push((role, spec_trim(cur)))
    } else {
        acc
    }
}

/// Scan the lines from `i` on: a header starts a new turn, other lines
/// accumulate under the current turn, and text standing before the first
/// header becomes one implicit system turn.
pub open spec fn spec_conv_scan(
    lines: Seq<Seq<char>>,
    i: int,
    cur_role: Option<Role>,
    cur: Seq<char>,
    acc: Seq<(Role, Seq<char>)>,
) -> Seq<(Role, Seq<char>)>
    decreases lines.len() - i,
{
    if i < 0 || i >= lines.len() {
        spec_flush(acc, cur_role, cur)
    } else {
        match spec_role_header(lines[i]) {
            Option::Some(role) => spec_conv_scan(
                lines,
                i + 1,
                Option::Some(role),
                Seq::empty(),
                spec_flush_at_header(acc, cur_role, cur),
            ),
            Option::None => {
                let cur2 = if cur.len() > 0 {
                    cur + seq!['\n'] + lines[i]
                } else {
                    lines[i]
                };
                spec_conv_scan(lines, i + 1, cur_role, cur2, acc)
            },
        }
    }
}

/// The turns of a rendered conversation: header-delimited segments, with
/// text standing before the first header emitted as one implicit system
/// turn; text with no headers at all and non-blank content is one system
/// turn holding the whole trimmed text.
pub open spec fn spec_conversation(content: Seq<char>) -> Seq<(Role, Seq<char>)> {
    let msgs = spec_conv_scan(spec_lines(content), 0, Option::None, Seq::empty(), Seq::empty());
    if msgs.len() == 0 && spec_trim(content).len() > 0 {
        seq![(Role::System, spec_trim(content))]
    } else {
        msgs
    }
}

/// Whether a message list realizes the scanned turns.
pub open spec fn msgs_match(v: Seq<Input>, turns: Seq<(Role, Seq<char>)>) -> bool {
    &&& v.len() == turns.len()
    &&& forall|j: int|
        0 <= j < v.len() ==> ((#[trigger] v[j]) matches Input::Message(m) && m.role == turns[j].0
            && m.content@ == turns[j].1)
}

/// Partition rendered text into role-tagged turns.
pub fn parse_conversation(content: &Vec<char>) -> (r: Messages)
    ensures
        msgs_match(r.messages@, spec_conversation(content@)),
{
    let lines = lines_of(content);
    let ghost lv = spec_lines(content@);
    let mut acc: Vec<Input> = Vec::new();
    let ghost mut taken: Seq<(Role, Seq<char>)> = Seq::empty();
    let mut cur_role: Option<Role> = None;
    let mut cur: Vec<char> = Vec::new();
    let mut i: usize = 0;
    proof {
        assert(cur@ =~= Seq::<char>::empty());
    }
    while i < lines.len()
        invariant
            i <= lines@.len(),
            lines@.len() == lv.len(),
            forall|k: int| 0 <= k < lv.len() ==> lines@[k]@ == lv[k],
            msgs_match(acc@, taken),
            spec_conv_scan(lv, 0, Option::None, Seq::empty(), Seq::empty()) == spec_conv_scan(
                lv,
                i as int,
                cur_role,
                cur@,
                taken,
            ),
        decreases lines@.len() - i,
    {
        match role_header(&lines[i]) {
            Some(role) => {
                let flush_role = match cur_role {
                    Some(prev) => prev,
                    None => Role::System,
                };
                let text = trim_chars(&cur);
                if text.len() > 0 {
                    acc.push(
                        Input::Message(
                            crate::types::InputMessage {
                                role: flush_role,
                                content: chars_to_string(&text),
                            },
                        ),
                    );
                    proof {
                        taken = taken.push((flush_role, spec_trim(cur@)));
                    }
                }
                cur_role = Some(role);
                cur = Vec::new();
                proof {
                    assert(cur@ =~= Seq::<char>::empty());
                }
            },
            None => {
                let ghost precur = cur@;
                if cur.len() > 0 {
                    cur.push('\n');
                    crate::value::push_chars(&mut cur, &lines[i]);
                    proof {
                        assert(cur@ =~= precur + seq!['\n'] + lv[i as int]);
                    }
                } else {
                    crate::value::push_chars(&mut cur, &lines[i]);
                    proof {
                        assert(cur@ =~= lv[i as int]);
                    }
                }
            },
        }
        i = i + 1;
    }
    match cur_role {
        Some(prev) => {
            let text = trim_chars(&cur);
            if text.len() > 0 {
                acc.push(
                    Input::Message(
                        crate::types::InputMessage {
                            role: prev,
                            content: chars_to_string(&text),
                        },
                    ),
                );
                proof {
                    taken = taken.push((prev, spec_trim(cur@)));
                }
            }
        },
        None => {},
    }
    if acc.len() == 0 {
        let whole = trim_chars(content);
        if whole.len() > 0 {
            let mut only: Vec<Input> = Vec::new();
            only.push(
                Input::Message(
                    crate::types::InputMessage {
                        role: Role::System,
                        content: chars_to_string(&whole),
                    },
                ),
            );
            return Messages { messages: only };
        }
    }
    Messages { messages: acc }
}

/// A conversation template: a compiled template rendered and then
/// partitioned into role-tagged turns.
#[derive(Clone, Debug)]
pub struct ConversationTemplate {
    pub template: PromptTemplate,
    pub accumulated_variables: VarMap,
}

impl ConversationTemplate {
    /// Compile a conversation template from source text: the underlying
    /// template is exactly the compilation of `content`, with no
    /// accumulated variables yet.
    pub fn load_from_content(content: &str) -> (r: Result<ConversationTemplate, Error>)
        ensures
            r is Ok ==> crate::template::spec_compiled_from(r->Ok_0.template, content@)
                && r->Ok_0.accumulated_variables@ == Seq::<(Seq<char>, ValueV)>::empty(),
            r is Err ==> err_view(r->Err_0) is TemplateParsing,
            crate::template::spec_split_frontmatter(content@).0 is None ==> (r is Ok
                <==> crate::parser::sp_parse(
                crate::template::spec_split_frontmatter(content@).1,
            ) is Ok),
    {
        match PromptTemplate::from_content(content) {
            Ok(template) => Ok(
                ConversationTemplate { template, accumulated_variables: VarMap::new() },
            ),
            Err(e) => Err(e),
        }
    }

    /// This conversation template bound to another locale.
    pub fn with_locale(self, locale: &str) -> (r: Result<ConversationTemplate, Error>)
        ensures
            r is Ok,
            r->Ok_0.accumulated_variables@ == self.accumulated_variables@,
    {
        match self.template.with_locale(locale) {
            Ok(template) => Ok(
                ConversationTemplate {
                    template,
                    accumulated_variables: self.accumulated_variables,
                },
            ),
            Err(e) => Err(e),
        }
    }

    /// This conversation template with a locale store attached.
    pub fn with_locale_manager(self, manager: crate::locale::LocaleManager) -> (r:
        ConversationTemplate)
        ensures
            r.accumulated_variables@ == self.accumulated_variables@,
    {
        ConversationTemplate {
            template: self.template.with_locale_manager(manager),
            accumulated_variables: self.accumulated_variables,
        }
    }

    /// This conversation template with one more accumulated variable.
    pub fn var(self, key: &str, value: JsonValue) -> (r: ConversationTemplate)
        ensures
            r.accumulated_variables@ == self.accumulated_variables@.push(
                (key@, value_view(value)),
            ),
    {
        ConversationTemplate {
            template: self.template,
            accumulated_variables: self.accumulated_variables.set(key, value),
        }
    }

    /// Render against the given variables and partition the text into
    /// turns.
    pub fn render(&self, vars: &VarMap) -> (r: Result<Messages, Error>)
        ensures
            ({
                let missing = crate::template::spec_missing_from(
                    strings_view(self.template.required_variables@),
                    vars@,
                    0,
                );
                let sp = rd_nodes(
                    self.template.env(),
                    Seq::empty(),
                    nodes_view(self.template.ast@),
                    self.template.default_variables@ + vars@,
                );
                &&& (missing.len() > 0 ==> r is Err && err_view(r->Err_0)
                    == ErrV::RequiredVariablesMissing(missing))
                &&& (missing.len() == 0 ==> {
                    &&& (r is Ok <==> sp is Ok)
                    &&& (r is Ok ==> msgs_match(
                        r->Ok_0.messages@,
                        spec_conversation(sp->Ok_0),
                    ))
                    &&& (r is Err ==> sp is Err && err_view(r->Err_0) == sp->Err_0)
                })
            }),
    {
        match self.template.render(vars) {
            Err(e) => Err(e),
            Ok(text) => {
                let cs = str_to_chars(text.as_str());
                Ok(parse_conversation(&cs))
            },
        }
    }

    /// Render using the accumulated variables and partition the text.
    pub fn to_messages(self) -> (r: Result<Messages, Error>)
        ensures
            ({
                let missing = crate::template::spec_missing_from(
                    strings_view(self.template.required_variables@),
                    self.accumulated_variables@,
                    0,
                );
                let sp = rd_nodes(
                    self.template.env(),
                    Seq::empty(),
                    nodes_view(self.template.ast@),
                    self.template.default_variables@ + self.accumulated_variables@,
                );
                &&& (missing.len() > 0 ==> r is Err && err_view(r->Err_0)
                    == ErrV::RequiredVariablesMissing(missing))
                &&& (missing.len() == 0 ==> {
                    &&& (r is Ok <==> sp is Ok)
                    &&& (r is Ok ==> msgs_match(
                        r->Ok_0.messages@,
                        spec_conversation(sp->Ok_0),
                    ))
                    &&& (r is Err ==> sp is Err && err_view(r->Err_0) == sp->Err_0)
                })
            }),
    {
        self.render(&self.accumulated_variables)
    }
}

} // verus!
