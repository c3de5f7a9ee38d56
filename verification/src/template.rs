//! The compiled template: parsed frontmatter, the node tree, default and
//! required variables, and rendering against a variable context.

use vstd::prelude::*;
use crate::value::{
    JsonValue, ValueV, VarMap, value_view, entries_view, spec_assoc_get, clone_entries,
    values_view, lemma_values_view_len, lemma_values_view_index,
};
use crate::chars::{
    spec_trim, spec_find, spec_match_at, str_to_chars, chars_to_string, trim_chars, copy_range,
    match_at, find_from, lemma_find_in_range,
};
use crate::node::{TemplateNode, NodeV, nodes_view, strs_view};
use crate::parser::{sp_parse, parse_chars};
use crate::executor::{TemplateStore, EnvV, env_of, rd_nodes, spec_store_get};
use crate::locale::LocaleManager;
use crate::error::{Error, ErrV, err_view, strings_view};

verus! {

/// The frontmatter delimiter.
pub open spec fn kw_fm() -> Seq<char> {
    seq!['-', '-', '-']
}

/// Split a source into its frontmatter text and its template body: a
/// leading `---`, the text up to the next `---`, and the rest. A source
/// without that shape is all body.
pub open spec fn spec_split_frontmatter(s: Seq<char>) -> (Option<Seq<char>>, Seq<char>) {
    if !spec_match_at(s, kw_fm(), 0) {
        (Option::None, s)
    } else {
        match spec_find(s, kw_fm(), 3) {
            Option::None => (Option::None, s),
            Option::Some(j) => {
                if 3 <= j && j + 3 <= s.len() {
                    let yaml = spec_trim(s.subrange(3, j));
                    let body = s.subrange(j + 3, s.len() as int);
                    if yaml.len() == 0 {
                        (Option::None, body)
                    } else {
                        (Option::Some(yaml), body)
                    }
                } else {
                    (Option::None, s)
                }
            },
        }
    }
}

/// Split a source into frontmatter text and body.
pub fn split_frontmatter(s: &Vec<char>) -> (r: (Option<Vec<char>>, Vec<char>))
    ensures
        ({
            let sp = spec_split_frontmatter(s@);
            &&& (r.0 is Some <==> sp.0 is Some)
            &&& (r.0 is Some ==> r.0.unwrap()@ == sp.0.unwrap())
            &&& r.1@ == sp.1
        }),
{
    let fm = str_to_chars("---");
    proof {
        reveal_strlit("---");
        assert(fm@ =~= kw_fm());
    }
    if !match_at(s, &fm, 0) {
        let mut body: Vec<char> = Vec::new();
        crate::value::push_chars(&mut body, s);
        proof {
            assert(body@ =~= s@);
        }
        return (None, body);
    }
    proof {
        lemma_find_in_range(s@, kw_fm(), 3);
    }
    match find_from(s, &fm, 3) {
        None => {
            let mut body: Vec<char> = Vec::new();
            crate::value::push_chars(&mut body, s);
            proof {
                assert(body@ =~= s@);
            }
            (None, body)
        },
        Some(j) => {
            proof {
                assert(s.len() == s@.len());
            }
            let yaml = trim_chars(&copy_range(s, 3, j));
            let body = copy_range(s, j + 3, s.len());
            if yaml.len() == 0 {
                (None, body)
            } else {
                (Some(yaml), body)
            }
        },
    }
}

/// The model of a [`TemplateFrontmatter`].
pub struct FmV {
    pub variables: Seq<(Seq<char>, ValueV)>,
    pub required_variables: Seq<Seq<char>>,
    pub i18n_key: Option<Seq<char>>,
    pub includes: Seq<Seq<char>>,
}

/// Template metadata read from the YAML frontmatter block.
#[derive(Clone, Debug)]
pub struct TemplateFrontmatter {
    /// Default bindings merged under the caller's variables.
    pub variables: VarMap,
    /// Names that must be bound before rendering may start.
    pub required_variables: Vec<String>,
    /// An optional locale-table pointer; informational.
    pub i18n_key: Option<String>,
    /// Declared include paths, validated eagerly against a store.
    pub includes: Vec<String>,
}

impl View for TemplateFrontmatter {
    type V = FmV;

    open spec fn view(&self) -> FmV {
        FmV {
            variables: self.variables@,
            required_variables: strings_view(self.required_variables@),
            i18n_key: match self.i18n_key {
                Option::None => Option::None,
                Option::Some(k) => Option::Some(k@),
            },
            includes: strings_view(self.includes@),
        }
    }
}

/// The strings of an array value, if every element is a string.
pub open spec fn spec_string_list(items: Seq<ValueV>, i: int) -> Option<Seq<Seq<char>>>
    decreases items.len() - i,
{
    if i < 0 || i >= items.len() {
        Option::Some(Seq::empty())
    } else {
        match items[i] {
            ValueV::Str(s) => match spec_string_list(items, i + 1) {
                Option::Some(rest) => Option::Some(seq![s] + rest),
                Option::None => Option::None,
            },
            _ => Option::None,
        }
    }
}

fn string_list(items: &Vec<JsonValue>, i: usize) -> (r: Option<Vec<String>>)
    requires
        i <= items@.len(),
    ensures
        ({
            let sp = spec_string_list(values_view(items@), i as int);
            &&& (r is Some <==> sp is Some)
            &&& (r is Some ==> strings_view(r.unwrap()@) == sp.unwrap())
        }),
    decreases items@.len() - i,
{
    proof {
        lemma_values_view_len(items@);
    }
    if i >= items.len() {
        let empty: Vec<String> = Vec::new();
        proof {
            assert(strings_view(empty@) =~= Seq::<Seq<char>>::empty());
        }
        return Some(empty);
    }
    proof {
        lemma_values_view_index(items@, i as int);
    }
    match &items[i] {
        JsonValue::Str(s) => match string_list(items, i + 1) {
            Some(rest) => {
                let mut out: Vec<String> = Vec::new();
                out.push(chars_to_string(s));
                let mut rest = rest;
                let ghost restv = rest@;
                out.append(&mut rest);
                proof {
                    assert(strings_view(out@) =~= seq![s@] + strings_view(restv));
                }
                Some(out)
            },
            None => None,
        },
        _ => None,
    }
}

/// How frontmatter fields read out of the parsed document: `variables` must
/// be a mapping, `required_variables` and `includes` lists of strings, and
/// `i18n_key` a string; a missing field defaults to empty, and anything
/// else refuses the document.
pub open spec fn spec_frontmatter_of(v: ValueV) -> Option<FmV> {
    match v {
        ValueV::Obj(entries) => {
            let vars = match spec_assoc_get(entries, "variables"@) {
                Option::None => Option::Some(Seq::<(Seq<char>, ValueV)>::empty()),
                Option::Some(ValueV::Obj(ve)) => Option::Some(ve),
                Option::Some(_) => Option::None,
            };
            let req = match spec_assoc_get(entries, "required_variables"@) {
                Option::None => Option::Some(Seq::<Seq<char>>::empty()),
                Option::Some(ValueV::Arr(items)) => spec_string_list(items, 0),
                Option::Some(_) => Option::None,
            };
            let key = match spec_assoc_get(entries, "i18n_key"@) {
                Option::None => Option::Some(Option::<Seq<char>>::None),
                Option::Some(ValueV::Null) => Option::Some(Option::<Seq<char>>::None),
                Option::Some(ValueV::Str(s)) => Option::Some(Option::Some(s)),
                Option::Some(_) => Option::None,
            };
            let inc = match spec_assoc_get(entries, "includes"@) {
                Option::None => Option::Some(Seq::<Seq<char>>::empty()),
                Option::Some(ValueV::Arr(items)) => spec_string_list(items, 0),
                Option::Some(_) => Option::None,
            };
            if vars is Some && req is Some && key is Some && inc is Some {
                Option::Some(
                    FmV {
                        variables: vars.unwrap(),
                        required_variables: req.unwrap(),
                        i18n_key: key.unwrap(),
                        includes: inc.unwrap(),
                    },
                )
            } else {
                Option::None
            }
        },
        _ => Option::None,
    }
}

/// Read the frontmatter fields out of a parsed document.
fn frontmatter_of(v: &JsonValue) -> (r: Option<TemplateFrontmatter>)
    ensures
        ({
            let sp = spec_frontmatter_of(value_view(*v));
            &&& (r is Some <==> sp is Some)
            &&& (r is Some ==> r.unwrap()@ == sp.unwrap())
        }),
{
    let entries = match v {
        JsonValue::Obj(entries) => entries,
        _ => {
            return None;
        },
    };
    let variables: VarMap = match crate::value::assoc_get(
        entries,
        &str_to_chars("variables"),
    ) {
        None => VarMap::new(),
        Some(vv) => match vv {
            JsonValue::Obj(ve) => VarMap::from_entries(ve),
            _ => {
                return None;
            },
        },
    };
    let required_variables: Vec<String> = match crate::value::assoc_get(
        entries,
        &str_to_chars("required_variables"),
    ) {
        None => Vec::new(),
        Some(rv) => match rv {
            JsonValue::Arr(items) => match string_list(items, 0) {
                Some(list) => list,
                None => {
                    return None;
                },
            },
            _ => {
                return None;
            },
        },
    };
    let i18n_key: Option<String> = match crate::value::assoc_get(
        entries,
        &str_to_chars("i18n_key"),
    ) {
        None => None,
        Some(kv) => match kv {
            JsonValue::Null => None,
            JsonValue::Str(s) => Some(chars_to_string(s)),
            _ => {
                return None;
            },
        },
    };
    let includes: Vec<String> = match crate::value::assoc_get(entries, &str_to_chars("includes")) {
        None => Vec::new(),
        Some(iv) => match iv {
            JsonValue::Arr(items) => match string_list(items, 0) {
                Some(list) => list,
                None => {
                    return None;
                },
            },
            _ => {
                return None;
            },
        },
    };
    proof {
        if required_variables@.len() == 0 {
            assert(strings_view(required_variables@) =~= Seq::<Seq<char>>::empty());
        }
        if includes@.len() == 0 {
            assert(strings_view(includes@) =~= Seq::<Seq<char>>::empty());
        }
    }
    Some(TemplateFrontmatter { variables, required_variables, i18n_key, includes })
}

/// What compiling `content` yields: the node tree is the parse of the body
/// behind the frontmatter, the defaults and required names come from the
/// frontmatter (empty without one), and the template starts at the default
/// locale with no locale data, an empty include store and no accumulated
/// variables.
pub open spec fn spec_compiled_from(t: PromptTemplate, content: Seq<char>) -> bool {
    let split = spec_split_frontmatter(content);
    &&& sp_parse(split.1) is Ok
    &&& nodes_view(t.ast@) == sp_parse(split.1)->Ok_0
    &&& t.current_locale@ == "en"@
    &&& t.locale_manager is None
    &&& t.template_store@ == Seq::<(Seq<char>, Seq<char>)>::empty()
    &&& t.accumulated_variables@ == Seq::<(Seq<char>, ValueV)>::empty()
    &&& (match t.frontmatter {
        Option::None => t.default_variables@ == Seq::<(Seq<char>, ValueV)>::empty()
            && strings_view(t.required_variables@) == Seq::<Seq<char>>::empty(),
        Option::Some(fm) => t.default_variables@ == fm@.variables && strings_view(
            t.required_variables@,
        ) == fm@.required_variables,
    })
    &&& (split.0 is None ==> t.frontmatter is None)
}

/// A compiled template: frontmatter, node tree, default and required
/// variables, locale, and the stores it renders against. Builder-style
/// methods return a new value and never mutate in place.
#[derive(Clone, Debug)]
pub struct PromptTemplate {
    pub frontmatter: Option<TemplateFrontmatter>,
    pub ast: Vec<TemplateNode>,
    pub default_variables: VarMap,
    pub required_variables: Vec<String>,
    pub locale_manager: Option<LocaleManager>,
    pub current_locale: Vec<char>,
    pub accumulated_variables: VarMap,
    pub template_store: TemplateStore,
}

/// The include paths a template declares.
pub open spec fn spec_fm_includes(fm: Option<TemplateFrontmatter>) -> Seq<Seq<char>> {
    match fm {
        Option::Some(f) => f@.includes,
        Option::None => Seq::<Seq<char>>::empty(),
    }
}

/// Every declared include path has a source in the store.
pub open spec fn spec_includes_ok(inc: Seq<Seq<char>>, store: Seq<(Seq<char>, Seq<char>)>) -> bool {
    forall|j: int| 0 <= j < inc.len() ==> spec_store_get(store, #[trigger] inc[j]) is Some
}

/// The names of `required` absent from `vars`, in order, from index `i` on.
pub open spec fn spec_missing_from(
    required: Seq<Seq<char>>,
    vars: Seq<(Seq<char>, ValueV)>,
    i: int,
) -> Seq<Seq<char>>
    decreases required.len() - i,
{
    if i < 0 || i >= required.len() {
        Seq::empty()
    } else if spec_assoc_get(vars, required[i]) is None {
        seq![required[i]] + spec_missing_from(required, vars, i + 1)
    } else {
        spec_missing_from(required, vars, i + 1)
    }
}

impl PromptTemplate {
    /// The model of this template's rendering surroundings.
    pub open spec fn env(&self) -> EnvV {
        env_of(self.template_store, self.locale_manager, self.current_locale)
    }

    /// Compile a template from source text: the frontmatter block is split
    /// off and read, and the body is parsed into the node tree. The
    /// compiled template starts at the default locale with no locale data,
    /// an empty include store and no accumulated variables.
    pub fn from_content(content: &str) -> (r: Result<PromptTemplate, Error>)
        ensures
            ({
                let split = spec_split_frontmatter(content@);
                &&& (r is Ok ==> spec_compiled_from(r->Ok_0, content@))
                &&& (r is Err ==> err_view(r->Err_0) is TemplateParsing)
                &&& (split.0 is None ==> (r is Err <==> sp_parse(split.1) is Err))
                &&& (split.0 is None && r is Err ==> err_view(r->Err_0) == ErrV::TemplateParsing(
                    sp_parse(split.1)->Err_0,
                ))
            }),
    {
        let cs = str_to_chars(content);
        let (fm_text, body) = split_frontmatter(&cs);
        let frontmatter: Option<TemplateFrontmatter> = match fm_text {
            None => None,
            Some(yaml) => {
                let yaml_str = chars_to_string(&yaml);
                match crate::yaml::parse_yaml(yaml_str.as_str()) {
                    Err(m) => {
                        return Err(
                            Error::TemplateParsing(
                                String::from_str("Invalid YAML frontmatter: ").concat(m.as_str()),
                            ),
                        );
                    },
                    Ok(doc) => match frontmatter_of(&doc) {
                        None => {
                            return Err(
                                Error::TemplateParsing(
                                    String::from_str(
                                        "Invalid YAML frontmatter: unexpected field shape",
                                    ),
                                ),
                            );
                        },
                        Some(fm) => Some(fm),
                    },
                }
            },
        };
        let ast = match parse_chars(&body) {
            Err(e) => {
                return Err(e);
            },
            Ok(ast) => ast,
        };
        let (default_variables, required_variables): (VarMap, Vec<String>) = match &frontmatter {
            None => (VarMap::new(), Vec::new()),
            Some(fm) => {
                let dv = fm.variables.duplicate();
                let mut rv: Vec<String> = Vec::new();
                let mut i: usize = 0;
                while i < fm.required_variables.len()
                    invariant
                        i <= fm.required_variables@.len(),
                        rv@.len() == i,
                        forall|j: int| 0 <= j < i ==> rv@[j]@ == fm.required_variables@[j]@,
                    decreases fm.required_variables@.len() - i,
                {
                    rv.push(fm.required_variables[i].clone());
                    i = i + 1;
                }
                proof {
                    assert(strings_view(rv@) =~= strings_view(fm.required_variables@));
                }
                (dv, rv)
            },
        };
        proof {
            if required_variables@.len() == 0 {
                assert(strings_view(required_variables@) =~= Seq::<Seq<char>>::empty());
            }
        }
        Ok(
            PromptTemplate {
                frontmatter,
                ast,
                default_variables,
                required_variables,
                locale_manager: None,
                current_locale: str_to_chars("en"),
                accumulated_variables: VarMap::new(),
                template_store: TemplateStore::new(),
            },
        )
    }

    /// The names that must be bound before rendering.
    pub fn required_variables(&self) -> (r: &Vec<String>)
        ensures
            r == &self.required_variables,
    {
        &self.required_variables
    }

    /// The frontmatter's declared include paths.
    pub fn includes(&self) -> (r: Vec<String>)
        ensures
            match self.frontmatter {
                Option::Some(fm) => strings_view(r@) == fm@.includes,
                Option::None => strings_view(r@) == Seq::<Seq<char>>::empty(),
            },
    {
        match &self.frontmatter {
            Some(fm) => {
                let mut out: Vec<String> = Vec::new();
                let mut i: usize = 0;
                while i < fm.includes.len()
                    invariant
                        i <= fm.includes@.len(),
                        out@.len() == i,
                        forall|j: int| 0 <= j < i ==> out@[j]@ == fm.includes@[j]@,
                    decreases fm.includes@.len() - i,
                {
                    out.push(fm.includes[i].clone());
                    i = i + 1;
                }
                proof {
                    assert(strings_view(out@) =~= strings_view(fm.includes@));
                }
                out
            },
            None => {
                let out: Vec<String> = Vec::new();
                proof {
                    assert(strings_view(out@) =~= Seq::<Seq<char>>::empty());
                }
                out
            },
        }
    }

    /// The active locale.
    pub fn current_locale(&self) -> (r: String)
        ensures
            r@ == self.current_locale@,
    {
        chars_to_string(&self.current_locale)
    }

    /// This template bound to another locale; the locale store, when one is
    /// attached, stays.
    pub fn with_locale(self, locale: &str) -> (r: Result<PromptTemplate, Error>)
        ensures
            r is Ok,
            r->Ok_0 == (PromptTemplate { current_locale: r->Ok_0.current_locale, ..self }),
            r->Ok_0.current_locale@ == locale@,
    {
        Ok(PromptTemplate { current_locale: str_to_chars(locale), ..self })
    }

    /// This template with a locale store attached.
    pub fn with_locale_manager(self, manager: LocaleManager) -> (r: PromptTemplate)
        ensures
            r == (PromptTemplate { locale_manager: r.locale_manager, ..self }),
            r.locale_manager is Some && r.locale_manager->0@ == manager@,
    {
        PromptTemplate { locale_manager: Some(manager), ..self }
    }

    /// This template with an include store attached.
    pub fn with_template_store(self, store: TemplateStore) -> (r: PromptTemplate)
        ensures
            r == (PromptTemplate { template_store: r.template_store, ..self }),
            r.template_store@ == store@,
    {
        PromptTemplate { template_store: store, ..self }
    }

    /// Refuse to render while any required variable is unbound; the error
    /// lists every missing name, in declaration order. Required names must
    /// be bound by the caller's variables themselves: the check runs before
    /// the frontmatter defaults are merged in, so a default does not
    /// satisfy a required name.
    pub fn validate_variables(&self, vars: &VarMap) -> (r: Result<(), Error>)
        ensures
            ({
                let missing = spec_missing_from(strings_view(self.required_variables@), vars@, 0);
                &&& (r is Ok <==> missing.len() == 0)
                &&& (r is Err ==> err_view(r->Err_0) == ErrV::RequiredVariablesMissing(missing))
            }),
    {
        let ghost req = strings_view(self.required_variables@);
        let mut missing: Vec<String> = Vec::new();
        let mut i: usize = 0;
        while i < self.required_variables.len()
            invariant
                i <= self.required_variables@.len(),
                req == strings_view(self.required_variables@),
                strings_view(missing@) + spec_missing_from(req, vars@, i as int)
                    == spec_missing_from(req, vars@, 0),
            decreases self.required_variables@.len() - i,
        {
            let ghost pre = missing@;
            let name = str_to_chars(self.required_variables[i].as_str());
            proof {
                assert(name@ == req[i as int]);
            }
            match vars.get(&name) {
                Some(_) => {},
                None => {
                    missing.push(chars_to_string(&name));
                    proof {
                        assert(strings_view(missing@) =~= strings_view(pre).push(req[i as int]));
                        assert(strings_view(pre) + (seq![req[i as int]] + spec_missing_from(
                            req,
                            vars@,
                            i + 1,
                        )) =~= strings_view(missing@) + spec_missing_from(req, vars@, i + 1));
                    }
                },
            }
            i = i + 1;
        }
        proof {
            assert(spec_missing_from(req, vars@, self.required_variables@.len() as int) =~= Seq::<
                Seq<char>,
            >::empty());
            assert(strings_view(missing@) + Seq::<Seq<char>>::empty() =~= strings_view(missing@));
        }
        if missing.len() == 0 {
            proof {
                assert(strings_view(missing@).len() == 0);
            }
            Ok(())
        } else {
            proof {
                assert(strings_view(missing@).len() == missing@.len());
            }
            Err(Error::RequiredVariablesMissing { variables: missing })
        }
    }

    /// Check that every declared include path is present in the store.
    pub fn validate_includes(&self, store: &TemplateStore) -> (r: Result<(), Error>)
        ensures
            r is Ok <==> spec_includes_ok(spec_fm_includes(self.frontmatter), store@),
            r is Err ==> err_view(r->Err_0) is TemplateParsing,
    {
        match &self.frontmatter {
            None => Ok(()),
            Some(fm) => {
                let ghost inc = strings_view(fm.includes@);
                let mut i: usize = 0;
                while i < fm.includes.len()
                    invariant
                        i <= fm.includes@.len(),
                        inc == strings_view(fm.includes@),
                        self.frontmatter matches Option::Some(f) && f@.includes == inc,
                        forall|j: int| 0 <= j < i ==> spec_store_get(store@, #[trigger] inc[j]) is Some,
                    decreases fm.includes@.len() - i,
                {
                    let path = str_to_chars(fm.includes[i].as_str());
                    proof {
                        assert(path@ == inc[i as int]);
                    }
                    if !crate::executor::store_has(store, &path) {
                        proof {
                            assert(spec_fm_includes(self.frontmatter) == inc);
                            assert(spec_store_get(store@, inc[i as int]) is None);
                            assert(!spec_includes_ok(inc, store@));
                        }
                        return Err(
                            Error::TemplateParsing(
                                String::from_str("Include file not found: ").concat(
                                    fm.includes[i].as_str(),
                                ),
                            ),
                        );
                    }
                    i = i + 1;
                }
                Ok(())
            },
        }
    }

    /// Render against the given variables: required variables are checked
    /// first (against the caller's bindings alone, before defaults merge),
    /// the defaults are merged under the caller's bindings, and the tree is
    /// rendered in this template's surroundings. The outcome is exactly
    /// what the rendering relation assigns, so a second render of the same
    /// arguments returns the same text.
    pub fn render(&self, vars: &VarMap) -> (r: Result<String, Error>)
        ensures
            ({
                let missing = spec_missing_from(strings_view(self.required_variables@), vars@, 0);
                let sp = rd_nodes(
                    self.env(),
                    Seq::empty(),
                    nodes_view(self.ast@),
                    self.default_variables@ + vars@,
                );
                &&& (missing.len() > 0 ==> r is Err && err_view(r->Err_0)
                    == ErrV::RequiredVariablesMissing(missing))
                &&& (missing.len() == 0 ==> {
                    &&& (r is Ok <==> sp is Ok)
                    &&& (r is Ok ==> r->Ok_0@ == sp->Ok_0)
                    &&& (r is Err ==> sp is Err && err_view(r->Err_0) == sp->Err_0)
                })
            }),
    {
        match self.validate_variables(vars) {
            Err(e) => Err(e),
            Ok(()) => {
                let merged = self.default_variables.duplicate().extend_with(vars);
                crate::executor::render_nodes(
                    &self.template_store,
                    &self.locale_manager,
                    &self.current_locale,
                    &self.ast,
                    &merged,
                )
            },
        }
    }

    /// Render with the includes checked against a caller-supplied store,
    /// which also serves the render: a missing required variable refuses the
    /// render with the full list, then an absent declared include refuses
    /// it, and otherwise the tree renders against that store.
    pub fn render_with_store(&self, vars: &VarMap, store: &TemplateStore) -> (r: Result<
        String,
        Error,
    >)
        ensures
            ({
                let all_inc = spec_includes_ok(spec_fm_includes(self.frontmatter), store@);
                let missing = spec_missing_from(strings_view(self.required_variables@), vars@, 0);
                let sp = rd_nodes(
                    env_of(*store, self.locale_manager, self.current_locale),
                    Seq::empty(),
                    nodes_view(self.ast@),
                    self.default_variables@ + vars@,
                );
                &&& (missing.len() > 0 ==> r is Err && err_view(r->Err_0)
                    == ErrV::RequiredVariablesMissing(missing))
                &&& (missing.len() == 0 && !all_inc ==> r is Err && err_view(r->Err_0)
                    is TemplateParsing)
                &&& (missing.len() == 0 && all_inc ==> {
                    &&& (r is Ok <==> sp is Ok)
                    &&& (r is Ok ==> r->Ok_0@ == sp->Ok_0)
                    &&& (r is Err ==> sp is Err && err_view(r->Err_0) == sp->Err_0)
                })
            }),
    {
        match self.validate_variables(vars) {
            Err(e) => Err(e),
            Ok(()) => match self.validate_includes(store) {
                Err(e) => Err(e),
                Ok(()) => {
                    let merged = self.default_variables.duplicate().extend_with(vars);
                    crate::executor::render_nodes(
                        store,
                        &self.locale_manager,
                        &self.current_locale,
                        &self.ast,
                        &merged,
                    )
                },
            },
        }
    }

    /// This template with one more accumulated variable.
    pub fn var(self, key: &str, value: JsonValue) -> (r: PromptTemplate)
        ensures
            r == (PromptTemplate { accumulated_variables: r.accumulated_variables, ..self }),
            r.accumulated_variables@ == self.accumulated_variables@.push(
                (key@, value_view(value)),
            ),
    {
        let accumulated_variables = self.accumulated_variables.set(key, value);
        PromptTemplate { accumulated_variables, ..self }
    }

    /// Render using the accumulated variables.
    pub fn render_with_vars(&self) -> (r: Result<String, Error>)
        ensures
            ({
                let missing = spec_missing_from(
                    strings_view(self.required_variables@),
                    self.accumulated_variables@,
                    0,
                );
                let sp = rd_nodes(
                    self.env(),
                    Seq::empty(),
                    nodes_view(self.ast@),
                    self.default_variables@ + self.accumulated_variables@,
                );
                &&& (missing.len() > 0 ==> r is Err && err_view(r->Err_0)
                    == ErrV::RequiredVariablesMissing(missing))
                &&& (missing.len() == 0 ==> {
                    &&& (r is Ok <==> sp is Ok)
                    &&& (r is Ok ==> r->Ok_0@ == sp->Ok_0)
                    &&& (r is Err ==> sp is Err && err_view(r->Err_0) == sp->Err_0)
                })
            }),
    {
        let vars = self.accumulated_variables.duplicate();
        self.render(&vars)
    }

    /// Render using the accumulated variables extended by `additional`,
    /// which win on a name clash.
    pub fn render_with_additional_vars(&self, additional: &VarMap) -> (r: Result<String, Error>)
        ensures
            ({
                let combined = self.accumulated_variables@ + additional@;
                let missing = spec_missing_from(
                    strings_view(self.required_variables@),
                    combined,
                    0,
                );
                let sp = rd_nodes(
                    self.env(),
                    Seq::empty(),
                    nodes_view(self.ast@),
                    self.default_variables@ + combined,
                );
                &&& (missing.len() > 0 ==> r is Err && err_view(r->Err_0)
                    == ErrV::RequiredVariablesMissing(missing))
                &&& (missing.len() == 0 ==> {
                    &&& (r is Ok <==> sp is Ok)
                    &&& (r is Ok ==> r->Ok_0@ == sp->Ok_0)
                    &&& (r is Err ==> sp is Err && err_view(r->Err_0) == sp->Err_0)
                })
            }),
    {
        let combined = self.accumulated_variables.duplicate().extend_with(additional);
        self.render(&combined)
    }
}

/// The entry registered under `name`; the latest registration wins.
pub open spec fn spec_named_get<T>(s: Seq<(Vec<char>, T)>, name: Seq<char>) -> Option<T>
    decreases s.len(),
{
    if s.len() == 0 {
        Option::None
    } else if s.last().0@ == name {
        Option::Some(s.last().1)
    } else {
        spec_named_get(s.drop_last(), name)
    }
}

/// A name is registered exactly when some entry carries it.
pub proof fn lemma_named_get_exists<T>(s: Seq<(Vec<char>, T)>, name: Seq<char>)
    ensures
        (spec_named_get(s, name) is Some) <==> (exists|j: int|
            0 <= j < s.len() && (#[trigger] s[j].0)@ == name),
    decreases s.len(),
{
    if s.len() > 0 {
        lemma_named_get_exists(s.drop_last(), name);
        if s.last().0@ == name {
            assert(s[s.len() - 1].0@ == name);
        } else {
            assert forall|j: int| 0 <= j < s.len() && (#[trigger] s[j].0)@ == name implies (
            exists|k: int| 0 <= k < s.drop_last().len() && (#[trigger] s.drop_last()[k].0)@
                == name) by {
                if j < s.len() - 1 {
                    assert(s.drop_last()[j].0@ == name);
                }
            }
        }
    }
}

/// Find an entry by name; the latest wins.
fn named_find<'a, T>(entries: &'a Vec<(Vec<char>, T)>, name: &Vec<char>) -> (r: Option<&'a T>)
    ensures
        match spec_named_get(entries@, name@) {
            Option::Some(t) => r is Some && *r.unwrap() == t,
            Option::None => r is None,
        },
{
    let ghost full = entries@;
    let mut i: usize = entries.len();
    proof {
        assert(full.subrange(0, full.len() as int) =~= full);
    }
    while i > 0
        invariant
            i <= entries@.len(),
            full == entries@,
            spec_named_get(full, name@) == spec_named_get(full.subrange(0, i as int), name@),
        decreases i,
    {
        i = i - 1;
        let hit = crate::value::chars_eq(&entries[i].0, name);
        proof {
            let cur = full.subrange(0, i + 1);
            assert(cur.last() == full[i as int]);
            if !hit {
                assert(cur.drop_last() =~= full.subrange(0, i as int));
            }
        }
        if hit {
            return Some(&entries[i].1);
        }
    }
    None
}

/// A directory-scoped registry: named templates and conversation templates,
/// a shared include store, and the set's active locale.
#[derive(Debug)]
pub struct TemplateSet {
    pub templates: Vec<(Vec<char>, PromptTemplate)>,
    pub conversations: Vec<(Vec<char>, crate::conversation::ConversationTemplate)>,
    pub store: TemplateStore,
    pub locale_manager: Option<LocaleManager>,
    pub current_locale: Vec<char>,
}

impl TemplateSet {
    /// An empty set at the default locale.
    pub fn new() -> (r: TemplateSet)
        ensures
            r.templates@.len() == 0,
            r.conversations@.len() == 0,
            r.store@ == Seq::<(Seq<char>, Seq<char>)>::empty(),
            r.locale_manager is None,
            r.current_locale@ == "en"@,
    {
        TemplateSet {
            templates: Vec::new(),
            conversations: Vec::new(),
            store: TemplateStore::new(),
            locale_manager: None,
            current_locale: str_to_chars("en"),
        }
    }

    /// This set with one more includable source under `path`.
    pub fn add_source(self, path: &str, content: &str) -> (r: TemplateSet)
        ensures
            r.store@ == self.store@.push((path@, content@)),
            r.templates@ == self.templates@,
            r.conversations@ == self.conversations@,
            r.current_locale@ == self.current_locale@,
    {
        TemplateSet { store: self.store.add(path, content), ..self }
    }

    /// This set with one more compiled template under `name`: the pushed
    /// member is exactly the compilation of `content`.
    pub fn add_template(self, name: &str, content: &str) -> (r: Result<TemplateSet, Error>)
        ensures
            r is Ok ==> r->Ok_0.templates@ == self.templates@.push(
                (r->Ok_0.templates@.last().0, r->Ok_0.templates@.last().1),
            ) && r->Ok_0.templates@.last().0@ == name@ && spec_compiled_from(
                r->Ok_0.templates@.last().1,
                content@,
            ) && r->Ok_0.conversations@ == self.conversations@ && r->Ok_0.store@ == self.store@
                && r->Ok_0.locale_manager == self.locale_manager && r->Ok_0.current_locale@
                == self.current_locale@,
            spec_split_frontmatter(content@).0 is None ==> (r is Ok <==> sp_parse(
                spec_split_frontmatter(content@).1,
            ) is Ok),
            r is Err ==> err_view(r->Err_0) is TemplateParsing,
    {
        match PromptTemplate::from_content(content) {
            Err(e) => Err(e),
            Ok(t) => {
                let mut templates = self.templates;
                templates.push((str_to_chars(name), t));
                Ok(TemplateSet { templates, ..self })
            },
        }
    }

    /// This set with one more conversation template under `name`: the
    /// pushed member's underlying template is exactly the compilation of
    /// `content`.
    pub fn add_conversation(self, name: &str, content: &str) -> (r: Result<TemplateSet, Error>)
        ensures
            r is Ok ==> r->Ok_0.conversations@ == self.conversations@.push(
                (r->Ok_0.conversations@.last().0, r->Ok_0.conversations@.last().1),
            ) && r->Ok_0.conversations@.last().0@ == name@ && spec_compiled_from(
                r->Ok_0.conversations@.last().1.template,
                content@,
            ) && r->Ok_0.templates@ == self.templates@ && r->Ok_0.store@ == self.store@
                && r->Ok_0.locale_manager == self.locale_manager && r->Ok_0.current_locale@
                == self.current_locale@,
            spec_split_frontmatter(content@).0 is None ==> (r is Ok <==> sp_parse(
                spec_split_frontmatter(content@).1,
            ) is Ok),
            r is Err ==> err_view(r->Err_0) is TemplateParsing,
    {
        match crate::conversation::ConversationTemplate::load_from_content(content) {
            Err(e) => Err(e),
            Ok(c) => {
                let mut conversations = self.conversations;
                conversations.push((str_to_chars(name), c));
                Ok(TemplateSet { conversations, ..self })
            },
        }
    }

    /// This set bound to another locale; every member, conversation
    /// templates included, renders under it through the set's render
    /// functions.
    pub fn with_locale(self, locale: &str) -> (r: Result<TemplateSet, Error>)
        ensures
            r is Ok,
            r->Ok_0.current_locale@ == locale@,
            r->Ok_0.templates@ == self.templates@,
            r->Ok_0.conversations@ == self.conversations@,
            r->Ok_0.store@ == self.store@,
    {
        Ok(TemplateSet { current_locale: str_to_chars(locale), ..self })
    }

    /// This set with a locale store attached.
    pub fn with_locale_manager(self, manager: LocaleManager) -> (r: TemplateSet)
        ensures
            r.locale_manager is Some && r.locale_manager->0@ == manager@,
            r.current_locale@ == self.current_locale@,
    {
        TemplateSet { locale_manager: Some(manager), ..self }
    }

    /// The set's active locale.
    pub fn current_locale(&self) -> (r: String)
        ensures
            r@ == self.current_locale@,
    {
        chars_to_string(&self.current_locale)
    }

    /// Is a template of this name registered?
    pub fn template_exists(&self, name: &str) -> (r: bool)
        ensures
            r == (exists|j: int|
                0 <= j < self.templates@.len() && (#[trigger] self.templates@[j].0)@ == name@),
    {
        proof {
            lemma_named_get_exists(self.templates@, name@);
        }
        named_find(&self.templates, &str_to_chars(name)).is_some()
    }

    /// Is a conversation template of this name registered?
    pub fn conversation_exists(&self, name: &str) -> (r: bool)
        ensures
            r == (exists|j: int|
                0 <= j < self.conversations@.len() && (#[trigger] self.conversations@[j].0)@
                    == name@),
    {
        proof {
            lemma_named_get_exists(self.conversations@, name@);
        }
        named_find(&self.conversations, &str_to_chars(name)).is_some()
    }

    /// The names of the registered templates, in registration order.
    pub fn list_templates(&self) -> (r: Vec<String>)
        ensures
            r@.len() == self.templates@.len(),
            forall|j: int| 0 <= j < r@.len() ==> (#[trigger] r@[j])@ == self.templates@[j].0@,
    {
        let mut out: Vec<String> = Vec::new();
        let mut i: usize = 0;
        while i < self.templates.len()
            invariant
                i <= self.templates@.len(),
                out@.len() == i,
                forall|j: int| 0 <= j < i ==> (#[trigger] out@[j])@ == self.templates@[j].0@,
            decreases self.templates@.len() - i,
        {
            out.push(chars_to_string(&self.templates[i].0));
            i = i + 1;
        }
        out
    }

    /// The names of the registered conversation templates, in order.
    pub fn list_conversations(&self) -> (r: Vec<String>)
        ensures
            r@.len() == self.conversations@.len(),
            forall|j: int| 0 <= j < r@.len() ==> (#[trigger] r@[j])@ == self.conversations@[j].0@,
    {
        let mut out: Vec<String> = Vec::new();
        let mut i: usize = 0;
        while i < self.conversations.len()
            invariant
                i <= self.conversations@.len(),
                out@.len() == i,
                forall|j: int| 0 <= j < i ==> (#[trigger] out@[j])@ == self.conversations@[j].0@,
            decreases self.conversations@.len() - i,
        {
            out.push(chars_to_string(&self.conversations[i].0));
            i = i + 1;
        }
        out
    }

    /// Render the named template against the set's store, locale store and
    /// active locale: required variables are checked, defaults merged under
    /// the caller's bindings, and the tree rendered. An unknown name is a
    /// template-parsing error.
    pub fn render(&self, name: &str, vars: &VarMap) -> (r: Result<String, Error>)
        ensures
            ({
                match spec_named_get(self.templates@, name@) {
                    Option::None => r is Err && err_view(r->Err_0) is TemplateParsing,
                    Option::Some(t) => {
                        let missing = spec_missing_from(
                            strings_view(t.required_variables@),
                            vars@,
                            0,
                        );
                        let sp = rd_nodes(
                            env_of(self.store, self.locale_manager, self.current_locale),
                            Seq::empty(),
                            nodes_view(t.ast@),
                            t.default_variables@ + vars@,
                        );
                        &&& (missing.len() > 0 ==> r is Err && err_view(r->Err_0)
                            == ErrV::RequiredVariablesMissing(missing))
                        &&& (missing.len() == 0 ==> {
                            &&& (r is Ok <==> sp is Ok)
                            &&& (r is Ok ==> r->Ok_0@ == sp->Ok_0)
                            &&& (r is Err ==> sp is Err && err_view(r->Err_0) == sp->Err_0)
                        })
                    },
                }
            }),
    {
        let key = str_to_chars(name);
        match named_find(&self.templates, &key) {
            None => Err(
                Error::TemplateParsing(
                    String::from_str("Template not found: ").concat(name),
                ),
            ),
            Some(t) => match t.validate_variables(vars) {
                Err(e) => Err(e),
                Ok(()) => {
                    let merged = t.default_variables.duplicate().extend_with(vars);
                    crate::executor::render_nodes(
                        &self.store,
                        &self.locale_manager,
                        &self.current_locale,
                        &t.ast,
                        &merged,
                    )
                },
            },
        }
    }

    /// Render the named conversation template into role-tagged turns,
    /// against the set's store, locale store and active locale, so a bulk
    /// locale switch reaches conversation members too; an unknown name is a
    /// template-parsing error.
    pub fn render_conversation(&self, name: &str, vars: &VarMap) -> (r: Result<
        crate::messages::Messages,
        Error,
    >)
        ensures
            ({
                match spec_named_get(self.conversations@, name@) {
                    Option::None => r is Err && err_view(r->Err_0) is TemplateParsing,
                    Option::Some(c) => {
                        let missing = spec_missing_from(
                            strings_view(c.template.required_variables@),
                            vars@,
                            0,
                        );
                        let sp = rd_nodes(
                            env_of(self.store, self.locale_manager, self.current_locale),
                            Seq::empty(),
                            nodes_view(c.template.ast@),
                            c.template.default_variables@ + vars@,
                        );
                        &&& (missing.len() > 0 ==> r is Err && err_view(r->Err_0)
                            == ErrV::RequiredVariablesMissing(missing))
                        &&& (missing.len() == 0 ==> {
                            &&& (r is Ok <==> sp is Ok)
                            &&& (r is Ok ==> crate::conversation::msgs_match(
                                r->Ok_0.messages@,
                                crate::conversation::spec_conversation(sp->Ok_0),
                            ))
                            &&& (r is Err ==> sp is Err && err_view(r->Err_0) == sp->Err_0)
                        })
                    },
                }
            }),
    {
        let key = str_to_chars(name);
        match named_find(&self.conversations, &key) {
            None => Err(
                Error::TemplateParsing(
                    String::from_str("Conversation template not found: ").concat(name),
                ),
            ),
            Some(c) => match c.template.validate_variables(vars) {
                Err(e) => Err(e),
                Ok(()) => {
                    let merged = c.template.default_variables.duplicate().extend_with(vars);
                    match crate::executor::render_nodes(
                        &self.store,
                        &self.locale_manager,
                        &self.current_locale,
                        &c.template.ast,
                        &merged,
                    ) {
                        Err(e) => Err(e),
                        Ok(text) => {
                            let cs = str_to_chars(text.as_str());
                            Ok(crate::conversation::parse_conversation(&cs))
                        },
                    }
                },
            },
        }
    }
}

} // verus!
