//! The locale store: per-locale translation tables, the fallback chain,
//! dotted-key lookup, parameter interpolation and text direction.
//!
//! Stores are built from data handed in by the caller (parsed YAML texts or
//! ready values); nothing here touches the file system.

use vstd::prelude::*;
use crate::value::{
    JsonValue, ValueV, value_view, entries_view, spec_assoc_get, spec_dec_chars, spec_json,
    value_clone, push_chars, assoc_get, dec_chars, lemma_entries_view_len,
    lemma_entries_view_index,
};
use crate::chars::{
    spec_split_from, spec_find_char, spec_replace_from, split_from, find_char_from, replace_from,
    str_to_chars, chars_to_string, copy_range,
};
use crate::value::{chars_eq, clone_entries};
use crate::error::{Error, ErrV, err_view};

verus! {

/// Text direction for right-to-left language support.
#[derive(Clone, Copy, Debug, PartialEq, Eq, Structural)]
pub enum TextDirection {
    LeftToRight,
    RightToLeft,
}

/// The model of a [`LocaleData`].
pub struct LdV {
    pub locale: Seq<char>,
    pub strings: Seq<(Seq<char>, ValueV)>,
    pub text_direction: TextDirection,
}

/// The model of a [`LocaleManager`].
pub struct LmV {
    pub default_locale: Seq<char>,
    pub locales: Seq<(Seq<char>, Seq<(Seq<char>, ValueV)>)>,
}

/// Locale-specific data: translations and formatting metadata.
#[derive(Clone, Debug)]
pub struct LocaleData {
    pub locale: Vec<char>,
    pub strings: Vec<(Vec<char>, JsonValue)>,
    pub text_direction: TextDirection,
}

/// Manages locale data and resolves the fallback chain.
#[derive(Clone, Debug)]
pub struct LocaleManager {
    pub default_locale: Vec<char>,
    pub locales: Vec<(Vec<char>, LocaleData)>,
}

/// Model of the manager's list of locales.
pub open spec fn locales_view(s: Seq<(Vec<char>, LocaleData)>) -> Seq<
    (Seq<char>, Seq<(Seq<char>, ValueV)>),
>
    decreases s,
{
    if s.len() == 0 {
        Seq::empty()
    } else {
        seq![(s[0].0@, entries_view(s[0].1.strings@))] + locales_view(s.drop_first())
    }
}

impl View for LocaleData {
    type V = LdV;

    open spec fn view(&self) -> LdV {
        LdV {
            locale: self.locale@,
            strings: entries_view(self.strings@),
            text_direction: self.text_direction,
        }
    }
}

impl View for LocaleManager {
    type V = LmV;

    open spec fn view(&self) -> LmV {
        LmV { default_locale: self.default_locale@, locales: locales_view(self.locales@) }
    }
}

pub proof fn lemma_locales_view_len(s: Seq<(Vec<char>, LocaleData)>)
    ensures
        locales_view(s).len() == s.len(),
    decreases s,
{
    if s.len() > 0 {
        lemma_locales_view_len(s.drop_first());
    }
}

pub proof fn lemma_locales_view_index(s: Seq<(Vec<char>, LocaleData)>, i: int)
    requires
        0 <= i < s.len(),
    ensures
        locales_view(s).len() == s.len(),
        locales_view(s)[i] == (s[i].0@, entries_view(s[i].1.strings@)),
    decreases s,
{
    lemma_locales_view_len(s);
    if i > 0 {
        lemma_locales_view_index(s.drop_first(), i - 1);
    }
}

/// Look a locale id up among the loaded locales; the latest entry wins.
pub open spec fn spec_locales_get(
    s: Seq<(Seq<char>, Seq<(Seq<char>, ValueV)>)>,
    id: Seq<char>,
) -> Option<Seq<(Seq<char>, ValueV)>>
    decreases s.len(),
{
    if s.len() == 0 {
        Option::None
    } else if s.last().0 == id {
        Option::Some(s.last().1)
    } else {
        spec_locales_get(s.drop_last(), id)
    }
}

/// The one table several parsed documents merge into: their top-level
/// entries concatenated in document order, so a later document wins on a
/// key clash under the latest-binding-wins lookup; a non-mapping document
/// refuses the merge.
pub open spec fn spec_docs_table(ds: Seq<ValueV>, i: int) -> Option<Seq<(Seq<char>, ValueV)>>
    decreases ds.len() - i,
{
    if i < 0 || i >= ds.len() {
        Option::Some(Seq::empty())
    } else {
        match ds[i] {
            ValueV::Obj(es) => match spec_docs_table(ds, i + 1) {
                Option::Some(rest) => Option::Some(es + rest),
                Option::None => Option::None,
            },
            _ => Option::None,
        }
    }
}

/// The language-only prefix of a locale id: the text before the first dash,
/// or the whole id when there is none.
pub open spec fn spec_parent_locale(id: Seq<char>) -> Seq<char> {
    match spec_find_char(id, '-', 0) {
        Option::Some(j) => if 0 <= j <= id.len() {
            id.subrange(0, j)
        } else {
            id
        },
        Option::None => id,
    }
}

/// The locale id the fallback chain settles on: the requested id, then its
/// language prefix, then the store's default, the first with data winning.
pub open spec fn spec_resolve_locale(lm: LmV, requested: Seq<char>) -> Option<Seq<char>> {
    if spec_locales_get(lm.locales, requested) is Some {
        Option::Some(requested)
    } else if spec_locales_get(lm.locales, spec_parent_locale(requested)) is Some {
        Option::Some(spec_parent_locale(requested))
    } else if spec_locales_get(lm.locales, lm.default_locale) is Some {
        Option::Some(lm.default_locale)
    } else {
        Option::None
    }
}

/// Walk the remaining segments of a dotted key through nested objects.
pub open spec fn spec_walk_path(v: ValueV, parts: Seq<Seq<char>>, i: int) -> Option<ValueV>
    decreases parts.len() - i,
{
    if i < 0 || i >= parts.len() {
        Option::Some(v)
    } else {
        match v {
            ValueV::Obj(entries) => match spec_assoc_get(entries, parts[i]) {
                Option::Some(child) => spec_walk_path(child, parts, i + 1),
                Option::None => Option::None,
            },
            _ => Option::None,
        }
    }
}

/// Resolve a dotted key against a translation table.
pub open spec fn spec_get_nested(
    strings: Seq<(Seq<char>, ValueV)>,
    key: Seq<char>,
) -> Option<ValueV> {
    let parts = spec_split_from(key, '.', 0);
    if parts.len() == 0 {
        Option::None
    } else {
        match spec_assoc_get(strings, parts[0]) {
            Option::Some(root) => spec_walk_path(root, parts, 1),
            Option::None => Option::None,
        }
    }
}

/// The translation string at a dotted key, if the key leads to a string.
pub open spec fn spec_get_string(
    strings: Seq<(Seq<char>, ValueV)>,
    key: Seq<char>,
) -> Option<Seq<char>> {
    match spec_get_nested(strings, key) {
        Option::Some(ValueV::Str(s)) => Option::Some(s),
        _ => Option::None,
    }
}

/// How a value reads when interpolated into a translation string: strings
/// verbatim, numbers in decimal, booleans as words, anything else in its
/// encoded form.
pub open spec fn spec_interp_chars(v: ValueV) -> Seq<char> {
    match v {
        ValueV::Str(s) => s,
        ValueV::Num(d) => spec_dec_chars(d),
        ValueV::Bool(b) => if b {
            seq!['t', 'r', 'u', 'e']
        } else {
            seq!['f', 'a', 'l', 's', 'e']
        },
        _ => spec_json(v),
    }
}

/// Substitute `{name}` placeholders for the parameters from `i` on, in
/// order; unresolved placeholders stay as they are.
pub open spec fn spec_apply_params(
    t: Seq<char>,
    vars: Seq<(Seq<char>, ValueV)>,
    i: int,
) -> Seq<char>
    decreases vars.len() - i,
{
    if i < 0 || i >= vars.len() {
        t
    } else {
        let placeholder = seq!['{'] + vars[i].0 + seq!['}'];
        spec_apply_params(
            spec_replace_from(t, placeholder, spec_interp_chars(vars[i].1), 0),
            vars,
            i + 1,
        )
    }
}

/// Interpolate parameters into the translation at `key`, or report that the
/// key is absent from this locale.
pub open spec fn spec_interpolate(
    ld: LdV,
    key: Seq<char>,
    vars: Seq<(Seq<char>, ValueV)>,
) -> Result<Seq<char>, ErrV> {
    match spec_get_string(ld.strings, key) {
        Option::Some(t) => Result::Ok(spec_apply_params(t, vars, 0)),
        Option::None => Result::Err(ErrV::I18nKeyNotFound { key, locale: ld.locale }),
    }
}

/// The language codes written right to left unless the data says otherwise.
pub open spec fn spec_rtl_language(lang: Seq<char>) -> bool {
    lang == "ar"@ || lang == "he"@ || lang == "fa"@ || lang == "ur"@
}

/// The direction of a locale: an explicit `text_direction: rtl` entry wins,
/// else the language prefix decides.
pub open spec fn spec_text_direction(
    id: Seq<char>,
    strings: Seq<(Seq<char>, ValueV)>,
) -> TextDirection {
    let explicit = spec_assoc_get(strings, "text_direction"@);
    if explicit matches Option::Some(ValueV::Str(d)) && d == "rtl"@ {
        TextDirection::RightToLeft
    } else if spec_rtl_language(spec_parent_locale(id)) {
        TextDirection::RightToLeft
    } else {
        TextDirection::LeftToRight
    }
}

/// A locale data value is well formed when its stored direction is the one
/// its id and table dictate.
pub open spec fn ld_wf(ld: LdV) -> bool {
    ld.text_direction == spec_text_direction(ld.locale, ld.strings)
}

/// Walk the remaining segments of a dotted key through nested objects.
pub(crate) fn walk_path<'a>(v: &'a JsonValue, parts: &Vec<Vec<char>>, i: usize) -> (r: Option<&'a JsonValue>)
    requires
        i <= parts@.len(),
    ensures
        match spec_walk_path(value_view(*v), crate::node::strs_view(parts@), i as int) {
            Option::Some(vv) => r.is_some() && value_view(*r.unwrap()) == vv,
            Option::None => r.is_none(),
        },
    decreases parts@.len() - i,
{
    if i >= parts.len() {
        return Some(v);
    }
    match v {
        JsonValue::Obj(entries) => {
            proof {
                assert(crate::node::strs_view(parts@)[i as int] == parts@[i as int]@);
            }
            match assoc_get(entries, &parts[i]) {
                Some(child) => walk_path(child, parts, i + 1),
                None => None,
            }
        },
        _ => None,
    }
}

/// Resolve a dotted key against a translation table.
fn get_nested<'a>(strings: &'a Vec<(Vec<char>, JsonValue)>, key: &Vec<char>) -> (r: Option<
    &'a JsonValue,
>)
    ensures
        match spec_get_nested(entries_view(strings@), key@) {
            Option::Some(vv) => r.is_some() && value_view(*r.unwrap()) == vv,
            Option::None => r.is_none(),
        },
{
    let parts = split_from(key, '.', 0);
    proof {
        assert(crate::node::strs_view(parts@) =~= spec_split_from(key@, '.', 0));
    }
    if parts.len() == 0 {
        return None;
    }
    match assoc_get(strings, &parts[0]) {
        Some(root) => walk_path(root, &parts, 1),
        None => None,
    }
}

/// Render a value for interpolation into a translation string.
pub fn interp_value_chars(v: &JsonValue) -> (r: Vec<char>)
    ensures
        r@ == spec_interp_chars(value_view(*v)),
{
    match v {
        JsonValue::Str(s) => {
            let mut out: Vec<char> = Vec::new();
            push_chars(&mut out, s);
            proof {
                assert(out@ =~= s@);
            }
            out
        },
        JsonValue::Num(d) => dec_chars(d),
        JsonValue::Bool(b) => {
            let mut out: Vec<char> = Vec::new();
            if *b {
                out.push('t');
                out.push('r');
                out.push('u');
                out.push('e');
            } else {
                out.push('f');
                out.push('a');
                out.push('l');
                out.push('s');
                out.push('e');
            }
            proof {
                assert(out@ =~= spec_interp_chars(value_view(*v)));
            }
            out
        },
        _ => {
            let mut out: Vec<char> = Vec::new();
            crate::value::json_into(&mut out, v);
            out
        },
    }
}

/// Substitute every parameter's `{name}` placeholder into `t`, in binding
/// order.
pub fn apply_params(t: Vec<char>, variables: &crate::value::VarMap) -> (r: Vec<char>)
    ensures
        r@ == spec_apply_params(t@, variables@, 0),
{
    let entries = variables.entries_ref();
    let ghost vv = variables@;
    let mut cur = t;
    let mut k: usize = 0;
    proof {
        lemma_entries_view_len(entries@);
    }
    while k < entries.len()
        invariant
            k <= entries@.len(),
            entries@.len() == vv.len(),
            entries_view(entries@) == vv,
            spec_apply_params(cur@, vv, k as int) == spec_apply_params(t@, vv, 0),
        decreases entries@.len() - k,
    {
        proof {
            lemma_entries_view_index(entries@, k as int);
        }
        let mut placeholder: Vec<char> = Vec::new();
        placeholder.push('{');
        push_chars(&mut placeholder, &entries[k].0);
        placeholder.push('}');
        proof {
            assert(placeholder@ =~= seq!['{'] + vv[k as int].0 + seq!['}']);
        }
        let repl = interp_value_chars(&entries[k].1);
        cur = replace_from(&cur, &placeholder, &repl, 0);
        k = k + 1;
    }
    cur
}

impl LocaleData {
    /// The id this data was requested under.
    pub fn locale_id(&self) -> (r: String)
        ensures
            r@ == self@.locale,
    {
        chars_to_string(&self.locale)
    }

    /// The translation string at a dotted key, if it leads to a string.
    pub fn get_string(&self, key: &str) -> (r: Option<String>)
        ensures
            match spec_get_string(self@.strings, key@) {
                Option::Some(t) => r.is_some() && r.unwrap()@ == t,
                Option::None => r.is_none(),
            },
    {
        let kc = str_to_chars(key);
        match get_nested(&self.strings, &kc) {
            Some(v) => match v {
                JsonValue::Str(s) => Some(chars_to_string(s)),
                _ => None,
            },
            None => None,
        }
    }

    /// Interpolate the variables into the translation at `key`: each
    /// `{name}` placeholder is replaced by the variable's text, in binding
    /// order; placeholders without a variable stay. Fails exactly when the
    /// key is absent.
    pub fn interpolate(&self, key: &str, variables: &crate::value::VarMap) -> (r: Result<
        String,
        Error,
    >)
        ensures
            ({
                let sp = spec_interpolate(self@, key@, variables@);
                &&& (r is Ok <==> sp is Ok)
                &&& (r is Ok ==> r->Ok_0@ == sp->Ok_0)
                &&& (r is Err ==> err_view(r->Err_0) == sp->Err_0)
            }),
    {
        let kc = str_to_chars(key);
        match self.get_string_chars(&kc) {
            Some(t) => {
                let out = self.apply_params_chars(t, variables);
                Ok(chars_to_string(&out))
            },
            None => Err(
                Error::I18nKeyNotFound {
                    key: chars_to_string(&kc),
                    locale: chars_to_string(&self.locale),
                },
            ),
        }
    }

    /// The translation string at a dotted key given as characters.
    fn get_string_chars(&self, key: &Vec<char>) -> (r: Option<Vec<char>>)
        ensures
            match spec_get_string(self@.strings, key@) {
                Option::Some(t) => r.is_some() && r.unwrap()@ == t,
                Option::None => r.is_none(),
            },
    {
        match get_nested(&self.strings, key) {
            Some(v) => match v {
                JsonValue::Str(s) => {
                    let mut out: Vec<char> = Vec::new();
                    push_chars(&mut out, s);
                    proof {
                        assert(out@ =~= s@);
                    }
                    Some(out)
                },
                _ => None,
            },
            None => None,
        }
    }

    fn apply_params_chars(&self, t: Vec<char>, variables: &crate::value::VarMap) -> (r: Vec<char>)
        ensures
            r@ == spec_apply_params(t@, variables@, 0),
    {
        apply_params(t, variables)
    }

    /// This locale's text direction, `"ltr"` or `"rtl"`.
    pub fn text_direction(&self) -> (r: &'static str)
        ensures
            self@.text_direction == TextDirection::RightToLeft ==> r@ == "rtl"@,
            self@.text_direction == TextDirection::LeftToRight ==> r@ == "ltr"@,
    {
        match self.text_direction {
            TextDirection::LeftToRight => "ltr",
            TextDirection::RightToLeft => "rtl",
        }
    }

    /// This locale's direction as a value.
    pub fn direction(&self) -> (r: TextDirection)
        ensures
            r == self@.text_direction,
    {
        self.text_direction
    }
}

proof fn lemma_locales_view_subrange(s: Seq<(Vec<char>, LocaleData)>, i: int)
    requires
        0 <= i <= s.len(),
    ensures
        locales_view(s.subrange(0, i)).len() == i,
        forall|j: int|
            0 <= j < i ==> locales_view(s.subrange(0, i))[j] == (
                s[j].0@,
                entries_view(s[j].1.strings@),
            ),
{
    lemma_locales_view_len(s.subrange(0, i));
    assert forall|j: int| 0 <= j < i implies locales_view(s.subrange(0, i))[j] == (
        s[j].0@,
        entries_view(s[j].1.strings@),
    ) by {
        lemma_locales_view_index(s.subrange(0, i), j);
    }
}

/// Find the data loaded under `id`; the latest entry wins.
fn locales_find<'a>(locales: &'a Vec<(Vec<char>, LocaleData)>, id: &Vec<char>) -> (r: Option<
    &'a LocaleData,
>)
    ensures
        match spec_locales_get(locales_view(locales@), id@) {
            Option::Some(strs) => r.is_some() && entries_view(r.unwrap().strings@) == strs,
            Option::None => r.is_none(),
        },
{
    let ghost full = locales_view(locales@);
    let mut i: usize = locales.len();
    proof {
        assert(locales@.subrange(0, locales@.len() as int) =~= locales@);
    }
    while i > 0
        invariant
            i <= locales@.len(),
            full == locales_view(locales@),
            spec_locales_get(full, id@) == spec_locales_get(
                locales_view(locales@.subrange(0, i as int)),
                id@,
            ),
        decreases i,
    {
        i = i - 1;
        let hit = chars_eq(&locales[i].0, id);
        proof {
            lemma_locales_view_subrange(locales@, i + 1);
            lemma_locales_view_subrange(locales@, i as int);
            let cur = locales_view(locales@.subrange(0, i + 1));
            assert(cur.last() == (locales@[i as int].0@, entries_view(
                locales@[i as int].1.strings@,
            )));
            if !hit {
                assert(cur.drop_last() =~= locales_view(locales@.subrange(0, i as int)));
            }
        }
        if hit {
            return Some(&locales[i].1);
        }
    }
    proof {
        assert(locales@.subrange(0, 0) =~= Seq::<(Vec<char>, LocaleData)>::empty());
    }
    None
}

/// The language-only prefix of a locale id.
fn parent_locale(id: &Vec<char>) -> (r: Vec<char>)
    ensures
        r@ == spec_parent_locale(id@),
{
    proof {
        crate::chars::lemma_find_char_in_range(id@, '-', 0);
    }
    match find_char_from(id, '-', 0) {
        Some(j) => copy_range(id, 0, j),
        None => {
            let mut r: Vec<char> = Vec::new();
            push_chars(&mut r, id);
            proof {
                assert(r@ =~= id@);
            }
            r
        },
    }
}

/// The text direction of a locale id with the given table.
fn direction_of(id: &Vec<char>, strings: &Vec<(Vec<char>, JsonValue)>) -> (r: TextDirection)
    ensures
        r == spec_text_direction(id@, entries_view(strings@)),
{
    let key = str_to_chars("text_direction");
    let explicit_rtl = match assoc_get(strings, &key) {
        Some(v) => match v {
            JsonValue::Str(d) => chars_eq(d, &str_to_chars("rtl")),
            _ => false,
        },
        None => false,
    };
    if explicit_rtl {
        return TextDirection::RightToLeft;
    }
    let lang = parent_locale(id);
    if chars_eq(&lang, &str_to_chars("ar")) || chars_eq(&lang, &str_to_chars("he")) || chars_eq(
        &lang,
        &str_to_chars("fa"),
    ) || chars_eq(&lang, &str_to_chars("ur")) {
        TextDirection::RightToLeft
    } else {
        TextDirection::LeftToRight
    }
}

/// Whether a locale id has a plausible shape: ASCII letters, digits, dashes
/// and underscores, not ending in a dash or underscore.
pub open spec fn spec_is_valid_locale(id: Seq<char>) -> bool {
    &&& id.len() > 0
    &&& forall|i: int| 0 <= i < id.len() ==> spec_is_locale_char(id[i])
    &&& id.last() != '-'
    &&& id.last() != '_'
}

/// The characters a locale id may hold.
pub open spec fn spec_is_locale_char(c: char) -> bool {
    ||| 'a' as u32 <= c as u32 && c as u32 <= 'z' as u32
    ||| 'A' as u32 <= c as u32 && c as u32 <= 'Z' as u32
    ||| '0' as u32 <= c as u32 && c as u32 <= '9' as u32
    ||| c == '-'
    ||| c == '_'
}

impl LocaleManager {
    /// An empty store with the given default locale.
    pub fn new(default_locale: &str) -> (r: LocaleManager)
        ensures
            r@.default_locale == default_locale@,
            r@.locales == Seq::<(Seq<char>, Seq<(Seq<char>, ValueV)>)>::empty(),
    {
        let r = LocaleManager { default_locale: str_to_chars(default_locale), locales: Vec::new() };
        proof {
            assert(r@.locales =~= Seq::<(Seq<char>, Seq<(Seq<char>, ValueV)>)>::empty());
        }
        r
    }

    /// The configured default locale.
    pub fn default_locale_id(&self) -> (r: String)
        ensures
            r@ == self@.default_locale,
    {
        chars_to_string(&self.default_locale)
    }

    /// Install translation data for `id` from an object value; anything
    /// else is refused.
    pub fn add_locale_data(self, id: &str, strings: JsonValue) -> (r: Result<LocaleManager, Error>)
        ensures
            value_view(strings) is Obj ==> r is Ok && r->Ok_0@.default_locale
                == self@.default_locale && r->Ok_0@.locales == self@.locales.push(
                (id@, value_view(strings)->Obj_0),
            ),
            !(value_view(strings) is Obj) ==> r is Err && err_view(r->Err_0) matches ErrV::Config(
                _,
            ),
    {
        match strings {
            JsonValue::Obj(entries) => {
                let idc = str_to_chars(id);
                let dir = direction_of(&idc, &entries);
                let ghost pre = self.locales@;
                let mut locales = self.locales;
                locales.push((idc, LocaleData { locale: str_to_chars(id), strings: entries, text_direction: dir }));
                proof {
                    lemma_locales_view_len(pre);
                    lemma_locales_view_len(locales@);
                    assert forall|j: int| 0 <= j < locales@.len() implies locales_view(locales@)[j]
                        == locales_view(pre).push(
                        (id@, value_view(strings)->Obj_0),
                    )[j] by {
                        lemma_locales_view_index(locales@, j);
                        if j < pre.len() {
                            lemma_locales_view_index(pre, j);
                        }
                    }
                    assert(locales_view(locales@) =~= locales_view(pre).push(
                        (id@, value_view(strings)->Obj_0),
                    ));
                }
                Ok(LocaleManager { default_locale: self.default_locale, locales })
            },
            other => {
                let _ = other;
                Err(Error::Config(String::from_str("locale data must be a mapping")))
            },
        }
    }

    /// Install translation data for `id` from YAML documents, merged in the
    /// given order with later files overriding earlier ones on a key clash.
    /// Callers wanting deterministic merges pass the files sorted by name.
    /// Install translation data for `id` from parsed documents: every
    /// document must be a mapping, and the table is their top-level entries
    /// concatenated in document order, so a later document wins on a key
    /// clash under the latest-binding-wins lookup. The stored direction
    /// follows the direction rule on that table.
    pub fn add_locale_documents(self, id: &str, docs: &Vec<JsonValue>) -> (r: Result<
        LocaleManager,
        Error,
    >)
        ensures
            r is Ok <==> spec_docs_table(crate::value::values_view(docs@), 0) is Some,
            r is Ok ==> r->Ok_0@.default_locale == self@.default_locale && r->Ok_0@.locales
                == self@.locales.push(
                (id@, spec_docs_table(crate::value::values_view(docs@), 0).unwrap()),
            ) && r->Ok_0.locales@.last().1@.locale == id@
                && r->Ok_0.locales@.last().1@.text_direction == spec_text_direction(
                id@,
                spec_docs_table(crate::value::values_view(docs@), 0).unwrap(),
            ),
            r is Err ==> err_view(r->Err_0) is TemplateParsing,
    {
        let ghost dv = crate::value::values_view(docs@);
        let mut merged: Vec<(Vec<char>, JsonValue)> = Vec::new();
        let mut i: usize = 0;
        proof {
            crate::value::lemma_values_view_len(docs@);
            assert(entries_view(merged@) =~= Seq::<(Seq<char>, ValueV)>::empty());
        }
        while i < docs.len()
            invariant
                i <= docs@.len(),
                dv == crate::value::values_view(docs@),
                dv.len() == docs@.len(),
                spec_docs_table(dv, 0) == (match spec_docs_table(dv, i as int) {
                    Option::Some(rest) => Option::Some(entries_view(merged@) + rest),
                    Option::None => Option::<Seq<(Seq<char>, ValueV)>>::None,
                }),
            decreases docs@.len() - i,
        {
            proof {
                crate::value::lemma_values_view_index(docs@, i as int);
            }
            match &docs[i] {
                JsonValue::Obj(es) => {
                    let ghost pre = entries_view(merged@);
                    crate::value::append_cloned_entries(&mut merged, es);
                    proof {
                        assert(dv[i as int] == ValueV::Obj(entries_view(es@)));
                        if spec_docs_table(dv, i + 1) is Some {
                            assert(pre + (entries_view(es@) + spec_docs_table(
                                dv,
                                i + 1,
                            ).unwrap()) =~= entries_view(merged@) + spec_docs_table(
                                dv,
                                i + 1,
                            ).unwrap());
                        }
                    }
                },
                _ => {
                    proof {
                        assert(!(dv[i as int] is Obj));
                    }
                    return Err(
                        Error::TemplateParsing(
                            String::from_str("Failed to parse locale file: not a mapping"),
                        ),
                    );
                },
            }
            i = i + 1;
        }
        proof {
            assert(spec_docs_table(dv, docs@.len() as int) == Option::Some(
                Seq::<(Seq<char>, ValueV)>::empty(),
            ));
            assert(entries_view(merged@) + Seq::<(Seq<char>, ValueV)>::empty() =~= entries_view(
                merged@,
            ));
        }
        let idc = str_to_chars(id);
        let dir = direction_of(&idc, &merged);
        let ghost pre = self.locales@;
        let ghost mergedv = entries_view(merged@);
        let mut locales = self.locales;
        locales.push(
            (idc, LocaleData { locale: str_to_chars(id), strings: merged, text_direction: dir }),
        );
        proof {
            lemma_locales_view_len(pre);
            lemma_locales_view_len(locales@);
            assert forall|j: int| 0 <= j < locales@.len() implies locales_view(locales@)[j]
                == locales_view(pre).push((id@, mergedv))[j] by {
                lemma_locales_view_index(locales@, j);
                if j < pre.len() {
                    lemma_locales_view_index(pre, j);
                }
            }
            assert(locales_view(locales@) =~= locales_view(pre).push((id@, mergedv)));
        }
        Ok(LocaleManager { default_locale: self.default_locale, locales })
    }

    /// Install translation data for `id` from YAML documents, merged in the
    /// given order by [`LocaleManager::add_locale_documents`], so later
    /// files override earlier ones on a key clash. Callers wanting
    /// deterministic merges pass the files sorted by name. What a given
    /// text parses to cannot be stated here; with no files at all the
    /// installed table is exactly empty, and any success installs one entry
    /// under `id` whose direction follows the direction rule.
    pub fn add_locale_yaml(self, id: &str, files: &Vec<String>) -> (r: Result<LocaleManager, Error>)
        ensures
            files@.len() == 0 ==> r is Ok && r->Ok_0@.locales == self@.locales.push(
                (id@, Seq::<(Seq<char>, ValueV)>::empty()),
            ),
            r is Ok ==> r->Ok_0@.default_locale == self@.default_locale && (exists|
                t: Seq<(Seq<char>, ValueV)>,
            |
                r->Ok_0@.locales == #[trigger] self@.locales.push((id@, t)))
                && r->Ok_0.locales@.last().1@.locale == id@
                && r->Ok_0.locales@.last().1@.text_direction == spec_text_direction(
                id@,
                r->Ok_0.locales@.last().1@.strings,
            ),
            r is Err ==> err_view(r->Err_0) is TemplateParsing,
    {
        let mut docs: Vec<JsonValue> = Vec::new();
        let mut i: usize = 0;
        while i < files.len()
            invariant
                i <= files@.len(),
                docs@.len() == i,
            decreases files@.len() - i,
        {
            match crate::yaml::parse_yaml(files[i].as_str()) {
                Ok(v) => {
                    docs.push(v);
                },
                Err(m) => {
                    return Err(
                        Error::TemplateParsing(
                            String::from_str("Failed to parse locale file: ").concat(m.as_str()),
                        ),
                    );
                },
            }
            i = i + 1;
        }
        proof {
            if files@.len() == 0 {
                crate::value::lemma_values_view_len(docs@);
                assert(crate::value::values_view(docs@) =~= Seq::<ValueV>::empty());
            }
        }
        let ghost selfv = self@;
        let r = self.add_locale_documents(id, &docs);
        proof {
            if r is Ok {
                let table = spec_docs_table(crate::value::values_view(docs@), 0).unwrap();
                assert(r->Ok_0@.locales == selfv.locales.push((id@, table)));
                lemma_locales_view_len(r->Ok_0.locales@);
                lemma_locales_view_index(r->Ok_0.locales@, r->Ok_0.locales@.len() - 1);
                assert(r->Ok_0@.locales.last() == (id@, table));
                assert(r->Ok_0.locales@.last().1@.strings == table);
            }
        }
        r
    }

    /// Apply the fallback chain to a requested locale: the requested id,
    /// then its language prefix, then the default; the first with data
    /// wins, and with no data anywhere the locale is reported missing.
    pub fn resolve_locale(&self, requested: &str) -> (r: Result<String, Error>)
        ensures
            ({
                let sp = spec_resolve_locale(self@, requested@);
                &&& (r is Ok <==> sp is Some)
                &&& (r is Ok ==> r->Ok_0@ == sp.unwrap())
                &&& (r is Err ==> err_view(r->Err_0) == ErrV::LocaleNotFound(requested@))
            }),
    {
        let req = str_to_chars(requested);
        if locales_find(&self.locales, &req).is_some() {
            return Ok(chars_to_string(&req));
        }
        let parent = parent_locale(&req);
        if locales_find(&self.locales, &parent).is_some() {
            return Ok(chars_to_string(&parent));
        }
        if locales_find(&self.locales, &self.default_locale).is_some() {
            return Ok(chars_to_string(&self.default_locale));
        }
        Err(Error::LocaleNotFound { locale: chars_to_string(&req) })
    }

    /// The data for a requested locale, under the requested id, resolved
    /// through the fallback chain; its direction follows the requested id
    /// and the resolved table.
    pub fn get_locale(&self, locale: &str) -> (r: Result<LocaleData, Error>)
        ensures
            ({
                let sp = spec_resolve_locale(self@, locale@);
                &&& (r is Ok <==> sp is Some)
                &&& (r is Ok ==> r->Ok_0@.locale == locale@ && Option::Some(r->Ok_0@.strings)
                    == spec_locales_get(self@.locales, sp.unwrap()) && r->Ok_0@.text_direction
                    == spec_text_direction(locale@, r->Ok_0@.strings) && ld_wf(r->Ok_0@))
                &&& (r is Err ==> err_view(r->Err_0) == ErrV::LocaleNotFound(locale@))
            }),
    {
        let req = str_to_chars(locale);
        let found = match locales_find(&self.locales, &req) {
            Some(ld) => Some(ld),
            None => {
                let parent = parent_locale(&req);
                match locales_find(&self.locales, &parent) {
                    Some(ld) => Some(ld),
                    None => locales_find(&self.locales, &self.default_locale),
                }
            },
        };
        match found {
            Some(ld) => {
                let strings = clone_entries(&ld.strings);
                let dir = direction_of(&req, &strings);
                Ok(LocaleData { locale: req, strings, text_direction: dir })
            },
            None => Err(Error::LocaleNotFound { locale: chars_to_string(&req) }),
        }
    }

    /// Basic shape validation of a locale id: letters, digits, dashes and
    /// underscores only, not ending in a dash or underscore.
    pub fn is_valid_locale(&self, locale: &str) -> (r: bool)
        ensures
            r == spec_is_valid_locale(locale@),
    {
        let id = str_to_chars(locale);
        if id.len() == 0 {
            return false;
        }
        let mut i: usize = 0;
        while i < id.len()
            invariant
                i <= id@.len(),
                id@ == locale@,
                forall|j: int| 0 <= j < i ==> spec_is_locale_char(id@[j]),
        decreases id@.len() - i,
        {
            let c = id[i];
            let u = c as u32;
            let ok = ('a' as u32 <= u && u <= 'z' as u32) || ('A' as u32 <= u && u <= 'Z' as u32)
                || ('0' as u32 <= u && u <= '9' as u32) || c == '-' || c == '_';
            if !ok {
                proof {
                    assert(!spec_is_locale_char(locale@[i as int]));
                    assert(!spec_is_valid_locale(locale@));
                }
                return false;
            }
            i = i + 1;
        }
        let last = id[id.len() - 1];
        proof {
            assert(id@.last() == id@[id@.len() - 1]);
        }
        last != '-' && last != '_'
    }
}

} // verus!
