//! Config-driven template engine for API request building and response extraction.
//!
//! - `render_template` walks a JSON template replacing `{var}` placeholders;
//! - `extract_strings` follows a dot-notation path with `[*]` wildcards;
//! - `infer_service_type` guesses a model's service type from its name;
//! - the default DashScope request templates for text2img, img2img and translate.

use vstd::prelude::*;

use crate::json::{
    items_view, json_view, lemma_items_view, lemma_members_view, members_view, Json, JsonValue,
};
use crate::models::config::ServiceType;
use crate::services::image_utils::{data_uri, format_data_uri};
use crate::text::{
    chars_of, count_char, count_of, occurs_at, ends_with, has_infix, has_prefix, has_suffix, replace_all,
    replace_chars, starts_with, str_contains, string_of, string_of_all,
};

verus! {

// ── Template variables ──

/// The variables of a template: distinct names, each with a JSON value, in
/// insertion order.
pub struct TemplateVars {
    entries: Vec<(String, Json)>,
}

/// The model of a list of variables.
pub open spec fn entries_view(s: Seq<(String, Json)>) -> Seq<(Seq<char>, JsonValue)> {
    s.map_values(|e: (String, Json)| (e.0@, e.1@))
}

/// No name occurs twice among the variables.
pub open spec fn distinct_names(s: Seq<(Seq<char>, JsonValue)>) -> bool {
    forall|i: int, j: int| 0 <= i < s.len() && 0 <= j < s.len() && i != j ==> s[i].0 != s[j].0
}

/// The value of the variable `key`, if there is one.
pub open spec fn lookup(s: Seq<(Seq<char>, JsonValue)>, key: Seq<char>) -> Option<JsonValue>
    decreases s.len(),
{
    if s.len() == 0 {
        None
    } else if s[0].0 == key {
        Some(s[0].1)
    } else {
        lookup(s.drop_first(), key)
    }
}

impl View for TemplateVars {
    type V = Seq<(Seq<char>, JsonValue)>;

    closed spec fn view(&self) -> Seq<(Seq<char>, JsonValue)> {
        entries_view(self.entries@)
    }
}

/// Looking a name up past the first `i` variables, none of which has it,
/// is looking it up in all of them.
proof fn lemma_lookup_skip(s: Seq<(Seq<char>, JsonValue)>, key: Seq<char>, i: int)
    requires
        0 <= i <= s.len(),
        forall|j: int| 0 <= j < i ==> s[j].0 != key,
    ensures
        lookup(s, key) == lookup(s.skip(i), key),
    decreases i,
{
    if i > 0 {
        assert(s.skip(1).skip(i - 1) =~= s.skip(i));
        lemma_lookup_skip(s.drop_first(), key, i - 1);
    } else {
        assert(s.skip(0) =~= s);
    }
}

/// Among distinct names, the variable at index `i` is the one found.
proof fn lemma_lookup_found(s: Seq<(Seq<char>, JsonValue)>, key: Seq<char>, i: int)
    requires
        0 <= i < s.len(),
        s[i].0 == key,
        distinct_names(s),
    ensures
        lookup(s, key) == Some(s[i].1),
{
    lemma_lookup_skip(s, key, i);
    assert(s.skip(i)[0] == s[i]);
}

/// A name that no variable has is not found.
proof fn lemma_lookup_absent(s: Seq<(Seq<char>, JsonValue)>, key: Seq<char>)
    requires
        forall|j: int| 0 <= j < s.len() ==> s[j].0 != key,
    ensures
        lookup(s, key) == None::<JsonValue>,
{
    lemma_lookup_skip(s, key, s.len() as int);
}

/// Whether two character sequences are equal.
fn same_chars(a: &Vec<char>, b: &Vec<char>) -> (r: bool)
    ensures
        r == (a@ == b@),
{
    if a.len() != b.len() {
        return false;
    }
    assert(a@.subrange(0, b@.len() as int) =~= a@);
    starts_with(a, b)
}

impl TemplateVars {
    #[verifier::type_invariant]
    closed spec fn names_distinct(self) -> bool {
        distinct_names(entries_view(self.entries@))
    }

    /// No variables.
    pub fn new() -> (v: TemplateVars)
        ensures
            v@ == Seq::<(Seq<char>, JsonValue)>::empty(),
    {
        let v = TemplateVars { entries: Vec::new() };
        assert(v@ =~= Seq::<(Seq<char>, JsonValue)>::empty());
        v
    }

    /// The position of the variable `key`, if it is set.
    fn position(&self, key: &Vec<char>) -> (r: Option<usize>)
        ensures
            match r {
                Some(i) => i < self@.len() && self@[i as int].0 == key@,
                None => forall|j: int| 0 <= j < self@.len() ==> self@[j].0 != key@,
            },
    {
        let mut i: usize = 0;
        while i < self.entries.len()
            invariant
                i <= self.entries@.len(),
                self@ == entries_view(self.entries@),
                forall|j: int| 0 <= j < i ==> self@[j].0 != key@,
            decreases self.entries.len() - i,
        {
            let ev = chars_of(self.entries[i].0.as_str());
            if same_chars(&ev, key) {
                return Some(i);
            }
            i = i + 1;
        }
        None
    }

    /// The value of the variable `key`, if it is set.
    pub fn get(&self, key: &Vec<char>) -> (r: Option<&Json>)
        ensures
            match r {
                Some(j) => lookup(self@, key@) == Some(j@),
                None => lookup(self@, key@) == None::<JsonValue>,
            },
    {
        proof {
            use_type_invariant(self);
        }
        match self.position(key) {
            Some(i) => {
                proof {
                    lemma_lookup_found(self@, key@, i as int);
                }
                Some(&self.entries[i].1)
            },
            None => {
                proof {
                    lemma_lookup_absent(self@, key@);
                }
                None
            },
        }
    }

    /// The number of variables.
    pub fn len(&self) -> (n: usize)
        ensures
            n == self@.len(),
    {
        self.entries.len()
    }

    /// The name and value of the `i`-th variable.
    pub fn entry(&self, i: usize) -> (r: (&String, &Json))
        requires
            i < self@.len(),
        ensures
            r.0@ == self@[i as int].0,
            r.1@ == self@[i as int].1,
    {
        (&self.entries[i].0, &self.entries[i].1)
    }

    /// Sets the variable `key` to `value`: replaces its value where `key` is
    /// already set, else adds it after the others.
    pub fn insert(&mut self, key: &str, value: Json)
        ensures
            distinct_names(final(self)@),
            lookup(final(self)@, key@) == Some(value@),
            forall|k: Seq<char>| k != key@ ==> #[trigger] lookup(final(self)@, k) == lookup(old(self)@, k),
            (exists|i: int| 0 <= i < old(self)@.len() && old(self)@[i].0 == key@) ==> final(self)@
                == old(self)@.update(
                choose|i: int| 0 <= i < old(self)@.len() && old(self)@[i].0 == key@,
                (key@, value@),
            ),
            (forall|i: int| 0 <= i < old(self)@.len() ==> old(self)@[i].0 != key@) ==> final(self)@
                == old(self)@.push((key@, value@)),
    {
        proof {
            use_type_invariant(&*self);
        }
        let kv = chars_of(key);
        let ghost before = self@;
        match self.position(&kv) {
            Some(i) => {
                let name = string_of_all(&kv);
                let mut entries: Vec<(String, Json)> = Vec::new();
                std::mem::swap(&mut entries, &mut self.entries);
                entries.set(i, (name, value));
                assert(entries_view(entries@) =~= before.update(i as int, (key@, value@)));
                assert(distinct_names(entries_view(entries@)));
                self.entries = entries;
                assert(self@ =~= before.update(i as int, (key@, value@)));
            },
            None => {
                let name = string_of_all(&kv);
                let mut entries: Vec<(String, Json)> = Vec::new();
                std::mem::swap(&mut entries, &mut self.entries);
                entries.push((name, value));
                assert(entries_view(entries@) =~= before.push((key@, value@)));
                assert(distinct_names(entries_view(entries@)));
                self.entries = entries;
                assert(self@ =~= before.push((key@, value@)));
            },
        }
        proof {
            use_type_invariant(&*self);
            lemma_insert_lookups(before, self@, key@, value@);
        }
    }
}

/// Looking names up after setting `key` to `value`: `key` gives `value`,
/// any other name gives what it gave before.
proof fn lemma_insert_lookups(
    before: Seq<(Seq<char>, JsonValue)>,
    after: Seq<(Seq<char>, JsonValue)>,
    key: Seq<char>,
    value: JsonValue,
)
    requires
        distinct_names(before),
        distinct_names(after),
        (exists|i: int| 0 <= i < before.len() && before[i].0 == key) ==> after == before.update(
            choose|i: int| 0 <= i < before.len() && before[i].0 == key,
            (key, value),
        ),
        (forall|i: int| 0 <= i < before.len() ==> before[i].0 != key) ==> after == before.push(
            (key, value),
        ),
    ensures
        lookup(after, key) == Some(value),
        forall|k: Seq<char>| k != key ==> #[trigger] lookup(after, k) == lookup(before, k),
{
    if exists|i: int| 0 <= i < before.len() && before[i].0 == key {
        let i = choose|i: int| 0 <= i < before.len() && before[i].0 == key;
        lemma_lookup_found(after, key, i);
        assert forall|k: Seq<char>| k != key implies #[trigger] lookup(after, k) == lookup(before, k) by {
            if exists|j: int| 0 <= j < before.len() && before[j].0 == k {
                let j = choose|j: int| 0 <= j < before.len() && before[j].0 == k;
                lemma_lookup_found(before, k, j);
                lemma_lookup_found(after, k, j);
            } else {
                lemma_lookup_absent(before, k);
                lemma_lookup_absent(after, k);
            }
        }
    } else {
        lemma_lookup_found(after, key, before.len() as int);
        assert forall|k: Seq<char>| k != key implies #[trigger] lookup(after, k) == lookup(before, k) by {
            if exists|j: int| 0 <= j < before.len() && before[j].0 == k {
                let j = choose|j: int| 0 <= j < before.len() && before[j].0 == k;
                lemma_lookup_found(before, k, j);
                lemma_lookup_found(after, k, j);
            } else {
                lemma_lookup_absent(before, k);
                lemma_lookup_absent(after, k);
            }
        }
    }
}

// ── Template Rendering ──

/// The placeholder text for a variable name: `{name}`.
pub open spec fn brace(name: Seq<char>) -> Seq<char> {
    seq!['{'] + name + seq!['}']
}

/// A string with each `{name}` of a string-valued variable replaced by the
/// variable's text, the variables taken in order.
pub open spec fn substitute(s: Seq<char>, vars: Seq<(Seq<char>, JsonValue)>) -> Seq<char>
    decreases vars.len(),
{
    if vars.len() == 0 {
        s
    } else {
        let prev = substitute(s, vars.drop_last());
        match vars.last().1 {
            JsonValue::Str(v) => replace_all(prev, brace(vars.last().0), v),
            _ => prev,
        }
    }
}

/// The whole string is one placeholder `{name}`: it starts with `{`, ends
/// with `}` and holds no other `{`.
pub open spec fn is_whole_placeholder(s: Seq<char>) -> bool {
    has_prefix(s, seq!['{']) && has_suffix(s, seq!['}']) && count_char(s, '{') == 1
}

/// The result of rendering a template:
/// - a string that is one placeholder `{var}` becomes the variable's value,
///   or is omitted (`None`) where the variable is not set;
/// - any other string has its embedded placeholders of string-valued
///   variables replaced by their text;
/// - objects and arrays are rendered member by member, omitted members dropped;
/// - numbers, booleans and null are kept.
pub open spec fn render(t: JsonValue, vars: Seq<(Seq<char>, JsonValue)>) -> Option<JsonValue>
    decreases t, 0int,
{
    match t {
        JsonValue::Str(s) => if is_whole_placeholder(s) {
            lookup(vars, s.subrange(1, s.len() - 1))
        } else {
            Some(JsonValue::Str(substitute(s, vars)))
        },
        JsonValue::Array(items) => Some(JsonValue::Array(render_items(items, vars))),
        JsonValue::Object(members) => Some(JsonValue::Object(render_members(members, vars))),
        _ => Some(t),
    }
}

/// The rendered items of an array, the omitted ones dropped.
pub open spec fn render_items(items: Seq<JsonValue>, vars: Seq<(Seq<char>, JsonValue)>) -> Seq<
    JsonValue,
>
    decreases items, 1int,
{
    if items.len() == 0 {
        Seq::empty()
    } else {
        let prev = render_items(items.drop_last(), vars);
        match render(items.last(), vars) {
            Some(v) => prev.push(v),
            None => prev,
        }
    }
}

/// The rendered members of an object, the omitted ones dropped.
pub open spec fn render_members(
    members: Seq<(Seq<char>, JsonValue)>,
    vars: Seq<(Seq<char>, JsonValue)>,
) -> Seq<(Seq<char>, JsonValue)>
    decreases members, 1int,
{
    if members.len() == 0 {
        Seq::empty()
    } else {
        let prev = render_members(members.drop_last(), vars);
        match render(members.last().1, vars) {
            Some(v) => prev.push((members.last().0, v)),
            None => prev,
        }
    }
}

// ── Templates without placeholders ──

/// `s` holds no `{`.
pub open spec fn no_open_brace(s: Seq<char>) -> bool {
    forall|i: int| 0 <= i < s.len() ==> s[i] != '{'
}

/// No string of the tree holds a `{`, so it holds no placeholder.
pub open spec fn brace_free(t: JsonValue) -> bool
    decreases t, 0int,
{
    match t {
        JsonValue::Str(s) => no_open_brace(s),
        JsonValue::Array(items) => brace_free_items(items),
        JsonValue::Object(members) => brace_free_members(members),
        _ => true,
    }
}

pub open spec fn brace_free_items(items: Seq<JsonValue>) -> bool
    decreases items, 1int,
{
    if items.len() == 0 {
        true
    } else {
        brace_free_items(items.drop_last()) && brace_free(items.last())
    }
}

pub open spec fn brace_free_members(members: Seq<(Seq<char>, JsonValue)>) -> bool
    decreases members, 1int,
{
    if members.len() == 0 {
        true
    } else {
        brace_free_members(members.drop_last()) && brace_free(members.last().1)
    }
}

proof fn lemma_replace_absent(s: Seq<char>, p: Seq<char>, r: Seq<char>)
    requires
        no_open_brace(s),
        p.len() > 0,
        p[0] == '{',
    ensures
        replace_all(s, p, r) == s,
    decreases s.len(),
{
    if s.len() >= p.len() {
        assert(s.take(p.len() as int)[0] != p[0]);
        lemma_replace_absent(s.skip(1), p, r);
        assert(seq![s[0]] + s.skip(1) =~= s);
    }
}

proof fn lemma_substitute_absent(s: Seq<char>, vars: Seq<(Seq<char>, JsonValue)>)
    requires
        no_open_brace(s),
    ensures
        substitute(s, vars) == s,
    decreases vars.len(),
{
    if vars.len() > 0 {
        lemma_substitute_absent(s, vars.drop_last());
        let b = brace(vars.last().0);
        assert(b[0] == '{');
        match vars.last().1 {
            JsonValue::Str(v) => lemma_replace_absent(s, b, v),
            _ => {},
        }
    }
}

/// A template in which no string holds a `{` renders to itself, whatever
/// the variables: numbers, booleans and null pass through, and strings,
/// arrays and objects without placeholders are kept as they are.
pub proof fn law_render_without_placeholders(t: JsonValue, vars: Seq<(Seq<char>, JsonValue)>)
    requires
        brace_free(t),
    ensures
        render(t, vars) == Some(t),
    decreases t, 0int,
{
    match t {
        JsonValue::Str(s) => {
            if s.len() > 0 {
                assert(s.subrange(0, 1)[0] != '{');
                assert(s.subrange(0, 1) != seq!['{']);
            }
            assert(!has_prefix(s, seq!['{']));
            lemma_substitute_absent(s, vars);
        },
        JsonValue::Array(items) => lemma_render_items_identity(items, vars),
        JsonValue::Object(members) => lemma_render_members_identity(members, vars),
        _ => {},
    }
}

proof fn lemma_render_items_identity(items: Seq<JsonValue>, vars: Seq<(Seq<char>, JsonValue)>)
    requires
        brace_free_items(items),
    ensures
        render_items(items, vars) == items,
    decreases items, 1int,
{
    if items.len() > 0 {
        lemma_render_items_identity(items.drop_last(), vars);
        law_render_without_placeholders(items.last(), vars);
        assert(items.drop_last().push(items.last()) =~= items);
    }
}

proof fn lemma_render_members_identity(
    members: Seq<(Seq<char>, JsonValue)>,
    vars: Seq<(Seq<char>, JsonValue)>,
)
    requires
        brace_free_members(members),
    ensures
        render_members(members, vars) == members,
    decreases members, 1int,
{
    if members.len() > 0 {
        lemma_render_members_identity(members.drop_last(), vars);
        law_render_without_placeholders(members.last().1, vars);
        assert(members.drop_last().push((members.last().0, members.last().1)) =~= members);
    }
}

pub proof fn lemma_count_concat(a: Seq<char>, b: Seq<char>, c: char)
    ensures
        count_char(a + b, c) == count_char(a, c) + count_char(b, c),
    decreases b.len(),
{
    if b.len() == 0 {
        assert(a + b =~= a);
    } else {
        assert((a + b).drop_last() =~= a + b.drop_last());
        lemma_count_concat(a, b.drop_last(), c);
    }
}

pub proof fn lemma_count_none(s: Seq<char>, c: char)
    requires
        forall|i: int| 0 <= i < s.len() ==> s[i] != c,
    ensures
        count_char(s, c) == 0,
    decreases s.len(),
{
    if s.len() > 0 {
        lemma_count_none(s.drop_last(), c);
    }
}

/// `{name}` is a whole placeholder for `name`, where `name` holds no `{`.
pub proof fn lemma_whole_placeholder(name: Seq<char>)
    requires
        no_open_brace(name),
    ensures
        is_whole_placeholder(brace(name)),
        brace(name).subrange(1, brace(name).len() - 1) == name,
{
    let b = brace(name);
    lemma_count_concat(seq!['{'] + name, seq!['}'], '{');
    lemma_count_concat(seq!['{'], name, '{');
    lemma_count_none(name, '{');
    lemma_count_none(seq!['}'], '{');
    assert(count_char(seq!['{'], '{') == 1) by {
        assert(seq!['{'].drop_last() =~= Seq::<char>::empty());
        assert(count_char(Seq::<char>::empty(), '{') == 0);
        assert(seq!['{'].last() == '{');
    }
    assert(b.subrange(0, 1) =~= seq!['{']);
    assert(b.subrange(b.len() - 1, b.len() as int) =~= seq!['}']);
    assert(b.subrange(1, b.len() - 1) =~= name);
}

/// How `s` has no `c` when `c` occurs in it no times.
pub proof fn lemma_count_zero(s: Seq<char>, c: char)
    requires
        count_char(s, c) == 0,
    ensures
        forall|i: int| 0 <= i < s.len() ==> s[i] != c,
    decreases s.len(),
{
    if s.len() > 0 {
        lemma_count_zero(s.drop_last(), c);
        assert forall|i: int| 0 <= i < s.len() implies s[i] != c by {
            if i < s.len() - 1 {
                assert(s.drop_last()[i] == s[i]);
            }
        }
    }
}

/// Rendering a string: a string that is not of the form `{name}`, with no
/// `{` inside the name, is never looked up as a variable. So a string that
/// holds no `{` or more than one `{`, that is empty, or that does not start
/// with `{` and end with `}` renders to itself with every embedded
/// `{name}` of a string variable replaced, and is never omitted.
pub proof fn law_render_interpolates_other_strings(s: Seq<char>, vars: Seq<(Seq<char>, JsonValue)>)
    ensures
        (forall|name: Seq<char>| no_open_brace(name) ==> s != #[trigger] brace(name)) ==> render(
            JsonValue::Str(s),
            vars,
        ) == Some(JsonValue::Str(substitute(s, vars))),
        count_char(s, '{') != 1 ==> render(JsonValue::Str(s), vars) == Some(
            JsonValue::Str(substitute(s, vars)),
        ),
        (s.len() == 0 || s[0] != '{' || s[s.len() - 1] != '}') ==> render(JsonValue::Str(s), vars)
            == Some(JsonValue::Str(substitute(s, vars))),
{
    if is_whole_placeholder(s) {
        assert(s.subrange(0, 1)[0] == s[0]);
        assert(s.subrange(s.len() - 1, s.len() as int)[0] == s[s.len() - 1]);
        let name = s.subrange(1, s.len() - 1);
        assert(seq![s[0]] + name + seq![s[s.len() - 1]] =~= s);
        lemma_count_concat(seq![s[0]], name + seq![s[s.len() - 1]], '{');
        lemma_count_concat(name, seq![s[s.len() - 1]], '{');
        assert(seq![s[0]] + (name + seq![s[s.len() - 1]]) =~= s);
        assert(count_char(seq![s[0]], '{') == 1) by {
            assert(seq![s[0]].drop_last() =~= Seq::<char>::empty());
        }
        lemma_count_zero(name, '{');
        assert(brace(name) =~= s);
    }
}

/// Rendering a whole placeholder: the string `{name}`, where the name holds
/// no `{`, renders to the value of the variable `name`, whatever its type,
/// and is omitted where `name` is not set.
pub proof fn law_render_whole_placeholder(name: Seq<char>, vars: Seq<(Seq<char>, JsonValue)>)
    requires
        no_open_brace(name),
    ensures
        render(JsonValue::Str(brace(name)), vars) == lookup(vars, name),
        lookup(vars, name) is None ==> render(JsonValue::Str(brace(name)), vars) is None,
{
    lemma_whole_placeholder(name);
}

/// The model of an optional JSON value.
pub open spec fn opt_json(o: Option<Json>) -> Option<JsonValue> {
    match o {
        Some(j) => Some(j@),
        None => None,
    }
}

/// The characters `v[from..to]`.
pub fn slice_chars(v: &Vec<char>, from: usize, to: usize) -> (r: Vec<char>)
    requires
        from <= to <= v@.len(),
    ensures
        r@ == v@.subrange(from as int, to as int),
{
    let mut r: Vec<char> = Vec::new();
    let mut i = from;
    while i < to
        invariant
            from <= i <= to,
            to <= v@.len(),
            r@ == v@.subrange(from as int, i as int),
        decreases to - i,
    {
        r.push(v[i]);
        assert(v@.subrange(from as int, i + 1) == v@.subrange(from as int, i as int).push(v@[i as int]));
        i = i + 1;
    }
    r
}

/// `s` with the placeholders of string-valued variables replaced.
fn substitute_vars(s: &Vec<char>, vars: &TemplateVars) -> (r: Vec<char>)
    ensures
        r@ == substitute(s@, vars@),
{
    let mut cur: Vec<char> = Vec::new();
    let mut k: usize = 0;
    while k < s.len()
        invariant
            k <= s@.len(),
            cur@ == s@.take(k as int),
        decreases s.len() - k,
    {
        cur.push(s[k]);
        assert(s@.take(k + 1) == s@.take(k as int).push(s@[k as int]));
        k = k + 1;
    }
    assert(s@.take(s@.len() as int) == s@);
    assert(vars@.take(0) =~= Seq::<(Seq<char>, JsonValue)>::empty());
    let n = vars.len();
    let mut i: usize = 0;
    while i < n
        invariant
            i <= n,
            n == vars@.len(),
            cur@ == substitute(s@, vars@.take(i as int)),
        decreases n - i,
    {
        let (name, value) = vars.entry(i);
        assert(vars@.take(i + 1).drop_last() == vars@.take(i as int));
        assert(vars@.take(i + 1).last() == vars@[i as int]);
        match value {
            Json::String(text) => {
                let mut pat: Vec<char> = Vec::new();
                pat.push('{');
                let nv = chars_of(name.as_str());
                let mut j: usize = 0;
                while j < nv.len()
                    invariant
                        j <= nv@.len(),
                        pat@ == seq!['{'] + nv@.take(j as int),
                    decreases nv.len() - j,
                {
                    pat.push(nv[j]);
                    assert(nv@.take(j + 1) == nv@.take(j as int).push(nv@[j as int]));
                    j = j + 1;
                }
                pat.push('}');
                assert(nv@.take(nv@.len() as int) == nv@);
                assert(pat@ =~= brace(name@));
                let tv = chars_of(text.as_str());
                cur = replace_chars(&cur, &pat, &tv);
            },
            _ => {},
        }
        i = i + 1;
    }
    assert(vars@.take(n as int) =~= vars@);
    cur
}

/// Render a JSON template by replacing `{placeholder}` variables with values.
///
/// - If a string value is a single placeholder `{var}` and the var exists,
///   it is replaced by the var's value (supporting non-string replacement).
/// - If the var does not exist, the field is omitted (returns `None`).
/// - Embedded placeholders in strings are replaced as string interpolation.
/// - Objects are recursed; keys whose value renders to `None` are omitted.
/// - Arrays are recursed; items that render to `None` are dropped.
/// - Non-string primitives (numbers, booleans, null) pass through unchanged.
pub fn render_template(template: &Json, vars: &TemplateVars) -> (r: Option<Json>)
    ensures
        opt_json(r) == render(template@, vars@),
    decreases template,
{
    match template {
        Json::String(s) => {
            let sv = chars_of(s.as_str());
            let open_brace = vec!['{'];
            let close_brace = vec!['}'];
            assert(open_brace@ =~= seq!['{']);
            assert(close_brace@ =~= seq!['}']);
            if starts_with(&sv, &open_brace) && ends_with(&sv, &close_brace) && count_of(&sv, '{')
                == 1 {
                let key = slice_chars(&sv, 1, sv.len() - 1);
                match vars.get(&key) {
                    Some(j) => Some(j.duplicate()),
                    None => None,
                }
            } else {
                let out = substitute_vars(&sv, vars);
                Some(Json::String(string_of_all(&out)))
            }
        },
        Json::Array(items) => Some(Json::Array(render_items_of(items, vars))),
        Json::Object(members) => Some(Json::Object(render_members_of(members, vars))),
        Json::Null => Some(Json::Null),
        Json::Bool(b) => Some(Json::Bool(*b)),
        Json::Number(n) => Some(Json::Number(n.clone())),
    }
}

fn render_items_of(v: &Vec<Json>, vars: &TemplateVars) -> (r: Vec<Json>)
    ensures
        items_view(r@) == render_items(items_view(v@), vars@),
    decreases v,
{
    let mut r: Vec<Json> = Vec::new();
    let mut i: usize = 0;
    assert(v@.take(0) =~= Seq::<Json>::empty());
    while i < v.len()
        invariant
            i <= v@.len(),
            items_view(r@) == render_items(items_view(v@.take(i as int)), vars@),
        decreases v.len() - i,
    {
        assert(v@.take(i + 1).drop_last() == v@.take(i as int));
        assert(v@.take(i + 1).last() == v@[i as int]);
        let ghost before = r@;
        let ghost prefix = items_view(v@.take(i as int));
        assert(items_view(v@.take(i + 1)) == prefix.push(json_view(v@[i as int])));
        assert(prefix.push(json_view(v@[i as int])).drop_last() == prefix);
        let x = render_template(&v[i], vars);
        match x {
            Some(x) => {
                r.push(x);
                assert(r@.drop_last() == before);
                assert(items_view(r@) == items_view(before).push(json_view(x)));
            },
            None => {},
        }
        i = i + 1;
    }
    assert(v@.take(v@.len() as int) == v@);
    r
}

fn render_members_of(m: &Vec<(String, Json)>, vars: &TemplateVars) -> (r: Vec<(String, Json)>)
    ensures
        members_view(r@) == render_members(members_view(m@), vars@),
    decreases m,
{
    let mut r: Vec<(String, Json)> = Vec::new();
    let mut i: usize = 0;
    assert(m@.take(0) =~= Seq::<(String, Json)>::empty());
    while i < m.len()
        invariant
            i <= m@.len(),
            members_view(r@) == render_members(members_view(m@.take(i as int)), vars@),
        decreases m.len() - i,
    {
        assert(m@.take(i + 1).drop_last() == m@.take(i as int));
        assert(m@.take(i + 1).last() == m@[i as int]);
        let ghost before = r@;
        let ghost prefix = members_view(m@.take(i as int));
        let ghost entry = (m@[i as int].0@, json_view(m@[i as int].1));
        assert(members_view(m@.take(i + 1)) == prefix.push(entry));
        assert(prefix.push(entry).drop_last() == prefix);
        let x = render_template(&m[i].1, vars);
        match x {
            Some(x) => {
                let k = m[i].0.clone();
                r.push((k, x));
                assert(r@.drop_last() == before);
                assert(members_view(r@) == members_view(before).push((k@, json_view(x))));
            },
            None => {},
        }
        i = i + 1;
    }
    assert(m@.take(m@.len() as int) == m@);
    r
}

// ── Response Value Extraction ──

/// Segment of a parsed dot-notation path.
#[derive(Debug)]
pub enum Segment {
    /// Object key access: `"output"`, `"results"`, `"url"`
    Key(String),
    /// Array wildcard: `[*]`, every element of an array
    Wildcard,
}

/// The model of a [`Segment`].
pub enum SegmentSpec {
    Key(Seq<char>),
    Wildcard,
}

impl View for Segment {
    type V = SegmentSpec;

    open spec fn view(&self) -> SegmentSpec {
        match self {
            Segment::Key(k) => SegmentSpec::Key(k@),
            Segment::Wildcard => SegmentSpec::Wildcard,
        }
    }
}

/// The model of a list of segments.
pub open spec fn segments_view(s: Seq<Segment>) -> Seq<SegmentSpec> {
    s.map_values(|g: Segment| g@)
}

/// `s` split at every `c`, as `str::split` does: `"a..b"` gives `["a", "", "b"]`
/// and the empty string gives `[""]`.
pub open spec fn split_on(s: Seq<char>, c: char) -> Seq<Seq<char>>
    decreases s.len(),
{
    if s.len() == 0 {
        seq![Seq::<char>::empty()]
    } else {
        let prev = split_on(s.drop_last(), c);
        if s.last() == c {
            prev.push(Seq::<char>::empty())
        } else {
            prev.update(prev.len() - 1, prev.last().push(s.last()))
        }
    }
}

proof fn lemma_split_nonempty(s: Seq<char>, c: char)
    ensures
        split_on(s, c).len() >= 1,
    decreases s.len(),
{
    if s.len() > 0 {
        lemma_split_nonempty(s.drop_last(), c);
    }
}

/// The wildcard suffix `[*]`.
pub open spec fn wildcard_suffix() -> Seq<char> {
    seq!['[', '*', ']']
}

/// The segments of one dot-separated part: none for an empty part; for a
/// part ending in `[*]`, the key before it (when not empty) and a wildcard;
/// else the part as a key.
pub open spec fn part_segments(part: Seq<char>) -> Seq<SegmentSpec> {
    if part.len() == 0 {
        Seq::empty()
    } else if has_suffix(part, wildcard_suffix()) {
        let key = part.take(part.len() - 3);
        if key.len() == 0 {
            seq![SegmentSpec::Wildcard]
        } else {
            seq![SegmentSpec::Key(key), SegmentSpec::Wildcard]
        }
    } else {
        seq![SegmentSpec::Key(part)]
    }
}

/// The segments of a list of parts, in order.
pub open spec fn parts_segments(parts: Seq<Seq<char>>) -> Seq<SegmentSpec>
    decreases parts.len(),
{
    if parts.len() == 0 {
        Seq::empty()
    } else {
        parts_segments(parts.drop_last()) + part_segments(parts.last())
    }
}

/// The segments of a dot-notation path.
pub open spec fn path_segments(path: Seq<char>) -> Seq<SegmentSpec> {
    parts_segments(split_on(path, '.'))
}

fn push_part_segments(segs: &mut Vec<Segment>, part: &Vec<char>)
    ensures
        segments_view(final(segs)@) == segments_view(old(segs)@) + part_segments(part@),
{
    let ghost before = segs@;
    if part.len() == 0 {
        assert(segments_view(segs@) =~= segments_view(before) + part_segments(part@));
        return;
    }
    let suffix = vec!['[', '*', ']'];
    assert(suffix@ =~= wildcard_suffix());
    if ends_with(part, &suffix) {
        let key = slice_chars(part, 0, part.len() - 3);
        assert(key@ =~= part@.take(part@.len() - 3));
        if key.len() > 0 {
            segs.push(Segment::Key(string_of_all(&key)));
        }
        segs.push(Segment::Wildcard);
    } else {
        segs.push(Segment::Key(string_of_all(part)));
    }
    assert(segments_view(segs@) =~= segments_view(before) + part_segments(part@));
}

/// Parse a dot-notation path into segments.
///
/// `"output.results[*].url"` → `[Key("output"), Key("results"), Wildcard, Key("url")]`
pub fn parse_path(path: &str) -> (segs: Vec<Segment>)
    ensures
        segments_view(segs@) == path_segments(path@),
{
    let pv = chars_of(path);
    let mut segs: Vec<Segment> = Vec::new();
    let mut cur: Vec<char> = Vec::new();
    let mut i: usize = 0;
    assert(pv@.take(0) =~= Seq::<char>::empty());
    assert(segments_view(segs@) =~= Seq::<SegmentSpec>::empty());
    while i < pv.len()
        invariant
            i <= pv@.len(),
            split_on(pv@.take(i as int), '.').len() >= 1,
            segments_view(segs@) == parts_segments(split_on(pv@.take(i as int), '.').drop_last()),
            cur@ == split_on(pv@.take(i as int), '.').last(),
        decreases pv.len() - i,
    {
        let ghost sp = split_on(pv@.take(i as int), '.');
        assert(pv@.take(i + 1).drop_last() == pv@.take(i as int));
        assert(pv@.take(i + 1).last() == pv@[i as int]);
        assert(sp.drop_last().push(sp.last()) == sp);
        if pv[i] == '.' {
            push_part_segments(&mut segs, &cur);
            cur = Vec::new();
            assert(split_on(pv@.take(i + 1), '.') == sp.push(Seq::<char>::empty()));
            assert(sp.push(Seq::<char>::empty()).drop_last() == sp);
            assert(cur@ =~= Seq::<char>::empty());
        } else {
            cur.push(pv[i]);
            let ghost sp2 = split_on(pv@.take(i + 1), '.');
            assert(sp2 == sp.update(sp.len() - 1, sp.last().push(pv@[i as int])));
            assert(sp2.drop_last() =~= sp.drop_last());
        }
        i = i + 1;
    }
    assert(pv@.take(pv@.len() as int) == pv@);
    let ghost sp = split_on(pv@, '.');
    assert(sp.drop_last().push(sp.last()) == sp);
    push_part_segments(&mut segs, &cur);
    segs
}

/// `s` holds no square bracket.
pub open spec fn no_brackets(s: Seq<char>) -> bool {
    forall|i: int| 0 <= i < s.len() ==> s[i] != '[' && s[i] != ']'
}

/// One dot-separated part of a valid path: not empty; a key without square
/// brackets, optionally followed by the wildcard `[*]` (which may also
/// stand alone).
pub open spec fn valid_part(part: Seq<char>) -> bool {
    part.len() > 0 && no_brackets(
        if has_suffix(part, wildcard_suffix()) {
            part.take(part.len() - 3)
        } else {
            part
        },
    )
}

/// Every part of a list is valid.
pub open spec fn valid_parts(parts: Seq<Seq<char>>) -> bool
    decreases parts.len(),
{
    parts.len() == 0 || (valid_parts(parts.drop_last()) && valid_part(parts.last()))
}

/// A valid dot-notation path: every dot-separated part is valid, so no
/// part is empty and brackets appear only as a trailing `[*]`.
pub open spec fn valid_path(path: Seq<char>) -> bool {
    valid_parts(split_on(path, '.'))
}

fn part_is_valid(part: &Vec<char>) -> (b: bool)
    ensures
        b == valid_part(part@),
{
    if part.len() == 0 {
        return false;
    }
    let suffix = vec!['[', '*', ']'];
    assert(suffix@ =~= wildcard_suffix());
    let n: usize = if ends_with(part, &suffix) { part.len() - 3 } else { part.len() };
    let ghost key = if has_suffix(part@, wildcard_suffix()) {
        part@.take(part@.len() - 3)
    } else {
        part@
    };
    assert(key.len() == n);
    assert(valid_part(part@) == no_brackets(key));
    let mut j: usize = 0;
    while j < n
        invariant
            j <= n,
            n <= part@.len(),
            key.len() == n,
            forall|k: int| 0 <= k < n ==> key[k] == part@[k],
            forall|k: int| 0 <= k < j ==> key[k] != '[' && key[k] != ']',
            valid_part(part@) == no_brackets(key),
        decreases n - j,
    {
        if part[j] == '[' || part[j] == ']' {
            assert(key[j as int] == part@[j as int]);
            assert(!no_brackets(key));
            return false;
        }
        j = j + 1;
    }
    true
}

/// Whether a dot-notation path is valid (see [`valid_path`]).
pub fn is_valid_path(path: &str) -> (b: bool)
    ensures
        b == valid_path(path@),
{
    let pv = chars_of(path);
    let mut ok = true;
    let mut cur: Vec<char> = Vec::new();
    let mut i: usize = 0;
    assert(pv@.take(0) =~= Seq::<char>::empty());
    while i < pv.len()
        invariant
            i <= pv@.len(),
            split_on(pv@.take(i as int), '.').len() >= 1,
            ok == valid_parts(split_on(pv@.take(i as int), '.').drop_last()),
            cur@ == split_on(pv@.take(i as int), '.').last(),
        decreases pv.len() - i,
    {
        let ghost sp = split_on(pv@.take(i as int), '.');
        assert(pv@.take(i + 1).drop_last() == pv@.take(i as int));
        assert(pv@.take(i + 1).last() == pv@[i as int]);
        assert(sp.drop_last().push(sp.last()) == sp);
        if pv[i] == '.' {
            let good = part_is_valid(&cur);
            ok = ok && good;
            cur = Vec::new();
            assert(split_on(pv@.take(i + 1), '.') == sp.push(Seq::<char>::empty()));
            assert(sp.push(Seq::<char>::empty()).drop_last() == sp);
            assert(cur@ =~= Seq::<char>::empty());
        } else {
            cur.push(pv[i]);
            let ghost sp2 = split_on(pv@.take(i + 1), '.');
            assert(sp2 == sp.update(sp.len() - 1, sp.last().push(pv@[i as int])));
            assert(sp2.drop_last() =~= sp.drop_last());
        }
        i = i + 1;
    }
    assert(pv@.take(pv@.len() as int) == pv@);
    let ghost sp = split_on(pv@, '.');
    assert(sp.drop_last().push(sp.last()) == sp);
    let good = part_is_valid(&cur);
    ok && good
}

/// The value at `key` in an object (its first member of that name); nothing
/// for other values.
pub open spec fn child(v: JsonValue, key: Seq<char>) -> Option<JsonValue> {
    match v {
        JsonValue::Object(members) => lookup(members, key),
        _ => None,
    }
}

/// The values reached from each of `vals` by one segment, in order.
pub open spec fn step(vals: Seq<JsonValue>, seg: SegmentSpec) -> Seq<JsonValue>
    decreases vals.len(),
{
    if vals.len() == 0 {
        Seq::empty()
    } else {
        step(vals.drop_last(), seg) + match seg {
            SegmentSpec::Key(k) => match child(vals.last(), k) {
                Some(c) => seq![c],
                None => Seq::empty(),
            },
            SegmentSpec::Wildcard => match vals.last() {
                JsonValue::Array(items) => items,
                _ => Seq::empty(),
            },
        }
    }
}

/// The values reached from `vals` by a list of segments.
pub open spec fn walk(vals: Seq<JsonValue>, segs: Seq<SegmentSpec>) -> Seq<JsonValue>
    decreases segs.len(),
{
    if segs.len() == 0 {
        vals
    } else {
        walk(step(vals, segs[0]), segs.drop_first())
    }
}

proof fn lemma_split_concat(a: Seq<char>, b: Seq<char>)
    ensures
        split_on(a + seq!['.'] + b, '.') == split_on(a, '.') + split_on(b, '.'),
    decreases b.len(),
{
    let ab = a + seq!['.'] + b;
    if b.len() == 0 {
        assert(ab =~= a.push('.'));
        assert(ab.drop_last() =~= a);
        assert(split_on(b, '.') =~= seq![Seq::<char>::empty()]);
        assert(split_on(a, '.').push(Seq::<char>::empty()) =~= split_on(a, '.') + seq![Seq::<char>::empty()]);
    } else {
        let b1 = b.drop_last();
        lemma_split_concat(a, b1);
        lemma_split_nonempty(b1, '.');
        assert(ab.drop_last() =~= a + seq!['.'] + b1);
        assert(ab.last() == b.last());
        let sa = split_on(a, '.');
        let sb1 = split_on(b1, '.');
        assert(b.drop_last() == b1);
        if b.last() == '.' {
            assert((sa + sb1).push(Seq::<char>::empty()) =~= sa + sb1.push(Seq::<char>::empty()));
        } else {
            let prev = sa + sb1;
            assert(prev.last() == sb1.last());
            assert(prev.update(prev.len() - 1, prev.last().push(b.last())) =~= sa + sb1.update(
                sb1.len() - 1,
                sb1.last().push(b.last()),
            ));
        }
    }
}

proof fn lemma_parts_concat(x: Seq<Seq<char>>, y: Seq<Seq<char>>)
    ensures
        parts_segments(x + y) == parts_segments(x) + parts_segments(y),
    decreases y.len(),
{
    if y.len() == 0 {
        assert(x + y =~= x);
        assert(parts_segments(x) + Seq::<SegmentSpec>::empty() =~= parts_segments(x));
    } else {
        lemma_parts_concat(x, y.drop_last());
        assert((x + y).drop_last() =~= x + y.drop_last());
        assert((x + y).last() == y.last());
        assert(parts_segments(x) + parts_segments(y.drop_last()) + part_segments(y.last())
            =~= parts_segments(x) + (parts_segments(y.drop_last()) + part_segments(y.last())));
    }
}

proof fn lemma_walk_concat(vals: Seq<JsonValue>, s1: Seq<SegmentSpec>, s2: Seq<SegmentSpec>)
    ensures
        walk(vals, s1 + s2) == walk(walk(vals, s1), s2),
    decreases s1.len(),
{
    if s1.len() == 0 {
        assert(s1 + s2 =~= s2);
    } else {
        assert((s1 + s2)[0] == s1[0]);
        assert((s1 + s2).drop_first() =~= s1.drop_first() + s2);
        lemma_walk_concat(step(vals, s1[0]), s1.drop_first(), s2);
    }
}

/// Paths compose: the path `a.b` reaches, from a JSON value, what `b`
/// reaches from each of the values that `a` reaches, in order; so
/// `output.results[*].url` is `url` taken in each of `output.results[*]`.
pub proof fn law_path_composition(json: JsonValue, a: Seq<char>, b: Seq<char>)
    ensures
        path_segments(a + seq!['.'] + b) == path_segments(a) + path_segments(b),
        walk(seq![json], path_segments(a + seq!['.'] + b)) == walk(
            walk(seq![json], path_segments(a)),
            path_segments(b),
        ),
        extracted_strings(json, a + seq!['.'] + b) == string_leaves(
            walk(walk(seq![json], path_segments(a)), path_segments(b)),
        ),
{
    lemma_split_concat(a, b);
    lemma_parts_concat(split_on(a, '.'), split_on(b, '.'));
    lemma_walk_concat(seq![json], path_segments(a), path_segments(b));
}

/// The strings among `vals`, in order.
pub open spec fn string_leaves(vals: Seq<JsonValue>) -> Seq<Seq<char>>
    decreases vals.len(),
{
    if vals.len() == 0 {
        Seq::empty()
    } else {
        string_leaves(vals.drop_last()) + match vals.last() {
            JsonValue::Str(s) => seq![s],
            _ => Seq::empty(),
        }
    }
}

/// The strings that a dot-notation path reaches in a JSON value.
pub open spec fn extracted_strings(json: JsonValue, path: Seq<char>) -> Seq<Seq<char>> {
    string_leaves(walk(seq![json], path_segments(path)))
}

/// The model of a list of references to JSON values.
pub open spec fn refs_view(s: Seq<&Json>) -> Seq<JsonValue> {
    s.map_values(|j: &Json| json_view(*j))
}

/// The model of a list of strings.
pub open spec fn strings_view(s: Seq<String>) -> Seq<Seq<char>> {
    s.map_values(|t: String| t@)
}

/// The value of the first member named `key`, if any.
pub fn member_get<'a>(members: &'a Vec<(String, Json)>, key: &Vec<char>) -> (r: Option<&'a Json>)
    ensures
        match r {
            Some(j) => lookup(members_view(members@), key@) == Some(j@),
            None => lookup(members_view(members@), key@) == None::<JsonValue>,
        },
{
    proof {
        lemma_members_view(members@);
    }
    let ghost mv = members_view(members@);
    let mut i: usize = 0;
    while i < members.len()
        invariant
            i <= members@.len(),
            mv == members_view(members@),
            mv.len() == members@.len(),
            forall|j: int| 0 <= j < mv.len() ==> #[trigger] mv[j] == (members@[j].0@, json_view(members@[j].1)),
            forall|j: int| 0 <= j < i ==> mv[j].0 != key@,
        decreases members.len() - i,
    {
        let name = chars_of(members[i].0.as_str());
        if same_chars(&name, key) {
            proof {
                lemma_lookup_skip(mv, key@, i as int);
                assert(mv.skip(i as int)[0] == mv[i as int]);
            }
            return Some(&members[i].1);
        }
        i = i + 1;
    }
    proof {
        lemma_lookup_absent(mv, key@);
    }
    None
}

fn step_values<'a>(current: &Vec<&'a Json>, seg: &Segment) -> (next: Vec<&'a Json>)
    ensures
        refs_view(next@) == step(refs_view(current@), seg@),
{
    let mut next: Vec<&'a Json> = Vec::new();
    let mut i: usize = 0;
    assert(refs_view(current@).take(0) =~= Seq::<JsonValue>::empty());
    assert(refs_view(next@) =~= Seq::<JsonValue>::empty());
    while i < current.len()
        invariant
            i <= current@.len(),
            refs_view(next@) == step(refs_view(current@).take(i as int), seg@),
        decreases current.len() - i,
    {
        let ghost vals = refs_view(current@).take(i + 1);
        assert(vals.drop_last() =~= refs_view(current@).take(i as int));
        assert(vals.last() == json_view(*current@[i as int]));
        let ghost before = next@;
        let v: &'a Json = current[i];
        match seg {
            Segment::Key(k) => {
                let kv = chars_of(k.as_str());
                match v {
                    Json::Object(members) => {
                        match member_get(members, &kv) {
                            Some(c) => {
                                next.push(c);
                                assert(refs_view(next@) =~= refs_view(before) + seq![json_view(*c)]);
                            },
                            None => {
                                assert(refs_view(next@) =~= refs_view(before) + Seq::<JsonValue>::empty());
                            },
                        }
                    },
                    _ => {
                        assert(refs_view(next@) =~= refs_view(before) + Seq::<JsonValue>::empty());
                    },
                }
            },
            Segment::Wildcard => {
                match v {
                    Json::Array(items) => {
                        proof {
                            lemma_items_view(items@);
                        }
                        let mut j: usize = 0;
                        while j < items.len()
                            invariant
                                j <= items@.len(),
                                items_view(items@).len() == items@.len(),
                                forall|t: int| 0 <= t < items@.len() ==> #[trigger] items_view(items@)[t] == json_view(items@[t]),
                                refs_view(next@) == refs_view(before) + items_view(items@).take(j as int),
                            decreases items.len() - j,
                        {
                            let ghost b2 = next@;
                            next.push(&items[j]);
                            assert(refs_view(next@) =~= refs_view(b2).push(json_view(items@[j as int])));
                            assert(items_view(items@).take(j + 1) =~= items_view(items@).take(j as int).push(items_view(items@)[j as int]));
                            j = j + 1;
                        }
                        assert(items_view(items@).take(items@.len() as int) =~= items_view(items@));
                    },
                    _ => {
                        assert(refs_view(next@) =~= refs_view(before) + Seq::<JsonValue>::empty());
                    },
                }
            },
        }
        i = i + 1;
    }
    assert(refs_view(current@).take(current@.len() as int) =~= refs_view(current@));
    next
}

/// Follows a list of segments from `json`.
fn walk_values<'a>(json: &'a Json, segs: &Vec<Segment>) -> (vals: Vec<&'a Json>)
    ensures
        refs_view(vals@) == walk(seq![json@], segments_view(segs@)),
{
    let mut current: Vec<&'a Json> = Vec::new();
    current.push(json);
    assert(refs_view(current@) =~= seq![json@]);
    assert(segments_view(segs@).skip(0) =~= segments_view(segs@));
    let mut i: usize = 0;
    while i < segs.len()
        invariant
            i <= segs@.len(),
            walk(seq![json@], segments_view(segs@)) == walk(refs_view(current@), segments_view(segs@).skip(i as int)),
        decreases segs.len() - i,
    {
        let ghost rest = segments_view(segs@).skip(i as int);
        assert(rest[0] == segs@[i as int]@);
        assert(rest.drop_first() =~= segments_view(segs@).skip(i + 1));
        current = step_values(&current, &segs[i]);
        i = i + 1;
    }
    assert(segments_view(segs@).skip(segs@.len() as int) =~= Seq::<SegmentSpec>::empty());
    current
}

/// Extract string values from a JSON value using a simple dot-notation path.
///
/// Supports object access (`a.b.c`) and array wildcards (`[*]`):
///
/// ```text
/// "output.results[*].url"                       → DashScope async response
/// "output.choices[*].message.content[*].image"  → DashScope sync response
/// "data[*].url"                                 → OpenAI DALL-E response
/// ```
pub fn extract_strings(json: &Json, path: &str) -> (out: Vec<String>)
    ensures
        strings_view(out@) == extracted_strings(json@, path@),
{
    let segs = parse_path(path);
    let vals = walk_values(json, &segs);
    let mut out: Vec<String> = Vec::new();
    let mut i: usize = 0;
    assert(refs_view(vals@).take(0) =~= Seq::<JsonValue>::empty());
    assert(strings_view(out@) =~= Seq::<Seq<char>>::empty());
    while i < vals.len()
        invariant
            i <= vals@.len(),
            strings_view(out@) == string_leaves(refs_view(vals@).take(i as int)),
        decreases vals.len() - i,
    {
        let ghost sub = refs_view(vals@).take(i + 1);
        assert(sub.drop_last() =~= refs_view(vals@).take(i as int));
        assert(sub.last() == json_view(*vals@[i as int]));
        let ghost before = out@;
        match vals[i] {
            Json::String(s) => {
                out.push(s.clone());
                assert(strings_view(out@) =~= strings_view(before) + seq![s@]);
            },
            _ => {
                assert(strings_view(out@) =~= strings_view(before) + Seq::<Seq<char>>::empty());
            },
        }
        i = i + 1;
    }
    assert(refs_view(vals@).take(vals@.len() as int) =~= refs_view(vals@));
    out
}

/// The data URIs of the inline images among `vals`: objects with string
/// members `mimeType` and `data`, in order.
pub open spec fn inline_image_uris(vals: Seq<JsonValue>) -> Seq<Seq<char>>
    decreases vals.len(),
{
    if vals.len() == 0 {
        Seq::empty()
    } else {
        inline_image_uris(vals.drop_last()) + match vals.last() {
            JsonValue::Object(ms) => match (lookup(ms, "mimeType"@), lookup(ms, "data"@)) {
                (Some(JsonValue::Str(m)), Some(JsonValue::Str(d))) => seq![data_uri(m, d)],
                _ => Seq::empty(),
            },
            _ => Seq::empty(),
        }
    }
}

/// The data URIs of the inline images that a path reaches in a JSON value.
pub open spec fn extracted_inline_images(json: JsonValue, path: Seq<char>) -> Seq<Seq<char>> {
    inline_image_uris(walk(seq![json], path_segments(path)))
}

/// Extract Base64 images from a JSON value: the path reaches objects
/// `{ "mimeType": ..., "data": ... }`, each of which becomes the data URI
/// `data:{mimeType};base64,{data}`; values of other shapes are skipped.
pub fn extract_base64_images(json: &Json, path: &str) -> (out: Vec<String>)
    ensures
        strings_view(out@) == extracted_inline_images(json@, path@),
{
    let segs = parse_path(path);
    let vals = walk_values(json, &segs);
    let mime_key = chars_of("mimeType");
    let data_key = chars_of("data");
    let mut out: Vec<String> = Vec::new();
    let mut i: usize = 0;
    assert(refs_view(vals@).take(0) =~= Seq::<JsonValue>::empty());
    assert(strings_view(out@) =~= Seq::<Seq<char>>::empty());
    while i < vals.len()
        invariant
            i <= vals@.len(),
            mime_key@ == "mimeType"@,
            data_key@ == "data"@,
            strings_view(out@) == inline_image_uris(refs_view(vals@).take(i as int)),
        decreases vals.len() - i,
    {
        let ghost sub = refs_view(vals@).take(i + 1);
        assert(sub.drop_last() =~= refs_view(vals@).take(i as int));
        assert(sub.last() == json_view(*vals@[i as int]));
        let ghost before = out@;
        let mut found: Option<String> = None;
        match vals[i] {
            Json::Object(members) => {
                match (member_get(members, &mime_key), member_get(members, &data_key)) {
                    (Some(Json::String(m)), Some(Json::String(d))) => {
                        found = Some(format_data_uri(m.as_str(), d.as_str()));
                    },
                    _ => {},
                }
            },
            _ => {},
        }
        match found {
            Some(uri) => {
                out.push(uri);
            },
            None => {},
        }
        assert(strings_view(out@) =~= inline_image_uris(sub));
        i = i + 1;
    }
    assert(refs_view(vals@).take(vals@.len() as int) =~= refs_view(vals@));
    out
}

// ── Service Type Inference ──

/// The service type a model name suggests: a name containing `edit` is
/// image editing, one containing `mt` is translation, any other is
/// text-to-image.
pub open spec fn inferred_service_type(name: Seq<char>) -> ServiceType {
    if has_infix(name, "edit"@) {
        ServiceType::Img2img
    } else if has_infix(name, "mt"@) {
        ServiceType::Translate
    } else {
        ServiceType::Text2img
    }
}

/// The name heuristic: any name that contains `edit` is image editing,
/// wherever `edit` stands in it (`qwen-image-edit`, `wanx2.1-imageedit`);
/// a name without `edit` that contains `mt` is translation; any other name is
/// text-to-image. So a name keeps its inferred type when text is added around
/// it, unless the added text brings `edit` (or, for text-to-image, `mt`).
pub proof fn law_inferred_service_type(name: Seq<char>, before: Seq<char>, after: Seq<char>)
    ensures
        has_infix(name, "edit"@) ==> inferred_service_type(name) == ServiceType::Img2img,
        !has_infix(name, "edit"@) && has_infix(name, "mt"@) ==> inferred_service_type(name)
            == ServiceType::Translate,
        !has_infix(name, "edit"@) && !has_infix(name, "mt"@) ==> inferred_service_type(name)
            == ServiceType::Text2img,
        has_infix(name, "edit"@) ==> inferred_service_type(before + name + after)
            == ServiceType::Img2img,
{
    reveal_strlit("edit");
    if has_infix(name, "edit"@) {
        let i = choose|i: int| occurs_at(name, "edit"@, i);
        let whole = before + name + after;
        assert(whole.subrange(before.len() + i, before.len() + i + 4) =~= name.subrange(i, i + 4));
        assert(occurs_at(whole, "edit"@, before.len() + i));
    }
}

/// Infer the service type from a model name using heuristics:
/// - Name contains `"edit"` → `Img2img`
/// - Name contains `"mt"` → `Translate`
/// - Otherwise → `Text2img`
pub fn infer_service_type(model_name: &str) -> (t: ServiceType)
    ensures
        t == inferred_service_type(model_name@),
{
    if str_contains(model_name, "edit") {
        ServiceType::Img2img
    } else if str_contains(model_name, "mt") {
        ServiceType::Translate
    } else {
        ServiceType::Text2img
    }
}

// ── Default DashScope Request Templates ──

/// A JSON string value holding `s`.
pub fn json_str(s: &str) -> (j: Json)
    ensures
        j@ == JsonValue::Str(s@),
{
    let mut t = String::new();
    crate::text::append_str(&mut t, s);
    Json::String(t)
}

/// An object member `key: value`.
pub fn member(key: &str, value: Json) -> (m: (String, Json))
    ensures
        m.0@ == key@,
        m.1@ == value@,
{
    let mut t = String::new();
    crate::text::append_str(&mut t, key);
    (t, value)
}

/// The default text-to-image request template.
pub open spec fn text2img_template() -> JsonValue {
    JsonValue::Object(
        seq![
            ("model"@, JsonValue::Str("{model}"@)),
            ("input"@, JsonValue::Object(seq![("prompt"@, JsonValue::Str("{prompt}"@))])),
            (
                "parameters"@,
                JsonValue::Object(
                    seq![
                        ("size"@, JsonValue::Str("{size}"@)),
                        ("prompt_extend"@, JsonValue::Bool(true)),
                        ("watermark"@, JsonValue::Bool(false)),
                    ],
                ),
            ),
        ],
    )
}

/// The default image-editing request template.
pub open spec fn img2img_template() -> JsonValue {
    JsonValue::Object(
        seq![
            ("model"@, JsonValue::Str("{model}"@)),
            (
                "input"@,
                JsonValue::Object(
                    seq![
                        (
                            "messages"@,
                            JsonValue::Array(
                                seq![
                                    JsonValue::Object(
                                        seq![
                                            ("role"@, JsonValue::Str("user"@)),
                                            ("content"@, JsonValue::Str("{content}"@)),
                                        ],
                                    ),
                                ],
                            ),
                        ),
                    ],
                ),
            ),
            (
                "parameters"@,
                JsonValue::Object(
                    seq![
                        ("prompt_extend"@, JsonValue::Bool(true)),
                        ("watermark"@, JsonValue::Bool(false)),
                    ],
                ),
            ),
        ],
    )
}

/// The default image-translation request template.
pub open spec fn translate_template() -> JsonValue {
    JsonValue::Object(
        seq![
            ("model"@, JsonValue::Str("{model}"@)),
            (
                "input"@,
                JsonValue::Object(
                    seq![
                        ("image_url"@, JsonValue::Str("{image_url}"@)),
                        ("source_lang"@, JsonValue::Str("{source_lang}"@)),
                        ("target_lang"@, JsonValue::Str("{target_lang}"@)),
                    ],
                ),
            ),
        ],
    )
}

/// An object from its members.
pub(crate) fn object(members: Vec<(String, Json)>) -> (j: Json)
    ensures
        j@ == JsonValue::Object(members_view(members@)),
{
    Json::Object(members)
}

pub(crate) proof fn lemma_members3(a: (String, Json), b: (String, Json), c: (String, Json))
    ensures
        members_view(seq![a, b, c]) == seq![(a.0@, a.1@), (b.0@, b.1@), (c.0@, c.1@)],
{
    let s = seq![a, b, c];
    lemma_members_view(s);
    assert(members_view(s) =~= seq![(a.0@, a.1@), (b.0@, b.1@), (c.0@, c.1@)]);
}

pub(crate) proof fn lemma_members2(a: (String, Json), b: (String, Json))
    ensures
        members_view(seq![a, b]) == seq![(a.0@, a.1@), (b.0@, b.1@)],
{
    let s = seq![a, b];
    lemma_members_view(s);
    assert(members_view(s) =~= seq![(a.0@, a.1@), (b.0@, b.1@)]);
}

pub(crate) proof fn lemma_members1(a: (String, Json))
    ensures
        members_view(seq![a]) == seq![(a.0@, a.1@)],
{
    let s = seq![a];
    lemma_members_view(s);
    assert(members_view(s) =~= seq![(a.0@, a.1@)]);
}

/// Default request template for text-to-image (DashScope format):
/// `{ "model": "{model}", "input": { "prompt": "{prompt}" },
///    "parameters": { "size": "{size}", "prompt_extend": true, "watermark": false } }`.
pub fn default_text2img_template() -> (t: Json)
    ensures
        t@ == text2img_template(),
{
    let prompt = member("prompt", json_str("{prompt}"));
    let input_members = vec![prompt];
    proof {
        lemma_members1(input_members@[0]);
        assert(input_members@ =~= seq![input_members@[0]]);
    }
    let input = object(input_members);
    let size = member("size", json_str("{size}"));
    let extend = member("prompt_extend", Json::Bool(true));
    let watermark = member("watermark", Json::Bool(false));
    let params_members = vec![size, extend, watermark];
    proof {
        lemma_members3(params_members@[0], params_members@[1], params_members@[2]);
        assert(params_members@ =~= seq![params_members@[0], params_members@[1], params_members@[2]]);
    }
    let params = object(params_members);
    let model = member("model", json_str("{model}"));
    let input_m = member("input", input);
    let params_m = member("parameters", params);
    let top = vec![model, input_m, params_m];
    proof {
        lemma_members3(top@[0], top@[1], top@[2]);
        assert(top@ =~= seq![top@[0], top@[1], top@[2]]);
    }
    object(top)
}

/// Default request template for image-to-image editing (DashScope format).
/// The `{content}` placeholder is replaced at run time by an array of
/// interleaved image and text items:
/// `{ "model": "{model}", "input": { "messages": [{ "role": "user", "content": "{content}" }] },
///    "parameters": { "prompt_extend": true, "watermark": false } }`.
pub fn default_img2img_template() -> (t: Json)
    ensures
        t@ == img2img_template(),
{
    let role = member("role", json_str("user"));
    let content = member("content", json_str("{content}"));
    let msg_members = vec![role, content];
    proof {
        lemma_members2(msg_members@[0], msg_members@[1]);
        assert(msg_members@ =~= seq![msg_members@[0], msg_members@[1]]);
    }
    let msg = object(msg_members);
    let ghost msg_view = msg@;
    let messages_items = vec![msg];
    assert(messages_items@ =~= seq![messages_items@[0]]);
    proof {
        lemma_items_view(messages_items@);
    }
    assert(items_view(messages_items@) =~= seq![msg_view]);
    let messages = member("messages", Json::Array(messages_items));
    let input_members = vec![messages];
    proof {
        lemma_members1(input_members@[0]);
        assert(input_members@ =~= seq![input_members@[0]]);
    }
    let input = object(input_members);
    let extend = member("prompt_extend", Json::Bool(true));
    let watermark = member("watermark", Json::Bool(false));
    let params_members = vec![extend, watermark];
    proof {
        lemma_members2(params_members@[0], params_members@[1]);
        assert(params_members@ =~= seq![params_members@[0], params_members@[1]]);
    }
    let params = object(params_members);
    let model = member("model", json_str("{model}"));
    let input_m = member("input", input);
    let params_m = member("parameters", params);
    let top = vec![model, input_m, params_m];
    proof {
        lemma_members3(top@[0], top@[1], top@[2]);
        assert(top@ =~= seq![top@[0], top@[1], top@[2]]);
    }
    object(top)
}

/// Default request template for image translation (DashScope format):
/// `{ "model": "{model}", "input": { "image_url": "{image_url}",
///    "source_lang": "{source_lang}", "target_lang": "{target_lang}" } }`.
pub fn default_translate_template() -> (t: Json)
    ensures
        t@ == translate_template(),
{
    let image = member("image_url", json_str("{image_url}"));
    let source = member("source_lang", json_str("{source_lang}"));
    let target = member("target_lang", json_str("{target_lang}"));
    let input_members = vec![image, source, target];
    proof {
        lemma_members3(input_members@[0], input_members@[1], input_members@[2]);
        assert(input_members@ =~= seq![input_members@[0], input_members@[1], input_members@[2]]);
    }
    let input = object(input_members);
    let model = member("model", json_str("{model}"));
    let input_m = member("input", input);
    let top = vec![model, input_m];
    proof {
        lemma_members2(top@[0], top@[1]);
        assert(top@ =~= seq![top@[0], top@[1]]);
    }
    object(top)
}

} // verus!
