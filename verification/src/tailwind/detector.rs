//! Detection of a project's Tailwind configuration: the theme values
//! (spacing, colors, screens) of the object that the configuration file
//! exports.
//!
//! Finding and reading the file, and parsing it as JavaScript, happen
//! outside the library: the exported objects come in as `JsProperty`
//! lists, in the order a walk of the syntax tree meets them.

use crate::text::same_text;
use vstd::prelude::*;

verus! {

/// A JavaScript value, as far as detection reads it.
#[derive(Debug)]
pub enum JsValue {
    /// An object literal: its properties in order (spread elements left out).
    Object(Vec<JsProperty>),
    /// A string literal: its value.
    Str(String),
    /// A number literal: its value as text.
    Number(String),
    Other,
}

/// A property of an object literal: its key when that is an identifier or
/// a string literal, and its value.
#[derive(Debug)]
pub struct JsProperty {
    pub key: Option<String>,
    pub value: JsValue,
}

/// A map from text to text; a key occurs once.
#[derive(Debug, Clone)]
pub struct StringMap {
    pub entries: Vec<(String, String)>,
}

/// The value of `key` among the entries: that of the last entry for it.
pub open spec fn string_lookup(es: Seq<(String, String)>, key: Seq<char>) -> Option<Seq<char>>
    decreases es.len(),
{
    if es.len() == 0 {
        None
    } else if es.last().0@ == key {
        Some(es.last().1@)
    } else {
        string_lookup(es.drop_last(), key)
    }
}

/// The value of `key` after the pairs `ps` are put, in order, into a map
/// whose value for it was `base`.
pub open spec fn after_pairs(base: Option<Seq<char>>, ps: Seq<(Seq<char>, Seq<char>)>, key: Seq<char>) -> Option<Seq<char>>
    decreases ps.len(),
{
    if ps.len() == 0 {
        base
    } else if ps.last().0 == key {
        Some(ps.last().1)
    } else {
        after_pairs(base, ps.drop_last(), key)
    }
}

proof fn lemma_after_concat(base: Option<Seq<char>>, a: Seq<(Seq<char>, Seq<char>)>, b: Seq<(Seq<char>, Seq<char>)>, key: Seq<char>)
    ensures
        after_pairs(base, a + b, key) == after_pairs(after_pairs(base, a, key), b, key),
    decreases b.len(),
{
    if b.len() == 0 {
        assert(a + b =~= a);
    } else {
        assert((a + b).drop_last() =~= a + b.drop_last());
        lemma_after_concat(base, a, b.drop_last(), key);
    }
}

proof fn lemma_lookup_absent(es: Seq<(String, String)>, key: Seq<char>)
    requires
        forall|i: int| 0 <= i < es.len() ==> es[i].0@ != key,
    ensures
        string_lookup(es, key) is None,
    decreases es.len(),
{
    if es.len() > 0 {
        lemma_lookup_absent(es.drop_last(), key);
    }
}

proof fn lemma_lookup_unique(es: Seq<(String, String)>, i: int, key: Seq<char>)
    requires
        0 <= i < es.len(),
        es[i].0@ == key,
        forall|a: int, b: int| 0 <= a < b < es.len() ==> #[trigger] es[a].0@ != #[trigger] es[b].0@,
    ensures
        string_lookup(es, key) == Some(es[i].1@),
    decreases es.len(),
{
    if i < es.len() - 1 {
        assert(es[es.len() - 1].0@ != key);
        lemma_lookup_unique(es.drop_last(), i, key);
    }
}

impl StringMap {
    pub open spec fn lookup(&self, key: Seq<char>) -> Option<Seq<char>> {
        string_lookup(self.entries@, key)
    }

    /// No key has two entries.
    pub open spec fn wf(&self) -> bool {
        forall|a: int, b: int| 0 <= a < b < self.entries@.len() ==> #[trigger] self.entries@[a].0@ != #[trigger] self.entries@[b].0@
    }

    /// An empty map.
    pub fn new() -> (r: StringMap)
        ensures
            r.wf(),
            forall|k: Seq<char>| r.lookup(k) is None,
    {
        StringMap { entries: Vec::new() }
    }

    /// The value of `key`, if it has one.
    pub fn get(&self, key: &str) -> (r: Option<&String>)
        requires
            self.wf(),
        ensures
            match r {
                Some(v) => self.lookup(key@) == Some(v@),
                None => self.lookup(key@) is None,
            },
    {
        let kc = crate::text::chars_of(key);
        match self.position(kc.as_slice()) {
            Some(i) => {
                proof {
                    lemma_lookup_unique(self.entries@, i as int, key@);
                }
                Some(&self.entries[i].1)
            },
            None => {
                proof {
                    lemma_lookup_absent(self.entries@, key@);
                }
                None
            },
        }
    }

    /// The number of keys.
    pub fn len(&self) -> (r: usize)
        ensures
            r == self.entries@.len(),
    {
        self.entries.len()
    }

    fn position(&self, key: &[char]) -> (r: Option<usize>)
        ensures
            match r {
                Some(i) => i < self.entries@.len() && self.entries@[i as int].0@ == key@,
                None => forall|t: int| 0 <= t < self.entries@.len() ==> self.entries@[t].0@ != key@,
            },
    {
        for i in 0..self.entries.len()
            invariant
                forall|t: int| 0 <= t < i ==> self.entries@[t].0@ != key@,
        {
            if same_text(&self.entries[i].0, key) {
                return Some(i);
            }
        }
        None
    }

    /// Gives `key` the value `value`, in place of the one it had.
    pub fn insert(&mut self, key: String, value: String)
        requires
            old(self).wf(),
        ensures
            final(self).wf(),
            final(self).lookup(key@) == Some(value@),
            forall|k: Seq<char>| k != key@ ==> final(self).lookup(k) == old(self).lookup(k),
    {
        let ghost old_entries = self.entries@;
        let kc = crate::text::chars_of(key.as_str());
        match self.position(kc.as_slice()) {
            Some(i) => {
                let ghost ki = key@;
                self.entries.set(i, (key, value));
                proof {
                    assert(self.entries@[i as int].0@ == ki);
                    assert(old_entries[i as int].0@ == ki);
                    assert forall|a: int, b: int| 0 <= a < b < self.entries@.len() implies #[trigger] self.entries@[a].0@ != #[trigger] self.entries@[b].0@ by {
                        if a != i {
                            assert(self.entries@[a] == old_entries[a]);
                        }
                        if b != i {
                            assert(self.entries@[b] == old_entries[b]);
                        }
                        assert(self.entries@[a].0@ == old_entries[a].0@);
                        assert(self.entries@[b].0@ == old_entries[b].0@);
                        assert(old_entries[a].0@ != old_entries[b].0@);
                    }
                    lemma_lookup_unique(self.entries@, i as int, key@);
                    assert forall|k: Seq<char>| k != key@ implies self.lookup(k) == old(self).lookup(k) by {
                        lemma_lookup_other(old_entries, self.entries@, k);
                    }
                }
            },
            None => {
                self.entries.push((key, value));
                proof {
                    assert(self.entries@.drop_last() =~= old_entries);
                    assert forall|a: int, b: int| 0 <= a < b < self.entries@.len() implies #[trigger] self.entries@[a].0@ != #[trigger] self.entries@[b].0@ by {
                        assert(self.entries@[a] == old_entries[a]);
                        if b < old_entries.len() {
                            assert(self.entries@[b] == old_entries[b]);
                        } else {
                            assert(self.entries@[b].0@ == kc@);
                            assert(old_entries[a].0@ != kc@);
                        }
                    }
                }
            },
        }
    }
}

/// Replacing the value of an entry changes nothing for the other keys.
proof fn lemma_lookup_other(a: Seq<(String, String)>, b: Seq<(String, String)>, k: Seq<char>)
    requires
        a.len() == b.len(),
        forall|i: int| 0 <= i < a.len() ==> (a[i].0@ == k) == (b[i].0@ == k),
        forall|i: int| 0 <= i < a.len() && a[i].0@ == k ==> a[i].1@ == b[i].1@,
    ensures
        string_lookup(a, k) == string_lookup(b, k),
    decreases a.len(),
{
    if a.len() > 0 {
        lemma_lookup_other(a.drop_last(), b.drop_last(), k);
    }
}

/// What detection finds.
#[derive(Debug, Clone)]
pub struct ConfigDetectionResult {
    /// The name of the configuration file found, if any.
    pub file_found: Option<String>,
    pub spacing: StringMap,
    pub colors: StringMap,
    pub screens: StringMap,
    pub font_family: Vec<(String, Vec<String>)>,
    pub arbitrary_utilities: bool,
}

/// A section of the theme that detection reads.
#[derive(Debug, Clone, Copy, PartialEq, Eq)]
pub enum ThemeSection {
    Spacing,
    Colors,
    Screens,
}

pub open spec fn section_name(s: ThemeSection) -> Seq<char> {
    match s {
        ThemeSection::Spacing => "spacing"@,
        ThemeSection::Colors => "colors"@,
        ThemeSection::Screens => "screens"@,
    }
}

/// The (key, value) pairs of an object whose values are string or number
/// literals, in order.
pub open spec fn string_pairs(props: Seq<JsProperty>) -> Seq<(Seq<char>, Seq<char>)>
    decreases props.len(),
{
    if props.len() == 0 {
        Seq::empty()
    } else {
        string_pairs(props.drop_last()) + literal_pair(props.last())
    }
}

/// The pair of a property with a key and a string or number value.
pub open spec fn literal_pair(p: JsProperty) -> Seq<(Seq<char>, Seq<char>)> {
    match p.key {
        Some(k) => match p.value {
            JsValue::Str(v) => seq![(k@, v@)],
            JsValue::Number(v) => seq![(k@, v@)],
            _ => Seq::empty(),
        },
        None => Seq::empty(),
    }
}

/// The pairs that a theme object gives the section `sec`, in order: those
/// of its `sec` objects, and, at their place, those of its `extend`
/// objects read as themes.
pub open spec fn theme_pairs(props: Seq<JsProperty>, sec: ThemeSection) -> Seq<(Seq<char>, Seq<char>)>
    decreases props,
{
    if props.len() == 0 {
        Seq::empty()
    } else {
        let p = props.last();
        theme_pairs(props.drop_last(), sec) + match p.key {
            Some(k) => match p.value {
                JsValue::Object(o) => if k@ == "extend"@ {
                    proof {
                        assert(decreases_to!(props => props[props.len() - 1]));
                    }
                    theme_pairs(o@, sec)
                } else if k@ == section_name(sec) {
                    string_pairs(o@)
                } else {
                    Seq::empty()
                },
                _ => Seq::empty(),
            },
            None => Seq::empty(),
        }
    }
}

/// What a property of a configuration object gives the section `sec`: the
/// pairs of its value read as a theme when its key is `theme`.
pub open spec fn config_step(p: JsProperty, sec: ThemeSection) -> Seq<(Seq<char>, Seq<char>)> {
    match p.key {
        Some(k) => if k@ == "theme"@ {
            nested_pairs(p, sec)
        } else {
            Seq::empty()
        },
        None => Seq::empty(),
    }
}

/// The pairs that a configuration object gives the section `sec`: those of
/// its `theme` objects, in order.
pub open spec fn config_pairs(props: Seq<JsProperty>, sec: ThemeSection) -> Seq<(Seq<char>, Seq<char>)>
    decreases props.len(),
{
    if props.len() == 0 {
        Seq::empty()
    } else {
        config_pairs(props.drop_last(), sec) + config_step(props.last(), sec)
    }
}

/// The pairs that a list of configuration objects gives the section, in order.
pub open spec fn objects_pairs(objs: Seq<Vec<JsProperty>>, sec: ThemeSection) -> Seq<(Seq<char>, Seq<char>)>
    decreases objs.len(),
{
    if objs.len() == 0 {
        Seq::empty()
    } else {
        objects_pairs(objs.drop_last(), sec) + config_pairs(objs.last()@, sec)
    }
}

impl ConfigDetectionResult {
    /// The map of a section.
    pub open spec fn section(&self, sec: ThemeSection) -> StringMap {
        match sec {
            ThemeSection::Spacing => self.spacing,
            ThemeSection::Colors => self.colors,
            ThemeSection::Screens => self.screens,
        }
    }

    pub open spec fn wf(&self) -> bool {
        self.spacing.wf() && self.colors.wf() && self.screens.wf()
    }

    /// Nothing found.
    pub fn default() -> (r: ConfigDetectionResult)
        ensures
            r.wf(),
            r.file_found is None,
            forall|sec: ThemeSection, k: Seq<char>| #[trigger] r.section(sec).lookup(k) is None,
            r.font_family@.len() == 0,
            !r.arbitrary_utilities,
    {
        ConfigDetectionResult {
            file_found: None,
            spacing: StringMap::new(),
            colors: StringMap::new(),
            screens: StringMap::new(),
            font_family: Vec::new(),
            arbitrary_utilities: false,
        }
    }
}

/// Finds the Tailwind configuration of a project.
pub struct ConfigDetector;

/// Puts the string and number values of an object into a map.
fn put_string_pairs(obj: &Vec<JsProperty>, map: &mut StringMap)
    requires
        old(map).wf(),
    ensures
        final(map).wf(),
        forall|k: Seq<char>| #[trigger] final(map).lookup(k) == after_pairs(old(map).lookup(k), string_pairs(obj@), k),
{
    let ghost start = *map;
    assert(obj@.subrange(0, 0) =~= Seq::<JsProperty>::empty());
    for i in 0..obj.len()
        invariant
            map.wf(),
            forall|k: Seq<char>| #[trigger] map.lookup(k) == after_pairs(start.lookup(k), string_pairs(obj@.subrange(0, i as int)), k),
    {
        let p = &obj[i];
        let ghost sub = obj@.subrange(0, i + 1);
        proof {
            assert(sub.drop_last() =~= obj@.subrange(0, i as int));
            assert(sub.last() == *p);
        }
        let ghost before = *map;
        let ghost prefix = string_pairs(obj@.subrange(0, i as int));
        let ghost tail = literal_pair(*p);
        assert(string_pairs(sub) == prefix + tail);
        match &p.key {
            Some(k) => match &p.value {
                JsValue::Str(v) => {
                    let kc = k.clone();
                    let vc = v.clone();
                    assert(kc@ == k@ && vc@ == v@);
                    map.insert(kc, vc);
                    assert(tail == seq![(k@, v@)]);
                    assert forall|kk: Seq<char>| #[trigger] map.lookup(kk) == after_pairs(before.lookup(kk), tail, kk) by {
                        assert(tail.drop_last() =~= Seq::<(Seq<char>, Seq<char>)>::empty());
                        reveal_with_fuel(after_pairs, 2);
                        if kk != k@ {
                            assert(map.lookup(kk) == before.lookup(kk));
                        }
                    }
                },
                JsValue::Number(v) => {
                    let kc = k.clone();
                    let vc = v.clone();
                    assert(kc@ == k@ && vc@ == v@);
                    map.insert(kc, vc);
                    assert(tail == seq![(k@, v@)]);
                    assert forall|kk: Seq<char>| #[trigger] map.lookup(kk) == after_pairs(before.lookup(kk), tail, kk) by {
                        assert(tail.drop_last() =~= Seq::<(Seq<char>, Seq<char>)>::empty());
                        reveal_with_fuel(after_pairs, 2);
                        if kk != k@ {
                            assert(map.lookup(kk) == before.lookup(kk));
                        }
                    }
                },
                _ => {
                    assert(tail =~= Seq::<(Seq<char>, Seq<char>)>::empty());
                },
            },
            None => {
                assert(tail =~= Seq::<(Seq<char>, Seq<char>)>::empty());
            },
        }
        assert forall|k: Seq<char>| #[trigger] map.lookup(k) == after_pairs(before.lookup(k), tail, k) by {
            if tail.len() == 1 {
                assert(tail.drop_last() =~= Seq::<(Seq<char>, Seq<char>)>::empty());
            }
        }
        assert forall|k: Seq<char>| #[trigger] map.lookup(k) == after_pairs(start.lookup(k), string_pairs(sub), k) by {
            lemma_after_concat(start.lookup(k), prefix, tail, k);
        }
    }
    assert(obj@.subrange(0, obj@.len() as int) =~= obj@);
}

/// What a property of a theme object gives the section `sec` (see
/// `theme_pairs`).
pub open spec fn theme_step(p: JsProperty, sec: ThemeSection, nested: Seq<(Seq<char>, Seq<char>)>) -> Seq<(Seq<char>, Seq<char>)> {
    match p.key {
        Some(k) => match p.value {
            JsValue::Object(o) => if k@ == "extend"@ {
                nested
            } else if k@ == section_name(sec) {
                string_pairs(o@)
            } else {
                Seq::empty()
            },
            _ => Seq::empty(),
        },
        None => Seq::empty(),
    }
}

proof fn lemma_names_differ()
    ensures
        "extend"@ != "spacing"@,
        "extend"@ != "colors"@,
        "extend"@ != "screens"@,
        "spacing"@ != "colors"@,
        "spacing"@ != "screens"@,
        "colors"@ != "screens"@,
{
    reveal_strlit("extend");
    reveal_strlit("spacing");
    reveal_strlit("colors");
    reveal_strlit("screens");
    assert("extend"@[0] != "spacing"@[0]);
    assert("extend"@[0] != "colors"@[0]);
    assert("extend"@[0] != "screens"@[0]);
    assert("spacing"@.len() != "colors"@.len());
    assert("spacing"@[1] != "screens"@[1]);
    assert("colors"@.len() != "screens"@.len());
}

/// The pairs that the object value of a property gives as a theme.
pub open spec fn nested_pairs(p: JsProperty, sec: ThemeSection) -> Seq<(Seq<char>, Seq<char>)>
    decreases p,
{
    match p.value {
        JsValue::Object(o) => theme_pairs(o@, sec),
        _ => Seq::empty(),
    }
}

/// `after` is `before` with what the property gives each section put in.
pub open spec fn step_done(before: ConfigDetectionResult, after: ConfigDetectionResult, p: JsProperty) -> bool {
    forall|sec: ThemeSection, k: Seq<char>| #[trigger] after.section(sec).lookup(k)
        == after_pairs(before.section(sec).lookup(k), theme_step(p, sec, nested_pairs(p, sec)), k)
}

/// The sections after the pairs are put in: the other fields are kept.
pub open spec fn sections_after(
    before: ConfigDetectionResult,
    after: ConfigDetectionResult,
    pairs: spec_fn(ThemeSection) -> Seq<(Seq<char>, Seq<char>)>,
) -> bool {
    &&& after.wf()
    &&& after.file_found == before.file_found
    &&& after.font_family == before.font_family
    &&& after.arbitrary_utilities == before.arbitrary_utilities
    &&& forall|sec: ThemeSection, k: Seq<char>| #[trigger] after.section(sec).lookup(k)
        == after_pairs(before.section(sec).lookup(k), pairs(sec), k)
}

/// Reads a theme object into the result, as `theme_pairs` says.
fn put_theme(props: &Vec<JsProperty>, result: &mut ConfigDetectionResult)
    requires
        old(result).wf(),
    ensures
        sections_after(*old(result), *final(result), |sec: ThemeSection| theme_pairs(props@, sec)),
    decreases props@,
{
    let ghost start = *result;
    assert(props@.subrange(0, 0) =~= Seq::<JsProperty>::empty());
    for i in 0..props.len()
        invariant
            sections_after(start, *result, |sec: ThemeSection| theme_pairs(props@.subrange(0, i as int), sec)),
    {
        let p = &props[i];
        let ghost sub = props@.subrange(0, i + 1);
        let ghost mid = *result;
        proof {
            assert(sub.drop_last() =~= props@.subrange(0, i as int));
            assert(sub.last() == *p);
        }
        match &p.key {
            Some(k) => match &p.value {
                JsValue::Object(o) => {
                    let kc = crate::text::chars_of(k.as_str());
                    proof {
                        lemma_names_differ();
                    }
                    if same_text_lit(&kc, "extend") {
                        proof {
                            assert(decreases_to!(props@ => props@[i as int]));
                        }
                        put_theme(o, result);
                        assert(step_done(mid, *result, *p));
                    } else if same_text_lit(&kc, "spacing") {
                        put_string_pairs(o, &mut result.spacing);
                        assert(step_done(mid, *result, *p));
                    } else if same_text_lit(&kc, "colors") {
                        put_string_pairs(o, &mut result.colors);
                        assert(step_done(mid, *result, *p));
                    } else if same_text_lit(&kc, "screens") {
                        put_string_pairs(o, &mut result.screens);
                        assert(step_done(mid, *result, *p));
                    } else {
                        assert(step_done(mid, *result, *p));
                    }
                },
                _ => {
                    assert(step_done(mid, *result, *p));
                },
            },
            None => {
                assert(step_done(mid, *result, *p));
            },
        }
        proof {
            assert forall|sec: ThemeSection, k: Seq<char>| #[trigger] result.section(sec).lookup(k)
                == after_pairs(start.section(sec).lookup(k), theme_pairs(sub, sec), k) by {
                let nested = nested_pairs(*p, sec);
                assert(theme_pairs(sub, sec) == theme_pairs(props@.subrange(0, i as int), sec) + theme_step(*p, sec, nested));
                lemma_after_concat(start.section(sec).lookup(k), theme_pairs(props@.subrange(0, i as int), sec), theme_step(*p, sec, nested), k);
            }
        }
    }
    assert(props@.subrange(0, props@.len() as int) =~= props@);
}

/// Whether the characters `v` are the text `t`.
fn same_text_lit(v: &Vec<char>, t: &str) -> (r: bool)
    ensures
        r == (v@ == t@),
{
    let c = crate::text::chars_of(t);
    crate::text::eq_chars(v.as_slice(), c.as_slice())
}

/// Reads a configuration object into the result, as `config_pairs` says.
fn put_config(props: &Vec<JsProperty>, result: &mut ConfigDetectionResult)
    requires
        old(result).wf(),
    ensures
        sections_after(*old(result), *final(result), |sec: ThemeSection| config_pairs(props@, sec)),
{
    let ghost start = *result;
    assert(props@.subrange(0, 0) =~= Seq::<JsProperty>::empty());
    for i in 0..props.len()
        invariant
            sections_after(start, *result, |sec: ThemeSection| config_pairs(props@.subrange(0, i as int), sec)),
    {
        let p = &props[i];
        let ghost sub = props@.subrange(0, i + 1);
        let ghost mid = *result;
        proof {
            assert(sub.drop_last() =~= props@.subrange(0, i as int));
            assert(sub.last() == *p);
        }
        let mut is_theme = false;
        match &p.key {
            Some(k) => {
                let kc = crate::text::chars_of(k.as_str());
                is_theme = same_text_lit(&kc, "theme");
            },
            None => {},
        }
        if is_theme {
            match &p.value {
                JsValue::Object(o) => {
                    put_theme(o, result);
                },
                _ => {},
            }
        }
        proof {
            assert forall|sec: ThemeSection, k: Seq<char>| #[trigger] result.section(sec).lookup(k)
                == after_pairs(start.section(sec).lookup(k), config_pairs(sub, sec), k) by {
                assert(result.section(sec).lookup(k) == after_pairs(mid.section(sec).lookup(k), config_step(*p, sec), k));
                lemma_after_concat(start.section(sec).lookup(k), config_pairs(props@.subrange(0, i as int), sec), config_step(*p, sec), k);
            }
        }
    }
    assert(props@.subrange(0, props@.len() as int) =~= props@);
}

impl ConfigDetector {
    /// The names of the configuration files that detection looks for, in
    /// order: `tailwind.config` with the extensions `js`, `ts`, `mjs`, `cjs`.
    pub fn config_files() -> (r: Vec<String>)
        ensures
            r@.len() == 4,
            r@[0]@ == "tailwind.config.js"@,
            r@[1]@ == "tailwind.config.ts"@,
            r@[2]@ == "tailwind.config.mjs"@,
            r@[3]@ == "tailwind.config.cjs"@,
    {
        let mut v: Vec<String> = Vec::new();
        v.push(String::from_str("tailwind.config.js"));
        v.push(String::from_str("tailwind.config.ts"));
        v.push(String::from_str("tailwind.config.mjs"));
        v.push(String::from_str("tailwind.config.cjs"));
        v
    }

    /// What detection finds in the configuration file `file_found` (none:
    /// no file was found) whose exported objects are `objects`: the pairs
    /// of their theme sections put in, in order (`objects_pairs`).
    pub fn analyze(file_found: Option<String>, objects: &[Vec<JsProperty>]) -> (r: ConfigDetectionResult)
        ensures
            r.wf(),
            r.file_found == file_found,
            r.font_family@.len() == 0,
            !r.arbitrary_utilities,
            forall|sec: ThemeSection, k: Seq<char>| #[trigger] r.section(sec).lookup(k)
                == after_pairs(None, objects_pairs(objects@, sec), k),
    {
        let d = ConfigDetectionResult::default();
        let ghost dd = d;
        let mut result = ConfigDetectionResult {
            file_found,
            spacing: d.spacing,
            colors: d.colors,
            screens: d.screens,
            font_family: d.font_family,
            arbitrary_utilities: d.arbitrary_utilities,
        };
        let ghost start = result;
        assert forall|sec: ThemeSection, k: Seq<char>| #[trigger] start.section(sec).lookup(k) is None by {
            assert(start.section(sec) == dd.section(sec));
        }
        assert(objects@.subrange(0, 0) =~= Seq::<Vec<JsProperty>>::empty());
        for i in 0..objects.len()
            invariant
                start.file_found == file_found,
                start.font_family@.len() == 0,
                !start.arbitrary_utilities,
                forall|sec: ThemeSection, k: Seq<char>| #[trigger] start.section(sec).lookup(k) is None,
                sections_after(start, result, |sec: ThemeSection| objects_pairs(objects@.subrange(0, i as int), sec)),
        {
            let ghost sub = objects@.subrange(0, i + 1);
            let ghost mid = result;
            proof {
                assert(sub.drop_last() =~= objects@.subrange(0, i as int));
                assert(sub.last() == objects@[i as int]);
            }
            put_config(&objects[i], &mut result);
            proof {
                assert forall|sec: ThemeSection, k: Seq<char>| #[trigger] result.section(sec).lookup(k)
                    == after_pairs(start.section(sec).lookup(k), objects_pairs(sub, sec), k) by {
                    lemma_after_concat(start.section(sec).lookup(k), objects_pairs(objects@.subrange(0, i as int), sec), config_pairs(objects@[i as int]@, sec), k);
                }
            }
        }
        assert(objects@.subrange(0, objects@.len() as int) =~= objects@);
        result
    }
}

} // verus!
