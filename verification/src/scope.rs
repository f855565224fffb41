//! What the statement and expression parsers know of the contract being
//! parsed: its state variables, functions, events and structs.

use vstd::prelude::*;
use crate::structures::{Event, Struct};
use crate::formatter::strings_view;
use crate::text::{chars_eq, chars_of, chars_of_string};

verus! {

/// The members of the contract, in declaration order. Where a name is
/// declared twice, the later declaration counts.
pub struct Scope {
    /// Names of the state variables.
    pub storage: Vec<String>,
    /// Names of the functions, and whether each is external.
    pub functions: Vec<(String, bool)>,
    pub events: Vec<Event>,
    pub structs: Vec<Struct>,
}

/// The model of a `Scope`: names, and for events and structs the names of
/// their fields.
pub struct ScopeV {
    pub storage: Seq<Seq<char>>,
    pub functions: Seq<(Seq<char>, bool)>,
    pub events: Seq<(Seq<char>, Seq<Seq<char>>)>,
    pub structs: Seq<(Seq<char>, Seq<Seq<char>>)>,
}

pub open spec fn event_v(e: Event) -> (Seq<char>, Seq<Seq<char>>) {
    (e.name@, e.fields@.map_values(|f: crate::structures::EventField| f.name@))
}

pub open spec fn struct_v(s: Struct) -> (Seq<char>, Seq<Seq<char>>) {
    (s.name@, s.fields@.map_values(|f: crate::structures::StructField| f.name@))
}

impl Scope {
    pub closed spec fn view_scope(&self) -> ScopeV {
        ScopeV {
            storage: strings_view(self.storage@),
            functions: self.functions@.map_values(|p: (String, bool)| (p.0@, p.1)),
            events: self.events@.map_values(|e: Event| event_v(e)),
            structs: self.structs@.map_values(|s: Struct| struct_v(s)),
        }
    }
}

/// What a scope holds, field by field.
pub proof fn lemma_view_scope(s: &Scope)
    ensures
        s.view_scope() == (ScopeV {
            storage: strings_view(s.storage@),
            functions: s.functions@.map_values(|p: (String, bool)| (p.0@, p.1)),
            events: s.events@.map_values(|e: Event| event_v(e)),
            structs: s.structs@.map_values(|s: Struct| struct_v(s)),
        }),
{
}

/// The model of a scope that knows no member.
pub open spec fn empty_scope_v() -> ScopeV {
    ScopeV { storage: Seq::empty(), functions: Seq::empty(), events: Seq::empty(), structs: Seq::empty() }
}

/// A scope that knows no member.
pub fn empty_scope() -> (r: Scope)
    ensures
        r.view_scope() == empty_scope_v(),
{
    let r = Scope { storage: Vec::new(), functions: Vec::new(), events: Vec::new(), structs: Vec::new() };
    assert(r.view_scope().storage =~= Seq::<Seq<char>>::empty());
    assert(r.view_scope().functions =~= Seq::<(Seq<char>, bool)>::empty());
    assert(r.view_scope().events =~= Seq::<(Seq<char>, Seq<Seq<char>>)>::empty());
    assert(r.view_scope().structs =~= Seq::<(Seq<char>, Seq<Seq<char>>)>::empty());
    r
}

/// The value of the last entry of `s` with key `key`.
pub open spec fn last_value<V>(s: Seq<(Seq<char>, V)>, key: Seq<char>) -> Option<V>
    decreases s.len(),
{
    if s.len() == 0 {
        None
    } else if s.last().0 == key {
        Some(s.last().1)
    } else {
        last_value(s.drop_last(), key)
    }
}

/// The receiver that code in the constructor or elsewhere uses.
pub open spec fn sel_name(constructor: bool) -> Seq<char> {
    if constructor {
        "instance"@
    } else {
        "self"@
    }
}

pub fn selector(constructor: bool) -> (r: String)
    ensures
        r@ == sel_name(constructor),
{
    if constructor {
        crate::text::string_from_chars(&chars_of("instance"))
    } else {
        crate::text::string_from_chars(&chars_of("self"))
    }
}

/// The receiver of a state variable, `None` for any other name.
pub open spec fn selector_of(sc: ScopeV, constructor: bool, name: Seq<char>) -> Option<Seq<char>> {
    if sc.storage.contains(name) {
        Some(sel_name(constructor))
    } else {
        None
    }
}

pub fn storage_contains(scope: &Scope, name: &Vec<char>) -> (r: bool)
    ensures
        r == scope.view_scope().storage.contains(name@),
{
    let ghost sv = scope.view_scope().storage;
    let mut i: usize = 0;
    while i < scope.storage.len()
        invariant
            i <= scope.storage.len(),
            sv == strings_view(scope.storage@),
            forall|j: int| 0 <= j < i ==> sv[j] != name@,
        decreases scope.storage.len() - i,
    {
        let s = chars_of_string(&scope.storage[i]);
        if chars_eq(&s, name) {
            assert(sv[i as int] == name@);
            return true;
        }
        i = i + 1;
    }
    assert(!sv.contains(name@)) by {
        if sv.contains(name@) {
            let k = choose|k: int| 0 <= k < sv.len() && sv[k] == name@;
        }
    }
    false
}

/// `get_selector`: the receiver if `field_name` is a state variable.
pub fn get_selector(scope: &Scope, constructor: bool, field_name: &Vec<char>) -> (r: Option<String>)
    ensures
        crate::model::opt_str_v(r) == selector_of(scope.view_scope(), constructor, field_name@),
{
    if storage_contains(scope, field_name) {
        Some(selector(constructor))
    } else {
        None
    }
}

/// Whether the function `name` is external, if it is a function of the contract.
pub fn function_lookup(scope: &Scope, name: &Vec<char>) -> (r: Option<bool>)
    ensures
        r == last_value(scope.view_scope().functions, name@),
{
    let ghost fs = scope.view_scope().functions;
    let mut i: usize = scope.functions.len();
    assert(fs.subrange(0, i as int) == fs);
    while i > 0
        invariant
            i <= scope.functions.len(),
            fs == scope.functions@.map_values(|p: (String, bool)| (p.0@, p.1)),
            last_value(fs, name@) == last_value(fs.subrange(0, i as int), name@),
        decreases i,
    {
        let ghost pre = fs.subrange(0, i as int);
        assert(pre.drop_last() == fs.subrange(0, i - 1));
        assert(pre.last() == (scope.functions@[i - 1].0@, scope.functions@[i - 1].1));
        let s = chars_of_string(&scope.functions[i - 1].0);
        if chars_eq(&s, name) {
            return Some(scope.functions[i - 1].1);
        }
        i = i - 1;
    }
    None
}

/// The name of field `index` of the struct `name`, if both exist.
pub open spec fn struct_field_name_of(sc: ScopeV, name: Seq<char>, index: int) -> Option<Seq<char>> {
    match last_value(sc.structs, name) {
        Some(fields) => if 0 <= index < fields.len() {
            Some(fields[index])
        } else {
            None
        },
        None => None,
    }
}

/// The name of field `index` of the event `name`, if both exist.
pub open spec fn event_field_name_of(sc: ScopeV, name: Seq<char>, index: int) -> Option<Seq<char>> {
    match last_value(sc.events, name) {
        Some(fields) => if 0 <= index < fields.len() {
            Some(fields[index])
        } else {
            None
        },
        None => None,
    }
}

pub fn struct_field_name(scope: &Scope, name: &Vec<char>, index: usize) -> (r: Option<Vec<char>>)
    ensures
        match r {
            Some(v) => struct_field_name_of(scope.view_scope(), name@, index as int) == Some(v@),
            None => struct_field_name_of(scope.view_scope(), name@, index as int) is None,
        },
{
    let ghost ss = scope.view_scope().structs;
    let mut i: usize = scope.structs.len();
    assert(ss.subrange(0, i as int) == ss);
    while i > 0
        invariant
            i <= scope.structs.len(),
            ss == scope.structs@.map_values(|s: Struct| struct_v(s)),
            last_value(ss, name@) == last_value(ss.subrange(0, i as int), name@),
        decreases i,
    {
        let ghost pre = ss.subrange(0, i as int);
        assert(pre.drop_last() == ss.subrange(0, i - 1));
        assert(pre.last() == struct_v(scope.structs@[i - 1]));
        let s = chars_of_string(&scope.structs[i - 1].name);
        if chars_eq(&s, name) {
            let fields = &scope.structs[i - 1].fields;
            if index < fields.len() {
                return Some(chars_of_string(&fields[index].name));
            } else {
                return None;
            }
        }
        i = i - 1;
    }
    None
}

pub fn event_field_name(scope: &Scope, name: &Vec<char>, index: usize) -> (r: Option<Vec<char>>)
    ensures
        match r {
            Some(v) => event_field_name_of(scope.view_scope(), name@, index as int) == Some(v@),
            None => event_field_name_of(scope.view_scope(), name@, index as int) is None,
        },
{
    let ghost es = scope.view_scope().events;
    let mut i: usize = scope.events.len();
    assert(es.subrange(0, i as int) == es);
    while i > 0
        invariant
            i <= scope.events.len(),
            es == scope.events@.map_values(|e: Event| event_v(e)),
            last_value(es, name@) == last_value(es.subrange(0, i as int), name@),
        decreases i,
    {
        let ghost pre = es.subrange(0, i as int);
        assert(pre.drop_last() == es.subrange(0, i - 1));
        assert(pre.last() == event_v(scope.events@[i - 1]));
        let s = chars_of_string(&scope.events[i - 1].name);
        if chars_eq(&s, name) {
            let fields = &scope.events[i - 1].fields;
            if index < fields.len() {
                return Some(chars_of_string(&fields[index].name));
            } else {
                return None;
            }
        }
        i = i - 1;
    }
    None
}

} // verus!
