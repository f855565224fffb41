//! The set of `use` lines that the generated code needs, kept as a vector in
//! which every line occurs once.

use vstd::prelude::*;
use crate::formatter::strings_view;
use crate::text::{chars_of, string_from_chars};

verus! {

/// `imports` after `item` was added to the set.
pub open spec fn add_import(imports: Seq<Seq<char>>, item: Seq<char>) -> Seq<Seq<char>> {
    if imports.contains(item) {
        imports
    } else {
        imports.push(item)
    }
}

/// No line occurs twice.
pub open spec fn no_duplicates(imports: Seq<Seq<char>>) -> bool {
    forall|i: int, j: int|
        0 <= i < imports.len() && 0 <= j < imports.len() && i != j ==> imports[i] != imports[j]
}

/// Adds the line `item` unless it is already present.
pub fn insert_import_chars(imports: &mut Vec<String>, item: &Vec<char>)
    ensures
        no_duplicates(strings_view(old(imports)@)) ==> no_duplicates(strings_view(final(imports)@)),
        strings_view(final(imports)@) == add_import(strings_view(old(imports)@), item@),
{
    let mut i: usize = 0;
    while i < imports.len()
        invariant
            no_duplicates(strings_view(old(imports)@)) ==> no_duplicates(strings_view(imports@)),
            i <= imports.len(),
            imports@ == old(imports)@,
            forall|j: int| 0 <= j < i ==> imports@[j]@ != item@,
        decreases imports.len() - i,
    {
        let existing = chars_of(imports[i].as_str());
        if crate::text::chars_eq(&existing, item) {
            assert(strings_view(imports@)[i as int] == item@);
            assert(strings_view(imports@).contains(item@));
            return;
        }
        i = i + 1;
    }
    assert(!strings_view(imports@).contains(item@)) by {
        if strings_view(imports@).contains(item@) {
            let k = choose|k: int|
                0 <= k < strings_view(imports@).len() && strings_view(imports@)[k] == item@;
            assert(imports@[k]@ == item@);
        }
    }
    let ghost before = strings_view(imports@);
    proof {
        if no_duplicates(before) {
            lemma_add_import(before, item@);
        }
    }
    imports.push(string_from_chars(item));
    assert(strings_view(imports@) =~= before.push(item@));
}

/// Adds the line `item` unless it is already present.
pub fn insert_import(imports: &mut Vec<String>, item: &str)
    ensures
        no_duplicates(strings_view(old(imports)@)) ==> no_duplicates(strings_view(final(imports)@)),
        strings_view(final(imports)@) == add_import(strings_view(old(imports)@), item@),
{
    let v = chars_of(item);
    insert_import_chars(imports, &v);
}

/// Adding a line keeps the lines distinct, keeps every line already there,
/// and makes the added line present.
pub proof fn lemma_add_import(imports: Seq<Seq<char>>, item: Seq<char>)
    requires
        no_duplicates(imports),
    ensures
        no_duplicates(add_import(imports, item)),
        add_import(imports, item).contains(item),
        forall|s: Seq<char>| imports.contains(s) ==> #[trigger] add_import(imports, item).contains(s),
        forall|s: Seq<char>|
            #[trigger] add_import(imports, item).contains(s) ==> imports.contains(s) || s == item,
{
    let r = add_import(imports, item);
    if !imports.contains(item) {
        assert(r[imports.len() as int] == item);
        assert forall|s: Seq<char>| imports.contains(s) implies #[trigger] r.contains(s) by {
            let k = choose|k: int| 0 <= k < imports.len() && imports[k] == s;
            assert(r[k] == s);
        }
        assert forall|s: Seq<char>| #[trigger] r.contains(s) implies imports.contains(s) || s
            == item by {
            let k = choose|k: int| 0 <= k < r.len() && r[k] == s;
            if k < imports.len() {
                assert(imports[k] == s);
            }
        }
    }
}

} // verus!
