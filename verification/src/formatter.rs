//! Splitting, comma removal and whitespace normalisation of source text.

use vstd::prelude::*;
use crate::text::{chars_of, string_from_chars, replace_chars, replace_seq, matches_at, occurs_at, trim_chars, trim_seq,
    join_seqs, is_ws, lemma_trim_ends};
use crate::pattern::{replace_all, regex_replace};

verus! {

/// The pieces of `s` between the non-overlapping, leftmost occurrences of the
/// non-empty separator `sep`; `cur` is the piece read so far.
pub open spec fn split_rec(s: Seq<char>, sep: Seq<char>, cur: Seq<char>) -> Seq<Seq<char>>
    decreases s.len(),
{
    if sep.len() == 0 || s.len() == 0 {
        seq![cur]
    } else if occurs_at(s, sep, 0) {
        seq![cur] + split_rec(s.subrange(sep.len() as int, s.len() as int), sep, Seq::empty())
    } else {
        split_rec(s.drop_first(), sep, cur.push(s[0]))
    }
}

/// Splitting always yields at least one piece.
pub proof fn lemma_split_rec_nonempty(s: Seq<char>, sep: Seq<char>, cur: Seq<char>)
    ensures
        split_rec(s, sep, cur).len() >= 1,
    decreases s.len(),
{
    if sep.len() > 0 && s.len() > 0 && !occurs_at(s, sep, 0) {
        lemma_split_rec_nonempty(s.drop_first(), sep, cur.push(s[0]));
    }
}

/// What `str::split(s, sep)` yields: for an empty separator, an empty piece,
/// each character on its own and an empty piece.
pub open spec fn split_seq(s: Seq<char>, sep: Seq<char>) -> Seq<Seq<char>> {
    if sep.len() == 0 {
        seq![Seq::<char>::empty()] + s.map_values(|c: char| seq![c]) + seq![Seq::<char>::empty()]
    } else {
        split_rec(s, sep, Seq::empty())
    }
}

/// Splitting always yields at least one piece.
pub proof fn lemma_split_nonempty(s: Seq<char>, sep: Seq<char>)
    ensures
        split_seq(s, sep).len() >= 1,
{
    if sep.len() > 0 {
        lemma_split_rec_nonempty(s, sep, Seq::empty());
    }
}

/// How many times `sep` occurs in `s`, counting non-overlapping occurrences
/// from the left, as `str::matches` finds them; an empty separator matches
/// before each character and at the end.
pub open spec fn count_matches(s: Seq<char>, sep: Seq<char>) -> nat
    decreases s.len(),
{
    if sep.len() == 0 {
        s.len() + 1
    } else if s.len() == 0 {
        0
    } else if occurs_at(s, sep, 0) {
        1 + count_matches(s.subrange(sep.len() as int, s.len() as int), sep)
    } else {
        count_matches(s.drop_first(), sep)
    }
}

proof fn lemma_split_rec_count(s: Seq<char>, sep: Seq<char>, cur: Seq<char>)
    requires
        sep.len() > 0,
    ensures
        split_rec(s, sep, cur).len() == count_matches(s, sep) + 1,
    decreases s.len(),
{
    if s.len() > 0 {
        if occurs_at(s, sep, 0) {
            lemma_split_rec_count(s.subrange(sep.len() as int, s.len() as int), sep, Seq::empty());
        } else {
            lemma_split_rec_count(s.drop_first(), sep, cur.push(s[0]));
        }
    }
}

/// Splitting gives one more piece than there are occurrences of the
/// separator.
pub proof fn lemma_split_count(s: Seq<char>, sep: Seq<char>)
    ensures
        split_seq(s, sep).len() == count_matches(s, sep) + 1,
{
    if sep.len() > 0 {
        lemma_split_rec_count(s, sep, Seq::empty());
    }
}

/// `s` without any `,`.
pub open spec fn without_commas(s: Seq<char>) -> Seq<char> {
    replace_seq(s, seq![','], Seq::empty())
}

/// The views of a vector of strings.
pub open spec fn strings_view(v: Seq<String>) -> Seq<Seq<char>> {
    v.map_values(|s: String| s@)
}

/// The pieces of `string` between the occurrences of `separator`.
pub fn split_plain(string: &str, separator: &str) -> (r: Vec<String>)
    ensures
        strings_view(r@) == split_seq(string@, separator@),
{
    let s = chars_of(string);
    let sep = chars_of(separator);
    let mut out: Vec<String> = Vec::new();
    if sep.len() == 0 {
        let empty: Vec<char> = Vec::new();
        out.push(string_from_chars(&empty));
        let mut i: usize = 0;
        while i < s.len()
            invariant
                i <= s.len(),
                s@ == string@,
                out@.len() == i + 1,
                out@[0]@ == Seq::<char>::empty(),
                forall|j: int| 0 <= j < i ==> #[trigger] out@[j + 1]@ == seq![s@[j]],
            decreases s.len() - i,
        {
            let mut one: Vec<char> = Vec::new();
            one.push(s[i]);
            out.push(string_from_chars(&one));
            i = i + 1;
            assert forall|j: int| 0 <= j < i implies #[trigger] out@[j + 1]@ == seq![s@[j]] by {
                if j == i - 1 {
                    assert(one@ == seq![s@[j]]);
                }
            }
        }
        out.push(string_from_chars(&empty));
        let ghost target = split_seq(string@, separator@).map_values(
            |p: Seq<char>| p,
        );
        assert(target.len() == out@.len());
        assert forall|k: int| 0 <= k < out@.len() implies strings_view(out@)[k] == target[k] by {
            if 0 < k < out@.len() - 1 {
                assert(out@[(k - 1) + 1]@ == seq![s@[k - 1]]);
            }
        }
        assert(strings_view(out@) =~= target);
        assert(target =~= split_seq(string@, separator@));
        return out;
    }
    let mut cur: Vec<char> = Vec::new();
    let mut i: usize = 0;
    assert(s@.subrange(0, s@.len() as int) == s@);
    while i < s.len()
        invariant
            sep@.len() > 0,
            i <= s.len(),
            s@ == string@,
            sep@ == separator@,
            strings_view(out@) + split_rec(s@.subrange(i as int, s@.len() as int), sep@, cur@).map_values(
                |p: Seq<char>| p,
            ) == split_rec(s@, sep@, Seq::empty()).map_values(|p: Seq<char>| p),
        decreases s.len() - i,
    {
        let ghost rest = s@.subrange(i as int, s@.len() as int);
        if matches_at(&s, &sep, i) {
            assert(occurs_at(rest, sep@, 0)) by {
                assert(rest.subrange(0, sep@.len() as int) == s@.subrange(
                    i as int,
                    i + sep@.len(),
                ));
            }
            assert(rest.subrange(sep@.len() as int, rest.len() as int) == s@.subrange(
                i + sep@.len(),
                s@.len() as int,
            ));
            let ghost tail = split_rec(
                s@.subrange(i + sep@.len(), s@.len() as int),
                sep@,
                Seq::empty(),
            );
            assert(split_rec(rest, sep@, cur@) == seq![cur@] + tail);
            let ghost old_out = strings_view(out@);
            let ghost old_cur = cur@;
            out.push(string_from_chars(&cur));
            assert(strings_view(out@) =~= old_out.push(old_cur));
            assert((seq![old_cur] + tail).map_values(|p: Seq<char>| p) =~= seq![
                old_cur] + tail.map_values(|p: Seq<char>| p));
            assert(old_out.push(old_cur) + tail.map_values(
                |p: Seq<char>| p,
            ) =~= old_out + (seq![old_cur] + tail.map_values(
                |p: Seq<char>| p,
            )));
            cur = Vec::new();
            i = i + sep.len();
        } else {
            assert(!occurs_at(rest, sep@, 0)) by {
                if occurs_at(rest, sep@, 0) {
                    assert(rest.subrange(0, sep@.len() as int) == s@.subrange(
                        i as int,
                        i + sep@.len(),
                    ));
                }
            }
            assert(rest.drop_first() == s@.subrange(i + 1, s@.len() as int));
            assert(rest[0] == s@[i as int]);
            cur.push(s[i]);
            i = i + 1;
        }
    }
    out.push(string_from_chars(&cur));
    assert(strings_view(out@) =~= split_seq(string@, separator@).map_values(
        |p: Seq<char>| p,
    ));
    assert(split_seq(string@, separator@).map_values(|p: Seq<char>| p) =~= split_seq(string@, separator@));
    out
}

/// `out` is what `f` gives for a text whose characters are `piece`.
pub open spec fn maps_to<F: Fn(&str) -> String>(f: F, piece: Seq<char>, out: String) -> bool {
    exists|t: &str| t@ == piece && #[trigger] call_ensures(f, (t,), out)
}

/// Splits `string` by `separator` and applies `map_maybe` to each piece.
///
/// `string` string to be split
/// `separator` string by which `string` is split
pub fn split<F: Fn(&str) -> String>(string: &str, separator: &str, map_maybe: Option<F>) -> (r: Vec<String>)
    requires
        map_maybe matches Some(f) ==> forall|t: &str| #[trigger] call_requires(f, (t,)),
    ensures
        r.len() == split_seq(string@, separator@).len(),
        map_maybe is None ==> strings_view(r@) == split_seq(string@, separator@),
        map_maybe matches Some(f) ==> forall|i: int|
            0 <= i < r.len() ==> #[trigger] maps_to(f, split_seq(string@, separator@)[i], r@[i]),
{
    let pieces = split_plain(string, separator);
    let ghost ps = split_seq(string@, separator@);
    match map_maybe {
        None => pieces,
        Some(f) => {
            let mut out: Vec<String> = Vec::new();
            let mut i: usize = 0;
            while i < pieces.len()
                invariant
                    i <= pieces.len(),
                    strings_view(pieces@) == ps,
                    out@.len() == i,
                    forall|t: &str| #[trigger] call_requires(f, (t,)),
                    forall|j: int| 0 <= j < i ==> #[trigger] maps_to(f, ps[j], out@[j]),
                decreases pieces.len() - i,
            {
                let t = pieces[i].as_str();
                let o = f(t);
                assert(t@ == ps[i as int]);
                assert(maps_to(f, ps[i as int], o));
                out.push(o);
                i = i + 1;
            }
            out
        },
    }
}

/// The piece mapping that removes every `,` (`remove_commas`).
pub fn remove_commas() -> (r: impl Fn(&str) -> String)
    ensures
        forall|t: &str| #[trigger] call_requires(r, (t,)),
        forall|t: &str, o: String| #[trigger] call_ensures(r, (t,), o) ==> o@ == without_commas(t@),
{
    |t: &str| -> (o: String)
        ensures
            o@ == without_commas(t@),
        {
            let v = chars_of(t);
            let comma = chars_of(",");
            let nothing: Vec<char> = Vec::new();
            proof {
                reveal_strlit(",");
                assert(comma@ == seq![',']);
            }
            let w = replace_chars(&v, &comma, &nothing);
            string_from_chars(&w)
        }
}

/// The pattern for a run of whitespace.
pub open spec fn ws_run_pattern() -> Seq<char> {
    "\\s+"@
}

/// What `trim` returns for `line`: every run of whitespace replaced by one
/// space, then leading and trailing whitespace removed.
pub open spec fn trim_spec(line: Seq<char>) -> Seq<char> {
    trim_seq(regex_replace(ws_run_pattern(), line, " "@))
}

/// Collapses whitespace runs to single spaces and trims the ends.
pub fn collapse_and_trim(line: &Vec<char>) -> (r: Vec<char>)
    ensures
        r@ == trim_spec(line@),
{
    let collapsed = replace_all("\\s+", line, " ");
    trim_chars(&collapsed)
}

/// Collapses whitespace runs of `line` to single spaces and trims the ends.
pub fn trim(line: &str) -> (r: String)
    ensures
        r@ == trim_spec(line@),
{
    let v = chars_of(line);
    let t = collapse_and_trim(&v);
    string_from_chars(&t)
}


/// Joining a non-empty list after a first piece puts the separator between.
proof fn lemma_join_prepend(a: Seq<char>, list: Seq<Seq<char>>, sep: Seq<char>)
    requires
        list.len() >= 1,
    ensures
        join_seqs(seq![a] + list, sep) == a + sep + join_seqs(list, sep),
    decreases list.len(),
{
    let l = seq![a] + list;
    if list.len() == 1 {
        assert(l.drop_last() =~= seq![a]);
        assert(l.last() == list[0]);
        assert(join_seqs(seq![a], sep) == a);
        assert(join_seqs(list, sep) == list[0]);
        assert(join_seqs(l, sep) == join_seqs(l.drop_last(), sep) + sep + l.last());
    } else {
        assert(l.drop_last() =~= seq![a] + list.drop_last());
        lemma_join_prepend(a, list.drop_last(), sep);
        assert(l.last() == list.last());
        assert(join_seqs(l, sep) == join_seqs(l.drop_last(), sep) + sep + l.last());
        assert(join_seqs(list, sep) == join_seqs(list.drop_last(), sep) + sep + list.last());
        assert(a + sep + join_seqs(list.drop_last(), sep) + sep + list.last() =~= a + sep + (join_seqs(
            list.drop_last(),
            sep,
        ) + sep + list.last()));
    }
}

proof fn lemma_split_rec_join(s: Seq<char>, sep: Seq<char>, cur: Seq<char>)
    requires
        sep.len() > 0,
    ensures
        join_seqs(split_rec(s, sep, cur), sep) == cur + s,
    decreases s.len(),
{
    if s.len() == 0 {
        assert(cur + s =~= cur);
    } else if occurs_at(s, sep, 0) {
        let rest = s.subrange(sep.len() as int, s.len() as int);
        lemma_split_rec_nonempty(rest, sep, Seq::empty());
        lemma_split_rec_join(rest, sep, Seq::empty());
        lemma_join_prepend(cur, split_rec(rest, sep, Seq::empty()), sep);
        assert(Seq::<char>::empty() + rest =~= rest);
        assert(s =~= sep + rest);
        assert(cur + sep + rest =~= cur + s);
    } else {
        lemma_split_rec_join(s.drop_first(), sep, cur.push(s[0]));
        assert(cur.push(s[0]) + s.drop_first() =~= cur + s);
    }
}

/// Splitting by a non-empty separator and joining the pieces with it gives
/// back the text: `split` loses nothing but the separators.
pub proof fn lemma_split_join(s: Seq<char>, sep: Seq<char>)
    requires
        sep.len() > 0,
    ensures
        join_seqs(split_seq(s, sep), sep) == s,
{
    lemma_split_rec_join(s, sep, Seq::empty());
    assert(Seq::<char>::empty() + s =~= s);
}

proof fn lemma_remove_char_absent(s: Seq<char>, c: char)
    ensures
        !replace_seq(s, seq![c], Seq::empty()).contains(c),
    decreases s.len(),
{
    if s.len() > 0 {
        if occurs_at(s, seq![c], 0) {
            lemma_remove_char_absent(s.subrange(1, s.len() as int), c);
            assert(Seq::<char>::empty() + replace_seq(s.subrange(1, s.len() as int), seq![c], Seq::empty())
                =~= replace_seq(s.subrange(1, s.len() as int), seq![c], Seq::empty()));
        } else {
            assert(s.subrange(0, 1) =~= seq![s[0]]);
            assert(s[0] != c);
            lemma_remove_char_absent(s.drop_first(), c);
            let r = replace_seq(s.drop_first(), seq![c], Seq::empty());
            assert forall|i: int| 0 <= i < (seq![s[0]] + r).len() implies (seq![s[0]] + r)[i] != c by {
                if i > 0 {
                    assert((seq![s[0]] + r)[i] == r[i - 1]);
                }
            }
        }
    }
}

proof fn lemma_remove_char_none(s: Seq<char>, c: char)
    requires
        !s.contains(c),
    ensures
        replace_seq(s, seq![c], Seq::empty()) == s,
    decreases s.len(),
{
    if s.len() > 0 {
        assert(s[0] != c);
        assert(!occurs_at(s, seq![c], 0)) by {
            if occurs_at(s, seq![c], 0) {
                assert(s.subrange(0, 1)[0] == s[0]);
            }
        }
        assert(!s.drop_first().contains(c)) by {
            if s.drop_first().contains(c) {
                let k = choose|k: int| 0 <= k < s.drop_first().len() && s.drop_first()[k] == c;
                assert(s[k + 1] == c);
            }
        }
        lemma_remove_char_none(s.drop_first(), c);
        assert(seq![s[0]] + s.drop_first() =~= s);
    }
}

/// The pieces that `remove_commas` maps hold no comma, and removing the
/// commas a second time changes nothing.
pub proof fn lemma_without_commas(s: Seq<char>)
    ensures
        !without_commas(s).contains(','),
        without_commas(without_commas(s)) == without_commas(s),
{
    lemma_remove_char_absent(s, ',');
    lemma_remove_char_none(without_commas(s), ',');
}


/// What `trim` returns neither starts nor ends with whitespace.
pub proof fn lemma_trim_no_outer_whitespace(line: Seq<char>)
    ensures
        trim_spec(line).len() > 0 ==> !is_ws(trim_spec(line)[0]) && !is_ws(trim_spec(line).last()),
{
    lemma_trim_ends(regex_replace(ws_run_pattern(), line, " "@));
}

} // verus!
