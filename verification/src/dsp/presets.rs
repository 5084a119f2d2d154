//! Preset names: the built-in ones, the sorted list offered to clients, and
//! the file names custom presets are saved under.
use vstd::prelude::*;

use crate::text::{alphanumeric, append_str, chars_of, is_alphanumeric, string_of};

verus! {

/// The names of the built-in presets.
pub open spec fn builtin_names() -> Seq<Seq<char>> {
    seq!["Flat"@, "Bass Boost"@, "Vocal"@, "Classical"@, "Rock"@, "Electronic"@, "Podcast"@]
}

/// The names of the built-in presets.
pub fn builtin_preset_names() -> (r: Vec<String>)
    ensures
        r.deep_view() == builtin_names(),
{
    let mut r: Vec<String> = Vec::new();
    r.push(String::from_str("Flat"));
    r.push(String::from_str("Bass Boost"));
    r.push(String::from_str("Vocal"));
    r.push(String::from_str("Classical"));
    r.push(String::from_str("Rock"));
    r.push(String::from_str("Electronic"));
    r.push(String::from_str("Podcast"));
    assert(r.deep_view() =~= builtin_names());
    r
}

/// `a < b` in the order of `String`: lexicographic by character (UTF-8
/// bytes compare as their code points do).
pub open spec fn name_lt(a: Seq<char>, b: Seq<char>) -> bool
    decreases a.len(),
{
    if a.len() == 0 {
        b.len() > 0
    } else if b.len() == 0 {
        false
    } else if a[0] != b[0] {
        a[0] < b[0]
    } else {
        name_lt(a.drop_first(), b.drop_first())
    }
}

pub proof fn lemma_name_lt_irreflexive(a: Seq<char>)
    ensures
        !name_lt(a, a),
    decreases a.len(),
{
    if a.len() > 0 {
        lemma_name_lt_irreflexive(a.drop_first());
    }
}

pub proof fn lemma_name_lt_transitive(a: Seq<char>, b: Seq<char>, c: Seq<char>)
    requires
        name_lt(a, b),
        name_lt(b, c),
    ensures
        name_lt(a, c),
    decreases a.len(),
{
    if a.len() > 0 && b.len() > 0 && c.len() > 0 && a[0] == b[0] && b[0] == c[0] {
        lemma_name_lt_transitive(a.drop_first(), b.drop_first(), c.drop_first());
    }
}

/// Sorted in the order of `String`.
pub open spec fn sorted_names(s: Seq<Seq<char>>) -> bool {
    forall|i: int, j: int| 0 <= i < j < s.len() ==> !name_lt(#[trigger] s[j], #[trigger] s[i])
}

fn names_lt(a: &[char], b: &[char]) -> (r: bool)
    ensures
        r == name_lt(a@, b@),
{
    let mut i: usize = 0;
    proof {
        assert(a@.skip(0) =~= a@);
        assert(b@.skip(0) =~= b@);
    }
    while i < a.len() && i < b.len() && a[i] == b[i]
        invariant
            0 <= i <= a@.len(),
            i <= b@.len(),
            name_lt(a@, b@) == name_lt(a@.skip(i as int), b@.skip(i as int)),
        decreases a.len() - i,
    {
        proof {
            assert(a@.skip(i as int).drop_first() =~= a@.skip(i + 1));
            assert(b@.skip(i as int).drop_first() =~= b@.skip(i + 1));
        }
        i = i + 1;
    }
    if i == a.len() {
        i < b.len()
    } else if i == b.len() {
        false
    } else {
        a[i] < b[i]
    }
}

/// Insert `x` into the sorted `v`, before the first name greater than it.
fn insert_sorted(v: &mut Vec<String>, x: String)
    requires
        sorted_names(old(v).deep_view()),
    ensures
        sorted_names(final(v).deep_view()),
        final(v).deep_view().to_multiset() == old(v).deep_view().to_multiset().insert(x@),
{
    let ghost old_dv = v.deep_view();
    let xc = chars_of(x.as_str());
    let mut p: usize = 0;
    while p < v.len()
        invariant
            0 <= p <= v@.len(),
            v.deep_view() == old_dv,
            xc@ == x@,
            forall|i: int| 0 <= i < p ==> !name_lt(x@, #[trigger] old_dv[i]),
        ensures
            0 <= p <= v@.len(),
            v.deep_view() == old_dv,
            forall|i: int| 0 <= i < p ==> !name_lt(x@, #[trigger] old_dv[i]),
            p == v@.len() || name_lt(x@, old_dv[p as int]),
        decreases v.len() - p,
    {
        let vc = chars_of(v[p].as_str());
        if names_lt(&xc, &vc) {
            break;
        }
        p = p + 1;
    }
    let ghost xv = x@;
    v.insert(p, x);
    proof {
        assert(v.deep_view() =~= old_dv.insert(p as int, xv));
        broadcast use vstd::seq_lib::group_to_multiset_ensures;

        let nv = v.deep_view();
        assert forall|i: int, j: int| 0 <= i < j < nv.len() implies !name_lt(
            #[trigger] nv[j],
            #[trigger] nv[i],
        ) by {
            if i < p && j < p {
                assert(nv[i] == old_dv[i] && nv[j] == old_dv[j]);
            } else if i < p && j == p {
                assert(nv[i] == old_dv[i]);
            } else if i < p {
                assert(nv[i] == old_dv[i] && nv[j] == old_dv[j - 1]);
            } else if i == p {
                assert(nv[j] == old_dv[j - 1]);
                if name_lt(nv[j], xv) {
                    assert(p < old_dv.len());
                    assert(name_lt(xv, old_dv[p as int]));
                    lemma_name_lt_transitive(nv[j], xv, old_dv[p as int]);
                    if j - 1 == p {
                        lemma_name_lt_irreflexive(old_dv[p as int]);
                    }
                }
            } else {
                assert(nv[i] == old_dv[i - 1] && nv[j] == old_dv[j - 1]);
            }
        }
    }
}

/// The names of all presets, built-in and custom, sorted.
pub fn all_preset_names(custom: &[String]) -> (r: Vec<String>)
    ensures
        sorted_names(r.deep_view()),
        r.deep_view().to_multiset() == (builtin_names() + custom@.map_values(
            |s: String| s@,
        )).to_multiset(),
{
    let builtin = builtin_preset_names();
    let ghost all = builtin_names() + custom@.map_values(|s: String| s@);
    let mut r: Vec<String> = Vec::new();
    let mut i: usize = 0;
    proof {
        broadcast use vstd::seq_lib::group_to_multiset_ensures;

        assert(all.take(0) =~= Seq::<Seq<char>>::empty());
        assert(r.deep_view() =~= Seq::<Seq<char>>::empty());
    }
    while i < builtin.len()
        invariant
            0 <= i <= builtin@.len(),
            builtin.deep_view() == builtin_names(),
            all == builtin_names() + custom@.map_values(|s: String| s@),
            sorted_names(r.deep_view()),
            r.deep_view().to_multiset() == all.take(i as int).to_multiset(),
        decreases builtin.len() - i,
    {
        let name = builtin[i].clone();
        insert_sorted(&mut r, name);
        proof {
            broadcast use vstd::seq_lib::group_to_multiset_ensures;

            assert(all.take(i + 1) =~= all.take(i as int).push(builtin_names()[i as int]));
        }
        i = i + 1;
    }
    let mut j: usize = 0;
    while j < custom.len()
        invariant
            0 <= j <= custom@.len(),
            builtin_names().len() == 7,
            all == builtin_names() + custom@.map_values(|s: String| s@),
            sorted_names(r.deep_view()),
            r.deep_view().to_multiset() == all.take(7 + j).to_multiset(),
        decreases custom.len() - j,
    {
        let name = custom[j].clone();
        insert_sorted(&mut r, name);
        proof {
            broadcast use vstd::seq_lib::group_to_multiset_ensures;

            assert(all.take(7 + j + 1) =~= all.take(7 + j).push(custom@[j as int]@));
        }
        j = j + 1;
    }
    assert(all.take(7 + custom@.len() as int) =~= all);
    r
}

/// The character a file name keeps for `c`: letters, digits, `-` and `_`
/// stay; anything else becomes `_`.
pub open spec fn file_char(c: char) -> char {
    if alphanumeric(c) || c == '-' || c == '_' {
        c
    } else {
        '_'
    }
}

/// The character a file name keeps for `c`, given whether `c` is
/// alphanumeric: letters, digits, `-` and `_` stay; anything else becomes `_`.
pub fn file_char_of(c: char, alnum: bool) -> (r: char)
    ensures
        r == (if alnum || c == '-' || c == '_' {
            c
        } else {
            '_'
        }),
{
    if alnum || c == '-' || c == '_' {
        c
    } else {
        '_'
    }
}

pub open spec fn sanitized(name: Seq<char>) -> Seq<char> {
    name.map_values(|c: char| file_char(c))
}

/// Sanitize a filename by replacing every character other than letters,
/// digits, dash and underscore with an underscore.
pub fn sanitize_filename(name: &str) -> (r: String)
    ensures
        r@ == sanitized(name@),
{
    let cs = chars_of(name);
    let mut out: Vec<char> = Vec::new();
    let mut i: usize = 0;
    while i < cs.len()
        invariant
            0 <= i <= cs@.len(),
            out@ == sanitized(cs@.take(i as int)),
        decreases cs.len() - i,
    {
        let c = cs[i];
        out.push(file_char_of(c, is_alphanumeric(c)));
        assert(out@ =~= sanitized(cs@.take(i + 1)));
        i = i + 1;
    }
    assert(cs@.take(cs@.len() as int) =~= cs@);
    string_of(&out)
}

/// A sanitized name is left as it is by sanitizing it again.
pub proof fn lemma_sanitize_idempotent(name: Seq<char>)
    ensures
        sanitized(sanitized(name)) == sanitized(name),
{
    assert(sanitized(sanitized(name)) =~= sanitized(name));
}

/// Sanitizing keeps the length and leaves only letters, digits, `-` and `_`.
pub proof fn lemma_sanitized_chars(name: Seq<char>)
    ensures
        sanitized(name).len() == name.len(),
        forall|i: int|
            0 <= i < name.len() ==> {
                let c = #[trigger] sanitized(name)[i];
                alphanumeric(c) || c == '-' || c == '_'
            },
{
}

/// The file a custom preset is stored in.
pub fn preset_file_name(name: &str) -> (r: String)
    ensures
        r@ == sanitized(name@) + ".toml"@,
{
    let s = sanitize_filename(name);
    let mut v: Vec<char> = Vec::new();
    append_str(&mut v, s.as_str());
    append_str(&mut v, ".toml");
    string_of(&v)
}

} // verus!
