//! Named templates with `{{field}}` substitution markers. The grammar the
//! renderer accepts, the scanner that checks it, and the meaning of a
//! substitution are all stated here; the engine that performs the
//! substitution is trusted against that meaning.

use vstd::prelude::*;
use crate::text::chars_eq;

verus! {

/// Characters allowed in a marker name.
pub open spec fn is_marker_char(c: char) -> bool {
    'a' <= c && c <= 'z'
}

/// Length of the run of marker-name characters at the front of `s`.
pub open spec fn ident_len(s: Seq<char>) -> nat
    decreases s.len(),
{
    if s.len() == 0 {
        0
    } else if !is_marker_char(s[0]) {
        0
    } else {
        1 + ident_len(s.drop_first())
    }
}

/// Marker names the engine would read as literals rather than look up.
pub open spec fn is_reserved_name(n: Seq<char>) -> bool {
    n == seq!['t', 'r', 'u', 'e'] || n == seq!['f', 'a', 'l', 's', 'e']
}

/// A well-formed template body: literal text free of braces, interleaved with
/// markers of the form `{{name}}` where `name` is a nonempty run of lowercase
/// letters and not a word the engine reserves.
pub open spec fn tpl_wf(s: Seq<char>) -> bool
    decreases s.len(),
{
    if s.len() == 0 {
        true
    } else if s[0] == '{' {
        s.len() >= 2 && s[1] == '{' && {
            let n = ident_len(s.skip(2)) as int;
            n > 0 && s.len() >= 4 + n && !is_reserved_name(s.subrange(2, 2 + n)) && s[2 + n] == '}'
                && s[3 + n] == '}' && tpl_wf(s.skip(4 + n))
        }
    } else if s[0] == '}' {
        false
    } else {
        tpl_wf(s.drop_first())
    }
}

/// The marker names of a well-formed body, in order of appearance.
pub open spec fn tpl_vars(s: Seq<char>) -> Seq<Seq<char>>
    decreases s.len(),
{
    if s.len() == 0 {
        Seq::empty()
    } else if s[0] == '{' {
        if s.len() >= 2 && s[1] == '{' {
            let n = ident_len(s.skip(2)) as int;
            if n > 0 && s.len() >= 4 + n {
                seq![s.subrange(2, 2 + n)] + tpl_vars(s.skip(4 + n))
            } else {
                Seq::empty()
            }
        } else {
            Seq::empty()
        }
    } else if s[0] == '}' {
        Seq::empty()
    } else {
        tpl_vars(s.drop_first())
    }
}

/// The result of substituting bound values for the markers of a well-formed
/// body: literal characters stay, each `{{name}}` becomes `b[name]`, and the
/// inserted value is not scanned again.
pub open spec fn subst(s: Seq<char>, b: Map<Seq<char>, Seq<char>>) -> Seq<char>
    decreases s.len(),
{
    if s.len() == 0 {
        Seq::empty()
    } else if s[0] == '{' {
        if s.len() >= 2 && s[1] == '{' {
            let n = ident_len(s.skip(2)) as int;
            if n > 0 && s.len() >= 4 + n {
                b[s.subrange(2, 2 + n)] + subst(s.skip(4 + n), b)
            } else {
                Seq::empty()
            }
        } else {
            Seq::empty()
        }
    } else if s[0] == '}' {
        Seq::empty()
    } else {
        seq![s[0]] + subst(s.drop_first(), b)
    }
}

/// Every marker of `s` has a binding in `b`.
pub open spec fn all_markers_bound(s: Seq<char>, b: Map<Seq<char>, Seq<char>>) -> bool {
    forall|j: int| 0 <= j < tpl_vars(s).len() ==> b.contains_key(#[trigger] tpl_vars(s)[j])
}

/// The view of a sequence of owned name vectors.
pub open spec fn names_view(ns: Seq<Vec<char>>) -> Seq<Seq<char>> {
    ns.map_values(|v: Vec<char>| v@)
}

/// The mapping described by a sequence of key-value pairs; a later pair for
/// the same key wins.
pub open spec fn map_of_pairs(ps: Seq<(Seq<char>, Seq<char>)>) -> Map<Seq<char>, Seq<char>>
    decreases ps.len(),
{
    if ps.len() == 0 {
        Map::empty()
    } else {
        map_of_pairs(ps.drop_last()).insert(ps.last().0, ps.last().1)
    }
}

/// A key is in the mapping of a pair sequence exactly when some pair has it.
pub proof fn lemma_map_of_pairs_dom(ps: Seq<(Seq<char>, Seq<char>)>, k: Seq<char>)
    ensures
        map_of_pairs(ps).contains_key(k) <==> exists|j: int| 0 <= j < ps.len() && ps[j].0 == k,
    decreases ps.len(),
{
    if ps.len() > 0 {
        lemma_map_of_pairs_dom(ps.drop_last(), k);
        if ps.last().0 == k {
            assert(ps[ps.len() - 1].0 == k);
        } else if map_of_pairs(ps).contains_key(k) {
            let j = choose|j: int| 0 <= j < ps.drop_last().len() && ps.drop_last()[j].0 == k;
            assert(ps[j].0 == k);
        } else {
            assert forall|j: int| 0 <= j < ps.len() implies ps[j].0 != k by {
                if j < ps.len() - 1 {
                    assert(ps.drop_last()[j].0 != k);
                }
            }
        }
    }
}

/// The value bound to `k` is the one of the last pair carrying `k`.
pub proof fn lemma_map_of_pairs_last(ps: Seq<(Seq<char>, Seq<char>)>, j: int)
    requires
        0 <= j < ps.len(),
        forall|l: int| j < l < ps.len() ==> ps[l].0 != ps[j].0,
    ensures
        map_of_pairs(ps).contains_key(ps[j].0),
        map_of_pairs(ps)[ps[j].0] == ps[j].1,
    decreases ps.len(),
{
    if j == ps.len() - 1 {
    } else {
        assert forall|l: int| j < l < ps.drop_last().len() implies ps.drop_last()[l].0
            != ps.drop_last()[j].0 by {
            assert(ps[l].0 != ps[j].0);
        }
        lemma_map_of_pairs_last(ps.drop_last(), j);
        assert(ps.drop_last()[j] == ps[j]);
        assert(ps.last().0 != ps[j].0);
    }
}

/// Scans a template body from position `i`, collecting marker names. Returns
/// whether the suffix is well formed.
fn scan_from(s: &Vec<char>, i: usize, names: &mut Vec<Vec<char>>) -> (ok: bool)
    requires
        i <= s@.len(),
    ensures
        ok == tpl_wf(s@.skip(i as int)),
        ok ==> names_view(final(names)@) == names_view(old(names)@) + tpl_vars(s@.skip(i as int)),
    decreases s@.len() - i,
{
    let ghost suffix = s@.skip(i as int);
    if i == s.len() {
        assert(suffix =~= Seq::<char>::empty());
        assert(names_view(names@) =~= names_view(names@) + tpl_vars(suffix));
        return true;
    }
    assert(suffix[0] == s@[i as int]);
    let c = s[i];
    if c == '{' {
        if i + 1 < s.len() && s[i + 1] == '{' {
            assert(suffix[1] == s@[i + 1]);
            let mut j: usize = i + 2;
            assert(s@.skip((i + 2) as int) =~= suffix.skip(2));
            while j < s.len() && 'a' <= s[j] && s[j] <= 'z'
                invariant
                    i + 2 <= j <= s@.len(),
                    ident_len(s@.skip((i + 2) as int)) == (j - i - 2) + ident_len(
                        s@.skip(j as int),
                    ),
                decreases s@.len() - j,
            {
                proof {
                    assert(s@.skip(j as int)[0] == s@[j as int]);
                    assert(s@.skip(j as int).drop_first() =~= s@.skip((j + 1) as int));
                }
                j += 1;
            }
            proof {
                if j < s@.len() {
                    assert(s@.skip(j as int)[0] == s@[j as int]);
                }
                assert(ident_len(s@.skip(j as int)) == 0);
            }
            let n: usize = j - i - 2;
            assert(ident_len(suffix.skip(2)) == n);
            if n > 0 && s.len() - j > 1 && s[j] == '}' && s[j + 1] == '}' {
                assert(suffix.len() >= 4 + n);
                assert(suffix[2 + n] == s@[j as int]);
                assert(suffix[3 + n] == s@[j + 1]);
                let mut name: Vec<char> = Vec::new();
                let mut k: usize = i + 2;
                while k < j
                    invariant
                        i + 2 <= k <= j <= s@.len(),
                        name@ == s@.subrange((i + 2) as int, k as int),
                    decreases j - k,
                {
                    name.push(s[k]);
                    assert(name@ =~= s@.subrange((i + 2) as int, (k + 1) as int));
                    k += 1;
                }
                assert(name@ =~= suffix.subrange(2, 2 + n));
                let tru: Vec<char> = vec!['t', 'r', 'u', 'e'];
                let fals: Vec<char> = vec!['f', 'a', 'l', 's', 'e'];
                assert(tru@ =~= seq!['t', 'r', 'u', 'e']);
                assert(fals@ =~= seq!['f', 'a', 'l', 's', 'e']);
                if chars_eq(&name, &tru) || chars_eq(&name, &fals) {
                    assert(is_reserved_name(suffix.subrange(2, 2 + n)));
                    assert(!tpl_wf(suffix));
                    return false;
                }
                assert(!is_reserved_name(suffix.subrange(2, 2 + n)));
                names.push(name);
                let ghost mid = names@;
                let ok = scan_from(s, j + 2, names);
                proof {
                    assert(s@.skip((j + 2) as int) =~= suffix.skip(4 + n));
                    assert(tpl_wf(suffix) == tpl_wf(suffix.skip(4 + n)));
                    if ok {
                        assert(names_view(mid) =~= names_view(old(names)@) + seq![
                            suffix.subrange(2, 2 + n),
                        ]);
                        assert(tpl_vars(suffix) == seq![suffix.subrange(2, 2 + n)] + tpl_vars(
                            suffix.skip(4 + n),
                        ));
                        assert(names_view(names@) =~= names_view(old(names)@) + tpl_vars(suffix));
                    }
                }
                return ok;
            }
            assert(!tpl_wf(suffix)) by {
                if n > 0 {
                    if j + 1 < s@.len() {
                    } else {
                        assert(suffix.len() < 4 + n);
                    }
                }
            }
            return false;
        }
        assert(!tpl_wf(suffix)) by {
            if i + 1 < s@.len() {
                assert(suffix[1] == s@[i + 1]);
            } else {
                assert(suffix.len() < 2);
            }
        }
        return false;
    }
    if c == '}' {
        return false;
    }
    let ok = scan_from(s, i + 1, names);
    proof {
        assert(s@.skip((i + 1) as int) =~= suffix.drop_first());
        assert(tpl_wf(suffix) == tpl_wf(suffix.drop_first()));
        if ok {
            assert(tpl_vars(suffix) == tpl_vars(suffix.drop_first()));
        }
    }
    ok
}

/// Checks a template body and hands back its marker names, in order; `None`
/// exactly when the body is not well formed.
pub fn scan_template(s: &Vec<char>) -> (r: Option<Vec<Vec<char>>>)
    ensures
        r is Some <==> tpl_wf(s@),
        r matches Some(names) ==> names_view(names@) == tpl_vars(s@),
{
    let mut names: Vec<Vec<char>> = Vec::new();
    let ghost empty = names@;
    let ok = scan_from(s, 0, &mut names);
    proof {
        assert(s@.skip(0) =~= s@);
        if ok {
            assert(names_view(empty) =~= Seq::<Seq<char>>::empty());
            assert(names_view(names@) =~= tpl_vars(s@));
        }
    }
    if ok {
        Some(names)
    } else {
        None
    }
}

/// The view of a binding list: pairs of key and value characters.
pub open spec fn binds_view(ps: Seq<(Vec<char>, String)>) -> Seq<(Seq<char>, Seq<char>)> {
    ps.map_values(|p: (Vec<char>, String)| (p.0@, p.1@))
}

/// Whether `name` is bound in a binding list.
pub fn key_bound(binds: &Vec<(Vec<char>, String)>, name: &Vec<char>) -> (r: bool)
    ensures
        r == map_of_pairs(binds_view(binds@)).contains_key(name@),
{
    let ghost ps = binds_view(binds@);
    let mut i: usize = 0;
    while i < binds.len()
        invariant
            i <= binds@.len(),
            ps == binds_view(binds@),
            ps.len() == binds@.len(),
            forall|j: int| 0 <= j < i ==> ps[j].0 != name@,
        decreases binds.len() - i,
    {
        assert(ps[i as int].0 == binds@[i as int].0@);
        if chars_eq(&binds[i].0, name) {
            proof {
                lemma_map_of_pairs_dom(ps, name@);
            }
            return true;
        }
        i += 1;
    }
    proof {
        lemma_map_of_pairs_dom(ps, name@);
    }
    false
}

/// Whether every name in `names` is bound in a binding list.
pub fn all_bound(names: &Vec<Vec<char>>, binds: &Vec<(Vec<char>, String)>) -> (r: bool)
    ensures
        r == forall|j: int|
            0 <= j < names@.len() ==> map_of_pairs(binds_view(binds@)).contains_key(
                #[trigger] names_view(names@)[j],
            ),
{
    let mut i: usize = 0;
    while i < names.len()
        invariant
            i <= names@.len(),
            forall|j: int|
                0 <= j < i ==> map_of_pairs(binds_view(binds@)).contains_key(
                    #[trigger] names_view(names@)[j],
                ),
        decreases names.len() - i,
    {
        assert(names_view(names@)[i as int] == names@[i as int]@);
        if !key_bound(binds, &names[i]) {
            return false;
        }
        i += 1;
    }
    true
}

} // verus!
