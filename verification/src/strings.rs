//! Character-level string utilities shared by the whole engine: views of
//! string collections, equality and suffix tests, and the line/field
//! splitting used to normalize provider payloads.

use vstd::prelude::*;
use vstd::string::StrSliceExecFns;

verus! {

/// The mathematical view of a sequence of strings: each element as its
/// sequence of characters.
pub open spec fn str_views(v: Seq<String>) -> Seq<Seq<char>> {
    v.map_values(|s: String| s@)
}

/// Membership of a character sequence in a sequence of character sequences.
pub open spec fn seq_contains(v: Seq<Seq<char>>, x: Seq<char>) -> bool {
    exists|i: int| 0 <= i < v.len() && v[i] == x
}

/// Exact character-for-character string equality.
pub fn str_eq(a: &str, b: &str) -> (r: bool)
    ensures
        r == (a@ == b@),
{
    let alen = a.unicode_len();
    let blen = b.unicode_len();
    if alen != blen {
        assert(a@ != b@) by {
            assert(a@.len() != b@.len());
        }
        return false;
    }
    let mut i: usize = 0;
    while i < alen
        invariant
            alen == a@.len(),
            alen == b@.len(),
            0 <= i <= alen,
            forall|k: int| 0 <= k < i ==> a@[k] == b@[k],
        decreases alen - i,
    {
        if a.get_char(i) != b.get_char(i) {
            return false;
        }
        i = i + 1;
    }
    proof {
        assert(a@ =~= b@);
    }
    true
}

/// Whether a string of the vector equals the given string.
pub fn vec_contains_str(v: &Vec<String>, s: &str) -> (r: bool)
    ensures
        r == seq_contains(str_views(v@), s@),
{
    let mut i: usize = 0;
    while i < v.len()
        invariant
            0 <= i <= v@.len(),
            forall|k: int| 0 <= k < i ==> str_views(v@)[k] != s@,
        decreases v@.len() - i,
    {
        if str_eq(v[i].as_str(), s) {
            assert(str_views(v@)[i as int] == s@);
            return true;
        }
        i = i + 1;
    }
    false
}

/// A copy of the vector whose strings read the same.
pub fn clone_strings(v: &Vec<String>) -> (r: Vec<String>)
    ensures
        str_views(r@) == str_views(v@),
{
    let mut r: Vec<String> = Vec::new();
    let mut i: usize = 0;
    proof {
        assert(str_views(r@) =~= str_views(v@).take(0));
    }
    while i < v.len()
        invariant
            0 <= i <= v@.len(),
            str_views(r@) == str_views(v@).take(i as int),
        decreases v@.len() - i,
    {
        let ghost prev = str_views(r@);
        r.push(v[i].clone());
        proof {
            assert(str_views(r@) =~= prev.push(str_views(v@)[i as int]));
            assert(str_views(v@).take(i + 1) =~= str_views(v@).take(i as int).push(
                str_views(v@)[i as int],
            ));
        }
        i = i + 1;
    }
    proof {
        assert(str_views(v@).take(v@.len() as int) =~= str_views(v@));
    }
    r
}

/// `pat` is a suffix of `s`.
pub open spec fn suffix_of(pat: Seq<char>, s: Seq<char>) -> bool {
    pat.len() <= s.len() && s.subrange(s.len() - pat.len(), s.len() as int) == pat
}

/// Exact suffix test on strings.
pub fn ends_with(s: &str, pat: &str) -> (r: bool)
    ensures
        r == suffix_of(pat@, s@),
{
    let slen = s.unicode_len();
    let plen = pat.unicode_len();
    if plen > slen {
        return false;
    }
    let offset = slen - plen;
    let mut i: usize = 0;
    while i < plen
        invariant
            slen == s@.len(),
            plen == pat@.len(),
            plen <= slen,
            offset == slen - plen,
            0 <= i <= plen,
            forall|k: int| 0 <= k < i ==> s@[offset + k] == pat@[k],
        decreases plen - i,
    {
        if s.get_char(offset + i) != pat.get_char(i) {
            assert(s@.subrange(s@.len() - pat@.len(), s@.len() as int)[i as int] != pat@[i as int]);
            return false;
        }
        i = i + 1;
    }
    proof {
        assert(s@.subrange(s@.len() - pat@.len(), s@.len() as int) =~= pat@);
    }
    true
}

/// Appends each name of `names`, in order, that is not already present,
/// keeping the accumulator free of duplicates.
pub open spec fn dedup_append(acc: Seq<Seq<char>>, names: Seq<Seq<char>>) -> Seq<Seq<char>>
    decreases names.len(),
{
    if names.len() == 0 {
        acc
    } else if seq_contains(acc, names[0]) {
        dedup_append(acc, names.drop_first())
    } else {
        dedup_append(acc.push(names[0]), names.drop_first())
    }
}

/// Processing one more name at the end only appends it when it is new.
pub proof fn lemma_dedup_append_push(acc: Seq<Seq<char>>, names: Seq<Seq<char>>, x: Seq<char>)
    ensures
        dedup_append(acc, names.push(x)) == (if seq_contains(dedup_append(acc, names), x) {
            dedup_append(acc, names)
        } else {
            dedup_append(acc, names).push(x)
        }),
    decreases names.len(),
{
    reveal_with_fuel(dedup_append, 3);
    if names.len() == 0 {
        assert(names.push(x).drop_first() =~= names);
        assert(names.push(x)[0] == x);
        assert(dedup_append(acc, names) == acc);
        assert(dedup_append(acc.push(x), names) == acc.push(x));
    } else {
        assert(names.push(x)[0] == names[0]);
        assert(names.push(x).drop_first() =~= names.drop_first().push(x));
        if seq_contains(acc, names[0]) {
            lemma_dedup_append_push(acc, names.drop_first(), x);
        } else {
            lemma_dedup_append_push(acc.push(names[0]), names.drop_first(), x);
        }
    }
}

/// Deduplication keeps exactly the names that occur in the accumulator or in
/// the input, and never introduces a duplicate.
pub proof fn lemma_dedup_append_props(acc: Seq<Seq<char>>, names: Seq<Seq<char>>)
    requires
        forall|i: int, j: int| 0 <= i < j < acc.len() ==> acc[i] != acc[j],
    ensures
        forall|x: Seq<char>|
            seq_contains(dedup_append(acc, names), x) <==> (seq_contains(acc, x) || names.contains(
                x,
            )),
        forall|i: int, j: int|
            0 <= i < j < dedup_append(acc, names).len() ==> dedup_append(acc, names)[i]
                != dedup_append(acc, names)[j],
    decreases names.len(),
{
    if names.len() == 0 {
        assert forall|x: Seq<char>|
            seq_contains(dedup_append(acc, names), x) <==> (seq_contains(acc, x) || names.contains(
                x,
            )) by {
            assert(!names.contains(x));
        }
    } else {
        let rest = names.drop_first();
        assert(forall|x: Seq<char>|
            names.contains(x) <==> (x == names[0] || rest.contains(x))) by {
            assert forall|x: Seq<char>| names.contains(x) implies (x == names[0] || rest.contains(
                x,
            )) by {
                let i = choose|i: int| 0 <= i < names.len() && names[i] == x;
                if i > 0 {
                    assert(rest[i - 1] == x);
                }
            }
            assert forall|x: Seq<char>| rest.contains(x) implies names.contains(x) by {
                let i = choose|i: int| 0 <= i < rest.len() && rest[i] == x;
                assert(names[i + 1] == x);
            }
        }
        if seq_contains(acc, names[0]) {
            lemma_dedup_append_props(acc, rest);
        } else {
            let acc2 = acc.push(names[0]);
            assert(forall|i: int, j: int| 0 <= i < j < acc2.len() ==> acc2[i] != acc2[j]) by {
                assert(forall|i: int| 0 <= i < acc.len() ==> acc2[i] == acc[i]);
                assert(acc2[acc.len() as int] == names[0]);
            }
            lemma_dedup_append_props(acc2, rest);
            assert(forall|x: Seq<char>|
                seq_contains(acc2, x) <==> (seq_contains(acc, x) || x == names[0])) by {
                assert(forall|i: int| 0 <= i < acc.len() ==> acc2[i] == acc[i]);
                assert(acc2[acc.len() as int] == names[0]);
                assert forall|x: Seq<char>| seq_contains(acc2, x) implies (seq_contains(acc, x) || x
                    == names[0]) by {
                    let i = choose|i: int| 0 <= i < acc2.len() && acc2[i] == x;
                    if i < acc.len() {
                        assert(acc[i] == x);
                    }
                }
            }
        }
    }
}

} // verus!
