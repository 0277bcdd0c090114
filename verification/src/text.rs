//! Character-sequence utilities shared by the recipe builders: a total
//! lexicographic order on strings, equality, whitespace trimming, splitting
//! on a separator character, and joining with a separator.

use vstd::prelude::*;
use vstd::string::StrSliceExecFns;
use vstd::string::StringExecFns;

verus! {

/// Lexicographic "less or equal" on character sequences, ordering
/// characters by their scalar values.
pub open spec fn lex_le(a: Seq<char>, b: Seq<char>) -> bool
    decreases a.len(),
{
    if a.len() == 0 {
        true
    } else if b.len() == 0 {
        false
    } else if (a[0] as u32) < (b[0] as u32) {
        true
    } else if a[0] == b[0] {
        lex_le(a.skip(1), b.skip(1))
    } else {
        false
    }
}

/// Strict lexicographic order.
pub open spec fn lex_lt(a: Seq<char>, b: Seq<char>) -> bool {
    lex_le(a, b) && a != b
}

/// Distinct characters have distinct scalar values.
proof fn lemma_char_scalars_distinct(a: char, b: char)
    requires
        a != b,
    ensures
        a as u32 != b as u32,
{
    if a as u32 == b as u32 {
        vstd::utf8::char_u32_cast(a, a as u32);
        vstd::utf8::char_u32_cast(b, b as u32);
    }
}

/// `lex_le` relates every pair of strings one way or the other.
pub proof fn lemma_lex_le_total(a: Seq<char>, b: Seq<char>)
    ensures
        lex_le(a, b) || lex_le(b, a),
    decreases a.len(),
{
    if a.len() == 0 {
    } else if b.len() == 0 {
    } else if a[0] == b[0] {
        lemma_lex_le_total(a.skip(1), b.skip(1));
    } else {
        lemma_char_scalars_distinct(a[0], b[0]);
    }
}

/// `lex_le` both ways means the strings are equal.
pub proof fn lemma_lex_le_antisymmetric(a: Seq<char>, b: Seq<char>)
    requires
        lex_le(a, b),
        lex_le(b, a),
    ensures
        a == b,
    decreases a.len(),
{
    if a.len() == 0 {
        assert(b.len() == 0);
        assert(a =~= b);
    } else {
        assert(b.len() > 0);
        assert(a[0] == b[0]) by {
            if a[0] != b[0] {
                assert((a[0] as u32) < (b[0] as u32));
                assert((b[0] as u32) < (a[0] as u32));
            }
        }
        lemma_lex_le_antisymmetric(a.skip(1), b.skip(1));
        assert(a.skip(1).len() == b.skip(1).len());
        assert forall|i: int| 0 <= i < a.len() implies a[i] == b[i] by {
            if i >= 1 {
                assert(a[i] == a.skip(1)[i - 1]);
                assert(b[i] == b.skip(1)[i - 1]);
            }
        }
        assert(a =~= b);
    }
}

/// `lex_le` is transitive.
pub proof fn lemma_lex_le_transitive(a: Seq<char>, b: Seq<char>, c: Seq<char>)
    requires
        lex_le(a, b),
        lex_le(b, c),
    ensures
        lex_le(a, c),
    decreases a.len(),
{
    if a.len() == 0 || b.len() == 0 || c.len() == 0 {
    } else if a[0] == b[0] && b[0] == c[0] {
        lemma_lex_le_transitive(a.skip(1), b.skip(1), c.skip(1));
    }
}

/// `lex_lt` is transitive.
pub proof fn lemma_lex_lt_transitive(a: Seq<char>, b: Seq<char>, c: Seq<char>)
    requires
        lex_lt(a, b),
        lex_lt(b, c),
    ensures
        lex_lt(a, c),
{
    lemma_lex_le_transitive(a, b, c);
    if a == c {
        lemma_lex_le_antisymmetric(a, b);
    }
}

/// A failed `lex_lt` between distinct strings holds the other way round.
pub proof fn lemma_lex_lt_flip(a: Seq<char>, b: Seq<char>)
    requires
        !lex_lt(a, b),
        a != b,
    ensures
        lex_lt(b, a),
{
    lemma_lex_le_total(a, b);
    if lex_le(a, b) && lex_le(b, a) {
        lemma_lex_le_antisymmetric(a, b);
    }
}

/// Character-by-character equality test for string slices.
pub fn str_eq(a: &str, b: &str) -> (r: bool)
    ensures
        r == (a@ == b@),
{
    let alen = a.unicode_len();
    let blen = b.unicode_len();
    if alen != blen {
        return false;
    }
    let mut i: usize = 0;
    while i < alen
        invariant
            i <= alen,
            alen == a@.len(),
            alen == b@.len(),
            forall|k: int| 0 <= k < i ==> a@[k] == b@[k],
        decreases alen - i,
    {
        if a.get_char(i) != b.get_char(i) {
            return false;
        }
        i = i + 1;
    }
    proof {
        assert(a@ =~= b@);
    }
    true
}

/// Decides `lex_le` on string slices.
pub fn str_lex_le(a: &str, b: &str) -> (r: bool)
    ensures
        r == lex_le(a@, b@),
{
    let alen = a.unicode_len();
    let blen = b.unicode_len();
    let mut i: usize = 0;
    proof {
        assert(a@.skip(0) =~= a@);
        assert(b@.skip(0) =~= b@);
    }
    loop
        invariant
            i <= alen,
            i <= blen,
            alen == a@.len(),
            blen == b@.len(),
            lex_le(a@, b@) == lex_le(a@.skip(i as int), b@.skip(i as int)),
        decreases alen - i,
    {
        if i == alen {
            return true;
        }
        if i == blen {
            proof {
                assert(a@.skip(i as int).len() > 0);
            }
            return false;
        }
        let ca = a.get_char(i);
        let cb = b.get_char(i);
        proof {
            assert(a@.skip(i as int)[0] == ca);
            assert(b@.skip(i as int)[0] == cb);
        }
        if (ca as u32) < (cb as u32) {
            return true;
        }
        if ca != cb {
            return false;
        }
        proof {
            assert(a@.skip(i as int).skip(1) =~= a@.skip(i + 1));
            assert(b@.skip(i as int).skip(1) =~= b@.skip(i + 1));
        }
        i = i + 1;
    }
}

/// Decides `lex_lt` on string slices.
pub fn str_lex_lt(a: &str, b: &str) -> (r: bool)
    ensures
        r == lex_lt(a@, b@),
{
    if str_lex_le(a, b) {
        !str_eq(a, b)
    } else {
        proof {
            lemma_lex_le_total(a@, b@);
            if a@ == b@ {
                assert(lex_le(a@, b@));
            }
        }
        false
    }
}

/// The characters this library treats as trimmable whitespace.
pub open spec fn is_space(c: char) -> bool {
    c == ' ' || c == '\t' || c == '\n' || c == '\r'
}

pub open spec fn trim_start_spec(s: Seq<char>) -> Seq<char>
    decreases s.len(),
{
    if s.len() == 0 {
        s
    } else if is_space(s[0]) {
        trim_start_spec(s.skip(1))
    } else {
        s
    }
}

pub open spec fn trim_end_spec(s: Seq<char>) -> Seq<char>
    decreases s.len(),
{
    if s.len() == 0 {
        s
    } else if is_space(s[s.len() - 1]) {
        trim_end_spec(s.take(s.len() - 1))
    } else {
        s
    }
}

/// The sequence with leading and trailing whitespace removed.
pub open spec fn trim_spec(s: Seq<char>) -> Seq<char> {
    trim_end_spec(trim_start_spec(s))
}

fn is_space_char(c: char) -> (r: bool)
    ensures
        r == is_space(c),
{
    c == ' ' || c == '\t' || c == '\n' || c == '\r'
}

/// Copies `s` without its leading and trailing whitespace.
pub fn trim(s: &str) -> (r: String)
    ensures
        r@ == trim_spec(s@),
{
    let len = s.unicode_len();
    let mut i: usize = 0;
    proof {
        assert(s@.skip(0) =~= s@);
    }
    while i < len && is_space_char(s.get_char(i))
        invariant
            i <= len,
            len == s@.len(),
            trim_start_spec(s@) == trim_start_spec(s@.skip(i as int)),
        decreases len - i,
    {
        proof {
            assert(s@.skip(i as int)[0] == s@[i as int]);
            assert(s@.skip(i as int).skip(1) =~= s@.skip(i + 1));
        }
        i = i + 1;
    }
    let ghost t = s@.skip(i as int);
    proof {
        if i < len {
            assert(t[0] == s@[i as int]);
            assert(trim_start_spec(t) == t);
        } else {
            assert(t =~= Seq::<char>::empty());
        }
    }
    // `t == trim_start_spec(s@)`; now trim its tail.
    let mut j: usize = len;
    proof {
        assert(t.take(len - i) =~= t);
    }
    while j > i && is_space_char(s.get_char(j - 1))
        invariant
            i <= j <= len,
            len == s@.len(),
            t == s@.skip(i as int),
            trim_start_spec(s@) == t,
            trim_end_spec(t) == trim_end_spec(t.take(j - i)),
        decreases j,
    {
        proof {
            let w = t.take(j - i);
            assert(w[w.len() - 1] == s@[j - 1]);
            assert(w.take(w.len() - 1) =~= t.take(j - 1 - i));
        }
        j = j - 1;
    }
    proof {
        let w = t.take(j - i);
        if j > i {
            assert(w[w.len() - 1] == s@[j - 1]);
            assert(trim_end_spec(w) == w);
        } else {
            assert(w =~= Seq::<char>::empty());
        }
        assert(t.take(j - i) =~= s@.subrange(i as int, j as int));
    }
    let part = s.substring_char(i, j);
    String::from_str(part)
}

/// Splits a sequence at every occurrence of `sep`; the separator itself is
/// dropped, and `n` separators yield `n + 1` (possibly empty) parts.
pub open spec fn split_spec(s: Seq<char>, sep: char) -> Seq<Seq<char>>
    decreases s.len(),
{
    if s.len() == 0 {
        seq![Seq::<char>::empty()]
    } else if s[0] == sep {
        seq![Seq::<char>::empty()] + split_spec(s.skip(1), sep)
    } else {
        let rest = split_spec(s.skip(1), sep);
        seq![seq![s[0]] + rest[0]] + rest.skip(1)
    }
}

/// Splitting always yields at least one part.
pub proof fn lemma_split_len(s: Seq<char>, sep: char)
    ensures
        split_spec(s, sep).len() >= 1,
    decreases s.len(),
{
    if s.len() > 0 {
        lemma_split_len(s.skip(1), sep);
    }
}

/// Splits `s` on `sep`, materialising each part as its own string.
pub fn split(s: &str, sep: char) -> (r: Vec<String>)
    ensures
        r@.map_values(|p: String| p@) == split_spec(s@, sep),
{
    let len = s.unicode_len();
    let mut done: Vec<String> = Vec::new();
    let mut start: usize = 0;
    let mut i: usize = 0;
    proof {
        assert(s@.skip(0) =~= s@);
        assert(s@.subrange(0, 0) =~= Seq::<char>::empty());
        lemma_split_len(s@, sep);
        assert(split_spec(s@, sep) =~= done@.map_values(|p: String| p@) + seq![
            s@.subrange(0, 0) + split_spec(s@, sep)[0],
        ] + split_spec(s@, sep).skip(1));
    }
    while i < len
        invariant
            start <= i <= len,
            len == s@.len(),
            split_spec(s@, sep) == done@.map_values(|p: String| p@) + seq![
                s@.subrange(start as int, i as int) + split_spec(s@.skip(i as int), sep)[0],
            ] + split_spec(s@.skip(i as int), sep).skip(1),
            split_spec(s@.skip(i as int), sep).len() >= 1,
        decreases len - i,
    {
        let c = s.get_char(i);
        let ghost before = s@.skip(i as int);
        let ghost dv = done@.map_values(|p: String| p@);
        proof {
            assert(before[0] == c);
            assert(before.skip(1) =~= s@.skip(i + 1));
            lemma_split_len(s@.skip(i + 1), sep);
        }
        if c == sep {
            let part = s.substring_char(start, i);
            done.push(String::from_str(part));
            proof {
                let rest = split_spec(s@.skip(i + 1), sep);
                assert(split_spec(before, sep) == seq![Seq::<char>::empty()] + rest);
                assert(split_spec(before, sep)[0] =~= Seq::<char>::empty());
                assert(split_spec(before, sep).skip(1) =~= rest);
                assert(s@.subrange(start as int, i as int) + Seq::<char>::empty() =~= s@.subrange(
                    start as int,
                    i as int,
                ));
                assert(done@.map_values(|p: String| p@) =~= dv + seq![
                    s@.subrange(start as int, i as int),
                ]);
                assert(s@.subrange(i + 1, i + 1) =~= Seq::<char>::empty());
                assert(split_spec(s@, sep) =~= done@.map_values(|p: String| p@) + seq![
                    s@.subrange(i + 1, i + 1) + rest[0],
                ] + rest.skip(1));
            }
            start = i + 1;
        } else {
            proof {
                let rest = split_spec(s@.skip(i + 1), sep);
                assert(split_spec(before, sep) == seq![seq![c] + rest[0]] + rest.skip(1));
                assert(split_spec(before, sep)[0] == seq![c] + rest[0]);
                assert(split_spec(before, sep).skip(1) =~= rest.skip(1));
                assert(s@.subrange(start as int, i + 1) =~= s@.subrange(start as int, i as int)
                    + seq![c]);
                assert(s@.subrange(start as int, i as int) + (seq![c] + rest[0]) =~= s@.subrange(
                    start as int,
                    i + 1,
                ) + rest[0]);
            }
        }
        i = i + 1;
    }
    proof {
        assert(s@.skip(len as int) =~= Seq::<char>::empty());
        assert(split_spec(Seq::<char>::empty(), sep) == seq![Seq::<char>::empty()]);
        assert(split_spec(Seq::<char>::empty(), sep).skip(1) =~= Seq::<Seq<char>>::empty());
    }
    let ghost dv = done@.map_values(|p: String| p@);
    let last = s.substring_char(start, len);
    done.push(String::from_str(last));
    proof {
        assert(done@.map_values(|p: String| p@) =~= dv + seq![s@.subrange(start as int, len as int)]);
        assert(s@.subrange(start as int, len as int) + Seq::<char>::empty() =~= s@.subrange(
            start as int,
            len as int,
        ));
        assert(done@.map_values(|p: String| p@) =~= split_spec(s@, sep));
    }
    done
}

/// Strictly ascending in `lex_lt`: sorted, with no duplicates.
pub open spec fn sorted_unique(s: Seq<Seq<char>>) -> bool {
    forall|i: int, j: int| 0 <= i < j < s.len() ==> lex_lt(s[i], s[j])
}

/// Inserts `s` at its ordered position, unless an equal string is already
/// present; the vector stays strictly sorted and gains at most `s`.
pub fn insert_sorted_unique(v: &mut Vec<String>, s: String)
    requires
        sorted_unique(old(v)@.map_values(|p: String| p@)),
    ensures
        sorted_unique(final(v)@.map_values(|p: String| p@)),
        final(v)@.map_values(|p: String| p@).to_set() == old(v)@.map_values(
            |p: String| p@,
        ).to_set().insert(s@),
{
    let ghost ov = old(v)@.map_values(|p: String| p@);
    let mut i: usize = 0;
    while i < v.len() && str_lex_lt(v[i].as_str(), s.as_str())
        invariant
            i <= v.len(),
            v@ == old(v)@,
            ov == old(v)@.map_values(|p: String| p@),
            forall|k: int| 0 <= k < i ==> lex_lt(#[trigger] ov[k], s@),
        decreases v.len() - i,
    {
        proof {
            assert(ov[i as int] == v@[i as int]@);
        }
        i = i + 1;
    }
    proof {
        if i < v@.len() {
            assert(ov[i as int] == v@[i as int]@);
        }
    }
    if i < v.len() {
        if str_eq(v[i].as_str(), s.as_str()) {
            proof {
                assert(ov[i as int] == s@);
                assert(ov.contains(s@));
                assert(v@.map_values(|p: String| p@).to_set() =~= ov.to_set().insert(s@));
            }
            return ;
        }
    }
    proof {
        if i < v@.len() {
            lemma_lex_lt_flip(ov[i as int], s@);
        }
    }
    v.insert(i, s);
    proof {
        let nv = v@.map_values(|p: String| p@);
        assert(v@ == old(v)@.insert(i as int, s));
        old(v)@.insert_ensures(i as int, s);
        assert forall|k: int| 0 <= k < nv.len() implies nv[k] == (if k < i {
            ov[k]
        } else if k == i {
            s@
        } else {
            ov[k - 1]
        }) by {
            assert(nv[k] == v@[k]@);
            if k < i {
                assert(v@[k] == old(v)@[k]);
                assert(ov[k] == old(v)@[k]@);
            } else if k > i {
                assert(v@[k] == old(v)@[k - 1]);
                assert(ov[k - 1] == old(v)@[k - 1]@);
            }
        }
        assert forall|a: int, b: int| 0 <= a < b < nv.len() implies lex_lt(nv[a], nv[b]) by {
            if b < i {
                assert(lex_lt(ov[a], ov[b]));
            } else if b == i {
                assert(lex_lt(ov[a], s@));
            } else if a < i {
                if a == b - 1 {
                    assert(false);
                } else {
                    assert(lex_lt(ov[a], ov[b - 1]));
                }
            } else if a == i {
                assert(lex_lt(s@, ov[i as int]));
                if b - 1 > i {
                    lemma_lex_lt_transitive(s@, ov[i as int], ov[b - 1]);
                }
            } else {
                assert(lex_lt(ov[a - 1], ov[b - 1]));
            }
        }
        assert forall|x: Seq<char>| nv.to_set().contains(x) implies ov.to_set().contains(x) || x
            == s@ by {
            let k = choose|k: int| 0 <= k < nv.len() && nv[k] == x;
            if k < i {
                assert(ov[k] == x);
            } else if k > i {
                assert(ov[k - 1] == x);
            }
        }
        assert forall|x: Seq<char>| ov.to_set().contains(x) || x == s@ implies nv.to_set().contains(
            x,
        ) by {
            if x == s@ {
                assert(nv[i as int] == x);
            } else {
                let k = choose|k: int| 0 <= k < ov.len() && ov[k] == x;
                if k < i {
                    assert(nv[k] == x);
                } else {
                    assert(nv[k + 1] == x);
                }
            }
        }
        assert(nv.to_set() =~= ov.to_set().insert(s@));
    }
}

/// Joins the parts with `sep` between each neighbouring pair.
pub open spec fn join_spec(parts: Seq<Seq<char>>, sep: Seq<char>) -> Seq<char>
    decreases parts.len(),
{
    if parts.len() == 0 {
        Seq::<char>::empty()
    } else if parts.len() == 1 {
        parts[0]
    } else {
        parts[0] + sep + join_spec(parts.skip(1), sep)
    }
}

/// Unfolds one step of `join_spec` at position `i`.
proof fn lemma_join_step(pv: Seq<Seq<char>>, sep: Seq<char>, i: int)
    requires
        1 <= i < pv.len(),
    ensures
        i + 1 < pv.len() ==> join_spec(pv.skip(i), sep) == pv[i] + sep + join_spec(
            pv.skip(i + 1),
            sep,
        ),
        i + 1 == pv.len() ==> join_spec(pv.skip(i), sep) == pv[i],
{
    let t = pv.skip(i);
    assert(t[0] == pv[i]);
    if i + 1 < pv.len() {
        assert(t.skip(1) =~= pv.skip(i + 1));
    }
}

/// Joins strings with a separator.
pub fn join(parts: &Vec<String>, sep: &str) -> (r: String)
    ensures
        r@ == join_spec(parts@.map_values(|p: String| p@), sep@),
{
    let ghost pv = parts@.map_values(|p: String| p@);
    if parts.len() == 0 {
        return String::new();
    }
    let mut acc = parts[0].clone();
    let mut i: usize = 1;
    proof {
        assert(pv[0] == parts@[0]@);
        if parts.len() > 1 {
            assert(pv.skip(1) =~= pv.skip(1));
        }
    }
    while i < parts.len()
        invariant
            1 <= i <= parts.len(),
            pv == parts@.map_values(|p: String| p@),
            pv.len() == parts@.len(),
            i == pv.len() ==> join_spec(pv, sep@) == acc@,
            i < pv.len() ==> join_spec(pv, sep@) == acc@ + sep@ + join_spec(
                pv.skip(i as int),
                sep@,
            ),
        decreases parts.len() - i,
    {
        proof {
            lemma_join_step(pv, sep@, i as int);
            assert(pv[i as int] == parts@[i as int]@);
        }
        acc.append(sep);
        acc.append(parts[i].as_str());
        i = i + 1;
    }
    acc
}

} // verus!
