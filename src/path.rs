use vstd::prelude::*;

verus! {

/// `a` sorts before `b` when compared character by character from position
/// `i` on, given that the characters before `i` agree.
pub open spec fn lt_from(a: Seq<char>, b: Seq<char>, i: nat) -> bool
    decreases a.len() - i,
{
    if i >= a.len() {
        i < b.len()
    } else if i >= b.len() {
        false
    } else if a[i as int] != b[i as int] {
        (a[i as int] as u32) < (b[i as int] as u32)
    } else {
        lt_from(a, b, i + 1)
    }
}

/// Lexicographic order on paths, by Unicode scalar value. For UTF-8 text
/// this is the same order as comparing the encoded bytes.
pub open spec fn path_lt(a: Seq<char>, b: Seq<char>) -> bool {
    lt_from(a, b, 0)
}

pub proof fn lemma_lt_from_irreflexive(a: Seq<char>, i: nat)
    ensures
        !lt_from(a, a, i),
    decreases a.len() - i,
{
    if i < a.len() {
        lemma_lt_from_irreflexive(a, i + 1);
    }
}

pub proof fn lemma_lt_from_asymmetric(a: Seq<char>, b: Seq<char>, i: nat)
    ensures
        !(lt_from(a, b, i) && lt_from(b, a, i)),
    decreases a.len() - i,
{
    if i < a.len() && i < b.len() && a[i as int] == b[i as int] {
        lemma_lt_from_asymmetric(a, b, i + 1);
    }
}

pub proof fn lemma_lt_from_transitive(a: Seq<char>, b: Seq<char>, c: Seq<char>, i: nat)
    requires
        lt_from(a, b, i),
        lt_from(b, c, i),
    ensures
        lt_from(a, c, i),
    decreases a.len() - i,
{
    if i < a.len() && i < b.len() && i < c.len() && a[i as int] == b[i as int] && b[i as int]
        == c[i as int] {
        lemma_lt_from_transitive(a, b, c, i + 1);
    }
}

pub proof fn lemma_lt_from_total(a: Seq<char>, b: Seq<char>, i: nat)
    requires
        i <= a.len(),
        i <= b.len(),
        a.subrange(0, i as int) == b.subrange(0, i as int),
        a != b,
    ensures
        lt_from(a, b, i) || lt_from(b, a, i),
    decreases a.len() - i,
{
    if i < a.len() && i < b.len() && a[i as int] == b[i as int] {
        assert(a.subrange(0, (i + 1) as int) =~= a.subrange(0, i as int).push(a[i as int]));
        assert(b.subrange(0, (i + 1) as int) =~= b.subrange(0, i as int).push(b[i as int]));
        lemma_lt_from_total(a, b, i + 1);
    } else if i == a.len() && i == b.len() {
        assert(a =~= a.subrange(0, i as int));
        assert(b =~= b.subrange(0, i as int));
    } else if i < a.len() && i < b.len() {
        vstd::utf8::char_u32_cast(a[i as int], a[i as int] as u32);
        vstd::utf8::char_u32_cast(b[i as int], b[i as int] as u32);
    }
}

/// The order on paths is a strict total order.
pub proof fn lemma_path_order(a: Seq<char>, b: Seq<char>, c: Seq<char>)
    ensures
        !path_lt(a, a),
        !(path_lt(a, b) && path_lt(b, a)),
        path_lt(a, b) && path_lt(b, c) ==> path_lt(a, c),
        a != b ==> path_lt(a, b) || path_lt(b, a),
{
    lemma_lt_from_irreflexive(a, 0);
    lemma_lt_from_asymmetric(a, b, 0);
    if path_lt(a, b) && path_lt(b, c) {
        lemma_lt_from_transitive(a, b, c, 0);
    }
    if a != b {
        assert(a.subrange(0, 0) =~= b.subrange(0, 0));
        lemma_lt_from_total(a, b, 0);
    }
}

/// Whether path `a` sorts strictly before path `b`.
pub fn path_less(a: &String, b: &String) -> (r: bool)
    ensures
        r == path_lt(a@, b@),
{
    let sa = a.as_str();
    let sb = b.as_str();
    let na = sa.unicode_len();
    let nb = sb.unicode_len();
    let mut i: usize = 0;
    while i < na && i < nb
        invariant
            i <= na,
            i <= nb,
            na == a@.len(),
            nb == b@.len(),
            sa@ == a@,
            sb@ == b@,
            path_lt(a@, b@) == lt_from(a@, b@, i as nat),
        decreases na - i,
    {
        let ca = sa.get_char(i);
        let cb = sb.get_char(i);
        if ca != cb {
            return (ca as u32) < (cb as u32);
        }
        i = i + 1;
    }
    i < nb
}

/// The path of `full` relative to the directory `root`: what follows
/// `root` and one `/`, or `None` where `full` does not start so.
pub open spec fn relative_to(full: Seq<char>, root: Seq<char>) -> Option<Seq<char>> {
    let prefix = root.push('/');
    if prefix.len() <= full.len() && full.subrange(0, prefix.len() as int) == prefix {
        Some(full.subrange(prefix.len() as int, full.len() as int))
    } else {
        None
    }
}

/// The path of a file below the directory `root`, as a key of the unified
/// file set: the part of `full` after `root` and a `/`.
pub fn relative_path(full: &String, root: &String) -> (r: Option<String>)
    ensures
        r.is_some() == relative_to(full@, root@).is_some(),
        r.is_some() ==> r.unwrap()@ == relative_to(full@, root@).unwrap(),
{
    let sf = full.as_str();
    let sr = root.as_str();
    let nf = sf.unicode_len();
    let nr = sr.unicode_len();
    let ghost prefix = root@.push('/');
    if nr >= nf {
        return None;
    }
    let mut i: usize = 0;
    while i < nr
        invariant
            i <= nr,
            nr < nf,
            nf == full@.len(),
            nr == root@.len(),
            sf@ == full@,
            sr@ == root@,
            prefix == root@.push('/'),
            forall|j: int| 0 <= j < i ==> full@[j] == root@[j],
        decreases nr - i,
    {
        if sf.get_char(i) != sr.get_char(i) {
            assert(full@.subrange(0, prefix.len() as int)[i as int] != prefix[i as int]);
            return None;
        }
        i = i + 1;
    }
    if sf.get_char(nr) != '/' {
        assert(full@.subrange(0, prefix.len() as int)[nr as int] != prefix[nr as int]);
        return None;
    }
    assert(full@.subrange(0, prefix.len() as int) =~= prefix);
    let rest = sf.substring_char(nr + 1, nf);
    Some(rest.to_owned())
}

} // verus!
