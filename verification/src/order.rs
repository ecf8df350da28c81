//! Lexicographic order on character sequences (by code point, which is also the
//! byte order of their UTF-8 encodings), and sorting strings by it.
use vstd::prelude::*;

verus! {

/// `a` comes no later than `b`, comparing from index `i` on.
pub open spec fn lex_le_from(a: Seq<char>, b: Seq<char>, i: int) -> bool
    decreases a.len() - i,
{
    if i < 0 || i >= a.len() {
        true
    } else if i >= b.len() {
        false
    } else if (a[i] as u32) != (b[i] as u32) {
        (a[i] as u32) < (b[i] as u32)
    } else {
        lex_le_from(a, b, i + 1)
    }
}

/// `a` comes no later than `b` in lexicographic order.
pub open spec fn lex_le(a: Seq<char>, b: Seq<char>) -> bool {
    lex_le_from(a, b, 0)
}

/// A sequence of strings in lexicographic order.
pub open spec fn sorted_strings(s: Seq<String>) -> bool {
    forall|i: int, j: int| 0 <= i < j < s.len() ==> lex_le(#[trigger] s[i]@, #[trigger] s[j]@)
}

/// Any two sequences are ordered one way or the other.
pub proof fn lemma_lex_total(a: Seq<char>, b: Seq<char>, i: int)
    requires
        0 <= i,
    ensures
        lex_le_from(a, b, i) || lex_le_from(b, a, i),
    decreases a.len() - i,
{
    if i < a.len() && i < b.len() && (a[i] as u32) == (b[i] as u32) {
        lemma_lex_total(a, b, i + 1);
    }
}

/// The lexicographic order is transitive.
pub proof fn lemma_lex_trans(a: Seq<char>, b: Seq<char>, c: Seq<char>, i: int)
    requires
        0 <= i,
        lex_le_from(a, b, i),
        lex_le_from(b, c, i),
    ensures
        lex_le_from(a, c, i),
    decreases a.len() - i,
{
    if i < a.len() && i < b.len() && i < c.len() && (a[i] as u32) == (b[i] as u32) && (b[i] as u32) == (c[i] as u32) {
        lemma_lex_trans(a, b, c, i + 1);
    }
}

/// Whether `a` comes no later than `b`.
pub fn lex_le_exec(a: &Vec<char>, b: &Vec<char>) -> (r: bool)
    ensures
        r == lex_le(a@, b@),
{
    let mut i: usize = 0;
    while i < a.len()
        invariant
            i <= a.len(),
            lex_le(a@, b@) == lex_le_from(a@, b@, i as int),
        decreases a.len() - i,
    {
        if i >= b.len() {
            return false;
        }
        let x = a[i] as u32;
        let y = b[i] as u32;
        if x != y {
            return x < y;
        }
        i = i + 1;
    }
    true
}

/// Inserts `x` (with characters `xc`) into the sorted `out` (with characters `keys`),
/// after every element that comes no later than it.
fn insert_sorted(out: &mut Vec<String>, keys: &mut Vec<Vec<char>>, x: String, xc: Vec<char>)
    requires
        old(out)@.len() == old(keys)@.len(),
        forall|k: int| 0 <= k < old(keys)@.len() ==> (#[trigger] old(keys)@[k])@ == old(out)@[k]@,
        sorted_strings(old(out)@),
        xc@ == x@,
    ensures
        final(out)@.len() == final(keys)@.len(),
        forall|k: int| 0 <= k < final(keys)@.len() ==> (#[trigger] final(keys)@[k])@
            == final(out)@[k]@,
        sorted_strings(final(out)@),
        final(out)@.to_multiset() == old(out)@.to_multiset().insert(x),
{
    let mut pos: usize = 0;
    while pos < out.len() && lex_le_exec(&keys[pos], &xc)
        invariant
            pos <= out.len(),
            out@.len() == keys@.len(),
            forall|k: int| 0 <= k < keys@.len() ==> (#[trigger] keys@[k])@ == out@[k]@,
            forall|k: int| 0 <= k < pos ==> lex_le(#[trigger] out@[k]@, x@),
            xc@ == x@,
        decreases out.len() - pos,
    {
        pos = pos + 1;
    }
    let ghost old_out = out@;
    proof {
        if pos < old_out.len() {
            lemma_lex_total(x@, old_out[pos as int]@, 0);
        }
        broadcast use vstd::seq_lib::to_multiset_insert;

    }
    out.insert(pos, x);
    keys.insert(pos, xc);
    proof {
        assert forall|i: int, j: int| 0 <= i < j < out@.len() implies lex_le(
            #[trigger] out@[i]@,
            #[trigger] out@[j]@,
        ) by {
            if j < pos {
                assert(out@[i] == old_out[i] && out@[j] == old_out[j]);
            } else if j == pos {
                assert(out@[i] == old_out[i]);
            } else if i < pos {
                assert(out@[i] == old_out[i] && out@[j] == old_out[j - 1]);
                assert(lex_le(old_out[i]@, x@));
                if pos < j - 1 {
                    assert(lex_le(x@, old_out[pos as int]@));
                    assert(lex_le(old_out[pos as int]@, old_out[j - 1]@));
                    lemma_lex_trans(x@, old_out[pos as int]@, old_out[j - 1]@, 0);
                }
                lemma_lex_trans(old_out[i]@, x@, old_out[j - 1]@, 0);
            } else if i == pos {
                assert(out@[j] == old_out[j - 1]);
                if pos < j - 1 {
                    assert(lex_le(old_out[pos as int]@, old_out[j - 1]@));
                    lemma_lex_trans(x@, old_out[pos as int]@, old_out[j - 1]@, 0);
                }
            } else {
                assert(out@[i] == old_out[i - 1] && out@[j] == old_out[j - 1]);
            }
        }
        assert forall|k: int| 0 <= k < keys@.len() implies (#[trigger] keys@[k])@ == out@[k]@ by {
            if k < pos {
            } else if k == pos {
            } else {
            }
        }
    }
}

/// `v` sorted in lexicographic order.
pub fn sort_strings(v: Vec<String>) -> (r: Vec<String>)
    ensures
        sorted_strings(r@),
        r@.to_multiset() == v@.to_multiset(),
{
    let mut out: Vec<String> = Vec::new();
    let mut keys: Vec<Vec<char>> = Vec::new();
    let mut i: usize = 0;
    proof {
        broadcast use vstd::seq_lib::to_multiset_build;

        assert(v@.subrange(0, 0) =~= Seq::<String>::empty());
        assert(out@ =~= Seq::<String>::empty());
    }
    while i < v.len()
        invariant
            i <= v.len(),
            out@.len() == keys@.len(),
            forall|k: int| 0 <= k < keys@.len() ==> (#[trigger] keys@[k])@ == out@[k]@,
            sorted_strings(out@),
            out@.to_multiset() == v@.subrange(0, i as int).to_multiset(),
        decreases v.len() - i,
    {
        let x = v[i].clone();
        let xc = crate::text::chars_of(x.as_str());
        insert_sorted(&mut out, &mut keys, x, xc);
        proof {
            broadcast use vstd::seq_lib::to_multiset_build;

            assert(v@.subrange(0, i + 1) =~= v@.subrange(0, i as int).push(v@[i as int]));
        }
        i = i + 1;
    }
    assert(v@.subrange(0, i as int) =~= v@);
    out
}

} // verus!
