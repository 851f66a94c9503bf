//! Small reusable facts about sequences, multisets, byte-wise text order
//! and whitespace, used by the filtering, sorting and text-reading passes.

use vstd::prelude::*;
use vstd::multiset::Multiset;
use vstd::seq_lib::lemma_multiset_commutative;
use vstd::string::*;

verus! {

/// Whether a character is one of the whitespace characters the scraped
/// texts separate their tokens with.
pub open spec fn spec_is_space(c: char) -> bool {
    c == ' ' || c == '\t' || c == '\n' || c == '\r'
}

/// Tests whether a character is whitespace.
pub fn is_space(c: char) -> (r: bool)
    ensures
        r == spec_is_space(c),
{
    c == ' ' || c == '\t' || c == '\n' || c == '\r'
}

/// A text without its leading whitespace.
pub open spec fn spec_drop_leading_spaces(s: Seq<char>) -> Seq<char>
    decreases s.len(),
{
    if s.len() > 0 && spec_is_space(s[0]) {
        spec_drop_leading_spaces(s.drop_first())
    } else {
        s
    }
}

/// A text without its trailing whitespace.
pub open spec fn spec_drop_trailing_spaces(s: Seq<char>) -> Seq<char>
    decreases s.len(),
{
    if s.len() > 0 && spec_is_space(s.last()) {
        spec_drop_trailing_spaces(s.drop_last())
    } else {
        s
    }
}

/// A text without its leading and trailing whitespace.
pub open spec fn spec_trim(s: Seq<char>) -> Seq<char> {
    spec_drop_trailing_spaces(spec_drop_leading_spaces(s))
}

/// Strips leading and trailing whitespace from a text.
pub fn trim_spaces(s: &str) -> (r: String)
    ensures
        r@ == spec_trim(s@),
{
    let len = s.unicode_len();
    let mut start: usize = 0;
    proof {
        assert(s@.skip(0) =~= s@);
    }
    while start < len && is_space(s.get_char(start))
        invariant
            0 <= start <= len,
            len == s@.len(),
            spec_drop_leading_spaces(s@) == spec_drop_leading_spaces(s@.skip(start as int)),
        decreases len - start,
    {
        proof {
            assert(s@.skip(start as int)[0] == s@[start as int]);
            assert(s@.skip(start as int).drop_first() =~= s@.skip(start as int + 1));
        }
        start = start + 1;
    }
    let ghost lead = s@.skip(start as int);
    proof {
        if start < len {
            assert(lead[0] == s@[start as int]);
        }
        assert(spec_drop_leading_spaces(s@) == lead);
    }
    let mut end: usize = len;
    proof {
        assert(lead.take(len - start as int) =~= lead);
    }
    while end > start && is_space(s.get_char(end - 1))
        invariant
            start <= end <= len,
            len == s@.len(),
            lead == s@.skip(start as int),
            spec_drop_trailing_spaces(lead) == spec_drop_trailing_spaces(
                lead.take(end - start as int),
            ),
        decreases end,
    {
        proof {
            let t = lead.take(end - start as int);
            assert(t.last() == s@[end - 1]);
            assert(t.drop_last() =~= lead.take(end - 1 - start as int));
        }
        end = end - 1;
    }
    let r = s.substring_char(start, end);
    proof {
        let t = lead.take(end - start as int);
        if end > start {
            assert(t.last() == s@[end - 1]);
        }
        assert(spec_drop_trailing_spaces(t) == t);
        assert(r@ =~= t);
    }
    String::from_str(r)
}

/// Filtering a sequence extended by one element keeps the element exactly
/// when the predicate holds of it.
pub proof fn lemma_filter_push<A>(s: Seq<A>, x: A, p: spec_fn(A) -> bool)
    ensures
        (s.push(x)).filter(p) == (if p(x) {
            s.filter(p).push(x)
        } else {
            s.filter(p)
        }),
{
    reveal(Seq::filter);
    let t = s.push(x);
    assert(t.len() > 0);
    assert(t.drop_last() =~= s);
    assert(t.last() == x);
}

/// Inserting an element anywhere in a sequence adds exactly that element
/// to its multiset of contents.
pub proof fn lemma_to_multiset_insert<A>(s: Seq<A>, j: int, x: A)
    requires
        0 <= j <= s.len(),
    ensures
        (s.insert(j, x)).to_multiset() =~= s.to_multiset().insert(x),
{
    let t = s.insert(j, x);
    assert(t =~= s.take(j) + (seq![x] + s.skip(j)));
    lemma_multiset_commutative(s.take(j), seq![x] + s.skip(j));
    lemma_multiset_commutative(seq![x], s.skip(j));
    assert(s =~= s.take(j) + s.skip(j));
    lemma_multiset_commutative(s.take(j), s.skip(j));
    assert(seq![x].to_multiset() =~= Multiset::empty().insert(x)) by {
        Seq::<A>::empty().to_multiset_ensures();
        assert(seq![x] =~= Seq::<A>::empty().push(x));
        assert(Seq::<A>::empty().to_multiset() =~= Multiset::<A>::empty());
    }
}

/// Removing the first element takes exactly that element out of the
/// multiset of contents.
pub proof fn lemma_to_multiset_remove_first<A>(s: Seq<A>)
    requires
        s.len() > 0,
    ensures
        (s.remove(0)).to_multiset() =~= s.to_multiset().remove(s[0]),
        s.to_multiset() =~= (s.remove(0)).to_multiset().insert(s[0]),
        s.to_multiset().count(s[0]) > 0,
{
    s.to_multiset_ensures();
    assert((s.remove(0)).to_multiset() =~= s.to_multiset().remove(s[0]));
    assert(s.contains(s[0]));
    assert(s.to_multiset().count(s[0]) > 0);
}

/// Byte-wise lexicographic order on texts, the order `sort` by a `String`
/// key uses.
pub open spec fn spec_lex_le(x: Seq<u8>, y: Seq<u8>) -> bool
    decreases x.len(),
{
    if x.len() == 0 {
        true
    } else if y.len() == 0 {
        false
    } else if x[0] < y[0] {
        true
    } else if x[0] > y[0] {
        false
    } else {
        spec_lex_le(x.drop_first(), y.drop_first())
    }
}

/// Lexicographic order relates every pair of texts one way or the other.
pub proof fn lemma_lex_le_total(x: Seq<u8>, y: Seq<u8>)
    ensures
        spec_lex_le(x, y) || spec_lex_le(y, x),
    decreases x.len(),
{
    if x.len() > 0 && y.len() > 0 && x[0] == y[0] {
        lemma_lex_le_total(x.drop_first(), y.drop_first());
    }
}

/// Lexicographic order is transitive.
pub proof fn lemma_lex_le_trans(x: Seq<u8>, y: Seq<u8>, z: Seq<u8>)
    requires
        spec_lex_le(x, y),
        spec_lex_le(y, z),
    ensures
        spec_lex_le(x, z),
    decreases x.len(),
{
    if x.len() > 0 && y.len() > 0 && z.len() > 0 && x[0] == y[0] && y[0] == z[0] {
        lemma_lex_le_trans(x.drop_first(), y.drop_first(), z.drop_first());
    }
}

/// Compares two byte texts lexicographically.
pub fn lex_le_bytes(a: &Vec<u8>, b: &Vec<u8>) -> (r: bool)
    ensures
        r == spec_lex_le(a@, b@),
{
    let alen = a.len();
    let blen = b.len();
    let mut i: usize = 0;
    proof {
        assert(a@.skip(0) =~= a@);
        assert(b@.skip(0) =~= b@);
    }
    while i < alen && i < blen
        invariant
            0 <= i <= alen,
            0 <= i <= blen,
            alen == a@.len(),
            blen == b@.len(),
            spec_lex_le(a@, b@) == spec_lex_le(a@.skip(i as int), b@.skip(i as int)),
        decreases alen - i,
    {
        let av = a[i];
        let bv = b[i];
        proof {
            assert(a@.skip(i as int)[0] == av);
            assert(b@.skip(i as int)[0] == bv);
        }
        if av < bv {
            return true;
        }
        if av > bv {
            return false;
        }
        proof {
            assert(a@.skip(i as int).drop_first() =~= a@.skip(i as int + 1));
            assert(b@.skip(i as int).drop_first() =~= b@.skip(i as int + 1));
        }
        i = i + 1;
    }
    if i == alen {
        proof {
            assert(a@.skip(i as int).len() == 0);
        }
        true
    } else {
        proof {
            assert(b@.skip(i as int).len() == 0);
            assert(a@.skip(i as int).len() > 0);
        }
        false
    }
}

} // verus!
