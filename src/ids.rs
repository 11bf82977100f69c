//! Identifiers of members, accounts and programs, and the sequence
//! operations on member lists that the rest of the library shares.
use vstd::prelude::*;

verus! {

/// A participant, identified by an opaque 32-byte value.
pub type MemberId = [u8; 32];

/// An account on the host ledger.
pub type AccountId = [u8; 32];

/// A program on the host ledger, as eight 32-bit words.
pub type ProgramId = [u32; 8];

/// A 32-byte seed from which the host derives an account address.
pub type PdaSeed = [u8; 32];

/// An account handed to an instruction, with the host's flag that says
/// whether its owner signed the transaction.
#[derive(Clone, Copy, Debug, PartialEq, Eq)]
pub struct AccountRef {
    pub id: AccountId,
    pub is_authorized: bool,
}

/// The test that keeps every identifier but `m`.
pub open spec fn other_than(m: MemberId) -> spec_fn(MemberId) -> bool {
    |x: MemberId| x != m
}

/// `s` with every occurrence of `m` taken out, the order of the rest kept.
pub open spec fn without(s: Seq<MemberId>, m: MemberId) -> Seq<MemberId> {
    s.filter(other_than(m))
}

/// Taking `m` out keeps exactly the other elements, keeps a list free of
/// duplicates, and changes nothing where `m` does not occur.
pub proof fn lemma_without(s: Seq<MemberId>, m: MemberId)
    ensures
        forall|x: MemberId| #[trigger] without(s, m).contains(x) <==> (s.contains(x) && x != m),
        s.no_duplicates() ==> without(s, m).no_duplicates(),
        !s.contains(m) ==> without(s, m) == s,
        without(s, m).len() <= s.len(),
    decreases s.len(),
{
    reveal(Seq::filter);
    if s.len() > 0 {
        let init = s.drop_last();
        lemma_without(init, m);
        assert(init.no_duplicates() || !s.no_duplicates());
        assert forall|x: MemberId| #[trigger] without(s, m).contains(x) <==> (s.contains(x) && x != m) by {
            assert(s =~= init.push(s.last()));
            if s.contains(x) && x != m {
                let k = choose|k: int| 0 <= k < s.len() && s[k] == x;
                if k < s.len() - 1 {
                    assert(init[k] == x);
                }
            }
            if without(s, m).contains(x) && x != s.last() {
                assert(without(init, m).contains(x));
                let k = choose|k: int| 0 <= k < init.len() && init[k] == x;
                assert(s[k] == x);
            }
        }
        if s.no_duplicates() {
            let w = without(init, m);
            assert(!init.contains(s.last()));
            assert(!w.contains(s.last()));
            if s.last() != m {
                assert(without(s, m) == w.push(s.last()));
                assert forall|i: int, j: int|
                    0 <= i < w.len() + 1 && 0 <= j < w.len() + 1 && i != j implies
                    #[trigger] w.push(s.last())[i] != #[trigger] w.push(s.last())[j] by {
                    if i == w.len() {
                        assert(w.contains(w[j]));
                    } else if j == w.len() {
                        assert(w.contains(w[i]));
                    }
                }
            }
        }
        if !s.contains(m) {
            assert(!init.contains(m)) by {
                if init.contains(m) {
                    let k = choose|k: int| 0 <= k < init.len() && init[k] == m;
                    assert(s[k] == m);
                }
            }
            assert(s.last() != m);
            assert(s =~= init.push(s.last()));
        }
    }
}

/// Compares two identifiers byte by byte.
pub fn same_id(a: &[u8; 32], b: &[u8; 32]) -> (r: bool)
    ensures
        r == (*a == *b),
{
    let mut i: usize = 0;
    while i < 32
        invariant
            0 <= i <= 32,
            forall|j: int| 0 <= j < i ==> a@[j] == b@[j],
        decreases 32 - i,
    {
        if a[i] != b[i] {
            return false;
        }
        i = i + 1;
    }
    assert(*a =~= *b);
    true
}

/// Whether `m` occurs in `v`.
pub fn contains_id(v: &Vec<MemberId>, m: &MemberId) -> (r: bool)
    ensures
        r == v@.contains(*m),
{
    let mut i: usize = 0;
    while i < v.len()
        invariant
            0 <= i <= v.len(),
            forall|j: int| 0 <= j < i ==> v@[j] != *m,
        decreases v.len() - i,
    {
        if same_id(&v[i], m) {
            return true;
        }
        i = i + 1;
    }
    false
}

/// A copy of `v` without `m`.
pub fn without_id(v: &Vec<MemberId>, m: &MemberId) -> (r: Vec<MemberId>)
    ensures
        r@ == without(v@, *m),
{
    let mut out: Vec<MemberId> = Vec::new();
    let mut i: usize = 0;
    while i < v.len()
        invariant
            0 <= i <= v.len(),
            out@ == without(v@.subrange(0, i as int), *m),
        decreases v.len() - i,
    {
        let x = v[i];
        proof {
            let head = v@.subrange(0, i as int);
            assert(v@.subrange(0, i + 1) =~= head.push(x));
            head.lemma_filter_push(x, other_than(*m));
        }
        if !same_id(&x, m) {
            out.push(x);
        }
        i = i + 1;
    }
    assert(v@.subrange(0, v.len() as int) =~= v@);
    out
}

} // verus!
