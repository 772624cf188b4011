//! Tracks which letters of the alphabet the player has bought and which
//! remain available for purchase.

use vstd::prelude::*;

verus! {

/// The fixed 26-letter alphabet, in order.
pub open spec fn alphabet() -> Seq<char> {
    seq![
        'A', 'B', 'C', 'D', 'E', 'F', 'G', 'H', 'I', 'J', 'K', 'L', 'M',
        'N', 'O', 'P', 'Q', 'R', 'S', 'T', 'U', 'V', 'W', 'X', 'Y', 'Z',
    ]
}

/// Keeps track of what letters have been bought, and what letters are
/// still available for the player to buy.
pub struct LetterPool {
    available: Vec<char>,
    bought: Vec<char>,
}

impl LetterPool {
    /// The letters still available for purchase, in their current order.
    pub closed spec fn spec_available(&self) -> Seq<char> {
        self.available@
    }

    /// The letters bought so far, in purchase order.
    pub closed spec fn spec_bought(&self) -> Seq<char> {
        self.bought@
    }

    /// The pool partitions the alphabet: every alphabet letter sits in
    /// exactly one of the two sequences, and nothing else sits in either.
    pub open spec fn wf(&self) -> bool {
        &&& self.spec_available().no_duplicates()
        &&& self.spec_bought().no_duplicates()
        &&& forall|c: char|
            alphabet().contains(c) <==> (self.spec_available().contains(c)
                || self.spec_bought().contains(c))
        &&& forall|c: char|
            !(self.spec_available().contains(c) && self.spec_bought().contains(c))
    }

    /// A fresh pool: the whole alphabet available, nothing bought.
    pub fn new() -> (lp: LetterPool)
        ensures
            lp.spec_available() == alphabet(),
            lp.spec_bought() == Seq::<char>::empty(),
            lp.wf(),
    {
        let available: Vec<char> = vec![
            'A', 'B', 'C', 'D', 'E', 'F', 'G', 'H', 'I', 'J', 'K', 'L', 'M',
            'N', 'O', 'P', 'Q', 'R', 'S', 'T', 'U', 'V', 'W', 'X', 'Y', 'Z',
        ];
        proof {
            assert(available@ =~= alphabet());
            assert(available@.no_duplicates());
        }
        LetterPool { available, bought: Vec::new() }
    }

    /// Whether `letter` is still available for purchase. No validation is
    /// done on `letter`: a character outside the pool simply is not found.
    pub fn is_letter_available(&self, letter: char) -> (r: bool)
        ensures
            r == self.spec_available().contains(letter),
    {
        vec_contains(&self.available, letter)
    }

    /// Buys a letter: if it is available, it moves from `available` (its
    /// first occurrence is removed in place, keeping the order of the
    /// rest) to the end of `bought`, and the purchase is reported as
    /// `true`; otherwise nothing changes and the result is `false`.
    pub fn buy_letter(&mut self, letter: char) -> (r: bool)
        requires
            old(self).wf(),
        ensures
            r == old(self).spec_available().contains(letter),
            final(self).wf(),
            r ==> final(self).spec_available()
                == old(self).spec_available().remove_value(letter),
            r ==> final(self).spec_bought() == old(self).spec_bought().push(letter),
            !r ==> *final(self) == *old(self),
    {
        if self.is_letter_available(letter) {
            let ghost old_avail = self.available@;
            let ghost old_bought = self.bought@;
            let index = index_of(&self.available, letter);
            self.bought.push(letter);
            self.available.remove(index);
            proof {
                lemma_remove_at_first_index(old_avail, letter, index as int);
                lemma_buy_preserves_wf(old_avail, old_bought, letter, index as int);
            }
            true
        } else {
            false
        }
    }

    /// Read-only view of the letters still available, in their current
    /// order.
    pub fn available(&self) -> (r: &Vec<char>)
        ensures
            r@ == self.spec_available(),
    {
        &self.available
    }

    /// Read-only view of the letters bought so far, in purchase order.
    pub fn bought(&self) -> (r: &Vec<char>)
        ensures
            r@ == self.spec_bought(),
    {
        &self.bought
    }

    /// Renders a letter sequence: `"[]"` when empty, otherwise the
    /// letters between brackets, separated by `" ; "`, as in
    /// `"[ A ; B ; C ]"`.
    pub fn display_letter_pool(lp: &Vec<char>) -> (r: String)
        ensures
            r@ == pool_display(lp@),
    {
        if lp.len() == 0 {
            let r = String::from_str("[]");
            proof {
                reveal_strlit("[]");
                assert(r@ =~= pool_display(lp@));
            }
            r
        } else {
            let n = lp.len();
            let mut s = String::from_str("[ ");
            proof {
                reveal_strlit("[ ");
                reveal_strlit(" ; ");
                reveal_strlit(" ]");
                assert(s@ =~= seq!['[', ' '] + separated(lp@.take(0)));
            }
            let mut i: usize = 0;
            while i + 1 < n
                invariant
                    n == lp@.len(),
                    1 <= n,
                    i < n,
                    s@ == seq!['[', ' '] + separated(lp@.take(i as int)),
                decreases n - i,
            {
                s.push(lp[i]);
                s.append(" ; ");
                proof {
                    reveal_strlit(" ; ");
                    assert(lp@.take(i + 1).drop_last() =~= lp@.take(i as int));
                    assert(s@ =~= seq!['[', ' '] + separated(lp@.take(i + 1)));
                }
                i += 1;
            }
            s.push(lp[i]);
            s.append(" ]");
            proof {
                reveal_strlit(" ]");
                assert(lp@.take(n - 1) =~= lp@.drop_last());
                assert(s@ =~= pool_display(lp@));
            }
            s
        }
    }
}

/// Law: the pool always partitions the alphabet. Any sequence of
/// purchases keeps `wf` (see `new` and `buy_letter`), and a well-formed
/// pool holds every alphabet letter in exactly one of `available` and
/// `bought`, and no other character in either.
pub proof fn lemma_alphabet_partition(lp: &LetterPool)
    requires
        lp.wf(),
    ensures
        forall|c: char|
            alphabet().contains(c) <==> (lp.spec_available().contains(c)
                || lp.spec_bought().contains(c)),
        forall|c: char| !(lp.spec_available().contains(c) && lp.spec_bought().contains(c)),
{
}

/// Law: a purchase is idempotent in effect. Buying an available letter
/// (which `buy_letter` reports with `true`) leaves it unavailable, so an
/// immediate second purchase reports `false` and changes nothing, and the
/// letter stands exactly once among the bought letters.
pub proof fn lemma_purchase_idempotent(lp: &LetterPool, c: char)
    requires
        lp.wf(),
        lp.spec_available().contains(c),
    ensures
        !lp.spec_available().remove_value(c).contains(c),
        lp.spec_bought().push(c).to_multiset().count(c) == 1,
{
    let avail = lp.spec_available();
    let bought = lp.spec_bought();
    avail.index_of_first_ensures(c);
    let i = avail.index_of_first(c)->Some_0;
    avail.remove_ensures(i);
    let na = avail.remove(i);
    assert(!na.contains(c)) by {
        if na.contains(c) {
            let k = choose|k: int| 0 <= k < na.len() && na[k] == c;
            if k < i {
                assert(avail[k] == c);
                assert(avail[k] == avail[i]);
            } else {
                assert(avail[k + 1] == c);
                assert(avail[k + 1] == avail[i]);
            }
        }
    }
    assert(!bought.contains(c));
    bought.to_multiset_ensures();
    assert(bought.to_multiset().count(c) == 0);
    assert(bought.push(c).to_multiset() =~= bought.to_multiset().insert(c));
}

/// Every letter of `s` followed by the `" ; "` separator.
pub open spec fn separated(s: Seq<char>) -> Seq<char>
    decreases s.len(),
{
    if s.len() == 0 {
        Seq::empty()
    } else {
        separated(s.drop_last()) + seq![s.last(), ' ', ';', ' ']
    }
}

/// The display form of a letter sequence: `"[]"` when empty, otherwise
/// brackets around the letters with `" ; "` between each pair.
pub open spec fn pool_display(s: Seq<char>) -> Seq<char> {
    if s.len() == 0 {
        seq!['[', ']']
    } else {
        seq!['[', ' '] + separated(s.drop_last()) + seq![s.last(), ' ', ']']
    }
}

/// The first occurrence of a value is removed exactly at its
/// first index.
proof fn lemma_remove_at_first_index(s: Seq<char>, c: char, i: int)
    requires
        0 <= i < s.len(),
        s[i] == c,
        forall|j: int| 0 <= j < i ==> s[j] != c,
    ensures
        s.remove_value(c) == s.remove(i),
{
    s.index_of_first_ensures(c);
    assert(s.contains(c));
    let fi = s.index_of_first(c)->Some_0;
    if fi < i {
        assert(s[fi] != c);
        assert(false);
    }
    if fi > i {
        assert(s[i] != c);
        assert(false);
    }
}

/// Removing an available letter at its index and appending it to the
/// bought letters keeps the alphabet partition intact.
proof fn lemma_buy_preserves_wf(avail: Seq<char>, bought: Seq<char>, c: char, i: int)
    requires
        avail.no_duplicates(),
        bought.no_duplicates(),
        forall|d: char| alphabet().contains(d) <==> (avail.contains(d) || bought.contains(d)),
        forall|d: char| !(avail.contains(d) && bought.contains(d)),
        0 <= i < avail.len(),
        avail[i] == c,
    ensures
        avail.remove(i).no_duplicates(),
        bought.push(c).no_duplicates(),
        forall|d: char|
            alphabet().contains(d) <==> (avail.remove(i).contains(d)
                || bought.push(c).contains(d)),
        forall|d: char| !(avail.remove(i).contains(d) && bought.push(c).contains(d)),
{
    let na = avail.remove(i);
    let nb = bought.push(c);
    avail.remove_ensures(i);

    // Each index of `na` reads an index of `avail` other than `i`.
    assert forall|d: char| #[trigger] na.contains(d) implies avail.contains(d) && d != c by {
        let k = choose|k: int| 0 <= k < na.len() && na[k] == d;
        if k < i {
            assert(avail[k] == d);
            if d == c {
                assert(avail[k] == avail[i]);
                assert(false);
            }
        } else {
            assert(avail[k + 1] == d);
            if d == c {
                assert(avail[k + 1] == avail[i]);
                assert(false);
            }
        }
    }
    assert forall|d: char| avail.contains(d) && d != c implies #[trigger] na.contains(d) by {
        let k = choose|k: int| 0 <= k < avail.len() && avail[k] == d;
        if k < i {
            assert(na[k] == d);
        } else {
            assert(k != i);
            assert(na[k - 1] == d);
        }
    }

    // Membership in `nb` is membership in `bought`, or the new letter.
    assert forall|d: char| #[trigger] nb.contains(d) implies bought.contains(d) || d == c by {
        let k = choose|k: int| 0 <= k < nb.len() && nb[k] == d;
        if k < bought.len() {
            assert(bought[k] == d);
        }
    }
    assert forall|d: char| bought.contains(d) implies #[trigger] nb.contains(d) by {
        let k = choose|k: int| 0 <= k < bought.len() && bought[k] == d;
        assert(nb[k] == d);
    }
    assert(avail.contains(c));
    assert(nb[bought.len() as int] == c);
    assert(nb.contains(c));

    assert(na.no_duplicates()) by {
        assert forall|p: int, q: int| 0 <= p < na.len() && 0 <= q < na.len() && p != q
            implies na[p] != na[q] by {
            let p0: int = if p < i { p } else { p + 1 };
            let q0: int = if q < i { q } else { q + 1 };
            assert(na[p] == avail[p0]);
            assert(na[q] == avail[q0]);
        }
    }
    assert(nb.no_duplicates()) by {
        assert(!bought.contains(c));
        assert forall|p: int, q: int| 0 <= p < nb.len() && 0 <= q < nb.len() && p != q
            implies nb[p] != nb[q] by {
            if p < bought.len() && q < bought.len() {
                assert(nb[p] == bought[p]);
                assert(nb[q] == bought[q]);
            } else if p < bought.len() {
                assert(nb[q] == c);
                assert(bought.contains(bought[p]));
            } else if q < bought.len() {
                assert(nb[p] == c);
                assert(bought.contains(bought[q]));
            }
        }
    }
}

/// Whether `v` holds `c`.
pub(crate) fn vec_contains(v: &Vec<char>, c: char) -> (r: bool)
    ensures
        r == v@.contains(c),
{
    let mut i: usize = 0;
    while i < v.len()
        invariant
            i <= v@.len(),
            forall|j: int| 0 <= j < i ==> v@[j] != c,
        decreases v@.len() - i,
    {
        if v[i] == c {
            return true;
        }
        i += 1;
    }
    false
}

/// The index of the first occurrence of `c` in `v`.
fn index_of(v: &Vec<char>, c: char) -> (r: usize)
    requires
        v@.contains(c),
    ensures
        r < v@.len(),
        v@[r as int] == c,
        forall|j: int| 0 <= j < r ==> v@[j] != c,
{
    let n = v.len();
    let mut i: usize = 0;
    while v[i] != c
        invariant
            i < n,
            n == v@.len(),
            exists|j: int| i <= j < v@.len() && v@[j] == c,
            forall|j: int| 0 <= j < i ==> v@[j] != c,
        decreases v@.len() - i,
    {
        i += 1;
    }
    i
}

} // verus!
