//! The read-only chain snapshot and its query functions: exact-match lookup
//! and the sorted, prefix-filtered, size-bounded key page.
use vstd::prelude::*;
use vstd::relations::sorted_by;
use crate::bytes::clone_bytes;
use crate::bytes::bytes_eq;
use crate::bytes::has_prefix;
use crate::bytes::lemma_lex_le_total;
use crate::bytes::lemma_lex_le_total_ordering;
use crate::bytes::lemma_lex_le_transitive;
use crate::bytes::lex_le;
use crate::bytes::lex_le_bytes;
use crate::bytes::lex_leq;
use crate::bytes::starts_with_bytes;

verus! {

broadcast use vstd::seq_lib::group_to_multiset_ensures;

/// The byte view of an optional owned byte string.
pub open spec fn opt_view(o: Option<Vec<u8>>) -> Option<Seq<u8>> {
    match o {
        Some(v) => Some(v@),
        None => None,
    }
}

/// The byte view of an optional borrowed byte string.
pub open spec fn opt_ref_view(o: Option<&Vec<u8>>) -> Option<Seq<u8>> {
    match o {
        Some(v) => Some(v@),
        None => None,
    }
}

/// The value recorded for `key`: the first pair carrying it, if any.
pub open spec fn spec_lookup(sv: Seq<(Seq<u8>, Seq<u8>)>, key: Seq<u8>) -> Option<Seq<u8>>
    decreases sv.len(),
{
    if sv.len() == 0 {
        None
    } else if sv[0].0 == key {
        Some(sv[0].1)
    } else {
        spec_lookup(sv.skip(1), key)
    }
}

/// Whether a key belongs to the requested page: it carries the prefix (when
/// one is given) and is not below the start key (when one is given).
pub open spec fn matches_page(k: Seq<u8>, prefix: Option<Seq<u8>>, start: Option<Seq<u8>>) -> bool {
    (match prefix {
        Some(p) => has_prefix(k, p),
        None => true,
    }) && (match start {
        Some(s) => lex_le(s, k),
        None => true,
    })
}

/// The snapshot keys that belong to the page, in snapshot order.
pub open spec fn filtered_keys(
    sv: Seq<(Seq<u8>, Seq<u8>)>,
    prefix: Option<Seq<u8>>,
    start: Option<Seq<u8>>,
) -> Seq<Seq<u8>>
    decreases sv.len(),
{
    if sv.len() == 0 {
        Seq::empty()
    } else {
        let rest = filtered_keys(sv.drop_last(), prefix, start);
        if matches_page(sv.last().0, prefix, start) {
            rest.push(sv.last().0)
        } else {
            rest
        }
    }
}

/// The page itself: the matching keys, sorted ascending by raw byte value,
/// cut down to the page size.
pub open spec fn page_spec(
    sv: Seq<(Seq<u8>, Seq<u8>)>,
    prefix: Option<Seq<u8>>,
    start: Option<Seq<u8>>,
    count: int,
) -> Seq<Seq<u8>> {
    let sorted = filtered_keys(sv, prefix, start).sort_by(lex_leq());
    if count < sorted.len() {
        sorted.take(count)
    } else {
        sorted
    }
}

/// The read-only chain snapshot: genesis storage pairs in load order plus
/// the chain's metadata strings, immutable for the process lifetime.
#[derive(Debug)]
pub struct Snapshot {
    pub pairs: Vec<(Vec<u8>, Vec<u8>)>,
    pub name: String,
    pub chain_type: String,
    pub properties: String,
}

impl Snapshot {
    /// The storage pairs as byte sequences.
    pub open spec fn entries(self) -> Seq<(Seq<u8>, Seq<u8>)> {
        self.pairs@.map_values(|p: (Vec<u8>, Vec<u8>)| (p.0@, p.1@))
    }

    /// Looks a key up by exact match; the first matching pair wins.
    pub fn lookup(&self, key: &Vec<u8>) -> (r: Option<Vec<u8>>)
        ensures
            opt_view(r) == spec_lookup(self.entries(), key@),
    {
        let n = self.pairs.len();
        let mut i: usize = 0;
        proof {
            assert(self.entries().skip(0) =~= self.entries());
        }
        while i < n
            invariant
                n == self.pairs.len(),
                i <= n,
                spec_lookup(self.entries(), key@) == spec_lookup(
                    self.entries().skip(i as int),
                    key@,
                ),
            decreases n - i,
        {
            proof {
                assert(self.entries()[i as int] == (
                    self.pairs@[i as int].0@,
                    self.pairs@[i as int].1@,
                ));
                assert(self.entries().skip(i as int)[0] == self.entries()[i as int]);
                assert(self.entries().skip(i as int).skip(1) =~= self.entries().skip(i as int + 1));
            }
            if bytes_eq(&self.pairs[i].0, key) {
                return Some(clone_bytes(&self.pairs[i].1));
            }
            i = i + 1;
        }
        None
    }

    /// One (key, optional value) change per requested key, by exact lookup;
    /// an absent key yields the "no value" marker, never an error.
    pub fn storage_changes(&self, keys: &Vec<Vec<u8>>) -> (r: Vec<(Vec<u8>, Option<Vec<u8>>)>)
        ensures
            r@.len() == keys@.len(),
            forall|i: int|
                0 <= i < keys@.len() ==> (#[trigger] r@[i]).0@ == keys@[i]@ && opt_view(r@[i].1)
                    == spec_lookup(self.entries(), keys@[i]@),
    {
        let mut out: Vec<(Vec<u8>, Option<Vec<u8>>)> = Vec::new();
        let n = keys.len();
        let mut i: usize = 0;
        while i < n
            invariant
                n == keys.len(),
                i <= n,
                out@.len() == i,
                forall|j: int|
                    0 <= j < i ==> (#[trigger] out@[j]).0@ == keys@[j]@ && opt_view(out@[j].1)
                        == spec_lookup(self.entries(), keys@[j]@),
            decreases n - i,
        {
            let value = self.lookup(&keys[i]);
            out.push((clone_bytes(&keys[i]), value));
            i = i + 1;
        }
        out
    }

    /// The page of storage keys: those carrying `prefix` and not below
    /// `start_key`, sorted ascending by raw byte value, at most `count` long.
    pub fn keys_paged(
        &self,
        prefix: Option<&Vec<u8>>,
        count: usize,
        start_key: Option<&Vec<u8>>,
    ) -> (r: Vec<Vec<u8>>)
        ensures
            r@.map_values(|v: Vec<u8>| v@) == page_spec(
                self.entries(),
                opt_ref_view(prefix),
                opt_ref_view(start_key),
                count as int,
            ),
    {
        let ghost pfx = opt_ref_view(prefix);
        let ghost st = opt_ref_view(start_key);
        let mut matched: Vec<Vec<u8>> = Vec::new();
        let n = self.pairs.len();
        let mut i: usize = 0;
        proof {
            assert(self.entries().take(0) =~= Seq::<(Seq<u8>, Seq<u8>)>::empty());
            assert(matched@.map_values(|v: Vec<u8>| v@) =~= filtered_keys(
                self.entries().take(0),
                pfx,
                st,
            ));
        }
        while i < n
            invariant
                n == self.pairs.len(),
                i <= n,
                pfx == opt_ref_view(prefix),
                st == opt_ref_view(start_key),
                matched@.map_values(|v: Vec<u8>| v@) == filtered_keys(
                    self.entries().take(i as int),
                    pfx,
                    st,
                ),
            decreases n - i,
        {
            let keep_prefix = match prefix {
                Some(p) => starts_with_bytes(&self.pairs[i].0, p),
                None => true,
            };
            let keep_start = match start_key {
                Some(s) => lex_le_bytes(s, &self.pairs[i].0),
                None => true,
            };
            let ghost prev = matched@.map_values(|v: Vec<u8>| v@);
            proof {
                assert(self.entries()[i as int] == (
                    self.pairs@[i as int].0@,
                    self.pairs@[i as int].1@,
                ));
                assert(self.entries().take(i as int + 1).drop_last() =~= self.entries().take(
                    i as int,
                ));
                assert(self.entries().take(i as int + 1).last() == self.entries()[i as int]);
            }
            if keep_prefix && keep_start {
                matched.push(clone_bytes(&self.pairs[i].0));
                proof {
                    assert(matched@.map_values(|v: Vec<u8>| v@) =~= prev.push(
                        self.pairs@[i as int].0@,
                    ));
                }
            }
            i = i + 1;
        }
        proof {
            assert(self.entries().take(n as int) =~= self.entries());
        }
        let sorted = sort_keys(matched);
        let ghost full = filtered_keys(self.entries(), pfx, st);
        proof {
            lemma_lex_le_total_ordering();
            full.lemma_sort_by_ensures(lex_leq());
            vstd::seq_lib::lemma_sorted_unique(
                sorted@.map_values(|v: Vec<u8>| v@),
                full.sort_by(lex_leq()),
                lex_leq(),
            );
        }
        let mut page = sorted;
        if count < page.len() {
            page.truncate(count);
            proof {
                assert(page@.map_values(|v: Vec<u8>| v@) =~= full.sort_by(lex_leq()).take(
                    count as int,
                ));
            }
        }
        page
    }
}

/// Sorts keys ascending by raw byte value: the result is ordered and holds
/// exactly the input's elements.
fn sort_keys(input: Vec<Vec<u8>>) -> (r: Vec<Vec<u8>>)
    ensures
        sorted_by(r@.map_values(|v: Vec<u8>| v@), lex_leq()),
        r@.map_values(|v: Vec<u8>| v@).to_multiset() == input@.map_values(
            |v: Vec<u8>| v@,
        ).to_multiset(),
{
    let ghost iv = input@.map_values(|v: Vec<u8>| v@);
    let mut out: Vec<Vec<u8>> = Vec::new();
    let n = input.len();
    let mut i: usize = 0;
    proof {
        assert(iv.take(0) =~= Seq::<Seq<u8>>::empty());
        assert(out@.map_values(|v: Vec<u8>| v@) =~= iv.take(0));
    }
    while i < n
        invariant
            n == input.len(),
            i <= n,
            iv == input@.map_values(|v: Vec<u8>| v@),
            sorted_by(out@.map_values(|v: Vec<u8>| v@), lex_leq()),
            out@.map_values(|v: Vec<u8>| v@).to_multiset() == iv.take(i as int).to_multiset(),
        decreases n - i,
    {
        let x = clone_bytes(&input[i]);
        let ghost s0 = out@.map_values(|v: Vec<u8>| v@);
        // find the first position whose element is not <= x
        let ghost xv = x@;
        let mut pos: usize = 0;
        loop
            invariant
                pos <= out.len(),
                s0 == out@.map_values(|v: Vec<u8>| v@),
                x@ == xv,
                forall|j: int| 0 <= j < pos ==> lex_le(s0[j], xv),
            ensures
                pos <= out.len(),
                s0 == out@.map_values(|v: Vec<u8>| v@),
                x@ == xv,
                forall|j: int| 0 <= j < pos ==> lex_le(s0[j], xv),
                pos < out.len() ==> !lex_le(s0[pos as int], xv),
            decreases out.len() - pos,
        {
            if pos == out.len() {
                break;
            }
            if !lex_le_bytes(&out[pos], &x) {
                break;
            }
            pos = pos + 1;
        }
        proof {
            if pos < out.len() {
                lemma_lex_le_total(s0[pos as int], x@);
            }
        }
        out.insert(pos, x);
        proof {
            let s1 = out@.map_values(|v: Vec<u8>| v@);
            assert(s1 =~= s0.insert(pos as int, iv[i as int]));
            s0.insert_ensures(pos as int, iv[i as int]);
            assert forall|a: int, b: int| 0 <= a < b < s1.len() implies lex_leq()(
                s1[a],
                s1[b],
            ) by {
                if a < pos && b < pos {
                    assert(s1[a] == s0[a] && s1[b] == s0[b]);
                } else if a < pos && b == pos {
                    assert(s1[a] == s0[a] && s1[b] == iv[i as int]);
                } else if a < pos && b > pos {
                    assert(s1[a] == s0[a] && s1[b] == s0[b - 1]);
                } else if a == pos && b > pos {
                    assert(s1[a] == iv[i as int] && s1[b] == s0[b - 1]);
                    // x <= s0[pos] <= s0[b-1]
                    if (pos as int) < b - 1 {
                        assert(lex_leq()(s0[pos as int], s0[b - 1]));
                        lemma_lex_le_transitive(iv[i as int], s0[pos as int], s0[b - 1]);
                    }
                } else {
                    assert(a > pos && b > pos);
                    assert(s1[a] == s0[a - 1] && s1[b] == s0[b - 1]);
                }
            }
            lemma_insert_multiset(s0, pos as int, iv[i as int]);
            assert(iv.take(i as int + 1) =~= iv.take(i as int).push(iv[i as int]));
        }
        i = i + 1;
    }
    proof {
        assert(iv.take(n as int) =~= iv);
    }
    out
}

/// Inserting an element anywhere adds exactly it to the sequence's multiset.
proof fn lemma_insert_multiset(s: Seq<Seq<u8>>, pos: int, x: Seq<u8>)
    requires
        0 <= pos <= s.len(),
    ensures
        s.insert(pos, x).to_multiset() == s.to_multiset().insert(x),
{
    let left = s.subrange(0, pos);
    let right = s.subrange(pos, s.len() as int);
    assert(s.insert(pos, x) == left.push(x) + right);
    vstd::seq_lib::lemma_multiset_commutative(left.push(x), right);
    vstd::seq_lib::lemma_multiset_commutative(left, right);
    assert(left.push(x).to_multiset() =~= left.to_multiset().insert(x));
    assert(left + right =~= s);
    assert(s.insert(pos, x).to_multiset() =~= s.to_multiset().insert(x));
}

} // verus!
