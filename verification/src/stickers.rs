use vstd::prelude::*;
use vstd::std_specs::hash::DefaultHasherAdditionalSpecFns;

use std::collections::hash_map::DefaultHasher;
use std::hash::Hasher;

verus! {

/// How many pictures the sticker shelf keeps.
pub const STICKER_HISTORY: usize = 12;

/// The `k` lowest bytes of `n`, least significant first.
pub open spec fn le_bytes(n: nat, k: nat) -> Seq<u8>
    decreases k,
{
    if k == 0 {
        Seq::empty()
    } else {
        seq![(n % 256) as u8] + le_bytes(n / 256, (k - 1) as nat)
    }
}

/// Whether `b` is the `k` lowest bytes of `n` in one of the two orders a machine keeps
/// them in: least significant first or most significant first.
pub open spec fn machine_bytes(b: Seq<u8>, n: nat, k: nat) -> bool {
    b == le_bytes(n, k) || b == le_bytes(n, k).reverse()
}

/// The bytes of a `u32` in the machine's own order (`u32::to_ne_bytes`). Claims they are
/// the number's four bytes, least or most significant first; which of the two is the
/// machine's, and so the result, is left unsaid.
#[verifier::external_body]
fn u32_bytes(n: u32) -> (b: [u8; 4])
    ensures
        machine_bytes(b@, n as nat, 4),
{
    n.to_ne_bytes()
}

/// The bytes of a `usize` in the machine's own order (`usize::to_ne_bytes`). Claims they
/// are as many bytes as a `usize` has, least or most significant first.
#[verifier::external_body]
fn usize_bytes(n: usize) -> (b: Vec<u8>)
    ensures
        machine_bytes(b@, n as nat, (usize::BITS / 8) as nat),
{
    n.to_ne_bytes().to_vec()
}

/// What the hasher is fed for a picture, as hashing its size and then its bytes feeds it:
/// the width, the height, the number of bytes, each in the machine's byte order, then the
/// bytes themselves.
pub open spec fn fed(size: (u32, u32), bytes: Seq<u8>, fed: Seq<Seq<u8>>) -> bool {
    &&& fed.len() == 4
    &&& machine_bytes(fed[0], size.0 as nat, 4)
    &&& machine_bytes(fed[1], size.1 as nat, 4)
    &&& machine_bytes(fed[2], bytes.len(), (usize::BITS / 8) as nat)
    &&& fed[3] == bytes
}

/// A fingerprint of a picture of the given size and bytes, to tell pictures apart
/// without comparing them byte by byte: its size and then its bytes hashed with the
/// standard hasher, as `Hash` on them does.
pub fn fingerprint(size: (u32, u32), bytes: &[u8]) -> (print: u64)
    ensures
        exists|f: Seq<Seq<u8>>| fed(size, bytes@, f) && print == DefaultHasher::spec_finish(f),
{
    let (w, h) = size;
    let wb = u32_bytes(w);
    let hb = u32_bytes(h);
    let lb = usize_bytes(bytes.len());
    let mut hasher = DefaultHasher::new();
    hasher.write(wb.as_slice());
    hasher.write(hb.as_slice());
    hasher.write(lb.as_slice());
    hasher.write(bytes);
    assert(fed(size, bytes@, hasher@));
    hasher.finish()
}

/// The entries without those of the given fingerprint, in order.
pub open spec fn without<T>(s: Seq<(u64, T)>, print: u64) -> Seq<(u64, T)>
    decreases s.len(),
{
    if s.len() == 0 {
        s
    } else {
        let rest = without(s.drop_last(), print);
        if s.last().0 == print {
            rest
        } else {
            rest.push(s.last())
        }
    }
}

/// The newest `STICKER_HISTORY` entries.
pub open spec fn newest<T>(s: Seq<(u64, T)>) -> Seq<(u64, T)> {
    if s.len() > STICKER_HISTORY {
        s.subrange(s.len() - STICKER_HISTORY, s.len() as int)
    } else {
        s
    }
}

/// The shelf after a picture is put on it: any earlier copy of it leaves, the picture
/// goes on the end as the newest, and the oldest fall off past the limit.
pub open spec fn shelved<T>(s: Seq<(u64, T)>, print: u64, item: T) -> Seq<(u64, T)> {
    newest(without(s, print).push((print, item)))
}

/// Whether no fingerprint is on the shelf twice.
pub open spec fn distinct_prints<T>(s: Seq<(u64, T)>) -> bool {
    forall|a: int, b: int| 0 <= a < b < s.len() ==> s[a].0 != s[b].0
}

/// What is left after taking out a fingerprint's entries was already there, and holds
/// none of that fingerprint.
proof fn lemma_without_from<T>(s: Seq<(u64, T)>, print: u64)
    ensures
        without(s, print).len() <= s.len(),
        forall|k: int| 0 <= k < without(s, print).len() ==> {
            &&& s.contains(#[trigger] without(s, print)[k])
            &&& without(s, print)[k].0 != print
        },
    decreases s.len(),
{
    if s.len() > 0 {
        let rest = s.drop_last();
        lemma_without_from(rest, print);
        assert forall|k: int| 0 <= k < without(s, print).len() implies {
            &&& s.contains(#[trigger] without(s, print)[k])
            &&& without(s, print)[k].0 != print
        } by {
            if k < without(rest, print).len() {
                let x = without(rest, print)[k];
                let at = choose|m: int| 0 <= m < rest.len() && rest[m] == x;
                assert(s[at] == x);
            } else {
                assert(s[s.len() - 1] == s.last());
            }
        }
    }
}

/// Taking out a fingerprint's entries from a shelf with no fingerprint twice leaves one
/// with no fingerprint twice.
proof fn lemma_without_distinct<T>(s: Seq<(u64, T)>, print: u64)
    requires
        distinct_prints(s),
    ensures
        distinct_prints(without(s, print)),
    decreases s.len(),
{
    if s.len() > 0 {
        let rest = s.drop_last();
        assert(distinct_prints(rest));
        lemma_without_distinct(rest, print);
        lemma_without_from(rest, print);
        let w = without(rest, print);
        if s.last().0 != print {
            assert forall|a: int, b: int| 0 <= a < b < w.push(s.last()).len()
                implies w.push(s.last())[a].0 != w.push(s.last())[b].0 by {
                if b == w.len() {
                    assert(rest.contains(w[a]));
                    let m = choose|m: int| 0 <= m < rest.len() && rest[m] == w[a];
                    assert(s[m] == rest[m]);
                    assert(s[s.len() - 1] == s.last());
                }
            }
        }
    }
}

/// Putting a picture on a shelf on which no picture is twice leaves none on it twice; the
/// picture put on is the newest one, and the shelf holds no more than its limit.
pub proof fn lemma_shelf_holds_each_picture_once<T>(s: Seq<(u64, T)>, print: u64, item: T)
    requires
        distinct_prints(s),
    ensures
        distinct_prints(shelved(s, print, item)),
        shelved(s, print, item).last() == (print, item),
        shelved(s, print, item).len() <= STICKER_HISTORY,
{
    lemma_without_distinct(s, print);
    lemma_without_from(s, print);
    let w = without(s, print);
    let pushed = w.push((print, item));
    assert(distinct_prints(pushed)) by {
        assert forall|a: int, b: int| 0 <= a < b < pushed.len() implies pushed[a].0 != pushed[b].0 by {
            if b == w.len() {
                assert(w[a].0 != print);
            }
        }
    }
}

/// Pictures placed lately, oldest first, each with its fingerprint, so that they can be
/// placed again.
pub struct Shelf<T> {
    pub entries: Vec<(u64, T)>,
}

impl<T> Shelf<T> {
    /// An empty shelf.
    pub fn new() -> (s: Self)
        ensures
            s.entries@ == Seq::<(u64, T)>::empty(),
    {
        Shelf { entries: Vec::new() }
    }

    /// Puts a picture with the given fingerprint on the shelf (see `shelved`).
    pub fn remember(&mut self, print: u64, item: T)
        ensures
            final(self).entries@ == shelved(old(self).entries@, print, item),
            final(self).entries@.len() <= STICKER_HISTORY,
    {
        let ghost start = self.entries@;
        let mut i: usize = 0;
        let ghost mut j: int = 0;
        while i < self.entries.len()
            invariant
                0 <= j <= start.len(),
                i <= self.entries@.len(),
                self.entries@.take(i as int) == without(start.take(j), print),
                self.entries@.skip(i as int) == start.skip(j),
            decreases start.len() - j,
        {
            proof {
                assert(self.entries@.skip(i as int).len() == start.skip(j).len());
                assert(j < start.len());
                assert(start.take(j + 1).drop_last() =~= start.take(j));
                assert(self.entries@[i as int] == start[j]) by {
                    assert(self.entries@.skip(i as int)[0] == start.skip(j)[0]);
                }
            }
            if self.entries[i].0 == print {
                let ghost before = self.entries@;
                self.entries.remove(i);
                proof {
                    assert(self.entries@.take(i as int) =~= before.take(i as int));
                    assert forall|k: int| 0 <= k < start.skip(j + 1).len()
                        implies self.entries@.skip(i as int)[k] == start.skip(j + 1)[k] by {
                        assert(before.skip(i as int)[k + 1] == start.skip(j)[k + 1]);
                    }
                    assert(self.entries@.skip(i as int) =~= start.skip(j + 1));
                }
            } else {
                let ghost before = self.entries@;
                i = i + 1;
                proof {
                    assert(self.entries@.take(i as int) =~= before.take(i - 1).push(start[j]));
                    assert forall|k: int| 0 <= k < start.skip(j + 1).len()
                        implies self.entries@.skip(i as int)[k] == start.skip(j + 1)[k] by {
                        assert(before.skip(i - 1)[k + 1] == start.skip(j)[k + 1]);
                    }
                    assert(self.entries@.skip(i as int) =~= start.skip(j + 1));
                }
            }
            proof {
                j = j + 1;
            }
        }
        proof {
            assert(start.take(j) =~= start) by {
                assert(start.skip(j).len() == 0);
            }
            assert(self.entries@ =~= self.entries@.take(i as int));
        }
        self.entries.push((print, item));
        let ghost kept = self.entries@;
        while self.entries.len() > STICKER_HISTORY
            invariant
                kept.len() >= self.entries@.len(),
                self.entries@ == kept.subrange(kept.len() - self.entries@.len(), kept.len() as int),
                kept.len() > STICKER_HISTORY ==> self.entries@.len() >= STICKER_HISTORY,
                kept.len() <= STICKER_HISTORY ==> self.entries@ == kept,
            decreases self.entries@.len(),
        {
            let ghost before = self.entries@;
            self.entries.remove(0);
            assert(self.entries@ =~= kept.subrange(kept.len() - self.entries@.len(), kept.len() as int));
        }
        assert(self.entries@ =~= newest(kept));
    }

    /// Puts a picture of the given size and bytes on the shelf, told apart from the ones
    /// already there by its fingerprint.
    pub fn remember_picture(&mut self, size: (u32, u32), bytes: &[u8], item: T)
        ensures
            exists|f: Seq<Seq<u8>>| fed(size, bytes@, f)
                && final(self).entries@ == shelved(old(self).entries@, DefaultHasher::spec_finish(f), item),
    {
        let print = fingerprint(size, bytes);
        self.remember(print, item);
    }
}

} // verus!
