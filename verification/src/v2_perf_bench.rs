//! Two implementations of the same work, for measuring: word counting with
//! a list searched linearly and with a hash index over words borrowed from
//! the text, and a sum of squares computed sequentially and in parallel.
//! Both pairs give the same results.
use vstd::prelude::*;
use std::collections::HashMap;
use rayon::iter::{IntoParallelRefIterator, ParallelIterator};
use vstd::utf8::encode_utf8;
use crate::v2_capstone::{fingerprint, fnv1a};
use crate::text::{words, str_views, split_ws, owned, chars_of};

verus! {

broadcast use {vstd::seq_lib::to_multiset_insert, vstd::std_specs::hash::group_hash_axioms};

// ───────────────────────── word counts ─────────────────────────

/// How many times `w` occurs in `ws`.
pub open spec fn occ(ws: Seq<Seq<char>>, w: Seq<char>) -> nat
    decreases ws.len(),
{
    if ws.len() == 0 {
        0
    } else {
        occ(ws.drop_last(), w) + if ws.last() == w {
            1nat
        } else {
            0nat
        }
    }
}

/// `w` occurs in `ws`.
pub open spec fn occurs(ws: Seq<Seq<char>>, w: Seq<char>) -> bool {
    exists|i: int| 0 <= i < ws.len() && ws[i] == w
}

/// The first occurrence of `u` in `ws` comes before any occurrence of `v`.
pub open spec fn first_before(ws: Seq<Seq<char>>, u: Seq<char>, v: Seq<char>) -> bool {
    exists|i: int| 0 <= i < ws.len() && ws[i] == u && forall|j: int| 0 <= j <= i ==> ws[j] != v
}

/// Some entry of `r` is the word `w`.
pub open spec fn counted(r: Seq<(String, usize)>, w: Seq<char>) -> bool {
    exists|a: int| 0 <= a < r.len() && r[a].0@ == w
}

/// `r` counts the words `ws`: one entry per distinct word, in order of first
/// occurrence, each with its number of occurrences.
pub open spec fn counts_words(r: Seq<(String, usize)>, ws: Seq<Seq<char>>) -> bool {
    &&& forall|a: int, b: int| 0 <= a < b < r.len() ==> r[a].0@ != r[b].0@
    &&& forall|a: int| 0 <= a < r.len() ==> #[trigger] r[a].1 == occ(ws, r[a].0@) && r[a].1 > 0
    &&& forall|i: int| 0 <= i < ws.len() ==> counted(r, #[trigger] ws[i])
    &&& forall|a: int, b: int|
        0 <= a < b < r.len() ==> first_before(ws, #[trigger] r[a].0@, #[trigger] r[b].0@)
}

proof fn lemma_occ_absent(ws: Seq<Seq<char>>, w: Seq<char>)
    requires
        forall|i: int| 0 <= i < ws.len() ==> ws[i] != w,
    ensures
        occ(ws, w) == 0,
    decreases ws.len(),
{
    if ws.len() > 0 {
        lemma_occ_absent(ws.drop_last(), w);
    }
}

proof fn lemma_occ_le_len(ws: Seq<Seq<char>>, w: Seq<char>)
    ensures
        occ(ws, w) <= ws.len(),
    decreases ws.len(),
{
    if ws.len() > 0 {
        lemma_occ_le_len(ws.drop_last(), w);
    }
}

/// Counts words with a list, searched linearly: one entry per distinct word,
/// in order of first occurrence.
pub fn word_count_naive(text: &str) -> (r: Vec<(String, usize)>)
    ensures
        counts_words(r@, words(text@)),
        count_sum(owned_views(r@)) == words(text@).len(),
{
    let ws = split_ws(text);
    let ghost all = str_views(ws@);
    let mut counts: Vec<(String, usize)> = Vec::new();
    let mut i: usize = 0;
    while i < ws.len()
        invariant
            i <= ws.len(),
            all == str_views(ws@),
            counts_words(counts@, all.take(i as int)),
        decreases ws.len() - i,
    {
        let word = ws[i];
        let owned_word = owned(word);
        let ghost pre = all.take(i as int);
        let ghost post = all.take(i + 1);
        proof {
            assert(post.drop_last() =~= pre);
            assert(post.last() == word@);
            assert forall|k: int| 0 <= k < pre.len() implies pre[k] == post[k] by {}
        }
        let mut a: usize = 0;
        let mut hit = false;
        while a < counts.len()
            invariant_except_break
                a <= counts.len(),
                !hit,
                owned_word@ == word@,
                forall|b: int| 0 <= b < a ==> counts@[b].0@ != word@,
            ensures
                owned_word@ == word@,
                hit ==> a < counts.len() && counts@[a as int].0@ == word@,
                !hit ==> forall|b: int| 0 <= b < counts.len() ==> counts@[b].0@ != word@,
            decreases counts.len() - a,
        {
            if counts[a].0 == owned_word {
                hit = true;
                break;
            }
            a += 1;
        }
        let ghost before = counts@;
        if hit {
            proof {
                lemma_occ_le_len(pre, word@);
                assert(counts@[a as int].1 == occ(pre, word@));
            }
            let n = counts[a].1 + 1;
            let key = counts[a].0.clone();
            counts.set(a, (key, n));
            proof {
                assert(occ(post, word@) == occ(pre, word@) + 1);
                assert forall|b: int| 0 <= b < counts.len() implies #[trigger] counts@[b].0@ == before[b].0@ by {}
                assert forall|x: int, y: int| 0 <= x < y < counts.len() implies counts@[x].0@ != counts@[y].0@ by {
                    assert(counts@[x].0@ == before[x].0@);
                    assert(counts@[y].0@ == before[y].0@);
                }
                assert forall|b: int| 0 <= b < counts.len() implies #[trigger] counts@[b].1 == occ(post, counts@[b].0@) && counts@[b].1 > 0 by {
                    if b != a {
                        assert(counts@[b] == before[b]);
                    }
                }
                assert forall|k: int| 0 <= k < post.len() implies counted(counts@, #[trigger] post[k]) by {
                    if k < pre.len() {
                        assert(counted(before, pre[k]));
                        let w = choose|b: int| 0 <= b < before.len() && before[b].0@ == pre[k];
                        assert(counts@[w].0@ == before[w].0@);
                    } else {
                        assert(counts@[a as int].0@ == post[k]);
                    }
                }
                assert forall|x: int, y: int| 0 <= x < y < counts.len() implies first_before(post, #[trigger] counts@[x].0@, #[trigger] counts@[y].0@) by {
                    assert(counts@[x].0@ == before[x].0@);
                    assert(counts@[y].0@ == before[y].0@);
                    assert(first_before(pre, before[x].0@, before[y].0@));
                    let w = choose|w: int| 0 <= w < pre.len() && pre[w] == before[x].0@ && forall|j: int| 0 <= j <= w ==> pre[j] != before[y].0@;
                    assert(post[w] == pre[w]);
                    assert forall|j: int| 0 <= j <= w implies post[j] != counts@[y].0@ by {
                        assert(post[j] == pre[j]);
                    }
                }
            }
        } else {
            proof {
                assert forall|k: int| 0 <= k < pre.len() implies pre[k] != word@ by {
                    assert(counted(counts@, pre[k]));
                    let w = choose|b: int| 0 <= b < counts.len() && counts@[b].0@ == pre[k];
                    assert(counts@[w].0@ != word@);
                }
                lemma_occ_absent(pre, word@);
            }
            counts.push((owned_word, 1));
            proof {
                let last = before.len() as int;
                assert(counts@[last].0@ == word@);
                assert forall|x: int, y: int| 0 <= x < y < counts.len() implies counts@[x].0@ != counts@[y].0@ by {
                    assert(counts@[x] == before[x]);
                    if y < last {
                        assert(counts@[y] == before[y]);
                    }
                }
                assert forall|b: int| 0 <= b < counts.len() implies #[trigger] counts@[b].1 == occ(post, counts@[b].0@) && counts@[b].1 > 0 by {
                    if b < last {
                        assert(counts@[b] == before[b]);
                    }
                }
                assert forall|k: int| 0 <= k < post.len() implies counted(counts@, #[trigger] post[k]) by {
                    if k < pre.len() {
                        assert(counted(before, pre[k]));
                        let w = choose|b: int| 0 <= b < before.len() && before[b].0@ == pre[k];
                        assert(counts@[w] == before[w]);
                    } else {
                        assert(counts@[last].0@ == post[k]);
                    }
                }
                assert forall|x: int, y: int| 0 <= x < y < counts.len() implies first_before(post, #[trigger] counts@[x].0@, #[trigger] counts@[y].0@) by {
                    assert(counts@[x] == before[x]);
                    if y < last {
                        assert(counts@[y] == before[y]);
                        assert(first_before(pre, before[x].0@, before[y].0@));
                        let w = choose|w: int| 0 <= w < pre.len() && pre[w] == before[x].0@ && forall|j: int| 0 <= j <= w ==> pre[j] != before[y].0@;
                        assert(post[w] == pre[w]);
                        assert forall|j: int| 0 <= j <= w implies post[j] != counts@[y].0@ by {
                            assert(post[j] == pre[j]);
                        }
                    } else {
                        // The new word first occurs last; every earlier word occurred before.
                        assert(before[x].1 > 0);
                        assert(occ(pre, before[x].0@) > 0);
                        if forall|j: int| 0 <= j < pre.len() ==> pre[j] != before[x].0@ {
                            lemma_occ_absent(pre, before[x].0@);
                        }
                        let w = choose|w: int| 0 <= w < pre.len() && pre[w] == before[x].0@;
                        assert(post[w] == pre[w]);
                        assert forall|j: int| 0 <= j <= w implies post[j] != counts@[y].0@ by {
                            assert(post[j] == pre[j]);
                        }
                    }
                }
            }
        }
        i += 1;
    }
    assert(all.take(ws.len() as int) =~= all);
    proof {
        lemma_owned_counts_views(counts@, all);
        law_counts_sum_to_words(owned_views(counts@), all);
    }
    counts
}

/// `r` counts the words `ws`, over views: one entry per distinct word, in
/// order of first occurrence, each with its number of occurrences.
pub open spec fn counts_views(r: Seq<(Seq<char>, usize)>, ws: Seq<Seq<char>>) -> bool {
    &&& forall|a: int, b: int| 0 <= a < b < r.len() ==> r[a].0 != r[b].0
    &&& forall|a: int| 0 <= a < r.len() ==> #[trigger] r[a].1 == occ(ws, r[a].0) && r[a].1 > 0
    &&& forall|i: int| 0 <= i < ws.len() ==> counted_view(r, #[trigger] ws[i])
    &&& forall|a: int, b: int|
        0 <= a < b < r.len() ==> first_before(ws, #[trigger] r[a].0, #[trigger] r[b].0)
}

/// Some entry of `r` is the word `w`.
pub open spec fn counted_view(r: Seq<(Seq<char>, usize)>, w: Seq<char>) -> bool {
    exists|a: int| 0 <= a < r.len() && r[a].0 == w
}

/// `r` counts the words `ws`, with keys that borrow the text.
pub open spec fn counts_borrowed(r: Seq<(&str, usize)>, ws: Seq<Seq<char>>) -> bool {
    counts_views(borrowed_views(r), ws)
}

/// The hash under which a word is indexed: FNV-1a of its UTF-8 bytes.
pub open spec fn word_hash(w: Seq<char>) -> u64 {
    fnv1a(encode_utf8(w))
}

/// `index` finds every entry of `keys` under the hash of its word, and holds
/// no position past the entries.
pub open spec fn indexed(index: Map<u64, Vec<usize>>, keys: Seq<(Seq<char>, usize)>) -> bool {
    &&& forall|a: int|
        0 <= a < keys.len() ==> index.contains_key(word_hash(#[trigger] keys[a].0))
            && index[word_hash(keys[a].0)]@.contains(a as usize)
    &&& forall|h: u64, j: int|
        index.contains_key(h) && 0 <= j < index[h]@.len() ==> #[trigger] index[h]@[j] < keys.len()
}

/// The position of `word` among the entries, found through the hash index.
fn find_word(entries: &Vec<(&str, usize)>, index: &HashMap<u64, Vec<usize>>, word: &str) -> (r: Option<usize>)
    requires
        indexed(index@, borrowed_views(entries@)),
    ensures
        match r {
            Some(a) => a < entries.len() && entries@[a as int].0@ == word@,
            None => forall|b: int| 0 <= b < entries.len() ==> entries@[b].0@ != word@,
        },
{
    let ghost keys = borrowed_views(entries@);
    let h = fingerprint(word);
    assert(h == word_hash(word@));
    match index.get(&h) {
        None => {
            proof {
                assert forall|b: int| 0 <= b < entries.len() implies entries@[b].0@ != word@ by {
                    assert(keys[b].0 == entries@[b].0@);
                    if entries@[b].0@ == word@ {
                        assert(index@.contains_key(word_hash(keys[b].0)));
                    }
                }
            }
            None
        },
        Some(bucket) => {
            let mut j: usize = 0;
            while j < bucket.len()
                invariant
                    j <= bucket.len(),
                    index@.contains_key(h),
                    bucket@ == index@[h]@,
                    keys == borrowed_views(entries@),
                    indexed(index@, keys),
                    forall|k: int| 0 <= k < j ==> entries@[bucket@[k] as int].0@ != word@,
                decreases bucket.len() - j,
            {
                let a = bucket[j];
                assert(index@[h]@[j as int] < keys.len());
                if crate::text::str_eq(entries[a].0, word) {
                    return Some(a);
                }
                j += 1;
            }
            proof {
                assert forall|b: int| 0 <= b < entries.len() implies entries@[b].0@ != word@ by {
                    assert(keys[b].0 == entries@[b].0@);
                    if entries@[b].0@ == word@ {
                        assert(index@[word_hash(keys[b].0)]@.contains(b as usize));
                        let k = choose|k: int| 0 <= k < bucket@.len() && bucket@[k] == b as usize;
                        assert(entries@[bucket@[k] as int].0@ != word@);
                    }
                }
            }
            None
        },
    }
}

/// Adding a new word at the end, and its position to the bucket of its
/// hash, keeps the index complete and within bounds.
proof fn lemma_index_push(
    idx0: Map<u64, Vec<usize>>,
    before: Seq<(Seq<char>, usize)>,
    word: Seq<char>,
    h: u64,
    nb: Vec<usize>,
    idx1: Map<u64, Vec<usize>>,
)
    requires
        indexed(idx0, before),
        h == word_hash(word),
        nb@ == (if idx0.contains_key(h) {
            idx0[h]@
        } else {
            Seq::<usize>::empty()
        }).push(before.len() as usize),
        idx1 == idx0.insert(h, nb),
        before.len() < usize::MAX,
    ensures
        indexed(idx1, before.push((word, 1usize))),
{
    let now = before.push((word, 1usize));
    let pos = before.len() as int;
    assert forall|x: int| 0 <= x < now.len() implies idx1.contains_key(word_hash(#[trigger] now[x].0))
        && idx1[word_hash(now[x].0)]@.contains(x as usize) by {
        if x < pos {
            assert(now[x] == before[x]);
            let hx = word_hash(before[x].0);
            assert(idx0[hx]@.contains(x as usize));
            let k = choose|k: int| 0 <= k < idx0[hx]@.len() && idx0[hx]@[k] == x as usize;
            if hx == h {
                assert(nb@[k] == x as usize);
            } else {
                assert(idx1[hx] == idx0[hx]);
            }
        } else {
            assert(nb@[nb@.len() - 1] == pos as usize);
        }
    }
    assert forall|hh: u64, j: int| idx1.contains_key(hh) && 0 <= j < idx1[hh]@.len() implies #[trigger] idx1[hh]@[j] < now.len() by {
        if hh == h {
            if j < nb@.len() - 1 {
                assert(idx0.contains_key(h));
                assert(nb@[j] == idx0[h]@[j]);
            }
        } else {
            assert(idx1[hh] == idx0[hh]);
        }
    }
}

/// Word counts whose words borrow the counted text: one entry per distinct
/// word, in order of first occurrence, found again through a hash index.
pub struct WordCounts<'a> {
    entries: Vec<(&'a str, usize)>,
    index: HashMap<u64, Vec<usize>>,
}

impl<'a> View for WordCounts<'a> {
    type V = Seq<(Seq<char>, usize)>;

    /// The words and their counts, in order of first occurrence.
    closed spec fn view(&self) -> Seq<(Seq<char>, usize)> {
        borrowed_views(self.entries@)
    }
}

impl<'a> WordCounts<'a> {
    #[verifier::type_invariant]
    spec fn inv(self) -> bool {
        &&& forall|a: int, b: int| 0 <= a < b < self@.len() ==> self@[a].0 != self@[b].0
        &&& indexed(self.index@, self@)
    }

    /// The number of distinct words.
    pub fn len(&self) -> (n: usize)
        ensures
            n == self@.len(),
    {
        self.entries.len()
    }

    /// No word at all.
    pub fn is_empty(&self) -> (b: bool)
        ensures
            b == (self@.len() == 0),
    {
        self.entries.len() == 0
    }

    /// The count of `word`, if it was counted.
    pub fn get(&self, word: &str) -> (r: Option<&usize>)
        ensures
            match r {
                Some(c) => exists|a: int| 0 <= a < self@.len() && self@[a].0 == word@ && *c == self@[a].1,
                None => forall|a: int| 0 <= a < self@.len() ==> self@[a].0 != word@,
            },
    {
        proof {
            use_type_invariant(self);
        }
        match find_word(&self.entries, &self.index, word) {
            Some(a) => {
                assert(self@[a as int] == (self.entries@[a as int].0@, self.entries@[a as int].1));
                Some(&self.entries[a].1)
            },
            None => {
                proof {
                    assert forall|a: int| 0 <= a < self@.len() implies self@[a].0 != word@ by {
                        assert(self@[a].0 == self.entries@[a].0@);
                    }
                }
                None
            },
        }
    }

    /// The words and their counts, in order of first occurrence.
    pub fn into_pairs(self) -> (v: Vec<(&'a str, usize)>)
        ensures
            borrowed_views(v@) == self@,
    {
        self.entries
    }
}

/// Counts words with a hash index and keys that borrow the input, so that
/// counting copies no text: one entry per distinct word, in order of first
/// occurrence, each with its number of occurrences.
pub fn word_count_fast(text: &str) -> (m: WordCounts<'_>)
    ensures
        counts_views(m@, words(text@)),
        count_sum(m@) == words(text@).len(),
{
    let ws = split_ws(text);
    let ghost all = str_views(ws@);
    let mut counts: Vec<(&str, usize)> = Vec::new();
    let mut index: HashMap<u64, Vec<usize>> = HashMap::with_capacity(text.len() / 8 + 1);
    let mut i: usize = 0;
    while i < ws.len()
        invariant
            i <= ws.len(),
            all == str_views(ws@),
            counts_borrowed(counts@, all.take(i as int)),
            indexed(index@, borrowed_views(counts@)),
            counts.len() <= i,
        decreases ws.len() - i,
    {
        let word = ws[i];
        let ghost pre = all.take(i as int);
        let ghost post = all.take(i + 1);
        proof {
            assert(post.drop_last() =~= pre);
            assert(post.last() == word@);
            assert forall|k: int| 0 <= k < pre.len() implies pre[k] == post[k] by {}
        }
        let found = find_word(&counts, &index, word);
        let hit = found.is_some();
        let a: usize = match found {
            Some(x) => x,
            None => 0,
        };
        let ghost before = borrowed_views(counts@);
        if hit {
            proof {
                lemma_occ_le_len(pre, word@);
                assert(before[a as int].1 == occ(pre, word@));
            }
            let n = counts[a].1 + 1;
            let key = counts[a].0;
            counts.set(a, (key, n));
            proof {
                let now = borrowed_views(counts@);
                assert forall|b: int| 0 <= b < now.len() implies #[trigger] now[b].0 == before[b].0 by {}
                assert(indexed(index@, now));
                assert(occ(post, word@) == occ(pre, word@) + 1);
                assert forall|b: int| 0 <= b < now.len() implies #[trigger] now[b].0 == before[b].0 by {}
                assert forall|x: int, y: int| 0 <= x < y < now.len() implies now[x].0 != now[y].0 by {
                    assert(now[x].0 == before[x].0);
                    assert(now[y].0 == before[y].0);
                }
                assert forall|b: int| 0 <= b < now.len() implies #[trigger] now[b].1 == occ(post, now[b].0) && now[b].1 > 0 by {
                    if b != a {
                        assert(now[b] == before[b]);
                    }
                }
                assert forall|k: int| 0 <= k < post.len() implies counted_view(now, #[trigger] post[k]) by {
                    if k < pre.len() {
                        assert(counted_view(before, pre[k]));
                        let w = choose|b: int| 0 <= b < before.len() && before[b].0 == pre[k];
                        assert(now[w].0 == before[w].0);
                    } else {
                        assert(now[a as int].0 == post[k]);
                    }
                }
                assert forall|x: int, y: int| 0 <= x < y < now.len() implies first_before(post, #[trigger] now[x].0, #[trigger] now[y].0) by {
                    assert(now[x].0 == before[x].0);
                    assert(now[y].0 == before[y].0);
                    assert(first_before(pre, before[x].0, before[y].0));
                    let w = choose|w: int| 0 <= w < pre.len() && pre[w] == before[x].0 && forall|j: int| 0 <= j <= w ==> pre[j] != before[y].0;
                    assert(post[w] == pre[w]);
                    assert forall|j: int| 0 <= j <= w implies post[j] != now[y].0 by {
                        assert(post[j] == pre[j]);
                    }
                }
            }
        } else {
            proof {
                assert forall|k: int| 0 <= k < pre.len() implies pre[k] != word@ by {
                    assert(counted_view(before, pre[k]));
                    let w = choose|b: int| 0 <= b < before.len() && before[b].0 == pre[k];
                    assert(counts@[w].0@ != word@);
                }
                lemma_occ_absent(pre, word@);
            }
            let pos = counts.len();
            let h = fingerprint(word);
            let ghost idx0 = index@;
            let mut bucket: Vec<usize> = match index.remove(&h) {
                Some(b) => b,
                None => Vec::new(),
            };
            let ghost idx_mid = index@;
            proof {
                assert(idx_mid == idx0.remove(h));
                assert(bucket@ == if idx0.contains_key(h) {
                    idx0[h]@
                } else {
                    Seq::<usize>::empty()
                });
            }
            bucket.push(pos);
            let ghost nb = bucket;
            index.insert(h, bucket);
            proof {
                assert(index@ =~= idx0.insert(h, nb));
            }
            counts.push((word, 1));
            proof {
                let now = borrowed_views(counts@);
                let last = before.len() as int;
                assert(now =~= before.push((word@, 1usize)));
                lemma_index_push(idx0, before, word@, h, nb, index@);
                assert(now[last].0 == word@);
                assert forall|x: int, y: int| 0 <= x < y < now.len() implies now[x].0 != now[y].0 by {
                    assert(now[x] == before[x]);
                    if y < last {
                        assert(now[y] == before[y]);
                    }
                }
                assert forall|b: int| 0 <= b < now.len() implies #[trigger] now[b].1 == occ(post, now[b].0) && now[b].1 > 0 by {
                    if b < last {
                        assert(now[b] == before[b]);
                    }
                }
                assert forall|k: int| 0 <= k < post.len() implies counted_view(now, #[trigger] post[k]) by {
                    if k < pre.len() {
                        assert(counted_view(before, pre[k]));
                        let w = choose|b: int| 0 <= b < before.len() && before[b].0 == pre[k];
                        assert(now[w] == before[w]);
                    } else {
                        assert(now[last].0 == post[k]);
                    }
                }
                assert forall|x: int, y: int| 0 <= x < y < now.len() implies first_before(post, #[trigger] now[x].0, #[trigger] now[y].0) by {
                    assert(now[x] == before[x]);
                    if y < last {
                        assert(now[y] == before[y]);
                        assert(first_before(pre, before[x].0, before[y].0));
                        let w = choose|w: int| 0 <= w < pre.len() && pre[w] == before[x].0 && forall|j: int| 0 <= j <= w ==> pre[j] != before[y].0;
                        assert(post[w] == pre[w]);
                        assert forall|j: int| 0 <= j <= w implies post[j] != now[y].0 by {
                            assert(post[j] == pre[j]);
                        }
                    } else {
                        assert(before[x].1 > 0);
                        assert(occ(pre, before[x].0) > 0);
                        if forall|j: int| 0 <= j < pre.len() ==> pre[j] != before[x].0 {
                            lemma_occ_absent(pre, before[x].0);
                        }
                        let w = choose|w: int| 0 <= w < pre.len() && pre[w] == before[x].0;
                        assert(post[w] == pre[w]);
                        assert forall|j: int| 0 <= j <= w implies post[j] != now[y].0 by {
                            assert(post[j] == pre[j]);
                        }
                    }
                }
            }
        }
        i += 1;
    }
    assert(all.take(ws.len() as int) =~= all);
    proof {
        law_counts_sum_to_words(borrowed_views(counts@), all);
    }
    WordCounts { entries: counts, index }
}

// ───────────────────────── canonical order ─────────────────────────

/// Lexicographic order on characters from position `i` on, by code point.
pub open spec fn lex_le_from(a: Seq<char>, b: Seq<char>, i: int) -> bool
    decreases a.len() - i,
{
    if i >= a.len() {
        true
    } else if i >= b.len() {
        false
    } else if a[i] < b[i] {
        true
    } else if a[i] > b[i] {
        false
    } else {
        lex_le_from(a, b, i + 1)
    }
}

/// Lexicographic order by code point, the order of `String`'s `Ord`.
pub open spec fn lex_le(a: Seq<char>, b: Seq<char>) -> bool {
    lex_le_from(a, b, 0)
}

/// The order of `(String, usize)`: by the string, then by the number.
pub open spec fn pair_le(p: (Seq<char>, usize), q: (Seq<char>, usize)) -> bool {
    if p.0 == q.0 {
        p.1 <= q.1
    } else {
        lex_le(p.0, q.0)
    }
}

pub(crate) proof fn lemma_lex_total(a: Seq<char>, b: Seq<char>, i: int)
    requires
        i >= 0,
    ensures
        lex_le_from(a, b, i) || lex_le_from(b, a, i),
    decreases a.len() - i,
{
    if i < a.len() && i < b.len() && a[i] == b[i] {
        lemma_lex_total(a, b, i + 1);
    }
}

pub(crate) proof fn lemma_lex_trans(a: Seq<char>, b: Seq<char>, c: Seq<char>, i: int)
    requires
        i >= 0,
        lex_le_from(a, b, i),
        lex_le_from(b, c, i),
    ensures
        lex_le_from(a, c, i),
    decreases a.len() - i,
{
    if i < a.len() && i < b.len() && i < c.len() && a[i] == b[i] && b[i] == c[i] {
        lemma_lex_trans(a, b, c, i + 1);
    }
}

proof fn lemma_lex_antisym(a: Seq<char>, b: Seq<char>, i: int)
    requires
        0 <= i <= a.len(),
        i <= b.len(),
        lex_le_from(a, b, i),
        lex_le_from(b, a, i),
    ensures
        a.subrange(i, a.len() as int) == b.subrange(i, b.len() as int),
    decreases a.len() - i,
{
    if i < a.len() {
        lemma_lex_antisym(a, b, i + 1);
        assert(a.subrange(i, a.len() as int) =~= seq![a[i]] + a.subrange(i + 1, a.len() as int));
        assert(b.subrange(i, b.len() as int) =~= seq![b[i]] + b.subrange(i + 1, b.len() as int));
    } else {
        assert(a.subrange(i, a.len() as int) =~= b.subrange(i, b.len() as int));
    }
}

/// `pair_le` is a total order: total, transitive and antisymmetric.
pub proof fn lemma_pair_le_order(p: (Seq<char>, usize), q: (Seq<char>, usize), r: (Seq<char>, usize))
    ensures
        pair_le(p, q) || pair_le(q, p),
        pair_le(p, q) && pair_le(q, r) ==> pair_le(p, r),
        pair_le(p, q) && pair_le(q, p) ==> p == q,
{
    lemma_lex_total(p.0, q.0, 0);
    if lex_le(p.0, q.0) && lex_le(q.0, p.0) {
        lemma_lex_antisym(p.0, q.0, 0);
        assert(p.0.subrange(0, p.0.len() as int) =~= p.0);
        assert(q.0.subrange(0, q.0.len() as int) =~= q.0);
    }
    if lex_le(p.0, q.0) && lex_le(q.0, r.0) {
        lemma_lex_trans(p.0, q.0, r.0, 0);
    }
    if lex_le(q.0, r.0) && lex_le(r.0, q.0) {
        lemma_lex_antisym(q.0, r.0, 0);
        assert(q.0.subrange(0, q.0.len() as int) =~= q.0);
        assert(r.0.subrange(0, r.0.len() as int) =~= r.0);
    }
    if lex_le(p.0, r.0) && lex_le(r.0, p.0) {
        lemma_lex_antisym(p.0, r.0, 0);
        assert(p.0.subrange(0, p.0.len() as int) =~= p.0);
        assert(r.0.subrange(0, r.0.len() as int) =~= r.0);
    }
    if lex_le(q.0, p.0) && lex_le(p.0, r.0) {
        lemma_lex_trans(q.0, p.0, r.0, 0);
    }
}

/// The views of owned pairs.
pub open spec fn owned_views(s: Seq<(String, usize)>) -> Seq<(Seq<char>, usize)> {
    s.map_values(|p: (String, usize)| (p.0@, p.1))
}

/// The views of borrowed pairs.
pub open spec fn borrowed_views(s: Seq<(&str, usize)>) -> Seq<(Seq<char>, usize)> {
    s.map_values(|p: (&str, usize)| (p.0@, p.1))
}

/// Sorted by `pair_le`.
pub open spec fn sorted_pairs(s: Seq<(Seq<char>, usize)>) -> bool {
    forall|i: int, j: int| 0 <= i < j < s.len() ==> pair_le(#[trigger] s[i], #[trigger] s[j])
}

pub(crate) fn lex_le_exec(a: &String, b: &String) -> (r: bool)
    ensures
        r == lex_le(a@, b@),
{
    let x = chars_of(a.as_str());
    let y = chars_of(b.as_str());
    let mut i: usize = 0;
    proof {
        reveal_with_fuel(lex_le_from, 1);
    }
    while i < x.len()
        invariant
            x@ == a@,
            y@ == b@,
            i <= x.len(),
            lex_le(a@, b@) == lex_le_from(a@, b@, i as int),
        decreases x.len() - i,
    {
        if i >= y.len() {
            return false;
        }
        if x[i] < y[i] {
            return true;
        }
        if x[i] > y[i] {
            return false;
        }
        i += 1;
    }
    true
}

fn pair_le_exec(p: &(String, usize), q: &(String, usize)) -> (r: bool)
    ensures
        r == pair_le((p.0@, p.1), (q.0@, q.1)),
{
    if p.0 == q.0 {
        p.1 <= q.1
    } else {
        lex_le_exec(&p.0, &q.0)
    }
}

/// Owned copies of the pairs, sorted by word and then by count, so that the
/// results of either counter compare equal.
pub fn canonicalize(pairs: Vec<(&str, usize)>) -> (r: Vec<(String, usize)>)
    ensures
        sorted_pairs(owned_views(r@)),
        owned_views(r@).to_multiset() == borrowed_views(pairs@).to_multiset(),
{
    let mut out: Vec<(String, usize)> = Vec::new();
    let mut i: usize = 0;
    assert(owned_views(out@) =~= Seq::<(Seq<char>, usize)>::empty());
    assert(borrowed_views(pairs@).take(0) =~= Seq::<(Seq<char>, usize)>::empty());
    while i < pairs.len()
        invariant
            i <= pairs.len(),
            sorted_pairs(owned_views(out@)),
            owned_views(out@).to_multiset() == borrowed_views(pairs@).take(i as int).to_multiset(),
        decreases pairs.len() - i,
    {
        let x: (String, usize) = (owned(pairs[i].0), pairs[i].1);
        let ghost xv = (x.0@, x.1);
        let mut p: usize = 0;
        while p < out.len()
            invariant_except_break
                p <= out.len(),
                xv == (x.0@, x.1),
                forall|j: int| 0 <= j < p ==> pair_le(#[trigger] owned_views(out@)[j], xv),
            ensures
                xv == (x.0@, x.1),
                p <= out.len(),
                forall|j: int| 0 <= j < p ==> pair_le(#[trigger] owned_views(out@)[j], xv),
                p < out.len() ==> !pair_le(owned_views(out@)[p as int], xv),
            decreases out.len() - p,
        {
            if !pair_le_exec(&out[p], &x) {
                break;
            }
            p += 1;
        }
        let ghost before = owned_views(out@);
        out.insert(p, x);
        proof {
            let after = owned_views(out@);
            assert(after =~= before.insert(p as int, xv));
            if p < before.len() {
                lemma_pair_le_order(before[p as int], xv, xv);
            }
            assert forall|a: int, b: int| 0 <= a < b < after.len() implies pair_le(#[trigger] after[a], #[trigger] after[b]) by {
                if b < p {
                } else if b == p {
                } else if a < p {
                    lemma_pair_le_order(before[a], xv, before[b - 1]);
                    if b - 1 > p {
                        lemma_pair_le_order(xv, before[p as int], before[b - 1]);
                    }
                } else if a == p {
                    if b - 1 > p {
                        lemma_pair_le_order(xv, before[p as int], before[b - 1]);
                    }
                } else {
                }
            }
            assert(borrowed_views(pairs@).take(i + 1) =~= borrowed_views(pairs@).take(i as int).push(xv));
            assert(borrowed_views(pairs@).take(i as int).push(xv) =~= borrowed_views(pairs@).take(i as int).insert(i as int, xv));
        }
        i += 1;
    }
    assert(borrowed_views(pairs@).take(pairs.len() as int) =~= borrowed_views(pairs@));
    out
}

proof fn lemma_first_before_asym(ws: Seq<Seq<char>>, u: Seq<char>, v: Seq<char>)
    ensures
        !(first_before(ws, u, v) && first_before(ws, v, u)),
{
    if first_before(ws, u, v) && first_before(ws, v, u) {
        let i = choose|i: int| 0 <= i < ws.len() && ws[i] == u && forall|j: int| 0 <= j <= i ==> ws[j] != v;
        let j = choose|j: int| 0 <= j < ws.len() && ws[j] == v && forall|k: int| 0 <= k <= j ==> ws[k] != u;
        if i <= j {
            assert(ws[i] != u);
        } else {
            assert(ws[j] != v);
        }
    }
}

/// Two counts of the same words, each with distinct words in order of first
/// occurrence and the same words, are the same sequence.
proof fn lemma_counts_unique(x: Seq<(Seq<char>, usize)>, y: Seq<(Seq<char>, usize)>, ws: Seq<Seq<char>>)
    requires
        forall|a: int, b: int| 0 <= a < b < x.len() ==> x[a].0 != x[b].0,
        forall|a: int, b: int| 0 <= a < b < y.len() ==> y[a].0 != y[b].0,
        forall|a: int, b: int| 0 <= a < b < x.len() ==> first_before(ws, #[trigger] x[a].0, #[trigger] x[b].0),
        forall|a: int, b: int| 0 <= a < b < y.len() ==> first_before(ws, #[trigger] y[a].0, #[trigger] y[b].0),
        forall|a: int| 0 <= a < x.len() ==> counted_view(y, #[trigger] x[a].0),
        forall|b: int| 0 <= b < y.len() ==> counted_view(x, #[trigger] y[b].0),
        forall|a: int| 0 <= a < x.len() ==> #[trigger] x[a].1 == occ(ws, x[a].0),
        forall|b: int| 0 <= b < y.len() ==> #[trigger] y[b].1 == occ(ws, y[b].0),
    ensures
        x == y,
    decreases x.len(),
{
    if x.len() == 0 {
        if y.len() > 0 {
            assert(counted_view(x, y[0].0));
        }
        assert(x =~= y);
    } else {
        assert(counted_view(y, x[0].0));
        assert(y.len() > 0);
        if x[0].0 != y[0].0 {
            let a = choose|a: int| 0 <= a < x.len() && x[a].0 == y[0].0;
            let b = choose|b: int| 0 <= b < y.len() && y[b].0 == x[0].0;
            assert(a > 0);
            assert(b > 0);
            assert(first_before(ws, x[0].0, x[a].0));
            assert(first_before(ws, y[0].0, y[b].0));
            lemma_first_before_asym(ws, x[0].0, y[0].0);
        }
        assert(x[0] == y[0]);
        let xs = x.drop_first();
        let ys = y.drop_first();
        assert forall|a: int| 0 <= a < xs.len() implies counted_view(ys, #[trigger] xs[a].0) by {
            assert(xs[a] == x[a + 1]);
            assert(counted_view(y, x[a + 1].0));
            let b = choose|b: int| 0 <= b < y.len() && y[b].0 == x[a + 1].0;
            assert(x[0].0 != x[a + 1].0);
            assert(b != 0);
            assert(ys[b - 1] == y[b]);
        }
        assert forall|b: int| 0 <= b < ys.len() implies counted_view(xs, #[trigger] ys[b].0) by {
            assert(ys[b] == y[b + 1]);
            assert(counted_view(x, y[b + 1].0));
            let a = choose|a: int| 0 <= a < x.len() && x[a].0 == y[b + 1].0;
            assert(y[0].0 != y[b + 1].0);
            assert(a != 0);
            assert(xs[a - 1] == x[a]);
        }
        assert forall|a: int, b: int| 0 <= a < b < xs.len() implies first_before(ws, #[trigger] xs[a].0, #[trigger] xs[b].0) by {
            assert(xs[a] == x[a + 1]);
            assert(xs[b] == x[b + 1]);
        }
        assert forall|a: int, b: int| 0 <= a < b < ys.len() implies first_before(ws, #[trigger] ys[a].0, #[trigger] ys[b].0) by {
            assert(ys[a] == y[a + 1]);
            assert(ys[b] == y[b + 1]);
        }
        lemma_counts_unique(xs, ys, ws);
        assert(x =~= seq![x[0]] + xs);
        assert(y =~= seq![y[0]] + ys);
    }
}

/// The naive and the fast counter agree: on the same words, the list that
/// the naive counter returns and the counts that the fast one returns hold
/// the same words with the same counts, in the same order.
pub proof fn law_naive_fast_agree(list: Seq<(String, usize)>, fast: Seq<(Seq<char>, usize)>, ws: Seq<Seq<char>>)
    requires
        counts_words(list, ws),
        counts_views(fast, ws),
    ensures
        owned_views(list) == fast,
{
    let x = owned_views(list);
    assert forall|a: int| 0 <= a < x.len() implies #[trigger] x[a] == (list[a].0@, list[a].1) by {}
    assert forall|a: int, b: int| 0 <= a < b < x.len() implies x[a].0 != x[b].0 by {
        assert(x[a] == (list[a].0@, list[a].1));
        assert(x[b] == (list[b].0@, list[b].1));
    }
    assert forall|a: int, b: int| 0 <= a < b < x.len() implies first_before(ws, #[trigger] x[a].0, #[trigger] x[b].0) by {
        assert(x[a] == (list[a].0@, list[a].1));
        assert(x[b] == (list[b].0@, list[b].1));
        assert(first_before(ws, list[a].0@, list[b].0@));
    }
    assert forall|a: int| 0 <= a < x.len() implies #[trigger] x[a].1 == occ(ws, x[a].0) by {
        assert(x[a] == (list[a].0@, list[a].1));
        assert(list[a].1 == occ(ws, list[a].0@));
    }
    assert forall|a: int| 0 <= a < x.len() implies counted_view(fast, #[trigger] x[a].0) by {
        assert(x[a] == (list[a].0@, list[a].1));
        assert(list[a].1 > 0);
        if forall|i: int| 0 <= i < ws.len() ==> ws[i] != list[a].0@ {
            lemma_occ_absent(ws, list[a].0@);
        }
        let i = choose|i: int| 0 <= i < ws.len() && ws[i] == list[a].0@;
        assert(counted_view(fast, ws[i]));
    }
    assert forall|b: int| 0 <= b < fast.len() implies counted_view(x, #[trigger] fast[b].0) by {
        assert(fast[b].1 > 0);
        if forall|i: int| 0 <= i < ws.len() ==> ws[i] != fast[b].0 {
            lemma_occ_absent(ws, fast[b].0);
        }
        let i = choose|i: int| 0 <= i < ws.len() && ws[i] == fast[b].0;
        assert(counted(list, ws[i]));
        let a = choose|a: int| 0 <= a < list.len() && list[a].0@ == ws[i];
        assert(x[a] == (list[a].0@, list[a].1));
    }
    lemma_counts_unique(x, fast, ws);
}

/// The sum of the counts.
pub open spec fn count_sum(r: Seq<(Seq<char>, usize)>) -> nat
    decreases r.len(),
{
    if r.len() == 0 {
        0
    } else {
        count_sum(r.drop_last()) + r.last().1 as nat
    }
}

/// The occurrences in `ws` of the words of `r`, added up.
spec fn sum_occ(r: Seq<(Seq<char>, usize)>, ws: Seq<Seq<char>>) -> nat
    decreases r.len(),
{
    if r.len() == 0 {
        0
    } else {
        sum_occ(r.drop_last(), ws) + occ(ws, r.last().0)
    }
}

/// How many entries of `r` carry the word `w`.
spec fn hits(r: Seq<(Seq<char>, usize)>, w: Seq<char>) -> nat
    decreases r.len(),
{
    if r.len() == 0 {
        0
    } else {
        hits(r.drop_last(), w) + if r.last().0 == w {
            1nat
        } else {
            0nat
        }
    }
}

proof fn lemma_sum_occ_empty(r: Seq<(Seq<char>, usize)>, ws: Seq<Seq<char>>)
    requires
        ws.len() == 0,
    ensures
        sum_occ(r, ws) == 0,
    decreases r.len(),
{
    if r.len() > 0 {
        lemma_sum_occ_empty(r.drop_last(), ws);
    }
}

proof fn lemma_sum_occ_step(r: Seq<(Seq<char>, usize)>, ws: Seq<Seq<char>>)
    requires
        ws.len() > 0,
    ensures
        sum_occ(r, ws) == sum_occ(r, ws.drop_last()) + hits(r, ws.last()),
    decreases r.len(),
{
    if r.len() > 0 {
        lemma_sum_occ_step(r.drop_last(), ws);
    }
}

proof fn lemma_hits_zero(r: Seq<(Seq<char>, usize)>, w: Seq<char>)
    requires
        forall|a: int| 0 <= a < r.len() ==> r[a].0 != w,
    ensures
        hits(r, w) == 0,
    decreases r.len(),
{
    if r.len() > 0 {
        lemma_hits_zero(r.drop_last(), w);
    }
}

proof fn lemma_hits_one(r: Seq<(Seq<char>, usize)>, w: Seq<char>)
    requires
        forall|a: int, b: int| 0 <= a < b < r.len() ==> r[a].0 != r[b].0,
        counted_view(r, w),
    ensures
        hits(r, w) == 1,
    decreases r.len(),
{
    let p = r.drop_last();
    if r.last().0 == w {
        assert forall|a: int| 0 <= a < p.len() implies p[a].0 != w by {
            assert(p[a] == r[a]);
        }
        lemma_hits_zero(p, w);
    } else {
        let a = choose|a: int| 0 <= a < r.len() && r[a].0 == w;
        assert(a < r.len() - 1);
        assert(p[a] == r[a]);
        lemma_hits_one(p, w);
    }
}

/// Where `r` has distinct words and holds every word of `ws`, the
/// occurrences of its words add up to the number of words.
proof fn lemma_sum_occ_len(r: Seq<(Seq<char>, usize)>, ws: Seq<Seq<char>>)
    requires
        forall|a: int, b: int| 0 <= a < b < r.len() ==> r[a].0 != r[b].0,
        forall|i: int| 0 <= i < ws.len() ==> counted_view(r, #[trigger] ws[i]),
    ensures
        sum_occ(r, ws) == ws.len(),
    decreases ws.len(),
{
    if ws.len() == 0 {
        lemma_sum_occ_empty(r, ws);
    } else {
        let p = ws.drop_last();
        assert forall|i: int| 0 <= i < p.len() implies counted_view(r, #[trigger] p[i]) by {
            assert(p[i] == ws[i]);
        }
        lemma_sum_occ_len(r, p);
        lemma_sum_occ_step(r, ws);
        assert(counted_view(r, ws[ws.len() - 1]));
        lemma_hits_one(r, ws.last());
    }
}

proof fn lemma_count_sum_is_sum_occ(r: Seq<(Seq<char>, usize)>, ws: Seq<Seq<char>>)
    requires
        forall|a: int| 0 <= a < r.len() ==> #[trigger] r[a].1 == occ(ws, r[a].0),
    ensures
        count_sum(r) == sum_occ(r, ws),
    decreases r.len(),
{
    if r.len() > 0 {
        let p = r.drop_last();
        assert forall|a: int| 0 <= a < p.len() implies #[trigger] p[a].1 == occ(ws, p[a].0) by {
            assert(p[a] == r[a]);
        }
        lemma_count_sum_is_sum_occ(p, ws);
        assert(r.last() == r[r.len() - 1]);
    }
}

/// The counts of a text's words add up to the number of words.
pub proof fn law_counts_sum_to_words(r: Seq<(Seq<char>, usize)>, ws: Seq<Seq<char>>)
    requires
        counts_views(r, ws),
    ensures
        count_sum(r) == ws.len(),
{
    lemma_count_sum_is_sum_occ(r, ws);
    lemma_sum_occ_len(r, ws);
}

/// The naive counter's list, taken by its views, counts the same words.
pub proof fn lemma_owned_counts_views(list: Seq<(String, usize)>, ws: Seq<Seq<char>>)
    requires
        counts_words(list, ws),
    ensures
        counts_views(owned_views(list), ws),
{
    let x = owned_views(list);
    assert forall|a: int| 0 <= a < x.len() implies #[trigger] x[a] == (list[a].0@, list[a].1) by {}
    assert forall|a: int, b: int| 0 <= a < b < x.len() implies x[a].0 != x[b].0 by {
        assert(x[a] == (list[a].0@, list[a].1));
        assert(x[b] == (list[b].0@, list[b].1));
    }
    assert forall|a: int| 0 <= a < x.len() implies #[trigger] x[a].1 == occ(ws, x[a].0) && x[a].1 > 0 by {
        assert(x[a] == (list[a].0@, list[a].1));
        assert(list[a].1 == occ(ws, list[a].0@));
    }
    assert forall|i: int| 0 <= i < ws.len() implies counted_view(x, #[trigger] ws[i]) by {
        assert(counted(list, ws[i]));
        let a = choose|a: int| 0 <= a < list.len() && list[a].0@ == ws[i];
        assert(x[a] == (list[a].0@, list[a].1));
    }
    assert forall|a: int, b: int| 0 <= a < b < x.len() implies first_before(ws, #[trigger] x[a].0, #[trigger] x[b].0) by {
        assert(x[a] == (list[a].0@, list[a].1));
        assert(x[b] == (list[b].0@, list[b].1));
        assert(first_before(ws, list[a].0@, list[b].0@));
    }
}

// ───────────────────────── sum of squares ─────────────────────────

/// The exact sum of the squares.
pub open spec fn sq_sum(s: Seq<u64>) -> nat
    decreases s.len(),
{
    if s.len() == 0 {
        0
    } else {
        sq_sum(s.drop_last()) + (s.last() * s.last()) as nat
    }
}

/// The sum of the squares modulo 2^64, which wrapping arithmetic computes.
pub open spec fn sq_sum_wrapped(s: Seq<u64>) -> u64 {
    (sq_sum(s) % 0x1_0000_0000_0000_0000) as u64
}

/// `x * x` modulo 2^64.
pub fn square_wrapping(x: u64) -> (r: u64)
    ensures
        r == (x * x) % 0x1_0000_0000_0000_0000,
{
    x.wrapping_mul(x)
}

/// `a + b` modulo 2^64.
pub fn add_wrapping(a: u64, b: u64) -> (r: u64)
    ensures
        r == (a + b) % 0x1_0000_0000_0000_0000,
{
    a.wrapping_add(b)
}

/// The sum of the squares, one element after another, wrapping on overflow.
pub fn sum_squares_sequential(values: &[u64]) -> (r: u64)
    ensures
        r == sq_sum_wrapped(values@),
{
    let mut acc: u64 = 0;
    let mut i: usize = 0;
    while i < values.len()
        invariant
            i <= values.len(),
            acc == sq_sum_wrapped(values@.take(i as int)),
        decreases values.len() - i,
    {
        let x = values[i];
        let sq = square_wrapping(x);
        let ghost prev = sq_sum(values@.take(i as int));
        proof {
            assert(values@.take(i + 1).drop_last() =~= values@.take(i as int));
            vstd::arithmetic::div_mod::lemma_add_mod_noop(
                prev as int,
                (x * x) as int,
                0x1_0000_0000_0000_0000int,
            );
        }
        acc = add_wrapping(acc, sq);
        i += 1;
    }
    assert(values@.take(values.len() as int) =~= values@);
    acc
}

/// rayon's parallel map and reduce: squares each element with
/// `square_wrapping` and joins the results with `add_wrapping` from `0`.
/// Addition modulo 2^64 is associative and commutative with identity `0`, so
/// whatever split rayon chooses the result is the wrapped sum of squares.
#[verifier::external_body]
fn rayon_sum_squares(values: &[u64]) -> (r: u64)
    ensures
        r == sq_sum_wrapped(values@),
{
    values.par_iter().map(|x| square_wrapping(*x)).reduce(|| 0u64, |a, b| add_wrapping(a, b))
}

/// The same sum of squares, computed by rayon across threads.
pub fn sum_squares_parallel(values: &[u64]) -> (r: u64)
    ensures
        r == sq_sum_wrapped(values@),
{
    rayon_sum_squares(values)
}

} // verus!
