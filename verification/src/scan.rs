//! Locating the fixed end-of-image marker in a byte stream.
//!
//! The marker is the 12-byte sequence that closes the host image's native
//! structure; the container format begins immediately after it.  The
//! scanner here works on a stream of chunks and must not miss a marker
//! whose bytes straddle the boundary between two consecutive chunks, so it
//! retains the trailing `MARKER_LEN - 1` bytes of everything fed so far and
//! prepends them to the next chunk before matching.

use vstd::prelude::*;

verus! {

/// Length in bytes of the end-of-image marker.
pub const MARKER_LEN: usize = 12;

/// The fixed end-of-image marker: a zero-length chunk header, the tag
/// `IEND`, and the tag's CRC, as the host image format writes it.
pub open spec fn spec_marker() -> Seq<u8> {
    seq![
        0x00u8, 0x00u8, 0x00u8, 0x00u8,
        0x49u8, 0x45u8, 0x4eu8, 0x44u8,
        0xaeu8, 0x42u8, 0x60u8, 0x82u8,
    ]
}

/// The marker bytes as a vector, for byte-by-byte comparison.
pub fn marker_bytes() -> (m: Vec<u8>)
    ensures
        m@ == spec_marker(),
{
    let mut m: Vec<u8> = Vec::new();
    m.push(0x00);
    m.push(0x00);
    m.push(0x00);
    m.push(0x00);
    m.push(0x49);
    m.push(0x45);
    m.push(0x4e);
    m.push(0x44);
    m.push(0xae);
    m.push(0x42);
    m.push(0x60);
    m.push(0x82);
    proof {
        assert(m@ =~= spec_marker());
    }
    m
}

/// True when the marker occupies `data[p .. p + MARKER_LEN]`.
pub open spec fn marker_at(data: Seq<u8>, p: int) -> bool {
    &&& 0 <= p
    &&& p + MARKER_LEN <= data.len()
    &&& data.subrange(p, p + MARKER_LEN) == spec_marker()
}

/// The position immediately after the first marker occurrence at or after
/// `p`, or `None` when no complete occurrence starts at or after `p`.
pub open spec fn spec_find_from(data: Seq<u8>, p: int) -> Option<int>
    recommends
        0 <= p,
    decreases data.len() - p,
{
    if p < 0 || p + MARKER_LEN > data.len() {
        None
    } else if marker_at(data, p) {
        Some(p + MARKER_LEN)
    } else {
        spec_find_from(data, p + 1)
    }
}

/// The position immediately after the first (lowest-offset) marker
/// occurrence in `data`, or `None` when the marker does not occur.
pub open spec fn spec_find_marker(data: Seq<u8>) -> Option<int> {
    spec_find_from(data, 0)
}

/// A successful search yields the earliest occurrence at or after `p`.
pub proof fn lemma_find_from_some(data: Seq<u8>, p: int, o: int)
    requires
        0 <= p,
        spec_find_from(data, p) == Some(o),
    ensures
        p + MARKER_LEN <= o <= data.len(),
        marker_at(data, o - MARKER_LEN),
        forall|q: int| p <= q < o - MARKER_LEN ==> !marker_at(data, q),
    decreases data.len() - p,
{
    if p + MARKER_LEN > data.len() {
    } else if marker_at(data, p) {
    } else {
        lemma_find_from_some(data, p + 1, o);
    }
}

/// A failed search means no occurrence starts at or after `p`.
pub proof fn lemma_find_from_none(data: Seq<u8>, p: int)
    requires
        0 <= p,
        spec_find_from(data, p) == None::<int>,
    ensures
        forall|q: int| q >= p ==> !marker_at(data, q),
    decreases data.len() - p,
{
    if p + MARKER_LEN > data.len() {
        assert forall|q: int| q >= p implies !marker_at(data, q) by {
            assert(q + MARKER_LEN > data.len());
        }
    } else if marker_at(data, p) {
    } else {
        lemma_find_from_none(data, p + 1);
    }
}

/// Converse of `lemma_find_from_some`: an occurrence with nothing earlier
/// pins the search result.
pub proof fn lemma_find_from_at(data: Seq<u8>, p: int, q: int)
    requires
        0 <= p <= q,
        marker_at(data, q),
        forall|r: int| p <= r < q ==> !marker_at(data, r),
    ensures
        spec_find_from(data, p) == Some(q + MARKER_LEN),
    decreases q - p,
{
    if p == q {
    } else {
        lemma_find_from_at(data, p + 1, q);
    }
}

/// Converse of `lemma_find_from_none`.
pub proof fn lemma_find_from_no_match(data: Seq<u8>, p: int)
    requires
        0 <= p,
        forall|q: int| q >= p ==> !marker_at(data, q),
    ensures
        spec_find_from(data, p) == None::<int>,
    decreases data.len() - p,
{
    if p + MARKER_LEN > data.len() {
    } else {
        lemma_find_from_no_match(data, p + 1);
    }
}

/// A marker occurrence that lies entirely inside a prefix is unaffected by
/// what follows the prefix.
pub proof fn lemma_marker_at_prefix(a: Seq<u8>, b: Seq<u8>, p: int)
    requires
        0 <= p,
        p + MARKER_LEN <= a.len(),
    ensures
        marker_at(a + b, p) == marker_at(a, p),
{
    assert((a + b).subrange(p, p + MARKER_LEN) =~= a.subrange(p, p + MARKER_LEN));
}

/// Appending bytes cannot change an already-found first occurrence.
pub proof fn lemma_find_extend_found(a: Seq<u8>, b: Seq<u8>, o: int)
    requires
        spec_find_marker(a) == Some(o),
    ensures
        spec_find_marker(a + b) == Some(o),
{
    lemma_find_from_some(a, 0, o);
    lemma_marker_at_prefix(a, b, o - MARKER_LEN);
    assert forall|r: int| 0 <= r < o - MARKER_LEN implies !marker_at(a + b, r) by {
        lemma_marker_at_prefix(a, b, r);
    }
    lemma_find_from_at(a + b, 0, o - MARKER_LEN);
}

/// Where the retained tail of the fed bytes begins: everything from this
/// position on could still take part in a match that completes later.
pub open spec fn carry_start(len: int) -> int {
    if len >= MARKER_LEN - 1 {
        len - (MARKER_LEN - 1)
    } else {
        0
    }
}

/// Incremental scanner for the end-of-image marker.
///
/// Bytes arrive in chunks of any size through [`MarkerScanner::feed`]; the
/// scanner behaves exactly as if the whole stream had been one contiguous
/// byte sequence, so a marker split across two chunks at any position is
/// still found.  Once found, the result is the stream position immediately
/// after the marker's last byte and never changes again.
pub struct MarkerScanner {
    carry: Vec<u8>,
    total: usize,
    found: Option<usize>,
    fed: Ghost<Seq<u8>>,
}

impl MarkerScanner {
    /// Every byte fed so far, in order.
    pub closed spec fn fed_bytes(self) -> Seq<u8> {
        self.fed@
    }

    /// What `result` returns.
    pub closed spec fn result_spec(self) -> Option<usize> {
        self.found
    }

    /// The recorded result, read against the whole fed stream.
    pub open spec fn result_agrees(self) -> bool {
        match self.result_spec() {
            Some(o) => spec_find_marker(self.fed_bytes()) == Some(o as int),
            None => spec_find_marker(self.fed_bytes()) == None::<int>,
        }
    }

    /// Internal consistency: the recorded result agrees with a search over
    /// the whole fed stream, and while nothing is found the carry holds
    /// exactly the bytes that could still open a straddling match.
    pub closed spec fn wf(self) -> bool {
        &&& self.total == self.fed@.len()
        &&& match self.found {
            Some(o) => spec_find_marker(self.fed@) == Some(o as int),
            None => {
                &&& spec_find_marker(self.fed@) == None::<int>
                &&& self.carry@ == self.fed@.subrange(
                    carry_start(self.fed@.len() as int),
                    self.fed@.len() as int,
                )
            },
        }
    }

    /// A scanner that has seen no bytes yet.
    pub fn new() -> (s: Self)
        ensures
            s.wf(),
            s.fed_bytes() == Seq::<u8>::empty(),
            s.result_spec() == None::<usize>,
            s.result_agrees(),
    {
        let s = MarkerScanner {
            carry: Vec::new(),
            total: 0,
            found: None,
            fed: Ghost(Seq::empty()),
        };
        proof {
            assert(s.carry@ =~= s.fed@.subrange(0, 0));
        }
        s
    }

    /// The stream position immediately after the first marker occurrence
    /// within the bytes fed so far, or `None` while no complete occurrence
    /// has appeared.
    pub fn result(&self) -> (r: Option<usize>)
        ensures
            r == self.result_spec(),
    {
        self.found
    }

    /// Feed the next chunk of the stream.
    pub fn feed(&mut self, chunk: &[u8])
        requires
            old(self).wf(),
            old(self).fed_bytes().len() + chunk@.len() <= usize::MAX,
        ensures
            final(self).wf(),
            final(self).fed_bytes() == old(self).fed_bytes() + chunk@,
            final(self).result_agrees(),
    {
        let ghost fed_old = self.fed@;
        let ghost fed_new = self.fed@ + chunk@;
        proof {
            self.fed@ = fed_new;
        }
        if self.found.is_some() {
            self.total = self.total + chunk.len();
            proof {
                let o = self.found.unwrap() as int;
                lemma_find_extend_found(fed_old, chunk@, o);
            }
            return;
        }

        // Positions before `base` were fully checked in earlier feeds.
        let ghost base = carry_start(fed_old.len() as int);
        proof {
            lemma_find_from_none(fed_old, 0);
            assert forall|q: int| 0 <= q < base implies !marker_at(fed_new, q) by {
                lemma_marker_at_prefix(fed_old, chunk@, q);
            }
        }

        let mut window: Vec<u8> = Vec::new();
        window.extend_from_slice(self.carry.as_slice());
        window.extend_from_slice(chunk);
        proof {
            assert(window@ =~= fed_new.subrange(base, fed_new.len() as int));
        }

        let m = marker_bytes();
        let n = window.len();
        let stop: usize = if n >= MARKER_LEN {
            n - MARKER_LEN + 1
        } else {
            0
        };
        let mut j: usize = 0;
        while j < stop && self.found.is_none()
            invariant
                n == window.len(),
                stop == if n >= MARKER_LEN { n - MARKER_LEN + 1 } else { 0 },
                j <= stop,
                self.total == fed_old.len(),
                self.carry@.len() <= MARKER_LEN - 1,
                self.carry@.len() <= fed_old.len(),
                base == carry_start(fed_old.len() as int),
                base == fed_old.len() - self.carry@.len(),
                fed_new == fed_old + chunk@,
                fed_new.len() <= usize::MAX,
                self.fed@ == fed_new,
                window@ == fed_new.subrange(base, fed_new.len() as int),
                m@ == spec_marker(),
                self.found.is_none() ==> forall|q: int| 0 <= q < base + j ==> !marker_at(fed_new, q),
                match self.found {
                    Some(o) => spec_find_marker(fed_new) == Some(o as int),
                    None => true,
                },
            decreases stop - j,
        {
            let is_match = window_match(&window, j, &m);
            proof {
                assert(fed_new.subrange(base + j, base + j + MARKER_LEN) =~= window@.subrange(
                    j as int,
                    j + MARKER_LEN,
                ));
            }
            if is_match {
                let after = self.total - self.carry.len() + j + MARKER_LEN;
                self.found = Some(after);
                proof {
                    assert(marker_at(fed_new, base + j));
                    lemma_find_from_at(fed_new, 0, base + j);
                }
            } else {
                proof {
                    assert(!marker_at(fed_new, base + j));
                }
            }
            j = j + 1;
        }

        self.total = self.total + chunk.len();

        if self.found.is_none() {
            proof {
                assert(j == stop);
                assert forall|q: int| q >= 0 implies !marker_at(fed_new, q) by {
                    if q + MARKER_LEN <= fed_new.len() {
                        assert(q < base + j);
                    }
                }
                lemma_find_from_no_match(fed_new, 0);
            }
            let keep: usize = if self.total >= MARKER_LEN - 1 {
                MARKER_LEN - 1
            } else {
                self.total
            };
            let sl = vstd::slice::slice_subrange(window.as_slice(), n - keep, n);
            self.carry = vstd::slice::slice_to_vec(sl);
            proof {
                assert(self.carry@ =~= fed_new.subrange(
                    carry_start(fed_new.len() as int),
                    fed_new.len() as int,
                ));
            }
        }
    }
}

/// How many bytes each scanning step hands to the scanner at once.  The
/// value only affects efficiency, never the result.
pub const BUFFER_SIZE: usize = 16384;

/// Scan `data` for the first marker occurrence, returning the position
/// immediately after its last byte.
///
/// The bytes are handed to a [`MarkerScanner`] in fixed-size chunks, as a
/// caller streaming a file from disk would do.
pub fn find_marker(data: &Vec<u8>) -> (r: Option<usize>)
    ensures
        match r {
            Some(o) => spec_find_marker(data@) == Some(o as int),
            None => spec_find_marker(data@) == None::<int>,
        },
{
    let len = data.len();
    let mut scanner = MarkerScanner::new();
    let mut i: usize = 0;
    while i < len
        invariant
            len == data@.len(),
            i <= len,
            scanner.wf(),
            scanner.result_agrees(),
            scanner.fed_bytes() == data@.subrange(0, i as int),
        decreases len - i,
    {
        let next = if len - i >= BUFFER_SIZE {
            i + BUFFER_SIZE
        } else {
            len
        };
        let chunk = vstd::slice::slice_subrange(data.as_slice(), i, next);
        scanner.feed(chunk);
        proof {
            assert(scanner.fed_bytes() =~= data@.subrange(0, next as int));
        }
        i = next;
    }
    proof {
        assert(scanner.fed_bytes() =~= data@);
    }
    scanner.result()
}

/// Compare `window[j .. j + MARKER_LEN]` against the marker bytes `m`.
fn window_match(window: &Vec<u8>, j: usize, m: &Vec<u8>) -> (r: bool)
    requires
        m@ == spec_marker(),
        j + MARKER_LEN <= window@.len(),
    ensures
        r == (window@.subrange(j as int, j + MARKER_LEN) == spec_marker()),
{
    let wlen = window.len();
    let mut i: usize = 0;
    while i < MARKER_LEN
        invariant
            i <= MARKER_LEN,
            m@ == spec_marker(),
            wlen == window@.len(),
            j + MARKER_LEN <= wlen,
            forall|k: int| 0 <= k < i ==> window@[j + k] == spec_marker()[k],
        decreases MARKER_LEN - i,
    {
        if window[j + i] != m[i] {
            proof {
                assert(window@.subrange(j as int, j + MARKER_LEN)[i as int] != spec_marker()[i as int]);
            }
            return false;
        }
        i = i + 1;
    }
    proof {
        assert(window@.subrange(j as int, j + MARKER_LEN) =~= spec_marker());
    }
    true
}

} // verus!
