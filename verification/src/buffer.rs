//! A fixed-capacity byte buffer written backward: the cursor `pos` starts at
//! the capacity and only decreases, so the finished text is always the byte
//! range `[pos, end)`. The buffer also carries the digit-pair lookup table
//! that the integer and float engines consult.

use crate::constants::MAX_BUF_LEN;
use vstd::prelude::*;
use vstd::string::StringSliceAdditionalSpecFns;
use vstd::utf8::{
    is_leading_byte_width_1, length_of_first_scalar, pop_first_scalar, valid_first_scalar,
    valid_utf8,
};

verus! {

/// The byte that the digit-pair table holds at offset `i`: entry `2*d` is the
/// tens digit of `d` and entry `2*d + 1` its ones digit, as ASCII.
pub open spec fn digit_table_spec(i: int) -> u8 {
    if i % 2 == 0 {
        (48 + (i / 2) / 10) as u8
    } else {
        (48 + (i / 2) % 10) as u8
    }
}

pub open spec fn digit_table_wf(t: Seq<u8>) -> bool {
    &&& t.len() == 200
    &&& forall|i: int| 0 <= i < 200 ==> t[i] == digit_table_spec(i)
}

/// Build the digit-pair table: the two ASCII bytes of every value 0..=99.
fn build_digit_table() -> (t: Vec<u8>)
    ensures
        digit_table_wf(t@),
{
    let mut t: Vec<u8> = Vec::new();
    let mut d: u8 = 0;
    while d < 100
        invariant
            d <= 100,
            t@.len() == 2 * d,
            forall|i: int| 0 <= i < 2 * d ==> t@[i] == digit_table_spec(i),
        decreases 100 - d,
    {
        t.push(48 + d / 10);
        t.push(48 + d % 10);
        assert((2 * d as int) % 2 == 0 && (2 * d as int) / 2 == d as int) by (nonlinear_arith);
        assert((2 * d as int + 1) % 2 == 1 && (2 * d as int + 1) / 2 == d as int)
            by (nonlinear_arith);
        d = d + 1;
    }
    t
}

/// Fixed-capacity backing store for one formatted number.
pub struct Buffer {
    pub inner: Vec<u8>,
    pub pos: usize,
    pub end: usize,
    pub table: Vec<u8>,
}

impl Buffer {
    /// Structural invariant: full backing storage, an in-range cursor, and a
    /// correct digit-pair table.
    pub open spec fn wf(&self) -> bool {
        &&& self.inner@.len() == MAX_BUF_LEN
        &&& self.pos <= self.end <= MAX_BUF_LEN
        &&& digit_table_wf(self.table@)
    }

    /// The finished bytes: the tail `[pos, end)` of the backing storage.
    pub open spec fn content(&self) -> Seq<u8> {
        self.inner@.subrange(self.pos as int, self.end as int)
    }

    pub fn new() -> (b: Buffer)
        ensures
            b.wf(),
            b.pos == MAX_BUF_LEN,
            b.end == MAX_BUF_LEN,
            b.content() =~= Seq::<u8>::empty(),
    {
        let mut inner: Vec<u8> = Vec::new();
        let mut i: usize = 0;
        while i < MAX_BUF_LEN
            invariant
                i <= MAX_BUF_LEN,
                inner@.len() == i,
            decreases MAX_BUF_LEN - i,
        {
            inner.push(0);
            i = i + 1;
        }
        Buffer { inner, pos: MAX_BUF_LEN, end: MAX_BUF_LEN, table: build_digit_table() }
    }

    /// Reset the cursor to the capacity, discarding any finished content.
    pub fn reset(&mut self)
        requires
            old(self).wf(),
        ensures
            final(self).wf(),
            final(self).pos == MAX_BUF_LEN,
            final(self).end == MAX_BUF_LEN,
            final(self).inner@ == old(self).inner@,
            final(self).table@ == old(self).table@,
            final(self).content() =~= Seq::<u8>::empty(),
    {
        self.pos = MAX_BUF_LEN;
        self.end = MAX_BUF_LEN;
    }

    pub fn capacity(&self) -> (r: usize)
        ensures
            r == MAX_BUF_LEN,
    {
        MAX_BUF_LEN
    }

    /// Length of the finished content.
    pub fn len(&self) -> (r: usize)
        requires
            self.wf(),
        ensures
            r == self.content().len(),
    {
        self.end - self.pos
    }

    /// The finished content as a byte slice.
    pub fn as_bytes(&self) -> (r: &[u8])
        requires
            self.wf(),
        ensures
            r@ == self.content(),
    {
        vstd::slice::slice_subrange(self.inner.as_slice(), self.pos, self.end)
    }

    /// The finished content as text. The engine only ever deposits valid
    /// UTF-8 (ASCII digits and whole policy strings); on any other content
    /// this returns the empty string.
    pub fn as_str(&self) -> (r: &str)
        requires
            self.wf(),
        ensures
            valid_utf8(self.content()) ==> r.spec_bytes() == self.content(),
    {
        bytes_to_str(self.as_bytes())
    }

    /// Store `b` at absolute offset `i` of the backing storage.
    pub(crate) fn set_byte(&mut self, i: usize, b: u8)
        requires
            old(self).wf(),
            i < MAX_BUF_LEN,
        ensures
            final(self).wf(),
            final(self).inner@ =~= old(self).inner@.update(i as int, b),
            final(self).pos == old(self).pos,
            final(self).end == old(self).end,
            final(self).table@ == old(self).table@,
    {
        self.inner[i] = b;
    }

    /// Overwrite `[from, to)` of the backing storage with ASCII zeros.
    pub(crate) fn fill_zeros(&mut self, from: usize, to: usize)
        requires
            old(self).wf(),
            from <= to <= MAX_BUF_LEN,
        ensures
            final(self).wf(),
            forall|j: int| from <= j < to ==> final(self).inner@[j] == 48u8,
            forall|j: int|
                0 <= j < MAX_BUF_LEN && !(from <= j < to) ==> final(self).inner@[j] == old(
                    self,
                ).inner@[j],
            final(self).pos == old(self).pos,
            final(self).end == old(self).end,
            final(self).table@ == old(self).table@,
    {
        let mut i: usize = from;
        while i < to
            invariant
                self.wf(),
                from <= i <= to <= MAX_BUF_LEN,
                forall|j: int| from <= j < i ==> self.inner@[j] == 48u8,
                forall|j: int|
                    0 <= j < MAX_BUF_LEN && !(from <= j < i) ==> self.inner@[j] == old(
                        self,
                    ).inner@[j],
                self.pos == old(self).pos,
                self.end == old(self).end,
                self.table@ == old(self).table@,
            decreases to - i,
        {
            self.set_byte(i, 48);
            i = i + 1;
        }
    }

    /// Copy `bytes` immediately below the cursor and pull the cursor down
    /// over them.
    pub(crate) fn prepend_bytes(&mut self, bytes: &[u8])
        requires
            old(self).wf(),
            bytes@.len() <= old(self).pos,
        ensures
            final(self).wf(),
            final(self).pos == old(self).pos - bytes@.len(),
            final(self).end == old(self).end,
            final(self).table@ == old(self).table@,
            final(self).content() =~= bytes@ + old(self).content(),
            forall|j: int|
                0 <= j < MAX_BUF_LEN && !(final(self).pos <= j < old(self).pos)
                    ==> final(self).inner@[j] == old(self).inner@[j],
    {
        let n: usize = bytes.len();
        let base: usize = self.pos - n;
        let mut k: usize = 0;
        while k < n
            invariant
                self.wf(),
                k <= n,
                n == bytes@.len(),
                base + n == old(self).pos <= self.end,
                forall|j: int| base <= j < base + k ==> self.inner@[j] == bytes@[j - base],
                forall|j: int|
                    0 <= j < MAX_BUF_LEN && !(base <= j < base + k) ==> self.inner@[j] == old(
                        self,
                    ).inner@[j],
                self.pos == old(self).pos,
                self.end == old(self).end,
                self.table@ == old(self).table@,
            decreases n - k,
        {
            let b = bytes[k];
            self.set_byte(base + k, b);
            k = k + 1;
        }
        self.pos = base;
        proof {
            assert(self.content() =~= bytes@ + old(self).content());
        }
    }

    /// Copy `bytes` into `[dst, dst + bytes.len())` of the backing storage,
    /// without moving the cursor.
    pub(crate) fn write_bytes_at(&mut self, dst: usize, bytes: &[u8])
        requires
            old(self).wf(),
            dst + bytes@.len() <= MAX_BUF_LEN,
        ensures
            final(self).wf(),
            final(self).pos == old(self).pos,
            final(self).end == old(self).end,
            final(self).table@ == old(self).table@,
            final(self).inner@.subrange(dst as int, dst + bytes@.len()) =~= bytes@,
            forall|j: int|
                0 <= j < MAX_BUF_LEN && !(dst <= j < dst + bytes@.len())
                    ==> final(self).inner@[j] == old(self).inner@[j],
    {
        let n: usize = bytes.len();
        let mut k: usize = 0;
        while k < n
            invariant
                self.wf(),
                k <= n,
                n == bytes@.len(),
                dst + n <= MAX_BUF_LEN,
                forall|j: int| dst <= j < dst + k ==> self.inner@[j] == bytes@[j - dst],
                forall|j: int|
                    0 <= j < MAX_BUF_LEN && !(dst <= j < dst + k) ==> self.inner@[j] == old(
                        self,
                    ).inner@[j],
                self.pos == old(self).pos,
                self.end == old(self).end,
                self.table@ == old(self).table@,
            decreases n - k,
        {
            let b = bytes[k];
            self.set_byte(dst + k, b);
            k = k + 1;
        }
        proof {
            assert(self.inner@.subrange(dst as int, dst + bytes@.len()) =~= bytes@);
        }
    }

    /// Read the digit-pair table at offset `i`.
    pub(crate) fn table_at(&self, i: usize) -> (r: u8)
        requires
            self.wf(),
            i < 200,
        ensures
            r == digit_table_spec(i as int),
    {
        self.table[i]
    }
}

impl Default for Buffer {
    fn default() -> (b: Buffer)
        ensures
            b.wf(),
            b.pos == MAX_BUF_LEN,
            b.end == MAX_BUF_LEN,
            b.content() =~= Seq::<u8>::empty(),
    {
        Buffer::new()
    }
}


/// A sequence of plain ASCII bytes is valid UTF-8.
pub proof fn lemma_ascii_seq_valid(s: Seq<u8>)
    requires
        forall|i: int| 0 <= i < s.len() ==> #[trigger] s[i] < 0x80,
    ensures
        valid_utf8(s),
    decreases s.len(),
{
    if s.len() > 0 {
        assert(is_leading_byte_width_1(s[0]));
        let b0: u8 = s[0];
        assert((b0 & 0x7F) <= 0x7f) by (bit_vector);
        assert(valid_first_scalar(s));
        assert(length_of_first_scalar(s) == 1);
        assert(pop_first_scalar(s) =~= s.skip(1));
        lemma_ascii_seq_valid(s.skip(1));
    }
}

/// Valid UTF-8 is closed under concatenation: the scalars of the left part
/// decode the same with more bytes behind them.
pub proof fn lemma_valid_utf8_concat(a: Seq<u8>, b: Seq<u8>)
    requires
        valid_utf8(a),
        valid_utf8(b),
    ensures
        valid_utf8(a + b),
    decreases a.len(),
{
    if a.len() == 0 {
        assert(a + b =~= b);
    } else {
        let ab = a + b;
        let w = length_of_first_scalar(a);
        assert(1 <= w <= a.len());
        assert(forall|i: int| 0 <= i < a.len() ==> ab[i] == a[i]);
        assert(length_of_first_scalar(ab) == w);
        assert(valid_first_scalar(ab));
        assert(pop_first_scalar(ab) =~= pop_first_scalar(a) + b);
        lemma_valid_utf8_concat(pop_first_scalar(a), b);
    }
}

/// Relies on core::str::from_utf8, which returns `Ok` exactly on UTF-8-valid
/// input and views the same bytes; any invalid content is mapped to "".
#[verifier::external_body]
fn bytes_to_str(bytes: &[u8]) -> (r: &str)
    ensures
        valid_utf8(bytes@) ==> r.spec_bytes() == bytes@,
{
    match core::str::from_utf8(bytes) {
        Ok(s) => s,
        Err(_) => "",
    }
}

} // verus!
