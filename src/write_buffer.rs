use vstd::prelude::*;

verus! {

/// A buffer that lays a message out over `NUM_BUFS` rows of `DATA_LEN` bytes,
/// leaving the first `PREFIX_LEN + 1` bytes of each row (a prefix and an
/// address byte) free. The cursor counts byte positions over all rows.
pub struct WriteBuffer<const DATA_LEN: usize, const NUM_BUFS: usize, const PREFIX_LEN: usize> {
    buffer: Vec<Vec<u8>>,
    cursor: usize,
}

/// The position after writing one byte at `c`: the next byte, skipping the
/// reserved head of the next row when a row is full.
pub open spec fn next_pos(c: int, data_len: int, prefix_len: int) -> int {
    if (c + 1) % data_len == 0 {
        c + 1 + prefix_len + 1
    } else {
        c + 1
    }
}

/// Rows and cursor after writing `data` from position `c`, one byte per free
/// position, until the data or the rows run out.
pub open spec fn append_spec(rows: Seq<Seq<u8>>, c: int, data: Seq<u8>, data_len: int, num_bufs: int, prefix_len: int) -> (Seq<Seq<u8>>, int)
    decreases data.len(),
{
    if data.len() == 0 || c >= data_len * num_bufs || data_len <= 0 || c < 0 {
        (rows, c)
    } else {
        append_spec(
            rows.update(c / data_len, rows[c / data_len].update(c % data_len, data[0])),
            next_pos(c, data_len, prefix_len),
            data.drop_first(),
            data_len,
            num_bufs,
            prefix_len,
        )
    }
}

impl<const DATA_LEN: usize, const NUM_BUFS: usize, const PREFIX_LEN: usize> WriteBuffer<DATA_LEN, NUM_BUFS, PREFIX_LEN> {
    /// The rows' contents.
    pub closed spec fn rows(&self) -> Seq<Seq<u8>> {
        self.buffer@.map_values(|v: Vec<u8>| v@)
    }

    /// The position of the next byte.
    pub closed spec fn cursor(&self) -> int {
        self.cursor as int
    }

    /// The layout limits: rows of `DATA_LEN` bytes with room after the
    /// reserved head, and positions that fit a `usize`.
    pub open spec fn limits() -> bool {
        &&& PREFIX_LEN + 1 < DATA_LEN
        &&& DATA_LEN * NUM_BUFS + PREFIX_LEN + 1 <= usize::MAX
    }

    /// The buffer has `NUM_BUFS` rows of `DATA_LEN` bytes and the cursor is
    /// never at the start of a row.
    pub open spec fn wf(&self) -> bool {
        &&& self.rows().len() == NUM_BUFS
        &&& forall|i: int| 0 <= i < NUM_BUFS ==> (#[trigger] self.rows()[i]).len() == DATA_LEN
        &&& self.cursor() % (DATA_LEN as int) != 0
        &&& self.cursor() <= DATA_LEN * NUM_BUFS + PREFIX_LEN + 1
    }

    /// A buffer over the given rows with the cursor just after the head of
    /// the first row.
    pub fn init_fields(buffer: Vec<Vec<u8>>) -> (r: Self)
        requires
            PREFIX_LEN < usize::MAX,
            buffer@.len() == NUM_BUFS,
            forall|i: int| 0 <= i < NUM_BUFS ==> (#[trigger] buffer@[i])@.len() == DATA_LEN,
        ensures
            Self::limits() ==> r.wf(),
            r.rows() == buffer@.map_values(|v: Vec<u8>| v@),
            r.cursor() == PREFIX_LEN + 1,
    {
        let r = WriteBuffer { buffer, cursor: 1 + PREFIX_LEN };
        if PREFIX_LEN + 1 < DATA_LEN {
            assert((PREFIX_LEN as int + 1) % (DATA_LEN as int) == PREFIX_LEN + 1) by (nonlinear_arith)
                requires PREFIX_LEN + 1 < DATA_LEN;
        }
        assert(0 <= DATA_LEN * NUM_BUFS) by (nonlinear_arith);
        r
    }

    /// Writes a fragment's bytes at the free positions from the cursor on; bytes
    /// beyond the last row are dropped.
    pub fn append(&mut self, fragment: &[u8])
        requires
            Self::limits(),
            old(self).wf(),
        ensures
            final(self).wf(),
            (final(self).rows(), final(self).cursor())
                == append_spec(old(self).rows(), old(self).cursor(), fragment@, DATA_LEN as int, NUM_BUFS as int, PREFIX_LEN as int),
    {
        let ghost target = append_spec(self.rows(), self.cursor(), fragment@, DATA_LEN as int, NUM_BUFS as int, PREFIX_LEN as int);
        let cap: usize = DATA_LEN * NUM_BUFS;
        let mut k: usize = 0;
        assert(fragment@.subrange(0, fragment@.len() as int) =~= fragment@);
        while k < fragment.len() && self.cursor < cap
            invariant
                Self::limits(),
                cap == DATA_LEN * NUM_BUFS,
                self.wf(),
                k <= fragment@.len(),
                append_spec(self.rows(), self.cursor(), fragment@.subrange(k as int, fragment@.len() as int), DATA_LEN as int, NUM_BUFS as int, PREFIX_LEN as int) == target,
            decreases fragment@.len() - k,
        {
            let c = self.cursor;
            let row: usize = c / DATA_LEN;
            let col: usize = c % DATA_LEN;
            assert(row < NUM_BUFS) by (nonlinear_arith)
                requires c < DATA_LEN * NUM_BUFS, row == c / DATA_LEN, DATA_LEN > 0;
            let ghost rows0 = self.rows();
            let ghost rest = fragment@.subrange(k as int, fragment@.len() as int);
            self.buffer[row].set(col, fragment[k]);
            let next: usize = if (c + 1) % DATA_LEN == 0 {
                c + 1 + PREFIX_LEN + 1
            } else {
                c + 1
            };
            self.cursor = next;
            proof {
                assert(self.rows() =~= rows0.update(row as int, rows0[row as int].update(col as int, rest[0])));
                assert(rest.drop_first() =~= fragment@.subrange(k + 1, fragment@.len() as int));
                if (c as int + 1) % (DATA_LEN as int) == 0 {
                    assert((c as int + 1 + PREFIX_LEN + 1) % (DATA_LEN as int) == PREFIX_LEN + 1) by (nonlinear_arith)
                        requires (c as int + 1) % (DATA_LEN as int) == 0, PREFIX_LEN + 1 < DATA_LEN;
                }
                assert(c + 1 <= DATA_LEN * NUM_BUFS) by (nonlinear_arith)
                    requires c < DATA_LEN * NUM_BUFS;
                assert forall|i: int| 0 <= i < NUM_BUFS implies (#[trigger] self.rows()[i]).len() == DATA_LEN by {
                    assert(rows0[i].len() == DATA_LEN);
                }
            }
            k = k + 1;
        }
        proof {
            let rest = fragment@.subrange(k as int, fragment@.len() as int);
            if k >= fragment@.len() {
                assert(rest.len() == 0);
            }
        }
    }

    /// The rows to transmit: as many as the cursor has reached, and always the
    /// last one, which ends the transfer.
    pub fn get_data(&self) -> (r: Vec<&Vec<u8>>)
        requires
            Self::limits(),
            self.wf(),
        ensures
            row_views(r@) == selected_rows(self.rows(), self.cursor() / (DATA_LEN as int) + 1, NUM_BUFS as int),
    {
        assert(self.cursor / DATA_LEN < usize::MAX) by (nonlinear_arith)
            requires DATA_LEN > 1, self.cursor <= usize::MAX;
        let take: usize = self.cursor / DATA_LEN + 1;
        let n = self.buffer.len();
        let first: usize = if take < n { take } else { n };
        let mut r: Vec<&Vec<u8>> = Vec::new();
        let mut i: usize = 0;
        while i < first
            invariant
                self.wf(),
                n == NUM_BUFS,
                self.buffer@.len() == n,
                first <= n,
                i <= first,
                r@.len() == i,
                row_views(r@) == self.rows().subrange(0, i as int),
            decreases first - i,
        {
            assert(self.rows()[i as int] == self.buffer@[i as int]@);
            let ghost prev = r@;
            r.push(&self.buffer[i]);
            proof {
                assert forall|j: int| 0 <= j < i + 1 implies #[trigger] row_views(r@)[j] == self.rows().subrange(0, i + 1)[j] by {
                    if j < i {
                        assert(r@[j] == prev[j]);
                        assert(row_views(prev)[j] == self.rows().subrange(0, i as int)[j]);
                    }
                }
            }
            i = i + 1;
            assert(row_views(r@) =~= self.rows().subrange(0, i as int));
        }
        if n > 0 && take < n {
            assert(self.rows()[n - 1] == self.buffer@[n - 1]@);
            r.push(&self.buffer[n - 1]);
            assert(row_views(r@) =~= self.rows().subrange(0, take as int) + seq![self.rows()[n - 1]]);
            if take == n - 1 {
                assert(self.rows().subrange(0, take as int) + seq![self.rows()[n - 1]] =~= self.rows());
            }
        } else {
            assert(self.rows().subrange(0, first as int) =~= self.rows());
        }
        r
    }
}

/// Builds write buffers of one layout.
pub trait WriteBufferInit<const DATA_LEN: usize, const NUM_BUFS: usize, const PREFIX_LEN: usize> {
    fn new() -> WriteBuffer<DATA_LEN, NUM_BUFS, PREFIX_LEN>;
}

/// The contents of borrowed rows.
pub open spec fn row_views(r: Seq<&Vec<u8>>) -> Seq<Seq<u8>> {
    r.map_values(|v: &Vec<u8>| v@)
}

/// The rows sent for a cursor that has reached `take` rows: the first `take`
/// rows and the last one.
pub open spec fn selected_rows(rows: Seq<Seq<u8>>, take: int, n: int) -> Seq<Seq<u8>> {
    if take >= n - 1 {
        rows
    } else {
        rows.subrange(0, take) + seq![rows[n - 1]]
    }
}

} // verus!
