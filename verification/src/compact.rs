//! Decode compaction: after the layer loop only the residual row of the last
//! token of each decode-eligible request feeds the logits projection. The
//! compaction plan names the device-to-device row copies that pack those rows
//! together, and the row range handed to the final norm.

use vstd::prelude::*;
use crate::batch::{row_offset, spec_seq_len, total_tokens, Request};

verus! {

/// Index of the first decode-eligible request at or after `i`; the batch
/// length when there is none.
pub open spec fn first_decode_from<Id>(rs: Seq<Request<Id>>, i: int) -> int
    decreases rs.len() - i,
{
    if i < 0 || i >= rs.len() {
        rs.len() as int
    } else if rs[i].decode {
        i
    } else {
        first_decode_from(rs, i + 1)
    }
}

/// Number of decode-eligible requests with index in `[a, b)`.
pub open spec fn decode_count_range<Id>(rs: Seq<Request<Id>>, a: int, b: int) -> nat
    decreases b - a,
{
    if a >= b {
        0
    } else {
        decode_count_range(rs, a, b - 1) + if 0 <= b - 1 < rs.len() && rs[b - 1].decode {
            1nat
        } else {
            0nat
        }
    }
}

/// Number of decode-eligible requests in the batch.
pub open spec fn decode_count<Id>(rs: Seq<Request<Id>>) -> nat {
    decode_count_range(rs, 0, rs.len() as int)
}

/// Counting over `[a, c)` splits at any `b` between.
pub proof fn lemma_decode_count_additive<Id>(rs: Seq<Request<Id>>, a: int, b: int, c: int)
    requires
        a <= b <= c,
    ensures
        decode_count_range(rs, a, c) == decode_count_range(rs, a, b) + decode_count_range(
            rs,
            b,
            c,
        ),
    decreases c - b,
{
    if b < c {
        lemma_decode_count_additive(rs, a, b, c - 1);
    }
}

/// A range without decode-eligible requests counts zero.
pub proof fn lemma_decode_count_zero<Id>(rs: Seq<Request<Id>>, a: int, b: int)
    requires
        forall|j: int| a <= j < b && 0 <= j < rs.len() ==> !(#[trigger] rs[j]).decode,
    ensures
        decode_count_range(rs, a, b) == 0,
    decreases b - a,
{
    if a < b {
        lemma_decode_count_zero(rs, a, b - 1);
    }
}

/// The indices of the decode-eligible requests among the first `i`, in
/// ascending order.
pub open spec fn decode_indices_spec<Id>(rs: Seq<Request<Id>>, i: int) -> Seq<usize>
    decreases i,
{
    if i <= 0 {
        Seq::empty()
    } else {
        let p = decode_indices_spec(rs, i - 1);
        if 0 <= i - 1 < rs.len() && rs[i - 1].decode {
            p.push((i - 1) as usize)
        } else {
            p
        }
    }
}

/// The spec index list counts exactly the decode-eligible requests.
pub proof fn lemma_decode_indices_len<Id>(rs: Seq<Request<Id>>, i: int)
    requires
        0 <= i <= rs.len(),
    ensures
        decode_indices_spec(rs, i).len() == decode_count_range(rs, 0, i),
    decreases i,
{
    if i > 0 {
        lemma_decode_indices_len(rs, i - 1);
    }
}

/// Collects the indices of the decode-eligible requests, in batch order.
/// The returned logits rows — and the sampled tokens — follow this order.
pub fn decode_indices<Id>(requests: &Vec<Request<Id>>) -> (r: Vec<usize>)
    ensures
        r@ == decode_indices_spec(requests@, requests@.len() as int),
        r@.len() == decode_count(requests@),
{
    let n = requests.len();
    let mut out: Vec<usize> = Vec::new();
    let mut i: usize = 0;
    while i < n
        invariant
            i <= n,
            n == requests@.len(),
            out@ == decode_indices_spec(requests@, i as int),
        decreases n - i,
    {
        if requests[i].decode {
            out.push(i);
        }
        i += 1;
    }
    proof {
        lemma_decode_indices_len(requests@, n as int);
    }
    out
}

/// The device-to-device row copies compaction issues while scanning the
/// requests after the first decode-eligible one, processing `rs[fd+1..i)`:
/// when request `j` decodes, its last row at `row_offset(j+1) - 1` moves down
/// to the next packed row, unless it is already there.
pub open spec fn copy_schedule<Id>(rs: Seq<Request<Id>>, fd: int, i: int) -> Seq<(usize, usize)>
    decreases i - fd,
{
    if i <= fd + 1 {
        Seq::empty()
    } else {
        let prev = copy_schedule(rs, fd, i - 1);
        let dst = row_offset(rs, fd) + spec_seq_len(rs[fd]) - 1 + decode_count_range(
            rs,
            fd + 1,
            i,
        );
        let src = row_offset(rs, i) - 1;
        if 0 <= i - 1 < rs.len() && rs[i - 1].decode && dst < src {
            prev.push((dst as usize, src as usize))
        } else {
            prev
        }
    }
}

/// `first_decode_from` lands on a decode-eligible request, past only
/// non-eligible ones.
pub proof fn lemma_first_decode_from<Id>(rs: Seq<Request<Id>>, i: int)
    requires
        0 <= i <= rs.len(),
    ensures
        i <= first_decode_from(rs, i) <= rs.len(),
        first_decode_from(rs, i) < rs.len() ==> rs[first_decode_from(rs, i)].decode,
        forall|j: int| i <= j < first_decode_from(rs, i) ==> !(#[trigger] rs[j]).decode,
    decreases rs.len() - i,
{
    if i < rs.len() && !rs[i].decode {
        lemma_first_decode_from(rs, i + 1);
    }
}

/// The rows after performing a copy list in order: each copy reads its source
/// from the state the earlier copies left.
pub open spec fn apply_copies<A>(x: Seq<A>, copies: Seq<(usize, usize)>) -> Seq<A>
    decreases copies.len(),
{
    if copies.len() == 0 {
        x
    } else {
        let y = apply_copies(x, copies.drop_last());
        let (dst, src) = copies.last();
        y.update(dst as int, y[src as int])
    }
}

/// Compaction places the decode rows (law), in its inductive form: after the
/// scan has processed requests `fd+1 .. i`, the rows past the write cursor
/// are untouched, and packed row `begin + k` holds the original last-token
/// row of the `k`-th decode-eligible request seen so far.
pub proof fn lemma_compaction_rows_upto<A, Id>(rs: Seq<Request<Id>>, x: Seq<A>, fd: int, i: int)
    requires
        x.len() == total_tokens(rs),
        total_tokens(rs) <= usize::MAX,
        rs.len() <= usize::MAX,
        0 <= fd < rs.len(),
        fd == first_decode_from(rs, 0),
        rs[fd].decode,
        forall|m: int| 0 <= m < rs.len() ==> spec_seq_len(#[trigger] rs[m]) >= 1,
        fd + 1 <= i <= rs.len(),
    ensures
        ({
            let y = apply_copies(x, copy_schedule(rs, fd, i));
            let begin = row_offset(rs, fd) + spec_seq_len(rs[fd]) - 1;
            let cursor = begin + decode_count_range(rs, fd + 1, i);
            &&& cursor <= row_offset(rs, i) - 1
            &&& y.len() == x.len()
            &&& (forall|m: int| cursor < m < x.len() ==> y[m] == x[m])
            &&& decode_indices_spec(rs, i).len() == 1 + decode_count_range(rs, fd + 1, i)
            &&& (forall|k: int| 0 <= k < decode_indices_spec(rs, i).len() ==> y[begin + k]
                == x[
                row_offset(rs, #[trigger] decode_indices_spec(rs, i)[k] as int) + spec_seq_len(
                    rs[decode_indices_spec(rs, i)[k] as int],
                ) - 1
            ])
        }),
    decreases i,
{
    let begin = row_offset(rs, fd) + spec_seq_len(rs[fd]) - 1;
    lemma_decode_indices_len(rs, i);
    lemma_decode_count_additive(rs, 0, fd, i);
    lemma_decode_count_additive(rs, fd, fd + 1, i);
    lemma_first_decode_from(rs, 0);
    lemma_decode_count_zero(rs, 0, fd);
    assert(decode_count_range(rs, fd, fd) == 0);
    assert(decode_count_range(rs, fd, fd + 1) == 1);
    crate::batch::lemma_row_offset_mono(rs, i, rs.len() as int);
    if i == fd + 1 {
        assert(copy_schedule(rs, fd, i) =~= Seq::<(usize, usize)>::empty());
        assert(apply_copies(x, copy_schedule(rs, fd, i)) == x);
        assert(decode_indices_spec(rs, i).len() == 1);
        assert(decode_indices_spec(rs, i)[0] == fd as usize);
    } else {
        lemma_compaction_rows_upto(rs, x, fd, i - 1);
        let j = i - 1;
        let prev = copy_schedule(rs, fd, i - 1);
        let yp = apply_copies(x, prev);
        let cursor_p = begin + decode_count_range(rs, fd + 1, i - 1);
        let src = row_offset(rs, i) - 1;
        assert(row_offset(rs, i) == row_offset(rs, i - 1) + spec_seq_len(rs[j]));
        if rs[j].decode {
            let cursor = cursor_p + 1;
            assert(decode_count_range(rs, fd + 1, i) == decode_count_range(rs, fd + 1, i - 1)
                + 1);
            assert(decode_indices_spec(rs, i) == decode_indices_spec(rs, i - 1).push(
                j as usize,
            ));
            assert(cursor_p <= row_offset(rs, i - 1) - 1);
            assert(cursor <= src);
            if cursor < src {
                assert(copy_schedule(rs, fd, i) == prev.push(
                    ((cursor) as usize, src as usize),
                ));
                let y = apply_copies(x, copy_schedule(rs, fd, i));
                assert(copy_schedule(rs, fd, i).drop_last() =~= prev);
                assert(y == yp.update(cursor, yp[src]));
                assert(yp[src] == x[src]);
                assert forall|k: int| 0 <= k < decode_indices_spec(rs, i).len() implies y[begin
                    + k] == x[
                    row_offset(rs, #[trigger] decode_indices_spec(rs, i)[k] as int)
                        + spec_seq_len(rs[decode_indices_spec(rs, i)[k] as int]) - 1
                ] by {
                    if k < decode_indices_spec(rs, i - 1).len() {
                        assert(decode_indices_spec(rs, i)[k] == decode_indices_spec(
                            rs,
                            i - 1,
                        )[k]);
                        assert(begin + k < cursor);
                        assert(y[begin + k] == yp[begin + k]);
                    } else {
                        assert(decode_indices_spec(rs, i)[k] == j as usize);
                        assert(begin + k == cursor);
                    }
                }
            } else {
                assert(copy_schedule(rs, fd, i) =~= prev);
                let y = apply_copies(x, copy_schedule(rs, fd, i));
                assert(y == yp);
                assert forall|k: int| 0 <= k < decode_indices_spec(rs, i).len() implies y[begin
                    + k] == x[
                    row_offset(rs, #[trigger] decode_indices_spec(rs, i)[k] as int)
                        + spec_seq_len(rs[decode_indices_spec(rs, i)[k] as int]) - 1
                ] by {
                    if k < decode_indices_spec(rs, i - 1).len() {
                        assert(decode_indices_spec(rs, i)[k] == decode_indices_spec(
                            rs,
                            i - 1,
                        )[k]);
                    } else {
                        assert(decode_indices_spec(rs, i)[k] == j as usize);
                        assert(begin + k == cursor);
                        assert(cursor == src);
                        assert(y[cursor] == x[src]);
                    }
                }
            }
        } else {
            assert(decode_count_range(rs, fd + 1, i) == decode_count_range(rs, fd + 1, i - 1));
            assert(decode_indices_spec(rs, i) == decode_indices_spec(rs, i - 1));
            assert(copy_schedule(rs, fd, i) =~= prev);
        }
    }
}

/// Compaction places the decode rows (law): performed on any residual rows,
/// the planned copies leave, for every `k`, the original last-token row of
/// the `k`-th decode-eligible request (in sorted order) at packed row
/// `begin + k`. The logits projection therefore reads exactly the decode
/// rows, in order.
pub proof fn lemma_compaction_places_decode_rows<A, Id>(rs: Seq<Request<Id>>, x: Seq<A>)
    requires
        x.len() == total_tokens(rs),
        total_tokens(rs) <= usize::MAX,
        rs.len() <= usize::MAX,
        first_decode_from(rs, 0) < rs.len(),
        forall|m: int| 0 <= m < rs.len() ==> spec_seq_len(#[trigger] rs[m]) >= 1,
    ensures
        ({
            let fd = first_decode_from(rs, 0);
            let begin = row_offset(rs, fd) + spec_seq_len(rs[fd]) - 1;
            let y = apply_copies(x, copy_schedule(rs, fd, rs.len() as int));
            &&& y.len() == x.len()
            &&& forall|k: int| 0 <= k < decode_count(rs) ==> y[begin + k] == x[
                row_offset(
                    rs,
                    #[trigger] decode_indices_spec(rs, rs.len() as int)[k] as int,
                ) + spec_seq_len(rs[decode_indices_spec(rs, rs.len() as int)[k] as int]) - 1
            ]
        }),
{
    let fd = first_decode_from(rs, 0);
    lemma_first_decode_from(rs, 0);
    lemma_compaction_rows_upto(rs, x, fd, rs.len() as int);
    lemma_decode_indices_len(rs, rs.len() as int);
}

/// The compaction of one batch: the packed rows live in `[begin, end)` of the
/// residual after the `copies` are performed in order.
pub struct CompactionPlan {
    pub begin: usize,
    pub end: usize,
    pub copies: Vec<(usize, usize)>,
}

/// Scans the sorted batch and plans the row compaction. Returns `None` when
/// no request decodes: the pass then ends without computing logits.
pub fn move_decode<Id>(requests: &Vec<Request<Id>>) -> (r: Option<CompactionPlan>)
    requires
        total_tokens(requests@) <= usize::MAX,
        forall|i: int| 0 <= i < requests@.len()
            ==> spec_seq_len(#[trigger] requests@[i]) >= 1,
    ensures
        r is None <==> first_decode_from(requests@, 0) == requests@.len(),
        r matches Some(p) ==> {
            let rs = requests@;
            let fd = first_decode_from(rs, 0);
            &&& 0 <= fd < rs.len()
            &&& rs[fd].decode
            &&& p.begin == row_offset(rs, fd) + spec_seq_len(rs[fd]) - 1
            &&& p.end == p.begin + 1 + decode_count_range(rs, fd + 1, rs.len() as int)
            &&& p.end - p.begin == decode_count(rs)
            &&& p.end <= total_tokens(rs)
            &&& p.copies@ == copy_schedule(rs, fd, rs.len() as int)
        },
{
    let ghost rs = requests@;
    let n = requests.len();
    let mut fd: usize = 0;
    let mut off: usize = 0;
    let mut found = false;
    while fd < n && !found
        invariant
            rs == requests@,
            fd <= n,
            n == rs.len(),
            total_tokens(rs) <= usize::MAX,
            off == row_offset(rs, fd as int),
            first_decode_from(rs, 0) == first_decode_from(rs, fd as int),
            forall|j: int| 0 <= j < fd ==> !(#[trigger] rs[j]).decode,
            found ==> fd < n && rs[fd as int].decode,
            !found && fd < n ==> first_decode_from(rs, 0) == first_decode_from(
                rs,
                fd as int,
            ),
        decreases n - fd, (if found { 0int } else { 1int }),
    {
        if requests[fd].decode {
            found = true;
        } else {
            proof {
                crate::batch::lemma_row_offset_mono(rs, fd as int + 1, n as int);
            }
            off = off + requests[fd].tokens.len();
            fd += 1;
        }
    }
    if !found {
        proof {
            assert(first_decode_from(rs, fd as int) == rs.len());
        }
        return None;
    }
    proof {
        assert(first_decode_from(rs, fd as int) == fd as int);
        crate::batch::lemma_row_offset_mono(rs, fd as int + 1, n as int);
        assert(row_offset(rs, fd as int + 1) == off + spec_seq_len(rs[fd as int]));
    }
    let sl0 = requests[fd].tokens.len();
    let begin = off + sl0 - 1;
    let mut src = begin;
    let mut dst = begin;
    let mut copies: Vec<(usize, usize)> = Vec::new();
    let mut i = fd + 1;
    while i < n
        invariant
            rs == requests@,
            fd < n,
            fd + 1 <= i <= n,
            n == rs.len(),
            total_tokens(rs) <= usize::MAX,
            rs[fd as int].decode,
            forall|j: int| 0 <= j < n ==> spec_seq_len(#[trigger] rs[j]) >= 1,
            begin == row_offset(rs, fd as int) + spec_seq_len(rs[fd as int]) - 1,
            src == row_offset(rs, i as int) - 1,
            dst == begin + decode_count_range(rs, fd as int + 1, i as int),
            dst <= src,
            copies@ == copy_schedule(rs, fd as int, i as int),
        decreases n - i,
    {
        let sl = requests[i].tokens.len();
        proof {
            crate::batch::lemma_row_offset_mono(rs, i as int + 1, n as int);
        }
        src = src + sl;
        if requests[i].decode {
            dst += 1;
            if dst < src {
                copies.push((dst, src));
            }
        }
        i += 1;
    }
    proof {
        lemma_decode_count_additive(rs, 0, fd as int, n as int);
        lemma_decode_count_additive(rs, fd as int, fd as int + 1, n as int);
        lemma_decode_count_zero(rs, 0, fd as int);
        crate::batch::lemma_row_offset_mono(rs, fd as int + 1, n as int);
        assert(decode_count_range(rs, fd as int, fd as int) == 0);
        assert(decode_count_range(rs, fd as int, fd as int + 1) == 1);
        assert(decode_count(rs) == 1 + decode_count_range(rs, fd as int + 1, n as int));
        assert(first_decode_from(rs, 0) == fd as int);
        assert(begin == row_offset(rs, fd as int) + spec_seq_len(rs[fd as int]) - 1);
        assert(dst + 1 == begin + 1 + decode_count_range(rs, fd as int + 1, rs.len() as int));
        assert(dst + 1 <= total_tokens(rs));
        assert(copies@ == copy_schedule(rs, fd as int, rs.len() as int));
    }
    Some(CompactionPlan { begin, end: dst + 1, copies })
}

} // verus!
