//! Request batch assembly: sorting, validation, and packing of the tokens
//! and positions of a heterogeneous batch into single device vectors.

use vstd::prelude::*;
use crate::{upos, utok, Error};
use crate::config::LlamaConfig;

verus! {

/// One inference request: its caller-chosen identifier, the tokens to ingest
/// this pass, the count of tokens already attended in prior turns, and
/// whether the request consumes an output token after this pass. The
/// request's per-layer KV-cache is named in the plan by the request's index
/// in the sorted batch.
pub struct Request<Id> {
    pub id: Id,
    pub tokens: Vec<utok>,
    pub pos: upos,
    pub decode: bool,
}

/// Number of tokens the request feeds into this pass.
pub open spec fn spec_seq_len<Id>(r: Request<Id>) -> nat {
    r.tokens@.len()
}

/// A request that feeds a single token: pure decoding, no prefill.
pub open spec fn spec_purely_decode<Id>(r: Request<Id>) -> bool {
    spec_seq_len(r) == 1
}

/// Positions this request attends over in each layer.
pub open spec fn spec_att_len<Id>(r: Request<Id>) -> nat {
    r.pos as nat + spec_seq_len(r)
}

impl<Id> Request<Id> {
    pub fn seq_len(&self) -> (r: usize)
        ensures
            r == spec_seq_len(*self),
    {
        self.tokens.len()
    }

    pub fn purely_decode(&self) -> (r: bool)
        ensures
            r == spec_purely_decode(*self),
    {
        self.tokens.len() == 1
    }
}

/// Row in the packed token axis where request `i`'s tokens begin: the sum of
/// the sequence lengths before it.
pub open spec fn row_offset<Id>(rs: Seq<Request<Id>>, i: int) -> nat
    decreases i,
{
    if i <= 0 {
        0
    } else {
        row_offset(rs, i - 1) + spec_seq_len(rs[i - 1])
    }
}

/// `NT`: the total token count of the batch.
pub open spec fn total_tokens<Id>(rs: Seq<Request<Id>>) -> nat {
    row_offset(rs, rs.len() as int)
}

/// Row offsets grow with the request index.
pub proof fn lemma_row_offset_mono<Id>(rs: Seq<Request<Id>>, i: int, j: int)
    requires
        0 <= i <= j,
    ensures
        row_offset(rs, i) <= row_offset(rs, j),
    decreases j - i,
{
    if i < j {
        lemma_row_offset_mono(rs, i, j - 1);
    }
}

/// Every packed row belongs to some request's slice.
pub proof fn lemma_row_cover<Id>(rs: Seq<Request<Id>>, k: int, t: int)
    requires
        0 <= k <= rs.len(),
        0 <= t < row_offset(rs, k),
    ensures
        exists|i: int|
            0 <= i < k && row_offset(rs, i) <= t < row_offset(rs, i) + spec_seq_len(
                #[trigger] rs[i],
            ),
    decreases k,
{
    if k > 0 {
        if t >= row_offset(rs, k - 1) {
            assert(row_offset(rs, k - 1) <= t < row_offset(rs, k - 1) + spec_seq_len(
                rs[k - 1],
            ));
        } else {
            lemma_row_cover(rs, k - 1, t);
        }
    }
}

/// A row offset only looks at the requests before it.
pub proof fn lemma_row_offset_unchanged<Id>(a: Seq<Request<Id>>, b: Seq<Request<Id>>, i: int)
    requires
        0 <= i <= a.len(),
        i <= b.len(),
        forall|j: int| 0 <= j < i ==> a[j] == b[j],
    ensures
        row_offset(a, i) == row_offset(b, i),
    decreases i,
{
    if i > 0 {
        lemma_row_offset_unchanged(a, b, i - 1);
    }
}

/// The prefill-bearing requests of a batch, in arrival order.
pub open spec fn prefill_part<Id>(rs: Seq<Request<Id>>) -> Seq<Request<Id>> {
    rs.filter(|x: Request<Id>| !spec_purely_decode(x))
}

/// The purely-decoding requests of a batch, in arrival order.
pub open spec fn decode_part<Id>(rs: Seq<Request<Id>>) -> Seq<Request<Id>> {
    rs.filter(|x: Request<Id>| spec_purely_decode(x))
}

/// The sorted order of a batch: requests that still ingest prompt tokens
/// first, purely-decoding requests last, each group in arrival order.
pub open spec fn sorted_batch<Id>(rs: Seq<Request<Id>>) -> Seq<Request<Id>> {
    prefill_part(rs) + decode_part(rs)
}

/// Sorting keeps every request: the two parts partition the batch.
pub proof fn lemma_sorted_batch_len<Id>(rs: Seq<Request<Id>>)
    ensures
        sorted_batch(rs).len() == rs.len(),
    decreases rs.len(),
{
    reveal_with_fuel(Seq::filter, 2);
    if rs.len() > 0 {
        lemma_sorted_batch_len(rs.drop_last());
    }
}

/// Appending one request adds its length to the total.
pub proof fn lemma_total_tokens_push<Id>(rs: Seq<Request<Id>>, x: Request<Id>)
    ensures
        total_tokens(rs.push(x)) == total_tokens(rs) + spec_seq_len(x),
{
    lemma_row_offset_unchanged(rs, rs.push(x), rs.len() as int);
    assert(rs.push(x)[rs.len() as int] == x);
}

/// Token totals add over concatenation.
pub proof fn lemma_total_tokens_add<Id>(a: Seq<Request<Id>>, b: Seq<Request<Id>>)
    ensures
        total_tokens(a + b) == total_tokens(a) + total_tokens(b),
    decreases b.len(),
{
    if b.len() == 0 {
        assert(a + b =~= a);
    } else {
        lemma_total_tokens_add(a, b.drop_last());
        assert(a + b =~= (a + b.drop_last()).push(b.last()));
        lemma_total_tokens_push(a + b.drop_last(), b.last());
        lemma_total_tokens_push(b.drop_last(), b.last());
        assert(b =~= b.drop_last().push(b.last()));
    }
}

/// Both parts of the sorted order keep every request non-empty.
pub proof fn lemma_parts_min_seq_len<Id>(rs: Seq<Request<Id>>)
    requires
        forall|i: int| 0 <= i < rs.len() ==> spec_seq_len(#[trigger] rs[i]) >= 1,
    ensures
        forall|i: int| 0 <= i < prefill_part(rs).len() ==> spec_seq_len(
            #[trigger] prefill_part(rs)[i],
        ) >= 1,
        forall|i: int| 0 <= i < decode_part(rs).len() ==> spec_seq_len(
            #[trigger] decode_part(rs)[i],
        ) >= 1,
    decreases rs.len(),
{
    reveal_with_fuel(Seq::filter, 2);
    if rs.len() > 0 {
        lemma_parts_min_seq_len(rs.drop_last());
        let x = rs.last();
        assert(spec_seq_len(x) >= 1);
        assert forall|i: int| 0 <= i < prefill_part(rs).len() implies spec_seq_len(
            #[trigger] prefill_part(rs)[i],
        ) >= 1 by {
            reveal_with_fuel(Seq::filter, 2);
            if spec_purely_decode(x) {
                assert(prefill_part(rs) == prefill_part(rs.drop_last()));
            } else {
                assert(prefill_part(rs) == prefill_part(rs.drop_last()).push(x));
            }
        }
        assert forall|i: int| 0 <= i < decode_part(rs).len() implies spec_seq_len(
            #[trigger] decode_part(rs)[i],
        ) >= 1 by {
            reveal_with_fuel(Seq::filter, 2);
            if spec_purely_decode(x) {
                assert(decode_part(rs) == decode_part(rs.drop_last()).push(x));
            } else {
                assert(decode_part(rs) == decode_part(rs.drop_last()));
            }
        }
    }
}

/// The sorted order keeps every request non-empty.
pub proof fn lemma_sorted_min_seq_len<Id>(rs: Seq<Request<Id>>)
    requires
        forall|i: int| 0 <= i < rs.len() ==> spec_seq_len(#[trigger] rs[i]) >= 1,
    ensures
        forall|i: int| 0 <= i < sorted_batch(rs).len() ==> spec_seq_len(
            #[trigger] sorted_batch(rs)[i],
        ) >= 1,
{
    lemma_parts_min_seq_len(rs);
    assert forall|i: int| 0 <= i < sorted_batch(rs).len() implies spec_seq_len(
        #[trigger] sorted_batch(rs)[i],
    ) >= 1 by {
        if i < prefill_part(rs).len() {
            assert(sorted_batch(rs)[i] == prefill_part(rs)[i]);
        } else {
            assert(sorted_batch(rs)[i] == decode_part(rs)[i - prefill_part(rs).len()]);
        }
    }
}

/// Sorting does not change the batch's total token count.
pub proof fn lemma_total_tokens_sorted<Id>(rs: Seq<Request<Id>>)
    ensures
        total_tokens(sorted_batch(rs)) == total_tokens(rs),
    decreases rs.len(),
{
    reveal_with_fuel(Seq::filter, 2);
    lemma_total_tokens_add(prefill_part(rs), decode_part(rs));
    if rs.len() > 0 {
        let x = rs.last();
        lemma_total_tokens_sorted(rs.drop_last());
        lemma_total_tokens_add(prefill_part(rs.drop_last()), decode_part(rs.drop_last()));
        if spec_purely_decode(x) {
            lemma_total_tokens_push(decode_part(rs.drop_last()), x);
        } else {
            lemma_total_tokens_push(prefill_part(rs.drop_last()), x);
        }
        lemma_total_tokens_push(rs.drop_last(), x);
        assert(rs =~= rs.drop_last().push(rs.last()));
        assert(total_tokens(rs.drop_last().push(x)) == total_tokens(rs));
    }
}

/// Sorts the batch: prefill-bearing requests first (in arrival order), then
/// purely-decoding requests (in arrival order). This keys the sort by
/// `purely_decode` ascending and keeps it stable.
pub fn sort_requests<Id>(requests: Vec<Request<Id>>) -> (r: Vec<Request<Id>>)
    ensures
        r@ == sorted_batch(requests@),
        r@.len() == requests@.len(),
{
    let ghost all = requests@;
    let n = requests.len();
    let mut rest = requests;
    let mut prefill: Vec<Request<Id>> = Vec::new();
    let mut dec: Vec<Request<Id>> = Vec::new();
    proof {
        reveal_with_fuel(Seq::filter, 2);
        assert(all.take(0) =~= Seq::<Request<Id>>::empty());
        assert(prefill_part(all.take(0)) =~= Seq::<Request<Id>>::empty());
        assert(decode_part(all.take(0)) =~= Seq::<Request<Id>>::empty());
    }
    let mut i: usize = 0;
    while i < n
        invariant
            i <= n,
            n == all.len(),
            rest@ == all.skip(i as int),
            prefill@ == prefill_part(all.take(i as int)),
            dec@ == decode_part(all.take(i as int)),
        decreases rest@.len(),
    {
        let ghost prefill0 = prefill@;
        let ghost dec0 = dec@;
        let x = rest.remove(0);
        proof {
            assert(x == all[i as int]);
            assert(rest@ =~= all.skip(i as int + 1));
            reveal_with_fuel(Seq::filter, 3);
            assert(all.take(i as int + 1).drop_last() =~= all.take(i as int));
            assert(all.take(i as int + 1).last() == x);
            assert(prefill_part(all.take(i as int + 1)) == if !spec_purely_decode(x) {
                prefill_part(all.take(i as int)).push(x)
            } else {
                prefill_part(all.take(i as int))
            });
            assert(decode_part(all.take(i as int + 1)) == if spec_purely_decode(x) {
                decode_part(all.take(i as int)).push(x)
            } else {
                decode_part(all.take(i as int))
            });
        }
        if x.tokens.len() == 1 {
            dec.push(x);
        } else {
            prefill.push(x);
        }
        i += 1;
    }
    proof {
        assert(all.take(all.len() as int) =~= all);
    }
    let mut out = prefill;
    while dec.len() > 0
        invariant
            out@ + dec@ == prefill_part(all) + decode_part(all),
        decreases dec@.len(),
    {
        let ghost out0 = out@;
        let ghost dec0 = dec@;
        let x = dec.remove(0);
        out.push(x);
        proof {
            assert(out@ + dec@ =~= out0 + dec0);
        }
    }
    proof {
        assert(out@ + dec@ =~= out@);
        lemma_sorted_batch_len(all);
    }
    out
}

/// Every token id of the batch is inside the vocabulary.
pub open spec fn tokens_in_range<Id>(rs: Seq<Request<Id>>, vocab: int) -> bool {
    forall|i: int, t: int|
        0 <= i < rs.len() && 0 <= t < rs[i].tokens@.len() ==> (#[trigger] rs[i].tokens@[t])
            < vocab
}

/// Every request attends within the model's maximum position count.
pub open spec fn positions_fit<Id>(rs: Seq<Request<Id>>, mp: int) -> bool {
    forall|i: int| 0 <= i < rs.len() ==> spec_att_len(#[trigger] rs[i]) <= mp
}

/// Rejects a batch the kernels cannot run: a token id at or above the
/// vocabulary size would fail the embedding gather, and a request whose
/// attended positions exceed `max_position_embeddings` would fail the fused
/// softmax's precondition.
pub fn validate_requests<Id>(requests: &Vec<Request<Id>>, cfg: &LlamaConfig) -> (r: Result<
    (),
    Error,
>)
    ensures
        r is Ok <==> (tokens_in_range(requests@, cfg.vocab_size as int) && positions_fit(
            requests@,
            cfg.max_position_embeddings as int,
        )),
        !tokens_in_range(requests@, cfg.vocab_size as int) ==> r == Result::<(), Error>::Err(
            Error::TokenOutOfRange,
        ),
        tokens_in_range(requests@, cfg.vocab_size as int) && !positions_fit(
            requests@,
            cfg.max_position_embeddings as int,
        ) ==> r == Result::<(), Error>::Err(Error::ShapeMismatch),
{
    let n = requests.len();
    let mut i: usize = 0;
    while i < n
        invariant
            i <= n,
            n == requests@.len(),
            forall|j: int, t: int|
                0 <= j < i && 0 <= t < requests@[j].tokens@.len()
                    ==> (#[trigger] requests@[j].tokens@[t]) < cfg.vocab_size,
        decreases n - i,
    {
        let req = &requests[i];
        let sl = req.tokens.len();
        let mut t: usize = 0;
        while t < sl
            invariant
                t <= sl,
                sl == req.tokens@.len(),
                req == requests@[i as int],
                i < requests@.len(),
                forall|u: int| 0 <= u < t ==> (#[trigger] req.tokens@[u]) < cfg.vocab_size,
            decreases sl - t,
        {
            if req.tokens[t] as usize >= cfg.vocab_size {
                return Err(Error::TokenOutOfRange);
            }
            t += 1;
        }
        i += 1;
    }
    let mut i: usize = 0;
    while i < n
        invariant
            i <= n,
            n == requests@.len(),
            tokens_in_range(requests@, cfg.vocab_size as int),
            forall|j: int| 0 <= j < i
                ==> spec_att_len(#[trigger] requests@[j]) <= cfg.max_position_embeddings,
        decreases n - i,
    {
        let req = &requests[i];
        let sl = req.tokens.len();
        let mp = cfg.max_position_embeddings;
        if sl > mp {
            proof {
                assert(!positions_fit(requests@, mp as int));
            }
            return Err(Error::ShapeMismatch);
        }
        if req.pos as usize > mp - sl {
            proof {
                assert(!positions_fit(requests@, mp as int));
            }
            return Err(Error::ShapeMismatch);
        }
        i += 1;
    }
    Ok(())
}

/// `NT`: sums the batch's sequence lengths.
pub fn total_token_count<Id>(requests: &Vec<Request<Id>>) -> (r: usize)
    requires
        total_tokens(requests@) <= usize::MAX,
    ensures
        r == total_tokens(requests@),
{
    let n = requests.len();
    let mut acc: usize = 0;
    let mut i: usize = 0;
    while i < n
        invariant
            i <= n,
            n == requests@.len(),
            total_tokens(requests@) <= usize::MAX,
            acc == row_offset(requests@, i as int),
        decreases n - i,
    {
        proof {
            lemma_row_offset_mono(requests@, i as int + 1, n as int);
        }
        acc = acc + requests[i].tokens.len();
        i += 1;
    }
    acc
}

/// The positions request `i` occupies in the packed position vector:
/// `[pos, pos + 1, …, pos + seq_len - 1]`.
pub open spec fn request_positions<Id>(r: Request<Id>) -> Seq<upos> {
    Seq::new(spec_seq_len(r), |t: int| (r.pos + t) as upos)
}

/// Builds the packed position vector: for each request of the batch, in
/// order, the absolute positions of its tokens.
#[verifier::rlimit(60)]
pub fn pos<Id>(requests: &Vec<Request<Id>>, nt: usize) -> (r: Vec<upos>)
    requires
        nt == total_tokens(requests@),
        forall|i: int| 0 <= i < requests@.len()
            ==> spec_att_len(#[trigger] requests@[i]) <= u32::MAX,
    ensures
        r@.len() == nt,
        forall|i: int| 0 <= i < requests@.len() ==> r@.subrange(
            row_offset(requests@, i) as int,
            row_offset(requests@, i + 1) as int,
        ) == request_positions(#[trigger] requests@[i]),
{
    let n = requests.len();
    let mut out: Vec<upos> = Vec::new();
    let mut i: usize = 0;
    while i < n
        invariant
            i <= n,
            n == requests@.len(),
            forall|j: int| 0 <= j < n
                ==> spec_att_len(#[trigger] requests@[j]) <= u32::MAX,
            out@.len() == row_offset(requests@, i as int),
            total_tokens(requests@) <= usize::MAX,
            nt == total_tokens(requests@),
            forall|j: int| 0 <= j < i ==> out@.subrange(
                row_offset(requests@, j) as int,
                row_offset(requests@, j + 1) as int,
            ) == request_positions(#[trigger] requests@[j]),
        decreases n - i,
    {
        let req = &requests[i];
        let sl = req.tokens.len();
        let ghost off = row_offset(requests@, i as int);
        let ghost out0 = out@;
        proof {
            lemma_row_offset_mono(requests@, i as int + 1, n as int);
        }
        let mut t: usize = 0;
        while t < sl
            invariant
                t <= sl,
                sl == req.tokens@.len(),
                req == requests@[i as int],
                i < requests@.len(),
                spec_att_len(requests@[i as int]) <= u32::MAX,
                out@.len() == off + t,
                off == out0.len(),
                out@.subrange(0, off as int) == out0,
                forall|u: int| 0 <= u < t ==> #[trigger] out@[off + u] == req.pos + u,
            decreases sl - t,
        {
            let ghost before = out@;
            out.push(req.pos + (t as u32));
            proof {
                assert(out@.subrange(0, off as int) =~= before.subrange(0, off as int));
            }
            t += 1;
        }
        proof {
            assert forall|m: int| 0 <= m < sl implies out@.subrange(
                off as int,
                (off + sl) as int,
            )[m] == request_positions(requests@[i as int])[m] by {
                assert(out@[off + m] == req.pos + m);
            }
            assert(out@.subrange(off as int, (off + sl) as int) =~= request_positions(
                requests@[i as int],
            ));
            assert forall|j: int| 0 <= j < i + 1 implies out@.subrange(
                row_offset(requests@, j) as int,
                row_offset(requests@, j + 1) as int,
            ) == request_positions(#[trigger] requests@[j]) by {
                if j < i {
                    lemma_row_offset_mono(requests@, 0, j);
                    lemma_row_offset_mono(requests@, j + 1, i as int);
                    assert(out@.subrange(
                        row_offset(requests@, j) as int,
                        row_offset(requests@, j + 1) as int,
                    ) =~= out0.subrange(
                        row_offset(requests@, j) as int,
                        row_offset(requests@, j + 1) as int,
                    ));
                }
            }
        }
        i += 1;
    }
    out
}

/// A packed vector whose per-request slices are the requests' token vectors
/// holds only in-vocabulary ids when the batch does.
#[verifier::rlimit(60)]
pub proof fn lemma_packed_tokens_in_range<Id>(rs: Seq<Request<Id>>, toks: Seq<utok>, vocab: int)
    requires
        tokens_in_range(rs, vocab),
        toks.len() == total_tokens(rs),
        forall|i: int| 0 <= i < rs.len() ==> toks.subrange(
            row_offset(rs, i) as int,
            row_offset(rs, i + 1) as int,
        ) == (#[trigger] rs[i]).tokens@,
    ensures
        forall|t: int| 0 <= t < toks.len() ==> (#[trigger] toks[t]) < vocab,
{
    assert forall|t: int| 0 <= t < toks.len() implies (#[trigger] toks[t]) < vocab by {
        lemma_row_cover(rs, rs.len() as int, t);
        let i = choose|i: int|
            0 <= i < rs.len() && row_offset(rs, i) <= t < row_offset(rs, i) + spec_seq_len(
                #[trigger] rs[i],
            );
        lemma_row_offset_mono(rs, i + 1, rs.len() as int);
        let sub = toks.subrange(row_offset(rs, i) as int, row_offset(rs, i + 1) as int);
        assert(sub == rs[i].tokens@);
        assert(sub[t - row_offset(rs, i)] == toks[t]);
    }
}

/// Builds the packed token vector: the batch's token sequences concatenated
/// in request order, for the embedding gather.
#[verifier::rlimit(60)]
pub fn packed_tokens<Id>(requests: &Vec<Request<Id>>, nt: usize) -> (r: Vec<utok>)
    requires
        nt == total_tokens(requests@),
    ensures
        r@.len() == nt,
        forall|i: int| 0 <= i < requests@.len() ==> r@.subrange(
            row_offset(requests@, i) as int,
            row_offset(requests@, i + 1) as int,
        ) == (#[trigger] requests@[i]).tokens@,
{
    let n = requests.len();
    let mut out: Vec<utok> = Vec::new();
    let mut i: usize = 0;
    while i < n
        invariant
            i <= n,
            n == requests@.len(),
            out@.len() == row_offset(requests@, i as int),
            total_tokens(requests@) <= usize::MAX,
            nt == total_tokens(requests@),
            forall|j: int| 0 <= j < i ==> out@.subrange(
                row_offset(requests@, j) as int,
                row_offset(requests@, j + 1) as int,
            ) == (#[trigger] requests@[j]).tokens@,
        decreases n - i,
    {
        let req = &requests[i];
        let sl = req.tokens.len();
        let ghost off = row_offset(requests@, i as int);
        let ghost out0 = out@;
        proof {
            lemma_row_offset_mono(requests@, i as int + 1, n as int);
        }
        let mut t: usize = 0;
        while t < sl
            invariant
                t <= sl,
                sl == req.tokens@.len(),
                req == requests@[i as int],
                i < requests@.len(),
                out@.len() == off + t,
                off == out0.len(),
                out@.subrange(0, off as int) == out0,
                forall|u: int| 0 <= u < t ==> out@[off + u] == req.tokens@[u],
            decreases sl - t,
        {
            let ghost before = out@;
            let tok = req.tokens[t];
            out.push(tok);
            proof {
                assert(out@.subrange(0, off as int) =~= before.subrange(0, off as int));
            }
            t += 1;
        }
        proof {
            assert(out@.subrange(off as int, (off + sl) as int) =~= requests@[i as int].tokens@);
            assert forall|j: int| 0 <= j < i + 1 implies out@.subrange(
                row_offset(requests@, j) as int,
                row_offset(requests@, j + 1) as int,
            ) == (#[trigger] requests@[j]).tokens@ by {
                if j < i {
                    lemma_row_offset_mono(requests@, 0, j);
                    lemma_row_offset_mono(requests@, j + 1, i as int);
                    assert(out@.subrange(
                        row_offset(requests@, j) as int,
                        row_offset(requests@, j + 1) as int,
                    ) =~= out0.subrange(
                        row_offset(requests@, j) as int,
                        row_offset(requests@, j + 1) as int,
                    ));
                }
            }
        }
        i += 1;
    }
    out
}

} // verus!
