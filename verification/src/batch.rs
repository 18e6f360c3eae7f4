//! Parallel orchestrator and error aggregator.
//!
//! A batch of items is fanned out over a worker pool; every outcome is
//! tagged with its input position.  Nothing is assumed of the order in
//! which the pool hands the tagged outcomes back: verified code sorts
//! them back into input order and reduces them, so the output order
//! always equals the input order, and a failed batch surfaces the error
//! of the lowest failing index.

use vstd::prelude::*;
use vstd::seq_lib::*;
use vstd::set_lib::*;

use rayon::iter::{IndexedParallelIterator, IntoParallelIterator, ParallelIterator};

use crate::errors::{err_view, outcome_view, ParserError, SpecError};
use crate::parsers::{item_outcome, parse_named};

verus! {

/// One unit of work: a byte buffer with an optional filename hint.
pub struct InputItem {
    pub bytes: Vec<u8>,
    pub filename: Option<String>,
}

/// The view of an optional filename.
pub open spec fn filename_view(f: Option<String>) -> Option<Seq<char>> {
    match f {
        Some(n) => Some(n@),
        None => None,
    }
}

/// What the pipeline returns for one item.
pub open spec fn outcome_of_item(item: InputItem) -> Result<Seq<char>, SpecError> {
    item_outcome(item.bytes@, filename_view(item.filename))
}

/// Sniffs, dispatches and extracts one item.
pub fn process_item(item: &InputItem) -> (r: Result<String, ParserError>)
    ensures
        outcome_view(r) == outcome_of_item(*item),
{
    match &item.filename {
        Some(n) => parse_named(item.bytes.as_slice(), Some(n.as_str())),
        None => parse_named(item.bytes.as_slice(), None),
    }
}

/// The outcomes of a batch, one per item, in input order.
pub open spec fn outcomes_of(items: Seq<InputItem>) -> Seq<Result<Seq<char>, SpecError>> {
    Seq::new(items.len(), |i: int| outcome_of_item(items[i]))
}

/// The first error by position.
pub open spec fn first_err(outs: Seq<Result<Seq<char>, SpecError>>) -> Option<SpecError>
    decreases outs.len(),
{
    if outs.len() == 0 {
        None
    } else {
        match outs[0] {
            Err(e) => Some(e),
            Ok(_) => first_err(outs.drop_first()),
        }
    }
}

/// The reduction of a batch's outcomes: every text in input order, or
/// the error of the lowest failing position.
pub open spec fn batch_reduce(outs: Seq<Result<Seq<char>, SpecError>>) -> Result<
    Seq<Seq<char>>,
    SpecError,
> {
    match first_err(outs) {
        Some(e) => Err(e),
        None => Ok(Seq::new(outs.len(), |i: int| outs[i]->Ok_0)),
    }
}

/// What batch processing returns for a sequence of items.
pub open spec fn batch_outcome(items: Seq<InputItem>) -> Result<Seq<Seq<char>>, SpecError> {
    batch_reduce(outcomes_of(items))
}

/// The model of a batch result.
pub open spec fn batch_view(r: Result<Vec<String>, ParserError>) -> Result<
    Seq<Seq<char>>,
    SpecError,
> {
    match r {
        Ok(v) => Ok(v.deep_view()),
        Err(e) => Err(err_view(e)),
    }
}

/// Relies on rayon's data-parallel map: the pool applies the closure,
/// which only calls `process_item`, to every item exactly once, each
/// tagged with its input position, and `collect` gathers one tagged
/// outcome per item.  Nothing is assumed of the order of the collected
/// pairs: the caller restores it.
#[verifier::external_body]
fn par_process(items: Vec<InputItem>) -> (r: Vec<(usize, Result<String, ParserError>)>)
    ensures
        r@.len() == items@.len(),
        forall|j: int| 0 <= j < r@.len() ==> (#[trigger] r@[j]).0 < items@.len(),
        forall|j: int, m: int| 0 <= j < m < r@.len() ==> r@[j].0 != r@[m].0,
        forall|j: int|
            0 <= j < r@.len() ==> outcome_view((#[trigger] r@[j]).1) == outcomes_of(
                items@,
            )[r@[j].0 as int],
{
    items.into_par_iter().enumerate().map(|(i, item)| (i, process_item(&item))).collect()
}

/// Among pairs tagged with distinct positions `lo..n`, every position
/// of that range is present.
proof fn lemma_index_present<T>(pairs: Seq<(usize, T)>, lo: int, n: int, k: int)
    requires
        pairs.len() == n - lo,
        0 <= lo <= k < n,
        forall|j: int| 0 <= j < pairs.len() ==> lo <= (#[trigger] pairs[j]).0 < n,
        forall|j: int, m: int| 0 <= j < m < pairs.len() ==> pairs[j].0 != pairs[m].0,
    ensures
        exists|j: int| 0 <= j < pairs.len() && (#[trigger] pairs[j]).0 == k,
{
    let idxs = Seq::new(pairs.len(), |j: int| pairs[j].0 as int);
    assert forall|j: int, m: int|
        (0 <= j < idxs.len() && 0 <= m < idxs.len() && j != m) implies idxs[j] != idxs[m] by {
        if j < m {
            assert(pairs[j].0 != pairs[m].0);
        } else {
            assert(pairs[m].0 != pairs[j].0);
        }
    }
    assert(idxs.no_duplicates());
    idxs.unique_seq_to_set();
    let s = idxs.to_set();
    let range = set_int_range(lo, n);
    lemma_int_range(lo, n);
    assert forall|x: int| s.contains(x) implies range.contains(x) by {
        assert(idxs.contains(x));
        let j = choose|j: int| 0 <= j < idxs.len() && idxs[j] == x;
        assert(lo <= pairs[j].0 < n);
    }
    assert(s.subset_of(range));
    lemma_subset_equality(s, range);
    assert(range.contains(k));
    assert(idxs.contains(k));
    let j = choose|j: int| 0 <= j < idxs.len() && idxs[j] == k;
    assert(pairs[j].0 == k);
}

proof fn lemma_first_err_at(outs: Seq<Result<Seq<char>, SpecError>>, i: int)
    requires
        0 <= i < outs.len(),
        forall|m: int| 0 <= m < i ==> outs[m] is Ok,
        outs[i] is Err,
    ensures
        first_err(outs) == Some(outs[i]->Err_0),
    decreases i,
{
    if i > 0 {
        lemma_first_err_at(outs.drop_first(), i - 1);
    }
}

proof fn lemma_first_err_none(outs: Seq<Result<Seq<char>, SpecError>>)
    requires
        forall|m: int| 0 <= m < outs.len() ==> outs[m] is Ok,
    ensures
        first_err(outs) is None,
    decreases outs.len(),
{
    if outs.len() > 0 {
        lemma_first_err_none(outs.drop_first());
    }
}

/// Processes a batch of items concurrently and consolidates the
/// outcomes: on success the texts in input order, otherwise the error
/// of the lowest failing index.
pub fn process_batch(items: Vec<InputItem>) -> (r: Result<Vec<String>, ParserError>)
    ensures
        batch_view(r) == batch_outcome(items@),
{
    let ghost items_g = items@;
    let ghost outs = outcomes_of(items_g);
    let n = items.len();
    let mut pairs = par_process(items);
    // restore input order: extract the pair of each position in turn
    let mut ordered: Vec<Result<String, ParserError>> = Vec::new();
    let mut k: usize = 0;
    while k < n
        invariant
            k <= n,
            outs == outcomes_of(items_g),
            outs.len() == n,
            pairs@.len() == n - k,
            ordered@.len() == k,
            forall|j: int| 0 <= j < pairs@.len() ==> k <= (#[trigger] pairs@[j]).0 < n,
            forall|j: int, m: int| 0 <= j < m < pairs@.len() ==> pairs@[j].0 != pairs@[m].0,
            forall|j: int|
                0 <= j < pairs@.len() ==> outcome_view((#[trigger] pairs@[j]).1)
                    == outs[pairs@[j].0 as int],
            forall|m: int| 0 <= m < k ==> outcome_view(#[trigger] ordered@[m]) == outs[m],
        decreases n - k,
    {
        proof {
            lemma_index_present(pairs@, k as int, n as int, k as int);
        }
        let plen = pairs.len();
        let mut j: usize = 0;
        while pairs[j].0 != k
            invariant
                j < plen,
                pairs@.len() == plen,
                forall|jj: int| 0 <= jj < j ==> (#[trigger] pairs@[jj]).0 != k,
                exists|j0: int| 0 <= j0 < pairs@.len() && (#[trigger] pairs@[j0]).0 == k,
            decreases pairs@.len() - j,
        {
            proof {
                let j0 = choose|j0: int|
                    0 <= j0 < pairs@.len() && (#[trigger] pairs@[j0]).0 == k;
                assert(j0 > j);
            }
            j = j + 1;
        }
        let pair = pairs.remove(j);
        proof {
            assert(outcome_view(pair.1) == outs[k as int]);
        }
        ordered.push(pair.1);
        k = k + 1;
    }
    let r = reduce_outcomes(ordered);
    proof {
        assert(Seq::new(n as nat, |i: int| outcome_view(ordered@[i])) =~= outs);
    }
    r
}

/// Reduces per-item outcomes, already in input order, into one batch
/// result: every text in input order, or the error of the lowest
/// failing index.  Callers that run an extraction step of their own
/// hand their ordered outcomes to this reduction.
pub fn reduce_outcomes(outcomes: Vec<Result<String, ParserError>>) -> (r: Result<
    Vec<String>,
    ParserError,
>)
    ensures
        batch_view(r) == batch_reduce(
            Seq::new(outcomes@.len(), |i: int| outcome_view(outcomes@[i])),
        ),
{
    let ghost outs = Seq::new(outcomes@.len(), |i: int| outcome_view(outcomes@[i]));
    let n = outcomes.len();
    let mut ordered = outcomes;
    // fail fast on the lowest failing index
    let mut texts: Vec<String> = Vec::new();
    let mut consumed: usize = 0;
    while ordered.len() > 0
        invariant
            n == outcomes@.len(),
            outs == Seq::new(n as nat, |i: int| outcome_view(outcomes@[i])),
            outs.len() == n,
            consumed + ordered@.len() == n,
            texts@.len() == consumed,
            forall|m: int|
                0 <= m < ordered@.len() ==> outcome_view(#[trigger] ordered@[m]) == outs[consumed
                    + m],
            forall|m: int| 0 <= m < consumed ==> outs[m] is Ok,
            forall|m: int| 0 <= m < consumed ==> (#[trigger] texts@[m])@ == outs[m]->Ok_0,
        decreases ordered@.len(),
    {
        proof {
            assert(outcome_view(ordered@[0]) == outs[consumed + 0]);
        }
        let o = ordered.remove(0);
        match o {
            Ok(t) => {
                texts.push(t);
                consumed = consumed + 1;
            },
            Err(e) => {
                proof {
                    lemma_first_err_at(outs, consumed as int);
                    assert(err_view(e) == outs[consumed as int]->Err_0);
                }
                return Err(e);
            },
        }
    }
    proof {
        lemma_first_err_none(outs);
        assert(texts.deep_view() =~= Seq::new(outs.len(), |i: int| outs[i]->Ok_0));
    }
    Ok(texts)
}

/// A collection of file buffers to be parsed together, without filename
/// hints.
pub struct InputFiles(Vec<Vec<u8>>);

/// What batch processing returns for plain buffers.
pub open spec fn files_outcome(files: Seq<Vec<u8>>) -> Result<Seq<Seq<char>>, SpecError> {
    batch_reduce(Seq::new(files.len(), |i: int| item_outcome(files[i]@, None)))
}

impl InputFiles {
    /// Wraps the buffers of a batch.
    pub fn new(data: Vec<Vec<u8>>) -> (r: InputFiles)
        ensures
            r@ == data@,
    {
        InputFiles(data)
    }

    /// The buffers held.
    pub closed spec fn view(&self) -> Seq<Vec<u8>> {
        self.0@
    }

    /// Parses the buffers in parallel: all texts in input order, or the
    /// error of the lowest failing index.
    pub fn parse(self) -> (r: Result<Vec<String>, ParserError>)
        ensures
            batch_view(r) == files_outcome(self@),
    {
        let ghost files = self.0@;
        let mut data = self.0;
        let mut items: Vec<InputItem> = Vec::new();
        while data.len() > 0
            invariant
                items@.len() + data@.len() == files.len(),
                forall|i: int|
                    0 <= i < items@.len() ==> (#[trigger] items@[i]).bytes@ == files[i]@
                        && items@[i].filename is None,
                forall|i: int| 0 <= i < data@.len() ==> data@[i] == files[items@.len() + i],
            decreases data@.len(),
        {
            let b = data.remove(0);
            items.push(InputItem { bytes: b, filename: None });
        }
        let r = process_batch(items);
        proof {
            assert(outcomes_of(items@) =~= Seq::new(
                files.len(),
                |i: int| item_outcome(files[i]@, None),
            ));
        }
        r
    }
}

/// Order preservation: when the batch succeeds, the text at position
/// `i` is the extraction outcome of input `i`, for every `i`, whatever
/// order the pool finished in.
pub proof fn lemma_order_preservation(items: Seq<InputItem>, i: int)
    requires
        batch_outcome(items) is Ok,
        0 <= i < items.len(),
    ensures
        batch_outcome(items)->Ok_0.len() == items.len(),
        batch_outcome(items)->Ok_0[i] == outcome_of_item(items[i])->Ok_0,
{
}

/// Fail-fast determinism: when the item at position `i` fails and every
/// earlier item succeeds, the batch surfaces exactly that error, never a
/// later one, whatever order the pool finished in.
pub proof fn lemma_fail_fast(items: Seq<InputItem>, i: int)
    requires
        0 <= i < items.len(),
        outcome_of_item(items[i]) is Err,
        forall|m: int| 0 <= m < i ==> outcome_of_item(items[m]) is Ok,
    ensures
        batch_outcome(items) == Err::<Seq<Seq<char>>, SpecError>(
            outcome_of_item(items[i])->Err_0,
        ),
{
    lemma_first_err_at(outcomes_of(items), i);
}

/// Idempotence: the batch outcome is a function of the items' bytes and
/// filenames alone, so two calls on equal inputs return equal results.
pub proof fn lemma_batch_idempotent(a: Seq<InputItem>, b: Seq<InputItem>)
    requires
        a.len() == b.len(),
        forall|i: int|
            0 <= i < a.len() ==> (#[trigger] a[i]).bytes@ == b[i].bytes@ && filename_view(
                a[i].filename,
            ) == filename_view(b[i].filename),
    ensures
        batch_outcome(a) == batch_outcome(b),
{
    assert(outcomes_of(a) =~= outcomes_of(b));
}

} // verus!
