//! A rebuild of the semantic index: the articles that are due, embedded batch
//! by batch.
use vstd::prelude::*;
use vstd::string::*;

use crate::semantic::{
    batch_end, check_vector_count, is_current, is_due, is_stale, next_batch_end,
    pending_embeddings, row_for, stored_row, vector_count_fault, EmbeddingInput, EmbeddingRow,
};
use crate::text::texts;

verus! {

/// A rebuild under way: the first `done` of the articles that are due are
/// embedded.
pub struct EmbeddingRun {
    pub pending: Vec<EmbeddingInput>,
    pub done: usize,
    pub batch_size: usize,
    pub model: String,
    pub provider: String,
}

/// What is embedded for some articles.
pub open spec fn input_texts(inputs: Seq<EmbeddingInput>) -> Seq<Seq<char>> {
    inputs.map_values(|i: EmbeddingInput| i.input@)
}

/// The rows that are stored for some articles, with the lengths of their vectors.
pub open spec fn are_stored(
    rows: Seq<EmbeddingRow>,
    inputs: Seq<EmbeddingInput>,
    dimensions: Seq<usize>,
    model: Seq<char>,
    provider: Seq<char>,
) -> bool {
    rows.len() == inputs.len() && forall|i: int|
        0 <= i < rows.len() ==> (#[trigger] rows[i]).record_sys_id == inputs[i].record_sys_id
            && rows[i].dimensions == dimensions[i] && is_current(
            rows[i],
            inputs[i],
            model,
            provider,
        )
}

impl EmbeddingRun {
    pub open spec fn well_formed(self) -> bool {
        self.done <= self.pending@.len()
    }

    /// The articles of the next batch.
    pub open spec fn next_batch(self) -> Seq<EmbeddingInput> {
        self.pending@.subrange(
            self.done as int,
            batch_end(self.done as int, self.pending@.len() as int, self.batch_size as int),
        )
    }

    /// Begins a rebuild, of all articles or of those that are due.
    pub fn start(
        full: bool,
        inputs: Vec<EmbeddingInput>,
        rows: &Vec<EmbeddingRow>,
        model: &str,
        provider: &str,
        batch_size: usize,
    ) -> (r: EmbeddingRun)
        ensures
            r.well_formed(),
            r.pending@ == inputs@.filter(is_due(full, rows@, model@, provider@)),
            r.done == 0,
            r.batch_size == batch_size,
            r.model@ == model@,
            r.provider@ == provider@,
    {
        EmbeddingRun {
            pending: pending_embeddings(full, inputs, rows, model, provider),
            done: 0,
            batch_size,
            model: model.to_owned(),
            provider: provider.to_owned(),
        }
    }

    /// The texts of the next batch, unless everything is embedded.
    pub fn batch(&self) -> (r: Option<Vec<String>>)
        requires
            self.well_formed(),
        ensures
            match r {
                Some(list) => self.done < self.pending@.len() && texts(list@) == input_texts(
                    self.next_batch(),
                ) && list@.len() > 0,
                None => self.done == self.pending@.len(),
            },
    {
        if self.done == self.pending.len() {
            return None;
        }
        let end: usize = next_batch_end(self.done, self.pending.len(), self.batch_size);
        let mut out: Vec<String> = Vec::new();
        let mut i: usize = self.done;
        while i < end
            invariant
                self.done <= i <= end <= self.pending@.len(),
                out@.len() == i - self.done,
                forall|k: int|
                    0 <= k < out@.len() ==> (#[trigger] out@[k])@ == self.pending@[self.done
                        + k].input@,
            decreases end - i,
        {
            out.push(self.pending[i].input.clone());
            i += 1;
        }
        assert(texts(out@) =~= input_texts(self.next_batch()));
        Some(out)
    }

    /// Takes in the vectors of the batch, of which only the lengths are told: one
    /// for each text. The rows to be stored come back.
    pub fn take(self, dimensions: &Vec<usize>) -> (r: Result<
        (EmbeddingRun, Vec<EmbeddingRow>),
        String,
    >)
        requires
            self.well_formed(),
        ensures
            match r {
                Ok((next, rows)) => {
                    &&& dimensions@.len() == self.next_batch().len()
                    &&& next.well_formed()
                    &&& next == (EmbeddingRun {
                        done: batch_end(
                            self.done as int,
                            self.pending@.len() as int,
                            self.batch_size as int,
                        ) as usize,
                        ..self
                    })
                    &&& are_stored(
                        rows@,
                        self.next_batch(),
                        dimensions@,
                        self.model@,
                        self.provider@,
                    )
                },
                Err(e) => dimensions@.len() != self.next_batch().len() && e@ == vector_count_fault(
                    dimensions@.len(),
                    self.next_batch().len(),
                ),
            },
    {
        let end: usize = next_batch_end(self.done, self.pending.len(), self.batch_size);
        let ghost batch = self.next_batch();
        assert(batch.len() == end - self.done);
        if let Err(e) = check_vector_count(dimensions.len(), end - self.done) {
            return Err(e);
        }
        let mut rows: Vec<EmbeddingRow> = Vec::new();
        let mut i: usize = self.done;
        while i < end
            invariant
                self.done <= i <= end <= self.pending@.len(),
                batch == self.pending@.subrange(self.done as int, end as int),
                dimensions@.len() == end - self.done,
                rows@.len() == i - self.done,
                forall|k: int|
                    0 <= k < rows@.len() ==> (#[trigger] rows@[k]).record_sys_id
                        == batch[k].record_sys_id && rows@[k].dimensions == dimensions@[k]
                        && is_current(rows@[k], batch[k], self.model@, self.provider@),
            decreases end - i,
        {
            assert(batch[i - self.done] == self.pending@[i as int]);
            rows.push(
                stored_row(
                    &self.pending[i],
                    self.model.as_str(),
                    self.provider.as_str(),
                    dimensions[i - self.done],
                ),
            );
            i += 1;
        }
        Ok(
            (
                EmbeddingRun {
                    pending: self.pending,
                    done: end,
                    batch_size: self.batch_size,
                    model: self.model,
                    provider: self.provider,
                },
                rows,
            ),
        )
    }

    /// How many articles were embedded.
    pub fn indexed_rows(&self) -> (r: usize)
        ensures
            r == self.done,
    {
        self.done
    }
}

/// Once the rows of a batch are in the store, none of its articles is due or
/// stale, whichever rows were there before. An article comes once in a batch.
pub proof fn batches_leave_nothing_due(
    before: Seq<EmbeddingRow>,
    rows: Seq<EmbeddingRow>,
    inputs: Seq<EmbeddingInput>,
    dimensions: Seq<usize>,
    model: Seq<char>,
    provider: Seq<char>,
    i: int,
)
    requires
        are_stored(rows, inputs, dimensions, model, provider),
        forall|j: int, k: int|
            0 <= j < k < inputs.len() ==> (#[trigger] inputs[j]).record_sys_id@ != (
            #[trigger] inputs[k]).record_sys_id@,
        0 <= i < inputs.len(),
    ensures
        !is_due(false, before + rows, model, provider)(inputs[i]),
        !is_stale(before + rows, inputs[i], model, provider),
{
    lemma_last_row(before, rows, inputs, i, rows.len() as int);
    assert(rows.subrange(0, rows.len() as int) =~= rows);
}

/// The rows of several batches, one batch behind the other.
pub open spec fn rows_of_batches(batches: Seq<Seq<EmbeddingRow>>) -> Seq<EmbeddingRow>
    decreases batches.len(),
{
    if batches.len() == 0 {
        Seq::empty()
    } else {
        rows_of_batches(batches.drop_last()) + batches.last()
    }
}

/// A rebuild from its beginning: `runs` before and after each batch, the rows that
/// each batch gave and the lengths of their vectors.
pub open spec fn batches_taken(
    runs: Seq<EmbeddingRun>,
    batches: Seq<Seq<EmbeddingRow>>,
    dimensions: Seq<Seq<usize>>,
) -> bool {
    &&& runs.len() == batches.len() + 1
    &&& runs[0].done == 0
    &&& forall|k: int|
        0 <= k < batches.len() ==> #[trigger] runs[k + 1] == (EmbeddingRun {
            done: batch_end(
                runs[k].done as int,
                runs[k].pending@.len() as int,
                runs[k].batch_size as int,
            ) as usize,
            ..runs[k]
        })
    &&& forall|k: int|
        0 <= k < batches.len() ==> are_stored(
            #[trigger] batches[k],
            runs[k].next_batch(),
            dimensions[k],
            runs[k].model@,
            runs[k].provider@,
        )
}

/// The rows of the batches are current for the articles that were embedded.
proof fn lemma_rows_of_batches(
    runs: Seq<EmbeddingRun>,
    batches: Seq<Seq<EmbeddingRow>>,
    dimensions: Seq<Seq<usize>>,
)
    requires
        batches_taken(runs, batches, dimensions),
    ensures
        runs.last().pending == runs[0].pending,
        runs.last().batch_size == runs[0].batch_size,
        runs.last().model == runs[0].model,
        runs.last().provider == runs[0].provider,
        runs.last().well_formed(),
        rows_of_batches(batches).len() == runs.last().done,
        forall|i: int|
            0 <= i < runs.last().done ==> (#[trigger] rows_of_batches(batches)[i]).record_sys_id
                == runs[0].pending@[i].record_sys_id && is_current(
                rows_of_batches(batches)[i],
                runs[0].pending@[i],
                runs[0].model@,
                runs[0].provider@,
            ),
    decreases batches.len(),
{
    if batches.len() > 0 {
        let n = batches.len() - 1;
        let front = batches.drop_last();
        let before = runs.drop_last();
        assert forall|k: int| 0 <= k < front.len() implies #[trigger] before[k + 1] == (
        EmbeddingRun {
            done: batch_end(
                before[k].done as int,
                before[k].pending@.len() as int,
                before[k].batch_size as int,
            ) as usize,
            ..before[k]
        }) by {
            assert(runs[k + 1] == before[k + 1]);
        }
        assert forall|k: int| 0 <= k < front.len() implies are_stored(
            #[trigger] front[k],
            before[k].next_batch(),
            dimensions[k],
            before[k].model@,
            before[k].provider@,
        ) by {
            assert(batches[k] == front[k]);
        }
        lemma_rows_of_batches(before, front, dimensions);
        let run = runs[n];
        assert(before.last() == run);
        assert(run.pending.len() == run.pending@.len());
        assert(batches[n].len() == run.next_batch().len());
        assert(runs[n + 1] == runs.last());
        assert(batches[n] == batches.last());
        let rows = rows_of_batches(batches);
        let old_rows = rows_of_batches(front);
        assert forall|i: int| 0 <= i < runs.last().done implies (#[trigger] rows[i]).record_sys_id
            == runs[0].pending@[i].record_sys_id && is_current(
            rows[i],
            runs[0].pending@[i],
            runs[0].model@,
            runs[0].provider@,
        ) by {
            if i < run.done {
                assert(rows[i] == old_rows[i]);
            } else {
                assert(rows[i] == batches[n][i - run.done]);
                assert(run.next_batch()[i - run.done] == run.pending@[i]);
            }
        }
    }
}

/// A rebuild that came to its end leaves nothing to do: a further one of the same
/// articles has no batch, unless it is asked to embed all of them again; then it
/// has them all. `kept` are the embeddings after the rebuild, which may have lost
/// those of other articles.
pub proof fn second_runs_have_nothing_to_do(
    full: bool,
    inputs: Seq<EmbeddingInput>,
    held: Seq<EmbeddingRow>,
    runs: Seq<EmbeddingRun>,
    batches: Seq<Seq<EmbeddingRow>>,
    dimensions: Seq<Seq<usize>>,
    kept: Seq<EmbeddingRow>,
    again: EmbeddingRun,
    anew: EmbeddingRun,
)
    requires
        forall|j: int, k: int|
            0 <= j < k < inputs.len() ==> (#[trigger] inputs[j]).record_sys_id@ != (
            #[trigger] inputs[k]).record_sys_id@,
        batches_taken(runs, batches, dimensions),
        runs[0].pending@ == inputs.filter(is_due(full, held, runs[0].model@, runs[0].provider@)),
        runs.last().done == runs.last().pending@.len(),
        forall|i: int|
            0 <= i < inputs.len() ==> row_for(kept, (#[trigger] inputs[i]).record_sys_id@)
                == row_for(held + rows_of_batches(batches), inputs[i].record_sys_id@),
        again.pending@ == inputs.filter(is_due(false, kept, runs[0].model@, runs[0].provider@)),
        again.done == 0,
        anew.pending@ == inputs.filter(is_due(true, kept, runs[0].model@, runs[0].provider@)),
        anew.done == 0,
    ensures
        again.pending@.len() == 0,
        again.done == again.pending@.len(),
        anew.pending@ == inputs,
{
    let model = runs[0].model@;
    let provider = runs[0].provider@;
    let due = is_due(full, held, model, provider);
    let pending = inputs.filter(due);
    let rows = rows_of_batches(batches);
    lemma_rows_of_batches(runs, batches, dimensions);
    crate::listing::lemma_filter_sound(inputs, due);
    lemma_filter_distinct(inputs, due);
    assert forall|i: int| 0 <= i < inputs.len() implies !is_due(false, kept, model, provider)(
        #[trigger] inputs[i],
    ) by {
        let id = inputs[i].record_sys_id@;
        if due(inputs[i]) {
            assert(inputs.contains(inputs[i]));
            crate::listing::lemma_filter_complete(inputs, due, inputs[i]);
            let k = choose|k: int| 0 <= k < pending.len() && pending[k] == inputs[i];
            assert(rows.subrange(0, rows.len() as int) =~= rows);
            lemma_last_row(held, rows, pending, k, rows.len() as int);
            assert(rows[k].record_sys_id == pending[k].record_sys_id);
        } else {
            assert forall|k: int| 0 <= k < rows.len() implies (#[trigger] rows[k]).record_sys_id@
                != id by {
                assert(rows[k].record_sys_id == pending[k].record_sys_id);
                assert(inputs.contains(pending[k]) && due(pending[k]));
                let m = choose|m: int| 0 <= m < inputs.len() && inputs[m] == pending[k];
                if m < i {
                    assert(inputs[m].record_sys_id@ != inputs[i].record_sys_id@);
                } else if i < m {
                    assert(inputs[i].record_sys_id@ != inputs[m].record_sys_id@);
                }
            }
            assert(rows.subrange(0, rows.len() as int) =~= rows);
            lemma_no_row(held, rows, id, rows.len() as int);
        }
    }
    lemma_filter_none(inputs, is_due(false, kept, model, provider));
    lemma_filter_all(inputs, is_due(true, kept, model, provider));
}

/// Articles that come once come once among those that are kept.
proof fn lemma_filter_distinct(
    inputs: Seq<EmbeddingInput>,
    keep: spec_fn(EmbeddingInput) -> bool,
)
    requires
        forall|j: int, k: int|
            0 <= j < k < inputs.len() ==> (#[trigger] inputs[j]).record_sys_id@ != (
            #[trigger] inputs[k]).record_sys_id@,
    ensures
        forall|j: int, k: int|
            0 <= j < k < inputs.filter(keep).len() ==> (#[trigger] inputs.filter(
                keep,
            )[j]).record_sys_id@ != (#[trigger] inputs.filter(keep)[k]).record_sys_id@,
    decreases inputs.len(),
{
    reveal(Seq::filter);
    if inputs.len() > 0 {
        let front = inputs.drop_last();
        lemma_filter_distinct(front, keep);
        crate::listing::lemma_filter_sound(front, keep);
        let kept = inputs.filter(keep);
        let old_kept = front.filter(keep);
        assert forall|j: int, k: int| 0 <= j < k < kept.len() implies (
        #[trigger] kept[j]).record_sys_id@ != (#[trigger] kept[k]).record_sys_id@ by {
            assert(kept[j] == old_kept[j]);
            if k < old_kept.len() {
                assert(kept[k] == old_kept[k]);
            } else {
                assert(front.contains(old_kept[j]));
                let m = choose|m: int| 0 <= m < front.len() && front[m] == old_kept[j];
                assert(inputs[m] == front[m]);
                assert(inputs[m].record_sys_id@ != inputs[inputs.len() - 1].record_sys_id@);
            }
        }
    }
}

proof fn lemma_filter_none(inputs: Seq<EmbeddingInput>, keep: spec_fn(EmbeddingInput) -> bool)
    requires
        forall|i: int| 0 <= i < inputs.len() ==> !keep(#[trigger] inputs[i]),
    ensures
        inputs.filter(keep).len() == 0,
    decreases inputs.len(),
{
    reveal(Seq::filter);
    if inputs.len() > 0 {
        assert forall|i: int| 0 <= i < inputs.drop_last().len() implies !keep(
            #[trigger] inputs.drop_last()[i],
        ) by {
            assert(!keep(inputs[i]));
        }
        lemma_filter_none(inputs.drop_last(), keep);
        assert(!keep(inputs[inputs.len() - 1]));
    }
}

proof fn lemma_filter_all(inputs: Seq<EmbeddingInput>, keep: spec_fn(EmbeddingInput) -> bool)
    requires
        forall|i: int| 0 <= i < inputs.len() ==> keep(#[trigger] inputs[i]),
    ensures
        inputs.filter(keep) == inputs,
    decreases inputs.len(),
{
    reveal(Seq::filter);
    if inputs.len() > 0 {
        assert forall|i: int| 0 <= i < inputs.drop_last().len() implies keep(
            #[trigger] inputs.drop_last()[i],
        ) by {
            assert(keep(inputs[i]));
        }
        lemma_filter_all(inputs.drop_last(), keep);
        assert(keep(inputs[inputs.len() - 1]));
        assert(inputs.drop_last().push(inputs.last()) =~= inputs);
    } else {
        assert(inputs.filter(keep) =~= inputs);
    }
}

/// Of rows that are stored behind others, the one of an article counts.
proof fn lemma_last_row(
    held: Seq<EmbeddingRow>,
    rows: Seq<EmbeddingRow>,
    inputs: Seq<EmbeddingInput>,
    i: int,
    n: int,
)
    requires
        0 <= i < n <= rows.len(),
        rows.len() == inputs.len(),
        forall|k: int|
            0 <= k < rows.len() ==> (#[trigger] rows[k]).record_sys_id == inputs[k].record_sys_id,
        forall|j: int, k: int|
            0 <= j < k < inputs.len() ==> (#[trigger] inputs[j]).record_sys_id@ != (
            #[trigger] inputs[k]).record_sys_id@,
    ensures
        row_for(held + rows.subrange(0, n), inputs[i].record_sys_id@) == Some(rows[i]),
    decreases n,
{
    let all = held + rows.subrange(0, n);
    assert(all.last() == rows[n - 1]);
    assert(all.drop_last() =~= held + rows.subrange(0, n - 1));
    if i < n - 1 {
        assert(inputs[i].record_sys_id@ != inputs[n - 1].record_sys_id@);
        lemma_last_row(held, rows, inputs, i, n - 1);
    }
}

/// Rows of other articles change nothing for an article.
proof fn lemma_no_row(held: Seq<EmbeddingRow>, rows: Seq<EmbeddingRow>, id: Seq<char>, n: int)
    requires
        0 <= n <= rows.len(),
        forall|k: int| 0 <= k < rows.len() ==> (#[trigger] rows[k]).record_sys_id@ != id,
    ensures
        row_for(held + rows.subrange(0, n), id) == row_for(held, id),
    decreases n,
{
    if n > 0 {
        let all = held + rows.subrange(0, n);
        assert(all.last() == rows[n - 1]);
        assert(all.drop_last() =~= held + rows.subrange(0, n - 1));
        lemma_no_row(held, rows, id, n - 1);
    } else {
        assert(held + rows.subrange(0, 0) =~= held);
    }
}

} // verus!
