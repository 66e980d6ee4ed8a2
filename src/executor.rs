//! The decisions of the patch executor: which statements of a script run,
//! how they are grouped into transactions, and what is reported. The caller
//! performs each step against the database.

use vstd::prelude::*;
use vstd::string::*;
use crate::text::{texts, statements_of, is_runnable, split_statements, runnable, decimal, decimal_text};

verus! {

/// Statements per transaction when applying a schema patch.
pub const SCHEMA_BATCH_SIZE: usize = 500;

/// Statements per transaction when applying a data patch.
pub const DATA_BATCH_SIZE: usize = 1000;

/// The positions of the runnable statements among `stmts`, ascending.
pub open spec fn runnable_indices(stmts: Seq<Seq<char>>) -> Seq<int>
    decreases stmts.len(),
{
    if stmts.len() == 0 {
        Seq::empty()
    } else {
        let p = runnable_indices(stmts.drop_last());
        if is_runnable(stmts.last()) {
            p.push(stmts.len() - 1)
        } else {
            p
        }
    }
}

pub open spec fn as_ints(v: Seq<usize>) -> Seq<int> {
    v.map_values(|x: usize| x as int)
}

/// How many transactions `m` runnable statements take, `b` at a time.
pub open spec fn batch_count(m: int, b: int) -> int {
    (m + b - 1) / b
}

/// Batch `k` runs the runnable statements from position `batch_start(k, b)`
/// up to, not including, `batch_end(m, k, b)`.
pub open spec fn batch_start(k: int, b: int) -> int {
    k * b
}

pub open spec fn batch_end(m: int, k: int, b: int) -> int {
    if (k + 1) * b < m {
        (k + 1) * b
    } else {
        m
    }
}

/// The statements of a script and the positions of those that run, to be
/// applied `batch_size` at a time, each batch in its own transaction.
pub struct ExecutionPlan {
    pub statements: Vec<String>,
    pub runnable: Vec<usize>,
    pub batch_size: usize,
}

impl ExecutionPlan {
    pub open spec fn wf(&self) -> bool {
        &&& self.batch_size > 0
        &&& as_ints(self.runnable@) == runnable_indices(texts(self.statements@))
    }

    /// How many transactions the plan takes.
    pub fn batch_count(&self) -> (r: usize)
        requires
            self.wf(),
        ensures
            r == batch_count(self.runnable@.len() as int, self.batch_size as int),
    {
        let m = self.runnable.len();
        let b = self.batch_size;
        let q = m / b;
        proof {
            if m % b != 0 {
                assert(b >= 2);
                assert(q * b <= m) by (nonlinear_arith)
                    requires q == m / b, b > 0;
                assert(q < usize::MAX) by (nonlinear_arith)
                    requires q * b <= m, b >= 2, m <= usize::MAX;
            }
        }
        let r = if m % b == 0 { q } else { q + 1 };
        proof {
            let mi = m as int;
            let bi = b as int;
            assert(mi == q * bi + mi % bi) by (nonlinear_arith)
                requires bi > 0, q == mi / bi;
            if mi % bi == 0 {
                assert((mi + bi - 1) / bi == q) by (nonlinear_arith)
                    requires bi > 0, mi == q * bi;
            } else {
                assert((mi + bi - 1) / bi == q + 1) by (nonlinear_arith)
                    requires bi > 0, mi == q * bi + mi % bi, 0 < mi % bi < bi;
            }
        }
        r
    }

    /// The positions, among the runnable statements, that batch `k` runs:
    /// from the first value up to, not including, the second.
    pub fn batch_bounds(&self, k: usize) -> (r: (usize, usize))
        requires
            self.wf(),
            k < batch_count(self.runnable@.len() as int, self.batch_size as int),
        ensures
            r.0 == batch_start(k as int, self.batch_size as int),
            r.1 == batch_end(self.runnable@.len() as int, k as int, self.batch_size as int),
            r.0 < r.1 <= self.runnable@.len(),
    {
        let m = self.runnable.len();
        let b = self.batch_size;
        proof {
            let mi = m as int;
            let bi = b as int;
            let ki = k as int;
            assert(ki * bi < mi) by (nonlinear_arith)
                requires bi > 0, ki < (mi + bi - 1) / bi, mi >= 0;
        }
        let start = k * b;
        let rest = m - start;
        let end = if rest > b { start + b } else { m };
        proof {
            assert((k as int + 1) * (b as int) == start as int + b as int) by (nonlinear_arith)
                requires start as int == (k as int) * (b as int);
        }
        (start, end)
    }
}

/// Batches cover the runnable statements in order, one after another: the
/// first starts at 0, each ends where the next starts, and the last ends at
/// `m`. When the statement at position `j` fails, its batch is `j / b`: the
/// batches before it, committed, hold exactly the positions below that
/// batch's start, and the failing batch, rolled back, holds the positions
/// from its start through `j`.
pub proof fn lemma_batches_partition(m: int, b: int, j: int)
    requires
        b > 0,
        0 <= j < m,
    ensures
        batch_start(0, b) == 0,
        batch_end(m, batch_count(m, b) - 1, b) == m,
        forall|k: int| 0 <= k < batch_count(m, b) - 1 ==> #[trigger] batch_end(m, k, b) == batch_start(k + 1, b),
        forall|k: int| 0 <= k < batch_count(m, b) ==> batch_start(k, b) < #[trigger] batch_end(m, k, b),
        0 <= j / b < batch_count(m, b),
        batch_start(j / b, b) <= j < batch_end(m, j / b, b),
        forall|k: int| 0 <= k < j / b ==> #[trigger] batch_end(m, k, b) <= batch_start(j / b, b),
{
    let c = batch_count(m, b);
    assert(c * b >= m && (c - 1) * b < m) by (nonlinear_arith)
        requires c == (m + b - 1) / b, b > 0, m > 0;
    assert(c >= 1) by (nonlinear_arith)
        requires c * b >= m, m > 0, b > 0;
    assert(batch_end(m, c - 1, b) == m) by (nonlinear_arith)
        requires c * b >= m, b > 0;
    assert forall|k: int| 0 <= k < c - 1 implies #[trigger] batch_end(m, k, b) == batch_start(k + 1, b) by {
        assert((k + 1) * b < m) by (nonlinear_arith)
            requires k + 1 <= c - 1, (c - 1) * b < m, b > 0, k >= 0;
    }
    assert forall|k: int| 0 <= k < c implies batch_start(k, b) < #[trigger] batch_end(m, k, b) by {
        assert(k * b < m) by (nonlinear_arith)
            requires k <= c - 1, (c - 1) * b < m, b > 0, k >= 0;
        assert(k * b < (k + 1) * b) by (nonlinear_arith)
            requires b > 0;
    }
    let q = j / b;
    assert(q * b <= j && j < (q + 1) * b && q >= 0) by (nonlinear_arith)
        requires q == j / b, b > 0, j >= 0;
    assert(q < c) by (nonlinear_arith)
        requires q * b <= j, j < m, c * b >= m, b > 0;
    assert forall|k: int| 0 <= k < q implies #[trigger] batch_end(m, k, b) <= batch_start(q, b) by {
        assert((k + 1) * b <= q * b) by (nonlinear_arith)
            requires k + 1 <= q, b > 0;
    }
}

/// Splits a script into statements and marks those that run: comment-only
/// statements and the script's own `BEGIN`/`COMMIT` are left to the
/// executor's transaction bookkeeping.
pub fn plan_execution(script: &str, batch_size: usize) -> (r: ExecutionPlan)
    requires
        batch_size > 0,
    ensures
        r.wf(),
        r.batch_size == batch_size,
        texts(r.statements@) == statements_of(script@),
{
    let stmts = split_statements(script);
    let mut idx: Vec<usize> = Vec::new();
    let mut i: usize = 0;
    assert(texts(stmts@).subrange(0, 0) =~= Seq::<Seq<char>>::empty());
    assert(as_ints(idx@) =~= Seq::<int>::empty());
    while i < stmts.len()
        invariant
            i <= stmts@.len(),
            as_ints(idx@) == runnable_indices(texts(stmts@).subrange(0, i as int)),
        decreases stmts@.len() - i,
    {
        let ghost pre = texts(stmts@).subrange(0, i as int);
        let ghost cur = texts(stmts@).subrange(0, i + 1);
        assert(cur.drop_last() =~= pre);
        assert(cur.last() == stmts@[i as int]@);
        if runnable(stmts[i].as_str()) {
            let ghost before = idx@;
            idx.push(i);
            assert(as_ints(idx@) =~= as_ints(before).push(i as int));
        }
        i = i + 1;
    }
    assert(texts(stmts@).subrange(0, i as int) =~= texts(stmts@));
    ExecutionPlan { statements: stmts, runnable: idx, batch_size }
}

/// The report of a failed statement: its 1-based position among the
/// statements, their count, the engine's error, the statement, and how many
/// statements earlier batches committed, which stay applied.
pub open spec fn failure_text(index: int, total: int, cause: Seq<char>, statement: Seq<char>, committed: nat) -> Seq<char> {
    "Error at statement "@ + decimal((index + 1) as nat) + "/"@ + decimal(total as nat) + ": "@ + cause
        + "\nStatement: "@ + statement + "\nStatements committed by earlier batches stay applied: "@
        + decimal(committed)
}

/// Reports a failed statement at 0-based position `index` (see `failure_text`).
pub fn failure_message(index: usize, total: usize, cause: &str, statement: &str, committed: usize) -> (r: String)
    requires
        index < total,
    ensures
        r@ == failure_text(index as int, total as int, cause@, statement@, committed as nat),
{
    let mut s = String::from_str("Error at statement ");
    s.append(decimal_text((index + 1) as u64).as_str());
    s.append("/");
    s.append(decimal_text(total as u64).as_str());
    s.append(": ");
    s.append(cause);
    s.append("\nStatement: ");
    s.append(statement);
    s.append("\nStatements committed by earlier batches stay applied: ");
    s.append(decimal_text(committed as u64).as_str());
    s
}

/// The report of an applied patch of the given kind.
pub open spec fn success_text(kind: Seq<char>, executed: nat) -> Seq<char> {
    kind + " patch applied successfully. Executed "@ + decimal(executed) + " statements."@
}

pub fn success_message(kind: &str, executed: usize) -> (r: String)
    ensures
        r@ == success_text(kind@, executed as nat),
{
    let mut s = String::from_str(kind);
    s.append(" patch applied successfully. Executed ");
    s.append(decimal_text(executed as u64).as_str());
    s.append(" statements.");
    s
}

} // verus!
