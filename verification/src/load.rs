//! The course of one batch load.
//!
//! Loading a batch is a conversation with the storage: take the lock, begin a
//! transaction, insert row after row, commit. This module decides what is
//! asked next and never touches the storage itself. The caller carries out
//! each [`Action`] and reports its [`Outcome`]; [`BatchLoad::advance`] answers
//! with the next action. Rows are asked for in the order of the records, and,
//! within a record, the advisory's row before the rows of its packages in
//! their order. Whatever fails once a transaction is open leads to a rollback.

use crate::error::LoadError;
use crate::normalize::{advisory_row, make_package_row, normalize, package_row};
use crate::record::{
    Advisory, AdvisoryRow, AdvisoryRowView, AdvisoryView, AffectedPackage, PackageRow,
    PackageRowView,
};
use vstd::pervasive::unreached;
use vstd::prelude::*;

verus! {

/// How the storage answered the last action.
#[derive(Clone, Copy, Debug, PartialEq, Eq, Structural)]
pub enum Outcome {
    /// The action was carried out.
    Succeeded,
    /// The action was refused.
    Failed,
}

/// What the caller is asked to do next.
#[derive(Debug, PartialEq, Eq)]
pub enum Action {
    /// Take the lock that guards the storage connection.
    AcquireLock,
    /// Open the transaction.
    Begin,
    /// Insert a row into the table of advisories.
    InsertAdvisory(AdvisoryRow),
    /// Insert a row into the table of affected packages.
    InsertPackage(PackageRow),
    /// Commit the transaction.
    Commit,
    /// Roll the transaction back.
    Rollback,
    /// Release the lock if it is held, and report this result.
    Finish(Result<(), LoadError>),
}

/// An [`Action`], with its row as mathematical values.
pub enum ActionView {
    AcquireLock,
    Begin,
    InsertAdvisory(AdvisoryRowView),
    InsertPackage(PackageRowView),
    Commit,
    Rollback,
    Finish(Result<(), LoadError>),
}

impl DeepView for Action {
    type V = ActionView;

    open spec fn deep_view(&self) -> ActionView {
        match self {
            Action::AcquireLock => ActionView::AcquireLock,
            Action::Begin => ActionView::Begin,
            Action::InsertAdvisory(row) => ActionView::InsertAdvisory(row@),
            Action::InsertPackage(row) => ActionView::InsertPackage(row@),
            Action::Commit => ActionView::Commit,
            Action::Rollback => ActionView::Rollback,
            Action::Finish(result) => ActionView::Finish(*result),
        }
    }
}

impl View for Action {
    type V = ActionView;

    open spec fn view(&self) -> ActionView {
        self.deep_view()
    }
}

/// Which action is under way.
#[derive(Clone, Copy, Debug, PartialEq, Eq)]
pub enum Stage {
    /// The lock was asked for.
    Locking,
    /// The transaction was asked to begin.
    Beginning,
    /// A row of record number `record` was handed out for insertion: the
    /// advisory's row if `part` is 0, else the row of its package number
    /// `part - 1`.
    Writing { record: usize, part: usize },
    /// The transaction was asked to commit.
    Committing,
    /// The transaction was asked to roll back because of `cause`.
    RollingBack { cause: LoadError },
    /// The load is over, with this result.
    Finished { result: Result<(), LoadError> },
}

/// The number of packages that record number `record` affects.
pub open spec fn packages_of(records: Seq<AdvisoryView>, record: int) -> nat {
    records[record].affected_list().len()
}

/// `part` is a row of record number `record`.
pub open spec fn is_position(records: Seq<AdvisoryView>, record: int, part: int) -> bool {
    0 <= record < records.len() && 0 <= part <= packages_of(records, record)
}

/// The rows of one record in the order of their insertion, each as the
/// action that inserts it, or as the error that normalizing it gives.
pub open spec fn record_rows(record: AdvisoryView) -> Seq<Result<ActionView, LoadError>> {
    Seq::new(
        1 + record.affected_list().len(),
        |part: int|
            if part == 0 {
                match advisory_row(record) {
                    Ok(row) => Ok(ActionView::InsertAdvisory(row)),
                    Err(e) => Err(e),
                }
            } else {
                match package_row(record.id, record.affected_list()[part - 1]) {
                    Ok(row) => Ok(ActionView::InsertPackage(row)),
                    Err(e) => Err(e),
                }
            },
    )
}

/// The row at a position.
pub open spec fn row_at(records: Seq<AdvisoryView>, record: int, part: int) -> Result<
    ActionView,
    LoadError,
> {
    record_rows(records[record])[part]
}

/// The rows of a whole batch in the order of their insertion.
pub open spec fn batch_rows(records: Seq<AdvisoryView>) -> Seq<Result<ActionView, LoadError>>
    decreases records.len(),
{
    if records.len() == 0 {
        Seq::empty()
    } else {
        batch_rows(records.drop_last()) + record_rows(records.last())
    }
}

/// How many rows of the batch come before a position.
pub open spec fn ordinal(records: Seq<AdvisoryView>, record: int, part: int) -> int {
    batch_rows(records.take(record)).len() + part
}

/// The position of the first row of the batch, if it has a row.
pub open spec fn first_position(records: Seq<AdvisoryView>) -> Option<(int, int)> {
    if records.len() > 0 {
        Some((0, 0))
    } else {
        None
    }
}

/// The position that follows a position, if one does.
pub open spec fn next_position(records: Seq<AdvisoryView>, record: int, part: int) -> Option<
    (int, int),
> {
    if part < packages_of(records, record) {
        Some((record, part + 1))
    } else if record + 1 < records.len() {
        Some((record + 1, 0))
    } else {
        None
    }
}

/// What is asked once the rows before `position` are inserted: the row at
/// that position, or the rollback if it cannot be normalized; the commit if
/// no row is left.
pub open spec fn request(records: Seq<AdvisoryView>, position: Option<(int, int)>) -> (
    Stage,
    ActionView,
) {
    match position {
        None => (Stage::Committing, ActionView::Commit),
        Some((record, part)) => match row_at(records, record, part) {
            Ok(insert) => (Stage::Writing { record: record as usize, part: part as usize }, insert),
            Err(cause) => (Stage::RollingBack { cause }, ActionView::Rollback),
        },
    }
}

/// How a load ends.
pub open spec fn finish(result: Result<(), LoadError>) -> (Stage, ActionView) {
    (Stage::Finished { result }, ActionView::Finish(result))
}

/// The stage that follows `stage` and the action that is asked next, once the
/// action of `stage` has had `outcome`.
pub open spec fn next(records: Seq<AdvisoryView>, stage: Stage, outcome: Outcome) -> (
    Stage,
    ActionView,
) {
    match stage {
        Stage::Locking => match outcome {
            Outcome::Succeeded => (Stage::Beginning, ActionView::Begin),
            Outcome::Failed => finish(Err(LoadError::LockAcquisition)),
        },
        Stage::Beginning => match outcome {
            Outcome::Succeeded => request(records, first_position(records)),
            Outcome::Failed => finish(Err(LoadError::Transaction)),
        },
        Stage::Writing { record, part } => match outcome {
            Outcome::Succeeded => request(
                records,
                next_position(records, record as int, part as int),
            ),
            Outcome::Failed => (
                Stage::RollingBack { cause: LoadError::Transaction },
                ActionView::Rollback,
            ),
        },
        Stage::Committing => match outcome {
            Outcome::Succeeded => finish(Ok(())),
            Outcome::Failed => (
                Stage::RollingBack { cause: LoadError::Transaction },
                ActionView::Rollback,
            ),
        },
        Stage::RollingBack { cause } => finish(Err(cause)),
        Stage::Finished { result } => finish(result),
    }
}

/// A stage is in range if the row it speaks of is a row of the batch.
pub open spec fn in_range(records: Seq<AdvisoryView>, stage: Stage) -> bool {
    stage matches Stage::Writing { record, part } ==> is_position(
        records,
        record as int,
        part as int,
    )
}

/// The load has failed: it is rolling back, or it is over with an error.
pub open spec fn has_failed(stage: Stage) -> bool {
    match stage {
        Stage::RollingBack { .. } => true,
        Stage::Finished { result } => result is Err,
        _ => false,
    }
}

/// A refused action, or an action after a failure, is never followed by an
/// insertion or a commit: the load rolls back or ends, and it ends in error.
pub proof fn lemma_failure_is_final(records: Seq<AdvisoryView>, stage: Stage, outcome: Outcome)
    requires
        (outcome == Outcome::Failed && !(stage is Finished)) || has_failed(stage),
    ensures
        has_failed(next(records, stage, outcome).0),
        next(records, stage, outcome).1 is Rollback || (next(records, stage, outcome).1 matches
            ActionView::Finish(result) && result is Err),
{
}

/// A rollback is asked for only while a transaction is open, and what follows
/// it is the end of the load with the error that caused it.
pub proof fn lemma_rollback_ends_in_error(
    records: Seq<AdvisoryView>,
    stage: Stage,
    outcome: Outcome,
    after: Outcome,
)
    requires
        next(records, stage, outcome).1 is Rollback,
    ensures
        stage is Writing || stage is Committing || stage is Beginning,
        next(records, stage, outcome).0 matches Stage::RollingBack { cause } && next(
            records,
            next(records, stage, outcome).0,
            after,
        ) == finish(Err(cause)),
{
}

/// A load ends well only through a commit that succeeded.
pub proof fn lemma_success_needs_commit(records: Seq<AdvisoryView>, stage: Stage, outcome: Outcome)
    requires
        next(records, stage, outcome).1 == ActionView::Finish(Ok(())),
    ensures
        (stage is Committing && outcome == Outcome::Succeeded) || stage == (Stage::Finished {
            result: Ok(()),
        }),
{
}

/// The commit is asked for only when the last row of the batch was inserted,
/// or when the transaction of an empty batch was opened.
pub proof fn lemma_commit_follows_last_row(
    records: Seq<AdvisoryView>,
    stage: Stage,
    outcome: Outcome,
)
    requires
        in_range(records, stage),
        next(records, stage, outcome).1 is Commit,
    ensures
        outcome == Outcome::Succeeded,
        match stage {
            Stage::Beginning => batch_rows(records).len() == 0,
            Stage::Writing { record, part } => ordinal(records, record as int, part as int) + 1
                == batch_rows(records).len(),
            _ => false,
        },
{
    match stage {
        Stage::Beginning => {
            assert(records.len() == 0);
        },
        Stage::Writing { record, part } => {
            lemma_next_position(records, record as int, part as int);
        },
        _ => {},
    }
}

/// The rows of the first `count + 1` records are those of the first `count`,
/// then those of record number `count`.
pub proof fn lemma_batch_rows_step(records: Seq<AdvisoryView>, count: int)
    requires
        0 <= count < records.len(),
    ensures
        batch_rows(records.take(count + 1)) == batch_rows(records.take(count)) + record_rows(
            records[count],
        ),
{
    let upto = records.take(count + 1);
    assert(upto.drop_last() =~= records.take(count));
    assert(upto.last() == records[count]);
}

/// The rows of the first `count` records open the rows of the batch.
pub proof fn lemma_batch_rows_prefix(records: Seq<AdvisoryView>, count: int)
    requires
        0 <= count <= records.len(),
    ensures
        batch_rows(records.take(count)).is_prefix_of(batch_rows(records)),
    decreases records.len() - count,
{
    if count == records.len() {
        assert(records.take(count) =~= records);
    } else {
        lemma_batch_rows_step(records, count);
        lemma_batch_rows_prefix(records, count + 1);
        let shorter = batch_rows(records.take(count));
        let longer = batch_rows(records.take(count + 1));
        let all = batch_rows(records);
        assert(shorter =~= all.subrange(0, shorter.len() as int)) by {
            assert(longer == all.subrange(0, longer.len() as int));
            assert forall|i: int| 0 <= i < shorter.len() implies shorter[i] == all[i] by {
                assert(longer[i] == shorter[i]);
                assert(all.subrange(0, longer.len() as int)[i] == all[i]);
            }
        }
    }
}

/// The order of insertion: the row at a position is the row of the batch
/// that has as many rows before it as the position has.
pub proof fn lemma_row_order(records: Seq<AdvisoryView>, record: int, part: int)
    requires
        is_position(records, record, part),
    ensures
        0 <= ordinal(records, record, part) < batch_rows(records).len(),
        batch_rows(records)[ordinal(records, record, part)] == row_at(records, record, part),
{
    lemma_batch_rows_step(records, record);
    lemma_batch_rows_prefix(records, record + 1);
    let before = batch_rows(records.take(record));
    let upto = batch_rows(records.take(record + 1));
    let all = batch_rows(records);
    assert(upto == all.subrange(0, upto.len() as int));
    let at = before.len() + part;
    assert(upto[at] == record_rows(records[record])[part]);
    assert(all.subrange(0, upto.len() as int)[at] == all[at]);
}

/// The first position has no row before it; a batch without a first position
/// has no rows.
pub proof fn lemma_first_position(records: Seq<AdvisoryView>)
    ensures
        match first_position(records) {
            Some((record, part)) => is_position(records, record, part) && ordinal(
                records,
                record,
                part,
            ) == 0,
            None => batch_rows(records).len() == 0,
        },
{
    assert(records.take(0) =~= Seq::<AdvisoryView>::empty());
}

/// The next position has exactly one more row before it; a position without
/// a next one is that of the last row.
pub proof fn lemma_next_position(records: Seq<AdvisoryView>, record: int, part: int)
    requires
        is_position(records, record, part),
    ensures
        match next_position(records, record, part) {
            Some((r, p)) => is_position(records, r, p) && ordinal(records, r, p) == ordinal(
                records,
                record,
                part,
            ) + 1,
            None => ordinal(records, record, part) + 1 == batch_rows(records).len(),
        },
{
    lemma_batch_rows_step(records, record);
    if part < packages_of(records, record) {
    } else if record + 1 < records.len() {
    } else {
        assert(records.take(record + 1) =~= records);
    }
}

/// The number of packages that a record affects.
pub fn package_count(record: &Advisory) -> (n: usize)
    ensures
        n == record@.affected_list().len(),
{
    match &record.affected {
        Some(packages) => packages.len(),
        None => 0,
    }
}

/// Package number `index` of a record.
fn package_at(record: &Advisory, index: usize) -> (package: &AffectedPackage)
    requires
        index < record@.affected_list().len(),
    ensures
        package@ == record@.affected_list()[index as int],
{
    match &record.affected {
        Some(packages) => &packages[index],
        None => unreached(),
    }
}

/// A batch load under way: the records to load, and how far the load has
/// come.
pub struct BatchLoad {
    records: Vec<Advisory>,
    stage: Stage,
}

impl BatchLoad {
    #[verifier::type_invariant]
    spec fn well_formed(self) -> bool {
        in_range(self.records.deep_view(), self.stage)
    }

    /// The records of the batch.
    pub closed spec fn records(self) -> Seq<AdvisoryView> {
        self.records.deep_view()
    }

    /// The stage the load is in.
    pub closed spec fn stage(self) -> Stage {
        self.stage
    }

    /// Starts the load of a batch. The first thing asked for is the lock.
    pub fn start(records: Vec<Advisory>) -> (r: (BatchLoad, Action))
        ensures
            r.0.records() == records.deep_view(),
            r.0.stage() == Stage::Locking,
            r.1@ == ActionView::AcquireLock,
    {
        (BatchLoad { records, stage: Stage::Locking }, Action::AcquireLock)
    }

    /// The stage the load is in.
    pub fn current_stage(&self) -> (stage: Stage)
        ensures
            stage == self.stage(),
            in_range(self.records(), stage),
    {
        proof {
            use_type_invariant(self);
        }
        self.stage
    }

    /// The result of the load, once it is over.
    pub fn result(&self) -> (r: Option<Result<(), LoadError>>)
        ensures
            r == match self.stage() {
                Stage::Finished { result } => Some(result),
                _ => None,
            },
    {
        match self.stage {
            Stage::Finished { result } => Some(result),
            _ => None,
        }
    }

    /// Asks for the row at `position`, or for the commit if there is none.
    fn ask(records: Vec<Advisory>, position: Option<(usize, usize)>) -> (r: (BatchLoad, Action))
        requires
            position matches Some((record, part)) ==> is_position(
                records.deep_view(),
                record as int,
                part as int,
            ),
        ensures
            r.0.records() == records.deep_view(),
            (r.0.stage(), r.1@) == request(
                records.deep_view(),
                match position {
                    Some((record, part)) => Some((record as int, part as int)),
                    None => None,
                },
            ),
    {
        match position {
            None => (BatchLoad { records, stage: Stage::Committing }, Action::Commit),
            Some((record, part)) => {
                let entry = &records[record];
                assert(entry@ == records.deep_view()[record as int]);
                let made = if part == 0 {
                    match normalize(entry) {
                        Ok(row) => Ok(Action::InsertAdvisory(row)),
                        Err(e) => Err(e),
                    }
                } else {
                    match make_package_row(&entry.id, package_at(entry, part - 1)) {
                        Ok(row) => Ok(Action::InsertPackage(row)),
                        Err(e) => Err(e),
                    }
                };
                match made {
                    Ok(insert) => (
                        BatchLoad { records, stage: Stage::Writing { record, part } },
                        insert,
                    ),
                    Err(cause) => (
                        BatchLoad { records, stage: Stage::RollingBack { cause } },
                        Action::Rollback,
                    ),
                }
            },
        }
    }

    /// Ends the load.
    fn end(records: Vec<Advisory>, result: Result<(), LoadError>) -> (r: (BatchLoad, Action))
        ensures
            r.0.records() == records.deep_view(),
            (r.0.stage(), r.1@) == finish(result),
    {
        (BatchLoad { records, stage: Stage::Finished { result } }, Action::Finish(result))
    }

    /// Takes the outcome of the action that was asked for last, and answers
    /// with the action to carry out next.
    ///
    /// Once the load is over, every further call answers with its result
    /// again.
    pub fn advance(self, outcome: Outcome) -> (r: (BatchLoad, Action))
        ensures
            r.0.records() == self.records(),
            (r.0.stage(), r.1@) == next(self.records(), self.stage(), outcome),
            in_range(self.records(), r.0.stage()),
    {
        proof {
            use_type_invariant(&self);
        }
        let BatchLoad { records, stage } = self;
        let r = match stage {
            Stage::Locking => match outcome {
                Outcome::Succeeded => (
                    BatchLoad { records, stage: Stage::Beginning },
                    Action::Begin,
                ),
                Outcome::Failed => Self::end(records, Err(LoadError::LockAcquisition)),
            },
            Stage::Beginning => match outcome {
                Outcome::Succeeded => {
                    let first = if records.len() > 0 {
                        Some((0usize, 0usize))
                    } else {
                        None
                    };
                    Self::ask(records, first)
                },
                Outcome::Failed => Self::end(records, Err(LoadError::Transaction)),
            },
            Stage::Writing { record, part } => match outcome {
                Outcome::Succeeded => {
                    assert(records.deep_view().len() == records.len());
                    let following = if part < package_count(&records[record]) {
                        Some((record, part + 1))
                    } else if record + 1 < records.len() {
                        Some((record + 1, 0usize))
                    } else {
                        None
                    };
                    Self::ask(records, following)
                },
                Outcome::Failed => (
                    BatchLoad { records, stage: Stage::RollingBack { cause: LoadError::Transaction } },
                    Action::Rollback,
                ),
            },
            Stage::Committing => match outcome {
                Outcome::Succeeded => Self::end(records, Ok(())),
                Outcome::Failed => (
                    BatchLoad { records, stage: Stage::RollingBack { cause: LoadError::Transaction } },
                    Action::Rollback,
                ),
            },
            Stage::RollingBack { cause } => Self::end(records, Err(cause)),
            Stage::Finished { result } => Self::end(records, result),
        };
        proof {
            use_type_invariant(&r.0);
        }
        r
    }
}

} // verus!
