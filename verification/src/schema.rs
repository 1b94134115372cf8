//! The two tables, the statements that create and fill them, and the values
//! that a row binds to its statement.

use crate::record::{AdvisoryRow, AdvisoryRowView, PackageRow, PackageRowView};
use vstd::prelude::*;

verus! {

/// Creates the table of advisories, one row for each identifier.
pub const CREATE_ADVISORIES_TABLE: &'static str = r#"
CREATE TABLE advisories (
    ghsa TEXT PRIMARY KEY,
    schema_version TEXT,
    modified TEXT NOT NULL,
    published TEXT,
    withdrawn TEXT,
    cve TEXT,
    ecosystems TEXT,
    summary TEXT,
    details TEXT,
    severity TEXT,
    cwes TEXT,
    github_reviewed INTEGER,
    github_reviewed_at TEXT,
    nvd_published_at TEXT,
    ref_commits TEXT,
    ref_pull_requests TEXT
)"#;

/// Creates the table of affected packages, any number of rows for an
/// advisory.
pub const CREATE_AFFECTED_PACKAGES_TABLE: &'static str = r#"
CREATE TABLE affected_packages (
    ghsa TEXT,
    name TEXT NOT NULL,
    ecosystem TEXT NOT NULL,
    ranges TEXT,
    versions TEXT
)"#;

/// Inserts one row into the table of advisories. Its parameters are bound in
/// the order of [`advisory_bindings`].
pub const INSERT_ADVISORY: &'static str = r#"
INSERT INTO advisories (
     ghsa,  schema_version,  modified,  published,  withdrawn,  cve,  ecosystems,  summary,
     details,  severity,  cwes,  github_reviewed,  github_reviewed_at,  nvd_published_at,  ref_commits,  ref_pull_requests
) VALUES (
    :ghsa, :schema_version, :modified, :published, :withdrawn, :cve, :ecosystems, :summary,
    :details, :severity, :cwes, :github_reviewed, :github_reviewed_at, :nvd_published_at, :ref_commits, :ref_pull_requests
)"#;

/// Inserts one row into the table of affected packages. Its parameters are
/// bound in the order of [`package_bindings`].
pub const INSERT_AFFECTED_PACKAGE: &'static str = r#"
INSERT INTO affected_packages (
     ghsa,  name,  ecosystem,  ranges,  versions
) VALUES (
    :ghsa, :name, :ecosystem, :ranges, :versions
)"#;

/// A value bound to a parameter of a statement.
#[derive(Clone, Debug, PartialEq, Eq)]
pub enum SqlValue {
    /// No value.
    Null,
    /// An integer.
    Integer(i64),
    /// A text.
    Text(String),
}

/// A [`SqlValue`] as a mathematical value.
pub enum SqlValueView {
    Null,
    Integer(i64),
    Text(Seq<char>),
}

impl DeepView for SqlValue {
    type V = SqlValueView;

    open spec fn deep_view(&self) -> SqlValueView {
        match self {
            SqlValue::Null => SqlValueView::Null,
            SqlValue::Integer(i) => SqlValueView::Integer(*i),
            SqlValue::Text(text) => SqlValueView::Text(text@),
        }
    }
}

impl View for SqlValue {
    type V = SqlValueView;

    open spec fn view(&self) -> SqlValueView {
        self.deep_view()
    }
}

/// The value bound for a text that may be absent.
pub open spec fn optional_text(text: Option<Seq<char>>) -> SqlValueView {
    match text {
        Some(text) => SqlValueView::Text(text),
        None => SqlValueView::Null,
    }
}

/// The value bound for an integer that may be absent.
pub open spec fn optional_integer(number: Option<i64>) -> SqlValueView {
    match number {
        Some(number) => SqlValueView::Integer(number),
        None => SqlValueView::Null,
    }
}

/// The values of a row of advisories, in the order of the columns.
pub open spec fn advisory_values(row: AdvisoryRowView) -> Seq<SqlValueView> {
    seq![
        SqlValueView::Text(row.ghsa),
        optional_text(row.schema_version),
        SqlValueView::Text(row.modified),
        optional_text(row.published),
        optional_text(row.withdrawn),
        optional_text(row.cve),
        optional_text(row.ecosystems),
        optional_text(row.summary),
        optional_text(row.details),
        optional_text(row.severity),
        optional_text(row.cwes),
        optional_integer(row.github_reviewed),
        optional_text(row.github_reviewed_at),
        optional_text(row.nvd_published_at),
        optional_text(row.ref_commits),
        optional_text(row.ref_pull_requests),
    ]
}

/// The values of a row of affected packages, in the order of the columns.
pub open spec fn package_values(row: PackageRowView) -> Seq<SqlValueView> {
    seq![
        SqlValueView::Text(row.ghsa),
        SqlValueView::Text(row.name),
        SqlValueView::Text(row.ecosystem),
        SqlValueView::Text(row.ranges),
        SqlValueView::Text(row.versions),
    ]
}

/// Binds a text that may be absent.
fn bind_optional(text: &Option<String>) -> (value: SqlValue)
    ensures
        value@ == optional_text(text.deep_view()),
{
    match text {
        Some(text) => SqlValue::Text(text.clone()),
        None => SqlValue::Null,
    }
}

/// The values that a row of advisories binds to [`INSERT_ADVISORY`].
pub fn advisory_bindings(row: &AdvisoryRow) -> (values: Vec<SqlValue>)
    ensures
        values.deep_view() == advisory_values(row@),
{
    let reviewed = match row.github_reviewed {
        Some(flag) => SqlValue::Integer(flag),
        None => SqlValue::Null,
    };
    let values = vec![
        SqlValue::Text(row.ghsa.clone()),
        bind_optional(&row.schema_version),
        SqlValue::Text(row.modified.clone()),
        bind_optional(&row.published),
        bind_optional(&row.withdrawn),
        bind_optional(&row.cve),
        bind_optional(&row.ecosystems),
        bind_optional(&row.summary),
        bind_optional(&row.details),
        bind_optional(&row.severity),
        bind_optional(&row.cwes),
        reviewed,
        bind_optional(&row.github_reviewed_at),
        bind_optional(&row.nvd_published_at),
        bind_optional(&row.ref_commits),
        bind_optional(&row.ref_pull_requests),
    ];
    assert(values.deep_view() =~= advisory_values(row@));
    values
}

/// The values that a row of affected packages binds to
/// [`INSERT_AFFECTED_PACKAGE`].
pub fn package_bindings(row: &PackageRow) -> (values: Vec<SqlValue>)
    ensures
        values.deep_view() == package_values(row@),
{
    let values = vec![
        SqlValue::Text(row.ghsa.clone()),
        SqlValue::Text(row.name.clone()),
        SqlValue::Text(row.ecosystem.clone()),
        SqlValue::Text(row.ranges.clone()),
        SqlValue::Text(row.versions.clone()),
    ];
    assert(values.deep_view() =~= package_values(row@));
    values
}

} // verus!
