//! Advisory records as they come in, and the rows that are stored for them.
//!
//! A record arrives already decoded. Values whose inner shape is of no
//! concern here (version ranges, the upstream publication time) arrive as
//! the text that is to be stored.

use vstd::prelude::*;

verus! {

/// One package that an advisory affects.
#[derive(Clone, Debug, PartialEq, Eq)]
pub struct AffectedPackage {
    /// The package's name.
    pub name: String,
    /// The ecosystem the package belongs to; never interpreted.
    pub ecosystem: String,
    /// The affected version ranges, as the JSON text to store.
    pub ranges: String,
    /// The versions that are named one by one.
    pub versions: Vec<String>,
}

/// What an [`AffectedPackage`] holds, as mathematical values.
pub struct AffectedPackageView {
    pub name: Seq<char>,
    pub ecosystem: Seq<char>,
    pub ranges: Seq<char>,
    pub versions: Seq<Seq<char>>,
}

impl DeepView for AffectedPackage {
    type V = AffectedPackageView;

    open spec fn deep_view(&self) -> AffectedPackageView {
        AffectedPackageView {
            name: self.name@,
            ecosystem: self.ecosystem@,
            ranges: self.ranges@,
            versions: self.versions.deep_view(),
        }
    }
}

impl View for AffectedPackage {
    type V = AffectedPackageView;

    open spec fn view(&self) -> AffectedPackageView {
        self.deep_view()
    }
}

/// The part of a record that the advisory database adds to it.
#[derive(Clone, Debug, PartialEq, Eq)]
pub struct DatabaseSpecific {
    /// The severity label.
    pub severity: Option<String>,
    /// The weakness classifications.
    pub cwe_ids: Option<Vec<String>>,
    /// Whether the advisory was reviewed.
    pub github_reviewed: Option<bool>,
    /// When it was reviewed.
    pub github_reviewed_at: Option<String>,
    /// When it was published upstream, as the text to store.
    pub nvd_published_at: Option<String>,
}

/// What a [`DatabaseSpecific`] holds, as mathematical values.
pub struct DatabaseSpecificView {
    pub severity: Option<Seq<char>>,
    pub cwe_ids: Option<Seq<Seq<char>>>,
    pub github_reviewed: Option<bool>,
    pub github_reviewed_at: Option<Seq<char>>,
    pub nvd_published_at: Option<Seq<char>>,
}

impl DeepView for DatabaseSpecific {
    type V = DatabaseSpecificView;

    open spec fn deep_view(&self) -> DatabaseSpecificView {
        DatabaseSpecificView {
            severity: self.severity.deep_view(),
            cwe_ids: self.cwe_ids.deep_view(),
            github_reviewed: self.github_reviewed,
            github_reviewed_at: self.github_reviewed_at.deep_view(),
            nvd_published_at: self.nvd_published_at.deep_view(),
        }
    }
}

impl View for DatabaseSpecific {
    type V = DatabaseSpecificView;

    open spec fn view(&self) -> DatabaseSpecificView {
        self.deep_view()
    }
}

/// One advisory record.
#[derive(Clone, Debug, PartialEq, Eq)]
pub struct Advisory {
    /// The advisory's identifier.
    pub id: String,
    /// The version of the schema the record was written in.
    pub schema_version: Option<String>,
    /// When the record was last modified.
    pub modified: String,
    /// When it was published.
    pub published: Option<String>,
    /// When it was withdrawn.
    pub withdrawn: Option<String>,
    /// Other identifiers of the same vulnerability.
    pub aliases: Option<Vec<String>>,
    /// A one-line summary.
    pub summary: Option<String>,
    /// The full description.
    pub details: Option<String>,
    /// The packages it affects.
    pub affected: Option<Vec<AffectedPackage>>,
    /// What the advisory database adds.
    pub database_specific: Option<DatabaseSpecific>,
    /// The URLs it refers to.
    pub references: Option<Vec<String>>,
}

/// What an [`Advisory`] holds, as mathematical values.
pub struct AdvisoryView {
    pub id: Seq<char>,
    pub schema_version: Option<Seq<char>>,
    pub modified: Seq<char>,
    pub published: Option<Seq<char>>,
    pub withdrawn: Option<Seq<char>>,
    pub aliases: Option<Seq<Seq<char>>>,
    pub summary: Option<Seq<char>>,
    pub details: Option<Seq<char>>,
    pub affected: Option<Seq<AffectedPackageView>>,
    pub database_specific: Option<DatabaseSpecificView>,
    pub references: Option<Seq<Seq<char>>>,
}

impl DeepView for Advisory {
    type V = AdvisoryView;

    open spec fn deep_view(&self) -> AdvisoryView {
        AdvisoryView {
            id: self.id@,
            schema_version: self.schema_version.deep_view(),
            modified: self.modified@,
            published: self.published.deep_view(),
            withdrawn: self.withdrawn.deep_view(),
            aliases: self.aliases.deep_view(),
            summary: self.summary.deep_view(),
            details: self.details.deep_view(),
            affected: self.affected.deep_view(),
            database_specific: self.database_specific.deep_view(),
            references: self.references.deep_view(),
        }
    }
}

impl View for Advisory {
    type V = AdvisoryView;

    open spec fn view(&self) -> AdvisoryView {
        self.deep_view()
    }
}

/// The elements of an optional list; none where the list is absent.
pub open spec fn listed<T>(list: Option<Seq<T>>) -> Seq<T> {
    match list {
        Some(items) => items,
        None => Seq::empty(),
    }
}

impl AdvisoryView {
    /// The aliases, none where the list is absent.
    pub open spec fn alias_list(self) -> Seq<Seq<char>> {
        listed(self.aliases)
    }

    /// The affected packages, none where the list is absent.
    pub open spec fn affected_list(self) -> Seq<AffectedPackageView> {
        listed(self.affected)
    }

    /// The reference URLs, none where the list is absent.
    pub open spec fn reference_list(self) -> Seq<Seq<char>> {
        listed(self.references)
    }
}

/// A row of the table of advisories, column by column.
#[derive(Clone, Debug, PartialEq, Eq)]
pub struct AdvisoryRow {
    pub ghsa: String,
    pub schema_version: Option<String>,
    pub modified: String,
    pub published: Option<String>,
    pub withdrawn: Option<String>,
    pub cve: Option<String>,
    pub ecosystems: Option<String>,
    pub summary: Option<String>,
    pub details: Option<String>,
    pub severity: Option<String>,
    pub cwes: Option<String>,
    pub github_reviewed: Option<i64>,
    pub github_reviewed_at: Option<String>,
    pub nvd_published_at: Option<String>,
    pub ref_commits: Option<String>,
    pub ref_pull_requests: Option<String>,
}

/// What an [`AdvisoryRow`] holds, as mathematical values.
pub struct AdvisoryRowView {
    pub ghsa: Seq<char>,
    pub schema_version: Option<Seq<char>>,
    pub modified: Seq<char>,
    pub published: Option<Seq<char>>,
    pub withdrawn: Option<Seq<char>>,
    pub cve: Option<Seq<char>>,
    pub ecosystems: Option<Seq<char>>,
    pub summary: Option<Seq<char>>,
    pub details: Option<Seq<char>>,
    pub severity: Option<Seq<char>>,
    pub cwes: Option<Seq<char>>,
    pub github_reviewed: Option<i64>,
    pub github_reviewed_at: Option<Seq<char>>,
    pub nvd_published_at: Option<Seq<char>>,
    pub ref_commits: Option<Seq<char>>,
    pub ref_pull_requests: Option<Seq<char>>,
}

impl DeepView for AdvisoryRow {
    type V = AdvisoryRowView;

    open spec fn deep_view(&self) -> AdvisoryRowView {
        AdvisoryRowView {
            ghsa: self.ghsa@,
            schema_version: self.schema_version.deep_view(),
            modified: self.modified@,
            published: self.published.deep_view(),
            withdrawn: self.withdrawn.deep_view(),
            cve: self.cve.deep_view(),
            ecosystems: self.ecosystems.deep_view(),
            summary: self.summary.deep_view(),
            details: self.details.deep_view(),
            severity: self.severity.deep_view(),
            cwes: self.cwes.deep_view(),
            github_reviewed: self.github_reviewed,
            github_reviewed_at: self.github_reviewed_at.deep_view(),
            nvd_published_at: self.nvd_published_at.deep_view(),
            ref_commits: self.ref_commits.deep_view(),
            ref_pull_requests: self.ref_pull_requests.deep_view(),
        }
    }
}

impl View for AdvisoryRow {
    type V = AdvisoryRowView;

    open spec fn view(&self) -> AdvisoryRowView {
        self.deep_view()
    }
}

/// A row of the table of affected packages, column by column.
#[derive(Clone, Debug, PartialEq, Eq)]
pub struct PackageRow {
    pub ghsa: String,
    pub name: String,
    pub ecosystem: String,
    pub ranges: String,
    pub versions: String,
}

/// What a [`PackageRow`] holds, as mathematical values.
pub struct PackageRowView {
    pub ghsa: Seq<char>,
    pub name: Seq<char>,
    pub ecosystem: Seq<char>,
    pub ranges: Seq<char>,
    pub versions: Seq<char>,
}

impl DeepView for PackageRow {
    type V = PackageRowView;

    open spec fn deep_view(&self) -> PackageRowView {
        PackageRowView {
            ghsa: self.ghsa@,
            name: self.name@,
            ecosystem: self.ecosystem@,
            ranges: self.ranges@,
            versions: self.versions@,
        }
    }
}

impl View for PackageRow {
    type V = PackageRowView;

    open spec fn view(&self) -> PackageRowView {
        self.deep_view()
    }
}

/// Copies an optional text.
pub fn copy_text(text: &Option<String>) -> (r: Option<String>)
    ensures
        r.deep_view() == text.deep_view(),
{
    match text {
        Some(t) => Some(t.clone()),
        None => None,
    }
}

} // verus!
