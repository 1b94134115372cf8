//! Derivation of the stored columns from one advisory record.
//!
//! Three sets and one identifier are derived: the ecosystems of the affected
//! packages, the commit and the pull-request references among the reference
//! URLs, and the first CVE among the aliases. A set keeps one copy of each
//! string, in the order in which the strings first appear.

use crate::classify::{
    extract_git_commits, extract_pull_requests, is_commit_url, pull_request_base, pull_segment,
};
use crate::encode::{encode_list, encode_optional_list, encode_set, list_column, list_text,
    set_column};
use crate::error::LoadError;
use crate::record::{
    copy_text, Advisory, AdvisoryRow, AdvisoryRowView, AdvisoryView, AffectedPackage,
    AffectedPackageView, PackageRow, PackageRowView,
};
use crate::text::{chars_of, contains, matches_at, occurs_at};
use vstd::prelude::*;

verus! {

/// The prefix by which an alias is known to be a CVE identifier.
pub open spec fn cve_prefix() -> Seq<char> {
    "CVE-"@
}

/// `alias` begins with `CVE-`.
pub open spec fn is_cve(alias: Seq<char>) -> bool {
    occurs_at(alias, cve_prefix(), 0)
}

/// The test that picks the CVE identifiers among the aliases.
pub open spec fn cve_filter() -> spec_fn(Seq<char>) -> bool {
    |alias: Seq<char>| is_cve(alias)
}

/// The first alias, in list order, that begins with `CVE-`.
pub open spec fn first_cve(aliases: Seq<Seq<char>>) -> Option<Seq<char>> {
    let cves = aliases.filter(cve_filter());
    if cves.len() > 0 {
        Some(cves[0])
    } else {
        None
    }
}

/// `items` with every repetition of an earlier string left out.
pub open spec fn distinct(items: Seq<Seq<char>>) -> Seq<Seq<char>> {
    items.remove_duplicates(Seq::empty())
}

/// The ecosystem of a package.
pub open spec fn ecosystem_of() -> spec_fn(AffectedPackageView) -> Seq<char> {
    |package: AffectedPackageView| package.ecosystem
}

/// The ecosystems of the affected packages, each once.
pub open spec fn ecosystem_set(affected: Seq<AffectedPackageView>) -> Seq<Seq<char>> {
    distinct(affected.map_values(ecosystem_of()))
}

/// The test that picks the commit URLs among the references.
pub open spec fn commit_filter() -> spec_fn(Seq<char>) -> bool {
    |url: Seq<char>| is_commit_url(url)
}

/// The commit references among `urls`, each once.
pub open spec fn commit_set(urls: Seq<Seq<char>>) -> Seq<Seq<char>> {
    distinct(urls.filter(commit_filter()))
}

/// The canonical pull-request URL of a reference, if it has one.
pub open spec fn pull_request_of() -> spec_fn(Seq<char>) -> Option<Seq<char>> {
    |url: Seq<char>| pull_request_base(url)
}

/// The canonical pull-request URLs of `urls`, each once.
pub open spec fn pull_request_set(urls: Seq<Seq<char>>) -> Seq<Seq<char>> {
    distinct(urls.filter_map(pull_request_of()))
}

/// Adding one more string to the source adds it to the set unless the set
/// has it already.
pub proof fn lemma_distinct_push(items: Seq<Seq<char>>, item: Seq<char>)
    ensures
        distinct(items.push(item)) == if distinct(items).contains(item) {
            distinct(items)
        } else {
            distinct(items).push(item)
        },
{
    let none = Seq::<Seq<char>>::empty();
    items.lemma_remove_duplicates_append(item, none);
    items.lemma_remove_duplicates_properties(none);
    assert(items + none =~= items);
    assert(items.push(item) =~= items + seq![item]);
    assert(distinct(items).push(item) =~= distinct(items) + seq![item]);
}

/// A set holds exactly the strings of its source.
pub proof fn lemma_distinct_members(items: Seq<Seq<char>>, item: Seq<char>)
    ensures
        distinct(items).contains(item) <==> items.contains(item),
{
    let none = Seq::<Seq<char>>::empty();
    items.lemma_remove_duplicates_properties(none);
    assert(items + none =~= items);
}

/// A set holds no string twice.
pub proof fn lemma_distinct_no_duplicates(items: Seq<Seq<char>>)
    ensures
        distinct(items).no_duplicates(),
    decreases items.len(),
{
    if items.len() == 0 {
        assert(distinct(items) =~= Seq::<Seq<char>>::empty());
    } else {
        let front = items.drop_last();
        lemma_distinct_no_duplicates(front);
        lemma_distinct_push(front, items.last());
        assert(front.push(items.last()) =~= items);
    }
}

/// The set of an empty source is empty, and only that of an empty source is.
pub proof fn lemma_distinct_empty(items: Seq<Seq<char>>)
    ensures
        distinct(items).len() == 0 <==> items.len() == 0,
{
    if items.len() > 0 {
        lemma_distinct_members(items, items[0]);
        assert(items.contains(items[0]));
    } else {
        assert(distinct(items) =~= Seq::<Seq<char>>::empty());
    }
}

/// What is derived from a record before anything is encoded.
#[derive(Clone, Debug, PartialEq, Eq)]
pub struct Derived {
    /// The CVE identifier.
    pub cve: Option<String>,
    /// The set of ecosystems.
    pub ecosystems: Vec<String>,
    /// The set of commit references.
    pub commits: Vec<String>,
    /// The set of pull-request references.
    pub pull_requests: Vec<String>,
}

/// What a [`Derived`] holds, as mathematical values.
pub struct DerivedView {
    pub cve: Option<Seq<char>>,
    pub ecosystems: Seq<Seq<char>>,
    pub commits: Seq<Seq<char>>,
    pub pull_requests: Seq<Seq<char>>,
}

impl DeepView for Derived {
    type V = DerivedView;

    open spec fn deep_view(&self) -> DerivedView {
        DerivedView {
            cve: self.cve.deep_view(),
            ecosystems: self.ecosystems.deep_view(),
            commits: self.commits.deep_view(),
            pull_requests: self.pull_requests.deep_view(),
        }
    }
}

impl View for Derived {
    type V = DerivedView;

    open spec fn view(&self) -> DerivedView {
        self.deep_view()
    }
}

/// What is derived from a record.
pub open spec fn derived(record: AdvisoryView) -> DerivedView {
    DerivedView {
        cve: first_cve(record.alias_list()),
        ecosystems: ecosystem_set(record.affected_list()),
        commits: commit_set(record.reference_list()),
        pull_requests: pull_request_set(record.reference_list()),
    }
}

/// Decides whether `set` holds a string equal to `item`.
pub fn holds(set: &Vec<String>, item: &String) -> (r: bool)
    ensures
        r == set.deep_view().contains(item@),
{
    let mut i: usize = 0;
    while i < set.len()
        invariant
            i <= set.len(),
            forall|j: int| 0 <= j < i ==> set.deep_view()[j] != item@,
        decreases set.len() - i,
    {
        if set[i] == *item {
            assert(set.deep_view()[i as int] == item@);
            return true;
        }
        i += 1;
    }
    false
}

/// Adds `item` to `set` unless the set holds it already.
pub fn insert_distinct(set: &mut Vec<String>, item: String)
    ensures
        final(set).deep_view() == if old(set).deep_view().contains(item@) {
            old(set).deep_view()
        } else {
            old(set).deep_view().push(item@)
        },
{
    if !holds(set, &item) {
        let ghost before = set.deep_view();
        set.push(item);
        assert(set.deep_view() =~= before.push(item@));
    }
}

/// Adds the strings of `more` to `set`, in order, each unless the set holds
/// it by then.
pub fn extend_distinct(set: &mut Vec<String>, more: &Vec<String>)
    ensures
        final(set).deep_view() == more.deep_view().remove_duplicates(old(set).deep_view()),
{
    let ghost source = more.deep_view();
    assert(source.skip(0) =~= source);
    let mut i: usize = 0;
    while i < more.len()
        invariant
            i <= more.len(),
            source == more.deep_view(),
            source.remove_duplicates(old(set).deep_view()) == source.skip(
                i as int,
            ).remove_duplicates(set.deep_view()),
        decreases more.len() - i,
    {
        let ghost rest = source.skip(i as int);
        assert(rest.skip(1) =~= source.skip(i + 1));
        assert(rest[0] == more@[i as int]@);
        let ghost before = set.deep_view();
        insert_distinct(set, more[i].clone());
        assert(before.push(rest[0]) =~= before + seq![rest[0]]);
        i += 1;
    }
}

/// Picks the first alias that begins with `CVE-`.
pub fn find_cve(aliases: &Vec<String>) -> (r: Option<String>)
    ensures
        r.deep_view() == first_cve(aliases.deep_view()),
{
    let prefix = chars_of("CVE-");
    let ghost source = aliases.deep_view();
    let mut i: usize = 0;
    while i < aliases.len()
        invariant
            i <= aliases.len(),
            source == aliases.deep_view(),
            prefix@ == cve_prefix(),
            source.take(i as int).filter(cve_filter()).len() == 0,
        decreases aliases.len() - i,
    {
        let text = chars_of(aliases[i].as_str());
        let ghost seen = source.take(i as int);
        proof {
            seen.lemma_filter_push(source[i as int], cve_filter());
            assert(seen.push(source[i as int]) =~= source.take(i + 1));
        }
        if matches_at(&text, &prefix, 0) {
            proof {
                let upto = source.take(i + 1);
                let rest = source.skip(i + 1);
                Seq::filter_distributes_over_add(upto, rest, cve_filter());
                assert(upto + rest =~= source);
                assert(upto.filter(cve_filter()) =~= seq![source[i as int]]);
            }
            return Some(aliases[i].clone());
        }
        i += 1;
    }
    assert(source.take(i as int) =~= source);
    None
}

/// Collects the ecosystems of the affected packages.
pub fn collect_ecosystems(affected: &Vec<AffectedPackage>) -> (set: Vec<String>)
    ensures
        set.deep_view() == ecosystem_set(affected.deep_view()),
{
    let ghost source = affected.deep_view().map_values(ecosystem_of());
    let mut set: Vec<String> = Vec::new();
    assert(set.deep_view() =~= distinct(source.take(0)));
    let mut i: usize = 0;
    while i < affected.len()
        invariant
            i <= affected.len(),
            source == affected.deep_view().map_values(ecosystem_of()),
            set.deep_view() == distinct(source.take(i as int)),
        decreases affected.len() - i,
    {
        proof {
            lemma_distinct_push(source.take(i as int), source[i as int]);
            assert(source.take(i as int).push(source[i as int]) =~= source.take(i + 1));
        }
        insert_distinct(&mut set, affected[i].ecosystem.clone());
        i += 1;
    }
    assert(source.take(i as int) =~= source);
    set
}

/// Collects the commit references among `urls`.
pub fn collect_commits(urls: &Vec<String>) -> (set: Vec<String>)
    ensures
        set.deep_view() == commit_set(urls.deep_view()),
{
    let ghost source = urls.deep_view();
    let mut set: Vec<String> = Vec::new();
    assert(set.deep_view() =~= distinct(source.take(0).filter(commit_filter())));
    let mut i: usize = 0;
    while i < urls.len()
        invariant
            i <= urls.len(),
            source == urls.deep_view(),
            set.deep_view() == distinct(source.take(i as int).filter(commit_filter())),
        decreases urls.len() - i,
    {
        let ghost seen = source.take(i as int);
        let ghost before = set.deep_view();
        proof {
            seen.lemma_filter_push(source[i as int], commit_filter());
            assert(seen.push(source[i as int]) =~= source.take(i + 1));
            lemma_distinct_push(seen.filter(commit_filter()), source[i as int]);
        }
        match extract_git_commits(urls[i].as_str()) {
            Some(found) => {
                extend_distinct(&mut set, &found);
                proof {
                    lemma_single_extension(before, source[i as int]);
                }
            },
            None => {},
        }
        i += 1;
    }
    assert(source.take(i as int) =~= source);
    set
}

/// Collects the canonical pull-request URLs of `urls`.
pub fn collect_pull_requests(urls: &Vec<String>) -> (set: Vec<String>)
    ensures
        set.deep_view() == pull_request_set(urls.deep_view()),
{
    let ghost source = urls.deep_view();
    let mut set: Vec<String> = Vec::new();
    assert(set.deep_view() =~= distinct(source.take(0).filter_map(pull_request_of())));
    let mut i: usize = 0;
    while i < urls.len()
        invariant
            i <= urls.len(),
            source == urls.deep_view(),
            set.deep_view() == distinct(source.take(i as int).filter_map(pull_request_of())),
        decreases urls.len() - i,
    {
        let ghost seen = source.take(i as int).filter_map(pull_request_of());
        let ghost before = set.deep_view();
        proof {
            source.lemma_filter_map_take_succ(pull_request_of(), i as int);
        }
        match extract_pull_requests(urls[i].as_str()) {
            Some(found) => {
                extend_distinct(&mut set, &found);
                proof {
                    let base = pull_request_base(source[i as int]).unwrap();
                    lemma_single_extension(before, base);
                    lemma_distinct_push(seen, base);
                    assert(seen.push(base) =~= seen + seq![base]);
                }
            },
            None => {
                assert(seen + Seq::<Seq<char>>::empty() =~= seen);
            },
        }
        i += 1;
    }
    assert(source.take(i as int) =~= source);
    set
}

/// Extending a set by a single string adds it unless the set has it.
proof fn lemma_single_extension(set: Seq<Seq<char>>, item: Seq<char>)
    ensures
        seq![item].remove_duplicates(set) == if set.contains(item) {
            set
        } else {
            set.push(item)
        },
{
    reveal_with_fuel(Seq::remove_duplicates, 2);
    assert(seq![item].skip(1) =~= Seq::<Seq<char>>::empty());
    assert(set + seq![item] =~= set.push(item));
}

/// Derives the CVE identifier and the three sets of a record.
pub fn derive_fields(record: &Advisory) -> (d: Derived)
    ensures
        d@ == derived(record@),
{
    let cve = match &record.aliases {
        Some(aliases) => find_cve(aliases),
        None => {
            assert(Seq::<Seq<char>>::empty().filter(cve_filter()).len() == 0);
            None
        },
    };
    let ecosystems = match &record.affected {
        Some(affected) => collect_ecosystems(affected),
        None => {
            let set: Vec<String> = Vec::new();
            assert(set.deep_view() =~= ecosystem_set(Seq::empty()));
            set
        },
    };
    let (commits, pull_requests) = match &record.references {
        Some(urls) => (collect_commits(urls), collect_pull_requests(urls)),
        None => {
            let commits: Vec<String> = Vec::new();
            let pull_requests: Vec<String> = Vec::new();
            assert(commits.deep_view() =~= commit_set(Seq::empty()));
            assert(pull_requests.deep_view() =~= pull_request_set(Seq::empty()));
            (commits, pull_requests)
        },
    };
    Derived { cve, ecosystems, commits, pull_requests }
}

/// How the reviewed flag is stored: 1 for reviewed, 0 for not reviewed.
pub open spec fn reviewed_flag(reviewed: Option<bool>) -> Option<i64> {
    match reviewed {
        Some(true) => Some(1i64),
        Some(false) => Some(0i64),
        None => None,
    }
}

/// The weakness classifications of a record, absent where it has no
/// database-specific part or that part lists none.
pub open spec fn weakness_list(record: AdvisoryView) -> Option<Seq<Seq<char>>> {
    match record.database_specific {
        Some(specific) => specific.cwe_ids,
        None => None,
    }
}

/// The row of a record, given the columns that are derived and encoded:
/// every other column is taken over from the record as it is.
pub open spec fn assembled(
    record: AdvisoryView,
    cve: Option<Seq<char>>,
    ecosystems: Option<Seq<char>>,
    cwes: Option<Seq<char>>,
    ref_commits: Option<Seq<char>>,
    ref_pull_requests: Option<Seq<char>>,
) -> AdvisoryRowView {
    AdvisoryRowView {
        ghsa: record.id,
        schema_version: record.schema_version,
        modified: record.modified,
        published: record.published,
        withdrawn: record.withdrawn,
        cve,
        ecosystems,
        summary: record.summary,
        details: record.details,
        severity: match record.database_specific {
            Some(specific) => specific.severity,
            None => None,
        },
        cwes,
        github_reviewed: match record.database_specific {
            Some(specific) => reviewed_flag(specific.github_reviewed),
            None => None,
        },
        github_reviewed_at: match record.database_specific {
            Some(specific) => specific.github_reviewed_at,
            None => None,
        },
        nvd_published_at: match record.database_specific {
            Some(specific) => specific.nvd_published_at,
            None => None,
        },
        ref_commits,
        ref_pull_requests,
    }
}

/// The row that is stored for a record, or the error that fails its batch:
/// the three sets are stored as absent where they are empty, the weakness
/// list as absent where the record has none.
pub open spec fn advisory_row(record: AdvisoryView) -> Result<AdvisoryRowView, LoadError> {
    let sets = derived(record);
    match (
        set_column(sets.ecosystems),
        list_column(weakness_list(record)),
        set_column(sets.commits),
        set_column(sets.pull_requests),
    ) {
        (Ok(ecosystems), Ok(cwes), Ok(ref_commits), Ok(ref_pull_requests)) => Ok(
            assembled(record, sets.cve, ecosystems, cwes, ref_commits, ref_pull_requests),
        ),
        _ => Err(LoadError::Serialization),
    }
}

/// The row of an affected package, given its encoded list of versions.
pub open spec fn assembled_package(
    id: Seq<char>,
    package: AffectedPackageView,
    versions: Seq<char>,
) -> PackageRowView {
    PackageRowView {
        ghsa: id,
        name: package.name,
        ecosystem: package.ecosystem,
        ranges: package.ranges,
        versions,
    }
}

/// The row that is stored for a package affected by the advisory `id`, or the
/// error that fails the batch.
pub open spec fn package_row(id: Seq<char>, package: AffectedPackageView) -> Result<
    PackageRowView,
    LoadError,
> {
    match list_text(package.versions) {
        Ok(versions) => Ok(assembled_package(id, package, versions)),
        Err(e) => Err(e),
    }
}

/// Puts the row of a record together from the record and the columns that
/// were derived and encoded for it.
pub fn assemble_row(
    record: &Advisory,
    cve: Option<String>,
    ecosystems: Option<String>,
    cwes: Option<String>,
    ref_commits: Option<String>,
    ref_pull_requests: Option<String>,
) -> (row: AdvisoryRow)
    ensures
        row@ == assembled(
            record@,
            cve.deep_view(),
            ecosystems.deep_view(),
            cwes.deep_view(),
            ref_commits.deep_view(),
            ref_pull_requests.deep_view(),
        ),
{
    let (severity, github_reviewed, github_reviewed_at, nvd_published_at) =
        match &record.database_specific {
        Some(specific) => {
            let reviewed: Option<i64> = match specific.github_reviewed {
                Some(true) => Some(1i64),
                Some(false) => Some(0i64),
                None => None,
            };
            (
                copy_text(&specific.severity),
                reviewed,
                copy_text(&specific.github_reviewed_at),
                copy_text(&specific.nvd_published_at),
            )
        },
        None => (None, None, None, None),
    };
    AdvisoryRow {
        ghsa: record.id.clone(),
        schema_version: copy_text(&record.schema_version),
        modified: record.modified.clone(),
        published: copy_text(&record.published),
        withdrawn: copy_text(&record.withdrawn),
        cve,
        ecosystems,
        summary: copy_text(&record.summary),
        details: copy_text(&record.details),
        severity,
        cwes,
        github_reviewed,
        github_reviewed_at,
        nvd_published_at,
        ref_commits,
        ref_pull_requests,
    }
}

/// Normalizes one record into the row that is stored for it.
///
/// Fails only where a list cannot be encoded, and so never for a record
/// without affected packages, weakness list, commit and pull-request
/// references.
pub fn normalize(record: &Advisory) -> (r: Result<AdvisoryRow, LoadError>)
    ensures
        match r {
            Ok(row) => advisory_row(record@) == Ok::<AdvisoryRowView, LoadError>(row@),
            Err(e) => advisory_row(record@) == Err::<AdvisoryRowView, LoadError>(e),
        },
        record@.affected_list().len() == 0 ==> (r matches Ok(row) ==> row.ecosystems is None),
        r matches Err(e) ==> e == LoadError::Serialization,
{
    let sets = derive_fields(record);
    let ecosystems = match encode_set(&sets.ecosystems) {
        Ok(column) => column,
        Err(_) => {
            return Err(LoadError::Serialization);
        },
    };
    let cwes = match &record.database_specific {
        Some(specific) => match encode_optional_list(&specific.cwe_ids) {
            Ok(column) => column,
            Err(_) => {
                return Err(LoadError::Serialization);
            },
        },
        None => None,
    };
    let ref_commits = match encode_set(&sets.commits) {
        Ok(column) => column,
        Err(_) => {
            return Err(LoadError::Serialization);
        },
    };
    let ref_pull_requests = match encode_set(&sets.pull_requests) {
        Ok(column) => column,
        Err(_) => {
            return Err(LoadError::Serialization);
        },
    };
    proof {
        lemma_distinct_empty(record@.affected_list().map_values(ecosystem_of()));
    }
    Ok(assemble_row(record, sets.cve, ecosystems, cwes, ref_commits, ref_pull_requests))
}

/// Puts the row of an affected package together from the package and its
/// encoded list of versions.
pub fn assemble_package_row(id: &String, package: &AffectedPackage, versions: String) -> (row:
    PackageRow)
    ensures
        row@ == assembled_package(id@, package@, versions@),
{
    PackageRow {
        ghsa: id.clone(),
        name: package.name.clone(),
        ecosystem: package.ecosystem.clone(),
        ranges: package.ranges.clone(),
        versions,
    }
}

/// Makes the row that is stored for a package affected by the advisory `id`.
pub fn make_package_row(id: &String, package: &AffectedPackage) -> (r: Result<
    PackageRow,
    LoadError,
>)
    ensures
        match r {
            Ok(row) => package_row(id@, package@) == Ok::<PackageRowView, LoadError>(row@),
            Err(e) => package_row(id@, package@) == Err::<PackageRowView, LoadError>(e),
        },
        r matches Err(e) ==> e == LoadError::Serialization,
{
    match encode_list(&package.versions) {
        Ok(versions) => Ok(assemble_package_row(id, package, versions)),
        Err(e) => Err(e),
    }
}

/// The first CVE is the alias at the least index that begins with `CVE-`;
/// there is none exactly when no alias begins so.
pub proof fn lemma_first_cve(aliases: Seq<Seq<char>>)
    ensures
        match first_cve(aliases) {
            Some(cve) => exists|i: int|
                {
                    &&& 0 <= i < aliases.len()
                    &&& #[trigger] aliases[i] == cve
                    &&& is_cve(cve)
                    &&& forall|j: int| 0 <= j < i ==> !is_cve(#[trigger] aliases[j])
                },
            None => forall|i: int| 0 <= i < aliases.len() ==> !is_cve(#[trigger] aliases[i]),
        },
    decreases aliases.len(),
{
    if aliases.len() == 0 {
        assert(aliases.filter(cve_filter()).len() == 0) by {
            aliases.lemma_filter_len(cve_filter());
        }
    } else {
        let front = aliases.drop_last();
        let last = aliases.last();
        lemma_first_cve(front);
        front.lemma_filter_push(last, cve_filter());
        assert(front.push(last) =~= aliases);
        match first_cve(front) {
            Some(cve) => {
                let i = choose|i: int|
                    {
                        &&& 0 <= i < front.len()
                        &&& #[trigger] front[i] == cve
                        &&& is_cve(cve)
                        &&& forall|j: int| 0 <= j < i ==> !is_cve(#[trigger] front[j])
                    };
                assert(aliases[i] == cve);
                assert forall|j: int| 0 <= j < i implies !is_cve(#[trigger] aliases[j]) by {
                    assert(aliases[j] == front[j]);
                }
                assert(first_cve(aliases) == Some(cve));
            },
            None => {
                assert forall|j: int| 0 <= j < front.len() implies !is_cve(
                    #[trigger] aliases[j],
                ) by {
                    assert(aliases[j] == front[j]);
                }
                if is_cve(last) {
                    assert(aliases.filter(cve_filter()) =~= seq![last]);
                    assert(aliases[aliases.len() - 1] == last);
                }
            },
        }
    }
}

/// The commit set holds exactly the reference URLs that denote a commit,
/// unchanged; none of them has `/pull/` in it.
pub proof fn lemma_commit_set_members(urls: Seq<Seq<char>>, url: Seq<char>)
    ensures
        commit_set(urls).contains(url) <==> urls.contains(url) && is_commit_url(url),
        commit_set(urls).contains(url) ==> !contains(url, pull_segment()),
{
    let picked = urls.filter(commit_filter());
    lemma_distinct_members(picked, url);
    if picked.contains(url) {
        let i = choose|i: int| 0 <= i < picked.len() && picked[i] == url;
        urls.lemma_filter_pred(commit_filter(), i);
        urls.lemma_filter_contains_rev(commit_filter(), url);
    }
    if urls.contains(url) && is_commit_url(url) {
        let i = choose|i: int| 0 <= i < urls.len() && urls[i] == url;
        urls.lemma_filter_contains(commit_filter(), i);
    }
}

/// The pull-request set holds exactly the canonical pull-request URLs of the
/// reference URLs.
pub proof fn lemma_pull_request_set_members(urls: Seq<Seq<char>>, base: Seq<char>)
    ensures
        pull_request_set(urls).contains(base) <==> exists|i: int|
            0 <= i < urls.len() && pull_request_base(#[trigger] urls[i]) == Some(base),
{
    let picked = urls.filter_map(pull_request_of());
    lemma_distinct_members(picked, base);
    lemma_filter_map_members(urls, base);
}

/// What `filter_map` keeps of the reference URLs: the canonical pull-request
/// URL of each URL that has one.
proof fn lemma_filter_map_members(urls: Seq<Seq<char>>, base: Seq<char>)
    ensures
        urls.filter_map(pull_request_of()).contains(base) <==> exists|i: int|
            0 <= i < urls.len() && pull_request_base(#[trigger] urls[i]) == Some(base),
    decreases urls.len(),
{
    let picked = urls.filter_map(pull_request_of());
    if urls.len() == 0 {
        assert(picked =~= Seq::<Seq<char>>::empty());
    } else {
        let front = urls.drop_last();
        let last = urls.last();
        let before = front.filter_map(pull_request_of());
        lemma_filter_map_members(front, base);
        assert(pull_request_of()(last) == pull_request_base(last));
        if before.contains(base) {
            let k = choose|k: int| 0 <= k < before.len() && before[k] == base;
            assert(picked[k] == base);
            let i = choose|i: int|
                0 <= i < front.len() && pull_request_base(#[trigger] front[i]) == Some(base);
            assert(urls[i] == front[i]);
        } else if pull_request_base(last) == Some(base) {
            assert(picked =~= before + seq![base]);
            assert(picked[picked.len() - 1] == base);
            assert(urls[urls.len() - 1] == last);
        } else {
            if picked.contains(base) {
                let k = choose|k: int| 0 <= k < picked.len() && picked[k] == base;
                if k < before.len() {
                    assert(before[k] == base);
                }
            }
            if exists|i: int|
                0 <= i < urls.len() && pull_request_base(#[trigger] urls[i]) == Some(base) {
                let i = choose|i: int|
                    0 <= i < urls.len() && pull_request_base(#[trigger] urls[i]) == Some(base);
                if i < front.len() {
                    assert(front[i] == urls[i]);
                }
            }
        }
    }
}

/// The ecosystem set holds exactly the ecosystems of the affected packages.
pub proof fn lemma_ecosystem_set_members(
    affected: Seq<AffectedPackageView>,
    ecosystem: Seq<char>,
)
    ensures
        ecosystem_set(affected).contains(ecosystem) <==> exists|i: int|
            0 <= i < affected.len() && (#[trigger] affected[i]).ecosystem == ecosystem,
{
    let named = affected.map_values(ecosystem_of());
    lemma_distinct_members(named, ecosystem);
    if named.contains(ecosystem) {
        let i = choose|i: int| 0 <= i < named.len() && named[i] == ecosystem;
        assert(affected[i].ecosystem == ecosystem);
    }
    if exists|i: int| 0 <= i < affected.len() && (#[trigger] affected[i]).ecosystem == ecosystem {
        let i = choose|i: int|
            0 <= i < affected.len() && (#[trigger] affected[i]).ecosystem == ecosystem;
        assert(named[i] == ecosystem);
    }
}

/// A set column is present only where its set is not empty: the ecosystems
/// where a package is affected, the commit references where a reference
/// denotes a commit, the pull-request references where a reference has a
/// canonical pull-request URL. An empty set is stored as absent.
pub proof fn lemma_set_columns_present(record: AdvisoryView)
    ensures
        advisory_row(record) matches Ok(row) ==> {
            &&& row.ecosystems is Some <==> record.affected_list().len() > 0
            &&& row.ref_commits is Some <==> exists|i: int|
                0 <= i < record.reference_list().len() && is_commit_url(
                    #[trigger] record.reference_list()[i],
                )
            &&& row.ref_pull_requests is Some <==> exists|i: int|
                0 <= i < record.reference_list().len() && pull_request_base(
                    #[trigger] record.reference_list()[i],
                ) is Some
            &&& row.cve == first_cve(record.alias_list())
            &&& row.ghsa == record.id
        },
{
    let urls = record.reference_list();
    let sets = derived(record);
    lemma_distinct_empty(record.affected_list().map_values(ecosystem_of()));
    if sets.commits.len() > 0 {
        let url = sets.commits[0];
        assert(sets.commits.contains(url));
        lemma_commit_set_members(urls, url);
        let i = choose|i: int| 0 <= i < urls.len() && urls[i] == url;
        assert(is_commit_url(urls[i]));
    }
    if exists|i: int| 0 <= i < urls.len() && is_commit_url(#[trigger] urls[i]) {
        let i = choose|i: int| 0 <= i < urls.len() && is_commit_url(#[trigger] urls[i]);
        assert(urls.contains(urls[i]));
        lemma_commit_set_members(urls, urls[i]);
    }
    if sets.pull_requests.len() > 0 {
        let base = sets.pull_requests[0];
        assert(sets.pull_requests.contains(base));
        lemma_pull_request_set_members(urls, base);
    }
    if exists|i: int| 0 <= i < urls.len() && pull_request_base(#[trigger] urls[i]) is Some {
        let i = choose|i: int|
            0 <= i < urls.len() && pull_request_base(#[trigger] urls[i]) is Some;
        lemma_pull_request_set_members(urls, pull_request_base(urls[i])->0);
    }
}

/// A record without affected packages has no ecosystems column, whether its
/// list of packages is empty or absent.
pub proof fn lemma_no_packages_no_ecosystems(record: AdvisoryView)
    requires
        record.affected_list().len() == 0,
    ensures
        advisory_row(record) matches Ok(row) ==> row.ecosystems is None,
{
    lemma_set_columns_present(record);
}

/// A record with nothing to encode is always normalized: one without
/// affected packages, weakness list, commit and pull-request references.
pub proof fn lemma_plain_record_is_normalized(record: AdvisoryView)
    requires
        record.affected_list().len() == 0,
        weakness_list(record) is None,
        forall|i: int|
            0 <= i < record.reference_list().len() ==> !is_commit_url(
                #[trigger] record.reference_list()[i],
            ) && pull_request_base(record.reference_list()[i]) is None,
    ensures
        advisory_row(record) is Ok,
{
    let urls = record.reference_list();
    let sets = derived(record);
    lemma_distinct_empty(record.affected_list().map_values(ecosystem_of()));
    if sets.commits.len() > 0 {
        let url = sets.commits[0];
        assert(sets.commits.contains(url));
        lemma_commit_set_members(urls, url);
        let i = choose|i: int| 0 <= i < urls.len() && urls[i] == url;
        assert(is_commit_url(urls[i]));
    }
    if sets.pull_requests.len() > 0 {
        let base = sets.pull_requests[0];
        assert(sets.pull_requests.contains(base));
        lemma_pull_request_set_members(urls, base);
    }
}

} // verus!
