//! Packages of the AUR: searching them, and fetching their build recipes.

use vstd::prelude::*;
use vstd::string::*;
use vstd::utf8::encode_utf8;
use chrono::{TimeZone, Utc};
use crate::order::{
    arranged, arranged_by, lemma_arranged_in_order, lemma_arranged_len, lemma_arranged_mapped,
    lemma_arranged_permutes, ranks, reversed, sort, Order,
};
use crate::partition::{
    cloned_names, not_real_names, partition_aur_pkgs, to_clone_names, PkgPartition,
};
use crate::report::{tells, Failure, Field, Notice, Row, Tone};
use crate::sync::{clone_jobs, is_plan_for, CloneJob};
use crate::text::{
    chars_of, comes_before, contains, decimal, join_with, joined_with,
    lemma_precedes_asymmetric, lemma_precedes_ranks, lowercase, occurs_in, precedes, texts,
    to_decimal, to_lowercase,
};

verus! {

/// How a command ends when it does not succeed. Each variant but the last
/// holds the words of the error that it stands for.
#[derive(Debug)]
pub enum Error {
    /// The AUR could not be asked, or did not answer.
    Raur(String),
    /// A directory of the program could not be found or made.
    Dirs(String),
    /// Reading or writing failed.
    Io(String),
    /// The version-control client failed.
    Git(String),
    /// The user has been told already; nothing is left to say.
    Silent,
}

impl Error {
    /// The words of the error: what it holds, and nothing for `Silent`.
    pub open spec fn words(&self) -> Seq<char> {
        match self {
            Error::Raur(e) => e@,
            Error::Dirs(e) => e@,
            Error::Io(e) => e@,
            Error::Git(e) => e@,
            Error::Silent => Seq::empty(),
        }
    }

    /// The words of the error, as they are shown.
    pub fn message(&self) -> (text: String)
        ensures
            text@ == self.words(),
    {
        match self {
            Error::Raur(e) => e.clone(),
            Error::Dirs(e) => e.clone(),
            Error::Io(e) => e.clone(),
            Error::Git(e) => e.clone(),
            Error::Silent => String::new(),
        }
    }
}

/// What the AUR tells of one package.
#[derive(Clone, Debug)]
pub struct Package {
    pub name: String,
    pub version: String,
    pub description: Option<String>,
    pub url: Option<String>,
    pub num_votes: u64,
    /// The popularity score, written out with two decimals.
    pub popularity: String,
    /// When the package was flagged as out of date, in seconds since 1970.
    pub out_of_date: Option<i64>,
    pub maintainer: Option<String>,
    pub first_submitted: i64,
    pub last_modified: i64,
    pub license: Vec<String>,
    pub groups: Vec<String>,
    pub provides: Vec<String>,
    pub depends: Vec<String>,
    pub make_depends: Vec<String>,
    pub opt_depends: Vec<String>,
    pub check_depends: Vec<String>,
    pub keywords: Vec<String>,
}

/// Packages by name, in dictionary order.
pub struct ByName;

/// Packages by votes, the most voted first.
pub struct ByVotes;

/// Search terms by their length in bytes, the shortest first.
pub struct ByLength;

impl Order<Package> for ByName {
    open spec fn before(&self, a: &Package, b: &Package) -> bool {
        precedes(a.name@, b.name@)
    }

    fn is_before(&self, a: &Package, b: &Package) -> (yes: bool) {
        comes_before(a.name.as_str(), b.name.as_str())
    }
}

impl Order<Package> for ByVotes {
    open spec fn before(&self, a: &Package, b: &Package) -> bool {
        a.num_votes > b.num_votes
    }

    fn is_before(&self, a: &Package, b: &Package) -> (yes: bool) {
        a.num_votes > b.num_votes
    }
}

impl Order<String> for ByLength {
    open spec fn before(&self, a: &String, b: &String) -> bool {
        encode_utf8(a@).len() < encode_utf8(b@).len()
    }

    fn is_before(&self, a: &String, b: &String) -> (yes: bool) {
        a.as_str().as_bytes().len() < b.as_str().as_bytes().len()
    }
}

/// The terms of a search, ready for use: the longest is looked up at the AUR,
/// the others thin out what the lookup brings.
#[derive(Debug)]
pub struct SearchQuery {
    /// The longest term, in lower case.
    pub lookup: String,
    /// The other terms, in lower case, the shortest first.
    pub filters: Vec<String>,
}

/// A text is shorter than another: its encoding in UTF-8 has fewer bytes.
pub open spec fn shorter() -> spec_fn(Seq<char>, Seq<char>) -> bool {
    |a: Seq<char>, b: Seq<char>| encode_utf8(a).len() < encode_utf8(b).len()
}

/// The lower-case form of a text.
pub open spec fn folding() -> spec_fn(Seq<char>) -> Seq<char> {
    |t: Seq<char>| lowercase(t)
}

/// The terms of a search as they are used: each in lower case, and then
/// arranged by length, the shortest first and terms of one length in the
/// order given.
pub open spec fn query_terms(terms: Seq<Seq<char>>) -> Seq<Seq<char>> {
    arranged_by(shorter(), terms.map_values(folding()))
}

/// Prepares the terms of a search: each is put into lower case, as names and
/// descriptions are when they are compared with it, and then the terms are
/// arranged by length. The last of them, a longest one, is the term to look
/// up; the others are the filters.
pub fn search_query(terms: Vec<String>) -> (query: SearchQuery)
    requires
        terms.len() > 0,
    ensures
        texts(query.filters@).push(query.lookup@) == query_terms(texts(terms@)),
{
    let mut folded: Vec<String> = Vec::new();
    let mut i: usize = 0;
    while i < terms.len()
        invariant
            i <= terms.len(),
            folded.len() == i,
            forall|k: int| 0 <= k < i ==> (#[trigger] folded@[k])@ == lowercase(terms@[k]@),
        decreases terms.len() - i,
    {
        folded.push(to_lowercase(terms[i].as_str()));
        i += 1;
    }
    let ghost lowered = folded@;
    assert(texts(lowered) =~= texts(terms@).map_values(folding()));
    let mut sorted = sort(folded, &ByLength);
    proof {
        lemma_arranged_len(&ByLength, lowered);
        let view = |s: String| s@;
        assert forall|a: String, b: String| #[trigger]
            ByLength.before(&a, &b) == shorter()(view(a), view(b)) by {}
        lemma_arranged_mapped(&ByLength, lowered, view, shorter());
        assert(texts(lowered) =~= lowered.map_values(view));
        assert(texts(sorted@) =~= sorted@.map_values(view));
    }
    let ghost all = sorted@;
    let lookup = sorted.pop().unwrap();
    assert(texts(sorted@).push(lookup@) =~= texts(all));
    SearchQuery { lookup, filters: sorted }
}

/// The characters of each row of `v`.
pub open spec fn rows(v: Seq<Vec<char>>) -> Seq<Seq<char>> {
    v.map_values(|r: Vec<char>| r@)
}

/// Every one of `terms` is part of `name` or part of `description`.
pub open spec fn matches_all(name: Seq<char>, description: Seq<char>, terms: Seq<Seq<char>>) -> bool {
    forall|i: int|
        0 <= i < terms.len() ==> contains(name, #[trigger] terms[i]) || contains(
            description,
            terms[i],
        )
}

/// The description of `p` in lower case; the empty text where it has none.
pub open spec fn folded_description(p: Package) -> Seq<char> {
    match p.description {
        Some(d) => lowercase(d@),
        None => Seq::empty(),
    }
}

/// The package `p` answers to `terms`: each of them is part of its name or of
/// its description, both taken in lower case.
pub open spec fn is_match(p: Package, terms: Seq<Seq<char>>) -> bool {
    matches_all(lowercase(p.name@), folded_description(p), terms)
}

/// `is_match` for fixed `terms`, as a test on packages.
pub open spec fn answers_to(terms: Seq<Seq<char>>) -> spec_fn(Package) -> bool {
    |p: Package| is_match(p, terms)
}

/// What is shown of `matches`: they are arranged by name if `alpha` is set and
/// by votes if not, turned round if `rev` is set, and cut down to the first
/// `limit` where a limit is given.
pub open spec fn shown(matches: Seq<Package>, alpha: bool, rev: bool, limit: Option<usize>) -> Seq<
    Package,
> {
    let sorted = if alpha {
        arranged(&ByName, matches)
    } else {
        arranged(&ByVotes, matches)
    };
    let turned = if rev {
        sorted.reverse()
    } else {
        sorted
    };
    match limit {
        Some(n) => if n < turned.len() {
            turned.take(n as int)
        } else {
            turned
        },
        None => turned,
    }
}

/// What is shown by votes holds each match once and has no package before
/// one with more votes.
pub proof fn lemma_shown_by_votes(matches: Seq<Package>)
    ensures
        shown(matches, false, false, None).to_multiset() == matches.to_multiset(),
        forall|i: int, j: int|
            0 <= i < j < matches.len() ==> shown(matches, false, false, None)[i].num_votes
                >= shown(matches, false, false, None)[j].num_votes,
{
    let order = ByVotes;
    assert(ranks(&order));
    lemma_arranged_in_order(&order, matches);
    lemma_arranged_permutes(&order, matches);
    lemma_arranged_len(&order, matches);
    let out = arranged(&order, matches);
    assert forall|i: int, j: int| 0 <= i < j < matches.len() implies out[i].num_votes
        >= out[j].num_votes by {
        assert(!order.before(&out[j], &out[i]));
    }
}

/// What is shown by name holds each match once and has no package before
/// one whose name comes before its own.
pub proof fn lemma_shown_by_name(matches: Seq<Package>)
    ensures
        shown(matches, true, false, None).to_multiset() == matches.to_multiset(),
        forall|i: int, j: int|
            0 <= i < j < matches.len() ==> !precedes(
                shown(matches, true, false, None)[j].name@,
                shown(matches, true, false, None)[i].name@,
            ),
{
    let order = ByName;
    assert forall|a: Package, b: Package| #[trigger] order.before(&a, &b) implies !order.before(
        &b,
        &a,
    ) by {
        lemma_precedes_asymmetric(a.name@, b.name@);
    }
    assert forall|a: Package, b: Package, c: Package|
        #![trigger order.before(&a, &b), order.before(&b, &c)]
        !order.before(&a, &b) && !order.before(&b, &c) implies !order.before(&a, &c) by {
        lemma_precedes_ranks(a.name@, b.name@, c.name@);
    }
    assert(ranks(&order));
    lemma_arranged_in_order(&order, matches);
    lemma_arranged_permutes(&order, matches);
    lemma_arranged_len(&order, matches);
    let out = arranged(&order, matches);
    assert forall|i: int, j: int| 0 <= i < j < matches.len() implies !precedes(
        out[j].name@,
        out[i].name@,
    ) by {
        assert(!order.before(&out[j], &out[i]));
    }
}

/// A limit shows the first of what is shown without it, and turning round
/// shows the same packages, the last first.
pub proof fn lemma_shown_limited(matches: Seq<Package>, alpha: bool, rev: bool, limit: usize)
    ensures
        shown(matches, alpha, rev, Some(limit)).len() == if limit < matches.len() {
            limit as nat
        } else {
            matches.len()
        },
        shown(matches, alpha, rev, Some(limit)) == shown(matches, alpha, rev, None).take(
            shown(matches, alpha, rev, Some(limit)).len() as int,
        ),
        shown(matches, alpha, true, None) == shown(matches, alpha, false, None).reverse(),
{
    lemma_arranged_len(&ByName, matches);
    lemma_arranged_len(&ByVotes, matches);
    let all = shown(matches, alpha, rev, None);
    assert(all.len() == matches.len());
    assert(all.take(all.len() as int) =~= all);
}

/// Whether every one of `terms` is part of `name` or of `description`. The
/// two texts are taken as they are: the caller has folded their case.
pub fn matches_terms(name: &str, description: &str, terms: &Vec<Vec<char>>) -> (yes: bool)
    ensures
        yes == matches_all(name@, description@, rows(terms@)),
{
    let name_chars = chars_of(name);
    let description_chars = chars_of(description);
    let mut i: usize = 0;
    while i < terms.len()
        invariant
            i <= terms.len(),
            name_chars@ == name@,
            description_chars@ == description@,
            forall|k: int|
                0 <= k < i ==> contains(name@, #[trigger] rows(terms@)[k]) || contains(
                    description@,
                    rows(terms@)[k],
                ),
        decreases terms.len() - i,
    {
        if !occurs_in(&name_chars, &terms[i]) && !occurs_in(&description_chars, &terms[i]) {
            assert(rows(terms@)[i as int] == terms@[i as int]@);
            return false;
        }
        i += 1;
    }
    true
}

/// Whether the package `p` answers to `terms`.
fn answers(p: &Package, terms: &Vec<Vec<char>>) -> (yes: bool)
    ensures
        yes == is_match(*p, rows(terms@)),
{
    let name = to_lowercase(p.name.as_str());
    match &p.description {
        Some(d) => {
            let description = to_lowercase(d.as_str());
            matches_terms(name.as_str(), description.as_str(), terms)
        },
        None => {
            proof {
                reveal_strlit("");
                assert(""@ =~= Seq::<char>::empty());
            }
            matches_terms(name.as_str(), "", terms)
        },
    }
}

/// Keeps of `records`, in their order, the packages whose name or description
/// holds every one of `filters`. Names and descriptions are compared in lower
/// case; the filters are taken as they are, since a query holds them in
/// lower case.
pub fn retain_matching(records: Vec<Package>, filters: &Vec<String>) -> (kept: Vec<Package>)
    ensures
        kept@ == records@.filter(answers_to(texts(filters@))),
{
    let mut terms: Vec<Vec<char>> = Vec::new();
    let mut i: usize = 0;
    while i < filters.len()
        invariant
            i <= filters.len(),
            terms.len() == i,
            forall|k: int| 0 <= k < i ==> (#[trigger] terms@[k])@ == filters@[k]@,
        decreases filters.len() - i,
    {
        terms.push(chars_of(filters[i].as_str()));
        i += 1;
    }
    assert(rows(terms@) =~= texts(filters@));
    let ghost all = records@;
    let ghost wanted = answers_to(texts(filters@));
    let mut kept: Vec<Package> = Vec::new();
    for p in it: records
        invariant
            it.seq() == all,
            rows(terms@) == texts(filters@),
            wanted == answers_to(texts(filters@)),
            kept@ == all.take(it.index()).filter(wanted),
    {
        proof {
            assert(all.take(it.index() + 1) =~= all.take(it.index()).push(p));
            all.take(it.index()).lemma_filter_push(p, wanted);
        }
        if answers(&p, &terms) {
            kept.push(p);
        }
    }
    assert(all.take(all.len() as int) =~= all);
    kept
}

/// Puts `matches` into the order in which they are shown, and cuts them down
/// to `limit`.
pub fn arrange(matches: Vec<Package>, alpha: bool, rev: bool, limit: Option<usize>) -> (out: Vec<
    Package,
>)
    ensures
        out@ == shown(matches@, alpha, rev, limit),
{
    let sorted = if alpha {
        sort(matches, &ByName)
    } else {
        sort(matches, &ByVotes)
    };
    let mut turned = if rev {
        reversed(sorted)
    } else {
        sorted
    };
    match limit {
        Some(n) => {
            if n < turned.len() {
                turned.truncate(n);
            }
        },
        None => {},
    }
    turned
}

/// What a search shows: of the packages `found` for the query's lookup term,
/// those that answer to its other terms, arranged and cut down as asked.
pub fn search(
    query: &SearchQuery,
    found: Vec<Package>,
    alpha: bool,
    rev: bool,
    limit: Option<usize>,
) -> (out: Vec<Package>)
    ensures
        out@ == shown(found@.filter(answers_to(texts(query.filters@))), alpha, rev, limit),
{
    arrange(retain_matching(found, &query.filters), alpha, rev, limit)
}


/// The address of the page that the AUR has for `package`.
pub open spec fn package_page(package: Seq<char>) -> Seq<char> {
    "https://aur.archlinux.org/packages/"@ + package
}

/// A package's page at the AUR.
pub fn package_url(package: &str) -> (url: String)
    ensures
        url@ == package_page(package@),
{
    let mut url = String::from_str("https://aur.archlinux.org/packages/");
    url.append(package);
    url
}

/// The day on which the moment `epoch` seconds after the start of 1970 falls
/// in universal time, written as year, month and day with `-` between them,
/// as `chrono` writes it; nothing where `chrono` cannot hold the moment.
pub uninterp spec fn utc_day(epoch: i64) -> Option<Seq<char>>;

/// The text that `date` holds, if it holds one.
pub open spec fn text_of(date: Option<String>) -> Option<Seq<char>> {
    match date {
        Some(d) => Some(d@),
        None => None,
    }
}

/// The day on which the moment `epoch` falls, if there is such a day. It is
/// `chrono` that is asked: `TimeZone::timestamp_opt` of `Utc` makes the
/// moment, and where it gives one, `DateTime::format` writes it by the pattern
/// `%F`. The answer depends on `epoch` alone; nothing more is claimed of it.
#[verifier::external_body]
fn package_date(epoch: i64) -> (date: Option<String>)
    ensures
        text_of(date) == utc_day(epoch),
{
    match Utc.timestamp_opt(epoch, 0).single() {
        Some(moment) => Some(moment.format("%F").to_string()),
        None => None,
    }
}

/// The words of `names` with a blank between each two.
pub open spec fn spaced(names: Vec<String>) -> Seq<char> {
    joined_with(texts(names@), " "@)
}

/// `rows` is the description of `p`, where `submitted` and `updated` are the
/// days on which it was first submitted and last changed.
pub open spec fn is_info_of(
    rows: Seq<Row>,
    p: Package,
    submitted: Seq<char>,
    updated: Seq<char>,
) -> bool {
    &&& rows.len() == 20
    &&& tells(rows[0], Field::Repo, "aur"@, Tone::Magenta)
    &&& tells(rows[1], Field::Name, p.name@, Tone::Bold)
    &&& tells(rows[2], Field::Version, p.version@, Tone::Plain)
    &&& match p.out_of_date {
        None => tells(rows[3], Field::Status, "Up to Date"@, Tone::Green),
        Some(_) => tells(rows[3], Field::Status, "Out of Date!"@, Tone::Red),
    }
    &&& match p.maintainer {
        None => tells(rows[4], Field::Maintainer, "None"@, Tone::Red),
        Some(m) => tells(rows[4], Field::Maintainer, m@, Tone::Plain),
    }
    &&& match p.url {
        None => tells(rows[5], Field::ProjectUrl, "None"@, Tone::Red),
        Some(u) => tells(rows[5], Field::ProjectUrl, u@, Tone::Cyan),
    }
    &&& tells(rows[6], Field::AurUrl, package_page(p.name@), Tone::Plain)
    &&& tells(rows[7], Field::License, spaced(p.license), Tone::Plain)
    &&& tells(rows[8], Field::Groups, spaced(p.groups), Tone::Plain)
    &&& tells(rows[9], Field::Provides, spaced(p.provides), Tone::Plain)
    &&& tells(rows[10], Field::Depends, spaced(p.depends), Tone::Plain)
    &&& tells(rows[11], Field::MakeDepends, spaced(p.make_depends), Tone::Plain)
    &&& tells(rows[12], Field::OptDepends, spaced(p.opt_depends), Tone::Plain)
    &&& tells(rows[13], Field::CheckDepends, spaced(p.check_depends), Tone::Plain)
    &&& tells(rows[14], Field::Votes, decimal(p.num_votes as nat), Tone::Yellow)
    &&& tells(rows[15], Field::Popularity, p.popularity@, Tone::Yellow)
    &&& match p.description {
        None => tells(rows[16], Field::Description, "None"@, Tone::Red),
        Some(d) => tells(rows[16], Field::Description, d@, Tone::Plain),
    }
    &&& tells(rows[17], Field::Keywords, spaced(p.keywords), Tone::Cyan)
    &&& tells(rows[18], Field::Submitted, submitted, Tone::Plain)
    &&& tells(rows[19], Field::Updated, updated, Tone::Plain)
}

/// A row for something that a package may lack: its words in `tone`, or
/// `None` in red.
fn row_or_none(field: Field, text: &Option<String>, tone: Tone) -> (row: Row)
    ensures
        match *text {
            None => tells(row, field, "None"@, Tone::Red),
            Some(t) => tells(row, field, t@, tone),
        },
{
    match text {
        None => Row { field, text: String::from_str("None"), tone: Tone::Red },
        Some(t) => Row { field, text: t.clone(), tone },
    }
}

/// A row of names with blanks between them.
fn row_of_names(field: Field, names: &Vec<String>, tone: Tone) -> (row: Row)
    ensures
        tells(row, field, spaced(*names), tone),
{
    Row { field, text: join_with(names, " "), tone }
}

/// Describes the package `p` line by line, given the days on which it was
/// first submitted and last changed.
pub fn info_rows(p: &Package, submitted: String, updated: String) -> (rows: Vec<Row>)
    ensures
        is_info_of(rows@, *p, submitted@, updated@),
{
    let mut rows: Vec<Row> = Vec::new();
    rows.push(Row { field: Field::Repo, text: String::from_str("aur"), tone: Tone::Magenta });
    rows.push(Row { field: Field::Name, text: p.name.clone(), tone: Tone::Bold });
    rows.push(Row { field: Field::Version, text: p.version.clone(), tone: Tone::Plain });
    rows.push(
        match p.out_of_date {
            None => Row {
                field: Field::Status,
                text: String::from_str("Up to Date"),
                tone: Tone::Green,
            },
            Some(_) => Row {
                field: Field::Status,
                text: String::from_str("Out of Date!"),
                tone: Tone::Red,
            },
        },
    );
    rows.push(row_or_none(Field::Maintainer, &p.maintainer, Tone::Plain));
    rows.push(row_or_none(Field::ProjectUrl, &p.url, Tone::Cyan));
    rows.push(Row { field: Field::AurUrl, text: package_url(p.name.as_str()), tone: Tone::Plain });
    rows.push(row_of_names(Field::License, &p.license, Tone::Plain));
    rows.push(row_of_names(Field::Groups, &p.groups, Tone::Plain));
    rows.push(row_of_names(Field::Provides, &p.provides, Tone::Plain));
    rows.push(row_of_names(Field::Depends, &p.depends, Tone::Plain));
    rows.push(row_of_names(Field::MakeDepends, &p.make_depends, Tone::Plain));
    rows.push(row_of_names(Field::OptDepends, &p.opt_depends, Tone::Plain));
    rows.push(row_of_names(Field::CheckDepends, &p.check_depends, Tone::Plain));
    rows.push(Row { field: Field::Votes, text: to_decimal(p.num_votes), tone: Tone::Yellow });
    rows.push(Row { field: Field::Popularity, text: p.popularity.clone(), tone: Tone::Yellow });
    rows.push(row_or_none(Field::Description, &p.description, Tone::Plain));
    rows.push(row_of_names(Field::Keywords, &p.keywords, Tone::Cyan));
    rows.push(Row { field: Field::Submitted, text: submitted, tone: Tone::Plain });
    rows.push(Row { field: Field::Updated, text: updated, tone: Tone::Plain });
    rows
}

/// Describes the package `p` line by line. There is no description where one
/// of its two dates is a moment that has no day.
pub fn info(p: &Package) -> (rows: Option<Vec<Row>>)
    ensures
        rows is Some <==> utc_day(p.first_submitted) is Some && utc_day(p.last_modified) is Some,
        rows matches Some(r) ==> is_info_of(
            r@,
            *p,
            utc_day(p.first_submitted)->0,
            utc_day(p.last_modified)->0,
        ),
{
    match package_date(p.first_submitted) {
        None => None,
        Some(submitted) => match package_date(p.last_modified) {
            None => None,
            Some(updated) => Some(info_rows(p, submitted, updated)),
        },
    }
}

/// One package as a search shows it.
#[derive(Debug)]
pub struct Listing {
    pub name: String,
    pub version: String,
    /// Red for a package that is flagged as out of date, else green.
    pub version_tone: Tone,
    /// The votes, in decimal.
    pub votes: String,
    pub popularity: String,
    pub installed: bool,
    /// The description; empty where the package has none.
    pub description: String,
}

/// `listing` shows `p`, installed or not.
pub open spec fn is_listing_of(listing: Listing, p: Package, installed: bool) -> bool {
    &&& listing.name@ == p.name@
    &&& listing.version@ == p.version@
    &&& listing.version_tone == if p.out_of_date is Some {
        Tone::Red
    } else {
        Tone::Green
    }
    &&& listing.votes@ == decimal(p.num_votes as nat)
    &&& listing.popularity@ == p.popularity@
    &&& listing.installed == installed
    &&& listing.description@ == match p.description {
        Some(d) => d@,
        None => Seq::empty(),
    }
}

/// How a search shows the package `p`.
pub fn listing(p: &Package, installed: bool) -> (out: Listing)
    ensures
        is_listing_of(out, *p, installed),
{
    Listing {
        name: p.name.clone(),
        version: p.version.clone(),
        version_tone: if p.out_of_date.is_some() {
            Tone::Red
        } else {
            Tone::Green
        },
        votes: to_decimal(p.num_votes),
        popularity: p.popularity.clone(),
        installed,
        description: match &p.description {
            Some(d) => d.clone(),
            None => String::new(),
        },
    }
}

/// The packages that there is something to do for, and what to say of the
/// others.
#[derive(Debug)]
pub struct Valid {
    /// Packages with a clone.
    pub cloned: Vec<String>,
    /// Packages still to be cloned.
    pub to_clone: Vec<String>,
    /// One warning for each package that the AUR does not know.
    pub warnings: Vec<Notice>,
}

/// `notice` warns that the AUR does not know `name`.
pub open spec fn warns_of(notice: Notice, name: Seq<char>) -> bool {
    notice matches Notice::Unreal { pkg } && pkg@ == name
}

/// Looks at a partition of the packages asked for. Where none of them is
/// cloned or to be cloned, there is nothing valid to do, and that is the end.
/// Else the cloned and those to clone are handed on, with a warning for each
/// package that is not real, in their order.
pub fn real_packages(part: PkgPartition) -> (end: Result<Valid, Failure>)
    ensures
        end is Err <==> part.cloned.len() == 0 && part.to_clone.len() == 0,
        end matches Err(failure) ==> failure.notice is NoValid && failure.names.len() == 0
            && failure.error is Silent,
        end matches Ok(valid) ==> valid.cloned == part.cloned && valid.to_clone == part.to_clone
            && valid.warnings.len() == part.not_real.len() && forall|i: int|
            0 <= i < valid.warnings.len() ==> warns_of(
                #[trigger] valid.warnings@[i],
                part.not_real@[i]@,
            ),
{
    if part.cloned.len() == 0 && part.to_clone.len() == 0 {
        return Err(Failure { notice: Notice::NoValid, names: Vec::new(), error: Error::Silent });
    }
    let PkgPartition { cloned, to_clone, not_real } = part;
    let ghost bad = not_real@;
    let mut warnings: Vec<Notice> = Vec::new();
    for name in it: not_real
        invariant
            it.seq() == bad,
            warnings.len() == it.index(),
            forall|i: int| 0 <= i < warnings.len() ==> warns_of(#[trigger] warnings@[i], bad[i]@),
    {
        warnings.push(Notice::Unreal { pkg: name });
    }
    Ok(Valid { cloned, to_clone, warnings })
}

/// What installing does first: the clones that it has to make.
#[derive(Debug)]
pub struct InstallPlan {
    /// Packages with a clone.
    pub cloned: Vec<String>,
    /// The clones to make, one for each package still to be cloned.
    pub jobs: Vec<Result<CloneJob, String>>,
    /// One warning for each package that the AUR does not know.
    pub warnings: Vec<Notice>,
}

/// Plans the installation of `pkgs`, given the entries of the clone directory
/// `clone_dir` and the names among `pkgs` that the AUR knows.
///
/// With no package there is nothing to do, and that is the end; the other
/// arguments are not looked at. So it is where no package is cloned or known.
/// Else the plan holds the packages that are cloned, a clone under
/// `clone_dir` for each that is known and not cloned, and a warning for each
/// of the others, all in the order of `pkgs`.
pub fn install(
    pkgs: &Vec<String>,
    clone_dir: &str,
    inventory: &Vec<String>,
    known: &Vec<String>,
) -> (end: Result<InstallPlan, Failure>)
    ensures
        end is Err <==> cloned_names(texts(inventory@), texts(pkgs@)).len() == 0
            && to_clone_names(texts(inventory@), texts(known@), texts(pkgs@)).len() == 0,
        end matches Err(failure) ==> failure.names.len() == 0 && failure.error is Silent && (
        if pkgs.len() == 0 {
            failure.notice is NoPackages
        } else {
            failure.notice is NoValid
        }),
        end matches Ok(plan) ==> {
            let to_clone = to_clone_names(texts(inventory@), texts(known@), texts(pkgs@));
            let not_real = not_real_names(texts(inventory@), texts(known@), texts(pkgs@));
            &&& texts(plan.cloned@) == cloned_names(texts(inventory@), texts(pkgs@))
            &&& plan.jobs.len() == to_clone.len()
            &&& forall|i: int|
                0 <= i < plan.jobs.len() ==> is_plan_for(
                    #[trigger] plan.jobs@[i],
                    Some(clone_dir),
                    to_clone[i],
                )
            &&& plan.warnings.len() == not_real.len()
            &&& forall|i: int|
                0 <= i < plan.warnings.len() ==> warns_of(#[trigger] plan.warnings@[i], not_real[i])
        },
{
    if pkgs.len() == 0 {
        proof {
            reveal(Seq::filter);
            assert(texts(pkgs@) =~= Seq::empty());
        }
        return Err(
            Failure { notice: Notice::NoPackages, names: Vec::new(), error: Error::Silent },
        );
    }
    let part = partition_aur_pkgs(inventory, known, pkgs);
    let ghost not_real = part.not_real@;
    match real_packages(part) {
        Err(failure) => Err(failure),
        Ok(valid) => {
            let jobs = clone_jobs(Some(clone_dir), &valid.to_clone);
            assert forall|i: int| 0 <= i < valid.warnings.len() implies warns_of(
                #[trigger] valid.warnings@[i],
                texts(not_real)[i],
            ) by {}
            assert forall|i: int| 0 <= i < jobs.len() implies is_plan_for(
                #[trigger] jobs@[i],
                Some(clone_dir),
                texts(valid.to_clone@)[i],
            ) by {}
            Ok(InstallPlan { cloned: valid.cloned, jobs, warnings: valid.warnings })
        },
    }
}

} // verus!
