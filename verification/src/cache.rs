//! The package cache: what is told of a cached package, which files match a
//! search, and how the cache is copied to a backup.

use vstd::prelude::*;
use vstd::string::*;
use ubyte::ToByteUnit;
use crate::aur::Error;
use crate::paths::{is_absolute, join, joined};
use crate::report::{Failure, Notice};
use crate::text::{
    chars_of, contains, find, first_at, join_with, joined_with, occurs_at, occurs_in, texts,
};

verus! {

/// What the cache holds of one package.
#[derive(Debug)]
pub struct CacheInfo {
    pub name: String,
    /// The latest version in the cache.
    pub version: String,
    /// When the file of that version was made, in seconds since 1970.
    pub created: i64,
    /// Whether a signature lies beside the file.
    pub signature: bool,
    /// The size of the file in bytes.
    pub size: u64,
    /// All versions of the package that the cache holds.
    pub available: Vec<String>,
}

/// How the version in the cache stands to what is installed.
#[derive(Debug)]
pub enum Installed {
    /// The package is not installed.
    No,
    /// The version in the cache is the one installed.
    Same,
    /// Another version is installed: this one.
    Other(String),
}

/// What is shown of a cached package, line by line.
#[derive(Debug)]
pub struct CacheReport {
    pub name: String,
    pub version: String,
    pub installed: Installed,
    pub created: i64,
    pub signature: bool,
    /// The size, in the unit that suits it.
    pub size: String,
    /// The versions in the cache, with `, ` between them.
    pub available: String,
}

/// How many files a cache holds, and how many bytes they have together.
#[derive(Clone, Copy, Debug, PartialEq, Eq, Structural)]
pub struct CacheSize {
    pub files: u64,
    pub bytes: u64,
}

/// A number of bytes written out in the unit that suits it, as `ubyte` shows
/// a `ByteUnit`.
pub uninterp spec fn byte_size_text(bytes: u64) -> Seq<char>;

/// Shows `bytes` through `ubyte`: the number is made a `ByteUnit` by
/// `ToByteUnit::bytes` and written by its `Display`. What comes out depends
/// on the number alone; nothing more is claimed of it.
#[verifier::external_body]
fn size_text(bytes: u64) -> (text: String)
    ensures
        text@ == byte_size_text(bytes),
{
    format!("{}", bytes.bytes())
}

/// How `version`, the one in the cache, stands to the `installed` one.
pub open spec fn installed_mark(version: Seq<char>, installed: Option<&str>) -> Option<
    Option<Seq<char>>,
> {
    match installed {
        None => None,
        Some(v) => if v@ == version {
            Some(None)
        } else {
            Some(Some(v@))
        },
    }
}

/// What `mark` says, in the form of `installed_mark`.
pub open spec fn mark_of(mark: Installed) -> Option<Option<Seq<char>>> {
    match mark {
        Installed::No => None,
        Installed::Same => Some(None),
        Installed::Other(v) => Some(Some(v@)),
    }
}

/// `report` is what is shown of `entry` where its size is written as
/// `size` and `installed` is the version installed.
pub open spec fn is_report_of(
    report: CacheReport,
    entry: CacheInfo,
    size: Seq<char>,
    installed: Option<&str>,
) -> bool {
    &&& report.name@ == entry.name@
    &&& report.version@ == entry.version@
    &&& mark_of(report.installed) == installed_mark(entry.version@, installed)
    &&& report.created == entry.created
    &&& report.signature == entry.signature
    &&& report.size@ == size
    &&& report.available@ == joined_with(texts(entry.available@), ", "@)
}

/// `c` is one of the digits `0` to `9`.
pub open spec fn is_digit(c: char) -> bool {
    ('0' as int) <= (c as int) <= ('9' as int)
}

/// The file name `file` is that of a package file of `package`, and
/// `version` is the version that it names. Such a name is made of the
/// package's name, its version, which starts with a digit, and the machine
/// that it is for, with `-` between them, and goes on with `.pkg.tar`; the
/// machine's name holds no `-`, and what stands before the ending holds no
/// `.pkg.tar`.
pub open spec fn names_version(file: Seq<char>, package: Seq<char>, version: Seq<char>) -> bool {
    let head = package.push('-');
    let rest = file.skip(head.len() as int);
    &&& head.is_prefix_of(file)
    &&& version.len() > 0
    &&& is_digit(version[0])
    &&& exists|end: int| #[trigger]
        first_at(rest, ".pkg.tar"@, end) && version.len() < end && rest.take(
            version.len() as int,
        ) == version && rest[version.len() as int] == '-' && forall|k: int|
            version.len() < k < end ==> rest[k] != '-'
}

/// The version that the file name `file` gives for `package`, if it is the
/// name of one of its package files.
pub fn file_version(file: &str, package: &str) -> (found: Option<String>)
    ensures
        found matches Some(v) ==> names_version(file@, package@, v@),
        found is None ==> forall|v: Seq<char>| !names_version(file@, package@, v),
{
    let name = chars_of(file);
    let mut head = chars_of(package);
    head.push('-');
    assert(head@ =~= package@.push('-'));
    if head.len() > name.len() {
        return None;
    }
    let mut i: usize = 0;
    while i < head.len()
        invariant
            i <= head.len() <= name.len(),
            name@ == file@,
            head@ == package@.push('-'),
            forall|k: int| 0 <= k < i ==> name@[k] == head@[k],
        decreases head.len() - i,
    {
        if name[i] != head[i] {
            assert(!head@.is_prefix_of(name@)) by {
                if head@.is_prefix_of(name@) {
                    assert(name@.subrange(0, head@.len() as int)[i as int] == head@[i as int]);
                }
            }
            return None;
        }
        i += 1;
    }
    assert(head@.is_prefix_of(name@)) by {
        assert(name@.subrange(0, head@.len() as int) =~= head@);
    }
    let mut rest: Vec<char> = Vec::new();
    let mut j: usize = head.len();
    while j < name.len()
        invariant
            head.len() <= j <= name.len(),
            rest@ == name@.subrange(head.len() as int, j as int),
        decreases name.len() - j,
    {
        rest.push(name[j]);
        assert(rest@ =~= name@.subrange(head.len() as int, j + 1));
        j += 1;
    }
    assert(rest@ =~= file@.skip(head@.len() as int));
    proof {
        reveal_strlit(".pkg.tar");
    }
    let ending = chars_of(".pkg.tar");
    let end = match find(&rest, &ending) {
        None => {
            return None;
        },
        Some(end) => end,
    };
    let mut dash: usize = end;
    while dash > 0 && rest[dash - 1] != '-'
        invariant
            dash <= end <= rest.len(),
            forall|k: int| dash <= k < end ==> rest@[k] != '-',
        decreases dash,
    {
        dash -= 1;
    }
    assert forall|e: int, v: Seq<char>|
        first_at(rest@, ".pkg.tar"@, e) && v.len() < e && rest@[v.len() as int] == '-'
            && (forall|k: int| v.len() < k < e ==> rest@[k] != '-') implies e == end && dash > 0
        && v.len() == dash - 1 by {
        if e < end {
            assert(occurs_at(rest@, ".pkg.tar"@, e));
        } else if end < e {
            assert(occurs_at(rest@, ".pkg.tar"@, end as int));
        }
        if dash > 0 && v.len() < dash - 1 {
            assert(rest@[dash - 1] == '-');
        }
    }
    if dash < 2 || !(rest[0] >= '0' && rest[0] <= '9') {
        assert forall|v: Seq<char>| !names_version(file@, package@, v) by {
            if names_version(file@, package@, v) {
                assert(rest@.take(v.len() as int)[0] == v[0]);
            }
        }
        return None;
    }
    let version = file.substring_char(head.len(), head.len() + (dash - 1));
    assert(version@ =~= rest@.take(dash - 1));
    assert(first_at(rest@, ".pkg.tar"@, end as int));
    Some(String::from_str(version))
}

/// What is shown of `entry`, given its size as text.
pub fn report(entry: &CacheInfo, size: String, installed: Option<&str>) -> (out: CacheReport)
    ensures
        is_report_of(out, *entry, size@, installed),
{
    let mark = match installed {
        None => Installed::No,
        Some(v) => {
            let other = String::from_str(v);
            if entry.version == other {
                Installed::Same
            } else {
                Installed::Other(other)
            }
        },
    };
    CacheReport {
        name: entry.name.clone(),
        version: entry.version.clone(),
        installed: mark,
        created: entry.created,
        signature: entry.signature,
        size,
        available: join_with(&entry.available, ", "),
    }
}

/// What is shown of the cached package `entry`, where `installed` is the
/// version of it that is installed, if one is.
pub fn info(entry: &CacheInfo, installed: Option<&str>) -> (out: CacheReport)
    ensures
        is_report_of(out, *entry, byte_size_text(entry.size), installed),
{
    report(entry, size_text(entry.size), installed)
}

/// The width of the column of labels: the length in bytes of the longest.
pub fn label_width(labels: &Vec<String>) -> (width: usize)
    ensures
        forall|i: int|
            0 <= i < labels.len() ==> vstd::utf8::encode_utf8(#[trigger] labels@[i]@).len()
                <= width,
        labels.len() == 0 ==> width == 0,
        labels.len() > 0 ==> exists|i: int|
            0 <= i < labels.len() && vstd::utf8::encode_utf8(#[trigger] labels@[i]@).len()
                == width,
{
    let mut width: usize = 0;
    let mut i: usize = 0;
    while i < labels.len()
        invariant
            i <= labels.len(),
            forall|k: int|
                0 <= k < i ==> vstd::utf8::encode_utf8(#[trigger] labels@[k]@).len() <= width,
            i == 0 ==> width == 0,
            i > 0 ==> exists|k: int|
                0 <= k < i && vstd::utf8::encode_utf8(#[trigger] labels@[k]@).len() == width,
        decreases labels.len() - i,
    {
        let len = labels[i].as_str().as_bytes().len();
        if len > width {
            width = len;
        }
        if i == 0 {
            assert(vstd::utf8::encode_utf8(labels@[0]@).len() == width);
        }
        i += 1;
    }
    width
}

/// File names that hold `term`.
pub open spec fn holds_term(term: Seq<char>) -> spec_fn(Seq<char>) -> bool {
    |name: Seq<char>| contains(name, term)
}

/// The files of the cache, of those named in `names`, whose name holds
/// `term`; in their order.
pub fn search(names: &Vec<String>, term: &str) -> (found: Vec<String>)
    ensures
        texts(found@) == texts(names@).filter(holds_term(term@)),
{
    let needle = chars_of(term);
    let ghost all = texts(names@);
    let ghost wanted = holds_term(term@);
    let mut found: Vec<String> = Vec::new();
    let mut i: usize = 0;
    proof {
        reveal(Seq::filter);
        assert(all.take(0) =~= Seq::empty());
        assert(texts(found@) =~= Seq::empty());
    }
    while i < names.len()
        invariant
            i <= names.len(),
            needle@ == term@,
            all == texts(names@),
            wanted == holds_term(term@),
            texts(found@) == all.take(i as int).filter(wanted),
        decreases names.len() - i,
    {
        let name = &names[i];
        let ghost before = found@;
        proof {
            assert(all.take(i + 1) =~= all.take(i as int).push(name@));
            all.take(i as int).lemma_filter_push(name@, wanted);
        }
        let hay = chars_of(name.as_str());
        if occurs_in(&hay, &needle) {
            found.push(name.clone());
            assert(texts(found@) =~= texts(before).push(name@));
        }
        i += 1;
    }
    assert(all.take(all.len() as int) =~= all);
    found
}

/// The sum of `sizes`.
pub open spec fn total(sizes: Seq<u64>) -> nat
    decreases sizes.len(),
{
    if sizes.len() == 0 {
        0
    } else {
        total(sizes.drop_last()) + sizes.last() as nat
    }
}

/// How big a cache is whose files have the sizes `sizes`. There is no
/// answer where the sum does not fit the number that holds it.
pub fn size(sizes: &Vec<u64>) -> (out: Option<CacheSize>)
    ensures
        out is Some <==> total(sizes@) <= u64::MAX,
        out matches Some(s) ==> s.files == sizes.len() && s.bytes == total(sizes@),
{
    let mut bytes: u64 = 0;
    let mut i: usize = 0;
    while i < sizes.len()
        invariant
            i <= sizes.len(),
            bytes == total(sizes@.take(i as int)),
        decreases sizes.len() - i,
    {
        proof {
            assert(sizes@.take(i + 1).drop_last() =~= sizes@.take(i as int));
        }
        match bytes.checked_add(sizes[i]) {
            Some(sum) => {
                bytes = sum;
            },
            None => {
                proof {
                    lemma_total_grows(sizes@, i + 1);
                }
                return None;
            },
        }
        i += 1;
    }
    assert(sizes@.take(sizes@.len() as int) =~= sizes@);
    Some(CacheSize { files: sizes.len() as u64, bytes })
}

/// The sum of the first sizes is no more than the sum of all.
proof fn lemma_total_grows(sizes: Seq<u64>, n: int)
    requires
        0 <= n <= sizes.len(),
    ensures
        total(sizes.take(n)) <= total(sizes),
    decreases sizes.len() - n,
{
    if n == sizes.len() {
        assert(sizes.take(n) =~= sizes);
    } else {
        lemma_total_grows(sizes, n + 1);
        assert(sizes.take(n + 1).drop_last() =~= sizes.take(n));
    }
}

/// Where a backup goes: `target` itself where it starts at the root of the
/// file system, else `target` under the directory `cwd` that the program
/// works in.
pub open spec fn full_target(target: Seq<char>, cwd: Seq<char>) -> Seq<char> {
    if target.len() > 0 && target[0] == '/' {
        target
    } else {
        joined(cwd, target)
    }
}

/// Where a backup to `target` goes.
pub fn backup_target(target: &str, cwd: &str) -> (full: String)
    ensures
        full@ == full_target(target@, cwd@),
{
    if is_absolute(target) {
        String::from_str(target)
    } else {
        join(cwd, target)
    }
}

/// A backup that can go ahead once the user agrees.
#[derive(Debug)]
pub struct BackupPlan {
    /// What the user is told before being asked: the size of the cache, then
    /// where it goes.
    pub notices: Vec<Notice>,
    /// How many files there are to copy.
    pub file_count: u64,
}

/// `plan` is the backup of a cache of `files` files, whose size is written as
/// `size`, to `target`, which holds `entries` entries.
pub open spec fn is_backup_of(
    plan: BackupPlan,
    target: Seq<char>,
    size: Seq<char>,
    files: u64,
    entries: usize,
) -> bool {
    &&& plan.file_count == files
    &&& plan.notices.len() == 2
    &&& plan.notices@[0] matches Notice::BackupSize { size: s }
    &&& s@ == size
    &&& if entries > 0 {
        plan.notices@[1] matches Notice::BackupNonempty { target: t } && t@ == target
    } else {
        plan.notices@[1] matches Notice::BackupTarget { target: t } && t@ == target
    }
}

/// `failure` turns down a backup to `target` because that is a file.
pub open spec fn is_refusal_of(failure: Failure, target: Seq<char>) -> bool {
    &&& failure.notice matches Notice::BackupFile { target: t }
    &&& t@ == target
    &&& failure.names.len() == 0
    &&& failure.error is Silent
}

/// Plans a backup to `target`, given the size of the cache as text. A
/// target that is a file ends it. Else the user is told the size and the
/// target, with a warning where the target holds something already.
pub fn backup_plan(
    target: &str,
    target_is_file: bool,
    size: String,
    files: u64,
    target_entries: usize,
) -> (end: Result<BackupPlan, Failure>)
    ensures
        end is Err <==> target_is_file,
        end matches Err(failure) ==> is_refusal_of(failure, target@),
        end matches Ok(plan) ==> is_backup_of(plan, target@, size@, files, target_entries),
{
    if target_is_file {
        return Err(
            Failure {
                notice: Notice::BackupFile { target: String::from_str(target) },
                names: Vec::new(),
                error: Error::Silent,
            },
        );
    }
    let mut notices: Vec<Notice> = Vec::new();
    notices.push(Notice::BackupSize { size });
    if target_entries > 0 {
        notices.push(Notice::BackupNonempty { target: String::from_str(target) });
    } else {
        notices.push(Notice::BackupTarget { target: String::from_str(target) });
    }
    Ok(BackupPlan { notices, file_count: files })
}

/// Plans the backup of a cache of size `cache` to `target`, which holds
/// `target_entries` entries. Where the target is a file, the other arguments
/// are not looked at.
pub fn backup(target: &str, target_is_file: bool, cache: CacheSize, target_entries: usize) -> (end:
    Result<BackupPlan, Failure>)
    ensures
        end is Err <==> target_is_file,
        end matches Err(failure) ==> is_refusal_of(failure, target@),
        end matches Ok(plan) ==> is_backup_of(
            plan,
            target@,
            byte_size_text(cache.bytes),
            cache.files,
            target_entries,
        ),
{
    backup_plan(target, target_is_file, size_text(cache.bytes), cache.files, target_entries)
}

/// One file to copy.
#[derive(Debug)]
pub struct Transfer {
    pub from: String,
    pub to: String,
}

/// The copies that a backup makes: each of the files `names` of `source` goes
/// to `target` under its own name.
pub fn copy(source: &str, names: &Vec<String>, target: &str) -> (transfers: Vec<Transfer>)
    ensures
        transfers.len() == names.len(),
        forall|i: int|
            0 <= i < transfers.len() ==> (#[trigger] transfers@[i]).from@ == joined(
                source@,
                names@[i]@,
            ) && transfers@[i].to@ == joined(target@, names@[i]@),
{
    let mut transfers: Vec<Transfer> = Vec::new();
    let mut i: usize = 0;
    while i < names.len()
        invariant
            i <= names.len(),
            transfers.len() == i,
            forall|k: int|
                0 <= k < i ==> (#[trigger] transfers@[k]).from@ == joined(source@, names@[k]@)
                    && transfers@[k].to@ == joined(target@, names@[k]@),
        decreases names.len() - i,
    {
        let name = names[i].as_str();
        transfers.push(Transfer { from: join(source, name), to: join(target, name) });
        i += 1;
    }
    transfers
}

/// How far a backup has come: how many of its files have been copied. The
/// count never passes the number of files that there are to copy.
#[derive(Debug)]
pub struct TransferProgress {
    total: u64,
    done: u64,
}

impl TransferProgress {
    #[verifier::type_invariant]
    spec fn in_bounds(&self) -> bool {
        self.done <= self.total
    }

    /// How many files there are to copy.
    pub closed spec fn spec_total(&self) -> u64 {
        self.total
    }

    /// How many files have been copied.
    pub closed spec fn spec_done(&self) -> u64 {
        self.done
    }

    /// The progress of a backup of `total` files, none of them copied yet.
    pub fn new(total: u64) -> (progress: TransferProgress)
        ensures
            progress.spec_total() == total,
            progress.spec_done() == 0,
    {
        TransferProgress { total, done: 0 }
    }

    /// How many files there are to copy.
    #[verifier::when_used_as_spec(spec_total)]
    pub fn total(&self) -> (total: u64)
        ensures
            total == self.spec_total(),
    {
        self.total
    }

    /// How many files have been copied: never more than there are to copy.
    #[verifier::when_used_as_spec(spec_done)]
    pub fn done(&self) -> (done: u64)
        ensures
            done == self.spec_done(),
            done <= self.spec_total(),
    {
        proof {
            use_type_invariant(self);
        }
        self.done
    }

    /// Counts one more copied file, and says whether it was counted: it is
    /// not where as many files are counted as there are to copy.
    pub fn inc(&mut self) -> (counted: bool)
        ensures
            final(self).spec_total() == old(self).spec_total(),
            counted == (old(self).spec_done() < old(self).spec_total()),
            final(self).spec_done() == if counted {
                old(self).spec_done() + 1
            } else {
                old(self).spec_done() as int
            },
    {
        if self.done < self.total {
            self.done = self.done + 1;
            true
        } else {
            false
        }
    }

    /// Records the end of one copy: a copy that was made is counted, one that
    /// failed is passed over.
    pub fn record(&mut self, copied: bool)
        ensures
            final(self).spec_total() == old(self).spec_total(),
            final(self).spec_done() == if copied && old(self).spec_done() < old(self).spec_total() {
                old(self).spec_done() + 1
            } else {
                old(self).spec_done() as int
            },
    {
        if copied {
            self.inc();
        }
    }
}

} // verus!
