//! What a command has to tell its user, and how it ends.

use vstd::prelude::*;
use crate::aur::Error;

verus! {

/// How a piece of text is set off on a terminal.
#[derive(Clone, Copy, Debug, PartialEq, Eq, Structural)]
pub enum Tone {
    Plain,
    Bold,
    Red,
    Green,
    Yellow,
    Cyan,
    Magenta,
    /// Bold and cyan.
    BoldCyan,
    /// Bold and yellow.
    BoldYellow,
    /// Bold and green.
    BoldGreen,
}

/// A message to the user. The words come from the program's translations:
/// a notice says which message it is and what is filled into it.
#[derive(Debug)]
pub enum Notice {
    /// All went well.
    Done,
    /// A package's recipe is being cloned.
    Cloning { package: String },
    /// Some recipes could not be cloned; their names follow.
    CloneFailed,
    /// Some clones could not be brought up to date; their names follow.
    PullFailed,
    /// No package was named.
    NoPackages,
    /// None of the packages named is one to work on.
    NoValid,
    /// The AUR does not know this package.
    Unreal { pkg: String },
    /// The target of a backup is a file.
    BackupFile { target: String },
    /// The size of the cache that is to be backed up.
    BackupSize { size: String },
    /// The target of a backup holds something already.
    BackupNonempty { target: String },
    /// Where the backup goes.
    BackupTarget { target: String },
}

impl Notice {
    /// The tone in which the notice is shown.
    pub open spec fn spec_tone(&self) -> Tone {
        match self {
            Notice::Done => Tone::Green,
            Notice::Cloning { .. } => Tone::Plain,
            Notice::CloneFailed => Tone::Red,
            Notice::PullFailed => Tone::Red,
            Notice::NoPackages => Tone::Red,
            Notice::NoValid => Tone::Red,
            Notice::Unreal { .. } => Tone::Yellow,
            Notice::BackupFile { .. } => Tone::Red,
            Notice::BackupSize { .. } => Tone::Plain,
            Notice::BackupNonempty { .. } => Tone::Yellow,
            Notice::BackupTarget { .. } => Tone::Plain,
        }
    }

    /// The tone in which the notice is shown.
    #[verifier::when_used_as_spec(spec_tone)]
    pub fn tone(&self) -> (tone: Tone)
        ensures
            tone == self.spec_tone(),
    {
        match self {
            Notice::Done => Tone::Green,
            Notice::Cloning { .. } => Tone::Plain,
            Notice::CloneFailed => Tone::Red,
            Notice::PullFailed => Tone::Red,
            Notice::NoPackages => Tone::Red,
            Notice::NoValid => Tone::Red,
            Notice::Unreal { .. } => Tone::Yellow,
            Notice::BackupFile { .. } => Tone::Red,
            Notice::BackupSize { .. } => Tone::Plain,
            Notice::BackupNonempty { .. } => Tone::Yellow,
            Notice::BackupTarget { .. } => Tone::Plain,
        }
    }

    /// The name under which the translations hold the message.
    pub fn key(&self) -> (key: &'static str)
        ensures
            key@ == match *self {
                Notice::Done => "common-done"@,
                Notice::Cloning { .. } => "A-w"@,
                Notice::CloneFailed => "A-w-fail"@,
                Notice::PullFailed => "A-y"@,
                Notice::NoPackages => "common-no-packages"@,
                Notice::NoValid => "common-no-valid"@,
                Notice::Unreal { .. } => "A-unreal"@,
                Notice::BackupFile { .. } => "cache-backup-file"@,
                Notice::BackupSize { .. } => "cache-backup-size"@,
                Notice::BackupNonempty { .. } => "cache-backup-nonempty"@,
                Notice::BackupTarget { .. } => "cache-backup-target"@,
            },
    {
        match self {
            Notice::Done => "common-done",
            Notice::Cloning { .. } => "A-w",
            Notice::CloneFailed => "A-w-fail",
            Notice::PullFailed => "A-y",
            Notice::NoPackages => "common-no-packages",
            Notice::NoValid => "common-no-valid",
            Notice::Unreal { .. } => "A-unreal",
            Notice::BackupFile { .. } => "cache-backup-file",
            Notice::BackupSize { .. } => "cache-backup-size",
            Notice::BackupNonempty { .. } => "cache-backup-nonempty",
            Notice::BackupTarget { .. } => "cache-backup-target",
        }
    }
}

/// What a line of a package's description tells.
#[derive(Clone, Copy, Debug, PartialEq, Eq, Structural)]
pub enum Field {
    Repo,
    Name,
    Version,
    Status,
    Maintainer,
    ProjectUrl,
    AurUrl,
    License,
    Groups,
    Provides,
    Depends,
    MakeDepends,
    OptDepends,
    CheckDepends,
    Votes,
    Popularity,
    Description,
    Keywords,
    Submitted,
    Updated,
}

impl Field {
    /// The name under which the translations hold the label of the field.
    pub fn key(&self) -> (key: &'static str)
        ensures
            key@ == match *self {
                Field::Repo => "A-i-repo"@,
                Field::Name => "common-name"@,
                Field::Version => "A-i-version"@,
                Field::Status => "A-i-status"@,
                Field::Maintainer => "A-i-maintainer"@,
                Field::ProjectUrl => "A-i-proj-url"@,
                Field::AurUrl => "A-i-aur-url"@,
                Field::License => "A-i-license"@,
                Field::Groups => "A-i-group"@,
                Field::Provides => "A-i-provides"@,
                Field::Depends => "A-i-depends"@,
                Field::MakeDepends => "A-i-make"@,
                Field::OptDepends => "A-i-opt"@,
                Field::CheckDepends => "A-i-check"@,
                Field::Votes => "A-i-votes"@,
                Field::Popularity => "A-i-pop"@,
                Field::Description => "A-i-desc"@,
                Field::Keywords => "A-i-keywords"@,
                Field::Submitted => "A-i-submitted"@,
                Field::Updated => "A-i-updated"@,
            },
    {
        match self {
            Field::Repo => "A-i-repo",
            Field::Name => "common-name",
            Field::Version => "A-i-version",
            Field::Status => "A-i-status",
            Field::Maintainer => "A-i-maintainer",
            Field::ProjectUrl => "A-i-proj-url",
            Field::AurUrl => "A-i-aur-url",
            Field::License => "A-i-license",
            Field::Groups => "A-i-group",
            Field::Provides => "A-i-provides",
            Field::Depends => "A-i-depends",
            Field::MakeDepends => "A-i-make",
            Field::OptDepends => "A-i-opt",
            Field::CheckDepends => "A-i-check",
            Field::Votes => "A-i-votes",
            Field::Popularity => "A-i-pop",
            Field::Description => "A-i-desc",
            Field::Keywords => "A-i-keywords",
            Field::Submitted => "A-i-submitted",
            Field::Updated => "A-i-updated",
        }
    }
}

/// One line of a package's description: what it tells, in which words, and
/// how the words are set off.
#[derive(Debug)]
pub struct Row {
    pub field: Field,
    pub text: String,
    pub tone: Tone,
}

/// `row` tells `field` in the words `text`, set off by `tone`.
pub open spec fn tells(row: Row, field: Field, text: Seq<char>, tone: Tone) -> bool {
    row.field == field && row.text@ == text && row.tone == tone
}

/// A command that gave up: the notice that says why, the names that the
/// notice is about, and the error with which the command ends.
#[derive(Debug)]
pub struct Failure {
    pub notice: Notice,
    pub names: Vec<String>,
    pub error: Error,
}

} // verus!
