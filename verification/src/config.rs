//! Settings of the connection pool.

use vstd::prelude::*;

verus! {

/// How the engine journals changes.
#[derive(Debug, Clone, Copy, PartialEq, Eq, Structural)]
pub enum JournalMode {
    Delete,
    Truncate,
    Persist,
    Memory,
    Wal,
    Off,
}

/// When the engine waits for data to reach the disk.
#[derive(Debug, Clone, Copy, PartialEq, Eq, Structural)]
pub enum Synchronous {
    Off,
    Normal,
    Full,
    Extra,
}

/// Mathematical value of a [`ConnectConfig`].
pub struct ConnectConfigView {
    pub url: Seq<char>,
    pub create_if_missing: bool,
    pub journal_mode: JournalMode,
    pub synchronous: Synchronous,
}

/// What a pool is opened with: where the database lies and how its
/// connections are tuned.
#[derive(Debug, PartialEq, Eq)]
pub struct ConnectConfig {
    pub url: String,
    pub create_if_missing: bool,
    pub journal_mode: JournalMode,
    pub synchronous: Synchronous,
}

impl View for ConnectConfig {
    type V = ConnectConfigView;

    open spec fn view(&self) -> ConnectConfigView {
        ConnectConfigView {
            url: self.url@,
            create_if_missing: self.create_if_missing,
            journal_mode: self.journal_mode,
            synchronous: self.synchronous,
        }
    }
}

/// Name of the directory, below the user's home, that holds the database.
pub const DATABASE_DIR: &'static str = ".simple-todo-db";

/// Name of the database file in that directory.
pub const DATABASE_FILE: &'static str = "db.sqlite";

/// `path` with every backslash turned into a forward slash.
pub open spec fn with_forward_slashes(path: Seq<char>) -> Seq<char> {
    path.map_values(|c: char| if c == '\\' { '/' } else { c })
}

/// The address of the database file in the directory `dir`.
pub open spec fn database_url_of(dir: Seq<char>) -> Seq<char> {
    "sqlite://"@ + with_forward_slashes(dir) + "/"@ + DATABASE_FILE@
}

/// `String::push` appends one character to the text.
pub assume_specification[ String::push ](s: &mut String, ch: char)
    ensures
        final(s)@ == old(s)@.push(ch),
;

/// The address under which the pool opens the database file that lies in
/// `database_dir`: the scheme, the directory with forward slashes only, a
/// slash and the file's name.
pub fn database_url(database_dir: &str) -> (out: String)
    ensures
        out@ == database_url_of(database_dir@),
{
    let mut out = "sqlite://".to_owned();
    let n = database_dir.unicode_len();
    let mut i: usize = 0;
    while i < n
        invariant
            i <= n,
            n == database_dir@.len(),
            out@ == "sqlite://"@ + with_forward_slashes(database_dir@.subrange(0, i as int)),
        decreases n - i,
    {
        let c = database_dir.get_char(i);
        let ghost before = out@;
        if c == '\\' {
            out.push('/');
        } else {
            out.push(c);
        }
        proof {
            let head = database_dir@.subrange(0, i as int);
            let next = database_dir@.subrange(0, i + 1);
            assert(with_forward_slashes(next) =~= with_forward_slashes(head).push(
                if c == '\\' { '/' } else { c },
            ));
            assert(out@ =~= "sqlite://"@ + with_forward_slashes(next));
        }
        i += 1;
    }
    assert(database_dir@.subrange(0, n as int) =~= database_dir@);
    out.append("/");
    out.append(DATABASE_FILE);
    out
}

impl ConnectConfig {
    /// The settings for the database at `database_url`: a missing file is
    /// created, changes go through a write-ahead log, and the engine syncs
    /// at checkpoints only.
    pub fn for_url(database_url: &str) -> (out: ConnectConfig)
        ensures
            out@ == (ConnectConfigView {
                url: database_url@,
                create_if_missing: true,
                journal_mode: JournalMode::Wal,
                synchronous: Synchronous::Normal,
            }),
    {
        ConnectConfig {
            url: database_url.to_owned(),
            create_if_missing: true,
            journal_mode: JournalMode::Wal,
            synchronous: Synchronous::Normal,
        }
    }
}

} // verus!
