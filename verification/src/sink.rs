//! The write coordinator: the sink's configuration, its builder, and the
//! rotation engine's state machine, together with the laws the engine obeys.
//!
//! The coordinator owns no file handle: it decides, entry by entry, where
//! each rendered line goes, and the caller performs the file work each
//! returned [`WriteAction`] names — under one lock held around both this
//! state and the handle, so a rotation decision and the handle it acts on
//! stay consistent. Write failures are the caller's to report on a
//! diagnostic channel: a logging sink must not crash its host.

use vstd::prelude::*;
use crate::rotation::{rotation_due, rotation_check};
use crate::names::derived_name;
use crate::names::get_filename;
use crate::clock::{bucket_for, now_millis, utc_bucket};

verus! {

/// Configuration of one sink, immutable after construction.
pub struct DailyRotateFileOptions {
    /// Minimum severity level, exposed to the upstream pipeline.
    pub level: Option<String>,
    /// Base filename; the rotation bucket is appended to its final segment.
    pub filename: String,
    /// strftime-style pattern that defines the rotation bucket.
    pub date_pattern: String,
    /// How many rotated files to retain, if limited.
    pub max_files: Option<u32>,
    /// Maximum size of the active file in bytes, if limited.
    pub max_size: Option<u64>,
    /// Directory for the files, if not the working directory.
    pub dirname: Option<String>,
    /// Whether pruned files are archived rather than deleted.
    pub zipped_archive: bool,
    /// Whether buckets are formatted in UTC rather than local time.
    pub utc: bool,
}

impl DailyRotateFileOptions {
    /// A configuration is valid when the base filename is non-empty.
    pub open spec fn wf(self) -> bool {
        self.filename@.len() > 0
    }
}

/// One file in the engine's model of what has been written: the rotation
/// bucket the file was opened for, and the rendered lines appended to it,
/// in order.
pub struct FileRecord {
    pub bucket: Seq<char>,
    pub entries: Seq<Seq<char>>,
}

/// The byte length of a rendered line (UTF-8).
pub open spec fn byte_len(s: Seq<char>) -> nat {
    vstd::utf8::encode_utf8(s).len()
}

/// Total byte size of a file's entries.
pub open spec fn entries_size(es: Seq<Seq<char>>) -> nat
    decreases es.len(),
{
    if es.len() == 0 {
        0
    } else {
        entries_size(es.drop_last()) + byte_len(es.last())
    }
}

/// A size capped at the integer limit, as the accounting stores it. The cap
/// never changes a comparison against a configured limit.
pub open spec fn sat64(n: nat) -> u64 {
    if n > u64::MAX {
        u64::MAX
    } else {
        n as u64
    }
}

proof fn lemma_sat64_add(a: nat, b: nat)
    ensures
        sat64((sat64(a) + b) as nat) == sat64(a + b),
{
}

/// What the caller must do for one accepted entry: append the rendered line
/// to the active file — after first switching to a newly allocated file for
/// the name `desired` (disambiguated through the unique-name allocator), if
/// a rotation is due.
pub enum WriteAction {
    Append { line: String },
    RotateThenAppend { desired: String, line: String },
}

/// The write coordinator and rotation engine of one sink.
pub struct DailyRotateFile {
    /// The sink's configuration.
    pub options: DailyRotateFileOptions,
    /// The rotation bucket the active file was opened for.
    pub bucket: String,
    /// Bytes appended to the active file so far (capped).
    pub active_len: u64,
    /// Bytes appended since the last flush (capped).
    pub pending: u64,
    /// The engine's model of the files produced, the active one last.
    pub history: Ghost<Seq<FileRecord>>,
}

impl DailyRotateFile {
    /// The coordinator's invariant: the model holds the active file last,
    /// that file's bucket agrees with the recorded one, and the byte
    /// accounting agrees with the model.
    pub open spec fn wf(self) -> bool {
        &&& self.history@.len() >= 1
        &&& self.history@.last().bucket == self.bucket@
        &&& self.active_len == sat64(entries_size(self.history@.last().entries))
    }

    /// Opens the coordinator for a given bucket: the model starts with one
    /// empty active file. The caller opens the matching on-disk file, named
    /// by [`derived_name`] before allocator disambiguation.
    pub fn new_at(options: DailyRotateFileOptions, bucket: String) -> (s: Self)
        ensures
            s.wf(),
            s.options == options,
            s.bucket == bucket,
            s.active_len == 0,
            s.pending == 0,
            s.history@ =~= seq![FileRecord { bucket: bucket@, entries: Seq::empty() }],
    {
        let ghost h = seq![FileRecord { bucket: bucket@, entries: Seq::<Seq<char>>::empty() }];
        let s = DailyRotateFile { options, bucket, active_len: 0, pending: 0, history: Ghost(h) };
        proof {
            assert(entries_size(h.last().entries) == 0);
        }
        s
    }

    /// Opens the coordinator for the bucket of the current wall-clock
    /// instant.
    pub fn new(options: DailyRotateFileOptions) -> (s: Self)
        ensures
            s.wf(),
            s.options == options,
            s.active_len == 0,
            s.pending == 0,
            s.history@.len() == 1,
            s.history@[0].entries.len() == 0,
            s.history@[0].bucket == s.bucket@,
            options.utc ==> exists|m: i64| s.bucket@ == utc_bucket(m, options.date_pattern@),
    {
        let m = now_millis();
        let b = bucket_for(m, options.date_pattern.as_str(), options.utc);
        Self::new_at(options, b)
    }

    /// Starts a builder for a sink configuration.
    pub fn builder() -> (r: DailyRotateFileBuilder)
        ensures
            r.level is None,
            r.filename is None,
            r.date_pattern@ == "%Y-%m-%d"@,
            r.max_files is None,
            r.max_size is None,
            r.dirname is None,
            !r.zipped_archive,
            !r.utc,
    {
        DailyRotateFileBuilder::new()
    }

    /// The bucket string for "now" under this configuration.
    pub fn current_bucket(&self) -> (r: String)
        ensures
            self.options.utc ==> exists|m: i64| r@ == utc_bucket(m, self.options.date_pattern@),
    {
        let m = now_millis();
        bucket_for(m, self.options.date_pattern.as_str(), self.options.utc)
    }

    /// How one accepted entry changes the coordinator: the rendered line
    /// goes to the active file, or — when a rotation is due — to a fresh
    /// file opened for the new bucket.
    pub open spec fn log_transition(
        pre: Self,
        now_bucket: Seq<char>,
        msg: Seq<char>,
        post: Self,
        rotated: bool,
    ) -> bool {
        let line = msg + seq!['\n'];
        let due = rotation_due(pre.bucket@, now_bucket, pre.active_len, byte_len(line), pre.options.max_size);
        &&& rotated == due
        &&& post.options == pre.options
        &&& post.pending == sat64((pre.pending + byte_len(line)) as nat)
        &&& if due {
            &&& post.bucket@ == now_bucket
            &&& post.history@ == pre.history@.push(
                FileRecord { bucket: now_bucket, entries: seq![line] },
            )
            &&& post.active_len == sat64(byte_len(line))
        } else {
            &&& post.bucket == pre.bucket
            &&& post.history@ == pre.history@.drop_last().push(
                FileRecord {
                    bucket: pre.history@.last().bucket,
                    entries: pre.history@.last().entries.push(line),
                },
            )
            &&& post.active_len == sat64((pre.active_len + byte_len(line)) as nat)
        }
    }

    /// Decides — changing no state — what accepting one entry would
    /// require: the same verdict `log_at` then commits for the same bucket
    /// and message. The caller performs the file work first and commits
    /// with `log_at` only once that work has succeeded; after a failed
    /// allocation it commits nothing, so the engine still describes
    /// exactly the files on disk and the entry is dropped, degraded, as a
    /// logging sink must not crash its host.
    pub fn plan_entry(&self, now_bucket: &String, message: &str) -> (act: WriteAction)
        ensures
            ({
                let line = message@ + seq!['\n'];
                let due = rotation_due(
                    self.bucket@,
                    now_bucket@,
                    self.active_len,
                    byte_len(line),
                    self.options.max_size,
                );
                match act {
                    WriteAction::Append { line: l } => !due && l@ == line,
                    WriteAction::RotateThenAppend { desired, line: l } => due && l@ == line
                        && desired@ == derived_name(self.options.filename@, now_bucket@),
                }
            }),
    {
        let mut line = message.to_owned();
        line.append("\n");
        proof {
            reveal_strlit("\n");
            assert("\n"@ =~= seq!['\n']);
        }
        let elen = line.as_str().as_bytes().len();
        proof {
            assert(elen as nat == byte_len(line@));
        }
        let due = rotation_check(&self.bucket, now_bucket, self.active_len, elen, &self.options.max_size);
        if due {
            let desired = get_filename(self.options.filename.as_str(), now_bucket.as_str());
            WriteAction::RotateThenAppend { desired, line }
        } else {
            WriteAction::Append { line }
        }
    }

    /// Accepts one entry against a given bucket for "now": evaluates the
    /// rotation policy before the write, renders the line, updates the
    /// state, and returns what the caller must write where. The entry that
    /// causes a rotation lands in the new file, never the old one.
    pub fn log_at(&mut self, now_bucket: &String, message: &str) -> (act: WriteAction)
        requires
            old(self).wf(),
        ensures
            final(self).wf(),
            ({
                let line = message@ + seq!['\n'];
                let due = rotation_due(
                    old(self).bucket@,
                    now_bucket@,
                    old(self).active_len,
                    byte_len(line),
                    old(self).options.max_size,
                );
                &&& Self::log_transition(*old(self), now_bucket@, message@, *final(self), due)
                &&& match act {
                    WriteAction::Append { line: l } => !due && l@ == line,
                    WriteAction::RotateThenAppend { desired, line: l } => due && l@ == line
                        && desired@ == derived_name(old(self).options.filename@, now_bucket@),
                }
            }),
    {
        let mut line = message.to_owned();
        line.append("\n");
        proof {
            reveal_strlit("\n");
            assert("\n"@ =~= seq!['\n']);
            assert(line@ == message@ + seq!['\n']);
        }
        let elen = line.as_str().as_bytes().len();
        proof {
            assert(elen as nat == byte_len(line@));
        }
        let due = rotation_check(&self.bucket, now_bucket, self.active_len, elen, &self.options.max_size);
        self.pending = self.pending.saturating_add(elen as u64);
        if due {
            let desired = get_filename(self.options.filename.as_str(), now_bucket.as_str());
            self.bucket = now_bucket.clone();
            self.active_len = elen as u64;
            let ghost rec = FileRecord { bucket: now_bucket@, entries: seq![line@] };
            proof {
                assert(rec.entries.len() == 1);
                assert(rec.entries.last() == line@);
                assert(rec.entries.drop_last() =~= Seq::<Seq<char>>::empty());
                assert(entries_size(rec.entries.drop_last()) == 0);
                assert(entries_size(rec.entries) == byte_len(line@));
            }
            self.history = Ghost(self.history@.push(rec));
            WriteAction::RotateThenAppend { desired, line }
        } else {
            self.active_len = self.active_len.saturating_add(elen as u64);
            let ghost last = self.history@.last();
            let ghost rec = FileRecord { bucket: last.bucket, entries: last.entries.push(line@) };
            proof {
                assert(rec.entries.drop_last() =~= last.entries);
                assert(rec.entries.last() == line@);
                assert(entries_size(rec.entries) == entries_size(last.entries) + byte_len(line@));
                lemma_sat64_add(entries_size(last.entries), byte_len(line@));
            }
            self.history = Ghost(self.history@.drop_last().push(rec));
            WriteAction::Append { line }
        }
    }

    /// Accepts one entry, reading the wall clock for the bucket: whatever
    /// bucket the clock yielded, the state takes one `log_transition` step
    /// for it.
    pub fn log(&mut self, message: &str) -> (act: WriteAction)
        requires
            old(self).wf(),
        ensures
            final(self).wf(),
            exists|b: Seq<char>|
                #[trigger] Self::log_transition(
                    *old(self),
                    b,
                    message@,
                    *final(self),
                    act is RotateThenAppend,
                ),
            match act {
                WriteAction::Append { line } => line@ == message@ + seq!['\n'],
                WriteAction::RotateThenAppend { desired, line } => line@ == message@ + seq!['\n']
                    && desired@ == derived_name(old(self).options.filename@, final(self).bucket@),
            },
    {
        let b = self.current_bucket();
        let act = self.log_at(&b, message);
        proof {
            assert(Self::log_transition(
                *old(self),
                b@,
                message@,
                *self,
                act is RotateThenAppend,
            ));
        }
        act
    }

    /// Whether the next entry of `entry_size` bytes demands a rotation,
    /// against the wall clock's current bucket. Whatever the time zone,
    /// the verdict is the rotation policy's for some bucket string — so a
    /// firing size trigger forces `true` on its own.
    pub fn should_rotate(&self, entry_size: usize) -> (r: bool)
        ensures
            exists|b: Seq<char>|
                r == #[trigger] rotation_due(
                    self.bucket@,
                    b,
                    self.active_len,
                    entry_size as nat,
                    self.options.max_size,
                ),
            self.options.utc ==> exists|m: i64|
                r == rotation_due(
                    self.bucket@,
                    utc_bucket(m, self.options.date_pattern@),
                    self.active_len,
                    entry_size as nat,
                    self.options.max_size,
                ),
    {
        let b = self.current_bucket();
        let r = rotation_check(&self.bucket, &b, self.active_len, entry_size, &self.options.max_size);
        proof {
            assert(r == rotation_due(
                self.bucket@,
                b@,
                self.active_len,
                entry_size as nat,
                self.options.max_size,
            ));
        }
        r
    }

    /// How a flush changes the coordinator: pending bytes are now on stable
    /// storage; no recorded file and no rotation state changes.
    pub open spec fn flush_transition(pre: Self, post: Self) -> bool {
        &&& post.options == pre.options
        &&& post.bucket == pre.bucket
        &&& post.active_len == pre.active_len
        &&& post.history == pre.history
        &&& post.pending == 0
    }

    /// Notes a flush. The caller flushes the file handle itself and reports
    /// an explicit error to its caller if that fails; the coordinator's
    /// state changes the same way either way.
    pub fn flush(&mut self)
        ensures
            Self::flush_transition(*old(self), *final(self)),
    {
        self.pending = 0;
    }

    /// The sink's minimum severity level, for the upstream pipeline.
    pub fn get_level(&self) -> (r: Option<&String>)
        ensures
            r is Some <==> self.options.level is Some,
            r matches Some(l) ==> self.options.level matches Some(x) && l@ == x@,
    {
        self.options.level.as_ref()
    }
}

/// Builds a sink configuration field by field; only the filename is
/// required.
pub struct DailyRotateFileBuilder {
    pub level: Option<String>,
    pub filename: Option<String>,
    pub date_pattern: String,
    pub max_files: Option<u32>,
    pub max_size: Option<u64>,
    pub dirname: Option<String>,
    pub zipped_archive: bool,
    pub utc: bool,
}

impl DailyRotateFileBuilder {
    /// A fresh builder: no filename yet, a whole-day date pattern, no size
    /// or retention limit, local time, plain deletion on prune.
    pub fn new() -> (r: Self)
        ensures
            r.level is None,
            r.filename is None,
            r.date_pattern@ == "%Y-%m-%d"@,
            r.max_files is None,
            r.max_size is None,
            r.dirname is None,
            !r.zipped_archive,
            !r.utc,
    {
        DailyRotateFileBuilder {
            level: None,
            filename: None,
            date_pattern: "%Y-%m-%d".to_owned(),
            max_files: None,
            max_size: None,
            dirname: None,
            zipped_archive: false,
            utc: false,
        }
    }

    /// Sets the minimum severity level.
    pub fn level(self, level: &str) -> (r: Self)
        ensures
            r.level matches Some(l) && l@ == level@,
            r.filename == self.filename,
            r.date_pattern == self.date_pattern,
            r.max_files == self.max_files,
            r.max_size == self.max_size,
            r.dirname == self.dirname,
            r.zipped_archive == self.zipped_archive,
            r.utc == self.utc,
    {
        DailyRotateFileBuilder { level: Some(level.to_owned()), ..self }
    }

    /// Sets the base filename.
    pub fn filename(self, filename: &str) -> (r: Self)
        ensures
            r.filename matches Some(f) && f@ == filename@,
            r.level == self.level,
            r.date_pattern == self.date_pattern,
            r.max_files == self.max_files,
            r.max_size == self.max_size,
            r.dirname == self.dirname,
            r.zipped_archive == self.zipped_archive,
            r.utc == self.utc,
    {
        DailyRotateFileBuilder { filename: Some(filename.to_owned()), ..self }
    }

    /// Sets the date pattern that defines the rotation bucket.
    pub fn date_pattern(self, pattern: &str) -> (r: Self)
        ensures
            r.date_pattern@ == pattern@,
            r.level == self.level,
            r.filename == self.filename,
            r.max_files == self.max_files,
            r.max_size == self.max_size,
            r.dirname == self.dirname,
            r.zipped_archive == self.zipped_archive,
            r.utc == self.utc,
    {
        DailyRotateFileBuilder { date_pattern: pattern.to_owned(), ..self }
    }

    /// Limits how many rotated files are retained.
    pub fn max_files(self, count: u32) -> (r: Self)
        ensures
            r.max_files == Some(count),
            r.level == self.level,
            r.filename == self.filename,
            r.date_pattern == self.date_pattern,
            r.max_size == self.max_size,
            r.dirname == self.dirname,
            r.zipped_archive == self.zipped_archive,
            r.utc == self.utc,
    {
        DailyRotateFileBuilder { max_files: Some(count), ..self }
    }

    /// Limits the active file's size in bytes.
    pub fn max_size(self, size: u64) -> (r: Self)
        ensures
            r.max_size == Some(size),
            r.level == self.level,
            r.filename == self.filename,
            r.date_pattern == self.date_pattern,
            r.max_files == self.max_files,
            r.dirname == self.dirname,
            r.zipped_archive == self.zipped_archive,
            r.utc == self.utc,
    {
        DailyRotateFileBuilder { max_size: Some(size), ..self }
    }

    /// Sets the directory the files are placed in.
    pub fn dirname(self, dirname: &str) -> (r: Self)
        ensures
            r.dirname matches Some(d) && d@ == dirname@,
            r.level == self.level,
            r.filename == self.filename,
            r.date_pattern == self.date_pattern,
            r.max_files == self.max_files,
            r.max_size == self.max_size,
            r.zipped_archive == self.zipped_archive,
            r.utc == self.utc,
    {
        DailyRotateFileBuilder { dirname: Some(dirname.to_owned()), ..self }
    }

    /// Chooses archiving over deletion for pruned files.
    pub fn zipped_archive(self, zipped: bool) -> (r: Self)
        ensures
            r.zipped_archive == zipped,
            r.level == self.level,
            r.filename == self.filename,
            r.date_pattern == self.date_pattern,
            r.max_files == self.max_files,
            r.max_size == self.max_size,
            r.dirname == self.dirname,
            r.utc == self.utc,
    {
        DailyRotateFileBuilder { zipped_archive: zipped, ..self }
    }

    /// Chooses UTC rather than local time for bucket formatting.
    pub fn utc(self, utc: bool) -> (r: Self)
        ensures
            r.utc == utc,
            r.level == self.level,
            r.filename == self.filename,
            r.date_pattern == self.date_pattern,
            r.max_files == self.max_files,
            r.max_size == self.max_size,
            r.dirname == self.dirname,
            r.zipped_archive == self.zipped_archive,
    {
        DailyRotateFileBuilder { utc, ..self }
    }

    /// Validates the configuration: a sink needs a non-empty base filename,
    /// and every other field has a default.
    pub fn build(self) -> (r: Result<DailyRotateFileOptions, String>)
        ensures
            match r {
                Ok(o) => {
                    &&& self.filename matches Some(f) && f@.len() > 0 && o.filename == f
                    &&& o.wf()
                    &&& o.level == self.level
                    &&& o.date_pattern == self.date_pattern
                    &&& o.max_files == self.max_files
                    &&& o.max_size == self.max_size
                    &&& o.dirname == self.dirname
                    &&& o.zipped_archive == self.zipped_archive
                    &&& o.utc == self.utc
                },
                Err(e) => {
                    &&& !(self.filename matches Some(f) && f@.len() > 0)
                    &&& e@ == "Filename is required"@
                },
            },
    {
        match self.filename {
            Some(f) => {
                if f.as_str().is_empty() {
                    Err("Filename is required".to_owned())
                } else {
                    Ok(DailyRotateFileOptions {
                        level: self.level,
                        filename: f,
                        date_pattern: self.date_pattern,
                        max_files: self.max_files,
                        max_size: self.max_size,
                        dirname: self.dirname,
                        zipped_archive: self.zipped_archive,
                        utc: self.utc,
                    })
                }
            },
            None => Err("Filename is required".to_owned()),
        }
    }
}

/// Entries accepted in the same rotation bucket while the size limit stays
/// out of reach all land in the one active file, in call order; no new file
/// is produced and no earlier file changes.
pub proof fn lemma_same_bucket_one_file(
    s0: DailyRotateFile,
    s1: DailyRotateFile,
    s2: DailyRotateFile,
    b: Seq<char>,
    m1: Seq<char>,
    m2: Seq<char>,
    r1: bool,
    r2: bool,
)
    requires
        s0.wf(),
        b == s0.bucket@,
        DailyRotateFile::log_transition(s0, b, m1, s1, r1),
        DailyRotateFile::log_transition(s1, b, m2, s2, r2),
        s0.options.max_size matches Some(sz) ==> s0.active_len + byte_len(m1 + seq!['\n']) < sz
            && s1.active_len + byte_len(m2 + seq!['\n']) < sz,
    ensures
        r1 == false,
        r2 == false,
        s2.bucket@ == b,
        s2.history@.len() == s0.history@.len(),
        s2.history@.last().entries =~= s0.history@.last().entries + seq![
            m1 + seq!['\n'],
            m2 + seq!['\n'],
        ],
        forall|i: int| 0 <= i < s0.history@.len() - 1 ==> s2.history@[i] == s0.history@[i],
{
    let l1 = m1 + seq!['\n'];
    let l2 = m2 + seq!['\n'];
    assert(!rotation_due(s0.bucket@, b, s0.active_len, byte_len(l1), s0.options.max_size));
    assert(s1.bucket@ == s0.bucket@);
    assert(!rotation_due(s1.bucket@, b, s1.active_len, byte_len(l2), s1.options.max_size));
    assert(s2.history@.last().entries =~= s0.history@.last().entries + seq![l1, l2]);
}

/// Two writes on either side of a bucket boundary land in two distinct
/// files: the earlier file keeps exactly the entries of its side, ending
/// with the pre-boundary entry, and the fresh file holds exactly the entry
/// submitted after the boundary.
pub proof fn lemma_bucket_change_two_files(
    s0: DailyRotateFile,
    s1: DailyRotateFile,
    s2: DailyRotateFile,
    b1: Seq<char>,
    b2: Seq<char>,
    m1: Seq<char>,
    m2: Seq<char>,
    r1: bool,
    r2: bool,
)
    requires
        s0.wf(),
        b1 == s0.bucket@,
        b1 != b2,
        DailyRotateFile::log_transition(s0, b1, m1, s1, r1),
        DailyRotateFile::log_transition(s1, b2, m2, s2, r2),
        s0.options.max_size matches Some(sz) ==> s0.active_len + byte_len(m1 + seq!['\n']) < sz,
    ensures
        r1 == false,
        r2 == true,
        s2.history@.len() == s0.history@.len() + 1,
        s2.history@[s2.history@.len() - 2].bucket == b1,
        s2.history@[s2.history@.len() - 2].entries =~= s0.history@.last().entries.push(
            m1 + seq!['\n'],
        ),
        s2.history@.last().bucket == b2,
        s2.history@.last().entries =~= seq![m2 + seq!['\n']],
{
    let l1 = m1 + seq!['\n'];
    assert(!rotation_due(s0.bucket@, b1, s0.active_len, byte_len(l1), s0.options.max_size));
    assert(s1.bucket@ == b1);
}

/// Once the bytes flushed to the active file together with the pending
/// entry would reach or exceed the configured maximum size, that entry
/// lands in a newly allocated file, and every file recorded before — the
/// previously active one included — keeps its contents untouched.
pub proof fn lemma_size_rotation_new_file(
    s0: DailyRotateFile,
    s1: DailyRotateFile,
    b: Seq<char>,
    m: Seq<char>,
    r: bool,
)
    requires
        s0.wf(),
        b == s0.bucket@,
        s0.options.max_size matches Some(sz) && s0.active_len + byte_len(m + seq!['\n']) >= sz,
        DailyRotateFile::log_transition(s0, b, m, s1, r),
    ensures
        r == true,
        s1.history@.len() == s0.history@.len() + 1,
        s1.history@.last().entries =~= seq![m + seq!['\n']],
        forall|i: int| 0 <= i < s0.history@.len() ==> s1.history@[i] == s0.history@[i],
{
    let l = m + seq!['\n'];
    assert(rotation_due(s0.bucket@, b, s0.active_len, byte_len(l), s0.options.max_size));
}

/// Total number of lines over all recorded files.
pub open spec fn total_entries(h: Seq<FileRecord>) -> nat
    decreases h.len(),
{
    if h.len() == 0 {
        0
    } else {
        total_entries(h.drop_last()) + h.last().entries.len()
    }
}

/// Every accepted entry adds exactly one line to exactly one file: over any
/// bucket the clock yields, the total line count across all files grows by
/// one per write. (Concurrent callers are serialized by the caller's lock,
/// so a run of `n` writes yields `n` lines in all.)
pub proof fn lemma_each_write_adds_one_line(
    s0: DailyRotateFile,
    s1: DailyRotateFile,
    b: Seq<char>,
    m: Seq<char>,
    r: bool,
)
    requires
        s0.wf(),
        DailyRotateFile::log_transition(s0, b, m, s1, r),
    ensures
        total_entries(s1.history@) == total_entries(s0.history@) + 1,
{
    let l = m + seq!['\n'];
    if r {
        let rec = FileRecord { bucket: b, entries: seq![l] };
        assert(s1.history@ == s0.history@.push(rec));
        assert(s1.history@.drop_last() =~= s0.history@);
        assert(s1.history@.last() == rec);
    } else {
        let pre_last = s0.history@.last();
        let rec = FileRecord { bucket: pre_last.bucket, entries: pre_last.entries.push(l) };
        assert(s1.history@ == s0.history@.drop_last().push(rec));
        assert(s1.history@.drop_last() =~= s0.history@.drop_last());
        assert(s1.history@.last() == rec);
        assert(total_entries(s0.history@) == total_entries(s0.history@.drop_last())
            + pre_last.entries.len());
    }
}

/// A write step keeps the coordinator's invariant, whatever bucket and
/// message come in.
pub proof fn lemma_log_transition_preserves_wf(
    s0: DailyRotateFile,
    s1: DailyRotateFile,
    b: Seq<char>,
    m: Seq<char>,
    r: bool,
)
    requires
        s0.wf(),
        DailyRotateFile::log_transition(s0, b, m, s1, r),
    ensures
        s1.wf(),
{
    let l = m + seq!['\n'];
    if r {
        let rec = FileRecord { bucket: b, entries: seq![l] };
        assert(s1.history@.last() == rec);
        assert(rec.entries.drop_last() =~= Seq::<Seq<char>>::empty());
        assert(entries_size(rec.entries.drop_last()) == 0);
        assert(entries_size(rec.entries) == byte_len(l));
    } else {
        let pre_last = s0.history@.last();
        let rec = FileRecord { bucket: pre_last.bucket, entries: pre_last.entries.push(l) };
        assert(s1.history@.last() == rec);
        assert(rec.entries.drop_last() =~= pre_last.entries);
        assert(rec.entries.last() == l);
        assert(entries_size(rec.entries) == entries_size(pre_last.entries) + byte_len(l));
        lemma_sat64_add(entries_size(pre_last.entries), byte_len(l));
    }
}

/// A run of writes: each element of `steps` is one accepted entry, as the
/// pair of the bucket the clock yielded for it and the entry's message.
pub open spec fn log_run(
    pre: DailyRotateFile,
    steps: Seq<(Seq<char>, Seq<char>)>,
    post: DailyRotateFile,
) -> bool
    decreases steps.len(),
{
    if steps.len() == 0 {
        post == pre
    } else {
        exists|mid: DailyRotateFile, r: bool|
            #[trigger] DailyRotateFile::log_transition(pre, steps[0].0, steps[0].1, mid, r)
                && log_run(mid, steps.drop_first(), post)
    }
}

/// A run of `n` accepted writes yields exactly `n` lines in all, over every
/// sequence of buckets the clock may yield. With the caller's lock
/// serializing writers, concurrent callers form one run: their entries are
/// never lost, duplicated or torn.
pub proof fn lemma_run_adds_n_lines(
    s0: DailyRotateFile,
    steps: Seq<(Seq<char>, Seq<char>)>,
    s1: DailyRotateFile,
)
    requires
        s0.wf(),
        log_run(s0, steps, s1),
    ensures
        s1.wf(),
        total_entries(s1.history@) == total_entries(s0.history@) + steps.len(),
    decreases steps.len(),
{
    if steps.len() != 0 {
        let (mid, r) = choose|mid: DailyRotateFile, r: bool|
            #[trigger] DailyRotateFile::log_transition(s0, steps[0].0, steps[0].1, mid, r)
                && log_run(mid, steps.drop_first(), s1);
        lemma_log_transition_preserves_wf(s0, mid, steps[0].0, steps[0].1, r);
        lemma_each_write_adds_one_line(s0, mid, steps[0].0, steps[0].1, r);
        lemma_run_adds_n_lines(mid, steps.drop_first(), s1);
    }
}

/// The rendered lines of a run's messages, in call order.
pub open spec fn rendered_lines(steps: Seq<(Seq<char>, Seq<char>)>) -> Seq<Seq<char>> {
    steps.map_values(|p: (Seq<char>, Seq<char>)| p.1 + seq!['\n'])
}

proof fn lemma_entries_size_drop_first(es: Seq<Seq<char>>)
    requires
        es.len() > 0,
    ensures
        entries_size(es) == byte_len(es[0]) + entries_size(es.drop_first()),
    decreases es.len(),
{
    if es.len() == 1 {
        assert(es.drop_last() =~= Seq::<Seq<char>>::empty());
        assert(es.drop_first() =~= Seq::<Seq<char>>::empty());
        assert(entries_size(Seq::<Seq<char>>::empty()) == 0);
        assert(es.last() == es[0]);
    } else {
        lemma_entries_size_drop_first(es.drop_last());
        assert(es.drop_last()[0] == es[0]);
        assert(es.drop_first().drop_last() =~= es.drop_last().drop_first());
        assert(es.drop_first().last() == es.last());
        assert(entries_size(es.drop_first()) == entries_size(es.drop_first().drop_last())
            + byte_len(es.drop_first().last()));
    }
}

/// Any number of entries accepted in one rotation bucket, while the size
/// limit stays out of reach for their total, land in the one active file,
/// in call order; no new file is produced and no earlier file changes.
pub proof fn lemma_run_same_bucket_one_file(
    s0: DailyRotateFile,
    steps: Seq<(Seq<char>, Seq<char>)>,
    s1: DailyRotateFile,
)
    requires
        s0.wf(),
        log_run(s0, steps, s1),
        forall|i: int| 0 <= i < steps.len() ==> (#[trigger] steps[i]).0 == s0.bucket@,
        s0.options.max_size matches Some(sz) ==> s0.active_len + entries_size(
            rendered_lines(steps),
        ) < sz,
    ensures
        s1.wf(),
        s1.bucket == s0.bucket,
        s1.options == s0.options,
        s1.history@.len() == s0.history@.len(),
        s1.history@.last().entries =~= s0.history@.last().entries + rendered_lines(steps),
        forall|i: int| 0 <= i < s0.history@.len() - 1 ==> s1.history@[i] == s0.history@[i],
    decreases steps.len(),
{
    let lines = rendered_lines(steps);
    if steps.len() == 0 {
        assert(s1.history@.last().entries =~= s0.history@.last().entries + lines);
    } else {
        let l0 = steps[0].1 + seq!['\n'];
        assert(lines[0] == l0);
        lemma_entries_size_drop_first(lines);
        let (mid, r) = choose|mid: DailyRotateFile, r: bool|
            #[trigger] DailyRotateFile::log_transition(s0, steps[0].0, steps[0].1, mid, r)
                && log_run(mid, steps.drop_first(), s1);
        assert(!rotation_due(s0.bucket@, steps[0].0, s0.active_len, byte_len(l0), s0.options.max_size));
        lemma_log_transition_preserves_wf(s0, mid, steps[0].0, steps[0].1, r);
        assert(rendered_lines(steps.drop_first()) =~= lines.drop_first());
        assert(forall|i: int|
            0 <= i < steps.drop_first().len() ==> (#[trigger] steps.drop_first()[i]).0
                == mid.bucket@);
        lemma_run_same_bucket_one_file(mid, steps.drop_first(), s1);
        assert(s1.history@.last().entries =~= s0.history@.last().entries + lines);
    }
}

/// A flush never changes a recorded file or the rotation state: with
/// nothing pending it changes nothing at all, and flushing twice is the
/// same as flushing once.
pub proof fn lemma_flush_idempotent(
    s0: DailyRotateFile,
    s1: DailyRotateFile,
    s2: DailyRotateFile,
)
    requires
        DailyRotateFile::flush_transition(s0, s1),
        DailyRotateFile::flush_transition(s1, s2),
    ensures
        s2 == s1,
        s0.pending == 0 ==> s1 == s0,
{
}

} // verus!
