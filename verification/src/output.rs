//! Output-file rotation: which file each formatted page goes to.
//!
//! Files are named in the usual way for extracted dumps: directories `AA`, `AB`,
//! ..., `AZ`, `BA`, ..., `ZZ`, each holding `wiki_00` to `wiki_99` (with
//! `.bz2` when compressed). A file is closed and the next one opened when
//! the next page would take it over the size limit, or after every page
//! when the limit is 0. Output to stdout (path `-`) is never split. The
//! files themselves are opened and written by the caller.
use vstd::prelude::*;

use crate::numbers::{decimal, digit_char, push_decimal};
use crate::text::{push_char, same_chars};

verus! {

/// Number of output files per directory.
pub const FILES_PER_DIR: u64 = 100;

/// Configuration for the output writer.
pub struct OutputConfig {
    /// Output directory path, or `"-"` for stdout.
    pub path: String,
    /// Maximum bytes per output file. `0` means one article per file.
    pub max_file_size: u64,
    /// Whether to compress output files with bzip2.
    pub compress: bool,
}

/// The rotation state of the output.
pub struct OutputSplitter {
    config: OutputConfig,
    stdout: bool,
    file_open: bool,
    current_bytes: u64,
    file_index: u64,
}

/// The rotation state as plain values.
pub struct SplitterView {
    pub path: Seq<char>,
    pub stdout: bool,
    pub file_open: bool,
    pub max_file_size: u64,
    pub compress: bool,
    pub current_bytes: u64,
    pub file_index: u64,
}

impl View for OutputSplitter {
    type V = SplitterView;

    closed spec fn view(&self) -> SplitterView {
        SplitterView {
            path: self.config.path@,
            stdout: self.stdout,
            file_open: self.file_open,
            max_file_size: self.config.max_file_size,
            compress: self.config.compress,
            current_bytes: self.current_bytes,
            file_index: self.file_index,
        }
    }
}

/// The upper-case letter for `k` (below 26).
pub open spec fn letter(k: nat) -> char {
    (k + ('A' as nat)) as char
}

/// The name of directory `dir_index`: two letters, from `(dir_index / 26)
/// % 26` and `dir_index % 26`.
pub open spec fn dir_name_spec(dir_index: nat) -> Seq<char> {
    seq![letter((dir_index / 26) % 26), letter(dir_index % 26)]
}

/// `s` padded with a leading zero to at least two characters.
pub open spec fn pad2(s: Seq<char>) -> Seq<char> {
    if s.len() < 2 {
        seq!['0'] + s
    } else {
        s
    }
}

/// The name of file `file_in_dir` in its directory: `wiki_` and the number
/// with at least two digits, then `.bz2` when compressed.
pub open spec fn file_name_spec(file_in_dir: nat, compress: bool) -> Seq<char> {
    "wiki_"@ + pad2(decimal(file_in_dir)) + if compress {
        ".bz2"@
    } else {
        Seq::empty()
    }
}

/// Whether writing `data_len` more bytes needs a new file: when no file is
/// open; with a limit of 0, when something was written to the current
/// file; otherwise when the file would exceed the limit.
pub open spec fn needs_rotation_spec(s: SplitterView, data_len: u64) -> bool {
    if !s.file_open {
        true
    } else if s.max_file_size == 0 {
        s.current_bytes > 0
    } else {
        s.current_bytes + data_len > s.max_file_size
    }
}

impl OutputSplitter {
    /// The rotation state for `config`, before any file is opened. Output
    /// goes to stdout when the path is `-`.
    pub fn new(config: OutputConfig) -> (s: Self)
        ensures
            s@.path == config.path@,
            s@.stdout == (config.path@ == "-"@),
            s@.max_file_size == config.max_file_size,
            s@.compress == config.compress,
            !s@.file_open,
            s@.current_bytes == 0,
            s@.file_index == 0,
    {
        let stdout = same_chars(config.path.as_str(), "-");
        OutputSplitter { config, stdout, file_open: false, current_bytes: 0, file_index: 0 }
    }

    /// The configuration.
    pub fn config(&self) -> (c: &OutputConfig)
        ensures
            c.path@ == self@.path,
            c.max_file_size == self@.max_file_size,
            c.compress == self@.compress,
    {
        &self.config
    }

    /// Whether output goes to stdout.
    pub fn is_stdout(&self) -> (b: bool)
        ensures
            b == self@.stdout,
    {
        self.stdout
    }

    /// Bytes written to the current file.
    pub fn current_bytes(&self) -> (n: u64)
        ensures
            n == self@.current_bytes,
    {
        self.current_bytes
    }

    /// Files opened so far.
    pub fn file_index(&self) -> (n: u64)
        ensures
            n == self@.file_index,
    {
        self.file_index
    }

    /// Whether writing `data_len` more bytes needs a new file (see
    /// [`needs_rotation_spec`]).
    pub fn needs_rotation(&self, data_len: u64) -> (b: bool)
        ensures
            b == needs_rotation_spec(self@, data_len),
    {
        if !self.file_open {
            true
        } else if self.config.max_file_size == 0 {
            self.current_bytes > 0
        } else {
            self.current_bytes > self.config.max_file_size || data_len > self.config.max_file_size
                - self.current_bytes
        }
    }

    /// The directory and file name of the next file to open.
    pub fn next_file(&self) -> (r: (String, String))
        ensures
            r.0@ == dir_name_spec((self@.file_index / FILES_PER_DIR) as nat),
            r.1@ == file_name_spec((self@.file_index % FILES_PER_DIR) as nat, self@.compress),
    {
        let dir_index = self.file_index / FILES_PER_DIR;
        let file_in_dir = self.file_index % FILES_PER_DIR;
        (Self::dir_name(dir_index), Self::file_name(file_in_dir, self.config.compress))
    }

    /// Records that the next file was opened.
    pub fn file_opened(&mut self)
        requires
            old(self)@.file_index < u64::MAX,
        ensures
            final(self)@ == opened(old(self)@),
    {
        self.file_open = true;
        self.current_bytes = 0;
        self.file_index = self.file_index + 1;
    }

    /// Records that the current file was closed.
    pub fn file_closed(&mut self)
        ensures
            final(self)@ == (SplitterView { file_open: false, current_bytes: 0, ..old(self)@ }),
    {
        self.file_open = false;
        self.current_bytes = 0;
    }

    /// Records that `data_len` bytes were written to the current file.
    pub fn record_write(&mut self, data_len: u64)
        requires
            old(self)@.current_bytes + data_len <= u64::MAX,
        ensures
            final(self)@ == (SplitterView {
                current_bytes: (old(self)@.current_bytes + data_len) as u64,
                ..old(self)@
            }),
    {
        self.current_bytes = self.current_bytes + data_len;
    }

    /// Computes the directory name for the given directory index (see
    /// [`dir_name_spec`]).
    pub fn dir_name(dir_index: u64) -> (s: String)
        ensures
            s@ == dir_name_spec(dir_index as nat),
    {
        let first = (((dir_index / 26) % 26) as u8 + 65u8) as char;
        let second = ((dir_index % 26) as u8 + 65u8) as char;
        let mut s = String::new();
        push_char(&mut s, first);
        push_char(&mut s, second);
        s
    }

    /// Computes the file name for the given file-within-directory index (see
    /// [`file_name_spec`]).
    pub fn file_name(file_in_dir: u64, compress: bool) -> (s: String)
        ensures
            s@ == file_name_spec(file_in_dir as nat, compress),
    {
        let mut s = String::from_str("wiki_");
        if file_in_dir < 10 {
            push_char(&mut s, '0');
        }
        push_decimal(&mut s, file_in_dir);
        if compress {
            s.append(".bz2");
        }
        proof {
            reveal_with_fuel(decimal, 3);
            if file_in_dir >= 10 {
                assert(decimal((file_in_dir / 10) as nat).len() >= 1);
            }
        }
        s
    }
}

/// The two characters after `wiki_` in the name of file `n` (below 100).
proof fn lemma_two_digits(n: nat)
    requires
        n < 100,
    ensures
        pad2(decimal(n)).len() == 2,
        pad2(decimal(n))[0] == digit_char(n / 10),
        pad2(decimal(n))[1] == digit_char(n % 10),
{
    if n < 10 {
        assert(decimal(n) == seq![digit_char(n)]);
    } else {
        assert(decimal(n / 10) == seq![digit_char(n / 10)]);
    }
}

/// Distinct file numbers below 67600 (100 files in each of the 676
/// directories `AA` to `ZZ`) give distinct paths: the directory name or the
/// file name differs.
pub proof fn law_file_paths_distinct(i: nat, j: nat, compress: bool)
    requires
        i != j,
        i < 67600,
        j < 67600,
    ensures
        dir_name_spec(i / 100) != dir_name_spec(j / 100)
            || file_name_spec(i % 100, compress) != file_name_spec(j % 100, compress),
{
    reveal_strlit("wiki_");
    if i / 100 != j / 100 {
        let (a, b) = (i / 100, j / 100);
        assert(dir_name_spec(a)[0] == letter(a / 26) && dir_name_spec(b)[0] == letter(b / 26));
        assert(dir_name_spec(a)[1] == letter(a % 26) && dir_name_spec(b)[1] == letter(b % 26));
        assert(a == (a / 26) * 26 + a % 26) by (nonlinear_arith);
        assert(b == (b / 26) * 26 + b % 26) by (nonlinear_arith);
    } else {
        let (a, b) = (i % 100, j % 100);
        assert(i == (i / 100) * 100 + i % 100) by (nonlinear_arith);
        assert(j == (j / 100) * 100 + j % 100) by (nonlinear_arith);
        lemma_two_digits(a);
        lemma_two_digits(b);
        assert(a == (a / 10) * 10 + a % 10) by (nonlinear_arith);
        assert(b == (b / 10) * 10 + b % 10) by (nonlinear_arith);
        let fa = file_name_spec(a, compress);
        let fb = file_name_spec(b, compress);
        assert(fa[5] == pad2(decimal(a))[0] && fb[5] == pad2(decimal(b))[0]);
        assert(fa[6] == pad2(decimal(a))[1] && fb[6] == pad2(decimal(b))[1]);
    }
}

/// With a limit of 0 every page goes to a file of its own: once something
/// was written to a file, the next write needs a new one.
pub proof fn law_zero_limit_one_page_per_file(s: SplitterView, written: u64, next_len: u64)
    requires
        s.max_file_size == 0,
        s.file_open,
        written > 0,
        s.current_bytes + written <= u64::MAX,
    ensures
        needs_rotation_spec(
            SplitterView { current_bytes: (s.current_bytes + written) as u64, ..s },
            next_len,
        ),
{
}

/// With a limit above 0 a file grows past the limit only by a single write
/// larger than the limit: a write that needs no new file keeps the file
/// within the limit, and a write that fits the limit into a freshly opened
/// file needs no new one.
pub proof fn law_limit_respected(s: SplitterView, len: u64)
    requires
        s.max_file_size > 0,
    ensures
        !needs_rotation_spec(s, len) ==> s.current_bytes + len <= s.max_file_size,
        s.file_open && s.current_bytes == 0 && len <= s.max_file_size ==> !needs_rotation_spec(s, len),
{
}

/// The state after the next file was opened from `s`: a new, empty file,
/// and one more file counted (see [`OutputSplitter::file_opened`]).
pub open spec fn opened(s: SplitterView) -> SplitterView {
    SplitterView { file_open: true, current_bytes: 0, file_index: (s.file_index + 1) as u64, ..s }
}

/// The name suffix of a compressed file, `.bz2`, or nothing.
pub open spec fn compressed_suffix(compress: bool) -> Seq<char> {
    if compress {
        ".bz2"@
    } else {
        Seq::empty()
    }
}

/// A fresh splitter (as [`OutputSplitter::new`] makes it) needs a file
/// before its first write; the first file is `AA/wiki_00` (`wiki_00.bz2`
/// when compressed); opening it counts one file with nothing written yet,
/// its first write needs no other file unless it exceeds a limit above 0,
/// and the file after it is `AA/wiki_01`.
pub proof fn law_fresh_splitter_starts_at_aa_00(s: SplitterView, len: u64)
    requires
        !s.file_open,
        s.current_bytes == 0,
        s.file_index == 0,
    ensures
        needs_rotation_spec(s, len),
        dir_name_spec((s.file_index / FILES_PER_DIR) as nat) == "AA"@,
        file_name_spec((s.file_index % FILES_PER_DIR) as nat, s.compress) == "wiki_00"@
            + compressed_suffix(s.compress),
        opened(s).file_open && opened(s).current_bytes == 0 && opened(s).file_index == 1,
        !needs_rotation_spec(opened(s), len) <==> (s.max_file_size == 0 || len <= s.max_file_size),
        dir_name_spec((opened(s).file_index / FILES_PER_DIR) as nat) == "AA"@,
        file_name_spec((opened(s).file_index % FILES_PER_DIR) as nat, s.compress) == "wiki_01"@
            + compressed_suffix(s.compress),
{
    reveal_strlit("AA");
    reveal_strlit("wiki_");
    reveal_strlit("wiki_00");
    reveal_strlit("wiki_01");
    assert(letter(0) == 'A');
    assert(dir_name_spec(0) =~= "AA"@);
    assert(decimal(0) == seq!['0']);
    assert(decimal(1) == seq!['1']);
    assert(pad2(decimal(0)) =~= seq!['0', '0']);
    assert(pad2(decimal(1)) =~= seq!['0', '1']);
    assert("wiki_"@ + seq!['0', '0'] =~= "wiki_00"@);
    assert("wiki_"@ + seq!['0', '1'] =~= "wiki_01"@);
    assert(file_name_spec(0, s.compress) =~= "wiki_00"@ + compressed_suffix(s.compress));
    assert(file_name_spec(1, s.compress) =~= "wiki_01"@ + compressed_suffix(s.compress));
}

} // verus!
