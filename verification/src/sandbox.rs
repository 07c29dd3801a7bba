//! Sandboxes: the results of their operations, the local sandbox's
//! mapping between virtual and real paths, the walk of a directory
//! listing, and the errors of their operations.
//!
//! The file system and processes are the caller's part; the library
//! decides where a path or command goes, what a walk reads next and
//! keeps, and what each outcome is reported as.
pub mod tools;


use crate::error::{HarnessError, SandboxError};
use crate::models::base::opt_view;
use crate::text::{
    chars_of, concat2, concat3, find, fmt_i64, fmt_u64, has_prefix, owned, push_char, push_str,
    str_eq, string_of_range, starts_with, signed_decimal, decimal,
};
use vstd::prelude::*;

verus! {

// ---------------------------------------------------------------------
// Results of sandbox operations
// ---------------------------------------------------------------------

/// The result of a command.
#[derive(Debug)]
pub struct SandboxCommandResult {
    /// Exit code.
    pub exit_code: i32,
    /// Standard output.
    pub stdout: String,
    /// Standard error.
    pub stderr: String,
    /// Whether the command ran out of time.
    pub timed_out: bool,
}

impl SandboxCommandResult {
    /// A successful run with this output.
    pub fn success(stdout: String) -> (r: Self)
        ensures
            r.exit_code == 0,
            r.stdout@ == stdout@,
            r.stderr@ == Seq::<char>::empty(),
            !r.timed_out,
    {
        SandboxCommandResult { exit_code: 0, stdout, stderr: String::new(), timed_out: false }
    }

    /// A failed run.
    pub fn failure(exit_code: i32, stdout: String, stderr: String) -> (r: Self)
        ensures
            r.exit_code == exit_code,
            r.stdout@ == stdout@,
            r.stderr@ == stderr@,
            !r.timed_out,
    {
        SandboxCommandResult { exit_code, stdout, stderr, timed_out: false }
    }

    /// A run that ran out of time, with exit code -1.
    pub fn timeout(stdout: String, stderr: String) -> (r: Self)
        ensures
            r.exit_code == -1,
            r.stdout@ == stdout@,
            r.stderr@ == stderr@,
            r.timed_out,
    {
        SandboxCommandResult { exit_code: -1, stdout, stderr, timed_out: true }
    }

    /// Whether the run exited with 0 in time.
    pub fn is_success(&self) -> (r: bool)
        ensures
            r == (self.exit_code == 0 && !self.timed_out),
    {
        self.exit_code == 0 && !self.timed_out
    }
}

/// The result of reading a file.
#[derive(Debug)]
pub struct SandboxFileResult {
    /// The content (empty when it could not be read).
    pub content: String,
    /// The real path read.
    pub path: String,
    /// Whether the file exists.
    pub exists: bool,
}

/// An entry of a directory listing.
#[derive(Debug)]
pub struct SandboxDirEntry {
    /// Its name.
    pub name: String,
    /// Its real path.
    pub path: String,
    /// Whether it is a directory.
    pub is_dir: bool,
    /// Its size in bytes.
    pub size: u64,
}

// ---------------------------------------------------------------------
// Paths
// ---------------------------------------------------------------------

/// What `Path::join` makes of a base and a path on Unix: `part` when it
/// is absolute (starts with `/`); else `base`, a `/` unless `base` is
/// empty or already ends with one, and `part`.
pub open spec fn path_joined(base: Seq<char>, part: Seq<char>) -> Seq<char> {
    if part.len() > 0 && part[0] == '/' {
        part
    } else if base.len() == 0 || base.last() == '/' {
        base + part
    } else {
        base + "/"@ + part
    }
}

/// What `Path::strip_prefix` leaves of `path` after the whole
/// components of `prefix`, or nothing when `prefix` is not its start.
pub uninterp spec fn path_stripped(path: Seq<char>, prefix: Seq<char>) -> Option<Seq<char>>;

/// A path joined to a base as `Path::join` joins them on Unix (see
/// `path_joined`).
fn join_path(base: &str, part: &str) -> (r: String)
    ensures
        r@ == path_joined(base@, part@),
{
    proof {
        reveal_strlit("/");
    }
    let pc = chars_of(part);
    if pc.len() > 0 && pc[0] == '/' {
        return owned(part);
    }
    let bc = chars_of(base);
    if bc.len() == 0 || bc[bc.len() - 1] == '/' {
        concat2(base, part)
    } else {
        concat3(base, "/", part)
    }
}

/// `std::path::Path::strip_prefix`, as text: what follows the components
/// of `prefix` in `path`, when `path` starts with them.  The contract
/// names the result.
#[verifier::external_body]
fn strip_path_prefix(path: &str, prefix: &str) -> (r: Option<String>)
    ensures
        opt_view(r) == path_stripped(path@, prefix@),
{
    match std::path::Path::new(path).strip_prefix(prefix) {
        Ok(s) => Some(s.to_string_lossy().into_owned()),
        Err(_) => None,
    }
}

/// `s` without its leading `/` characters.
pub open spec fn trim_slashes(s: Seq<char>) -> Seq<char>
    decreases s.len(),
{
    if s.len() > 0 && s[0] == '/' {
        trim_slashes(s.drop_first())
    } else {
        s
    }
}

/// The characters of `s` from `a` on, without leading slashes.
fn trimmed_from(s: &Vec<char>, a: usize) -> (r: String)
    requires
        a <= s@.len(),
    ensures
        r@ == trim_slashes(s@.skip(a as int)),
{
    let mut i: usize = a;
    while i < s.len() && s[i] == '/'
        invariant
            a <= i <= s@.len(),
            trim_slashes(s@.skip(a as int)) == trim_slashes(s@.skip(i as int)),
        decreases s.len() - i,
    {
        assert(s@.skip(i as int).drop_first() == s@.skip(i + 1));
        i += 1;
    }
    string_of_range(s, i, s.len())
}

/// A virtual path prefix and the real directory it stands for.
#[derive(Debug)]
pub struct VirtualPathMapping {
    /// The virtual prefix, such as `/mnt/user-data`.
    pub virtual_prefix: String,
    /// The real directory.
    pub real_path: String,
}

/// The abstract value of a mapping: virtual prefix and real directory.
pub struct MappingModel {
    /// The virtual prefix.
    pub virtual_prefix: Seq<char>,
    /// The real directory.
    pub real_path: Seq<char>,
}

impl View for VirtualPathMapping {
    type V = MappingModel;

    open spec fn view(&self) -> MappingModel {
        MappingModel { virtual_prefix: self.virtual_prefix@, real_path: self.real_path@ }
    }
}

impl Clone for VirtualPathMapping {
    fn clone(&self) -> (r: Self)
        ensures
            r@ == self@,
    {
        VirtualPathMapping {
            virtual_prefix: self.virtual_prefix.clone(),
            real_path: self.real_path.clone(),
        }
    }
}

/// The views of a list of mappings.
pub open spec fn mapping_views(v: Seq<VirtualPathMapping>) -> Seq<MappingModel> {
    v.map_values(|m: VirtualPathMapping| m@)
}

impl VirtualPathMapping {
    /// A mapping.
    pub fn new(virtual_prefix: &str, real_path: &str) -> (m: Self)
        ensures
            m@ == (MappingModel { virtual_prefix: virtual_prefix@, real_path: real_path@ }),
    {
        VirtualPathMapping { virtual_prefix: owned(virtual_prefix), real_path: owned(real_path) }
    }
}

/// The id of a local sandbox.
pub open spec fn local_sandbox_id() -> Seq<char> {
    "local"@
}

/// The id of a local sandbox.
pub fn local_sandbox_id_str() -> (r: &'static str)
    ensures
        r@ == local_sandbox_id(),
{
    "local"
}

/// A sandbox on the local file system: a root directory, and virtual
/// prefixes mapped to real directories.
#[derive(Debug)]
pub struct LocalSandbox {
    id: String,
    mappings: Vec<VirtualPathMapping>,
    root: String,
}

/// The abstract value of a local sandbox.
pub struct LocalSandboxModel {
    /// Its id.
    pub id: Seq<char>,
    /// Its mappings, tried in order.
    pub mappings: Seq<MappingModel>,
    /// Its root.
    pub root: Seq<char>,
}

impl View for LocalSandbox {
    type V = LocalSandboxModel;

    closed spec fn view(&self) -> LocalSandboxModel {
        LocalSandboxModel {
            id: self.id@,
            mappings: mapping_views(self.mappings@),
            root: self.root@,
        }
    }
}

/// The first mapping whose virtual prefix starts `p`.
pub open spec fn first_virtual(ms: Seq<MappingModel>, p: Seq<char>) -> Option<int>
    decreases ms.len(),
{
    if ms.len() == 0 {
        None
    } else if has_prefix(p, ms[0].virtual_prefix) {
        Some(0)
    } else {
        match first_virtual(ms.drop_first(), p) {
            Some(i) => Some(i + 1),
            None => None,
        }
    }
}

/// The real path of a virtual path: under the real directory of the
/// first mapping whose prefix starts it, else under the root.
pub open spec fn virtual_to_real(s: LocalSandboxModel, p: Seq<char>) -> Seq<char> {
    match first_virtual(s.mappings, p) {
        Some(i) => path_joined(
            s.mappings[i].real_path,
            trim_slashes(p.skip(s.mappings[i].virtual_prefix.len() as int)),
        ),
        None => path_joined(s.root, trim_slashes(p)),
    }
}

/// The first mapping whose real directory contains `p`, with what
/// follows it.
pub open spec fn first_real(ms: Seq<MappingModel>, p: Seq<char>) -> Option<(int, Seq<char>)>
    decreases ms.len(),
{
    if ms.len() == 0 {
        None
    } else {
        match path_stripped(p, ms[0].real_path) {
            Some(rest) => Some((0, rest)),
            None => match first_real(ms.drop_first(), p) {
                Some((i, rest)) => Some((i + 1, rest)),
                None => None,
            },
        }
    }
}

/// The virtual path of a real path.
pub open spec fn real_to_virtual(s: LocalSandboxModel, p: Seq<char>) -> Seq<char> {
    match first_real(s.mappings, p) {
        Some((i, rest)) => if rest.len() == 0 {
            s.mappings[i].virtual_prefix
        } else {
            s.mappings[i].virtual_prefix + "/"@ + rest
        },
        None => p,
    }
}

/// `s` with every match of `from` replaced by `to`, left to right and
/// without overlaps (`str::replace`); an empty `from` matches before
/// every character and at the end.
pub open spec fn replace_all(s: Seq<char>, from: Seq<char>, to: Seq<char>) -> Seq<char>
    decreases s.len(),
{
    if from.len() == 0 {
        if s.len() == 0 {
            to
        } else {
            to + seq![s[0]] + replace_all(s.drop_first(), from, to)
        }
    } else if s.len() < from.len() {
        s
    } else if s.take(from.len() as int) == from {
        to + replace_all(s.skip(from.len() as int), from, to)
    } else {
        seq![s[0]] + replace_all(s.drop_first(), from, to)
    }
}

/// `s` with its first match of `from` replaced by `to` (`str::replacen`
/// with a count of one).
pub open spec fn replace_first(s: Seq<char>, from: Seq<char>, to: Seq<char>) -> Seq<char> {
    match find(s, from) {
        Some(i) => s.take(i) + to + s.skip(i + from.len()),
        None => s,
    }
}

proof fn lemma_replace_step(s: Seq<char>, from: Seq<char>, to: Seq<char>, i: int)
    requires
        0 <= i < s.len(),
        from.len() > 0,
    ensures
        (i + from.len() <= s.len() && s.subrange(i, i + from.len()) == from) ==> replace_all(
            s.skip(i),
            from,
            to,
        ) == to + replace_all(s.skip(i + from.len()), from, to),
        !(i + from.len() <= s.len() && s.subrange(i, i + from.len()) == from) ==> replace_all(
            s.skip(i),
            from,
            to,
        ) == seq![s[i]] + replace_all(s.skip(i + 1), from, to),
{
    let t = s.skip(i);
    assert(t.len() == s.len() - i);
    if i + from.len() <= s.len() {
        assert(t.take(from.len() as int) =~= s.subrange(i, i + from.len()));
        assert(t.skip(from.len() as int) =~= s.skip(i + from.len()));
    }
    assert(t.drop_first() =~= s.skip(i + 1));
    assert(t[0] == s[i]);
}

/// `s` with every match of `from` replaced by `to`.
pub fn replace_all_str(s: &str, from: &str, to: &str) -> (r: String)
    ensures
        r@ == replace_all(s@, from@, to@),
{
    let cs = chars_of(s);
    let fs = chars_of(from);
    let mut out = String::new();
    let mut i: usize = 0;
    assert(cs@.skip(0) == s@);
    while i < cs.len()
        invariant
            i <= cs@.len(),
            cs@ == s@,
            fs@ == from@,
            out@ + replace_all(cs@.skip(i as int), from@, to@) == replace_all(s@, from@, to@),
        decreases cs.len() - i,
    {
        let ghost before = out@;
        if fs.len() == 0 {
            push_str(&mut out, to);
            push_char(&mut out, cs[i]);
            proof {
                let t = cs@.skip(i as int);
                assert(t.drop_first() =~= cs@.skip(i + 1));
                assert(t[0] == cs@[i as int]);
                assert(out@ + replace_all(cs@.skip(i + 1), from@, to@) =~= before + replace_all(
                    t,
                    from@,
                    to@,
                ));
            }
            i += 1;
        } else if crate::text::matches_at(&cs, &fs, i) {
            push_str(&mut out, to);
            proof {
                lemma_replace_step(cs@, from@, to@, i as int);
                assert(out@ + replace_all(cs@.skip(i + fs@.len()), from@, to@) =~= before
                    + replace_all(cs@.skip(i as int), from@, to@));
            }
            i += fs.len();
        } else {
            push_char(&mut out, cs[i]);
            proof {
                lemma_replace_step(cs@, from@, to@, i as int);
                assert(out@ + replace_all(cs@.skip(i + 1), from@, to@) =~= before + replace_all(
                    cs@.skip(i as int),
                    from@,
                    to@,
                ));
            }
            i += 1;
        }
    }
    proof {
        assert(cs@.skip(i as int) =~= Seq::<char>::empty());
        if fs@.len() == 0 {
            assert(replace_all(Seq::<char>::empty(), from@, to@) == to@);
        } else {
            assert(replace_all(Seq::<char>::empty(), from@, to@) == Seq::<char>::empty());
        }
    }
    if fs.len() == 0 {
        push_str(&mut out, to);
    }
    proof {
        if fs@.len() != 0 {
            assert(out@ + Seq::<char>::empty() =~= out@);
        }
    }
    out
}

/// `s` with its first match of `from` replaced by `to`.
pub fn replace_first_str(s: &str, from: &str, to: &str) -> (r: String)
    ensures
        r@ == replace_first(s@, from@, to@),
{
    let cs = chars_of(s);
    let fs = chars_of(from);
    match crate::text::find_chars(&cs, &fs) {
        Some(i) => {
            proof {
                crate::text::lemma_find_from(s@, from@, 0);
            }
            let a = string_of_range(&cs, 0, i);
            assert(crate::text::occurs_at(s@, from@, i as int));
            let n = cs.len();
            assert(i + fs@.len() <= cs@.len());
            let b = string_of_range(&cs, i + fs.len(), n);
            let mut out = a;
            push_str(&mut out, to);
            push_str(&mut out, b.as_str());
            assert(cs@.subrange(0, i as int) =~= s@.take(i as int));
            assert(cs@.subrange(i + fs@.len(), cs@.len() as int) =~= s@.skip(i + from@.len()));
            out
        },
        None => owned(s),
    }
}

/// The byte length of a mapping's virtual prefix, by which commands are
/// translated longest first.
pub open spec fn prefix_bytes(m: MappingModel) -> usize {
    vstd::utf8::encode_utf8(m.virtual_prefix).len() as usize
}

/// Inserts `m` into a list ordered by decreasing prefix length, after
/// those at least as long.
pub open spec fn insert_by_len(sorted: Seq<MappingModel>, m: MappingModel) -> Seq<MappingModel>
    decreases sorted.len(),
{
    if sorted.len() == 0 {
        seq![m]
    } else if prefix_bytes(sorted.last()) >= prefix_bytes(m) {
        sorted.push(m)
    } else {
        insert_by_len(sorted.drop_last(), m).push(sorted.last())
    }
}

/// The mappings ordered by decreasing prefix length, those of equal
/// length in their first order (a stable sort).
pub open spec fn longest_first(ms: Seq<MappingModel>) -> Seq<MappingModel>
    decreases ms.len(),
{
    if ms.len() == 0 {
        Seq::empty()
    } else {
        insert_by_len(longest_first(ms.drop_last()), ms.last())
    }
}

/// `command` with each mapping's prefix replaced by its real directory,
/// the mappings taken in order.
pub open spec fn replace_prefixes(command: Seq<char>, ms: Seq<MappingModel>) -> Seq<char>
    decreases ms.len(),
{
    if ms.len() == 0 {
        command
    } else {
        replace_all(replace_prefixes(command, ms.drop_last()), ms.last().virtual_prefix, ms.last().real_path)
    }
}

/// How a command reads in real paths: each virtual prefix replaced by
/// its real directory, longest prefixes first.
pub open spec fn command_in_real_paths(s: LocalSandboxModel, command: Seq<char>) -> Seq<char> {
    replace_prefixes(command, longest_first(s.mappings))
}

/// The default time limit of a command, in seconds.
pub open spec fn default_timeout() -> u64 {
    30
}

impl LocalSandbox {
    /// A sandbox with id `local` at `root`, with the given mappings.
    pub fn new(root: &str, mappings: Option<Vec<VirtualPathMapping>>) -> (s: Self)
        ensures
            s@ == (LocalSandboxModel {
                id: local_sandbox_id(),
                mappings: match mappings {
                    Some(m) => mapping_views(m@),
                    None => Seq::empty(),
                },
                root: root@,
            }),
    {
        let ms = match mappings {
            Some(m) => m,
            None => Vec::new(),
        };
        let s = LocalSandbox { id: owned(local_sandbox_id_str()), mappings: ms, root: owned(root) };
        assert(mapping_views(s.mappings@) =~= match mappings {
            Some(m) => mapping_views(m@),
            None => Seq::<MappingModel>::empty(),
        });
        s
    }

    /// The sandbox of a thread under `base_dir`: rooted at the thread's
    /// directory, with `/mnt/user-data` mapped to its `user-data` and
    /// `/mnt/skills` to `../skills` of the base.  Its id, like that of
    /// every local sandbox, is `local`.
    pub fn with_thread_dir(thread_id: &str, base_dir: &str) -> (s: Self)
        ensures
            s@ == (LocalSandboxModel {
                id: local_sandbox_id(),
                mappings: seq![
                    MappingModel {
                        virtual_prefix: "/mnt/user-data"@,
                        real_path: path_joined(path_joined(base_dir@, thread_id@), "user-data"@),
                    },
                    MappingModel {
                        virtual_prefix: "/mnt/skills"@,
                        real_path: path_joined(base_dir@, "../skills"@),
                    },
                ],
                root: path_joined(base_dir@, thread_id@),
            }),
    {
        let thread_root = join_path(base_dir, thread_id);
        let mut mappings: Vec<VirtualPathMapping> = Vec::new();
        mappings.push(
            VirtualPathMapping {
                virtual_prefix: owned("/mnt/user-data"),
                real_path: join_path(thread_root.as_str(), "user-data"),
            },
        );
        mappings.push(
            VirtualPathMapping {
                virtual_prefix: owned("/mnt/skills"),
                real_path: join_path(base_dir, "../skills"),
            },
        );
        let s = LocalSandbox { id: owned(local_sandbox_id_str()), mappings, root: thread_root };
        assert(mapping_views(s.mappings@) =~= seq![
            MappingModel {
                virtual_prefix: "/mnt/user-data"@,
                real_path: path_joined(path_joined(base_dir@, thread_id@), "user-data"@),
            },
            MappingModel {
                virtual_prefix: "/mnt/skills"@,
                real_path: path_joined(base_dir@, "../skills"@),
            },
        ]);
        s
    }

    /// Its id.
    pub fn id(&self) -> (r: &str)
        ensures
            r@ == self@.id,
    {
        self.id.as_str()
    }

    /// Its root.
    pub fn root(&self) -> (r: &str)
        ensures
            r@ == self@.root,
    {
        self.root.as_str()
    }

    /// Its mappings.
    pub fn mappings(&self) -> (r: &Vec<VirtualPathMapping>)
        ensures
            mapping_views(r@) == self@.mappings,
    {
        &self.mappings
    }

    /// The real path of a virtual path.
    pub fn translate_virtual(&self, virtual_path: &str) -> (r: String)
        ensures
            r@ == virtual_to_real(self@, virtual_path@),
    {
        let vp = chars_of(virtual_path);
        let mut i: usize = 0;
        let ghost ms = self@.mappings;
        assert(ms.skip(0) == ms);
        while i < self.mappings.len()
            invariant
                i <= self.mappings@.len(),
                ms == mapping_views(self.mappings@),
                vp@ == virtual_path@,
                first_virtual(ms, vp@) == match first_virtual(ms.skip(i as int), vp@) {
                    Some(j) => Some(j + i),
                    None => None::<int>,
                },
            decreases self.mappings.len() - i,
        {
            let ghost rest = ms.skip(i as int);
            assert(rest[0] == self.mappings@[i as int]@);
            assert(rest.drop_first() == ms.skip(i + 1));
            let prefix = chars_of(self.mappings[i].virtual_prefix.as_str());
            if starts_with(&vp, &prefix) {
                assert(first_virtual(ms, vp@) == Some(i as int));
                return join_path(self.mappings[i].real_path.as_str(), trimmed_from(&vp, prefix.len()).as_str());
            }
            i += 1;
        }
        assert(ms.skip(i as int) =~= Seq::<MappingModel>::empty());
        assert(vp@.skip(0) == vp@);
        join_path(self.root.as_str(), trimmed_from(&vp, 0).as_str())
    }

    /// The virtual path of a real path.
    pub fn translate_real(&self, real_path: &str) -> (r: String)
        ensures
            r@ == real_to_virtual(self@, real_path@),
    {
        let mut i: usize = 0;
        let ghost ms = self@.mappings;
        assert(ms.skip(0) == ms);
        while i < self.mappings.len()
            invariant
                i <= self.mappings@.len(),
                ms == mapping_views(self.mappings@),
                first_real(ms, real_path@) == match first_real(ms.skip(i as int), real_path@) {
                    Some((j, rest)) => Some((j + i, rest)),
                    None => None::<(int, Seq<char>)>,
                },
            decreases self.mappings.len() - i,
        {
            let ghost rest = ms.skip(i as int);
            assert(rest[0] == self.mappings@[i as int]@);
            assert(rest.drop_first() == ms.skip(i + 1));
            match strip_path_prefix(real_path, self.mappings[i].real_path.as_str()) {
                Some(suffix) => {
                    if suffix.as_str().is_empty() {
                        return self.mappings[i].virtual_prefix.clone();
                    }
                    return concat3(self.mappings[i].virtual_prefix.as_str(), "/", suffix.as_str());
                },
                None => {},
            }
            i += 1;
        }
        owned(real_path)
    }

    /// The mappings ordered longest prefix first, stably.
    fn sorted_mappings(&self) -> (r: Vec<VirtualPathMapping>)
        ensures
            mapping_views(r@) == longest_first(self@.mappings),
    {
        let mut r: Vec<VirtualPathMapping> = Vec::new();
        let mut i: usize = 0;
        let ghost ms = self@.mappings;
        while i < self.mappings.len()
            invariant
                i <= self.mappings@.len(),
                ms == mapping_views(self.mappings@),
                mapping_views(r@) == longest_first(ms.take(i as int)),
            decreases self.mappings.len() - i,
        {
            assert(ms.take(i + 1).drop_last() == ms.take(i as int));
            assert(ms.take(i + 1).last() == self.mappings@[i as int]@);
            let m = self.mappings[i].clone();
            let len = m.virtual_prefix.as_str().len();
            let mut j: usize = r.len();
            let ghost sorted = mapping_views(r@);
            assert(sorted.take(j as int) == sorted);
            assert(sorted + sorted.skip(j as int) =~= sorted);
            assert(insert_by_len(sorted, m@) + sorted.skip(j as int) =~= insert_by_len(sorted, m@));
            while j > 0 && r[j - 1].virtual_prefix.as_str().len() < len
                invariant
                    j <= r@.len(),
                    sorted == mapping_views(r@),
                    len == prefix_bytes(m@),
                    insert_by_len(sorted, m@) == insert_by_len(sorted.take(j as int), m@) + sorted.skip(
                        j as int,
                    ),
                decreases j,
            {
                proof {
                    let t = sorted.take(j as int);
                    assert(t.last() == r@[j - 1]@);
                    assert(t.drop_last() == sorted.take(j - 1));
                    assert(insert_by_len(t, m@) == insert_by_len(sorted.take(j - 1), m@).push(t.last()));
                    assert(sorted.skip(j - 1) =~= seq![t.last()] + sorted.skip(j as int));
                    assert(insert_by_len(sorted.take(j - 1), m@).push(t.last()) + sorted.skip(j as int)
                        =~= insert_by_len(sorted.take(j - 1), m@) + sorted.skip(j - 1));
                }
                j -= 1;
            }
            proof {
                let t = sorted.take(j as int);
                if j > 0 {
                    assert(t.last() == r@[j - 1]@);
                    assert(insert_by_len(t, m@) == t.push(m@));
                } else {
                    assert(t =~= Seq::<MappingModel>::empty());
                    assert(insert_by_len(t, m@) == seq![m@]);
                }
            }
            r.insert(j, m);
            assert(mapping_views(r@) =~= sorted.take(j as int).push(self.mappings@[i as int]@) + sorted.skip(
                j as int,
            ));
            i += 1;
        }
        assert(ms.take(ms.len() as int) == ms);
        r
    }

    /// A command with its virtual paths replaced by real ones, longest
    /// prefixes first.
    pub fn translate_command_paths(&self, command: &str) -> (r: String)
        ensures
            r@ == command_in_real_paths(self@, command@),
    {
        let sorted = self.sorted_mappings();
        let ghost ss = mapping_views(sorted@);
        let mut out = owned(command);
        let mut i: usize = 0;
        while i < sorted.len()
            invariant
                i <= sorted@.len(),
                ss == mapping_views(sorted@),
                out@ == replace_prefixes(command@, ss.take(i as int)),
            decreases sorted.len() - i,
        {
            assert(ss.take(i + 1).drop_last() == ss.take(i as int));
            assert(ss.take(i + 1).last() == sorted@[i as int]@);
            out = replace_all_str(out.as_str(), sorted[i].virtual_prefix.as_str(), sorted[i].real_path.as_str());
            i += 1;
        }
        assert(ss.take(ss.len() as int) == ss);
        out
    }

    /// Where a command runs: the real path of `cwd`, or the root.
    pub fn work_dir(&self, cwd: Option<&str>) -> (r: String)
        ensures
            r@ == match cwd {
                Some(c) => virtual_to_real(self@, c@),
                None => self@.root,
            },
    {
        match cwd {
            Some(c) => self.translate_virtual(c),
            None => self.root.clone(),
        }
    }
}

/// A command's time limit: as given, or 30 seconds.
pub fn command_timeout(timeout_secs: Option<u64>) -> (r: u64)
    ensures
        r == match timeout_secs {
            Some(t) => t,
            None => default_timeout(),
        },
{
    match timeout_secs {
        Some(t) => t,
        None => 30,
    }
}

/// The result of a command that finished: its exit code, or -1 when it
/// was ended by a signal.
pub fn finished_command(code: Option<i32>, stdout: String, stderr: String) -> (r: SandboxCommandResult)
    ensures
        r.exit_code == match code {
            Some(c) => c,
            None => -1i32,
        },
        r.stdout@ == stdout@,
        r.stderr@ == stderr@,
        !r.timed_out,
{
    SandboxCommandResult {
        exit_code: match code {
            Some(c) => c,
            None => -1,
        },
        stdout,
        stderr,
        timed_out: false,
    }
}

/// The result of a command that ran out of its `secs` seconds.
pub fn timed_out_command(secs: u64) -> (r: SandboxCommandResult)
    ensures
        r.exit_code == -1,
        r.stdout@ == Seq::<char>::empty(),
        r.stderr@ == "Command timed out after "@ + decimal(secs as nat) + "s"@,
        r.timed_out,
{
    let n = fmt_u64(secs);
    SandboxCommandResult {
        exit_code: -1,
        stdout: String::new(),
        stderr: concat3("Command timed out after ", n.as_str(), "s"),
        timed_out: true,
    }
}

/// The provider of local sandboxes: one per thread under a base
/// directory.
#[derive(Debug)]
pub struct LocalSandboxProvider {
    base_dir: String,
}

impl LocalSandboxProvider {
    /// The directory under which thread sandboxes go.
    pub closed spec fn base(&self) -> Seq<char> {
        self.base_dir@
    }

    /// A provider under `base_dir`.
    pub fn new(base_dir: &str) -> (p: Self)
        ensures
            p.base() == base_dir@,
    {
        LocalSandboxProvider { base_dir: owned(base_dir) }
    }

    /// The base directory.
    pub fn base_dir(&self) -> (r: &str)
        ensures
            r@ == self.base(),
    {
        self.base_dir.as_str()
    }

    /// The sandbox of a thread: a fresh one under the base directory.
    pub fn acquire(&self, thread_id: &str) -> (s: LocalSandbox)
        ensures
            s@ == (LocalSandboxModel {
                id: local_sandbox_id(),
                mappings: seq![
                    MappingModel {
                        virtual_prefix: "/mnt/user-data"@,
                        real_path: path_joined(path_joined(self.base(), thread_id@), "user-data"@),
                    },
                    MappingModel {
                        virtual_prefix: "/mnt/skills"@,
                        real_path: path_joined(self.base(), "../skills"@),
                    },
                ],
                root: path_joined(self.base(), thread_id@),
            }),
    {
        LocalSandbox::with_thread_dir(thread_id, self.base_dir.as_str())
    }
}

// ---------------------------------------------------------------------
// Errors of sandbox operations
// ---------------------------------------------------------------------

/// The error of a command that could not be started.
pub fn command_error(detail: &str) -> (e: HarnessError)
    ensures
        e matches HarnessError::Sandbox(SandboxError::CommandFailed(m)) && m@
            == "Failed to execute command: "@ + detail@,
{
    HarnessError::Sandbox(SandboxError::CommandFailed(concat2("Failed to execute command: ", detail)))
}

/// The error of a directory that could not be created.
pub fn create_dir_error(detail: &str) -> (e: HarnessError)
    ensures
        e matches HarnessError::Sandbox(SandboxError::InitializationFailed(m)) && m@
            == "Failed to create directory: "@ + detail@,
{
    HarnessError::Sandbox(
        SandboxError::InitializationFailed(concat2("Failed to create directory: ", detail)),
    )
}

/// The error of a file that could not be written.
pub fn write_error(detail: &str) -> (e: HarnessError)
    ensures
        e matches HarnessError::Sandbox(SandboxError::CommandFailed(m)) && m@
            == "Failed to write file: "@ + detail@,
{
    HarnessError::Sandbox(SandboxError::CommandFailed(concat2("Failed to write file: ", detail)))
}

/// The error of a directory entry that could not be read.
pub fn entry_error(detail: &str) -> (e: HarnessError)
    ensures
        e matches HarnessError::Sandbox(SandboxError::InitializationFailed(m)) && m@
            == "Failed to read directory entry: "@ + detail@,
{
    HarnessError::Sandbox(
        SandboxError::InitializationFailed(concat2("Failed to read directory entry: ", detail)),
    )
}

/// The error of a directory that could not be deleted with its content.
pub fn delete_dir_error(detail: &str) -> (e: HarnessError)
    ensures
        e matches HarnessError::Sandbox(SandboxError::CleanupFailed(m)) && m@
            == "Failed to delete directory: "@ + detail@,
{
    HarnessError::Sandbox(SandboxError::CleanupFailed(concat2("Failed to delete directory: ", detail)))
}

/// The error of a path that was neither a file nor an empty directory
/// that could be removed, with both causes.
pub fn delete_error(file_detail: &str, dir_detail: &str) -> (e: HarnessError)
    ensures
        e matches HarnessError::Sandbox(SandboxError::CleanupFailed(m)) && m@
            == "Failed to delete: "@ + file_detail@ + " / "@ + dir_detail@,
{
    let a = concat3("Failed to delete: ", file_detail, " / ");
    HarnessError::Sandbox(SandboxError::CleanupFailed(concat2(a.as_str(), dir_detail)))
}

/// The error of a cleanup step: `what` failed with `detail`.
pub fn cleanup_error(what: &str, detail: &str) -> (e: HarnessError)
    ensures
        e matches HarnessError::Sandbox(SandboxError::CleanupFailed(m)) && m@ == "Failed to "@
            + what@ + ": "@ + detail@,
{
    let a = concat3("Failed to ", what, ": ");
    HarnessError::Sandbox(SandboxError::CleanupFailed(concat2(a.as_str(), detail)))
}

// ---------------------------------------------------------------------
// Walking a directory
// ---------------------------------------------------------------------

/// A directory entry as read: its name, its path, whether its type is a
/// directory, whether its path leads to a directory (following links),
/// and its size when its metadata could be read.
#[derive(Debug)]
pub struct RawDirEntry {
    /// Its name.
    pub name: String,
    /// Its real path.
    pub path: String,
    /// Whether its file type is a directory.
    pub is_dir: bool,
    /// Whether its path leads to a directory.
    pub path_is_dir: bool,
    /// Its size, when its metadata could be read.
    pub size: Option<u64>,
}

/// Whether a name is hidden (starts with a dot).
pub open spec fn hidden(name: Seq<char>) -> bool {
    name.len() > 0 && name[0] == '.'
}

/// Whether an entry read is listed: not a hidden directory, and with
/// metadata.
pub open spec fn listed(e: RawDirEntry) -> bool {
    !(hidden(e.name@) && e.path_is_dir) && e.size is Some
}

/// Whether a listed entry is walked into.
pub open spec fn descended(e: RawDirEntry, recursive: bool) -> bool {
    listed(e) && recursive && e.is_dir && !hidden(e.name@)
}

/// Whether a directory at `depth` is read.
pub open spec fn within_depth(depth: nat, max_depth: nat) -> bool {
    max_depth == 0 || depth < max_depth
}

/// The abstract value of a directory entry: name, path, whether a
/// directory, size.
pub struct DirEntryModel {
    /// Name.
    pub name: Seq<char>,
    /// Path.
    pub path: Seq<char>,
    /// Whether a directory.
    pub is_dir: bool,
    /// Size in bytes.
    pub size: u64,
}

impl View for SandboxDirEntry {
    type V = DirEntryModel;

    open spec fn view(&self) -> DirEntryModel {
        DirEntryModel { name: self.name@, path: self.path@, is_dir: self.is_dir, size: self.size }
    }
}

/// The views of a list of entries.
pub open spec fn entry_views(v: Seq<SandboxDirEntry>) -> Seq<DirEntryModel> {
    v.map_values(|e: SandboxDirEntry| e@)
}

/// The views of a queue of directories and depths.
pub open spec fn queue_views(v: Seq<(String, usize)>) -> Seq<(Seq<char>, nat)> {
    v.map_values(|q: (String, usize)| (q.0@, q.1 as nat))
}

/// The entry kept for an entry read: a directory's size is 0, a file's
/// the size read.
pub open spec fn entry_model(e: RawDirEntry) -> DirEntryModel {
    DirEntryModel {
        name: e.name@,
        path: e.path@,
        is_dir: e.is_dir,
        size: if e.is_dir {
            0
        } else {
            match e.size {
                Some(z) => z,
                None => 0,
            }
        },
    }
}

/// The entries kept of those read, in order.
pub open spec fn kept_of(raw: Seq<RawDirEntry>) -> Seq<DirEntryModel>
    decreases raw.len(),
{
    if raw.len() == 0 {
        Seq::empty()
    } else if listed(raw.last()) {
        kept_of(raw.drop_last()).push(entry_model(raw.last()))
    } else {
        kept_of(raw.drop_last())
    }
}

/// The directories queued of those read, at `depth`, in order.
pub open spec fn queued_of(raw: Seq<RawDirEntry>, recursive: bool, depth: nat) -> Seq<(Seq<char>, nat)>
    decreases raw.len(),
{
    if raw.len() == 0 {
        Seq::empty()
    } else if descended(raw.last(), recursive) {
        queued_of(raw.drop_last(), recursive, depth).push((raw.last().path@, depth))
    } else {
        queued_of(raw.drop_last(), recursive, depth)
    }
}

/// A breadth-first walk of a directory tree for a listing: which
/// directory to read next, and what to keep of what it holds.
#[derive(Debug)]
pub struct DirWalk {
    queue: Vec<(String, usize)>,
    head: usize,
    entries: Vec<SandboxDirEntry>,
    recursive: bool,
    max_depth: usize,
}

impl DirWalk {
    /// The directories still to read, with their depths, in order.
    pub closed spec fn pending(&self) -> Seq<(Seq<char>, nat)> {
        queue_views(self.queue@).skip(self.head as int)
    }

    /// The entries kept so far.
    pub closed spec fn kept(&self) -> Seq<SandboxDirEntry> {
        self.entries@
    }

    /// Whether subdirectories are walked into.
    pub closed spec fn is_recursive(&self) -> bool {
        self.recursive
    }

    /// The depth limit (0 for none).
    pub closed spec fn depth_limit(&self) -> nat {
        self.max_depth as nat
    }

    /// What holds of a walk.
    pub closed spec fn wf(&self) -> bool {
        self.head <= self.queue@.len()
    }

    /// A walk from `root` at depth 0.
    pub fn new(root: &str, recursive: bool, max_depth: usize) -> (w: Self)
        ensures
            w.wf(),
            w.pending() == seq![(root@, 0nat)],
            w.kept() == Seq::<SandboxDirEntry>::empty(),
            w.is_recursive() == recursive,
            w.depth_limit() == max_depth,
    {
        let mut queue: Vec<(String, usize)> = Vec::new();
        queue.push((owned(root), 0));
        let w = DirWalk { queue, head: 0, entries: Vec::new(), recursive, max_depth };
        assert(w.pending() =~= seq![(root@, 0nat)]);
        w
    }

    /// The next directory to read, with its depth; directories beyond
    /// the depth limit are passed over.  `None` when the walk is done.
    pub fn next_dir(&mut self) -> (r: Option<(String, usize)>)
        requires
            old(self).wf(),
        ensures
            final(self).wf(),
            final(self).kept() == old(self).kept(),
            final(self).is_recursive() == old(self).is_recursive(),
            final(self).depth_limit() == old(self).depth_limit(),
            r matches Some((p, d)) ==> within_depth(d as nat, old(self).depth_limit()) && exists|
                k: int,
            |
                0 <= k < old(self).pending().len() && old(self).pending()[k] == (p@, d as nat)
                    && final(self).pending() == old(self).pending().skip(k + 1) && forall|j: int|
                    0 <= j < k ==> !within_depth(#[trigger] old(self).pending()[j].1, old(self).depth_limit()),
            r is None ==> final(self).pending().len() == 0 && forall|j: int|
                0 <= j < old(self).pending().len() ==> !within_depth(
                    #[trigger] old(self).pending()[j].1,
                    old(self).depth_limit(),
                ),
    {
        let ghost start = self.head as int;
        while self.head < self.queue.len()
            invariant
                start <= self.head <= self.queue@.len(),
                self.entries@ == old(self).entries@,
                self.queue@ == old(self).queue@,
                self.recursive == old(self).recursive,
                self.max_depth == old(self).max_depth,
                start == old(self).head,
                forall|j: int|
                    start <= j < self.head ==> !within_depth(
                        #[trigger] self.queue@[j].1 as nat,
                        self.max_depth as nat,
                    ),
            decreases self.queue@.len() - self.head,
        {
            let h = self.head;
            let d = self.queue[h].1;
            self.head = h + 1;
            if self.max_depth == 0 || d < self.max_depth {
                let p = self.queue[h].0.clone();
                proof {
                    let k = h - start;
                    assert(old(self).pending()[k] == (p@, d as nat));
                    assert(self.pending() =~= old(self).pending().skip(k + 1));
                    assert forall|j: int| 0 <= j < k implies !within_depth(
                        #[trigger] old(self).pending()[j].1,
                        old(self).depth_limit(),
                    ) by {
                        assert(old(self).pending()[j].1 == self.queue@[start + j].1 as nat);
                    }
                }
                return Some((p, d));
            }
        }
        proof {
            assert(self.pending() =~= Seq::<(Seq<char>, nat)>::empty());
            assert forall|j: int| 0 <= j < old(self).pending().len() implies !within_depth(
                #[trigger] old(self).pending()[j].1,
                old(self).depth_limit(),
            ) by {
                assert(old(self).pending()[j].1 == self.queue@[start + j].1 as nat);
            }
        }
        None
    }

    /// Takes what a directory at `depth` holds: keeps each listed entry,
    /// in order, and queues the subdirectories to walk into at the next
    /// depth.
    pub fn take_entries(&mut self, depth: usize, raw: Vec<RawDirEntry>)
        requires
            old(self).wf(),
            depth < usize::MAX,
        ensures
            final(self).wf(),
            final(self).is_recursive() == old(self).is_recursive(),
            final(self).depth_limit() == old(self).depth_limit(),
            entry_views(final(self).kept()) == entry_views(old(self).kept()) + kept_of(raw@),
            final(self).pending() == old(self).pending() + queued_of(
                raw@,
                old(self).is_recursive(),
                (depth + 1) as nat,
            ),
    {
        let ghost old_kept = entry_views(self.entries@);
        let ghost q0 = self.queue@;
        let mut k: usize = 0;
        while k < raw.len()
            invariant
                k <= raw@.len(),
                self.head == old(self).head,
                self.head <= q0.len(),
                q0 == old(self).queue@,
                self.recursive == old(self).recursive,
                self.max_depth == old(self).max_depth,
                depth < usize::MAX,
                old_kept == entry_views(old(self).entries@),
                entry_views(self.entries@) == old_kept + kept_of(raw@.take(k as int)),
                queue_views(self.queue@) == queue_views(q0) + queued_of(
                    raw@.take(k as int),
                    self.recursive,
                    (depth + 1) as nat,
                ),
                self.queue@.len() >= q0.len(),
            decreases raw.len() - k,
        {
            let ghost before_e = entry_views(self.entries@);
            let ghost before_q = queue_views(self.queue@);
            assert(raw@.take(k + 1).drop_last() == raw@.take(k as int));
            assert(raw@.take(k + 1).last() == raw@[k as int]);
            let e = &raw[k];
            let names = chars_of(e.name.as_str());
            let is_hidden = names.len() > 0 && names[0] == '.';
            assert(is_hidden == hidden(e.name@));
            if !(is_hidden && e.path_is_dir) && e.size.is_some() {
                let size = if e.is_dir {
                    0
                } else {
                    match e.size {
                        Some(z) => z,
                        None => 0,
                    }
                };
                self.entries.push(
                    SandboxDirEntry { name: e.name.clone(), path: e.path.clone(), is_dir: e.is_dir, size },
                );
                assert(entry_views(self.entries@) =~= before_e.push(entry_model(raw@[k as int])));
                if self.recursive && e.is_dir && !is_hidden {
                    self.queue.push((e.path.clone(), depth + 1));
                    assert(queue_views(self.queue@) =~= before_q.push((raw@[k as int].path@, (depth + 1) as nat)));
                } else {
                    assert(queue_views(self.queue@) =~= before_q);
                }
            }
            k += 1;
        }
        proof {
            assert(raw@.take(raw@.len() as int) == raw@);
            assert(self.pending() =~= queue_views(self.queue@).skip(self.head as int));
            assert(old(self).pending() =~= queue_views(q0).skip(self.head as int));
            assert(queue_views(self.queue@).skip(self.head as int) =~= queue_views(q0).skip(
                self.head as int,
            ) + queued_of(raw@, self.recursive, (depth + 1) as nat));
        }
    }

    /// The entries kept, at the end of the walk.
    pub fn into_entries(self) -> (r: Vec<SandboxDirEntry>)
        ensures
            r@ == self.kept(),
    {
        self.entries
    }
}

/// A listing that is not recursive walks into no subdirectory.
pub proof fn law_flat_listing_queues_nothing(raw: Seq<RawDirEntry>, depth: nat)
    ensures
        queued_of(raw, false, depth) == Seq::<(Seq<char>, nat)>::empty(),
    decreases raw.len(),
{
    if raw.len() > 0 {
        law_flat_listing_queues_nothing(raw.drop_last(), depth);
    }
}

/// Every directory queued by a read at some depth is one level deeper,
/// comes from a listed, non-hidden directory entry, and is queued only
/// when listing recursively.
pub proof fn law_queued_directories(raw: Seq<RawDirEntry>, recursive: bool, depth: nat)
    ensures
        forall|i: int|
            0 <= i < queued_of(raw, recursive, depth).len() ==> (#[trigger] queued_of(
                raw,
                recursive,
                depth,
            )[i]).1 == depth && exists|k: int|
                0 <= k < raw.len() && descended(raw[k], recursive) && raw[k].path@ == queued_of(
                    raw,
                    recursive,
                    depth,
                )[i].0,
        queued_of(raw, recursive, depth).len() <= kept_of(raw).len(),
    decreases raw.len(),
{
    if raw.len() > 0 {
        let prev = raw.drop_last();
        law_queued_directories(prev, recursive, depth);
        let q = queued_of(raw, recursive, depth);
        let pq = queued_of(prev, recursive, depth);
        if descended(raw.last(), recursive) {
            assert(q == pq.push((raw.last().path@, depth)));
        } else {
            assert(q == pq);
        }
        assert forall|i: int| 0 <= i < q.len() implies (#[trigger] q[i]).1 == depth && exists|k: int|
            0 <= k < raw.len() && descended(raw[k], recursive) && raw[k].path@ == q[i].0 by {
            if i < pq.len() {
                assert(q[i] == pq[i]);
                let k = choose|k: int|
                    0 <= k < prev.len() && descended(prev[k], recursive) && prev[k].path@ == pq[i].0;
                assert(raw[k] == prev[k]);
            } else {
                assert(q.len() == pq.len() + 1 && descended(raw.last(), recursive));
                assert(q[i] == (raw.last().path@, depth));
                assert(raw[raw.len() - 1] == raw.last());
                assert(descended(raw[raw.len() - 1], recursive));
            }
        }
    }
}

/// The entries a whole walk keeps, in order, when the directories it
/// reads hold what `fs` gives for them (a directory `fs` lacks cannot be
/// read and gives nothing): from the pending directories, those beyond
/// the depth limit are passed over, and each other one is read, keeping
/// its listed entries and queueing its subdirectories one level deeper.
/// `reads` bounds the number of directories read.
pub open spec fn walk_run(
    fs: Map<Seq<char>, Seq<RawDirEntry>>,
    pending: Seq<(Seq<char>, nat)>,
    recursive: bool,
    max_depth: nat,
    reads: nat,
) -> Seq<DirEntryModel>
    decreases reads, pending.len(),
{
    if pending.len() == 0 {
        Seq::empty()
    } else if !within_depth(pending[0].1, max_depth) {
        walk_run(fs, pending.drop_first(), recursive, max_depth, reads)
    } else if reads == 0 {
        Seq::empty()
    } else if !fs.contains_key(pending[0].0) {
        walk_run(fs, pending.drop_first(), recursive, max_depth, (reads - 1) as nat)
    } else {
        kept_of(fs[pending[0].0]) + walk_run(
            fs,
            pending.drop_first() + queued_of(fs[pending[0].0], recursive, pending[0].1 + 1),
            recursive,
            max_depth,
            (reads - 1) as nat,
        )
    }
}

/// One step of a walk, as `next_dir` and `take_entries` make it: the
/// directories before the first one within the depth limit are passed
/// over, that one is read (when it can be), and the rest of the walk
/// goes on from the new queue.
pub proof fn law_walk_step(
    fs: Map<Seq<char>, Seq<RawDirEntry>>,
    pending: Seq<(Seq<char>, nat)>,
    recursive: bool,
    max_depth: nat,
    reads: nat,
    k: int,
)
    requires
        0 <= k < pending.len(),
        within_depth(pending[k].1, max_depth),
        forall|j: int| 0 <= j < k ==> !within_depth(#[trigger] pending[j].1, max_depth),
        reads > 0,
    ensures
        walk_run(fs, pending, recursive, max_depth, reads) == if fs.contains_key(pending[k].0) {
            kept_of(fs[pending[k].0]) + walk_run(
                fs,
                pending.skip(k + 1) + queued_of(fs[pending[k].0], recursive, pending[k].1 + 1),
                recursive,
                max_depth,
                (reads - 1) as nat,
            )
        } else {
            walk_run(fs, pending.skip(k + 1), recursive, max_depth, (reads - 1) as nat)
        },
    decreases k,
{
    if k == 0 {
        assert(pending.drop_first() =~= pending.skip(1));
    } else {
        let p = pending.drop_first();
        assert forall|j: int| 0 <= j < k - 1 implies !within_depth(#[trigger] p[j].1, max_depth) by {
            assert(p[j] == pending[j + 1]);
        }
        law_walk_step(fs, p, recursive, max_depth, reads, k - 1);
        assert(p.skip(k) =~= pending.skip(k + 1));
        assert(p[k - 1] == pending[k]);
        assert(!within_depth(pending[0].1, max_depth));
    }
}

/// A walk whose pending directories are all beyond the depth limit
/// keeps nothing more.
pub proof fn law_walk_done(
    fs: Map<Seq<char>, Seq<RawDirEntry>>,
    pending: Seq<(Seq<char>, nat)>,
    recursive: bool,
    max_depth: nat,
    reads: nat,
)
    requires
        forall|j: int| 0 <= j < pending.len() ==> !within_depth(#[trigger] pending[j].1, max_depth),
    ensures
        walk_run(fs, pending, recursive, max_depth, reads) == Seq::<DirEntryModel>::empty(),
    decreases pending.len(),
{
    if pending.len() > 0 {
        let p = pending.drop_first();
        assert forall|j: int| 0 <= j < p.len() implies !within_depth(#[trigger] p[j].1, max_depth) by {
            assert(p[j] == pending[j + 1]);
        }
        assert(!within_depth(pending[0].1, max_depth));
        law_walk_done(fs, p, recursive, max_depth, reads);
    }
}

/// A listing that is not recursive keeps exactly the listed entries of
/// the root (none when it cannot be read): the root's children but
/// hidden directories and entries whose metadata cannot be read.
pub proof fn law_flat_walk(fs: Map<Seq<char>, Seq<RawDirEntry>>, root: Seq<char>, max_depth: nat, reads: nat)
    requires
        reads > 0,
    ensures
        walk_run(fs, seq![(root, 0nat)], false, max_depth, reads) == if fs.contains_key(root) {
            kept_of(fs[root])
        } else {
            Seq::<DirEntryModel>::empty()
        },
{
    let pending = seq![(root, 0nat)];
    let none = Seq::<(Seq<char>, nat)>::empty();
    assert(within_depth(pending[0].1, max_depth));
    assert(pending.drop_first() =~= none);
    assert(walk_run(fs, none, false, max_depth, (reads - 1) as nat) == Seq::<DirEntryModel>::empty());
    if fs.contains_key(root) {
        law_flat_listing_queues_nothing(fs[root], 1);
        assert(pending.drop_first() + queued_of(fs[root], false, pending[0].1 + 1) =~= none);
        assert(kept_of(fs[root]) + Seq::<DirEntryModel>::empty() =~= kept_of(fs[root]));
    }
}

/// Whether the walk from `root` reaches directory `p` at depth `d`: the
/// root at depth 0, and at each next depth a directory entry, listed,
/// not hidden and walked into, of a directory reached one level up.
pub open spec fn reached(
    fs: Map<Seq<char>, Seq<RawDirEntry>>,
    root: Seq<char>,
    recursive: bool,
    p: Seq<char>,
    d: nat,
) -> bool
    decreases d,
{
    if d == 0 {
        p == root
    } else {
        exists|q: Seq<char>, i: int|
            #![trigger fs[q][i]]
            reached(fs, root, recursive, q, (d - 1) as nat) && fs.contains_key(q) && 0 <= i < fs[q].len()
                && descended(fs[q][i], recursive) && fs[q][i].path@ == p
    }
}

/// Whether `x` is what is kept of a listed entry of `raw`.
pub open spec fn from_listed(raw: Seq<RawDirEntry>, x: DirEntryModel) -> bool {
    exists|k: int| 0 <= k < raw.len() && listed(raw[k]) && entry_model(raw[k]) == x
}

/// Every entry kept of a read is a listed entry read.
pub proof fn lemma_kept_of_listed(raw: Seq<RawDirEntry>)
    ensures
        forall|i: int| 0 <= i < kept_of(raw).len() ==> from_listed(raw, #[trigger] kept_of(raw)[i]),
    decreases raw.len(),
{
    if raw.len() > 0 {
        let prev = raw.drop_last();
        lemma_kept_of_listed(prev);
        let kr = kept_of(raw);
        let kp = kept_of(prev);
        if listed(raw.last()) {
            assert(kr == kp.push(entry_model(raw.last())));
        } else {
            assert(kr == kp);
        }
        assert forall|i: int| 0 <= i < kr.len() implies from_listed(raw, #[trigger] kr[i]) by {
            if i < kp.len() {
                assert(kr[i] == kp[i]);
                assert(from_listed(prev, kp[i]));
                let k = choose|k: int| 0 <= k < prev.len() && listed(prev[k]) && entry_model(prev[k]) == kp[i];
                assert(raw[k] == prev[k]);
            } else {
                assert(kr[i] == entry_model(raw.last()));
                assert(raw[raw.len() - 1] == raw.last());
            }
        }
    }
}

/// Every entry a walk keeps lies in a directory the walk reached from
/// `root` within the depth limit: it is a listed entry of a directory at
/// depth `d` (so the entry is `d + 1` levels below the root, and at most
/// `max_depth` when there is a limit), reached only through directories
/// that are not hidden.
pub proof fn law_walk_entries_reached(
    fs: Map<Seq<char>, Seq<RawDirEntry>>,
    root: Seq<char>,
    recursive: bool,
    max_depth: nat,
    pending: Seq<(Seq<char>, nat)>,
    reads: nat,
)
    requires
        forall|j: int|
            0 <= j < pending.len() ==> reached(fs, root, recursive, (#[trigger] pending[j]).0, pending[j].1),
    ensures
        forall|x: DirEntryModel|
            #[trigger] walk_run(fs, pending, recursive, max_depth, reads).contains(x) ==> exists|
                p: Seq<char>,
                d: nat,
                k: int,
            |
                #![trigger fs[p][k], reached(fs, root, recursive, p, d)]
                reached(fs, root, recursive, p, d) && within_depth(d, max_depth) && fs.contains_key(p) && 0
                    <= k < fs[p].len() && listed(fs[p][k]) && entry_model(fs[p][k]) == x,
    decreases reads, pending.len(),
{
    if pending.len() == 0 {
        return;
    }
    let rest = pending.drop_first();
    assert forall|j: int| 0 <= j < rest.len() implies reached(fs, root, recursive, (#[trigger] rest[j]).0, rest[j].1) by {
        assert(rest[j] == pending[j + 1]);
    }
    let (p0, d0) = pending[0];
    assert(reached(fs, root, recursive, pending[0].0, pending[0].1));
    if !within_depth(d0, max_depth) {
        law_walk_entries_reached(fs, root, recursive, max_depth, rest, reads);
        assert(walk_run(fs, pending, recursive, max_depth, reads) == walk_run(fs, rest, recursive, max_depth, reads));
    } else if reads == 0 {
        assert(walk_run(fs, pending, recursive, max_depth, reads) == Seq::<DirEntryModel>::empty());
    } else if !fs.contains_key(p0) {
        law_walk_entries_reached(fs, root, recursive, max_depth, rest, (reads - 1) as nat);
        assert(walk_run(fs, pending, recursive, max_depth, reads) == walk_run(
            fs,
            rest,
            recursive,
            max_depth,
            (reads - 1) as nat,
        ));
    } else {
        let raw = fs[p0];
        let q = queued_of(raw, recursive, d0 + 1);
        law_queued_directories(raw, recursive, d0 + 1);
        let next = rest + q;
        assert forall|j: int| 0 <= j < next.len() implies reached(fs, root, recursive, (#[trigger] next[j]).0, next[j].1) by {
            if j < rest.len() {
                assert(next[j] == rest[j]);
            } else {
                let i = j - rest.len();
                assert(next[j] == q[i]);
                assert(q[i].1 == d0 + 1);
                let k = choose|k: int| 0 <= k < raw.len() && descended(raw[k], recursive) && raw[k].path@ == q[i].0;
                assert(fs[p0][k] == raw[k]);
                assert(reached(fs, root, recursive, p0, d0));
                assert(((d0 + 1) - 1) as nat == d0);
            }
        }
        law_walk_entries_reached(fs, root, recursive, max_depth, next, (reads - 1) as nat);
        lemma_kept_of_listed(raw);
        let tail = walk_run(fs, next, recursive, max_depth, (reads - 1) as nat);
        assert(walk_run(fs, pending, recursive, max_depth, reads) == kept_of(raw) + tail);
        assert forall|x: DirEntryModel| #[trigger] (kept_of(raw) + tail).contains(x) implies exists|
            p: Seq<char>,
            d: nat,
            k: int,
        |
            #![trigger fs[p][k], reached(fs, root, recursive, p, d)]
            reached(fs, root, recursive, p, d) && within_depth(d, max_depth) && fs.contains_key(p) && 0
                <= k < fs[p].len() && listed(fs[p][k]) && entry_model(fs[p][k]) == x by {
            let c = kept_of(raw) + tail;
            let i = choose|i: int| 0 <= i < c.len() && c[i] == x;
            if i < kept_of(raw).len() {
                assert(c[i] == kept_of(raw)[i]);
                assert(from_listed(raw, kept_of(raw)[i]));
                let k = choose|k: int| 0 <= k < raw.len() && listed(raw[k]) && entry_model(raw[k]) == kept_of(raw)[i];
                assert(fs[p0][k] == raw[k]);
                assert(reached(fs, root, recursive, p0, d0));
            } else {
                assert(c[i] == tail[i - kept_of(raw).len()]);
                assert(tail.contains(x));
            }
        }
    }
}

/// Text in which `from` does not occur comes back unchanged from a
/// replacement.
pub proof fn law_replace_without_match(s: Seq<char>, from: Seq<char>, to: Seq<char>)
    requires
        from.len() > 0,
        forall|i: int| !crate::text::occurs_at(s, from, i),
    ensures
        replace_all(s, from, to) == s,
        replace_first(s, from, to) == s,
    decreases s.len(),
{
    crate::text::lemma_find_from(s, from, 0);
    if s.len() >= from.len() {
        assert(s.take(from.len() as int) != from) by {
            assert(!crate::text::occurs_at(s, from, 0));
            assert(s.subrange(0, from.len() as int) == s.take(from.len() as int));
        }
        let t = s.drop_first();
        assert forall|i: int| !crate::text::occurs_at(t, from, i) by {
            if crate::text::occurs_at(t, from, i) {
                assert(s.subrange(i + 1, i + 1 + from.len()) =~= t.subrange(i, i + from.len()));
                assert(crate::text::occurs_at(s, from, i + 1));
            }
        }
        law_replace_without_match(t, from, to);
        assert(seq![s[0]] + t =~= s);
    }
}

} // verus!
