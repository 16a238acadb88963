//! The vault writer's decision logic.
//!
//! A file may be created under the vault only when its name passes the
//! validator, the configured target directory exists, the resolved path
//! stays inside the vault, and no file of that name exists yet.  The
//! functions here decide all of that; the embedding program probes the
//! filesystem and performs the one write the decision allows.

use vstd::prelude::*;
use crate::json::{char_from_u32, chars_to_string, str_chars};

verus! {

broadcast use vstd::seq::group_seq_axioms, vstd::std_specs::vec::group_vec_axioms;

// ------------------------------------------------------------------
// Errors
// ------------------------------------------------------------------

/// Model of a vault failure.
pub enum VaultErrorV {
    /// The filename is empty.
    EmptyFilename,
    /// The filename holds the given forbidden character.
    InvalidCharacter(char),
    /// The filename holds two consecutive dots.
    PathTraversal,
    /// The filename is a reserved device name.
    ReservedName(Seq<char>),
    /// The target directory is missing; the payload is its path.
    TargetDirectoryMissing(Seq<char>),
    /// A path could not be canonicalized; the payload is the candidate.
    CanonicalizeFailed(Seq<char>),
    /// The resolved path leaves the vault; the payload is the candidate.
    OutsideVault(Seq<char>),
    /// The file is already there; the payload is its path.
    AlreadyExists(Seq<char>),
}

/// Why a save was refused.
#[derive(Debug)]
pub enum VaultError {
    EmptyFilename,
    InvalidCharacter(char),
    PathTraversal,
    ReservedName(String),
    TargetDirectoryMissing(String),
    CanonicalizeFailed(String),
    OutsideVault(String),
    AlreadyExists(String),
}

impl View for VaultError {
    type V = VaultErrorV;

    open spec fn view(&self) -> VaultErrorV {
        match self {
            VaultError::EmptyFilename => VaultErrorV::EmptyFilename,
            VaultError::InvalidCharacter(c) => VaultErrorV::InvalidCharacter(*c),
            VaultError::PathTraversal => VaultErrorV::PathTraversal,
            VaultError::ReservedName(f) => VaultErrorV::ReservedName(f@),
            VaultError::TargetDirectoryMissing(p) => VaultErrorV::TargetDirectoryMissing(p@),
            VaultError::CanonicalizeFailed(p) => VaultErrorV::CanonicalizeFailed(p@),
            VaultError::OutsideVault(p) => VaultErrorV::OutsideVault(p@),
            VaultError::AlreadyExists(p) => VaultErrorV::AlreadyExists(p@),
        }
    }
}

/// The text a vault failure is reported with.
pub open spec fn vault_error_message(e: VaultErrorV) -> Seq<char> {
    match e {
        VaultErrorV::EmptyFilename => "Filename cannot be empty"@,
        VaultErrorV::InvalidCharacter(c) => "Filename contains invalid character: "@ + seq![c],
        VaultErrorV::PathTraversal => "Filename cannot contain '..'"@,
        VaultErrorV::ReservedName(f) => "Filename is reserved: "@ + f,
        VaultErrorV::TargetDirectoryMissing(p) => "Target directory does not exist: "@ + p,
        VaultErrorV::CanonicalizeFailed(p) => "Failed to canonicalize path: "@ + p,
        VaultErrorV::OutsideVault(p) => "File path is outside vault: "@ + p,
        VaultErrorV::AlreadyExists(p) => "File already exists: "@ + p,
    }
}

impl VaultError {
    /// The text this failure is reported with.
    pub fn message(&self) -> (r: String)
        ensures
            r@ == vault_error_message(self@),
    {
        match self {
            VaultError::EmptyFilename => String::from_str("Filename cannot be empty"),
            VaultError::InvalidCharacter(c) => {
                let mut cs = str_chars("Filename contains invalid character: ");
                cs.push(*c);
                proof {
                    assert(cs@ =~= "Filename contains invalid character: "@ + seq![*c]);
                }
                chars_to_string(&cs)
            },
            VaultError::PathTraversal => String::from_str("Filename cannot contain '..'"),
            VaultError::ReservedName(f) => String::from_str("Filename is reserved: ").concat(
                f.as_str(),
            ),
            VaultError::TargetDirectoryMissing(p) => String::from_str(
                "Target directory does not exist: ",
            ).concat(p.as_str()),
            VaultError::CanonicalizeFailed(p) => String::from_str(
                "Failed to canonicalize path: ",
            ).concat(p.as_str()),
            VaultError::OutsideVault(p) => String::from_str("File path is outside vault: ").concat(
                p.as_str(),
            ),
            VaultError::AlreadyExists(p) => String::from_str("File already exists: ").concat(
                p.as_str(),
            ),
        }
    }
}

// ------------------------------------------------------------------
// Filename validation
// ------------------------------------------------------------------

/// The characters a filename may never hold.
pub open spec fn is_invalid_char(c: char) -> bool {
    c == '/' || c == '\\' || c == ':' || c == '*' || c == '?' || c == '"' || c == '<' || c == '>'
        || c == '|'
}

pub open spec fn has_invalid_char(f: Seq<char>) -> bool {
    exists|i: int| 0 <= i < f.len() && is_invalid_char(f[i])
}

/// Which forbidden character the validator reports: the first present
/// one, in the fixed order the characters are checked in.
pub open spec fn offending_char(f: Seq<char>) -> char {
    if f.contains('/') {
        '/'
    } else if f.contains('\\') {
        '\\'
    } else if f.contains(':') {
        ':'
    } else if f.contains('*') {
        '*'
    } else if f.contains('?') {
        '?'
    } else if f.contains('"') {
        '"'
    } else if f.contains('<') {
        '<'
    } else if f.contains('>') {
        '>'
    } else {
        '|'
    }
}

/// Two consecutive dots anywhere in the name.
pub open spec fn has_dotdot(f: Seq<char>) -> bool {
    exists|i: int| 0 <= i && i + 1 < f.len() && #[trigger] f[i] == '.' && f[i + 1] == '.'
}

/// The upper-case form of an ASCII letter; anything else unchanged.
pub open spec fn upper_char(c: char) -> char {
    if 97 <= c as u32 && c as u32 <= 122 {
        ((c as u32) - 32) as char
    } else {
        c
    }
}

/// The name with its ASCII letters upper-cased.
pub open spec fn upper(f: Seq<char>) -> Seq<char> {
    f.map_values(|c: char| upper_char(c))
}

/// Whether an upper-cased name is the given reserved name, either
/// whole or followed by a dot and anything.
pub open spec fn matches_reserved(u: Seq<char>, n: Seq<char>) -> bool {
    u == n || (u.len() > n.len() && u.subrange(0, n.len() as int) == n && u[n.len() as int] == '.')
}

/// Whether the name is, case-insensitively, a reserved device name.
pub open spec fn is_reserved(f: Seq<char>) -> bool {
    let u = upper(f);
    ||| matches_reserved(u, "CON"@)
    ||| matches_reserved(u, "PRN"@)
    ||| matches_reserved(u, "AUX"@)
    ||| matches_reserved(u, "NUL"@)
    ||| matches_reserved(u, "COM1"@)
    ||| matches_reserved(u, "COM2"@)
    ||| matches_reserved(u, "COM3"@)
    ||| matches_reserved(u, "COM4"@)
    ||| matches_reserved(u, "COM5"@)
    ||| matches_reserved(u, "COM6"@)
    ||| matches_reserved(u, "COM7"@)
    ||| matches_reserved(u, "COM8"@)
    ||| matches_reserved(u, "COM9"@)
    ||| matches_reserved(u, "LPT1"@)
    ||| matches_reserved(u, "LPT2"@)
    ||| matches_reserved(u, "LPT3"@)
    ||| matches_reserved(u, "LPT4"@)
    ||| matches_reserved(u, "LPT5"@)
    ||| matches_reserved(u, "LPT6"@)
    ||| matches_reserved(u, "LPT7"@)
    ||| matches_reserved(u, "LPT8"@)
    ||| matches_reserved(u, "LPT9"@)
}

/// A filename the vault accepts: nonempty, free of forbidden
/// characters and of consecutive dots, and not a reserved device name.
pub open spec fn filename_ok(f: Seq<char>) -> bool {
    f.len() > 0 && !has_invalid_char(f) && !has_dotdot(f) && !is_reserved(f)
}

/// What the validator answers, with its fixed order of checks.
pub open spec fn filename_check(f: Seq<char>) -> Result<(), VaultErrorV> {
    if f.len() == 0 {
        Err(VaultErrorV::EmptyFilename)
    } else if has_invalid_char(f) {
        Err(VaultErrorV::InvalidCharacter(offending_char(f)))
    } else if has_dotdot(f) {
        Err(VaultErrorV::PathTraversal)
    } else if is_reserved(f) {
        Err(VaultErrorV::ReservedName(f))
    } else {
        Ok(())
    }
}

/// Whether the sequence holds the character.
#[verifier::loop_isolation(false)]
fn contains_char(f: &Vec<char>, c: char) -> (r: bool)
    ensures
        r == f@.contains(c),
{
    let n = f.len();
    let mut i: usize = 0;
    while i < n
        invariant
            i <= n,
            forall|k: int| 0 <= k < i ==> f@[k] != c,
        decreases n - i,
    {
        if f[i] == c {
            return true;
        }
        i = i + 1;
    }
    proof {
        assert(!f@.contains(c));
    }
    false
}

/// The name with its ASCII letters upper-cased.
#[verifier::loop_isolation(false)]
fn upper_vec(f: &Vec<char>) -> (r: Vec<char>)
    ensures
        r@ == upper(f@),
{
    let n = f.len();
    let mut r: Vec<char> = Vec::new();
    let mut i: usize = 0;
    while i < n
        invariant
            i <= n,
            r@.len() == i,
            forall|k: int| 0 <= k < i ==> r@[k] == upper_char(f@[k]),
        decreases n - i,
    {
        let c = f[i];
        let u = c as u32;
        if 97 <= u && u <= 122 {
            match char_from_u32(u - 32) {
                Some(up) => {
                    r.push(up);
                },
                None => {
                    proof {
                        assert(false);
                    }
                },
            }
        } else {
            r.push(c);
        }
        i = i + 1;
    }
    proof {
        assert(r@ =~= upper(f@));
    }
    r
}

/// Whether the first `k` characters of the two sequences agree.
#[verifier::loop_isolation(false)]
fn prefix_eq(a: &Vec<char>, b: &Vec<char>, k: usize) -> (r: bool)
    requires
        k <= a@.len(),
        k <= b@.len(),
    ensures
        r == (a@.take(k as int) == b@.take(k as int)),
{
    let mut i: usize = 0;
    while i < k
        invariant
            i <= k,
            forall|m: int| 0 <= m < i ==> a@[m] == b@[m],
        decreases k - i,
    {
        if a[i] != b[i] {
            proof {
                assert(a@.take(k as int)[i as int] != b@.take(k as int)[i as int]);
            }
            return false;
        }
        i = i + 1;
    }
    proof {
        assert(a@.take(k as int) =~= b@.take(k as int));
    }
    true
}

/// Whether the upper-cased name matches one reserved name.
fn matches_reserved_x(u: &Vec<char>, name: &str) -> (r: bool)
    ensures
        r == matches_reserved(u@, name@),
{
    let ncs = str_chars(name);
    let nl = ncs.len();
    if u.len() == nl {
        let r = prefix_eq(u, &ncs, nl);
        proof {
            assert(u@.take(nl as int) =~= u@);
            assert(ncs@.take(nl as int) =~= ncs@);
        }
        r
    } else if u.len() > nl {
        if prefix_eq(u, &ncs, nl) {
            proof {
                assert(ncs@.take(nl as int) =~= ncs@);
                assert(u@.subrange(0, nl as int) =~= u@.take(nl as int));
            }
            u[nl] == '.'
        } else {
            proof {
                assert(u@.subrange(0, nl as int) =~= u@.take(nl as int));
                assert(ncs@.take(nl as int) =~= ncs@);
            }
            false
        }
    } else {
        false
    }
}

/// Whether the name is, case-insensitively, a reserved device name.
fn is_reserved_x(f: &Vec<char>) -> (r: bool)
    ensures
        r == is_reserved(f@),
{
    let u = upper_vec(f);
    matches_reserved_x(&u, "CON") || matches_reserved_x(&u, "PRN") || matches_reserved_x(&u, "AUX")
        || matches_reserved_x(&u, "NUL") || matches_reserved_x(&u, "COM1") || matches_reserved_x(
        &u,
        "COM2",
    ) || matches_reserved_x(&u, "COM3") || matches_reserved_x(&u, "COM4") || matches_reserved_x(
        &u,
        "COM5",
    ) || matches_reserved_x(&u, "COM6") || matches_reserved_x(&u, "COM7") || matches_reserved_x(
        &u,
        "COM8",
    ) || matches_reserved_x(&u, "COM9") || matches_reserved_x(&u, "LPT1") || matches_reserved_x(
        &u,
        "LPT2",
    ) || matches_reserved_x(&u, "LPT3") || matches_reserved_x(&u, "LPT4") || matches_reserved_x(
        &u,
        "LPT5",
    ) || matches_reserved_x(&u, "LPT6") || matches_reserved_x(&u, "LPT7") || matches_reserved_x(
        &u,
        "LPT8",
    ) || matches_reserved_x(&u, "LPT9")
}

/// Whether the name holds two consecutive dots.
#[verifier::loop_isolation(false)]
fn has_dotdot_x(f: &Vec<char>) -> (r: bool)
    ensures
        r == has_dotdot(f@),
{
    let n = f.len();
    if n < 2 {
        return false;
    }
    let mut i: usize = 0;
    while i < n - 1
        invariant
            i <= n - 1,
            forall|k: int| 0 <= k < i ==> !(#[trigger] f@[k] == '.' && f@[k + 1] == '.'),
        decreases n - i,
    {
        if f[i] == '.' && f[i + 1] == '.' {
            return true;
        }
        i = i + 1;
    }
    false
}

// ------------------------------------------------------------------
// Paths
// ------------------------------------------------------------------

/// One path below another, with exactly one separator between them.
pub open spec fn join_path(a: Seq<char>, b: Seq<char>) -> Seq<char> {
    if a.len() > 0 && a[a.len() - 1] == '/' {
        a + b
    } else {
        a + seq!['/'] + b
    }
}

/// Whether the name already carries the markdown extension.
pub open spec fn ends_md(f: Seq<char>) -> bool {
    f.len() >= 3 && f[f.len() - 3] == '.' && f[f.len() - 2] == 'm' && f[f.len() - 1] == 'd'
}

/// The name with the markdown extension, appended if absent.
pub open spec fn with_md(f: Seq<char>) -> Seq<char> {
    if ends_md(f) {
        f
    } else {
        f + seq!['.', 'm', 'd']
    }
}

/// A path that lies strictly below a directory: the directory, one
/// separator, and a nonempty final segment without separators.
pub open spec fn descendant_of(path: Seq<char>, dir: Seq<char>) -> bool {
    let pre = if dir.len() > 0 && dir[dir.len() - 1] == '/' {
        dir
    } else {
        dir + seq!['/']
    };
    &&& path.len() > pre.len()
    &&& path.subrange(0, pre.len() as int) == pre
    &&& forall|i: int| pre.len() <= i < path.len() ==> path[i] != '/'
}

/// Whether a canonical path equals the canonical vault root or lies
/// below it, component-wise.
pub open spec fn within_vault(vault: Seq<char>, file: Seq<char>) -> bool {
    let pre = if vault.len() > 0 && vault[vault.len() - 1] == '/' {
        vault
    } else {
        vault + seq!['/']
    };
    file == vault || (file.len() >= pre.len() && file.subrange(0, pre.len() as int) == pre)
}

/// Appends the characters of a string slice.
#[verifier::loop_isolation(false)]
fn push_str_chars(out: &mut Vec<char>, s: &str)
    ensures
        final(out)@ == old(out)@ + s@,
{
    let cs = str_chars(s);
    let n = cs.len();
    let mut i: usize = 0;
    while i < n
        invariant
            i <= n,
            out@ == old(out)@ + s@.take(i as int),
        decreases n - i,
    {
        out.push(cs[i]);
        proof {
            assert(out@ =~= old(out)@ + s@.take(i + 1 as int));
        }
        i = i + 1;
    }
    proof {
        assert(out@ =~= old(out)@ + s@);
    }
}

/// Joins two paths with exactly one separator.
fn join_path_x(a: &str, b: &str) -> (r: String)
    ensures
        r@ == join_path(a@, b@),
{
    let mut cs: Vec<char> = Vec::new();
    push_str_chars(&mut cs, a);
    let n = cs.len();
    if !(n > 0 && cs[n - 1] == '/') {
        cs.push('/');
    }
    push_str_chars(&mut cs, b);
    proof {
        assert(cs@ =~= join_path(a@, b@));
    }
    chars_to_string(&cs)
}

// ------------------------------------------------------------------
// The vault
// ------------------------------------------------------------------

/// Model of the vault writer's fixed paths.
pub struct VaultOpsV {
    pub vault_path: Seq<char>,
    pub target_directory: Seq<char>,
}

/// The vault writer: the vault root and the one directory under it
/// that files may be created in.
pub struct VaultOperations {
    vault_path: String,
    target_directory: String,
}

impl View for VaultOperations {
    type V = VaultOpsV;

    closed spec fn view(&self) -> VaultOpsV {
        VaultOpsV { vault_path: self.vault_path@, target_directory: self.target_directory@ }
    }
}

/// What the embedding program saw on the filesystem while preparing
/// one save: whether the target directory is a directory, the
/// canonical forms of the vault root and of the candidate path (the
/// candidate's parent canonicalized and the final segment re-appended
/// when the file does not exist yet), and whether the candidate
/// already exists.
pub struct FsFactsV {
    pub target_dir_is_dir: bool,
    pub canonical_vault: Option<Seq<char>>,
    pub canonical_candidate: Option<Seq<char>>,
    pub candidate_exists: bool,
}

/// One save's filesystem probes, reported by the embedding program.
pub struct FsFacts {
    pub target_dir_is_dir: bool,
    pub canonical_vault: Option<String>,
    pub canonical_candidate: Option<String>,
    pub candidate_exists: bool,
}

impl View for FsFacts {
    type V = FsFactsV;

    open spec fn view(&self) -> FsFactsV {
        FsFactsV {
            target_dir_is_dir: self.target_dir_is_dir,
            canonical_vault: match self.canonical_vault {
                Some(ref s) => Some(s@),
                None => None,
            },
            canonical_candidate: match self.canonical_candidate {
                Some(ref s) => Some(s@),
                None => None,
            },
            candidate_exists: self.candidate_exists,
        }
    }
}

/// What a save answers, given the name and the filesystem probes: the
/// checks run in a fixed order, and success carries the path to write.
pub open spec fn save_decision(
    ops: VaultOpsV,
    f: Seq<char>,
    facts: FsFactsV,
) -> Result<Seq<char>, VaultErrorV> {
    match filename_check(f) {
        Err(e) => Err(e),
        Ok(u) => if !facts.target_dir_is_dir {
            Err(VaultErrorV::TargetDirectoryMissing(join_path(ops.vault_path, ops.target_directory)))
        } else {
            let candidate = join_path(join_path(ops.vault_path, ops.target_directory), with_md(f));
            match (facts.canonical_vault, facts.canonical_candidate) {
                (Some(cv), Some(cc)) => if !within_vault(cv, cc) {
                    Err(VaultErrorV::OutsideVault(candidate))
                } else if facts.candidate_exists {
                    Err(VaultErrorV::AlreadyExists(candidate))
                } else {
                    Ok(candidate)
                },
                _ => Err(VaultErrorV::CanonicalizeFailed(candidate)),
            }
        },
    }
}

impl VaultOperations {
    /// A writer for the given vault root and target directory.
    pub fn new(vault_path: String, target_directory: String) -> (r: Self)
        ensures
            r@ == (VaultOpsV { vault_path: vault_path@, target_directory: target_directory@ }),
    {
        VaultOperations { vault_path, target_directory }
    }

    /// The path of the directory files are created in.
    pub fn get_target_directory_path(&self) -> (r: String)
        ensures
            r@ == join_path(self@.vault_path, self@.target_directory),
    {
        join_path_x(self.vault_path.as_str(), self.target_directory.as_str())
    }

    /// The path a name would be written to.
    pub fn candidate_path(&self, filename: &str) -> (r: String)
        ensures
            r@ == join_path(join_path(self@.vault_path, self@.target_directory), with_md(filename@)),
    {
        let dir = self.get_target_directory_path();
        let cs = str_chars(filename);
        let n = cs.len();
        let has_ext = n >= 3 && cs[n - 3] == '.' && cs[n - 2] == 'm' && cs[n - 1] == 'd';
        let mut name: Vec<char> = cs;
        if !has_ext {
            name.push('.');
            name.push('m');
            name.push('d');
        }
        proof {
            assert(name@ =~= with_md(filename@));
        }
        let name_s = chars_to_string(&name);
        join_path_x(dir.as_str(), name_s.as_str())
    }

    /// The vault root this writer was built with.
    pub fn vault_path(&self) -> (r: &String)
        ensures
            r@ == self@.vault_path,
    {
        &self.vault_path
    }

    /// The name of the directory files are created in.
    pub fn target_directory(&self) -> (r: &String)
        ensures
            r@ == self@.target_directory,
    {
        &self.target_directory
    }

    /// Whether a canonical path equals the canonical vault root or
    /// lies below it.  The canonical forms come from the embedding
    /// program, which is the only place that can ask the filesystem.
    pub fn is_path_within_vault(canonical_vault: &str, canonical_file: &str) -> (r: bool)
        ensures
            r == within_vault(canonical_vault@, canonical_file@),
    {
        let vcs = str_chars(canonical_vault);
        let fcs = str_chars(canonical_file);
        let vn = vcs.len();
        let fn_ = fcs.len();
        if vn == fn_ && prefix_eq(&fcs, &vcs, vn) {
            proof {
                assert(fcs@.take(vn as int) =~= fcs@);
                assert(vcs@.take(vn as int) =~= vcs@);
            }
            return true;
        }
        proof {
            if vn == fn_ {
                assert(fcs@.take(vn as int) =~= fcs@);
                assert(vcs@.take(vn as int) =~= vcs@);
            }
        }
        let ends_slash = vn > 0 && vcs[vn - 1] == '/';
        let mut pre: Vec<char> = vcs;
        if !ends_slash {
            pre.push('/');
        }
        let pn = pre.len();
        let ghost pre_view = if canonical_vault@.len() > 0 && canonical_vault@[canonical_vault@.len() - 1]
            == '/' {
            canonical_vault@
        } else {
            canonical_vault@ + seq!['/']
        };
        proof {
            assert(pre@ =~= pre_view);
        }
        if fn_ >= pn {
            let r = prefix_eq(&fcs, &pre, pn);
            proof {
                assert(pre@.take(pn as int) =~= pre_view);
                assert(fcs@.take(pn as int) =~= canonical_file@.subrange(0, pn as int));
            }
            r
        } else {
            false
        }
    }

    /// Whether the target directory was found to be a directory.  The
    /// probe comes from the embedding program.
    pub fn target_directory_exists(&self, facts: &FsFacts) -> (r: bool)
        ensures
            r == facts@.target_dir_is_dir,
    {
        facts.target_dir_is_dir
    }

    /// Checks a filename against the vault's rules.
    pub fn validate_filename(filename: &str) -> (r: Result<(), VaultError>)
        ensures
            r is Ok <==> filename_ok(filename@),
            match r {
                Ok(u) => filename_check(filename@) == Result::<(), VaultErrorV>::Ok(()),
                Err(e) => filename_check(filename@) == Result::<(), VaultErrorV>::Err(e@),
            },
    {
        let cs = str_chars(filename);
        if cs.len() == 0 {
            return Err(VaultError::EmptyFilename);
        }
        if contains_char(&cs, '/') {
            return Err(VaultError::InvalidCharacter('/'));
        }
        if contains_char(&cs, '\\') {
            return Err(VaultError::InvalidCharacter('\\'));
        }
        if contains_char(&cs, ':') {
            return Err(VaultError::InvalidCharacter(':'));
        }
        if contains_char(&cs, '*') {
            return Err(VaultError::InvalidCharacter('*'));
        }
        if contains_char(&cs, '?') {
            return Err(VaultError::InvalidCharacter('?'));
        }
        if contains_char(&cs, '"') {
            return Err(VaultError::InvalidCharacter('"'));
        }
        if contains_char(&cs, '<') {
            return Err(VaultError::InvalidCharacter('<'));
        }
        if contains_char(&cs, '>') {
            return Err(VaultError::InvalidCharacter('>'));
        }
        if contains_char(&cs, '|') {
            return Err(VaultError::InvalidCharacter('|'));
        }
        proof {
            assert(!has_invalid_char(filename@)) by {
                assert forall|i: int|
                    0 <= i < filename@.len() implies !is_invalid_char(filename@[i]) by {
                    assert(!filename@.contains('/'));
                    assert(!filename@.contains('\\'));
                    assert(!filename@.contains(':'));
                    assert(!filename@.contains('*'));
                    assert(!filename@.contains('?'));
                    assert(!filename@.contains('"'));
                    assert(!filename@.contains('<'));
                    assert(!filename@.contains('>'));
                    assert(!filename@.contains('|'));
                }
            }
        }
        if has_dotdot_x(&cs) {
            return Err(VaultError::PathTraversal);
        }
        if is_reserved_x(&cs) {
            let owned = chars_to_string(&cs);
            return Err(VaultError::ReservedName(owned));
        }
        Ok(())
    }

    /// Decides one save: checks the name, the target directory, the
    /// containment of the canonical candidate in the canonical vault
    /// root, and that nothing is overwritten.  Success carries the
    /// path the embedding program may now write; no check passed means
    /// nothing may be written.
    pub fn save_markdown_file(&self, filename: &str, facts: &FsFacts) -> (r: Result<
        String,
        VaultError,
    >)
        ensures
            match r {
                Ok(path) => save_decision(self@, filename@, facts@) == Result::<
                    Seq<char>,
                    VaultErrorV,
                >::Ok(path@),
                Err(e) => save_decision(self@, filename@, facts@) == Result::<
                    Seq<char>,
                    VaultErrorV,
                >::Err(e@),
            },
    {
        if let Err(e) = Self::validate_filename(filename) {
            return Err(e);
        }
        if !facts.target_dir_is_dir {
            return Err(VaultError::TargetDirectoryMissing(self.get_target_directory_path()));
        }
        let candidate = self.candidate_path(filename);
        match (&facts.canonical_vault, &facts.canonical_candidate) {
            (Some(cv), Some(cc)) => {
                if !Self::is_path_within_vault(cv.as_str(), cc.as_str()) {
                    Err(VaultError::OutsideVault(candidate))
                } else if facts.candidate_exists {
                    Err(VaultError::AlreadyExists(candidate))
                } else {
                    Ok(candidate)
                }
            },
            _ => Err(VaultError::CanonicalizeFailed(candidate)),
        }
    }
}

// ------------------------------------------------------------------
// Laws
// ------------------------------------------------------------------

/// For any filename the validator accepts, the path a save resolves
/// to lies strictly below the target directory under the vault root:
/// the directory, one separator, and a final segment that is nonempty
/// and holds no separator.
pub proof fn lemma_resolved_path_in_target(ops: VaultOpsV, f: Seq<char>)
    requires
        filename_ok(f),
    ensures
        descendant_of(
            join_path(join_path(ops.vault_path, ops.target_directory), with_md(f)),
            join_path(ops.vault_path, ops.target_directory),
        ),
{
    let dir = join_path(ops.vault_path, ops.target_directory);
    let name = with_md(f);
    let path = join_path(dir, name);
    let pre = if dir.len() > 0 && dir[dir.len() - 1] == '/' {
        dir
    } else {
        dir + seq!['/']
    };
    assert forall|i: int| 0 <= i < f.len() implies f[i] != '/' by {
        assert(!has_invalid_char(f));
    }
    assert(name.len() > 0);
    assert forall|i: int| 0 <= i < name.len() implies name[i] != '/' by {
        if ends_md(f) {
        } else {
            if i < f.len() {
                assert(name[i] == f[i]);
            }
        }
    }
    assert(path =~= pre + name);
    assert(path.subrange(0, pre.len() as int) =~= pre);
    assert forall|i: int| pre.len() <= i < path.len() implies path[i] != '/' by {
        assert(path[i] == name[i - pre.len()]);
    }
}

/// A save is never allowed onto an existing file: whenever the probes
/// report the candidate present, the decision is the already-exists
/// failure, whatever else the probes say.
pub proof fn lemma_no_clobber(ops: VaultOpsV, f: Seq<char>, facts: FsFactsV)
    requires
        facts.candidate_exists,
    ensures
        !(save_decision(ops, f, facts) is Ok),
{
}

} // verus!
