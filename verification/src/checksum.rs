//! Content checksums and the cross-check of source files against the
//! jurisdiction manifest.
//!
//! A file's checksum is `"sha256:"` followed by the lowercase hex digest
//! of its content.  The verifier classifies every file of the run's
//! source directory against the manifest's declared checksums and reports
//! its findings; it never mutates anything, and a finding is advisory,
//! not an error.

use vstd::prelude::*;

use sha2::Digest;

use crate::jurisdiction::{Collection, DocumentView, JurisdictionView};
use crate::text::{chars_vec, string_from_chars};

verus! {

/// The SHA-256 digest of a byte sequence.
pub uninterp spec fn sha256_of(data: Seq<u8>) -> Seq<u8>;

/// Relies on `sha2::Sha256::digest`: the digest is a function of the
/// input bytes alone, and is 32 bytes long.
#[verifier::external_body]
fn sha256(data: &Vec<u8>) -> (r: Vec<u8>)
    ensures
        r@ == sha256_of(data@),
        r@.len() == 32,
{
    sha2::Sha256::digest(data.as_slice()).to_vec()
}

/// The lowercase hex digit of a value below sixteen.
pub open spec fn hex_digit(n: u8) -> char {
    if n == 0 {
        '0'
    } else if n == 1 {
        '1'
    } else if n == 2 {
        '2'
    } else if n == 3 {
        '3'
    } else if n == 4 {
        '4'
    } else if n == 5 {
        '5'
    } else if n == 6 {
        '6'
    } else if n == 7 {
        '7'
    } else if n == 8 {
        '8'
    } else if n == 9 {
        '9'
    } else if n == 10 {
        'a'
    } else if n == 11 {
        'b'
    } else if n == 12 {
        'c'
    } else if n == 13 {
        'd'
    } else if n == 14 {
        'e'
    } else {
        'f'
    }
}

/// The lowercase hex rendering of a byte sequence: two digits per byte,
/// high nibble first.
pub open spec fn hex_seq(bytes: Seq<u8>) -> Seq<char> {
    Seq::new(
        bytes.len() * 2,
        |i: int|
            if i % 2 == 0 {
                hex_digit(bytes[i / 2] / 16)
            } else {
                hex_digit((bytes[i / 2] % 16) as u8)
            },
    )
}

/// The checksum string of a byte content: `"sha256:"` and the hex digest.
pub open spec fn checksum_of(data: Seq<u8>) -> Seq<char> {
    "sha256:"@ + hex_seq(sha256_of(data))
}

/// Checksum computation is deterministic: hashing the same content twice
/// yields an identical `"sha256:..."` string.
pub proof fn lemma_checksum_deterministic(a: Seq<u8>, b: Seq<u8>)
    requires
        a == b,
    ensures
        checksum_of(a) == checksum_of(b),
{
}

fn hex_digit_char(n: u8) -> (c: char)
    requires
        n < 16,
    ensures
        c == hex_digit(n),
{
    if n == 0 {
        '0'
    } else if n == 1 {
        '1'
    } else if n == 2 {
        '2'
    } else if n == 3 {
        '3'
    } else if n == 4 {
        '4'
    } else if n == 5 {
        '5'
    } else if n == 6 {
        '6'
    } else if n == 7 {
        '7'
    } else if n == 8 {
        '8'
    } else if n == 9 {
        '9'
    } else if n == 10 {
        'a'
    } else if n == 11 {
        'b'
    } else if n == 12 {
        'c'
    } else if n == 13 {
        'd'
    } else if n == 14 {
        'e'
    } else {
        'f'
    }
}

/// The lowercase hex rendering of a byte vector.
fn hex_of(bytes: &Vec<u8>) -> (r: Vec<char>)
    ensures
        r@ == hex_seq(bytes@),
{
    let n = bytes.len();
    let mut r: Vec<char> = Vec::new();
    let mut i: usize = 0;
    while i < n
        invariant
            n == bytes@.len(),
            i <= n,
            r@ == hex_seq(bytes@).subrange(0, 2 * i),
        decreases n - i,
    {
        let b = bytes[i];
        r.push(hex_digit_char(b / 16));
        r.push(hex_digit_char(b % 16));
        i = i + 1;
        proof {
            assert(r@ =~= hex_seq(bytes@).subrange(0, 2 * i));
        }
    }
    proof {
        assert(r@ =~= hex_seq(bytes@));
    }
    r
}

/// The `"sha256:<hex>"` checksum string of a byte content.
pub fn checksum_string(data: &Vec<u8>) -> (r: String)
    ensures
        r@ == checksum_of(data@),
{
    let digest = sha256(data);
    let mut out = chars_vec("sha256:");
    let mut hex = hex_of(&digest);
    out.append(&mut hex);
    string_from_chars(&out)
}

/// One declared manifest entry: a file name and its declared checksum.
#[derive(Debug)]
pub struct ManifestEntry {
    pub filename: String,
    pub checksum: String,
}

/// The mathematical shape of a manifest entry.
pub ghost struct ManifestEntryView {
    pub filename: Seq<char>,
    pub checksum: Seq<char>,
}

impl View for ManifestEntry {
    type V = ManifestEntryView;

    open spec fn view(&self) -> ManifestEntryView {
        ManifestEntryView { filename: self.filename@, checksum: self.checksum@ }
    }
}

impl DeepView for ManifestEntry {
    type V = ManifestEntryView;

    open spec fn deep_view(&self) -> ManifestEntryView {
        self.view()
    }
}

/// One file of the run's source directory, read into memory.
#[derive(Debug)]
pub struct SourceFile {
    pub name: String,
    pub content: Vec<u8>,
}

/// The mathematical shape of a source file.
pub ghost struct SourceFileView {
    pub name: Seq<char>,
    pub content: Seq<u8>,
}

impl View for SourceFile {
    type V = SourceFileView;

    open spec fn view(&self) -> SourceFileView {
        SourceFileView { name: self.name@, content: self.content@ }
    }
}

impl DeepView for SourceFile {
    type V = SourceFileView;

    open spec fn deep_view(&self) -> SourceFileView {
        self.view()
    }
}

/// The manifest entries of the documents of one jurisdiction, from `k` on.
pub open spec fn entries_of_docs(docs: Seq<DocumentView>, k: int) -> Seq<ManifestEntryView>
    decreases docs.len() - k,
{
    if k < 0 || k >= docs.len() {
        Seq::empty()
    } else {
        seq![ManifestEntryView { filename: docs[k].filename, checksum: docs[k].checksum }]
            + entries_of_docs(docs, k + 1)
    }
}

/// The manifest entries of all jurisdictions from `i` on, in order.
pub open spec fn manifest_from(jurs: Seq<JurisdictionView>, i: int) -> Seq<ManifestEntryView>
    decreases jurs.len() - i,
{
    if i < 0 || i >= jurs.len() {
        Seq::empty()
    } else {
        entries_of_docs(jurs[i].documents, 0) + manifest_from(jurs, i + 1)
    }
}

impl Collection {
    /// The manifest: every document's declared (filename, checksum) pair,
    /// in order.
    #[verifier::loop_isolation(false)]
    pub fn manifest(&self) -> (r: Vec<ManifestEntry>)
        ensures
            r.deep_view() == manifest_from(self.jurisdictions.deep_view(), 0),
    {
        let ghost jurs = self.jurisdictions.deep_view();
        let mut r: Vec<ManifestEntry> = Vec::new();
        let n = self.jurisdictions.len();
        let mut i: usize = 0;
        while i < n
            invariant
                i <= n,
                r.deep_view() + manifest_from(jurs, i as int) == manifest_from(jurs, 0),
            decreases n - i,
        {
            let docs = &self.jurisdictions[i].documents;
            let m = docs.len();
            let mut k: usize = 0;
            while k < m
                invariant
                    i < n,
                    k <= m,
                    m == docs@.len(),
                    docs.deep_view() == jurs[i as int].documents,
                    r.deep_view() + entries_of_docs(jurs[i as int].documents, k as int)
                        + manifest_from(jurs, i + 1) == manifest_from(jurs, 0),
                decreases m - k,
            {
                let ghost acc0 = r.deep_view();
                let e = ManifestEntry {
                    filename: docs[k].filename.clone(),
                    checksum: docs[k].checksum.clone(),
                };
                let ghost ev = e@;
                r.push(e);
                proof {
                    assert(r.deep_view() =~= acc0.push(ev));
                    let dk = jurs[i as int].documents[k as int];
                    assert(ev == ManifestEntryView { filename: dk.filename, checksum: dk.checksum });
                    assert(acc0 + (seq![ev] + entries_of_docs(jurs[i as int].documents, k + 1))
                        =~= acc0.push(ev) + entries_of_docs(jurs[i as int].documents, k + 1));
                }
                k = k + 1;
            }
            proof {
                assert(r.deep_view() + Seq::<ManifestEntryView>::empty() =~= r.deep_view());
            }
            i = i + 1;
        }
        proof {
            assert(r.deep_view() + Seq::<ManifestEntryView>::empty() =~= r.deep_view());
        }
        r
    }
}

/// Whether some manifest entry declares this file name.
pub open spec fn manifest_has_name(m: Seq<ManifestEntryView>, name: Seq<char>) -> bool {
    exists|j: int| 0 <= j < m.len() && (#[trigger] m[j]).filename == name
}

/// Whether some manifest entry declares exactly this file name and
/// checksum.
pub open spec fn manifest_has_pair(
    m: Seq<ManifestEntryView>,
    name: Seq<char>,
    sum: Seq<char>,
) -> bool {
    exists|j: int| 0 <= j < m.len() && (#[trigger] m[j]).filename == name && m[j].checksum == sum
}

/// Whether some file has this name.
pub open spec fn files_have_name(files: Seq<SourceFileView>, name: Seq<char>) -> bool {
    exists|j: int| 0 <= j < files.len() && (#[trigger] files[j]).name == name
}

/// How one file is classified against the manifest.
pub open spec fn file_confirmed(m: Seq<ManifestEntryView>, f: SourceFileView) -> bool {
    manifest_has_pair(m, f.name, checksum_of(f.content))
}

/// The names of the confirmed files from index `i` on, in order.
pub open spec fn confirmed_from(
    m: Seq<ManifestEntryView>,
    files: Seq<SourceFileView>,
    i: int,
) -> Seq<Seq<char>>
    decreases files.len() - i,
{
    if i < 0 || i >= files.len() {
        Seq::empty()
    } else {
        let rest = confirmed_from(m, files, i + 1);
        if file_confirmed(m, files[i]) {
            seq![files[i].name] + rest
        } else {
            rest
        }
    }
}

/// The names of files whose name the manifest declares with a different
/// checksum, from index `i` on.
pub open spec fn mismatched_from(
    m: Seq<ManifestEntryView>,
    files: Seq<SourceFileView>,
    i: int,
) -> Seq<Seq<char>>
    decreases files.len() - i,
{
    if i < 0 || i >= files.len() {
        Seq::empty()
    } else {
        let rest = mismatched_from(m, files, i + 1);
        if !file_confirmed(m, files[i]) && manifest_has_name(m, files[i].name) {
            seq![files[i].name] + rest
        } else {
            rest
        }
    }
}

/// The names of files the manifest does not reference at all, from `i` on.
pub open spec fn unknown_from(
    m: Seq<ManifestEntryView>,
    files: Seq<SourceFileView>,
    i: int,
) -> Seq<Seq<char>>
    decreases files.len() - i,
{
    if i < 0 || i >= files.len() {
        Seq::empty()
    } else {
        let rest = unknown_from(m, files, i + 1);
        if !manifest_has_name(m, files[i].name) {
            seq![files[i].name] + rest
        } else {
            rest
        }
    }
}

/// The file names of manifest entries with no file on disk, from `j` on.
pub open spec fn missing_from(
    m: Seq<ManifestEntryView>,
    files: Seq<SourceFileView>,
    j: int,
) -> Seq<Seq<char>>
    decreases m.len() - j,
{
    if j < 0 || j >= m.len() {
        Seq::empty()
    } else {
        let rest = missing_from(m, files, j + 1);
        if !files_have_name(files, m[j].filename) {
            seq![m[j].filename] + rest
        } else {
            rest
        }
    }
}

/// The verifier's findings: structured, advisory, never fatal by itself.
#[derive(Debug)]
pub struct VerificationReport {
    /// Files whose recomputed checksum matches a manifest entry.
    pub confirmed: Vec<String>,
    /// Files the manifest references with a different checksum.
    pub mismatched: Vec<String>,
    /// Files no manifest entry references.
    pub unknown: Vec<String>,
    /// Manifest entries with no corresponding file.
    pub missing: Vec<String>,
}

/// Whether some entry of `m[..]` declares the name `name`.
fn find_name(m: &Vec<ManifestEntry>, name: &String) -> (r: bool)
    ensures
        r == manifest_has_name(m.deep_view(), name@),
{
    let n = m.len();
    let mut j: usize = 0;
    while j < n
        invariant
            j <= n,
            n == m@.len(),
            forall|t: int| 0 <= t < j ==> (#[trigger] m.deep_view()[t]).filename != name@,
        decreases n - j,
    {
        if m[j].filename.eq(name) {
            proof {
                assert(m.deep_view()[j as int].filename == name@);
            }
            return true;
        }
        j = j + 1;
    }
    false
}

/// Whether some entry of `m[..]` declares exactly this name and checksum.
fn find_pair(m: &Vec<ManifestEntry>, name: &String, sum: &String) -> (r: bool)
    ensures
        r == manifest_has_pair(m.deep_view(), name@, sum@),
{
    let n = m.len();
    let mut j: usize = 0;
    while j < n
        invariant
            j <= n,
            n == m@.len(),
            forall|t: int|
                0 <= t < j ==> !((#[trigger] m.deep_view()[t]).filename == name@
                    && m.deep_view()[t].checksum == sum@),
        decreases n - j,
    {
        if m[j].filename.eq(name) && m[j].checksum.eq(sum) {
            proof {
                assert(m.deep_view()[j as int].filename == name@ && m.deep_view()[
                    j as int].checksum == sum@);
            }
            return true;
        }
        j = j + 1;
    }
    false
}

/// Whether some file of `files[..]` has this name.
fn find_file_name(files: &Vec<SourceFile>, name: &String) -> (r: bool)
    ensures
        r == files_have_name(files.deep_view(), name@),
{
    let n = files.len();
    let mut j: usize = 0;
    while j < n
        invariant
            j <= n,
            n == files@.len(),
            forall|t: int| 0 <= t < j ==> (#[trigger] files.deep_view()[t]).name != name@,
        decreases n - j,
    {
        if files[j].name.eq(name) {
            proof {
                assert(files.deep_view()[j as int].name == name@);
            }
            return true;
        }
        j = j + 1;
    }
    false
}

/// Cross-check every file of the source directory against the manifest.
///
/// Each file is confirmed, mismatched or unknown; each manifest entry
/// without a file is missing.  Nothing is mutated and nothing fails: the
/// caller decides what to make of the findings.
#[verifier::loop_isolation(false)]
pub fn verify(manifest: &Vec<ManifestEntry>, files: &Vec<SourceFile>) -> (r: VerificationReport)
    ensures
        r.confirmed.deep_view() == confirmed_from(manifest.deep_view(), files.deep_view(), 0),
        r.mismatched.deep_view() == mismatched_from(manifest.deep_view(), files.deep_view(), 0),
        r.unknown.deep_view() == unknown_from(manifest.deep_view(), files.deep_view(), 0),
        r.missing.deep_view() == missing_from(manifest.deep_view(), files.deep_view(), 0),
{
    let ghost m = manifest.deep_view();
    let ghost fv = files.deep_view();
    let mut confirmed: Vec<String> = Vec::new();
    let mut mismatched: Vec<String> = Vec::new();
    let mut unknown: Vec<String> = Vec::new();
    let mut missing: Vec<String> = Vec::new();
    let n = files.len();
    let mut i: usize = 0;
    while i < n
        invariant
            i <= n,
            confirmed.deep_view() + confirmed_from(m, fv, i as int) == confirmed_from(m, fv, 0),
            mismatched.deep_view() + mismatched_from(m, fv, i as int) == mismatched_from(m, fv, 0),
            unknown.deep_view() + unknown_from(m, fv, i as int) == unknown_from(m, fv, 0),
        decreases n - i,
    {
        let ghost c0 = confirmed.deep_view();
        let ghost mm0 = mismatched.deep_view();
        let ghost u0 = unknown.deep_view();
        let f = &files[i];
        let sum = checksum_string(&f.content);
        if find_pair(manifest, &f.name, &sum) {
            confirmed.push(f.name.clone());
            proof {
                assert(confirmed.deep_view() =~= c0.push(fv[i as int].name));
                assert(c0 + (seq![fv[i as int].name] + confirmed_from(m, fv, i + 1)) =~= c0.push(
                    fv[i as int].name,
                ) + confirmed_from(m, fv, i + 1));
            }
        } else if find_name(manifest, &f.name) {
            mismatched.push(f.name.clone());
            proof {
                assert(mismatched.deep_view() =~= mm0.push(fv[i as int].name));
                assert(mm0 + (seq![fv[i as int].name] + mismatched_from(m, fv, i + 1)) =~= mm0.push(
                    fv[i as int].name,
                ) + mismatched_from(m, fv, i + 1));
            }
        } else {
            unknown.push(f.name.clone());
            proof {
                assert(unknown.deep_view() =~= u0.push(fv[i as int].name));
                assert(u0 + (seq![fv[i as int].name] + unknown_from(m, fv, i + 1)) =~= u0.push(
                    fv[i as int].name,
                ) + unknown_from(m, fv, i + 1));
            }
        }
        i = i + 1;
    }
    let mn = manifest.len();
    let mut j: usize = 0;
    while j < mn
        invariant
            j <= mn,
            missing.deep_view() + missing_from(m, fv, j as int) == missing_from(m, fv, 0),
        decreases mn - j,
    {
        let ghost ms0 = missing.deep_view();
        let e = &manifest[j];
        if !find_file_name(files, &e.filename) {
            missing.push(e.filename.clone());
            proof {
                assert(missing.deep_view() =~= ms0.push(m[j as int].filename));
                assert(ms0 + (seq![m[j as int].filename] + missing_from(m, fv, j + 1)) =~= ms0.push(
                    m[j as int].filename,
                ) + missing_from(m, fv, j + 1));
            }
        }
        j = j + 1;
    }
    proof {
        assert(confirmed.deep_view() + Seq::<Seq<char>>::empty() =~= confirmed.deep_view());
        assert(mismatched.deep_view() + Seq::<Seq<char>>::empty() =~= mismatched.deep_view());
        assert(unknown.deep_view() + Seq::<Seq<char>>::empty() =~= unknown.deep_view());
        assert(missing.deep_view() + Seq::<Seq<char>>::empty() =~= missing.deep_view());
    }
    VerificationReport { confirmed, mismatched, unknown, missing }
}

} // verus!
