//! Content digests for candidate files, and the sorting of per-file hash
//! outcomes into successes and failures.
//!
//! The digest itself comes from the `md5` crate behind a trusted wrapper;
//! reading file contents is I/O and stays with the embedding shell, which
//! hands each outcome back as a [`HashResult`].

use vstd::prelude::*;

use crate::types::FileEntry;

verus! {

/// The lowercase hexadecimal MD5 digest of a byte string, as the `md5` crate
/// computes it: a function of the bytes alone, so identical content always
/// yields an identical digest.
pub uninterp spec fn md5_hex_of(bytes: Seq<u8>) -> Seq<char>;

/// A lowercase hexadecimal digit.
pub open spec fn spec_is_lower_hex_digit(c: char) -> bool {
    ('0' as int <= c as int && c as int <= '9' as int) || ('a' as int <= c as int && c as int
        <= 'f' as int)
}

/// Relies on `md5::Md5` (`Digest::update` then `finalize`) and the standard
/// lowercase-hex formatter: the digest depends on the bytes alone, and is
/// rendered as two lowercase hexadecimal digits per digest byte — 32
/// characters for MD5's 16-byte output.
#[verifier::external_body]
fn md5_hex(bytes: &[u8]) -> (r: String)
    ensures
        r@ == md5_hex_of(bytes@),
        r@.len() == 32,
        forall|i: int| 0 <= i < r@.len() ==> spec_is_lower_hex_digit(#[trigger] r@[i]),
{
    let mut hasher = <md5::Md5 as md5::Digest>::new();
    md5::Digest::update(&mut hasher, bytes);
    format!("{:x}", md5::Digest::finalize(hasher))
}

/// Digests a byte string: identical content gives an identical digest, 32
/// lowercase hexadecimal characters long.
pub fn hash_bytes(bytes: &[u8]) -> (r: String)
    ensures
        r@ == md5_hex_of(bytes@),
        r@.len() == 32,
        forall|i: int| 0 <= i < r@.len() ==> spec_is_lower_hex_digit(#[trigger] r@[i]),
{
    md5_hex(bytes)
}

/// Result of digesting one file: the entry it concerns, and its digest or
/// the failure message.
#[derive(Debug)]
pub struct HashResult {
    /// The file that was digested.
    pub file: FileEntry,
    /// The digest (`Ok`) or the failure message (`Err`).
    pub hash: Result<String, String>,
}

impl HashResult {
    /// A successful outcome.
    pub fn success(file: FileEntry, hash: String) -> (r: Self)
        ensures
            r.file == file,
            r.hash == Result::<String, String>::Ok(hash),
    {
        HashResult { file, hash: Ok(hash) }
    }

    /// A failed outcome.
    pub fn failure(file: FileEntry, error: String) -> (r: Self)
        ensures
            r.file == file,
            r.hash == Result::<String, String>::Err(error),
    {
        HashResult { file, hash: Err(error) }
    }

    /// Whether digesting succeeded.
    pub fn is_success(&self) -> (r: bool)
        ensures
            r == (self.hash is Ok),
    {
        self.hash.is_ok()
    }
}

/// The successful outcomes of `s`, each as the file and its digest, in
/// order.
pub open spec fn spec_successes(s: Seq<HashResult>) -> Seq<(FileEntry, String)>
    decreases s.len(),
{
    if s.len() == 0 {
        Seq::empty()
    } else if s.last().hash is Ok {
        spec_successes(s.drop_last()).push((s.last().file, s.last().hash->Ok_0))
    } else {
        spec_successes(s.drop_last())
    }
}

/// The failed outcomes of `s`, each as the file's path and the message, in
/// order.
pub open spec fn spec_failures(s: Seq<HashResult>) -> Seq<(String, String)>
    decreases s.len(),
{
    if s.len() == 0 {
        Seq::empty()
    } else if s.last().hash is Err {
        spec_failures(s.drop_last()).push((s.last().file.path, s.last().hash->Err_0))
    } else {
        spec_failures(s.drop_last())
    }
}

/// Extracts the successfully digested files as (entry, digest) pairs, in
/// order.
pub fn extract_successful_hashes(results: Vec<HashResult>) -> (r: Vec<(FileEntry, String)>)
    ensures
        r@ == spec_successes(results@),
{
    let ghost orig: Seq<HashResult> = results@;
    let mut rest: Vec<HashResult> = results;
    let mut out: Vec<(FileEntry, String)> = Vec::new();
    while rest.len() > 0
        invariant
            rest@.len() <= orig.len(),
            rest@ == orig.skip(orig.len() - rest@.len()),
            out@ == spec_successes(orig.take(orig.len() - rest@.len())),
        decreases rest@.len(),
    {
        let ghost k: int = orig.len() - rest@.len();
        let one: HashResult = rest.remove(0);
        proof {
            assert(one == orig[k]);
            assert(rest@ =~= orig.skip(k + 1));
            assert(orig.take(k + 1).drop_last() =~= orig.take(k));
            assert(orig.take(k + 1).last() == orig[k]);
        }
        match one.hash {
            Ok(h) => {
                out.push((one.file, h));
            },
            Err(_) => {},
        }
    }
    proof {
        assert(orig.take(orig.len() as int) =~= orig);
    }
    out
}

/// Extracts the failed digests as (path, message) pairs, in order.
pub fn extract_hash_errors(results: &Vec<HashResult>) -> (r: Vec<(String, String)>)
    ensures
        r@.len() == spec_failures(results@).len(),
        forall|i: int|
            0 <= i < r@.len() ==> (#[trigger] r@[i]).0@ == spec_failures(results@)[i].0@
                && r@[i].1@ == spec_failures(results@)[i].1@,
{
    let mut out: Vec<(String, String)> = Vec::new();
    let mut i: usize = 0;
    while i < results.len()
        invariant
            0 <= i <= results@.len(),
            out@.len() == spec_failures(results@.take(i as int)).len(),
            forall|j: int|
                0 <= j < out@.len() ==> (#[trigger] out@[j]).0@ == spec_failures(
                    results@.take(i as int),
                )[j].0@ && out@[j].1@ == spec_failures(results@.take(i as int))[j].1@,
        decreases results@.len() - i,
    {
        proof {
            assert(results@.take(i + 1).drop_last() =~= results@.take(i as int));
            assert(results@.take(i + 1).last() == results@[i as int]);
        }
        match &results[i].hash {
            Err(msg) => {
                out.push((results[i].file.path.clone(), msg.clone()));
            },
            Ok(_) => {},
        }
        i = i + 1;
    }
    proof {
        assert(results@.take(results@.len() as int) =~= results@);
    }
    out
}

} // verus!
