//! The archive manifest as the library sees it: plain values only. The
//! service's JSON is turned into these types at the edge of the program;
//! everything the driver and the decryptor read lives here.

use crate::bytes::{copy_bytes, dec_digits, push_dec_u64};
use vstd::prelude::*;
use vstd::multiset::Multiset;
use vstd::seq_lib::lemma_multiset_commutative;

verus! {

/// One ciphertext part as the manifest lists it.
pub struct PartMeta {
    /// Position of the part in the ciphertext stream.
    pub index: u64,
    /// Size of the part in bytes.
    pub size: u64,
    /// Lowercase hex SHA-256 of the part's bytes.
    pub hash: Vec<u8>,
    /// Direct origin URL for the part.
    pub url: Vec<u8>,
}

/// One inner file of a bundle archive.
pub struct FileMeta {
    /// The inner file's name, when the service knows it.
    pub original_name: Option<Vec<u8>>,
    /// The inner file's size, when known.
    pub size: Option<u64>,
}

/// The manifest the service returns for one archive.
pub struct Manifest {
    /// Opaque archive identifier.
    pub archive_id: Vec<u8>,
    /// True iff the plaintext is a multi-file container.
    pub is_bundle: bool,
    /// Informational chunk size.
    pub chunk_size_bytes: Option<u64>,
    /// The GCM IV, base64-encoded; 12 bytes once decoded.
    pub iv_b64: Vec<u8>,
    /// The GCM tag over the whole ciphertext, base64-encoded; 16 bytes once
    /// decoded.
    pub auth_tag_b64: Vec<u8>,
    /// Plaintext size, when known; used only for progress.
    pub original_size: Option<u64>,
    /// Ciphertext size, when known; used only for progress.
    pub encrypted_size: Option<u64>,
    /// Preferred output name.
    pub download_name: Option<Vec<u8>>,
    /// Fallback display name.
    pub display_name: Option<Vec<u8>>,
    /// Inner files, present iff `is_bundle`.
    pub files: Option<Vec<FileMeta>>,
    /// The ciphertext parts, in no particular order.
    pub parts: Vec<PartMeta>,
}

impl Manifest {
    /// The figure progress events report as the total: the plaintext size
    /// when the manifest knows it, else the ciphertext size, else nothing.
    pub fn progress_total(&self) -> (r: Option<u64>)
        ensures
            r == (match self.original_size {
                Option::Some(v) => Option::Some(v),
                Option::None => self.encrypted_size,
            }),
    {
        match self.original_size {
            Some(v) => Some(v),
            None => self.encrypted_size,
        }
    }
}

/// Parts ordered by ascending index.
pub open spec fn sorted_by_index(s: Seq<PartMeta>) -> bool {
    forall|i: int, j: int| 0 <= i < j < s.len() ==> s[i].index <= s[j].index
}

/// Inserts one part into an index-sorted vector, keeping it sorted.
#[verifier::loop_isolation(false)]
fn insert_sorted(sorted: &mut Vec<PartMeta>, x: PartMeta)
    requires
        sorted_by_index(old(sorted)@),
    ensures
        sorted_by_index(final(sorted)@),
        final(sorted)@.to_multiset() == old(sorted)@.to_multiset().insert(x),
{
    let ghost orig = sorted@;
    let xi = x.index;
    let mut pos: usize = 0;
    while pos < sorted.len() && sorted[pos].index <= xi
        invariant
            pos <= sorted@.len(),
            forall|k: int| 0 <= k < pos ==> sorted@[k].index <= xi,
        decreases sorted@.len() - pos,
    {
        pos = pos + 1;
    }
    sorted.insert(pos, x);
    proof {
        let a = orig.take(pos as int);
        let b = orig.skip(pos as int);
        assert(orig =~= a + b);
        assert(sorted@ =~= a.push(x) + b);
        lemma_multiset_commutative(a, b);
        lemma_multiset_commutative(a.push(x), b);
        a.to_multiset_ensures();
        assert(sorted@.to_multiset() =~= orig.to_multiset().insert(x));
        assert forall|i: int, j: int| 0 <= i < j < sorted@.len() implies sorted@[i].index
            <= sorted@[j].index by {
            if i < pos && j == pos {
            } else if i == pos && j > pos {
                assert(sorted@[j] == orig[j - 1]);
            }
        }
    }
}

/// Sorts the parts of a manifest ascending by `index`, keeping exactly the
/// same parts. The driver consumes parts in this order; the ciphertext is
/// their concatenation in this order.
#[verifier::loop_isolation(false)]
pub fn sort_parts(parts: &mut Vec<PartMeta>)
    ensures
        sorted_by_index(final(parts)@),
        final(parts)@.to_multiset() == old(parts)@.to_multiset(),
{
    let ghost orig = parts@;
    let mut sorted: Vec<PartMeta> = Vec::new();
    proof {
        sorted@.to_multiset_ensures();
        vstd::multiset::lemma_multiset_empty_len(sorted@.to_multiset());
        assert(sorted@.to_multiset() =~= Multiset::<PartMeta>::empty());
    }
    while parts.len() > 0
        invariant
            sorted_by_index(sorted@),
            sorted@.to_multiset().add(parts@.to_multiset()) == orig.to_multiset(),
        decreases parts@.len(),
    {
        let ghost pre = parts@;
        let x = parts.pop().unwrap();
        proof {
            pre.to_multiset_ensures();
            assert(pre.remove(pre.len() - 1) =~= pre.drop_last());
            assert(parts@.to_multiset() == pre.to_multiset().remove(x));
            assert(pre.to_multiset().count(x) > 0);
        }
        insert_sorted(&mut sorted, x);
        proof {
            assert(sorted@.to_multiset().add(parts@.to_multiset()) =~= orig.to_multiset());
        }
    }
    proof {
        parts@.to_multiset_ensures();
        vstd::multiset::lemma_multiset_empty_len(parts@.to_multiset());
        assert(parts@.to_multiset() =~= Multiset::<PartMeta>::empty());
        assert(sorted@.to_multiset() =~= orig.to_multiset());
    }
    *parts = sorted;
}

/// The fallback output name: `download.bin`.
pub open spec fn default_name() -> Seq<u8> {
    seq![100u8, 111u8, 119u8, 110u8, 108u8, 111u8, 97u8, 100u8, 46u8, 98u8, 105u8, 110u8]
}

/// Which name the output file gets, before sanitizing: for a single-entry
/// download, the inner file's name when the manifest has one; otherwise the
/// manifest's download name, else its display name, else `download.bin`.
pub open spec fn display_name_spec(m: Manifest, file_index: Option<usize>) -> Seq<u8> {
    let fallback = match m.download_name {
        Option::Some(n) => n@,
        Option::None => match m.display_name {
            Option::Some(n) => n@,
            Option::None => default_name(),
        },
    };
    match file_index {
        Option::Some(i) => match m.files {
            Option::Some(fs) => if i < fs@.len() {
                match fs@[i as int].original_name {
                    Option::Some(n) => n@,
                    Option::None => fallback,
                }
            } else {
                fallback
            },
            Option::None => fallback,
        },
        Option::None => fallback,
    }
}

/// Picks the output name per the manifest and the optional inner-file index.
pub fn choose_display_name(m: &Manifest, file_index: Option<usize>) -> (r: Vec<u8>)
    ensures
        r@ == display_name_spec(*m, file_index),
{
    if let Some(i) = file_index {
        if let Some(fs) = &m.files {
            if i < fs.len() {
                if let Some(n) = &fs[i].original_name {
                    return copy_bytes(n.as_slice());
                }
            }
        }
    }
    if let Some(n) = &m.download_name {
        return copy_bytes(n.as_slice());
    }
    if let Some(n) = &m.display_name {
        return copy_bytes(n.as_slice());
    }
    let mut out: Vec<u8> = Vec::new();
    out.push(100);
    out.push(111);
    out.push(119);
    out.push(110);
    out.push(108);
    out.push(111);
    out.push(97);
    out.push(100);
    out.push(46);
    out.push(98);
    out.push(105);
    out.push(110);
    proof {
        assert(out@ =~= default_name());
    }
    out
}

/// `/api/archives/`, as bytes.
pub open spec fn api_archives_prefix() -> Seq<u8> {
    seq![47u8, 97u8, 112u8, 105u8, 47u8, 97u8, 114u8, 99u8, 104u8, 105u8, 118u8, 101u8, 115u8, 47u8]
}

/// `/parts`, as bytes.
pub open spec fn parts_suffix() -> Seq<u8> {
    seq![47u8, 112u8, 97u8, 114u8, 116u8, 115u8]
}

/// `/relay`, as bytes.
pub open spec fn relay_suffix() -> Seq<u8> {
    seq![47u8, 114u8, 101u8, 108u8, 97u8, 121u8]
}

/// `/refresh`, as bytes.
pub open spec fn refresh_suffix() -> Seq<u8> {
    seq![47u8, 114u8, 101u8, 102u8, 114u8, 101u8, 115u8, 104u8]
}

/// `part_`, as bytes.
pub open spec fn part_file_prefix() -> Seq<u8> {
    seq![112u8, 97u8, 114u8, 116u8, 95u8]
}

fn push_api_archives_prefix(out: &mut Vec<u8>)
    ensures
        final(out)@ == old(out)@ + api_archives_prefix(),
{
    out.push(47);
    out.push(97);
    out.push(112);
    out.push(105);
    out.push(47);
    out.push(97);
    out.push(114);
    out.push(99);
    out.push(104);
    out.push(105);
    out.push(118);
    out.push(101);
    out.push(115);
    out.push(47);
    proof {
        assert(out@ =~= old(out)@ + api_archives_prefix());
    }
}

fn push_parts_suffix(out: &mut Vec<u8>)
    ensures
        final(out)@ == old(out)@ + parts_suffix(),
{
    out.push(47);
    out.push(112);
    out.push(97);
    out.push(114);
    out.push(116);
    out.push(115);
    proof {
        assert(out@ =~= old(out)@ + parts_suffix());
    }
}

/// The manifest endpoint for an archive: `/api/archives/<id>/parts`.
pub fn parts_path(archive_id: &[u8]) -> (r: Vec<u8>)
    ensures
        r@ == api_archives_prefix() + archive_id@ + parts_suffix(),
{
    let mut out: Vec<u8> = Vec::new();
    push_api_archives_prefix(&mut out);
    out.extend_from_slice(archive_id);
    proof {
        assert(out@ =~= api_archives_prefix() + archive_id@);
    }
    push_parts_suffix(&mut out);
    out
}

/// The relay endpoint for one part:
/// `/api/archives/<id>/parts/<index>/relay`.
pub fn relay_path(archive_id: &[u8], index: u64) -> (r: Vec<u8>)
    ensures
        r@ == api_archives_prefix() + archive_id@ + parts_suffix() + seq![47u8] + dec_digits(
            index as nat,
        ) + relay_suffix(),
{
    let mut out = parts_path(archive_id);
    out.push(47);
    push_dec_u64(&mut out, index);
    out.push(47);
    out.push(114);
    out.push(101);
    out.push(108);
    out.push(97);
    out.push(121);
    proof {
        assert(out@ =~= api_archives_prefix() + archive_id@ + parts_suffix() + seq![47u8]
            + dec_digits(index as nat) + relay_suffix());
    }
    out
}

/// The refresh endpoint for one part:
/// `/api/archives/<id>/parts/<index>/refresh`.
pub fn refresh_path(archive_id: &[u8], index: u64) -> (r: Vec<u8>)
    ensures
        r@ == api_archives_prefix() + archive_id@ + parts_suffix() + seq![47u8] + dec_digits(
            index as nat,
        ) + refresh_suffix(),
{
    let mut out = parts_path(archive_id);
    out.push(47);
    push_dec_u64(&mut out, index);
    out.push(47);
    out.push(114);
    out.push(101);
    out.push(102);
    out.push(114);
    out.push(101);
    out.push(115);
    out.push(104);
    proof {
        assert(out@ =~= api_archives_prefix() + archive_id@ + parts_suffix() + seq![47u8]
            + dec_digits(index as nat) + refresh_suffix());
    }
    out
}

/// The cache file name for one part: `part_<index>`.
pub fn part_file_name(index: u64) -> (r: Vec<u8>)
    ensures
        r@ == part_file_prefix() + dec_digits(index as nat),
{
    let mut out: Vec<u8> = Vec::new();
    out.push(112);
    out.push(97);
    out.push(114);
    out.push(116);
    out.push(95);
    proof {
        assert(out@ =~= part_file_prefix());
    }
    push_dec_u64(&mut out, index);
    out
}

} // verus!
