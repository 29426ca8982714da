//! Crate metadata: finding it among archive members, and preparing it
//! for object files.
//!
//! An rlib is an archive whose members carry names; the crate metadata is
//! the member with one agreed name, and [`CraneliftMetadataLoader`] digs
//! it out of the member list. Parsing the archive bytes into that list is
//! left outside: the archive reader aborts on some malformed inputs, so
//! no contract this crate could state would be true of a call to it here.
//! On the writing side, metadata destined for a dynamic library is
//! prefixed with a version header and compressed; what kind of treatment
//! the metadata gets follows from the kinds of crate being produced, the
//! most demanding kind winning.

use vstd::prelude::*;

verus! {

/// The deflate stream compressing these bytes. Depends on the bytes
/// alone.
pub uninterp spec fn deflate_of(data: Seq<u8>) -> Seq<u8>;

/// Relies on flate2's `DeflateEncoder` writing into a byte vector, which
/// never fails: the result is the deflate stream of the input.
#[verifier::external_body]
fn deflate_compress(data: &[u8]) -> (r: Vec<u8>)
    ensures
        r@ == deflate_of(data@),
{
    let mut encoder = flate2::write::DeflateEncoder::new(
        Vec::new(),
        flate2::Compression::fast(),
    );
    std::io::Write::write_all(&mut encoder, data).unwrap();
    encoder.finish().unwrap()
}

/// Two byte strings hold the same bytes.
fn bytes_eq(a: &[u8], b: &[u8]) -> (r: bool)
    ensures
        r <==> a@ == b@,
{
    if a.len() != b.len() {
        proof {
            assert(a@.len() != b@.len());
        }
        return false;
    }
    let n: usize = a.len();
    let mut i: usize = 0;
    while i < n
        invariant
            i <= n,
            n == a@.len(),
            n == b@.len(),
            forall|j: int| 0 <= j < i ==> a@[j] == b@[j],
        decreases n - i,
    {
        if a[i] != b[i] {
            return false;
        }
        i = i + 1;
    }
    proof {
        assert(a@ =~= b@);
    }
    true
}

/// The contents of the first member named `name`, if the members hold
/// one.
pub open spec fn first_member_named(entries: Seq<(Vec<u8>, Vec<u8>)>, name: Seq<u8>) -> Option<
    Seq<u8>,
>
    decreases entries.len(),
{
    if entries.len() == 0 {
        None
    } else if entries[0].0@ == name {
        Some(entries[0].1@)
    } else {
        first_member_named(entries.drop_first(), name)
    }
}

/// A prefix of the members holds no member named `name`.
pub open spec fn no_match_before(
    entries: Seq<(Vec<u8>, Vec<u8>)>,
    name: Seq<u8>,
    k: int,
) -> bool {
    forall|j: int| 0 <= j < k ==> (#[trigger] entries[j]).0@ != name
}

/// Skipping past members that do not match does not change the first
/// match.
proof fn lemma_first_match_skip(entries: Seq<(Vec<u8>, Vec<u8>)>, name: Seq<u8>, k: int)
    requires
        0 <= k <= entries.len(),
        no_match_before(entries, name, k),
    ensures
        first_member_named(entries, name) == first_member_named(entries.skip(k), name),
    decreases k,
{
    if k > 0 {
        assert(entries[0].0@ != name);
        assert(entries.drop_first() =~= entries.skip(1));
        lemma_first_match_skip(entries.drop_first(), name, k - 1);
        assert(entries.drop_first().skip(k - 1) =~= entries.skip(k));
    } else {
        assert(entries.skip(0) =~= entries);
    }
}

/// Reads crate metadata out of an archive's member list.
pub struct CraneliftMetadataLoader;

impl CraneliftMetadataLoader {
    /// The crate metadata the rlib's members hold: the contents of the
    /// first member whose name is `metadata_filename`, and an error
    /// exactly when no member carries that name. The members are each
    /// member's name and contents, in archive order, as the caller read
    /// them out of the file.
    pub fn get_rlib_metadata(
        &self,
        entries: &Vec<(Vec<u8>, Vec<u8>)>,
        metadata_filename: &[u8],
    ) -> (r: Result<Vec<u8>, String>)
        ensures
            match first_member_named(entries@, metadata_filename@) {
                Some(contents) => r matches Ok(v) && v@ == contents,
                None => r is Err,
            },
    {
        let n: usize = entries.len();
        let mut i: usize = 0;
        while i < n
            invariant
                i <= n,
                n == entries@.len(),
                no_match_before(entries@, metadata_filename@, i as int),
            decreases n - i,
        {
            if bytes_eq(entries[i].0.as_slice(), metadata_filename) {
                proof {
                    lemma_first_match_skip(entries@, metadata_filename@, i as int);
                    let rest = entries@.skip(i as int);
                    assert(rest[0] == entries@[i as int]);
                    assert(rest[0].0@ == metadata_filename@);
                }
                return Ok(entries[i].1.clone());
            }
            i = i + 1;
        }
        proof {
            lemma_first_match_skip(entries@, metadata_filename@, n as int);
            assert(entries@.skip(n as int) =~= Seq::<(Vec<u8>, Vec<u8>)>::empty());
        }
        Err("couldn't find metadata entry".to_string())
    }
}

/// What a compilation session will produce, as far as metadata cares.
#[derive(Clone, Copy, Debug, PartialEq, Eq, Structural)]
pub enum CrateType {
    Executable,
    Staticlib,
    Cdylib,
    Rlib,
    Dylib,
    ProcMacro,
}

/// How much metadata the produced crates need: none, the full metadata
/// uncompressed, or the full metadata compressed.
#[derive(Clone, Copy, Debug, PartialEq, Eq, Structural)]
pub enum MetadataKind {
    NoMetadata,
    Uncompressed,
    Compressed,
}

/// How demanding a metadata kind is; more demanding kinds win.
pub open spec fn spec_kind_rank(k: MetadataKind) -> int {
    match k {
        MetadataKind::NoMetadata => 0,
        MetadataKind::Uncompressed => 1,
        MetadataKind::Compressed => 2,
    }
}

/// The metadata kind one crate type needs.
pub open spec fn spec_kind_of(ct: CrateType) -> MetadataKind {
    match ct {
        CrateType::Executable => MetadataKind::NoMetadata,
        CrateType::Staticlib => MetadataKind::NoMetadata,
        CrateType::Cdylib => MetadataKind::NoMetadata,
        CrateType::Rlib => MetadataKind::Uncompressed,
        CrateType::Dylib => MetadataKind::Compressed,
        CrateType::ProcMacro => MetadataKind::Compressed,
    }
}

/// The more demanding of two kinds.
pub open spec fn spec_max_kind(a: MetadataKind, b: MetadataKind) -> MetadataKind {
    if spec_kind_rank(a) >= spec_kind_rank(b) {
        a
    } else {
        b
    }
}

/// The kind the first `i` crate types demand together.
pub open spec fn spec_metadata_kind(s: Seq<CrateType>, i: int) -> MetadataKind
    decreases i,
{
    if i <= 0 {
        MetadataKind::NoMetadata
    } else {
        spec_max_kind(spec_metadata_kind(s, i - 1), spec_kind_of(s[i - 1]))
    }
}

/// The metadata kind a session producing `crate_types` needs: the most
/// demanding kind any of them needs, and none when there are none.
pub fn metadata_kind(crate_types: &Vec<CrateType>) -> (r: MetadataKind)
    ensures
        r == spec_metadata_kind(crate_types@, crate_types@.len() as int),
{
    let n: usize = crate_types.len();
    let mut cur: MetadataKind = MetadataKind::NoMetadata;
    let mut i: usize = 0;
    while i < n
        invariant
            i <= n,
            n == crate_types@.len(),
            cur == spec_metadata_kind(crate_types@, i as int),
        decreases n - i,
    {
        let k: MetadataKind = match crate_types[i] {
            CrateType::Executable => MetadataKind::NoMetadata,
            CrateType::Staticlib => MetadataKind::NoMetadata,
            CrateType::Cdylib => MetadataKind::NoMetadata,
            CrateType::Rlib => MetadataKind::Uncompressed,
            CrateType::Dylib => MetadataKind::Compressed,
            CrateType::ProcMacro => MetadataKind::Compressed,
        };
        let cur_rank: u64 = match cur {
            MetadataKind::NoMetadata => 0,
            MetadataKind::Uncompressed => 1,
            MetadataKind::Compressed => 2,
        };
        let k_rank: u64 = match k {
            MetadataKind::NoMetadata => 0,
            MetadataKind::Uncompressed => 1,
            MetadataKind::Compressed => 2,
        };
        if k_rank > cur_rank {
            cur = k;
        }
        i = i + 1;
    }
    cur
}

/// Metadata as a dynamic library carries it: the version header's bytes,
/// then the metadata itself as a deflate stream.
pub fn compress_metadata(version_header: &[u8], metadata: &[u8]) -> (r: Vec<u8>)
    ensures
        r@ == version_header@ + deflate_of(metadata@),
{
    let mut out: Vec<u8> = Vec::new();
    out.extend_from_slice(version_header);
    let compressed: Vec<u8> = deflate_compress(metadata);
    out.extend_from_slice(compressed.as_slice());
    proof {
        assert(out@ =~= version_header@ + deflate_of(metadata@));
    }
    out
}

} // verus!
