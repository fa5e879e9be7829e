//! Tar archives: a trusted reader over the `tar` crate for incoming
//! archives, and a verified writer for the one archive the library
//! synthesizes itself — byte-valid headers with correct sizes and checksums,
//! so that the synthetic archive walks through the same decode path as a
//! registry-sourced one.

use vstd::prelude::*;

verus! {

/// One entry of a tar archive: its path, its raw type flag byte, and its
/// contents.
#[derive(Debug, Clone)]
pub struct TarEntry {
    pub path: String,
    pub type_flag: u8,
    pub data: Vec<u8>,
}

#[verifier::ext_equal]
pub ghost struct TarEntryV {
    pub path: Seq<char>,
    pub type_flag: u8,
    pub data: Seq<u8>,
}

impl View for TarEntry {
    type V = TarEntryV;

    open spec fn view(&self) -> TarEntryV {
        TarEntryV { path: self.path@, type_flag: self.type_flag, data: self.data@ }
    }
}

/// The views of an entry list.
pub open spec fn tar_entries_view(s: Seq<TarEntry>) -> Seq<(Seq<char>, u8, Seq<u8>)> {
    Seq::new(s.len(), |i: int| (s[i].path@, s[i].type_flag, s[i].data@))
}

/// The entry list that reading the given bytes as a tar stream yields, if
/// the stream is well formed: each entry's path, raw type flag and contents,
/// in stream order.
pub uninterp spec fn tar_entries_of(s: Seq<u8>) -> Option<Seq<(Seq<char>, u8, Seq<u8>)>>;

/// Relies on `tar::Archive` over a byte slice: the entry list is a function
/// of the bytes alone. The body only walks the crate's entry iterator and
/// converts each item one for one — its path (lossily decoded), its raw
/// type flag byte, and its contents; any error reading the stream is a
/// malformed archive.
#[verifier::external_body]
pub fn read_tar_entries(bytes: &[u8]) -> (r: Option<Vec<TarEntry>>)
    ensures
        match r {
            Some(es) => tar_entries_of(bytes@) == Some(tar_entries_view(es@)),
            None => tar_entries_of(bytes@) is None,
        },
{
    let mut archive = tar::Archive::new(bytes);
    let mut out: Vec<TarEntry> = Vec::new();
    for entry in archive.entries().ok()? {
        let mut e = entry.ok()?;
        let path = e.path().ok()?.to_string_lossy().into_owned();
        let type_flag = e.header().entry_type().as_byte();
        let mut data: Vec<u8> = Vec::new();
        std::io::Read::read_to_end(&mut e, &mut data).ok()?;
        out.push(TarEntry { path, type_flag, data });
    }
    Some(out)
}

/// `width` octal digits of `v`, zero-padded, most significant first.
pub open spec fn spec_octal(v: int, width: nat) -> Seq<u8>
    decreases width,
{
    if width == 0 {
        Seq::empty()
    } else {
        spec_octal(v / 8, (width - 1) as nat).push((0x30 + (v % 8)) as u8)
    }
}

/// `n` zero bytes.
pub open spec fn spec_zeros(n: nat) -> Seq<u8> {
    Seq::new(n, |i: int| 0u8)
}

/// A numeric header field: `width - 1` octal digits and a terminating NUL.
pub open spec fn spec_num_field(v: int, width: nat) -> Seq<u8>
    recommends
        width >= 1,
{
    spec_octal(v, (width - 1) as nat) + seq![0u8]
}

/// The name field: the path bytes, NUL-padded to 100 bytes.
pub open spec fn spec_name_field(path: Seq<u8>) -> Seq<u8>
    recommends
        path.len() <= 100,
{
    path + spec_zeros((100 - path.len()) as nat)
}

/// Sum of all bytes.
pub open spec fn spec_byte_sum(s: Seq<u8>) -> int
    decreases s.len(),
{
    if s.len() == 0 {
        0
    } else {
        spec_byte_sum(s.drop_last()) + s.last()
    }
}

/// The header bytes before the checksum field: name, mode, uid, gid, size
/// and mtime.
pub open spec fn spec_header_head(path: Seq<u8>, mode: int, uid: int, gid: int, size: int, mtime: int) -> Seq<u8> {
    spec_name_field(path) + spec_num_field(mode, 8) + spec_num_field(uid, 8) + spec_num_field(
        gid,
        8,
    ) + spec_num_field(size, 12) + spec_num_field(mtime, 12)
}

/// The header bytes after the checksum field: type flag, empty link name,
/// the `ustar` magic, zeroed owner names, zero device numbers, and padding
/// to the 512-byte block.
pub open spec fn spec_header_tail(type_flag: u8) -> Seq<u8> {
    seq![type_flag] + spec_zeros(100) + seq![0x75u8, 0x73u8, 0x74u8, 0x61u8, 0x72u8, 0u8]
        + seq![0x30u8, 0x30u8] + spec_zeros(64) + spec_num_field(0, 8) + spec_num_field(0, 8)
        + spec_zeros(167)
}

/// A complete 512-byte header: the checksum field holds six octal digits of
/// the byte sum taken with the checksum field read as eight spaces, then a
/// NUL and a space.
pub open spec fn spec_tar_header(
    path: Seq<u8>,
    mode: int,
    uid: int,
    gid: int,
    size: int,
    mtime: int,
    type_flag: u8,
) -> Seq<u8> {
    let head = spec_header_head(path, mode, uid, gid, size, mtime);
    let tail = spec_header_tail(type_flag);
    let sum = spec_byte_sum(head) + 8 * 0x20 + spec_byte_sum(tail);
    head + spec_octal(sum, 6) + seq![0u8, 0x20u8] + tail
}

/// File contents padded with zeros to whole 512-byte blocks.
pub open spec fn spec_padded(data: Seq<u8>) -> Seq<u8> {
    data + spec_zeros(((512 - data.len() % 512) % 512) as nat)
}

/// Appends `n` zero bytes.
#[verifier::loop_isolation(false)]
pub fn push_zeros(out: &mut Vec<u8>, n: usize)
    ensures
        final(out)@ == old(out)@ + spec_zeros(n as nat),
{
    let mut j: usize = 0;
    while j < n
        invariant
            j <= n,
            out@ == old(out)@ + spec_zeros(j as nat),
        decreases n - j,
    {
        out.push(0u8);
        assert(out@ =~= old(out)@ + spec_zeros((j + 1) as nat));
        j = j + 1;
    }
}

/// Appends `width` octal digits of `v`.
pub fn push_octal(out: &mut Vec<u8>, v: u64, width: usize)
    ensures
        final(out)@ == old(out)@ + spec_octal(v as int, width as nat),
    decreases width,
{
    if width == 0 {
        assert(out@ =~= old(out)@ + spec_octal(v as int, 0));
    } else {
        push_octal(out, v / 8, width - 1);
        out.push(0x30u8 + (v % 8) as u8);
        assert(out@ =~= old(out)@ + spec_octal(v as int, width as nat));
    }
}

/// Appends a numeric field: `width - 1` octal digits and a NUL.
pub fn push_num_field(out: &mut Vec<u8>, v: u64, width: usize)
    requires
        width >= 1,
    ensures
        final(out)@ == old(out)@ + spec_num_field(v as int, width as nat),
{
    push_octal(out, v, width - 1);
    out.push(0u8);
    assert(out@ =~= old(out)@ + spec_num_field(v as int, width as nat));
}

pub proof fn lemma_octal_len(v: int, width: nat)
    ensures
        spec_octal(v, width).len() == width,
    decreases width,
{
    if width > 0 {
        lemma_octal_len(v / 8, (width - 1) as nat);
    }
}

proof fn lemma_byte_sum_push(s: Seq<u8>, b: u8)
    ensures
        spec_byte_sum(s.push(b)) == spec_byte_sum(s) + b,
{
    assert(s.push(b).drop_last() =~= s);
}

proof fn lemma_byte_sum_nonneg(s: Seq<u8>)
    ensures
        0 <= spec_byte_sum(s) <= s.len() * 255,
    decreases s.len(),
{
    if s.len() > 0 {
        lemma_byte_sum_nonneg(s.drop_last());
    }
}

/// Sum of all bytes of `v` starting at `from`.
#[verifier::loop_isolation(false)]
fn byte_sum_from(v: &Vec<u8>, from: usize) -> (r: u64)
    requires
        from <= v@.len(),
        (v@.len() - from) * 255 <= u64::MAX,
    ensures
        r == spec_byte_sum(v@.skip(from as int)),
{
    let ghost s = v@.skip(from as int);
    proof {
        lemma_byte_sum_nonneg(s);
    }
    let mut acc: u64 = 0;
    let mut j = from;
    assert(v@.subrange(from as int, from as int) =~= Seq::<u8>::empty());
    while j < v.len()
        invariant
            from <= j <= v@.len(),
            acc == spec_byte_sum(v@.subrange(from as int, j as int)),
            acc <= (j - from) * 255,
        decreases v@.len() - j,
    {
        proof {
            lemma_byte_sum_push(v@.subrange(from as int, j as int), v@[j as int]);
            assert(v@.subrange(from as int, j + 1) =~= v@.subrange(from as int, j as int).push(
                v@[j as int],
            ));
            assert((j - from) * 255 + 255 == (j + 1 - from) * 255) by (nonlinear_arith);
        }
        acc = acc + v[j] as u64;
        j = j + 1;
    }
    assert(v@.subrange(from as int, v@.len() as int) =~= s);
    acc
}

/// Appends one complete tar header block.
#[verifier::loop_isolation(false)]
#[verifier::rlimit(40)]
pub fn push_tar_header(
    out: &mut Vec<u8>,
    path: &[u8],
    mode: u64,
    uid: u64,
    gid: u64,
    size: u64,
    mtime: u64,
    type_flag: u8,
)
    requires
        path@.len() <= 100,
    ensures
        final(out)@ == old(out)@ + spec_tar_header(
            path@,
            mode as int,
            uid as int,
            gid as int,
            size as int,
            mtime as int,
            type_flag,
        ),
{
    let ghost head = spec_header_head(
        path@,
        mode as int,
        uid as int,
        gid as int,
        size as int,
        mtime as int,
    );
    let ghost tail = spec_header_tail(type_flag);
    proof {
        lemma_octal_len(mode as int, 7);
        lemma_octal_len(uid as int, 7);
        lemma_octal_len(gid as int, 7);
        lemma_octal_len(size as int, 11);
        lemma_octal_len(mtime as int, 11);
        lemma_octal_len(0, 7);
        assert(head.len() == 148);
        assert(tail.len() == 356);
    }
    let start = out.len();
    crate::json::push_bytes(out, path);
    push_zeros(out, 100 - path.len());
    assert(out@ =~= old(out)@ + spec_name_field(path@));
    push_num_field(out, mode, 8);
    push_num_field(out, uid, 8);
    push_num_field(out, gid, 8);
    push_num_field(out, size, 12);
    push_num_field(out, mtime, 12);
    assert(out@ =~= old(out)@ + head);
    let hsum = byte_sum_from(out, start);
    proof {
        assert(out@.skip(start as int) =~= head);
        lemma_byte_sum_nonneg(head);
        lemma_byte_sum_nonneg(tail);
    }
    // The tail is built aside, so that the checksum of head and tail can be
    // written between them.
    let mut tailv: Vec<u8> = Vec::new();
    tailv.push(type_flag);
    push_zeros(&mut tailv, 100);
    tailv.push(0x75u8);
    tailv.push(0x73u8);
    tailv.push(0x74u8);
    tailv.push(0x61u8);
    tailv.push(0x72u8);
    tailv.push(0u8);
    tailv.push(0x30u8);
    tailv.push(0x30u8);
    push_zeros(&mut tailv, 64);
    push_num_field(&mut tailv, 0, 8);
    push_num_field(&mut tailv, 0, 8);
    push_zeros(&mut tailv, 167);
    assert(tailv@ =~= tail);
    let tsum = byte_sum_from(&tailv, 0);
    proof {
        assert(tailv@.skip(0) =~= tail);
    }
    let sum = hsum + 8 * 0x20 + tsum;
    push_octal(out, sum, 6);
    out.push(0u8);
    out.push(0x20u8);
    crate::json::push_bytes(out, tailv.as_slice());
    proof {
        assert(out@ =~= old(out)@ + spec_tar_header(
            path@,
            mode as int,
            uid as int,
            gid as int,
            size as int,
            mtime as int,
            type_flag,
        ));
    }
}

} // verus!
