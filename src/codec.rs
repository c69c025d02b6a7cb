//! CRC-32 and a gzip encoder that frames its payload in stored (uncompressed)
//! deflate blocks, together with a model decoder for such streams.
use vstd::prelude::*;

verus! {

/// The largest payload of one stored deflate block.
pub const MAX_STORED_BLOCK: usize = 65535;

/// The reflected CRC-32 polynomial (ISO 3309 / ITU-T V.42).
pub const CRC32_POLY: u32 = 0xEDB8_8320;

/// One bit step of the reflected CRC-32 register.
pub open spec fn crc_shift(crc: u32) -> u32 {
    if crc & 1 != 0 {
        (crc >> 1) ^ CRC32_POLY
    } else {
        crc >> 1
    }
}

/// `n` bit steps of the register.
pub open spec fn crc_shift_n(crc: u32, n: nat) -> u32
    decreases n,
{
    if n == 0 {
        crc
    } else {
        crc_shift(crc_shift_n(crc, (n - 1) as nat))
    }
}

/// The register after one more byte.
pub open spec fn crc_update(crc: u32, b: u8) -> u32 {
    crc_shift_n(crc ^ (b as u32), 8)
}

/// The register after all of `data`, starting from all ones.
pub open spec fn crc_register(data: Seq<u8>) -> u32
    decreases data.len(),
{
    if data.len() == 0 {
        0xFFFF_FFFF
    } else {
        crc_update(crc_register(data.drop_last()), data.last())
    }
}

/// The CRC-32 checksum of `data`: the final register, inverted.
pub open spec fn crc32_of(data: Seq<u8>) -> u32 {
    !crc_register(data)
}

/// `n` (below 2^16) as two little-endian bytes.
pub open spec fn le16(n: nat) -> Seq<u8> {
    seq![(n % 256) as u8, ((n / 256) % 256) as u8]
}

/// `n` (below 2^32) as four little-endian bytes.
pub open spec fn le32(n: nat) -> Seq<u8> {
    seq![
        (n % 256) as u8,
        ((n / 0x100) % 256) as u8,
        ((n / 0x1_0000) % 256) as u8,
        ((n / 0x100_0000) % 256) as u8,
    ]
}

/// The ten-byte gzip member header: magic, method deflate, no flags, no
/// modification time, no extra flags, operating system unknown.
pub open spec fn gzip_header() -> Seq<u8> {
    seq![0x1fu8, 0x8bu8, 0x08u8, 0u8, 0u8, 0u8, 0u8, 0u8, 0u8, 0xffu8]
}

/// One stored deflate block holding `chunk`.
pub open spec fn stored_block(chunk: Seq<u8>, last: bool) -> Seq<u8> {
    seq![if last { 1u8 } else { 0u8 }] + le16(chunk.len()) + le16(
        (0xFFFF - chunk.len()) as nat,
    ) + chunk
}

/// `data` cut into stored blocks of at most `MAX_STORED_BLOCK` bytes, the last
/// one marked final; empty data gives one empty final block.
pub open spec fn stored_blocks(data: Seq<u8>) -> Seq<u8>
    decreases data.len(),
{
    if data.len() <= MAX_STORED_BLOCK {
        stored_block(data, true)
    } else {
        stored_block(data.subrange(0, MAX_STORED_BLOCK as int), false) + stored_blocks(
            data.subrange(MAX_STORED_BLOCK as int, data.len() as int),
        )
    }
}

/// The whole gzip member for `data`.
pub open spec fn gzip_of(data: Seq<u8>) -> Seq<u8> {
    gzip_header() + stored_blocks(data) + le32(crc32_of(data) as nat) + le32(
        data.len() % 0x1_0000_0000,
    )
}

/// Decodes a run of stored deflate blocks up to and including the final one:
/// the bytes they hold and the input after them. Any other block type, a
/// length whose complement does not match, or a truncated block is refused.
pub open spec fn inflate_stored(s: Seq<u8>) -> Option<(Seq<u8>, Seq<u8>)>
    decreases s.len(),
{
    if s.len() < 5 {
        None
    } else {
        let head = s[0];
        let len = s[1] as int + s[2] as int * 256;
        let nlen = s[3] as int + s[4] as int * 256;
        if (head / 2) % 4 != 0 || len + nlen != 0xFFFF || s.len() < 5 + len {
            None
        } else {
            let chunk = s.subrange(5, 5 + len);
            let rest = s.subrange(5 + len, s.len() as int);
            if head % 2 == 1 {
                Some((chunk, rest))
            } else {
                match inflate_stored(rest) {
                    Some((more, tail)) => Some((chunk + more, tail)),
                    None => None,
                }
            }
        }
    }
}

/// Decodes a gzip member without optional header fields whose deflate
/// stream is made of stored blocks, checking the CRC-32 and length trailer.
pub open spec fn gunzip_stored(s: Seq<u8>) -> Option<Seq<u8>> {
    if s.len() < 10 || s[0] != 0x1f || s[1] != 0x8b || s[2] != 8 || s[3] != 0 {
        None
    } else {
        match inflate_stored(s.subrange(10, s.len() as int)) {
            Some((out, tail)) => if tail == le32(crc32_of(out) as nat) + le32(
                out.len() % 0x1_0000_0000,
            ) {
                Some(out)
            } else {
                None
            },
            None => None,
        }
    }
}

proof fn lemma_le16(n: nat)
    requires
        n < 0x1_0000,
    ensures
        le16(n)[0] as int + le16(n)[1] as int * 256 == n,
{
    assert((n % 256) as u8 as int == n % 256);
    assert(((n / 256) % 256) as u8 as int == n / 256) by (nonlinear_arith)
        requires
            n < 0x1_0000,
    ;
    assert(n == (n / 256) * 256 + n % 256) by (nonlinear_arith);
}

proof fn lemma_stored_block(chunk: Seq<u8>, last: bool, rest: Seq<u8>)
    requires
        chunk.len() <= MAX_STORED_BLOCK,
    ensures
        ({
            let s = stored_block(chunk, last) + rest;
            &&& s.len() == 5 + chunk.len() + rest.len()
            &&& s[0] == (if last { 1u8 } else { 0u8 })
            &&& s[1] as int + s[2] as int * 256 == chunk.len()
            &&& s[3] as int + s[4] as int * 256 == 0xFFFF - chunk.len()
            &&& s.subrange(5, 5 + chunk.len() as int) == chunk
            &&& s.subrange(5 + chunk.len() as int, s.len() as int) == rest
        }),
{
    let s = stored_block(chunk, last) + rest;
    lemma_le16(chunk.len());
    lemma_le16((0xFFFF - chunk.len()) as nat);
    assert(s[1] == le16(chunk.len())[0]);
    assert(s[2] == le16(chunk.len())[1]);
    assert(s[3] == le16((0xFFFF - chunk.len()) as nat)[0]);
    assert(s[4] == le16((0xFFFF - chunk.len()) as nat)[1]);
    assert(s.subrange(5, 5 + chunk.len() as int) =~= chunk);
    assert(s.subrange(5 + chunk.len() as int, s.len() as int) =~= rest);
}

proof fn lemma_inflate_stored(data: Seq<u8>, tail: Seq<u8>)
    ensures
        inflate_stored(stored_blocks(data) + tail) == Some((data, tail)),
    decreases data.len(),
{
    let m = MAX_STORED_BLOCK as int;
    if data.len() <= m {
        lemma_stored_block(data, true, tail);
    } else {
        let first = data.subrange(0, m);
        let rest = data.subrange(m, data.len() as int);
        lemma_inflate_stored(rest, tail);
        lemma_stored_block(first, false, stored_blocks(rest) + tail);
        assert(stored_blocks(data) + tail =~= stored_block(first, false) + (stored_blocks(rest)
            + tail));
        assert(first + rest =~= data);
    }
}

/// Decoding what the encoder writes gives back the bytes that went in, for
/// every input: empty, within one block, or spanning several blocks.
pub proof fn lemma_gzip_round_trip(data: Seq<u8>)
    ensures
        gunzip_stored(gzip_of(data)) == Some(data),
{
    let trailer = le32(crc32_of(data) as nat) + le32(data.len() % 0x1_0000_0000);
    let body = stored_blocks(data) + trailer;
    let s = gzip_of(data);
    lemma_inflate_stored(data, trailer);
    assert(s =~= gzip_header() + body);
    assert(s.subrange(10, s.len() as int) =~= body);
    assert(s[0] == 0x1f && s[1] == 0x8b && s[2] == 8 && s[3] == 0);
}

/// How many stored blocks `stored_blocks` writes for `n` bytes.
pub open spec fn block_count(n: nat) -> nat
    decreases n,
{
    if n <= MAX_STORED_BLOCK {
        1
    } else {
        1 + block_count((n - MAX_STORED_BLOCK) as nat)
    }
}

/// For `n` bytes, `ceil(n / 65535)` blocks, and one for none.
pub proof fn lemma_block_count(n: nat)
    ensures
        n > 0 ==> block_count(n) == (n + 65534) / 65535,
        n == 0 ==> block_count(n) == 1,
    decreases n,
{
    if n > MAX_STORED_BLOCK {
        lemma_block_count((n - MAX_STORED_BLOCK) as nat);
    }
}

/// The gzip member for `n` bytes has 18 bytes of header and trailer, five
/// bytes of framing per block, and the bytes themselves.
pub proof fn lemma_gzip_length(data: Seq<u8>)
    ensures
        stored_blocks(data).len() == data.len() + 5 * block_count(data.len()),
        gzip_of(data).len() == 18 + data.len() + 5 * block_count(data.len()),
    decreases data.len(),
{
    if data.len() > MAX_STORED_BLOCK {
        lemma_gzip_length(data.subrange(MAX_STORED_BLOCK as int, data.len() as int));
    }
}

/// Block `i` of the deflate stream starts at byte `65540 * i`: a final flag
/// set on the last block only, the chunk length and its complement, then
/// bytes `65535 * i` up to `65535 * i + 65535` of the data, or to its end.
pub proof fn lemma_stored_block_at(data: Seq<u8>, i: nat)
    requires
        i == 0 || i * MAX_STORED_BLOCK < data.len(),
    ensures
        ({
            let lo = (i * MAX_STORED_BLOCK) as int;
            let len = if data.len() - lo <= MAX_STORED_BLOCK {
                data.len() - lo
            } else {
                MAX_STORED_BLOCK as int
            };
            let off = (65540 * i) as int;
            &&& off + 5 + len <= stored_blocks(data).len()
            &&& stored_blocks(data).subrange(off, off + 5 + len) == stored_block(
                data.subrange(lo, lo + len),
                lo + len == data.len(),
            )
        }),
    decreases i,
{
    let m = MAX_STORED_BLOCK as int;
    let b = stored_blocks(data);
    if data.len() <= m {
        assert(i == 0);
        assert(b.subrange(0, 5 + data.len() as int) =~= b);
        assert(data.subrange(0, data.len() as int) =~= data);
    } else {
        let first = data.subrange(0, m);
        let rest = data.subrange(m, data.len() as int);
        let head = stored_block(first, false);
        assert(head.len() == 65540);
        if i == 0 {
            assert(b.subrange(0, 65540) =~= head);
        } else {
            let j = (i - 1) as nat;
            assert(j * m + m == i * m && 65540 * j + 65540 == 65540 * i) by (nonlinear_arith)
                requires
                    j == i - 1,
            ;
            lemma_stored_block_at(rest, j);
            let lo = (j * m) as int;
            let len = if rest.len() - lo <= m {
                rest.len() - lo
            } else {
                m
            };
            let off = (65540 * j) as int;
            assert(b.subrange(65540 + off, 65540 + off + 5 + len) =~= stored_blocks(rest).subrange(
                off,
                off + 5 + len,
            ));
            assert(rest.subrange(lo as int, lo + len) =~= data.subrange(lo + m, lo + m + len));
        }
    }
}

/// CRC-32 (ISO 3309 / ITU-T V.42) of `data`, bit by bit without a table.
pub fn crc32(data: &[u8]) -> (r: u32)
    ensures
        r == crc32_of(data@),
{
    let mut crc: u32 = 0xFFFF_FFFF;
    let mut i: usize = 0;
    while i < data.len()
        invariant
            i <= data.len(),
            crc == crc_register(data@.subrange(0, i as int)),
        decreases data.len() - i,
    {
        assert(data@.subrange(0, i + 1).drop_last() =~= data@.subrange(0, i as int));
        let ghost start = crc ^ (data[i as int] as u32);
        crc = crc ^ (data[i] as u32);
        let mut k: usize = 0;
        while k < 8
            invariant
                k <= 8,
                crc == crc_shift_n(start, k as nat),
            decreases 8 - k,
        {
            if crc & 1 != 0 {
                crc = (crc >> 1) ^ CRC32_POLY;
            } else {
                crc = crc >> 1;
            }
            k = k + 1;
        }
        i = i + 1;
    }
    assert(data@.subrange(0, data@.len() as int) =~= data@);
    !crc
}

/// Appends `n` (below 2^16) as two little-endian bytes.
fn push_le16(out: &mut Vec<u8>, n: usize)
    requires
        n < 0x1_0000,
    ensures
        final(out)@ == old(out)@ + le16(n as nat),
{
    out.push((n % 256) as u8);
    out.push(((n / 256) % 256) as u8);
    assert(final(out)@ =~= old(out)@ + le16(n as nat));
}

/// Appends `n` as four little-endian bytes.
fn push_le32(out: &mut Vec<u8>, n: u32)
    ensures
        final(out)@ == old(out)@ + le32(n as nat),
{
    out.push((n % 256) as u8);
    out.push(((n / 0x100) % 256) as u8);
    out.push(((n / 0x1_0000) % 256) as u8);
    out.push(((n / 0x100_0000) % 256) as u8);
    assert(final(out)@ =~= old(out)@ + le32(n as nat));
}

/// Appends one stored block holding `data[lo..hi]`.
fn push_stored_block(out: &mut Vec<u8>, data: &[u8], lo: usize, hi: usize, last: bool)
    requires
        lo <= hi <= data@.len(),
        hi - lo <= MAX_STORED_BLOCK,
    ensures
        final(out)@ == old(out)@ + stored_block(data@.subrange(lo as int, hi as int), last),
{
    out.push(if last { 1u8 } else { 0u8 });
    push_le16(out, hi - lo);
    push_le16(out, 0xFFFF - (hi - lo));
    let ghost before = out@;
    let mut i: usize = lo;
    while i < hi
        invariant
            lo <= i <= hi <= data@.len(),
            out@ == before + data@.subrange(lo as int, i as int),
        decreases hi - i,
    {
        out.push(data[i]);
        assert(data@.subrange(lo as int, i + 1) =~= data@.subrange(lo as int, i as int).push(
            data@[i as int],
        ));
        i = i + 1;
    }
    assert(final(out)@ =~= old(out)@ + stored_block(data@.subrange(lo as int, hi as int), last));
}

/// A gzip member holding `data` in stored deflate blocks: header, blocks of
/// at most `MAX_STORED_BLOCK` bytes, CRC-32 and length trailer. It never
/// fails.
pub fn gzip_compress(data: &[u8]) -> (r: Result<Vec<u8>, String>)
    ensures
        r matches Ok(out) && out@ == gzip_of(data@),
{
    let mut out: Vec<u8> = Vec::new();
    out.push(0x1f);
    out.push(0x8b);
    out.push(0x08);
    out.push(0x00);
    out.push(0x00);
    out.push(0x00);
    out.push(0x00);
    out.push(0x00);
    out.push(0x00);
    out.push(0xff);
    assert(out@ =~= gzip_header());
    let n = data.len();
    let mut start: usize = 0;
    assert(data@.subrange(0, n as int) =~= data@);
    while n - start > MAX_STORED_BLOCK
        invariant
            n == data@.len(),
            start <= n,
            gzip_header() + stored_blocks(data@) == out@ + stored_blocks(
                data@.subrange(start as int, n as int),
            ),
        decreases n - start,
    {
        let ghost rest = data@.subrange(start as int, n as int);
        let ghost old_out = out@;
        push_stored_block(&mut out, data, start, start + MAX_STORED_BLOCK, false);
        assert(rest.subrange(0, MAX_STORED_BLOCK as int) =~= data@.subrange(
            start as int,
            start + MAX_STORED_BLOCK,
        ));
        assert(rest.subrange(MAX_STORED_BLOCK as int, rest.len() as int) =~= data@.subrange(
            start + MAX_STORED_BLOCK,
            n as int,
        ));
        assert(old_out + stored_blocks(rest) =~= out@ + stored_blocks(
            data@.subrange(start + MAX_STORED_BLOCK, n as int),
        ));
        start = start + MAX_STORED_BLOCK;
    }
    push_stored_block(&mut out, data, start, n, true);
    assert(out@ =~= gzip_header() + stored_blocks(data@));
    let crc = crc32(data);
    push_le32(&mut out, crc);
    push_le32(&mut out, (n as u64 % 0x1_0000_0000) as u32);
    Ok(out)
}

} // verus!
