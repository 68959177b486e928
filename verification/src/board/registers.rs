use vstd::prelude::*;

verus! {

/// The DMA clock gate field of CCM_CCGR5 (bits 6-7).
pub fn ccm_ccgr5_dma(n: u32) -> (r: u32)
    ensures
        r == (n % 4) * 64,
{
    assert((n & 0x03) << 6u32 == (n % 4) * 64) by (bit_vector);
    (n & 0x03) << 6u32
}

/// The source size field of a DMA transfer descriptor's ATTR (bits 8-10).
pub fn dma_tcd_attr_ssize(n: u16) -> (r: u16)
    ensures
        r == (n % 8) * 256,
{
    assert((n & 0x7) << 8u16 == (n % 8) * 256) by (bit_vector);
    (n & 0x7) << 8u16
}

/// The destination size field of a DMA transfer descriptor's ATTR (bits 0-2).
pub fn dma_tcd_attr_dsize(n: u16) -> (r: u16)
    ensures
        r == n % 8,
{
    assert((n & 0x7) << 0u16 == n % 8) by (bit_vector);
    (n & 0x7) << 0u16
}

/// The minor-loop byte count field of NBYTES with offsets on (bits 0-9).
pub fn dma_tcd_nbytes_mloffyes_nbytes(n: u32) -> (r: u32)
    ensures
        r == n % 1024,
{
    assert(n & 0x3FF == n % 1024) by (bit_vector);
    n & 0x3FF
}

/// The minor-loop offset field of NBYTES with offsets on (bits 10-19): the
/// low 10 bits of the offset, in two's complement for a negative one.
pub fn dma_tcd_nbytes_mloffyes_mloff(n: i32) -> (r: u32)
    ensures
        r == (n % 1024) * 1024,
{
    let v: i32 = (n & 0x3FF) << 10i32;
    assert(v == (n % 1024) * 1024 && 0 <= v < 0x10_0000) by (bit_vector)
        requires
            v == (n & 0x3FF) << 10i32,
    ;
    v as u32
}

/// The SPDIF clock gate field of CCM_CCGR5 (bits 14-15).
pub fn ccm_ccgr5_spdif(n: u32) -> (r: u32)
    ensures
        r == (n % 4) * 0x4000,
{
    assert((n & 0x03) << 14u32 == (n % 4) * 0x4000) by (bit_vector);
    (n & 0x03) << 14u32
}

/// The receive FIFO full select field of SPDIF_SCR (bits 19-20).
pub fn spdif_scr_rxfifofull_sel(n: u32) -> (r: u32)
    ensures
        r == (n % 4) * 0x8_0000,
{
    assert((n & 0x03) << 19u32 == (n % 4) * 0x8_0000) by (bit_vector);
    (n & 0x03) << 19u32
}

/// The U channel source field of SPDIF_SCR (bits 0-1).
pub fn spdif_scr_usrc_sel(n: u32) -> (r: u32)
    ensures
        r == n % 4,
{
    assert((n & 0x03) << 0u32 == n % 4) by (bit_vector);
    (n & 0x03) << 0u32
}

/// The gain select field of SPDIF_SRPC (bits 3-5).
pub fn spdif_srpc_gainsel(n: u32) -> (r: u32)
    ensures
        r == (n % 8) * 8,
{
    assert((n & 0x07) << 3u32 == (n % 8) * 8) by (bit_vector);
    (n & 0x07) << 3u32
}

/// The PIT clock gate field of CCM_CCGR1 (bits 12-13).
pub fn ccm_ccgr1_pit(n: u32) -> (r: u32)
    ensures
        r == (n % 4) * 0x1000,
{
    assert((n & 0x03) << 12u32 == (n % 4) * 0x1000) by (bit_vector);
    (n & 0x03) << 12u32
}

/// The number of samples in the receive ring of `len` slots that lie between
/// the read offset and the write offset.
pub open spec fn samples_between(write: int, read: int, len: int) -> int {
    if read <= write {
        write - read
    } else {
        len - read + write
    }
}

/// The length of the SPDIF receive ring, in samples per channel.
pub const SPDIF_BUFFER_LEN: u32 = 1536;

/// How many samples a read of at most `max` takes from the receive ring, the
/// interrupt handler having written up to `write` and the reader having read
/// up to `read`.
pub fn samples_to_copy(write: u32, read: u32, max: u32) -> (r: u32)
    requires
        write < SPDIF_BUFFER_LEN,
        read < SPDIF_BUFFER_LEN,
    ensures
        r == if samples_between(write as int, read as int, SPDIF_BUFFER_LEN as int) < max {
            samples_between(write as int, read as int, SPDIF_BUFFER_LEN as int)
        } else {
            max as int
        },
{
    let remaining = if read <= write {
        write - read
    } else {
        SPDIF_BUFFER_LEN - read + write
    };
    if remaining < max {
        remaining
    } else {
        max
    }
}

/// The read offset after a copy of `count` samples from the receive ring,
/// starting at `read`. Each step of the copy computes the next offset with a
/// wrapping add and discards the sum, then wraps an offset equal to the ring
/// length to 0; so the offset moves only from the ring length to 0, and the
/// copy takes every sample from the same slot.
pub fn spdif_read_offset_after_copy(read: u32, count: u32) -> (r: u32)
    ensures
        r == if count > 0 && read == SPDIF_BUFFER_LEN {
            0
        } else {
            read
        },
{
    let mut b_r_o = read;
    let mut i: u32 = 0;
    while i < count
        invariant
            i <= count,
            b_r_o == if i > 0 && read == SPDIF_BUFFER_LEN {
                0
            } else {
                read
            },
        decreases count - i,
    {
        let _ = b_r_o.wrapping_add(1);
        if b_r_o == SPDIF_BUFFER_LEN {
            b_r_o = 0;
        }
        i = i + 1;
    }
    b_r_o
}

/// The samples per channel that the DMA handler moves into the ring on each
/// half of the receive buffer.
pub const SPDIF_BLOCK: u32 = 32;

/// Whether the DMA handler writes a block at the write offset `write`: when
/// the reader at `read` is not ahead of it, or is more than a block ahead.
pub fn spdif_block_fits(write: u32, read: u32) -> (r: bool)
    requires
        write <= u32::MAX - SPDIF_BLOCK,
    ensures
        r == (write >= read || write + SPDIF_BLOCK < read),
{
    write >= read || write + SPDIF_BLOCK < read
}

/// The write offset after the DMA handler has written a block at `write`.
pub fn spdif_next_write_offset(write: u32) -> (r: u32)
    requires
        write <= u32::MAX - SPDIF_BLOCK,
    ensures
        r == (write + SPDIF_BLOCK) % (SPDIF_BUFFER_LEN as int),
        r < SPDIF_BUFFER_LEN,
{
    (write + SPDIF_BLOCK) % SPDIF_BUFFER_LEN
}

/// The 16-bit sample in a received 32-bit word: the word's bits 8 to 23,
/// read as unsigned. The conversion to `i16` fails where bit 23 or above is
/// set, so such words are left out.
pub fn spdif_sample_bits(word: i32) -> (r: i16)
    requires
        (word as u32) >> 8u32 <= 0x7FFF,
    ensures
        r as int == ((word as u32) >> 8u32) as int,
{
    let n: u32 = word as u32;
    let shifted = n >> 8u32;
    shifted as i16
}

} // verus!
