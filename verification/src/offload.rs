//! TCP generic-receive-offload bookkeeping for the TUN path: the
//! virtio-net header codec, TCP flow keys, and the coalescing tables.

use vstd::prelude::*;
use crate::byteops::sub_bytes;

verus! {

// Number of packets an offload batch is sized for.
pub const IDEAL_BATCH_SIZE: usize = 128;

// Offset of the flags byte inside a TCP header.
pub const TCP_FLAG_OFFSET: usize = 13;

// Encoded size of VirtioNetHdr, matching its C ABI counterpart.
pub const VIRTIO_NET_HDR_LEN: usize = 10;

/// Errors of the TUN offload path.
#[derive(Clone, Copy, Debug, PartialEq, Eq, Structural)]
pub enum TunError {
    /// The buffer is shorter than the fixed header layout.
    ShortBuffer,
}

/// TCP header flag bits of interest to coalescing.
#[derive(Clone, Copy, Debug, PartialEq, Eq, Structural)]
pub enum TcpFlag {
    Fin,
    Psh,
    Ack,
}

impl TcpFlag {
    /// The flag's bit in the TCP flags byte.
    pub fn bit(&self) -> (r: u8)
        ensures
            r == (match *self {
                TcpFlag::Fin => 0x01u8,
                TcpFlag::Psh => 0x08u8,
                TcpFlag::Ack => 0x10u8,
            }),
    {
        match *self {
            TcpFlag::Fin => 0x01,
            TcpFlag::Psh => 0x08,
            TcpFlag::Ack => 0x10,
        }
    }
}

/// The big-endian `u16` at the front of `s`.
pub open spec fn spec_u16_be(s: Seq<u8>) -> int
    recommends
        s.len() >= 2,
{
    s[0] * 0x100 + s[1]
}

/// The big-endian `u32` at the front of `s`.
pub open spec fn spec_u32_be(s: Seq<u8>) -> int
    recommends
        s.len() >= 4,
{
    s[0] * 0x100_0000 + s[1] * 0x1_0000 + s[2] * 0x100 + s[3]
}

/// Reads the big-endian `u16` at offset `at`.
pub fn read_u16_be(src: &[u8], at: usize) -> (r: u16)
    requires
        at + 2 <= src@.len(),
    ensures
        r == spec_u16_be(src@.skip(at as int)),
{
    proof {
        assert(src@.skip(at as int)[0] == src@[at as int]);
        assert(src@.skip(at as int)[1] == src@[at + 1]);
    }
    (src[at] as u16) * 0x100 + (src[at + 1] as u16)
}

/// Reads the big-endian `u32` at offset `at`.
pub fn read_u32_be(src: &[u8], at: usize) -> (r: u32)
    requires
        at + 4 <= src@.len(),
    ensures
        r == spec_u32_be(src@.skip(at as int)),
{
    proof {
        assert(src@.skip(at as int)[0] == src@[at as int]);
        assert(src@.skip(at as int)[1] == src@[at + 1]);
        assert(src@.skip(at as int)[2] == src@[at + 2]);
        assert(src@.skip(at as int)[3] == src@[at + 3]);
    }
    (src[at] as u32) * 0x100_0000 + (src[at + 1] as u32) * 0x1_0000 + (src[at + 2] as u32) * 0x100
        + (src[at + 3] as u32)
}

/// The virtio-net header prefixed to every packet when the device runs
/// with the vnet header enabled; integer fields are big-endian on the
/// wire here.
#[derive(Clone, Copy, Debug, PartialEq, Eq, Structural)]
pub struct VirtioNetHdr {
    pub flags: u8,
    pub gso_type: u8,
    /// Ethernet + IP + TCP/UDP header length.
    pub hdr_len: u16,
    /// Bytes to append to hdr_len per frame.
    pub gso_size: u16,
    /// Position to start checksumming from.
    pub csum_start: u16,
    /// Offset after that to place the checksum.
    pub csum_offset: u16,
}

impl VirtioNetHdr {
    /// Parses the fixed header from the front of `buf`; fails exactly
    /// when fewer than the header's bytes are there.
    pub fn decode(buf: &[u8]) -> (r: Result<VirtioNetHdr, TunError>)
        ensures
            r is Ok <==> buf@.len() >= VIRTIO_NET_HDR_LEN,
            r matches Ok(h) ==> {
                &&& h.flags == buf@[0]
                &&& h.gso_type == buf@[1]
                &&& h.hdr_len == spec_u16_be(buf@.skip(2))
                &&& h.gso_size == spec_u16_be(buf@.skip(4))
                &&& h.csum_start == spec_u16_be(buf@.skip(6))
                &&& h.csum_offset == spec_u16_be(buf@.skip(8))
            },
            r matches Err(e) ==> e == TunError::ShortBuffer,
    {
        if buf.len() < VIRTIO_NET_HDR_LEN {
            return Err(TunError::ShortBuffer);
        }
        Ok(
            VirtioNetHdr {
                flags: buf[0],
                gso_type: buf[1],
                hdr_len: read_u16_be(buf, 2),
                gso_size: read_u16_be(buf, 4),
                csum_start: read_u16_be(buf, 6),
                csum_offset: read_u16_be(buf, 8),
            },
        )
    }

    /// Writes the fixed header into the front of `buf`; fails exactly
    /// when fewer than the header's bytes fit.
    pub fn encode(&self, buf: &mut Vec<u8>) -> (r: Result<(), TunError>)
        ensures
            r is Ok <==> old(buf)@.len() >= VIRTIO_NET_HDR_LEN,
            r matches Err(e) ==> e == TunError::ShortBuffer && final(buf)@ == old(buf)@,
            r is Ok ==> {
                &&& final(buf)@.len() == old(buf)@.len()
                &&& final(buf)@[0] == self.flags
                &&& final(buf)@[1] == self.gso_type
                &&& spec_u16_be(final(buf)@.skip(2)) == self.hdr_len
                &&& spec_u16_be(final(buf)@.skip(4)) == self.gso_size
                &&& spec_u16_be(final(buf)@.skip(6)) == self.csum_start
                &&& spec_u16_be(final(buf)@.skip(8)) == self.csum_offset
                &&& final(buf)@.skip(10) == old(buf)@.skip(10)
            },
    {
        if buf.len() < VIRTIO_NET_HDR_LEN {
            return Err(TunError::ShortBuffer);
        }
        buf.set(0, self.flags);
        buf.set(1, self.gso_type);
        write_u16_be(buf, 2, self.hdr_len);
        write_u16_be(buf, 4, self.gso_size);
        write_u16_be(buf, 6, self.csum_start);
        write_u16_be(buf, 8, self.csum_offset);
        proof {
            assert(buf@.skip(10) =~= old(buf)@.skip(10));
        }
        Ok(())
    }
}

/// Writes `x` big-endian at offset `at`.
fn write_u16_be(buf: &mut Vec<u8>, at: usize, x: u16)
    requires
        at + 2 <= old(buf)@.len(),
    ensures
        final(buf)@.len() == old(buf)@.len(),
        spec_u16_be(final(buf)@.skip(at as int)) == x,
        forall|j: int| 0 <= j < old(buf)@.len() && j != at && j != at + 1 ==> final(buf)@[j] == old(
            buf,
        )@[j],
{
    let n = buf.len();
    proof {
        assert(at + 2 <= n);
    }
    let hi: u8 = (x / 0x100) as u8;
    let lo: u8 = (x % 0x100) as u8;
    buf.set(at, hi);
    buf.set(at + 1, lo);
    proof {
        assert(buf@.skip(at as int)[0] == buf@[at as int]);
        assert(buf@.skip(at as int)[1] == buf@[at + 1]);
    }
}

/// The key of one TCP flow: addresses, ports, and the acknowledgment
/// number (differing ack values are kept as separate flows).
#[derive(Clone, Debug)]
pub struct TcpFlowKey {
    pub src_addr: Vec<u8>,
    pub dst_addr: Vec<u8>,
    pub src_port: u16,
    pub dst_port: u16,
    pub rx_ack: u32,
    pub is_v6: bool,
}

impl TcpFlowKey {
    /// Extracts the flow key of the packet whose address fields sit at
    /// the given offsets and whose TCP header starts at `tcph_offset`.
    pub fn new(
        pkt: &[u8],
        src_addr_offset: usize,
        dst_addr_offset: usize,
        tcph_offset: usize,
    ) -> (r: TcpFlowKey)
        requires
            src_addr_offset <= dst_addr_offset,
            dst_addr_offset - src_addr_offset == 16,
            dst_addr_offset + 16 <= pkt@.len(),
            tcph_offset + 12 <= pkt@.len(),
        ensures
            r.src_addr@ == pkt@.subrange(src_addr_offset as int, dst_addr_offset as int),
            r.dst_addr@ == pkt@.subrange(dst_addr_offset as int, dst_addr_offset + 16),
            r.src_port == spec_u16_be(pkt@.skip(tcph_offset as int)),
            r.dst_port == spec_u16_be(pkt@.skip(tcph_offset + 2)),
            r.rx_ack == spec_u32_be(pkt@.skip(tcph_offset + 8)),
            r.is_v6,
    {
        let n = pkt.len();
        proof {
            assert(dst_addr_offset + 16 <= n);
            assert(tcph_offset + 12 <= n);
        }
        let addr_size = dst_addr_offset - src_addr_offset;
        let src_addr = sub_bytes(pkt, src_addr_offset, dst_addr_offset);
        let dst_addr = sub_bytes(pkt, dst_addr_offset, dst_addr_offset + addr_size);
        let src_port = read_u16_be(pkt, tcph_offset);
        let dst_port = read_u16_be(pkt, tcph_offset + 2);
        let rx_ack = read_u32_be(pkt, tcph_offset + 8);
        proof {
            assert(pkt@.skip(tcph_offset + 2)[0] == pkt@[tcph_offset + 2]);
        }
        TcpFlowKey { src_addr, dst_addr, src_port, dst_port, rx_ack, is_v6: addr_size == 16 }
    }
}

/// Bookkeeping for one TCP packet while a batch is coalesced.
#[derive(Debug)]
pub struct TcpGROItem {
    pub key: TcpFlowKey,
    /// The sequence number.
    pub sent_seq: u32,
    /// Index into the batch of buffers under evaluation.
    pub buf_index: u16,
    /// How many packets were merged into this item.
    pub num_merged: u16,
    /// Payload size.
    pub gso_size: u16,
    /// IP header length.
    pub iph_len: u8,
    /// TCP header length.
    pub tcph_len: u8,
    /// Whether the PSH flag is set.
    pub psh_set: bool,
}

/// Flow and coalescing state for one batch of TCP packets: items keyed
/// by flow, and a pool of pre-allocated item buffers.
pub struct TcpGROTable {
    pub items_by_flow: Vec<(TcpFlowKey, Vec<TcpGROItem>)>,
    pub items_pool: Vec<Vec<TcpGROItem>>,
}

impl TcpGROTable {
    /// An empty table with a pool of one item buffer per batch slot,
    /// each buffer's backing store allocated up front so coalescing a
    /// batch does not allocate.
    pub fn new() -> (r: TcpGROTable)
        ensures
            r.items_by_flow@.len() == 0,
            r.items_pool@.len() == IDEAL_BATCH_SIZE,
            forall|j: int| 0 <= j < r.items_pool@.len() ==> (#[trigger] r.items_pool@[j])@.len()
                == 0,
    {
        let items_by_flow: Vec<(TcpFlowKey, Vec<TcpGROItem>)> = Vec::with_capacity(
            IDEAL_BATCH_SIZE,
        );
        let mut items_pool: Vec<Vec<TcpGROItem>> = Vec::with_capacity(IDEAL_BATCH_SIZE);
        let mut i: usize = 0;
        while i < IDEAL_BATCH_SIZE
            invariant
                0 <= i <= IDEAL_BATCH_SIZE,
                items_pool@.len() == i,
                forall|j: int| 0 <= j < i ==> (#[trigger] items_pool@[j])@.len() == 0,
            decreases IDEAL_BATCH_SIZE - i,
        {
            items_pool.push(Vec::with_capacity(IDEAL_BATCH_SIZE));
            i = i + 1;
        }
        TcpGROTable { items_by_flow, items_pool }
    }
}

} // verus!
