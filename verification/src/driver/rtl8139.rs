//! The RTL8139 network card: its register map, the receive ring and its
//! cursor, and the four transmit slots.

use vstd::prelude::*;

verus! {

/// The length of the receive ring.
pub const RX_BUF_LEN: usize = 8192;

/// The padding in front of the receive ring.
pub const RX_BUF_PAD: usize = 16;

/// The area behind the ring into which a frame that wraps is written.
pub const RX_BUF_WRAP: usize = 1500;

/// The whole receive allocation.
pub const RX_BUF_TOTAL: usize = 8192 + 16 + 1500;

/// The number of transmit slots.
pub const TX_SLOTS: usize = 4;

/// The shortest length that the card declares for a frame.
pub const MIN_FRAME_LEN: u16 = 64;

pub const REG_CONFIG1: u16 = 0x52;

pub const REG_CMD: u16 = 0x37;

pub const REG_RBSTART: u16 = 0x30;

pub const REG_IMR: u16 = 0x3c;

pub const REG_ISR: u16 = 0x3e;

pub const REG_RCR: u16 = 0x44;

pub const REG_CAPR: u16 = 0x38;

pub const REG_TX_DATA: u16 = 0x20;

pub const REG_TX_CMD: u16 = 0x10;

/// The reset bit of the command register.
pub const CMD_RESET: u8 = 0x10;

/// The command that enables the transmitter and the receiver.
pub const CMD_ENABLE: u8 = 0x0c;

/// The bit of the command register that is set while the ring is empty.
pub const CMD_RX_EMPTY: u8 = 0x01;

/// The bit of a transmit command register that is set when the slot is
/// done.
pub const TX_DONE: u32 = 0x8000;

pub const INT_RX_OK: u16 = 0x0001;

pub const INT_RX_ERR: u16 = 0x0002;

pub const INT_TX_OK: u16 = 0x0004;

pub const INT_TX_ERR: u16 = 0x0008;

pub const INT_RDU: u16 = 0x0010;

pub const INT_TDU: u16 = 0x0080;

pub const INT_SYS_ERR: u16 = 0x8000;

/// The interrupts that the driver enables: receive and transmit, their
/// errors, both descriptor-unavailable conditions, and system errors.
pub const INT_MASK: u16 = 0x809f;

/// The receive configuration: accept frames for the card's own address and
/// broadcasts, unlimited DMA burst, no receive threshold, and wrap.
pub const RCR_CONFIG: u32 = 0xe78a;

/// The cursor advanced past a frame of declared length `length`: past the
/// card's header of four bytes and the frame, up to the next multiple of
/// four.
pub open spec fn spec_advanced(cursor: nat, length: u16) -> nat {
    ((cursor + length + 4 + 3) / 4 * 4) as nat
}

/// The cursor after a frame of declared length `length`: advanced, then
/// wrapped to the ring.
pub open spec fn spec_next_cursor(cursor: nat, length: u16) -> nat {
    spec_advanced(cursor, length) % 8192
}

/// What the card is told of the read position after the cursor advanced to
/// `advanced`: sixteen less, kept to 16 bits.
pub open spec fn spec_capr(advanced: nat) -> u16 {
    ((advanced + 0x1_0000 - 16) % 0x1_0000) as u16
}

/// The cursor advanced past a frame, before it is wrapped.
pub fn advanced(cursor: usize, length: u16) -> (r: usize)
    requires
        cursor < 8192,
    ensures
        r == spec_advanced(cursor as nat, length),
{
    (cursor + length as usize + 4 + 3) / 4 * 4
}

/// The cursor after a frame of declared length `length`.
pub fn next_cursor(cursor: usize, length: u16) -> (r: usize)
    requires
        cursor < 8192,
    ensures
        r == spec_next_cursor(cursor as nat, length),
        r < 8192,
        r % 4 == 0,
{
    advanced(cursor, length) % RX_BUF_LEN
}

/// Rounding up to a multiple of four by division is rounding up by masking
/// the two lowest bits.
pub proof fn lemma_advanced_is_masked(cursor: u32, length: u16)
    requires
        cursor < 8192,
    ensures
        spec_advanced(cursor as nat, length) == ((cursor + length + 4 + 3) as u32) & !3u32,
{
    let x: u32 = (cursor + length + 4 + 3) as u32;
    assert(x / 4 * 4 == x & !3u32) by (bit_vector);
}

/// What the card is told of the read position.
pub fn capr(advanced: usize) -> (r: u16)
    requires
        advanced <= 0x2_0000,
    ensures
        r == spec_capr(advanced as nat),
{
    ((advanced + 0x1_0000 - 16) % 0x1_0000) as u16
}

/// The length that the card declares for the frame at `cursor`: the third
/// and fourth byte of its header, low byte first.
pub open spec fn spec_declared_len(buffer: Seq<u8>, cursor: int) -> u16 {
    (buffer[cursor + 2] as int + buffer[cursor + 3] as int * 256) as u16
}

/// The status that the card declares for the frame at `cursor`: the first
/// two bytes of its header, low byte first.
pub open spec fn spec_status(buffer: Seq<u8>, cursor: int) -> u16 {
    (buffer[cursor] as int + buffer[cursor + 1] as int * 256) as u16
}

/// Whether the frame at `cursor` can be taken: its header lies in the
/// buffer, it declares at least the shortest length, and what it declares
/// lies in the buffer.
pub open spec fn frame_ok(buffer: Seq<u8>, cursor: int) -> bool {
    &&& 0 <= cursor
    &&& cursor + 4 <= buffer.len()
    &&& spec_declared_len(buffer, cursor) >= 64
    &&& cursor + spec_declared_len(buffer, cursor) - 4 <= buffer.len()
}

/// A frame taken from the ring, with what follows from it.
pub struct Received {
    /// The frame, without the card's header and checksum.
    pub frame: Vec<u8>,
    /// The status that the card declared.
    pub status: u16,
    /// The cursor for the next frame.
    pub cursor: usize,
    /// What to tell the card of the read position.
    pub capr: u16,
}

/// Takes the frame at `cursor` from the receive buffer.
///
/// The frame is what lies between the card's header and the checksum at the
/// end of the declared length. Nothing is taken where the header or the
/// declared length do not fit the buffer, or the length is under the
/// shortest that the card declares.
pub fn read_frame(buffer: &[u8], cursor: usize) -> (r: Option<Received>)
    requires
        cursor < 8192,
    ensures
        r is Some <==> frame_ok(buffer@, cursor as int),
        r is Some ==> {
            let length = spec_declared_len(buffer@, cursor as int);
            &&& r->Some_0.frame@ == buffer@.subrange(cursor + 4, cursor + length - 4)
            &&& r->Some_0.status == spec_status(buffer@, cursor as int)
            &&& r->Some_0.cursor == spec_next_cursor(cursor as nat, length)
            &&& r->Some_0.capr == spec_capr(spec_advanced(cursor as nat, length))
        },
{
    if buffer.len() < 4 || cursor > buffer.len() - 4 {
        return None;
    }
    let status: u16 = buffer[cursor] as u16 + buffer[cursor + 1] as u16 * 256;
    let length: u16 = buffer[cursor + 2] as u16 + buffer[cursor + 3] as u16 * 256;
    if length < MIN_FRAME_LEN {
        return None;
    }
    let end: usize = cursor + length as usize - 4;
    if end > buffer.len() {
        return None;
    }
    let frame = vstd::slice::slice_to_vec(vstd::slice::slice_subrange(buffer, cursor + 4, end));
    let moved: usize = advanced(cursor, length);
    Some(Received { frame, status, cursor: moved % RX_BUF_LEN, capr: capr(moved) })
}

/// The transmit slot after `slot`.
pub fn next_tx_slot(slot: usize) -> (r: usize)
    requires
        slot < 4,
    ensures
        r == (slot + 1) % 4,
        r < 4,
{
    (slot + 1) % TX_SLOTS
}

/// The length word written to a transmit slot: the length, kept to twelve
/// bits.
pub fn tx_len_word(len: usize) -> (r: u32)
    ensures
        r == len % 0x1000,
{
    (len % 0x1000) as u32
}

/// The port of the data register of transmit slot `slot` of the card at
/// `base`, kept to 16 bits.
pub fn tx_data_port(base: u16, slot: usize) -> (r: u16)
    requires
        slot < 4,
    ensures
        r == (base + 0x20 + 4 * slot) % 0x1_0000,
{
    ((base as u32 + 0x20 + 4 * slot as u32) % 0x1_0000) as u16
}

/// The port of the command register of transmit slot `slot` of the card at
/// `base`, kept to 16 bits.
pub fn tx_cmd_port(base: u16, slot: usize) -> (r: u16)
    requires
        slot < 4,
    ensures
        r == (base + 0x10 + 4 * slot) % 0x1_0000,
{
    ((base as u32 + 0x10 + 4 * slot as u32) % 0x1_0000) as u16
}

/// What the interrupt handler does for an interrupt status.
pub struct IsrPlan {
    /// Frames wait in the ring.
    pub drain_rx: bool,
    /// A transmit error is to be recorded.
    pub tx_error: bool,
    /// A receive error is to be recorded.
    pub rx_error: bool,
}

/// What the interrupt handler does for the status `status`: it drains the
/// ring on receive-OK and records the two kinds of error.
pub fn isr_plan(status: u16) -> (r: IsrPlan)
    ensures
        r.drain_rx == (status & 0x0001 != 0),
        r.rx_error == (status & 0x0002 != 0),
        r.tx_error == (status & 0x0008 != 0),
{
    IsrPlan {
        drain_rx: status & INT_RX_OK != 0,
        rx_error: status & INT_RX_ERR != 0,
        tx_error: status & INT_TX_ERR != 0,
    }
}

/// One frame's worth of writes to a transmit slot.
pub struct TxWrite {
    /// Which of the buffered frames is sent.
    pub frame: usize,
    /// The port that takes the frame's physical address.
    pub data_port: u16,
    /// The port that takes the length word, and on which the done bit is
    /// awaited.
    pub cmd_port: u16,
    /// The length word.
    pub len_word: u32,
}

/// The write for the frame `i` of a flush that starts at `slot`.
pub open spec fn spec_tx_write(base: u16, slot: usize, lens: Seq<usize>, i: int) -> TxWrite {
    TxWrite {
        frame: i as usize,
        data_port: ((base + 0x20 + 4 * ((slot + i) % 4)) % 0x1_0000) as u16,
        cmd_port: ((base + 0x10 + 4 * ((slot + i) % 4)) % 0x1_0000) as u16,
        len_word: (lens[i] % 0x1000) as u32,
    }
}

/// Plans a flush of buffered frames of the lengths `lens`, for a card at
/// `base` whose next transmit slot is `slot`: one write per frame, each in
/// the slot after the last, and the slot that is next afterwards.
pub fn plan_flush(base: u16, slot: usize, lens: &Vec<usize>) -> (r: (Vec<TxWrite>, usize))
    requires
        slot < 4,
    ensures
        r.0@.len() == lens@.len(),
        forall|i: int| 0 <= i < lens@.len() ==> r.0@[i] == spec_tx_write(base, slot, lens@, i),
        r.1 == (slot + lens@.len()) % 4,
{
    let mut writes: Vec<TxWrite> = Vec::new();
    let mut cursor: usize = slot;
    let mut i: usize = 0;
    while i < lens.len()
        invariant
            i <= lens.len(),
            slot < 4,
            cursor == (slot + i) % 4,
            writes@.len() == i,
            forall|j: int| 0 <= j < i ==> writes@[j] == spec_tx_write(base, slot, lens@, j),
        decreases lens.len() - i,
    {
        writes.push(
            TxWrite {
                frame: i,
                data_port: tx_data_port(base, cursor),
                cmd_port: tx_cmd_port(base, cursor),
                len_word: tx_len_word(lens[i]),
            },
        );
        cursor = next_tx_slot(cursor);
        i = i + 1;
    }
    (writes, cursor)
}

} // verus!
