//! Mapping between banked address space and pixel coordinates.
//!
//! Banks are laid out left to right, each `bank_width` pixels wide and
//! separated by a spacer; addresses within a bank run top to bottom.

use vstd::prelude::*;

verus! {

/// Height of the canvas, in pixels.
pub const HEIGHT: u32 = 512;

/// Largest width the canvas may take: twice its height.
pub const MAX_WIDTH: u32 = 1024;

/// Width of the gap between two neighbouring banks.
pub const SPACER_WIDTH: u32 = 2;

/// Largest width of a single bank.
pub const MAX_BANK_WIDTH: u32 = 30;

/// Number of addressable bytes in one bank.
pub const BANK_SIZE: u32 = 0x4000;

/// Number of bytes that one row of pixels stands for.
pub const BYTES_PER_ROW: u32 = 32;

/// Largest bank count for which every bank still gets its spacer.
pub const MAX_BANKS: u32 = 512;

/// The bank counts a canvas can be laid out for.
pub open spec fn valid_bank_count(nb_banks: int) -> bool {
    1 <= nb_banks <= MAX_BANKS
}

/// The share of the maximum width that each bank may take, spacer included,
/// rounded down to an even number.
pub open spec fn spec_bank_pitch(nb_banks: int) -> int {
    (MAX_WIDTH as int / nb_banks) - (MAX_WIDTH as int / nb_banks) % 2
}

/// Width of one bank, in pixels.
pub open spec fn spec_bank_width(nb_banks: int) -> int {
    if spec_bank_pitch(nb_banks) - SPACER_WIDTH <= MAX_BANK_WIDTH {
        spec_bank_pitch(nb_banks) - SPACER_WIDTH
    } else {
        MAX_BANK_WIDTH as int
    }
}

/// Width of `nb_banks` banks of `bank_width` pixels with a spacer between
/// each two of them, and none after the last.
pub open spec fn spec_n_banks_width(bank_width: int, nb_banks: int) -> int {
    (bank_width + SPACER_WIDTH) * nb_banks - SPACER_WIDTH
}

/// Width of the whole canvas, in pixels.
pub open spec fn spec_canvas_width(nb_banks: int) -> int {
    spec_n_banks_width(spec_bank_width(nb_banks), nb_banks)
}

/// Leftmost pixel column of bank `bank`.
pub open spec fn spec_bank_x(bank: int, bank_width: int) -> int {
    bank * (bank_width + SPACER_WIDTH)
}

/// Offset of `addr` within its bank.
pub open spec fn spec_local_addr(addr: int) -> int {
    addr % (BANK_SIZE as int)
}

/// First pixel row of a placement at `addr`.
pub open spec fn spec_first_row(addr: int) -> int {
    spec_local_addr(addr) / (BYTES_PER_ROW as int)
}

/// Last byte of a placement of `nb_bytes` bytes at `addr`, capped at the end
/// of the bank.
pub open spec fn spec_last_byte(addr: int, nb_bytes: int) -> int {
    if spec_local_addr(addr) + nb_bytes - 1 <= BANK_SIZE - 1 {
        spec_local_addr(addr) + nb_bytes - 1
    } else {
        BANK_SIZE - 1
    }
}

/// Last pixel row of a placement of `nb_bytes` bytes at `addr`.
pub open spec fn spec_last_row(addr: int, nb_bytes: int) -> int {
    spec_last_byte(addr, nb_bytes) / (BYTES_PER_ROW as int)
}

/// Every valid bank count leaves room for at least the spacer, the bank width
/// is even and never more than 30, and the canvas is even, at least as wide
/// as one bank and never wider than 1024 pixels.
pub proof fn lemma_layout_bounds(nb_banks: int)
    requires
        valid_bank_count(nb_banks),
    ensures
        0 <= spec_bank_width(nb_banks) <= 30,
        spec_bank_width(nb_banks) % 2 == 0,
        spec_bank_width(nb_banks) + 2 <= 32,
        (spec_bank_width(nb_banks) + 2) * nb_banks <= 1024,
        spec_canvas_width(nb_banks) == (spec_bank_width(nb_banks) + 2) * nb_banks - 2,
        spec_bank_width(nb_banks) <= spec_canvas_width(nb_banks) <= 1022,
        2 <= spec_canvas_width(nb_banks),
        spec_canvas_width(nb_banks) % 2 == 0,
{
    let share = 1024int / nb_banks;
    let pitch = spec_bank_pitch(nb_banks);
    let bw = spec_bank_width(nb_banks);
    assert(2 <= share && share * nb_banks <= 1024) by (nonlinear_arith)
        requires
            1 <= nb_banks <= 512,
            share == 1024int / nb_banks,
    ;
    assert(2 <= bw + 2 <= pitch <= share);
    assert((bw + 2) * nb_banks <= share * nb_banks) by (nonlinear_arith)
        requires
            0 <= bw + 2 <= share,
            1 <= nb_banks,
    ;
    assert((bw + 2) * nb_banks >= bw + 2) by (nonlinear_arith)
        requires
            0 <= bw + 2,
            1 <= nb_banks,
    ;
    if nb_banks >= 2 {
        assert((bw + 2) * nb_banks >= 4) by (nonlinear_arith)
            requires
                2 <= bw + 2,
                2 <= nb_banks,
        ;
    }
    let half = (bw + 2) / 2;
    assert((bw + 2) * nb_banks == 2 * (half * nb_banks)) by (nonlinear_arith)
        requires
            bw + 2 == 2 * half,
    ;
}

/// With no more than 64 banks every bank is at least 14 pixels wide; its
/// width is even, and with the spacer no more than 32; the canvas is as wide
/// as its banks and their spacers, and no wider than 1024 pixels.
pub proof fn lemma_layout_up_to_64_banks(nb_banks: int)
    requires
        1 <= nb_banks <= 64,
    ensures
        14 <= spec_bank_width(nb_banks) <= 30,
        spec_bank_width(nb_banks) % 2 == 0,
        spec_bank_width(nb_banks) + 2 <= 32,
        spec_canvas_width(nb_banks) <= 1024,
        spec_canvas_width(nb_banks) == (spec_bank_width(nb_banks) + 2) * nb_banks - 2,
{
    lemma_layout_bounds(nb_banks);
    let share = 1024int / nb_banks;
    assert(16 <= share) by (nonlinear_arith)
        requires
            1 <= nb_banks <= 64,
            share == 1024int / nb_banks,
    ;
}

/// The rows of a placement are in order and on the canvas, however many
/// bytes it has.
pub proof fn lemma_rows_in_range(addr: int, nb_bytes: int)
    requires
        0 <= addr,
        1 <= nb_bytes,
    ensures
        0 <= spec_first_row(addr) <= spec_last_row(addr, nb_bytes) <= 511,
{
}

/// Width of one bank on a canvas of `nb_banks` banks.
pub fn bank_width(nb_banks: u32) -> (width: u32)
    requires
        valid_bank_count(nb_banks as int),
    ensures
        width == spec_bank_width(nb_banks as int),
{
    let share: u32 = MAX_WIDTH / nb_banks;
    let pitch: u32 = share & !1;
    assert(pitch == share - share % 2) by (bit_vector)
        requires
            pitch == share & !1u32,
    ;
    proof {
        lemma_layout_bounds(nb_banks as int);
    }
    let width: u32 = pitch - SPACER_WIDTH;
    if width <= MAX_BANK_WIDTH {
        width
    } else {
        MAX_BANK_WIDTH
    }
}

/// Width of the whole canvas for `nb_banks` banks.
pub fn canvas_width(nb_banks: u32) -> (width: u32)
    requires
        valid_bank_count(nb_banks as int),
    ensures
        width == spec_canvas_width(nb_banks as int),
{
    let bw: u32 = bank_width(nb_banks);
    proof {
        lemma_layout_bounds(nb_banks as int);
    }
    (bw + SPACER_WIDTH) * nb_banks - SPACER_WIDTH
}

/// Leftmost pixel column of bank `bank` on a canvas of `nb_banks` banks.
pub fn bank_x(bank: u32, nb_banks: u32) -> (x: u32)
    requires
        valid_bank_count(nb_banks as int),
        bank < nb_banks,
    ensures
        x == spec_bank_x(bank as int, spec_bank_width(nb_banks as int)),
        x + spec_bank_width(nb_banks as int) <= spec_canvas_width(nb_banks as int),
{
    let bw: u32 = bank_width(nb_banks);
    proof {
        lemma_layout_bounds(nb_banks as int);
        lemma_bank_fits(bank as int, nb_banks as int, bw as int);
    }
    bank * (bw + SPACER_WIDTH)
}

/// A bank below the bank count lies wholly within the canvas.
pub proof fn lemma_bank_fits(bank: int, nb_banks: int, bank_width: int)
    requires
        0 <= bank < nb_banks,
        0 <= bank_width,
    ensures
        0 <= spec_bank_x(bank, bank_width),
        spec_bank_x(bank, bank_width) + bank_width <= spec_n_banks_width(bank_width, nb_banks),
        spec_bank_x(bank, bank_width) <= bank * (bank_width + 2),
{
    assert(0 <= bank * (bank_width + 2) && (bank + 1) * (bank_width + 2) <= nb_banks * (bank_width
        + 2) && (bank + 1) * (bank_width + 2) == bank * (bank_width + 2) + bank_width + 2
        && nb_banks * (bank_width + 2) == (bank_width + 2) * nb_banks) by (nonlinear_arith)
        requires
            0 <= bank < nb_banks,
            0 <= bank_width,
    ;
}

/// First pixel row of a placement at `addr`.
pub fn first_row(addr: u16) -> (row: u32)
    ensures
        row == spec_first_row(addr as int),
        row <= 511,
{
    let local: u32 = (addr as u32) % BANK_SIZE;
    local / BYTES_PER_ROW
}

/// Last pixel row of a placement of `nb_bytes` bytes at `addr`.
pub fn last_row(addr: u16, nb_bytes: u32) -> (row: u32)
    requires
        nb_bytes >= 1,
    ensures
        row == spec_last_row(addr as int, nb_bytes as int),
        spec_first_row(addr as int) <= row <= 511,
{
    let local: u32 = (addr as u32) % BANK_SIZE;
    let room: u32 = BANK_SIZE - 1 - local;
    let last: u32 = if nb_bytes - 1 <= room {
        local + (nb_bytes - 1)
    } else {
        BANK_SIZE - 1
    };
    last / BYTES_PER_ROW
}

} // verus!
