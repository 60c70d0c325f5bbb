use vstd::prelude::*;

use super::display::{collides, row_pixel, sprite_pixel, DISPLAY_SIZE};
use super::error::Chip8Error;
use super::instruction::{family_of, kk_of, n_of, nnn_of, x_of, y_of, Instruction};
use super::stack::STACK_CAPACITY;
use super::{
    outcome, Command, advance, sprite_rows, count_down, execute_spec, fetch_spec, set_reg, tick_spec, MachineModel, Signal,
    MEMORY_SIZE,
};

verus! {

/// The fields of the word made of the bytes `hi` and `lo`.
pub proof fn lemma_word_fields(hi: u8, lo: u8)
    ensures
        family_of((hi * 256 + lo) as u16) == (hi >> 4u8) as u16,
        x_of((hi * 256 + lo) as u16) == hi & 0x0F,
        y_of((hi * 256 + lo) as u16) == lo >> 4u8,
        n_of((hi * 256 + lo) as u16) == lo & 0x0F,
        kk_of((hi * 256 + lo) as u16) == lo,
        nnn_of((hi * 256 + lo) as u16) == (hi & 0x0F) * 256 + lo,
{
    let w: u16 = ((hi as u16) << 8u16) | (lo as u16);
    assert(w == hi * 256 + lo && w >> 12u16 == (hi >> 4u8) as u16 && ((w >> 8u16) & 0x0F) as u8
        == hi & 0x0F && ((w >> 4u16) & 0x0F) as u8 == lo >> 4u8 && (w & 0x000F) as u8 == lo & 0x0F
        && (w & 0x00FF) as u8 == lo && w & 0x0FFF == ((hi & 0x0F) as u16) * 256 + lo as u16)
        by (bit_vector)
        requires
            w == ((hi as u16) << 8u16) | (lo as u16),
    ;
}

/// For every register `x` and byte `kk`, the word 6xkk at the program
/// counter sets V[x] to `kk`, moves the program counter on by exactly 2 and
/// changes nothing else.
pub proof fn lemma_load_byte_step(m: MachineModel, x: u8, kk: u8, rnd: u8)
    requires
        m.ram.len() == MEMORY_SIZE,
        m.v.len() == 16,
        m.wait is None,
        m.pc + 1 < MEMORY_SIZE,
        x < 16,
        m.ram[m.pc as int] == 0x60 + x,
        m.ram[m.pc + 1] == kk,
    ensures
        tick_spec(m, rnd) == Ok::<(MachineModel, Signal), Chip8Error>(
            (advance(set_reg(m, x as int, kk), 2), Signal::Nothing),
        ),
        tick_spec(m, rnd) matches Ok((after, _)) && after.v[x as int] == kk && after.pc == m.pc + 2,
{
    let hi: u8 = (0x60 + x) as u8;
    lemma_word_fields(hi, kk);
    assert(hi >> 4u8 == 6 && hi & 0x0F == x) by (bit_vector)
        requires
            hi == 0x60 + x,
            x < 16,
    ;
}

/// A call followed by a return comes back to the instruction after the
/// call, with the stack as it was before.
pub proof fn lemma_call_then_return(m: MachineModel, nnn: u16, rnd: u8)
    requires
        m.stack.len() < STACK_CAPACITY,
    ensures
        execute_spec(m, Instruction::Call { nnn }, rnd) matches Ok((called, _)) && (called.pc == nnn
            && called.stack == m.stack.push((m.pc + 2) as u16) && (execute_spec(
            called,
            Instruction::Ret,
            rnd,
        ) matches Ok((back, _)) && (back.pc == (m.pc + 2) as u16 && back.stack == m.stack))),
{
    let called = MachineModel { pc: nnn, stack: m.stack.push((m.pc + 2) as u16), ..m };
    assert(called.stack.drop_last() =~= m.stack);
}

/// Clearing the screen turns every pixel off, whatever it showed before,
/// and clearing it again changes nothing on it.
pub proof fn lemma_clear_screen(m: MachineModel, rnd: u8)
    ensures
        execute_spec(m, Instruction::Cls, rnd) matches Ok((cleared, _)) && (cleared.display.len()
            == DISPLAY_SIZE && (forall|p: int| 0 <= p < DISPLAY_SIZE ==> !#[trigger] cleared.display[p])
            && (execute_spec(cleared, Instruction::Cls, rnd) matches Ok((again, _)) && again.display
            == cleared.display)),
{
}

/// The word FFFF at the program counter is refused as an invalid opcode
/// that names the program counter and the word; the machine is left as it was.
pub proof fn lemma_invalid_opcode_step(m: MachineModel, rnd: u8)
    requires
        m.ram.len() == MEMORY_SIZE,
        m.wait is None,
        m.pc + 1 < MEMORY_SIZE,
        m.ram[m.pc as int] == 0xFF,
        m.ram[m.pc + 1] == 0xFF,
    ensures
        tick_spec(m, rnd) == Err::<(MachineModel, Signal), Chip8Error>(
            Chip8Error::InvalidOpcode { pc: m.pc, instruction: 0xFFFF },
        ),
{
    assert(fetch_spec(m) == 0xFFFF);
    assert(family_of(0xFFFF) == 15 && kk_of(0xFFFF) == 0xFF && n_of(0xFFFF) == 15) by (bit_vector);
}

/// A timer after `k` periods of 60 Hz.
pub open spec fn timer_after(t: u8, k: nat) -> u8
    decreases k,
{
    if k == 0 {
        t
    } else {
        count_down(timer_after(t, (k - 1) as nat))
    }
}

/// A timer set to `t` reads zero after `t` periods, and stays at zero
/// however many periods follow.
pub proof fn lemma_timer_runs_out(t: u8, extra: nat)
    ensures
        timer_after(t, t as nat) == 0,
        timer_after(t, (t + extra) as nat) == 0,
    decreases extra,
{
    lemma_timer_counts(t, t as nat);
    if extra > 0 {
        lemma_timer_runs_out(t, (extra - 1) as nat);
        assert(timer_after(t, (t + extra) as nat) == count_down(timer_after(t, (t + extra - 1) as nat)));
    }
}

/// Before it reaches zero, a timer loses one per period.
proof fn lemma_timer_counts(t: u8, k: nat)
    requires
        k <= t,
    ensures
        timer_after(t, k) == t - k,
    decreases k,
{
    if k > 0 {
        lemma_timer_counts(t, (k - 1) as nat);
    }
}

/// Whether pixel `p` is one of columns 60 to 63 and 0 to 3 of the top row.
pub open spec fn top_row_wrapped(p: int) -> bool {
    0 <= p < 64 && (60 <= p || p < 4)
}

/// With I on the single sprite row FF, V[x] = 60 and V[y] = 0, drawing one
/// row flips columns 60 to 63 and 0 to 3 of the top row, wrapping past the
/// right edge, and leaves every other pixel alone; VF is 1 exactly when one
/// of those pixels was lit before.
pub proof fn lemma_draw_sprite_wraps(m: MachineModel, x: u8, y: u8, rnd: u8)
    requires
        m.ram.len() == MEMORY_SIZE,
        m.display.len() == DISPLAY_SIZE,
        m.v.len() == 16,
        x < 16,
        y < 16,
        m.i < MEMORY_SIZE,
        m.ram[m.i as int] == 0xFF,
        m.v[x as int] == 60,
        m.v[y as int] == 0,
    ensures
        execute_spec(m, Instruction::Drw { x, y, n: 1 }, rnd) matches Ok((after, Signal::Draw)) && (
        (forall|p: int| 0 <= p < DISPLAY_SIZE ==> #[trigger] after.display[p] == (m.display[p]
            != top_row_wrapped(p))) && (after.v[15] == 1 <==> exists|p: int| #[trigger]
            top_row_wrapped(p) && m.display[p]) && (after.v[15] == 0 || after.v[15] == 1)),
{
    let rows = m.ram.subrange(m.i as int, m.i + 1);
    assert(rows.len() == 1 && rows[0] == 0xFF);
    assert(forall|s: u8| s < 8 ==> (0xFFu8 >> s) & 1u8 == 1u8) by (bit_vector);
    assert forall|p: int| 0 <= p < DISPLAY_SIZE implies sprite_pixel(rows, 60, 0, p) == top_row_wrapped(p) by {
        let c = (p % 64 - 60) % 64;
        if 0 <= c < 8 {
            assert(row_pixel(0xFF, c));
        }
    }
    assert(sprite_rows(m, 1) == rows);
    if collides(m.display, rows, 60, 0) {
        let p = choose|p: int| 0 <= p < m.display.len() && m.display[p] && #[trigger] sprite_pixel(rows, 60, 0, p);
        assert(top_row_wrapped(p) && m.display[p]);
    }
    if exists|p: int| #[trigger] top_row_wrapped(p) && m.display[p] {
        let p = choose|p: int| #[trigger] top_row_wrapped(p) && m.display[p];
        assert(sprite_pixel(rows, 60, 0, p));
        assert(collides(m.display, rows, 60, 0));
    }
}

/// For every register `x` and byte `kk`, a tick on the word 6xkk, from a
/// machine not waiting for a key, succeeds, sets V[x] to `kk`, moves the
/// program counter on by exactly 2 and changes nothing else.
pub proof fn lemma_load_byte(m: MachineModel, after: MachineModel, r: Result<Command, Chip8Error>, x: u8, kk: u8)
    requires
        m.ram.len() == MEMORY_SIZE,
        m.v.len() == 16,
        m.wait is None,
        m.pc + 1 < MEMORY_SIZE,
        x < 16,
        m.ram[m.pc as int] == 0x60 + x,
        m.ram[m.pc + 1] == kk,
        exists|rnd: u8| outcome(m, after, r, #[trigger] tick_spec(m, rnd)),
    ensures
        r matches Ok(Command::Nothing),
        after.v[x as int] == kk,
        after.pc == m.pc + 2,
        forall|k: int| 0 <= k < 16 && k != x ==> after.v[k] == m.v[k],
        after == (MachineModel { v: m.v.update(x as int, kk), pc: (m.pc + 2) as u16, ..m }),
{
    let rnd = choose|rnd: u8| outcome(m, after, r, #[trigger] tick_spec(m, rnd));
    lemma_load_byte_step(m, x, kk, rnd);
}

/// A tick on the word 00E0, from a machine not waiting for a key, turns
/// every pixel off whatever the screen showed, moves the program counter on
/// by 2 and changes nothing else.
pub proof fn lemma_tick_clear_screen(m: MachineModel, after: MachineModel, r: Result<Command, Chip8Error>)
    requires
        m.ram.len() == MEMORY_SIZE,
        m.wait is None,
        m.pc + 1 < MEMORY_SIZE,
        m.ram[m.pc as int] == 0x00,
        m.ram[m.pc + 1] == 0xE0,
        exists|rnd: u8| outcome(m, after, r, #[trigger] tick_spec(m, rnd)),
    ensures
        r matches Ok(Command::Nothing),
        after.display.len() == DISPLAY_SIZE,
        forall|p: int| 0 <= p < DISPLAY_SIZE ==> !#[trigger] after.display[p],
        after == (MachineModel {
            display: Seq::new(DISPLAY_SIZE as nat, |p: int| false),
            pc: (m.pc + 2) as u16,
            ..m
        }),
{
    let rnd = choose|rnd: u8| outcome(m, after, r, #[trigger] tick_spec(m, rnd));
    assert(fetch_spec(m) == 0x00E0);
}

/// A tick on the word FFFF, from a machine not waiting for a key, fails with
/// an invalid opcode that names the program counter and the word, and
/// leaves the machine as it was.
pub proof fn lemma_invalid_opcode(m: MachineModel, after: MachineModel, r: Result<Command, Chip8Error>)
    requires
        m.ram.len() == MEMORY_SIZE,
        m.wait is None,
        m.pc + 1 < MEMORY_SIZE,
        m.ram[m.pc as int] == 0xFF,
        m.ram[m.pc + 1] == 0xFF,
        exists|rnd: u8| outcome(m, after, r, #[trigger] tick_spec(m, rnd)),
    ensures
        r == Err::<Command, Chip8Error>(Chip8Error::InvalidOpcode { pc: m.pc, instruction: 0xFFFF }),
        after == m,
{
    let rnd = choose|rnd: u8| outcome(m, after, r, #[trigger] tick_spec(m, rnd));
    lemma_invalid_opcode_step(m, rnd);
}

/// With I on the single sprite row FF, V[x] = 60 and V[y] = 0, a tick on the
/// word Dxy1, from a machine not waiting for a key, flips columns 60 to 63
/// and 0 to 3 of the top row, wrapping past the right edge, and leaves every
/// other pixel alone; VF is 1 exactly when one of those pixels was lit
/// before, and the host gets the new screen.
pub proof fn lemma_draw_wraps_right_edge(
    m: MachineModel,
    after: MachineModel,
    r: Result<Command, Chip8Error>,
    x: u8,
    y: u8,
)
    requires
        m.ram.len() == MEMORY_SIZE,
        m.display.len() == DISPLAY_SIZE,
        m.v.len() == 16,
        m.wait is None,
        m.pc + 1 < MEMORY_SIZE,
        x < 16,
        y < 16,
        m.ram[m.pc as int] == 0xD0 + x,
        m.ram[m.pc + 1] == y * 16 + 1,
        m.i < MEMORY_SIZE,
        m.ram[m.i as int] == 0xFF,
        m.v[x as int] == 60,
        m.v[y as int] == 0,
        exists|rnd: u8| outcome(m, after, r, #[trigger] tick_spec(m, rnd)),
    ensures
        r matches Ok(Command::Draw(screen)) && screen@ == after.display,
        forall|p: int| 0 <= p < DISPLAY_SIZE ==> #[trigger] after.display[p] == (m.display[p]
            != top_row_wrapped(p)),
        after.v[15] == 1 <==> exists|p: int| #[trigger] top_row_wrapped(p) && m.display[p],
        after.v[15] == 0 || after.v[15] == 1,
        after.pc == m.pc + 2,
{
    let rnd = choose|rnd: u8| outcome(m, after, r, #[trigger] tick_spec(m, rnd));
    let hi: u8 = (0xD0 + x) as u8;
    let lo: u8 = (y * 16 + 1) as u8;
    lemma_word_fields(hi, lo);
    assert(hi >> 4u8 == 0xD && hi & 0x0F == x && lo >> 4u8 == y && lo & 0x0F == 1) by (bit_vector)
        requires
            hi == 0xD0 + x,
            lo == y * 16 + 1,
            x < 16,
            y < 16,
    ;
    lemma_draw_sprite_wraps(m, x, y, rnd);
}

} // verus!
