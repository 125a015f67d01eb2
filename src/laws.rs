use vstd::prelude::*;
use crate::cpu::{alu_spec, bit_at, collides, drawn, flag, sprite_hit};
use crate::{HEIGHT, PIXEL_ON, WIDTH};

verus! {

/// The arithmetic and shift operations leave their flag in register 15 even
/// when register 15 is also the destination: the flag is written last.
pub proof fn flag_written_last(v: Seq<u8>, x: int, val: u8, f: u8)
    requires
        v.len() == 16,
        0 <= x < 16,
    ensures
        v.update(x, val).update(15, f)[15] == f,
{
}

/// Flag rules of the `8xyn` family: carry for addition, no-borrow for both
/// subtractions, the bit shifted out for both shifts.
pub proof fn flag_rules(vx: u8, vy: u8, cosmic: bool)
    ensures
        alu_spec(4, vx, vy, cosmic) == Some((((vx + vy) % 256) as u8, Some(flag(vx + vy > 255)))),
        alu_spec(5, vx, vy, cosmic) == Some((((vx - vy + 256) % 256) as u8, Some(flag(vx >= vy)))),
        alu_spec(7, vx, vy, cosmic) == Some((((vy - vx + 256) % 256) as u8, Some(flag(vy >= vx)))),
        !cosmic ==> alu_spec(6, vx, vy, cosmic) == Some(((vx / 2) as u8, Some((vx % 2) as u8))),
        !cosmic ==> alu_spec(14, vx, vy, cosmic) == Some((((vx as int * 2) % 256) as u8, Some((vx / 128) as u8))),
{
}

/// The dialect flag selects the shift source: with it on, `8xy6` shifts a
/// copy of `v[y]`; with it off, `v[x]` shifts in place.
pub proof fn shift_dialects(vx: u8, vy: u8)
    ensures
        alu_spec(6, vx, vy, true) == Some(((vy / 2) as u8, Some((vy % 2) as u8))),
        alu_spec(6, vx, vy, false) == Some(((vx / 2) as u8, Some((vx % 2) as u8))),
{
}

/// A call pushes its return address and a return pops it: the stack comes
/// back as it was and the program counter to the instruction after the call.
pub proof fn call_return_round_trip(stack: Seq<u16>, ret: u16)
    ensures
        stack.push(ret).len() > 0,
        stack.push(ret).last() == ret,
        stack.push(ret).drop_last() == stack,
{
    assert(stack.push(ret).drop_last() =~= stack);
}

/// Drawing the same sprite at the same place twice gives back the
/// framebuffer as it was.
pub proof fn draw_twice_restores(screen: Seq<u32>, memory: Seq<u8>, i: int, vx: u8, vy: u8, n: u8)
    ensures
        drawn(drawn(screen, memory, i, vx, vy, n), memory, i, vx, vy, n) == screen,
{
    assert(forall|a: u32| ((a ^ 0xFFFF_FFFFu32) ^ 0xFFFF_FFFFu32) == a) by (bit_vector);
    assert(drawn(drawn(screen, memory, i, vx, vy, n), memory, i, vx, vy, n) =~= screen);
}

/// On a blank framebuffer a draw reports no collision; drawing the same
/// sprite again reports one exactly when the sprite set some cell.
pub proof fn draw_twice_collides(screen: Seq<u32>, memory: Seq<u8>, i: int, vx: u8, vy: u8, n: u8)
    requires
        screen.len() == WIDTH * HEIGHT,
        forall|k: int| 0 <= k < screen.len() ==> screen[k] == 0,
    ensures
        !collides(screen, memory, i, vx, vy, n),
        collides(drawn(screen, memory, i, vx, vy, n), memory, i, vx, vy, n)
            == exists|k: int| 0 <= k < WIDTH * HEIGHT && sprite_hit(memory, i, vx, vy, n, k),
{
    assert(0u32 ^ 0xFFFF_FFFFu32 == 0xFFFF_FFFFu32) by (bit_vector);
    let d = drawn(screen, memory, i, vx, vy, n);
    if exists|k: int| 0 <= k < WIDTH * HEIGHT && sprite_hit(memory, i, vx, vy, n, k) {
        let k = choose|k: int| 0 <= k < WIDTH * HEIGHT && sprite_hit(memory, i, vx, vy, n, k);
        assert(d[k] == PIXEL_ON);
    }
}

/// A draw flips no cell left of its starting column or above its starting
/// row: sprites clip at the right and bottom edges rather than wrap. A
/// sprite starting in the last column touches that column alone.
pub proof fn draw_clips(memory: Seq<u8>, i: int, vx: u8, vy: u8, n: u8, k: int)
    requires
        0 <= k < WIDTH * HEIGHT,
        sprite_hit(memory, i, vx, vy, n, k),
    ensures
        k % WIDTH as int >= vx as int % WIDTH as int,
        k / WIDTH as int >= vy as int % HEIGHT as int,
        vx as int % WIDTH as int == WIDTH - 1 ==> k % WIDTH as int == WIDTH - 1,
{
}

/// A sprite that lies wholly on the framebuffer sets some cell exactly when
/// one of its rows, `memory[i..i + n]`, is not zero; so, from a blank framebuffer, a second draw
/// of it reports a collision exactly when one of its rows is not zero.
pub proof fn redraw_collides_iff_some_row_set(screen: Seq<u32>, memory: Seq<u8>, i: int, vx: u8, vy: u8, n: u8)
    requires
        screen.len() == WIDTH * HEIGHT,
        forall|k: int| 0 <= k < screen.len() ==> screen[k] == 0,
        0 <= i,
        i + n <= memory.len(),
        vx as int % WIDTH as int + 8 <= WIDTH,
        vy as int % HEIGHT as int + n <= HEIGHT,
    ensures
        !collides(screen, memory, i, vx, vy, n),
        collides(drawn(screen, memory, i, vx, vy, n), memory, i, vx, vy, n)
            == exists|a: int| i <= a < i + n && memory[a] != 0,
{
    draw_twice_collides(screen, memory, i, vx, vy, n);
    let x0 = vx as int % WIDTH as int;
    let y0 = vy as int % HEIGHT as int;
    assert(forall|b: u8, s: u8| (b & (0x80u8 >> s)) != 0 ==> b != 0) by (bit_vector);
    if exists|k: int| 0 <= k < WIDTH * HEIGHT && sprite_hit(memory, i, vx, vy, n, k) {
        let k = choose|k: int| 0 <= k < WIDTH * HEIGHT && sprite_hit(memory, i, vx, vy, n, k);
        let r = k / WIDTH as int - y0;
        assert(memory[i + r] != 0);
        assert(i <= i + r < i + n);
    }
    if exists|a: int| i <= a < i + n && memory[a] != 0 {
        let a = choose|a: int| i <= a < i + n && memory[a] != 0;
        let r = a - i;
        let b = memory[a];
        assert(b != 0 ==> (b & (0x80u8 >> 0u8)) != 0 || (b & (0x80u8 >> 1u8)) != 0 || (b & (0x80u8 >> 2u8)) != 0
            || (b & (0x80u8 >> 3u8)) != 0 || (b & (0x80u8 >> 4u8)) != 0 || (b & (0x80u8 >> 5u8)) != 0
            || (b & (0x80u8 >> 6u8)) != 0 || (b & (0x80u8 >> 7u8)) != 0) by (bit_vector);
        let c: int = if (b & (0x80u8 >> 0u8)) != 0 { 0 } else if (b & (0x80u8 >> 1u8)) != 0 { 1 }
            else if (b & (0x80u8 >> 2u8)) != 0 { 2 } else if (b & (0x80u8 >> 3u8)) != 0 { 3 }
            else if (b & (0x80u8 >> 4u8)) != 0 { 4 } else if (b & (0x80u8 >> 5u8)) != 0 { 5 }
            else if (b & (0x80u8 >> 6u8)) != 0 { 6 } else { 7 };
        assert((b & (0x80u8 >> (c as u8))) != 0);
        let k = (y0 + r) * WIDTH as int + x0 + c;
        assert(k / WIDTH as int == y0 + r && k % WIDTH as int == x0 + c) by (nonlinear_arith)
            requires k == (y0 + r) * WIDTH as int + x0 + c, 0 <= x0, 0 <= c, x0 + c < WIDTH as int, WIDTH == 64;
        assert(0 <= k < WIDTH * HEIGHT) by (nonlinear_arith)
            requires k == (y0 + r) * WIDTH as int + x0 + c, 0 <= x0, 0 <= c, x0 + c < WIDTH as int, 0 <= y0, 0 <= r,
                y0 + r < HEIGHT as int, WIDTH == 64, HEIGHT == 32;
        assert(bit_at(b, c as nat));
        assert(sprite_hit(memory, i, vx, vy, n, k));
    }
}

} // verus!
