use vstd::prelude::*;
use crate::{FONT_START, HEIGHT, MEMORY_SIZE, PIXEL_ON, PROGRAM_START, WIDTH};

verus! {

/// A fatal condition met while executing an instruction.
#[derive(Debug, Clone, Copy, PartialEq, Eq, Structural)]
pub enum Fault {
    /// `00EE` was executed with an empty call stack.
    EmptyStack,
    /// The instruction would read or write outside the address space.
    AddressOutOfRange,
    /// `ex9E` or `exA1` named a key register holding a value above 15.
    KeyOutOfRange,
}

/// The processor: program counter, index register, general registers,
/// random generator state and the compatibility flag.
pub struct Cpu {
    pub pc: u16,
    pub i: u16,
    pub v: Vec<u8>,
    pub rand_state: u64,
    pub cosmic: bool,
}

/// One xorshift64 round with the shift triple (13, 7, 17).
pub open spec fn xorshift(s: u64) -> u64 {
    let a = s ^ ((s << 13u64) as u64);
    let b = a ^ (a >> 7u64);
    b ^ ((b << 17u64) as u64)
}

/// The value register 15 takes for a condition: 1 when it holds, else 0.
pub open spec fn flag(b: bool) -> u8 {
    if b { 1 } else { 0 }
}

/// The new value of `v[x]` and register 15 for the `8xyn` family, where it
/// defines one; `vx` and `vy` are the operands after any dialect copy.
pub open spec fn alu_spec(n: u8, vx: u8, vy: u8, cosmic: bool) -> Option<(u8, Option<u8>)> {
    if n == 0 { Some((vy, None)) }
    else if n == 1 { Some((vx | vy, None)) }
    else if n == 2 { Some((vx & vy, None)) }
    else if n == 3 { Some((vx ^ vy, None)) }
    else if n == 4 { Some((((vx + vy) % 256) as u8, Some(flag(vx + vy > 255)))) }
    else if n == 5 { Some((((vx - vy + 256) % 256) as u8, Some(flag(vx >= vy)))) }
    else if n == 7 { Some((((vy - vx + 256) % 256) as u8, Some(flag(vy >= vx)))) }
    else if n == 6 {
        let s: u8 = if cosmic { vy } else { vx };
        Some(((s / 2) as u8, Some((s % 2) as u8)))
    } else if n == 14 {
        let s: u8 = if cosmic { vy } else { vx };
        Some((((s as int * 2) % 256) as u8, Some((s / 128) as u8)))
    } else { None }
}

/// Decimal digits of `b`: hundreds, tens, ones.
pub open spec fn bcd_spec(b: u8) -> Seq<u8> {
    seq![(b / 100) as u8, ((b / 10) % 10) as u8, (b % 10) as u8]
}

/// Address of the glyph for the low nibble of `b`.
pub open spec fn glyph_addr(b: u8) -> u16 {
    ((b % 16) as int * 5 + FONT_START as int) as u16
}

/// Bit `col` of `byte`, counting from the most significant.
pub open spec fn bit_at(byte: u8, col: nat) -> bool {
    byte & (0x80u8 >> (col as u8)) != 0
}

/// Number of sprite rows a draw reads: the `n` rows from row `vy % HEIGHT`,
/// less those that fall below the bottom edge.
pub open spec fn rows_drawn(vy: u8, n: u8) -> int {
    let room = HEIGHT as int - vy as int % HEIGHT as int;
    if (n as int) < room { n as int } else { room }
}

/// Cell `k` lies under a set bit of the sprite of rows `memory[i..i + n]`
/// drawn from column `x0`, row `y0`, among its first `rows` rows and, of
/// row `rows`, its first `cols` columns.
pub open spec fn hit_upto(memory: Seq<u8>, i: int, x0: int, y0: int, n: int, k: int, rows: int, cols: int) -> bool {
    let r = k / WIDTH as int;
    let c = k % WIDTH as int;
    &&& y0 <= r < y0 + n
    &&& x0 <= c < x0 + 8
    &&& (r - y0 < rows || (r - y0 == rows && c - x0 < cols))
    &&& bit_at(memory[i + r - y0], (c - x0) as nat)
}

/// Cell `k` lies under a set bit of the whole sprite: the cells the draw flips.
pub open spec fn sprite_hit(memory: Seq<u8>, i: int, vx: u8, vy: u8, n: u8, k: int) -> bool {
    hit_upto(memory, i, vx as int % WIDTH as int, vy as int % HEIGHT as int, n as int, k, n as int, 0)
}

/// The framebuffer after XOR-drawing: cells under a set bit flipped.
pub open spec fn drawn(old_screen: Seq<u32>, memory: Seq<u8>, i: int, vx: u8, vy: u8, n: u8) -> Seq<u32> {
    Seq::new(old_screen.len(), |k: int| if sprite_hit(memory, i, vx, vy, n, k) { old_screen[k] ^ PIXEL_ON } else { old_screen[k] })
}

/// Some cell under a set bit was on before the draw.
pub open spec fn collides(old_screen: Seq<u32>, memory: Seq<u8>, i: int, vx: u8, vy: u8, n: u8) -> bool {
    exists|k: int| 0 <= k < old_screen.len() && sprite_hit(memory, i, vx, vy, n, k) && old_screen[k] == PIXEL_ON
}

/// Every cell of the framebuffer is off or on.
pub open spec fn screen_valid(screen: Seq<u32>) -> bool {
    forall|k: int| 0 <= k < screen.len() ==> screen[k] == 0 || screen[k] == PIXEL_ON
}

impl Cpu {
    /// Registers hold sixteen bytes.
    pub open spec fn wf(&self) -> bool {
        self.v@.len() == 16
    }

    /// Executes the instruction at `pc`: two bytes read big-endian, `pc`
    /// advanced by two, then the operation of its family. Returns whether
    /// the framebuffer may have changed.
    pub fn tick(
        &mut self,
        memory: &mut Vec<u8>,
        stack: &mut Vec<u16>,
        screen: &mut Vec<u32>,
        delay: &mut u8,
        sound: &mut u8,
        keys_pressed: &[bool; 16],
        keys_released: &[bool; 16],
    ) -> (r: Result<bool, Fault>)
        requires
            old(self).wf(),
            old(memory)@.len() == MEMORY_SIZE,
            old(screen)@.len() == WIDTH * HEIGHT,
        ensures
            final(self).wf(),
            final(self).cosmic == old(self).cosmic,
            final(memory)@.len() == MEMORY_SIZE,
            final(screen)@.len() == WIDTH * HEIGHT,
            old(self).pc + 1 >= MEMORY_SIZE ==> r == Err::<bool, Fault>(Fault::AddressOutOfRange),
            old(self).pc + 1 < MEMORY_SIZE ==> ({
                let pc = old(self).pc as int;
                let b0 = old(memory)@[pc];
                let b1 = old(memory)@[pc + 1];
                let hi = b0 / 16;
                let x = (b0 % 16) as int;
                let y = (b1 / 16) as int;
                let nnn = (b0 % 16) as int * 256 + b1 as int;
                let v = old(self).v@;
                let nv = final(self).v@;
                let next = pc + 2;
                let npc = final(self).pc as int;
                let i = old(self).i as int;
                &&& !(hi == 15 && (b1 == 0x33 || b1 == 0x55)) ==> final(memory)@ == old(memory)@
                &&& !(b0 == 0 && b1 == 0xE0) && hi != 13 ==> final(screen)@ == old(screen)@
                &&& !(b0 == 0 && b1 == 0xEE) && hi != 2 ==> final(stack)@ == old(stack)@
                &&& !(hi == 15 && b1 == 0x15) ==> *final(delay) == *old(delay)
                &&& !(hi == 15 && b1 == 0x18) ==> *final(sound) == *old(sound)
                &&& hi != 12 ==> final(self).rand_state == old(self).rand_state
                &&& hi != 10 && !(hi == 15 && (b1 == 0x1E || b1 == 0x29 || b1 == 0x55 || b1 == 0x65)) ==> final(self).i == old(self).i
                &&& (b0 == 0 && b1 == 0xE0) ==> r == Ok::<bool, Fault>(false) && npc == next && nv == v
                    && forall|k: int| 0 <= k < WIDTH * HEIGHT ==> final(screen)@[k] == 0
                &&& (b0 == 0 && b1 == 0xEE) ==> (r == Err::<bool, Fault>(Fault::EmptyStack) <==> old(stack)@.len() == 0)
                    && nv == v
                    && (old(stack)@.len() > 0 ==> r == Ok::<bool, Fault>(false) && npc == old(stack)@.last()
                        && final(stack)@ == old(stack)@.drop_last())
                &&& (b0 == 0 && b1 != 0xE0 && b1 != 0xEE) ==> r == Ok::<bool, Fault>(false) && npc == next && nv == v
                &&& hi == 1 ==> r == Ok::<bool, Fault>(false) && npc == nnn && nv == v
                &&& hi == 2 ==> r == Ok::<bool, Fault>(false) && npc == nnn && nv == v
                    && final(stack)@ == old(stack)@.push(next as u16)
                &&& hi == 3 ==> r == Ok::<bool, Fault>(false) && nv == v && npc == if v[x] == b1 { next + 2 } else { next }
                &&& hi == 4 ==> r == Ok::<bool, Fault>(false) && nv == v && npc == if v[x] != b1 { next + 2 } else { next }
                &&& hi == 5 ==> r == Ok::<bool, Fault>(false) && nv == v
                    && npc == if b1 % 16 == 0 && v[x] == v[y] { next + 2 } else { next }
                &&& hi == 9 ==> r == Ok::<bool, Fault>(false) && nv == v
                    && npc == if b1 % 16 == 0 && v[x] != v[y] { next + 2 } else { next }
                &&& hi == 6 ==> r == Ok::<bool, Fault>(false) && npc == next && nv == v.update(x, b1)
                &&& hi == 7 ==> r == Ok::<bool, Fault>(false) && npc == next
                    && nv == v.update(x, ((v[x] + b1) % 256) as u8)
                &&& hi == 8 ==> r == Ok::<bool, Fault>(false) && npc == next
                    && match alu_spec(b1 % 16, v[x], v[y], old(self).cosmic) {
                        Some((val, Some(f))) => nv == v.update(x, val).update(15, f),
                        Some((val, None)) => nv == v.update(x, val),
                        None => nv == v,
                    }
                &&& hi == 10 ==> r == Ok::<bool, Fault>(false) && npc == next && nv == v && final(self).i == nnn
                &&& hi == 11 ==> r == Ok::<bool, Fault>(false) && nv == v
                    && npc == nnn + if old(self).cosmic { v[0] } else { v[x] }
                &&& hi == 12 ==> r == Ok::<bool, Fault>(false) && npc == next
                    && nv == v.update(x, ((old(self).rand_state % 256) as u8) & b1)
                    && final(self).rand_state == xorshift(old(self).rand_state)
                &&& hi == 13 ==> (i + rows_drawn(v[y], b1 % 16) > MEMORY_SIZE ==> r == Err::<bool, Fault>(Fault::AddressOutOfRange))
                    && (i + rows_drawn(v[y], b1 % 16) <= MEMORY_SIZE ==> r == Ok::<bool, Fault>(true) && npc == next
                        && final(screen)@ == drawn(old(screen)@, old(memory)@, i, v[x], v[y], b1 % 16)
                        && nv == v.update(15, flag(collides(old(screen)@, old(memory)@, i, v[x], v[y], b1 % 16))))
                &&& (hi == 14 && (b1 == 0x9E || b1 == 0xA1) && v[x] >= 16) ==> r == Err::<bool, Fault>(Fault::KeyOutOfRange)
                &&& (hi == 14 && b1 == 0x9E && v[x] < 16) ==> r == Ok::<bool, Fault>(false) && nv == v
                    && npc == if keys_pressed@[v[x] as int] { next + 2 } else { next }
                &&& (hi == 14 && b1 == 0xA1 && v[x] < 16) ==> r == Ok::<bool, Fault>(false) && nv == v
                    && npc == if !keys_pressed@[v[x] as int] { next + 2 } else { next }
                &&& (hi == 14 && b1 != 0x9E && b1 != 0xA1) ==> r == Ok::<bool, Fault>(false) && npc == next && nv == v
                &&& (hi == 15 && b1 != 0x07 && b1 != 0x0A && b1 != 0x15 && b1 != 0x18 && b1 != 0x1E && b1 != 0x29
                    && b1 != 0x33 && b1 != 0x55 && b1 != 0x65) ==> r == Ok::<bool, Fault>(false) && npc == next && nv == v
                &&& (hi == 15 && b1 == 0x07) ==> r == Ok::<bool, Fault>(false) && npc == next && nv == v.update(x, *old(delay))
                &&& (hi == 15 && b1 == 0x15) ==> r == Ok::<bool, Fault>(false) && npc == next && nv == v && *final(delay) == v[x]
                &&& (hi == 15 && b1 == 0x18) ==> r == Ok::<bool, Fault>(false) && npc == next && nv == v && *final(sound) == v[x]
                &&& (hi == 15 && b1 == 0x0A) ==> r == Ok::<bool, Fault>(false)
                    && ((forall|k: int| 0 <= k < 16 ==> !keys_released@[k]) ==> npc == pc && nv == v)
                    && (forall|k: int| 0 <= k < 16 && keys_released@[k] && (forall|j: int| 0 <= j < k ==> !keys_released@[j])
                        ==> npc == next && nv == v.update(x, k as u8))
                &&& (hi == 15 && b1 == 0x1E) ==> r == Ok::<bool, Fault>(false) && npc == next && nv == v
                    && final(self).i == (i + v[x]) % 65536
                &&& (hi == 15 && b1 == 0x29) ==> r == Ok::<bool, Fault>(false) && npc == next && nv == v
                    && final(self).i == glyph_addr(v[x])
                &&& (hi == 15 && b1 == 0x33) ==> (i + 3 > MEMORY_SIZE ==> r == Err::<bool, Fault>(Fault::AddressOutOfRange))
                    && (i + 3 <= MEMORY_SIZE ==> r == Ok::<bool, Fault>(false) && npc == next && nv == v
                        && final(memory)@ == old(memory)@.update(i, bcd_spec(v[x])[0]).update(i + 1, bcd_spec(v[x])[1]).update(i + 2, bcd_spec(v[x])[2]))
                &&& (hi == 15 && (b1 == 0x55 || b1 == 0x65)) ==> (i + x + 1 > MEMORY_SIZE ==> r == Err::<bool, Fault>(Fault::AddressOutOfRange))
                    && (i + x + 1 <= MEMORY_SIZE ==> r == Ok::<bool, Fault>(false) && npc == next
                        && final(self).i == if old(self).cosmic { i + x + 1 } else { i })
                &&& (hi == 15 && b1 == 0x55 && i + x + 1 <= MEMORY_SIZE) ==> nv == v
                    && (forall|k: int| 0 <= k <= x ==> final(memory)@[i + k] == v[k])
                    && (forall|k: int| 0 <= k < MEMORY_SIZE && !(i <= k <= i + x) ==> final(memory)@[k] == old(memory)@[k])
                &&& (hi == 15 && b1 == 0x65 && i + x + 1 <= MEMORY_SIZE) ==> final(memory)@ == old(memory)@
                    && (forall|k: int| 0 <= k <= x ==> nv[k] == old(memory)@[i + k])
                    && (forall|k: int| x < k < 16 ==> nv[k] == v[k])
            }),
    {
        if self.pc as usize + 1 >= MEMORY_SIZE {
            return Err(Fault::AddressOutOfRange);
        }
        let b0 = memory[self.pc as usize];
        let b1 = memory[self.pc as usize + 1];
        let hi = b0 / 16;
        let x: usize = (b0 % 16) as usize;
        let y: usize = (b1 / 16) as usize;
        let n: u8 = b1 % 16;
        let nnn: u16 = (b0 % 16) as u16 * 256 + b1 as u16;
        let ghost v0 = self.v@;
        let ghost m0 = memory@;
        self.pc = self.pc + 2;
        if hi == 0 {
            if b0 == 0 && b1 == 0xE0 {
                let mut k: usize = 0;
                while k < screen.len()
                    invariant
                        screen@.len() == WIDTH * HEIGHT,
                        k <= screen@.len(),
                        forall|j: int| 0 <= j < k ==> screen@[j] == 0,
                    decreases screen@.len() - k,
                {
                    screen.set(k, 0);
                    k = k + 1;
                }
            } else if b0 == 0 && b1 == 0xEE {
                match stack.pop() {
                    Some(a) => self.pc = a,
                    None => return Err(Fault::EmptyStack),
                }
            }
        } else if hi == 1 {
            self.pc = nnn;
        } else if hi == 2 {
            stack.push(self.pc);
            self.pc = nnn;
        } else if hi == 3 {
            if self.v[x] == b1 { self.pc = self.pc + 2; }
        } else if hi == 4 {
            if self.v[x] != b1 { self.pc = self.pc + 2; }
        } else if hi == 5 {
            if n == 0 && self.v[x] == self.v[y] { self.pc = self.pc + 2; }
        } else if hi == 6 {
            self.v.set(x, b1);
        } else if hi == 7 {
            let s = self.v[x].wrapping_add(b1);
            self.v.set(x, s);
        } else if hi == 8 {
            match alu(n, self.v[x], self.v[y], self.cosmic) {
                Some((val, Some(f))) => {
                    self.v.set(x, val);
                    self.v.set(15, f);
                },
                Some((val, None)) => self.v.set(x, val),
                None => {},
            }
        } else if hi == 9 {
            if n == 0 && self.v[x] != self.v[y] { self.pc = self.pc + 2; }
        } else if hi == 10 {
            self.i = nnn;
        } else if hi == 11 {
            let off: u8 = if self.cosmic { self.v[0] } else { self.v[x] };
            self.pc = nnn + off as u16;
        } else if hi == 12 {
            let b = self.next_byte();
            self.v.set(x, b & b1);
        } else if hi == 13 {
            let vx = self.v[x];
            let vy = self.v[y];
            let room: usize = HEIGHT - vy as usize % HEIGHT;
            let rows: usize = if (n as usize) < room { n as usize } else { room };
            if self.i as usize + rows > MEMORY_SIZE {
                return Err(Fault::AddressOutOfRange);
            }
            let collided = draw_sprite(memory, self.i as usize, screen, vx, vy, n);
            self.v.set(15, if collided { 1u8 } else { 0u8 });
            return Ok(true);
        } else if hi == 14 {
            if b1 == 0x9E || b1 == 0xA1 {
                let key = self.v[x];
                if key >= 16 {
                    return Err(Fault::KeyOutOfRange);
                }
                let down = keys_pressed[key as usize];
                if (b1 == 0x9E && down) || (b1 == 0xA1 && !down) {
                    self.pc = self.pc + 2;
                }
            }
        } else {
            if b1 == 0x07 {
                self.v.set(x, *delay);
            } else if b1 == 0x0A {
                match first_key(keys_released) {
                    Some(k) => self.v.set(x, k),
                    None => self.pc = self.pc - 2,
                }
            } else if b1 == 0x15 {
                *delay = self.v[x];
            } else if b1 == 0x18 {
                *sound = self.v[x];
            } else if b1 == 0x1E {
                self.i = self.i.wrapping_add(self.v[x] as u16);
            } else if b1 == 0x29 {
                self.i = glyph_address(self.v[x]);
            } else if b1 == 0x33 {
                if self.i as usize + 3 > MEMORY_SIZE {
                    return Err(Fault::AddressOutOfRange);
                }
                let d = bcd(self.v[x]);
                let a = self.i as usize;
                memory.set(a, d[0]);
                memory.set(a + 1, d[1]);
                memory.set(a + 2, d[2]);
            } else if b1 == 0x55 || b1 == 0x65 {
                if self.i as usize + x + 1 > MEMORY_SIZE {
                    return Err(Fault::AddressOutOfRange);
                }
                let a = self.i as usize;
                let mut r: usize = 0;
                while r <= x
                    invariant
                        self.wf(),
                        a + x + 1 <= MEMORY_SIZE,
                        a == self.i,
                        self.cosmic == old(self).cosmic,
                        self.rand_state == old(self).rand_state,
                        self.pc == old(self).pc + 2,
                        m0.len() == MEMORY_SIZE,
                        v0.len() == 16,
                        x < 16,
                        r <= x + 1,
                        memory@.len() == MEMORY_SIZE,
                        b1 == 0x55 ==> self.v@ == v0,
                        b1 == 0x55 ==> forall|k: int| 0 <= k < r ==> memory@[a + k] == v0[k],
                        b1 == 0x55 ==> forall|k: int| 0 <= k < MEMORY_SIZE && !(a <= k < a + r) ==> memory@[k] == m0[k],
                        b1 != 0x55 ==> memory@ == m0,
                        b1 != 0x55 ==> forall|k: int| 0 <= k < r ==> self.v@[k] == m0[a + k],
                        b1 != 0x55 ==> forall|k: int| r <= k < 16 ==> self.v@[k] == v0[k],
                    decreases x + 1 - r,
                {
                    if b1 == 0x55 {
                        let val = self.v[r];
                        memory.set(a + r, val);
                    } else {
                        let val = memory[a + r];
                        self.v.set(r, val);
                    }
                    r = r + 1;
                }
                if self.cosmic {
                    self.i = self.i + x as u16 + 1;
                }
            }
        }
        Ok(false)
    }

    /// A processor seeded with `seed`, its program counter at the program image.
    pub fn with_seed(cosmic: bool, seed: u64) -> (r: Cpu)
        ensures
            r.wf(),
            r.pc == PROGRAM_START as u16,
            r.i == 0,
            r.v@ == Seq::new(16, |k: int| 0u8),
            r.rand_state == seed,
            r.cosmic == cosmic,
    {
        let v: Vec<u8> = vec![0u8; 16];
        proof {
            assert(v@ =~= Seq::new(16, |k: int| 0u8));
        }
        Cpu { pc: PROGRAM_START as u16, i: 0, v, rand_state: seed, cosmic }
    }

    /// A processor seeded with `seed`, or `None` when no seed was drawn.
    pub fn from_seed(cosmic: bool, seed: Option<u64>) -> (r: Option<Cpu>)
        ensures
            r is None <==> seed is None,
            r is Some ==> ({
                let c = r->Some_0;
                &&& c.wf()
                &&& c.pc == PROGRAM_START as u16
                &&& c.i == 0
                &&& c.v@ == Seq::new(16, |k: int| 0u8)
                &&& c.rand_state == seed->Some_0
                &&& c.cosmic == cosmic
            }),
    {
        match seed {
            Some(s) => Some(Cpu::with_seed(cosmic, s)),
            None => None,
        }
    }

    /// A processor seeded from the system's entropy source; `None` when that
    /// source is unavailable, a fatal condition for the caller.
    pub fn new(cosmic: bool) -> (r: Option<Cpu>)
        ensures
            r is Some ==> ({
                let c = r->Some_0;
                &&& c.wf()
                &&& c.pc == PROGRAM_START as u16
                &&& c.i == 0
                &&& c.v@ == Seq::new(16, |k: int| 0u8)
                &&& c.cosmic == cosmic
            }),
    {
        Cpu::from_seed(cosmic, crate::entropy::entropy_seed())
    }

    /// Produces the next random byte: the low byte of the state, which then
    /// advances by one xorshift round.
    pub fn next_byte(&mut self) -> (r: u8)
        ensures
            r == (old(self).rand_state % 256) as u8,
            final(self).rand_state == xorshift(old(self).rand_state),
            final(self).pc == old(self).pc,
            final(self).i == old(self).i,
            final(self).v == old(self).v,
            final(self).cosmic == old(self).cosmic,
    {
        let s = self.rand_state;
        let r = (s % 256) as u8;
        let a = s ^ (s << 13u64);
        let b = a ^ (a >> 7u64);
        self.rand_state = b ^ (b << 17u64);
        r
    }
}

/// Result of the `8xyn` family on `vx`, `vy`: the new `v[x]` and, where the
/// operation defines one, the new register 15.
pub fn alu(n: u8, vx: u8, vy: u8, cosmic: bool) -> (r: Option<(u8, Option<u8>)>)
    ensures
        r == alu_spec(n, vx, vy, cosmic),
{
    if n == 0 { Some((vy, None)) }
    else if n == 1 { Some((vx | vy, None)) }
    else if n == 2 { Some((vx & vy, None)) }
    else if n == 3 { Some((vx ^ vy, None)) }
    else if n == 4 {
        let s: u16 = vx as u16 + vy as u16;
        Some(((s % 256) as u8, Some(if s > 255 { 1u8 } else { 0u8 })))
    } else if n == 5 {
        let d: u16 = (vx as u16 + 256 - vy as u16) % 256;
        Some((d as u8, Some(if vx >= vy { 1u8 } else { 0u8 })))
    } else if n == 7 {
        let d: u16 = (vy as u16 + 256 - vx as u16) % 256;
        Some((d as u8, Some(if vy >= vx { 1u8 } else { 0u8 })))
    } else if n == 6 {
        let s: u8 = if cosmic { vy } else { vx };
        Some((s / 2, Some(s % 2)))
    } else if n == 14 {
        let s: u8 = if cosmic { vy } else { vx };
        Some((((s as u16 * 2) % 256) as u8, Some(s / 128)))
    } else { None }
}

/// Decimal digits of `b`: hundreds, tens, ones.
pub fn bcd(b: u8) -> (r: [u8; 3])
    ensures
        r@ == bcd_spec(b),
{
    let r = [b / 100, (b / 10) % 10, b % 10];
    proof {
        assert(r@ =~= bcd_spec(b));
    }
    r
}

/// Address of the built-in glyph for the low nibble of `b`.
pub fn glyph_address(b: u8) -> (r: u16)
    ensures
        r == glyph_addr(b),
        r as int == (b % 16) as int * 5 + FONT_START as int,
{
    (b % 16) as u16 * 5 + FONT_START as u16
}

/// Index of the lowest key that is set, if any.
pub fn first_key(keys: &[bool; 16]) -> (r: Option<u8>)
    ensures
        match r {
            Some(k) => k < 16 && keys@[k as int] && forall|j: int| 0 <= j < k ==> !keys@[j],
            None => forall|j: int| 0 <= j < 16 ==> !keys@[j],
        },
{
    let mut k: usize = 0;
    while k < 16
        invariant
            k <= 16,
            keys@.len() == 16,
            forall|j: int| 0 <= j < k ==> !keys@[j],
        decreases 16 - k,
    {
        if keys[k] {
            return Some(k as u8);
        }
        k = k + 1;
    }
    None
}


/// XOR-draws the `n`-row sprite at `memory[i..]` with its top left corner at
/// column `vx % WIDTH`, row `vy % HEIGHT`, clipping at the right and bottom
/// edges; returns whether some cell that was on went off.
pub fn draw_sprite(memory: &Vec<u8>, i: usize, screen: &mut Vec<u32>, vx: u8, vy: u8, n: u8) -> (collided: bool)
    requires
        old(screen)@.len() == WIDTH * HEIGHT,
        i + rows_drawn(vy, n) <= memory@.len(),
        memory@.len() <= MEMORY_SIZE,
    ensures
        final(screen)@ == drawn(old(screen)@, memory@, i as int, vx, vy, n),
        collided == collides(old(screen)@, memory@, i as int, vx, vy, n),
        screen_valid(old(screen)@) ==> screen_valid(final(screen)@),
{
    let x0: usize = vx as usize % WIDTH;
    let y0: usize = vy as usize % HEIGHT;
    let ghost m = memory@;
    let ghost s0 = old(screen)@;
    let ghost nn = n as int;
    let mut collided = false;
    let mut row: usize = 0;
    while row < n as usize
        invariant
            x0 == vx as int % WIDTH as int,
            y0 == vy as int % HEIGHT as int,
            x0 < WIDTH,
            y0 < HEIGHT,
            i + rows_drawn(vy, n) <= memory@.len(),
            memory@.len() <= MEMORY_SIZE,
            m == memory@,
            nn == n,
            row <= n,
            s0.len() == WIDTH * HEIGHT,
            screen@.len() == WIDTH * HEIGHT,
            forall|k: int| 0 <= k < WIDTH * HEIGHT ==> screen@[k] == if hit_upto(m, i as int, x0 as int, y0 as int, nn, k, row as int, 0) { s0[k] ^ PIXEL_ON } else { s0[k] },
            collided == exists|k: int| 0 <= k < WIDTH * HEIGHT && hit_upto(m, i as int, x0 as int, y0 as int, nn, k, row as int, 0) && s0[k] == PIXEL_ON,
        ensures
            screen@.len() == WIDTH * HEIGHT,
            forall|k: int| 0 <= k < WIDTH * HEIGHT ==> screen@[k] == if hit_upto(m, i as int, x0 as int, y0 as int, nn, k, nn, 0) { s0[k] ^ PIXEL_ON } else { s0[k] },
            collided == exists|k: int| 0 <= k < WIDTH * HEIGHT && hit_upto(m, i as int, x0 as int, y0 as int, nn, k, nn, 0) && s0[k] == PIXEL_ON,
        decreases n - row,
    {
        if y0 + row >= HEIGHT {
            proof {
                assert forall|k: int| 0 <= k < WIDTH * HEIGHT implies
                    hit_upto(m, i as int, x0 as int, y0 as int, nn, k, nn, 0) == hit_upto(m, i as int, x0 as int, y0 as int, nn, k, row as int, 0) by {
                    assert((k / (WIDTH as int)) < (HEIGHT as int));
                }
            }
            break;
        }
        let byte: u8 = memory[i + row];
        let mut col: usize = 0;
        while col < 8
            invariant
                x0 == vx as int % WIDTH as int,
                y0 == vy as int % HEIGHT as int,
                x0 < WIDTH,
                y0 + row < HEIGHT,
                row < n,
                i + row < memory@.len(),
                m == memory@,
                nn == n,
                col <= 8,
                byte == m[i + row],
                s0.len() == WIDTH * HEIGHT,
                screen@.len() == WIDTH * HEIGHT,
                forall|k: int| 0 <= k < WIDTH * HEIGHT ==> screen@[k] == if hit_upto(m, i as int, x0 as int, y0 as int, nn, k, row as int, col as int) { s0[k] ^ PIXEL_ON } else { s0[k] },
                collided == exists|k: int| 0 <= k < WIDTH * HEIGHT && hit_upto(m, i as int, x0 as int, y0 as int, nn, k, row as int, col as int) && s0[k] == PIXEL_ON,
            ensures
                col == 8 || x0 + col >= WIDTH,
                screen@.len() == WIDTH * HEIGHT,
                forall|k: int| 0 <= k < WIDTH * HEIGHT ==> screen@[k] == if hit_upto(m, i as int, x0 as int, y0 as int, nn, k, row as int, col as int) { s0[k] ^ PIXEL_ON } else { s0[k] },
                collided == exists|k: int| 0 <= k < WIDTH * HEIGHT && hit_upto(m, i as int, x0 as int, y0 as int, nn, k, row as int, col as int) && s0[k] == PIXEL_ON,
            decreases 8 - col,
        {
            if x0 + col >= WIDTH {
                proof {
                    assert forall|k: int| 0 <= k < WIDTH * HEIGHT implies
                        hit_upto(m, i as int, x0 as int, y0 as int, nn, k, row + 1, 0) == hit_upto(m, i as int, x0 as int, y0 as int, nn, k, row as int, col as int) by {
                        assert((k % (WIDTH as int)) < (WIDTH as int));
                    }
                }
                break;
            }
            let index: usize = (y0 + row) * WIDTH + x0 + col;
            proof {
                assert(index as int / WIDTH as int == y0 + row && index as int % WIDTH as int == x0 + col) by (nonlinear_arith)
                    requires index == (y0 + row) * WIDTH + x0 + col, x0 + col < WIDTH, WIDTH == 64;
                assert(index < WIDTH * HEIGHT) by (nonlinear_arith)
                    requires index == (y0 + row) * WIDTH + x0 + col, x0 + col < WIDTH, y0 + row < HEIGHT,
                        WIDTH == 64, HEIGHT == 32;
                assert forall|k: int| 0 <= k < WIDTH * HEIGHT && k != index implies
                    hit_upto(m, i as int, x0 as int, y0 as int, nn, k, row as int, col + 1) == hit_upto(m, i as int, x0 as int, y0 as int, nn, k, row as int, col as int) by {
                    if k / WIDTH as int == y0 + row && k % WIDTH as int == x0 + col {
                        assert(k == (k / WIDTH as int) * WIDTH as int + k % WIDTH as int);
                    }
                }
            }
            let ghost before = screen@;
            let ghost was = collided;
            let bit: u8 = byte & (0x80u8 >> (col as u8));
            if bit != 0 {
                let cell = screen[index];
                if cell == PIXEL_ON {
                    collided = true;
                }
                screen.set(index, cell ^ PIXEL_ON);
            }
            proof {
                assert(hit_upto(m, i as int, x0 as int, y0 as int, nn, index as int, row as int, col + 1) == (bit != 0));
                assert(!hit_upto(m, i as int, x0 as int, y0 as int, nn, index as int, row as int, col as int));
                if bit != 0 && s0[index as int] == PIXEL_ON {
                    assert(hit_upto(m, i as int, x0 as int, y0 as int, nn, index as int, row as int, col + 1));
                }
                if was {
                    let k = choose|k: int| 0 <= k < WIDTH * HEIGHT && hit_upto(m, i as int, x0 as int, y0 as int, nn, k, row as int, col as int) && s0[k] == PIXEL_ON;
                    assert(hit_upto(m, i as int, x0 as int, y0 as int, nn, k, row as int, col + 1));
                }
            }
            col = col + 1;
        }
        proof {
            assert forall|k: int| 0 <= k < WIDTH * HEIGHT implies
                hit_upto(m, i as int, x0 as int, y0 as int, nn, k, row + 1, 0) == hit_upto(m, i as int, x0 as int, y0 as int, nn, k, row as int, col as int) by {
                assert((k % (WIDTH as int)) < (WIDTH as int));
            }
        }
        row = row + 1;
    }
    proof {
        assert(screen@ =~= drawn(s0, m, i as int, vx, vy, n));
        assert(forall|a: u32| (a == 0u32 || a == 0xFFFF_FFFFu32) ==> ((a ^ 0xFFFF_FFFFu32) == 0u32 || (a ^ 0xFFFF_FFFFu32) == 0xFFFF_FFFFu32)) by (bit_vector);
    }
    collided
}

} // verus!
