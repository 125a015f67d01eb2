use vstd::prelude::*;
use crate::{FONT_START, MEMORY_SIZE, PROGRAM_START};

verus! {

/// Largest program image: the address space above the program start.
pub const MAX_PROGRAM: usize = 3584;

/// The built-in glyphs for the hexadecimal digits 0 to F, five rows each,
/// four pixels wide in the high nibble.
pub open spec fn font_spec() -> Seq<u8> {
    seq![
        0xF0, 0x90, 0x90, 0x90, 0xF0, 0x20, 0x60, 0x20, 0x20, 0x70,
        0xF0, 0x10, 0xF0, 0x80, 0xF0, 0xF0, 0x10, 0xF0, 0x10, 0xF0,
        0x90, 0x90, 0xF0, 0x10, 0x10, 0xF0, 0x80, 0xF0, 0x10, 0xF0,
        0xF0, 0x80, 0xF0, 0x90, 0xF0, 0xF0, 0x10, 0x20, 0x40, 0x40,
        0xF0, 0x90, 0xF0, 0x90, 0xF0, 0xF0, 0x90, 0xF0, 0x10, 0xF0,
        0xF0, 0x90, 0xF0, 0x90, 0x90, 0xE0, 0x90, 0xE0, 0x90, 0xE0,
        0xF0, 0x80, 0x80, 0x80, 0xF0, 0xE0, 0x90, 0x90, 0x90, 0xE0,
        0xF0, 0x80, 0xF0, 0x80, 0xF0, 0xF0, 0x80, 0xF0, 0x80, 0x80,
    ]
}

/// The address space at power-on: the glyph table at `FONT_START`, the
/// program at `PROGRAM_START`, zero elsewhere.
pub open spec fn memory_image(rom: Seq<u8>) -> Seq<u8> {
    Seq::new(MEMORY_SIZE as nat, |k: int|
        if FONT_START <= k < FONT_START + 80 {
            font_spec()[k - FONT_START]
        } else if PROGRAM_START <= k < PROGRAM_START + rom.len() {
            rom[k - PROGRAM_START]
        } else {
            0u8
        })
}

/// The glyph table.
pub fn font() -> (r: Vec<u8>)
    ensures
        r@ == font_spec(),
{
    let r: Vec<u8> = vec![
        0xF0, 0x90, 0x90, 0x90, 0xF0, 0x20, 0x60, 0x20, 0x20, 0x70,
        0xF0, 0x10, 0xF0, 0x80, 0xF0, 0xF0, 0x10, 0xF0, 0x10, 0xF0,
        0x90, 0x90, 0xF0, 0x10, 0x10, 0xF0, 0x80, 0xF0, 0x10, 0xF0,
        0xF0, 0x80, 0xF0, 0x90, 0xF0, 0xF0, 0x10, 0x20, 0x40, 0x40,
        0xF0, 0x90, 0xF0, 0x90, 0xF0, 0xF0, 0x90, 0xF0, 0x10, 0xF0,
        0xF0, 0x90, 0xF0, 0x90, 0x90, 0xE0, 0x90, 0xE0, 0x90, 0xE0,
        0xF0, 0x80, 0x80, 0x80, 0xF0, 0xE0, 0x90, 0x90, 0x90, 0xE0,
        0xF0, 0x80, 0xF0, 0x80, 0xF0, 0xF0, 0x80, 0xF0, 0x80, 0x80,
    ];
    proof {
        assert(r@ =~= font_spec());
    }
    r
}

/// The address space at power-on for the program image `rom`.
pub fn initial_memory(rom: &Vec<u8>) -> (r: Vec<u8>)
    requires
        rom@.len() <= MAX_PROGRAM,
    ensures
        r@ == memory_image(rom@),
{
    let glyphs = font();
    let mut m: Vec<u8> = vec![0u8; MEMORY_SIZE];
    let mut k: usize = 0;
    while k < 80
        invariant
            k <= 80,
            glyphs@ == font_spec(),
            m@.len() == MEMORY_SIZE,
            forall|j: int| 0 <= j < MEMORY_SIZE ==> m@[j] == if FONT_START <= j < FONT_START + k { font_spec()[j - FONT_START] } else { 0u8 },
        decreases 80 - k,
    {
        m.set(FONT_START + k, glyphs[k]);
        k = k + 1;
    }
    let mut p: usize = 0;
    while p < rom.len()
        invariant
            p <= rom@.len(),
            rom@.len() <= MAX_PROGRAM,
            m@.len() == MEMORY_SIZE,
            forall|j: int| 0 <= j < MEMORY_SIZE ==> m@[j] == if FONT_START <= j < FONT_START + 80 {
                font_spec()[j - FONT_START]
            } else if PROGRAM_START <= j < PROGRAM_START + p {
                rom@[j - PROGRAM_START]
            } else {
                0u8
            },
        decreases rom@.len() - p,
    {
        m.set(PROGRAM_START + p, rom[p]);
        p = p + 1;
    }
    proof {
        assert(m@ =~= memory_image(rom@));
    }
    m
}

} // verus!
