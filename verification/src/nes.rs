//! The NES emulator app's own logic: reading an iNES ROM image, the
//! cartridge banks handed to the emulator core, the controller report,
//! the palette and the frame pacing.

use vstd::prelude::*;

use crate::video::Rgb565Pixel;

verus! {

pub const NES_WIDTH: u16 = 256;

pub const NES_HEIGHT: u16 = 240;

/// Frame interval of the emulated console, in microseconds.
pub const FRAME_INTERVAL_US: u64 = 16_667;

/// Only every second emulated frame is presented to the display.
pub const DISPLAY_FRAME_DIVISOR: u32 = 2;

/// Frame statistics are reported every this many frames.
pub const STATS_FRAME_INTERVAL: u32 = 300;

pub const SRAM_SIZE: usize = 0x2000;

pub const CHR_BANK_SIZE: usize = 0x2000;

pub const PRG_BANK_SIZE: usize = 0x4000;

pub const HEADER_LEN: usize = 16;

pub const TRAINER_LEN: usize = 512;

/// Why a ROM image was refused.
#[derive(Clone, Copy, Debug, PartialEq, Eq, Structural)]
pub enum RomError {
    /// Shorter than the 16-byte header.
    MissingHeader,
    /// The header does not start with `NES` and 0x1a.
    InvalidMagic,
    /// An NES 2.0 header, which is not supported.
    Nes2,
    /// The header announces no program ROM.
    MissingPrg,
    /// The image is shorter than its header announces.
    Truncated,
}

/// Nametable mirroring of a cartridge.
#[derive(Clone, Copy, Debug, PartialEq, Eq, Structural)]
pub enum Mirroring {
    Horizontal,
    Vertical,
    Single0,
    Single1,
    Four,
}

// ── the iNES header ──────────────────────────────────────────────────────

/// Whether `data` starts with the iNES magic `NES` 0x1a.
pub open spec fn has_magic(data: Seq<u8>) -> bool {
    data[0] == 0x4e && data[1] == 0x45 && data[2] == 0x53 && data[3] == 0x1a
}

/// Where program ROM starts: after the header and the optional trainer.
pub open spec fn prg_start(data: Seq<u8>) -> int {
    16 + if data[6] & 0x04 != 0 { 512int } else { 0int }
}

pub open spec fn prg_len(data: Seq<u8>) -> int {
    (data[4] as int) * 0x4000
}

pub open spec fn chr_len(data: Seq<u8>) -> int {
    (data[5] as int) * 0x2000
}

/// Where character ROM starts, right after program ROM.
pub open spec fn chr_start(data: Seq<u8>) -> int {
    prg_start(data) + prg_len(data)
}

/// Where the image announced by the header ends.
pub open spec fn rom_end(data: Seq<u8>) -> int {
    chr_start(data) + chr_len(data)
}

/// What is wrong with a ROM image, checked in this order, if anything.
pub open spec fn rom_error(data: Seq<u8>) -> Option<RomError> {
    if data.len() < 16 {
        Some(RomError::MissingHeader)
    } else if !has_magic(data) {
        Some(RomError::InvalidMagic)
    } else if data[7] & 0x0c == 0x08 {
        Some(RomError::Nes2)
    } else if data[4] == 0 {
        Some(RomError::MissingPrg)
    } else if data.len() < rom_end(data) {
        Some(RomError::Truncated)
    } else {
        None
    }
}

/// The mirroring announced by header byte 6.
pub open spec fn rom_mirroring(flags6: u8) -> Mirroring {
    if flags6 & 0x08 != 0 {
        Mirroring::Four
    } else if flags6 & 0x01 != 0 {
        Mirroring::Vertical
    } else {
        Mirroring::Horizontal
    }
}

/// The mapper number: high nibble from byte 7, low nibble from byte 6.
pub open spec fn rom_mapper(flags6: u8, flags7: u8) -> u8 {
    (flags7 & 0xf0) | (flags6 >> 4u8)
}

/// The cartridge boards the emulator core runs.
#[derive(Clone, Copy, Debug, PartialEq, Eq, Structural)]
pub enum MapperKind {
    /// MMC1.
    Mmc1,
    /// UxROM, which also serves NROM (mapper 0).
    UxRom,
    /// MMC3.
    Mmc3,
}

/// The board for mapper number `mapper`: UxROM for 0 and 2, MMC1 for 1,
/// MMC3 for 4, none for any other.
pub fn mapper_kind(mapper: u8) -> (kind: Option<MapperKind>)
    ensures
        kind == (if mapper == 0 || mapper == 2 {
            Some(MapperKind::UxRom)
        } else if mapper == 1 {
            Some(MapperKind::Mmc1)
        } else if mapper == 4 {
            Some(MapperKind::Mmc3)
        } else {
            None
        }),
{
    if mapper == 0 || mapper == 2 {
        Some(MapperKind::UxRom)
    } else if mapper == 1 {
        Some(MapperKind::Mmc1)
    } else if mapper == 4 {
        Some(MapperKind::Mmc3)
    } else {
        None
    }
}

/// The character ROM handed to the emulator: the image's, or one bank of
/// zeroed character RAM when the image has none.
pub open spec fn rom_chr(data: Seq<u8>) -> Seq<u8> {
    if chr_len(data) == 0 {
        Seq::new(0x2000, |i: int| 0u8)
    } else {
        data.subrange(chr_start(data), rom_end(data))
    }
}

/// A ROM image split into what the emulator core needs.
pub struct ParsedRom<'a> {
    pub prg_rom: &'a [u8],
    pub chr_rom: Vec<u8>,
    pub mirror: Mirroring,
    pub mapper: u8,
}

impl<'a> ParsedRom<'a> {
    /// Reads an iNES image: checks the header and splits off program and
    /// character ROM.
    pub fn parse(data: &'a [u8]) -> (result: Result<ParsedRom<'a>, RomError>)
        ensures
            match rom_error(data@) {
                Some(error) => result == Err::<ParsedRom<'a>, RomError>(error),
                None => result matches Ok(rom) && {
                    &&& rom.prg_rom@ == data@.subrange(prg_start(data@), chr_start(data@))
                    &&& rom.chr_rom@ == rom_chr(data@)
                    &&& rom.mirror == rom_mirroring(data@[6])
                    &&& rom.mapper == rom_mapper(data@[6], data@[7])
                },
            },
    {
        if data.len() < HEADER_LEN {
            return Err(RomError::MissingHeader);
        }
        if !(data[0] == 0x4e && data[1] == 0x45 && data[2] == 0x53 && data[3] == 0x1a) {
            return Err(RomError::InvalidMagic);
        }
        if data[7] & 0x0c == 0x08 {
            return Err(RomError::Nes2);
        }
        let prg_len = (data[4] as usize) * PRG_BANK_SIZE;
        if prg_len == 0 {
            return Err(RomError::MissingPrg);
        }
        let chr_len = (data[5] as usize) * CHR_BANK_SIZE;
        let trainer_len: usize = if data[6] & 0x04 != 0 {
            TRAINER_LEN
        } else {
            0
        };
        let prg_start = HEADER_LEN + trainer_len;
        let chr_start = prg_start + prg_len;
        let rom_end = chr_start + chr_len;
        if data.len() < rom_end {
            return Err(RomError::Truncated);
        }
        let flags6 = data[6];
        let flags7 = data[7];
        let mirror = if flags6 & 0x08 != 0 {
            Mirroring::Four
        } else if flags6 & 0x01 != 0 {
            Mirroring::Vertical
        } else {
            Mirroring::Horizontal
        };
        let mapper = (flags7 & 0xf0) | (flags6 >> 4u8);
        let chr_rom = if chr_len == 0 {
            zeroed(CHR_BANK_SIZE)
        } else {
            vstd::slice::slice_to_vec(vstd::slice::slice_subrange(data, chr_start, rom_end))
        };
        Ok(ParsedRom { prg_rom: vstd::slice::slice_subrange(data, prg_start, chr_start), chr_rom, mirror, mapper })
    }
}

/// `len` zero bytes.
fn zeroed(len: usize) -> (bytes: Vec<u8>)
    ensures
        bytes@ == Seq::new(len as nat, |i: int| 0u8),
{
    let mut bytes: Vec<u8> = Vec::new();
    let mut i: usize = 0;
    while i < len
        invariant
            i <= len,
            bytes@ == Seq::new(i as nat, |j: int| 0u8),
        decreases len - i,
    {
        bytes.push(0);
        i = i + 1;
        proof {
            assert(bytes@ =~= Seq::new(i as nat, |j: int| 0u8));
        }
    }
    bytes
}

// ── the cartridge ────────────────────────────────────────────────────────

/// The three memories of a cartridge.
#[derive(Clone, Copy, Debug, PartialEq, Eq, Structural)]
pub enum BankKind {
    PrgRom,
    ChrRom,
    Sram,
}

/// Where a bank request ends: `size` bytes from `base`, or the end of the
/// memory when `size` is zero.
pub open spec fn bank_end(len: int, base: int, size: int) -> int {
    if size == 0 {
        len
    } else {
        base + size
    }
}

/// A cartridge built into the firmware: program ROM borrowed from the
/// image, character ROM (or RAM) and battery RAM of its own.
pub struct EmbeddedCart<'a> {
    pub prg_rom: &'a [u8],
    pub chr_rom: Vec<u8>,
    pub sram: Vec<u8>,
    pub mirror: Mirroring,
}

impl<'a> EmbeddedCart<'a> {
    /// A cartridge with the given ROMs and zeroed battery RAM.
    pub fn new(prg_rom: &'a [u8], chr_rom: Vec<u8>, mirror: Mirroring) -> (cart: Self)
        ensures
            cart.prg_rom@ == prg_rom@,
            cart.chr_rom@ == chr_rom@,
            cart.sram@ == Seq::new(0x2000, |i: int| 0u8),
            cart.mirror == mirror,
    {
        EmbeddedCart { prg_rom, chr_rom, sram: zeroed(SRAM_SIZE), mirror }
    }

    pub open spec fn memory(&self, kind: BankKind) -> Seq<u8> {
        match kind {
            BankKind::PrgRom => self.prg_rom@,
            BankKind::ChrRom => self.chr_rom@,
            BankKind::Sram => self.sram@,
        }
    }

    /// The size of one memory.
    pub fn get_size(&self, kind: BankKind) -> (size: usize)
        ensures
            size == self.memory(kind).len(),
    {
        match kind {
            BankKind::PrgRom => self.prg_rom.len(),
            BankKind::ChrRom => self.chr_rom.len(),
            BankKind::Sram => self.sram.len(),
        }
    }

    /// `size` bytes of one memory from `base`, or the rest of it from `base`
    /// when `size` is zero.
    pub fn get_bank(&self, base: usize, size: usize, kind: BankKind) -> (bank: &[u8])
        requires
            base <= bank_end(self.memory(kind).len() as int, base as int, size as int) <= self.memory(
                kind,
            ).len(),
        ensures
            bank@ == self.memory(kind).subrange(
                base as int,
                bank_end(self.memory(kind).len() as int, base as int, size as int),
            ),
    {
        let memory: &[u8] = match kind {
            BankKind::PrgRom => self.prg_rom,
            BankKind::ChrRom => self.chr_rom.as_slice(),
            BankKind::Sram => self.sram.as_slice(),
        };
        let len = self.get_size(kind);
        let end = if size == 0 {
            len
        } else {
            base + size
        };
        vstd::slice::slice_subrange(memory, base, end)
    }

    /// Where a bank request for a writable memory ends; program ROM is
    /// never written.
    pub fn bank_end_mut(&self, base: usize, size: usize, kind: BankKind) -> (end: usize)
        requires
            kind != BankKind::PrgRom,
            base <= bank_end(self.memory(kind).len() as int, base as int, size as int) <= self.memory(
                kind,
            ).len(),
        ensures
            end == bank_end(self.memory(kind).len() as int, base as int, size as int),
    {
        let len = self.get_size(kind);
        if size == 0 {
            len
        } else {
            base + size
        }
    }

    pub fn get_mirror_type(&self) -> (mirror: Mirroring)
        ensures
            mirror == self.mirror,
    {
        self.mirror
    }

    pub fn set_mirror_type(&mut self, mirror: Mirroring)
        ensures
            final(self).mirror == mirror,
            final(self).prg_rom == old(self).prg_rom,
            final(self).chr_rom@ == old(self).chr_rom@,
            final(self).sram@ == old(self).sram@,
    {
        self.mirror = mirror;
    }
}

// ── the controller ───────────────────────────────────────────────────────

/// Report bits of the standard NES controller.
pub const PAD_A: u8 = 1;

pub const PAD_B: u8 = 2;

pub const PAD_SELECT: u8 = 4;

pub const PAD_START: u8 = 8;

pub const PAD_UP: u8 = 16;

pub const PAD_DOWN: u8 = 32;

pub const PAD_LEFT: u8 = 64;

pub const PAD_RIGHT: u8 = 128;

/// Which of the eight buttons are held. Select is on button X and start
/// on button Y.
#[derive(Clone, Copy, Debug, PartialEq, Eq, Structural)]
pub struct NesInput {
    pub up: bool,
    pub down: bool,
    pub left: bool,
    pub right: bool,
    pub a: bool,
    pub b: bool,
    pub select: bool,
    pub start: bool,
}

pub open spec fn bit(held: bool, mask: u8) -> u8 {
    if held {
        mask
    } else {
        0
    }
}

impl NesInput {
    /// The controller report: one bit per held button.
    pub open spec fn report(&self) -> u8 {
        bit(self.a, PAD_A) | bit(self.b, PAD_B) | bit(self.select, PAD_SELECT) | bit(self.start, PAD_START)
            | bit(self.up, PAD_UP) | bit(self.down, PAD_DOWN) | bit(self.left, PAD_LEFT) | bit(
            self.right,
            PAD_RIGHT,
        )
    }

    /// The controller report for the held buttons.
    pub fn poll(&self) -> (state: u8)
        ensures
            state == self.report(),
    {
        let a = if self.a { PAD_A } else { 0 };
        let b = if self.b { PAD_B } else { 0 };
        let select = if self.select { PAD_SELECT } else { 0 };
        let start = if self.start { PAD_START } else { 0 };
        let up = if self.up { PAD_UP } else { 0 };
        let down = if self.down { PAD_DOWN } else { 0 };
        let left = if self.left { PAD_LEFT } else { 0 };
        let right = if self.right { PAD_RIGHT } else { 0 };
        a | b | select | start | up | down | left | right
    }

    /// Holding up and down together leaves the emulator.
    pub fn exit_pressed(&self) -> (exit: bool)
        ensures
            exit == (self.up && self.down),
    {
        self.up && self.down
    }
}

/// Each held button sets its own bit of the report and no other: the
/// report tells exactly which buttons are held.
pub proof fn lemma_report_bits(input: NesInput)
    ensures
        (input.report() & PAD_A != 0) == input.a,
        (input.report() & PAD_B != 0) == input.b,
        (input.report() & PAD_SELECT != 0) == input.select,
        (input.report() & PAD_START != 0) == input.start,
        (input.report() & PAD_UP != 0) == input.up,
        (input.report() & PAD_DOWN != 0) == input.down,
        (input.report() & PAD_LEFT != 0) == input.left,
        (input.report() & PAD_RIGHT != 0) == input.right,
{
    let a = bit(input.a, 1);
    let b = bit(input.b, 2);
    let s = bit(input.select, 4);
    let t = bit(input.start, 8);
    let u = bit(input.up, 16);
    let d = bit(input.down, 32);
    let l = bit(input.left, 64);
    let r = bit(input.right, 128);
    assert(a == 0 || a == 1);
    assert(b == 0 || b == 2);
    assert(s == 0 || s == 4);
    assert(t == 0 || t == 8);
    assert(u == 0 || u == 16);
    assert(d == 0 || d == 32);
    assert(l == 0 || l == 64);
    assert(r == 0 || r == 128);
    assert({
        let m = a | b | s | t | u | d | l | r;
        &&& (m & 1 != 0) == (a == 1)
        &&& (m & 2 != 0) == (b == 2)
        &&& (m & 4 != 0) == (s == 4)
        &&& (m & 8 != 0) == (t == 8)
        &&& (m & 16 != 0) == (u == 16)
        &&& (m & 32 != 0) == (d == 32)
        &&& (m & 64 != 0) == (l == 64)
        &&& (m & 128 != 0) == (r == 128)
    }) by (bit_vector)
        requires
            a == 0 || a == 1,
            b == 0 || b == 2,
            s == 0 || s == 4,
            t == 0 || t == 8,
            u == 0 || u == 16,
            d == 0 || d == 32,
            l == 0 || l == 64,
            r == 0 || r == 128,
    ;
}

// ── palette ──────────────────────────────────────────────────────────────

/// A 24-bit `0xRRGGBB` colour reduced to RGB565.
pub open spec fn rgb565(color: u32) -> u16 {
    ((((color >> 19u32) & 0x1f) << 11u32) | (((color >> 10u32) & 0x3f) << 5u32) | ((color >> 3u32)
        & 0x1f)) as u16
}

/// Converts a 24-bit `0xRRGGBB` colour to RGB565 by keeping the top five,
/// six and five bits of red, green and blue.
pub fn rgb565_pixel(color: u32) -> (pixel: Rgb565Pixel)
    ensures
        pixel == Rgb565Pixel(rgb565(color)),
{
    Rgb565Pixel(((((color >> 19u32) & 0x1f) << 11u32) | (((color >> 10u32) & 0x3f) << 5u32) | ((
    color >> 3u32) & 0x1f)) as u16)
}

/// Converts each colour of a palette to RGB565.
pub fn rgb565_palette(colors: &[u32]) -> (palette: Vec<Rgb565Pixel>)
    ensures
        palette@.len() == colors@.len(),
        forall|i: int| 0 <= i < colors@.len() ==> #[trigger] palette@[i] == Rgb565Pixel(rgb565(colors@[i])),
{
    let mut palette: Vec<Rgb565Pixel> = Vec::new();
    let mut index: usize = 0;
    while index < colors.len()
        invariant
            index <= colors@.len(),
            palette@.len() == index,
            forall|i: int| 0 <= i < index ==> #[trigger] palette@[i] == Rgb565Pixel(rgb565(colors@[i])),
        decreases colors@.len() - index,
    {
        palette.push(rgb565_pixel(colors[index]));
        index = index + 1;
    }
    palette
}

/// The 64 colours of the NES picture processor, as `0xRRGGBB`.
pub open spec fn nes_rgb_colors() -> Seq<u32> {
    seq![
        0x666666u32, 0x002a88, 0x1412a7, 0x3b00a4, 0x5c007e, 0x6e0040, 0x6c0600, 0x561d00, 0x333500,
        0x0b4800, 0x005200, 0x004f08, 0x00404d, 0x000000, 0x000000, 0x000000, 0xadadad, 0x155fd9,
        0x4240ff, 0x7527fe, 0xa01acc, 0xb71e7b, 0xb53120, 0x994e00, 0x6b6d00, 0x388700, 0x0c9300,
        0x008f32, 0x007c8d, 0x000000, 0x000000, 0x000000, 0xfffeff, 0x64b0ff, 0x9290ff, 0xc676ff,
        0xf36aff, 0xfe6ecc, 0xfe8170, 0xea9e22, 0xbcbe00, 0x88d800, 0x5ce430, 0x45e082, 0x48cdde,
        0x4f4f4f, 0x000000, 0x000000, 0xfffeff, 0xc0dfff, 0xd3d2ff, 0xe8c8ff, 0xfbc2ff, 0xfec4ea,
        0xfeccc5, 0xf7d8a5, 0xe4e594, 0xcfef96, 0xbdf4ab, 0xb3f3cc, 0xb5ebf2, 0xb8b8b8, 0x000000,
        0x000000,
    ]
}

/// The NES palette in RGB565.
pub fn nes_palette() -> (palette: Vec<Rgb565Pixel>)
    ensures
        palette@.len() == 64,
        forall|i: int| 0 <= i < 64 ==> #[trigger] palette@[i] == Rgb565Pixel(rgb565(nes_rgb_colors()[i])),
{
    let colors: Vec<u32> = vec![
        0x666666u32, 0x002a88, 0x1412a7, 0x3b00a4, 0x5c007e, 0x6e0040, 0x6c0600, 0x561d00, 0x333500,
        0x0b4800, 0x005200, 0x004f08, 0x00404d, 0x000000, 0x000000, 0x000000, 0xadadad, 0x155fd9,
        0x4240ff, 0x7527fe, 0xa01acc, 0xb71e7b, 0xb53120, 0x994e00, 0x6b6d00, 0x388700, 0x0c9300,
        0x008f32, 0x007c8d, 0x000000, 0x000000, 0x000000, 0xfffeff, 0x64b0ff, 0x9290ff, 0xc676ff,
        0xf36aff, 0xfe6ecc, 0xfe8170, 0xea9e22, 0xbcbe00, 0x88d800, 0x5ce430, 0x45e082, 0x48cdde,
        0x4f4f4f, 0x000000, 0x000000, 0xfffeff, 0xc0dfff, 0xd3d2ff, 0xe8c8ff, 0xfbc2ff, 0xfec4ea,
        0xfeccc5, 0xf7d8a5, 0xe4e594, 0xcfef96, 0xbdf4ab, 0xb3f3cc, 0xb5ebf2, 0xb8b8b8, 0x000000,
        0x000000,
    ];
    proof {
        assert(colors@ =~= nes_rgb_colors());
    }
    rgb565_palette(colors.as_slice())
}

/// The palette entry for a picture-processor colour: only its low six bits
/// count.
pub fn palette_index(color: u8) -> (index: usize)
    ensures
        index == (color & 0x3f) as int,
        index < 64,
{
    proof {
        assert(color & 0x3f < 64) by (bit_vector);
    }
    (color & 0x3f) as usize
}

// ── frame pacing ─────────────────────────────────────────────────────────

/// Counts emulated frames; every second one is presented.
pub struct FrameCounter {
    pub frame_number: u32,
}

impl FrameCounter {
    pub fn new() -> (counter: Self)
        ensures
            counter.frame_number == 0,
    {
        FrameCounter { frame_number: 0 }
    }

    /// Counts a finished frame (wrapping) and says whether to present it.
    pub fn frame(&mut self) -> (present: bool)
        ensures
            final(self).frame_number == old(self).frame_number.wrapping_add(1),
            present == (final(self).frame_number % DISPLAY_FRAME_DIVISOR == 0),
    {
        self.frame_number = self.frame_number.wrapping_add(1);
        self.frame_number % DISPLAY_FRAME_DIVISOR == 0
    }
}

/// Counts frames between statistics reports.
pub struct StatsCounter {
    pub frames: u32,
}

impl StatsCounter {
    pub fn new() -> (counter: Self)
        ensures
            counter.frames == 0,
    {
        StatsCounter { frames: 0 }
    }

    pub open spec fn wf(&self) -> bool {
        self.frames < STATS_FRAME_INTERVAL
    }

    /// Counts a frame; after every 300th it says to report and starts over.
    pub fn count_frame(&mut self) -> (report: bool)
        requires
            old(self).wf(),
        ensures
            final(self).wf(),
            report == (old(self).frames + 1 == STATS_FRAME_INTERVAL),
            final(self).frames == if report {
                0
            } else {
                old(self).frames + 1
            },
    {
        self.frames = self.frames + 1;
        if self.frames == STATS_FRAME_INTERVAL {
            self.frames = 0;
            true
        } else {
            false
        }
    }
}

} // verus!
