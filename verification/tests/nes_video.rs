use xpanse::nes::{
    mapper_kind, MapperKind, nes_palette, palette_index, rgb565_palette, rgb565_pixel, BankKind, EmbeddedCart, FrameCounter, Mirroring,
    NesInput, ParsedRom, RomError, StatsCounter, PAD_A, PAD_DOWN, PAD_RIGHT, PAD_START, PAD_UP,
};
use xpanse::video::{rgb565_frame_buffer, FrameBufferError, Rgb565Pixel};

fn rom(prg_banks: u8, chr_banks: u8, flags6: u8, flags7: u8, trainer: bool) -> Vec<u8> {
    let mut data = vec![0x4e, 0x45, 0x53, 0x1a, prg_banks, chr_banks, flags6 | if trainer { 4 } else { 0 }, flags7];
    data.extend_from_slice(&[0; 8]);
    if trainer {
        data.extend(std::iter::repeat(0xee).take(512));
    }
    for i in 0..(prg_banks as usize * 0x4000) {
        data.push((i % 251) as u8);
    }
    for i in 0..(chr_banks as usize * 0x2000) {
        data.push((i % 13) as u8 + 100);
    }
    data
}

#[test]
fn parses_a_valid_rom() {
    let data = rom(2, 1, 0x11, 0x40, false);
    let parsed = ParsedRom::parse(&data).unwrap();
    assert_eq!(parsed.prg_rom.len(), 0x8000);
    assert_eq!(parsed.prg_rom[0], 0);
    assert_eq!(parsed.prg_rom[300], (300 % 251) as u8);
    assert_eq!(parsed.chr_rom.len(), 0x2000);
    assert_eq!(parsed.chr_rom[1], 101);
    assert_eq!(parsed.mirror, Mirroring::Vertical);
    assert_eq!(parsed.mapper, 0x41);
}

#[test]
fn rom_with_trainer_and_no_chr() {
    let data = rom(1, 0, 0x08, 0x00, true);
    let parsed = ParsedRom::parse(&data).unwrap();
    assert_eq!(parsed.prg_rom.len(), 0x4000);
    assert_eq!(parsed.prg_rom[5], 5);
    assert_eq!(parsed.chr_rom, vec![0; 0x2000]);
    assert_eq!(parsed.mirror, Mirroring::Four);
    assert_eq!(parsed.mapper, 0);
}

#[test]
fn rom_errors() {
    assert_eq!(ParsedRom::parse(&[0x4e, 0x45]).err(), Some(RomError::MissingHeader));
    let mut bad = rom(1, 1, 0, 0, false);
    bad[3] = 0;
    assert_eq!(ParsedRom::parse(&bad).err(), Some(RomError::InvalidMagic));
    assert_eq!(ParsedRom::parse(&rom(1, 1, 0, 0x08, false)).err(), Some(RomError::Nes2));
    assert_eq!(ParsedRom::parse(&rom(0, 1, 0, 0, false)).err(), Some(RomError::MissingPrg));
    let mut short = rom(1, 1, 0, 0, false);
    short.pop();
    assert_eq!(ParsedRom::parse(&short).err(), Some(RomError::Truncated));
    let horizontal = rom(1, 1, 0x00, 0, false);
    assert_eq!(ParsedRom::parse(&horizontal).unwrap().mirror, Mirroring::Horizontal);
}

#[test]
fn cartridge_banks() {
    let prg: Vec<u8> = (0..64u8).collect();
    let mut cart = EmbeddedCart::new(&prg, vec![7; 32], Mirroring::Horizontal);
    assert_eq!(cart.get_size(BankKind::PrgRom), 64);
    assert_eq!(cart.get_size(BankKind::ChrRom), 32);
    assert_eq!(cart.get_size(BankKind::Sram), 0x2000);
    assert_eq!(cart.get_bank(16, 4, BankKind::PrgRom), &[16u8, 17, 18, 19][..]);
    assert_eq!(cart.get_bank(60, 0, BankKind::PrgRom), &[60u8, 61, 62, 63][..]);
    assert_eq!(cart.bank_end_mut(100, 0, BankKind::Sram), 0x2000);
    assert_eq!(cart.bank_end_mut(8, 8, BankKind::ChrRom), 16);
    cart.set_mirror_type(Mirroring::Vertical);
    assert_eq!(cart.get_mirror_type(), Mirroring::Vertical);
}

#[test]
fn controller_report() {
    let none = NesInput { up: false, down: false, left: false, right: false, a: false, b: false, select: false, start: false };
    assert_eq!(none.poll(), 0);
    let some = NesInput { up: true, right: true, a: true, start: true, ..none };
    assert_eq!(some.poll(), PAD_UP | PAD_RIGHT | PAD_A | PAD_START);
    assert_eq!(some.poll(), 16 + 128 + 1 + 8);
    assert!(!some.exit_pressed());
    let exit = NesInput { up: true, down: true, ..none };
    assert!(exit.exit_pressed());
    assert_eq!(exit.poll(), PAD_UP | PAD_DOWN);
}

#[test]
fn palette_conversion() {
    assert_eq!(rgb565_pixel(0xffffff), Rgb565Pixel(0xffff));
    assert_eq!(rgb565_pixel(0x000000), Rgb565Pixel(0));
    assert_eq!(rgb565_pixel(0xff0000), Rgb565Pixel(0xf800));
    assert_eq!(rgb565_pixel(0x00ff00), Rgb565Pixel(0x07e0));
    assert_eq!(rgb565_pixel(0x0000ff), Rgb565Pixel(0x001f));
    assert_eq!(rgb565_palette(&[0x666666, 0x002a88]), vec![Rgb565Pixel(0x632c), Rgb565Pixel(0x0151)]);
    let palette = nes_palette();
    assert_eq!(palette.len(), 64);
    assert_eq!(palette[0], Rgb565Pixel(0x632c));
    assert_eq!(palette[32], rgb565_pixel(0xfffeff));
    assert_eq!(palette_index(0x7f), 0x3f);
    assert_eq!(palette_index(0x40), 0);
}

#[test]
fn frame_pacing() {
    let mut frames = FrameCounter::new();
    assert!(!frames.frame());
    assert!(frames.frame());
    assert!(!frames.frame());
    let mut wrapping = FrameCounter { frame_number: u32::MAX };
    assert!(wrapping.frame());
    assert_eq!(wrapping.frame_number, 0);

    let mut stats = StatsCounter::new();
    for _ in 0..299 {
        assert!(!stats.count_frame());
    }
    assert!(stats.count_frame());
    assert_eq!(stats.frames, 0);
}

#[test]
fn frame_buffer_dimensions() {
    assert_eq!(rgb565_frame_buffer(vec![Rgb565Pixel(0); 6], 3, 2).err(), None);
    assert_eq!(rgb565_frame_buffer(vec![Rgb565Pixel(0); 5], 3, 2).err(), Some(FrameBufferError::InvalidDimensions));
    assert_eq!(rgb565_frame_buffer(vec![], 0, 2).err(), Some(FrameBufferError::InvalidDimensions));
}

#[test]
fn frame_buffer_session() {
    let mut buffer = rgb565_frame_buffer(vec![Rgb565Pixel(9); 12], 4, 3).unwrap();
    assert!(buffer.active_frame().is_none());
    assert!(buffer.buffer_mut().is_some());
    assert_eq!(buffer.start(5, 1), Err(FrameBufferError::InvalidDimensions));
    assert_eq!(buffer.start(0, 1), Err(FrameBufferError::InvalidDimensions));
    assert_eq!(buffer.start(2, 2), Ok(1));
    assert!(buffer.buffer_mut().is_none());
    buffer.set_pixel(1, 1, Rgb565Pixel(0xabcd));
    buffer.set_pixel(2, 0, Rgb565Pixel(0x1111));
    let frame = buffer.active_frame().unwrap();
    assert_eq!((frame.width(), frame.height(), frame.len()), (2, 2, 4));
    assert!(!frame.is_empty());
    assert_eq!(frame.token(), (1u64 << 32) | 0);
    let pixels = buffer.frame_pixels(&frame).to_vec();
    assert_eq!(pixels, vec![Rgb565Pixel(0), Rgb565Pixel(0), Rgb565Pixel(0), Rgb565Pixel(0xabcd)]);
    buffer.present();
    let presented = buffer.active_frame().unwrap();
    assert_eq!(presented.token(), (1u64 << 32) | 1);
    assert_ne!(presented.token(), frame.token());
    buffer.end_session(2);
    assert!(buffer.active_frame().is_some());
    buffer.end_session(1);
    assert!(buffer.active_frame().is_none());
    let storage = buffer.buffer_mut().unwrap();
    assert_eq!(storage.len(), 12);
    assert_eq!(storage[4], Rgb565Pixel(9));
}

#[test]
fn later_sessions_get_fresh_ids() {
    let mut buffer = rgb565_frame_buffer(vec![Rgb565Pixel(0); 4], 2, 2).unwrap();
    assert_eq!(buffer.start(2, 2), Ok(1));
    let first = buffer.active_frame().unwrap().token();
    buffer.end_session(1);
    assert_eq!(buffer.start(1, 1), Ok(2));
    let second = buffer.active_frame().unwrap().token();
    assert_eq!(second, 2u64 << 32);
    assert_ne!(first, second);
    assert_eq!(buffer.start(2, 1), Ok(3));
    buffer.end_session(2);
    assert_eq!(buffer.active_frame().unwrap().token(), 3u64 << 32);
}

#[test]
fn mapper_boards() {
    assert_eq!(mapper_kind(0), Some(MapperKind::UxRom));
    assert_eq!(mapper_kind(2), Some(MapperKind::UxRom));
    assert_eq!(mapper_kind(1), Some(MapperKind::Mmc1));
    assert_eq!(mapper_kind(4), Some(MapperKind::Mmc3));
    assert_eq!(mapper_kind(3), None);
    assert_eq!(mapper_kind(66), None);
}
