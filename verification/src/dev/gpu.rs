#![allow(non_snake_case, non_camel_case_types)]

use crate::mem::{BankController, MMU, MemView, spec_bit, spec_with_bit, VRAM_ADDR, IF, LCDC, STAT,
    SCY as SCY_REG, SCX as SCX_REG, LY as LY_REG, LYC as LYC_REG, BGP, OBP_0, OBP_1, WY as WY_REG, WX as WX_REG};
use crate::bits::lemma_and_le;
use super::Clocked;
use vstd::prelude::*;

pub mod render;
pub mod frame;

verus! {

pub const SCREEN_WIDTH: usize = 160;
pub const SCREEN_HEIGHT: usize = 144;
pub const VBLANK_HEIGHT: usize = 10;

/*
 * MODE 0 - HBLANK
 * MODE 1 - VBLANK
 * MODE 2 - OAM SEARCH
 * MODE 3 - LCD TRANSFER
 */
pub const OAM_SEARCH_CYCLES: u64 = 20;
pub const LCD_TRANSFER_CYCLES: u64 = 43;
pub const HBLANK_CYCLES: u64 = 51;
pub const SCANLINE_CYCLES: u64 = OAM_SEARCH_CYCLES + LCD_TRANSFER_CYCLES + HBLANK_CYCLES;
pub const FRAME_CYCLES: u64 = SCANLINE_CYCLES * 154;
/// The ten lines of VBLANK, taken as one step.
pub const VBLANK_CYCLES: u64 = 1140;

pub const SCANLINE_STEPS: u64 = 3;  // OAM -> LCD -> HBLANK -> (OAM -> LCD -> HBLANK ->)
pub const FRAME_STEPS: u64 = 144 * SCANLINE_STEPS + 1;

pub const TILE_MAP_1: u16 = 0x9800;
pub const TILE_MAP_2: u16 = 0x9C00;
pub const TILE_BLOCK_1: u16 = 0x8000;
pub const TILE_BLOCK_2: u16 = 0x9000;
pub const TILE_SIZE: u16 = 16;
pub const SPRITE_COUNT: usize = 40;
pub const SCANLINE_SPRITE_COUNT: usize = 10;

pub type Color = (u8, u8, u8);

pub const WHITE: Color = (255, 255, 255);
pub const LIGHT_GRAY: Color = (184, 184, 184);
pub const DARK_GRAY: Color = (115, 115, 155);
pub const BLACK: Color = (0, 0, 0);
pub const TRANSPARENT: Color = (0, 255, 0);

/// The color of shade `num`, 0 (lightest) to 3 (darkest).
pub open spec fn spec_get_color(num: u8) -> Color {
    if num == 0 { WHITE } else if num == 1 { LIGHT_GRAY } else if num == 2 { DARK_GRAY } else { BLACK }
}

fn get_color(num: u8) -> (res: Color)
    requires
        num <= 3,
    ensures
        res == spec_get_color(num),
{
    match num {
        0 => WHITE,
        1 => LIGHT_GRAY,
        2 => DARK_GRAY,
        _ => BLACK,
    }
}

/// One OAM entry.
#[derive(Copy, Clone, Debug)]
pub struct Sprite {
    pub y: u8,
    pub x: u8,
    pub tile_idx: u8,
    pub priority: bool,
    pub y_flip: bool,
    pub x_flip: bool,
    pub palette: bool,
}

impl Default for Sprite {
    fn default() -> (res: Self)
        ensures
            res == (Sprite { y: 0, x: 0, tile_idx: 0, priority: false, y_flip: false, x_flip: false, palette: false }),
    {
        Sprite { y: 0, x: 0, tile_idx: 0, priority: false, y_flip: false, x_flip: false, palette: false }
    }
}

#[derive(Debug, PartialEq, Eq, Structural, Clone, Copy)]
pub enum GPUMode {
    HBLANK,
    VBLANK,
    OAM_SEARCH,
    LCD_TRANSFER,
}

impl Default for GPUMode {
    fn default() -> (res: Self)
        ensures
            res == GPUMode::OAM_SEARCH,
    {
        GPUMode::OAM_SEARCH
    }
}

/// The mode encoded in the low two bits of STAT.
pub open spec fn spec_mode(stat: u8) -> GPUMode {
    let bits = stat & 0x3;
    if bits == 0 { GPUMode::HBLANK }
    else if bits == 1 { GPUMode::VBLANK }
    else if bits == 2 { GPUMode::OAM_SEARCH }
    else { GPUMode::LCD_TRANSFER }
}

pub open spec fn spec_mode_bits(mode: GPUMode) -> u8 {
    match mode {
        GPUMode::HBLANK => 0,
        GPUMode::VBLANK => 1,
        GPUMode::OAM_SEARCH => 2,
        GPUMode::LCD_TRANSFER => 3,
    }
}

/// STAT with its mode bits replaced.
pub open spec fn spec_with_mode(stat: u8, mode: GPUMode) -> u8 {
    (stat & 0b11111100) | spec_mode_bits(mode)
}

/// The mode the picture unit is in, as STAT reports it.
pub open spec fn spec_gpu_mode<T: BankController>(m: MemView<T>) -> GPUMode {
    spec_mode(m.reg(STAT))
}

/// LY takes the current line and the coincidence flag (STAT bit 2) reports LY == LYC.
pub open spec fn spec_update_ly<T: BankController>(ly: u8, m: MemView<T>) -> MemView<T> {
    let m1 = m.poke(LY_REG, ly);
    m1.poke(STAT, spec_with_bit(m1.reg(STAT), 2, ly == m.reg(LYC_REG)))
}

/// Requests an interrupt (sets bit `n` of IF) when the display is on.
pub open spec fn spec_lcd_int<T: BankController>(m: MemView<T>, n: u8) -> MemView<T> {
    if spec_bit(m.reg(LCDC), 7) { m.poke(IF, spec_with_bit(m.reg(IF), n, true)) } else { m }
}

/// Requests the STAT interrupt when the STAT source bit `src` is enabled.
pub open spec fn spec_stat_int<T: BankController>(m: MemView<T>, src: u8) -> MemView<T> {
    if spec_bit(m.reg(STAT), src) { spec_lcd_int(m, 1) } else { m }
}

/// Requests the STAT interrupt when LY == LYC and that source is enabled.
pub open spec fn spec_lyc_int<T: BankController>(m: MemView<T>) -> MemView<T> {
    if spec_bit(m.reg(STAT), 6) && spec_bit(m.reg(STAT), 2) { spec_lcd_int(m, 1) } else { m }
}

/// Background palette: shade of color number `color`.
pub open spec fn spec_bg_shade<T: BankController>(m: MemView<T>, color: u8) -> u8 {
    (m.reg(BGP) >> (2 * color) as u8) & 0x03
}

/// Sprite palettes: shade of color number `color` in OBP0 (`palette` false) or OBP1.
pub open spec fn spec_obp_shade<T: BankController>(m: MemView<T>, palette: bool, color: u8) -> u8 {
    (m.reg(if palette { OBP_1 } else { OBP_0 }) >> (2 * color) as u8) & 0x03
}

/// Color number of pixel `off` (0 = leftmost) of a tile row given by its two bytes.
pub open spec fn spec_color_num(b1: u8, b2: u8, off: u16) -> u8 {
    let mask = 0x80u8 >> off as u8;
    ((if b2 & mask != 0 { 2u8 } else { 0u8 }) + (if b1 & mask != 0 { 1u8 } else { 0u8 })) as u8
}

pub struct GPU {
    pub ly: u8,
    pub lx: u8,
    /* number of window lines rendered */
    pub wy: u8,
    /* whether the window was drawn on the current line */
    pub win_rendered: bool,
    pub sprites: [Sprite; 40],
    pub sprites_line: [usize; 10],
    pub framebuff: Vec<Color>,
}

pub struct GPUView {
    pub ly: u8,
    pub lx: u8,
    pub wy: u8,
    pub win_rendered: bool,
    pub sprites: Seq<Sprite>,
    pub sprites_line: Seq<usize>,
    pub framebuff: Seq<Color>,
}

impl View for GPU {
    type V = GPUView;

    open spec fn view(&self) -> GPUView {
        GPUView {
            ly: self.ly,
            lx: self.lx,
            wy: self.wy,
            win_rendered: self.win_rendered,
            sprites: self.sprites@,
            sprites_line: self.sprites_line@,
            framebuff: self.framebuff@,
        }
    }
}

/// Shape of the picture unit's state: table sizes, line entries that are sprite
/// indices or the 0xFF end mark, and the dot position within a line.
pub open spec fn gpu_inv(v: GPUView) -> bool {
    &&& v.sprites.len() == SPRITE_COUNT
    &&& v.sprites_line.len() == SCANLINE_SPRITE_COUNT
    &&& forall|i: int| 0 <= i < SCANLINE_SPRITE_COUNT ==>
        (#[trigger] v.sprites_line[i] < SPRITE_COUNT || v.sprites_line[i] == 0xFF)
    &&& v.framebuff.len() == SCREEN_WIDTH * SCREEN_HEIGHT
    &&& v.lx <= SCREEN_WIDTH
}

/// The registers after power-on of the picture unit: display on, OAM search, line 0.
pub open spec fn spec_gpu_power_on<T: BankController>(m: MemView<T>) -> MemView<T> {
    let m1 = m.poke(LCDC, spec_with_bit(m.reg(LCDC), 7, true));
    spec_update_ly(0, m1.poke(STAT, spec_with_mode(m1.reg(STAT), GPUMode::OAM_SEARCH)))
}

/// The picture unit at power-on: line 0, a white screen, blank sprites and an empty
/// line list.
pub open spec fn spec_gpu_new() -> GPUView {
    GPUView {
        ly: 0,
        lx: 0,
        wy: 0,
        win_rendered: false,
        sprites: Seq::new(SPRITE_COUNT as nat, |i: int| (Sprite { y: 0, x: 0, tile_idx: 0,
            priority: false, y_flip: false, x_flip: false, palette: false })),
        sprites_line: Seq::new(SCANLINE_SPRITE_COUNT as nat, |i: int| 0xFFusize),
        framebuff: Seq::new((SCREEN_WIDTH * SCREEN_HEIGHT) as nat, |i: int| WHITE),
    }
}

impl GPU {
    pub fn new<T: BankController>(mmu: &mut MMU<T>) -> (res: Self)
        requires
            old(mmu).inv(),
        ensures
            final(mmu).inv(),
            gpu_inv(res@),
            res@ == spec_gpu_new(),
            final(mmu)@ == spec_gpu_power_on(old(mmu)@),
    {
        let blank = Sprite { y: 0, x: 0, tile_idx: 0, priority: false, y_flip: false, x_flip: false, palette: false };
        let mut res = Self {
            lx: 0,
            ly: 0,
            wy: 0,
            win_rendered: false,
            sprites: [blank; 40],
            sprites_line: [0xFF; 10],
            framebuff: white_screen(),
        };
        assert(res.sprites_line@ =~= Seq::new(SCANLINE_SPRITE_COUNT as nat, |i: int| 0xFFusize));
        assert(res.sprites@ =~= Seq::new(SPRITE_COUNT as nat, |i: int| blank));
        GPU::_LCD_DISPLAY_ENABLE(mmu, true);
        GPU::_MODE(mmu, GPUMode::OAM_SEARCH);
        res.update_ly(mmu);
        res
    }

    // update_ly() writes LY and updates the coincidence flag.
    pub fn update_ly<T: BankController>(&mut self, mmu: &mut MMU<T>)
        requires
            old(mmu).inv(),
        ensures
            final(mmu).inv(),
            final(mmu)@ == spec_update_ly(old(self).ly, old(mmu)@),
            *final(self) == *old(self),
    {
        let lyc = GPU::LYC(mmu);
        GPU::_LY(mmu, self.ly);
        GPU::_COINCIDENCE_FLAG(mmu, self.ly == lyc);
    }

    fn vblank_stat_int<T: BankController>(mmu: &mut MMU<T>)
        requires
            old(mmu).inv(),
        ensures
            final(mmu).inv(),
            final(mmu)@ == spec_stat_int(old(mmu)@, 4),
    {
        if GPU::MODE_1_VBLANK_INTERRUPT_ENABLE(mmu) {
            GPU::stat_int(mmu);
        }
    }

    fn hblank_stat_int<T: BankController>(mmu: &mut MMU<T>)
        requires
            old(mmu).inv(),
        ensures
            final(mmu).inv(),
            final(mmu)@ == spec_stat_int(old(mmu)@, 3),
    {
        if GPU::MODE_0_HBLANK_INTERRUPT_ENABLE(mmu) {
            GPU::stat_int(mmu);
        }
    }

    fn oam_stat_int<T: BankController>(mmu: &mut MMU<T>)
        requires
            old(mmu).inv(),
        ensures
            final(mmu).inv(),
            final(mmu)@ == spec_stat_int(old(mmu)@, 5),
    {
        if GPU::MODE_2_OAM_INTERRUPT_ENABLE(mmu) {
            GPU::stat_int(mmu);
        }
    }

    fn lyc_stat_int<T: BankController>(mmu: &mut MMU<T>)
        requires
            old(mmu).inv(),
        ensures
            final(mmu).inv(),
            final(mmu)@ == spec_lyc_int(old(mmu)@),
    {
        if GPU::COINCIDENCE_INTERRUPT_ENABLE(mmu) && GPU::COINCIDENCE_FLAG(mmu) {
            GPU::stat_int(mmu);
        }
    }

    // Requests the VBLANK interrupt.
    fn vblank_int<T: BankController>(mmu: &mut MMU<T>)
        requires
            old(mmu).inv(),
        ensures
            final(mmu).inv(),
            final(mmu)@ == spec_lcd_int(old(mmu)@, 0),
    {
        if Self::LCD_DISPLAY_ENABLE(mmu) {
            mmu.set_bit(IF, 0, true);
        }
    }

    // Requests the STAT interrupt.
    fn stat_int<T: BankController>(mmu: &mut MMU<T>)
        requires
            old(mmu).inv(),
        ensures
            final(mmu).inv(),
            final(mmu)@ == spec_lcd_int(old(mmu)@, 1),
    {
        if Self::LCD_DISPLAY_ENABLE(mmu) {
            mmu.set_bit(IF, 1, true);
        }
    }

    pub fn MODE<T: BankController>(mmu: &mut MMU<T>) -> (res: GPUMode)
        requires
            old(mmu).inv(),
        ensures
            final(mmu).inv(),
            final(mmu)@ == old(mmu)@,
            res == spec_gpu_mode(old(mmu)@),
    {
        let bits = mmu.read(STAT) & 0x3;
        if bits == 0 {
            GPUMode::HBLANK
        } else if bits == 1 {
            GPUMode::VBLANK
        } else if bits == 2 {
            GPUMode::OAM_SEARCH
        } else {
            GPUMode::LCD_TRANSFER
        }
    }

    pub fn _MODE<T: BankController>(mmu: &mut MMU<T>, mode: GPUMode)
        requires
            old(mmu).inv(),
        ensures
            final(mmu).inv(),
            final(mmu)@ == old(mmu)@.poke(STAT, spec_with_mode(old(mmu)@.reg(STAT), mode)),
    {
        let stat = mmu.read(STAT) & 0b11111100;
        let bits: u8 = match mode {
            GPUMode::HBLANK => 0,
            GPUMode::VBLANK => 1,
            GPUMode::OAM_SEARCH => 2,
            GPUMode::LCD_TRANSFER => 3,
        };
        mmu.write(STAT, stat | bits);
    }

    // Color translations through the current palettes.
    pub fn bg_color<T: BankController>(mmu: &mut MMU<T>, color: u8) -> (res: Color)
        requires
            old(mmu).inv(),
            color <= 3,
        ensures
            final(mmu).inv(),
            final(mmu)@ == old(mmu)@,
            res == spec_get_color(spec_bg_shade(old(mmu)@, color)),
    {
        let shade = match color {
            0 => GPU::BG_COLOR_0_SHADE(mmu),
            1 => GPU::BG_COLOR_1_SHADE(mmu),
            2 => GPU::BG_COLOR_2_SHADE(mmu),
            _ => GPU::BG_COLOR_3_SHADE(mmu),
        };
        get_color(shade)
    }

    pub fn obp0_color<T: BankController>(mmu: &mut MMU<T>, color: u8) -> (res: Color)
        requires
            old(mmu).inv(),
            color <= 3,
        ensures
            final(mmu).inv(),
            final(mmu)@ == old(mmu)@,
            res == if color == 0 { TRANSPARENT } else { spec_get_color(spec_obp_shade(old(mmu)@, false, color)) },
    {
        if color == 0 {
            return TRANSPARENT;
        }
        let shade = match color {
            1 => GPU::OBP0_COLOR_1_SHADE(mmu),
            2 => GPU::OBP0_COLOR_2_SHADE(mmu),
            _ => GPU::OBP0_COLOR_3_SHADE(mmu),
        };
        get_color(shade)
    }

    pub fn obp1_color<T: BankController>(mmu: &mut MMU<T>, color: u8) -> (res: Color)
        requires
            old(mmu).inv(),
            color <= 3,
        ensures
            final(mmu).inv(),
            final(mmu)@ == old(mmu)@,
            res == if color == 0 { TRANSPARENT } else { spec_get_color(spec_obp_shade(old(mmu)@, true, color)) },
    {
        if color == 0 {
            return TRANSPARENT;
        }
        let shade = match color {
            1 => GPU::OBP1_COLOR_1_SHADE(mmu),
            2 => GPU::OBP1_COLOR_2_SHADE(mmu),
            _ => GPU::OBP1_COLOR_3_SHADE(mmu),
        };
        get_color(shade)
    }

    fn bytes_to_color_num(b1: u8, b2: u8, off: u16) -> (res: u8)
        requires
            off < 8,
        ensures
            res == spec_color_num(b1, b2, off),
            res <= 3,
    {
        let mask = 0x80u8 >> off as u8;
        match (b2 & mask != 0, b1 & mask != 0) {
            (true, true) => 3,
            (true, false) => 2,
            (false, true) => 1,
            (false, false) => 0,
        }
    }

    // LCDC and STAT flag getters
    /* (0=Off, 1=On) */
    pub fn LCD_DISPLAY_ENABLE<T: BankController>(mmu: &mut MMU<T>) -> (res: bool)
        requires
            old(mmu).inv(),
        ensures
            final(mmu).inv(),
            final(mmu)@ == old(mmu)@,
            res == spec_bit(old(mmu)@.reg(LCDC), 7),
    {
        mmu.read_bit(LCDC, 7)
    }

    /* (0=9800-9BFF, 1=9C00-9FFF) */
    pub fn WINDOW_TILE_MAP<T: BankController>(mmu: &mut MMU<T>) -> (res: bool)
        requires
            old(mmu).inv(),
        ensures
            final(mmu).inv(),
            final(mmu)@ == old(mmu)@,
            res == spec_bit(old(mmu)@.reg(LCDC), 6),
    {
        mmu.read_bit(LCDC, 6)
    }

    /* (0=Off, 1=On) */
    pub fn WINDOW_ENABLED<T: BankController>(mmu: &mut MMU<T>) -> (res: bool)
        requires
            old(mmu).inv(),
        ensures
            final(mmu).inv(),
            final(mmu)@ == old(mmu)@,
            res == spec_bit(old(mmu)@.reg(LCDC), 5),
    {
        mmu.read_bit(LCDC, 5)
    }

    /* (0=8800-97FF, 1=8000-8FFF); sprites always use 8000-8FFF */
    pub fn TILE_ADDRESSING<T: BankController>(mmu: &mut MMU<T>) -> (res: bool)
        requires
            old(mmu).inv(),
        ensures
            final(mmu).inv(),
            final(mmu)@ == old(mmu)@,
            res == spec_bit(old(mmu)@.reg(LCDC), 4),
    {
        mmu.read_bit(LCDC, 4)
    }

    /* (0=9800-9BFF, 1=9C00-9FFF) */
    pub fn BG_TILE_MAP<T: BankController>(mmu: &mut MMU<T>) -> (res: bool)
        requires
            old(mmu).inv(),
        ensures
            final(mmu).inv(),
            final(mmu)@ == old(mmu)@,
            res == spec_bit(old(mmu)@.reg(LCDC), 3),
    {
        mmu.read_bit(LCDC, 3)
    }

    /* (0=8x8, 1=8x16) */
    pub fn SPRITE_SIZE<T: BankController>(mmu: &mut MMU<T>) -> (res: bool)
        requires
            old(mmu).inv(),
        ensures
            final(mmu).inv(),
            final(mmu)@ == old(mmu)@,
            res == spec_bit(old(mmu)@.reg(LCDC), 2),
    {
        mmu.read_bit(LCDC, 2)
    }

    /* (0=Off, 1=On) */
    pub fn SPRITE_ENABLED<T: BankController>(mmu: &mut MMU<T>) -> (res: bool)
        requires
            old(mmu).inv(),
        ensures
            final(mmu).inv(),
            final(mmu)@ == old(mmu)@,
            res == spec_bit(old(mmu)@.reg(LCDC), 1),
    {
        mmu.read_bit(LCDC, 1)
    }

    /* (0=Off, 1=On) */
    pub fn DISPLAY_PRIORITY<T: BankController>(mmu: &mut MMU<T>) -> (res: bool)
        requires
            old(mmu).inv(),
        ensures
            final(mmu).inv(),
            final(mmu)@ == old(mmu)@,
            res == spec_bit(old(mmu)@.reg(LCDC), 0),
    {
        mmu.read_bit(LCDC, 0)
    }

    /* LY=LYC interrupt source */
    pub fn COINCIDENCE_INTERRUPT_ENABLE<T: BankController>(mmu: &mut MMU<T>) -> (res: bool)
        requires
            old(mmu).inv(),
        ensures
            final(mmu).inv(),
            final(mmu)@ == old(mmu)@,
            res == spec_bit(old(mmu)@.reg(STAT), 6),
    {
        mmu.read_bit(STAT, 6)
    }

    /* OAM search interrupt source */
    pub fn MODE_2_OAM_INTERRUPT_ENABLE<T: BankController>(mmu: &mut MMU<T>) -> (res: bool)
        requires
            old(mmu).inv(),
        ensures
            final(mmu).inv(),
            final(mmu)@ == old(mmu)@,
            res == spec_bit(old(mmu)@.reg(STAT), 5),
    {
        mmu.read_bit(STAT, 5)
    }

    /* VBLANK interrupt source */
    pub fn MODE_1_VBLANK_INTERRUPT_ENABLE<T: BankController>(mmu: &mut MMU<T>) -> (res: bool)
        requires
            old(mmu).inv(),
        ensures
            final(mmu).inv(),
            final(mmu)@ == old(mmu)@,
            res == spec_bit(old(mmu)@.reg(STAT), 4),
    {
        mmu.read_bit(STAT, 4)
    }

    /* HBLANK interrupt source */
    pub fn MODE_0_HBLANK_INTERRUPT_ENABLE<T: BankController>(mmu: &mut MMU<T>) -> (res: bool)
        requires
            old(mmu).inv(),
        ensures
            final(mmu).inv(),
            final(mmu)@ == old(mmu)@,
            res == spec_bit(old(mmu)@.reg(STAT), 3),
    {
        mmu.read_bit(STAT, 3)
    }

    /* set while LY equals LYC */
    pub fn COINCIDENCE_FLAG<T: BankController>(mmu: &mut MMU<T>) -> (res: bool)
        requires
            old(mmu).inv(),
        ensures
            final(mmu).inv(),
            final(mmu)@ == old(mmu)@,
            res == spec_bit(old(mmu)@.reg(STAT), 2),
    {
        mmu.read_bit(STAT, 2)
    }

    // LCDC and STAT flag setters
    pub fn _LCD_DISPLAY_ENABLE<T: BankController>(mmu: &mut MMU<T>, flg: bool)
        requires
            old(mmu).inv(),
        ensures
            final(mmu).inv(),
            final(mmu)@ == old(mmu)@.poke(LCDC, spec_with_bit(old(mmu)@.reg(LCDC), 7, flg)),
    {
        mmu.set_bit(LCDC, 7, flg)
    }

    pub fn _WINDOW_TILE_MAP<T: BankController>(mmu: &mut MMU<T>, flg: bool)
        requires
            old(mmu).inv(),
        ensures
            final(mmu).inv(),
            final(mmu)@ == old(mmu)@.poke(LCDC, spec_with_bit(old(mmu)@.reg(LCDC), 6, flg)),
    {
        mmu.set_bit(LCDC, 6, flg)
    }

    pub fn _WINDOW_ENABLED<T: BankController>(mmu: &mut MMU<T>, flg: bool)
        requires
            old(mmu).inv(),
        ensures
            final(mmu).inv(),
            final(mmu)@ == old(mmu)@.poke(LCDC, spec_with_bit(old(mmu)@.reg(LCDC), 5, flg)),
    {
        mmu.set_bit(LCDC, 5, flg)
    }

    pub fn _TILE_ADDRESSING<T: BankController>(mmu: &mut MMU<T>, flg: bool)
        requires
            old(mmu).inv(),
        ensures
            final(mmu).inv(),
            final(mmu)@ == old(mmu)@.poke(LCDC, spec_with_bit(old(mmu)@.reg(LCDC), 4, flg)),
    {
        mmu.set_bit(LCDC, 4, flg)
    }

    pub fn _BG_TILE_MAP<T: BankController>(mmu: &mut MMU<T>, flg: bool)
        requires
            old(mmu).inv(),
        ensures
            final(mmu).inv(),
            final(mmu)@ == old(mmu)@.poke(LCDC, spec_with_bit(old(mmu)@.reg(LCDC), 3, flg)),
    {
        mmu.set_bit(LCDC, 3, flg)
    }

    pub fn _SPRITE_SIZE<T: BankController>(mmu: &mut MMU<T>, flg: bool)
        requires
            old(mmu).inv(),
        ensures
            final(mmu).inv(),
            final(mmu)@ == old(mmu)@.poke(LCDC, spec_with_bit(old(mmu)@.reg(LCDC), 2, flg)),
    {
        mmu.set_bit(LCDC, 2, flg)
    }

    pub fn _SPRITE_ENABLED<T: BankController>(mmu: &mut MMU<T>, flg: bool)
        requires
            old(mmu).inv(),
        ensures
            final(mmu).inv(),
            final(mmu)@ == old(mmu)@.poke(LCDC, spec_with_bit(old(mmu)@.reg(LCDC), 1, flg)),
    {
        mmu.set_bit(LCDC, 1, flg)
    }

    pub fn _DISPLAY_PRIORITY<T: BankController>(mmu: &mut MMU<T>, flg: bool)
        requires
            old(mmu).inv(),
        ensures
            final(mmu).inv(),
            final(mmu)@ == old(mmu)@.poke(LCDC, spec_with_bit(old(mmu)@.reg(LCDC), 0, flg)),
    {
        mmu.set_bit(LCDC, 0, flg)
    }

    pub fn _COINCIDENCE_INTERRUPT_ENABLE<T: BankController>(mmu: &mut MMU<T>, flg: bool)
        requires
            old(mmu).inv(),
        ensures
            final(mmu).inv(),
            final(mmu)@ == old(mmu)@.poke(STAT, spec_with_bit(old(mmu)@.reg(STAT), 6, flg)),
    {
        mmu.set_bit(STAT, 6, flg)
    }

    pub fn _MODE_2_OAM_INTERRUPT_ENABLE<T: BankController>(mmu: &mut MMU<T>, flg: bool)
        requires
            old(mmu).inv(),
        ensures
            final(mmu).inv(),
            final(mmu)@ == old(mmu)@.poke(STAT, spec_with_bit(old(mmu)@.reg(STAT), 5, flg)),
    {
        mmu.set_bit(STAT, 5, flg)
    }

    pub fn _MODE_1_VBLANK_INTERRUPT_ENABLE<T: BankController>(mmu: &mut MMU<T>, flg: bool)
        requires
            old(mmu).inv(),
        ensures
            final(mmu).inv(),
            final(mmu)@ == old(mmu)@.poke(STAT, spec_with_bit(old(mmu)@.reg(STAT), 4, flg)),
    {
        mmu.set_bit(STAT, 4, flg)
    }

    pub fn _MODE_0_HBLANK_INTERRUPT_ENABLE<T: BankController>(mmu: &mut MMU<T>, flg: bool)
        requires
            old(mmu).inv(),
        ensures
            final(mmu).inv(),
            final(mmu)@ == old(mmu)@.poke(STAT, spec_with_bit(old(mmu)@.reg(STAT), 3, flg)),
    {
        mmu.set_bit(STAT, 3, flg)
    }

    pub fn _COINCIDENCE_FLAG<T: BankController>(mmu: &mut MMU<T>, flg: bool)
        requires
            old(mmu).inv(),
        ensures
            final(mmu).inv(),
            final(mmu)@ == old(mmu)@.poke(STAT, spec_with_bit(old(mmu)@.reg(STAT), 2, flg)),
    {
        mmu.set_bit(STAT, 2, flg)
    }

    pub fn LY<T: BankController>(mmu: &mut MMU<T>) -> (res: u8)
        requires
            old(mmu).inv(),
        ensures
            final(mmu).inv(),
            final(mmu)@ == old(mmu)@,
            res == old(mmu)@.reg(LY_REG),
    {
        mmu.read(LY_REG)
    }

    pub fn LYC<T: BankController>(mmu: &mut MMU<T>) -> (res: u8)
        requires
            old(mmu).inv(),
        ensures
            final(mmu).inv(),
            final(mmu)@ == old(mmu)@,
            res == old(mmu)@.reg(LYC_REG),
    {
        mmu.read(LYC_REG)
    }

    pub fn WX<T: BankController>(mmu: &mut MMU<T>) -> (res: u8)
        requires
            old(mmu).inv(),
        ensures
            final(mmu).inv(),
            final(mmu)@ == old(mmu)@,
            res == old(mmu)@.reg(WX_REG),
    {
        mmu.read(WX_REG)
    }

    pub fn WY<T: BankController>(mmu: &mut MMU<T>) -> (res: u8)
        requires
            old(mmu).inv(),
        ensures
            final(mmu).inv(),
            final(mmu)@ == old(mmu)@,
            res == old(mmu)@.reg(WY_REG),
    {
        mmu.read(WY_REG)
    }

    pub fn SCX<T: BankController>(mmu: &mut MMU<T>) -> (res: u8)
        requires
            old(mmu).inv(),
        ensures
            final(mmu).inv(),
            final(mmu)@ == old(mmu)@,
            res == old(mmu)@.reg(SCX_REG),
    {
        mmu.read(SCX_REG)
    }

    pub fn SCY<T: BankController>(mmu: &mut MMU<T>) -> (res: u8)
        requires
            old(mmu).inv(),
        ensures
            final(mmu).inv(),
            final(mmu)@ == old(mmu)@,
            res == old(mmu)@.reg(SCY_REG),
    {
        mmu.read(SCY_REG)
    }

    pub fn _LY<T: BankController>(mmu: &mut MMU<T>, val: u8)
        requires
            old(mmu).inv(),
        ensures
            final(mmu).inv(),
            final(mmu)@ == old(mmu)@.poke(LY_REG, val),
    {
        mmu.write(LY_REG, val);
    }

    // Palette shade getters: the two bit shade of each color number
    pub fn BG_COLOR_0_SHADE<T: BankController>(mmu: &mut MMU<T>) -> (res: u8)
        requires
            old(mmu).inv(),
        ensures
            final(mmu).inv(),
            final(mmu)@ == old(mmu)@,
            res == (old(mmu)@.reg(BGP) >> 0u8) & 0x03,
            res <= 3,
    {
        let r = (mmu.read(BGP) >> 0u8) & 0x03;
        proof {
            lemma_and_le(old(mmu)@.reg(BGP) >> 0u8, 0x03);
        }
        r
    }

    pub fn BG_COLOR_1_SHADE<T: BankController>(mmu: &mut MMU<T>) -> (res: u8)
        requires
            old(mmu).inv(),
        ensures
            final(mmu).inv(),
            final(mmu)@ == old(mmu)@,
            res == (old(mmu)@.reg(BGP) >> 2u8) & 0x03,
            res <= 3,
    {
        let r = (mmu.read(BGP) >> 2u8) & 0x03;
        proof {
            lemma_and_le(old(mmu)@.reg(BGP) >> 2u8, 0x03);
        }
        r
    }

    pub fn BG_COLOR_2_SHADE<T: BankController>(mmu: &mut MMU<T>) -> (res: u8)
        requires
            old(mmu).inv(),
        ensures
            final(mmu).inv(),
            final(mmu)@ == old(mmu)@,
            res == (old(mmu)@.reg(BGP) >> 4u8) & 0x03,
            res <= 3,
    {
        let r = (mmu.read(BGP) >> 4u8) & 0x03;
        proof {
            lemma_and_le(old(mmu)@.reg(BGP) >> 4u8, 0x03);
        }
        r
    }

    pub fn BG_COLOR_3_SHADE<T: BankController>(mmu: &mut MMU<T>) -> (res: u8)
        requires
            old(mmu).inv(),
        ensures
            final(mmu).inv(),
            final(mmu)@ == old(mmu)@,
            res == (old(mmu)@.reg(BGP) >> 6u8) & 0x03,
            res <= 3,
    {
        let r = (mmu.read(BGP) >> 6u8) & 0x03;
        proof {
            lemma_and_le(old(mmu)@.reg(BGP) >> 6u8, 0x03);
        }
        r
    }

    pub fn OBP0_COLOR_1_SHADE<T: BankController>(mmu: &mut MMU<T>) -> (res: u8)
        requires
            old(mmu).inv(),
        ensures
            final(mmu).inv(),
            final(mmu)@ == old(mmu)@,
            res == (old(mmu)@.reg(OBP_0) >> 2u8) & 0x03,
            res <= 3,
    {
        let r = (mmu.read(OBP_0) >> 2u8) & 0x03;
        proof {
            lemma_and_le(old(mmu)@.reg(OBP_0) >> 2u8, 0x03);
        }
        r
    }

    pub fn OBP0_COLOR_2_SHADE<T: BankController>(mmu: &mut MMU<T>) -> (res: u8)
        requires
            old(mmu).inv(),
        ensures
            final(mmu).inv(),
            final(mmu)@ == old(mmu)@,
            res == (old(mmu)@.reg(OBP_0) >> 4u8) & 0x03,
            res <= 3,
    {
        let r = (mmu.read(OBP_0) >> 4u8) & 0x03;
        proof {
            lemma_and_le(old(mmu)@.reg(OBP_0) >> 4u8, 0x03);
        }
        r
    }

    pub fn OBP0_COLOR_3_SHADE<T: BankController>(mmu: &mut MMU<T>) -> (res: u8)
        requires
            old(mmu).inv(),
        ensures
            final(mmu).inv(),
            final(mmu)@ == old(mmu)@,
            res == (old(mmu)@.reg(OBP_0) >> 6u8) & 0x03,
            res <= 3,
    {
        let r = (mmu.read(OBP_0) >> 6u8) & 0x03;
        proof {
            lemma_and_le(old(mmu)@.reg(OBP_0) >> 6u8, 0x03);
        }
        r
    }

    pub fn OBP1_COLOR_1_SHADE<T: BankController>(mmu: &mut MMU<T>) -> (res: u8)
        requires
            old(mmu).inv(),
        ensures
            final(mmu).inv(),
            final(mmu)@ == old(mmu)@,
            res == (old(mmu)@.reg(OBP_1) >> 2u8) & 0x03,
            res <= 3,
    {
        let r = (mmu.read(OBP_1) >> 2u8) & 0x03;
        proof {
            lemma_and_le(old(mmu)@.reg(OBP_1) >> 2u8, 0x03);
        }
        r
    }

    pub fn OBP1_COLOR_2_SHADE<T: BankController>(mmu: &mut MMU<T>) -> (res: u8)
        requires
            old(mmu).inv(),
        ensures
            final(mmu).inv(),
            final(mmu)@ == old(mmu)@,
            res == (old(mmu)@.reg(OBP_1) >> 4u8) & 0x03,
            res <= 3,
    {
        let r = (mmu.read(OBP_1) >> 4u8) & 0x03;
        proof {
            lemma_and_le(old(mmu)@.reg(OBP_1) >> 4u8, 0x03);
        }
        r
    }

    pub fn OBP1_COLOR_3_SHADE<T: BankController>(mmu: &mut MMU<T>) -> (res: u8)
        requires
            old(mmu).inv(),
        ensures
            final(mmu).inv(),
            final(mmu)@ == old(mmu)@,
            res == (old(mmu)@.reg(OBP_1) >> 6u8) & 0x03,
            res <= 3,
    {
        let r = (mmu.read(OBP_1) >> 6u8) & 0x03;
        proof {
            lemma_and_le(old(mmu)@.reg(OBP_1) >> 6u8, 0x03);
        }
        r
    }

    // Palette shade setters: the shade bits are or-ed into the register
    pub fn _BG_COLOR_0_SHADE<T: BankController>(mmu: &mut MMU<T>, color: u8)
        requires
            old(mmu).inv(),
        ensures
            final(mmu).inv(),
            final(mmu)@ == old(mmu)@.poke(BGP, old(mmu)@.reg(BGP) | ((color & 0x03) << 0u8)),
    {
        let v = mmu.read(BGP) | ((color & 0x03) << 0u8);
        mmu.write(BGP, v);
    }

    pub fn _BG_COLOR_1_SHADE<T: BankController>(mmu: &mut MMU<T>, color: u8)
        requires
            old(mmu).inv(),
        ensures
            final(mmu).inv(),
            final(mmu)@ == old(mmu)@.poke(BGP, old(mmu)@.reg(BGP) | ((color & 0x03) << 2u8)),
    {
        let v = mmu.read(BGP) | ((color & 0x03) << 2u8);
        mmu.write(BGP, v);
    }

    pub fn _BG_COLOR_2_SHADE<T: BankController>(mmu: &mut MMU<T>, color: u8)
        requires
            old(mmu).inv(),
        ensures
            final(mmu).inv(),
            final(mmu)@ == old(mmu)@.poke(BGP, old(mmu)@.reg(BGP) | ((color & 0x03) << 4u8)),
    {
        let v = mmu.read(BGP) | ((color & 0x03) << 4u8);
        mmu.write(BGP, v);
    }

    pub fn _BG_COLOR_3_SHADE<T: BankController>(mmu: &mut MMU<T>, color: u8)
        requires
            old(mmu).inv(),
        ensures
            final(mmu).inv(),
            final(mmu)@ == old(mmu)@.poke(BGP, old(mmu)@.reg(BGP) | ((color & 0x03) << 6u8)),
    {
        let v = mmu.read(BGP) | ((color & 0x03) << 6u8);
        mmu.write(BGP, v);
    }

    pub fn _OBP0_COLOR_1_SHADE<T: BankController>(mmu: &mut MMU<T>, color: u8)
        requires
            old(mmu).inv(),
        ensures
            final(mmu).inv(),
            final(mmu)@ == old(mmu)@.poke(OBP_0, old(mmu)@.reg(OBP_0) | ((color & 0x03) << 2u8)),
    {
        let v = mmu.read(OBP_0) | ((color & 0x03) << 2u8);
        mmu.write(OBP_0, v);
    }

    pub fn _OBP0_COLOR_2_SHADE<T: BankController>(mmu: &mut MMU<T>, color: u8)
        requires
            old(mmu).inv(),
        ensures
            final(mmu).inv(),
            final(mmu)@ == old(mmu)@.poke(OBP_0, old(mmu)@.reg(OBP_0) | ((color & 0x03) << 4u8)),
    {
        let v = mmu.read(OBP_0) | ((color & 0x03) << 4u8);
        mmu.write(OBP_0, v);
    }

    pub fn _OBP0_COLOR_3_SHADE<T: BankController>(mmu: &mut MMU<T>, color: u8)
        requires
            old(mmu).inv(),
        ensures
            final(mmu).inv(),
            final(mmu)@ == old(mmu)@.poke(OBP_0, old(mmu)@.reg(OBP_0) | ((color & 0x03) << 6u8)),
    {
        let v = mmu.read(OBP_0) | ((color & 0x03) << 6u8);
        mmu.write(OBP_0, v);
    }

    pub fn _OBP1_COLOR_1_SHADE<T: BankController>(mmu: &mut MMU<T>, color: u8)
        requires
            old(mmu).inv(),
        ensures
            final(mmu).inv(),
            final(mmu)@ == old(mmu)@.poke(OBP_1, old(mmu)@.reg(OBP_1) | ((color & 0x03) << 2u8)),
    {
        let v = mmu.read(OBP_1) | ((color & 0x03) << 2u8);
        mmu.write(OBP_1, v);
    }

    pub fn _OBP1_COLOR_2_SHADE<T: BankController>(mmu: &mut MMU<T>, color: u8)
        requires
            old(mmu).inv(),
        ensures
            final(mmu).inv(),
            final(mmu)@ == old(mmu)@.poke(OBP_1, old(mmu)@.reg(OBP_1) | ((color & 0x03) << 4u8)),
    {
        let v = mmu.read(OBP_1) | ((color & 0x03) << 4u8);
        mmu.write(OBP_1, v);
    }

    pub fn _OBP1_COLOR_3_SHADE<T: BankController>(mmu: &mut MMU<T>, color: u8)
        requires
            old(mmu).inv(),
        ensures
            final(mmu).inv(),
            final(mmu)@ == old(mmu)@.poke(OBP_1, old(mmu)@.reg(OBP_1) | ((color & 0x03) << 6u8)),
    {
        let v = mmu.read(OBP_1) | ((color & 0x03) << 6u8);
        mmu.write(OBP_1, v);
    }
}

/// A screen of white pixels.
fn white_screen() -> (res: Vec<Color>)
    ensures
        res@ == Seq::new((SCREEN_WIDTH * SCREEN_HEIGHT) as nat, |i: int| WHITE),
{
    let mut v: Vec<Color> = Vec::new();
    let mut i: usize = 0;
    while i < SCREEN_WIDTH * SCREEN_HEIGHT
        invariant
            i <= SCREEN_WIDTH * SCREEN_HEIGHT,
            v@ =~= Seq::new(i as nat, |k: int| WHITE),
        decreases SCREEN_WIDTH * SCREEN_HEIGHT - i,
    {
        v.push(WHITE);
        i += 1;
    }
    v
}

} // verus!
