//! The frame of the picture unit: 144 lines of three steps each, then VBLANK.
use crate::mem::{BankController, MemView, spec_bit, LCDC, STAT, IF, LY as LY_REG};
use crate::dev::Clocked;
use crate::bits::{lemma_mode_field, lemma_set_bit, lemma_set_bit_other};
use super::{GPU, GPUView, GPUMode, Sprite, gpu_inv, spec_gpu_mode, spec_update_ly,
    spec_mode_bits, spec_lyc_int, spec_stat_int, spec_lcd_int, SCREEN_WIDTH, SCREEN_HEIGHT, SPRITE_COUNT,
    SCANLINE_SPRITE_COUNT, FRAME_STEPS, FRAME_CYCLES, SCANLINE_CYCLES, OAM_SEARCH_CYCLES, LCD_TRANSFER_CYCLES, VBLANK_CYCLES};
use super::render::{spec_read_oam, spec_sprites_line, spec_sprite_height, spec_set_mode, line_hits, on_line,
    scan_ok, spec_dot_sprite, spec_dot, spec_dot_ok, spec_line, line_ok, spec_oam_sprites,
    lemma_sort_len, lemma_hits_bound};
use vstd::prelude::*;

verus! {

/// The picture unit and memory after `n` steps with nothing else touching them.
pub open spec fn spec_gpu_run<T: BankController>(g: GPUView, m: MemView<T>, n: nat) -> (GPUView, MemView<T>)
    decreases n,
{
    if n == 0 {
        (g, m)
    } else {
        let (g1, m1) = spec_gpu_run(g, m, (n - 1) as nat);
        <GPU as Clocked<T>>::spec_step(g1, m1)
    }
}

/// Each of the first `n` steps can be taken.
pub open spec fn gpu_run_ok<T: BankController>(g: GPUView, m: MemView<T>, n: nat) -> bool
    decreases n,
{
    n == 0 || (gpu_run_ok(g, m, (n - 1) as nat) && {
        let (g1, m1) = spec_gpu_run(g, m, (n - 1) as nat);
        <GPU as Clocked<T>>::can_step(g1, m1)
    })
}

/// Machine cycles taken by the first `n` steps.
pub open spec fn gpu_run_cycles<T: BankController>(g: GPUView, m: MemView<T>, n: nat) -> int
    decreases n,
{
    if n == 0 {
        0
    } else {
        let (g1, m1) = spec_gpu_run(g, m, (n - 1) as nat);
        gpu_run_cycles(g, m, (n - 1) as nat) + <GPU as Clocked<T>>::spec_next_time(g1, m1)
    }
}

/* Register facts */

proof fn lemma_mode_after_update_ly<T: BankController>(ly: u8, m: MemView<T>)
    requires
        m.wf(),
    ensures
        spec_update_ly(ly, m).wf(),
        spec_gpu_mode(spec_update_ly(ly, m)) == spec_gpu_mode(m),
        spec_update_ly(ly, m).reg(LCDC) == m.reg(LCDC),
        spec_update_ly(ly, m).reg(IF) == m.reg(IF),
        spec_update_ly(ly, m).reg(LY_REG) == ly,
        spec_update_ly(ly, m).mapper == m.mapper,
        spec_update_ly(ly, m).oam == m.oam,
{
    let m1 = m.poke(LY_REG, ly);
    lemma_mode_field(m1.reg(STAT), 0);
}

proof fn lemma_mode_after_set<T: BankController>(m: MemView<T>, mode: GPUMode)
    requires
        m.wf(),
    ensures
        spec_set_mode(m, mode).wf(),
        spec_gpu_mode(spec_set_mode(m, mode)) == mode,
        spec_set_mode(m, mode).reg(LCDC) == m.reg(LCDC),
        spec_set_mode(m, mode).reg(IF) == m.reg(IF),
        spec_set_mode(m, mode).reg(LY_REG) == m.reg(LY_REG),
{
    lemma_mode_field(m.reg(STAT), spec_mode_bits(mode));
}

proof fn lemma_ints_keep<T: BankController>(m: MemView<T>, n: u8, src: u8)
    requires
        m.wf(),
    ensures
        spec_lcd_int(m, n).wf(),
        spec_gpu_mode(spec_lcd_int(m, n)) == spec_gpu_mode(m),
        spec_lcd_int(m, n).reg(LCDC) == m.reg(LCDC),
        spec_lcd_int(m, n).reg(LY_REG) == m.reg(LY_REG),
        spec_stat_int(m, src).wf(),
        spec_gpu_mode(spec_stat_int(m, src)) == spec_gpu_mode(m),
        spec_stat_int(m, src).reg(LCDC) == m.reg(LCDC),
        spec_stat_int(m, src).reg(LY_REG) == m.reg(LY_REG),
        spec_lyc_int(m).wf(),
        spec_gpu_mode(spec_lyc_int(m)) == spec_gpu_mode(m),
        spec_lyc_int(m).reg(LCDC) == m.reg(LCDC),
        spec_lyc_int(m).reg(LY_REG) == m.reg(LY_REG),
        spec_lyc_int(m).mapper == m.mapper,
        spec_bit(spec_lcd_int(m, 1).reg(IF), 0) == spec_bit(m.reg(IF), 0),
        spec_bit(spec_stat_int(m, src).reg(IF), 0) == spec_bit(m.reg(IF), 0),
        spec_bit(spec_lyc_int(m).reg(IF), 0) == spec_bit(m.reg(IF), 0),
        spec_bit(m.reg(LCDC), 7) ==> spec_bit(spec_lcd_int(m, 0).reg(IF), 0),
{
    lemma_set_bit_other(m.reg(IF), 1, 0);
    lemma_set_bit(m.reg(IF), 0);
}

/* Runs */

/// A run of a + b steps is a run of a steps followed by one of b steps.
proof fn lemma_run_split<T: BankController>(g: GPUView, m: MemView<T>, a: nat, b: nat)
    ensures
        spec_gpu_run(g, m, a + b) == spec_gpu_run(spec_gpu_run(g, m, a).0, spec_gpu_run(g, m, a).1, b),
        gpu_run_ok(g, m, a + b) == (gpu_run_ok(g, m, a)
            && gpu_run_ok(spec_gpu_run(g, m, a).0, spec_gpu_run(g, m, a).1, b)),
        gpu_run_cycles(g, m, a + b) == gpu_run_cycles(g, m, a)
            + gpu_run_cycles(spec_gpu_run(g, m, a).0, spec_gpu_run(g, m, a).1, b),
    decreases b,
{
    if b > 0 {
        lemma_run_split(g, m, a, (b - 1) as nat);
        assert((a + b - 1) as nat == a + (b - 1) as nat);
    }
}

/* The line list */

proof fn lemma_hits_on_line(sprites: Seq<Sprite>, y: int, h: int, n: int)
    requires
        0 <= n <= SPRITE_COUNT,
    ensures
        forall|k: int| 0 <= k < line_hits(sprites, y, h, n).len() ==>
            on_line(sprites[#[trigger] line_hits(sprites, y, h, n)[k] as int], y, h),
    decreases n,
{
    if n > 0 {
        lemma_hits_on_line(sprites, y, h, n - 1);
        let prev = line_hits(sprites, y, h, n - 1);
        let cur = line_hits(sprites, y, h, n);
        assert forall|k: int| 0 <= k < cur.len() implies on_line(sprites[#[trigger] cur[k] as int], y, h) by {
            if k < prev.len() {
                assert(cur[k] == prev[k]);
            } else {
                assert(cur[k] == (n - 1) as usize);
            }
        }
    }
}

/// Every sprite the dot search can find is on the line.
proof fn lemma_dot_sprite_on_line(sprites: Seq<Sprite>, y: int, h: int, lx: u8, k: int)
    requires
        0 <= k,
        sprites.len() == SPRITE_COUNT,
    ensures
        spec_dot_sprite(sprites, spec_sprites_line(sprites, y, h), lx, k) matches Some(sp) ==> on_line(sp, y, h),
    decreases SCANLINE_SPRITE_COUNT - k,
{
    let line = spec_sprites_line(sprites, y, h);
    let hits = line_hits(sprites, y, h, SPRITE_COUNT as int);
    if k < SCANLINE_SPRITE_COUNT && line[k] != 0xFF {
        lemma_hits_bound(sprites, y, h, SPRITE_COUNT as int);
        lemma_hits_on_line(sprites, y, h, SPRITE_COUNT as int);
        assert(k < hits.len());
        assert(line[k] == hits[k]);
        lemma_dot_sprite_on_line(sprites, y, h, lx, k + 1);
    }
}

/// The dots of a line whose list was made for that line can all be drawn.
proof fn lemma_line_ok<T: BankController>(g: GPUView, m: MemView<T>, x: int)
    requires
        g.sprites.len() == SPRITE_COUNT,
        g.sprites_line == spec_sprites_line(g.sprites, g.ly + 16, spec_sprite_height(m)),
        g.ly < SCREEN_HEIGHT,
        g.framebuff.len() == SCREEN_WIDTH * SCREEN_HEIGHT,
        0 <= x,
    ensures
        line_ok(g, m, x),
    decreases SCREEN_WIDTH - x,
{
    if x < SCREEN_WIDTH {
        let gx = GPUView { lx: x as u8, ..g };
        lemma_dot_sprite_on_line(g.sprites, g.ly + 16, spec_sprite_height(m), x as u8, 0);
        assert(spec_dot_ok(gx, m));
        let g1 = if spec_bit(m.reg(LCDC), 7) { spec_dot(gx, m) } else { gx };
        assert(g1.sprites == g.sprites && g1.sprites_line == g.sprites_line && g1.ly == g.ly
            && g1.framebuff.len() == g.framebuff.len());
        lemma_line_ok(g1, m, x + 1);
    }
}

/// Drawing a line keeps the line's counters and tables, ends at dot 160 and keeps
/// the screen's size.
proof fn lemma_line_keeps<T: BankController>(g: GPUView, m: MemView<T>, x: int)
    ensures
        spec_line(g, m, x).lx == SCREEN_WIDTH,
        spec_line(g, m, x).ly == g.ly,
        spec_line(g, m, x).wy == g.wy,
        spec_line(g, m, x).sprites == g.sprites,
        spec_line(g, m, x).sprites_line == g.sprites_line,
        spec_line(g, m, x).framebuff.len() == g.framebuff.len(),
    decreases SCREEN_WIDTH - x,
{
    if x < SCREEN_WIDTH {
        let gx = GPUView { lx: x as u8, ..g };
        let g1 = if spec_bit(m.reg(LCDC), 7) { spec_dot(gx, m) } else { gx };
        lemma_line_keeps(g1, m, x + 1);
    }
}

/// What three steps from the OAM search of line `ly` leave: the next line (or VBLANK
/// after line 143), 114 machine cycles later.
pub open spec fn line_done<T: BankController>(g: GPUView, m: MemView<T>, g3: GPUView, m3: MemView<T>) -> bool {
    &&& gpu_inv(g3)
    &&& m3.wf()
    &&& g3.ly == g.ly + 1
    &&& g3.lx == 0
    &&& g3.wy <= g3.ly
    &&& m3.reg(LY_REG) == g3.ly
    &&& m3.reg(LCDC) == m.reg(LCDC)
    &&& spec_gpu_mode(m3) == if g3.ly == SCREEN_HEIGHT { GPUMode::VBLANK } else { GPUMode::OAM_SEARCH }
    &&& g3.ly < SCREEN_HEIGHT ==> spec_bit(m3.reg(IF), 0) == spec_bit(m.reg(IF), 0)
    &&& g3.ly == SCREEN_HEIGHT && spec_bit(m.reg(LCDC), 7) ==> spec_bit(m3.reg(IF), 0)
}

proof fn lemma_line_steps<T: BankController>(g: GPUView, m: MemView<T>)
    requires
        m.wf(),
        gpu_inv(g),
        g.ly < SCREEN_HEIGHT,
        g.wy <= g.ly,
        spec_gpu_mode(m) == GPUMode::OAM_SEARCH,
    ensures
        gpu_run_ok(g, m, 3),
        gpu_run_cycles(g, m, 3) == SCANLINE_CYCLES,
        line_done(g, m, spec_gpu_run(g, m, 3).0, spec_gpu_run(g, m, 3).1),
        spec_bit(spec_gpu_run(g, m, 1).1.reg(IF), 0) == spec_bit(m.reg(IF), 0),
        spec_bit(spec_gpu_run(g, m, 2).1.reg(IF), 0) == spec_bit(m.reg(IF), 0),
        spec_gpu_mode(spec_gpu_run(g, m, 1).1) == GPUMode::LCD_TRANSFER,
        spec_gpu_mode(spec_gpu_run(g, m, 2).1) == GPUMode::HBLANK,
{
    // OAM search
    let m0 = spec_update_ly(g.ly, m);
    lemma_mode_after_update_ly(g.ly, m);
    let h = spec_sprite_height(m0);
    let sprites = spec_read_oam(m0);
    let line = spec_sprites_line(sprites, g.ly + 16, h);
    let g1 = GPUView { sprites, sprites_line: line, ..g };
    let ml = spec_lyc_int(m0);
    lemma_ints_keep(m0, 0, 0);
    let m1 = spec_set_mode(ml, GPUMode::LCD_TRANSFER);
    lemma_mode_after_set(ml, GPUMode::LCD_TRANSFER);
    assert(spec_gpu_run(g, m, 0) == (g, m));
    assert(<GPU as Clocked<T>>::spec_step(g, m) == (g1, m1));
    assert(spec_gpu_run(g, m, 1) == (g1, m1));
    assert(<GPU as Clocked<T>>::can_step(g, m)) by {
        assert(scan_ok(sprites, g.ly + 16, h));
    }
    lemma_sort_len(spec_oam_sprites(m0.oam));
    lemma_hits_bound(sprites, g.ly + 16, h, SPRITE_COUNT as int);
    assert(gpu_inv(g1)) by {
        let hits = line_hits(sprites, g.ly + 16, h, SPRITE_COUNT as int);
        assert forall|i: int| 0 <= i < SCANLINE_SPRITE_COUNT implies
            (#[trigger] line[i] < SPRITE_COUNT || line[i] == 0xFF) by {
            if i < hits.len() {
                assert(hits[i] < SPRITE_COUNT);
            }
        }
    }
    // pixel transfer
    let m1u = spec_update_ly(g1.ly, m1);
    lemma_mode_after_update_ly(g1.ly, m1);
    lemma_line_ok(g1, m1u, g1.lx as int);
    lemma_line_keeps(g1, m1u, g1.lx as int);
    let g2 = spec_line(g1, m1u, g1.lx as int);
    let mh = spec_set_mode(m1u, GPUMode::HBLANK);
    lemma_mode_after_set(m1u, GPUMode::HBLANK);
    let m2 = spec_stat_int(mh, 3);
    lemma_ints_keep(mh, 0, 3);
    lemma_ints_keep(m1u, 0, 3);
    assert(<GPU as Clocked<T>>::spec_step(g1, m1) == (g2, m2));
    assert(spec_gpu_run(g, m, 2) == (g2, m2));
    assert(<GPU as Clocked<T>>::can_step(g1, m1));
    assert(gpu_inv(g2));
    // HBLANK
    let m2u = spec_update_ly(g2.ly, m2);
    lemma_mode_after_update_ly(g2.ly, m2);
    let ly = (g2.ly + 1) as u8;
    let g3 = GPUView {
        lx: 0,
        ly,
        win_rendered: false,
        wy: if g2.win_rendered { (g2.wy + 1) as u8 } else { g2.wy },
        ..g2
    };
    let m3a = spec_update_ly(ly, m2u);
    lemma_mode_after_update_ly(ly, m2u);
    assert(<GPU as Clocked<T>>::can_step(g2, m2));
    if ly == SCREEN_HEIGHT {
        let mv = spec_set_mode(m3a, GPUMode::VBLANK);
        lemma_mode_after_set(m3a, GPUMode::VBLANK);
        let mi = spec_lcd_int(mv, 0);
        lemma_ints_keep(mv, 0, 4);
        lemma_ints_keep(mi, 0, 4);
        let m3 = spec_stat_int(mi, 4);
        assert(<GPU as Clocked<T>>::spec_step(g2, m2) == (g3, m3));
        assert(spec_gpu_run(g, m, 3) == (g3, m3));
        assert(line_done(g, m, g3, m3));
    } else {
        let mo = spec_set_mode(m3a, GPUMode::OAM_SEARCH);
        lemma_mode_after_set(m3a, GPUMode::OAM_SEARCH);
        lemma_ints_keep(mo, 0, 5);
        let m3 = spec_stat_int(mo, 5);
        assert(<GPU as Clocked<T>>::spec_step(g2, m2) == (g3, m3));
        assert(spec_gpu_run(g, m, 3) == (g3, m3));
        assert(line_done(g, m, g3, m3));
    }
    assert(gpu_run_ok(g, m, 0));
    assert(gpu_run_cycles(g, m, 0) == 0);
    assert(<GPU as Clocked<T>>::spec_next_time(g, m) == OAM_SEARCH_CYCLES);
    assert(gpu_run_ok(g, m, 1));
    assert(gpu_run_ok(g, m, 2));
    assert(gpu_run_cycles(g, m, 1) == OAM_SEARCH_CYCLES);
    assert(gpu_run_cycles(g, m, 2) == OAM_SEARCH_CYCLES + LCD_TRANSFER_CYCLES);
}

/// The mode of step `j` of a frame: OAM search, pixel transfer, HBLANK, line by line.
pub open spec fn line_step_mode(j: int) -> GPUMode {
    if j % 3 == 0 {
        GPUMode::OAM_SEARCH
    } else if j % 3 == 1 {
        GPUMode::LCD_TRANSFER
    } else {
        GPUMode::HBLANK
    }
}

/// The start of a frame: line 0 in OAM search, LY reporting it, no window line drawn.
pub open spec fn frame_start<T: BankController>(g: GPUView, m: MemView<T>) -> bool {
    &&& m.wf()
    &&& gpu_inv(g)
    &&& g.ly == 0
    &&& g.wy == 0
    &&& m.reg(LY_REG) == 0
    &&& spec_gpu_mode(m) == GPUMode::OAM_SEARCH
}

proof fn lemma_lines<T: BankController>(g: GPUView, m: MemView<T>, k: nat)
    requires
        frame_start(g, m),
        k <= SCREEN_HEIGHT,
    ensures
        gpu_run_ok(g, m, 3 * k),
        gpu_run_cycles(g, m, 3 * k) == SCANLINE_CYCLES * k,
        gpu_inv(spec_gpu_run(g, m, 3 * k).0),
        spec_gpu_run(g, m, 3 * k).1.wf(),
        spec_gpu_run(g, m, 3 * k).0.ly == k,
        spec_gpu_run(g, m, 3 * k).0.wy <= k,
        k > 0 ==> spec_gpu_run(g, m, 3 * k).0.lx == 0,
        spec_gpu_run(g, m, 3 * k).1.reg(LY_REG) == k,
        spec_gpu_run(g, m, 3 * k).1.reg(LCDC) == m.reg(LCDC),
        spec_gpu_mode(spec_gpu_run(g, m, 3 * k).1)
            == if k == SCREEN_HEIGHT { GPUMode::VBLANK } else { GPUMode::OAM_SEARCH },
        k == SCREEN_HEIGHT && spec_bit(m.reg(LCDC), 7) ==> spec_bit(spec_gpu_run(g, m, 3 * k).1.reg(IF), 0),
        k < SCREEN_HEIGHT ==> spec_bit(spec_gpu_run(g, m, 3 * k).1.reg(IF), 0) == spec_bit(m.reg(IF), 0),
        forall|j: nat| j < 3 * k ==>
            spec_bit(#[trigger] spec_gpu_run(g, m, j).1.reg(IF), 0) == spec_bit(m.reg(IF), 0)
            && spec_gpu_mode(spec_gpu_run(g, m, j).1) == line_step_mode(j as int),
    decreases k,
{
    if k == 0 {
        assert(spec_gpu_run(g, m, 0) == (g, m));
        assert(gpu_run_ok(g, m, 0));
        assert(gpu_run_cycles(g, m, 0) == 0);
    } else {
        let p = (k - 1) as nat;
        lemma_lines(g, m, p);
        let gp = spec_gpu_run(g, m, 3 * p).0;
        let mp = spec_gpu_run(g, m, 3 * p).1;
        lemma_line_steps(gp, mp);
        lemma_run_split(g, m, 3 * p, 3);
        lemma_run_split(g, m, 3 * p, 1);
        lemma_run_split(g, m, 3 * p, 2);
        assert(3 * k == 3 * p + 3);
        assert(SCANLINE_CYCLES * k == SCANLINE_CYCLES * p + SCANLINE_CYCLES) by (nonlinear_arith)
            requires k == p + 1;
        assert forall|j: nat| j < 3 * k implies
            spec_bit(#[trigger] spec_gpu_run(g, m, j).1.reg(IF), 0) == spec_bit(m.reg(IF), 0)
            && spec_gpu_mode(spec_gpu_run(g, m, j).1) == line_step_mode(j as int) by {
            if j == 3 * p {
                assert((j as int) % 3 == 0) by (nonlinear_arith) requires j == 3 * p;
            } else if j == 3 * p + 1 {
                assert((j as int) % 3 == 1) by (nonlinear_arith) requires j == 3 * p + 1;
                assert(spec_gpu_run(g, m, j) == spec_gpu_run(gp, mp, 1));
            } else if j == 3 * p + 2 {
                assert((j as int) % 3 == 2) by (nonlinear_arith) requires j == 3 * p + 2;
                assert(spec_gpu_run(g, m, j) == spec_gpu_run(gp, mp, 2));
            } else {
                assert(j < 3 * p);
                assert(spec_bit(spec_gpu_run(g, m, j).1.reg(IF), 0) == spec_bit(m.reg(IF), 0));
                assert(spec_gpu_mode(spec_gpu_run(g, m, j).1) == line_step_mode(j as int));
            }
        }
    }
}

/// A frame, from the OAM search of line 0: 144 lines of three steps (OAM search, pixel
/// transfer, HBLANK) with LY counting the lines, then VBLANK with its interrupt requested
/// when the display is on, then line 0 again; each step can be taken, and the frame
/// takes 154 lines' worth of machine cycles. Until VBLANK the VBLANK flag stays as it was.
pub proof fn lemma_frame<T: BankController>(g: GPUView, m: MemView<T>)
    requires
        frame_start(g, m),
    ensures
        gpu_run_ok(g, m, FRAME_STEPS as nat),
        gpu_run_cycles(g, m, FRAME_STEPS as nat) == FRAME_CYCLES,
        forall|k: nat| k < SCREEN_HEIGHT ==> (#[trigger] spec_gpu_run(g, m, 3 * k)).1.reg(LY_REG) == k,
        forall|j: nat| j < 3 * SCREEN_HEIGHT ==>
            spec_bit(#[trigger] spec_gpu_run(g, m, j).1.reg(IF), 0) == spec_bit(m.reg(IF), 0)
            && spec_gpu_mode(spec_gpu_run(g, m, j).1) == line_step_mode(j as int),
        spec_gpu_mode(spec_gpu_run(g, m, 3 * SCREEN_HEIGHT as nat).1) == GPUMode::VBLANK,
        spec_bit(m.reg(LCDC), 7) ==> spec_bit(spec_gpu_run(g, m, 3 * SCREEN_HEIGHT as nat).1.reg(IF), 0),
        frame_start(spec_gpu_run(g, m, FRAME_STEPS as nat).0, spec_gpu_run(g, m, FRAME_STEPS as nat).1),
        spec_gpu_run(g, m, FRAME_STEPS as nat).0.lx == 0,
        spec_gpu_run(g, m, FRAME_STEPS as nat).1.reg(LCDC) == m.reg(LCDC),
{
    let n = (3 * SCREEN_HEIGHT) as nat;
    lemma_lines(g, m, SCREEN_HEIGHT as nat);
    assert forall|k: nat| k < SCREEN_HEIGHT implies (#[trigger] spec_gpu_run(g, m, 3 * k)).1.reg(LY_REG) == k by {
        lemma_lines(g, m, k);
    }
    assert forall|j: nat| j < 3 * SCREEN_HEIGHT implies
        spec_bit(#[trigger] spec_gpu_run(g, m, j).1.reg(IF), 0) == spec_bit(m.reg(IF), 0)
        && spec_gpu_mode(spec_gpu_run(g, m, j).1) == line_step_mode(j as int) by {
        assert(j < 3 * (SCREEN_HEIGHT as nat));
        assert(spec_bit(spec_gpu_run(g, m, j).1.reg(IF), 0) == spec_bit(m.reg(IF), 0));
        assert(spec_gpu_mode(spec_gpu_run(g, m, j).1) == line_step_mode(j as int));
    }
    let gv = spec_gpu_run(g, m, n).0;
    let mv = spec_gpu_run(g, m, n).1;
    // VBLANK
    let m0 = spec_update_ly(gv.ly, mv);
    lemma_mode_after_update_ly(gv.ly, mv);
    let mz = spec_update_ly(0, m0);
    lemma_mode_after_update_ly(0, m0);
    let mo = spec_set_mode(mz, GPUMode::OAM_SEARCH);
    lemma_mode_after_set(mz, GPUMode::OAM_SEARCH);
    lemma_ints_keep(mo, 0, 5);
    let gf = GPUView { lx: 0, ly: 0, wy: 0, ..gv };
    let mf = spec_stat_int(mo, 5);
    assert(<GPU as Clocked<T>>::spec_step(gv, mv) == (gf, mf));
    lemma_run_split(g, m, n, 1);
    assert(spec_gpu_run(gv, mv, 0) == (gv, mv));
    assert(spec_gpu_run(gv, mv, 1) == (gf, mf));
    assert(gpu_run_ok(gv, mv, 0));
    assert(gpu_run_ok(gv, mv, 1));
    assert(gpu_run_cycles(gv, mv, 1) == VBLANK_CYCLES);
    assert(FRAME_STEPS as nat == n + 1);
}

} // verus!
