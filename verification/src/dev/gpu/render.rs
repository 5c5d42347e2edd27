//! Sprite search, pixel rendering and the mode state machine of the picture unit.
use crate::mem::{BankController, MMU, MemView, spec_bit, LCDC, STAT, SCX as SCX_REG, SCY as SCY_REG,
    WX as WX_REG, WY as WY_REG};
use crate::dev::Clocked;
use super::{GPU, GPUView, GPUMode, Sprite, Color, gpu_inv, spec_get_color, spec_bg_shade, spec_obp_shade,
    spec_color_num, spec_gpu_mode, spec_update_ly, spec_with_mode, spec_lyc_int, spec_stat_int, spec_lcd_int,
    SCREEN_WIDTH, SCREEN_HEIGHT, SPRITE_COUNT, SCANLINE_SPRITE_COUNT, TRANSPARENT, OAM_SEARCH_CYCLES,
    LCD_TRANSFER_CYCLES, HBLANK_CYCLES, VBLANK_CYCLES};
use crate::bits::lemma_and_le;
use vstd::prelude::*;

verus! {

/* OAM */

/// Sprite `i` as its four OAM bytes describe it: y, x, tile, flags (bit 7 priority,
/// 6 y flip, 5 x flip, 4 palette).
pub open spec fn spec_oam_sprite(oam: Seq<u8>, i: int) -> Sprite {
    let flg = oam[4 * i + 3];
    Sprite {
        y: oam[4 * i],
        x: oam[4 * i + 1],
        tile_idx: oam[4 * i + 2],
        priority: flg & 0x80 != 0,
        y_flip: flg & 0x40 != 0,
        x_flip: flg & 0x20 != 0,
        palette: flg & 0x10 != 0,
    }
}

pub open spec fn spec_oam_sprites(oam: Seq<u8>) -> Seq<Sprite> {
    Seq::new(SPRITE_COUNT as nat, |i: int| spec_oam_sprite(oam, i))
}

/// `e` inserted into `r` after the last sprite whose x is not above e's.
pub open spec fn insert_by_x(r: Seq<Sprite>, e: Sprite) -> Seq<Sprite>
    decreases r.len(),
{
    if r.len() == 0 {
        seq![e]
    } else if r.last().x <= e.x {
        r.push(e)
    } else {
        insert_by_x(r.drop_last(), e).push(r.last())
    }
}

/// The sprites ordered by x; sprites with equal x keep their order.
pub open spec fn sort_by_x(s: Seq<Sprite>) -> Seq<Sprite>
    decreases s.len(),
{
    if s.len() == 0 {
        s
    } else {
        insert_by_x(sort_by_x(s.drop_last()), s.last())
    }
}

/// The sprites of OAM, ordered by x.
pub open spec fn spec_read_oam<T: BankController>(m: MemView<T>) -> Seq<Sprite> {
    sort_by_x(spec_oam_sprites(m.oam))
}

/// Sprite `sp` of height `h` covers line `y` (in OAM coordinates, screen line + 16).
pub open spec fn on_line(sp: Sprite, y: int, h: int) -> bool {
    sp.y <= y && y < sp.y + h
}

/// The indices below `n` of the sprites that cover line `y`, in order.
pub open spec fn line_hits(sprites: Seq<Sprite>, y: int, h: int, n: int) -> Seq<usize>
    decreases n,
{
    if n <= 0 {
        Seq::empty()
    } else {
        let prev = line_hits(sprites, y, h, n - 1);
        if on_line(sprites[n - 1], y, h) { prev.push((n - 1) as usize) } else { prev }
    }
}

/// The line list: the first ten sprites that cover line `y`, then 0xFF marks.
pub open spec fn spec_sprites_line(sprites: Seq<Sprite>, y: int, h: int) -> Seq<usize> {
    let hits = line_hits(sprites, y, h, SPRITE_COUNT as int);
    Seq::new(SCANLINE_SPRITE_COUNT as nat, |i: int| if i < hits.len() { hits[i] } else { 0xFFusize })
}

/// The search examines sprites until ten are found; `y + h` of an examined sprite at
/// or above the line must fit in a byte.
pub open spec fn scan_ok(sprites: Seq<Sprite>, y: int, h: int) -> bool {
    forall|i: int| 0 <= i < SPRITE_COUNT && #[trigger] line_hits(sprites, y, h, i).len() < SCANLINE_SPRITE_COUNT
        && sprites[i].y <= y ==> sprites[i].y + h <= 255
}

/* Pixels */

/// VRAM offset of tile `tile`: from 0x8000 unsigned (LCDC bit 4 set) or around 0x9000 signed.
pub open spec fn spec_tile_addr(unsigned: bool, tile: u8) -> int {
    if unsigned {
        16 * tile
    } else if tile < 128 {
        0x1000 + 16 * tile
    } else {
        0x1000 - 16 * (256 - tile)
    }
}

/// Tile data addressing: unsigned, tile t starts at VRAM offset 16 * t (0x8000-0x8FFF);
/// signed, tiles 0-127 start 0x1000 higher (0x9000-0x97FF) and tiles 128-255 share
/// the unsigned addresses (0x8800-0x8FFF). Either way the 16 bytes of a tile lie
/// in 0x8000-0x97FF, below the tile maps at 0x9800.
pub proof fn lemma_tile_addressing(t: u8)
    ensures
        spec_tile_addr(true, t) == 16 * t,
        t >= 128 ==> spec_tile_addr(false, t) == spec_tile_addr(true, t),
        t < 128 ==> spec_tile_addr(false, t) == spec_tile_addr(true, t) + 0x1000,
        0x0800 <= spec_tile_addr(false, t) && spec_tile_addr(false, t) + 16 <= 0x1800,
        0 <= spec_tile_addr(true, t) && spec_tile_addr(true, t) + 16 <= 0x1000,
        forall|u: u8| u != t ==> #[trigger] spec_tile_addr(false, u) != spec_tile_addr(false, t),
{
}

/// Color number of pixel (x, y) of the 32x32 tile map at VRAM offset `map`.
pub open spec fn spec_map_color<T: BankController>(m: MemView<T>, map: int, x: int, y: int) -> u8 {
    let tile_no = m.vram[map + (32 * (y / 8) + x / 8) % 1024];
    let addr = spec_tile_addr(spec_bit(m.reg(LCDC), 4), tile_no);
    let row = y % 8;
    spec_color_num(m.vram[addr + 2 * row], m.vram[addr + 2 * row + 1], (x % 8) as u16)
}

pub open spec fn spec_bg_color<T: BankController>(m: MemView<T>, num: u8) -> Color {
    spec_get_color(spec_bg_shade(m, num))
}

/// The background pixel at (lx, ly): the map scrolled by SCX, SCY.
pub open spec fn spec_bg_dot<T: BankController>(g: GPUView, m: MemView<T>) -> GPUView {
    let x = (m.reg(SCX_REG) + g.lx) % 256;
    let y = (m.reg(SCY_REG) + g.ly) % 256;
    let map = if spec_bit(m.reg(LCDC), 3) { 0x1C00int } else { 0x1800int };
    let idx = g.ly * SCREEN_WIDTH + g.lx;
    if idx < g.framebuff.len() {
        GPUView { framebuff: g.framebuff.update(idx, spec_bg_color(m, spec_map_color(m, map, x, y))), ..g }
    } else {
        g
    }
}

/// The window pixel at (lx, ly), where the window (placed at WX - 7, WY) covers it;
/// its line is the window's own line counter.
pub open spec fn spec_window_dot<T: BankController>(g: GPUView, m: MemView<T>) -> GPUView {
    let lx = g.lx + 7;
    let wx = m.reg(WX_REG);
    if !(g.ly >= m.reg(WY_REG) && lx >= wx) {
        g
    } else {
        let map = if spec_bit(m.reg(LCDC), 6) { 0x1C00int } else { 0x1800int };
        let color = spec_map_color(m, map, lx - wx, g.wy as int);
        let idx = g.ly * SCREEN_WIDTH + lx - 7;
        let fb = if idx < g.framebuff.len() { g.framebuff.update(idx, spec_bg_color(m, color)) } else { g.framebuff };
        GPUView { win_rendered: true, framebuff: fb, ..g }
    }
}

/// The first sprite of the line list, from entry `k` up to the 0xFF mark, whose
/// columns (x - 8 to x - 1) cover lx.
pub open spec fn spec_dot_sprite(sprites: Seq<Sprite>, line: Seq<usize>, lx: u8, k: int) -> Option<Sprite>
    decreases SCANLINE_SPRITE_COUNT - k,
{
    if k < 0 || k >= SCANLINE_SPRITE_COUNT || line[k] == 0xFF {
        None
    } else {
        let sp = sprites[line[k] as int];
        if sp.x > lx && sp.x <= lx + 8 { Some(sp) } else { spec_dot_sprite(sprites, line, lx, k + 1) }
    }
}

pub open spec fn spec_sprite_height<T: BankController>(m: MemView<T>) -> int {
    if spec_bit(m.reg(LCDC), 2) { 16 } else { 8 }
}

/// Row of the sprite's tile data drawn on line ly; a flipped sprite counts from h.
pub open spec fn spec_sprite_row(sp: Sprite, ly: int, h: int) -> int {
    let r = ly + 16 - sp.y;
    if sp.y_flip { h - r } else { r }
}

/// The color of sprite `sp` at (lx, ly): transparent for color number 0, else its
/// shade in OBP0 or OBP1. Tall sprites use an even tile and the odd one below it.
pub open spec fn spec_sprite_color<T: BankController>(m: MemView<T>, sp: Sprite, lx: int, ly: int, h: int) -> Color {
    let row = spec_sprite_row(sp, ly, h);
    let tile: int = if h == 16 { if row >= 8 { (sp.tile_idx | 1) as int } else { (sp.tile_idx & 0xFE) as int } } else { sp.tile_idx as int };
    let r = if h == 16 && row >= 8 { row - 8 } else { row };
    let base = 16 * tile + 2 * r;
    let off = lx + 8 - sp.x;
    let col = if sp.x_flip { 7 - off } else { off };
    let num = spec_color_num(m.vram[base], m.vram[base + 1], col as u16);
    if num == 0 { TRANSPARENT } else { spec_get_color(spec_obp_shade(m, sp.palette, num)) }
}

/// The sprite pixel at (lx, ly): a sprite behind the background (priority flag)
/// shows only where the background has color 0's shade; transparent pixels leave it.
pub open spec fn spec_sprite_dot<T: BankController>(g: GPUView, m: MemView<T>) -> GPUView {
    match spec_dot_sprite(g.sprites, g.sprites_line, g.lx, 0) {
        None => g,
        Some(sp) => {
            let color = spec_sprite_color(m, sp, g.lx as int, g.ly as int, spec_sprite_height(m));
            let idx = g.ly * SCREEN_WIDTH + g.lx;
            let bg0 = spec_bg_color(m, spec_bg_shade(m, 0));
            if sp.priority && g.framebuff[idx] != bg0 {
                g
            } else if idx < g.framebuff.len() && color != TRANSPARENT {
                GPUView { framebuff: g.framebuff.update(idx, color), ..g }
            } else {
                g
            }
        },
    }
}

/// The sprite pixel can be computed: the line and row arithmetic stays within a
/// byte and a priority check reads a pixel of the screen.
pub open spec fn spec_sprite_dot_ok<T: BankController>(g: GPUView, m: MemView<T>) -> bool {
    match spec_dot_sprite(g.sprites, g.sprites_line, g.lx, 0) {
        None => true,
        Some(sp) => {
            &&& g.ly + 16 <= 255
            &&& sp.y <= g.ly + 16
            &&& sp.y_flip ==> g.ly + 16 - sp.y <= spec_sprite_height(m)
            &&& sp.priority ==> g.ly * SCREEN_WIDTH + g.lx < g.framebuff.len()
        },
    }
}

/// One dot: background and window when LCDC bit 0 is set (the window also needs
/// bit 5), then sprites when bit 1 is set.
pub open spec fn spec_dot<T: BankController>(g: GPUView, m: MemView<T>) -> GPUView {
    let g1 = if spec_bit(m.reg(LCDC), 0) {
        let gb = spec_bg_dot(g, m);
        if spec_bit(m.reg(LCDC), 5) { spec_window_dot(gb, m) } else { gb }
    } else {
        g
    };
    if spec_bit(m.reg(LCDC), 1) { spec_sprite_dot(g1, m) } else { g1 }
}

pub open spec fn spec_dot_ok<T: BankController>(g: GPUView, m: MemView<T>) -> bool {
    spec_bit(m.reg(LCDC), 1) ==> spec_sprite_dot_ok(g, m)
}

/// The line drawn from dot x on: every dot while the display is on; lx ends at 160.
pub open spec fn spec_line<T: BankController>(g: GPUView, m: MemView<T>, x: int) -> GPUView
    decreases SCREEN_WIDTH - x,
{
    if x >= SCREEN_WIDTH {
        GPUView { lx: SCREEN_WIDTH as u8, ..g }
    } else {
        let gx = GPUView { lx: x as u8, ..g };
        let g1 = if spec_bit(m.reg(LCDC), 7) { spec_dot(gx, m) } else { gx };
        spec_line(g1, m, x + 1)
    }
}

pub open spec fn line_ok<T: BankController>(g: GPUView, m: MemView<T>, x: int) -> bool
    decreases SCREEN_WIDTH - x,
{
    x >= SCREEN_WIDTH || {
        let gx = GPUView { lx: x as u8, ..g };
        &&& (spec_bit(m.reg(LCDC), 7) ==> spec_dot_ok(gx, m))
        &&& line_ok(if spec_bit(m.reg(LCDC), 7) { spec_dot(gx, m) } else { gx }, m, x + 1)
    }
}

/// STAT with its mode bits set to `mode`.
pub open spec fn spec_set_mode<T: BankController>(m: MemView<T>, mode: GPUMode) -> MemView<T> {
    m.poke(STAT, spec_with_mode(m.reg(STAT), mode))
}

/* Facts */

/// The line from dot x on does not depend on where lx stood.
proof fn lemma_line_lx<T: BankController>(g1: GPUView, g2: GPUView, m: MemView<T>, x: int)
    requires
        (GPUView { lx: 0, ..g1 }) == (GPUView { lx: 0, ..g2 }),
    ensures
        line_ok(g1, m, x) == line_ok(g2, m, x),
        spec_line(g1, m, x) == spec_line(g2, m, x),
{
    assert(GPUView { lx: x as u8, ..g1 } == GPUView { lx: x as u8, ..g2 });
    assert(GPUView { lx: SCREEN_WIDTH as u8, ..g1 } == GPUView { lx: SCREEN_WIDTH as u8, ..g2 });
}

proof fn lemma_insert_len(r: Seq<Sprite>, e: Sprite)
    ensures
        insert_by_x(r, e).len() == r.len() + 1,
    decreases r.len(),
{
    if r.len() > 0 && r.last().x > e.x {
        lemma_insert_len(r.drop_last(), e);
    }
}

pub(crate) proof fn lemma_sort_len(s: Seq<Sprite>)
    ensures
        sort_by_x(s).len() == s.len(),
    decreases s.len(),
{
    if s.len() > 0 {
        lemma_sort_len(s.drop_last());
        lemma_insert_len(sort_by_x(s.drop_last()), s.last());
    }
}

/// Inserting in front of a suffix whose sprites all lie right of `e` leaves the suffix.
proof fn lemma_insert_suffix(r: Seq<Sprite>, e: Sprite, j: int)
    requires
        0 <= j <= r.len(),
        forall|k: int| j <= k < r.len() ==> #[trigger] r[k].x > e.x,
    ensures
        insert_by_x(r, e) == insert_by_x(r.take(j), e) + r.skip(j),
    decreases r.len(),
{
    if j == r.len() {
        assert(r.take(j) =~= r);
        assert(r.skip(j) =~= Seq::<Sprite>::empty());
        assert(insert_by_x(r.take(j), e) + r.skip(j) =~= insert_by_x(r.take(j), e));
    } else {
        let r1 = r.drop_last();
        lemma_insert_suffix(r1, e, j);
        assert(r1.take(j) =~= r.take(j));
        assert(r1.skip(j).push(r.last()) =~= r.skip(j));
        assert((insert_by_x(r.take(j), e) + r1.skip(j)).push(r.last())
            =~= insert_by_x(r.take(j), e) + r.skip(j));
    }
}

proof fn lemma_hits_prefix(sprites: Seq<Sprite>, y: int, h: int, n: int, m: int)
    requires
        0 <= n <= m,
    ensures
        line_hits(sprites, y, h, n).len() <= line_hits(sprites, y, h, m).len(),
        forall|k: int| 0 <= k < line_hits(sprites, y, h, n).len() ==>
            #[trigger] line_hits(sprites, y, h, m)[k] == line_hits(sprites, y, h, n)[k],
        forall|k: int| 0 <= k < line_hits(sprites, y, h, m).len() ==>
            #[trigger] line_hits(sprites, y, h, m)[k] < m,
    decreases m - n,
{
    if n < m {
        lemma_hits_prefix(sprites, y, h, n, m - 1);
    } else {
        lemma_hits_bound(sprites, y, h, m);
    }
}

pub(crate) proof fn lemma_hits_bound(sprites: Seq<Sprite>, y: int, h: int, m: int)
    requires
        0 <= m,
    ensures
        line_hits(sprites, y, h, m).len() <= m,
        forall|k: int| 0 <= k < line_hits(sprites, y, h, m).len() ==>
            #[trigger] line_hits(sprites, y, h, m)[k] < m,
    decreases m,
{
    if m > 0 {
        lemma_hits_bound(sprites, y, h, m - 1);
    }
}

/// The sprites are ordered by x.
pub open spec fn sorted_by_x(s: Seq<Sprite>) -> bool {
    forall|i: int, j: int| 0 <= i < j < s.len() ==> #[trigger] s[i].x <= #[trigger] s[j].x
}

proof fn lemma_insert_sorted(r: Seq<Sprite>, e: Sprite)
    requires
        sorted_by_x(r),
    ensures
        sorted_by_x(insert_by_x(r, e)),
        insert_by_x(r, e).len() == r.len() + 1,
        insert_by_x(r, e).last() == if r.len() == 0 || r.last().x <= e.x { e } else { r.last() },
        insert_by_x(r, e).to_multiset() == r.to_multiset().insert(e),
    decreases r.len(),
{
    broadcast use vstd::seq_lib::group_to_multiset_ensures;
    if r.len() == 0 {
        assert(seq![e] =~= Seq::<Sprite>::empty().push(e));
    } else if r.last().x <= e.x {
    } else {
        let r1 = r.drop_last();
        assert(sorted_by_x(r1));
        lemma_insert_sorted(r1, e);
        let ins = insert_by_x(r1, e);
        assert(ins.last().x <= r.last().x);
        assert(r1.push(r.last()) =~= r);
        let res = ins.push(r.last());
        assert forall|i: int, j: int| 0 <= i < j < res.len() implies #[trigger] res[i].x <= #[trigger] res[j].x by {
            if j == res.len() - 1 && i < ins.len() - 1 {
                assert(ins[i].x <= ins[ins.len() - 1].x);
            }
        }
    }
}

proof fn lemma_sort_sorted(s: Seq<Sprite>)
    ensures
        sorted_by_x(sort_by_x(s)),
        sort_by_x(s).to_multiset() == s.to_multiset(),
    decreases s.len(),
{
    broadcast use vstd::seq_lib::group_to_multiset_ensures;
    if s.len() > 0 {
        lemma_sort_sorted(s.drop_last());
        lemma_insert_sorted(sort_by_x(s.drop_last()), s.last());
        assert(s.drop_last().push(s.last()) =~= s);
    }
}

/// Whether a sprite is at column `v`.
pub open spec fn x_is(v: u8) -> spec_fn(Sprite) -> bool {
    |sp: Sprite| sp.x == v
}

proof fn lemma_insert_stable(r: Seq<Sprite>, e: Sprite, v: u8)
    requires
        sorted_by_x(r),
    ensures
        insert_by_x(r, e).filter(x_is(v)) == if e.x == v { r.filter(x_is(v)).push(e) } else { r.filter(x_is(v)) },
    decreases r.len(),
{
    reveal(Seq::filter);
    if r.len() == 0 {
        assert(seq![e].drop_last() =~= r);
    } else if r.last().x <= e.x {
        assert(r.push(e).drop_last() =~= r);
    } else {
        let r1 = r.drop_last();
        assert(sorted_by_x(r1));
        lemma_insert_stable(r1, e, v);
        let ins = insert_by_x(r1, e);
        assert(ins.push(r.last()).drop_last() =~= ins);
    }
}

proof fn lemma_sort_stable(s: Seq<Sprite>, v: u8)
    ensures
        sort_by_x(s).filter(x_is(v)) == s.filter(x_is(v)),
    decreases s.len(),
{
    reveal(Seq::filter);
    if s.len() > 0 {
        lemma_sort_stable(s.drop_last(), v);
        lemma_sort_sorted(s.drop_last());
        lemma_insert_stable(sort_by_x(s.drop_last()), s.last(), v);
    }
}

/// The sprites read from OAM are ordered by x and are exactly the sprites that OAM
/// describes, each as often as it occurs there; sprites at the same x keep their
/// OAM order.
pub proof fn lemma_read_oam_sorted<T: BankController>(m: MemView<T>)
    ensures
        sorted_by_x(spec_read_oam(m)),
        spec_read_oam(m).to_multiset() == spec_oam_sprites(m.oam).to_multiset(),
        forall|v: u8| #[trigger] spec_read_oam(m).filter(x_is(v)) == spec_oam_sprites(m.oam).filter(x_is(v)),
{
    lemma_sort_sorted(spec_oam_sprites(m.oam));
    assert forall|v: u8| #[trigger] spec_read_oam(m).filter(x_is(v)) == spec_oam_sprites(m.oam).filter(x_is(v)) by {
        lemma_sort_stable(spec_oam_sprites(m.oam), v);
    }
}

/// Reads the sprites of OAM and orders them by x, keeping the order of equal x.
fn read_oam<T: BankController>(mmu: &mut MMU<T>, sprites: &mut [Sprite; 40])
    requires
        old(mmu).inv(),
    ensures
        final(mmu).inv(),
        final(mmu)@ == old(mmu)@,
        final(sprites)@ == spec_read_oam(old(mmu)@),
{
    let ghost decoded = spec_oam_sprites(mmu@.oam);
    let mut off: usize = 0;
    let mut i: usize = 0;
    while i < SPRITE_COUNT
        invariant
            mmu.inv(),
            i <= SPRITE_COUNT,
            off == 4 * i,
            sprites@.len() == SPRITE_COUNT,
            decoded == spec_oam_sprites(mmu@.oam),
            forall|k: int| 0 <= k < i ==> #[trigger] sprites@[k] == decoded[k],
        decreases SPRITE_COUNT - i,
    {
        let flg = mmu.oam[off + 3];
        let sprite = Sprite {
            y: mmu.oam[off],
            x: mmu.oam[off + 1],
            tile_idx: mmu.oam[off + 2],
            priority: flg & 0x80 != 0,
            y_flip: flg & 0x40 != 0,
            x_flip: flg & 0x20 != 0,
            palette: flg & 0x10 != 0,
        };
        sprites[i] = sprite;
        off += 4;
        i += 1;
    }
    assert(sprites@ =~= decoded);
    // Stable insertion sort by x
    let mut i: usize = 1;
    proof {
        assert(decoded.take(1).drop_last() =~= Seq::<Sprite>::empty());
        assert(sort_by_x(Seq::<Sprite>::empty()) =~= Seq::<Sprite>::empty());
        assert(insert_by_x(Seq::<Sprite>::empty(), decoded[0]) =~= seq![decoded[0]]);
        assert(sort_by_x(decoded.take(1)) =~= seq![decoded[0]]);
        assert(sprites@.take(1) =~= seq![decoded[0]]);
    }
    while i < SPRITE_COUNT
        invariant
            1 <= i <= SPRITE_COUNT,
            sprites@.len() == SPRITE_COUNT,
            decoded.len() == SPRITE_COUNT,
            sprites@.take(i as int) == sort_by_x(decoded.take(i as int)),
            sprites@.skip(i as int) == decoded.skip(i as int),
        decreases SPRITE_COUNT - i,
    {
        let ghost r = sprites@.take(i as int);
        let ghost rest = sprites@.skip(i as int + 1);
        let e = sprites[i];
        assert(e == decoded[i as int]) by {
            assert(sprites@.skip(i as int)[0] == decoded.skip(i as int)[0]);
        }
        proof {
            lemma_sort_len(decoded.take(i as int));
        }
        let mut j: usize = i;
        while j > 0 && sprites[j - 1].x > e.x
            invariant
                0 <= j <= i < SPRITE_COUNT,
                sprites@.len() == SPRITE_COUNT,
                r.len() == i,
                sprites@.take(j as int) == r.take(j as int),
                forall|k: int| j < k <= i ==> #[trigger] sprites@[k] == r[k - 1],
                forall|k: int| j <= k < i ==> #[trigger] r[k].x > e.x,
                sprites@.skip(i as int + 1) == rest,
            decreases j,
        {
            assert(sprites@[j - 1] == r[j - 1]) by {
                assert(sprites@.take(j as int)[j - 1] == r.take(j as int)[j - 1]);
            }
            let prev = sprites[j - 1];
            sprites[j] = prev;
            assert(sprites@.take(j as int - 1) =~= r.take(j as int - 1));
            j -= 1;
        }
        sprites[j] = e;
        proof {
            lemma_insert_suffix(r, e, j as int);
            if j > 0 {
                assert(r.take(j as int).last() == r[j - 1]);
                assert(insert_by_x(r.take(j as int), e) == r.take(j as int).push(e));
            } else {
                assert(r.take(0) =~= Seq::<Sprite>::empty());
                assert(insert_by_x(r.take(0), e) =~= seq![e]);
            }
            let di = decoded.take(i as int + 1);
            assert(di.drop_last() =~= decoded.take(i as int));
            assert(di.last() == e);
            assert(sprites@.take(i as int + 1) =~= insert_by_x(r.take(j as int), e) + r.skip(j as int));
            assert(sprites@.skip(i as int + 1) =~= decoded.skip(i as int + 1)) by {
                assert(rest =~= decoded.skip(i as int).skip(1));
                assert(decoded.skip(i as int).skip(1) =~= decoded.skip(i as int + 1));
            }
        }
        i += 1;
    }
    assert(sprites@ =~= sprites@.take(SPRITE_COUNT as int));
    assert(decoded =~= decoded.take(SPRITE_COUNT as int));
}

fn same_color(a: Color, b: Color) -> (res: bool)
    ensures
        res == (a == b),
{
    a.0 == b.0 && a.1 == b.1 && a.2 == b.2
}

impl GPU {
    // Fills sprites_line with the sprites on the current line
    fn oam_scanline<T: BankController>(&mut self, mmu: &mut MMU<T>)
        requires
            old(mmu).inv(),
            gpu_inv(old(self)@),
            old(self).ly + 16 <= 255,
            scan_ok(old(self)@.sprites, old(self).ly + 16, spec_sprite_height(old(mmu)@)),
        ensures
            final(mmu).inv(),
            final(mmu)@ == old(mmu)@,
            gpu_inv(final(self)@),
            final(self)@ == (GPUView {
                sprites_line: spec_sprites_line(old(self)@.sprites, old(self).ly + 16, spec_sprite_height(old(mmu)@)),
                ..old(self)@
            }),
    {
        let ghost g0 = self@;
        let y = self.ly + 16;
        let h: u8 = if GPU::SPRITE_SIZE(mmu) { 16 } else { 8 };
        let ghost hh = h as int;
        let ghost target = spec_sprites_line(g0.sprites, y as int, hh);
        let mut j: usize = 0;
        let mut i: usize = 0;
        while i < SPRITE_COUNT
            invariant
                mmu.inv(),
                mmu@ == old(mmu)@,
                hh == spec_sprite_height(old(mmu)@),
                y as int == old(self).ly + 16,
                g0 == old(self)@,
                gpu_inv(self@),
                i <= SPRITE_COUNT,
                self@ == (GPUView { sprites_line: self@.sprites_line, ..g0 }),
                j == line_hits(g0.sprites, y as int, hh, i as int).len(),
                j <= SCANLINE_SPRITE_COUNT,
                forall|k: int| 0 <= k < j ==> #[trigger] self@.sprites_line[k] == line_hits(g0.sprites, y as int, hh, i as int)[k],
                scan_ok(g0.sprites, y as int, hh),
                hh == h,
                target == spec_sprites_line(g0.sprites, y as int, hh),
            decreases SPRITE_COUNT - i,
        {
            if j == SCANLINE_SPRITE_COUNT {
                proof {
                    lemma_hits_prefix(g0.sprites, y as int, hh, i as int, SPRITE_COUNT as int);
                    assert(self@.sprites_line =~= target);
                }
                return;
            }
            let sprite = self.sprites[i];
            proof {
                lemma_hits_bound(g0.sprites, y as int, hh, i as int);
                assert(line_hits(g0.sprites, y as int, hh, i as int).len() < SCANLINE_SPRITE_COUNT);
            }
            if y >= sprite.y && y < sprite.y + h {
                self.sprites_line[j] = i;
                j += 1;
            }
            i += 1;
        }
        let ghost hits = line_hits(g0.sprites, y as int, hh, SPRITE_COUNT as int);
        let mut k: usize = j;
        while k < SCANLINE_SPRITE_COUNT
            invariant
                j <= k <= SCANLINE_SPRITE_COUNT,
                gpu_inv(self@),
                self@ == (GPUView { sprites_line: self@.sprites_line, ..g0 }),
                j == hits.len(),
                hits == line_hits(g0.sprites, y as int, hh, SPRITE_COUNT as int),
                forall|q: int| 0 <= q < j ==> #[trigger] self@.sprites_line[q] == hits[q],
                forall|q: int| j <= q < k ==> #[trigger] self@.sprites_line[q] == 0xFF,
            decreases SCANLINE_SPRITE_COUNT - k,
        {
            self.sprites_line[k] = 0xFF;
            k += 1;
        }
        proof {
            lemma_hits_bound(g0.sprites, y as int, hh, SPRITE_COUNT as int);
            assert(self@.sprites_line =~= target);
        }
    }
}

/// Color number of pixel (x, y) of the tile map at VRAM offset `map`.
fn map_color<T: BankController>(mmu: &mut MMU<T>, map: usize, x: usize, y: usize) -> (res: u8)
    requires
        old(mmu).inv(),
        map == 0x1800 || map == 0x1C00,
        x < 0x10000,
        y < 0x10000,
    ensures
        final(mmu).inv(),
        final(mmu)@ == old(mmu)@,
        res == spec_map_color(old(mmu)@, map as int, x as int, y as int),
        res <= 3,
{
    // Find tile coordinates
    let x_tile = x / 8;
    let y_tile = y / 8;
    let off = (32 * y_tile + x_tile) % 1024;
    let tile_no = mmu.vram[map + off];
    // By using the tile number, fetch the tile data from VRAM
    let tile_addr: usize = if GPU::TILE_ADDRESSING(mmu) {
        // 8000-8FFF unsigned addressing
        16 * tile_no as usize
    } else if tile_no < 128 {
        // 8800-97FF signed addressing
        0x1000 + 16 * tile_no as usize
    } else {
        0x1000 - 16 * (256 - tile_no as usize)
    };
    // Which row and column to render
    let tile_row = y - y_tile * 8;
    let b1 = mmu.vram[tile_addr + 2 * tile_row];
    let b2 = mmu.vram[tile_addr + 2 * tile_row + 1];
    let tile_col = (x - x_tile * 8) as u16;
    GPU::bytes_to_color_num(b1, b2, tile_col)
}

impl GPU {
    fn draw_window<T: BankController>(&mut self, mmu: &mut MMU<T>)
        requires
            old(mmu).inv(),
            gpu_inv(old(self)@),
        ensures
            final(mmu).inv(),
            final(mmu)@ == old(mmu)@,
            gpu_inv(final(self)@),
            final(self)@ == spec_window_dot(old(self)@, old(mmu)@),
    {
        let lx = self.lx as usize + 7;
        let ly = self.ly as usize;
        let wx = GPU::WX(mmu) as usize;
        let wy = GPU::WY(mmu) as usize;

        let in_window = ly >= wy && lx >= wx;
        if !in_window {
            return;
        }
        self.win_rendered = true;
        let tile_map: usize = if GPU::WINDOW_TILE_MAP(mmu) { 0x1C00 } else { 0x1800 };
        let color = map_color(mmu, tile_map, lx - wx, self.wy as usize);
        let pixel_idx = ly * SCREEN_WIDTH + lx - 7;
        if pixel_idx < self.framebuff.len() {
            let c = GPU::bg_color(mmu, color);
            self.framebuff.set(pixel_idx, c);
        }
    }

    fn draw_background<T: BankController>(&mut self, mmu: &mut MMU<T>)
        requires
            old(mmu).inv(),
            gpu_inv(old(self)@),
        ensures
            final(mmu).inv(),
            final(mmu)@ == old(mmu)@,
            gpu_inv(final(self)@),
            final(self)@ == spec_bg_dot(old(self)@, old(mmu)@),
    {
        let lx = self.lx as usize;
        let ly = self.ly as usize;
        let scx = GPU::SCX(mmu) as usize;
        let scy = GPU::SCY(mmu) as usize;
        let tile_map: usize = if GPU::BG_TILE_MAP(mmu) { 0x1C00 } else { 0x1800 };
        // Coordinates of the pixel in the map
        let x = (scx + lx) % 256;
        let y = (scy + ly) % 256;
        let color = map_color(mmu, tile_map, x, y);
        let pixel_idx = ly * SCREEN_WIDTH + lx;
        if pixel_idx < self.framebuff.len() {
            let c = GPU::bg_color(mmu, color);
            self.framebuff.set(pixel_idx, c);
        }
    }

    /// The sprite of the line list to draw at the current dot.
    fn find_sprite(&self) -> (res: Option<Sprite>)
        requires
            gpu_inv(self@),
            self.lx < SCREEN_WIDTH,
        ensures
            res == spec_dot_sprite(self@.sprites, self@.sprites_line, self.lx, 0),
            res matches Some(sp) ==> sp.x > self.lx && sp.x <= self.lx + 8,
    {
        let lx = self.lx;
        let mut k: usize = 0;
        while k < SCANLINE_SPRITE_COUNT
            invariant
                gpu_inv(self@),
                lx == self.lx,
                self.lx < SCREEN_WIDTH,
                k <= SCANLINE_SPRITE_COUNT,
                spec_dot_sprite(self@.sprites, self@.sprites_line, lx, 0)
                    == spec_dot_sprite(self@.sprites, self@.sprites_line, lx, k as int),
            decreases SCANLINE_SPRITE_COUNT - k,
        {
            let idx = self.sprites_line[k];
            if idx == 0xFF {
                return None;
            }
            let tmp = self.sprites[idx];
            if tmp.x > lx && tmp.x <= lx + 8 {
                return Some(tmp);
            }
            k += 1;
        }
        None
    }

    fn draw_sprite<T: BankController>(&mut self, mmu: &mut MMU<T>)
        requires
            old(mmu).inv(),
            gpu_inv(old(self)@),
            old(self).lx < SCREEN_WIDTH,
            spec_sprite_dot_ok(old(self)@, old(mmu)@),
        ensures
            final(mmu).inv(),
            final(mmu)@ == old(mmu)@,
            gpu_inv(final(self)@),
            final(self)@ == spec_sprite_dot(old(self)@, old(mmu)@),
    {
        let sprite_h: u8 = if GPU::SPRITE_SIZE(mmu) { 16 } else { 8 };
        let sprite_w: u8 = 8;
        let lx = self.lx;
        let ly = self.ly;
        // Find the sprite to draw
        let sprite_to_render = self.find_sprite();
        if let Some(sprite) = sprite_to_render {
            let mut sprite_row = (ly + 16) - sprite.y;
            if sprite.y_flip {
                sprite_row = sprite_h - sprite_row;
            }
            let base_addr: usize = if sprite_h == 16 {
                // 8x16 sprites
                let tile_idx = if sprite_row >= 8 {
                    sprite_row -= 8;
                    sprite.tile_idx | 0x01
                } else {
                    sprite.tile_idx & 0xFE
                };
                16 * (tile_idx as usize) + 2 * sprite_row as usize
            } else {
                // 8x8 sprites
                16 * (sprite.tile_idx as usize) + 2 * sprite_row as usize
            };
            // b1 and b2 are the two bytes of the sprite's tile row
            let b1 = mmu.vram[base_addr];
            let b2 = mmu.vram[base_addr + 1];
            // Locate the pixel's column
            let off = (lx + sprite_w) - sprite.x;
            let sprite_col = if sprite.x_flip { sprite_w - 1 - off } else { off };
            // Look up the color
            let color_idx = GPU::bytes_to_color_num(b1, b2, sprite_col as u16);
            let color = if sprite.palette {
                GPU::obp1_color(mmu, color_idx)
            } else {
                GPU::obp0_color(mmu, color_idx)
            };
            let pixel_idx = ly as usize * SCREEN_WIDTH + lx as usize;
            // Handle sprite priority
            let bg_color_0_id = GPU::BG_COLOR_0_SHADE(mmu);
            let bg_color_0 = GPU::bg_color(mmu, bg_color_0_id);
            if sprite.priority && !same_color(self.framebuff[pixel_idx], bg_color_0) {
                return;
            }
            // Put it in the framebuffer
            if pixel_idx < self.framebuff.len() && !same_color(color, TRANSPARENT) {
                self.framebuff.set(pixel_idx, color);
            }
        }
    }

    fn draw_dot<T: BankController>(&mut self, mmu: &mut MMU<T>)
        requires
            old(mmu).inv(),
            gpu_inv(old(self)@),
            old(self).lx < SCREEN_WIDTH,
            spec_dot_ok(old(self)@, old(mmu)@),
        ensures
            final(mmu).inv(),
            final(mmu)@ == old(mmu)@,
            gpu_inv(final(self)@),
            final(self)@ == spec_dot(old(self)@, old(mmu)@),
    {
        if GPU::DISPLAY_PRIORITY(mmu) {
            self.draw_background(mmu);
            if GPU::WINDOW_ENABLED(mmu) {
                self.draw_window(mmu);
            }
        }
        if GPU::SPRITE_ENABLED(mmu) {
            self.draw_sprite(mmu);
        }
    }

    /// Draws the rest of the line, dot by dot.
    fn draw_line<T: BankController>(&mut self, mmu: &mut MMU<T>)
        requires
            old(mmu).inv(),
            gpu_inv(old(self)@),
            line_ok(old(self)@, old(mmu)@, old(self).lx as int),
        ensures
            final(mmu).inv(),
            final(mmu)@ == old(mmu)@,
            gpu_inv(final(self)@),
            final(self)@ == spec_line(old(self)@, old(mmu)@, old(self).lx as int),
    {
        while self.lx < SCREEN_WIDTH as u8
            invariant
                mmu.inv(),
                mmu@ == old(mmu)@,
                gpu_inv(self@),
                line_ok(self@, mmu@, self.lx as int),
                spec_line(self@, mmu@, self.lx as int) == spec_line(old(self)@, old(mmu)@, old(self).lx as int),
            decreases SCREEN_WIDTH - self.lx,
        {
            let ghost g = self@;
            let ghost x = self.lx as int;
            assert(g == GPUView { lx: x as u8, ..g });
            if GPU::LCD_DISPLAY_ENABLE(mmu) {
                self.draw_dot(mmu);
            }
            let ghost g1 = self@;
            self.lx += 1;
            proof {
                lemma_line_lx(self@, g1, mmu@, x + 1);
            }
        }
    }
}

impl<T: BankController> Clocked<T> for GPU {
    open spec fn dev_inv(v: GPUView) -> bool {
        gpu_inv(v)
    }

    /// The step's arithmetic stays within a byte: the sprite search of an OAM step
    /// (line + 16 and each examined sprite's y + height), the drawn line's sprite
    /// rows, and the line and window counters of an HBLANK step.
    open spec fn can_step(g: GPUView, m: MemView<T>) -> bool {
        let m0 = spec_update_ly(g.ly, m);
        let mode = spec_gpu_mode(m0);
        if mode == GPUMode::OAM_SEARCH {
            g.ly + 16 <= 255 && scan_ok(spec_read_oam(m0), g.ly + 16, spec_sprite_height(m0))
        } else if mode == GPUMode::LCD_TRANSFER {
            line_ok(g, m0, g.lx as int)
        } else if mode == GPUMode::HBLANK {
            g.ly < 255 && (g.win_rendered ==> g.wy < 255)
        } else {
            true
        }
    }

    open spec fn spec_next_time(g: GPUView, m: MemView<T>) -> u64 {
        let mode = spec_gpu_mode(m);
        if mode == GPUMode::OAM_SEARCH {
            OAM_SEARCH_CYCLES
        } else if mode == GPUMode::LCD_TRANSFER {
            LCD_TRANSFER_CYCLES
        } else if mode == GPUMode::HBLANK {
            HBLANK_CYCLES
        } else {
            VBLANK_CYCLES
        }
    }

    /// One step of the mode machine, after LY and the coincidence flag are refreshed:
    /// OAM search finds the line's sprites and raises the LY=LYC interrupt; the pixel
    /// transfer draws the line and enters HBLANK; HBLANK moves to the next line, into
    /// VBLANK (with its interrupt) after line 143; VBLANK returns to line 0.
    open spec fn spec_step(g: GPUView, m: MemView<T>) -> (GPUView, MemView<T>) {
        let m0 = spec_update_ly(g.ly, m);
        let mode = spec_gpu_mode(m0);
        if mode == GPUMode::OAM_SEARCH {
            let sprites = spec_read_oam(m0);
            let line = spec_sprites_line(sprites, g.ly + 16, spec_sprite_height(m0));
            (GPUView { sprites, sprites_line: line, ..g }, spec_set_mode(spec_lyc_int(m0), GPUMode::LCD_TRANSFER))
        } else if mode == GPUMode::LCD_TRANSFER {
            (spec_line(g, m0, g.lx as int), spec_stat_int(spec_set_mode(m0, GPUMode::HBLANK), 3))
        } else if mode == GPUMode::HBLANK {
            let ly = (g.ly + 1) as u8;
            let g1 = GPUView {
                lx: 0,
                ly,
                win_rendered: false,
                wy: if g.win_rendered { (g.wy + 1) as u8 } else { g.wy },
                ..g
            };
            let m1 = spec_update_ly(ly, m0);
            if ly == SCREEN_HEIGHT {
                (g1, spec_stat_int(spec_lcd_int(spec_set_mode(m1, GPUMode::VBLANK), 0), 4))
            } else {
                (g1, spec_stat_int(spec_set_mode(m1, GPUMode::OAM_SEARCH), 5))
            }
        } else {
            (GPUView { lx: 0, ly: 0, wy: 0, ..g }, spec_stat_int(spec_set_mode(spec_update_ly(0, m0), GPUMode::OAM_SEARCH), 5))
        }
    }

    fn next_time(&self, mmu: &mut MMU<T>) -> (res: u64) {
        match GPU::MODE(mmu) {
            GPUMode::OAM_SEARCH => OAM_SEARCH_CYCLES,
            GPUMode::LCD_TRANSFER => LCD_TRANSFER_CYCLES,
            GPUMode::HBLANK => HBLANK_CYCLES,
            GPUMode::VBLANK => VBLANK_CYCLES,
        }
    }

    fn step(&mut self, mmu: &mut MMU<T>) {
        self.update_ly(mmu);
        match GPU::MODE(mmu) {
            GPUMode::OAM_SEARCH => {
                read_oam(mmu, &mut self.sprites);
                proof {
                    lemma_sort_len(spec_oam_sprites(mmu@.oam));
                }
                self.oam_scanline(mmu);
                // LY=LYC is signalled during the OAM search
                GPU::lyc_stat_int(mmu);
                GPU::_MODE(mmu, GPUMode::LCD_TRANSFER);
            },
            GPUMode::LCD_TRANSFER => {
                self.draw_line(mmu);
                GPU::_MODE(mmu, GPUMode::HBLANK);
                GPU::hblank_stat_int(mmu);
            },
            GPUMode::HBLANK => {
                self.lx = 0;
                self.ly += 1;
                if self.win_rendered {
                    self.win_rendered = false;
                    self.wy += 1;
                }
                self.update_ly(mmu);
                if self.ly == SCREEN_HEIGHT as u8 {
                    GPU::_MODE(mmu, GPUMode::VBLANK);
                    GPU::vblank_int(mmu);
                    GPU::vblank_stat_int(mmu);
                } else {
                    GPU::_MODE(mmu, GPUMode::OAM_SEARCH);
                    GPU::oam_stat_int(mmu);
                }
            },
            GPUMode::VBLANK => {
                self.lx = 0;
                self.ly = 0;
                self.update_ly(mmu);
                self.wy = 0;
                GPU::_MODE(mmu, GPUMode::OAM_SEARCH);
                GPU::oam_stat_int(mmu);
            },
        }
    }
}

} // verus!
