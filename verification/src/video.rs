use vstd::prelude::*;
use crate::bit_reader::BitReader;
use crate::errors::DecodeError;
use crate::huffman::{leaf_value, spec_decode, subtree_view, HeaderTree, HuffmanNode};
use crate::smacker::{block_size_lookup, spec_block_size};
use vstd::arithmetic::div_mod::{
    lemma_fundamental_div_mod, lemma_fundamental_div_mod_converse, lemma_multiply_divide_lt,
};

verus! {

/// The decode-relevant state of one combined-alphabet tree: its arena and
/// the three most-recently-used register slots.
pub ghost struct TreeState {
    pub arena: Seq<HuffmanNode>,
    pub l0: int,
    pub l1: int,
    pub l2: int,
}

/// The abstract state of a `HeaderTree`.
pub open spec fn ts_of(ht: HeaderTree) -> TreeState {
    TreeState {
        arena: ht.tree.node_arena@,
        l0: ht.head.last_nodes@[0] as int,
        l1: ht.head.last_nodes@[1] as int,
        l2: ht.head.last_nodes@[2] as int,
    }
}

pub open spec fn ts_opt(o: Option<HeaderTree>) -> Option<TreeState> {
    match o {
        Option::None => Option::None,
        Option::Some(ht) => Option::Some(ts_of(ht)),
    }
}

pub open spec fn opt_ht_wf(o: Option<HeaderTree>) -> bool {
    match o {
        Option::None => true,
        Option::Some(ht) => ht.wf(),
    }
}

/// One symbol decoded through a combined tree, with the register update
/// that `HeaderTree::get_value` performs: the decoded value, the bit
/// position after it, and the tree state after the most-recently-used
/// shift.
pub open spec fn spec_header_get(s: TreeState, b: Seq<u8>, pos: int) -> (u16, int, TreeState) {
    let vp = spec_decode(subtree_view(s.arena, 0), b, pos);
    let val = vp.0;
    if leaf_value(s.arena, s.l0) == val {
        (val, vp.1, s)
    } else {
        let a1 = s.arena.update(s.l2, HuffmanNode::Leaf { value: leaf_value(s.arena, s.l1) });
        let a2 = a1.update(s.l1, HuffmanNode::Leaf { value: leaf_value(a1, s.l0) });
        let a3 = a2.update(s.l0, HuffmanNode::Leaf { value: val });
        (val, vp.1, TreeState { arena: a3, l0: s.l0, l1: s.l1, l2: s.l2 })
    }
}

/// Decodes one symbol through an optional tree, failing when the stream
/// needs a tree the container never provided.
pub fn header_get(tree: &mut Option<HeaderTree>, reader: &mut BitReader) -> (r: Result<
    u16,
    DecodeError,
>)
    requires
        opt_ht_wf(*old(tree)),
        old(reader).wf(),
    ensures
        opt_ht_wf(*final(tree)),
        final(reader).wf(),
        final(reader).bytes@ == old(reader).bytes@,
        final(reader).bit_pos >= old(reader).bit_pos,
        (*final(tree)) is Some <==> (*old(tree)) is Some,
        ((*old(tree)) is Some ==> (*final(tree)).unwrap().head == (*old(tree)).unwrap().head
            && (*final(tree)).unwrap().tree.root_node_id == (*old(tree)).unwrap().tree.root_node_id),
        match r {
            Ok(v) => {
                &&& (*old(tree)) is Some
                &&& ({
                    let g = spec_header_get(
                        ts_of((*old(tree)).unwrap()),
                        old(reader).bytes@,
                        old(reader).bit_pos as int,
                    );
                    &&& v == g.0
                    &&& final(reader).bit_pos == g.1
                    &&& ts_of((*final(tree)).unwrap()) == g.2
                })
            },
            Err(e) => {
                &&& e == DecodeError::InvalidTag
                &&& (*old(tree)) is None
                &&& final(reader).bit_pos == old(reader).bit_pos
            },
        },
{
    match tree.as_mut() {
        Option::Some(t) => {
            let v = t.get_value(reader);
            Ok(v)
        },
        Option::None => Err(DecodeError::InvalidTag),
    }
}

/// A 4x4 cell's worth of pixels written over an image: cell top-left corner
/// at column `x`, row `y`, sixteen colors in row-major cell order.
pub open spec fn spec_write_cell(
    image: Seq<u8>,
    width: int,
    x: int,
    y: int,
    colors: Seq<u8>,
) -> Seq<u8> {
    Seq::new(
        image.len(),
        |i: int|
            {
                if y <= i / width < y + 4 && x <= i % width < x + 4 {
                    colors[(i / width - y) * 4 + (i % width - x)]
                } else {
                    image[i]
                }
            },
    )
}

/// The first `k` pixels (in row-major cell order) of a cell written.
pub open spec fn spec_partial_cell(
    image: Seq<u8>,
    width: int,
    x: int,
    y: int,
    colors: Seq<u8>,
    k: int,
) -> Seq<u8> {
    Seq::new(
        image.len(),
        |i: int|
            {
                if y <= i / width < y + 4 && x <= i % width < x + 4 && (i / width - y) * 4 + (i
                    % width - x) < k {
                    colors[(i / width - y) * 4 + (i % width - x)]
                } else {
                    image[i]
                }
            },
    )
}

/// Writes one 4x4 cell of pixels.
#[verifier::loop_isolation(false)]
pub fn write_cell(image: &mut Vec<u8>, width: usize, x: usize, y: usize, colors: [u8; 16])
    requires
        width > 0,
        x + 4 <= width,
        (y + 4) * width <= old(image)@.len(),
    ensures
        final(image)@ == spec_write_cell(
            old(image)@,
            width as int,
            x as int,
            y as int,
            colors@,
        ),
        final(image)@.len() == old(image)@.len(),
{
    let ghost img0 = image@;
    let ghost wi = width as int;
    let ghost xi = x as int;
    let ghost yi = y as int;
    let mut k: usize = 0;
    while k < 16
        invariant
            image@.len() == img0.len(),
            k <= 16,
            image@ == spec_partial_cell(img0, wi, xi, yi, colors@, k as int),
        decreases 16 - k,
    {
        let r = k / 4;
        let c = k % 4;
        proof {
            lemma_fundamental_div_mod(k as int, 4);
            assert((yi + r) * wi + (xi + c) < (yi + 4) * wi) by (nonlinear_arith)
                requires
                    xi + c < wi,
                    0 <= r < 4,
                    0 <= yi,
                    wi > 0,
            ;
            assert((yi + r) * wi + (xi + c) >= 0) by (nonlinear_arith)
                requires
                    0 <= yi,
                    0 <= r,
                    0 <= xi + c,
                    wi > 0,
            ;
            assert((yi + r) * wi <= (yi + 4) * wi) by (nonlinear_arith)
                requires
                    0 <= r < 4,
                    wi > 0,
                    0 <= yi,
            ;
            assert(yi + 4 <= (yi + 4) * wi) by (nonlinear_arith)
                requires
                    wi >= 1,
                    yi >= 0,
            ;
            assert(image@.len() == image.len());
        }
        let idx = (y + r) * width + (x + c);
        image[idx] = colors[k];
        proof {
            let ki = k as int;
            let idxi = idx as int;
            lemma_fundamental_div_mod_converse(idxi, wi, yi + r, xi + c);
            let prev = spec_partial_cell(img0, wi, xi, yi, colors@, ki);
            let updated = prev.update(idxi, colors@[ki]);
            assert forall|i: int| 0 <= i < img0.len() implies updated[i] == spec_partial_cell(
                img0,
                wi,
                xi,
                yi,
                colors@,
                ki + 1,
            )[i] by {
                lemma_fundamental_div_mod(i, wi);
                let row = i / wi;
                let col = i % wi;
                if yi <= row < yi + 4 && xi <= col < xi + 4 {
                    lemma_fundamental_div_mod_converse(
                        (row - yi) * 4 + (col - xi),
                        4,
                        row - yi,
                        col - xi,
                    );
                    if (row - yi) * 4 + (col - xi) == ki {
                        lemma_fundamental_div_mod(idxi, wi);
                        assert(row - yi == ki / 4 && col - xi == ki % 4);
                        assert(row == idxi / wi && col == idxi % wi);
                        assert(i == idxi);
                    }
                }
            }
            assert(updated =~= spec_partial_cell(img0, wi, xi, yi, colors@, ki + 1));
        }
        k = k + 1;
    }
    proof {
        assert(spec_partial_cell(img0, wi, xi, yi, colors@, 16) =~= spec_write_cell(
            img0,
            wi,
            xi,
            yi,
            colors@,
        ));
    }
}

/// Top-left pixel column of a block-grid cell.
pub open spec fn spec_cell_x(cur: int, width_blocks: int) -> int {
    (cur % width_blocks) * 4
}

/// Top-left pixel row of a block-grid cell.
pub open spec fn spec_cell_y(cur: int, width_blocks: int) -> int {
    (cur / width_blocks) * 4
}

/// The sixteen colors of a SOLID cell: one literal byte everywhere.
pub open spec fn spec_solid_colors(extra: u8) -> Seq<u8> {
    Seq::new(16, |k: int| extra)
}

/// The sixteen colors of a MONOCHROME cell: bit `k` of the mask picks the
/// high or low byte of the color pair.
pub open spec fn spec_mono_colors(pair: u16, mask: u16) -> Seq<u8> {
    Seq::new(
        16,
        |k: int|
            if (mask >> (k as u16)) & 1 == 1 {
                (pair / 0x100) as u8
            } else {
                (pair & 0xFF) as u8
            },
    )
}

/// The sixteen colors of a FULL cell from its four row pairs, each row
/// being the four bytes of its two decoded pairs (second-decoded pair
/// first).
pub open spec fn spec_full_row_colors(pair1: u16, pair0: u16) -> Seq<u8> {
    seq![
        (pair0 & 0xFF) as u8,
        (pair0 / 0x100) as u8,
        (pair1 & 0xFF) as u8,
        (pair1 / 0x100) as u8,
    ]
}

/// A SOLID chain: up to `n` consecutive cells filled with one literal
/// byte, stopping at the end of the block grid.
pub open spec fn spec_solid_chain(
    image: Seq<u8>,
    width: int,
    wb: int,
    count: int,
    cur: int,
    n: int,
    extra: u8,
) -> (Seq<u8>, int)
    decreases n,
{
    if n <= 0 || cur >= count {
        (image, cur)
    } else {
        spec_solid_chain(
            spec_write_cell(
                image,
                width,
                spec_cell_x(cur, wb),
                spec_cell_y(cur, wb),
                spec_solid_colors(extra),
            ),
            width,
            wb,
            count,
            cur + 1,
            n - 1,
            extra,
        )
    }
}

/// A MONOCHROME chain: each cell decodes a color pair through the color
/// tree and a 16-bit mask through the map tree, bit `k` of the mask picking
/// the color of pixel `k`.
pub open spec fn spec_mono_chain(
    clr: TreeState,
    map: TreeState,
    image: Seq<u8>,
    b: Seq<u8>,
    pos: int,
    width: int,
    wb: int,
    count: int,
    cur: int,
    n: int,
) -> (TreeState, TreeState, Seq<u8>, int, int)
    decreases n,
{
    if n <= 0 || cur >= count {
        (clr, map, image, pos, cur)
    } else {
        let g1 = spec_header_get(clr, b, pos);
        let g2 = spec_header_get(map, b, g1.1);
        let im2 = spec_write_cell(
            image,
            width,
            spec_cell_x(cur, wb),
            spec_cell_y(cur, wb),
            spec_mono_colors(g1.0, g2.0),
        );
        spec_mono_chain(g1.2, g2.2, im2, b, g2.1, width, wb, count, cur + 1, n - 1)
    }
}

/// One FULL cell: eight symbols decoded through the full tree (two per
/// row, the second decoded pair of each row holding the left two bytes),
/// yielding the tree state, the bit position after, and the sixteen colors.
pub open spec fn spec_full_cell(full: TreeState, b: Seq<u8>, pos: int) -> (TreeState, int, Seq<
    u8,
>) {
    let ga = spec_header_get(full, b, pos);
    let gb = spec_header_get(ga.2, b, ga.1);
    let gc = spec_header_get(gb.2, b, gb.1);
    let gd = spec_header_get(gc.2, b, gc.1);
    let ge = spec_header_get(gd.2, b, gd.1);
    let gf = spec_header_get(ge.2, b, ge.1);
    let gg = spec_header_get(gf.2, b, gf.1);
    let gh = spec_header_get(gg.2, b, gg.1);
    (
        gh.2,
        gh.1,
        spec_full_row_colors(ga.0, gb.0) + spec_full_row_colors(gc.0, gd.0)
            + spec_full_row_colors(ge.0, gf.0) + spec_full_row_colors(gg.0, gh.0),
    )
}

/// A FULL chain: each cell is sixteen literal palette indices.
pub open spec fn spec_full_chain(
    full: TreeState,
    image: Seq<u8>,
    b: Seq<u8>,
    pos: int,
    width: int,
    wb: int,
    count: int,
    cur: int,
    n: int,
) -> (TreeState, Seq<u8>, int, int)
    decreases n,
{
    if n <= 0 || cur >= count {
        (full, image, pos, cur)
    } else {
        let fc = spec_full_cell(full, b, pos);
        let im2 = spec_write_cell(
            image,
            width,
            spec_cell_x(cur, wb),
            spec_cell_y(cur, wb),
            fc.2,
        );
        spec_full_chain(fc.0, im2, b, fc.1, width, wb, count, cur + 1, n - 1)
    }
}

/// The whole mutable state of one frame's video decode.
pub ghost struct VideoState {
    pub mmap: Option<TreeState>,
    pub mclr: Option<TreeState>,
    pub full: Option<TreeState>,
    pub typ: Option<TreeState>,
    pub image: Seq<u8>,
    pub pos: int,
    pub cur: int,
}

/// One step of the block loop: decode a type descriptor through the type
/// tree, split it into block kind, chain length index and SOLID fill byte,
/// and apply the chain.  `None` marks a stream that needs a tree the
/// container never provided.
pub open spec fn spec_video_step(
    s: VideoState,
    b: Seq<u8>,
    width: int,
    wb: int,
    count: int,
) -> Option<VideoState> {
    if s.typ is None {
        Option::None
    } else {
        let g = spec_header_get(s.typ.unwrap(), b, s.pos);
        let td = g.0;
        let kind = td & 3;
        let rest = td >> 2u16;
        let chain = spec_block_size((rest & 0x3F) as int);
        let extra = (rest >> 6u16) as u8;
        if kind == 2 {
            Option::Some(
                VideoState {
                    typ: Option::Some(g.2),
                    pos: g.1,
                    cur: s.cur + chain,
                    mmap: s.mmap,
                    mclr: s.mclr,
                    full: s.full,
                    image: s.image,
                },
            )
        } else if kind == 3 {
            let sc = spec_solid_chain(s.image, width, wb, count, s.cur, chain, extra);
            Option::Some(
                VideoState {
                    typ: Option::Some(g.2),
                    pos: g.1,
                    cur: sc.1,
                    image: sc.0,
                    mmap: s.mmap,
                    mclr: s.mclr,
                    full: s.full,
                },
            )
        } else if kind == 0 {
            if s.mclr is None || s.mmap is None {
                Option::None
            } else {
                let mc = spec_mono_chain(
                    s.mclr.unwrap(),
                    s.mmap.unwrap(),
                    s.image,
                    b,
                    g.1,
                    width,
                    wb,
                    count,
                    s.cur,
                    chain,
                );
                Option::Some(
                    VideoState {
                        mclr: Option::Some(mc.0),
                        mmap: Option::Some(mc.1),
                        image: mc.2,
                        pos: mc.3,
                        cur: mc.4,
                        typ: Option::Some(g.2),
                        full: s.full,
                    },
                )
            }
        } else {
            if s.full is None {
                Option::None
            } else {
                let fc = spec_full_chain(
                    s.full.unwrap(),
                    s.image,
                    b,
                    g.1,
                    width,
                    wb,
                    count,
                    s.cur,
                    chain,
                );
                Option::Some(
                    VideoState {
                        full: Option::Some(fc.0),
                        image: fc.1,
                        pos: fc.2,
                        cur: fc.3,
                        typ: Option::Some(g.2),
                        mmap: s.mmap,
                        mclr: s.mclr,
                    },
                )
            }
        }
    }
}

/// The block loop run to completion (the grid is covered, or the fuel —
/// one unit per chain, at most one chain per cell — runs out).
pub open spec fn spec_video_run(
    s: VideoState,
    b: Seq<u8>,
    width: int,
    wb: int,
    count: int,
    fuel: nat,
) -> Option<VideoState>
    decreases fuel,
{
    if s.cur >= count || fuel == 0 {
        Option::Some(s)
    } else {
        match spec_video_step(s, b, width, wb, count) {
            Option::None => Option::None,
            Option::Some(s2) => spec_video_run(s2, b, width, wb, count, (fuel - 1) as nat),
        }
    }
}

/// Fills up to `chain_length` consecutive cells with the literal byte
/// `extra`, stopping at the end of the grid; returns the next cell index.
#[verifier::loop_isolation(false)]
pub fn solid_chain(
    image: &mut Vec<u8>,
    width: usize,
    width_blocks: usize,
    height_blocks: usize,
    count_blocks: usize,
    current_block: usize,
    chain_length: usize,
    extra: u8,
) -> (r: usize)
    requires
        4 * width_blocks <= width,
        count_blocks == width_blocks * height_blocks,
        4 * height_blocks * width <= old(image)@.len(),
        chain_length <= 2048,
        count_blocks + 2048 <= usize::MAX,
        current_block <= count_blocks,
    ensures
        final(image)@.len() == old(image)@.len(),
        ({
            let sc = spec_solid_chain(
                old(image)@,
                width as int,
                width_blocks as int,
                count_blocks as int,
                current_block as int,
                chain_length as int,
                extra,
            );
            final(image)@ == sc.0 && r == sc.1
        }),
        current_block <= r <= count_blocks,
        current_block < count_blocks && chain_length >= 1 ==> r > current_block,
{
    let ghost img0 = image@;
    let ghost wi = width as int;
    let ghost wbi = width_blocks as int;
    let ghost cnt = count_blocks as int;
    let ghost target = spec_solid_chain(
        img0,
        wi,
        wbi,
        cnt,
        current_block as int,
        chain_length as int,
        extra,
    );
    let colors: [u8; 16] = [
        extra,
        extra,
        extra,
        extra,
        extra,
        extra,
        extra,
        extra,
        extra,
        extra,
        extra,
        extra,
        extra,
        extra,
        extra,
        extra,
    ];
    proof {
        assert(colors@ =~= spec_solid_colors(extra));
    }
    let mut cur = current_block;
    let mut n = chain_length;
    while n > 0 && cur < count_blocks
        invariant
            image@.len() == img0.len(),
            cur <= count_blocks,
            current_block <= cur,
            cur == current_block + (chain_length - n),
            n <= chain_length,
            spec_solid_chain(image@, wi, wbi, cnt, cur as int, n as int, extra) == target,
        decreases n,
    {
        proof {
            if width_blocks == 0 {
                assert(count_blocks == 0);
            }
            lemma_multiply_divide_lt(cur as int, wbi, height_blocks as int);
            assert((spec_cell_y(cur as int, wbi) + 4) * wi <= 4 * (height_blocks as int) * wi)
                by (nonlinear_arith)
                requires
                    spec_cell_y(cur as int, wbi) + 4 <= 4 * (height_blocks as int),
                    wi >= 0,
            ;
            assert(4 * (height_blocks as int) <= 4 * (height_blocks as int) * wi)
                by (nonlinear_arith)
                requires
                    wi >= 1,
                    height_blocks as int >= 0,
            ;
            assert(image@.len() == image.len());
        }
        let x = (cur % width_blocks) * 4;
        let y = (cur / width_blocks) * 4;
        write_cell(image, width, x, y, colors);
        cur = cur + 1;
        n = n - 1;
    }
    cur
}

/// Decodes one MONOCHROME chain; both the color and the map tree must be
/// present (the caller checks).  Returns the next cell index.
#[verifier::loop_isolation(false)]
pub fn mono_chain(
    m_clr_tree: &mut Option<HeaderTree>,
    m_map_tree: &mut Option<HeaderTree>,
    image: &mut Vec<u8>,
    reader: &mut BitReader,
    width: usize,
    width_blocks: usize,
    height_blocks: usize,
    count_blocks: usize,
    current_block: usize,
    chain_length: usize,
) -> (r: usize)
    requires
        (*old(m_clr_tree)) is Some,
        (*old(m_map_tree)) is Some,
        opt_ht_wf(*old(m_clr_tree)),
        opt_ht_wf(*old(m_map_tree)),
        old(reader).wf(),
        4 * width_blocks <= width,
        count_blocks == width_blocks * height_blocks,
        4 * height_blocks * width <= old(image)@.len(),
        chain_length <= 2048,
        count_blocks + 2048 <= usize::MAX,
        current_block <= count_blocks,
    ensures
        final(image)@.len() == old(image)@.len(),
        (*final(m_clr_tree)) is Some,
        (*final(m_map_tree)) is Some,
        opt_ht_wf(*final(m_clr_tree)),
        opt_ht_wf(*final(m_map_tree)),
        (*final(m_clr_tree)).unwrap().head == (*old(m_clr_tree)).unwrap().head,
        (*final(m_map_tree)).unwrap().head == (*old(m_map_tree)).unwrap().head,
        (*final(m_clr_tree)).unwrap().tree.root_node_id == (*old(
            m_clr_tree,
        )).unwrap().tree.root_node_id,
        (*final(m_map_tree)).unwrap().tree.root_node_id == (*old(
            m_map_tree,
        )).unwrap().tree.root_node_id,
        final(reader).wf(),
        final(reader).bytes@ == old(reader).bytes@,
        final(reader).bit_pos >= old(reader).bit_pos,
        ({
            let mc = spec_mono_chain(
                ts_of((*old(m_clr_tree)).unwrap()),
                ts_of((*old(m_map_tree)).unwrap()),
                old(image)@,
                old(reader).bytes@,
                old(reader).bit_pos as int,
                width as int,
                width_blocks as int,
                count_blocks as int,
                current_block as int,
                chain_length as int,
            );
            &&& ts_of((*final(m_clr_tree)).unwrap()) == mc.0
            &&& ts_of((*final(m_map_tree)).unwrap()) == mc.1
            &&& final(image)@ == mc.2
            &&& final(reader).bit_pos == mc.3
            &&& r == mc.4
        }),
        current_block <= r <= count_blocks,
        current_block < count_blocks && chain_length >= 1 ==> r > current_block,
{
    let ghost img0 = image@;
    let ghost b = reader.bytes@;
    let ghost wi = width as int;
    let ghost wbi = width_blocks as int;
    let ghost cnt = count_blocks as int;
    let ghost target = spec_mono_chain(
        ts_of((*m_clr_tree).unwrap()),
        ts_of((*m_map_tree).unwrap()),
        img0,
        b,
        reader.bit_pos as int,
        wi,
        wbi,
        cnt,
        current_block as int,
        chain_length as int,
    );
    let mut cur = current_block;
    let mut n = chain_length;
    while n > 0 && cur < count_blocks
        invariant
            image@.len() == img0.len(),
            cur <= count_blocks,
            current_block <= cur,
            cur == current_block + (chain_length - n),
            n <= chain_length,
            (*m_clr_tree) is Some,
            (*m_map_tree) is Some,
            opt_ht_wf(*m_clr_tree),
            opt_ht_wf(*m_map_tree),
            (*m_clr_tree).unwrap().head == (*old(m_clr_tree)).unwrap().head,
            (*m_map_tree).unwrap().head == (*old(m_map_tree)).unwrap().head,
            (*m_clr_tree).unwrap().tree.root_node_id == (*old(
                m_clr_tree,
            )).unwrap().tree.root_node_id,
            (*m_map_tree).unwrap().tree.root_node_id == (*old(
                m_map_tree,
            )).unwrap().tree.root_node_id,
            reader.wf(),
            reader.bytes@ == b,
            reader.bit_pos >= old(reader).bit_pos,
            spec_mono_chain(
                ts_of((*m_clr_tree).unwrap()),
                ts_of((*m_map_tree).unwrap()),
                image@,
                b,
                reader.bit_pos as int,
                wi,
                wbi,
                cnt,
                cur as int,
                n as int,
            ) == target,
        decreases n,
    {
        let pair = match header_get(m_clr_tree, reader) {
            Ok(v) => v,
            Err(_) => {
                proof {
                    assert(false);
                }
                0
            },
        };
        let mask = match header_get(m_map_tree, reader) {
            Ok(v) => v,
            Err(_) => {
                proof {
                    assert(false);
                }
                0
            },
        };
        let c0 = (pair & 0xFF) as u8;
        let c1 = (pair / 0x100) as u8;
        let mut colors = [0u8;16];
        let mut kk: usize = 0;
        while kk < 16
            invariant
                kk <= 16,
                forall|j: int| 0 <= j < kk ==> colors@[j] == spec_mono_colors(pair, mask)[j],
            decreases 16 - kk,
        {
            colors[kk] = if ((mask >> (kk as u16)) & 1) == 1 {
                c1
            } else {
                c0
            };
            kk = kk + 1;
        }
        proof {
            assert(colors@ =~= spec_mono_colors(pair, mask));
            if width_blocks == 0 {
                assert(count_blocks == 0);
            }
            lemma_multiply_divide_lt(cur as int, wbi, height_blocks as int);
            assert((spec_cell_y(cur as int, wbi) + 4) * wi <= 4 * (height_blocks as int) * wi)
                by (nonlinear_arith)
                requires
                    spec_cell_y(cur as int, wbi) + 4 <= 4 * (height_blocks as int),
                    wi >= 0,
            ;
            assert(4 * (height_blocks as int) <= 4 * (height_blocks as int) * wi)
                by (nonlinear_arith)
                requires
                    wi >= 1,
                    height_blocks as int >= 0,
            ;
            assert(image@.len() == image.len());
        }
        let x = (cur % width_blocks) * 4;
        let y = (cur / width_blocks) * 4;
        write_cell(image, width, x, y, colors);
        cur = cur + 1;
        n = n - 1;
    }
    cur
}

/// Decodes one FULL chain; the full tree must be present (the caller
/// checks).  Returns the next cell index.
#[verifier::loop_isolation(false)]
pub fn full_chain(
    full_tree: &mut Option<HeaderTree>,
    image: &mut Vec<u8>,
    reader: &mut BitReader,
    width: usize,
    width_blocks: usize,
    height_blocks: usize,
    count_blocks: usize,
    current_block: usize,
    chain_length: usize,
) -> (r: usize)
    requires
        (*old(full_tree)) is Some,
        opt_ht_wf(*old(full_tree)),
        old(reader).wf(),
        4 * width_blocks <= width,
        count_blocks == width_blocks * height_blocks,
        4 * height_blocks * width <= old(image)@.len(),
        chain_length <= 2048,
        count_blocks + 2048 <= usize::MAX,
        current_block <= count_blocks,
    ensures
        final(image)@.len() == old(image)@.len(),
        (*final(full_tree)) is Some,
        opt_ht_wf(*final(full_tree)),
        (*final(full_tree)).unwrap().head == (*old(full_tree)).unwrap().head,
        (*final(full_tree)).unwrap().tree.root_node_id == (*old(
            full_tree,
        )).unwrap().tree.root_node_id,
        final(reader).wf(),
        final(reader).bytes@ == old(reader).bytes@,
        final(reader).bit_pos >= old(reader).bit_pos,
        ({
            let fc = spec_full_chain(
                ts_of((*old(full_tree)).unwrap()),
                old(image)@,
                old(reader).bytes@,
                old(reader).bit_pos as int,
                width as int,
                width_blocks as int,
                count_blocks as int,
                current_block as int,
                chain_length as int,
            );
            &&& ts_of((*final(full_tree)).unwrap()) == fc.0
            &&& final(image)@ == fc.1
            &&& final(reader).bit_pos == fc.2
            &&& r == fc.3
        }),
        current_block <= r <= count_blocks,
        current_block < count_blocks && chain_length >= 1 ==> r > current_block,
{
    let ghost img0 = image@;
    let ghost b = reader.bytes@;
    let ghost wi = width as int;
    let ghost wbi = width_blocks as int;
    let ghost cnt = count_blocks as int;
    let ghost target = spec_full_chain(
        ts_of((*full_tree).unwrap()),
        img0,
        b,
        reader.bit_pos as int,
        wi,
        wbi,
        cnt,
        current_block as int,
        chain_length as int,
    );
    let mut cur = current_block;
    let mut n = chain_length;
    while n > 0 && cur < count_blocks
        invariant
            image@.len() == img0.len(),
            cur <= count_blocks,
            current_block <= cur,
            cur == current_block + (chain_length - n),
            n <= chain_length,
            (*full_tree) is Some,
            opt_ht_wf(*full_tree),
            (*full_tree).unwrap().head == (*old(full_tree)).unwrap().head,
            (*full_tree).unwrap().tree.root_node_id == (*old(full_tree)).unwrap().tree.root_node_id,
            reader.wf(),
            reader.bytes@ == b,
            reader.bit_pos >= old(reader).bit_pos,
            spec_full_chain(
                ts_of((*full_tree).unwrap()),
                image@,
                b,
                reader.bit_pos as int,
                wi,
                wbi,
                cnt,
                cur as int,
                n as int,
            ) == target,
        decreases n,
    {
        let ghost ts_it = ts_of((*full_tree).unwrap());
        let ghost pos_it = reader.bit_pos as int;
        let p1a = match header_get(full_tree, reader) {
            Ok(v) => v,
            Err(_) => {
                proof {
                    assert(false);
                }
                0
            },
        };
        let p0a = match header_get(full_tree, reader) {
            Ok(v) => v,
            Err(_) => {
                proof {
                    assert(false);
                }
                0
            },
        };
        let p1b = match header_get(full_tree, reader) {
            Ok(v) => v,
            Err(_) => {
                proof {
                    assert(false);
                }
                0
            },
        };
        let p0b = match header_get(full_tree, reader) {
            Ok(v) => v,
            Err(_) => {
                proof {
                    assert(false);
                }
                0
            },
        };
        let p1c = match header_get(full_tree, reader) {
            Ok(v) => v,
            Err(_) => {
                proof {
                    assert(false);
                }
                0
            },
        };
        let p0c = match header_get(full_tree, reader) {
            Ok(v) => v,
            Err(_) => {
                proof {
                    assert(false);
                }
                0
            },
        };
        let p1d = match header_get(full_tree, reader) {
            Ok(v) => v,
            Err(_) => {
                proof {
                    assert(false);
                }
                0
            },
        };
        let p0d = match header_get(full_tree, reader) {
            Ok(v) => v,
            Err(_) => {
                proof {
                    assert(false);
                }
                0
            },
        };
        let colors: [u8; 16] = [
            (p0a & 0xFF) as u8,
            (p0a / 0x100) as u8,
            (p1a & 0xFF) as u8,
            (p1a / 0x100) as u8,
            (p0b & 0xFF) as u8,
            (p0b / 0x100) as u8,
            (p1b & 0xFF) as u8,
            (p1b / 0x100) as u8,
            (p0c & 0xFF) as u8,
            (p0c / 0x100) as u8,
            (p1c & 0xFF) as u8,
            (p1c / 0x100) as u8,
            (p0d & 0xFF) as u8,
            (p0d / 0x100) as u8,
            (p1d & 0xFF) as u8,
            (p1d / 0x100) as u8,
        ];
        proof {
            let fc = spec_full_cell(ts_it, b, pos_it);
            assert(colors@ =~= fc.2);
            if width_blocks == 0 {
                assert(count_blocks == 0);
            }
            lemma_multiply_divide_lt(cur as int, wbi, height_blocks as int);
            assert((spec_cell_y(cur as int, wbi) + 4) * wi <= 4 * (height_blocks as int) * wi)
                by (nonlinear_arith)
                requires
                    spec_cell_y(cur as int, wbi) + 4 <= 4 * (height_blocks as int),
                    wi >= 0,
            ;
            assert(4 * (height_blocks as int) <= 4 * (height_blocks as int) * wi)
                by (nonlinear_arith)
                requires
                    wi >= 1,
                    height_blocks as int >= 0,
            ;
            assert(image@.len() == image.len());
        }
        let x = (cur % width_blocks) * 4;
        let y = (cur / width_blocks) * 4;
        write_cell(image, width, x, y, colors);
        cur = cur + 1;
        n = n - 1;
    }
    cur
}

/// Decodes one frame's video: the block grid in raster order, chain by
/// chain, through the four trees.  The pixel buffer keeps its previous
/// content wherever VOID chains land.  `InvalidTag` reports a stream that
/// selects a tree the container never provided; the whole run is otherwise
/// exactly the spec-level block loop.
#[verifier::loop_isolation(false)]
#[verifier::rlimit(60)]
pub fn unpack_video(
    m_map_tree: &mut Option<HeaderTree>,
    m_clr_tree: &mut Option<HeaderTree>,
    full_tree: &mut Option<HeaderTree>,
    type_tree: &mut Option<HeaderTree>,
    image: &mut Vec<u8>,
    width: u32,
    height: u32,
    reader: &mut BitReader,
) -> (r: Result<(), DecodeError>)
    requires
        opt_ht_wf(*old(m_map_tree)),
        opt_ht_wf(*old(m_clr_tree)),
        opt_ht_wf(*old(full_tree)),
        opt_ht_wf(*old(type_tree)),
        old(reader).wf(),
        old(image)@.len() == width * height,
        width * height <= usize::MAX,
    ensures
        opt_ht_wf(*final(m_map_tree)),
        opt_ht_wf(*final(m_clr_tree)),
        opt_ht_wf(*final(full_tree)),
        opt_ht_wf(*final(type_tree)),
        ((*final(m_map_tree)) is Some <==> (*old(m_map_tree)) is Some),
        ((*final(m_clr_tree)) is Some <==> (*old(m_clr_tree)) is Some),
        ((*final(full_tree)) is Some <==> (*old(full_tree)) is Some),
        ((*final(type_tree)) is Some <==> (*old(type_tree)) is Some),
        ((*old(m_map_tree)) is Some ==> (*final(m_map_tree)).unwrap().head == (*old(
            m_map_tree,
        )).unwrap().head && (*final(m_map_tree)).unwrap().tree.root_node_id == (*old(
            m_map_tree,
        )).unwrap().tree.root_node_id),
        ((*old(m_clr_tree)) is Some ==> (*final(m_clr_tree)).unwrap().head == (*old(
            m_clr_tree,
        )).unwrap().head && (*final(m_clr_tree)).unwrap().tree.root_node_id == (*old(
            m_clr_tree,
        )).unwrap().tree.root_node_id),
        ((*old(full_tree)) is Some ==> (*final(full_tree)).unwrap().head == (*old(
            full_tree,
        )).unwrap().head && (*final(full_tree)).unwrap().tree.root_node_id == (*old(
            full_tree,
        )).unwrap().tree.root_node_id),
        ((*old(type_tree)) is Some ==> (*final(type_tree)).unwrap().head == (*old(
            type_tree,
        )).unwrap().head && (*final(type_tree)).unwrap().tree.root_node_id == (*old(
            type_tree,
        )).unwrap().tree.root_node_id),
        final(reader).wf(),
        final(reader).bytes@ == old(reader).bytes@,
        final(reader).bit_pos >= old(reader).bit_pos,
        final(image)@.len() == old(image)@.len(),
        ({
            let b = old(reader).bytes@;
            let wi = width as int;
            let wb = wi / 4;
            let hb = (height as int) / 4;
            let count = wb * hb;
            let init = (VideoState {
                mmap: ts_opt(*old(m_map_tree)),
                mclr: ts_opt(*old(m_clr_tree)),
                full: ts_opt(*old(full_tree)),
                typ: ts_opt(*old(type_tree)),
                image: old(image)@,
                pos: old(reader).bit_pos as int,
                cur: 0,
            });
            let ro = spec_video_run(init, b, wi, wb, count, count as nat);
            match r {
                Ok(()) => {
                    &&& ro is Some
                    &&& ro.unwrap().mmap == ts_opt(*final(m_map_tree))
                    &&& ro.unwrap().mclr == ts_opt(*final(m_clr_tree))
                    &&& ro.unwrap().full == ts_opt(*final(full_tree))
                    &&& ro.unwrap().typ == ts_opt(*final(type_tree))
                    &&& ro.unwrap().image == final(image)@
                    &&& ro.unwrap().pos == final(reader).bit_pos
                    &&& ro.unwrap().cur >= count
                },
                Err(e) => e == DecodeError::InvalidTag && ro is None,
            }
        }),
{
    let ghost b = reader.bytes@;
    let ghost wi = width as int;
    let ghost init = (VideoState {
        mmap: ts_opt(*m_map_tree),
        mclr: ts_opt(*m_clr_tree),
        full: ts_opt(*full_tree),
        typ: ts_opt(*type_tree),
        image: image@,
        pos: reader.bit_pos as int,
        cur: 0,
    });
    let width_usize = width as usize;
    let width_blocks = width_usize / 4;
    let height_blocks = (height as usize) / 4;
    proof {
        assert(16 * ((wi / 4) * (((height as int)) / 4)) <= wi * (height as int))
            by (nonlinear_arith)
            requires
                4 * (wi / 4) <= wi,
                4 * (((height as int)) / 4) <= height as int,
                0 <= wi / 4,
                0 <= ((height as int)) / 4,
                0 <= wi,
                0 <= height as int,
        ;
        assert(4 * (((height as int)) / 4) * wi <= (height as int) * wi) by (nonlinear_arith)
            requires
                4 * (((height as int)) / 4) <= height as int,
                0 <= wi,
        ;
        assert((height as int) * wi == wi * (height as int)) by (nonlinear_arith);
    }
    let count_blocks = width_blocks * height_blocks;
    let ghost wbi = width_blocks as int;
    let ghost hbi = height_blocks as int;
    let ghost cnt = count_blocks as int;
    let mut current_block: usize = 0;
    let ghost mut it: int = 0;
    while current_block < count_blocks
        invariant
            opt_ht_wf(*m_map_tree),
            opt_ht_wf(*m_clr_tree),
            opt_ht_wf(*full_tree),
            opt_ht_wf(*type_tree),
            ((*m_map_tree) is Some <==> (*old(m_map_tree)) is Some),
            ((*m_clr_tree) is Some <==> (*old(m_clr_tree)) is Some),
            ((*full_tree) is Some <==> (*old(full_tree)) is Some),
            ((*type_tree) is Some <==> (*old(type_tree)) is Some),
            ((*old(m_map_tree)) is Some ==> (*m_map_tree).unwrap().head == (*old(
                m_map_tree,
            )).unwrap().head && (*m_map_tree).unwrap().tree.root_node_id == (*old(
                m_map_tree,
            )).unwrap().tree.root_node_id),
            ((*old(m_clr_tree)) is Some ==> (*m_clr_tree).unwrap().head == (*old(
                m_clr_tree,
            )).unwrap().head && (*m_clr_tree).unwrap().tree.root_node_id == (*old(
                m_clr_tree,
            )).unwrap().tree.root_node_id),
            ((*old(full_tree)) is Some ==> (*full_tree).unwrap().head == (*old(
                full_tree,
            )).unwrap().head && (*full_tree).unwrap().tree.root_node_id == (*old(
                full_tree,
            )).unwrap().tree.root_node_id),
            ((*old(type_tree)) is Some ==> (*type_tree).unwrap().head == (*old(
                type_tree,
            )).unwrap().head && (*type_tree).unwrap().tree.root_node_id == (*old(
                type_tree,
            )).unwrap().tree.root_node_id),
            reader.wf(),
            reader.bytes@ == b,
            reader.bit_pos >= old(reader).bit_pos,
            image@.len() == old(image)@.len(),
            0 <= it <= current_block,
            current_block <= count_blocks + 2048,
            ({
                let s = (VideoState {
                    mmap: ts_opt(*m_map_tree),
                    mclr: ts_opt(*m_clr_tree),
                    full: ts_opt(*full_tree),
                    typ: ts_opt(*type_tree),
                    image: image@,
                    pos: reader.bit_pos as int,
                    cur: current_block as int,
                });
                spec_video_run(s, b, wi, wbi, cnt, (cnt - it) as nat) == spec_video_run(
                    init,
                    b,
                    wi,
                    wbi,
                    cnt,
                    cnt as nat,
                )
            }),
        decreases count_blocks + 2048 - current_block,
    {
        let ghost s_now = (VideoState {
            mmap: ts_opt(*m_map_tree),
            mclr: ts_opt(*m_clr_tree),
            full: ts_opt(*full_tree),
            typ: ts_opt(*type_tree),
            image: image@,
            pos: reader.bit_pos as int,
            cur: current_block as int,
        });
        let td = match header_get(type_tree, reader) {
            Ok(v) => v,
            Err(e) => {
                proof {
                    assert(spec_video_step(s_now, b, wi, wbi, cnt) is None);
                }
                return Err(DecodeError::InvalidTag);
            },
        };
        let block_type = td & 0b11;
        let td2 = td >> 2u16;
        let chain_idx = td2 & 0b111111;
        proof {
            assert((td2 & 0b111111) < 64) by (bit_vector);
            assert((td & 0b11) <= 3) by (bit_vector);
        }
        let chain_length = block_size_lookup(chain_idx);
        let extra = (td2 >> 6u16) as u8;
        let ghost g = spec_header_get(s_now.typ.unwrap(), b, s_now.pos);
        let ghost step = spec_video_step(s_now, b, wi, wbi, cnt);
        if block_type == 2 {
            current_block = current_block + chain_length;
        } else if block_type == 3 {
            let nc = solid_chain(
                image,
                width_usize,
                width_blocks,
                height_blocks,
                count_blocks,
                current_block,
                chain_length,
                extra,
            );
            current_block = nc;
        } else if block_type == 0 {
            if m_clr_tree.is_none() || m_map_tree.is_none() {
                proof {
                    assert(step is None);
                }
                return Err(DecodeError::InvalidTag);
            }
            let nc = mono_chain(
                m_clr_tree,
                m_map_tree,
                image,
                reader,
                width_usize,
                width_blocks,
                height_blocks,
                count_blocks,
                current_block,
                chain_length,
            );
            current_block = nc;
        } else {
            if full_tree.is_none() {
                proof {
                    assert(step is None);
                }
                return Err(DecodeError::InvalidTag);
            }
            let nc = full_chain(
                full_tree,
                image,
                reader,
                width_usize,
                width_blocks,
                height_blocks,
                count_blocks,
                current_block,
                chain_length,
            );
            current_block = nc;
        }
        proof {
            let s_new = (VideoState {
                mmap: ts_opt(*m_map_tree),
                mclr: ts_opt(*m_clr_tree),
                full: ts_opt(*full_tree),
                typ: ts_opt(*type_tree),
                image: image@,
                pos: reader.bit_pos as int,
                cur: current_block as int,
            });
            assert(step == Option::Some(s_new));
            it = it + 1;
        }
    }
    Ok(())
}


/// The block-grid cell a pixel falls in.
pub open spec fn pixel_cell(i: int, width: int, wb: int) -> int {
    ((i / width) / 4) * wb + (i % width) / 4
}

/// Whether a pixel lies inside the decoded block grid (pixels in the
/// ragged right or bottom margin of a non-multiple-of-four image are never
/// written).
pub open spec fn pixel_in_grid(i: int, width: int, wb: int, hb: int) -> bool {
    (i / width) / 4 < hb && (i % width) / 4 < wb
}

/// A pixel lies in cell `c`'s 4x4 square exactly when it is in the grid
/// and `c` is its cell.
pub proof fn lemma_cell_cover(i: int, width: int, wb: int, hb: int, c: int)
    requires
        0 < width,
        4 * wb <= width,
        wb > 0,
        0 <= c < wb * hb,
        0 <= i,
    ensures
        ({
            let x = spec_cell_x(c, wb);
            let y = spec_cell_y(c, wb);
            (y <= i / width < y + 4 && x <= i % width < x + 4) <==> (pixel_in_grid(i, width, wb, hb)
                && pixel_cell(i, width, wb) == c)
        }),
{
    let x = spec_cell_x(c, wb);
    let y = spec_cell_y(c, wb);
    let row = i / width;
    let col = i % width;
    lemma_fundamental_div_mod(c, wb);
    lemma_multiply_divide_lt(c, wb, hb);
    lemma_fundamental_div_mod(row, 4);
    lemma_fundamental_div_mod(col, 4);
    if y <= row < y + 4 && x <= col < x + 4 {
        lemma_fundamental_div_mod_converse(row, 4, c / wb, row - y);
        lemma_fundamental_div_mod_converse(col, 4, c % wb, col - x);
        assert(row / 4 == c / wb);
        assert(col / 4 == c % wb);
        assert((c / wb) * wb + c % wb == c) by (nonlinear_arith)
            requires
                c == wb * (c / wb) + c % wb,
        ;
        assert(pixel_cell(i, width, wb) == c);
    }
    if pixel_in_grid(i, width, wb, hb) && pixel_cell(i, width, wb) == c {
        lemma_fundamental_div_mod_converse(c, wb, row / 4, col / 4);
        assert(c / wb == row / 4);
        assert(c % wb == col / 4);
        assert(y <= row < y + 4);
        assert(x <= col < x + 4);
    }
}

/// A SOLID chain writes the literal byte into exactly the cells it covers
/// (the run, clipped to the end of the grid) and touches nothing else; it
/// stops at the cell after the run.
pub proof fn lemma_solid_chain_pointwise(
    image: Seq<u8>,
    width: int,
    wb: int,
    hb: int,
    cur: int,
    n: int,
    extra: u8,
)
    requires
        0 < width,
        4 * wb <= width,
        wb >= 0,
        hb >= 0,
        0 <= cur,
        0 <= n,
        4 * hb * width <= image.len(),
    ensures
        ({
            let count = wb * hb;
            let sc = spec_solid_chain(image, width, wb, count, cur, n, extra);
            let end = if cur >= count {
                cur
            } else if cur + n <= count {
                cur + n
            } else {
                count
            };
            &&& sc.1 == end
            &&& sc.0.len() == image.len()
            &&& forall|i: int|
                0 <= i < image.len() ==> sc.0[i] == (if pixel_in_grid(i, width, wb, hb) && cur
                    <= pixel_cell(i, width, wb) < end {
                    extra
                } else {
                    image[i]
                })
        }),
    decreases n,
{
    let count = wb * hb;
    if n <= 0 || cur >= count {
    } else {
        let x = spec_cell_x(cur, wb);
        let y = spec_cell_y(cur, wb);
        let im2 = spec_write_cell(image, width, x, y, spec_solid_colors(extra));
        assert(im2.len() == image.len());
        if wb == 0 {
            assert(count == 0);
        }
        lemma_multiply_divide_lt(cur, wb, hb);
        assert((spec_cell_y(cur, wb) + 4) * width <= 4 * hb * width) by (nonlinear_arith)
            requires
                spec_cell_y(cur, wb) + 4 <= 4 * hb,
                width >= 0,
        ;
        lemma_solid_chain_pointwise(im2, width, wb, hb, cur + 1, n - 1, extra);
        let sc = spec_solid_chain(image, width, wb, count, cur, n, extra);
        let end = if cur + n <= count {
            cur + n
        } else {
            count
        };
        assert forall|i: int| 0 <= i < image.len() implies sc.0[i] == (if pixel_in_grid(
            i,
            width,
            wb,
            hb,
        ) && cur <= pixel_cell(i, width, wb) < end {
            extra
        } else {
            image[i]
        }) by {
            lemma_cell_cover(i, width, wb, hb, cur);
        }
    }
}

/// VOID idempotence: a frame whose block stream is one VOID chain covering
/// the whole remaining grid finishes the block loop with the pixel buffer
/// byte-for-byte unchanged.
pub proof fn lemma_void_chain_preserves_image(
    s: VideoState,
    b: Seq<u8>,
    width: int,
    wb: int,
    count: int,
    fuel: nat,
)
    requires
        s.typ is Some,
        ({
            let g = spec_header_get(s.typ.unwrap(), b, s.pos);
            &&& g.0 & 3 == 2
            &&& s.cur + spec_block_size(((g.0 >> 2u16) & 0x3F) as int) >= count
        }),
    ensures
        ({
            let ro = spec_video_run(s, b, width, wb, count, fuel);
            ro is Some && ro.unwrap().image == s.image
        }),
{
    if s.cur >= count || fuel == 0 {
    } else {
        let g = spec_header_get(s.typ.unwrap(), b, s.pos);
        let td = g.0;
        let chain = spec_block_size(((td >> 2u16) & 0x3F) as int);
        assert(td & 3 == 2);
        let s2 = (VideoState {
            typ: Option::Some(g.2),
            pos: g.1,
            cur: s.cur + chain,
            mmap: s.mmap,
            mclr: s.mclr,
            full: s.full,
            image: s.image,
        });
        assert(spec_video_step(s, b, width, wb, count) == Option::Some(s2));
        assert(s2.cur >= count);
        assert(spec_video_run(s2, b, width, wb, count, (fuel - 1) as nat) == Option::Some(s2));
        assert(spec_video_run(s, b, width, wb, count, fuel) == Option::Some(s2));
    }
}

} // verus!
