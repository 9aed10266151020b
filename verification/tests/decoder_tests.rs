use legacy_assets::bit_reader::BitReader;
use legacy_assets::errors::DecodeError;
use legacy_assets::huffman::{HeaderTree, HeaderTreeHead, HuffmanContext, HuffmanNode};
use legacy_assets::smacker::{apply_palette_ops, block_size_lookup, palette_expand, SmackerFile};
use legacy_assets::video::unpack_video;

fn pack_bits(bits: &[u8]) -> Vec<u8> {
    let mut out = Vec::new();
    let mut cur: u8 = 0;
    let mut n = 0;
    for &b in bits {
        cur |= (b & 1) << n;
        n += 1;
        if n == 8 {
            out.push(cur);
            cur = 0;
            n = 0;
        }
    }
    if n > 0 {
        out.push(cur);
    }
    out
}

fn byte_bits_lsb(v: u8) -> Vec<u8> {
    (0..8).map(|i| (v >> i) & 1).collect()
}

#[test]
fn it_works() {
    assert_eq!(2 + 2, 4);
}

#[test]
fn test_simple_bit_reads() {
    let simple_bit_sequence = vec![0b11101101u8, 0b11101101, 0b11101101];
    let mut bit_reader = BitReader::from_bytes(simple_bit_sequence);
    let read = bit_reader.read_bits(3);
    assert_eq!(read, 0b101);
    let read = bit_reader.read_bits(4);
    assert_eq!(read, 0b1101);
    let read = bit_reader.read_bits(2);
    assert_eq!(read, 0b11);
    let read = bit_reader.read_bits(3);
    assert_eq!(read, 0b110);
    let read = bit_reader.read_bits(7);
    assert_eq!(read, 0b1011110);
    let read = bit_reader.read_bits(5);
    assert_eq!(read, 0b11101);
}

#[test]
fn bit_reads_past_end_yield_zero() {
    let mut r = BitReader::from_bytes(vec![0xFF]);
    assert_eq!(r.read_bits(8), 0xFF);
    assert_eq!(r.read_bits(8), 0);
    assert_eq!(r.read_bits(16), 0);
}

#[test]
fn prefix_tree_round_trips_its_leaves() {
    // description: internal node, then leaf 0x41, then leaf 0x42
    let mut desc = vec![1u8, 0u8];
    desc.extend(byte_bits_lsb(0x41));
    desc.push(0);
    desc.extend(byte_bits_lsb(0x42));
    let mut reader = BitReader::from_bytes(pack_bits(&desc));
    let ctx = HuffmanContext::from_tree(&mut reader, 256).unwrap();
    // replaying each leaf's path yields the value that built it
    let mut left = BitReader::from_bytes(pack_bits(&[0]));
    assert_eq!(ctx.get_value(&mut left), 0x41);
    let mut right = BitReader::from_bytes(pack_bits(&[1]));
    assert_eq!(ctx.get_value(&mut right), 0x42);
}

#[test]
fn prefix_tree_depth_budget_is_fatal() {
    let desc = vec![0u8; 9];
    let mut reader = BitReader::from_bytes(pack_bits(&desc));
    let r = HuffmanContext::from_tree(&mut reader, 0);
    assert!(matches!(r, Err(DecodeError::TreeDepthExceeded)));
}

fn small_header_tree(values: (u16, u16, u16)) -> HeaderTree {
    // arena: root node -> (node -> leaf a, leaf b), leaf c
    let node_arena = vec![
        HuffmanNode::Node { left_node_id: 1, right_node_id: 2 },
        HuffmanNode::Node { left_node_id: 3, right_node_id: 4 },
        HuffmanNode::Leaf { value: values.2 },
        HuffmanNode::Leaf { value: values.0 },
        HuffmanNode::Leaf { value: values.1 },
        HuffmanNode::Leaf { value: 0 },
        HuffmanNode::Leaf { value: 0 },
        HuffmanNode::Leaf { value: 0 },
    ];
    HeaderTree {
        head: HeaderTreeHead {
            low_tree: None,
            high_tree: None,
            escapes: [0xFFFF, 0xFFFE, 0xFFFD],
            last_nodes: [5, 6, 7],
        },
        tree: HuffmanContext { node_arena, root_node_id: 0 },
    }
}

#[test]
fn escape_tree_mru_registers_shift() {
    // paths: 00 -> 5, 01 -> 9, 1 -> 7
    let mut ht = small_header_tree((5, 9, 7));
    let l = ht.head.last_nodes;
    let vals = |t: &HeaderTree| {
        (
            t.get_leaf_value_by_node_id(l[0]),
            t.get_leaf_value_by_node_id(l[1]),
            t.get_leaf_value_by_node_id(l[2]),
        )
    };
    // five symbols with a repeat of each recent distinct value
    let mut r = BitReader::from_bytes(pack_bits(&[0, 0]));
    assert_eq!(ht.get_value(&mut r), 5);
    assert_eq!(vals(&ht), (5, 0, 0));
    let mut r = BitReader::from_bytes(pack_bits(&[0, 1]));
    assert_eq!(ht.get_value(&mut r), 9);
    assert_eq!(vals(&ht), (9, 5, 0));
    let mut r = BitReader::from_bytes(pack_bits(&[1]));
    assert_eq!(ht.get_value(&mut r), 7);
    assert_eq!(vals(&ht), (7, 9, 5));
    // a repeat of the most recent value leaves the registers unchanged
    let mut r = BitReader::from_bytes(pack_bits(&[1]));
    assert_eq!(ht.get_value(&mut r), 7);
    assert_eq!(vals(&ht), (7, 9, 5));
    let mut r = BitReader::from_bytes(pack_bits(&[0, 1]));
    assert_eq!(ht.get_value(&mut r), 9);
    assert_eq!(vals(&ht), (9, 7, 9));
}

fn solid_void_type_tree() -> HeaderTree {
    // bit 0: SOLID chain of two cells with fill byte 7
    // bit 1: VOID chain of four cells
    let solid: u16 = 3 | (1 << 2) | (7 << 8);
    let void: u16 = 2 | (3 << 2);
    let node_arena = vec![
        HuffmanNode::Node { left_node_id: 1, right_node_id: 2 },
        HuffmanNode::Leaf { value: solid },
        HuffmanNode::Leaf { value: void },
    ];
    HeaderTree {
        head: HeaderTreeHead {
            low_tree: None,
            high_tree: None,
            escapes: [0xFFFF, 0xFFFE, 0xFFFD],
            last_nodes: [1, 1, 1],
        },
        tree: HuffmanContext { node_arena, root_node_id: 0 },
    }
}

#[test]
fn void_chain_leaves_pixels_untouched() {
    let void_only: u16 = 2 | (3 << 2);
    let node_arena = vec![HuffmanNode::Leaf { value: void_only }];
    let mut type_tree = Some(HeaderTree {
        head: HeaderTreeHead {
            low_tree: None,
            high_tree: None,
            escapes: [0xFFFF, 0xFFFE, 0xFFFD],
            last_nodes: [0, 0, 0],
        },
        tree: HuffmanContext { node_arena, root_node_id: 0 },
    });
    let mut m_map = None;
    let mut m_clr = None;
    let mut full = None;
    let mut image: Vec<u8> = (0..64).map(|i| i as u8).collect();
    let before = image.clone();
    let mut reader = BitReader::from_bytes(Vec::new());
    unpack_video(
        &mut m_map,
        &mut m_clr,
        &mut full,
        &mut type_tree,
        &mut image,
        8,
        8,
        &mut reader,
    )
    .unwrap();
    assert_eq!(image, before);
}

#[test]
fn solid_chain_fills_exactly_its_cells() {
    let mut type_tree = Some(solid_void_type_tree());
    let mut m_map = None;
    let mut m_clr = None;
    let mut full = None;
    let mut image: Vec<u8> = vec![1u8; 64];
    // first descriptor: SOLID over two cells; second: VOID over the rest
    let mut reader = BitReader::from_bytes(pack_bits(&[0, 1]));
    unpack_video(
        &mut m_map,
        &mut m_clr,
        &mut full,
        &mut type_tree,
        &mut image,
        8,
        8,
        &mut reader,
    )
    .unwrap();
    // cells 0 and 1 cover rows 0..4, all eight columns
    for row in 0..4 {
        for col in 0..8 {
            assert_eq!(image[row * 8 + col], 7, "row {row} col {col}");
        }
    }
    for row in 4..8 {
        for col in 0..8 {
            assert_eq!(image[row * 8 + col], 1, "row {row} col {col}");
        }
    }
}

#[test]
fn palette_delta_ops_round_trip() {
    let mut palette: Vec<u32> = (0..256).map(|i| 0xFF00_0000 | i as u32).collect();
    let prev5 = palette[5];
    let prev6 = palette[6];
    let prev2 = palette[2];
    // literal color, then copy two entries from index 5, then skip three
    let ops = vec![
        0x01, 0x02, 0x03, // literal: channels 1, 2, 3 through the expansion table
        0x41, 0x05, // copy 2 entries from previous palette index 5
        0x82, // skip 3 entries
    ];
    apply_palette_ops(&ops, &mut palette).unwrap();
    let expect0 = 0xFF00_0000u32
        + (palette_expand(0x03) as u32)
        + (palette_expand(0x02) as u32) * 0x100
        + (palette_expand(0x01) as u32) * 0x10000;
    assert_eq!(palette[0], expect0);
    assert_eq!(palette[1], prev5);
    assert_eq!(palette[2], prev6);
    // skipped entries keep their old colors
    assert_eq!(palette[3], 0xFF00_0003);
    assert_eq!(palette[4], 0xFF00_0004);
    assert_eq!(palette[5], prev5);
    assert_eq!(palette[2], prev6);
    let _ = prev2;
}

#[test]
fn palette_truncated_op_is_rejected() {
    let mut palette: Vec<u32> = vec![0; 256];
    let before = palette.clone();
    let ops = vec![0x41]; // copy op missing its source byte
    let r = apply_palette_ops(&ops, &mut palette);
    assert!(matches!(r, Err(DecodeError::InvalidTag)));
    assert_eq!(palette, before);
}

#[test]
fn block_size_table_matches_the_format() {
    assert_eq!(block_size_lookup(0), 1);
    assert_eq!(block_size_lookup(58), 59);
    assert_eq!(block_size_lookup(59), 128);
    assert_eq!(block_size_lookup(60), 256);
    assert_eq!(block_size_lookup(61), 512);
    assert_eq!(block_size_lookup(62), 1024);
    assert_eq!(block_size_lookup(63), 2048);
}

fn minimal_container(num_frames: u32, audio_present: bool, feature: u8, payload: &[u8]) -> Vec<u8> {
    let mut b = Vec::new();
    let word = |b: &mut Vec<u8>, v: u32| b.extend_from_slice(&v.to_le_bytes());
    word(&mut b, 0x4B4D_4D53); // signature
    word(&mut b, 4); // width
    word(&mut b, 4); // height
    word(&mut b, num_frames);
    word(&mut b, 0); // frame rate
    word(&mut b, 0); // header flags
    for _ in 0..7 {
        word(&mut b, 0); // audio size
    }
    word(&mut b, 0); // trees size
    word(&mut b, 0); // map size
    word(&mut b, 0); // clr size
    word(&mut b, 0); // full size
    word(&mut b, 0); // type size
    for i in 0..7 {
        if i == 0 && audio_present {
            word(&mut b, 0x4000_0000);
        } else {
            word(&mut b, 0);
        }
    }
    word(&mut b, 0); // reserved
    for _ in 0..num_frames {
        word(&mut b, payload.len() as u32); // size word (low bits clear)
    }
    for _ in 0..num_frames {
        b.push(feature);
    }
    for _ in 0..num_frames {
        b.extend_from_slice(payload);
    }
    b
}

#[test]
fn frames_decode_only_in_order() {
    let bytes = minimal_container(3, false, 0, &[]);
    let mut f = SmackerFile::load(&bytes).unwrap();
    assert_eq!(f.file_info.frames.len(), 3);
    assert_eq!(f.file_info.frame_interval_centi, 10000);
    // skipping ahead is refused outright
    let r = f.unpack(2, true, true);
    assert!(matches!(r, Err(DecodeError::OutOfOrderFrame)));
    // in order works
    f.unpack(0, true, true).unwrap();
    // repeating a frame is refused too
    let r = f.unpack(0, true, true);
    assert!(matches!(r, Err(DecodeError::OutOfOrderFrame)));
    f.unpack(1, true, true).unwrap();
    f.unpack(2, true, true).unwrap();
}

#[test]
fn audio_decode_is_reported_not_implemented() {
    // one frame carrying a present audio track of declared length four
    let bytes = minimal_container(1, true, 0b0000_0010, &[4, 0, 0, 0]);
    let mut f = SmackerFile::load(&bytes).unwrap();
    let r = f.unpack(0, true, false);
    assert!(matches!(r, Err(DecodeError::AudioNotImplemented)));
}

#[test]
fn short_container_is_rejected() {
    let r = SmackerFile::load(&vec![1, 2, 3]);
    assert!(matches!(r, Err(DecodeError::UnexpectedEnd)));
}

#[test]
fn undefined_header_flag_bits_are_rejected() {
    let mut bytes = minimal_container(1, false, 0, &[]);
    bytes[20] = 0xFF; // header flag byte with undefined bits
    let r = SmackerFile::load(&bytes);
    assert!(matches!(r, Err(DecodeError::InvalidTag)));
}

#[test]
fn escape_leaves_are_recorded_and_zeroed() {
    // no byte sub-trees, so every combined leaf value is zero; the first
    // escape sentinel is zero and claims the last-built matching leaf
    let mut desc = Vec::new();
    desc.push(0); // no low tree
    desc.push(0); // no high tree
    desc.extend(std::iter::repeat(0).take(16)); // escape 0 = 0x0000
    desc.extend(std::iter::repeat(1).take(16)); // escape 1 = 0xFFFF
    desc.extend([0].into_iter().chain(std::iter::repeat(1).take(15))); // escape 2 = 0xFFFE
    desc.extend([1, 0, 0]); // combined tree: a node with two leaves
    desc.push(0); // trailing pad bit
    let mut reader = BitReader::from_bytes(pack_bits(&desc));
    let ht = HeaderTree::read(&mut reader, 4).unwrap();
    // the right leaf (arena index 2) was built last and owns slot 0;
    // the unclaimed slots got standalone zero leaves past the tree
    assert_eq!(ht.head.escapes, [0x0000, 0xFFFF, 0xFFFE]);
    assert_eq!(ht.head.last_nodes, [2, 3, 4]);
    assert_eq!(ht.tree.node_arena.len(), 5);
    assert!(matches!(ht.tree.node_arena[2], HuffmanNode::Leaf { value: 0 }));
    assert!(matches!(ht.tree.node_arena[3], HuffmanNode::Leaf { value: 0 }));
    // a single-leaf combined tree leaves the unclaimed slots aliased to
    // the root leaf itself
    let mut desc2 = Vec::new();
    desc2.push(0);
    desc2.push(0);
    desc2.extend(std::iter::repeat(0).take(16));
    desc2.extend(std::iter::repeat(1).take(32));
    desc2.push(0); // combined tree: a bare leaf
    desc2.push(0); // trailing pad bit
    let mut reader2 = BitReader::from_bytes(pack_bits(&desc2));
    let ht2 = HeaderTree::read(&mut reader2, 4).unwrap();
    assert_eq!(ht2.head.last_nodes, [0, 0, 0]);
    assert_eq!(ht2.tree.node_arena.len(), 1);
}
