use vstd::prelude::*;
use crate::bit_reader::{
    bit_at, bits_value, clamped_advance, lemma_bit_at_le_1, lemma_bits_value_bound,
    lemma_pow2_16, lemma_pow2_mono, pow2, BitReader,
};
use crate::errors::DecodeError;

verus! {

broadcast use vstd::set::group_set_axioms;

/// One node of an arena-allocated binary prefix tree.  `Node` children are
/// indices into the arena; a `Leaf` carries a decoded symbol.
#[derive(Copy, Clone)]
pub enum HuffmanNode {
    Node { left_node_id: usize, right_node_id: usize },
    Leaf { value: u16 },
}

/// The mathematical shape of a prefix tree, abstracted from the arena.
pub enum TreeShape {
    Leaf { value: u16 },
    Node { left: Box<TreeShape>, right: Box<TreeShape> },
}

/// A subtree is well formed when every internal node's children lie strictly
/// deeper in the arena, so the structure is acyclic.
pub open spec fn subtree_wf(arena: Seq<HuffmanNode>, id: int) -> bool
    decreases arena.len() - id,
{
    &&& 0 <= id < arena.len()
    &&& match arena[id] {
        HuffmanNode::Leaf { .. } => true,
        HuffmanNode::Node { left_node_id, right_node_id } => {
            &&& id < left_node_id < arena.len()
            &&& id < right_node_id < arena.len()
            &&& subtree_wf(arena, left_node_id as int)
            &&& subtree_wf(arena, right_node_id as int)
        },
    }
}

/// The shape rooted at `id`; junk nodes read as zero leaves.
pub open spec fn subtree_view(arena: Seq<HuffmanNode>, id: int) -> TreeShape
    decreases arena.len() - id,
{
    if 0 <= id < arena.len() {
        match arena[id] {
            HuffmanNode::Leaf { value } => TreeShape::Leaf { value },
            HuffmanNode::Node { left_node_id, right_node_id } => {
                if id < left_node_id < arena.len() && id < right_node_id < arena.len() {
                    TreeShape::Node {
                        left: Box::new(subtree_view(arena, left_node_id as int)),
                        right: Box::new(subtree_view(arena, right_node_id as int)),
                    }
                } else {
                    TreeShape::Leaf { value: 0 }
                }
            },
        }
    } else {
        TreeShape::Leaf { value: 0 }
    }
}

/// The arena indices a subtree occupies.
pub open spec fn subtree_ids(arena: Seq<HuffmanNode>, id: int) -> Set<int>
    decreases arena.len() - id,
{
    if 0 <= id < arena.len() {
        match arena[id] {
            HuffmanNode::Leaf { .. } => set![id],
            HuffmanNode::Node { left_node_id, right_node_id } => {
                if id < left_node_id < arena.len() && id < right_node_id < arena.len() {
                    set![id].union(subtree_ids(arena, left_node_id as int)).union(
                        subtree_ids(arena, right_node_id as int),
                    )
                } else {
                    set![id]
                }
            },
        }
    } else {
        Set::empty()
    }
}

/// Walking a prefix tree: follow bits (`0` left, `1` right) from `pos` until
/// a leaf, returning its value and the bit position after the walk.
pub open spec fn spec_decode(t: TreeShape, b: Seq<u8>, pos: int) -> (u16, int)
    decreases t,
{
    match t {
        TreeShape::Leaf { value } => (value, pos),
        TreeShape::Node { left, right } => {
            let next = clamped_advance(b, pos, 1);
            if bit_at(b, pos) == 1 {
                spec_decode(*right, b, next)
            } else {
                spec_decode(*left, b, next)
            }
        },
    }
}

/// The bit position after the serialized description of `t` that starts at
/// bit `pos`: one branch bit per node, and eight value bits per leaf.
pub open spec fn encode_end(t: TreeShape, b: Seq<u8>, pos: int) -> int
    decreases t,
{
    match t {
        TreeShape::Leaf { .. } => clamped_advance(b, clamped_advance(b, pos, 1), 8),
        TreeShape::Node { left, right } => encode_end(
            *right,
            b,
            encode_end(*left, b, clamped_advance(b, pos, 1)),
        ),
    }
}

/// The bits starting at `pos` are exactly the serialized description of `t`:
/// a `0` bit introduces a leaf whose value is the next eight bits, a `1` bit
/// an internal node followed by the left then the right subtree.
pub open spec fn encodes(t: TreeShape, b: Seq<u8>, pos: int) -> bool
    decreases t,
{
    match t {
        TreeShape::Leaf { value } => {
            &&& bit_at(b, pos) == 0
            &&& value == bits_value(b, clamped_advance(b, pos, 1), 8)
        },
        TreeShape::Node { left, right } => {
            &&& bit_at(b, pos) == 1
            &&& encodes(*left, b, clamped_advance(b, pos, 1))
            &&& encodes(*right, b, encode_end(*left, b, clamped_advance(b, pos, 1)))
        },
    }
}

/// Every leaf of `t` lies at depth strictly below `budget`.
pub open spec fn fits_depth(t: TreeShape, budget: int) -> bool
    decreases t,
{
    match t {
        TreeShape::Leaf { .. } => budget >= 1,
        TreeShape::Node { left, right } => fits_depth(*left, budget - 1) && fits_depth(
            *right,
            budget - 1,
        ),
    }
}

/// Every leaf value of `t` is below `bound`.
pub open spec fn leaves_lt(t: TreeShape, bound: int) -> bool
    decreases t,
{
    match t {
        TreeShape::Leaf { value } => value < bound,
        TreeShape::Node { left, right } => leaves_lt(*left, bound) && leaves_lt(*right, bound),
    }
}

/// A bit stream determines at most one tree: the serialization is a prefix
/// code over descriptions.
pub proof fn lemma_encodes_deterministic(t1: TreeShape, t2: TreeShape, b: Seq<u8>, pos: int)
    requires
        encodes(t1, b, pos),
        encodes(t2, b, pos),
    ensures
        t1 == t2,
        encode_end(t1, b, pos) == encode_end(t2, b, pos),
    decreases t1,
{
    match t1 {
        TreeShape::Leaf { value } => {
            match t2 {
                TreeShape::Leaf { value: v2 } => {
                    assert(value == v2);
                },
                TreeShape::Node { .. } => {
                    assert(false);
                },
            }
        },
        TreeShape::Node { left: l1, right: r1 } => {
            match t2 {
                TreeShape::Leaf { .. } => {
                    assert(false);
                },
                TreeShape::Node { left: l2, right: r2 } => {
                    let p1 = clamped_advance(b, pos, 1);
                    lemma_encodes_deterministic(*l1, *l2, b, p1);
                    lemma_encodes_deterministic(*r1, *r2, b, encode_end(*l1, b, p1));
                },
            }
        },
    }
}

/// Whatever a well-formed tree decodes is one of its leaf values.
pub proof fn lemma_decode_leaf_bound(t: TreeShape, b: Seq<u8>, pos: int, bound: int)
    requires
        leaves_lt(t, bound),
    ensures
        spec_decode(t, b, pos).0 < bound,
    decreases t,
{
    match t {
        TreeShape::Leaf { .. } => {},
        TreeShape::Node { left, right } => {
            let next = clamped_advance(b, pos, 1);
            if bit_at(b, pos) == 1 {
                lemma_decode_leaf_bound(*right, b, next, bound);
            } else {
                lemma_decode_leaf_bound(*left, b, next, bound);
            }
        },
    }
}

/// A serialized tree read with the eight-bit leaf rule has all leaf values
/// below 256.
pub proof fn lemma_encodes_leaves_lt(t: TreeShape, b: Seq<u8>, pos: int)
    requires
        encodes(t, b, pos),
    ensures
        leaves_lt(t, 256),
    decreases t,
{
    match t {
        TreeShape::Leaf { value } => {
            let p1 = clamped_advance(b, pos, 1);
            lemma_bits_value_bound(b, p1, 8);
            lemma_pow2_mono(8, 16);
            lemma_pow2_16();
            assert(pow2(8) == 256) by {
                assert(pow2(8) == 2 * pow2(7));
                assert(pow2(7) == 2 * pow2(6));
                assert(pow2(6) == 2 * pow2(5));
                assert(pow2(5) == 2 * pow2(4));
                assert(pow2(4) == 2 * pow2(3));
                assert(pow2(3) == 2 * pow2(2));
                assert(pow2(2) == 2 * pow2(1));
                assert(pow2(1) == 2 * pow2(0));
                assert(pow2(0) == 1);
            }
        },
        TreeShape::Node { left, right } => {
            let p1 = clamped_advance(b, pos, 1);
            lemma_encodes_leaves_lt(*left, b, p1);
            lemma_encodes_leaves_lt(*right, b, encode_end(*left, b, p1));
        },
    }
}

/// Frame rule: a subtree is insensitive to arena entries outside its own
/// index set.
pub proof fn lemma_subtree_frame(a1: Seq<HuffmanNode>, a2: Seq<HuffmanNode>, id: int)
    requires
        subtree_wf(a1, id),
        a2.len() >= a1.len(),
        forall|j: int| #[trigger] subtree_ids(a1, id).contains(j) ==> 0 <= j < a2.len() && a2[j] == a1[j],
    ensures
        subtree_wf(a2, id),
        subtree_view(a2, id) == subtree_view(a1, id),
        subtree_ids(a2, id) == subtree_ids(a1, id),
    decreases a1.len() - id,
{
    assert(subtree_ids(a1, id).contains(id));
    match a1[id] {
        HuffmanNode::Leaf { .. } => {
            assert(subtree_ids(a2, id) =~= subtree_ids(a1, id));
        },
        HuffmanNode::Node { left_node_id, right_node_id } => {
            let l = left_node_id as int;
            let r = right_node_id as int;
            assert(subtree_ids(a1, id) == set![id].union(subtree_ids(a1, l)).union(
                subtree_ids(a1, r),
            ));
            assert forall|j: int| #[trigger] subtree_ids(a1, l).contains(j) implies 0 <= j < a2.len() && a2[j]
                == a1[j] by {
                assert(subtree_ids(a1, id).contains(j));
            }
            assert forall|j: int| #[trigger] subtree_ids(a1, r).contains(j) implies 0 <= j < a2.len() && a2[j]
                == a1[j] by {
                assert(subtree_ids(a1, id).contains(j));
            }
            lemma_subtree_frame(a1, a2, l);
            lemma_subtree_frame(a1, a2, r);
            assert(subtree_ids(a2, id) =~= subtree_ids(a1, id));
        },
    }
}

/// An arena-allocated prefix tree over 8-bit symbols, built once from its
/// bit-serialized description and then only walked.
pub struct HuffmanContext {
    pub node_arena: Vec<HuffmanNode>,
    pub root_node_id: usize,
}

impl HuffmanContext {
    pub open spec fn wf(self) -> bool {
        &&& self.root_node_id == 0
        &&& self.node_arena@.len() > 0
        &&& subtree_wf(self.node_arena@, self.root_node_id as int)
    }

    /// The mathematical tree this arena represents.
    pub open spec fn tree(self) -> TreeShape {
        subtree_view(self.node_arena@, self.root_node_id as int)
    }

    /// An empty context: a single zero leaf, to be filled by `decode_tree`.
    pub fn new() -> (r: HuffmanContext)
        ensures
            r.node_arena@.len() == 1,
            r.node_arena@[0] == (HuffmanNode::Leaf { value: 0u16 }),
            r.root_node_id == 0,
            r.wf(),
    {
        let mut node_arena: Vec<HuffmanNode> = Vec::new();
        node_arena.push(HuffmanNode::Leaf { value: 0 });
        HuffmanContext { node_arena, root_node_id: 0 }
    }

    /// Returns the context to its freshly-constructed single-leaf state.
    pub fn clear(&mut self)
        ensures
            final(self).node_arena@.len() == 1,
            final(self).node_arena@[0] == (HuffmanNode::Leaf { value: 0u16 }),
            final(self).root_node_id == 0,
            final(self).wf(),
    {
        self.node_arena.clear();
        self.node_arena.push(HuffmanNode::Leaf { value: 0 });
        self.root_node_id = 0;
    }

    /// Walks the tree by one bit per internal node and returns the value of
    /// the leaf reached, leaving the reader just past the consumed bits.
    #[verifier::loop_isolation(false)]
    pub fn get_value(&self, reader: &mut BitReader) -> (r: u16)
        requires
            self.wf(),
            old(reader).wf(),
        ensures
            final(reader).wf(),
            final(reader).bytes@ == old(reader).bytes@,
            final(reader).bit_pos >= old(reader).bit_pos,
            r == spec_decode(self.tree(), old(reader).bytes@, old(reader).bit_pos as int).0,
            final(reader).bit_pos == spec_decode(
                self.tree(),
                old(reader).bytes@,
                old(reader).bit_pos as int,
            ).1,
    {
        let ghost b = reader.bytes@;
        let ghost start = reader.bit_pos as int;
        let mut node_id = self.root_node_id;
        loop
            invariant
                self.wf(),
                reader.wf(),
                reader.bytes@ == b,
                node_id < self.node_arena@.len(),
                subtree_wf(self.node_arena@, node_id as int),
                reader.bit_pos >= start,
                spec_decode(subtree_view(self.node_arena@, node_id as int), b, reader.bit_pos as int)
                    == spec_decode(self.tree(), b, start),
            decreases self.node_arena@.len() - node_id,
        {
            match self.node_arena[node_id] {
                HuffmanNode::Leaf { value } => {
                    return value;
                },
                HuffmanNode::Node { left_node_id, right_node_id } => {
                    let ghost pos_e = reader.bit_pos as int;
                    let ghost nid = node_id as int;
                    let bit = reader.read_bits(1);
                    proof {
                        assert(bits_value(b, pos_e + 1, 0) == 0);
                        lemma_bit_at_le_1(b, pos_e);
                        let lt = subtree_view(self.node_arena@, left_node_id as int);
                        let rt = subtree_view(self.node_arena@, right_node_id as int);
                        assert(subtree_view(self.node_arena@, nid) == (TreeShape::Node {
                            left: Box::new(lt),
                            right: Box::new(rt),
                        }));
                        if bit_at(b, pos_e) == 1 {
                            assert(spec_decode(subtree_view(self.node_arena@, nid), b, pos_e)
                                == spec_decode(rt, b, clamped_advance(b, pos_e, 1)));
                        } else {
                            assert(spec_decode(subtree_view(self.node_arena@, nid), b, pos_e)
                                == spec_decode(lt, b, clamped_advance(b, pos_e, 1)));
                        }
                    }
                    if bit == 0 {
                        node_id = left_node_id;
                    } else {
                        node_id = right_node_id;
                    }
                },
            }
        }
    }

    /// Builds a whole tree from the reader's current position.
    pub fn from_tree(reader: &mut BitReader, max_depth: usize) -> (r: Result<
        HuffmanContext,
        DecodeError,
    >)
        requires
            old(reader).wf(),
        ensures
            final(reader).wf(),
            final(reader).bytes@ == old(reader).bytes@,
            final(reader).bit_pos >= old(reader).bit_pos,
            match r {
                Ok(ctx) => {
                    &&& ctx.wf()
                    &&& encodes(ctx.tree(), old(reader).bytes@, old(reader).bit_pos as int)
                    &&& fits_depth(ctx.tree(), max_depth as int)
                    &&& leaves_lt(ctx.tree(), 256)
                    &&& final(reader).bit_pos == encode_end(
                        ctx.tree(),
                        old(reader).bytes@,
                        old(reader).bit_pos as int,
                    )
                },
                Err(e) => {
                    &&& e == DecodeError::TreeDepthExceeded
                    &&& forall|t: TreeShape|
                        !(encodes(t, old(reader).bytes@, old(reader).bit_pos as int) && fits_depth(
                            t,
                            max_depth as int,
                        ))
                },
            },
    {
        let mut context = HuffmanContext::new();
        let root_node_id = context.root_node_id;
        let r = Self::decode_tree(reader, max_depth, &mut context, root_node_id, 0);
        match r {
            Ok(()) => {
                proof {
                    lemma_encodes_leaves_lt(
                        context.tree(),
                        reader.bytes@,
                        old(reader).bit_pos as int,
                    );
                }
                Ok(context)
            },
            Err(e) => Err(e),
        }
    }

    /// Recursive-descent construction: a `0` bit makes this node a leaf of
    /// the next eight bits; a `1` bit makes it internal and describes the
    /// left then the right subtree.  A leaf past the depth budget is a
    /// malformed description and is reported, never built.
    pub fn decode_tree(
        reader: &mut BitReader,
        max_depth: usize,
        context: &mut HuffmanContext,
        node_id: usize,
        step_depth: usize,
    ) -> (r: Result<(), DecodeError>)
        requires
            old(reader).wf(),
            node_id < old(context).node_arena@.len(),
            old(context).node_arena@[node_id as int] is Leaf,
            step_depth + (8 * old(reader).bytes@.len() - old(reader).bit_pos) <= usize::MAX,
        ensures
            final(reader).wf(),
            final(reader).bytes@ == old(reader).bytes@,
            final(reader).bit_pos >= old(reader).bit_pos,
            final(context).root_node_id == old(context).root_node_id,
            final(context).node_arena@.len() >= old(context).node_arena@.len(),
            forall|j: int|
                0 <= j < old(context).node_arena@.len() && j != node_id
                    ==> final(context).node_arena@[j] == old(context).node_arena@[j],
            match r {
                Ok(()) => {
                    let arena = final(context).node_arena@;
                    let t = subtree_view(arena, node_id as int);
                    &&& subtree_wf(arena, node_id as int)
                    &&& forall|j: int|
                        #[trigger] subtree_ids(arena, node_id as int).contains(j) ==> j == node_id
                            || old(context).node_arena@.len() <= j < arena.len()
                    &&& encodes(t, old(reader).bytes@, old(reader).bit_pos as int)
                    &&& fits_depth(t, max_depth - step_depth)
                    &&& final(reader).bit_pos == encode_end(
                        t,
                        old(reader).bytes@,
                        old(reader).bit_pos as int,
                    )
                },
                Err(e) => {
                    &&& e == DecodeError::TreeDepthExceeded
                    &&& forall|t: TreeShape|
                        !(encodes(t, old(reader).bytes@, old(reader).bit_pos as int) && fits_depth(
                            t,
                            max_depth - step_depth,
                        ))
                },
            },
        decreases 8 * old(reader).bytes@.len() - old(reader).bit_pos,
    {
        let ghost b = reader.bytes@;
        let ghost pos0 = reader.bit_pos as int;
        let ghost arena0 = context.node_arena@;
        let bit = reader.read_bits(1);
        proof {
            assert(bits_value(b, pos0, 1) == bit_at(b, pos0) + 2 * bits_value(b, pos0 + 1, 0));
            lemma_bit_at_le_1(b, pos0);
        }
        if bit == 0 {
            if max_depth <= step_depth {
                proof {
                    assert forall|t: TreeShape|
                        !(encodes(t, b, pos0) && fits_depth(
                            t,
                            max_depth - step_depth,
                        )) by {
                        match t {
                            TreeShape::Leaf { .. } => {
                                assert(!fits_depth(t, max_depth - step_depth));
                            },
                            TreeShape::Node { .. } => {
                                assert(!encodes(t, b, pos0));
                            },
                        }
                    }
                }
                return Err(DecodeError::TreeDepthExceeded);
            }
            let value = reader.read_bits(8) as u16;
            proof {
                lemma_bits_value_bound(b, clamped_advance(b, pos0, 1), 8);
                lemma_pow2_mono(8, 16);
                lemma_pow2_16();
            }
            context.node_arena[node_id] = HuffmanNode::Leaf { value };
            proof {
                let arena = context.node_arena@;
                assert(subtree_wf(arena, node_id as int));
                assert(subtree_ids(arena, node_id as int) =~= set![node_id as int]);
                assert(subtree_view(arena, node_id as int) == (TreeShape::Leaf { value }));
                assert(node_at_path(arena, node_id as int, Seq::<bool>::empty()) == node_id as int);
            }
            Ok(())
        } else {
            let left_node_id = context.node_arena.len();
            context.node_arena.push(HuffmanNode::Leaf { value: 0 });
            let right_node_id = context.node_arena.len();
            context.node_arena.push(HuffmanNode::Leaf { value: 0 });
            context.node_arena[node_id] = HuffmanNode::Node { left_node_id, right_node_id };
            let ghost p1 = clamped_advance(b, pos0, 1);
            proof {
                assert(bit_at(b, pos0) == 1);
                assert(pos0 < 8 * b.len());
                assert(p1 == pos0 + 1);
            }
            let ghost len_bc1 = context.node_arena@.len();
            match Self::decode_tree(reader, max_depth, context, left_node_id, step_depth + 1) {
                Ok(()) => {},
                Err(e) => {
                    proof {
                        assert forall|t: TreeShape|
                            !(encodes(t, b, pos0) && fits_depth(
                                t,
                                max_depth - step_depth,
                            )) by {
                            match t {
                                TreeShape::Leaf { .. } => {
                                    assert(!encodes(t, b, pos0));
                                },
                                TreeShape::Node { left, right } => {
                                    if encodes(t, b, pos0) && fits_depth(
                                        t,
                                        max_depth - step_depth,
                                    ) {
                                        assert(encodes(*left, b, p1));
                                        assert(fits_depth(*left, max_depth - (step_depth + 1)));
                                        assert(false);
                                    }
                                },
                            }
                        }
                    }
                    return Err(e);
                },
            }
            let ghost arena_mid = context.node_arena@;
            let ghost lt = subtree_view(arena_mid, left_node_id as int);
            let ghost pos_mid = reader.bit_pos as int;
            match Self::decode_tree(reader, max_depth, context, right_node_id, step_depth + 1) {
                Ok(()) => {},
                Err(e) => {
                    proof {
                        assert forall|t: TreeShape|
                            !(encodes(t, b, pos0) && fits_depth(
                                t,
                                max_depth - step_depth,
                            )) by {
                            match t {
                                TreeShape::Leaf { .. } => {
                                    assert(!encodes(t, b, pos0));
                                },
                                TreeShape::Node { left, right } => {
                                    if encodes(t, b, pos0) && fits_depth(
                                        t,
                                        max_depth - step_depth,
                                    ) {
                                        lemma_encodes_deterministic(*left, lt, b, p1);
                                        assert(encodes(*right, b, pos_mid));
                                        assert(fits_depth(*right, max_depth - (step_depth + 1)));
                                        assert(false);
                                    }
                                },
                            }
                        }
                    }
                    return Err(e);
                },
            }
            proof {
                let arena2 = context.node_arena@;
                let rt = subtree_view(arena2, right_node_id as int);
                // the right child's construction left the finished left subtree alone
                lemma_subtree_ids_range(arena_mid, left_node_id as int);
                assert forall|j: int| subtree_ids(arena_mid, left_node_id as int).contains(j)
                    implies 0 <= j < arena2.len() && arena2[j] == arena_mid[j] by {
                    assert(j == left_node_id || len_bc1 <= j < arena_mid.len());
                }
                lemma_subtree_frame(arena_mid, arena2, left_node_id as int);
                assert(subtree_view(arena2, left_node_id as int) == lt);
                assert(arena2[node_id as int] == (HuffmanNode::Node { left_node_id, right_node_id }));
                assert(subtree_wf(arena2, node_id as int));
                let t = subtree_view(arena2, node_id as int);
                assert(t == (TreeShape::Node { left: Box::new(lt), right: Box::new(rt) }));
                assert(encodes(t, b, pos0));
                assert(fits_depth(t, max_depth - step_depth));
                assert(reader.bit_pos == encode_end(t, b, pos0));
                // every index of the new subtree is this node or newly allocated
                assert forall|j: int| #[trigger] subtree_ids(arena2, node_id as int).contains(j)
                    implies j == node_id || arena0.len() <= j < arena2.len() by {
                    assert(subtree_ids(arena2, node_id as int) == set![node_id as int].union(
                        subtree_ids(arena2, left_node_id as int),
                    ).union(subtree_ids(arena2, right_node_id as int)));
                    if j != node_id {
                        if subtree_ids(arena2, left_node_id as int).contains(j) {
                            assert(subtree_ids(arena_mid, left_node_id as int).contains(j));
                        } else {
                            assert(subtree_ids(arena2, right_node_id as int).contains(j));
                        }
                    }
                }
            }
            Ok(())
        }
    }
}

/// All indices of a subtree lie between its root and the arena end.
pub proof fn lemma_subtree_ids_range(arena: Seq<HuffmanNode>, id: int)
    requires
        subtree_wf(arena, id),
    ensures
        forall|j: int| #[trigger] subtree_ids(arena, id).contains(j) ==> id <= j < arena.len(),
    decreases arena.len() - id,
{
    match arena[id] {
        HuffmanNode::Leaf { .. } => {},
        HuffmanNode::Node { left_node_id, right_node_id } => {
            let l = left_node_id as int;
            let r = right_node_id as int;
            lemma_subtree_ids_range(arena, l);
            lemma_subtree_ids_range(arena, r);
            assert forall|j: int| subtree_ids(arena, id).contains(j) implies id <= j
                < arena.len() by {
                if j != id {
                    assert(subtree_ids(arena, l).contains(j) || subtree_ids(arena, r).contains(j));
                }
            }
        },
    }
}

/// The value stored at an arena leaf (zero on a non-leaf, which callers
/// rule out).
pub open spec fn leaf_value(arena: Seq<HuffmanNode>, id: int) -> u16 {
    if 0 <= id < arena.len() {
        match arena[id] {
            HuffmanNode::Leaf { value } => value,
            HuffmanNode::Node { .. } => 0,
        }
    } else {
        0
    }
}

/// Rewriting one leaf's stored value never changes a subtree's shape
/// invariant.
pub proof fn lemma_update_leaf_wf(arena: Seq<HuffmanNode>, j: int, v: u16, id: int)
    requires
        subtree_wf(arena, id),
        0 <= j < arena.len(),
        arena[j] is Leaf,
    ensures
        subtree_wf(arena.update(j, HuffmanNode::Leaf { value: v }), id),
    decreases arena.len() - id,
{
    match arena[id] {
        HuffmanNode::Leaf { .. } => {},
        HuffmanNode::Node { left_node_id, right_node_id } => {
            lemma_update_leaf_wf(arena, j, v, left_node_id as int);
            lemma_update_leaf_wf(arena, j, v, right_node_id as int);
        },
    }
}

/// The tree of an optional context.
pub open spec fn tree_opt(o: Option<HuffmanContext>) -> Option<TreeShape> {
    match o {
        Option::None => Option::None,
        Option::Some(c) => Option::Some(c.tree()),
    }
}

/// Validity of an optional sub-tree: well formed, with 8-bit leaf values.
pub open spec fn opt_sub_tree_wf(o: Option<HuffmanContext>) -> bool {
    match o {
        Option::None => true,
        Option::Some(c) => c.wf() && leaves_lt(c.tree(), 256),
    }
}

/// Walking an optional sub-tree: an absent tree contributes byte zero and
/// consumes nothing.
pub open spec fn opt_decode(t: Option<TreeShape>, b: Seq<u8>, pos: int) -> (u16, int) {
    match t {
        Option::None => (0u16, pos),
        Option::Some(t) => spec_decode(t, b, pos),
    }
}

/// The escape bookkeeping applied to a freshly combined leaf value: each of
/// the three sentinels is compared in order against the running value, and a
/// hit replaces it with zero before the next comparison.
pub open spec fn zero_escaped(c: u16, escapes: Seq<u16>) -> u16 {
    let v1 = if escapes[0] == c { 0u16 } else { c };
    let v2 = if escapes[1] == v1 { 0u16 } else { v1 };
    if escapes[2] == v2 { 0u16 } else { v2 }
}

/// End position of the serialized description of a combined-alphabet tree:
/// as in `encode_end`, except that each leaf is read through the low and
/// high byte sub-trees instead of as a literal byte.
pub open spec fn big_encode_end(
    t: TreeShape,
    b: Seq<u8>,
    pos: int,
    low: Option<TreeShape>,
    high: Option<TreeShape>,
) -> int
    decreases t,
{
    match t {
        TreeShape::Leaf { .. } => {
            let p1 = clamped_advance(b, pos, 1);
            let p2 = opt_decode(low, b, p1).1;
            opt_decode(high, b, p2).1
        },
        TreeShape::Node { left, right } => big_encode_end(
            *right,
            b,
            big_encode_end(*left, b, clamped_advance(b, pos, 1), low, high),
            low,
            high,
        ),
    }
}

/// The bits starting at `pos` describe the combined-alphabet tree `t`: same
/// trie grammar as `encodes`, but a leaf's value is decoded through the low
/// and high sub-trees (combined as `low + high * 256`) and then filtered
/// through the three escape sentinels.
pub open spec fn big_encodes(
    t: TreeShape,
    b: Seq<u8>,
    pos: int,
    low: Option<TreeShape>,
    high: Option<TreeShape>,
    escapes: Seq<u16>,
) -> bool
    decreases t,
{
    match t {
        TreeShape::Leaf { value } => {
            let p1 = clamped_advance(b, pos, 1);
            let (lo, p2) = opt_decode(low, b, p1);
            let (hi, p3) = opt_decode(high, b, p2);
            &&& bit_at(b, pos) == 0
            &&& value == zero_escaped((lo + hi * 0x100) as u16, escapes)
        },
        TreeShape::Node { left, right } => {
            &&& bit_at(b, pos) == 1
            &&& big_encodes(*left, b, clamped_advance(b, pos, 1), low, high, escapes)
            &&& big_encodes(
                *right,
                b,
                big_encode_end(*left, b, clamped_advance(b, pos, 1), low, high),
                low,
                high,
                escapes,
            )
        },
    }
}

/// Combined-alphabet descriptions are also a prefix code: the bits determine
/// the tree.
pub proof fn lemma_big_encodes_deterministic(
    t1: TreeShape,
    t2: TreeShape,
    b: Seq<u8>,
    pos: int,
    low: Option<TreeShape>,
    high: Option<TreeShape>,
    escapes: Seq<u16>,
)
    requires
        big_encodes(t1, b, pos, low, high, escapes),
        big_encodes(t2, b, pos, low, high, escapes),
    ensures
        t1 == t2,
        big_encode_end(t1, b, pos, low, high) == big_encode_end(t2, b, pos, low, high),
    decreases t1,
{
    match t1 {
        TreeShape::Leaf { .. } => {
            match t2 {
                TreeShape::Leaf { .. } => {},
                TreeShape::Node { .. } => {
                    assert(false);
                },
            }
        },
        TreeShape::Node { left: l1, right: r1 } => {
            match t2 {
                TreeShape::Leaf { .. } => {
                    assert(false);
                },
                TreeShape::Node { left: l2, right: r2 } => {
                    let p1 = clamped_advance(b, pos, 1);
                    lemma_big_encodes_deterministic(*l1, *l2, b, p1, low, high, escapes);
                    lemma_big_encodes_deterministic(
                        *r1,
                        *r2,
                        b,
                        big_encode_end(*l1, b, p1, low, high),
                        low,
                        high,
                        escapes,
                    );
                },
            }
        },
    }
}


/// Index of the arena node reached from `id` by following `path` (`false`
/// left, `true` right); -1 marks a path that leaves the structure.
pub open spec fn node_at_path(arena: Seq<HuffmanNode>, id: int, path: Seq<bool>) -> int
    decreases path.len(),
{
    if path.len() == 0 {
        id
    } else if 0 <= id < arena.len() {
        match arena[id] {
            HuffmanNode::Node { left_node_id, right_node_id } => node_at_path(
                arena,
                (if path[0] {
                    right_node_id
                } else {
                    left_node_id
                }) as int,
                path.skip(1),
            ),
            HuffmanNode::Leaf { .. } => -1,
        }
    } else {
        -1
    }
}

/// A later (right-subtree) escape hit overrides an earlier one.
pub open spec fn slot_combine(l: Option<Seq<bool>>, r: Option<Seq<bool>>) -> Option<Seq<bool>> {
    match r {
        Option::Some(p) => Option::Some(seq![true] + p),
        Option::None => match l {
            Option::Some(p) => Option::Some(seq![false] + p),
            Option::None => Option::None,
        },
    }
}

/// Which leaf, by its path, each register slot records during the build of
/// `t`: a leaf claims slot `i` when its combined value, run through the
/// earlier sentinels' zeroing chain, equals `escapes[i]`; the build walks
/// depth first, so the rightmost matching leaf wins.
pub open spec fn big_slot_paths(
    t: TreeShape,
    b: Seq<u8>,
    pos: int,
    low: Option<TreeShape>,
    high: Option<TreeShape>,
    escapes: Seq<u16>,
) -> (Option<Seq<bool>>, Option<Seq<bool>>, Option<Seq<bool>>)
    decreases t,
{
    match t {
        TreeShape::Leaf { .. } => {
            let p1 = clamped_advance(b, pos, 1);
            let lo = opt_decode(low, b, p1);
            let hi = opt_decode(high, b, lo.1);
            let c = (lo.0 + hi.0 * 0x100) as u16;
            let m0 = escapes[0] == c;
            let v1: u16 = if m0 {
                0
            } else {
                c
            };
            let m1 = escapes[1] == v1;
            let v2: u16 = if m1 {
                0
            } else {
                v1
            };
            let m2 = escapes[2] == v2;
            (
                (if m0 {
                    Option::Some(Seq::<bool>::empty())
                } else {
                    Option::None
                }),
                (if m1 {
                    Option::Some(Seq::<bool>::empty())
                } else {
                    Option::None
                }),
                (if m2 {
                    Option::Some(Seq::<bool>::empty())
                } else {
                    Option::None
                }),
            )
        },
        TreeShape::Node { left, right } => {
            let pl = clamped_advance(b, pos, 1);
            let sl = big_slot_paths(*left, b, pl, low, high, escapes);
            let sr = big_slot_paths(
                *right,
                b,
                big_encode_end(*left, b, pl, low, high),
                low,
                high,
                escapes,
            );
            (slot_combine(sl.0, sr.0), slot_combine(sl.1, sr.1), slot_combine(sl.2, sr.2))
        },
    }
}

/// A path is insensitive to arena entries outside the subtree it walks.
pub proof fn lemma_node_at_path_frame(
    a1: Seq<HuffmanNode>,
    a2: Seq<HuffmanNode>,
    id: int,
    path: Seq<bool>,
)
    requires
        subtree_wf(a1, id),
        a2.len() >= a1.len(),
        forall|j: int| #[trigger] subtree_ids(a1, id).contains(j) ==> 0 <= j < a2.len() && a2[j] == a1[j],
    ensures
        node_at_path(a2, id, path) == node_at_path(a1, id, path),
    decreases path.len(),
{
    assert(subtree_ids(a1, id).contains(id));
    if path.len() > 0 {
        match a1[id] {
            HuffmanNode::Leaf { .. } => {},
            HuffmanNode::Node { left_node_id, right_node_id } => {
                let child = (if path[0] {
                    right_node_id
                } else {
                    left_node_id
                }) as int;
                assert(subtree_ids(a1, id) == set![id].union(
                    subtree_ids(a1, left_node_id as int),
                ).union(subtree_ids(a1, right_node_id as int)));
                assert forall|j: int| #[trigger] subtree_ids(a1, child).contains(j) implies 0 <= j
                    < a2.len() && a2[j] == a1[j] by {
                    assert(subtree_ids(a1, id).contains(j));
                }
                lemma_node_at_path_frame(a1, a2, child, path.skip(1));
            },
        }
    }
}

/// A leaf path of the view lands on a leaf entry of the arena carrying the
/// same value.
pub proof fn lemma_node_at_path_leaf(arena: Seq<HuffmanNode>, id: int, path: Seq<bool>)
    requires
        subtree_wf(arena, id),
        leaf_at(subtree_view(arena, id), path) is Some,
    ensures
        ({
            let n = node_at_path(arena, id, path);
            &&& 0 <= n < arena.len()
            &&& arena[n] is Leaf
            &&& subtree_ids(arena, id).contains(n)
            &&& leaf_value(arena, n) == leaf_at(subtree_view(arena, id), path).unwrap()
        }),
    decreases path.len(),
{
    assert(subtree_ids(arena, id).contains(id));
    match arena[id] {
        HuffmanNode::Leaf { .. } => {
            assert(path.len() == 0);
        },
        HuffmanNode::Node { left_node_id, right_node_id } => {
            assert(path.len() > 0);
            let child = (if path[0] {
                right_node_id
            } else {
                left_node_id
            }) as int;
            lemma_node_at_path_leaf(arena, child, path.skip(1));
            assert(subtree_ids(arena, id) == set![id].union(
                subtree_ids(arena, left_node_id as int),
            ).union(subtree_ids(arena, right_node_id as int)));
            assert(subtree_ids(arena, id).contains(node_at_path(arena, child, path.skip(1))));
        },
    }
}

/// The recorded slot paths always point at leaves of the built tree.
pub proof fn lemma_big_slot_paths_are_leaves(
    t: TreeShape,
    b: Seq<u8>,
    pos: int,
    low: Option<TreeShape>,
    high: Option<TreeShape>,
    escapes: Seq<u16>,
)
    ensures
        ({
            let sl = big_slot_paths(t, b, pos, low, high, escapes);
            &&& (sl.0 is Some ==> leaf_at(t, sl.0.unwrap()) is Some)
            &&& (sl.1 is Some ==> leaf_at(t, sl.1.unwrap()) is Some)
            &&& (sl.2 is Some ==> leaf_at(t, sl.2.unwrap()) is Some)
        }),
    decreases t,
{
    match t {
        TreeShape::Leaf { .. } => {},
        TreeShape::Node { left, right } => {
            let pl = clamped_advance(b, pos, 1);
            lemma_big_slot_paths_are_leaves(*left, b, pl, low, high, escapes);
            lemma_big_slot_paths_are_leaves(
                *right,
                b,
                big_encode_end(*left, b, pl, low, high),
                low,
                high,
                escapes,
            );
            let sl = big_slot_paths(*left, b, pl, low, high, escapes);
            let sr = big_slot_paths(
                *right,
                b,
                big_encode_end(*left, b, pl, low, high),
                low,
                high,
                escapes,
            );
            lemma_slot_combine_leaf(t, sl.0, sr.0);
            lemma_slot_combine_leaf(t, sl.1, sr.1);
            lemma_slot_combine_leaf(t, sl.2, sr.2);
        },
    }
}

/// Helper: a combined claim is a leaf path of the parent when the claimed
/// path is a leaf path of its subtree.
pub proof fn lemma_slot_combine_leaf(t: TreeShape, l: Option<Seq<bool>>, r: Option<Seq<bool>>)
    requires
        t is Node,
        (l is Some ==> leaf_at(*t->Node_left, l.unwrap()) is Some),
        (r is Some ==> leaf_at(*t->Node_right, r.unwrap()) is Some),
    ensures
        slot_combine(l, r) is Some ==> leaf_at(t, slot_combine(l, r).unwrap()) is Some,
{
    match r {
        Option::Some(p) => {
            assert((seq![true] + p)[0] == true);
            assert((seq![true] + p).skip(1) =~= p);
        },
        Option::None => {
            match l {
                Option::Some(p) => {
                    assert((seq![false] + p)[0] == false);
                    assert((seq![false] + p).skip(1) =~= p);
                },
                Option::None => {},
            }
        },
    }
}

/// The state threaded through a combined-alphabet tree build: the two
/// optional byte sub-trees, the three escape sentinels, and the three
/// most-recently-used register slots (arena indices into the combined tree).
pub struct HeaderTreeHead {
    pub low_tree: Option<HuffmanContext>,
    pub high_tree: Option<HuffmanContext>,
    pub escapes: [u16; 3],
    pub last_nodes: [usize; 3],
}

/// A combined-alphabet prefix tree over 16-bit symbols with a three-slot
/// most-recently-used value cache riding on three designated leaves.
pub struct HeaderTree {
    pub head: HeaderTreeHead,
    pub tree: HuffmanContext,
}



/// Where one register slot points after a build: a recorded escape hit
/// points at the matching leaf; an unclaimed slot keeps its initial index
/// zero when the combined tree is a bare leaf, and otherwise references a
/// standalone zero leaf outside the reachable tree.
pub open spec fn spec_slot_bound(arena: Seq<HuffmanNode>, sl: Option<Seq<bool>>, ln: int) -> bool {
    match sl {
        Option::Some(p) => ln == node_at_path(arena, 0, p),
        Option::None => if 0 < arena.len() && arena[0] is Leaf {
            ln == 0
        } else {
            &&& 0 <= ln < arena.len()
            &&& !subtree_ids(arena, 0).contains(ln)
            &&& arena[ln] == (HuffmanNode::Leaf { value: 0u16 })
        },
    }
}

/// Where the serialized section of one combined-alphabet tree ends (the
/// position after its trailing padding bit), given the tree that was read
/// from position `p0`.
pub open spec fn header_tree_end(ht: HeaderTree, b: Seq<u8>, p0: int) -> int {
    let p1 = clamped_advance(b, p0, 1);
    let p_low_end = match ht.head.low_tree {
        Option::None => p1,
        Option::Some(c) => clamped_advance(b, encode_end(c.tree(), b, p1), 1),
    };
    let p2 = clamped_advance(b, p_low_end, 1);
    let p_high_end = match ht.head.high_tree {
        Option::None => p2,
        Option::Some(c) => clamped_advance(b, encode_end(c.tree(), b, p2), 1),
    };
    let pe1 = clamped_advance(b, p_high_end, 16);
    let pe2 = clamped_advance(b, pe1, 16);
    let pbig = clamped_advance(b, pe2, 16);
    clamped_advance(
        b,
        big_encode_end(ht.tree.tree(), b, pbig, tree_opt(ht.head.low_tree), tree_opt(ht.head.high_tree)),
        1,
    )
}

/// The bits from `p0` describe `ht` under the size parameter `size`: a
/// presence bit and description (plus one padding bit) for each byte
/// sub-tree, three literal 16-bit escape sentinels, the combined tree, and
/// a trailing padding bit.
pub open spec fn header_tree_parsed(ht: HeaderTree, b: Seq<u8>, p0: int, size: int) -> bool {
    let p1 = clamped_advance(b, p0, 1);
    let p_low_end = match ht.head.low_tree {
        Option::None => p1,
        Option::Some(c) => clamped_advance(b, encode_end(c.tree(), b, p1), 1),
    };
    let p2 = clamped_advance(b, p_low_end, 1);
    let p_high_end = match ht.head.high_tree {
        Option::None => p2,
        Option::Some(c) => clamped_advance(b, encode_end(c.tree(), b, p2), 1),
    };
    let pe1 = clamped_advance(b, p_high_end, 16);
    let pe2 = clamped_advance(b, pe1, 16);
    let pbig = clamped_advance(b, pe2, 16);
    &&& ht.wf()
    &&& (ht.head.low_tree is Some <==> bit_at(b, p0) == 1)
    &&& match ht.head.low_tree {
        Option::None => true,
        Option::Some(c) => encodes(c.tree(), b, p1) && fits_depth(c.tree(), 256),
    }
    &&& (ht.head.high_tree is Some <==> bit_at(b, p_low_end) == 1)
    &&& match ht.head.high_tree {
        Option::None => true,
        Option::Some(c) => encodes(c.tree(), b, p2) && fits_depth(c.tree(), 256),
    }
    &&& ht.head.escapes@[0] == bits_value(b, p_high_end, 16)
    &&& ht.head.escapes@[1] == bits_value(b, pe1, 16)
    &&& ht.head.escapes@[2] == bits_value(b, pe2, 16)
    &&& big_encodes(
        ht.tree.tree(),
        b,
        pbig,
        tree_opt(ht.head.low_tree),
        tree_opt(ht.head.high_tree),
        ht.head.escapes@,
    )
    &&& fits_depth(ht.tree.tree(), big_budget(size))
    &&& ({
        let sl = big_slot_paths(
            ht.tree.tree(),
            b,
            pbig,
            tree_opt(ht.head.low_tree),
            tree_opt(ht.head.high_tree),
            ht.head.escapes@,
        );
        &&& spec_slot_bound(ht.tree.node_arena@, sl.0, ht.head.last_nodes@[0] as int)
        &&& spec_slot_bound(ht.tree.node_arena@, sl.1, ht.head.last_nodes@[1] as int)
        &&& spec_slot_bound(ht.tree.node_arena@, sl.2, ht.head.last_nodes@[2] as int)
    })
}


/// A tree-block position determines the parse: two header trees parsed
/// from the same bits agree on their sub-tree shapes, escapes, combined
/// tree and end position.
pub proof fn lemma_header_tree_parsed_deterministic(
    h1: HeaderTree,
    h2: HeaderTree,
    b: Seq<u8>,
    p0: int,
    size: int,
)
    requires
        header_tree_parsed(h1, b, p0, size),
        header_tree_parsed(h2, b, p0, size),
    ensures
        tree_opt(h1.head.low_tree) == tree_opt(h2.head.low_tree),
        tree_opt(h1.head.high_tree) == tree_opt(h2.head.high_tree),
        h1.head.escapes@ == h2.head.escapes@,
        h1.tree.tree() == h2.tree.tree(),
        header_tree_end(h1, b, p0) == header_tree_end(h2, b, p0),
{
    let p1 = clamped_advance(b, p0, 1);
    let le1 = match h1.head.low_tree {
        Option::None => p1,
        Option::Some(c) => clamped_advance(b, encode_end(c.tree(), b, p1), 1),
    };
    match h1.head.low_tree {
        Option::None => {
            assert(h2.head.low_tree is None);
        },
        Option::Some(c1) => {
            let c2 = h2.head.low_tree.unwrap();
            lemma_encodes_deterministic(c1.tree(), c2.tree(), b, p1);
        },
    }
    let p2 = clamped_advance(b, le1, 1);
    match h1.head.high_tree {
        Option::None => {
            assert(h2.head.high_tree is None);
        },
        Option::Some(c1) => {
            let c2 = h2.head.high_tree.unwrap();
            lemma_encodes_deterministic(c1.tree(), c2.tree(), b, p2);
        },
    }
    assert(h1.head.escapes@ =~= h2.head.escapes@);
    let he1 = match h1.head.high_tree {
        Option::None => p2,
        Option::Some(c) => clamped_advance(b, encode_end(c.tree(), b, p2), 1),
    };
    let pbig = clamped_advance(b, clamped_advance(b, clamped_advance(b, he1, 16), 16), 16);
    lemma_big_encodes_deterministic(
        h1.tree.tree(),
        h2.tree.tree(),
        b,
        pbig,
        tree_opt(h1.head.low_tree),
        tree_opt(h1.head.high_tree),
        h1.head.escapes@,
    );
}

impl HeaderTree {
    /// Validity: the combined tree and any sub-trees are well formed, and
    /// all three register slots point at real leaves of the combined tree.
    pub open spec fn wf(self) -> bool {
        &&& self.tree.wf()
        &&& opt_sub_tree_wf(self.head.low_tree)
        &&& opt_sub_tree_wf(self.head.high_tree)
        &&& forall|i: int|
            0 <= i < 3 ==> self.head.last_nodes@[i] < self.tree.node_arena@.len()
                && self.tree.node_arena@[self.head.last_nodes@[i] as int] is Leaf
    }

    /// The stored value of register slot `i`.
    pub open spec fn last_value(self, i: int) -> u16 {
        leaf_value(self.tree.node_arena@, self.head.last_nodes@[i] as int)
    }

    /// The three register slots reference three different leaves.
    pub open spec fn distinct_last(self) -> bool {
        &&& self.head.last_nodes@[0] != self.head.last_nodes@[1]
        &&& self.head.last_nodes@[0] != self.head.last_nodes@[2]
        &&& self.head.last_nodes@[1] != self.head.last_nodes@[2]
    }

    pub fn is_leaf(&self, node_id: usize) -> (r: bool)
        requires
            node_id < self.tree.node_arena@.len(),
        ensures
            r == self.tree.node_arena@[node_id as int] is Leaf,
    {
        match self.tree.node_arena[node_id] {
            HuffmanNode::Leaf { .. } => true,
            _ => false,
        }
    }

    pub fn get_leaf_value_by_node_id(&self, node_id: usize) -> (r: u16)
        requires
            node_id < self.tree.node_arena@.len(),
            self.tree.node_arena@[node_id as int] is Leaf,
        ensures
            r == leaf_value(self.tree.node_arena@, node_id as int),
    {
        match self.tree.node_arena[node_id] {
            HuffmanNode::Leaf { value } => value,
            _ => 0,
        }
    }

    /// Copies the value stored at one leaf onto another; does nothing when
    /// either index is not a leaf.
    pub fn flow_value(&mut self, source_node_id: usize, dest_node_id: usize)
        requires
            source_node_id < old(self).tree.node_arena@.len(),
            dest_node_id < old(self).tree.node_arena@.len(),
        ensures
            final(self).head == old(self).head,
            final(self).tree.root_node_id == old(self).tree.root_node_id,
            final(self).tree.node_arena@.len() == old(self).tree.node_arena@.len(),
            if old(self).tree.node_arena@[source_node_id as int] is Leaf && old(
                self,
            ).tree.node_arena@[dest_node_id as int] is Leaf {
                final(self).tree.node_arena@ == old(self).tree.node_arena@.update(
                    dest_node_id as int,
                    HuffmanNode::Leaf {
                        value: leaf_value(old(self).tree.node_arena@, source_node_id as int),
                    },
                )
            } else {
                final(self).tree.node_arena@ == old(self).tree.node_arena@
            },
    {
        if !self.is_leaf(source_node_id) || !self.is_leaf(dest_node_id) {
            return ;
        }
        let source_value = self.get_leaf_value_by_node_id(source_node_id);
        self.tree.node_arena[dest_node_id] = HuffmanNode::Leaf { value: source_value };
    }

    /// Zeroes the stored value of all three register slots; run once before
    /// each frame's decode.
    pub fn reset_last(&mut self)
        requires
            old(self).wf(),
        ensures
            final(self).wf(),
            final(self).head == old(self).head,
            final(self).tree.root_node_id == old(self).tree.root_node_id,
            final(self).tree.node_arena@ == old(self).tree.node_arena@.update(
                old(self).head.last_nodes@[0] as int,
                HuffmanNode::Leaf { value: 0u16 },
            ).update(old(self).head.last_nodes@[1] as int, HuffmanNode::Leaf { value: 0u16 }).update(
                old(self).head.last_nodes@[2] as int,
                HuffmanNode::Leaf { value: 0u16 },
            ),
            forall|i: int| 0 <= i < 3 ==> final(self).last_value(i) == 0,
    {
        let ghost arena0 = self.tree.node_arena@;
        let l0 = self.head.last_nodes[0];
        let l1 = self.head.last_nodes[1];
        let l2 = self.head.last_nodes[2];
        self.tree.node_arena[l0] = HuffmanNode::Leaf { value: 0 };
        self.tree.node_arena[l1] = HuffmanNode::Leaf { value: 0 };
        self.tree.node_arena[l2] = HuffmanNode::Leaf { value: 0 };
        proof {
            lemma_update_leaf_wf(arena0, l0 as int, 0, old(self).tree.root_node_id as int);
            lemma_update_leaf_wf(
                arena0.update(l0 as int, HuffmanNode::Leaf { value: 0u16 }),
                l1 as int,
                0,
                old(self).tree.root_node_id as int,
            );
            lemma_update_leaf_wf(
                arena0.update(l0 as int, HuffmanNode::Leaf { value: 0u16 }).update(
                    l1 as int,
                    HuffmanNode::Leaf { value: 0u16 },
                ),
                l2 as int,
                0,
                old(self).tree.root_node_id as int,
            );
        }
    }

    /// Decodes one 16-bit symbol through the combined tree, then updates the
    /// most-recently-used registers: when the symbol differs from slot 0's
    /// stored value the slots shift (2 takes 1's value, 1 takes 0's, 0 takes
    /// the symbol); a repeat of slot 0 leaves all registers untouched.  The
    /// returned value is always the decoded symbol itself.
    pub fn get_value(&mut self, reader: &mut BitReader) -> (r: u16)
        requires
            old(self).wf(),
            old(reader).wf(),
        ensures
            final(self).wf(),
            final(reader).wf(),
            final(reader).bytes@ == old(reader).bytes@,
            final(reader).bit_pos >= old(reader).bit_pos,
            r == spec_decode(
                old(self).tree.tree(),
                old(reader).bytes@,
                old(reader).bit_pos as int,
            ).0,
            final(reader).bit_pos == spec_decode(
                old(self).tree.tree(),
                old(reader).bytes@,
                old(reader).bit_pos as int,
            ).1,
            final(self).head == old(self).head,
            final(self).tree.root_node_id == old(self).tree.root_node_id,
            ({
                let a0 = old(self).tree.node_arena@;
                let l0 = old(self).head.last_nodes@[0] as int;
                let l1 = old(self).head.last_nodes@[1] as int;
                let l2 = old(self).head.last_nodes@[2] as int;
                if leaf_value(a0, l0) == r {
                    final(self).tree.node_arena@ == a0
                } else {
                    {
                        let a1 = a0.update(l2, HuffmanNode::Leaf { value: leaf_value(a0, l1) });
                        let a2 = a1.update(l1, HuffmanNode::Leaf { value: leaf_value(a1, l0) });
                        final(self).tree.node_arena@ == a2.update(
                            l0,
                            HuffmanNode::Leaf { value: r },
                        )
                    }
                }
            }),
            old(self).distinct_last() && old(self).last_value(0) != r ==> {
                &&& final(self).last_value(0) == r
                &&& final(self).last_value(1) == old(self).last_value(0)
                &&& final(self).last_value(2) == old(self).last_value(1)
            },
            old(self).last_value(0) == r ==> final(self).tree.node_arena@ == old(
                self,
            ).tree.node_arena@,
    {
        let ghost a0 = self.tree.node_arena@;
        let val = self.tree.get_value(reader);
        let l0 = self.head.last_nodes[0];
        let l1 = self.head.last_nodes[1];
        let l2 = self.head.last_nodes[2];
        let v0 = self.get_leaf_value_by_node_id(l0);
        if v0 != val {
            self.flow_value(l1, l2);
            self.flow_value(l0, l1);
            let ghost a2 = self.tree.node_arena@;
            self.tree.node_arena[l0] = HuffmanNode::Leaf { value: val };
            proof {
                lemma_update_leaf_wf(a0, l2 as int, leaf_value(a0, l1 as int), self.tree.root_node_id as int);
                let a1 = a0.update(l2 as int, HuffmanNode::Leaf { value: leaf_value(a0, l1 as int) });
                lemma_update_leaf_wf(a1, l1 as int, leaf_value(a1, l0 as int), self.tree.root_node_id as int);
                lemma_update_leaf_wf(a2, l0 as int, val, self.tree.root_node_id as int);
            }
        }
        val
    }
}


/// The depth budget for a combined-alphabet tree build, derived from the
/// header's size parameter for the stream.  The formula is part of the
/// format and is kept exactly.
pub open spec fn big_budget(size: int) -> int {
    (size + 3) / 4 + 4
}

impl HuffmanContext {
    /// Builds a combined-alphabet tree: same trie grammar as `decode_tree`,
    /// but leaves decode through `head`'s byte sub-trees and escape hits are
    /// zeroed and remembered in `head.last_nodes`.
    pub fn from_big_tree(reader: &mut BitReader, head: &mut HeaderTreeHead, max_depth: usize) -> (r:
        Result<HuffmanContext, DecodeError>)
        requires
            old(reader).wf(),
            opt_sub_tree_wf(old(head).low_tree),
            opt_sub_tree_wf(old(head).high_tree),
            max_depth <= 0xFFFF_FFFF,
        ensures
            final(reader).wf(),
            final(reader).bytes@ == old(reader).bytes@,
            final(reader).bit_pos >= old(reader).bit_pos,
            final(head).low_tree == old(head).low_tree,
            final(head).high_tree == old(head).high_tree,
            final(head).escapes == old(head).escapes,
            match r {
                Ok(ctx) => {
                    let sl = big_slot_paths(
                        ctx.tree(),
                        old(reader).bytes@,
                        old(reader).bit_pos as int,
                        tree_opt(old(head).low_tree),
                        tree_opt(old(head).high_tree),
                        old(head).escapes@,
                    );
                    &&& ctx.wf()
                    &&& big_encodes(
                        ctx.tree(),
                        old(reader).bytes@,
                        old(reader).bit_pos as int,
                        tree_opt(old(head).low_tree),
                        tree_opt(old(head).high_tree),
                        old(head).escapes@,
                    )
                    &&& fits_depth(ctx.tree(), big_budget(max_depth as int))
                    &&& final(reader).bit_pos == big_encode_end(
                        ctx.tree(),
                        old(reader).bytes@,
                        old(reader).bit_pos as int,
                        tree_opt(old(head).low_tree),
                        tree_opt(old(head).high_tree),
                    )
                    &&& final(head).last_nodes@[0] as int == (match sl.0 {
                        Option::Some(p) => node_at_path(ctx.node_arena@, 0, p),
                        Option::None => old(head).last_nodes@[0] as int,
                    })
                    &&& final(head).last_nodes@[1] as int == (match sl.1 {
                        Option::Some(p) => node_at_path(ctx.node_arena@, 0, p),
                        Option::None => old(head).last_nodes@[1] as int,
                    })
                    &&& final(head).last_nodes@[2] as int == (match sl.2 {
                        Option::Some(p) => node_at_path(ctx.node_arena@, 0, p),
                        Option::None => old(head).last_nodes@[2] as int,
                    })
                },
                Err(e) => {
                    &&& e == DecodeError::TreeDepthExceeded
                    &&& forall|t: TreeShape|
                        !(big_encodes(
                            t,
                            old(reader).bytes@,
                            old(reader).bit_pos as int,
                            tree_opt(old(head).low_tree),
                            tree_opt(old(head).high_tree),
                            old(head).escapes@,
                        ) && fits_depth(t, big_budget(max_depth as int)))
                },
            },
    {
        let mut context = HuffmanContext::new();
        let a: u64 = (max_depth as u64) + 3;
        let md64: u64 = a >> 2;
        proof {
            assert(md64 == a / 4) by (bit_vector)
                requires
                    md64 == a >> 2u64,
            ;
        }
        let budget: usize = (md64 as usize) + 4;
        let root_node_id = context.root_node_id;
        let r = Self::decode_big_tree(reader, head, budget, &mut context, root_node_id, 0);
        match r {
            Ok(()) => Ok(context),
            Err(e) => Err(e),
        }
    }

    /// One step of the combined-alphabet recursive descent.
    #[verifier::rlimit(100)]
    #[verifier::spinoff_prover]
    pub fn decode_big_tree(
        reader: &mut BitReader,
        head: &mut HeaderTreeHead,
        max_depth: usize,
        context: &mut HuffmanContext,
        node_id: usize,
        step_depth: usize,
    ) -> (r: Result<(), DecodeError>)
        requires
            old(reader).wf(),
            opt_sub_tree_wf(old(head).low_tree),
            opt_sub_tree_wf(old(head).high_tree),
            node_id < old(context).node_arena@.len(),
            old(context).node_arena@[node_id as int] is Leaf,
            step_depth + (8 * old(reader).bytes@.len() - old(reader).bit_pos) <= usize::MAX,
        ensures
            final(reader).wf(),
            final(reader).bytes@ == old(reader).bytes@,
            final(reader).bit_pos >= old(reader).bit_pos,
            final(head).low_tree == old(head).low_tree,
            final(head).high_tree == old(head).high_tree,
            final(head).escapes == old(head).escapes,
            final(context).root_node_id == old(context).root_node_id,
            final(context).node_arena@.len() >= old(context).node_arena@.len(),
            forall|j: int|
                0 <= j < old(context).node_arena@.len() && j != node_id
                    ==> final(context).node_arena@[j] == old(context).node_arena@[j],
            forall|i: int|
                0 <= i < 3 ==> final(head).last_nodes@[i] == old(head).last_nodes@[i]
                    || final(head).last_nodes@[i] < final(context).node_arena@.len(),
            match r {
                Ok(()) => {
                    let arena = final(context).node_arena@;
                    let t = subtree_view(arena, node_id as int);
                    let sl = big_slot_paths(
                        t,
                        old(reader).bytes@,
                        old(reader).bit_pos as int,
                        tree_opt(old(head).low_tree),
                        tree_opt(old(head).high_tree),
                        old(head).escapes@,
                    );
                    &&& subtree_wf(arena, node_id as int)
                    &&& forall|j: int|
                        #[trigger] subtree_ids(arena, node_id as int).contains(j) ==> j == node_id
                            || old(context).node_arena@.len() <= j < arena.len()
                    &&& big_encodes(
                        t,
                        old(reader).bytes@,
                        old(reader).bit_pos as int,
                        tree_opt(old(head).low_tree),
                        tree_opt(old(head).high_tree),
                        old(head).escapes@,
                    )
                    &&& fits_depth(t, max_depth - step_depth)
                    &&& final(reader).bit_pos == big_encode_end(
                        t,
                        old(reader).bytes@,
                        old(reader).bit_pos as int,
                        tree_opt(old(head).low_tree),
                        tree_opt(old(head).high_tree),
                    )
                    &&& final(head).last_nodes@[0] as int == (match sl.0 {
                        Option::Some(p) => node_at_path(arena, node_id as int, p),
                        Option::None => old(head).last_nodes@[0] as int,
                    })
                    &&& final(head).last_nodes@[1] as int == (match sl.1 {
                        Option::Some(p) => node_at_path(arena, node_id as int, p),
                        Option::None => old(head).last_nodes@[1] as int,
                    })
                    &&& final(head).last_nodes@[2] as int == (match sl.2 {
                        Option::Some(p) => node_at_path(arena, node_id as int, p),
                        Option::None => old(head).last_nodes@[2] as int,
                    })
                },
                Err(e) => {
                    &&& e == DecodeError::TreeDepthExceeded
                    &&& forall|t: TreeShape|
                        !(big_encodes(
                            t,
                            old(reader).bytes@,
                            old(reader).bit_pos as int,
                            tree_opt(old(head).low_tree),
                            tree_opt(old(head).high_tree),
                            old(head).escapes@,
                        ) && fits_depth(t, max_depth - step_depth))
                },
            },
        decreases 8 * old(reader).bytes@.len() - old(reader).bit_pos,
    {
        let ghost b = reader.bytes@;
        let ghost pos0 = reader.bit_pos as int;
        let ghost arena0 = context.node_arena@;
        let ghost lowv = tree_opt(head.low_tree);
        let ghost highv = tree_opt(head.high_tree);
        let ghost esc = head.escapes@;
        let bit = reader.read_bits(1);
        proof {
            assert(bits_value(b, pos0, 1) == bit_at(b, pos0) + 2 * bits_value(b, pos0 + 1, 0));
            lemma_bit_at_le_1(b, pos0);
        }
        if bit == 0 {
            if max_depth <= step_depth {
                proof {
                    assert forall|t: TreeShape|
                        !(big_encodes(t, b, pos0, lowv, highv, esc) && fits_depth(
                            t,
                            max_depth - step_depth,
                        )) by {
                        match t {
                            TreeShape::Leaf { .. } => {
                                assert(!fits_depth(t, max_depth - step_depth));
                            },
                            TreeShape::Node { .. } => {
                                assert(!big_encodes(t, b, pos0, lowv, highv, esc));
                            },
                        }
                    }
                }
                return Err(DecodeError::TreeDepthExceeded);
            }
            let mut low_byte: u16 = 0;
            match &head.low_tree {
                Option::Some(low_tree) => {
                    proof {
                        lemma_decode_leaf_bound(
                            low_tree.tree(),
                            b,
                            clamped_advance(b, pos0, 1),
                            256,
                        );
                    }
                    low_byte = low_tree.get_value(reader);
                },
                Option::None => {},
            }
            let mut high_byte: u16 = 0;
            let ghost p2 = reader.bit_pos as int;
            match &head.high_tree {
                Option::Some(high_tree) => {
                    proof {
                        lemma_decode_leaf_bound(high_tree.tree(), b, p2, 256);
                    }
                    high_byte = high_tree.get_value(reader);
                },
                Option::None => {},
            }
            let mut value: u16 = low_byte + high_byte * 0x100;
            if head.escapes[0] == value {
                head.last_nodes[0] = node_id;
                value = 0;
            }
            if head.escapes[1] == value {
                head.last_nodes[1] = node_id;
                value = 0;
            }
            if head.escapes[2] == value {
                head.last_nodes[2] = node_id;
                value = 0;
            }
            context.node_arena[node_id] = HuffmanNode::Leaf { value };
            proof {
                let arena = context.node_arena@;
                assert(subtree_wf(arena, node_id as int));
                assert(subtree_ids(arena, node_id as int) =~= set![node_id as int]);
                assert(subtree_view(arena, node_id as int) == (TreeShape::Leaf { value }));
                assert(node_at_path(arena, node_id as int, Seq::<bool>::empty()) == node_id as int);
            }
            Ok(())
        } else {
            let left_node_id = context.node_arena.len();
            context.node_arena.push(HuffmanNode::Leaf { value: 0 });
            let right_node_id = context.node_arena.len();
            context.node_arena.push(HuffmanNode::Leaf { value: 0 });
            context.node_arena[node_id] = HuffmanNode::Node { left_node_id, right_node_id };
            let ghost p1 = clamped_advance(b, pos0, 1);
            proof {
                assert(bit_at(b, pos0) == 1);
                assert(pos0 < 8 * b.len());
                assert(p1 == pos0 + 1);
            }
            let ghost len_bc1 = context.node_arena@.len();
            match Self::decode_big_tree(
                reader,
                head,
                max_depth,
                context,
                left_node_id,
                step_depth + 1,
            ) {
                Ok(()) => {},
                Err(e) => {
                    proof {
                        assert forall|t: TreeShape|
                            !(big_encodes(t, b, pos0, lowv, highv, esc) && fits_depth(
                                t,
                                max_depth - step_depth,
                            )) by {
                            match t {
                                TreeShape::Leaf { .. } => {
                                    assert(!big_encodes(t, b, pos0, lowv, highv, esc));
                                },
                                TreeShape::Node { left, right } => {
                                    if big_encodes(t, b, pos0, lowv, highv, esc) && fits_depth(
                                        t,
                                        max_depth - step_depth,
                                    ) {
                                        assert(big_encodes(*left, b, p1, lowv, highv, esc));
                                        assert(fits_depth(*left, max_depth - (step_depth + 1)));
                                        assert(false);
                                    }
                                },
                            }
                        }
                    }
                    return Err(e);
                },
            }
            let ghost arena_mid = context.node_arena@;
            let ghost lt = subtree_view(arena_mid, left_node_id as int);
            let ghost pos_mid = reader.bit_pos as int;
            match Self::decode_big_tree(
                reader,
                head,
                max_depth,
                context,
                right_node_id,
                step_depth + 1,
            ) {
                Ok(()) => {},
                Err(e) => {
                    proof {
                        assert forall|t: TreeShape|
                            !(big_encodes(t, b, pos0, lowv, highv, esc) && fits_depth(
                                t,
                                max_depth - step_depth,
                            )) by {
                            match t {
                                TreeShape::Leaf { .. } => {
                                    assert(!big_encodes(t, b, pos0, lowv, highv, esc));
                                },
                                TreeShape::Node { left, right } => {
                                    if big_encodes(t, b, pos0, lowv, highv, esc) && fits_depth(
                                        t,
                                        max_depth - step_depth,
                                    ) {
                                        lemma_big_encodes_deterministic(
                                            *left,
                                            lt,
                                            b,
                                            p1,
                                            lowv,
                                            highv,
                                            esc,
                                        );
                                        assert(big_encodes(*right, b, pos_mid, lowv, highv, esc));
                                        assert(fits_depth(*right, max_depth - (step_depth + 1)));
                                        assert(false);
                                    }
                                },
                            }
                        }
                    }
                    return Err(e);
                },
            }
            proof {
                let arena2 = context.node_arena@;
                let rt = subtree_view(arena2, right_node_id as int);
                lemma_subtree_ids_range(arena_mid, left_node_id as int);
                assert forall|j: int|
                    subtree_ids(arena_mid, left_node_id as int).contains(j) implies 0 <= j
                    < arena2.len() && arena2[j] == arena_mid[j] by {
                    assert(j == left_node_id || len_bc1 <= j < arena_mid.len());
                }
                lemma_subtree_frame(arena_mid, arena2, left_node_id as int);
                assert(subtree_view(arena2, left_node_id as int) == lt);
                assert(arena2[node_id as int] == (HuffmanNode::Node {
                    left_node_id,
                    right_node_id,
                }));
                assert(subtree_wf(arena2, node_id as int));
                let t = subtree_view(arena2, node_id as int);
                assert(t == (TreeShape::Node { left: Box::new(lt), right: Box::new(rt) }));
                assert(big_encodes(t, b, pos0, lowv, highv, esc));
                assert(fits_depth(t, max_depth - step_depth));
                assert(reader.bit_pos == big_encode_end(t, b, pos0, lowv, highv));
                let slL = big_slot_paths(lt, b, p1, lowv, highv, esc);
                let slR = big_slot_paths(rt, b, pos_mid, lowv, highv, esc);
                let slP = big_slot_paths(t, b, pos0, lowv, highv, esc);
                assert(slP.0 == slot_combine(slL.0, slR.0));
                assert(slP.1 == slot_combine(slL.1, slR.1));
                assert(slP.2 == slot_combine(slL.2, slR.2));
                match slR.0 {
                    Option::Some(p) => {
                        assert((seq![true] + p)[0] == true);
                        assert((seq![true] + p).skip(1) =~= p);
                        assert(node_at_path(arena2, node_id as int, seq![true] + p)
                            == node_at_path(arena2, right_node_id as int, p));
                    },
                    Option::None => {
                        match slL.0 {
                            Option::Some(p) => {
                                lemma_node_at_path_frame(
                                    arena_mid,
                                    arena2,
                                    left_node_id as int,
                                    p,
                                );
                                assert((seq![false] + p)[0] == false);
                                assert((seq![false] + p).skip(1) =~= p);
                                assert(node_at_path(arena2, node_id as int, seq![false] + p)
                                    == node_at_path(arena2, left_node_id as int, p));
                            },
                            Option::None => {},
                        }
                    },
                }
                match slR.1 {
                    Option::Some(p) => {
                        assert((seq![true] + p)[0] == true);
                        assert((seq![true] + p).skip(1) =~= p);
                        assert(node_at_path(arena2, node_id as int, seq![true] + p)
                            == node_at_path(arena2, right_node_id as int, p));
                    },
                    Option::None => {
                        match slL.1 {
                            Option::Some(p) => {
                                lemma_node_at_path_frame(
                                    arena_mid,
                                    arena2,
                                    left_node_id as int,
                                    p,
                                );
                                assert((seq![false] + p)[0] == false);
                                assert((seq![false] + p).skip(1) =~= p);
                                assert(node_at_path(arena2, node_id as int, seq![false] + p)
                                    == node_at_path(arena2, left_node_id as int, p));
                            },
                            Option::None => {},
                        }
                    },
                }
                match slR.2 {
                    Option::Some(p) => {
                        assert((seq![true] + p)[0] == true);
                        assert((seq![true] + p).skip(1) =~= p);
                        assert(node_at_path(arena2, node_id as int, seq![true] + p)
                            == node_at_path(arena2, right_node_id as int, p));
                    },
                    Option::None => {
                        match slL.2 {
                            Option::Some(p) => {
                                lemma_node_at_path_frame(
                                    arena_mid,
                                    arena2,
                                    left_node_id as int,
                                    p,
                                );
                                assert((seq![false] + p)[0] == false);
                                assert((seq![false] + p).skip(1) =~= p);
                                assert(node_at_path(arena2, node_id as int, seq![false] + p)
                                    == node_at_path(arena2, left_node_id as int, p));
                            },
                            Option::None => {},
                        }
                    },
                }

                assert forall|j: int|
                    #[trigger] subtree_ids(arena2, node_id as int).contains(j) implies j == node_id
                    || arena0.len() <= j < arena2.len() by {
                    assert(subtree_ids(arena2, node_id as int) == set![node_id as int].union(
                        subtree_ids(arena2, left_node_id as int),
                    ).union(subtree_ids(arena2, right_node_id as int)));
                    if j != node_id {
                        if subtree_ids(arena2, left_node_id as int).contains(j) {
                            assert(subtree_ids(arena_mid, left_node_id as int).contains(j));
                        } else {
                            assert(subtree_ids(arena2, right_node_id as int).contains(j));
                        }
                    }
                }
            }
            Ok(())
        }
    }
}

impl HeaderTree {
    /// Reads a whole combined-alphabet tree section: an optional low-byte
    /// sub-tree and an optional high-byte sub-tree (each introduced by a
    /// presence bit and followed by one padding bit), three literal 16-bit
    /// escape sentinels, the combined tree itself, and one trailing padding
    /// bit.  Afterwards all three register slots reference real leaves,
    /// synthesizing standalone leaves for slots no escape was recorded for.
    #[verifier::rlimit(100)]
    #[verifier::spinoff_prover]
    pub fn read(reader: &mut BitReader, size: usize) -> (r: Result<HeaderTree, DecodeError>)
        requires
            old(reader).wf(),
            size <= 0xFFFF_FFFF,
        ensures
            final(reader).wf(),
            final(reader).bytes@ == old(reader).bytes@,
            final(reader).bit_pos >= old(reader).bit_pos,
            match r {
                Ok(ht) => {
                    &&& header_tree_parsed(ht, old(reader).bytes@, old(reader).bit_pos as int, size as int)
                    &&& final(reader).bit_pos == header_tree_end(ht, old(reader).bytes@, old(reader).bit_pos as int)
                },
                Err(e) => {
                    &&& e == DecodeError::TreeDepthExceeded
                    &&& forall|ht: HeaderTree|
                        !header_tree_parsed(
                            ht,
                            old(reader).bytes@,
                            old(reader).bit_pos as int,
                            size as int,
                        )
                },
            },
    {
        let ghost b = reader.bytes@;
        let ghost p0g = reader.bit_pos as int;
        let low_flag = reader.read_bits(1);
        proof {
            assert(bits_value(b, p0g + 1, 0) == 0);
            lemma_bit_at_le_1(b, p0g);
        }
        let low_tree = if low_flag == 0 {
            None
        } else {
            let low = match HuffmanContext::from_tree(reader, 256) {
                Ok(c) => c,
                Err(e) => {
                    proof {
                        assert forall|ht: HeaderTree|
                            !header_tree_parsed(ht, b, p0g, size as int) by {
                            if header_tree_parsed(ht, b, p0g, size as int) {
                                let c = ht.head.low_tree.unwrap();
                                assert(encodes(c.tree(), b, clamped_advance(b, p0g, 1))
                                    && fits_depth(c.tree(), 256));
                            }
                        }
                    }
                    return Err(e);
                },
            };
            reader.read_bits(1);
            Some(low)
        };
        let ghost lowv = tree_opt(low_tree);
        let ghost phg = reader.bit_pos as int;
        let high_flag = reader.read_bits(1);
        proof {
            assert(bits_value(b, phg + 1, 0) == 0);
            lemma_bit_at_le_1(b, phg);
        }
        let high_tree = if high_flag == 0 {
            None
        } else {
            let high = match HuffmanContext::from_tree(reader, 256) {
                Ok(c) => c,
                Err(e) => {
                    proof {
                        assert forall|ht: HeaderTree|
                            !header_tree_parsed(ht, b, p0g, size as int) by {
                            if header_tree_parsed(ht, b, p0g, size as int) {
                                let p1 = clamped_advance(b, p0g, 1);
                                match ht.head.low_tree {
                                    Option::None => {},
                                    Option::Some(c) => {
                                        lemma_encodes_deterministic(
                                            c.tree(),
                                            lowv.unwrap(),
                                            b,
                                            p1,
                                        );
                                    },
                                }
                                let c2 = ht.head.high_tree.unwrap();
                                assert(encodes(c2.tree(), b, clamped_advance(b, phg, 1))
                                    && fits_depth(c2.tree(), 256));
                            }
                        }
                    }
                    return Err(e);
                },
            };
            reader.read_bits(1);
            Some(high)
        };
        let ghost highv = tree_opt(high_tree);
        proof {
            lemma_pow2_16();
        }
        let mut escapes = [0u16;3];
        let ghost q0 = reader.bit_pos as int;
        let e0 = reader.read_bits(16);
        proof {
            lemma_bits_value_bound(b, q0, 16);
        }
        escapes[0] = e0 as u16;
        let ghost q1 = reader.bit_pos as int;
        let e1 = reader.read_bits(16);
        proof {
            lemma_bits_value_bound(b, q1, 16);
        }
        escapes[1] = e1 as u16;
        let ghost q2 = reader.bit_pos as int;
        let e2 = reader.read_bits(16);
        proof {
            lemma_bits_value_bound(b, q2, 16);
        }
        escapes[2] = e2 as u16;
        let last_nodes = [0usize;3];
        let mut head = HeaderTreeHead { low_tree, high_tree, escapes, last_nodes };
        let ghost escg = head.escapes@;
        let ghost pbig_g = reader.bit_pos as int;
        let tree = match HuffmanContext::from_big_tree(reader, &mut head, size) {
            Ok(t) => t,
            Err(e) => {
                proof {
                    assert forall|ht: HeaderTree|
                        !header_tree_parsed(ht, b, p0g, size as int) by {
                        if header_tree_parsed(ht, b, p0g, size as int) {
                            let p1 = clamped_advance(b, p0g, 1);
                            match ht.head.low_tree {
                                Option::None => {},
                                Option::Some(c) => {
                                    lemma_encodes_deterministic(c.tree(), lowv.unwrap(), b, p1);
                                },
                            }
                            let p2 = clamped_advance(b, phg, 1);
                            match ht.head.high_tree {
                                Option::None => {},
                                Option::Some(c) => {
                                    lemma_encodes_deterministic(c.tree(), highv.unwrap(), b, p2);
                                },
                            }
                            assert(ht.head.escapes@ =~= escg);
                            assert(big_encodes(
                                ht.tree.tree(),
                                b,
                                clamped_advance(b, q2, 16),
                                lowv,
                                highv,
                                escg,
                            ) && fits_depth(ht.tree.tree(), big_budget(size as int)));
                        }
                    }
                }
                return Err(e);
            },
        };
        let mut result = HeaderTree { head, tree };
        let ghost slg = big_slot_paths(result.tree.tree(), b, pbig_g, lowv, highv, escg);
        proof {
            lemma_big_slot_paths_are_leaves(result.tree.tree(), b, pbig_g, lowv, highv, escg);
            match slg.0 {
                Option::Some(p) => {
                    lemma_node_at_path_leaf(result.tree.node_arena@, 0, p);
                },
                Option::None => {},
            }
            match slg.1 {
                Option::Some(p) => {
                    lemma_node_at_path_leaf(result.tree.node_arena@, 0, p);
                },
                Option::None => {},
            }
            match slg.2 {
                Option::Some(p) => {
                    lemma_node_at_path_leaf(result.tree.node_arena@, 0, p);
                },
                Option::None => {},
            }
        }
        if !result.is_leaf(result.head.last_nodes[0]) {
            let ghost a1 = result.tree.node_arena@;
            result.head.last_nodes[0] = result.tree.node_arena.len();
            result.tree.node_arena.push(HuffmanNode::Leaf { value: 0 });
            proof {
                lemma_subtree_ids_range(a1, 0);
                lemma_subtree_frame(a1, result.tree.node_arena@, 0);
                match slg.0 {
                    Option::Some(p) => {
                        lemma_node_at_path_frame(a1, result.tree.node_arena@, 0, p);
                    },
                    Option::None => {},
                }
                match slg.1 {
                    Option::Some(p) => {
                        lemma_node_at_path_frame(a1, result.tree.node_arena@, 0, p);
                    },
                    Option::None => {},
                }
                match slg.2 {
                    Option::Some(p) => {
                        lemma_node_at_path_frame(a1, result.tree.node_arena@, 0, p);
                    },
                    Option::None => {},
                }
            }
        }
        if !result.is_leaf(result.head.last_nodes[1]) {
            let ghost a1 = result.tree.node_arena@;
            result.head.last_nodes[1] = result.tree.node_arena.len();
            result.tree.node_arena.push(HuffmanNode::Leaf { value: 0 });
            proof {
                lemma_subtree_ids_range(a1, 0);
                lemma_subtree_frame(a1, result.tree.node_arena@, 0);
                match slg.0 {
                    Option::Some(p) => {
                        lemma_node_at_path_frame(a1, result.tree.node_arena@, 0, p);
                    },
                    Option::None => {},
                }
                match slg.1 {
                    Option::Some(p) => {
                        lemma_node_at_path_frame(a1, result.tree.node_arena@, 0, p);
                    },
                    Option::None => {},
                }
                match slg.2 {
                    Option::Some(p) => {
                        lemma_node_at_path_frame(a1, result.tree.node_arena@, 0, p);
                    },
                    Option::None => {},
                }
            }
        }
        if !result.is_leaf(result.head.last_nodes[2]) {
            let ghost a1 = result.tree.node_arena@;
            result.head.last_nodes[2] = result.tree.node_arena.len();
            result.tree.node_arena.push(HuffmanNode::Leaf { value: 0 });
            proof {
                lemma_subtree_ids_range(a1, 0);
                lemma_subtree_frame(a1, result.tree.node_arena@, 0);
                match slg.0 {
                    Option::Some(p) => {
                        lemma_node_at_path_frame(a1, result.tree.node_arena@, 0, p);
                    },
                    Option::None => {},
                }
                match slg.1 {
                    Option::Some(p) => {
                        lemma_node_at_path_frame(a1, result.tree.node_arena@, 0, p);
                    },
                    Option::None => {},
                }
                match slg.2 {
                    Option::Some(p) => {
                        lemma_node_at_path_frame(a1, result.tree.node_arena@, 0, p);
                    },
                    Option::None => {},
                }
            }
        }
        reader.read_bits(1);
        Ok(result)
    }
}


/// The leaf reached from `t` by following `path` (`false` left, `true`
/// right), if the path ends exactly on a leaf.
pub open spec fn leaf_at(t: TreeShape, path: Seq<bool>) -> Option<u16>
    decreases t,
{
    match t {
        TreeShape::Leaf { value } => if path.len() == 0 {
            Option::Some(value)
        } else {
            Option::None
        },
        TreeShape::Node { left, right } => if path.len() == 0 {
            Option::None
        } else if path[0] {
            leaf_at(*right, path.skip(1))
        } else {
            leaf_at(*left, path.skip(1))
        },
    }
}

/// Replaying a leaf's path through the decoder returns exactly that leaf's
/// value, consuming exactly the path's bits: a tree built from its
/// bit-serialized description (which pins the tree, by
/// `lemma_encodes_deterministic`) decodes each of its own symbols back.
pub proof fn lemma_decode_replays_leaf_path(t: TreeShape, b: Seq<u8>, pos: int, path: Seq<bool>)
    requires
        leaf_at(t, path) is Some,
        forall|i: int|
            0 <= i < path.len() ==> bit_at(b, pos + i) == (if path[i] {
                1u8
            } else {
                0u8
            }),
        0 <= pos,
        pos + path.len() <= 8 * b.len(),
    ensures
        spec_decode(t, b, pos).0 == leaf_at(t, path).unwrap(),
        spec_decode(t, b, pos).1 == pos + path.len(),
    decreases t,
{
    match t {
        TreeShape::Leaf { .. } => {},
        TreeShape::Node { left, right } => {
            let rest = path.skip(1);
            assert(path.len() >= 1);
            assert(bit_at(b, pos) == (if path[0] {
                1u8
            } else {
                0u8
            }));
            assert forall|i: int|
                0 <= i < rest.len() implies bit_at(b, pos + 1 + i) == (if rest[i] {
                1u8
            } else {
                0u8
            }) by {
                assert(rest[i] == path[i + 1]);
            }
            assert(clamped_advance(b, pos, 1) == pos + 1);
            if path[0] {
                lemma_decode_replays_leaf_path(*right, b, pos + 1, rest);
            } else {
                lemma_decode_replays_leaf_path(*left, b, pos + 1, rest);
            }
        },
    }
}

} // verus!
