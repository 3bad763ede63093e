//! The legacy stack-machine assembly: a flat instruction stream annotated
//! with jump-destination tags, a runtime-code sub-assembly, and sub-contract
//! data segments. Before backend consumption its control flow is
//! reconstructed into structural blocks.

use vstd::prelude::*;

use crate::error::Error;
use crate::error::TranslationError;

verus! {

/// One instruction of the flat legacy-assembly stream.
#[derive(Debug, Clone, PartialEq, Eq)]
pub enum Instruction {
    /// A jump-destination tag: opens a new structural block.
    Tag(u64),
    /// An unconditional jump to a tag.
    Jump(u64),
    /// A conditional jump to a tag.
    JumpI(u64),
    /// A literal push.
    Push(String),
    /// A push of a sub-contract data segment, referenced by contract
    /// identifier: a factory-dependency placeholder.
    PushData(String),
    /// Any other mnemonic, kept verbatim.
    Other(String),
}

/// A legacy assembly: deployment code, the runtime-code sub-assembly, and
/// the sub-contract identifiers of its data segments.
#[derive(Debug, Clone, PartialEq, Eq)]
pub struct Assembly {
    /// The deployment code stream.
    pub code: Vec<Instruction>,
    /// The runtime code stream, behind the sub-assembly boundary.
    pub runtime_code: Vec<Instruction>,
    /// The sub-contract identifiers of the static data segments.
    pub data: Vec<String>,
}

/// One instruction of a structural block: every jump is resolved to the
/// index of its target block.
#[derive(Debug, Clone, PartialEq, Eq)]
pub enum FlowInstruction {
    /// An unconditional jump to the block at this index.
    Jump(usize),
    /// A conditional jump to the block at this index.
    JumpI(usize),
    /// A literal push.
    Push(String),
    /// A push of a sub-contract data segment.
    PushData(String),
    /// Any other mnemonic.
    Other(String),
}

/// One structural block of reconstructed control flow.
#[derive(Debug, Clone, PartialEq, Eq)]
pub struct Block {
    /// The tag that opens the block; the entry block has none.
    pub tag: Option<u64>,
    /// The block's instructions.
    pub code: Vec<FlowInstruction>,
}

/// The segmentation of a flat stream: one segment per block, opened by its
/// tag; the entry segment is always present and has no tag. Instructions
/// other than tags stay, in order, in the segment that is open where they
/// stand.
pub open spec fn spec_segments(code: Seq<Instruction>) -> Seq<(Option<u64>, Seq<Instruction>)>
    decreases code.len(),
{
    if code.len() == 0 {
        seq![(None::<u64>, Seq::<Instruction>::empty())]
    } else {
        let prev = spec_segments(code.drop_last());
        match code.last() {
            Instruction::Tag(t) => prev.push((Some(t), Seq::<Instruction>::empty())),
            ins => {
                let open = prev.last();
                prev.update(prev.len() - 1, (open.0, open.1.push(ins)))
            },
        }
    }
}

/// The tags of a stream, in order of definition.
pub open spec fn spec_tags(code: Seq<Instruction>) -> Seq<u64>
    decreases code.len(),
{
    if code.len() == 0 {
        Seq::<u64>::empty()
    } else {
        match code.last() {
            Instruction::Tag(t) => spec_tags(code.drop_last()).push(t),
            _ => spec_tags(code.drop_last()),
        }
    }
}

/// Whether no tag of the stream is defined twice.
pub open spec fn spec_tags_unique(code: Seq<Instruction>) -> bool {
    forall|i: int, j: int|
        0 <= i < j < spec_tags(code).len() ==> spec_tags(code)[i] != spec_tags(code)[j]
}

/// Whether every jump of the stream targets a defined tag.
pub open spec fn spec_jumps_resolvable(code: Seq<Instruction>) -> bool {
    forall|i: int|
        0 <= i < code.len() ==> match #[trigger] code[i] {
            Instruction::Jump(t) => spec_tags(code).contains(t),
            Instruction::JumpI(t) => spec_tags(code).contains(t),
            _ => true,
        }
}

/// The index of the block opened by tag `t`: block 0 is the entry block, so
/// the block of the `i`-th defined tag is `i + 1`.
pub open spec fn spec_block_of_tag(tags: Seq<u64>, t: u64) -> int {
    tags.index_of(t) + 1
}

/// The resolution of one non-tag instruction against the defined tags.
/// Tags never stand inside a segment, so their resolution is left open.
pub open spec fn spec_resolve_instruction(ins: Instruction, tags: Seq<u64>) -> FlowInstruction {
    match ins {
        Instruction::Tag(t) => vstd::pervasive::arbitrary(),
        Instruction::Jump(t) => FlowInstruction::Jump(spec_block_of_tag(tags, t) as usize),
        Instruction::JumpI(t) => FlowInstruction::JumpI(spec_block_of_tag(tags, t) as usize),
        Instruction::Push(v) => FlowInstruction::Push(v),
        Instruction::PushData(v) => FlowInstruction::PushData(v),
        Instruction::Other(v) => FlowInstruction::Other(v),
    }
}

/// Whether `blocks` is the faithful reconstruction of the stream `code`:
/// one block per segment, in order, with every jump resolved to the index
/// of the block its tag opens.
pub open spec fn spec_reconstructed(blocks: Seq<Block>, code: Seq<Instruction>) -> bool {
    let seg = spec_segments(code);
    let tags = spec_tags(code);
    &&& blocks.len() == seg.len()
    &&& forall|k: int|
        0 <= k < blocks.len() ==> {
            &&& (#[trigger] blocks[k]).tag == seg[k].0
            &&& blocks[k].code@ == seg[k].1.map_values(
                |ins: Instruction| spec_resolve_instruction(ins, tags),
            )
        }
}

/// The tags of a prefix of a stream are a prefix of the stream's tags.
pub proof fn lemma_tags_take_prefix(s: Seq<Instruction>, i: int)
    requires
        0 <= i <= s.len(),
    ensures
        spec_tags(s.take(i)).is_prefix_of(spec_tags(s)),
    decreases s.len(),
{
    if i == s.len() {
        assert(s.take(i) =~= s);
    } else {
        assert(s.take(i) =~= s.drop_last().take(i));
        lemma_tags_take_prefix(s.drop_last(), i);
    }
}

/// Finds the first index of `t` among the defined tags.
fn find_tag(tags: &Vec<u64>, t: u64) -> (r: Option<usize>)
    ensures
        match r {
            Some(p) => p < tags@.len() && tags@[p as int] == t && p + 1 <= usize::MAX,
            None => !tags@.contains(t),
        },
{
    let mut i: usize = 0;
    while i < tags.len()
        invariant
            0 <= i <= tags@.len(),
            forall|j: int| 0 <= j < i ==> tags@[j] != t,
        decreases tags@.len() - i,
    {
        if tags[i] == t {
            return Some(i);
        }
        i += 1;
    }
    None
}

/// Collects the defined tags of a stream, in order, refusing a stream that
/// defines one tag twice.
fn collect_tags(code: &Vec<Instruction>) -> (r: Result<Vec<u64>, Error>)
    ensures
        match r {
            Ok(tags) => tags@ == spec_tags(code@) && spec_tags_unique(code@),
            Err(e) => {
                &&& !spec_tags_unique(code@)
                &&& e matches Error::Translation(TranslationError::DuplicateTag(t)) && exists|
                    a: int,
                    b: int,
                |
                    0 <= a < b < spec_tags(code@).len() && #[trigger] spec_tags(code@)[a] == t
                        && #[trigger] spec_tags(code@)[b] == t
            },
        },
{
    let mut tags: Vec<u64> = Vec::new();
    let mut i: usize = 0;
    proof {
        assert(code@.take(0int) =~= Seq::<Instruction>::empty());
    }
    while i < code.len()
        invariant
            0 <= i <= code@.len(),
            tags@ == spec_tags(code@.take(i as int)),
            forall|a: int, b: int| 0 <= a < b < tags@.len() ==> #[trigger] tags@[a] != #[trigger] tags@[b],
        decreases code@.len() - i,
    {
        proof {
            assert(code@.take(i + 1).drop_last() =~= code@.take(i as int));
            assert(code@.take(i + 1).last() == code@[i as int]);
        }
        match &code[i] {
            Instruction::Tag(t) => {
                match find_tag(&tags, *t) {
                    Some(p) => {
                        proof {
                            lemma_tags_take_prefix(code@, i + 1);
                            let full = spec_tags(code@);
                            let pre = spec_tags(code@.take(i + 1));
                            assert(pre[p as int] == *t);
                            assert(pre[pre.len() - 1] == *t);
                            assert(full[p as int] == *t);
                            assert(full[pre.len() - 1] == *t);
                        }
                        return Err(Error::Translation(TranslationError::DuplicateTag(*t)));
                    },
                    None => {},
                }
                tags.push(*t);
            },
            _ => {},
        }
        i += 1;
    }
    proof {
        assert(code@.take(code@.len() as int) =~= code@);
    }
    Ok(tags)
}

/// One step of segmentation: a tag opens a new empty segment; any other
/// instruction joins the open segment.
pub proof fn lemma_segments_step(code: Seq<Instruction>, i: int)
    requires
        0 <= i < code.len(),
    ensures
        ({
            let pre = spec_segments(code.take(i));
            let post = spec_segments(code.take(i + 1));
            match code[i] {
                Instruction::Tag(t) => post == pre.push((Some(t), Seq::<Instruction>::empty())),
                ins => post == pre.update(pre.len() - 1, (pre.last().0, pre.last().1.push(ins))),
            }
        }),
{
    assert(code.take(i + 1).drop_last() =~= code.take(i));
    assert(code.take(i + 1).last() == code[i]);
    let pre = spec_segments(code.take(i));
    let post = spec_segments(code.take(i + 1));
    match code[i] {
        Instruction::Tag(t) => {
            assert(post =~= pre.push((Some(t), Seq::<Instruction>::empty())));
        },
        ins => {
            assert(post =~= pre.update(pre.len() - 1, (pre.last().0, pre.last().1.push(ins))));
        },
    }
}

/// The first tag index found for a jump target is the index the resolution
/// spec names, so the resolved jump is exact.
pub proof fn lemma_resolve_found(code: Seq<Instruction>, i: int, t: u64, p: int)
    requires
        0 <= i < code.len(),
        code[i] == Instruction::Jump(t) || code[i] == Instruction::JumpI(t),
        spec_tags_unique(code),
        0 <= p < spec_tags(code).len(),
        spec_tags(code)[p] == t,
    ensures
        spec_tags(code).contains(t),
        spec_tags(code).index_of(t) == p,
{
    let full = spec_tags(code);
    assert(full.contains(t));
    let q = full.index_of(t);
    assert(0 <= q < full.len() && full[q] == t);
    if q < p {
        assert(full[q] != full[p]);
    } else if p < q {
        assert(full[p] != full[q]);
    }
}

/// Pushing one non-tag instruction onto the open segment pushes its
/// resolution onto the segment's resolved image.
pub proof fn lemma_push_step(
    pre: Seq<(Option<u64>, Seq<Instruction>)>,
    post: Seq<(Option<u64>, Seq<Instruction>)>,
    ins: Instruction,
    resolve: spec_fn(Instruction) -> FlowInstruction,
)
    requires
        pre.len() > 0,
        post == pre.update(pre.len() - 1, (pre.last().0, pre.last().1.push(ins))),
    ensures
        post.len() == pre.len(),
        forall|k: int| 0 <= k < pre.len() - 1 ==> post[k] == pre[k],
        post.last().0 == pre.last().0,
        post.last().1.map_values(resolve) == pre.last().1.map_values(resolve).push(resolve(ins)),
{
    assert(post.last() == (pre.last().0, pre.last().1.push(ins)));
    assert(pre.last().1.push(ins).map_values(resolve) =~= pre.last().1.map_values(resolve).push(
        resolve(ins),
    ));
}

/// Reconstructs structured control flow from a flat instruction stream:
/// splits it into one structural block per tag (plus the entry block) and
/// resolves every jump to the index of its target block. A tag defined
/// twice or a jump to an undefined tag is a fatal translation error.
pub fn reconstruct(code: &Vec<Instruction>) -> (r: Result<Vec<Block>, Error>)
    ensures
        r is Ok <==> spec_tags_unique(code@) && spec_jumps_resolvable(code@),
        r matches Ok(blocks) ==> spec_reconstructed(blocks@, code@),
        r matches Err(e) ==> match e {
            Error::Translation(te) => match te {
                TranslationError::DuplicateTag(t) => !spec_tags_unique(code@) && exists|
                    a: int,
                    b: int,
                |
                    0 <= a < b < spec_tags(code@).len() && #[trigger] spec_tags(code@)[a] == t
                        && #[trigger] spec_tags(code@)[b] == t,
                TranslationError::UnresolvedJumpTarget(t) => {
                    &&& spec_tags_unique(code@)
                    &&& !spec_tags(code@).contains(t)
                    &&& exists|j: int|
                        0 <= j < code@.len() && (#[trigger] code@[j] == Instruction::Jump(t)
                            || code@[j] == Instruction::JumpI(t))
                },
            },
            _ => false,
        },
{
    let tags: Vec<u64> = match collect_tags(code) {
        Ok(tags) => tags,
        Err(e) => {
            return Err(e);
        },
    };
    let ghost resolve = |ins: Instruction| spec_resolve_instruction(ins, spec_tags(code@));
    let mut blocks: Vec<Block> = Vec::new();
    let mut current_tag: Option<u64> = None;
    let mut current: Vec<FlowInstruction> = Vec::new();
    let mut i: usize = 0;
    proof {
        assert(code@.take(0int) =~= Seq::<Instruction>::empty());
        assert(Seq::<Instruction>::empty().map_values(resolve) =~= Seq::<
            FlowInstruction,
        >::empty());
    }
    while i < code.len()
        invariant
            0 <= i <= code@.len(),
            tags@ == spec_tags(code@),
            spec_tags_unique(code@),
            blocks@.len() + 1 == spec_segments(code@.take(i as int)).len(),
            forall|k: int|
                0 <= k < blocks@.len() ==> {
                    &&& (#[trigger] blocks@[k]).tag == spec_segments(code@.take(i as int))[k].0
                    &&& blocks@[k].code@ == spec_segments(code@.take(i as int))[k].1.map_values(
                        |ins: Instruction| spec_resolve_instruction(ins, spec_tags(code@)),
                    )
                },
            current_tag == spec_segments(code@.take(i as int)).last().0,
            current@ == spec_segments(code@.take(i as int)).last().1.map_values(
                |ins: Instruction| spec_resolve_instruction(ins, spec_tags(code@)),
            ),
            forall|j: int|
                0 <= j < i ==> match #[trigger] code@[j] {
                    Instruction::Jump(t) => spec_tags(code@).contains(t),
                    Instruction::JumpI(t) => spec_tags(code@).contains(t),
                    _ => true,
                },
        decreases code@.len() - i,
    {
        let ghost pre = spec_segments(code@.take(i as int));
        let ghost post = spec_segments(code@.take(i + 1));
        proof {
            lemma_segments_step(code@, i as int);
        }
        match &code[i] {
            Instruction::Tag(t) => {
                blocks.push(Block { tag: current_tag, code: current });
                current = Vec::new();
                current_tag = Some(*t);
                proof {
                    assert(post =~= pre.push((Some(*t), Seq::<Instruction>::empty())));
                    assert(Seq::<Instruction>::empty().map_values(resolve) =~= Seq::<
                        FlowInstruction,
                    >::empty());
                }
            },
            Instruction::Jump(t) => {
                let p: usize = match find_tag(&tags, *t) {
                    Some(p) => p,
                    None => {
                        return Err(
                            Error::Translation(TranslationError::UnresolvedJumpTarget(*t)),
                        );
                    },
                };
                proof {
                    lemma_resolve_found(code@, i as int, *t, p as int);
                    lemma_push_step(pre, post, code@[i as int], resolve);
                }
                current.push(FlowInstruction::Jump(p + 1));
            },
            Instruction::JumpI(t) => {
                let p: usize = match find_tag(&tags, *t) {
                    Some(p) => p,
                    None => {
                        return Err(
                            Error::Translation(TranslationError::UnresolvedJumpTarget(*t)),
                        );
                    },
                };
                proof {
                    lemma_resolve_found(code@, i as int, *t, p as int);
                    lemma_push_step(pre, post, code@[i as int], resolve);
                }
                current.push(FlowInstruction::JumpI(p + 1));
            },
            Instruction::Push(v) => {
                proof {
                    lemma_push_step(pre, post, code@[i as int], resolve);
                }
                current.push(FlowInstruction::Push(v.clone()));
            },
            Instruction::PushData(v) => {
                proof {
                    lemma_push_step(pre, post, code@[i as int], resolve);
                }
                current.push(FlowInstruction::PushData(v.clone()));
            },
            Instruction::Other(v) => {
                proof {
                    lemma_push_step(pre, post, code@[i as int], resolve);
                }
                current.push(FlowInstruction::Other(v.clone()));
            },
        }
        i += 1;
    }
    proof {
        assert(code@.take(code@.len() as int) =~= code@);
    }
    blocks.push(Block { tag: current_tag, code: current });
    Ok(blocks)
}

} // verus!
