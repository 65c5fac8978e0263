//! The genome: a candidate program in the form that mutation works on.

use crate::genome_mutate_context::{count_sum, GenomeMutateContext};
use crate::node::{InstructionView, Node, NodeView, OperandView, Operation};
use crate::node_arithmetic::{ArithmeticOperation, NodeArithmeticConstant, NodeArithmeticRegister};
use crate::node_compare::{NodeCompareConstant, NodeCompareRegister};
use crate::node_divide::{NodeDivideConstant, NodeDivideRegister};
use crate::node_move::{NodeMoveConstant, NodeMoveRegister};
use crate::program::Program;
use crate::random::random_below;
use crate::register_value::{RegisterIndex, RegisterValue};
use rand::Rng;
use vstd::prelude::*;

verus! {

/// How many mutations `mutate` draws before it gives up for this round.
pub const MUTATE_ATTEMPT_CAP: usize = 20;

/// Whether the source of a gene is a constant or a register.
#[derive(Clone, Copy, Debug, PartialEq, Eq, Structural)]
pub enum SourceType {
    Constant,
    Register,
}

/// One gene: an instruction, and whether it takes part in the program.
#[derive(Clone, Copy, Debug, PartialEq, Eq, Structural)]
pub struct GenomeItem {
    pub enabled: bool,
    pub operation: Operation,
    pub target: u8,
    pub source_type: SourceType,
    pub source_value: i32,
}

impl GenomeItem {
    /// An enabled gene.
    pub fn new(operation: Operation, target: u8, source_type: SourceType, source_value: i32) -> (r:
        Self)
        ensures
            r == (GenomeItem { enabled: true, operation, target, source_type, source_value }),
    {
        GenomeItem { enabled: true, operation, target, source_type, source_value }
    }

    /// True when the gene names no register at or beyond `register_count`.
    pub open spec fn valid(self, register_count: u16) -> bool {
        &&& self.target < register_count
        &&& self.source_type == SourceType::Register ==> 0 <= self.source_value < register_count
    }

    /// The instruction that the gene stands for.
    pub open spec fn node_view(self) -> NodeView {
        NodeView::Instruction(
            InstructionView {
                operation: self.operation,
                target: RegisterIndex(self.target),
                source: match self.source_type {
                    SourceType::Constant => OperandView::Constant(self.source_value as int),
                    SourceType::Register => OperandView::Register(
                        RegisterIndex(self.source_value as u8),
                    ),
                },
            },
        )
    }

    /// Tells whether the gene names no register at or beyond
    /// `register_count`.
    pub fn is_valid(&self, register_count: u16) -> (r: bool)
        ensures
            r == self.valid(register_count),
    {
        (self.target as u16) < register_count && match self.source_type {
            SourceType::Constant => true,
            SourceType::Register => 0 <= self.source_value && self.source_value
                < register_count as i32,
        }
    }

    /// The instruction that the gene stands for, or nothing when the gene
    /// names a register that no program has.
    pub fn to_node(&self) -> (r: Option<Node>)
        ensures
            r is Some <==> self.valid(256),
            r matches Some(node) ==> node@ == self.node_view(),
    {
        if !self.is_valid(256) {
            return None;
        }
        Some(self.instruction())
    }

    /// The instruction that a valid gene stands for.
    fn instruction(&self) -> (r: Node)
        requires
            self.valid(256),
        ensures
            r@ == self.node_view(),
    {
        let target = RegisterIndex(self.target);
        match self.source_type {
            SourceType::Constant => {
                let source = RegisterValue::from_i64(self.source_value as i64);
                match self.operation {
                    Operation::Move => Node::MoveConstant(NodeMoveConstant::new(target, source)),
                    Operation::Add => Node::ArithmeticConstant(
                        NodeArithmeticConstant::new(ArithmeticOperation::Add, target, source),
                    ),
                    Operation::Subtract => Node::ArithmeticConstant(
                        NodeArithmeticConstant::new(ArithmeticOperation::Subtract, target, source),
                    ),
                    Operation::Multiply => Node::ArithmeticConstant(
                        NodeArithmeticConstant::new(ArithmeticOperation::Multiply, target, source),
                    ),
                    Operation::Divide => Node::DivideConstant(
                        NodeDivideConstant::new(target, source),
                    ),
                    Operation::Compare => Node::CompareConstant(
                        NodeCompareConstant::new(target, source),
                    ),
                }
            },
            SourceType::Register => {
                let source = RegisterIndex(self.source_value as u8);
                match self.operation {
                    Operation::Move => Node::MoveRegister(NodeMoveRegister::new(target, source)),
                    Operation::Add => Node::ArithmeticRegister(
                        NodeArithmeticRegister::new(ArithmeticOperation::Add, target, source),
                    ),
                    Operation::Subtract => Node::ArithmeticRegister(
                        NodeArithmeticRegister::new(ArithmeticOperation::Subtract, target, source),
                    ),
                    Operation::Multiply => Node::ArithmeticRegister(
                        NodeArithmeticRegister::new(ArithmeticOperation::Multiply, target, source),
                    ),
                    Operation::Divide => Node::DivideRegister(
                        NodeDivideRegister::new(target, source),
                    ),
                    Operation::Compare => Node::CompareRegister(
                        NodeCompareRegister::new(target, source),
                    ),
                }
            },
        }
    }
}

/// One change to a genome. Positions count genes from zero.
#[derive(Clone, Debug, PartialEq, Eq)]
pub enum Mutation {
    /// Gives the gene at `index` another operation.
    ReplaceOperation { index: usize, operation: Operation },
    /// Gives the gene at `index` another source.
    ReplaceSource { index: usize, source_type: SourceType, source_value: i32 },
    /// Gives the gene at `index` another target register.
    ReplaceTarget { index: usize, target: u8 },
    /// Puts `item` in the place of the gene at `index`.
    ReplaceItem { index: usize, item: GenomeItem },
    /// Enables the gene at `index` if it is disabled, and disables it if it
    /// is enabled.
    ToggleEnabled { index: usize },
    /// Puts `item` before the gene at `index`, or at the end.
    Insert { index: usize, item: GenomeItem },
    /// Takes the gene at `index` out.
    Delete { index: usize },
    /// Exchanges the genes at `first` and `second`.
    Swap { first: usize, second: usize },
    /// Puts the genes of `fragment` before the gene at `index`, or at the end.
    Splice { index: usize, fragment: Vec<GenomeItem> },
}

/// The genes after a mutation, whether or not they are valid; nothing when a
/// position lies outside the genome.
pub open spec fn mutated_items(items: Seq<GenomeItem>, mutation: Mutation) -> Option<
    Seq<GenomeItem>,
> {
    match mutation {
        Mutation::ReplaceOperation { index, operation } => if index < items.len() {
            Some(items.update(index as int, GenomeItem { operation, ..items[index as int] }))
        } else {
            None
        },
        Mutation::ReplaceSource { index, source_type, source_value } => if index < items.len() {
            Some(
                items.update(
                    index as int,
                    GenomeItem { source_type, source_value, ..items[index as int] },
                ),
            )
        } else {
            None
        },
        Mutation::ReplaceTarget { index, target } => if index < items.len() {
            Some(items.update(index as int, GenomeItem { target, ..items[index as int] }))
        } else {
            None
        },
        Mutation::ReplaceItem { index, item } => if index < items.len() {
            Some(items.update(index as int, item))
        } else {
            None
        },
        Mutation::ToggleEnabled { index } => if index < items.len() {
            Some(
                items.update(
                    index as int,
                    GenomeItem { enabled: !items[index as int].enabled, ..items[index as int] },
                ),
            )
        } else {
            None
        },
        Mutation::Insert { index, item } => if index <= items.len() {
            Some(items.insert(index as int, item))
        } else {
            None
        },
        Mutation::Delete { index } => if index < items.len() {
            Some(items.remove(index as int))
        } else {
            None
        },
        Mutation::Swap { first, second } => if first < items.len() && second < items.len() {
            Some(
                items.update(first as int, items[second as int]).update(
                    second as int,
                    items[first as int],
                ),
            )
        } else {
            None
        },
        Mutation::Splice { index, fragment } => if index <= items.len() {
            Some(
                items.subrange(0, index as int) + fragment@ + items.subrange(
                    index as int,
                    items.len() as int,
                ),
            )
        } else {
            None
        },
    }
}

/// True when every gene names only registers below `register_count`.
pub open spec fn items_valid(items: Seq<GenomeItem>, register_count: u16) -> bool {
    forall|i: int| 0 <= i < items.len() ==> (#[trigger] items[i]).valid(register_count)
}

/// A genome as the contracts see it.
pub ghost struct GenomeView {
    pub register_count: u16,
    pub items: Seq<GenomeItem>,
}

/// The genome after a mutation, or nothing when the mutation is rejected.
///
/// A mutation is rejected when it names a position outside the genome, when
/// it would leave a gene that names a register at or beyond the declared
/// register count, and when it would change nothing.
pub open spec fn mutated(genome: GenomeView, mutation: Mutation) -> Option<GenomeView> {
    match mutated_items(genome.items, mutation) {
        Some(items) => if items_valid(items, genome.register_count) && items != genome.items {
            Some(GenomeView { register_count: genome.register_count, items })
        } else {
            None
        },
        None => None,
    }
}

/// True when the mutation is one that is drawn for the genome: its positions
/// lie in the genome, a genome without genes gets a gene inserted, and where
/// registers are declared, the registers that the mutation itself names lie
/// below the declared register count. The genes of a spliced fragment are
/// handed on as the context has them.
pub open spec fn may_be_drawn(genome: GenomeView, mutation: Mutation) -> bool {
    &&& mutated_items(genome.items, mutation) is Some
    &&& genome.items.len() == 0 ==> mutation is Insert
    &&& genome.register_count > 0 ==> match mutation {
        Mutation::ReplaceSource { index, source_type, source_value } => source_type
            == SourceType::Register ==> 0 <= source_value < genome.register_count,
        Mutation::ReplaceTarget { index, target } => target < genome.register_count,
        Mutation::ReplaceItem { index, item } => item.enabled && item.valid(
            genome.register_count,
        ),
        Mutation::Insert { index, item } => item.enabled && item.valid(genome.register_count),
        _ => true,
    }
}

/// A genome without genes and without registers admits no mutation.
pub proof fn lemma_nothing_to_mutate(genome: GenomeView, mutation: Mutation)
    requires
        genome.items.len() == 0,
        genome.register_count == 0,
    ensures
        mutated(genome, mutation) is None,
{
    match mutated_items(genome.items, mutation) {
        Some(items) => {
            if items.len() > 0 {
                assert(!items[0].valid(genome.register_count));
            } else {
                assert(items =~= genome.items);
            }
        },
        None => {},
    }
}

/// In a genome without genes, every mutation that is drawn is accepted when
/// registers are declared: it inserts one enabled, valid gene.
pub proof fn lemma_first_gene(genome: GenomeView, mutation: Mutation)
    requires
        genome.items.len() == 0,
        genome.register_count > 0,
        may_be_drawn(genome, mutation),
    ensures
        mutation is Insert,
        mutated(genome, mutation) == Some(
            GenomeView { register_count: genome.register_count, items: seq![mutation->Insert_item] },
        ),
{
    let items = mutated_items(genome.items, mutation)->0;
    assert(items =~= seq![mutation->Insert_item]);
    assert(items[0] == mutation->Insert_item);
    assert(items.len() != genome.items.len());
}

/// The instructions of the enabled genes, in order.
pub open spec fn program_of(items: Seq<GenomeItem>) -> Seq<NodeView>
    decreases items.len(),
{
    if items.len() == 0 {
        Seq::empty()
    } else if items.last().enabled {
        program_of(items.drop_last()).push(items.last().node_view())
    } else {
        program_of(items.drop_last())
    }
}

/// Every accepted mutation gives a genome that is valid and differs from the
/// one it was applied to.
pub proof fn lemma_mutated_is_valid_and_different(genome: GenomeView, mutation: Mutation)
    ensures
        mutated(genome, mutation) matches Some(next) ==> {
            &&& items_valid(next.items, next.register_count)
            &&& next.register_count == genome.register_count
            &&& next != genome
        },
{
}

/// A candidate program under mutation: its declared register count and its
/// genes.
#[derive(Clone, Debug, PartialEq, Eq)]
pub struct Genome {
    pub register_count: u16,
    pub items: Vec<GenomeItem>,
}

impl View for Genome {
    type V = GenomeView;

    open spec fn view(&self) -> GenomeView {
        GenomeView { register_count: self.register_count, items: self.items@ }
    }
}

/// Tells whether two gene lists are the same.
fn same_items(a: &Vec<GenomeItem>, b: &Vec<GenomeItem>) -> (r: bool)
    ensures
        r == (a@ == b@),
{
    if a.len() != b.len() {
        return false;
    }
    let mut i: usize = 0;
    while i < a.len()
        invariant
            a@.len() == b@.len(),
            i <= a@.len(),
            forall|k: int| 0 <= k < i ==> a@[k] == b@[k],
        decreases a@.len() - i,
    {
        if a[i] != b[i] {
            return false;
        }
        i += 1;
    }
    assert(a@ =~= b@);
    true
}

/// Tells whether every gene names only registers below `register_count`.
fn all_valid(items: &Vec<GenomeItem>, register_count: u16) -> (r: bool)
    ensures
        r == items_valid(items@, register_count),
{
    let mut i: usize = 0;
    while i < items.len()
        invariant
            i <= items@.len(),
            forall|k: int| 0 <= k < i ==> (#[trigger] items@[k]).valid(register_count),
        decreases items@.len() - i,
    {
        if !items[i].is_valid(register_count) {
            return false;
        }
        i += 1;
    }
    true
}

/// Copies the genes from `from` up to `to` onto the end of `target`.
fn extend_items(target: &mut Vec<GenomeItem>, source: &Vec<GenomeItem>, from: usize, to: usize)
    requires
        from <= to <= source@.len(),
    ensures
        final(target)@ == old(target)@ + source@.subrange(from as int, to as int),
{
    let mut i: usize = from;
    assert(target@ =~= old(target)@ + source@.subrange(from as int, i as int));
    while i < to
        invariant
            from <= i <= to <= source@.len(),
            target@ == old(target)@ + source@.subrange(from as int, i as int),
        decreases to - i,
    {
        target.push(source[i]);
        i += 1;
        assert(target@ =~= old(target)@ + source@.subrange(from as int, i as int));
    }
}

/// The genes after a mutation, whether or not they are valid.
fn apply_to_items(items: &Vec<GenomeItem>, mutation: &Mutation) -> (r: Option<Vec<GenomeItem>>)
    ensures
        match r {
            Some(changed) => mutated_items(items@, *mutation) == Some(changed@),
            None => mutated_items(items@, *mutation) is None,
        },
{
    let len = items.len();
    let mut changed: Vec<GenomeItem> = Vec::new();
    match mutation {
        Mutation::ReplaceOperation { index, operation } => {
            if *index >= len {
                return None;
            }
            extend_items(&mut changed, items, 0, len);
            assert(items@.subrange(0, len as int) =~= items@);
            let item = items[*index];
            changed.set(*index, GenomeItem { operation: *operation, ..item });
        },
        Mutation::ReplaceSource { index, source_type, source_value } => {
            if *index >= len {
                return None;
            }
            extend_items(&mut changed, items, 0, len);
            assert(items@.subrange(0, len as int) =~= items@);
            let item = items[*index];
            changed.set(
                *index,
                GenomeItem { source_type: *source_type, source_value: *source_value, ..item },
            );
        },
        Mutation::ReplaceTarget { index, target } => {
            if *index >= len {
                return None;
            }
            extend_items(&mut changed, items, 0, len);
            assert(items@.subrange(0, len as int) =~= items@);
            let item = items[*index];
            changed.set(*index, GenomeItem { target: *target, ..item });
        },
        Mutation::ReplaceItem { index, item } => {
            if *index >= len {
                return None;
            }
            extend_items(&mut changed, items, 0, len);
            assert(items@.subrange(0, len as int) =~= items@);
            changed.set(*index, *item);
        },
        Mutation::ToggleEnabled { index } => {
            if *index >= len {
                return None;
            }
            extend_items(&mut changed, items, 0, len);
            assert(items@.subrange(0, len as int) =~= items@);
            let item = items[*index];
            changed.set(*index, GenomeItem { enabled: !item.enabled, ..item });
        },
        Mutation::Insert { index, item } => {
            if *index > len {
                return None;
            }
            extend_items(&mut changed, items, 0, *index);
            changed.push(*item);
            extend_items(&mut changed, items, *index, len);
            assert(changed@ =~= items@.insert(*index as int, *item));
        },
        Mutation::Delete { index } => {
            if *index >= len {
                return None;
            }
            extend_items(&mut changed, items, 0, *index);
            extend_items(&mut changed, items, *index + 1, len);
            assert(changed@ =~= items@.remove(*index as int));
        },
        Mutation::Swap { first, second } => {
            if *first >= len || *second >= len {
                return None;
            }
            extend_items(&mut changed, items, 0, len);
            assert(items@.subrange(0, len as int) =~= items@);
            changed.set(*first, items[*second]);
            changed.set(*second, items[*first]);
        },
        Mutation::Splice { index, fragment } => {
            if *index > len {
                return None;
            }
            extend_items(&mut changed, items, 0, *index);
            extend_items(&mut changed, fragment, 0, fragment.len());
            assert(fragment@.subrange(0, fragment@.len() as int) =~= fragment@);
            extend_items(&mut changed, items, *index, len);
        },
    }
    Some(changed)
}

impl Genome {
    /// A genome without genes.
    pub fn new(register_count: u16) -> (r: Self)
        ensures
            r@ == (GenomeView { register_count, items: Seq::empty() }),
    {
        Genome { register_count, items: Vec::new() }
    }

    /// The genome of the identity program: one gene that moves register zero
    /// into itself.
    pub fn identity(register_count: u16) -> (r: Self)
        ensures
            r@ == (GenomeView {
                register_count,
                items: seq![
                    GenomeItem {
                        enabled: true,
                        operation: Operation::Move,
                        target: 0,
                        source_type: SourceType::Register,
                        source_value: 0,
                    },
                ],
            }),
    {
        let mut items: Vec<GenomeItem> = Vec::new();
        items.push(GenomeItem::new(Operation::Move, 0, SourceType::Register, 0));
        let r = Genome { register_count, items };
        assert(r@.items =~= seq![
            GenomeItem {
                enabled: true,
                operation: Operation::Move,
                target: 0,
                source_type: SourceType::Register,
                source_value: 0,
            },
        ]);
        r
    }

    /// True when every gene names only registers below the declared register
    /// count.
    pub open spec fn valid(&self) -> bool {
        items_valid(self.items@, self.register_count)
    }

    /// Tells whether every gene names only registers below the declared
    /// register count.
    pub fn is_valid(&self) -> (r: bool)
        ensures
            r == self.valid(),
    {
        all_valid(&self.items, self.register_count)
    }

    /// Applies one mutation, or rejects it and changes nothing.
    pub fn apply(&mut self, mutation: &Mutation) -> (r: bool)
        ensures
            match mutated(old(self)@, *mutation) {
                Some(next) => r && final(self)@ == next,
                None => !r && final(self)@ == old(self)@,
            },
    {
        match apply_to_items(&self.items, mutation) {
            Some(changed) => {
                if !all_valid(&changed, self.register_count) || same_items(&changed, &self.items) {
                    return false;
                }
                self.items = changed;
                true
            },
            None => false,
        }
    }

    /// The program of the enabled genes, or nothing when a gene names a
    /// register that no program has.
    pub fn to_program(&self) -> (r: Option<Program>)
        ensures
            r is Some <==> items_valid(self.items@, 256),
            r matches Some(program) ==> program@ == program_of(self.items@),
    {
        if !all_valid(&self.items, 256) {
            return None;
        }
        let mut node_vec: Vec<Node> = Vec::new();
        let mut i: usize = 0;
        while i < self.items.len()
            invariant
                i <= self.items@.len(),
                items_valid(self.items@, 256),
                Seq::new(node_vec@.len(), |k: int| node_vec@[k]@) == program_of(
                    self.items@.take(i as int),
                ),
            decreases self.items@.len() - i,
        {
            let ghost before = Seq::new(node_vec@.len(), |k: int| node_vec@[k]@);
            assert(self.items@.take(i + 1).drop_last() =~= self.items@.take(i as int));
            assert(self.items@.take(i + 1).last() == self.items@[i as int]);
            if self.items[i].enabled {
                node_vec.push(self.items[i].instruction());
                assert(Seq::new(node_vec@.len(), |k: int| node_vec@[k]@) =~= before.push(
                    self.items@[i as int].node_view(),
                ));
            }
            i += 1;
        }
        assert(self.items@.take(i as int) =~= self.items@);
        let program = Program::new(node_vec);
        assert(program@ =~= program_of(self.items@));
        Some(program)
    }

    /// Draws one mutation for this genome: one of the nine kinds, at a
    /// position that exists, with the operation, the constant and the
    /// fragment as the context offers them and with registers below the
    /// declared register count. A genome without genes gets a gene inserted.
    fn draw_mutation<R: Rng + ?Sized>(&self, rng: &mut R, context: &GenomeMutateContext) -> (r:
        Mutation)
        ensures
            may_be_drawn(self@, r),
    {
        let len = self.items.len();
        let kind = random_below(rng, 9);
        if len == 0 || kind == 5 {
            let index = random_below(rng, if len < usize::MAX {
                len + 1
            } else {
                len
            });
            return Mutation::Insert { index, item: self.draw_item(rng, context) };
        }
        let index = random_below(rng, len);
        if kind == 0 {
            let suggested = if index > 0 {
                context.choose_operation_after(rng, self.items[index - 1].operation)
            } else {
                None
            };
            let operation = match suggested {
                Some(operation) => operation,
                None => match context.choose_operation(rng) {
                    Some(operation) => operation,
                    None => Operation::Move,
                },
            };
            Mutation::ReplaceOperation { index, operation }
        } else if kind == 1 {
            let item = self.draw_item(rng, context);
            Mutation::ReplaceSource {
                index,
                source_type: item.source_type,
                source_value: item.source_value,
            }
        } else if kind == 2 {
            Mutation::ReplaceTarget { index, target: self.draw_register(rng) }
        } else if kind == 3 {
            Mutation::ReplaceItem { index, item: self.draw_item(rng, context) }
        } else if kind == 4 {
            Mutation::ToggleEnabled { index }
        } else if kind == 6 {
            Mutation::Delete { index }
        } else if kind == 7 {
            Mutation::Swap { first: index, second: random_below(rng, len) }
        } else {
            match context.choose_fragment(rng) {
                Some(fragment) => Mutation::Splice { index, fragment },
                None => Mutation::ToggleEnabled { index },
            }
        }
    }

    /// Draws a register below the declared register count, or register zero
    /// when none is declared.
    fn draw_register<R: Rng + ?Sized>(&self, rng: &mut R) -> (r: u8)
        ensures
            self.register_count > 0 ==> r < self.register_count,
            self.register_count == 0 ==> r == 0,
    {
        if self.register_count == 0 {
            return 0;
        }
        let bound: usize = if self.register_count > 256 {
            256
        } else {
            self.register_count as usize
        };
        random_below(rng, bound) as u8
    }

    /// Draws an enabled gene: the operation and the constant as the context
    /// weighs them, or a move and the constant one where it offers none; the
    /// registers below the declared register count.
    fn draw_item<R: Rng + ?Sized>(&self, rng: &mut R, context: &GenomeMutateContext) -> (r:
        GenomeItem)
        ensures
            r.enabled,
            self.register_count > 0 ==> r.valid(self.register_count),
            self.register_count == 0 ==> r.target == 0,
            if 0 < count_sum(context.operation_counts()) <= usize::MAX {
                exists|i: int|
                    0 <= i < context.operation_histogram@.len() && (
                    #[trigger] context.operation_histogram@[i]) == (
                        r.operation,
                        context.operation_histogram@[i].1,
                    ) && context.operation_histogram@[i].1 > 0
            } else {
                r.operation == Operation::Move
            },
            r.source_type == SourceType::Constant ==> if 0 < count_sum(context.constant_counts())
                <= usize::MAX {
                exists|i: int|
                    0 <= i < context.constant_histogram@.len() && (
                    #[trigger] context.constant_histogram@[i]) == (
                        r.source_value,
                        context.constant_histogram@[i].1,
                    ) && context.constant_histogram@[i].1 > 0
            } else {
                r.source_value == 1
            },
    {
        let operation = match context.choose_operation(rng) {
            Some(operation) => operation,
            None => Operation::Move,
        };
        let target = self.draw_register(rng);
        if random_below(rng, 2) == 0 {
            let source_value = match context.choose_constant(rng) {
                Some(value) => value,
                None => 1,
            };
            GenomeItem::new(operation, target, SourceType::Constant, source_value)
        } else {
            let source = self.draw_register(rng);
            GenomeItem::new(operation, target, SourceType::Register, source as i32)
        }
    }

    /// Mutates the genome: draws mutations until one is accepted, at most
    /// `MUTATE_ATTEMPT_CAP` times.
    ///
    /// Tells whether the genome was mutated. A mutated genome is the result
    /// of one drawn and accepted mutation, so it differs from the one before
    /// and, like every accepted mutation's result, is valid. Without an
    /// accepted mutation the genome is unchanged.
    ///
    /// A genome without genes is always mutated when registers are declared:
    /// the first draw gives it one enabled, valid gene. Without registers it
    /// never is.
    pub fn mutate<R: Rng + ?Sized>(&mut self, rng: &mut R, context: &GenomeMutateContext) -> (r:
        bool)
        ensures
            r ==> exists|mutation: Mutation|
                may_be_drawn(old(self)@, mutation) && #[trigger] mutated(old(self)@, mutation)
                    == Some(final(self)@),
            r ==> final(self).valid() && final(self)@ != old(self)@,
            !r ==> final(self)@ == old(self)@,
            old(self)@.items.len() == 0 ==> r == (old(self).register_count > 0),
            old(self)@.items.len() == 0 && r ==> final(self)@.items.len() == 1
                && final(self)@.items[0].enabled,
    {
        let mut attempt: usize = 0;
        while attempt < MUTATE_ATTEMPT_CAP
            invariant
                self@ == old(self)@,
                self@.items.len() == 0 && self.register_count > 0 ==> attempt == 0,
            decreases MUTATE_ATTEMPT_CAP - attempt,
        {
            let mutation = self.draw_mutation(rng, context);
            proof {
                if self@.items.len() == 0 {
                    if self.register_count > 0 {
                        lemma_first_gene(self@, mutation);
                    } else {
                        lemma_nothing_to_mutate(self@, mutation);
                    }
                }
            }
            if self.apply(&mutation) {
                assert(mutated(old(self)@, mutation) == Some(self@));
                return true;
            }
            attempt += 1;
        }
        false
    }
}

} // verus!
