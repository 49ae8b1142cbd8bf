//! The pair of chained interrupt controllers.

use vstd::prelude::*;
use crate::interrupts::PortWrite;

verus! {

/// The first vector of the primary controller.
pub const PIC_OFFSET: u8 = 32;

/// The command that starts the controller's initialisation.
pub const CMD_INIT: u8 = 0x11;

/// The command that ends an interrupt.
pub const CMD_END_OF_INTERRUPT: u8 = 0x20;

/// The mode byte for 8086 mode.
pub const MODE_8086: u8 = 0x01;

/// A port that is written to only to let time pass.
pub const WAIT_PORT: u16 = 0x80;

/// One interrupt controller: the first of its eight vectors, and its ports.
#[derive(Debug, Clone, Copy, PartialEq, Eq, Structural)]
pub struct Pic {
    pub offset: u8,
    pub command_port: u16,
    pub data_port: u16,
}

impl Pic {
    /// The controller with the vectors from `offset` on and the given ports.
    pub fn new(offset: u8, command_port: u16, data_port: u16) -> (pic: Pic)
        ensures
            pic == (Pic { offset, command_port, data_port }),
    {
        Pic { offset, command_port, data_port }
    }

    /// Whether the vector `interrupt_index` is one of the controller's
    /// eight.
    pub open spec fn spec_handles_interrupt(&self, interrupt_index: u8) -> bool {
        self.offset <= interrupt_index < self.offset + 8
    }

    /// Whether the vector `interrupt_index` is one of the controller's
    /// eight.
    #[verifier::when_used_as_spec(spec_handles_interrupt)]
    pub fn handles_interrupt(&self, interrupt_index: u8) -> (res: bool)
        requires
            self.offset <= 247,
        ensures
            res == self.spec_handles_interrupt(interrupt_index),
    {
        self.offset <= interrupt_index && interrupt_index < self.offset + 8
    }
}

/// What is known of a controller from the bytes written to it: the vector
/// offset, the cascade byte and the mode it was programmed with, its
/// interrupt mask, and how far an initialisation has got.
pub struct PicState {
    pub offset: u8,
    pub cascade: u8,
    pub mode: u8,
    pub mask: u8,
    pub stage: int,
}

/// The state of the controller `pic` after the write `write`: the
/// initialisation command makes the next three data bytes the offset, the
/// cascade byte and the mode; any other data byte is the mask.
pub open spec fn pic_step(pic: Pic, state: PicState, write: PortWrite) -> PicState {
    if write.port == pic.command_port && write.value == CMD_INIT {
        PicState { stage: 1, ..state }
    } else if write.port == pic.data_port {
        if state.stage == 1 {
            PicState { offset: write.value, stage: 2, ..state }
        } else if state.stage == 2 {
            PicState { cascade: write.value, stage: 3, ..state }
        } else if state.stage == 3 {
            PicState { mode: write.value, stage: 0, ..state }
        } else {
            PicState { mask: write.value, ..state }
        }
    } else {
        state
    }
}

/// The state of the controller `pic` after the first `n` of `writes`.
pub open spec fn pic_run(pic: Pic, state: PicState, writes: Seq<PortWrite>, n: int) -> PicState
    decreases n,
{
    if n <= 0 {
        state
    } else {
        pic_step(pic, pic_run(pic, state, writes, n - 1), writes[n - 1])
    }
}

/// How many of `writes` go to the port `port`.
pub open spec fn count_port(writes: Seq<PortWrite>, port: u16) -> nat
    decreases writes.len(),
{
    if writes.len() == 0 {
        0
    } else {
        count_port(writes.drop_last(), port) + if writes.last().port == port { 1nat } else { 0nat }
    }
}

/// The two chained controllers.
#[derive(Debug, Clone, Copy, PartialEq, Eq, Structural)]
pub struct Pics {
    pub primary: Pic,
    pub secondary: Pic,
}

impl Pics {
    /// The vectors of both controllers fit a byte, and the two have the
    /// usual ports.
    pub open spec fn wf(&self) -> bool {
        &&& self.primary.offset <= 247
        &&& self.secondary.offset <= 247
        &&& self.primary.command_port == 0x20
        &&& self.primary.data_port == 0x21
        &&& self.secondary.command_port == 0xA0
        &&& self.secondary.data_port == 0xA1
    }

    /// The pair with the vectors from `offset` on: eight for the primary
    /// controller, the next eight for the secondary. The pair can end
    /// interrupts where the secondary controller's eight vectors fit a byte
    /// too.
    pub fn new(offset: u8) -> (pics: Pics)
        requires
            offset <= 247,
        ensures
            offset <= 239 ==> pics.wf(),
            pics.primary == (Pic { offset, command_port: 0x20, data_port: 0x21 }),
            pics.secondary == (Pic { offset: (offset + 8) as u8, command_port: 0xA0, data_port: 0xA1 }),
    {
        Pics { primary: Pic::new(offset, 0x20, 0x21), secondary: Pic::new(offset + 8, 0xA0, 0xA1) }
    }

    /// The writes that end the interrupt with the vector `interrupt_index`:
    /// the command goes to the secondary controller where the vector is
    /// one of its eight, and to the primary controller in any case.
    pub open spec fn eoi_writes(&self, interrupt_index: u8) -> Seq<PortWrite> {
        if self.secondary.spec_handles_interrupt(interrupt_index) {
            seq![
                PortWrite { port: self.secondary.command_port, value: CMD_END_OF_INTERRUPT },
                PortWrite { port: self.primary.command_port, value: CMD_END_OF_INTERRUPT },
            ]
        } else {
            seq![PortWrite { port: self.primary.command_port, value: CMD_END_OF_INTERRUPT }]
        }
    }

    /// The writes that end the interrupt with the vector `interrupt_index`.
    pub fn send_eoi(&self, interrupt_index: u8) -> (writes: Vec<PortWrite>)
        requires
            self.wf(),
        ensures
            writes@ == self.eoi_writes(interrupt_index),
            count_port(writes@, self.primary.command_port) == 1,
            count_port(writes@, self.secondary.command_port) == if self.secondary.spec_handles_interrupt(
                interrupt_index,
            ) {
                1nat
            } else {
                0nat
            },
    {
        let mut writes: Vec<PortWrite> = Vec::new();
        if self.secondary.handles_interrupt(interrupt_index) {
            writes.push(PortWrite { port: self.secondary.command_port, value: CMD_END_OF_INTERRUPT });
        }
        writes.push(PortWrite { port: self.primary.command_port, value: CMD_END_OF_INTERRUPT });
        proof {
            lemma_count_eoi(*self, interrupt_index);
        }
        writes
    }

    /// The writes that move both controllers to their vectors: the
    /// initialisation command, the offsets, the cascade wiring, the mode,
    /// and the masks that the controllers had before, with a wait after
    /// each step but the last.
    pub open spec fn init_writes(&self, primary_mask: u8, secondary_mask: u8) -> Seq<PortWrite> {
        seq![
            PortWrite { port: self.primary.command_port, value: CMD_INIT },
            PortWrite { port: self.secondary.command_port, value: CMD_INIT },
            PortWrite { port: WAIT_PORT, value: 0 },
            PortWrite { port: self.primary.data_port, value: self.primary.offset },
            PortWrite { port: self.secondary.data_port, value: self.secondary.offset },
            PortWrite { port: WAIT_PORT, value: 0 },
            PortWrite { port: self.primary.data_port, value: 4 },
            PortWrite { port: self.secondary.data_port, value: 2 },
            PortWrite { port: WAIT_PORT, value: 0 },
            PortWrite { port: self.primary.data_port, value: MODE_8086 },
            PortWrite { port: self.secondary.data_port, value: MODE_8086 },
            PortWrite { port: WAIT_PORT, value: 0 },
            PortWrite { port: self.primary.data_port, value: primary_mask },
            PortWrite { port: self.secondary.data_port, value: secondary_mask },
        ]
    }

    /// The writes that move both controllers to their vectors and leave
    /// their masks as they were read before: `primary_mask` and
    /// `secondary_mask`. Whatever the controllers were programmed with
    /// before, each has its offset and its old mask afterwards, and the two
    /// are wired as a cascade.
    pub fn init(&self, primary_mask: u8, secondary_mask: u8) -> (writes: Vec<PortWrite>)
        requires
            self.wf(),
        ensures
            writes@ == self.init_writes(primary_mask, secondary_mask),
            forall|state: PicState|
                {
                    let after = #[trigger] pic_run(self.primary, state, writes@, writes@.len() as int);
                    after.offset == self.primary.offset && after.mask == primary_mask && after.cascade
                        == 4 && after.mode == MODE_8086 && after.stage == 0
                },
            forall|state: PicState|
                {
                    let after = #[trigger] pic_run(self.secondary, state, writes@, writes@.len() as int);
                    after.offset == self.secondary.offset && after.mask == secondary_mask
                        && after.cascade == 2 && after.mode == MODE_8086 && after.stage == 0
                },
    {
        let mut writes: Vec<PortWrite> = Vec::new();
        writes.push(PortWrite { port: self.primary.command_port, value: CMD_INIT });
        writes.push(PortWrite { port: self.secondary.command_port, value: CMD_INIT });
        writes.push(PortWrite { port: WAIT_PORT, value: 0 });
        writes.push(PortWrite { port: self.primary.data_port, value: self.primary.offset });
        writes.push(PortWrite { port: self.secondary.data_port, value: self.secondary.offset });
        writes.push(PortWrite { port: WAIT_PORT, value: 0 });
        writes.push(PortWrite { port: self.primary.data_port, value: 4 });
        writes.push(PortWrite { port: self.secondary.data_port, value: 2 });
        writes.push(PortWrite { port: WAIT_PORT, value: 0 });
        writes.push(PortWrite { port: self.primary.data_port, value: MODE_8086 });
        writes.push(PortWrite { port: self.secondary.data_port, value: MODE_8086 });
        writes.push(PortWrite { port: WAIT_PORT, value: 0 });
        writes.push(PortWrite { port: self.primary.data_port, value: primary_mask });
        writes.push(PortWrite { port: self.secondary.data_port, value: secondary_mask });
        assert(writes@ =~= self.init_writes(primary_mask, secondary_mask));
        proof {
            assert forall|state: PicState|
                {
                    let after = #[trigger] pic_run(self.primary, state, writes@, writes@.len() as int);
                    after.offset == self.primary.offset && after.mask == primary_mask && after.cascade
                        == 4 && after.mode == MODE_8086 && after.stage == 0
                } by {
                lemma_init_programs(*self, primary_mask, secondary_mask, state, state);
            }
            assert forall|state: PicState|
                {
                    let after = #[trigger] pic_run(self.secondary, state, writes@, writes@.len() as int);
                    after.offset == self.secondary.offset && after.mask == secondary_mask
                        && after.cascade == 2 && after.mode == MODE_8086 && after.stage == 0
                } by {
                lemma_init_programs(*self, primary_mask, secondary_mask, state, state);
            }
        }
        writes
    }
}

/// The end of an interrupt is written once to the primary controller, and
/// once more to the secondary where the vector is one of its eight.
pub proof fn lemma_count_eoi(pics: Pics, interrupt_index: u8)
    requires
        pics.wf(),
    ensures
        count_port(pics.eoi_writes(interrupt_index), pics.primary.command_port) == 1,
        count_port(pics.eoi_writes(interrupt_index), pics.secondary.command_port)
            == if pics.secondary.spec_handles_interrupt(interrupt_index) {
            1nat
        } else {
            0nat
        },
{
    let writes = pics.eoi_writes(interrupt_index);
    reveal_with_fuel(count_port, 4);
    if pics.secondary.spec_handles_interrupt(interrupt_index) {
        assert(writes.drop_last() =~= seq![writes[0]]);
        assert(writes.drop_last().drop_last() =~= Seq::<PortWrite>::empty());
    } else {
        assert(writes.drop_last() =~= Seq::<PortWrite>::empty());
    }
}

/// The initialisation sequence programs each controller with its offset
/// and its mask, whatever state it was in.
pub proof fn lemma_init_programs(
    pics: Pics,
    primary_mask: u8,
    secondary_mask: u8,
    primary_state: PicState,
    secondary_state: PicState,
)
    requires
        pics.wf(),
    ensures
        ({
            let writes = pics.init_writes(primary_mask, secondary_mask);
            let after = pic_run(pics.primary, primary_state, writes, writes.len() as int);
            after.offset == pics.primary.offset && after.mask == primary_mask && after.cascade == 4
                && after.mode == MODE_8086 && after.stage == 0
        }),
        ({
            let writes = pics.init_writes(primary_mask, secondary_mask);
            let after = pic_run(pics.secondary, secondary_state, writes, writes.len() as int);
            after.offset == pics.secondary.offset && after.mask == secondary_mask && after.cascade == 2
                && after.mode == MODE_8086 && after.stage == 0
        }),
{
    reveal_with_fuel(pic_run, 16);
}

} // verus!
