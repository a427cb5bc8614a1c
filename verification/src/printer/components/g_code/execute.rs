//! The execution of the G-code commands.
use std::collections::VecDeque;

use vstd::prelude::*;

verus! {

/// Number of savable positions in [`GCodeExecuter`] (check [`GCodeExecuter::save_position`] and
/// [`GCodeExecuter::get_saved_position`]).
pub const SAVED_POSITIONS_COUNT: usize = 1;

/// The result of preparing or executing a G-code command.
#[derive(Debug, PartialEq)]
pub enum Status {
    /// The command needs more time: prepare or execute it again later.
    Working,
    /// The command is done.
    Finished,
    /// The command failed, with the provided description of the error.
    Error(String),
}

/// A G-code command, executed on the `Components` of the printer by a [`GCodeExecuter`] whose saved
/// positions are `Position`s.
///
/// Every command is first prepared (as many times as it asks to), then executed (as many times as
/// it asks to). A command can change the modes and the saved positions of the executer, but not
/// its commands.
pub trait GCodeCommand<Components, Position>: Sized {
    /// Prepares the command. By default there's nothing to prepare: the command is ready.
    fn prepare(&mut self, printer_components: &mut Components, g_code_executer: &mut GCodeExecuter<Self, Position>) -> (status: Status)
        ensures
            final(g_code_executer).spec_commands_unchanged(*old(g_code_executer)),
        default_ensures
            status == Status::Finished,
            *final(self) == *old(self),
            *final(printer_components) == *old(printer_components),
            *final(g_code_executer) == *old(g_code_executer),
    {
        Status::Finished
    }

    /// Executes the command. By default there's nothing to do: the command is done.
    fn execute(&mut self, printer_components: &mut Components, g_code_executer: &mut GCodeExecuter<Self, Position>) -> (status: Status)
        ensures
            final(g_code_executer).spec_commands_unchanged(*old(g_code_executer)),
        default_ensures
            status == Status::Finished,
            *final(self) == *old(self),
            *final(printer_components) == *old(printer_components),
            *final(g_code_executer) == *old(g_code_executer),
    {
        Status::Finished
    }
}

/// Executes the G-code commands it receives, in the order it receives them.
pub struct GCodeExecuter<C, Position> {
    /// All the commands added to the executer first go in this queue to be prepared.
    commands_to_prepare: VecDeque<C>,
    /// When a command is successfully prepared (it returns [`Status::Finished`]), it goes in this
    /// queue.
    command_buffer: VecDeque<C>,
    /// This is the first command taken from the `command_buffer` queue and it's constantly
    /// executed. When the execution is finished (it returns [`Status::Finished`]) this field
    /// becomes `None` and a new command is taken (if possible) from the `command_buffer`.
    current_command: Option<C>,
    current_command_being_executed_index: u32,
    position_mode: PositionMode,
    extruder_position_mode: PositionMode,
    saved_positions: [Position; SAVED_POSITIONS_COUNT],
    /// The commands are numbered from 0 in the order they are added: the numbers of the commands
    /// to prepare, of the buffered commands and of the current command.
    prepare_numbers: Ghost<Seq<int>>,
    buffer_numbers: Ghost<Seq<int>>,
    current_number: Ghost<int>,
    /// The number of commands added so far.
    added_count: Ghost<int>,
    /// Every call of [`GCodeCommand::prepare`] made, in order: the number of the command and the
    /// status it returned.
    prepare_calls: Ghost<Seq<(int, Status)>>,
    /// Every call of [`GCodeCommand::execute`] made, in order: the number of the command and the
    /// status it returned.
    execute_calls: Ghost<Seq<(int, Status)>>,
    /// Every call made, of both kinds, in order: its kind, the number of the command and the status
    /// it returned.
    calls: Ghost<Seq<(CallKind, int, Status)>>,
    /// Every command put in the buffer and every command taken from it, in order, with its number.
    buffer_in: Ghost<Seq<(int, C)>>,
    buffer_out: Ghost<Seq<(int, C)>>,
}

/// Whether the command numbered `number` was successfully prepared in the `calls` of
/// [`GCodeCommand::prepare`].
pub open spec fn spec_prepared(calls: Seq<(int, Status)>, number: int) -> bool {
    exists|i: int| 0 <= i < calls.len() && #[trigger] calls[i] == (number, Status::Finished)
}

/// The call after the `i`-th of `calls` of [`GCodeCommand::prepare`] is on the same command when
/// it asked for more time, otherwise on the next command.
pub open spec fn spec_prepare_step(calls: Seq<(int, Status)>, i: int) -> bool {
    if calls[i].1 is Working {
        calls[i + 1].0 == calls[i].0
    } else {
        calls[i + 1].0 == calls[i].0 + 1
    }
}

/// The commands are prepared in the order they were added: from the first one, a command is
/// prepared again only while it asks for more time, and the next one once it finished or failed.
pub open spec fn spec_prepare_order(calls: Seq<(int, Status)>) -> bool {
    &&& calls.len() > 0 ==> calls[0].0 == 0
    &&& forall|i: int| 0 <= i < calls.len() - 1 ==> #[trigger] spec_prepare_step(calls, i)
}

/// The call after the `i`-th of `calls` of [`GCodeCommand::execute`] is on the same command when
/// it asked for more time, otherwise on a command added later.
pub open spec fn spec_execute_step(calls: Seq<(int, Status)>, i: int) -> bool {
    if calls[i].1 is Working {
        calls[i + 1].0 == calls[i].0
    } else {
        calls[i + 1].0 > calls[i].0
    }
}

/// The commands are executed only once successfully prepared (in `prepare_calls`), and in the
/// order they were added: a command is executed again only while it asks for more time, and then
/// a command added later.
pub open spec fn spec_execute_order(calls: Seq<(int, Status)>, prepare_calls: Seq<(int, Status)>) -> bool {
    &&& forall|i: int| 0 <= i < calls.len() ==> spec_prepared(prepare_calls, #[trigger] calls[i].0)
    &&& forall|i: int| 0 <= i < calls.len() - 1 ==> #[trigger] spec_execute_step(calls, i)
}

/// The calls of one `kind` among `calls`, in order, each with the number of its command and the
/// status it returned.
pub open spec fn spec_calls_of_kind(calls: Seq<(CallKind, int, Status)>, kind: CallKind) -> Seq<(int, Status)>
    decreases calls.len(),
{
    if calls.len() == 0 {
        Seq::empty()
    } else {
        let earlier = spec_calls_of_kind(calls.drop_last(), kind);
        if calls.last().0 == kind {
            earlier.push((calls.last().1, calls.last().2))
        } else {
            earlier
        }
    }
}

/// Recording a call adds it to the calls of its kind only.
proof fn lemma_calls_of_kind_push(calls: Seq<(CallKind, int, Status)>, call: (CallKind, int, Status))
    ensures
        spec_calls_of_kind(calls.push(call), call.0) == spec_calls_of_kind(calls, call.0).push((call.1, call.2)),
        forall|kind: CallKind| kind != call.0 ==> #[trigger] spec_calls_of_kind(calls.push(call), kind)
            == spec_calls_of_kind(calls, kind),
{
    assert(calls.push(call).drop_last() =~= calls);
}

/// A successfully prepared command stays so when more calls are made.
proof fn lemma_prepared_stays(calls: Seq<(int, Status)>, call: (int, Status), number: int)
    requires
        spec_prepared(calls, number),
    ensures
        spec_prepared(calls.push(call), number),
{
    let i = choose|i: int| 0 <= i < calls.len() && #[trigger] calls[i] == (number, Status::Finished);
    assert(calls.push(call)[i] == calls[i]);
}

/// The order of the calls of [`GCodeCommand::prepare`] is kept by a next call that follows it.
proof fn lemma_prepare_order_push(calls: Seq<(int, Status)>, call: (int, Status))
    requires
        spec_prepare_order(calls),
        calls.len() == 0 ==> call.0 == 0,
        calls.len() > 0 ==> (if calls.last().1 is Working {
            call.0 == calls.last().0
        } else {
            call.0 == calls.last().0 + 1
        }),
    ensures
        spec_prepare_order(calls.push(call)),
{
    let pushed = calls.push(call);
    assert forall|i: int| 0 <= i < pushed.len() - 1 implies #[trigger] spec_prepare_step(pushed, i) by {
        assert(pushed[i] == calls[i]);
        if i < calls.len() - 1 {
            assert(spec_prepare_step(calls, i));
            assert(pushed[i + 1] == calls[i + 1]);
        } else {
            assert(pushed[i + 1] == call);
        }
    }
}

/// The order of the calls of [`GCodeCommand::execute`] is kept by a next call that follows it and
/// by more calls of [`GCodeCommand::prepare`].
proof fn lemma_execute_order_push(
    calls: Seq<(int, Status)>,
    call: (int, Status),
    prepare_calls: Seq<(int, Status)>,
)
    requires
        spec_execute_order(calls, prepare_calls),
        spec_prepared(prepare_calls, call.0),
        calls.len() > 0 ==> (if calls.last().1 is Working {
            call.0 == calls.last().0
        } else {
            call.0 > calls.last().0
        }),
    ensures
        spec_execute_order(calls.push(call), prepare_calls),
{
    let pushed = calls.push(call);
    assert forall|i: int| 0 <= i < pushed.len() implies spec_prepared(prepare_calls, #[trigger] pushed[i].0) by {
        if i < calls.len() {
            assert(pushed[i] == calls[i]);
        }
    }
    assert forall|i: int| 0 <= i < pushed.len() - 1 implies #[trigger] spec_execute_step(pushed, i) by {
        assert(pushed[i] == calls[i]);
        if i < calls.len() - 1 {
            assert(spec_execute_step(calls, i));
            assert(pushed[i + 1] == calls[i + 1]);
        } else {
            assert(pushed[i + 1] == call);
        }
    }
}

/// The order of the calls of [`GCodeCommand::execute`] is kept by more calls of
/// [`GCodeCommand::prepare`].
proof fn lemma_execute_order_more_prepared(
    calls: Seq<(int, Status)>,
    prepare_calls: Seq<(int, Status)>,
    call: (int, Status),
)
    requires
        spec_execute_order(calls, prepare_calls),
    ensures
        spec_execute_order(calls, prepare_calls.push(call)),
{
    assert forall|i: int| 0 <= i < calls.len() implies spec_prepared(prepare_calls.push(call), #[trigger] calls[i].0) by {
        lemma_prepared_stays(prepare_calls, call, calls[i].0);
    }
}

/// An error returned by [`GCodeExecuter::tick`].
#[derive(Debug)]
pub enum TickError {
    /// Calling [`GCodeCommand::prepare`] resulted in the [`Status::Error`] being returned.
    PreparingCommand { error: String },
    /// Calling [`GCodeCommand::execute`] resulted in the [`Status::Error`] being returned.
    ExecutingCommand { error: String },
}

/// The kind of a call made by a [`GCodeExecuter`] on a command.
#[derive(Clone, Copy, Debug, PartialEq, Eq, Structural)]
pub enum CallKind {
    /// A call of [`GCodeCommand::prepare`].
    Prepare,
    /// A call of [`GCodeCommand::execute`].
    Execute,
}

/// The error returned when a position slot doesn't exist.
#[derive(Debug, PartialEq, Eq, Clone, Copy, Structural)]
pub struct InvalidPositionSlot;

/// How the positions of the moves are interpreted.
#[derive(Clone, Copy, PartialEq, Eq, Debug, Structural)]
pub enum PositionMode {
    /// The positions are absolute coordinates.
    Absolute,
    /// The positions are relative to the end of the last move.
    Relative,
}

impl Default for PositionMode {
    fn default() -> (mode: Self)
        ensures
            mode == PositionMode::Absolute,
    {
        PositionMode::Absolute
    }
}

impl<C, Position: Copy + Default> Default for GCodeExecuter<C, Position> {
    fn default() -> (executer: Self)
        ensures
            executer.spec_commands_to_prepare() == Seq::<C>::empty(),
            executer.spec_command_buffer() == Seq::<C>::empty(),
            executer.spec_current_command() is None,
            executer.spec_executed_count() == 0,
            executer.spec_position_mode() == PositionMode::Absolute,
            executer.spec_extruder_position_mode() == PositionMode::Absolute,
            executer.spec_saved_positions().len() == SAVED_POSITIONS_COUNT,
            forall|i: int|
                0 <= i < SAVED_POSITIONS_COUNT ==> Position::default.ensures((), #[trigger] executer.spec_saved_positions()[i]),
            executer.spec_well_formed(),
            executer.spec_prepare_calls() == Seq::<(int, Status)>::empty(),
            executer.spec_execute_calls() == Seq::<(int, Status)>::empty(),
            executer.spec_calls() == Seq::<(CallKind, int, Status)>::empty(),
    {
        Self {
            commands_to_prepare: VecDeque::new(),
            command_buffer: VecDeque::new(),
            current_command: None,
            current_command_being_executed_index: 0,
            position_mode: PositionMode::Absolute,
            extruder_position_mode: PositionMode::Absolute,
            saved_positions: [Position::default()],
            prepare_numbers: Ghost(Seq::empty()),
            buffer_numbers: Ghost(Seq::empty()),
            current_number: Ghost(0),
            added_count: Ghost(0),
            prepare_calls: Ghost(Seq::empty()),
            execute_calls: Ghost(Seq::empty()),
            calls: Ghost(Seq::empty()),
            buffer_in: Ghost(Seq::empty()),
            buffer_out: Ghost(Seq::empty()),
        }
    }
}

impl<C, Position> GCodeExecuter<C, Position> {
    /// The commands waiting to be prepared, the first one first.
    pub closed spec fn spec_commands_to_prepare(&self) -> Seq<C> {
        self.commands_to_prepare@
    }

    /// The commands prepared and waiting to be executed, the first one first.
    pub closed spec fn spec_command_buffer(&self) -> Seq<C> {
        self.command_buffer@
    }

    /// The command being executed.
    pub closed spec fn spec_current_command(&self) -> Option<C> {
        self.current_command
    }

    /// The number of commands whose execution has finished.
    pub closed spec fn spec_executed_count(&self) -> u32 {
        self.current_command_being_executed_index
    }

    /// How the positions of the moves are interpreted.
    pub closed spec fn spec_position_mode(&self) -> PositionMode {
        self.position_mode
    }

    /// How the positions of the extruder are interpreted.
    pub closed spec fn spec_extruder_position_mode(&self) -> PositionMode {
        self.extruder_position_mode
    }

    /// The saved positions, one per slot.
    pub closed spec fn spec_saved_positions(&self) -> Seq<Position> {
        self.saved_positions@
    }

    /// The number of commands that haven't finished their execution.
    pub open spec fn spec_pending_count(&self) -> int {
        self.spec_commands_to_prepare().len() + self.spec_command_buffer().len() + if self.spec_current_command() is Some {
            1int
        } else {
            0
        }
    }

    /// Every call of [`GCodeCommand::prepare`] made by the executer, in order: the number of the
    /// command (the commands are numbered from 0 in the order they are added) and the status it
    /// returned.
    pub closed spec fn spec_prepare_calls(&self) -> Seq<(int, Status)> {
        self.prepare_calls@
    }

    /// Every call of [`GCodeCommand::execute`] made by the executer, in order: the number of the
    /// command and the status it returned.
    pub closed spec fn spec_execute_calls(&self) -> Seq<(int, Status)> {
        self.execute_calls@
    }

    /// Every call of [`GCodeCommand::prepare`] and of [`GCodeCommand::execute`] made by the
    /// executer, in the order they were made: the kind of the call, the number of the command and
    /// the status it returned.
    pub closed spec fn spec_calls(&self) -> Seq<(CallKind, int, Status)> {
        self.calls@
    }

    /// Every command put in the buffer once prepared, in order, with its number.
    pub closed spec fn spec_buffer_in(&self) -> Seq<(int, C)> {
        self.buffer_in@
    }

    /// Every command taken from the buffer to be executed, in order, with its number.
    pub closed spec fn spec_buffer_out(&self) -> Seq<(int, C)> {
        self.buffer_out@
    }

    /// The buffered commands with their numbers, the first one first.
    pub open spec fn spec_numbered_buffer(&self) -> Seq<(int, C)> {
        Seq::new(
            self.spec_command_buffer().len(),
            |i: int| (self.spec_buffer_numbers()[i], self.spec_command_buffer()[i]),
        )
    }

    /// The buffer is a queue: the commands are taken from it in the order they were put in it.
    pub open spec fn spec_buffer_is_a_queue(&self) -> bool {
        self.spec_buffer_out() + self.spec_numbered_buffer() == self.spec_buffer_in()
    }

    /// The numbers of the commands to prepare, the first one first.
    pub closed spec fn spec_prepare_numbers(&self) -> Seq<int> {
        self.prepare_numbers@
    }

    /// The numbers of the buffered commands, the first one first.
    pub closed spec fn spec_buffer_numbers(&self) -> Seq<int> {
        self.buffer_numbers@
    }

    /// The number of commands added so far.
    pub closed spec fn spec_added_count(&self) -> int {
        self.added_count@
    }

    /// The executer prepares the commands in the order they were added, and executes them, once
    /// prepared, in the same order (see [`spec_prepare_order`] and [`spec_execute_order`]); the
    /// commands to prepare are the last ones added, the buffered ones the prepared ones that haven't
    /// been executed yet.
    pub closed spec fn spec_well_formed(&self) -> bool {
        let pn = self.prepare_numbers@;
        let bn = self.buffer_numbers@;
        let pc = self.prepare_calls@;
        let ec = self.execute_calls@;
        let next = self.added_count@ - pn.len();
        &&& pn.len() == self.commands_to_prepare@.len()
        &&& bn.len() == self.command_buffer@.len()
        &&& next >= 0
        &&& forall|i: int| 0 <= i < pn.len() ==> #[trigger] pn[i] == next + i
        &&& spec_prepare_order(pc)
        &&& pc.len() == 0 ==> next == 0
        &&& pc.len() > 0 ==> (if pc.last().1 is Working {
            pn.len() > 0 && pc.last().0 == next
        } else {
            pc.last().0 == next - 1
        })
        &&& forall|i: int, j: int| 0 <= i < j < bn.len() ==> bn[i] < bn[j]
        &&& forall|i: int|
            0 <= i < bn.len() ==> #[trigger] bn[i] < next && spec_prepared(pc, bn[i]) && (ec.len() > 0
                ==> bn[i] > ec.last().0)
        &&& spec_execute_order(ec, pc)
        &&& ec.len() > 0 ==> ec.last().0 < next
        &&& (self.current_command is Some) == (ec.len() > 0 && ec.last().1 is Working)
        &&& self.current_command is Some ==> self.current_number@ == ec.last().0
        &&& self.spec_buffer_is_a_queue()
        &&& spec_calls_of_kind(self.calls@, CallKind::Prepare) == pc
        &&& spec_calls_of_kind(self.calls@, CallKind::Execute) == ec
    }

    /// `self` has the same commands (and the same number of executed commands, the same numbers
    /// and calls) as `other`.
    pub open spec fn spec_commands_unchanged(&self, other: Self) -> bool {
        &&& self.spec_commands_to_prepare() == other.spec_commands_to_prepare()
        &&& self.spec_command_buffer() == other.spec_command_buffer()
        &&& self.spec_current_command() == other.spec_current_command()
        &&& self.spec_executed_count() == other.spec_executed_count()
        &&& self.spec_ghost_unchanged(other)
    }

    /// `self` has the same numbers of commands and calls as `other`.
    pub closed spec fn spec_ghost_unchanged(&self, other: Self) -> bool {
        &&& self.prepare_numbers == other.prepare_numbers
        &&& self.buffer_numbers == other.buffer_numbers
        &&& self.current_number == other.current_number
        &&& self.added_count == other.added_count
        &&& self.prepare_calls == other.prepare_calls
        &&& self.execute_calls == other.execute_calls
        &&& self.calls == other.calls
        &&& self.buffer_in == other.buffer_in
        &&& self.buffer_out == other.buffer_out
    }
}

impl<C, Position: Copy> GCodeExecuter<C, Position> {

    /// Prepares and executes the commands, until a command needs more time to be prepared (or, when
    /// there's nothing else to prepare, to be executed), or there are no more commands.
    ///
    /// The commands are prepared in the order they were added, and executed, once prepared, in the
    /// same order: every call is recorded with the number of its command and the status it
    /// returned (see [`Self::spec_prepare_calls`], [`Self::spec_execute_calls`] and
    /// [`Self::spec_well_formed`]).
    ///
    /// Returns `Err(TickError::PreparingCommand { error })` if a command fails to be prepared with
    /// `Status::Error(error)`, `Err(TickError::ExecutingCommand { error })` if a command fails to be
    /// executed with `Status::Error(error)` (the failed command is discarded, and no other call is
    /// made), otherwise `Ok(())`. Either way no command is lost or duplicated: every command that
    /// was pending either is still pending, or has finished its execution, or has failed. The
    /// commands to prepare are taken from the front of their queue, so the ones behind the first
    /// one left are those that were already waiting there, untouched.
    ///
    /// When it returns `Ok(())`, it stopped because it couldn't go on: there's nothing left to
    /// prepare or to take from the buffer, or the first command to prepare needs more time, or
    /// there's nothing left to prepare and the command being executed needs more time.
    #[verifier::rlimit(50)]
    #[verifier::spinoff_prover]
    pub fn tick<Components>(&mut self, printer_components: &mut Components) -> (result: Result<(), TickError>)
        where
            C: GCodeCommand<Components, Position>,
        requires
            old(self).spec_executed_count() + old(self).spec_pending_count() <= u32::MAX,
            old(self).spec_well_formed(),
        ensures
            final(self).spec_well_formed(),
            spec_calls_of_kind(final(self).spec_calls(), CallKind::Prepare) == final(self).spec_prepare_calls(),
            spec_calls_of_kind(final(self).spec_calls(), CallKind::Execute) == final(self).spec_execute_calls(),
            spec_prepare_order(final(self).spec_prepare_calls()),
            spec_execute_order(final(self).spec_execute_calls(), final(self).spec_prepare_calls()),
            final(self).spec_buffer_is_a_queue(),
            result is Ok ==> final(self).spec_pending_count() + final(self).spec_executed_count()
                == old(self).spec_pending_count() + old(self).spec_executed_count(),
            result is Err ==> final(self).spec_pending_count() + final(self).spec_executed_count() + 1
                == old(self).spec_pending_count() + old(self).spec_executed_count(),
            final(self).spec_executed_count() >= old(self).spec_executed_count(),
            result is Ok ==> {
                let prepare = final(self).spec_prepare_calls();
                let execute = final(self).spec_execute_calls();
                ||| final(self).spec_commands_to_prepare().len() == 0 && final(self).spec_command_buffer().len() == 0
                ||| final(self).spec_commands_to_prepare().len() > 0 && prepare.len() > old(self).spec_prepare_calls().len()
                    && prepare.last().1 is Working
                ||| final(self).spec_commands_to_prepare().len() == 0 && final(self).spec_current_command() is Some
                    && execute.len() > old(self).spec_execute_calls().len() && execute.last().1 is Working
            },
            ({
                let before = old(self).spec_commands_to_prepare();
                let after = final(self).spec_commands_to_prepare();
                &&& after.len() <= before.len()
                &&& forall|j: int| 0 < j < after.len() ==> #[trigger] after[j] == before[before.len() - after.len() + j]
            }),
            ({
                let old_prepare = old(self).spec_prepare_calls();
                let old_execute = old(self).spec_execute_calls();
                let prepare = final(self).spec_prepare_calls();
                let execute = final(self).spec_execute_calls();
                &&& prepare.len() >= old_prepare.len()
                &&& forall|i: int| 0 <= i < old_prepare.len() ==> #[trigger] prepare[i] == old_prepare[i]
                &&& execute.len() >= old_execute.len()
                &&& forall|i: int| 0 <= i < old_execute.len() ==> #[trigger] execute[i] == old_execute[i]
                &&& result is Ok ==> forall|i: int| old_prepare.len() <= i < prepare.len() ==> !(#[trigger] prepare[i].1 is Error)
                &&& result is Ok ==> forall|i: int| old_execute.len() <= i < execute.len() ==> !(#[trigger] execute[i].1 is Error)
                &&& result matches Err(TickError::PreparingCommand { error }) ==> {
                    &&& prepare.len() > old_prepare.len()
                    &&& prepare.last().1 == Status::Error(error)
                    &&& forall|i: int| old_prepare.len() <= i < prepare.len() - 1 ==> !(#[trigger] prepare[i].1 is Error)
                    &&& forall|i: int| old_execute.len() <= i < execute.len() ==> !(#[trigger] execute[i].1 is Error)
                }
                &&& result matches Err(TickError::ExecutingCommand { error }) ==> {
                    &&& execute.len() > old_execute.len()
                    &&& execute.last().1 == Status::Error(error)
                    &&& forall|i: int| old_execute.len() <= i < execute.len() - 1 ==> !(#[trigger] execute[i].1 is Error)
                    &&& forall|i: int| old_prepare.len() <= i < prepare.len() ==> !(#[trigger] prepare[i].1 is Error)
                }
            }),
            ({
                let old_calls = old(self).spec_calls();
                let calls = final(self).spec_calls();
                let new_prepares = final(self).spec_prepare_calls().len() - old(self).spec_prepare_calls().len();
                let new_executes = final(self).spec_execute_calls().len() - old(self).spec_execute_calls().len();
                &&& calls.len() == old_calls.len() + new_prepares + new_executes
                &&& forall|i: int| 0 <= i < old_calls.len() ==> #[trigger] calls[i] == old_calls[i]
                &&& result is Ok ==> forall|i: int| old_calls.len() <= i < calls.len() ==> !(#[trigger] calls[i].2 is Error)
                &&& result is Err ==> {
                    &&& calls.len() > old_calls.len()
                    &&& calls.last().2 is Error
                    &&& forall|i: int| old_calls.len() <= i < calls.len() - 1 ==> !(#[trigger] calls[i].2 is Error)
                }
                &&& result matches Err(TickError::PreparingCommand { error }) ==> calls.last().0 == CallKind::Prepare
                    && calls.last().2 == Status::Error(error)
                &&& result matches Err(TickError::ExecutingCommand { error }) ==> calls.last().0 == CallKind::Execute
                    && calls.last().2 == Status::Error(error)
            }),
            old(self).spec_commands_to_prepare().len() > 0 ==> final(self).spec_prepare_calls().len()
                > old(self).spec_prepare_calls().len(),
            ({
                let old_prepare = old(self).spec_prepare_calls();
                let prepare = final(self).spec_prepare_calls();
                let first_prepare_done = prepare.len() > old_prepare.len();
                &&& (old(self).spec_commands_to_prepare().len() > 0 || old(self).spec_command_buffer().len() > 0)
                &&& !(first_prepare_done && prepare[old_prepare.len() as int].1 is Error)
                &&& (old(self).spec_current_command() is Some || old(self).spec_command_buffer().len() > 0
                    || (first_prepare_done && prepare[old_prepare.len() as int].1 is Finished))
            }) ==> final(self).spec_execute_calls().len() > old(self).spec_execute_calls().len(),
    {
        let ghost total = self.spec_pending_count() + self.spec_executed_count();
        let ghost old_prepare_len = self.prepare_calls@.len();
        let ghost old_execute_len = self.execute_calls@.len();
        let ghost old_calls_len = self.calls@.len();
        let ghost mut iterated = false;
        let mut prepare_another_command = true;
        while prepare_another_command && (self.commands_to_prepare.len() != 0 || self.command_buffer.len() != 0)
            invariant
                self.spec_well_formed(),
                self.spec_pending_count() + self.spec_executed_count() == total,
                total == old(self).spec_pending_count() + old(self).spec_executed_count(),
                total <= u32::MAX,
                self.spec_executed_count() >= old(self).spec_executed_count(),
                !prepare_another_command ==> {
                    ||| self.commands_to_prepare@.len() > 0 && self.prepare_calls@.len() > old_prepare_len
                        && self.prepare_calls@.last().1 is Working
                    ||| self.commands_to_prepare@.len() == 0 && self.current_command is Some
                        && self.execute_calls@.len() > old_execute_len && self.execute_calls@.last().1 is Working
                },
                self.commands_to_prepare@.len() <= old(self).commands_to_prepare@.len(),
                forall|j: int|
                    0 < j < self.commands_to_prepare@.len() ==> #[trigger] self.commands_to_prepare@[j]
                        == old(self).commands_to_prepare@[old(self).commands_to_prepare@.len()
                        - self.commands_to_prepare@.len() + j],
                old_prepare_len == old(self).prepare_calls@.len(),
                old_execute_len == old(self).execute_calls@.len(),
                self.prepare_calls@.len() >= old_prepare_len,
                forall|i: int| 0 <= i < old_prepare_len ==> #[trigger] self.prepare_calls@[i] == old(self).prepare_calls@[i],
                self.execute_calls@.len() >= old_execute_len,
                forall|i: int| 0 <= i < old_execute_len ==> #[trigger] self.execute_calls@[i] == old(self).execute_calls@[i],
                forall|i: int| old_prepare_len <= i < self.prepare_calls@.len() ==> !(#[trigger] self.prepare_calls@[i].1 is Error),
                forall|i: int| old_execute_len <= i < self.execute_calls@.len() ==> !(#[trigger] self.execute_calls@[i].1 is Error),
                old_calls_len == old(self).calls@.len(),
                self.calls@.len() == old_calls_len + (self.prepare_calls@.len() - old_prepare_len) + (
                self.execute_calls@.len() - old_execute_len),
                forall|i: int| 0 <= i < old_calls_len ==> #[trigger] self.calls@[i] == old(self).calls@[i],
                forall|i: int| old_calls_len <= i < self.calls@.len() ==> !(#[trigger] self.calls@[i].2 is Error),
                old(self).commands_to_prepare@.len() == 0 ==> self.prepare_calls@.len() == old_prepare_len,
                !iterated ==> {
                    &&& prepare_another_command
                    &&& self.prepare_calls@.len() == old_prepare_len
                    &&& self.execute_calls@.len() == old_execute_len
                    &&& (self.current_command is Some) == (old(self).current_command is Some)
                    &&& self.command_buffer@.len() == old(self).command_buffer@.len()
                    &&& self.commands_to_prepare@.len() == old(self).commands_to_prepare@.len()
                },
                iterated ==> (old(self).commands_to_prepare@.len() > 0 ==> self.prepare_calls@.len() > old_prepare_len),
                iterated ==> ({
                    let first_prepare_done = self.prepare_calls@.len() > old_prepare_len;
                    &&& !(first_prepare_done && self.prepare_calls@[old_prepare_len as int].1 is Error)
                    &&& (old(self).current_command is Some || old(self).command_buffer@.len() > 0 || (
                    first_prepare_done && self.prepare_calls@[old_prepare_len as int].1 is Finished))
                } ==> self.execute_calls@.len() > old_execute_len),
            decreases 2 * self.spec_pending_count() + self.spec_commands_to_prepare().len() + if prepare_another_command {
                1int
            } else {
                0
            },
        {
            let ghost prepared_one = self.commands_to_prepare@.len() > 0;
            if let Some(mut command) = self.commands_to_prepare.pop_front() {
                let ghost number = self.prepare_numbers@[0];
                let ghost calls = self.prepare_calls@;
                let ghost executed = self.execute_calls@;
                let ghost buffer_numbers = self.buffer_numbers@;
                let ghost next = self.added_count@ - self.prepare_numbers@.len();
                let ghost before_call = *self;
                let status = command.prepare(printer_components, self);
                assert(self.spec_ghost_unchanged(before_call));
                let ghost call = (number, status);
                self.prepare_calls = Ghost(self.prepare_calls@.push(call));
                let ghost all_calls = self.calls@;
                self.calls = Ghost(self.calls@.push((CallKind::Prepare, number, status)));
                proof {
                    lemma_calls_of_kind_push(all_calls, (CallKind::Prepare, number, status));
                    lemma_prepare_order_push(calls, call);
                    lemma_execute_order_more_prepared(executed, calls, call);
                    assert forall|i: int| 0 <= i < buffer_numbers.len() implies spec_prepared(
                        calls.push(call),
                        #[trigger] buffer_numbers[i],
                    ) by {
                        lemma_prepared_stays(calls, call, buffer_numbers[i]);
                    }
                    assert(self.prepare_calls@[calls.len() as int] == call);
                }
                match status {
                    Status::Working => {
                        self.commands_to_prepare.push_front(command);
                        prepare_another_command = false;
                    },
                    Status::Finished => {
                        let ghost numbered = self.spec_numbered_buffer();
                        self.buffer_in = Ghost(self.buffer_in@.push((number, command)));
                        self.command_buffer.push_back(command);
                        self.prepare_numbers = Ghost(self.prepare_numbers@.drop_first());
                        self.buffer_numbers = Ghost(self.buffer_numbers@.push(number));
                        assert(self.spec_numbered_buffer() =~= numbered.push((number, command)));
                        assert(spec_prepared(self.prepare_calls@, number));
                    },
                    Status::Error(error) => {
                        self.prepare_numbers = Ghost(self.prepare_numbers@.drop_first());
                        return Err(TickError::PreparingCommand { error });
                    },
                }
            }
            if self.current_command.is_none() {
                let ghost old_out = self.buffer_out@;
                let ghost numbered = self.spec_numbered_buffer();
                self.current_command = self.command_buffer.pop_front();
                if self.current_command.is_some() {
                    self.buffer_out = Ghost(
                        self.buffer_out@.push((self.buffer_numbers@[0], self.current_command->0)),
                    );
                    self.current_number = Ghost(self.buffer_numbers@[0]);
                    self.buffer_numbers = Ghost(self.buffer_numbers@.drop_first());
                    assert(self.spec_numbered_buffer() =~= numbered.drop_first());
                    assert(self.buffer_out@ + self.spec_numbered_buffer() =~= old_out + numbered) by {
                        assert(numbered[0] == (numbered[0].0, self.current_command->0));
                    }
                }
            }
            if let Some(mut command) = self.current_command.take() {
                let ghost number = self.current_number@;
                let ghost calls = self.execute_calls@;
                let ghost before_call = *self;
                let status = command.execute(printer_components, self);
                assert(self.spec_ghost_unchanged(before_call));
                let ghost call = (number, status);
                self.execute_calls = Ghost(self.execute_calls@.push(call));
                let ghost all_calls = self.calls@;
                self.calls = Ghost(self.calls@.push((CallKind::Execute, number, status)));
                proof {
                    lemma_calls_of_kind_push(all_calls, (CallKind::Execute, number, status));
                    lemma_execute_order_push(calls, call, self.prepare_calls@);
                    assert(self.execute_calls@[calls.len() as int] == call);
                }
                match status {
                    Status::Working => {
                        self.current_command = Some(command);
                        if self.commands_to_prepare.len() == 0 {
                            prepare_another_command = false;
                        }
                    },
                    Status::Finished => {
                        self.current_command_being_executed_index = self.current_command_being_executed_index + 1;
                    },
                    Status::Error(error) => return Err(TickError::ExecutingCommand { error }),
                }
            } else {
                assert(!prepared_one ==> false);
            }
            proof {
                iterated = true;
            }
        }
        Ok(())
    }

    /// Returns `true` if it is currently executing a command or it has at least 1 command in its
    /// command buffer. Otherwise returns `false`.
    pub fn has_command_to_execute(&self) -> (has_command: bool)
        ensures
            has_command == (self.spec_pending_count() > 0),
    {
        self.current_command.is_some() || self.command_buffer.len() != 0 || self.commands_to_prepare.len() != 0
    }

    /// The number of commands waiting in the executer (to be prepared or in the command buffer),
    /// as it is reported to the print process at each tick: truncated to 16 bits.
    pub fn commands_in_buffer_count(&self) -> (count: u16)
        ensures
            count == (self.spec_commands_to_prepare().len() + self.spec_command_buffer().len()) as u16,
    {
        let total: u128 = self.commands_to_prepare.len() as u128 + self.command_buffer.len() as u128;
        #[verifier::truncate]
        (total as u16)
    }

    /// Sets how the positions of the moves and of the extruder are interpreted.
    pub fn set_position_mode(&mut self, mode: PositionMode)
        ensures
            final(self).spec_position_mode() == mode,
            final(self).spec_extruder_position_mode() == mode,
            final(self).spec_commands_unchanged(*old(self)),
            final(self).spec_saved_positions() == old(self).spec_saved_positions(),
    {
        self.position_mode = mode;
        self.extruder_position_mode = mode;
    }

    /// Sets how the positions of the extruder are interpreted.
    pub fn set_extruder_position_mode(&mut self, mode: PositionMode)
        ensures
            final(self).spec_position_mode() == old(self).spec_position_mode(),
            final(self).spec_extruder_position_mode() == mode,
            final(self).spec_commands_unchanged(*old(self)),
            final(self).spec_saved_positions() == old(self).spec_saved_positions(),
    {
        self.extruder_position_mode = mode;
    }

    /// Adds the `command` after all the other commands.
    pub fn add_command_to_buffer(&mut self, command: C)
        ensures
            final(self).spec_commands_to_prepare() == old(self).spec_commands_to_prepare().push(command),
            final(self).spec_command_buffer() == old(self).spec_command_buffer(),
            final(self).spec_current_command() == old(self).spec_current_command(),
            final(self).spec_executed_count() == old(self).spec_executed_count(),
            final(self).spec_position_mode() == old(self).spec_position_mode(),
            final(self).spec_extruder_position_mode() == old(self).spec_extruder_position_mode(),
            final(self).spec_saved_positions() == old(self).spec_saved_positions(),
            final(self).spec_prepare_calls() == old(self).spec_prepare_calls(),
            final(self).spec_execute_calls() == old(self).spec_execute_calls(),
            final(self).spec_calls() == old(self).spec_calls(),
            final(self).spec_added_count() == old(self).spec_added_count() + 1,
            old(self).spec_well_formed() ==> final(self).spec_well_formed(),
    {
        self.commands_to_prepare.push_back(command);
        self.prepare_numbers = Ghost(self.prepare_numbers@.push(self.added_count@));
        self.added_count = Ghost(self.added_count@ + 1);
    }

    /// Adds the `commands`, in order, after all the other commands.
    pub fn add_commands_to_buffer(&mut self, commands: Vec<C>)
        ensures
            final(self).spec_commands_to_prepare() == old(self).spec_commands_to_prepare() + commands@,
            final(self).spec_command_buffer() == old(self).spec_command_buffer(),
            final(self).spec_current_command() == old(self).spec_current_command(),
            final(self).spec_executed_count() == old(self).spec_executed_count(),
            final(self).spec_position_mode() == old(self).spec_position_mode(),
            final(self).spec_extruder_position_mode() == old(self).spec_extruder_position_mode(),
            final(self).spec_saved_positions() == old(self).spec_saved_positions(),
            final(self).spec_prepare_calls() == old(self).spec_prepare_calls(),
            final(self).spec_execute_calls() == old(self).spec_execute_calls(),
            final(self).spec_calls() == old(self).spec_calls(),
            final(self).spec_added_count() == old(self).spec_added_count() + commands@.len(),
            old(self).spec_well_formed() ==> final(self).spec_well_formed(),
    {
        let ghost added = commands@;
        let mut commands = commands;
        let mut rest: Vec<C> = Vec::new();
        while commands.len() != 0
            invariant
                rest@ + commands@.reverse() == added.reverse(),
                self.commands_to_prepare@ == old(self).commands_to_prepare@,
                self.command_buffer@ == old(self).command_buffer@,
                self.current_command == old(self).current_command,
                self.current_command_being_executed_index == old(self).current_command_being_executed_index,
                self.position_mode == old(self).position_mode,
                self.extruder_position_mode == old(self).extruder_position_mode,
                self.saved_positions == old(self).saved_positions,
                self.prepare_numbers == old(self).prepare_numbers,
                self.buffer_numbers == old(self).buffer_numbers,
                self.current_number == old(self).current_number,
                self.added_count == old(self).added_count,
                self.prepare_calls == old(self).prepare_calls,
                self.execute_calls == old(self).execute_calls,
                self.calls == old(self).calls,
                self.buffer_in == old(self).buffer_in,
                self.buffer_out == old(self).buffer_out,
            decreases commands@.len(),
        {
            let ghost before = commands@;
            let command = commands.pop().unwrap();
            assert(before.reverse() =~= seq![command] + commands@.reverse());
            rest.push(command);
        }
        assert(rest@ =~= added.reverse());
        while rest.len() != 0
            invariant
                self.commands_to_prepare@ + rest@.reverse() == old(self).commands_to_prepare@ + added,
                self.command_buffer@ == old(self).command_buffer@,
                self.current_command == old(self).current_command,
                self.current_command_being_executed_index == old(self).current_command_being_executed_index,
                self.position_mode == old(self).position_mode,
                self.extruder_position_mode == old(self).extruder_position_mode,
                self.saved_positions == old(self).saved_positions,
                self.prepare_numbers == old(self).prepare_numbers,
                self.buffer_numbers == old(self).buffer_numbers,
                self.current_number == old(self).current_number,
                self.added_count == old(self).added_count,
                self.prepare_calls == old(self).prepare_calls,
                self.execute_calls == old(self).execute_calls,
                self.calls == old(self).calls,
                self.buffer_in == old(self).buffer_in,
                self.buffer_out == old(self).buffer_out,
            decreases rest@.len(),
        {
            let ghost before = rest@;
            let command = rest.pop().unwrap();
            assert(before.reverse() =~= seq![command] + rest@.reverse());
            self.commands_to_prepare.push_back(command);
        }
        assert(rest@.reverse() =~= Seq::<C>::empty());
        let ghost added_count = self.added_count@;
        self.prepare_numbers = Ghost(
            self.prepare_numbers@ + Seq::new(added.len(), |i: int| added_count + i),
        );
        self.added_count = Ghost(added_count + added.len());
    }

    /// Saves the provided `position` at the specified `slot`, so that you can later retrieve it using
    /// [`Self::get_saved_position`].
    ///
    /// Returns `Err(InvalidPositionSlot)` if `slot >= SAVED_POSITIONS_COUNT`.
    pub fn save_position(&mut self, position: Position, slot: usize) -> (result: Result<(), InvalidPositionSlot>)
        ensures
            final(self).spec_commands_unchanged(*old(self)),
            final(self).spec_position_mode() == old(self).spec_position_mode(),
            final(self).spec_extruder_position_mode() == old(self).spec_extruder_position_mode(),
            slot >= SAVED_POSITIONS_COUNT ==> {
                &&& result == Err::<(), InvalidPositionSlot>(InvalidPositionSlot)
                &&& final(self).spec_saved_positions() == old(self).spec_saved_positions()
            },
            slot < SAVED_POSITIONS_COUNT ==> {
                &&& result == Ok::<(), InvalidPositionSlot>(())
                &&& final(self).spec_saved_positions() == old(self).spec_saved_positions().update(slot as int, position)
            },
    {
        self.validate_position_slot(slot)?;
        self.saved_positions[slot] = position;
        Ok(())
    }

    /// Returns the position you provided to [`Self::save_position`] at the same slot as the one you
    /// provided here (or the default position if you never saved a position in that slot).
    ///
    /// Returns `Err(InvalidPositionSlot)` if `slot >= SAVED_POSITIONS_COUNT`.
    pub fn get_saved_position(&self, slot: usize) -> (result: Result<Position, InvalidPositionSlot>)
        ensures
            slot >= SAVED_POSITIONS_COUNT ==> result == Err::<Position, InvalidPositionSlot>(InvalidPositionSlot),
            slot < SAVED_POSITIONS_COUNT ==> result == Ok::<Position, InvalidPositionSlot>(
                self.spec_saved_positions()[slot as int],
            ),
    {
        self.validate_position_slot(slot)?;
        Ok(self.saved_positions[slot])
    }

    fn validate_position_slot(&self, slot: usize) -> (result: Result<(), InvalidPositionSlot>)
        ensures
            result == (if slot >= SAVED_POSITIONS_COUNT {
                Err::<(), InvalidPositionSlot>(InvalidPositionSlot)
            } else {
                Ok(())
            }),
    {
        if slot >= self.saved_positions.len() {
            Err(InvalidPositionSlot)
        } else {
            Ok(())
        }
    }
}

/// In `calls` of [`GCodeCommand::prepare`] made in order, a later call is never on an earlier
/// command, and it is on a later command when the earlier call finished or failed.
proof fn lemma_prepare_calls_advance(calls: Seq<(int, Status)>, i: int, j: int)
    requires
        spec_prepare_order(calls),
        0 <= i < j < calls.len(),
    ensures
        calls[i].0 <= calls[j].0,
        !(calls[i].1 is Working) ==> calls[i].0 < calls[j].0,
    decreases j - i,
{
    assert(spec_prepare_step(calls, j - 1));
    if j > i + 1 {
        lemma_prepare_calls_advance(calls, i, j - 1);
    }
}

/// In `calls` of [`GCodeCommand::prepare`] made in order, a command after the first one is
/// prepared only after the preparation of the command before it finished or failed.
proof fn lemma_previous_command_prepared(calls: Seq<(int, Status)>, j: int)
    requires
        spec_prepare_order(calls),
        0 <= j < calls.len(),
        calls[j].0 > 0,
    ensures
        exists|i: int| 0 <= i < j && #[trigger] calls[i].0 == calls[j].0 - 1 && !(calls[i].1 is Working),
    decreases j,
{
    assert(j > 0);
    assert(spec_prepare_step(calls, j - 1));
    if calls[j - 1].1 is Working {
        lemma_previous_command_prepared(calls, j - 1);
        let i = choose|i: int| 0 <= i < j - 1 && #[trigger] calls[i].0 == calls[j - 1].0 - 1 && !(calls[i].1 is Working);
        assert(calls[i].0 == calls[j].0 - 1);
    } else {
        assert(calls[j - 1].0 == calls[j].0 - 1);
    }
}

/// In `calls` of [`GCodeCommand::execute`] made in order, a later call is never on an earlier
/// command, and it is on a later command when the earlier call finished or failed.
proof fn lemma_execute_calls_advance(calls: Seq<(int, Status)>, prepare_calls: Seq<(int, Status)>, i: int, j: int)
    requires
        spec_execute_order(calls, prepare_calls),
        0 <= i < j < calls.len(),
    ensures
        calls[i].0 <= calls[j].0,
        !(calls[i].1 is Working) ==> calls[i].0 < calls[j].0,
    decreases j - i,
{
    assert(spec_execute_step(calls, j - 1));
    if j > i + 1 {
        lemma_execute_calls_advance(calls, prepare_calls, i, j - 1);
    }
}

/// The order of the calls that an executer makes on its commands, whatever it went through: the
/// commands are prepared one after the other in the order they were added, the first one first,
/// each only once the preparation of the one before finished or failed, and none is prepared again
/// once its preparation finished or failed; a command is executed only once it was successfully
/// prepared, the commands are executed in the order they were added, and none is executed again
/// once its execution finished or failed. The calls of both kinds, in the order they were made,
/// are [`GCodeExecuter::spec_calls`].
pub proof fn lemma_calls_are_ordered<C, Position>(executer: GCodeExecuter<C, Position>)
    requires
        executer.spec_well_formed(),
    ensures
        ({
            let prepare = executer.spec_prepare_calls();
            let execute = executer.spec_execute_calls();
            &&& spec_calls_of_kind(executer.spec_calls(), CallKind::Prepare) == prepare
            &&& spec_calls_of_kind(executer.spec_calls(), CallKind::Execute) == execute
            &&& prepare.len() > 0 ==> prepare[0].0 == 0
            &&& forall|i: int, j: int| 0 <= i < j < prepare.len() ==> #[trigger] prepare[i].0 <= #[trigger] prepare[j].0
            &&& forall|i: int, j: int| 0 <= i < j < prepare.len() && !(prepare[i].1 is Working)
                ==> #[trigger] prepare[i].0 < #[trigger] prepare[j].0
            &&& forall|j: int| 0 <= j < prepare.len() && #[trigger] prepare[j].0 > 0
                ==> exists|i: int| 0 <= i < j && #[trigger] prepare[i].0 == prepare[j].0 - 1 && !(prepare[i].1 is Working)
            &&& forall|j: int| 0 <= j < execute.len() ==> spec_prepared(prepare, #[trigger] execute[j].0)
            &&& forall|i: int, j: int| 0 <= i < j < execute.len() ==> #[trigger] execute[i].0 <= #[trigger] execute[j].0
            &&& forall|i: int, j: int| 0 <= i < j < execute.len() && !(execute[i].1 is Working)
                ==> #[trigger] execute[i].0 < #[trigger] execute[j].0
        }),
{
    let prepare = executer.spec_prepare_calls();
    let execute = executer.spec_execute_calls();
    assert forall|i: int, j: int| 0 <= i < j < prepare.len() implies #[trigger] prepare[i].0 <= #[trigger] prepare[j].0
        && (!(prepare[i].1 is Working) ==> prepare[i].0 < prepare[j].0) by {
        lemma_prepare_calls_advance(prepare, i, j);
    }
    assert forall|j: int| 0 <= j < prepare.len() && #[trigger] prepare[j].0 > 0 implies exists|i: int|
        0 <= i < j && #[trigger] prepare[i].0 == prepare[j].0 - 1 && !(prepare[i].1 is Working) by {
        lemma_previous_command_prepared(prepare, j);
    }
    assert forall|i: int, j: int| 0 <= i < j < execute.len() implies #[trigger] execute[i].0 <= #[trigger] execute[j].0
        && (!(execute[i].1 is Working) ==> execute[i].0 < execute[j].0) by {
        lemma_execute_calls_advance(execute, prepare, i, j);
    }
}

/// A saved position is read back: after saving `position` at a valid `slot`, reading that slot
/// gives `position`, and the other slots keep their positions.
pub proof fn lemma_saved_position_is_read_back<Position>(
    saved: Seq<Position>,
    slot: int,
    position: Position,
    other_slot: int,
)
    requires
        0 <= slot < saved.len(),
        0 <= other_slot < saved.len(),
        other_slot != slot,
    ensures
        saved.update(slot, position)[slot] == position,
        saved.update(slot, position)[other_slot] == saved[other_slot],
{
}

} // verus!
