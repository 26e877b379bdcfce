//! The console of the hypervisor.

use crate::vm_list::VmList;
use vstd::prelude::*;

verus! {

pub struct Console {
    pub buffer: [u8; 64],
    pub buffer_pointer: usize,
    pub ignore_lf: bool,
}

/// What a line of input asks for.
pub enum Command {
    /// The line is empty.
    Empty,
    /// The line is not text.
    NotText,
    /// There is no command of this name.
    Unknown(Vec<u8>),
    Boot,
    /// The argument, if there is one.
    Switch(Option<Vec<u8>>),
    Spawn,
    /// The text that is put out.
    Echo(Vec<u8>),
    PowerOff,
    Stat,
}

/// What a byte of input asks for.
pub enum ConsoleInput {
    Ignored,
    /// The byte is shown.
    Shown(u8),
    /// The line is over.
    Line(Command),
}

/// A line of input.
#[verifier::ext_equal]
pub struct Line {
    pub text: Seq<u8>,
    pub ignore_lf: bool,
}

pub const PROMPT: [u8; 8] = [0x43, 0x6F, 0x6D, 0x6D, 0x61, 0x6E, 0x64, 0x3E];

/// The words, each with a space behind it, and the end of the line.
pub open spec fn echoed(words: Seq<Seq<u8>>) -> Seq<u8> {
    spaced(words) + seq![0x0Au8]
}

/// The words, each with a space behind it.
pub open spec fn spaced(words: Seq<Seq<u8>>) -> Seq<u8>
    decreases words.len(),
{
    if words.len() == 0 {
        Seq::empty()
    } else {
        spaced(words.drop_last()) + words.last() + seq![0x20u8]
    }
}

/// The names of the commands.
pub open spec fn boot_name() -> Seq<u8> {
    seq![0x62u8, 0x6F, 0x6F, 0x74]
}

pub open spec fn switch_name() -> Seq<u8> {
    seq![0x73u8, 0x77, 0x69, 0x74, 0x63, 0x68]
}

pub open spec fn spawn_name() -> Seq<u8> {
    seq![0x73u8, 0x70, 0x61, 0x77, 0x6E]
}

pub open spec fn echo_name() -> Seq<u8> {
    seq![0x65u8, 0x63, 0x68, 0x6F]
}

pub open spec fn power_off_name() -> Seq<u8> {
    seq![0x70u8, 0x6F, 0x77, 0x65, 0x72, 0x6F, 0x66, 0x66]
}

pub open spec fn stat_name() -> Seq<u8> {
    seq![0x73u8, 0x74, 0x61, 0x74]
}

/// The command is what the line asks for.
pub open spec fn is_command_of(command: Command, line: Seq<u8>) -> bool {
    let words = crate::text::words_of(line);
    if line.len() == 0 {
        command is Empty
    } else if !vstd::utf8::valid_utf8(line) {
        command is NotText
    } else if words.len() == 0 {
        command is Empty
    } else if words[0] == boot_name() {
        command is Boot
    } else if words[0] == switch_name() {
        &&& command matches Command::Switch(argument)
        &&& match argument {
            Some(word) => words.len() > 1 && word@ == words[1],
            None => words.len() == 1,
        }
    } else if words[0] == spawn_name() {
        command is Spawn
    } else if words[0] == echo_name() {
        command matches Command::Echo(text) && text@ == echoed(words.skip(1))
    } else if words[0] == power_off_name() {
        command is PowerOff
    } else if words[0] == stat_name() {
        command is Stat
    } else {
        command matches Command::Unknown(name) && name@ == words[0]
    }
}

/// A byte that is no character to be shown.
pub open spec fn is_control(data: u8) -> bool {
    data < 0x20 || data == 0x7F
}

/// The byte ends the line.
pub open spec fn ends_line(line: Line, data: u8) -> bool {
    data == 0x0D || (data == 0x0A && !line.ignore_lf)
}

/// The line once a byte was typed. What is no character, or does not fit, is dropped.
pub open spec fn typed(line: Line, data: u8) -> Line {
    if ends_line(line, data) {
        Line { ignore_lf: data == 0x0D, ..line }
    } else if is_control(data) || line.text.len() == 64 {
        line
    } else {
        Line { text: line.text.push(data), ..line }
    }
}

/// The line once all the bytes were typed.
pub open spec fn all_typed(line: Line, bytes: Seq<u8>) -> Line
    decreases bytes.len(),
{
    if bytes.len() == 0 {
        line
    } else {
        typed(all_typed(line, bytes.drop_last()), bytes.last())
    }
}

fn same_bytes(word: &Vec<u8>, name: &[u8]) -> (same: bool)
    ensures
        same == (word@ == name@),
{
    if word.len() != name.len() {
        return false;
    }
    let mut i: usize = 0;
    while i < name.len()
        invariant
            i <= name@.len(),
            word@.len() == name@.len(),
            forall|k: int| 0 <= k < i ==> #[trigger] word@[k] == name@[k],
        decreases name@.len() - i,
    {
        if word[i] != name[i] {
            assert(word@[i as int] != name@[i as int]);
            return false;
        }
        i = i + 1;
    }
    assert(word@ =~= name@);
    true
}

fn copy_of(word: &Vec<u8>) -> (copy: Vec<u8>)
    ensures
        copy@ == word@,
{
    let mut copy: Vec<u8> = Vec::new();
    let mut i: usize = 0;
    while i < word.len()
        invariant
            i <= word@.len(),
            copy@ == word@.take(i as int),
        decreases word@.len() - i,
    {
        copy.push(word[i]);
        i = i + 1;
        assert(copy@ =~= word@.take(i as int));
    }
    assert(word@.take(i as int) =~= word@);
    copy
}

impl Console {
    pub const BUFFER_SIZE: usize = 64;

    pub open spec fn wf(&self) -> bool {
        self.buffer_pointer <= 64
    }

    pub open spec fn view(&self) -> Line {
        Line {
            text: self.buffer@.take(self.buffer_pointer as int),
            ignore_lf: self.ignore_lf,
        }
    }

    pub fn new() -> (console: Self)
        ensures
            console.wf(),
            console@ == (Line { text: Seq::empty(), ignore_lf: false }),
            console.buffer_pointer == 0,
            console.buffer@ == Seq::new(64, |i: int| 0u8),
    {
        let console = Self { buffer: [0; 64], buffer_pointer: 0, ignore_lf: false };
        assert(console@.text =~= Seq::empty());
        console
    }

    /// Takes a byte of input.
    pub fn write(&mut self, data: u8) -> (input: ConsoleInput)
        requires
            old(self).wf(),
        ensures
            final(self).wf(),
            final(self)@ == typed(old(self)@, data),
            if ends_line(old(self)@, data) {
                input matches ConsoleInput::Line(command) && is_command_of(
                    command,
                    old(self)@.text,
                )
            } else if is_control(data) || old(self)@.text.len() == 64 {
                input is Ignored
            } else {
                input matches ConsoleInput::Shown(shown) && shown == data
            },
    {
        if data == 0x0D || (data == 0x0A && !self.ignore_lf) {
            self.ignore_lf = data == 0x0D;
            return ConsoleInput::Line(self.exec_command());
        }
        if data < 0x20 || data == 0x7F || self.buffer_pointer == Self::BUFFER_SIZE {
            return ConsoleInput::Ignored;
        }
        self.buffer[self.buffer_pointer] = data;
        self.buffer_pointer = self.buffer_pointer + 1;
        assert(self@.text =~= old(self)@.text.push(data));
        ConsoleInput::Shown(data)
    }

    /// What the line asks for. The line stays, until [`reset_buffer`](Self::reset_buffer).
    pub fn exec_command(&self) -> (command: Command)
        requires
            self.wf(),
        ensures
            is_command_of(command, self@.text),
    {
        if self.buffer_pointer == 0 {
            return Command::Empty;
        }
        let mut line: Vec<u8> = Vec::new();
        let mut i: usize = 0;
        while i < self.buffer_pointer
            invariant
                i <= self.buffer_pointer <= 64,
                line@ == self.buffer@.take(i as int),
            decreases self.buffer_pointer - i,
        {
            line.push(self.buffer[i]);
            i = i + 1;
            assert(line@ =~= self.buffer@.take(i as int));
        }
        if !crate::text::is_valid_utf8(line.as_slice()) {
            return Command::NotText;
        }
        let words: Vec<Vec<u8>> = crate::text::split_whitespace(line.as_slice());
        let ghost all = crate::text::words_of(line@);
        assert(all.len() == words@.len());
        if words.len() == 0 {
            return Command::Empty;
        }
        assert(crate::text::views(words@)[0] == words@[0]@);
        Self::command_of(&words)
    }

    fn command_of(words: &Vec<Vec<u8>>) -> (command: Command)
        requires
            words@.len() > 0,
        ensures
            ({
                let all = crate::text::views(words@);
                if all[0] == boot_name() {
                    command is Boot
                } else if all[0] == switch_name() {
                    &&& command matches Command::Switch(argument)
                    &&& match argument {
                        Some(word) => all.len() > 1 && word@ == all[1],
                        None => all.len() == 1,
                    }
                } else if all[0] == spawn_name() {
                    command is Spawn
                } else if all[0] == echo_name() {
                    command matches Command::Echo(text) && text@ == echoed(all.skip(1))
                } else if all[0] == power_off_name() {
                    command is PowerOff
                } else if all[0] == stat_name() {
                    command is Stat
                } else {
                    command matches Command::Unknown(name) && name@ == all[0]
                }
            }),
    {
        let boot: [u8; 4] = [0x62, 0x6F, 0x6F, 0x74];
        let switch: [u8; 6] = [0x73, 0x77, 0x69, 0x74, 0x63, 0x68];
        let spawn: [u8; 5] = [0x73, 0x70, 0x61, 0x77, 0x6E];
        let echo: [u8; 4] = [0x65, 0x63, 0x68, 0x6F];
        let power_off: [u8; 8] = [0x70, 0x6F, 0x77, 0x65, 0x72, 0x6F, 0x66, 0x66];
        let stat: [u8; 4] = [0x73, 0x74, 0x61, 0x74];
        assert(boot@ =~= boot_name());
        assert(switch@ =~= switch_name());
        assert(spawn@ =~= spawn_name());
        assert(echo@ =~= echo_name());
        assert(power_off@ =~= power_off_name());
        assert(stat@ =~= stat_name());
        let name: &Vec<u8> = &words[0];
        if same_bytes(name, &boot) {
            Command::Boot
        } else if same_bytes(name, &switch) {
            if words.len() > 1 {
                Command::Switch(Some(copy_of(&words[1])))
            } else {
                Command::Switch(None)
            }
        } else if same_bytes(name, &spawn) {
            Command::Spawn
        } else if same_bytes(name, &echo) {
            Command::Echo(Self::echo(words))
        } else if same_bytes(name, &power_off) {
            Command::PowerOff
        } else if same_bytes(name, &stat) {
            Command::Stat
        } else {
            Command::Unknown(copy_of(name))
        }
    }

    /// Empties the line, and gives the prompt.
    pub fn reset_buffer(&mut self) -> (prompt: [u8; 8])
        ensures
            final(self).wf(),
            final(self)@ == (Line { text: Seq::empty(), ..old(self)@ }),
            prompt == PROMPT,
    {
        self.buffer_pointer = 0;
        assert(self@.text =~= Seq::empty());
        PROMPT
    }

    /// Ends a command. Where the console stays active, the line is emptied and the prompt comes
    /// again; otherwise the console is deactivated.
    pub fn end_command(&mut self, stays: bool, is_active: &mut bool) -> (prompt: Option<[u8; 8]>)
        requires
            old(self).wf(),
        ensures
            final(self).wf(),
            final(self)@ == if stays {
                Line { text: Seq::empty(), ..old(self)@ }
            } else {
                old(self)@
            },
            *final(is_active) == if stays {
                *old(is_active)
            } else {
                !*old(is_active)
            },
            prompt == if stays {
                Some(PROMPT)
            } else {
                None
            },
    {
        if stays {
            Some(self.reset_buffer())
        } else {
            *is_active = !*is_active;
            None
        }
    }

    /// What the words behind the name of the command are put out as.
    pub fn echo(words: &Vec<Vec<u8>>) -> (text: Vec<u8>)
        requires
            words@.len() > 0,
        ensures
            text@ == echoed(crate::text::views(words@).skip(1)),
    {
        let ghost arguments = crate::text::views(words@).skip(1);
        let mut text: Vec<u8> = Vec::new();
        let mut i: usize = 1;
        assert(arguments.take(0) =~= Seq::empty());
        while i < words.len()
            invariant
                1 <= i <= words@.len(),
                arguments == crate::text::views(words@).skip(1),
                text@ == spaced(arguments.take(i - 1)),
            decreases words@.len() - i,
        {
            let ghost before = text@;
            let ghost word = words@[i as int]@;
            let mut k: usize = 0;
            while k < words[i].len()
                invariant
                    1 <= i < words@.len(),
                    word == words@[i as int]@,
                    k <= word.len(),
                    text@ == before + word.take(k as int),
                decreases word.len() - k,
            {
                text.push(words[i][k]);
                k = k + 1;
                assert(text@ =~= before + word.take(k as int));
            }
            assert(word.take(k as int) =~= word);
            text.push(0x20);
            assert(arguments.take(i as int).drop_last() =~= arguments.take(i - 1));
            assert(arguments.take(i as int).last() == word);
            assert(text@ =~= before + word + seq![0x20u8]);
            i = i + 1;
        }
        assert(arguments.take(i - 1) =~= arguments);
        text.push(0x0A);
        assert(text@ =~= echoed(arguments));
        text
    }

    /// Whether the console stays active after a VM was to be booted: a new VM gets the input.
    pub fn boot_vm(launched: bool) -> (stays: bool)
        ensures
            stays == !launched,
    {
        !launched
    }

    /// The console stays active after a vCPU was queued.
    pub fn spawn_vm() -> (stays: bool)
        ensures
            stays,
    {
        true
    }

    /// Switches the input to the VM that the argument names.
    pub fn switch_vm(list: &mut VmList, argument: Option<&[u8]>) -> (outcome: SwitchOutcome)
        requires
            old(list).wf(),
        ensures
            final(list).wf(),
            match argument {
                None => outcome == SwitchOutcome::MissingId && *final(list) == *old(list),
                Some(word) => match crate::text::usize_of(word@) {
                    None => outcome == SwitchOutcome::NotANumber && *final(list) == *old(list),
                    Some(vm_id) => match old(list).place_of(vm_id) {
                        Some(i) => {
                            &&& outcome == SwitchOutcome::Switched(vm_id as usize)
                            &&& *final(list) == (VmList {
                                active: Some(i as usize),
                                ..*old(list)
                            })
                        },
                        None => {
                            &&& outcome == SwitchOutcome::NotAvailable(vm_id as usize)
                            &&& *final(list) == *old(list)
                        },
                    },
                },
            },
    {
        let word: &[u8] = match argument {
            Some(word) => word,
            None => {
                return SwitchOutcome::MissingId;
            },
        };
        let vm_id: usize = match crate::text::str_to_usize(word) {
            Some(vm_id) => vm_id,
            None => {
                return SwitchOutcome::NotANumber;
            },
        };
        if crate::vm_list::switch_active_vm(list, vm_id) {
            SwitchOutcome::Switched(vm_id)
        } else {
            SwitchOutcome::NotAvailable(vm_id)
        }
    }

    /// How the counters are shown, where the timer counts at `frequency`.
    pub fn stat(frequency: u64, counters: &IoCounters) -> (report: IoReport)
        requires
            frequency >= 1000,
        ensures
            report == (IoReport {
                blk_total_ms: milliseconds(counters.blk_cycles_total, frequency),
                blk_max_ms: milliseconds(counters.blk_cycles_max, frequency),
                phys_total_ms: milliseconds(counters.phys_cycles_total, frequency),
                phys_max_ms: milliseconds(counters.phys_cycles_max, frequency),
                uart_total_ms: milliseconds(counters.uart_cycles, frequency),
                uart_average_us: average_us(counters.uart_cycles, counters.uart_writes, frequency),
                putc_total_ms: milliseconds(counters.putc_cycles, frequency),
                putc_average_us: average_us(counters.putc_cycles, counters.putc_count, frequency),
                console_average_bytes: if counters.console_buffers > 0 {
                    counters.console_bytes / counters.console_buffers
                } else {
                    0
                },
            }),
    {
        let per_ms: u64 = frequency / 1000;
        IoReport {
            blk_total_ms: counters.blk_cycles_total / per_ms,
            blk_max_ms: counters.blk_cycles_max / per_ms,
            phys_total_ms: counters.phys_cycles_total / per_ms,
            phys_max_ms: counters.phys_cycles_max / per_ms,
            uart_total_ms: counters.uart_cycles / per_ms,
            uart_average_us: Self::average(counters.uart_cycles, counters.uart_writes, frequency),
            putc_total_ms: counters.putc_cycles / per_ms,
            putc_average_us: Self::average(counters.putc_cycles, counters.putc_count, frequency),
            console_average_bytes: if counters.console_buffers > 0 {
                counters.console_bytes / counters.console_buffers
            } else {
                0
            },
        }
    }

    fn average(cycles: u64, count: u64, frequency: u64) -> (us: u64)
        requires
            frequency >= 1000,
        ensures
            us == average_us(cycles, count, frequency),
    {
        if count == 0 {
            return 0;
        }
        let total: u128 = (cycles as u128) * 1_000_000;
        (total / (count as u128) / (frequency as u128)) as u64
    }
}

/// Ctrl + S.
pub const CONSOLE_SWITCH_KEY: u8 = 0x13;

/// What becomes of a byte from the UART.
pub enum InputAction {
    /// There is no further byte.
    End,
    /// The console was deactivated: the prompt is overwritten.
    Deactivated,
    /// The console was activated: the prompt is shown.
    Activated([u8; 8]),
    /// The console takes it.
    Console(ConsoleInput),
    /// The active VM takes it.
    Guest(u8),
}

/// Directs a byte from the UART to the console or the active VM. The switch key goes from one to the
/// other. A zero byte stands for none.
pub fn handle_input(c: u8, is_active: &mut bool, console: &mut Console) -> (action: InputAction)
    requires
        old(console).wf(),
    ensures
        final(console).wf(),
        if c == 0 {
            &&& action is End
            &&& *final(is_active) == *old(is_active)
            &&& final(console)@ == old(console)@
        } else if c == CONSOLE_SWITCH_KEY {
            &&& *final(is_active) == !*old(is_active)
            &&& if *old(is_active) {
                action is Deactivated && final(console)@ == old(console)@
            } else {
                &&& action matches InputAction::Activated(prompt) && prompt == PROMPT
                &&& final(console)@ == (Line { text: Seq::empty(), ..old(console)@ })
            }
        } else if *old(is_active) {
            &&& *final(is_active)
            &&& final(console)@ == typed(old(console)@, c)
            &&& action matches InputAction::Console(input)
            &&& if ends_line(old(console)@, c) {
                input matches ConsoleInput::Line(command) && is_command_of(
                    command,
                    old(console)@.text,
                )
            } else if is_control(c) || old(console)@.text.len() == 64 {
                input is Ignored
            } else {
                input matches ConsoleInput::Shown(shown) && shown == c
            }
        } else {
            &&& action matches InputAction::Guest(byte) && byte == c
            &&& !*final(is_active)
            &&& final(console)@ == old(console)@
        },
{
    if c == 0 {
        return InputAction::End;
    }
    if c == CONSOLE_SWITCH_KEY {
        let was_active: bool = *is_active;
        *is_active = !was_active;
        return if was_active {
            InputAction::Deactivated
        } else {
            InputAction::Activated(console.reset_buffer())
        };
    }
    if *is_active {
        InputAction::Console(console.write(c))
    } else {
        InputAction::Guest(c)
    }
}

/// What came of a `switch` command.
#[derive(Clone, Copy, PartialEq, Eq, Debug, Structural)]
pub enum SwitchOutcome {
    MissingId,
    NotANumber,
    /// The VM is active. The console is not active any more.
    Switched(usize),
    NotAvailable(usize),
}

/// What the hypervisor has counted.
#[derive(Clone, Copy, PartialEq, Eq, Debug, Structural)]
pub struct IoCounters {
    pub blk_cycles_total: u64,
    pub blk_cycles_max: u64,
    pub phys_cycles_total: u64,
    pub phys_cycles_max: u64,
    pub uart_writes: u64,
    pub uart_cycles: u64,
    pub putc_count: u64,
    pub putc_cycles: u64,
    pub console_buffers: u64,
    pub console_bytes: u64,
}

/// How the counters are shown.
#[derive(Clone, Copy, PartialEq, Eq, Debug, Structural)]
pub struct IoReport {
    pub blk_total_ms: u64,
    pub blk_max_ms: u64,
    pub phys_total_ms: u64,
    pub phys_max_ms: u64,
    pub uart_total_ms: u64,
    pub uart_average_us: u64,
    pub putc_total_ms: u64,
    pub putc_average_us: u64,
    pub console_average_bytes: u64,
}

/// How many milliseconds the cycles take.
pub open spec fn milliseconds(cycles: u64, frequency: u64) -> u64 {
    cycles / (frequency / 1000)
}

/// How many microseconds one of `count` operations takes on average.
pub open spec fn average_us(cycles: u64, count: u64, frequency: u64) -> u64 {
    if count > 0 {
        (cycles * 1_000_000 / count as int / frequency as int) as u64
    } else {
        0
    }
}

/// What is typed is the line, in the order in which it is typed, as long as it fits.
pub proof fn typed_text_is_the_line(line: Line, bytes: Seq<u8>)
    requires
        line.text.len() + bytes.len() <= 64,
        forall|i: int| 0 <= i < bytes.len() ==> !is_control(#[trigger] bytes[i]),
    ensures
        all_typed(line, bytes) == (Line { text: line.text + bytes, ..line }),
    decreases bytes.len(),
{
    if bytes.len() == 0 {
        assert(line.text + bytes =~= line.text);
    } else {
        let last = bytes.last();
        assert(!is_control(bytes[bytes.len() - 1]));
        typed_text_is_the_line(line, bytes.drop_last());
        assert((line.text + bytes.drop_last()).push(last) =~= line.text + bytes);
    }
}

/// However much is typed, the line fits the buffer.
pub proof fn line_fits_the_buffer(line: Line, bytes: Seq<u8>)
    requires
        line.text.len() <= 64,
    ensures
        all_typed(line, bytes).text.len() <= 64,
    decreases bytes.len(),
{
    if bytes.len() > 0 {
        line_fits_the_buffer(line, bytes.drop_last());
    }
}

} // verus!
