//! What is typed, what is printed, and what the boot loader says.

use crate::bits::le_number;
use crate::boot::{
    entry_main, init_fat32, is_spin_table_enable_method, read_cpu_release_address, PartitionError,
};
use crate::console::{
    handle_input, Command, Console, ConsoleInput, InputAction, IoCounters, IoReport, SwitchOutcome,
};
use crate::text::{
    digit_of, is_valid_utf8, number_of, print_bytes, split_from, split_whitespace, str_to_usize,
    usize_of, views, with_word,
};
use crate::vm_list::{switch_active_vm, VmList};
use vstd::prelude::*;

verus! {

/// "Command>".
pub open spec fn is_prompt(prompt: [u8; 8]) -> bool {
    &&& prompt[0] == 0x43 && prompt[1] == 0x6F && prompt[2] == 0x6D && prompt[3] == 0x6D
    &&& prompt[4] == 0x61 && prompt[5] == 0x6E && prompt[6] == 0x64 && prompt[7] == 0x3E
}

/// Ctrl + S goes from the guest to the console, with an empty line and the prompt, and back. What else is
/// typed goes to the console while it is active and to the guest otherwise.
pub proof fn input_goes_to_the_console_or_the_guest(
    c: u8,
    is_active: &mut bool,
    console: &mut Console,
    action: InputAction,
    other: &mut Console,
    taken: ConsoleInput,
)
    requires
        old(console).wf(),
        *old(other) == *old(console),
        call_ensures(handle_input, (c, is_active, console), action),
        call_ensures(Console::write, (other, c), taken),
    ensures
        c == 0 ==> action is End && *final(is_active) == *old(is_active),
        c == 0x13 ==> *final(is_active) == !*old(is_active),
        c == 0x13 && *old(is_active) ==> action is Deactivated,
        c == 0x13 && !*old(is_active) ==> (action matches InputAction::Activated(prompt) && is_prompt(
            prompt,
        ) && final(console).buffer_pointer == 0),
        c != 0 && c != 0x13 ==> *final(is_active) == *old(is_active),
        c != 0 && c != 0x13 && !*old(is_active) ==> (action matches InputAction::Guest(byte) && byte
            == c && final(console)@ == old(console)@),
        c != 0 && c != 0x13 && *old(is_active) ==> {
            &&& action matches InputAction::Console(input)
            &&& input is Shown == taken is Shown
            &&& input is Ignored == taken is Ignored
            &&& input matches ConsoleInput::Shown(byte) ==> byte == c
            &&& final(console)@ == final(other)@
        },
{
    if c == 0x13 && !*old(is_active) {
        assert(final(console)@.text.len() == 0);
    }
}

/// A printable byte is put behind the line and shown, as long as there is room for 64 bytes. A carriage
/// return ends the line, and so does a line feed, unless it follows the carriage return of the line before.
pub proof fn typed_byte_is_put_behind_the_line(console: &mut Console, data: u8, input: ConsoleInput)
    requires
        old(console).wf(),
        call_ensures(Console::write, (console, data), input),
    ensures
        ({
            let length = old(console).buffer_pointer as int;
            let ends = data == 13 || (data == 10 && !old(console).ignore_lf);
            let fits = 32 <= data && data != 127 && length < 64;
            &&& input is Line <==> ends
            &&& input is Shown <==> !ends && fits
            &&& input matches ConsoleInput::Shown(byte) ==> {
                &&& byte == data
                &&& final(console).buffer_pointer == length + 1
                &&& final(console).buffer@[length] == data
            }
            &&& input !is Shown ==> final(console).buffer_pointer == length
            &&& forall|i: int|
                0 <= i < length ==> #[trigger] final(console).buffer@[i] == old(console).buffer@[i]
            &&& final(console).ignore_lf == if ends {
                data == 13
            } else {
                old(console).ignore_lf
            }
        }),
{
    let before = old(console)@.text;
    let after = final(console)@.text;
    let length = old(console).buffer_pointer as int;
    assert(before.len() == length);
    assert(after.len() == final(console).buffer_pointer);
    assert forall|i: int| 0 <= i < length implies #[trigger] final(console).buffer@[i] == old(
        console,
    ).buffer@[i] by {
        assert(after[i] == before[i]);
    }
    if input is Shown {
        assert(after[length] == data);
    }
}

/// The first word of a line names the command: boot, switch, spawn, echo, poweroff or stat. The argument of
/// a switch is the second word. A line without a word is empty.
pub proof fn first_word_names_the_command(
    console: &Console,
    line: &[u8],
    valid: bool,
    words: Vec<Vec<u8>>,
    command: Command,
)
    requires
        console.wf(),
        line@ == console.buffer@.take(console.buffer_pointer as int),
        call_ensures(is_valid_utf8, (line,), valid),
        call_ensures(split_whitespace, (line,), words),
        call_ensures(Console::exec_command, (console,), command),
    ensures
        line@.len() == 0 ==> command is Empty,
        line@.len() > 0 && !valid ==> command is NotText,
        line@.len() > 0 && valid && words@.len() == 0 ==> command is Empty,
        line@.len() > 0 && valid && words@.len() > 0 ==> {
            let name = words@[0]@;
            let is_boot = name == seq![0x62u8, 0x6F, 0x6F, 0x74];
            let is_switch = name == seq![0x73u8, 0x77, 0x69, 0x74, 0x63, 0x68];
            let is_spawn = name == seq![0x73u8, 0x70, 0x61, 0x77, 0x6E];
            let is_echo = name == seq![0x65u8, 0x63, 0x68, 0x6F];
            let is_power_off = name == seq![0x70u8, 0x6F, 0x77, 0x65, 0x72, 0x6F, 0x66, 0x66];
            let is_stat = name == seq![0x73u8, 0x74, 0x61, 0x74];
            &&& is_boot ==> command is Boot
            &&& is_switch ==> command is Switch
            &&& is_spawn ==> command is Spawn
            &&& is_echo ==> command is Echo
            &&& is_power_off ==> command is PowerOff
            &&& is_stat ==> command is Stat
            &&& !is_boot && !is_switch && !is_spawn && !is_echo && !is_power_off && !is_stat ==> (
            command matches Command::Unknown(unknown) && unknown@ == name)
            &&& command matches Command::Switch(Some(argument)) ==> words@.len() > 1 && argument@
                == words@[1]@
            &&& command matches Command::Switch(None) ==> words@.len() == 1
        },
{
    let all = views(words@);
    assert(all.len() == words@.len());
    if words@.len() > 0 {
        let name = words@[0]@;
        assert(all[0] == name);
        let b = seq![0x62u8, 0x6F, 0x6F, 0x74];
        let w = seq![0x73u8, 0x77, 0x69, 0x74, 0x63, 0x68];
        let p = seq![0x73u8, 0x70, 0x61, 0x77, 0x6E];
        let e = seq![0x65u8, 0x63, 0x68, 0x6F];
        let o = seq![0x70u8, 0x6F, 0x77, 0x65, 0x72, 0x6F, 0x66, 0x66];
        let s = seq![0x73u8, 0x74, 0x61, 0x74];
        assert(b.len() == 4 && e.len() == 4 && s.len() == 4);
        assert(w.len() == 6 && p.len() == 5 && o.len() == 8);
        assert(b[0] == 0x62 && e[0] == 0x65 && s[0] == 0x73);
        if words@.len() > 1 {
            assert(all[1] == words@[1]@);
        }
    }
}

/// The echo is every word behind the first with a space behind it, and the end of the line.
pub proof fn echo_gives_its_words_back(
    words: &Vec<Vec<u8>>,
    text: Vec<u8>,
    longer: &Vec<Vec<u8>>,
    longer_text: Vec<u8>,
)
    requires
        words@.len() > 0,
        longer@.len() == words@.len() + 1,
        longer@.take(words@.len() as int) == words@,
        call_ensures(Console::echo, (words,), text),
        call_ensures(Console::echo, (longer,), longer_text),
    ensures
        words@.len() == 1 ==> text@ == seq![0x0Au8],
        longer_text@ == text@.drop_last() + longer@.last()@ + seq![0x20u8, 0x0A],
{
    let few = views(words@).skip(1);
    let many = views(longer@).skip(1);
    assert(many.drop_last() =~= few) by {
        assert forall|i: int| 0 <= i < few.len() implies many[i] == few[i] by {
            assert(longer@.take(words@.len() as int)[i + 1] == longer@[i + 1]);
        }
    }
    assert(many.last() == longer@.last()@);
    assert(text@.drop_last() =~= crate::console::spaced(few));
    assert(longer_text@ =~= text@.drop_last() + longer@.last()@ + seq![0x20u8, 0x0A]);
    if words@.len() == 1 {
        assert(text@ =~= seq![0x0Au8]);
    }
}

/// After a command the console stays with an empty line and the prompt, or gives the input up. It stays
/// unless a VM was launched.
pub proof fn console_stays_after_its_command(
    console: &mut Console,
    stays: bool,
    is_active: &mut bool,
    prompt: Option<[u8; 8]>,
    launched: bool,
    after_boot: bool,
    after_spawn: bool,
)
    requires
        old(console).wf(),
        call_ensures(Console::end_command, (console, stays, is_active), prompt),
        call_ensures(Console::boot_vm, (launched,), after_boot),
        call_ensures(Console::spawn_vm, (), after_spawn),
    ensures
        stays ==> (prompt matches Some(p) && is_prompt(p)) && final(console).buffer_pointer == 0
            && *final(is_active) == *old(is_active),
        !stays ==> prompt is None && *final(is_active) == !*old(is_active),
        after_boot == !launched,
        after_spawn,
{
    assert(final(console)@.text.len() == final(console).buffer_pointer);
}

/// The switch goes to the VM whose number the argument is.
pub proof fn switch_takes_the_number(
    list: &mut VmList,
    word: &[u8],
    outcome: SwitchOutcome,
    number: Option<usize>,
    other: &mut VmList,
    switched: bool,
    unnamed_list: &mut VmList,
    unnamed: SwitchOutcome,
)
    requires
        old(list).wf(),
        *old(other) == *old(list),
        old(unnamed_list).wf(),
        call_ensures(Console::switch_vm, (list, Some(word)), outcome),
        call_ensures(Console::switch_vm, (unnamed_list, None::<&[u8]>), unnamed),
        call_ensures(str_to_usize, (word,), number),
        number matches Some(vm_id) ==> call_ensures(switch_active_vm, (other, vm_id), switched),
    ensures
        number is None ==> outcome == SwitchOutcome::NotANumber && *final(list) == *old(list),
        number matches Some(vm_id) ==> {
            &&& outcome == if switched {
                SwitchOutcome::Switched(vm_id)
            } else {
                SwitchOutcome::NotAvailable(vm_id)
            }
            &&& final(list).active == final(other).active
            &&& final(list).vms@ == final(other).vms@
        },
        unnamed == SwitchOutcome::MissingId,
        *final(unnamed_list) == *old(unnamed_list),
{
}

/// Times are shown in whole milliseconds of the counter, averages in whole microseconds per operation.
pub proof fn times_are_shown_in_their_units(
    frequency: u64,
    counters: &IoCounters,
    report: IoReport,
)
    requires
        1000 <= frequency,
        call_ensures(Console::stat, (frequency, counters), report),
    ensures
        ({
            let per_ms = frequency as int / 1000;
            &&& report.blk_total_ms * per_ms <= counters.blk_cycles_total < (report.blk_total_ms + 1)
                * per_ms
            &&& report.blk_max_ms * per_ms <= counters.blk_cycles_max < (report.blk_max_ms + 1)
                * per_ms
            &&& report.phys_total_ms * per_ms <= counters.phys_cycles_total < (report.phys_total_ms
                + 1) * per_ms
            &&& report.phys_max_ms * per_ms <= counters.phys_cycles_max < (report.phys_max_ms + 1)
                * per_ms
            &&& report.uart_total_ms * per_ms <= counters.uart_cycles < (report.uart_total_ms + 1)
                * per_ms
            &&& report.putc_total_ms * per_ms <= counters.putc_cycles < (report.putc_total_ms + 1)
                * per_ms
            &&& counters.console_buffers > 0 ==> report.console_average_bytes
                * counters.console_buffers <= counters.console_bytes < (
            report.console_average_bytes + 1) * counters.console_buffers
            &&& counters.console_buffers == 0 ==> report.console_average_bytes == 0
            &&& counters.uart_writes == 0 ==> report.uart_average_us == 0
            &&& counters.putc_count == 0 ==> report.putc_average_us == 0
            &&& counters.uart_writes > 0 ==> report.uart_average_us == (counters.uart_cycles
                * 1_000_000 / counters.uart_writes as int / frequency as int) as u64
            &&& counters.putc_count > 0 ==> report.putc_average_us == (counters.putc_cycles
                * 1_000_000 / counters.putc_count as int / frequency as int) as u64
        }),
{
    let d = frequency as int / 1000;
    lemma_quotient(counters.blk_cycles_total as int, d);
    lemma_quotient(counters.blk_cycles_max as int, d);
    lemma_quotient(counters.phys_cycles_total as int, d);
    lemma_quotient(counters.phys_cycles_max as int, d);
    lemma_quotient(counters.uart_cycles as int, d);
    lemma_quotient(counters.putc_cycles as int, d);
    if counters.console_buffers > 0 {
        lemma_quotient(counters.console_bytes as int, counters.console_buffers as int);
    }
}

proof fn lemma_quotient(x: int, d: int)
    requires
        d > 0,
    ensures
        (x / d) * d <= x < (x / d + 1) * d,
{
    vstd::arithmetic::div_mod::lemma_fundamental_div_mod(x, d);
    vstd::arithmetic::mul::lemma_mul_is_commutative(x / d, d);
    vstd::arithmetic::mul::lemma_mul_is_distributive_add_other_way(d, x / d, 1);
}

/// ASCII text without white space.
pub open spec fn is_plain(bytes: Seq<u8>) -> bool {
    forall|i: int| 0 <= i < bytes.len() ==> 0x20 < #[trigger] bytes[i] < 0x7F
}

/// ASCII white space.
pub open spec fn is_gap(byte: u8) -> bool {
    byte == 0x20 || 0x09 <= byte <= 0x0D
}

proof fn lemma_ascii(bytes: Seq<u8>)
    requires
        bytes.len() > 0,
        bytes[0] <= 0x7F,
    ensures
        vstd::utf8::valid_first_scalar(bytes),
        vstd::utf8::decode_first_scalar(bytes) == bytes[0],
        vstd::utf8::take_first_scalar(bytes) == seq![bytes[0]],
        vstd::utf8::pop_first_scalar(bytes) == bytes.skip(1),
{
    let b = bytes[0];
    assert(b <= 0x7F ==> b & 0x7F == b) by (bit_vector);
    assert(vstd::utf8::take_first_scalar(bytes) =~= seq![bytes[0]]);
    assert(vstd::utf8::pop_first_scalar(bytes) =~= bytes.skip(1));
}

/// Plain text lengthens the word that was begun.
proof fn lemma_plain_word(plain: Seq<u8>, rest: Seq<u8>, word: Seq<u8>, words: Seq<Seq<u8>>)
    requires
        is_plain(plain),
    ensures
        split_from(plain + rest, word, words) == split_from(rest, word + plain, words),
    decreases plain.len(),
{
    if plain.len() == 0 {
        assert(plain + rest =~= rest);
        assert(word + plain =~= word);
    } else {
        let bytes = plain + rest;
        assert(0x20 < plain[0] < 0x7F);
        assert(bytes[0] == plain[0]);
        lemma_ascii(bytes);
        assert(bytes.skip(1) =~= plain.skip(1) + rest);
        assert(is_plain(plain.skip(1)));
        lemma_plain_word(plain.skip(1), rest, word + seq![plain[0]], words);
        assert(word + seq![plain[0]] + plain.skip(1) =~= word + plain);
    }
}

/// What was split before stays in front.
proof fn lemma_words_in_front(
    bytes: Seq<u8>,
    word: Seq<u8>,
    first: Seq<Seq<u8>>,
    words: Seq<Seq<u8>>,
)
    ensures
        split_from(bytes, word, first + words) == first + split_from(bytes, word, words),
    decreases bytes.len(),
{
    assert(with_word(first + words, word) =~= first + with_word(words, word));
    if bytes.len() == 0 || !vstd::utf8::valid_first_scalar(bytes) {
    } else if crate::text::is_white_space(vstd::utf8::decode_first_scalar(bytes)) {
        lemma_words_in_front(
            vstd::utf8::pop_first_scalar(bytes),
            Seq::empty(),
            first,
            with_word(words, word),
        );
    } else {
        lemma_words_in_front(
            vstd::utf8::pop_first_scalar(bytes),
            word + vstd::utf8::take_first_scalar(bytes),
            first,
            words,
        );
    }
}

/// A text is split at white space: what is in front of it is a word, unless that is empty, and the other
/// words are those of what is behind.
pub proof fn white_space_parts_words(
    plain: &[u8],
    gap: u8,
    rest: &[u8],
    text: &[u8],
    one: Vec<Vec<u8>>,
    rest_words: Vec<Vec<u8>>,
    words: Vec<Vec<u8>>,
)
    requires
        is_plain(plain@),
        is_gap(gap),
        text@ == plain@ + seq![gap] + rest@,
        call_ensures(split_whitespace, (plain,), one),
        call_ensures(split_whitespace, (rest,), rest_words),
        call_ensures(split_whitespace, (text,), words),
    ensures
        plain@.len() == 0 ==> views(one@) == Seq::<Seq<u8>>::empty(),
        plain@.len() > 0 ==> views(one@) == seq![plain@],
        views(words@) == views(one@) + views(rest_words@),
{
    let none = Seq::<Seq<u8>>::empty();
    let empty = Seq::<u8>::empty();
    assert(plain@ + empty =~= plain@);
    assert(empty + plain@ =~= plain@);
    lemma_plain_word(plain@, empty, empty, none);
    assert(views(one@) == with_word(none, plain@));
    assert(plain@.len() > 0 ==> with_word(none, plain@) =~= seq![plain@]);
    let tail = seq![gap] + rest@;
    assert(text@ =~= plain@ + tail);
    lemma_plain_word(plain@, tail, empty, none);
    assert(tail[0] == gap);
    lemma_ascii(tail);
    assert(tail.skip(1) =~= rest@);
    assert(views(words@) == split_from(rest@, empty, with_word(none, plain@)));
    assert(with_word(none, plain@) =~= with_word(none, plain@) + none);
    lemma_words_in_front(rest@, empty, with_word(none, plain@), none);
}

/// A byte as a digit: the letters of both cases go on behind 9.
pub open spec fn is_digit(byte: u8, value: int) -> bool {
    ||| 0x30 <= byte <= 0x39 && value == byte - 0x30
    ||| 0x61 <= byte <= 0x66 && value == byte - 0x57
    ||| 0x41 <= byte <= 0x46 && value == byte - 0x37
}

/// The prefix of a number in this radix: 0x, 0o or 0b.
pub open spec fn is_prefix(prefix: Seq<u8>, radix: int) -> bool {
    ||| radix == 16 && prefix == seq![0x30u8, 0x78]
    ||| radix == 8 && prefix == seq![0x30u8, 0x6F]
    ||| radix == 2 && prefix == seq![0x30u8, 0x62]
}

/// The prefix says in which radix the digits are. Another digit multiplies by the radix and is added, where
/// the number still fits. What is no digit makes it no number.
pub proof fn digits_are_read_in_their_radix(
    prefix: Seq<u8>,
    digits: Seq<u8>,
    digit: u8,
    radix: int,
    text: &[u8],
    longer: &[u8],
    number: Option<usize>,
    longer_number: Option<usize>,
)
    requires
        is_prefix(prefix, radix),
        text@ == prefix + digits,
        longer@ == prefix + digits + seq![digit],
        digits.len() > 0 ==> digits[0] != 0x2B,
        digit != 0x2B,
        call_ensures(str_to_usize, (text,), number),
        call_ensures(str_to_usize, (longer,), longer_number),
    ensures
        digits.len() == 0 ==> number is None,
        forall|value: int|
            digits.len() == 0 && #[trigger] is_digit(digit, value) && value < radix ==> (longer_number
                matches Some(n) && n == value),
        forall|value: int|
            digits.len() > 0 && number is Some && #[trigger] is_digit(digit, value) && value < radix
                ==> {
                let next = number->0 * radix + value;
                &&& next <= usize::MAX ==> longer_number == Some(next as usize)
                &&& next > usize::MAX ==> longer_number is None
            },
        (forall|value: int| #[trigger] is_digit(digit, value) ==> value >= radix)
            ==> longer_number is None,
{
    let more = digits + seq![digit];
    assert(longer@ =~= prefix + more);
    assert(text@.skip(2) =~= digits);
    assert(longer@.skip(2) =~= more);
    assert(text@[0] == prefix[0] && text@[1] == prefix[1]);
    assert(longer@[0] == prefix[0] && longer@[1] == prefix[1]);
    assert(more.drop_last() =~= digits);
    assert(more.last() == digit);
    assert(more[0] != 0x2B) by {
        if digits.len() > 0 {
            assert(more[0] == digits[0]);
        }
    }
    assert(usize_of(longer@) is Some ==> number_of(more, radix) is Some);
    assert(is_digit(digit, digit - 0x30) || is_digit(digit, digit - 0x57) || is_digit(
        digit,
        digit - 0x37,
    ) || digit_of(digit, radix) is None);
    assert forall|value: int| #[trigger] is_digit(digit, value) && value < radix implies digit_of(
        digit,
        radix,
    ) == Some(value) by {}
    if digits.len() == 0 {
        assert(number_of(digits, radix) == Some(0int));
        assert(0int * radix == 0);
    }
}

/// Without a prefix a number is hexadecimal.
pub proof fn numbers_are_hexadecimal(
    text: &[u8],
    prefixed: &[u8],
    number: Option<usize>,
    prefixed_number: Option<usize>,
)
    requires
        text@.len() > 0,
        text@[0] != 0x30,
        prefixed@ == seq![0x30u8, 0x78] + text@,
        call_ensures(str_to_usize, (text,), number),
        call_ensures(str_to_usize, (prefixed,), prefixed_number),
    ensures
        number == prefixed_number,
{
    assert(prefixed@.skip(2) =~= text@);
    assert(prefixed@[0] == 0x30 && prefixed@[1] == 0x78);
}

/// The boot loader gives two arguments, of which the first is the address of the devicetree as a text. It is
/// told what is wrong otherwise.
pub proof fn boot_loader_gives_the_devicetree(
    argc: usize,
    argument: &[u8],
    valid: bool,
    number: Option<usize>,
    result: Result<usize, usize>,
)
    requires
        call_ensures(is_valid_utf8, (argument,), valid),
        call_ensures(str_to_usize, (argument,), number),
        call_ensures(entry_main, (argc, argument), result),
    ensures
        argc != 2 ==> result == Err::<usize, usize>(1),
        argc == 2 && !valid ==> result == Err::<usize, usize>(2),
        argc == 2 && valid && number is None ==> result == Err::<usize, usize>(3),
        argc == 2 && valid && number is Some ==> result == Ok::<usize, usize>(number->0),
{
}

/// The first FAT32 partition of a disk with the boot signature 0x55 0xAA is found: type 0x0C at byte 4 of an
/// entry of the table, and the number of its first sector from byte 8 on.
pub proof fn first_fat32_partition_is_found(
    mbr: &[u8],
    result: Result<u32, PartitionError>,
    entry: int,
)
    requires
        mbr@.len() == 512,
        call_ensures(init_fat32, (mbr,), result),
        0 <= entry < 4,
    ensures
        ({
            let signed = mbr@[510] == 0x55 && mbr@[511] == 0xAA;
            let at = 446 + 16 * entry;
            let first = mbr@[at + 4] == 12 && forall|k: int|
                0 <= k < entry ==> #[trigger] mbr@[450 + 16 * k] != 12;
            &&& !signed ==> result == Err::<u32, PartitionError>(PartitionError::Signature)
            &&& signed && result is Err ==> result == Err::<u32, PartitionError>(
                PartitionError::NotFound,
            ) && mbr@[at + 4] != 12
            &&& signed && first ==> result is Ok && result->Ok_0 == mbr@[at + 8] + 0x100 * mbr@[at
                + 9] + 0x1_0000 * mbr@[at + 10] + 0x100_0000 * mbr@[at + 11]
        }),
{
    reveal_with_fuel(crate::boot::fat32_entry, 5);
    reveal_with_fuel(le_number, 5);
    if forall|k: int| 0 <= k < entry ==> #[trigger] mbr@[450 + 16 * k] != 12 {
        assert(entry > 0 ==> mbr@[450int + 16 * 0int] != 12);
        assert(entry > 1 ==> mbr@[450int + 16 * 1int] != 12);
        assert(entry > 2 ==> mbr@[450int + 16 * 2int] != 12);
    }
}

/// A CPU is started by the spin table where its method is so named.
pub proof fn spin_table_is_named(value: &[u8], named: bool, unnamed: bool)
    requires
        call_ensures(is_spin_table_enable_method, (Some(value),), named),
        call_ensures(is_spin_table_enable_method, (None::<&[u8]>,), unnamed),
    ensures
        !unnamed,
        named <==> value@.len() >= 10 && value@[0] == 0x73 && value@[1] == 0x70 && value@[2] == 0x69
            && value@[3] == 0x6E && value@[4] == 0x2D && value@[5] == 0x74 && value@[6] == 0x61
            && value@[7] == 0x62 && value@[8] == 0x6C && value@[9] == 0x65,
{
    let name = seq![0x73u8, 0x70, 0x69, 0x6E, 0x2D, 0x74, 0x61, 0x62, 0x6C, 0x65];
    if value@.len() >= 10 {
        let head = value@.take(10);
        assert(head[0] == value@[0] && head[1] == value@[1] && head[2] == value@[2] && head[3]
            == value@[3] && head[4] == value@[4]);
        assert(head[5] == value@[5] && head[6] == value@[6] && head[7] == value@[7] && head[8]
            == value@[8] && head[9] == value@[9]);
        assert(head.len() == 10);
        if named {
            assert(head[0] == name[0] && head[1] == name[1] && head[2] == name[2] && head[3] == name[3]
                && head[4] == name[4]);
            assert(head[5] == name[5] && head[6] == name[6] && head[7] == name[7] && head[8] == name[8]
                && head[9] == name[9]);
        } else if value@[0] == 0x73 && value@[1] == 0x70 && value@[2] == 0x69 && value@[3] == 0x6E
            && value@[4] == 0x2D && value@[5] == 0x74 && value@[6] == 0x61 && value@[7] == 0x62
            && value@[8] == 0x6C && value@[9] == 0x65 {
            assert(head =~= name);
        }
    }
}

/// The release address of a CPU is one number of two cells, the upper half first.
pub proof fn release_address_has_two_cells(
    cells: &[u32],
    address: Option<u64>,
    without: Option<u64>,
)
    requires
        call_ensures(read_cpu_release_address, (Some(cells),), address),
        call_ensures(read_cpu_release_address, (None::<&[u32]>,), without),
    ensures
        without is None,
        address is Some <==> cells@.len() >= 2,
        address matches Some(a) ==> a / 0x1_0000_0000 == cells@[0] && a % 0x1_0000_0000 == cells@[1],
{
}

/// Text is printed as it is. Where the bytes are no text, each is printed as the character of its number: one
/// byte up to 127, and two bytes above.
pub proof fn bytes_are_printed_as_characters(
    bytes: &[u8],
    longer: &[u8],
    valid: bool,
    longer_valid: bool,
    text: Vec<u8>,
    longer_text: Vec<u8>,
    byte: u8,
)
    requires
        longer@ == bytes@.push(byte),
        call_ensures(is_valid_utf8, (bytes,), valid),
        call_ensures(is_valid_utf8, (longer,), longer_valid),
        call_ensures(print_bytes, (bytes,), text),
        call_ensures(print_bytes, (longer,), longer_text),
    ensures
        valid ==> text@ == bytes@,
        !longer_valid && (!valid || bytes@.len() == 0) ==> longer_text@ == text@ + if byte < 128 {
            seq![byte]
        } else {
            seq![(0xC0 + byte / 64) as u8, (0x80 + byte % 64) as u8]
        },
{
    assert(longer@.drop_last() =~= bytes@);
    assert(longer@.last() == byte);
    let scalar = byte as u32;
    assert({
        &&& byte < 128 ==> (byte as u32) & 0x7F == byte as u32
        &&& 0xC0u8 | ((((byte as u32) >> 6) & 0x1F) as u8) == 0xC0 + byte / 64
        &&& 0x80u8 | (((byte as u32) & 0x3F) as u8) == 0x80 + byte % 64
    }) by (bit_vector);
    if !longer_valid && (!valid || bytes@.len() == 0) {
        assert(crate::text::as_characters(bytes@) =~= text@);
        assert(longer_text@ == text@ + vstd::utf8::encode_scalar(scalar));
        if byte < 128 {
            assert(vstd::utf8::encode_scalar(scalar) =~= seq![byte]);
        } else {
            assert(vstd::utf8::encode_scalar(scalar) =~= seq![
                (0xC0 + byte / 64) as u8,
                (0x80 + byte % 64) as u8,
            ]);
        }
    }
}

} // verus!
