//! Socket buffer sizes: which ones to ask for, and what to think of the system's limits.

use vstd::prelude::*;

use vstd::arithmetic::power2::{lemma2_to64, lemma_pow2_unfold, pow2};

use crate::text::{
    chars_of, decimal, is_trimmed, law_decimal_is_read_back, law_decimal_notation,
    law_trimming_cuts_white_space, law_trimming_is_unique, parse_unsigned, parsed_unsigned,
    push_decimal, trim_chars,
};

verus! {

/// The smallest acceptable buffer.
pub const MIN_SOCKET_BUFFER_SIZE: usize = 32_768;

/// The smallest buffer that performs well.
pub const RECOMMENDED_SOCKET_BUFFER_SIZE: usize = 65_536;

/// How many sizes are tried for the receive buffer.
pub const RECV_CHOICES: usize = 4;

/// How many sizes are tried for the send buffer.
pub const SEND_CHOICES: usize = 3;

/// The sizes that are tried for the receive buffer, from optimal to minimum: 256, 128, 64 and
/// 32 KB.
pub open spec fn recv_choice(i: int) -> usize {
    if i == 0 {
        262_144
    } else if i == 1 {
        131_072
    } else if i == 2 {
        65_536
    } else {
        32_768
    }
}

/// The sizes that are tried for the send buffer: 128, 64 and 32 KB.
pub open spec fn send_choice(i: int) -> usize {
    recv_choice(i + 1)
}

/// What is done next to set up the buffers of a socket.
#[derive(Debug, Clone, Copy, PartialEq, Eq, Structural)]
pub enum BufferStep {
    /// Ask for a receive buffer of this size.
    Receive(usize),
    /// Ask for a send buffer of this size.
    Send(usize),
    /// Look at the sizes that the socket really has.
    Check,
}

/// What has come of setting up the buffers.
#[derive(Debug, Clone, Copy, PartialEq, Eq, Structural)]
pub enum BufferVerdict {
    /// No size was accepted for either buffer: the socket cannot be used.
    Failed,
    /// The receive buffer is smaller than acceptable; performance will suffer.
    TooSmall,
    /// A buffer is smaller than recommended.
    BelowRecommended,
    /// Both buffers are as recommended.
    Good,
}

/// Attempts so far to set up the buffers of a socket, and the sizes that were accepted (0 for
/// none).
#[derive(Debug, Clone, Copy, PartialEq, Eq, Structural)]
pub struct BufferSetup {
    pub recv_tried: usize,
    pub recv_size: usize,
    pub send_tried: usize,
    pub send_size: usize,
}

impl BufferSetup {
    pub open spec fn initial() -> BufferSetup {
        BufferSetup { recv_tried: 0, recv_size: 0, send_tried: 0, send_size: 0 }
    }

    pub open spec fn wf(self) -> bool {
        self.recv_tried <= RECV_CHOICES && self.send_tried <= SEND_CHOICES
    }

    /// What is done next: the receive buffer first, each size once, until one is accepted.
    pub open spec fn spec_step(self) -> BufferStep {
        if self.recv_size == 0 && self.recv_tried < RECV_CHOICES {
            BufferStep::Receive(recv_choice(self.recv_tried as int))
        } else if self.send_size == 0 && self.send_tried < SEND_CHOICES {
            BufferStep::Send(send_choice(self.send_tried as int))
        } else {
            BufferStep::Check
        }
    }

    /// The setup after the size that was asked for has been accepted or not.
    pub open spec fn after(self, accepted: bool) -> BufferSetup {
        match self.spec_step() {
            BufferStep::Receive(size) => BufferSetup {
                recv_tried: (self.recv_tried + 1) as usize,
                recv_size: if accepted {
                    size
                } else {
                    0
                },
                ..self
            },
            BufferStep::Send(size) => BufferSetup {
                send_tried: (self.send_tried + 1) as usize,
                send_size: if accepted {
                    size
                } else {
                    0
                },
                ..self
            },
            BufferStep::Check => self,
        }
    }

    /// What has come of it, given the size that the receive buffer really has (0 if that is not
    /// known).
    pub open spec fn spec_verdict(self, actual_recv: usize) -> BufferVerdict {
        if self.recv_size == 0 && self.send_size == 0 {
            BufferVerdict::Failed
        } else if 0 < actual_recv < MIN_SOCKET_BUFFER_SIZE {
            BufferVerdict::TooSmall
        } else if self.recv_size < RECOMMENDED_SOCKET_BUFFER_SIZE || self.send_size
            < RECOMMENDED_SOCKET_BUFFER_SIZE {
            BufferVerdict::BelowRecommended
        } else {
            BufferVerdict::Good
        }
    }

    /// Nothing has been tried yet.
    pub fn new() -> (setup: Self)
        ensures
            setup == BufferSetup::initial(),
            setup.wf(),
    {
        BufferSetup { recv_tried: 0, recv_size: 0, send_tried: 0, send_size: 0 }
    }

    fn size_choice(i: usize) -> (size: usize)
        ensures
            size == recv_choice(i as int),
    {
        if i == 0 {
            262_144
        } else if i == 1 {
            131_072
        } else if i == 2 {
            65_536
        } else {
            32_768
        }
    }

    /// What is done next.
    pub fn step(&self) -> (step: BufferStep)
        ensures
            step == self.spec_step(),
    {
        if self.recv_size == 0 && self.recv_tried < RECV_CHOICES {
            BufferStep::Receive(Self::size_choice(self.recv_tried))
        } else if self.send_size == 0 && self.send_tried < SEND_CHOICES {
            BufferStep::Send(Self::size_choice(self.send_tried + 1))
        } else {
            BufferStep::Check
        }
    }

    /// Records whether the size that was asked for has been accepted.
    pub fn record(&mut self, accepted: bool)
        requires
            old(self).wf(),
        ensures
            final(self).wf(),
            *final(self) == old(self).after(accepted),
    {
        match self.step() {
            BufferStep::Receive(size) => {
                self.recv_tried = self.recv_tried + 1;
                self.recv_size = if accepted {
                    size
                } else {
                    0
                };
            },
            BufferStep::Send(size) => {
                self.send_tried = self.send_tried + 1;
                self.send_size = if accepted {
                    size
                } else {
                    0
                };
            },
            BufferStep::Check => {},
        }
    }

    /// What has come of it, given the size that the receive buffer really has.
    pub fn verdict(&self, actual_recv: usize) -> (verdict: BufferVerdict)
        ensures
            verdict == self.spec_verdict(actual_recv),
    {
        if self.recv_size == 0 && self.send_size == 0 {
            BufferVerdict::Failed
        } else if actual_recv > 0 && actual_recv < MIN_SOCKET_BUFFER_SIZE {
            BufferVerdict::TooSmall
        } else if self.recv_size < RECOMMENDED_SOCKET_BUFFER_SIZE || self.send_size
            < RECOMMENDED_SOCKET_BUFFER_SIZE {
            BufferVerdict::BelowRecommended
        } else {
            BufferVerdict::Good
        }
    }
}

/// The setup after `n` steps on a system that accepts certain sizes.
pub open spec fn after_steps(
    recv_ok: spec_fn(usize) -> bool,
    send_ok: spec_fn(usize) -> bool,
    n: nat,
) -> BufferSetup
    decreases n,
{
    if n == 0 {
        BufferSetup::initial()
    } else {
        let setup = after_steps(recv_ok, send_ok, (n - 1) as nat);
        setup.after(
            match setup.spec_step() {
                BufferStep::Receive(size) => recv_ok(size),
                BufferStep::Send(size) => send_ok(size),
                BufferStep::Check => false,
            },
        )
    }
}

/// The first of the sizes from `i` to `end` that a system accepts, or 0.
pub open spec fn first_accepted(ok: spec_fn(usize) -> bool, i: int, end: int) -> usize
    decreases end - i,
{
    if i >= end {
        0
    } else if ok(recv_choice(i)) {
        recv_choice(i)
    } else {
        first_accepted(ok, i + 1, end)
    }
}

/// After at most seven attempts both buffers have the largest size that the system accepts.
pub proof fn law_largest_accepted_sizes_are_set(
    recv_ok: spec_fn(usize) -> bool,
    send_ok: spec_fn(usize) -> bool,
)
    ensures
        after_steps(recv_ok, send_ok, 7).spec_step() == BufferStep::Check,
        after_steps(recv_ok, send_ok, 7).recv_size == first_accepted(recv_ok, 0, 4),
        after_steps(recv_ok, send_ok, 7).send_size == first_accepted(send_ok, 1, 4),
{
    reveal_with_fuel(after_steps, 8);
    reveal_with_fuel(first_accepted, 6);
}

/// Why the limits of the system are not known.
#[derive(Debug, Clone, Copy, PartialEq, Eq, Structural)]
pub enum LimitError {
    /// The receive limit could not be read, or is not a number.
    Receive,
    /// The send limit could not be read, or is not a number.
    Send,
    /// The program that prints the limit of both could not be run.
    Command,
}

/// Where a system gives its limits for socket buffers, and the texts that were found there. What
/// could not be read is missing.
#[derive(Debug, Clone, PartialEq, Eq)]
pub enum SystemLimits {
    /// Linux has a file for each limit.
    Linux { rmem_max: Option<String>, wmem_max: Option<String> },
    /// On macOS `sysctl` prints one limit for both.
    MacOs { maxsockbuf: Option<String> },
    /// Windows does not give its limits.
    Windows,
    /// A system of which nothing is known.
    Other,
}

/// The number that a text holds between white space.
pub open spec fn limit_of(text: Seq<char>) -> Option<nat> {
    parsed_unsigned(choose|inner: Seq<char>| is_trimmed(inner, text), usize::MAX as nat)
}

fn read_limit(text: &str) -> (limit: Option<usize>)
    ensures
        limit is Some == limit_of(text@) is Some,
        limit matches Some(n) ==> limit_of(text@) == Some(n as nat),
{
    let inner = trim_chars(&chars_of(text));
    proof {
        let chosen = choose|inner: Seq<char>| is_trimmed(inner, text@);
        crate::text::law_trimming_is_unique(text@, inner@, chosen);
    }
    match parse_unsigned(&inner, usize::MAX as u64) {
        Some(n) => Some(n as usize),
        None => None,
    }
}

fn read_found(text: &Option<String>) -> (limit: Option<usize>)
    ensures
        limit is Some == found_limit(*text) is Some,
        limit matches Some(n) ==> found_limit(*text) == Some(n as nat),
{
    match text {
        Some(text) => read_limit(text.as_str()),
        None => None,
    }
}

/// The number in a text that may be missing.
pub open spec fn found_limit(text: Option<String>) -> Option<nat> {
    match text {
        Some(text) => limit_of(text@),
        None => None,
    }
}

/// The limits for receive and send buffers, as the system gives them. On macOS a text that is not
/// a number counts as 0. Windows is taken to allow 64 KiB, and 0 stands for what is not known.
pub open spec fn limits_of(system: SystemLimits) -> Result<(nat, nat), LimitError> {
    match system {
        SystemLimits::Linux { rmem_max, wmem_max } => match (
            found_limit(rmem_max),
            found_limit(wmem_max),
        ) {
            (None, _) => Err(LimitError::Receive),
            (Some(_), None) => Err(LimitError::Send),
            (Some(rmem), Some(wmem)) => Ok((rmem, wmem)),
        },
        SystemLimits::MacOs { maxsockbuf: None } => Err(LimitError::Command),
        SystemLimits::MacOs { maxsockbuf: Some(text) } => match limit_of(text@) {
            Some(limit) => Ok((limit, limit)),
            None => Ok((0, 0)),
        },
        SystemLimits::Windows => Ok((65_536, 65_536)),
        SystemLimits::Other => Ok((0, 0)),
    }
}

/// The limits of the system for receive and send buffers.
pub fn get_system_socket_limits(system: &SystemLimits) -> (limits: Result<
    (usize, usize),
    LimitError,
>)
    ensures
        match limits_of(*system) {
            Ok(found) => limits matches Ok(limits) && limits.0 == found.0 && limits.1 == found.1,
            Err(error) => limits == Err::<(usize, usize), LimitError>(error),
        },
{
    match system {
        SystemLimits::Linux { rmem_max, wmem_max } => match read_found(rmem_max) {
            None => Err(LimitError::Receive),
            Some(rmem) => match read_found(wmem_max) {
                None => Err(LimitError::Send),
                Some(wmem) => Ok((rmem, wmem)),
            },
        },
        SystemLimits::MacOs { maxsockbuf } => match maxsockbuf {
            None => Err(LimitError::Command),
            Some(text) => match read_limit(text.as_str()) {
                None => Ok((0, 0)),
                Some(limit) => Ok((limit, limit)),
            },
        },
        SystemLimits::Windows => Ok((65_536, 65_536)),
        SystemLimits::Other => Ok((0, 0)),
    }
}

/// What is logged of the limits of the system.
#[derive(Debug, Clone, Copy, PartialEq, Eq, Structural)]
pub enum LimitReport {
    /// The limits could not be read.
    Unread(LimitError),
    /// The limits are not known, and nothing is logged of them.
    Unknown,
    /// The limits, which are high enough.
    Sufficient(usize, usize),
    /// The limits, with the advice to raise them.
    Low(usize, usize),
}

/// Decides what is logged of the limits of the system.
pub fn log_socket_limits(limits: Result<(usize, usize), LimitError>) -> (report: LimitReport)
    ensures
        report == match limits {
            Ok((rmem, wmem)) => if rmem == 0 || wmem == 0 {
                LimitReport::Unknown
            } else if rmem < 262_144 || wmem < 131_072 {
                LimitReport::Low(rmem, wmem)
            } else {
                LimitReport::Sufficient(rmem, wmem)
            },
            Err(error) => LimitReport::Unread(error),
        },
{
    match limits {
        Ok((rmem, wmem)) => {
            if rmem > 0 && wmem > 0 {
                if rmem < 262_144 || wmem < 131_072 {
                    LimitReport::Low(rmem, wmem)
                } else {
                    LimitReport::Sufficient(rmem, wmem)
                }
            } else {
                LimitReport::Unknown
            }
        },
        Err(error) => LimitReport::Unread(error),
    }
}

/// The integer nearest to a fraction; of two that are equally near, the even one.
pub open spec fn nearest_even(numerator: nat, denominator: nat) -> nat {
    let quotient = numerator / denominator;
    let rest = numerator % denominator;
    if 2 * rest > denominator || (2 * rest == denominator && quotient % 2 == 1) {
        quotient + 1
    } else {
        quotient
    }
}

/// A number of bytes with 53 significant bits, in steps of `step` from `limit` on.
pub open spec fn significant_from(bytes: nat, step: nat, limit: nat, levels: nat) -> nat
    decreases levels,
{
    if levels == 0 || bytes < limit {
        nearest_even(bytes, step) * step
    } else {
        significant_from(bytes, 2 * step, 2 * limit, (levels - 1) as nat)
    }
}

/// A number of bytes with 53 significant bits.
pub open spec fn significant(bytes: nat) -> nat {
    significant_from(bytes, 1, 0x20_0000_0000_0000, 11)
}

/// The largest unit (0 for bytes, 1 for KB, 2 for MB, 3 for GB) of which there is at least one.
pub open spec fn unit_of(bytes: nat) -> int {
    if bytes < 1024 {
        0
    } else if bytes < 1_048_576 {
        1
    } else if bytes < 1_073_741_824 {
        2
    } else {
        3
    }
}

pub open spec fn unit_size(unit: int) -> nat {
    if unit == 0 {
        1
    } else if unit == 1 {
        1024
    } else if unit == 2 {
        1_048_576
    } else {
        1_073_741_824
    }
}

pub open spec fn unit_name(unit: int) -> Seq<char> {
    if unit == 0 {
        " B"@
    } else if unit == 1 {
        " KB"@
    } else if unit == 2 {
        " MB"@
    } else {
        " GB"@
    }
}

/// A number of bytes in words: whole bytes, or tenths of the largest unit.
pub open spec fn bytes_text(bytes: nat) -> Seq<char> {
    let shown = significant(bytes);
    let unit = unit_of(shown);
    if unit == 0 {
        decimal(bytes) + unit_name(0)
    } else {
        let tenths = nearest_even(10 * shown, unit_size(unit));
        decimal(tenths / 10) + "."@ + decimal(tenths % 10) + unit_name(unit)
    }
}

fn round_to_even(numerator: u128, denominator: u128) -> (n: u128)
    requires
        0 < denominator <= 0x1_0000_0000_0000,
    ensures
        n == nearest_even(numerator as nat, denominator as nat),
        n <= numerator / denominator + 1,
{
    let quotient: u128 = numerator / denominator;
    let rest: u128 = numerator % denominator;
    proof {
        if quotient == u128::MAX {
            assert(denominator == 1 && rest == 0) by (nonlinear_arith)
                requires
                    quotient == numerator / denominator,
                    rest == numerator % denominator,
                    quotient == u128::MAX,
                    denominator > 0,
                    numerator <= u128::MAX,
            ;
        }
    }
    if 2 * rest > denominator || (2 * rest == denominator && quotient % 2 == 1) {
        quotient + 1
    } else {
        quotient
    }
}

fn significant_bits(bytes: u64) -> (n: u128)
    ensures
        n == significant(bytes as nat),
        n <= 0x1_0000_0000_0000_0000,
{
    let mut step: u128 = 1;
    let mut limit: u128 = 0x20_0000_0000_0000;
    let mut levels: usize = 11;
    while levels > 0 && bytes as u128 >= limit
        invariant
            levels <= 11,
            significant(bytes as nat) == significant_from(
                bytes as nat,
                step as nat,
                limit as nat,
                levels as nat,
            ),
            levels == 11 ==> step == 1,
            levels == 10 ==> step == 2,
            levels == 9 ==> step == 4,
            levels == 8 ==> step == 8,
            levels == 7 ==> step == 16,
            levels == 6 ==> step == 32,
            levels == 5 ==> step == 64,
            levels == 4 ==> step == 128,
            levels == 3 ==> step == 256,
            levels == 2 ==> step == 512,
            levels == 1 ==> step == 1024,
            levels == 0 ==> step == 2048,
            limit == step * 0x20_0000_0000_0000,
        decreases levels,
    {
        step = 2 * step;
        limit = 2 * limit;
        levels = levels - 1;
    }
    let rounded: u128 = round_to_even(bytes as u128, step);
    proof {
        assert(limit <= 0x1_0000_0000_0000_0000 && bytes < limit);
        assert(bytes as u128 / step < 0x20_0000_0000_0000) by (nonlinear_arith)
            requires
                bytes < step * 0x20_0000_0000_0000,
                step > 0,
        ;
        assert(rounded * step <= 0x20_0000_0000_0000 * step) by (nonlinear_arith)
            requires
                rounded <= 0x20_0000_0000_0000,
        ;
    }
    rounded * step
}

/// Writes a number of bytes in words.
pub fn format_bytes(bytes: usize) -> (text: String)
    ensures
        text@ == bytes_text(bytes as nat),
{
    let shown: u128 = significant_bits(bytes as u64);
    let mut text = String::new();
    if shown < 1024 {
        push_decimal(&mut text, bytes as u64);
        text.append(" B");
        assert(text@ =~= bytes_text(bytes as nat));
        return text;
    }
    let (size, name): (u128, &str) = if shown < 1_048_576 {
        (1024, " KB")
    } else if shown < 1_073_741_824 {
        (1_048_576, " MB")
    } else {
        (1_073_741_824, " GB")
    };
    let tenths: u128 = round_to_even(10 * shown, size);
    proof {
        let unit = unit_of(shown as nat);
        assert(unit_size(unit) == size && unit_name(unit) == name@);
        assert(tenths == nearest_even(10 * shown as nat, unit_size(unit)));
        assert(tenths / 10 <= u64::MAX);
    }
    push_decimal(&mut text, (tenths / 10) as u64);
    text.append(".");
    push_decimal(&mut text, (tenths % 10) as u64);
    text.append(name);
    assert(text@ =~= bytes_text(bytes as nat));
    text
}

/// The receive buffer is tried with 256, 128, 64 and 32 KB and the send buffer with 128, 64 and 32
/// KB, in this order; the first size that the system accepts is kept, and 0 if it accepts none.
pub proof fn law_sizes_are_tried_in_order(
    recv_ok: spec_fn(usize) -> bool,
    send_ok: spec_fn(usize) -> bool,
)
    ensures
        ({
            let setup = after_steps(recv_ok, send_ok, 7);
            &&& setup.recv_size == if recv_ok(262_144) {
                262_144
            } else if recv_ok(131_072) {
                131_072
            } else if recv_ok(65_536) {
                65_536
            } else if recv_ok(32_768) {
                32_768
            } else {
                0int
            }
            &&& setup.send_size == if send_ok(131_072) {
                131_072
            } else if send_ok(65_536) {
                65_536
            } else if send_ok(32_768) {
                32_768
            } else {
                0int
            }
        }),
{
    reveal_with_fuel(after_steps, 8);
}

/// A size that is accepted ends the attempts for its buffer, and one that is not is followed by
/// half of it. The receive buffer comes first.
pub proof fn law_refused_sizes_are_halved(setup: BufferSetup, size: usize)
    requires
        setup.wf(),
    ensures
        BufferSetup::initial().spec_step() == BufferStep::Receive(262_144),
        setup.spec_step() == BufferStep::Receive(size) ==> {
            let refused = setup.after(false);
            let accepted = setup.after(true);
            &&& accepted.recv_size == size
            &&& !(accepted.spec_step() is Receive)
            &&& refused.recv_size == 0
            &&& size > 32_768 ==> refused.spec_step() == BufferStep::Receive((size / 2) as usize)
            &&& size == 32_768 ==> !(refused.spec_step() is Receive)
            &&& accepted.send_size == setup.send_size && refused.send_size == setup.send_size
            &&& accepted.send_tried == setup.send_tried && refused.send_tried == setup.send_tried
            &&& setup.send_size == 0 && setup.send_tried == 0 ==> accepted.spec_step()
                == BufferStep::Send(131_072)
        },
        setup.spec_step() == BufferStep::Send(size) ==> {
            let refused = setup.after(false);
            let accepted = setup.after(true);
            &&& accepted.send_size == size
            &&& accepted.spec_step() is Check
            &&& refused.send_size == 0
            &&& size > 32_768 ==> refused.spec_step() == BufferStep::Send((size / 2) as usize)
            &&& size == 32_768 ==> refused.spec_step() is Check
            &&& accepted.recv_size == setup.recv_size && refused.recv_size == setup.recv_size
        },
        setup.spec_step() is Check ==> setup.after(true) == setup && setup.after(false) == setup,
{
}

/// Buffers of 64 KB or more are good, and a receive buffer that really has less than 32 KB is too
/// small. It has failed if no size was accepted for either buffer.
pub proof fn law_verdict_goes_by_the_sizes(setup: BufferSetup, actual_recv: usize)
    ensures
        ({
            let verdict = setup.spec_verdict(actual_recv);
            let failed = setup.recv_size == 0 && setup.send_size == 0;
            let too_small = actual_recv != 0 && actual_recv < 32_768;
            let good = setup.recv_size >= 65_536 && setup.send_size >= 65_536;
            &&& verdict is Failed <==> failed
            &&& verdict is TooSmall <==> !failed && too_small
            &&& verdict is Good <==> !too_small && good
            &&& verdict is BelowRecommended <==> !failed && !too_small && !good
        }),
{
}

/// A limit is the number that stands in the text, whatever white space is around it.
pub proof fn law_limits_are_read(text: Seq<char>, inner: Seq<char>, n: nat)
    requires
        is_trimmed(inner, text),
    ensures
        limit_of(text) == parsed_unsigned(inner, usize::MAX as nat),
        n <= usize::MAX ==> limit_of(decimal(n)) == Some(n),
        n <= usize::MAX ==> limit_of(decimal(n).push('\n')) == Some(n),
        n > usize::MAX ==> limit_of(decimal(n)) is None,
{
    let chosen = choose|inner: Seq<char>| is_trimmed(inner, text);
    law_trimming_is_unique(text, chosen, inner);
    let digits = decimal(n);
    law_decimal_notation(n);
    assert('0' <= digits[0] <= '9' && '0' <= digits[digits.len() - 1] <= '9');
    law_trimming_cuts_white_space(digits, digits, '\n');
    let plain = choose|inner: Seq<char>| is_trimmed(inner, digits);
    law_trimming_is_unique(digits, plain, digits);
    let line = choose|inner: Seq<char>| is_trimmed(inner, digits.push('\n'));
    law_trimming_is_unique(digits.push('\n'), line, digits);
    if n <= usize::MAX {
        law_decimal_is_read_back(n, usize::MAX as nat);
    } else {
        law_decimal_is_read_back(n, n);
        assert(parsed_unsigned(digits, n) == Some(n));
    }
}

/// Linux has a limit for each buffer, both of which must be known; macOS has one for both, which
/// counts as 0 if it is no number; Windows is taken to have 64 KB, and other systems none.
pub proof fn law_every_system_has_its_limits(receive: String, send: String)
    ensures
        limits_of(SystemLimits::Windows) == Ok::<(nat, nat), LimitError>((65_536, 65_536)),
        limits_of(SystemLimits::Other) == Ok::<(nat, nat), LimitError>((0, 0)),
        limits_of(SystemLimits::MacOs { maxsockbuf: None }) == Err::<(nat, nat), LimitError>(
            LimitError::Command,
        ),
        limits_of(SystemLimits::MacOs { maxsockbuf: Some(receive) }) == Ok::<
            (nat, nat),
            LimitError,
        >(
            match limit_of(receive@) {
                Some(limit) => (limit, limit),
                None => (0, 0),
            },
        ),
        limits_of(SystemLimits::Linux { rmem_max: None, wmem_max: Some(send) }) == Err::<
            (nat, nat),
            LimitError,
        >(LimitError::Receive),
        ({
            let both = limits_of(
                SystemLimits::Linux { rmem_max: Some(receive), wmem_max: Some(send) },
            );
            let first = limits_of(
                SystemLimits::Linux { rmem_max: Some(receive), wmem_max: None },
            );
            &&& limit_of(receive@) is None ==> both == Err::<(nat, nat), LimitError>(
                LimitError::Receive,
            ) && first == Err::<(nat, nat), LimitError>(LimitError::Receive)
            &&& limit_of(receive@) is Some ==> first == Err::<(nat, nat), LimitError>(
                LimitError::Send,
            )
            &&& limit_of(receive@) is Some && limit_of(send@) is None ==> both == Err::<
                (nat, nat),
                LimitError,
            >(LimitError::Send)
            &&& limit_of(receive@) is Some && limit_of(send@) is Some ==> both == Ok::<
                (nat, nat),
                LimitError,
            >((limit_of(receive@)->0, limit_of(send@)->0))
        }),
{
}

/// A rounded fraction is at most a half away from it, and even if it is exactly a half away. So a
/// fraction that is an integer is not changed.
pub proof fn law_rounding_is_to_the_nearest(numerator: nat, denominator: nat)
    requires
        denominator > 0,
    ensures
        ({
            let rounded = nearest_even(numerator, denominator);
            let off = rounded * denominator - numerator;
            &&& -denominator <= 2 * off <= denominator
            &&& 2 * off == denominator || 2 * off == -denominator ==> rounded % 2 == 0
        }),
        nearest_even(numerator, 1) == numerator,
{
    let quotient = numerator / denominator;
    let rest = numerator % denominator;
    assert(numerator == quotient * denominator + rest && rest < denominator) by (nonlinear_arith)
        requires
            quotient == numerator / denominator,
            rest == numerator % denominator,
            denominator > 0,
    ;
    assert((quotient + 1) * denominator == quotient * denominator + denominator)
        by (nonlinear_arith);
}

/// Up to 53 bits a number of bytes is kept as it is; beyond that it is off by no more than one part
/// in 2^53.
pub proof fn law_bytes_have_53_significant_bits(bytes: nat)
    requires
        bytes < 0x1_0000_0000_0000_0000,
    ensures
        bytes < 0x20_0000_0000_0000 ==> significant(bytes) == bytes,
        ({
            let off = significant(bytes) - bytes;
            -bytes <= 0x20_0000_0000_0000 * off <= bytes
        }),
{
    lemma2_to64();
    lemma_significant(bytes, 1, 0x20_0000_0000_0000, 11);
    law_rounding_is_to_the_nearest(bytes, 1);
    assert(bytes * 1 == bytes);
}

proof fn lemma_significant(bytes: nat, step: nat, limit: nat, levels: nat)
    requires
        step > 0,
        limit == step * 0x20_0000_0000_0000,
        2 * bytes >= limit || step == 1,
        bytes < limit * pow2(levels),
    ensures
        ({
            let off = significant_from(bytes, step, limit, levels) - bytes;
            -bytes <= 0x20_0000_0000_0000 * off <= bytes
        }),
    decreases levels,
{
    lemma2_to64();
    if levels == 0 || bytes < limit {
        law_rounding_is_to_the_nearest(bytes, step);
        law_rounding_is_to_the_nearest(bytes, 1);
        assert(bytes * 1 == bytes);
    } else {
        lemma_pow2_unfold(levels);
        assert(limit * pow2(levels) == 2 * limit * pow2((levels - 1) as nat)) by (nonlinear_arith)
            requires
                pow2(levels) == 2 * pow2((levels - 1) as nat),
        ;
        lemma_significant(bytes, 2 * step, 2 * limit, (levels - 1) as nat);
    }
}

/// Fewer than 1024 bytes are told exactly. More are told in the largest unit of which there is at
/// least one, with one digit behind the point: rounded to the nearest tenth of the unit, and to
/// the even one of two.
pub proof fn law_bytes_are_told_in_units(bytes: nat, tenths: nat)
    requires
        bytes < 0x20_0000_0000_0000,
    ensures
        bytes < 1024 ==> bytes_text(bytes) == decimal(bytes) + " B"@,
        1024 <= bytes < 1024 * 1024 && is_nearest(tenths, 10 * bytes, 1024) ==> bytes_text(bytes)
            == decimal(tenths / 10) + "."@ + decimal(tenths % 10) + " KB"@,
        1024 * 1024 <= bytes < 1024 * 1024 * 1024 && is_nearest(tenths, 10 * bytes, 1024 * 1024)
            ==> bytes_text(bytes) == decimal(tenths / 10) + "."@ + decimal(tenths % 10) + " MB"@,
        1024 * 1024 * 1024 <= bytes && is_nearest(tenths, 10 * bytes, 1024 * 1024 * 1024)
            ==> bytes_text(bytes) == decimal(tenths / 10) + "."@ + decimal(tenths % 10) + " GB"@,
{
    law_bytes_have_53_significant_bits(bytes);
    lemma_nearest_is_unique(tenths, 10 * bytes, 1024);
    lemma_nearest_is_unique(tenths, 10 * bytes, 1024 * 1024);
    lemma_nearest_is_unique(tenths, 10 * bytes, 1024 * 1024 * 1024);
}

/// Whether `n` is the integer nearest to a fraction, or the even one of two.
pub open spec fn is_nearest(n: nat, numerator: nat, denominator: nat) -> bool {
    let off = n * denominator - numerator;
    &&& -denominator <= 2 * off <= denominator
    &&& 2 * off == denominator || 2 * off == -denominator ==> n % 2 == 0
}

proof fn lemma_nearest_is_unique(n: nat, numerator: nat, denominator: nat)
    requires
        denominator > 0,
    ensures
        is_nearest(n, numerator, denominator) ==> n == nearest_even(numerator, denominator),
{
    law_rounding_is_to_the_nearest(numerator, denominator);
    let m = nearest_even(numerator, denominator);
    if is_nearest(n, numerator, denominator) && n != m {
        assert(n * denominator - m * denominator == (n - m) * denominator) by (nonlinear_arith);
        assert(n - m == 1 || m - n == 1) by (nonlinear_arith)
            requires
                -denominator <= (n - m) * denominator <= denominator,
                denominator > 0,
                n != m,
        ;
        assert((n - m) * denominator == denominator || (n - m) * denominator == -denominator)
            by (nonlinear_arith)
            requires
                n - m == 1 || m - n == 1,
        ;
    }
}

} // verus!
