//! The canonical text of a log entry `(seq, output, prev_hash)`: JSON with
//! fields in schema order, no insignificant whitespace, integers in decimal
//! without leading zeros, enumerations by name, and each binary64 value as the
//! 16 lowercase hexadecimal digits of its bit pattern, which round-trips
//! exactly and keeps `-0` apart from `0`.
use vstd::prelude::*;
use crate::digest::{hex_digit, hex_digit_exec};
use crate::float::Float64;
use crate::model::{ConstrainedCommand, KernelOutput};
use crate::text::chars_of;
use crate::verdict::{ReasonCode, Verdict};

verus! {

/// Decimal digits of `n`, without leading zeros.
pub open spec fn decimal(n: nat) -> Seq<char>
    decreases n,
{
    if n < 10 {
        seq![hex_digit(n as int)]
    } else {
        decimal(n / 10).push(hex_digit((n % 10) as int))
    }
}

pub open spec fn verdict_name(v: Verdict) -> Seq<char> {
    match v {
        Verdict::Allow => "Allow"@,
        Verdict::Clamp => "Clamp"@,
        Verdict::Hold => "Hold"@,
        Verdict::Override => "Override"@,
        Verdict::Shutdown => "Shutdown"@,
    }
}

pub open spec fn reason_name(r: ReasonCode) -> Seq<char> {
    match r {
        ReasonCode::StateInvalidFrame => "StateInvalidFrame"@,
        ReasonCode::StateOutOfBounds => "StateOutOfBounds"@,
        ReasonCode::FlowConstraintViolation => "FlowConstraintViolation"@,
        ReasonCode::EnergyBudgetExceeded => "EnergyBudgetExceeded"@,
        ReasonCode::TemporalGuaranteeViolation => "TemporalGuaranteeViolation"@,
        ReasonCode::InvariantViolation => "InvariantViolation"@,
        ReasonCode::InputStale => "InputStale"@,
        ReasonCode::DeadlineMiss => "DeadlineMiss"@,
    }
}

/// A character inside a JSON string: quote, backslash and control
/// characters escaped, anything else as it is.
pub open spec fn escape_char(c: char) -> Seq<char> {
    if c == '"' {
        seq!['\\', '"']
    } else if c == '\\' {
        seq!['\\', '\\']
    } else if c == '\n' {
        seq!['\\', 'n']
    } else if c == '\r' {
        seq!['\\', 'r']
    } else if c == '\t' {
        seq!['\\', 't']
    } else if c == '\u{8}' {
        seq!['\\', 'b']
    } else if c == '\u{c}' {
        seq!['\\', 'f']
    } else if (c as u32) < 0x20 {
        seq!['\\', 'u', '0', '0', hex_digit((c as u32) as int / 16), hex_digit((c as u32) as int % 16)]
    } else {
        seq![c]
    }
}

pub open spec fn escaped(s: Seq<char>) -> Seq<char>
    decreases s.len(),
{
    if s.len() == 0 {
        Seq::empty()
    } else {
        escaped(s.drop_last()) + escape_char(s.last())
    }
}

pub open spec fn quoted(s: Seq<char>) -> Seq<char> {
    seq!['"'] + s + seq!['"']
}

pub open spec fn json_string(s: Seq<char>) -> Seq<char> {
    quoted(escaped(s))
}

/// Byte `i` (0 is the most significant) of a 64-bit pattern.
pub open spec fn byte_of(bits: u64, i: int) -> u8 {
    ((bits as int / pow256(7 - i)) % 256) as u8
}

pub open spec fn pow256(k: int) -> int
    decreases k,
{
    if k <= 0 {
        1
    } else {
        256 * pow256(k - 1)
    }
}

proof fn lemma_pow256_positive(k: int)
    ensures
        pow256(k) >= 1,
    decreases k,
{
    if k > 0 {
        lemma_pow256_positive(k - 1);
    }
}

pub open spec fn float_text(x: Float64) -> Seq<char> {
    quoted(crate::digest::hex_text(Seq::new(8, |i: int| byte_of(x.bits, i))))
}

/// The names of `rs` as JSON strings, separated by commas.
pub open spec fn reason_items(rs: Seq<ReasonCode>) -> Seq<char>
    decreases rs.len(),
{
    if rs.len() == 0 {
        Seq::empty()
    } else if rs.len() == 1 {
        quoted(reason_name(rs[0]))
    } else {
        reason_items(rs.drop_last()) + seq![','] + quoted(reason_name(rs.last()))
    }
}

pub open spec fn bool_text(b: bool) -> Seq<char> {
    if b {
        "true"@
    } else {
        "false"@
    }
}

pub open spec fn command_text(c: ConstrainedCommand) -> Seq<char> {
    "{\"applied_rates_dps\":["@ + float_text(c.applied_rates_dps@[0]) + seq![','] + float_text(
        c.applied_rates_dps@[1],
    ) + seq![','] + float_text(c.applied_rates_dps@[2]) + "],\"applied_climb_mps\":"@ + float_text(
        c.applied_climb_mps,
    ) + ",\"shutdown\":"@ + bool_text(c.shutdown) + seq!['}']
}

pub open spec fn output_text(
    verdict: Verdict,
    reasons: Seq<ReasonCode>,
    command: ConstrainedCommand,
    fingerprint: Seq<char>,
) -> Seq<char> {
    "{\"verdict\":"@ + quoted(verdict_name(verdict)) + ",\"reasons\":["@ + reason_items(reasons)
        + "],\"command\":"@ + command_text(command) + ",\"contract_fingerprint\":"@ + json_string(
        fingerprint,
    ) + seq!['}']
}

/// The canonical text of the log entry `(seq, output, prev_hash)`, the output
/// given by its verdict, reasons, command and fingerprint.
#[verifier::opaque]
pub open spec fn record_text(
    seq: u64,
    verdict: Verdict,
    reasons: Seq<ReasonCode>,
    command: ConstrainedCommand,
    fingerprint: Seq<char>,
    prev_hash: Seq<char>,
) -> Seq<char> {
    seq!['['] + decimal(seq as nat) + seq![','] + output_text(verdict, reasons, command, fingerprint)
        + seq![','] + json_string(prev_hash) + seq![']']
}

pub(crate) fn push_str(out: &mut Vec<char>, s: &str)
    ensures
        final(out)@ == old(out)@ + s@,
{
    let cs = chars_of(s);
    let mut i: usize = 0;
    let ghost base = out@;
    while i < cs.len()
        invariant
            i <= cs@.len(),
            out@ == base + cs@.take(i as int),
        decreases cs@.len() - i,
    {
        out.push(cs[i]);
        i = i + 1;
        proof {
            assert(cs@.take(i as int) =~= cs@.take(i - 1).push(cs@[i - 1]));
            assert(out@ =~= base + cs@.take(i as int));
        }
    }
    proof {
        assert(cs@.take(i as int) =~= cs@);
    }
}

pub(crate) fn push_decimal(out: &mut Vec<char>, n: u64)
    ensures
        final(out)@ == old(out)@ + decimal(n as nat),
    decreases n,
{
    if n >= 10 {
        push_decimal(out, n / 10);
    }
    out.push(hex_digit_exec(n % 10));
    proof {
        if n >= 10 {
            assert(out@ =~= old(out)@ + decimal(n as nat));
        } else {
            assert(out@ =~= old(out)@ + decimal(n as nat));
        }
    }
}

fn push_escaped(out: &mut Vec<char>, s: &String)
    ensures
        final(out)@ == old(out)@ + json_string(s@),
{
    let cs = chars_of(s.as_str());
    out.push('"');
    let ghost base = out@;
    let mut i: usize = 0;
    proof {
        assert(cs@.take(0) =~= Seq::<char>::empty());
        assert(out@ =~= base + escaped(cs@.take(0)));
    }
    while i < cs.len()
        invariant
            i <= cs@.len(),
            out@ == base + escaped(cs@.take(i as int)),
        decreases cs@.len() - i,
    {
        let c = cs[i];
        let ghost before = out@;
        if c == '"' {
            out.push('\\');
            out.push('"');
        } else if c == '\\' {
            out.push('\\');
            out.push('\\');
        } else if c == '\n' {
            out.push('\\');
            out.push('n');
        } else if c == '\r' {
            out.push('\\');
            out.push('r');
        } else if c == '\t' {
            out.push('\\');
            out.push('t');
        } else if c == '\u{8}' {
            out.push('\\');
            out.push('b');
        } else if c == '\u{c}' {
            out.push('\\');
            out.push('f');
        } else if (c as u32) < 0x20 {
            let code = c as u32 as u64;
            out.push('\\');
            out.push('u');
            out.push('0');
            out.push('0');
            out.push(hex_digit_exec(code / 16));
            out.push(hex_digit_exec(code % 16));
        } else {
            out.push(c);
        }
        proof {
            assert(out@ =~= before + escape_char(c));
            assert(cs@.take(i + 1).drop_last() =~= cs@.take(i as int));
        }
        i = i + 1;
    }
    out.push('"');
    proof {
        assert(cs@.take(i as int) =~= cs@);
        assert(out@ =~= old(out)@ + json_string(s@));
    }
}

fn push_float(out: &mut Vec<char>, x: Float64)
    ensures
        final(out)@ == old(out)@ + float_text(x),
{
    let ghost bytes = Seq::new(8, |i: int| byte_of(x.bits, i));
    out.push('"');
    let ghost base = out@;
    let mut i: usize = 0;
    let mut div: u64 = 0x0100_0000_0000_0000;
    proof {
        assert(bytes.take(0) =~= Seq::<u8>::empty());
        assert(out@ =~= base + crate::digest::hex_text(bytes.take(0)));
        reveal_with_fuel(pow256, 8);
        assert(pow256(7) == 0x0100_0000_0000_0000);
    }
    while i < 8
        invariant
            i <= 8,
            div as int == pow256(7 - i),
            bytes == Seq::new(8, |i: int| byte_of(x.bits, i)),
            out@ == base + crate::digest::hex_text(bytes.take(i as int)),
        decreases 8 - i,
    {
        proof {
            lemma_pow256_positive(7 - i);
        }
        let b = (x.bits / div) % 256;
        proof {
            assert(b == bytes[i as int]);
            assert(bytes.take(i + 1).drop_last() =~= bytes.take(i as int));
            assert(bytes.take(i + 1).last() == bytes[i as int]);
        }
        out.push(hex_digit_exec(b / 16));
        out.push(hex_digit_exec(b % 16));
        proof {
            assert(out@ =~= base + crate::digest::hex_text(bytes.take(i + 1)));
        }
        i = i + 1;
        if i < 8 {
            proof {
                lemma_pow256_positive(7 - i);
                assert(pow256(8 - i) == 256 * pow256(7 - i));
            }
            div = div / 256;
        }
    }
    out.push('"');
    proof {
        assert(bytes.take(8) =~= bytes);
        assert(out@ =~= old(out)@ + float_text(x));
    }
}

fn verdict_label(v: Verdict) -> (r: &'static str)
    ensures
        r@ == verdict_name(v),
{
    match v {
        Verdict::Allow => "Allow",
        Verdict::Clamp => "Clamp",
        Verdict::Hold => "Hold",
        Verdict::Override => "Override",
        Verdict::Shutdown => "Shutdown",
    }
}

pub(crate) fn reason_label(r: ReasonCode) -> (s: &'static str)
    ensures
        s@ == reason_name(r),
{
    match r {
        ReasonCode::StateInvalidFrame => "StateInvalidFrame",
        ReasonCode::StateOutOfBounds => "StateOutOfBounds",
        ReasonCode::FlowConstraintViolation => "FlowConstraintViolation",
        ReasonCode::EnergyBudgetExceeded => "EnergyBudgetExceeded",
        ReasonCode::TemporalGuaranteeViolation => "TemporalGuaranteeViolation",
        ReasonCode::InvariantViolation => "InvariantViolation",
        ReasonCode::InputStale => "InputStale",
        ReasonCode::DeadlineMiss => "DeadlineMiss",
    }
}

fn push_reasons(out: &mut Vec<char>, rs: &Vec<ReasonCode>)
    ensures
        final(out)@ == old(out)@ + reason_items(rs@),
{
    let ghost base = out@;
    let mut i: usize = 0;
    proof {
        assert(out@ =~= base + reason_items(rs@.take(0)));
    }
    while i < rs.len()
        invariant
            i <= rs@.len(),
            out@ == base + reason_items(rs@.take(i as int)),
        decreases rs@.len() - i,
    {
        let ghost before = out@;
        if i > 0 {
            out.push(',');
        }
        out.push('"');
        push_str(out, reason_label(rs[i]));
        out.push('"');
        proof {
            let now = rs@.take(i + 1);
            assert(now.drop_last() =~= rs@.take(i as int));
            if i == 0 {
                assert(out@ =~= base + reason_items(now));
            } else {
                assert(out@ =~= base + reason_items(now));
            }
        }
        i = i + 1;
    }
    proof {
        assert(rs@.take(i as int) =~= rs@);
    }
}

fn push_command(out: &mut Vec<char>, c: &ConstrainedCommand)
    ensures
        final(out)@ == old(out)@ + command_text(*c),
{
    push_str(out, "{\"applied_rates_dps\":[");
    push_float(out, c.applied_rates_dps[0]);
    out.push(',');
    push_float(out, c.applied_rates_dps[1]);
    out.push(',');
    push_float(out, c.applied_rates_dps[2]);
    push_str(out, "],\"applied_climb_mps\":");
    push_float(out, c.applied_climb_mps);
    push_str(out, ",\"shutdown\":");
    if c.shutdown {
        push_str(out, "true");
    } else {
        push_str(out, "false");
    }
    out.push('}');
    proof {
        assert(out@ =~= old(out)@ + command_text(*c));
    }
}

/// Writes the canonical text of the log entry `(seq, out, prev_hash)`.
pub fn encode_record(seq: u64, out: &KernelOutput, prev_hash: &String) -> (r: Vec<char>)
    ensures
        r@ == record_text(
            seq,
            out.verdict,
            out.reasons@,
            out.command,
            out.contract_fingerprint@,
            prev_hash@,
        ),
{
    let mut text: Vec<char> = Vec::new();
    text.push('[');
    push_decimal(&mut text, seq);
    text.push(',');
    push_str(&mut text, "{\"verdict\":");
    text.push('"');
    push_str(&mut text, verdict_label(out.verdict));
    text.push('"');
    push_str(&mut text, ",\"reasons\":[");
    push_reasons(&mut text, &out.reasons);
    push_str(&mut text, "],\"command\":");
    push_command(&mut text, &out.command);
    push_str(&mut text, ",\"contract_fingerprint\":");
    push_escaped(&mut text, &out.contract_fingerprint);
    text.push('}');
    text.push(',');
    push_escaped(&mut text, prev_hash);
    text.push(']');
    proof {
        reveal(record_text);
        assert(text@ =~= record_text(
            seq,
            out.verdict,
            out.reasons@,
            out.command,
            out.contract_fingerprint@,
            prev_hash@,
        ));
    }
    text
}

} // verus!
