//! Text formatting for table cells and labels.
use crate::snapshot::ProcessRow;
use crate::text::{
    chars_of, decimal_spec, decimal_string, decimal_string_wide, digit_char, push_char, push_str,
};
use vstd::prelude::*;

verus! {

/// The first `max_chars` characters of `s`.
pub open spec fn truncated(s: Seq<char>, max_chars: int) -> Seq<char> {
    if s.len() <= max_chars {
        s
    } else {
        s.take(max_chars)
    }
}

/// Truncates a string to at most `max_chars` characters, never splitting a
/// character.
pub fn truncate_owned(input: &str, max_chars: usize) -> (r: String)
    ensures
        r@ == truncated(input@, max_chars as int),
{
    let cs = chars_of(input);
    let mut r = String::new();
    let mut i: usize = 0;
    while i < cs.len() && i < max_chars
        invariant
            i <= cs.len(),
            cs@ == input@,
            i <= max_chars,
            r@ == cs@.take(i as int),
        decreases cs.len() - i,
    {
        push_char(&mut r, cs[i]);
        assert(cs@.take(i as int).push(cs@[i as int]) =~= cs@.take(i + 1));
        i = i + 1;
    }
    assert(cs@.take(cs.len() as int) =~= cs@);
    r
}

/// The words joined with single spaces between them.
pub open spec fn joined(words: Seq<Seq<char>>) -> Seq<char>
    decreases words.len(),
{
    if words.len() == 0 {
        Seq::empty()
    } else if words.len() == 1 {
        words[0]
    } else {
        joined(words.drop_last()) + " "@ + words.last()
    }
}

/// Joins the parts of a command line with single spaces.
pub fn join_words(parts: &[String]) -> (r: String)
    ensures
        r@ == joined(parts@.map_values(|s: String| s@)),
{
    let ghost words = parts@.map_values(|s: String| s@);
    let mut r = String::new();
    let mut i: usize = 0;
    while i < parts.len()
        invariant
            i <= parts.len(),
            words == parts@.map_values(|s: String| s@),
            r@ == joined(words.take(i as int)),
        decreases parts.len() - i,
    {
        proof {
            assert(words.take(i + 1).drop_last() =~= words.take(i as int));
            assert(words.take(i + 1).last() == parts@[i as int]@);
        }
        if i > 0 {
            push_str(&mut r, " ");
        }
        push_str(&mut r, parts[i].as_str());
        proof {
            if i == 0 {
                assert(words.take(1)[0] == parts@[0]@);
                assert(r@ =~= joined(words.take(1)));
            }
        }
        i = i + 1;
    }
    assert(words.take(parts.len() as int) =~= words);
    r
}

/// The longest process name kept, in characters.
pub const MAX_NAME_LEN: usize = 32;

/// The longest command line kept, in characters.
pub const MAX_COMMAND_LEN: usize = 96;

/// The command shown for a process: its command line joined with spaces and
/// truncated, or its name when the command line is unknown or empty.
pub open spec fn command_text(cmdline: Option<Seq<Seq<char>>>, name: Seq<char>) -> Seq<char> {
    match cmdline {
        Some(parts) => if parts.len() > 0 {
            truncated(joined(parts), MAX_COMMAND_LEN as int)
        } else {
            name
        },
        None => name,
    }
}

/// Builds a table row from what one process reports: the name and command
/// line are truncated for display, detailed values are not loaded yet.
pub fn process_row(
    pid: i32,
    ppid: i32,
    owner_uid: u32,
    threads: u64,
    raw_name: &str,
    cmdline: Option<Vec<String>>,
    rss_bytes: u64,
    base_swap_bytes: u64,
    cpu_percent: u32,
) -> (r: ProcessRow)
    ensures
        r.pid == pid,
        r.ppid == ppid,
        r.owner_uid == owner_uid,
        r.threads == threads,
        r.name@ == truncated(raw_name@, MAX_NAME_LEN as int),
        r.command@ == command_text(
            match cmdline {
                Some(parts) => Some(parts@.map_values(|s: String| s@)),
                None => None,
            },
            truncated(raw_name@, MAX_NAME_LEN as int),
        ),
        r.rss_bytes == rss_bytes,
        r.uss_bytes is None,
        r.pss_bytes is None,
        r.base_swap_bytes == base_swap_bytes,
        r.detailed_swap_bytes is None,
        r.cpu_percent == cpu_percent,
{
    let name = truncate_owned(raw_name, MAX_NAME_LEN);
    let command = match cmdline {
        Some(parts) => if parts.len() > 0 {
            let j = join_words(parts.as_slice());
            truncate_owned(j.as_str(), MAX_COMMAND_LEN)
        } else {
            truncate_owned(name.as_str(), MAX_NAME_LEN)
        },
        None => truncate_owned(name.as_str(), MAX_NAME_LEN),
    };
    proof {
        assert(truncated(truncated(raw_name@, 32), 32) =~= truncated(raw_name@, 32));
    }
    ProcessRow {
        pid,
        ppid,
        owner_uid,
        threads,
        name,
        command,
        rss_bytes,
        uss_bytes: None,
        pss_bytes: None,
        base_swap_bytes,
        detailed_swap_bytes: None,
        cpu_percent,
    }
}

/// Two to the 52nd. A double of at least one is a whole multiple of its
/// spacing, which is at least two to the minus 52nd, so such values are held
/// exactly as whole numbers scaled by this factor.
pub open spec fn scale() -> nat {
    0x10_0000_0000_0000
}

/// Two to the 53rd: a double's significand stays below it.
pub open spec fn significand_limit() -> nat {
    0x20_0000_0000_0000
}

/// `n / d` rounded to the nearest whole number, ties to the even one.
pub open spec fn round_half_even(n: nat, d: nat) -> nat {
    let q = n / d;
    let r = n % d;
    if 2 * r > d || (2 * r == d && q % 2 == 1) {
        q + 1
    } else {
        q
    }
}

/// The spacing, in units of `d` doubling, at which `p / q` is held with a
/// significand below two to the 53rd: the smallest `d * 2^k` with
/// `p / (q * d * 2^k)` below the limit.
pub open spec fn spacing(p: nat, q: nat, d: nat) -> nat
    decreases p - d,
    when d > 0 && q > 0
{
    if p / (q * d) < significand_limit() {
        d
    } else {
        proof {
            lemma_spacing_step(p, q, d);
        }
        spacing(p, q, 2 * d)
    }
}

/// Doubling the spacing keeps it below the numerator while the quotient
/// is at least the significand limit.
pub proof fn lemma_spacing_step(p: nat, q: nat, d: nat)
    requires
        d > 0,
        q > 0,
        p / (q * d) >= significand_limit(),
    ensures
        2 * d <= p,
{
    let qd = q * d;
    assert(qd > 0) by (nonlinear_arith)
        requires
            q > 0,
            d > 0,
            qd == q * d,
    ;
    vstd::arithmetic::div_mod::lemma_fundamental_div_mod(p as int, qd as int);
    let x = p / qd;
    assert(qd * x <= p) by {
        assert(p == qd * x + p % qd);
    }
    assert(2 * d <= qd * x) by (nonlinear_arith)
        requires
            x >= significand_limit(),
            qd == q * d,
            q > 0,
            d > 0,
    ;
}

/// The double nearest to `p / q` (ties to even), in the scale `p` is given
/// in: `p / q` rounded at the spacing of doubles of its size, for `p / q`
/// of at least two to the 52nd.
pub open spec fn round53(p: nat, q: nat) -> nat {
    let u = spacing(p, q, 1);
    round_half_even(p, q * u) * u
}

/// One step of the unit loop: the value divided by the base, exactly for a
/// power of two, else rounded to the nearest double.
pub open spec fn next_scaled(v: nat, base: nat, exact: bool) -> nat {
    if exact {
        v / base
    } else {
        round53(v, base)
    }
}

/// The unit loop on a scaled value: divide while it is at least the base
/// and a larger unit is left; the final value and the unit index.
pub open spec fn scaled_steps(v: nat, idx: nat, base: nat, exact: bool) -> (nat, nat)
    decreases 4 - idx,
{
    if idx < 4 && v >= base * scale() {
        scaled_steps(next_scaled(v, base, exact), idx + 1, base, exact)
    } else {
        (v, idx)
    }
}

/// The unit names of binary sizes.
pub open spec fn binary_unit(i: nat) -> Seq<char> {
    if i == 0 {
        "B"@
    } else if i == 1 {
        "KiB"@
    } else if i == 2 {
        "MiB"@
    } else if i == 3 {
        "GiB"@
    } else {
        "TiB"@
    }
}

/// The unit names of decimal sizes.
pub open spec fn si_unit(i: nat) -> Seq<char> {
    if i == 0 {
        "B"@
    } else if i == 1 {
        "kB"@
    } else if i == 2 {
        "MB"@
    } else if i == 3 {
        "GB"@
    } else {
        "TB"@
    }
}

/// A number of tenths written with one decimal.
pub open spec fn tenths_text(t: nat) -> Seq<char> {
    decimal_spec(t / 10) + seq!['.', digit_char(t % 10)]
}

/// The label of a byte count: below the base the count itself in bytes;
/// otherwise the double nearest the count, divided by the base while it is
/// at least the base (at most to the fourth unit), written with one decimal
/// rounded to the nearest tenth (ties to even) and the unit's name.
pub open spec fn bytes_label(bytes: nat, base: nat, exact: bool, binary: bool) -> Seq<char> {
    let steps = scaled_steps(round53(bytes, 1) * scale(), 0, base, exact);
    let v = steps.0;
    let idx = steps.1;
    if idx == 0 {
        decimal_spec(bytes) + " B"@
    } else {
        tenths_text(round_half_even(v * 10, scale())) + " "@ + if binary {
            binary_unit(idx)
        } else {
            si_unit(idx)
        }
    }
}

/// The label of a byte count in binary units.
pub open spec fn binary_label(bytes: nat) -> Seq<char> {
    bytes_label(bytes, 1024, true, true)
}

/// The label of a byte count in decimal units.
pub open spec fn si_label(bytes: nat) -> Seq<char> {
    bytes_label(bytes, 1000, false, false)
}

/// `n / d` rounded to the nearest, ties to even.
fn round_half_even_exec(n: u128, d: u128) -> (r: u128)
    requires
        0 < d < 0x4000_0000_0000_0000_0000_0000_0000_0000,
    ensures
        r == round_half_even(n as nat, d as nat),
        r <= n / d + 1,
{
    let q = n / d;
    let rem = n % d;
    if 2 * rem > d || (2 * rem == d && q % 2 == 1) {
        assert(rem >= 1 && d >= 2);
        proof {
            vstd::arithmetic::div_mod::lemma_div_is_ordered_by_denominator(n as int, 2, d as int);
        }
        q + 1
    } else {
        q
    }
}

/// `k <= p / q` when `q * k <= p`.
proof fn lemma_below_quotient(k: int, p: int, q: int)
    requires
        q > 0,
        k >= 0,
        q * k <= p,
    ensures
        k <= p / q,
{
    vstd::arithmetic::div_mod::lemma_div_is_ordered(q * k, p, q);
    vstd::arithmetic::div_mod::lemma_div_multiples_vanish(k, q);
}

/// The double nearest to `p / q`, in the scale of `p`.
fn round53_exec(p: u128, q: u128) -> (r: u128)
    requires
        1 <= q <= 1024,
        p < 0x40_0000_0000_0000_0000_0000_0000_0000,
    ensures
        r == round53(p as nat, q as nat),
        r <= p / q + (p as nat) / scale() + 1,
{
    let mut d: u128 = 1;
    let mut qd: u128 = q;
    while p / qd >= 0x20_0000_0000_0000
        invariant
            1 <= q <= 1024,
            p < 0x40_0000_0000_0000_0000_0000_0000_0000,
            d >= 1,
            qd >= 1,
            qd == q * d,
            d == 1 || qd * scale() <= p,
            qd <= 0x40_0000_0000_0000_0000_0000_0000_0000,
            spacing(p as nat, q as nat, d as nat) == spacing(p as nat, q as nat, 1),
        decreases p - d,
    {
        proof {
            assert(qd >= 1) by (nonlinear_arith)
                requires
                    qd == q * d,
                    q >= 1,
                    d >= 1,
            ;
            lemma_spacing_step(p as nat, q as nat, d as nat);
            vstd::arithmetic::div_mod::lemma_fundamental_div_mod(p as int, qd as int);
            let x = p / qd;
            assert(qd * x <= p) by {
                vstd::arithmetic::div_mod::lemma_mod_pos_bound(p as int, qd as int);
            }
            assert(2 * qd * scale() <= p) by (nonlinear_arith)
                requires
                    qd * x <= p,
                    x >= significand_limit(),
                    qd >= 1,
                    scale() * 2 == significand_limit(),
            ;
            assert(q * (2 * d) == 2 * qd) by (nonlinear_arith)
                requires
                    qd == q * d,
            ;
        }
        d = 2 * d;
        qd = 2 * qd;
    }
    proof {
        assert(qd >= 1) by (nonlinear_arith)
            requires
                qd == q * d,
                q >= 1,
                d >= 1,
        ;
    }
    let m = round_half_even_exec(p, qd);
    proof {
        let x = p / qd;
        vstd::arithmetic::div_mod::lemma_fundamental_div_mod(p as int, qd as int);
        vstd::arithmetic::div_mod::lemma_mod_pos_bound(p as int, qd as int);
        assert(q * (d * x) <= p) by (nonlinear_arith)
            requires
                qd * x <= p,
                qd == q * d,
        ;
        assert(d * x >= 0) by (nonlinear_arith)
            requires
                d >= 1,
                x >= 0,
        ;
        lemma_below_quotient(d * x, p as int, q as int);
        assert(m * d <= d * x + d) by (nonlinear_arith)
            requires
                m <= x + 1,
                d >= 1,
        ;
        if d > 1 {
            assert(scale() * d <= p) by (nonlinear_arith)
                requires
                    qd * scale() <= p,
                    qd == q * d,
                    q >= 1,
                    d >= 1,
            ;
            lemma_below_quotient(d as int, p as int, scale() as int);
        }
    }
    m * d
}

/// A count below two to the 53rd is held exactly.
proof fn lemma_small_counts_exact(n: nat)
    requires
        n < significand_limit(),
    ensures
        round53(n, 1) == n,
{
    assert(n / (1nat * 1nat) == n);
    assert(spacing(n, 1, 1) == 1);
    assert(n / 1nat == n && n % 1nat == 0);
}

/// The label of `bytes` in the units of `base`, dividing exactly when the
/// base is a power of two.
fn format_bytes_with_base(bytes: u64, base: u128, exact: bool) -> (r: String)
    requires
        base == 1024 && exact || base == 1000 && !exact,
    ensures
        r@ == bytes_label(bytes as nat, base as nat, exact, exact),
        bytes < base ==> r@ == decimal_spec(bytes as nat) + " B"@,
{
    let f = round53_exec(bytes as u128, 1);
    proof {
        if bytes < base {
            lemma_small_counts_exact(bytes as nat);
        }
    }
    let mut v: u128 = f * 0x10_0000_0000_0000;
    let mut idx: u64 = 0;
    let ghost start = v as nat;
    while idx < 4 && v >= base * 0x10_0000_0000_0000
        invariant
            base == 1024 && exact || base == 1000 && !exact,
            idx <= 4,
            v < 0x40_0000_0000_0000_0000_0000_0000_0000,
            start == round53(bytes as nat, 1) * scale(),
            scaled_steps(v as nat, idx as nat, base as nat, exact) == scaled_steps(
                start,
                0,
                base as nat,
                exact,
            ),
        decreases 4 - idx,
    {
        if exact {
            v = v / base;
        } else {
            let next = round53_exec(v, base);
            assert(next < 0x40_0000_0000_0000_0000_0000_0000_0000) by (nonlinear_arith)
                requires
                    next <= v / base + (v as nat) / scale() + 1,
                    base == 1000,
                    v < 0x40_0000_0000_0000_0000_0000_0000_0000,
                    v >= 1000 * scale(),
                    scale() == 0x10_0000_0000_0000,
            ;
            v = next;
        }
        idx = idx + 1;
    }
    let mut r = String::new();
    if idx == 0 {
        push_str(&mut r, decimal_string(bytes).as_str());
        push_str(&mut r, " B");
        return r;
    }
    let t = round_half_even_exec(v * 10, 0x10_0000_0000_0000);
    push_str(&mut r, decimal_string_wide(t / 10).as_str());
    push_char(&mut r, '.');
    push_char(&mut r, crate::text::digit_of((t % 10) as u64));
    push_str(&mut r, " ");
    let unit = if exact {
        match idx {
            1 => "KiB",
            2 => "MiB",
            3 => "GiB",
            _ => "TiB",
        }
    } else {
        match idx {
            1 => "kB",
            2 => "MB",
            3 => "GB",
            _ => "TB",
        }
    };
    push_str(&mut r, unit);
    r
}

/// Formats a byte count with binary units such as `KiB`, `MiB` and `GiB`,
/// for compact table and chart labels.
pub fn format_bytes(bytes: u64) -> (r: String)
    ensures
        r@ == binary_label(bytes as nat),
        bytes < 1024 ==> r@ == decimal_spec(bytes as nat) + " B"@,
{
    format_bytes_with_base(bytes, 1024, true)
}

/// Formats a byte count with decimal units such as `kB`, `MB` and `GB`,
/// for compact table and chart labels.
pub fn format_bytes_si(bytes: u64) -> (r: String)
    ensures
        r@ == si_label(bytes as nat),
        bytes < 1000 ==> r@ == decimal_spec(bytes as nat) + " B"@,
{
    format_bytes_with_base(bytes, 1000, false)
}

/// Formats an optional byte count in binary units, `N/A` when no value is
/// available.
pub fn format_option_bytes(value: Option<u64>) -> (r: String)
    ensures
        r@ == match value {
            Some(b) => binary_label(b as nat),
            None => "N/A"@,
        },
{
    match value {
        Some(b) => format_bytes(b),
        None => {
            let mut r = String::new();
            push_str(&mut r, "N/A");
            r
        },
    }
}

/// Formats an optional byte count in decimal units, `N/A` when no value is
/// available.
pub fn format_option_bytes_si(value: Option<u64>) -> (r: String)
    ensures
        r@ == match value {
            Some(b) => si_label(b as nat),
            None => "N/A"@,
        },
{
    match value {
        Some(b) => format_bytes_si(b),
        None => {
            let mut r = String::new();
            push_str(&mut r, "N/A");
            r
        },
    }
}

} // verus!
