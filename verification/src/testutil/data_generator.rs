//! Generated serial output.
use vstd::prelude::*;

use crate::text::{copy_text, dec, fixed_dec, push_dec, push_fixed};

verus! {

/// Generates realistic serial output for testing.
pub struct TestDataGenerator;

/// `n` in capital hex digits, at least `width` of them.
pub open spec fn hex_padded(n: nat, width: nat) -> Seq<char>
    decreases n + width,
{
    if n == 0 && width == 0 {
        Seq::empty()
    } else {
        hex_padded(
            n / 16,
            if width == 0 {
                0
            } else {
                (width - 1) as nat
            },
        ).push(crate::hex::hex_digit((n % 16) as int, true))
    }
}

/// Append `n` in capital hex digits, at least `width` of them.
fn push_hex_padded(out: &mut String, n: u64, width: usize)
    ensures
        final(out)@ == old(out)@ + hex_padded(n as nat, width as nat),
    decreases n + width,
{
    if n == 0 && width == 0 {
        proof {
            assert(out@ =~= old(out)@ + hex_padded(n as nat, width as nat));
        }
        return;
    }
    push_hex_padded(
        out,
        n / 16,
        if width == 0 {
            0
        } else {
            width - 1
        },
    );
    out.push(crate::hex::digit_of((n % 16) as u8, true));
    proof {
        assert(out@ =~= old(out)@ + hex_padded(n as nat, width as nat));
    }
}

/// A line of an error burst.
pub open spec fn error_line(i: int) -> Seq<char> {
    "[ERROR] fault at 0x"@ + hex_padded((0x2000_0000 + i * 4) as nat, 8)
        + ": segmentation violation (iter "@ + dec(i as nat) + ")"@
}

/// A sequential line: `i` milliseconds after the start.
pub open spec fn sequential_line(i: int) -> Seq<char> {
    "["@ + dec((i / 1000) as nat) + "."@ + fixed_dec(i % 1000, 3) + "] sensor reading #"@ + dec(
        i as nat,
    ) + ": value="@ + dec((i * 42) as nat)
}

/// A line of mixed traffic.
pub open spec fn mixed_line(i: int) -> Seq<char> {
    if i % 10 == 0 {
        "[ERROR] watchdog timeout at tick "@ + dec(i as nat)
    } else if i % 10 == 1 {
        "[WARN] buffer usage at "@ + dec((50 + i % 50) as nat) + "%"@
    } else if i % 10 == 2 {
        "[PANIC] stack overflow in task_"@ + dec((i % 5) as nat)
    } else if i % 10 == 3 {
        "[DEBUG] heap free: "@ + dec((1024 * (100 - i % 100)) as nat) + " bytes"@
    } else {
        "[INFO] heartbeat #"@ + dec(i as nat) + " ok"@
    }
}

/// The lines of a device boot.
pub open spec fn boot_lines() -> Seq<Seq<char>> {
    seq![
        "[0.000] Bootloader v2.1.0"@,
        "[0.001] CPU: ARM Cortex-M4 @ 168MHz"@,
        "[0.002] RAM: 192KB, Flash: 1MB"@,
        "[0.010] Initializing peripherals..."@,
        "[0.015] UART0: 115200 8N1"@,
        "[0.020] SPI0: 42MHz"@,
        "[0.025] I2C0: 400kHz"@,
        "[0.100] Firmware: app v1.3.7 (build 2026-01-15)"@,
        "[0.101] Starting main loop"@,
    ]
}

/// A line of the search corpus: one exact target, 50 substring targets, 20 pattern targets, and 30
/// others.
pub open spec fn corpus_line(i: int) -> Seq<char> {
    if i == 0 {
        "exact match"@
    } else if i <= 50 {
        "[ERROR] connection refused (attempt "@ + dec((i - 1) as nat) + ")"@
    } else if i <= 70 {
        "[2026-01-15T10:"@ + fixed_dec(i - 51, 2) + ":00Z] scheduled task completed"@
    } else {
        "normal operation line "@ + dec((i - 71) as nat)
    }
}

/// The point in time, in nanoseconds since 1970, lies in the range of the calendar.
pub open spec fn calendar_holds(ns: int) -> bool {
    -8_334_601_228_800_000_000_000 <= ns <= 8_210_266_876_799_999_999_999
}

/// The product, held at the ends of the 64-bit integers.
pub open spec fn saturated_product(a: int, b: int) -> int {
    if a * b > i64::MAX {
        i64::MAX as int
    } else if a * b < i64::MIN {
        i64::MIN as int
    } else {
        a * b
    }
}

/// The time of line `i`, in nanoseconds since 1970.
pub open spec fn line_time(base_ns: int, interval_ms: int, i: int) -> int {
    base_ns + saturated_product(interval_ms, i) * 1_000_000
}

impl TestDataGenerator {
    /// Generate a typical device boot sequence.
    pub fn boot_sequence() -> (r: Vec<String>)
        ensures
            crate::text::texts(r@) == boot_lines(),
    {
        let mut v: Vec<String> = Vec::new();
        v.push(copy_text("[0.000] Bootloader v2.1.0"));
        v.push(copy_text("[0.001] CPU: ARM Cortex-M4 @ 168MHz"));
        v.push(copy_text("[0.002] RAM: 192KB, Flash: 1MB"));
        v.push(copy_text("[0.010] Initializing peripherals..."));
        v.push(copy_text("[0.015] UART0: 115200 8N1"));
        v.push(copy_text("[0.020] SPI0: 42MHz"));
        v.push(copy_text("[0.025] I2C0: 400kHz"));
        v.push(copy_text("[0.100] Firmware: app v1.3.7 (build 2026-01-15)"));
        v.push(copy_text("[0.101] Starting main loop"));
        proof {
            assert(crate::text::texts(v@) =~= boot_lines());
        }
        v
    }

    /// Generate error burst lines.
    pub fn error_burst(count: usize) -> (r: Vec<String>)
        requires
            0x2000_0000 + (count - 1) * 4 <= usize::MAX,
        ensures
            r@.len() == count,
            forall|i: int| 0 <= i < count ==> (#[trigger] r@[i])@ == error_line(i),
    {
        let mut v: Vec<String> = Vec::new();
        let mut i: usize = 0;
        while i < count
            invariant
                i <= count,
                0x2000_0000 + (count - 1) * 4 <= usize::MAX,
                v@.len() == i,
                forall|k: int| 0 <= k < i ==> (#[trigger] v@[k])@ == error_line(k),
            decreases count - i,
        {
            let mut s = copy_text("[ERROR] fault at 0x");
            push_hex_padded(&mut s, (0x2000_0000 + i * 4) as u64, 8);
            s.append(": segmentation violation (iter ");
            push_dec(&mut s, i as u64);
            s.append(")");
            v.push(s);
            i = i + 1;
        }
        v
    }

    /// Generate sequential lines with timestamps.
    pub fn sequential_lines(count: usize) -> (r: Vec<String>)
        requires
            (count - 1) * 42 <= usize::MAX,
        ensures
            r@.len() == count,
            forall|i: int| 0 <= i < count ==> (#[trigger] r@[i])@ == sequential_line(i),
    {
        let mut v: Vec<String> = Vec::new();
        let mut i: usize = 0;
        while i < count
            invariant
                i <= count,
                (count - 1) * 42 <= usize::MAX,
                v@.len() == i,
                forall|k: int| 0 <= k < i ==> (#[trigger] v@[k])@ == sequential_line(k),
            decreases count - i,
        {
            let mut s = copy_text("[");
            push_dec(&mut s, (i / 1000) as u64);
            s.append(".");
            push_fixed(&mut s, (i % 1000) as u64, 3);
            s.append("] sensor reading #");
            push_dec(&mut s, i as u64);
            s.append(": value=");
            push_dec(&mut s, (i * 42) as u64);
            v.push(s);
            i = i + 1;
        }
        v
    }

    /// Generate lines with mixed content for search testing.
    pub fn mixed_traffic(count: usize) -> (r: Vec<String>)
        ensures
            r@.len() == count,
            forall|i: int| 0 <= i < count ==> (#[trigger] r@[i])@ == mixed_line(i),
    {
        let mut v: Vec<String> = Vec::new();
        let mut i: usize = 0;
        while i < count
            invariant
                i <= count,
                v@.len() == i,
                forall|k: int| 0 <= k < i ==> (#[trigger] v@[k])@ == mixed_line(k),
            decreases count - i,
        {
            let s = match i % 10 {
                0 => {
                    let mut s = copy_text("[ERROR] watchdog timeout at tick ");
                    push_dec(&mut s, i as u64);
                    s
                },
                1 => {
                    let mut s = copy_text("[WARN] buffer usage at ");
                    push_dec(&mut s, (50 + i % 50) as u64);
                    s.append("%");
                    s
                },
                2 => {
                    let mut s = copy_text("[PANIC] stack overflow in task_");
                    push_dec(&mut s, (i % 5) as u64);
                    s
                },
                3 => {
                    let mut s = copy_text("[DEBUG] heap free: ");
                    push_dec(&mut s, (1024 * (100 - i % 100)) as u64);
                    s.append(" bytes");
                    s
                },
                _ => {
                    let mut s = copy_text("[INFO] heartbeat #");
                    push_dec(&mut s, i as u64);
                    s.append(" ok");
                    s
                },
            };
            v.push(s);
            i = i + 1;
        }
        v
    }

    /// Generate lines with specific patterns for search regression testing.
    pub fn search_corpus() -> (r: Vec<String>)
        ensures
            r@.len() == 101,
            forall|i: int| 0 <= i < 101 ==> (#[trigger] r@[i])@ == corpus_line(i),
    {
        let mut v: Vec<String> = Vec::new();
        v.push(copy_text("exact match"));
        let mut i: u64 = 0;
        while i < 50
            invariant
                i <= 50,
                v@.len() == 1 + i,
                forall|k: int| 0 <= k < 1 + i ==> (#[trigger] v@[k])@ == corpus_line(k),
            decreases 50 - i,
        {
            let mut s = copy_text("[ERROR] connection refused (attempt ");
            push_dec(&mut s, i);
            s.append(")");
            v.push(s);
            i = i + 1;
        }
        i = 0;
        while i < 20
            invariant
                i <= 20,
                v@.len() == 51 + i,
                forall|k: int| 0 <= k < 51 + i ==> (#[trigger] v@[k])@ == corpus_line(k),
            decreases 20 - i,
        {
            let mut s = copy_text("[2026-01-15T10:");
            push_fixed(&mut s, i, 2);
            s.append(":00Z] scheduled task completed");
            v.push(s);
            i = i + 1;
        }
        i = 0;
        while i < 30
            invariant
                i <= 30,
                v@.len() == 71 + i,
                forall|k: int| 0 <= k < 71 + i ==> (#[trigger] v@[k])@ == corpus_line(k),
            decreases 30 - i,
        {
            let mut s = copy_text("normal operation line ");
            push_dec(&mut s, i);
            v.push(s);
            i = i + 1;
        }
        v
    }

    /// Generate timestamps for `count` lines, the first at `base_ns`. A time that does not fit into 64
    /// bits of nanoseconds becomes 0.
    pub fn timestamps(count: usize, base_ns: i64, interval_ms: i64) -> (r: Vec<i64>)
        requires
            forall|i: int|
                0 <= i < count ==> calendar_holds(
                    #[trigger] line_time(base_ns as int, interval_ms as int, i),
                ),
        ensures
            r@.len() == count,
            forall|i: int|
                0 <= i < count ==> (#[trigger] r@[i]) == ({
                    let t = line_time(base_ns as int, interval_ms as int, i);
                    if i64::MIN <= t <= i64::MAX {
                        t
                    } else {
                        0
                    }
                }),
    {
        let mut v: Vec<i64> = Vec::new();
        let mut i: usize = 0;
        while i < count
            invariant
                i <= count,
                v@.len() == i,
                forall|k: int|
                    0 <= k < i ==> (#[trigger] v@[k]) == ({
                        let t = line_time(base_ns as int, interval_ms as int, k);
                        if i64::MIN <= t <= i64::MAX {
                            t
                        } else {
                            0
                        }
                    }),
            decreases count - i,
        {
            proof {
                product_bound(interval_ms as int, i as int);
            }
            let product: i128 = interval_ms as i128 * i as i128;
            let offset: i128 = if product > i64::MAX as i128 {
                i64::MAX as i128
            } else if product < i64::MIN as i128 {
                i64::MIN as i128
            } else {
                product
            };
            let t: i128 = base_ns as i128 + offset * 1_000_000;
            v.push(
                if i64::MIN as i128 <= t && t <= i64::MAX as i128 {
                    t as i64
                } else {
                    0
                },
            );
            i = i + 1;
        }
        v
    }
}

/// The product of two 64-bit numbers fits into 128 bits.
proof fn product_bound(a: int, b: int)
    requires
        i64::MIN <= a <= i64::MAX,
        0 <= b <= u64::MAX,
    ensures
        i128::MIN <= a * b <= i128::MAX,
{
    assert(-0x8000_0000_0000_0000 * 0xffff_ffff_ffff_ffff <= a * b <= 0x7fff_ffff_ffff_ffff
        * 0xffff_ffff_ffff_ffff) by (nonlinear_arith)
        requires
            -0x8000_0000_0000_0000 <= a <= 0x7fff_ffff_ffff_ffff,
            0 <= b <= 0xffff_ffff_ffff_ffff,
    ;
}

// --- Laws ---

/// The times of later lines are later, as long as they fit.
pub proof fn law_times_ascend(base_ns: int, interval_ms: int, i: int, j: int)
    requires
        interval_ms > 0,
        0 <= i < j,
        interval_ms * j <= i64::MAX,
    ensures
        line_time(base_ns, interval_ms, i) < line_time(base_ns, interval_ms, j),
{
    assert(0 <= interval_ms * i < interval_ms * j) by (nonlinear_arith)
        requires
            interval_ms > 0,
            0 <= i < j,
    ;
}

/// Mixed traffic goes in tens: an error, a warning, a panic, a debug line and six lines of information,
/// each with the numbers of its place.
pub proof fn law_mixed_traffic(k: int, r: int)
    requires
        k >= 0,
        4 <= r < 10,
    ensures
        mixed_line(10 * k) == "[ERROR] watchdog timeout at tick "@ + dec((10 * k) as nat),
        mixed_line(10 * k + 1) == "[WARN] buffer usage at "@ + dec(
            (50 + (10 * k + 1) % 50) as nat,
        ) + "%"@,
        mixed_line(10 * k + 2) == "[PANIC] stack overflow in task_"@ + dec(2),
        mixed_line(10 * k + 3) == "[DEBUG] heap free: "@ + dec(
            (1024 * (100 - (10 * k + 3) % 100)) as nat,
        ) + " bytes"@,
        mixed_line(10 * k + r) == "[INFO] heartbeat #"@ + dec((10 * k + r) as nat) + " ok"@,
{
    assert((10 * k) % 10 == 0);
    assert((10 * k + 1) % 10 == 1);
    assert((10 * k + 2) % 10 == 2);
    assert((10 * k + 3) % 10 == 3);
    assert((10 * k + r) % 10 == r);
    assert((10 * k + 2) % 5 == 2);
}

/// The search corpus has one exact line first, then fifty errors and twenty scheduled tasks, each
/// counted from 0, and ordinary lines after that.
pub proof fn law_corpus(attempt: int, minute: int, n: int)
    requires
        0 <= attempt < 50,
        0 <= minute < 20,
        n >= 0,
    ensures
        corpus_line(0) == "exact match"@,
        corpus_line(1 + attempt) == "[ERROR] connection refused (attempt "@ + dec(attempt as nat)
            + ")"@,
        corpus_line(51 + minute) == "[2026-01-15T10:"@ + fixed_dec(minute, 2)
            + ":00Z] scheduled task completed"@,
        corpus_line(71 + n) == "normal operation line "@ + dec(n as nat),
{
}

/// A sequential line shows its place in milliseconds as seconds, and its reading as 42 times its place.
pub proof fn law_sequential(secs: int, ms: int)
    requires
        secs >= 0,
        0 <= ms < 1000,
    ensures
        ({
            let i = 1000 * secs + ms;
            sequential_line(i) == "["@ + dec(secs as nat) + "."@ + fixed_dec(ms, 3)
                + "] sensor reading #"@ + dec(i as nat) + ": value="@ + dec((42 * i) as nat)
        }),
{
    let i = 1000 * secs + ms;
    assert(i / 1000 == secs);
    assert(i % 1000 == ms);
    assert(i * 42 == 42 * i);
}

/// The number that capital hex digits stand for.
pub open spec fn hex_value(s: Seq<char>) -> int
    decreases s.len(),
{
    if s.len() == 0 {
        0
    } else {
        hex_value(s.drop_last()) * 16 + crate::hex::digit_value(s.last() as u8)
    }
}

/// A padded number in hex reads back as the number and has at least its width.
pub proof fn law_hex_padded(n: nat, width: nat)
    ensures
        hex_value(hex_padded(n, width)) == n,
        hex_padded(n, width).len() >= width,
        n == 0 ==> hex_padded(n, width).len() == width,
    decreases n + width,
{
    if n > 0 || width > 0 {
        let less: nat = if width == 0 {
            0
        } else {
            (width - 1) as nat
        };
        law_hex_padded(n / 16, less);
        assert(hex_padded(n, width).drop_last() =~= hex_padded(n / 16, less));
    }
}

/// The lines of an error burst are four bytes apart and count from 0.
pub proof fn law_error_burst(i: int)
    requires
        i >= 0,
    ensures
        error_line(i) == "[ERROR] fault at 0x"@ + hex_padded((0x2000_0000 + 4 * i) as nat, 8)
            + ": segmentation violation (iter "@ + dec(i as nat) + ")"@,
{
}

/// The lines of a series come one interval after another.
pub proof fn law_line_times(base_ns: int, interval_ms: int, i: int)
    requires
        i64::MIN <= interval_ms * i <= i64::MAX,
        i64::MIN <= interval_ms * (i + 1) <= i64::MAX,
    ensures
        line_time(base_ns, interval_ms, 0) == base_ns,
        line_time(base_ns, interval_ms, i + 1) == line_time(base_ns, interval_ms, i) + interval_ms
            * 1_000_000,
{
    assert(interval_ms * (i + 1) == interval_ms * i + interval_ms) by (nonlinear_arith);
    assert(interval_ms * 0 == 0) by (nonlinear_arith);
}

/// A series that leaves the 64-bit integers stays at their end.
pub proof fn law_series_saturates(base_ns: int, interval_ms: int, i: int)
    ensures
        interval_ms * i > i64::MAX ==> line_time(base_ns, interval_ms, i) == base_ns + i64::MAX
            * 1_000_000,
        interval_ms * i < i64::MIN ==> line_time(base_ns, interval_ms, i) == base_ns + i64::MIN
            * 1_000_000,
{
}

} // verus!
