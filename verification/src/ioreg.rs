//! The memory figures of the I/O registry's line on the GPU.
//!
//! The line is text of the form `..."Alloc system memory"=123456,...`. The
//! number that follows a label is read as far as its decimal digits go.

use vstd::prelude::*;
use vstd::string::StringSliceAdditionalSpecFns;

verus! {

/// The memory that the GPU holds, in MiB.
#[derive(Clone, Copy, Debug, PartialEq, Eq, Structural)]
pub struct VramInfo {
    /// The memory allocated for the GPU.
    pub alloc_vram: Option<u64>,
    /// The part of it that is in use.
    pub inuse_vram: Option<u64>,
}

/// Whether `pat` stands in `text` at position `i`.
pub open spec fn occurs_at(text: Seq<u8>, pat: Seq<u8>, i: int) -> bool {
    0 <= i && i + pat.len() <= text.len() && text.subrange(i, i + pat.len()) == pat
}

/// Whether `i` is the first position at which `pat` stands in `text`.
pub open spec fn first_at(text: Seq<u8>, pat: Seq<u8>, i: int) -> bool {
    occurs_at(text, pat, i) && forall|j: int| 0 <= j < i ==> !occurs_at(text, pat, j)
}

/// Whether `pat` stands nowhere in `text`.
pub open spec fn absent(text: Seq<u8>, pat: Seq<u8>) -> bool {
    forall|j: int| !occurs_at(text, pat, j)
}

/// Whether a byte is an ASCII decimal digit.
pub open spec fn is_digit(b: u8) -> bool {
    0x30 <= b <= 0x39
}

/// The number of decimal digits with which `text` goes on from `start`.
pub open spec fn digits_from(text: Seq<u8>, start: int) -> nat
    decreases text.len() - start,
{
    if 0 <= start < text.len() && is_digit(text[start]) {
        1 + digits_from(text, start + 1)
    } else {
        0
    }
}

/// The number that decimal digits spell.
pub open spec fn decimal(digits: Seq<u8>) -> nat
    decreases digits.len(),
{
    if digits.len() == 0 {
        0
    } else {
        decimal(digits.drop_last()) * 10 + (digits.last() - 0x30) as nat
    }
}

/// The number that stands in `text` at `start`: its decimal digits as far as
/// they go. There is none where no digit stands there, or where the number
/// does not fit 64 bits.
pub open spec fn number_at(text: Seq<u8>, start: int) -> Option<u64> {
    let n = digits_from(text, start);
    let value = decimal(text.subrange(start, start + n));
    if n == 0 || value > u64::MAX {
        None
    } else {
        Some(value as u64)
    }
}

/// The text that introduces the number of `label`: the label in double
/// quotes and an equals sign.
pub open spec fn introducer(label: Seq<u8>) -> Seq<u8> {
    seq![0x22u8] + label + seq![0x22u8, 0x3Du8]
}

/// The number that follows the first mention of `label` in `text`; none
/// where the label is not mentioned.
pub open spec fn labelled(text: Seq<u8>, label: Seq<u8>) -> Option<u64> {
    if exists|i: int| first_at(text, introducer(label), i) {
        let i = choose|i: int| first_at(text, introducer(label), i);
        number_at(text, i + introducer(label).len())
    } else {
        None
    }
}

/// A number of bytes in whole MiB.
pub open spec fn mib(bytes: Option<u64>) -> Option<u64> {
    match bytes {
        Some(v) => Some(v / 0x10_0000),
        None => None,
    }
}

/// Finds the first position at which `pat` stands in `text`.
pub fn find(text: &[u8], pat: &[u8]) -> (r: Option<usize>)
    ensures
        match r {
            Some(i) => first_at(text@, pat@, i as int),
            None => absent(text@, pat@),
        },
{
    if pat.len() > text.len() {
        return None;
    }
    let last: usize = text.len() - pat.len();
    let mut i: usize = 0;
    while i <= last
        invariant
            pat@.len() <= text@.len() <= usize::MAX,
            last == text@.len() - pat@.len(),
            i <= last + 1,
            forall|j: int| 0 <= j < i ==> !occurs_at(text@, pat@, j),
        decreases last + 1 - i,
    {
        let mut k: usize = 0;
        while k < pat.len() && text[i + k] == pat[k]
            invariant
                i <= last,
                pat@.len() <= text@.len() <= usize::MAX,
                last == text@.len() - pat@.len(),
                k <= pat@.len(),
                forall|m: int| 0 <= m < k ==> text@[i + m] == pat@[m],
            decreases pat@.len() - k,
        {
            k += 1;
        }
        if k == pat.len() {
            assert(text@.subrange(i as int, i + pat@.len()) =~= pat@);
            return Some(i);
        }
        assert(!occurs_at(text@, pat@, i as int)) by {
            if occurs_at(text@, pat@, i as int) {
                assert(text@.subrange(i as int, i + pat@.len())[k as int] == pat@[k as int]);
            }
        }
        i += 1;
    }
    None
}

proof fn lemma_decimal_grows(digits: Seq<u8>, k: int)
    requires
        0 <= k <= digits.len(),
    ensures
        decimal(digits.take(k)) <= decimal(digits),
    decreases digits.len() - k,
{
    if k == digits.len() {
        assert(digits.take(k) =~= digits);
    } else {
        lemma_decimal_grows(digits.drop_last(), k);
        assert(digits.drop_last().take(k) =~= digits.take(k));
    }
}

proof fn lemma_digits_from(text: Seq<u8>, start: int, k: int)
    requires
        0 <= start <= start + k <= text.len(),
        forall|j: int| start <= j < start + k ==> is_digit(text[j]),
    ensures
        digits_from(text, start) == k + digits_from(text, start + k),
    decreases k,
{
    if k > 0 {
        lemma_digits_from(text, start + 1, k - 1);
    }
}

/// Reads the number that stands in `text` at `start`.
pub fn read_number(text: &[u8], start: usize) -> (r: Option<u64>)
    ensures
        r == number_at(text@, start as int),
{
    if start > text.len() {
        return None;
    }
    let mut end: usize = start;
    while end < text.len() && 0x30 <= text[end] && text[end] <= 0x39
        invariant
            start <= end <= text@.len(),
            forall|j: int| start <= j < end ==> is_digit(text@[j]),
        decreases text@.len() - end,
    {
        end += 1;
    }
    proof {
        lemma_digits_from(text@, start as int, end - start);
        assert(digits_from(text@, end as int) == 0);
    }
    if end == start {
        return None;
    }
    let ghost run = text@.subrange(start as int, end as int);
    let mut value: u64 = 0;
    let mut i: usize = start;
    while i < end
        invariant
            start <= i <= end <= text@.len(),
            run == text@.subrange(start as int, end as int),
            digits_from(text@, start as int) == end - start,
            forall|j: int| start <= j < end ==> is_digit(text@[j]),
            value == decimal(run.take(i - start)),
        decreases end - i,
    {
        let d: u64 = (text[i] - 0x30) as u64;
        proof {
            let next = run.take(i - start + 1);
            assert(next.drop_last() =~= run.take(i - start));
            assert(next.last() == text@[i as int]);
            lemma_decimal_grows(run, i - start + 1);
        }
        if value > (u64::MAX - d) / 10 {
            proof {
                let next = run.take(i - start + 1);
                assert(decimal(next) == value * 10 + d);
                assert(value * 10 + d > u64::MAX);
                assert(decimal(run) > u64::MAX);
            }
            return None;
        }
        value = value * 10 + d;
        i += 1;
    }
    proof {
        assert(run.take(end - start) =~= run);
    }
    Some(value)
}

/// Reads the number that follows the first mention of `label` in `text`.
pub fn extract(label: &str, text: &str) -> (r: Option<u64>)
    ensures
        r == labelled(text.spec_bytes(), label.spec_bytes()),
{
    let name = label.as_bytes();
    let mut pat: Vec<u8> = Vec::new();
    pat.push(0x22);
    let mut i: usize = 0;
    while i < name.len()
        invariant
            i <= name@.len(),
            pat@ == seq![0x22u8] + name@.take(i as int),
        decreases name@.len() - i,
    {
        pat.push(name[i]);
        assert(pat@ =~= seq![0x22u8] + name@.take(i + 1));
        i += 1;
    }
    pat.push(0x22);
    pat.push(0x3D);
    assert(pat@ =~= introducer(name@)) by {
        assert(name@.take(name@.len() as int) =~= name@);
    }
    let bytes = text.as_bytes();
    match find(bytes, pat.as_slice()) {
        Some(at) => {
            assert(first_at(bytes@, pat@, at as int));
            proof {
                let other = choose|i: int| first_at(bytes@, pat@, i);
                assert(other == at) by {
                    if other < at {
                        assert(!occurs_at(bytes@, pat@, other));
                    } else if at < other {
                        assert(!occurs_at(bytes@, pat@, at as int));
                    }
                }
            }
            let total = bytes.len();
            assert(at + pat@.len() <= total);
            read_number(bytes, at + pat.len())
        },
        None => {
            assert forall|i: int| !first_at(bytes@, pat@, i) by {
                assert(!occurs_at(bytes@, pat@, i));
            }
            None
        },
    }
}

impl VramInfo {
    /// Reads the registry's line: the numbers labelled `Alloc system memory`
    /// and `In use system memory` are byte counts, and are given in whole
    /// MiB.
    pub fn parse(text: &str) -> (info: VramInfo)
        ensures
            info.alloc_vram == mib(
                labelled(text.spec_bytes(), "Alloc system memory".spec_bytes()),
            ),
            info.inuse_vram == mib(
                labelled(text.spec_bytes(), "In use system memory".spec_bytes()),
            ),
    {
        let alloc = extract("Alloc system memory", text);
        let inuse = extract("In use system memory", text);
        VramInfo {
            alloc_vram: match alloc {
                Some(v) => Some(v / 0x10_0000),
                None => None,
            },
            inuse_vram: match inuse {
                Some(v) => Some(v / 0x10_0000),
                None => None,
            },
        }
    }
}

} // verus!
