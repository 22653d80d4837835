//! The lines of the table that the program shows: columns padded to fixed
//! widths between bars, and the rules between the rows.
//!
//! Widths count bytes. A text longer than its column is cut at the width,
//! which must then fall between two characters.

use vstd::prelude::*;
use vstd::string::{is_ascii, is_ascii_spec_bytes, StringExecFns, StringSliceAdditionalSpecFns};
use vstd::utf8::{decode_utf8, encode_utf8, encode_utf8_decode_utf8, is_char_boundary};
use crate::syspf::GpuEntry;
use crate::utils::project_version;

verus! {

/// `unit` written `n` times.
pub open spec fn repeated(unit: Seq<char>, n: nat) -> Seq<char>
    decreases n,
{
    if n == 0 {
        Seq::empty()
    } else {
        repeated(unit, (n - 1) as nat) + unit
    }
}

/// Whether `s` can be brought to `width` bytes: it is shorter, or `width`
/// falls between two of its characters.
pub open spec fn fits(s: Seq<char>, width: nat) -> bool {
    encode_utf8(s).len() < width || is_char_boundary(encode_utf8(s), width as int)
}

/// `s` brought to `width` bytes: cut where it is longer, filled up with
/// spaces where it is shorter.
pub open spec fn padded(s: Seq<char>, width: nat) -> Seq<char> {
    if encode_utf8(s).len() >= width {
        decode_utf8(encode_utf8(s).take(width as int))
    } else {
        s + repeated(" "@, (width - encode_utf8(s).len()) as nat)
    }
}

/// A row of three columns between bars.
pub open spec fn row(
    a: Seq<char>,
    b: Seq<char>,
    c: Seq<char>,
    wa: nat,
    wb: nat,
    wc: nat,
) -> Seq<char> {
    "|"@ + padded(a, wa) + padded(b, wb) + padded(c, wc) + "|"@
}

/// A row of one column between bars.
pub open spec fn wide_row(a: Seq<char>, width: nat) -> Seq<char> {
    "|"@ + padded(a, width) + "|"@
}

/// The rule of a kind: 0 is `+---+` over the whole width, 1 is `+---+---+---+`
/// over the three columns, 2 is `|===+===+===|` over the three columns, 3
/// is `|===|` over the whole width. Other kinds have no rule.
pub open spec fn divider(dtype: int) -> Option<Seq<char>> {
    if dtype == 0 {
        Some("+"@ + repeated("-"@, 89) + "+"@)
    } else if dtype == 1 {
        Some(
            "+"@ + repeated("-"@, 41) + "+"@ + repeated("-"@, 24) + "+"@ + repeated("-"@, 22)
                + "+"@,
        )
    } else if dtype == 2 {
        Some(
            "|"@ + repeated("="@, 41) + "+"@ + repeated("="@, 24) + "+"@ + repeated("="@, 22)
                + "|"@,
        )
    } else if dtype == 3 {
        Some("|"@ + repeated("="@, 89) + "|"@)
    } else {
        None
    }
}

/// The decimal digit for a number below ten.
pub open spec fn digit(d: nat) -> char {
    if d == 0 {
        '0'
    } else if d == 1 {
        '1'
    } else if d == 2 {
        '2'
    } else if d == 3 {
        '3'
    } else if d == 4 {
        '4'
    } else if d == 5 {
        '5'
    } else if d == 6 {
        '6'
    } else if d == 7 {
        '7'
    } else if d == 8 {
        '8'
    } else {
        '9'
    }
}

/// A number in decimal digits.
pub open spec fn digits(n: nat) -> Seq<char>
    decreases n,
{
    if n < 10 {
        seq![digit(n)]
    } else {
        digits(n / 10) + seq![digit(n % 10)]
    }
}

/// The first column of a GPU's card: its number and its name.
pub open spec fn card_name(i: nat, name: Seq<char>) -> Seq<char> {
    "   "@ + digits(i) + "  "@ + name
}

/// The second column of a GPU's card: its bus and whether it drives a
/// display.
pub open spec fn card_bus(bus: Seq<char>) -> Seq<char> {
    "|   "@ + bus + "          "@ + "On"@
}

/// Appends `unit` to `out`, `n` times.
fn push_repeated(out: &mut String, unit: &str, n: usize)
    ensures
        final(out)@ == old(out)@ + repeated(unit@, n as nat),
{
    let mut i: usize = 0;
    assert(out@ =~= old(out)@ + repeated(unit@, 0));
    while i < n
        invariant
            i <= n,
            out@ == old(out)@ + repeated(unit@, i as nat),
        decreases n - i,
    {
        out.append(unit);
        assert(out@ =~= old(out)@ + repeated(unit@, (i + 1) as nat));
        i += 1;
    }
}

/// Brings `s` to `width` bytes: see [`padded`].
pub fn pad(s: &str, width: usize) -> (r: String)
    requires
        fits(s@, width as nat),
    ensures
        r@ == padded(s@, width as nat),
{
    let len = s.as_bytes().len();
    if len >= width {
        let parts = s.split_at(width);
        let head = parts.0;
        proof {
            encode_utf8_decode_utf8(head@);
            assert(s.spec_bytes().subrange(0, width as int) =~= s.spec_bytes().take(width as int));
        }
        head.to_owned()
    } else {
        let mut out = s.to_owned();
        push_repeated(&mut out, " ", width - len);
        out
    }
}

/// The rule of kind `dtype`: see [`divider`].
pub fn div_str(dtype: i32) -> (r: Option<String>)
    ensures
        match r {
            Some(line) => divider(dtype as int) == Some(line@),
            None => divider(dtype as int) is None,
        },
{
    if dtype == 0 || dtype == 3 {
        let edge = if dtype == 0 {
            "+"
        } else {
            "|"
        };
        let fill = if dtype == 0 {
            "-"
        } else {
            "="
        };
        let mut line = edge.to_owned();
        push_repeated(&mut line, fill, 89);
        line.append(edge);
        Some(line)
    } else if dtype == 1 || dtype == 2 {
        let edge = if dtype == 1 {
            "+"
        } else {
            "|"
        };
        let fill = if dtype == 1 {
            "-"
        } else {
            "="
        };
        let mut line = edge.to_owned();
        push_repeated(&mut line, fill, 41);
        line.append("+");
        push_repeated(&mut line, fill, 24);
        line.append("+");
        push_repeated(&mut line, fill, 22);
        line.append(edge);
        Some(line)
    } else {
        None
    }
}

/// A row of three columns between bars: see [`row`].
pub fn row_of(a: &str, b: &str, c: &str, wa: usize, wb: usize, wc: usize) -> (line: String)
    requires
        fits(a@, wa as nat),
        fits(b@, wb as nat),
        fits(c@, wc as nat),
    ensures
        line@ == row(a@, b@, c@, wa as nat, wb as nat, wc as nat),
{
    let mut line = "|".to_owned();
    line.append(pad(a, wa).as_str());
    line.append(pad(b, wb).as_str());
    line.append(pad(c, wc).as_str());
    line.append("|");
    line
}

/// A row of one column between bars: see [`wide_row`].
pub fn wide_row_of(a: &str, width: usize) -> (line: String)
    requires
        fits(a@, width as nat),
    ensures
        line@ == wide_row(a@, width as nat),
{
    let mut line = "|".to_owned();
    line.append(pad(a, width).as_str());
    line.append("|");
    line
}

/// A text of plain ASCII that is shorter than a width fits it.
proof fn lemma_short_fits(s: &str, width: nat)
    requires
        is_ascii(s),
        s@.len() < width,
    ensures
        fits(s@, width),
{
    is_ascii_spec_bytes(s);
}

/// The header of the table: the program, the system and the Metal family,
/// in columns of 36, 30 and 23 bytes.
pub fn header_line(os_version: &str, metal_version: &str) -> (line: String)
    requires
        fits("macOS Version: "@ + os_version@, 30),
        fits("Metal Version: "@ + metal_version@, 23),
    ensures
        line@ == row(
            " Apple-SMI "@ + "0.1.0"@,
            "macOS Version: "@ + os_version@,
            "Metal Version: "@ + metal_version@,
            36,
            30,
            23,
        ),
{
    let mut program = " Apple-SMI ".to_owned();
    program.append(project_version());
    let mut system = "macOS Version: ".to_owned();
    system.append(os_version);
    let mut metal = "Metal Version: ".to_owned();
    metal.append(metal_version);
    let p = program.as_str();
    proof {
        reveal_strlit(" Apple-SMI ");
        reveal_strlit("0.1.0");
        assert(p@.len() == 16);
        assert(is_ascii(p));
        lemma_short_fits(p, 36);
    }
    row_of(p, system.as_str(), metal.as_str(), 36, 30, 23)
}

/// The three rows of the table's title, in columns of 41, 25 and 23 bytes.
pub fn title_lines() -> (lines: Vec<String>)
    ensures
        lines@.len() == 3,
        lines@[0]@ == row(
            " GPU  Name                     Frequency"@,
            "| Bus-Id          Disp.A"@,
            "|"@,
            41,
            25,
            23,
        ),
        lines@[1]@ == row(
            " Fan  Temp  Perf               Pwr:Usage"@,
            "|           Memory-Usage"@,
            "| GPU-Util  Compute M."@,
            41,
            25,
            23,
        ),
        lines@[2]@ == row(""@, "|"@, "|"@, 41, 25, 23),
{
    proof {
        reveal_strlit(" GPU  Name                     Frequency");
        reveal_strlit("| Bus-Id          Disp.A");
        reveal_strlit("|");
        reveal_strlit(" Fan  Temp  Perf               Pwr:Usage");
        reveal_strlit("|           Memory-Usage");
        reveal_strlit("| GPU-Util  Compute M.");
        reveal_strlit("");
        lemma_short_fits(" GPU  Name                     Frequency", 41);
        lemma_short_fits("| Bus-Id          Disp.A", 25);
        lemma_short_fits("|", 23);
        lemma_short_fits("|", 25);
        lemma_short_fits(" Fan  Temp  Perf               Pwr:Usage", 41);
        lemma_short_fits("|           Memory-Usage", 25);
        lemma_short_fits("| GPU-Util  Compute M.", 23);
        lemma_short_fits("", 41);
    }
    let mut lines: Vec<String> = Vec::new();
    lines.push(
        row_of(
            " GPU  Name                     Frequency",
            "| Bus-Id          Disp.A",
            "|",
            41,
            25,
            23,
        ),
    );
    lines.push(
        row_of(
            " Fan  Temp  Perf               Pwr:Usage",
            "|           Memory-Usage",
            "| GPU-Util  Compute M.",
            41,
            25,
            23,
        ),
    );
    lines.push(row_of("", "|", "|", 41, 25, 23));
    lines
}

/// The word for a decimal digit.
fn digit_text(d: usize) -> (r: &'static str)
    requires
        d < 10,
    ensures
        r@ == seq![digit(d as nat)],
{
    proof {
        reveal_strlit("0");
        reveal_strlit("1");
        reveal_strlit("2");
        reveal_strlit("3");
        reveal_strlit("4");
        reveal_strlit("5");
        reveal_strlit("6");
        reveal_strlit("7");
        reveal_strlit("8");
        reveal_strlit("9");
    }
    let r = if d == 0 {
        "0"
    } else if d == 1 {
        "1"
    } else if d == 2 {
        "2"
    } else if d == 3 {
        "3"
    } else if d == 4 {
        "4"
    } else if d == 5 {
        "5"
    } else if d == 6 {
        "6"
    } else if d == 7 {
        "7"
    } else if d == 8 {
        "8"
    } else {
        "9"
    };
    assert(r@ =~= seq![digit(d as nat)]);
    r
}

/// Writes a number in decimal digits.
pub fn decimal_text(n: usize) -> (r: String)
    ensures
        r@ == digits(n as nat),
    decreases n,
{
    if n < 10 {
        digit_text(n).to_owned()
    } else {
        let mut r = decimal_text(n / 10);
        r.append(digit_text(n % 10));
        r
    }
}

/// The rows of the card of GPU number `i`, in columns of 41, 25 and 23
/// bytes, and the rule that closes the card.
pub fn card_lines(i: usize, g: &GpuEntry) -> (lines: Vec<String>)
    requires
        fits(card_name(i as nat, g.name@), 41),
        fits(
            card_bus(
                if g.sppci_bus@ == "spdisplays_builtin"@ {
                    "Built-in"@
                } else {
                    g.sppci_bus@
                },
            ),
            25,
        ),
    ensures
        lines@.len() == 4,
        lines@[0]@ == row(
            card_name(i as nat, g.name@),
            card_bus(
                if g.sppci_bus@ == "spdisplays_builtin"@ {
                    "Built-in"@
                } else {
                    g.sppci_bus@
                },
            ),
            "|"@,
            41,
            25,
            23,
        ),
        lines@[1]@ == row(
            " Fan  Temp                     Pwr:Usage"@,
            "|           Memory-Usage"@,
            "| GPU-Util  Compute M."@,
            41,
            25,
            23,
        ),
        lines@[2]@ == row(""@, "|"@, "|"@, 41, 25, 23),
        divider(0) == Some(lines@[3]@),
{
    let mut first = "   ".to_owned();
    first.append(decimal_text(i).as_str());
    first.append("  ");
    first.append(g.name.as_str());
    let mut second = "|   ".to_owned();
    second.append(g.bus_label());
    second.append("          ");
    second.append("On");
    proof {
        reveal_strlit("|");
        reveal_strlit(" Fan  Temp                     Pwr:Usage");
        reveal_strlit("|           Memory-Usage");
        reveal_strlit("| GPU-Util  Compute M.");
        reveal_strlit("");
        lemma_short_fits("|", 23);
        lemma_short_fits("|", 25);
        lemma_short_fits(" Fan  Temp                     Pwr:Usage", 41);
        lemma_short_fits("|           Memory-Usage", 25);
        lemma_short_fits("| GPU-Util  Compute M.", 23);
        lemma_short_fits("", 41);
    }
    let mut lines: Vec<String> = Vec::new();
    lines.push(row_of(first.as_str(), second.as_str(), "|", 41, 25, 23));
    lines.push(
        row_of(
            " Fan  Temp                     Pwr:Usage",
            "|           Memory-Usage",
            "| GPU-Util  Compute M.",
            41,
            25,
            23,
        ),
    );
    lines.push(row_of("", "|", "|", 41, 25, 23));
    match div_str(0) {
        Some(rule) => lines.push(rule),
        None => lines.push(String::new()),
    }
    lines
}

/// The header of the table of processes: a rule, three rows of 89 bytes,
/// and a rule.
pub fn tprocess_header_lines() -> (lines: Vec<String>)
    ensures
        lines@.len() == 5,
        divider(0) == Some(lines@[0]@),
        lines@[1]@ == wide_row(" Processes:"@, 89),
        lines@[2]@ == wide_row(
            "   GPU   GI   CI              PID   Type   Process name                       GPU Memory"@,
            89,
        ),
        lines@[3]@ == wide_row(
            "        ID   ID                                                               Usage"@,
            89,
        ),
        divider(3) == Some(lines@[4]@),
{
    proof {
        reveal_strlit(" Processes:");
        reveal_strlit(
            "   GPU   GI   CI              PID   Type   Process name                       GPU Memory",
        );
        reveal_strlit(
            "        ID   ID                                                               Usage",
        );
        lemma_short_fits(" Processes:", 89);
        lemma_short_fits(
            "   GPU   GI   CI              PID   Type   Process name                       GPU Memory",
            89,
        );
        lemma_short_fits(
            "        ID   ID                                                               Usage",
            89,
        );
    }
    let mut lines: Vec<String> = Vec::new();
    match div_str(0) {
        Some(rule) => lines.push(rule),
        None => lines.push(String::new()),
    }
    lines.push(wide_row_of(" Processes:", 89));
    lines.push(
        wide_row_of(
            "   GPU   GI   CI              PID   Type   Process name                       GPU Memory",
            89,
        ),
    );
    lines.push(
        wide_row_of(
            "        ID   ID                                                               Usage",
            89,
        ),
    );
    match div_str(3) {
        Some(rule) => lines.push(rule),
        None => lines.push(String::new()),
    }
    lines
}

} // verus!
