use apple_smi::ioreg::{extract, find, read_number, VramInfo};
use apple_smi::syspf::GpuEntry;
use apple_smi::ui::{
    card_lines, decimal_text, div_str, header_line, pad, row_of, title_lines,
    tprocess_header_lines, wide_row_of,
};

#[test]
fn pad_fills_with_spaces() {
    assert_eq!(pad("abc", 5), "abc  ");
    assert_eq!(pad("", 3), "   ");
    assert_eq!(pad("abc", 4), "abc ");
    assert_eq!(pad("\u{e9}", 4), "\u{e9}  ");
}

#[test]
fn pad_cuts_at_the_width() {
    assert_eq!(pad("abcdef", 3), "abc");
    assert_eq!(pad("abc", 3), "abc");
    assert_eq!(pad("abc", 0), "");
    assert_eq!(pad("a\u{e9}b", 3), "a\u{e9}");
}

#[test]
fn rules() {
    assert_eq!(div_str(0).unwrap(), format!("+{}+", "-".repeat(89)));
    assert_eq!(
        div_str(1).unwrap(),
        format!("+{}+{}+{}+", "-".repeat(41), "-".repeat(24), "-".repeat(22))
    );
    assert_eq!(
        div_str(2).unwrap(),
        format!("|{}+{}+{}|", "=".repeat(41), "=".repeat(24), "=".repeat(22))
    );
    assert_eq!(div_str(3).unwrap(), format!("|{}|", "=".repeat(89)));
    assert_eq!(div_str(4), None);
    assert_eq!(div_str(-1), None);
    for kind in 0..4 {
        assert_eq!(div_str(kind).unwrap().len(), 91);
    }
}

#[test]
fn rows() {
    assert_eq!(row_of("a", "bc", "", 2, 2, 1), "|a bc |");
    assert_eq!(row_of("abc", "", "x", 2, 0, 1), "|abx|");
    assert_eq!(wide_row_of("ab", 4), "|ab  |");
}

#[test]
fn header() {
    let line = header_line("15.1", "3");
    assert_eq!(
        line,
        format!("|{:<36}{:<30}{:<23}|", " Apple-SMI 0.1.0", "macOS Version: 15.1", "Metal Version: 3")
    );
    assert_eq!(line.len(), 91);
    let long = header_line("15.1.1 (24B2091) beta", "spdisplays");
    assert_eq!(
        long,
        format!("|{:<36}{}{}|", " Apple-SMI 0.1.0", "macOS Version: 15.1.1 (24B2091", "Metal Version: spdispla")
    );
}

#[test]
fn title() {
    let lines = title_lines();
    assert_eq!(
        lines,
        vec![
            format!(
                "|{:<41}{:<25}{:<23}|",
                " GPU  Name                     Frequency", "| Bus-Id          Disp.A", "|"
            ),
            format!(
                "|{:<41}{:<25}{:<23}|",
                " Fan  Temp  Perf               Pwr:Usage",
                "|           Memory-Usage",
                "| GPU-Util  Compute M."
            ),
            format!("|{:<41}{:<25}{:<23}|", "", "|", "|"),
        ]
    );
}

#[test]
fn card() {
    let g = GpuEntry {
        name: "Apple M3 Pro".to_string(),
        sppci_bus: "spdisplays_builtin".to_string(),
        sppci_cores: "14".to_string(),
        spdisplays_mtlgpufamilysupport: "spdisplays_metal3".to_string(),
    };
    let lines = card_lines(12, &g);
    assert_eq!(
        lines,
        vec![
            format!("|{:<41}{:<25}{:<23}|", "   12  Apple M3 Pro", "|   Built-in          On", "|"),
            format!(
                "|{:<41}{:<25}{:<23}|",
                " Fan  Temp                     Pwr:Usage",
                "|           Memory-Usage",
                "| GPU-Util  Compute M."
            ),
            format!("|{:<41}{:<25}{:<23}|", "", "|", "|"),
            format!("+{}+", "-".repeat(89)),
        ]
    );
}

#[test]
fn process_header() {
    let lines = tprocess_header_lines();
    assert_eq!(lines.len(), 5);
    assert_eq!(lines[0], format!("+{}+", "-".repeat(89)));
    assert_eq!(lines[1], format!("|{:<89}|", " Processes:"));
    assert_eq!(
        lines[2],
        "|   GPU   GI   CI              PID   Type   Process name                       GPU Memory |"
    );
    assert_eq!(
        lines[3],
        format!(
            "|{:<89}|",
            "        ID   ID                                                               Usage"
        )
    );
    assert_eq!(lines[4], format!("|{}|", "=".repeat(89)));
}

#[test]
fn decimal_digits() {
    for n in [0usize, 1, 9, 10, 11, 99, 100, 12345, 1_000_000, usize::MAX] {
        assert_eq!(decimal_text(n), n.to_string());
    }
}

#[test]
fn find_gives_the_first_position() {
    assert_eq!(find(b"abcabc", b"bc"), Some(1));
    assert_eq!(find(b"abcabc", b"abcabc"), Some(0));
    assert_eq!(find(b"abcabc", b""), Some(0));
    assert_eq!(find(b"", b""), Some(0));
    assert_eq!(find(b"abcabc", b"cb"), None);
    assert_eq!(find(b"ab", b"abc"), None);
    assert_eq!(find(b"aab", b"ab"), Some(1));
}

#[test]
fn numbers_are_read_as_far_as_their_digits_go() {
    assert_eq!(read_number(b"123,", 0), Some(123));
    assert_eq!(read_number(b"x123", 1), Some(123));
    assert_eq!(read_number(b"x123", 0), None);
    assert_eq!(read_number(b"12", 2), None);
    assert_eq!(read_number(b"007", 0), Some(7));
    assert_eq!(read_number(b"18446744073709551615", 0), Some(u64::MAX));
    assert_eq!(read_number(b"18446744073709551616", 0), None);
    assert_eq!(read_number(b"99999999999999999999999", 0), None);
    assert_eq!(read_number(b"-1", 0), None);
    assert_eq!(read_number(b"+1", 0), None);
}

#[test]
fn labelled_numbers() {
    let line = r#"  "PerformanceStatistics" = {"Alloc system memory"=6291456000,"In use system memory"=1572864,"x"=1}"#;
    assert_eq!(extract("Alloc system memory", line), Some(6291456000));
    assert_eq!(extract("In use system memory", line), Some(1572864));
    assert_eq!(extract("x", line), Some(1));
    assert_eq!(extract("system memory", line), None);
    assert_eq!(extract("PerformanceStatistics", line), None);
    let twice = r#""a"=x,"a"=5"#;
    assert_eq!(extract("a", twice), None);
    assert_eq!(extract("a", r#""a"=5,"a"=6"#), Some(5));
}

#[test]
fn memory_in_mib() {
    let line = r#""Alloc system memory"=6291456000,"In use system memory"=1572864"#;
    assert_eq!(
        VramInfo::parse(line),
        VramInfo { alloc_vram: Some(6000), inuse_vram: Some(1) }
    );
    assert_eq!(
        VramInfo::parse(r#""In use system memory"=1048575"#),
        VramInfo { alloc_vram: None, inuse_vram: Some(0) }
    );
    assert_eq!(VramInfo::parse(""), VramInfo { alloc_vram: None, inuse_vram: None });
}
