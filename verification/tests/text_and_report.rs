use oyasumi::decimal::{decimal_string, parse_u16, parse_u64};
use oyasumi::system_report::{distro_description, format_log_record, get_gpus};
use oyasumi::text::{chars_of, lines_of, split_chars, str_equal};

fn strings(v: &[&str]) -> Vec<String> {
    v.iter().map(|s| s.to_string()).collect()
}

#[test]
fn glxinfo_renderer_is_listed() {
    let out = "name of display: :0\nOpenGL vendor string: AMD\nOpenGL renderer string: AMD Radeon RX 6800 (radeonsi, navi21)\nOpenGL version string: 4.6\n";
    assert_eq!(get_gpus(Some(out), None), strings(&["AMD Radeon RX 6800 (radeonsi, navi21)"]));
}

#[test]
fn glxinfo_lines_with_carriage_returns() {
    let out = "OpenGL renderer string: A\r\nOpenGL renderer string: B\r\n";
    assert_eq!(get_gpus(Some(out), None), strings(&["A", "B"]));
}

#[test]
fn glxinfo_without_renderer_gives_unknown_and_ignores_lspci() {
    let lspci = "01:00.0 VGA compatible controller [0300]: NVIDIA Corporation GA104 [GeForce RTX 3070] [10de:2484] (rev a1)";
    assert_eq!(get_gpus(Some("nothing here\n"), Some(lspci)), strings(&["Unknown"]));
}

#[test]
fn lspci_adapter_is_listed() {
    let out = "00:00.0 Host bridge [0600]: Intel Corporation Device [8086:4660] (rev 02)\n01:00.0 VGA compatible controller [0300]: NVIDIA Corporation GA104 [GeForce RTX 3070] [10de:2484] (rev a1)\n";
    assert_eq!(get_gpus(None, Some(out)), strings(&["[GeForce RTX 3070] "]));
}

#[test]
fn lspci_line_with_too_few_fields_is_skipped() {
    let out = "VGA compatible controller only one: field\n";
    assert_eq!(get_gpus(None, Some(out)), strings(&["Unknown"]));
}

#[test]
fn lspci_field_without_bracket_gives_empty_name() {
    let out = "a:b VGA compatible controller:no brackets here\n";
    assert_eq!(get_gpus(None, Some(out)), strings(&[""]));
}

#[test]
fn no_command_output_gives_unknown() {
    assert_eq!(get_gpus(None, None), strings(&["Unknown"]));
}

#[test]
fn distro_is_name_and_version() {
    assert_eq!(distro_description(Some(("Arch Linux", "rolling"))), "Arch Linux rolling");
    assert_eq!(distro_description(None), "Unknown");
}

#[test]
fn log_record_layout() {
    assert_eq!(
        format_log_record("[2024-01-02][03:04:05]", "INFO", "oyasumi::vr", "hello"),
        "[2024-01-02][03:04:05][INFO][oyasumi::vr] hello"
    );
}

#[test]
fn lines_match_str_lines() {
    for text in ["", "\n", "a", "a\n", "a\nb", "a\r\nb\r\n", "a\r", "\n\n", "x\ry\nz"] {
        let got: Vec<String> = lines_of(&chars_of(text))
            .into_iter()
            .map(|l| l.into_iter().collect())
            .collect();
        let want: Vec<String> = text.lines().map(|l| l.to_string()).collect();
        assert_eq!(got, want, "text {:?}", text);
    }
}

#[test]
fn split_matches_str_split() {
    for text in ["", ":", "a:b", "a::b:", "abc"] {
        let got: Vec<String> = split_chars(&chars_of(text), ':')
            .into_iter()
            .map(|l| l.into_iter().collect())
            .collect();
        let want: Vec<String> = text.split(':').map(|l| l.to_string()).collect();
        assert_eq!(got, want, "text {:?}", text);
    }
}

#[test]
fn string_equality() {
    assert!(str_equal("dev", "dev"));
    assert!(!str_equal("dev", "Dev"));
    assert!(!str_equal("dev", "devs"));
}

#[test]
fn decimal_printing() {
    assert_eq!(decimal_string(0), "0");
    assert_eq!(decimal_string(7), "7");
    assert_eq!(decimal_string(1234), "1234");
    assert_eq!(decimal_string(u64::MAX), u64::MAX.to_string());
}

#[test]
fn decimal_parsing_matches_str_parse() {
    for text in [
        "0", "42", "+42", "+", "", "-1", "007", " 1", "1 ", "18446744073709551615",
        "18446744073709551616", "99999999999999999999x", "12a",
    ] {
        assert_eq!(parse_u64(text), text.parse::<u64>().ok(), "text {:?}", text);
        assert_eq!(parse_u16(text), text.parse::<u16>().ok(), "text {:?}", text);
    }
    assert_eq!(parse_u16("65535"), Some(65535));
    assert_eq!(parse_u16("65536"), None);
}

#[test]
fn printed_numbers_read_back() {
    for n in [0u64, 9, 10, 65535, 1 << 40, u64::MAX] {
        assert_eq!(parse_u64(&decimal_string(n)), Some(n));
    }
}
