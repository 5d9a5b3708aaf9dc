use device_fingerprint::lines::filter_identifier_lines;

#[test]
fn filters_header_and_blank_lines() {
    let raw = "MACAddress\r\n\r\nAA:BB:CC:DD:EE:FF\r\n11:22:33:44:55:66\r\n";
    assert_eq!(
        filter_identifier_lines(raw, "MACAddress"),
        "AA:BB:CC:DD:EE:FF,11:22:33:44:55:66"
    );
}

#[test]
fn kept_lines_stay_untrimmed() {
    let raw = "SerialNumber \r\n\r\n ABC123 \r\n";
    assert_eq!(filter_identifier_lines(raw, "SerialNumber"), " ABC123 ");
}

#[test]
fn header_line_with_surrounding_spaces_is_dropped() {
    let raw = "  MACAddress  \nAA:BB\n";
    assert_eq!(filter_identifier_lines(raw, "MACAddress"), "AA:BB");
}

#[test]
fn empty_input_yields_empty_output() {
    assert_eq!(filter_identifier_lines("", "MACAddress"), "");
}

#[test]
fn all_lines_filtered_yields_empty_output() {
    assert_eq!(filter_identifier_lines("MACAddress\n \n\t\n", "MACAddress"), "");
}

#[test]
fn final_line_without_terminator_is_kept() {
    assert_eq!(filter_identifier_lines("AA\nBB", "MACAddress"), "AA,BB");
}

#[test]
fn carriage_return_inside_a_line_stays() {
    assert_eq!(filter_identifier_lines("AA\rBB\n", "MACAddress"), "AA\rBB");
}

#[test]
fn whitespace_only_lines_are_dropped() {
    assert_eq!(
        filter_identifier_lines("\u{a0}\u{3000}\nAA\n\u{2003}\n", "MACAddress"),
        "AA"
    );
}
