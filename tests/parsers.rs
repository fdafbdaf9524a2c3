use cpi_virtualbox::parsers::{
    labeled_value, listing_mentions, parse_capacity, parse_created_medium, parse_snapshot_taken,
    parse_version, parse_volumes, parse_worker_info, parse_worker_listing,
};
use cpi_virtualbox::text::{int_text, parse_i64, split_blocks, split_lines, trim_str};

#[test]
fn listing_reads_each_well_formed_line_in_order() {
    let text = "\"vm one\" {1111-aaaa}\n\"web\" {2222-bbbb}\n\"db\" {3333-cccc}\n";
    let ws = parse_worker_listing(text);
    assert_eq!(ws.len(), 3);
    assert_eq!(ws[0].name, "vm one");
    assert_eq!(ws[0].id, "1111-aaaa");
    assert_eq!(ws[1].name, "web");
    assert_eq!(ws[1].id, "2222-bbbb");
    assert_eq!(ws[2].name, "db");
    assert_eq!(ws[2].id, "3333-cccc");
}

#[test]
fn listing_skips_lines_without_quote_or_brace_pair() {
    let text = "\"a\" {1}\nno quotes {2}\n\"b\" 3\n\"only one {4}\n\n\"c\" {5}";
    let ws = parse_worker_listing(text);
    assert_eq!(ws.len(), 2);
    assert_eq!(ws[0].name, "a");
    assert_eq!(ws[0].id, "1");
    assert_eq!(ws[1].name, "c");
    assert_eq!(ws[1].id, "5");
}

#[test]
fn listing_of_empty_text_is_empty() {
    assert!(parse_worker_listing("").is_empty());
    assert!(parse_worker_listing("\n\n").is_empty());
}

#[test]
fn listing_uses_first_and_last_delimiters() {
    let ws = parse_worker_listing("\"my \"quoted\" vm\" {ab{cd}ef}\r\n");
    assert_eq!(ws.len(), 1);
    assert_eq!(ws[0].name, "my \"quoted\" vm");
    assert_eq!(ws[0].id, "ab{cd}ef");
}

#[test]
fn machine_readable_info_reads_recognised_keys() {
    let text = "name=\"vm1\"\nUUID=\"abcd-1234\"\nVMState=\"running\"\nmemory=2048\ncpus=4\nostype=\"Ubuntu_64\"\nfirmware=\"BIOS\"\ngraphicscontroller=\"vmsvga\"\nunknown=\"x\"\n";
    let info = parse_worker_info(text);
    assert_eq!(info.name.as_deref(), Some("vm1"));
    assert_eq!(info.id.as_deref(), Some("abcd-1234"));
    assert_eq!(info.state.as_deref(), Some("running"));
    assert_eq!(info.memory_mb, Some(2048));
    assert_eq!(info.cpu_count, Some(4));
    assert_eq!(info.os_type.as_deref(), Some("Ubuntu_64"));
    assert_eq!(info.firmware.as_deref(), Some("BIOS"));
    assert_eq!(info.graphics_controller.as_deref(), Some("vmsvga"));
}

#[test]
fn machine_readable_non_numeric_integer_is_omitted() {
    let text = "name=\"vm1\"\nmemory=\"lots\"\ncpus=two\nUUID=\"u-1\"\n";
    let info = parse_worker_info(text);
    assert_eq!(info.memory_mb, None);
    assert_eq!(info.cpu_count, None);
    assert_eq!(info.name.as_deref(), Some("vm1"));
    assert_eq!(info.id.as_deref(), Some("u-1"));
}

#[test]
fn machine_readable_value_keeps_text_after_first_equals() {
    let info = parse_worker_info("  name = \"a=b\"  \nnoequals\n");
    assert_eq!(info.name.as_deref(), Some("a=b"));
    assert_eq!(info.state, None);
}

#[test]
fn machine_readable_empty_input_gives_empty_record() {
    let info = parse_worker_info("");
    assert!(info.name.is_none() && info.id.is_none() && info.memory_mb.is_none());
}

#[test]
fn volumes_are_read_per_block() {
    let text = "UUID:           aaaa-1\nParent UUID:    base\nState:          created\nType:           normal (base)\nLocation:       /tmp/a.vdi\nStorage format: VDI\nFormat:         VDI\nCapacity:       10240 MBytes\nEncryption:     disabled\n\nUUID:           bbbb-2\nLocation:       /tmp/b.vdi\nCapacity:       2 GBytes\n";
    let vs = parse_volumes(text);
    assert_eq!(vs.len(), 2);
    assert_eq!(vs[0].id.as_deref(), Some("aaaa-1"));
    assert_eq!(vs[0].parent.as_deref(), Some("base"));
    assert_eq!(vs[0].state.as_deref(), Some("created"));
    assert_eq!(vs[0].kind.as_deref(), Some("normal (base)"));
    assert_eq!(vs[0].path.as_deref(), Some("/tmp/a.vdi"));
    assert_eq!(vs[0].format.as_deref(), Some("VDI"));
    assert_eq!(vs[0].size_mb, Some(10240));
    assert_eq!(vs[1].id.as_deref(), Some("bbbb-2"));
    assert_eq!(vs[1].path.as_deref(), Some("/tmp/b.vdi"));
    assert_eq!(vs[1].size_mb, None);
}

#[test]
fn volume_block_without_labels_gives_no_record() {
    let vs = parse_volumes("Encryption: disabled\nfoo\n\nState: locked\n\n   \n");
    assert_eq!(vs.len(), 1);
    let v = &vs[0];
    assert_eq!(v.state.as_deref(), Some("locked"));
    assert!(v.id.is_none() && v.path.is_none() && v.size_mb.is_none());
    assert!(v.format.is_none() && v.kind.is_none() && v.parent.is_none());
}

#[test]
fn volumes_of_empty_text_are_empty() {
    assert!(parse_volumes("").is_empty());
}

#[test]
fn capacity_needs_megabytes() {
    assert_eq!(parse_capacity(" 10240 MBytes"), Some(10240));
    assert_eq!(parse_capacity("10 GBytes"), None);
    assert_eq!(parse_capacity("MBytes"), None);
    assert_eq!(parse_capacity("x MBytes"), None);
    assert_eq!(parse_capacity(""), None);
}

#[test]
fn version_drops_trailing_white_space() {
    assert_eq!(parse_version("7.0.14r161095\n"), "7.0.14r161095");
    assert_eq!(parse_version(""), "");
}

#[test]
fn created_medium_reports_uuid_and_location() {
    let text = "0%...10%...100%\nMedium created. UUID: abc-123\nLocation: /tmp/disk.vdi\n";
    let (uuid, path) = parse_created_medium(text);
    assert_eq!(uuid, "abc-123");
    assert_eq!(path, "/tmp/disk.vdi");
    let (u2, p2) = parse_created_medium("nothing here");
    assert_eq!(u2, "");
    assert_eq!(p2, "");
}

#[test]
fn labeled_value_takes_text_after_first_colon() {
    let text = "Virtual machine 'vm1' is created and registered.\nUUID: 5d1c-99\nSettings file: '/home/u/vm1.vbox'\n";
    assert_eq!(labeled_value(text, "UUID").as_deref(), Some("5d1c-99"));
    assert_eq!(labeled_value(text, "Settings").as_deref(), Some("'/home/u/vm1.vbox'"));
    assert_eq!(labeled_value(text, "Missing"), None);
    assert_eq!(labeled_value("UUID without colon", "UUID"), None);
}

#[test]
fn snapshot_confirmation_gives_identifier() {
    let text = "0%...100%\nSnapshot taken. UUID: 1234-abcd\n";
    assert_eq!(parse_snapshot_taken(text), None);
    let text2 = "Snapshot taken as  5678-efgh \n";
    assert_eq!(parse_snapshot_taken(text2).as_deref(), Some("5678-efgh"));
    let text3 = "x taken as a taken as b";
    assert_eq!(parse_snapshot_taken(text3).as_deref(), Some("a"));
}

#[test]
fn listing_mention_is_a_substring_match() {
    let text = "SnapshotName=\"base-v2\"\nSnapshotUUID=\"u\"\n";
    assert!(listing_mentions(text, "base"));
    assert!(!listing_mentions(text, "other"));
    assert!(!listing_mentions("", "base"));
}

#[test]
fn integers_follow_i64_rules() {
    assert_eq!(parse_i64("0"), Some(0));
    assert_eq!(parse_i64("+42"), Some(42));
    assert_eq!(parse_i64("-17"), Some(-17));
    assert_eq!(parse_i64("9223372036854775807"), Some(i64::MAX));
    assert_eq!(parse_i64("-9223372036854775808"), Some(i64::MIN));
    assert_eq!(parse_i64("9223372036854775808"), None);
    assert_eq!(parse_i64("-9223372036854775809"), None);
    assert_eq!(parse_i64(""), None);
    assert_eq!(parse_i64("-"), None);
    assert_eq!(parse_i64("12a"), None);
    assert_eq!(parse_i64(" 1"), None);
    assert_eq!(parse_i64("1.5"), None);
}

#[test]
fn lines_and_blocks_split_like_std() {
    let text = "a\r\nb\n\nc";
    let ls = split_lines(text);
    let expected: Vec<String> = text.lines().map(|s| s.to_string()).collect();
    assert_eq!(ls, expected);
    let bs = split_blocks("x\n\ny\n\n\nz");
    let expected_bs: Vec<String> = "x\n\ny\n\n\nz".split("\n\n").map(|s| s.to_string()).collect();
    assert_eq!(bs, expected_bs);
    assert_eq!(split_blocks(""), vec![String::new()]);
    assert_eq!(trim_str(" \t x y \n"), "x y");
}

#[test]
fn integers_print_in_decimal() {
    assert_eq!(int_text(0), "0");
    assert_eq!(int_text(7), "7");
    assert_eq!(int_text(10240), "10240");
    assert_eq!(int_text(-42), "-42");
    assert_eq!(int_text(i64::MAX), i64::MAX.to_string());
    assert_eq!(int_text(i64::MIN), i64::MIN.to_string());
}

#[test]
fn listing_ignores_blank_lines_between_entries() {
    let ws = parse_worker_listing("\n\"a\" {1}\n   \n\n\"b\" {2}\n\t\n");
    assert_eq!(ws.len(), 2);
    assert_eq!((ws[0].name.as_str(), ws[0].id.as_str()), ("a", "1"));
    assert_eq!((ws[1].name.as_str(), ws[1].id.as_str()), ("b", "2"));
}

#[test]
fn appended_unlabeled_block_adds_no_volume() {
    let out = "UUID: u1\nLocation: /a.vdi";
    let a = parse_volumes(out);
    let b = parse_volumes(&format!("{}\n\nEncryption: none\nfoo", out));
    assert_eq!(a.len(), 1);
    assert_eq!(b.len(), 1);
    assert_eq!(b[0].id, a[0].id);
    assert_eq!(b[0].path, a[0].path);
}
