use libp9cpu::cmd::{Command, CommandReq, EnvVar, FsTab, FsTabError};
use libp9cpu::ctext::{CText, NulError};
use libp9cpu::launch::{Preparation, NO_TMP_MNT};
use libp9cpu::log_line::{level_column, log_format};
use libp9cpu::namespace::{read_namespace, NamespaceWarning};
use libp9cpu::number::{parse_i32, parse_u32, NumberError};
use libp9cpu::text::{
    decimal_text, join_text, same_bytes, same_text, signed_decimal_text, split_text, split_words,
    white_space,
};
use libp9cpu::{parse_namespace, LOCAL_ROOT_MOUNT, NINEP_MOUNT};

fn tab(spec: &str, file: &str, vfstype: &str, mntops: &str, freq: i32, passno: i32) -> FsTab {
    FsTab {
        spec: spec.to_string(),
        file: file.to_string(),
        vfstype: vfstype.to_string(),
        mntops: mntops.to_string(),
        freq,
        passno,
    }
}

#[test]
fn text_is_split_like_std_does() {
    for s in ["", ",", "a", "a,b", ",a,,b,", "\u{e9},\u{1F600}"] {
        let expected: Vec<&str> = s.split(',').collect();
        assert_eq!(split_text(s, ','), expected);
        assert_eq!(join_text(&expected, ","), s);
    }
}

#[test]
fn words_are_split_like_std_does() {
    for s in ["", "  ", "a", " a\tb\n", "x\u{a0}y\u{3000}z", "a\u{200b}b", "\u{2028}q"] {
        let expected: Vec<&str> = s.split_whitespace().collect();
        assert_eq!(split_words(s), expected);
    }
}

#[test]
fn white_space_is_that_of_unicode() {
    let mut code: u32 = 0;
    while code <= 0x10ffff {
        if let Some(c) = char::from_u32(code) {
            assert_eq!(white_space(c), c.is_whitespace());
        }
        code += 1;
    }
}

#[test]
fn texts_and_bytes_are_told_apart() {
    assert!(same_text("abc", "abc"));
    assert!(!same_text("abc", "abd"));
    assert!(!same_text("abc", "ab"));
    assert!(same_bytes(&[1, 2], &[1, 2]));
    assert!(!same_bytes(&[1, 2], &[2, 1]));
}

#[test]
fn numbers_are_printed_in_decimal() {
    for n in [0u64, 7, 10, 12345, u64::MAX] {
        assert_eq!(decimal_text(n), n.to_string());
    }
    for n in [0i32, -1, 10, i32::MAX, i32::MIN] {
        assert_eq!(signed_decimal_text(n), n.to_string());
    }
}

#[test]
fn printed_numbers_read_back() {
    for n in [0i32, -1, 10, i32::MAX, i32::MIN] {
        assert_eq!(parse_i32(&signed_decimal_text(n)), Ok(n));
    }
}

#[test]
fn numbers_are_read_like_std_does() {
    let texts = [
        "", "+", "-", "0", "-0", "+5", "-5", "--5", "5x", " 5", "2147483647", "2147483648",
        "-2147483648", "-2147483649", "99999999999999999999", "-99999999999999999999",
        "99999999999999999999x", "\u{0661}",
    ];
    for s in texts {
        match (parse_i32(s), s.parse::<i32>()) {
            (Ok(a), Ok(b)) => assert_eq!(a, b),
            (Err(a), Err(b)) => assert_eq!(a.message(), b.to_string()),
            _ => panic!("{:?}", s),
        }
        match (parse_u32(s), s.parse::<u32>()) {
            (Ok(a), Ok(b)) => assert_eq!(a, b),
            (Err(a), Err(b)) => assert_eq!(a.message(), b.to_string()),
            _ => panic!("{:?}", s),
        }
    }
}

#[test]
fn each_number_error_has_its_words() {
    assert_eq!(parse_i32(""), Err(NumberError::Empty));
    assert_eq!(parse_i32("x"), Err(NumberError::InvalidDigit));
    assert_eq!(parse_i32("2147483648"), Err(NumberError::PosOverflow));
    assert_eq!(parse_i32("-2147483649"), Err(NumberError::NegOverflow));
    assert_eq!(NumberError::Empty.message(), "cannot parse integer from empty string");
    assert_eq!(NumberError::InvalidDigit.message(), "invalid digit found in string");
    assert_eq!(NumberError::PosOverflow.message(), "number too large to fit in target type");
    assert_eq!(NumberError::NegOverflow.message(), "number too small to fit in target type");
}

#[test]
fn table_line_is_read() {
    let line = "/dev/sda1\t/mnt  ext4 defaults,noatime 1 2";
    assert_eq!(
        FsTab::try_from(line),
        Ok(tab("/dev/sda1", "/mnt", "ext4", "defaults,noatime", 1, 2))
    );
}

#[test]
fn table_line_reads_back() {
    let t = tab("a", "b", "c", "d", -7, i32::MIN);
    let line = format!("{} {} {} {} {} {}", t.spec, t.file, t.vfstype, t.mntops, t.freq, t.passno);
    assert_eq!(FsTab::try_from(line.as_str()), Ok(t));
}

#[test]
fn table_line_with_other_than_six_fields_is_refused() {
    for line in ["", "a b c d", "a b c d 1", "a b c d 1 2 3"] {
        assert_eq!(FsTab::try_from(line), Err(FsTabError::NotSixFields));
    }
}

#[test]
fn numbers_of_a_table_line_are_looked_at_from_the_left() {
    let bad = NumberError::InvalidDigit;
    assert_eq!(FsTab::try_from("a b c d x"), Err(FsTabError::InvalidNumber("freq", bad)));
    assert_eq!(FsTab::try_from("a b c d x y"), Err(FsTabError::InvalidNumber("freq", bad)));
    assert_eq!(FsTab::try_from("a b c d 1 y z"), Err(FsTabError::InvalidNumber("passno", bad)));
}

#[test]
fn table_errors_have_their_words() {
    assert_eq!(FsTabError::NotSixFields.message(), "line does not contain 6 fields.");
    assert_eq!(
        FsTabError::InvalidNumber("freq", NumberError::InvalidDigit).message(),
        "Invalid Number for freq: invalid digit found in string"
    );
}

#[test]
fn command_is_put_together() {
    let mut command = Command::new("ls".to_string());
    command
        .args(vec!["-l".to_string()])
        .args(vec!["a".to_string(), "b".to_string()])
        .env(b"K".to_vec(), b"V".to_vec())
        .fstab(tab("s", "f", "v", "m", 0, 0));
    assert_eq!(
        command.req,
        CommandReq {
            program: "ls".to_string(),
            args: vec!["-l".to_string(), "a".to_string(), "b".to_string()],
            envs: vec![EnvVar { key: b"K".to_vec(), val: b"V".to_vec() }],
            fstab: vec![tab("s", "f", "v", "m", 0, 0)],
            tty: false,
            ninep: false,
            tmp_mnt: String::new(),
        }
    );
}

#[test]
fn mount_names_are_fixed() {
    assert_eq!(NINEP_MOUNT, "mnt9p");
    assert_eq!(LOCAL_ROOT_MOUNT, "local");
}

#[test]
fn namespace_of_the_manual_is_read() {
    let tabs = parse_namespace("/lib:/lib64:/usr:/bin:/etc:/home:/export", "/p9cputmp");
    let names = ["/lib", "/lib64", "/usr", "/bin", "/etc", "/home", "/export"];
    let expected: Vec<FsTab> = names
        .iter()
        .map(|n| tab(&format!("/p9cputmp/mnt9p{}", n), n, "none", "defaults,bind", 0, 0))
        .collect();
    assert_eq!(tabs, expected);
}

#[test]
fn namespace_part_may_name_a_source() {
    let tabs = parse_namespace("/a=/b", "/t");
    assert_eq!(tabs, vec![tab("/t/mnt9p/b", "/a", "none", "defaults,bind", 0, 0)]);
}

#[test]
fn empty_namespace_has_no_lines() {
    assert_eq!(read_namespace("", "/t"), (vec![], vec![]));
}

#[test]
fn empty_parts_of_a_namespace_count() {
    let tabs = parse_namespace(":=/x", "/t");
    assert_eq!(tabs, vec![tab("/t/mnt9p", "", "none", "defaults,bind", 0, 0)]);
}

#[test]
fn first_part_with_a_target_counts() {
    let (tabs, warnings) = read_namespace("/a=/b:/c=/d=/e:/a=/f:/g", "/t");
    assert_eq!(
        tabs,
        vec![
            tab("/t/mnt9p/b", "/a", "none", "defaults,bind", 0, 0),
            tab("/t/mnt9p/g", "/g", "none", "defaults,bind", 0, 0),
        ]
    );
    assert_eq!(
        warnings,
        vec![
            NamespaceWarning::Invalid("/c=/d=/e".to_string()),
            NamespaceWarning::Duplicate("/a".to_string()),
        ]
    );
    assert_eq!(warnings[0].message(), "invalid namespace: /c=/d=/e");
    assert_eq!(warnings[1].message(), "duplicate target: /a");
    assert_eq!(tabs.len() + warnings.len(), 4);
}

#[test]
fn text_without_nul_goes_to_the_kernel() {
    let c = CText::new(b"/mnt".to_vec()).unwrap();
    assert_eq!(c.as_bytes().as_slice(), b"/mnt");
    assert_eq!(c.clone(), c);
    assert_eq!(CText::from_text("\u{e9}").unwrap().as_bytes().as_slice(), "\u{e9}".as_bytes());
}

#[test]
fn first_nul_of_a_text_is_reported() {
    let e = CText::new(b"ab\0c\0".to_vec()).unwrap_err();
    assert_eq!(e, NulError { position: 2, bytes: b"ab\0c\0".to_vec() });
    assert_eq!(e.message(), "NulError(2, [97, 98, 0, 99, 0])");
}

#[test]
fn request_is_put_together_from_namespace_and_table() {
    let (mut p, warnings) = Preparation::new("/usr", "/t".to_string()).unwrap();
    assert!(warnings.is_empty());
    assert_eq!(p.line("# a comment"), Ok(()));
    assert_eq!(p.line("none /tmp tmpfs rw 0 0"), Ok(()));
    assert_eq!(p.line(""), Err(FsTabError::NotSixFields));
    assert_eq!(p.line(" # no comment"), Err(FsTabError::NotSixFields));
    let envs = vec![EnvVar { key: b"A".to_vec(), val: vec![0xff] }];
    let req = p.command(vec!["sh".to_string(), "-c".to_string(), "x".to_string()], envs.clone(), true);
    assert_eq!(
        req,
        CommandReq {
            program: "sh".to_string(),
            args: vec!["-c".to_string(), "x".to_string()],
            envs,
            fstab: vec![
                tab("/t/mnt9p/usr", "/usr", "none", "defaults,bind", 0, 0),
                tab("none", "/tmp", "tmpfs", "rw", 0, 0),
            ],
            tty: true,
            ninep: true,
            tmp_mnt: "/t".to_string(),
        }
    );
}

#[test]
fn nothing_is_exported_without_a_namespace() {
    let (mut p, _) = Preparation::new("", "/t".to_string()).unwrap();
    assert_eq!(p.line("a b c d 0 0"), Ok(()));
    assert!(!p.command(vec!["x".to_string()], vec![], false).ninep);
}

#[test]
fn nothing_is_prepared_without_a_place_to_mount() {
    assert!(Preparation::new("/usr", String::new()).is_none());
    assert_eq!(NO_TMP_MNT, "tmpmnt cannot be emepty");
}

#[test]
fn log_lines_have_their_form() {
    assert_eq!(level_column("INFO"), "INFO ");
    assert_eq!(level_column(""), "     ");
    assert_eq!(level_column("ERROR"), "ERROR");
    assert_eq!(level_column("LONGER"), "LONGER");
    assert_eq!(
        log_format("2023-01-01 00:00:00 +00:00", "INFO ", Some("p9cpud"), "started"),
        "[2023-01-01 00:00:00 +00:00] INFO  [p9cpud]: started"
    );
    assert_eq!(log_format("t", "WARN ", None, "m"), "[t] WARN  [<unnamed>]: m");
}
