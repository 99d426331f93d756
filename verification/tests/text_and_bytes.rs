use maplehelper::bytes::push_all;
use maplehelper::bytes::push_i16;
use maplehelper::bytes::push_u16;
use maplehelper::bytes::push_u32;
use maplehelper::bytes::u16_from_le;
use maplehelper::error::HelperError;
use maplehelper::text::chars_of;
use maplehelper::text::contains_text;
use maplehelper::text::is_whitespace;
use maplehelper::text::normalize;
use maplehelper::text::parse_number;
use maplehelper::text::text_eq;
use maplehelper::text::trim;
use maplehelper::text::write_signed_decimal;
use maplehelper::wide::to_wide;

#[test]
fn white_space_is_that_of_unicode() {
    for n in 0..=0x10FFFFu32 {
        if let Some(c) = char::from_u32(n) {
            assert_eq!(is_whitespace(c), c.is_whitespace(), "{:x}", n);
        }
    }
}

#[test]
fn trimming_takes_white_space_from_both_ends() {
    assert_eq!(trim("  a b \t\r\n"), "a b");
    assert_eq!(trim("\u{3000}한글\u{A0}"), "한글");
    assert_eq!(trim("   "), "");
    assert_eq!(trim(""), "");
    assert_eq!(trim("x"), "x");
}

#[test]
fn trimming_twice_is_trimming_once() {
    for s in [" a ", "a", "", "\t\t", " \u{2003}b c\u{2003}"] {
        assert_eq!(trim(trim(s)), trim(s));
        assert_eq!(trim(s), s.trim());
    }
}

#[test]
fn normal_form_is_trimmed_and_lower_case() {
    assert_eq!(normalize("  Ctrl+Alt+F9 "), "ctrl+alt+f9");
    assert_eq!(normalize("LEADER+Q"), "leader+q");
    assert_eq!(normalize("ÄÖ 한"), "äö 한");
    assert_eq!(normalize("İ"), "i\u{307}");
    assert_eq!(normalize(""), "");
}

#[test]
fn normal_form_is_its_own_normal_form() {
    for s in [" Ctrl + A ", "F12", "  "] {
        assert_eq!(normalize(normalize(s).as_str()), normalize(s));
        assert_eq!(normalize(s.to_uppercase().as_str()), normalize(s));
        assert_eq!(normalize(s.trim()), normalize(s));
    }
}

#[test]
fn texts_are_equal_character_by_character() {
    assert!(text_eq("한글", "한글"));
    assert!(text_eq("", ""));
    assert!(!text_eq("a", "A"));
    assert!(!text_eq("a", "ab"));
    assert_eq!(chars_of("a한😀"), vec!['a', '한', '😀']);
}

#[test]
fn a_part_is_found_anywhere() {
    assert!(contains_text("{\"filterOn\":true}", "filterOn"));
    assert!(contains_text("filterOn", "filterOn"));
    assert!(contains_text("aab", "ab"));
    assert!(contains_text("a", ""));
    assert!(contains_text("", ""));
    assert!(!contains_text("filteron", "filterOn"));
    assert!(!contains_text("filterO", "filterOn"));
}

#[test]
fn numbers_are_read_as_unsigned() {
    assert_eq!(parse_number("24"), Some(24));
    assert_eq!(parse_number("007"), Some(7));
    assert_eq!(parse_number("+5"), Some(5));
    assert_eq!(parse_number("4294967295"), Some(u32::MAX));
    for s in ["", "+", "-1", "++1", " 1", "1a", "4294967296", "99999999999999999999", "１"] {
        assert_eq!(parse_number(s), None, "{}", s);
        assert!(s.parse::<u32>().is_err());
    }
}

#[test]
fn numbers_are_written_in_decimal() {
    for n in [0, 7, 10, 1203, -1, -45, i32::MAX, i32::MIN] {
        let mut out = String::new();
        write_signed_decimal(&mut out, n);
        assert_eq!(out, n.to_string());
    }
}

#[test]
fn bytes_stand_lowest_first() {
    let mut out: Vec<u8> = Vec::new();
    push_u16(&mut out, 0xE01D);
    push_u32(&mut out, 0x01020304);
    push_i16(&mut out, -2);
    push_i16(&mut out, i16::MIN);
    push_i16(&mut out, 258);
    push_all(&mut out, &[9, 8]);
    assert_eq!(out, vec![0x1D, 0xE0, 4, 3, 2, 1, 0xFE, 0xFF, 0x00, 0x80, 2, 1, 9, 8]);
}

#[test]
fn numbers_are_read_back_from_their_bytes() {
    for x in [0u16, 1, 255, 256, 0xE01D, u16::MAX] {
        let mut out: Vec<u8> = Vec::new();
        push_u16(&mut out, x);
        assert_eq!(u16_from_le(out[0], out[1]), x);
        assert_eq!(out, x.to_le_bytes().to_vec());
    }
}

#[test]
fn wide_texts_end_with_a_zero() {
    for s in ["", "runas", "Scancode Map", "메이플헬퍼", "a😀b", "\u{10FFFF}\u{10000}\u{FFFF}"] {
        let mut expected: Vec<u16> = s.encode_utf16().collect();
        expected.push(0);
        assert_eq!(to_wide(s), expected);
    }
    assert_eq!(to_wide("😀"), vec![0xD83D, 0xDE00, 0]);
}

#[test]
fn different_texts_have_different_wide_forms() {
    assert_ne!(to_wide("a"), to_wide("b"));
    assert_ne!(to_wide("a"), to_wide("a\u{0}"));
    assert_ne!(to_wide("😀"), to_wide("😁"));
}

#[test]
fn errors_have_their_messages() {
    assert_eq!(HelperError::RegistryOpen(5).message(), "레지스트리 키 열기 실패 (코드 5)");
    assert_eq!(HelperError::RegistryQuery(-12).message(), "레지스트리 값 조회 실패 (코드 -12)");
    assert_eq!(HelperError::RegistryRead(234).message(), "레지스트리 값 읽기 실패 (코드 234)");
    assert_eq!(HelperError::AccessDenied.message(), "관리자 권한이 필요합니다");
    assert_eq!(HelperError::RegistryWrite(87).message(), "레지스트리 쓰기 실패 (코드 87)");
    assert_eq!(
        HelperError::ElevationRefused.message(),
        "관리자 권한 실행이 취소되었거나 실패했습니다"
    );
    assert_eq!(
        HelperError::FilterKeysRead.message(),
        "필터키 상태를 읽지 못했습니다 (SPI_GETFILTERKEYS 실패)"
    );
    assert_eq!(
        HelperError::FilterKeysWrite.message(),
        "필터키 적용에 실패했습니다 (SPI_SETFILTERKEYS 실패)"
    );
    assert_eq!(HelperError::PresetNotFound.message(), "프리셋을 찾을 수 없습니다");
    assert_eq!(HelperError::NoUpdate.message(), "설치할 업데이트가 없습니다");
}
