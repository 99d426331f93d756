//! What can go wrong, and the messages that are shown for it.

use vstd::prelude::*;

use crate::text;
use crate::text::write_signed_decimal;

verus! {

/// A failed request.
#[derive(Clone, Copy, PartialEq, Eq, Structural, Debug)]
pub enum HelperError {
    /// The registry key could not be opened; the system's code.
    RegistryOpen(i32),
    /// The size of a registry value could not be asked for; the system's code.
    RegistryQuery(i32),
    /// A registry value could not be read; the system's code.
    RegistryRead(i32),
    /// The registry may only be changed by an administrator.
    AccessDenied,
    /// A registry value could not be written or deleted; the system's code.
    RegistryWrite(i32),
    /// The program was not started again as administrator.
    ElevationRefused,
    /// The filter keys could not be read.
    FilterKeysRead,
    /// The filter keys could not be set.
    FilterKeysWrite,
    /// No preset has the id that was asked for.
    PresetNotFound,
    /// There is no update to install.
    NoUpdate,
}

/// A message that ends with the system's code in brackets.
pub open spec fn coded_message(head: Seq<char>, code: int) -> Seq<char> {
    head + text::signed_decimal(code) + ")"@
}

/// The message shown for an error.
pub open spec fn message_of(e: HelperError) -> Seq<char> {
    match e {
        HelperError::RegistryOpen(r) => coded_message("레지스트리 키 열기 실패 (코드 "@, r as int),
        HelperError::RegistryQuery(r) => coded_message("레지스트리 값 조회 실패 (코드 "@, r as int),
        HelperError::RegistryRead(r) => coded_message("레지스트리 값 읽기 실패 (코드 "@, r as int),
        HelperError::AccessDenied => "관리자 권한이 필요합니다"@,
        HelperError::RegistryWrite(r) => coded_message("레지스트리 쓰기 실패 (코드 "@, r as int),
        HelperError::ElevationRefused => "관리자 권한 실행이 취소되었거나 실패했습니다"@,
        HelperError::FilterKeysRead => "필터키 상태를 읽지 못했습니다 (SPI_GETFILTERKEYS 실패)"@,
        HelperError::FilterKeysWrite => "필터키 적용에 실패했습니다 (SPI_SETFILTERKEYS 실패)"@,
        HelperError::PresetNotFound => "프리셋을 찾을 수 없습니다"@,
        HelperError::NoUpdate => "설치할 업데이트가 없습니다"@,
    }
}

fn with_code(head: &str, code: i32) -> (r: String)
    ensures
        r@ == coded_message(head@, code as int),
{
    let mut out = head.to_owned();
    write_signed_decimal(&mut out, code);
    out.append(")");
    out
}

impl HelperError {
    /// The message shown for this error.
    pub fn message(&self) -> (r: String)
        ensures
            r@ == message_of(*self),
    {
        match self {
            HelperError::RegistryOpen(r) => with_code("레지스트리 키 열기 실패 (코드 ", *r),
            HelperError::RegistryQuery(r) => with_code("레지스트리 값 조회 실패 (코드 ", *r),
            HelperError::RegistryRead(r) => with_code("레지스트리 값 읽기 실패 (코드 ", *r),
            HelperError::AccessDenied => "관리자 권한이 필요합니다".to_owned(),
            HelperError::RegistryWrite(r) => with_code("레지스트리 쓰기 실패 (코드 ", *r),
            HelperError::ElevationRefused => "관리자 권한 실행이 취소되었거나 실패했습니다".to_owned(),
            HelperError::FilterKeysRead => "필터키 상태를 읽지 못했습니다 (SPI_GETFILTERKEYS 실패)".to_owned(),
            HelperError::FilterKeysWrite => "필터키 적용에 실패했습니다 (SPI_SETFILTERKEYS 실패)".to_owned(),
            HelperError::PresetNotFound => "프리셋을 찾을 수 없습니다".to_owned(),
            HelperError::NoUpdate => "설치할 업데이트가 없습니다".to_owned(),
        }
    }
}

/// Messages about the registry end with the system's code, written out.
pub proof fn law_messages_show_the_code(code: i32)
    ensures
        message_of(HelperError::RegistryOpen(code)) == "레지스트리 키 열기 실패 (코드 "@
            + text::signed_decimal(code as int) + ")"@,
        message_of(HelperError::RegistryQuery(code)) == "레지스트리 값 조회 실패 (코드 "@
            + text::signed_decimal(code as int) + ")"@,
        message_of(HelperError::RegistryRead(code)) == "레지스트리 값 읽기 실패 (코드 "@
            + text::signed_decimal(code as int) + ")"@,
        message_of(HelperError::RegistryWrite(code)) == "레지스트리 쓰기 실패 (코드 "@
            + text::signed_decimal(code as int) + ")"@,
{
}

} // verus!
