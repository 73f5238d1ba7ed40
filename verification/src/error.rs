//! Error codes of a device and the errors that the adapter reports.

use crate::can::{CanError, CanMessage};
use vstd::prelude::*;
use vstd::string::*;

verus! {

/// What the last call on a device or a device list came to.
#[derive(Clone, Copy, PartialEq, Eq, Structural)]
pub enum CandleErr {
    Success,
    CreateFile,
    WinUsbInitialize,
    QueryInterface,
    QueryPipe,
    ParseIfDescr,
    SetHostFormat,
    GetDeviceInfo,
    GetBittimingConst,
    PrepareRead,
    SetDeviceMode,
    SetBittiming,
    BitrateFclk,
    BitrateUnsupported,
    SendFrame,
    ReadTimeout,
    ReadWait,
    ReadResult,
    ReadSize,
    SetupDiIfDetails,
    SetupDiIfDetails2,
    Malloc,
    PathLen,
    Clsid,
    GetDevices,
    SetupDiIfEnum,
    SetTimestampMode,
    DevOutOfRange,
    GetTimestamp,
    SetPipeRawIo,
    Unknown,
}

impl CandleErr {
    /// The number that stands for this code.
    pub open spec fn code(self) -> i32 {
        match self {
            CandleErr::Success => 0,
            CandleErr::CreateFile => 1,
            CandleErr::WinUsbInitialize => 2,
            CandleErr::QueryInterface => 3,
            CandleErr::QueryPipe => 4,
            CandleErr::ParseIfDescr => 5,
            CandleErr::SetHostFormat => 6,
            CandleErr::GetDeviceInfo => 7,
            CandleErr::GetBittimingConst => 8,
            CandleErr::PrepareRead => 9,
            CandleErr::SetDeviceMode => 10,
            CandleErr::SetBittiming => 11,
            CandleErr::BitrateFclk => 12,
            CandleErr::BitrateUnsupported => 13,
            CandleErr::SendFrame => 14,
            CandleErr::ReadTimeout => 15,
            CandleErr::ReadWait => 16,
            CandleErr::ReadResult => 17,
            CandleErr::ReadSize => 18,
            CandleErr::SetupDiIfDetails => 19,
            CandleErr::SetupDiIfDetails2 => 20,
            CandleErr::Malloc => 21,
            CandleErr::PathLen => 22,
            CandleErr::Clsid => 23,
            CandleErr::GetDevices => 24,
            CandleErr::SetupDiIfEnum => 25,
            CandleErr::SetTimestampMode => 26,
            CandleErr::DevOutOfRange => 27,
            CandleErr::GetTimestamp => 28,
            CandleErr::SetPipeRawIo => 29,
            CandleErr::Unknown => 9999,
        }
    }

    /// The number that stands for this code.
    pub fn to_raw(self) -> (raw: i32)
        ensures
            raw == self.code(),
    {
        match self {
            CandleErr::Success => 0,
            CandleErr::CreateFile => 1,
            CandleErr::WinUsbInitialize => 2,
            CandleErr::QueryInterface => 3,
            CandleErr::QueryPipe => 4,
            CandleErr::ParseIfDescr => 5,
            CandleErr::SetHostFormat => 6,
            CandleErr::GetDeviceInfo => 7,
            CandleErr::GetBittimingConst => 8,
            CandleErr::PrepareRead => 9,
            CandleErr::SetDeviceMode => 10,
            CandleErr::SetBittiming => 11,
            CandleErr::BitrateFclk => 12,
            CandleErr::BitrateUnsupported => 13,
            CandleErr::SendFrame => 14,
            CandleErr::ReadTimeout => 15,
            CandleErr::ReadWait => 16,
            CandleErr::ReadResult => 17,
            CandleErr::ReadSize => 18,
            CandleErr::SetupDiIfDetails => 19,
            CandleErr::SetupDiIfDetails2 => 20,
            CandleErr::Malloc => 21,
            CandleErr::PathLen => 22,
            CandleErr::Clsid => 23,
            CandleErr::GetDevices => 24,
            CandleErr::SetupDiIfEnum => 25,
            CandleErr::SetTimestampMode => 26,
            CandleErr::DevOutOfRange => 27,
            CandleErr::GetTimestamp => 28,
            CandleErr::SetPipeRawIo => 29,
            CandleErr::Unknown => 9999,
        }
    }

    /// The code that a number stands for; `Unknown` where it stands for none.
    pub fn from_raw(raw: i32) -> (err: Self)
        ensures
            0 <= raw <= 29 ==> err.code() == raw,
            !(0 <= raw <= 29) ==> err == CandleErr::Unknown,
            forall|e: CandleErr| #[trigger] e.code() == raw ==> err == e,
    {
        match raw {
            0 => CandleErr::Success,
            1 => CandleErr::CreateFile,
            2 => CandleErr::WinUsbInitialize,
            3 => CandleErr::QueryInterface,
            4 => CandleErr::QueryPipe,
            5 => CandleErr::ParseIfDescr,
            6 => CandleErr::SetHostFormat,
            7 => CandleErr::GetDeviceInfo,
            8 => CandleErr::GetBittimingConst,
            9 => CandleErr::PrepareRead,
            10 => CandleErr::SetDeviceMode,
            11 => CandleErr::SetBittiming,
            12 => CandleErr::BitrateFclk,
            13 => CandleErr::BitrateUnsupported,
            14 => CandleErr::SendFrame,
            15 => CandleErr::ReadTimeout,
            16 => CandleErr::ReadWait,
            17 => CandleErr::ReadResult,
            18 => CandleErr::ReadSize,
            19 => CandleErr::SetupDiIfDetails,
            20 => CandleErr::SetupDiIfDetails2,
            21 => CandleErr::Malloc,
            22 => CandleErr::PathLen,
            23 => CandleErr::Clsid,
            24 => CandleErr::GetDevices,
            25 => CandleErr::SetupDiIfEnum,
            26 => CandleErr::SetTimestampMode,
            27 => CandleErr::DevOutOfRange,
            28 => CandleErr::GetTimestamp,
            29 => CandleErr::SetPipeRawIo,
            _ => CandleErr::Unknown,
        }
    }

    /// The name of this code, as it appears in messages.
    pub open spec fn label(self) -> Seq<char> {
        match self {
            CandleErr::Success => "Ok"@,
            CandleErr::CreateFile => "CreateFile"@,
            CandleErr::WinUsbInitialize => "WinUsbInitialize"@,
            CandleErr::QueryInterface => "QueryInterface"@,
            CandleErr::QueryPipe => "QueryPipe"@,
            CandleErr::ParseIfDescr => "ParseIfDescr"@,
            CandleErr::SetHostFormat => "SetHostFormat"@,
            CandleErr::GetDeviceInfo => "GetDeviceInfo"@,
            CandleErr::GetBittimingConst => "GetBittimingConst"@,
            CandleErr::PrepareRead => "PrepareRead"@,
            CandleErr::SetDeviceMode => "SetDeviceMode"@,
            CandleErr::SetBittiming => "SetBittiming"@,
            CandleErr::BitrateFclk => "BitrateFclk"@,
            CandleErr::BitrateUnsupported => "BitrateUnsupported"@,
            CandleErr::SendFrame => "SendFrame"@,
            CandleErr::ReadTimeout => "ReadTimeout"@,
            CandleErr::ReadWait => "ReadWait"@,
            CandleErr::ReadResult => "ReadResult"@,
            CandleErr::ReadSize => "ReadSize"@,
            CandleErr::SetupDiIfDetails => "SetupDiIfDetails"@,
            CandleErr::SetupDiIfDetails2 => "SetupDiIfDetails2"@,
            CandleErr::Malloc => "Malloc"@,
            CandleErr::PathLen => "PathLen"@,
            CandleErr::Clsid => "Clsid"@,
            CandleErr::GetDevices => "GetDevices"@,
            CandleErr::SetupDiIfEnum => "SetupDiIfEnum"@,
            CandleErr::SetTimestampMode => "SetTimestampMode"@,
            CandleErr::DevOutOfRange => "DevOutOfRange"@,
            CandleErr::GetTimestamp => "GetTimestamp"@,
            CandleErr::SetPipeRawIo => "SetPipeRawIo"@,
            CandleErr::Unknown => "Unknown"@,
        }
    }

    /// The name of this code, as it appears in messages.
    pub fn name(self) -> (name: &'static str)
        ensures
            name@ == self.label(),
    {
        match self {
            CandleErr::Success => "Ok",
            CandleErr::CreateFile => "CreateFile",
            CandleErr::WinUsbInitialize => "WinUsbInitialize",
            CandleErr::QueryInterface => "QueryInterface",
            CandleErr::QueryPipe => "QueryPipe",
            CandleErr::ParseIfDescr => "ParseIfDescr",
            CandleErr::SetHostFormat => "SetHostFormat",
            CandleErr::GetDeviceInfo => "GetDeviceInfo",
            CandleErr::GetBittimingConst => "GetBittimingConst",
            CandleErr::PrepareRead => "PrepareRead",
            CandleErr::SetDeviceMode => "SetDeviceMode",
            CandleErr::SetBittiming => "SetBittiming",
            CandleErr::BitrateFclk => "BitrateFclk",
            CandleErr::BitrateUnsupported => "BitrateUnsupported",
            CandleErr::SendFrame => "SendFrame",
            CandleErr::ReadTimeout => "ReadTimeout",
            CandleErr::ReadWait => "ReadWait",
            CandleErr::ReadResult => "ReadResult",
            CandleErr::ReadSize => "ReadSize",
            CandleErr::SetupDiIfDetails => "SetupDiIfDetails",
            CandleErr::SetupDiIfDetails2 => "SetupDiIfDetails2",
            CandleErr::Malloc => "Malloc",
            CandleErr::PathLen => "PathLen",
            CandleErr::Clsid => "Clsid",
            CandleErr::GetDevices => "GetDevices",
            CandleErr::SetupDiIfEnum => "SetupDiIfEnum",
            CandleErr::SetTimestampMode => "SetTimestampMode",
            CandleErr::DevOutOfRange => "DevOutOfRange",
            CandleErr::GetTimestamp => "GetTimestamp",
            CandleErr::SetPipeRawIo => "SetPipeRawIo",
            CandleErr::Unknown => "Unknown",
        }
    }
}

/// `core::fmt::Formatter`, where the text of a value goes.
#[verifier::external_type_specification]
#[verifier::external_body]
pub struct ExFormatter<'a>(core::fmt::Formatter<'a>);

/// `core::fmt::Error`, which a formatter gives where it takes no more text.
#[verifier::external_type_specification]
#[verifier::external_body]
pub struct ExFmtError(core::fmt::Error);

/// `core::fmt::Formatter::write_str`: hands some text to a formatter. Nothing is claimed of the
/// result: whether the text is taken is up to whatever stands behind the formatter.
pub assume_specification<'a>[ core::fmt::Formatter::<'a>::write_str ](
    f: &mut core::fmt::Formatter<'a>,
    data: &str,
) -> core::fmt::Result
;

impl core::fmt::Debug for CandleErr {
    /// Writes the name of this code.
    fn fmt(&self, f: &mut core::fmt::Formatter<'_>) -> core::fmt::Result {
        f.write_str(self.name())
    }
}

/// No two codes share a number, so the number of a code names that code and no other.
pub proof fn codes_are_distinct(a: CandleErr, b: CandleErr)
    ensures
        a.code() == b.code() <==> a == b,
{
}

/// Why a device could not be listed or opened.
#[derive(Debug, Clone, Copy, PartialEq, Eq)]
pub enum CandleError {
    NativeError { code: CandleErr, context: &'static str },
    InvalidDeviceIndex(u8),
    InvalidChannel(u8),
    ChannelClosed,
}

/// The character of a decimal digit.
pub open spec fn digit(d: nat) -> char {
    (('0' as nat) + d) as char
}

/// A number in decimal, without leading zeros.
pub open spec fn decimal(n: nat) -> Seq<char>
    decreases n,
{
    if n < 10 {
        seq![digit(n)]
    } else {
        decimal(n / 10).push(digit(n % 10))
    }
}

fn digit_str(d: u8) -> (s: &'static str)
    requires
        d < 10,
    ensures
        s@ == seq![digit(d as nat)],
{
    proof {
        reveal_strlit("0");
        reveal_strlit("1");
        reveal_strlit("2");
        reveal_strlit("3");
        reveal_strlit("4");
        reveal_strlit("5");
        reveal_strlit("6");
        reveal_strlit("7");
        reveal_strlit("8");
        reveal_strlit("9");
    }
    match d {
        0 => "0",
        1 => "1",
        2 => "2",
        3 => "3",
        4 => "4",
        5 => "5",
        6 => "6",
        7 => "7",
        8 => "8",
        _ => "9",
    }
}

fn push_decimal(text: &mut String, n: u8)
    ensures
        final(text)@ == old(text)@ + decimal(n as nat),
    decreases n,
{
    if n < 10 {
        text.append(digit_str(n));
    } else {
        push_decimal(text, n / 10);
        text.append(digit_str(n % 10));
    }
}

impl CandleError {
    /// The message for the user.
    pub open spec fn text(&self) -> Seq<char> {
        match self {
            CandleError::NativeError { code, context } =>
                "native error "@ + code.label() + " at "@ + context@,
            CandleError::InvalidDeviceIndex(index) =>
                "invalid device index "@ + decimal(*index as nat),
            CandleError::InvalidChannel(channel) => "invalid channel "@ + decimal(*channel as nat),
            CandleError::ChannelClosed => "channel closed"@,
        }
    }

    /// The message for the user.
    pub fn describe(&self) -> (text: String)
        ensures
            text@ == self.text(),
    {
        match self {
            CandleError::NativeError { code, context } => {
                let mut text = "native error ".to_owned();
                text.append(code.name());
                text.append(" at ");
                text.append(context);
                text
            },
            CandleError::InvalidDeviceIndex(index) => {
                let mut text = "invalid device index ".to_owned();
                push_decimal(&mut text, *index);
                text
            },
            CandleError::InvalidChannel(channel) => {
                let mut text = "invalid channel ".to_owned();
                push_decimal(&mut text, *channel);
                text
            },
            CandleError::ChannelClosed => "channel closed".to_owned(),
        }
    }
}

/// Why no message was received.
#[derive(Debug, Clone, Copy, PartialEq, Eq, Structural)]
pub enum ReceiveError {
    NativeError { code: CandleErr },
    CanError { source: CanError },
    ChannelClosed,
}

/// A message that was not sent, and why.
#[derive(Debug)]
pub struct SendError {
    pub message: CanMessage,
    pub details: String,
}

impl SendError {
    /// The message that was not sent.
    pub fn into_can_message(self) -> (message: CanMessage)
        ensures
            message == self.message,
    {
        self.message
    }

    /// What went wrong.
    pub fn message(&self) -> (details: String)
        ensures
            details@ == self.details@,
    {
        self.details.clone()
    }
}

/// The number and the name of each code.
pub proof fn codes_have_their_numbers_and_names(err: CandleErr)
    ensures
        match err {
            CandleErr::Success => err.code() == 0 && err.label() == "Ok"@,
            CandleErr::CreateFile => err.code() == 1 && err.label() == "CreateFile"@,
            CandleErr::WinUsbInitialize => err.code() == 2 && err.label() == "WinUsbInitialize"@,
            CandleErr::QueryInterface => err.code() == 3 && err.label() == "QueryInterface"@,
            CandleErr::QueryPipe => err.code() == 4 && err.label() == "QueryPipe"@,
            CandleErr::ParseIfDescr => err.code() == 5 && err.label() == "ParseIfDescr"@,
            CandleErr::SetHostFormat => err.code() == 6 && err.label() == "SetHostFormat"@,
            CandleErr::GetDeviceInfo => err.code() == 7 && err.label() == "GetDeviceInfo"@,
            CandleErr::GetBittimingConst => err.code() == 8 && err.label() == "GetBittimingConst"@,
            CandleErr::PrepareRead => err.code() == 9 && err.label() == "PrepareRead"@,
            CandleErr::SetDeviceMode => err.code() == 10 && err.label() == "SetDeviceMode"@,
            CandleErr::SetBittiming => err.code() == 11 && err.label() == "SetBittiming"@,
            CandleErr::BitrateFclk => err.code() == 12 && err.label() == "BitrateFclk"@,
            CandleErr::BitrateUnsupported => err.code() == 13 && err.label() == "BitrateUnsupported"@,
            CandleErr::SendFrame => err.code() == 14 && err.label() == "SendFrame"@,
            CandleErr::ReadTimeout => err.code() == 15 && err.label() == "ReadTimeout"@,
            CandleErr::ReadWait => err.code() == 16 && err.label() == "ReadWait"@,
            CandleErr::ReadResult => err.code() == 17 && err.label() == "ReadResult"@,
            CandleErr::ReadSize => err.code() == 18 && err.label() == "ReadSize"@,
            CandleErr::SetupDiIfDetails => err.code() == 19 && err.label() == "SetupDiIfDetails"@,
            CandleErr::SetupDiIfDetails2 => err.code() == 20 && err.label() == "SetupDiIfDetails2"@,
            CandleErr::Malloc => err.code() == 21 && err.label() == "Malloc"@,
            CandleErr::PathLen => err.code() == 22 && err.label() == "PathLen"@,
            CandleErr::Clsid => err.code() == 23 && err.label() == "Clsid"@,
            CandleErr::GetDevices => err.code() == 24 && err.label() == "GetDevices"@,
            CandleErr::SetupDiIfEnum => err.code() == 25 && err.label() == "SetupDiIfEnum"@,
            CandleErr::SetTimestampMode => err.code() == 26 && err.label() == "SetTimestampMode"@,
            CandleErr::DevOutOfRange => err.code() == 27 && err.label() == "DevOutOfRange"@,
            CandleErr::GetTimestamp => err.code() == 28 && err.label() == "GetTimestamp"@,
            CandleErr::SetPipeRawIo => err.code() == 29 && err.label() == "SetPipeRawIo"@,
            CandleErr::Unknown => err.code() == 9999 && err.label() == "Unknown"@,
        },
{
}

/// The number that some decimal digits stand for.
pub open spec fn digits_value(digits: Seq<char>) -> int
    decreases digits.len(),
{
    if digits.len() == 0 {
        0
    } else {
        10 * digits_value(digits.drop_last()) + (digits.last() as int - 48)
    }
}

/// A number in decimal is made of digits that stand for it, and does not start with a zero unless
/// it is a single one.
pub proof fn decimal_stands_for_its_number(n: nat)
    ensures
        digits_value(decimal(n)) == n,
        decimal(n).len() >= 1,
        forall|i: int| 0 <= i < decimal(n).len() ==> 48 <= #[trigger] decimal(n)[i] as int <= 57,
        n >= 10 ==> decimal(n)[0] as int != 48,
        n < 10 ==> decimal(n).len() == 1,
        n > 0 ==> decimal(n)[0] as int != 48,
    decreases n,
{
    reveal_with_fuel(digits_value, 2);
    if n < 10 {
        assert(decimal(n).drop_last() =~= Seq::empty());
    } else {
        decimal_stands_for_its_number(n / 10);
        assert(decimal(n).drop_last() =~= decimal(n / 10));
        assert(decimal(n)[0] == decimal(n / 10)[0]);
        assert forall|i: int| 0 <= i < decimal(n).len() implies 48 <= #[trigger] decimal(n)[i] as int
            <= 57 by {
            if i < decimal(n / 10).len() {
                assert(decimal(n)[i] == decimal(n / 10)[i]);
            }
        }
    }
}

/// What the message of an error says: the words for it, and what it names.
pub proof fn messages_name_what_went_wrong(e: CandleError)
    ensures
        match e {
            CandleError::NativeError { code, context } => {
                e.text() == "native error "@ + code.label() + " at "@ + context@
            },
            CandleError::InvalidDeviceIndex(index) => {
                e.text() == "invalid device index "@ + decimal(index as nat)
            },
            CandleError::InvalidChannel(channel) => {
                e.text() == "invalid channel "@ + decimal(channel as nat)
            },
            CandleError::ChannelClosed => e.text() == "channel closed"@,
        },
{
}

} // verus!
