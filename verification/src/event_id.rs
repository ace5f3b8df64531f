//! The code that says what kind of activity an event records.

use vstd::prelude::*;
use vstd::string::StringExecFns;
use crate::decimal::{
    decimal, decimal_string, digits_value, is_digit, is_numeral, lemma_decimal_round_trip,
    lemma_digits_value_nonnegative, numeral_digits, parse_u8, u8_of_text,
};
use crate::error::ParseError;

verus! {

/// The code of an event kind: a number from 1 to 255, never zero.
///
/// Some codes have a label of their own; they are listed as constants of
/// this type. Every other code from 1 to 255 is a code all the same, shown
/// under a common label.
///
/// Two identities are equal when their codes are.
#[derive(Clone, Copy, PartialEq, Eq, Structural)]
pub struct SysmonEventId(u8);

impl View for SysmonEventId {
    type V = u8;

    closed spec fn view(&self) -> u8 {
        self.0
    }
}

/// The label shown for codes that have none of their own.
pub open spec fn unknown_label() -> Seq<char> {
    "Unknown event"@
}

/// The label under which the event kind with code `code` is shown.
pub open spec fn label_of(code: u8) -> Seq<char> {
    if code == SysmonEventId::PROCESS_CREATE {
        "Process Create"@
    } else if code == SysmonEventId::FILE_CREATE_TIME {
        "File creation time changed"@
    } else if code == SysmonEventId::NETWORK_CONNECT {
        "Network connection detected"@
    } else if code == SysmonEventId::PROCESS_TERMINATE {
        "Process terminated"@
    } else if code == SysmonEventId::DRIVER_LOAD {
        "Driver loaded"@
    } else if code == SysmonEventId::IMAGE_LOAD {
        "Image loaded"@
    } else if code == SysmonEventId::CREATE_REMOTE_THREAD {
        "CreateRemoteThread detected"@
    } else if code == SysmonEventId::RAW_ACCESS_READ {
        "RawAccessRead detected"@
    } else if code == SysmonEventId::PROCESS_ACCESS {
        "Process accessed"@
    } else if code == SysmonEventId::FILE_CREATE {
        "File created"@
    } else if code == SysmonEventId::REGISTRY_EVENT_ADD_DELETE {
        "Registry object added or deleted"@
    } else if code == SysmonEventId::REGISTRY_EVENT_SET {
        "Registry value set"@
    } else if code == SysmonEventId::REGISTRY_EVENT_RENAME {
        "Registry object renamed"@
    } else if code == SysmonEventId::FILE_CREATE_STREAM_HASH {
        "File stream created"@
    } else if code == SysmonEventId::PIPE_EVENT_CREATE {
        "Pipe Created"@
    } else if code == SysmonEventId::PIPE_EVENT_CONNECT {
        "Pipe Connected"@
    } else if code == SysmonEventId::WMI_EVENT_FILTER {
        "WmiEventFilter activity detected"@
    } else if code == SysmonEventId::WMI_EVENT_CONSUMER {
        "WmiEventConsumer activity detected"@
    } else if code == SysmonEventId::WMI_EVENT_CONSUMER_FILTER {
        "WmiEventConsumerToFilter activity detected"@
    } else if code == SysmonEventId::DNS_QUERY {
        "Dns query"@
    } else if code == SysmonEventId::FILE_DELETE {
        "File Delete archived"@
    } else if code == SysmonEventId::CLIPBOARD_CHANGE {
        "Clipboard changed"@
    } else if code == SysmonEventId::PROCESS_TAMPERING {
        "Process Tampering"@
    } else if code == SysmonEventId::FILE_DELETE_DETECTED {
        "File Delete logged"@
    } else {
        unknown_label()
    }
}

/// How an identity with code `code` is shown: the code in decimal, a blank
/// and the label.
pub open spec fn rendering(code: u8) -> Seq<char> {
    decimal(code as nat) + seq![' '] + label_of(code)
}

/// The code that `text` denotes, or why it denotes none.
///
/// A text that is no numeral of an unsigned 8-bit integer is not a number;
/// a numeral of zero is refused as such.
pub open spec fn code_of_text(text: Seq<char>) -> Result<u8, ParseError> {
    match u8_of_text(text) {
        None => Err(ParseError::NotANumber),
        Some(code) => if code == 0 {
            Err(ParseError::ZeroNotAllowed)
        } else {
            Ok(code)
        },
    }
}

impl SysmonEventId {
    /// A process was created.
    pub const PROCESS_CREATE: u8 = 1;

    /// A process changed the creation time of a file.
    pub const FILE_CREATE_TIME: u8 = 2;

    /// A network connection was made.
    pub const NETWORK_CONNECT: u8 = 3;

    /// A process ended.
    pub const PROCESS_TERMINATE: u8 = 5;

    /// A driver was loaded.
    pub const DRIVER_LOAD: u8 = 6;

    /// A module was loaded into a process.
    pub const IMAGE_LOAD: u8 = 7;

    /// A process created a thread in another process.
    pub const CREATE_REMOTE_THREAD: u8 = 8;

    /// A process read a drive directly.
    pub const RAW_ACCESS_READ: u8 = 9;

    /// A process opened another process.
    pub const PROCESS_ACCESS: u8 = 10;

    /// A file was created or overwritten.
    pub const FILE_CREATE: u8 = 11;

    /// A registry key or value was created or deleted.
    pub const REGISTRY_EVENT_ADD_DELETE: u8 = 12;

    /// A registry value was set.
    pub const REGISTRY_EVENT_SET: u8 = 13;

    /// A registry key or value was renamed.
    pub const REGISTRY_EVENT_RENAME: u8 = 14;

    /// A named file stream was created.
    pub const FILE_CREATE_STREAM_HASH: u8 = 15;

    /// A named pipe was created.
    pub const PIPE_EVENT_CREATE: u8 = 17;

    /// A named pipe was connected to.
    pub const PIPE_EVENT_CONNECT: u8 = 18;

    /// A WMI event filter was registered.
    pub const WMI_EVENT_FILTER: u8 = 19;

    /// A WMI event consumer was registered.
    pub const WMI_EVENT_CONSUMER: u8 = 20;

    /// A WMI consumer was bound to a filter.
    pub const WMI_EVENT_CONSUMER_FILTER: u8 = 21;

    /// A process made a DNS query.
    pub const DNS_QUERY: u8 = 22;

    /// A file was deleted and archived.
    pub const FILE_DELETE: u8 = 23;

    /// The clipboard contents changed.
    pub const CLIPBOARD_CHANGE: u8 = 24;

    /// The image of a process was tampered with.
    pub const PROCESS_TAMPERING: u8 = 25;

    /// A file was deleted.
    pub const FILE_DELETE_DETECTED: u8 = 26;

    #[verifier::type_invariant]
    spec fn nonzero(self) -> bool {
        self.0 != 0
    }

    /// The identity with the given code, unless the code is zero.
    pub fn new(code: u8) -> (id: Option<SysmonEventId>)
        ensures
            code == 0 ==> id is None,
            code != 0 ==> id is Some && id->0@ == code,
    {
        if code == 0 {
            None
        } else {
            Some(SysmonEventId(code))
        }
    }

    /// The numeric code, which is never zero.
    pub fn code(&self) -> (code: u8)
        ensures
            code == self@,
            code != 0,
    {
        proof {
            use_type_invariant(self);
        }
        self.0
    }

    /// The label under which this kind of event is shown.
    pub fn label(&self) -> (label: &'static str)
        ensures
            label@ == label_of(self@),
    {
        let code = self.0;
        if code == Self::PROCESS_CREATE {
            "Process Create"
        } else if code == Self::FILE_CREATE_TIME {
            "File creation time changed"
        } else if code == Self::NETWORK_CONNECT {
            "Network connection detected"
        } else if code == Self::PROCESS_TERMINATE {
            "Process terminated"
        } else if code == Self::DRIVER_LOAD {
            "Driver loaded"
        } else if code == Self::IMAGE_LOAD {
            "Image loaded"
        } else if code == Self::CREATE_REMOTE_THREAD {
            "CreateRemoteThread detected"
        } else if code == Self::RAW_ACCESS_READ {
            "RawAccessRead detected"
        } else if code == Self::PROCESS_ACCESS {
            "Process accessed"
        } else if code == Self::FILE_CREATE {
            "File created"
        } else if code == Self::REGISTRY_EVENT_ADD_DELETE {
            "Registry object added or deleted"
        } else if code == Self::REGISTRY_EVENT_SET {
            "Registry value set"
        } else if code == Self::REGISTRY_EVENT_RENAME {
            "Registry object renamed"
        } else if code == Self::FILE_CREATE_STREAM_HASH {
            "File stream created"
        } else if code == Self::PIPE_EVENT_CREATE {
            "Pipe Created"
        } else if code == Self::PIPE_EVENT_CONNECT {
            "Pipe Connected"
        } else if code == Self::WMI_EVENT_FILTER {
            "WmiEventFilter activity detected"
        } else if code == Self::WMI_EVENT_CONSUMER {
            "WmiEventConsumer activity detected"
        } else if code == Self::WMI_EVENT_CONSUMER_FILTER {
            "WmiEventConsumerToFilter activity detected"
        } else if code == Self::DNS_QUERY {
            "Dns query"
        } else if code == Self::FILE_DELETE {
            "File Delete archived"
        } else if code == Self::CLIPBOARD_CHANGE {
            "Clipboard changed"
        } else if code == Self::PROCESS_TAMPERING {
            "Process Tampering"
        } else if code == Self::FILE_DELETE_DETECTED {
            "File Delete logged"
        } else {
            "Unknown event"
        }
    }

    /// Shows the identity as its code, a blank and its label.
    pub fn to_string(&self) -> (shown: String)
        ensures
            shown@ == rendering(self@),
    {
        let mut shown = decimal_string(self.0);
        proof {
            reveal_strlit(" ");
        }
        shown.append(" ");
        shown.append(self.label());
        assert(shown@ =~= rendering(self@));
        shown
    }

    /// Reads an identity from the decimal numeral of its code.
    pub fn from_str(s: &str) -> (parsed: Result<SysmonEventId, ParseError>)
        ensures
            match parsed {
                Ok(id) => code_of_text(s@) == Ok::<u8, ParseError>(id@),
                Err(error) => code_of_text(s@) == Err::<u8, ParseError>(error),
            },
    {
        match parse_u8(s) {
            None => Err(ParseError::NotANumber),
            Some(code) => {
                if code == 0 {
                    Err(ParseError::ZeroNotAllowed)
                } else {
                    Ok(SysmonEventId(code))
                }
            },
        }
    }
}

/// Every code is shown with a label that is not empty.
pub proof fn lemma_label_nonempty(code: u8)
    ensures
        label_of(code).len() > 0,
{
    reveal_strlit("Process Create");
    reveal_strlit("File creation time changed");
    reveal_strlit("Network connection detected");
    reveal_strlit("Process terminated");
    reveal_strlit("Driver loaded");
    reveal_strlit("Image loaded");
    reveal_strlit("CreateRemoteThread detected");
    reveal_strlit("RawAccessRead detected");
    reveal_strlit("Process accessed");
    reveal_strlit("File created");
    reveal_strlit("Registry object added or deleted");
    reveal_strlit("Registry value set");
    reveal_strlit("Registry object renamed");
    reveal_strlit("File stream created");
    reveal_strlit("Pipe Created");
    reveal_strlit("Pipe Connected");
    reveal_strlit("WmiEventFilter activity detected");
    reveal_strlit("WmiEventConsumer activity detected");
    reveal_strlit("WmiEventConsumerToFilter activity detected");
    reveal_strlit("Dns query");
    reveal_strlit("File Delete archived");
    reveal_strlit("Clipboard changed");
    reveal_strlit("Process Tampering");
    reveal_strlit("File Delete logged");
    reveal_strlit("Unknown event");
}

/// Every code from 1 to 255 is shown as its decimal numeral, one blank and
/// a label that is not empty.
pub proof fn lemma_rendering_total(code: u8)
    requires
        code != 0,
    ensures
        rendering(code) == decimal(code as nat) + seq![' '] + label_of(code),
        label_of(code).len() > 0,
        rendering(code).len() == decimal(code as nat).len() + 1 + label_of(code).len(),
{
    lemma_label_nonempty(code);
}

/// Which texts denote a code and which are refused, and for what: a text
/// is no number exactly where it is no numeral or denotes more than 255;
/// it is refused as zero exactly where it is a numeral of zero; any other
/// text denotes the code that its digits denote.
pub proof fn lemma_code_of_text(text: Seq<char>)
    ensures
        code_of_text(text) == Err::<u8, ParseError>(ParseError::NotANumber) <==> !is_numeral(text)
            || digits_value(numeral_digits(text)) > 255,
        code_of_text(text) == Err::<u8, ParseError>(ParseError::ZeroNotAllowed) <==> is_numeral(
            text,
        ) && digits_value(numeral_digits(text)) == 0,
        code_of_text(text) is Ok <==> is_numeral(text) && 1 <= digits_value(numeral_digits(text))
            <= 255,
        code_of_text(text) is Ok ==> code_of_text(text)->Ok_0 == digits_value(
            numeral_digits(text),
        ),
{
    if is_numeral(text) {
        lemma_digits_value_nonnegative(numeral_digits(text));
    }
}

/// A text that holds anything but digits after an optional plus sign at
/// its start is no number: a minus sign, a letter or a blank anywhere
/// makes it none.
pub proof fn lemma_not_a_number(text: Seq<char>, at: int)
    requires
        0 <= at < text.len(),
        !is_digit(text[at]),
        at > 0 || text[at] != '+',
    ensures
        code_of_text(text) == Err::<u8, ParseError>(ParseError::NotANumber),
{
    let digits = numeral_digits(text);
    let skipped = text.len() - digits.len();
    if is_numeral(text) {
        assert(is_digit(digits[at - skipped]));
    }
}

/// Reading the decimal numeral of a code gives the identity with that code.
pub proof fn lemma_code_round_trip(code: u8)
    requires
        code != 0,
    ensures
        code_of_text(decimal(code as nat)) == Ok::<u8, ParseError>(code),
{
    lemma_decimal_round_trip(code);
}

} // verus!
