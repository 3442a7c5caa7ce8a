//! The standard 17-byte USB HID report used for requests and responses.
//!
//! Layout (big-endian fields):
//! byte 0 is the report ID 8; byte 1 the command; byte 2 the error code;
//! bytes 3..5 the big-endian address; byte 5 the data length `n` (0..=10);
//! bytes 6..16 the data, zero-padded; byte 16 the packet checksum, chosen so
//! that all 17 bytes sum to 0 modulo 256.

use crate::checksum::{byte_sum, chk, compute_checksum, lemma_chk_closed_form};
use crate::error::Error;
use vstd::prelude::*;

verus! {

/// Fixed, all-inclusive size of the report in bytes.
pub const REPORT_SIZE: usize = 17;

/// HID report ID of the standard report.
pub const REPORT_ID: u8 = 8;

/// Commands understood by the mouse.
#[derive(Debug, Clone, Copy, PartialEq, Eq, Structural)]
pub enum Command {
    /// Write profile data to address within active profile.
    WriteProfileData,

    /// Read profile data from address within active profile.
    ReadProfileData,

    /// Read index of active profile.
    ReadActiveProfile,

    /// Write index of active profile.
    WriteActiveProfile,
}

/// The wire byte of each command.
pub open spec fn command_byte(c: Command) -> u8 {
    match c {
        Command::WriteProfileData => 7,
        Command::ReadProfileData => 8,
        Command::ReadActiveProfile => 14,
        Command::WriteActiveProfile => 15,
    }
}

/// The command encoded by a wire byte, if any.
pub open spec fn command_of_byte(b: u8) -> Option<Command> {
    if b == 7 {
        Some(Command::WriteProfileData)
    } else if b == 8 {
        Some(Command::ReadProfileData)
    } else if b == 14 {
        Some(Command::ReadActiveProfile)
    } else if b == 15 {
        Some(Command::WriteActiveProfile)
    } else {
        None
    }
}

/// A sequence of `n` zero bytes.
pub open spec fn zero_bytes(n: int) -> Seq<u8> {
    Seq::new(n as nat, |i: int| 0u8)
}

/// The mathematical value of a [`StandardReport`].
#[verifier::ext_equal]
pub struct ReportV {
    pub cmd: Command,
    pub error: u8,
    pub address: u16,
    pub data: Seq<u8>,
}

impl ReportV {
    /// A report carries at most 10 data bytes.
    pub open spec fn wf(self) -> bool {
        self.data.len() <= 10
    }
}

/// The 16 bytes of a report before its checksum byte.
pub open spec fn report_body(r: ReportV) -> Seq<u8> {
    seq![
        REPORT_ID,
        command_byte(r.cmd),
        r.error,
        (r.address / 256) as u8,
        (r.address % 256) as u8,
        r.data.len() as u8,
    ] + r.data + zero_bytes(10 - r.data.len())
}

/// The full 17 wire bytes of a report.
pub open spec fn report_bytes(r: ReportV) -> Seq<u8> {
    report_body(r).push(chk(0, report_body(r)))
}

/// Whether 17 wire bytes are a well-formed report: correct report ID, bytes
/// summing to 0 modulo 256, a known command byte, and a data length of at
/// most 10.
pub open spec fn bytes_well_formed(b: Seq<u8>) -> bool {
    &&& b.len() == 17
    &&& b[0] == REPORT_ID
    &&& chk(0, b) == 0
    &&& command_of_byte(b[1]) is Some
    &&& b[5] <= 10
}

/// The report value carried by well-formed wire bytes.
pub open spec fn decoded_report(b: Seq<u8>) -> ReportV {
    ReportV {
        cmd: command_of_byte(b[1])->0,
        error: b[2],
        address: (b[3] * 256 + b[4]) as u16,
        data: b.subrange(6, 6 + b[5]),
    }
}

/// The standard report used for both requests and responses.
#[derive(Debug, Clone)]
pub struct StandardReport {
    cmd: Command,

    /// Error code received from mouse; zero means ok.
    error: u8,

    /// Address to read data from / write data to in mouse storage. Only used
    /// for `ReadProfileData` and `WriteProfileData` commands.
    address: u16,

    /// Up to 10 data bytes.
    data: Vec<u8>,
}

impl View for StandardReport {
    type V = ReportV;

    closed spec fn view(&self) -> ReportV {
        ReportV { cmd: self.cmd, error: self.error, address: self.address, data: self.data@ }
    }
}

impl StandardReport {
    /// Constructs a report for requesting to read `length` bytes of data
    /// from the active profile at `address`.
    pub fn read_profile_data(address: usize, length: usize) -> (r: Self)
        requires
            address <= 0xffff,
            length <= 10,
        ensures
            r@ == (ReportV {
                cmd: Command::ReadProfileData,
                error: 0,
                address: address as u16,
                data: zero_bytes(length as int),
            }),
    {
        let mut data: Vec<u8> = Vec::new();
        let mut i: usize = 0;
        while i < length
            invariant
                i <= length,
                data@ =~= zero_bytes(i as int),
            decreases length - i,
        {
            data.push(0u8);
            proof {
                assert(data@ =~= zero_bytes(i + 1));
            }
            i = i + 1;
        }
        let r = StandardReport {
            cmd: Command::ReadProfileData,
            error: 0,
            address: address as u16,
            data,
        };
        proof {
            assert(r@ =~= (ReportV {
                cmd: Command::ReadProfileData,
                error: 0,
                address: address as u16,
                data: zero_bytes(length as int),
            }));
        }
        r
    }

    /// Constructs a report for writing `data` to the active profile at
    /// `address`.
    pub fn write_profile_data(address: usize, data: Vec<u8>) -> (r: Self)
        requires
            address <= 0xffff,
            data@.len() <= 10,
        ensures
            r@ == (ReportV {
                cmd: Command::WriteProfileData,
                error: 0,
                address: address as u16,
                data: data@,
            }),
    {
        StandardReport { cmd: Command::WriteProfileData, error: 0, address: address as u16, data }
    }

    /// Constructs a report for requesting the index of the active profile.
    pub fn read_active_profile() -> (r: Self)
        ensures
            r@ == (ReportV {
                cmd: Command::ReadActiveProfile,
                error: 0,
                address: 0,
                data: Seq::<u8>::empty(),
            }),
    {
        let r = StandardReport {
            cmd: Command::ReadActiveProfile,
            error: 0,
            address: 0,
            data: Vec::new(),
        };
        proof {
            assert(r@.data =~= Seq::<u8>::empty());
        }
        r
    }

    /// Constructs a report for setting the index of the active profile.
    pub fn write_active_profile(profile_index: u8) -> (r: Self)
        ensures
            r@ == (ReportV {
                cmd: Command::WriteActiveProfile,
                error: 0,
                address: 0,
                data: seq![profile_index],
            }),
    {
        let mut data: Vec<u8> = Vec::new();
        data.push(profile_index);
        let r = StandardReport {
            cmd: Command::WriteActiveProfile,
            error: 0,
            address: 0,
            data,
        };
        proof {
            assert(r@.data =~= seq![profile_index]);
        }
        r
    }

    /// The report's command.
    pub fn command(&self) -> (r: Command)
        ensures
            r == self@.cmd,
    {
        self.cmd
    }

    /// Returns a reference to the internal data unless the report indicates
    /// an error.
    pub fn data(&self) -> (r: Result<&[u8], Error>)
        ensures
            self@.error == 0 ==> (r matches Ok(d) && d@ == self@.data),
            self@.error != 0 ==> r == Err::<&[u8], Error>(Error::MouseErrorResponse(self@.error)),
    {
        if self.error == 0 {
            Ok(self.data.as_slice())
        } else {
            Err(Error::MouseErrorResponse(self.error))
        }
    }

    /// Consumes `self` and returns the internal data unless the report
    /// indicates an error.
    pub fn into_data(self) -> (r: Result<Vec<u8>, Error>)
        ensures
            self@.error == 0 ==> (r matches Ok(d) && d@ == self@.data),
            self@.error != 0 ==> r == Err::<Vec<u8>, Error>(
                Error::MouseErrorResponse(self@.error),
            ),
    {
        if self.error == 0 {
            Ok(self.data)
        } else {
            Err(Error::MouseErrorResponse(self.error))
        }
    }

    /// Returns whether this report could be a response to the `other`
    /// report: a response carries the same command type as its request.
    pub fn is_valid_response_for(&self, other: &Self) -> (r: bool)
        ensures
            r == (self@.cmd == other@.cmd),
    {
        self.cmd == other.cmd
    }

    /// Serialises the report to its 17 wire bytes.
    pub fn encode(&self) -> (r: Vec<u8>)
        requires
            self@.wf(),
        ensures
            r@ == report_bytes(self@),
            r@.len() == 17,
    {
        let mut out: Vec<u8> = Vec::new();
        out.push(REPORT_ID);
        out.push(match self.cmd {
            Command::WriteProfileData => 7u8,
            Command::ReadProfileData => 8u8,
            Command::ReadActiveProfile => 14u8,
            Command::WriteActiveProfile => 15u8,
        });
        out.push(self.error);
        out.push((self.address / 256) as u8);
        out.push((self.address % 256) as u8);
        out.push(self.data.len() as u8);
        let mut i: usize = 0;
        while i < self.data.len()
            invariant
                i <= self.data@.len(),
                out@ =~= seq![
                    REPORT_ID,
                    command_byte(self@.cmd),
                    self@.error,
                    (self@.address / 256) as u8,
                    (self@.address % 256) as u8,
                    self@.data.len() as u8,
                ] + self.data@.take(i as int),
            decreases self.data@.len() - i,
        {
            let b = self.data[i];
            out.push(b);
            proof {
                assert(self.data@.take(i + 1) =~= self.data@.take(i as int).push(b));
            }
            i = i + 1;
        }
        let pad = 10 - self.data.len();
        let mut j: usize = 0;
        while j < pad
            invariant
                j <= pad,
                pad == 10 - self.data@.len(),
                self@.wf(),
                out@ =~= seq![
                    REPORT_ID,
                    command_byte(self@.cmd),
                    self@.error,
                    (self@.address / 256) as u8,
                    (self@.address % 256) as u8,
                    self@.data.len() as u8,
                ] + self.data@ + zero_bytes(j as int),
            decreases pad - j,
        {
            out.push(0u8);
            proof {
                assert(zero_bytes(j + 1) =~= zero_bytes(j as int).push(0u8));
                assert((seq![
                    REPORT_ID,
                    command_byte(self@.cmd),
                    self@.error,
                    (self@.address / 256) as u8,
                    (self@.address % 256) as u8,
                    self@.data.len() as u8,
                ] + self.data@ + zero_bytes(j as int)).push(0u8) =~= seq![
                    REPORT_ID,
                    command_byte(self@.cmd),
                    self@.error,
                    (self@.address / 256) as u8,
                    (self@.address % 256) as u8,
                    self@.data.len() as u8,
                ] + self.data@ + zero_bytes(j + 1));
            }
            j = j + 1;
        }
        proof {
            assert(out@ =~= report_body(self@));
        }
        let c = compute_checksum(out.as_slice());
        out.push(c);
        proof {
            assert(out@ =~= report_bytes(self@));
        }
        out
    }

    /// Parses 17 wire bytes.
    ///
    /// Rejects a wrong report ID as [`Error::UnexpectedReport`], bytes that
    /// do not sum to 0 modulo 256 as [`Error::BadChecksum`], and an unknown
    /// command byte or an oversized data length as
    /// [`Error::InvalidConversion`].
    pub fn decode(bytes: &[u8]) -> (r: Result<Self, Error>)
        requires
            bytes@.len() == 17,
        ensures
            bytes@[0] != REPORT_ID ==> r == Err::<Self, Error>(Error::UnexpectedReport),
            bytes@[0] == REPORT_ID && chk(0, bytes@) != 0 ==> r == Err::<Self, Error>(
                Error::BadChecksum,
            ),
            bytes@[0] == REPORT_ID && chk(0, bytes@) == 0 && !bytes_well_formed(bytes@) ==> (
            r matches Err(e) && e matches Error::InvalidConversion(_)),
            bytes_well_formed(bytes@) ==> (r matches Ok(rep) && rep@ == decoded_report(bytes@)
                && rep@.wf()),
    {
        if bytes[0] != REPORT_ID {
            return Err(Error::UnexpectedReport);
        }
        if compute_checksum(bytes) != 0 {
            return Err(Error::BadChecksum);
        }
        let cmd = if bytes[1] == 7 {
            Command::WriteProfileData
        } else if bytes[1] == 8 {
            Command::ReadProfileData
        } else if bytes[1] == 14 {
            Command::ReadActiveProfile
        } else if bytes[1] == 15 {
            Command::WriteActiveProfile
        } else {
            return Err(Error::InvalidConversion("Unknown command byte in report".to_owned()));
        };
        let len = bytes[5];
        if len > 10 {
            return Err(Error::InvalidConversion("Report data length exceeds 10".to_owned()));
        }
        let mut data: Vec<u8> = Vec::new();
        let mut i: usize = 0;
        while i < len as usize
            invariant
                i <= len,
                len <= 10,
                bytes@.len() == 17,
                data@ =~= bytes@.subrange(6, 6 + i),
            decreases len - i,
        {
            let b = bytes[6 + i];
            data.push(b);
            proof {
                assert(bytes@.subrange(6, 6 + i + 1) =~= bytes@.subrange(6, 6 + i as int).push(b));
            }
            i = i + 1;
        }
        let address = (bytes[3] as u16) * 256 + (bytes[4] as u16);
        let r = StandardReport { cmd, error: bytes[2], address, data };
        proof {
            assert(r@ =~= decoded_report(bytes@));
        }
        Ok(r)
    }
}

/// Every encoded request's bytes sum to 0 modulo 256.
///
/// This is the packet checksum law: the trailing checksum byte is chosen as
/// the complement of the sum of the first 16 bytes.
pub proof fn lemma_packet_sum_zero(r: ReportV)
    ensures
        byte_sum(report_bytes(r)) % 256 == 0,
{
    let body = report_body(r);
    let c = chk(0, body);
    let full = report_bytes(r);
    lemma_chk_closed_form(0, body);
    assert(full.drop_last() =~= body);
    assert(byte_sum(full) == byte_sum(body) + c);
    let s = byte_sum(body);
    assert(c == (0 - s) % 256);
    assert(s >= 0);
    vstd::arithmetic::div_mod::lemma_add_mod_noop(s, (0 - s) % 256, 256);
    vstd::arithmetic::div_mod::lemma_mod_twice(0 - s, 256);
    vstd::arithmetic::div_mod::lemma_add_mod_noop(s, 0 - s, 256);
    assert((s + (0 - s)) % 256 == 0) by {
        assert(s + (0 - s) == 0);
    }
}

/// Decoding the encoding of a well-formed report yields the report back.
pub proof fn lemma_report_round_trip(r: ReportV)
    requires
        r.wf(),
    ensures
        bytes_well_formed(report_bytes(r)),
        decoded_report(report_bytes(r)) == r,
{
    let body = report_body(r);
    let full = report_bytes(r);
    crate::checksum::lemma_chk_self_zero(0, body);
    assert(full[0] == REPORT_ID);
    assert(full[1] == command_byte(r.cmd));
    assert(full[5] == r.data.len() as u8);
    assert(command_of_byte(command_byte(r.cmd)) == Some(r.cmd));
    let d = decoded_report(full);
    assert(d.data =~= r.data) by {
        assert forall|i: int| 0 <= i < r.data.len() implies full[6 + i] == r.data[i] by {}
    }
    assert(d.address == r.address) by {
        assert(r.address / 256 <= 255) by (nonlinear_arith);
        assert((r.address / 256) * 256 + r.address % 256 == r.address) by (nonlinear_arith);
    }
    assert(d =~= r);
}

/// Classifies one 17-byte candidate response read for `request`.
///
/// A report with the wrong report ID is skipped (`Ok(None)`), as the
/// firmware may emit unrelated reports; a checksum or parse failure is
/// surfaced immediately; a well-formed report whose command differs from
/// the request's is skipped; a matching one is accepted.  The caller
/// attempts up to three reads and gives up with [`Error::NoResponse`].
pub fn accept_response(request: &StandardReport, bytes: &[u8]) -> (r: Result<
    Option<StandardReport>,
    Error,
>)
    requires
        bytes@.len() == 17,
    ensures
        bytes@[0] != REPORT_ID ==> r == Ok::<Option<StandardReport>, Error>(None),
        bytes@[0] == REPORT_ID && chk(0, bytes@) != 0 ==> r == Err::<
            Option<StandardReport>,
            Error,
        >(Error::BadChecksum),
        bytes@[0] == REPORT_ID && chk(0, bytes@) == 0 && !bytes_well_formed(bytes@) ==> (
        r matches Err(e) && e matches Error::InvalidConversion(_)),
        bytes_well_formed(bytes@) && decoded_report(bytes@).cmd != request@.cmd ==> r == Ok::<
            Option<StandardReport>,
            Error,
        >(None),
        bytes_well_formed(bytes@) && decoded_report(bytes@).cmd == request@.cmd ==> (r matches Ok(
            o,
        ) && o matches Some(rep) && rep@ == decoded_report(bytes@)),
    {
    match StandardReport::decode(bytes) {
        Ok(response) => {
            if response.is_valid_response_for(request) {
                Ok(Some(response))
            } else {
                Ok(None)
            }
        },
        Err(e) => match e {
            Error::UnexpectedReport => Ok(None),
            _ => Err(e),
        },
    }
}

} // verus!
