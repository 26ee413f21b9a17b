//! The USB install protocol: the messages sent to the console, the commands
//! read from it, and how a requested file range is cut into transfers.
use vstd::prelude::*;
use vstd::utf8::*;
use crate::bytes::{read_u32_le, read_u64_le, le_bytes, spec_le_bytes, spec_u32_le, spec_u64_le, BinError};
use crate::text::{str_eq, string_bytes, utf8_to_string};
use std::string::FromUtf8Error;

verus! {

/// Data bytes sent in one transfer of a file range.
pub const BUFFER_SEGMENT_DATA_SIZE: u64 = 0x100000;

/// Zero bytes that precede the data of each transfer of a padded range.
pub const PADDING_SIZE: u64 = 0x1000;

/// Size of the header the console sends before a requested file's name.
pub const FILE_HEADER_SIZE: usize = 0x20;

/// A command the console sends.
#[derive(Debug, Clone, Copy, PartialEq, Eq, Structural)]
pub enum ProtocolCommand {
    Exit,
    FileRange,
    FileRangePadded,
}

impl ProtocolCommand {
    /// The number that stands for the command in a response header.
    pub open spec fn spec_code(self) -> u32 {
        match self {
            ProtocolCommand::Exit => 1,
            ProtocolCommand::FileRange => 2,
            ProtocolCommand::FileRangePadded => 3,
        }
    }

    pub fn code(&self) -> (r: u32)
        ensures
            r == self.spec_code(),
    {
        match self {
            ProtocolCommand::Exit => 1,
            ProtocolCommand::FileRange => 2,
            ProtocolCommand::FileRangePadded => 3,
        }
    }

    /// The command a number read from the console stands for: 0 to exit, 1
    /// for a file range, 2 for a padded file range.
    pub fn try_from(value: u32) -> (r: Result<ProtocolCommand, ()>)
        ensures
            r == (if value == 0 {
                Ok::<ProtocolCommand, ()>(ProtocolCommand::Exit)
            } else if value == 1 {
                Ok(ProtocolCommand::FileRange)
            } else if value == 2 {
                Ok(ProtocolCommand::FileRangePadded)
            } else {
                Err(())
            }),
    {
        if value == 0 {
            Ok(ProtocolCommand::Exit)
        } else if value == 1 {
            Ok(ProtocolCommand::FileRange)
        } else if value == 2 {
            Ok(ProtocolCommand::FileRangePadded)
        } else {
            Err(())
        }
    }
}

/// What a transfer reports to the user interface.
#[derive(Debug, Clone, PartialEq, Eq)]
pub enum UsbOperation {
    /// That many bytes of the named file were sent.
    File(String, u64),
    /// The transfer is over.
    Exit,
    /// The transfer waits for the console.
    Wait,
}

/// The messages that announce the list of files to install: the `TUL0`
/// magic, the list's length in bytes, eight zero bytes, then each file's name
/// followed by a newline, each in a write of its own.
pub open spec fn list_line(name: Seq<char>) -> Seq<u8> {
    encode_utf8(name.push('\n'))
}

/// The length in bytes of the lines of the list.
pub open spec fn list_length(names: Seq<Seq<char>>) -> nat
    decreases names.len(),
{
    if names.len() == 0 {
        0
    } else {
        list_length(names.drop_last()) + encode_utf8(names.last()).len() + 1
    }
}

pub open spec fn string_views(v: Seq<String>) -> Seq<Seq<char>> {
    v.map_values(|s: String| s@)
}

pub open spec fn tul0() -> Seq<u8> {
    seq![0x54u8, 0x55u8, 0x4Cu8, 0x30u8]
}

pub open spec fn tuc0() -> Seq<u8> {
    seq![0x54u8, 0x55u8, 0x43u8, 0x30u8]
}

/// The writes that send the list of files `roms` to the console.
pub fn rom_list_messages(roms: &Vec<String>) -> (r: Vec<Vec<u8>>)
    requires
        list_length(string_views(roms@)) <= usize::MAX,
    ensures
        r@.len() == roms@.len() + 3,
        r@[0]@ == tul0(),
        r@[1]@ == spec_le_bytes(list_length(string_views(roms@)) % 0x1_0000_0000, 4),
        r@[2]@ == seq![0u8, 0u8, 0u8, 0u8, 0u8, 0u8, 0u8, 0u8],
        forall|i: int| 0 <= i < roms@.len() ==> #[trigger] r@[i + 3]@ == list_line(roms@[i]@),
{
    let mut lines: Vec<Vec<u8>> = Vec::new();
    let mut length: usize = 0;
    let mut i: usize = 0;
    while i < roms.len()
        invariant
            i <= roms@.len(),
            list_length(string_views(roms@)) <= usize::MAX,
            length == list_length(string_views(roms@.take(i as int))),
            lines@.len() == i,
            forall|k: int| 0 <= k < i ==> #[trigger] lines@[k]@ == list_line(roms@[k]@),
        decreases roms.len() - i,
    {
        let ghost names = string_views(roms@);
        let mut line = roms[i].clone();
        line.append("\n");
        let bytes = string_bytes(&line);
        proof {
            reveal_strlit("\n");
            assert(line@ == roms@[i as int]@.push('\n'));
            assert(string_views(roms@.take(i + 1)).drop_last() == string_views(roms@.take(i as int)));
            assert(string_views(roms@.take(i + 1)).last() == roms@[i as int]@);
            assert(string_views(roms@.take(i + 1)) == names.take(i + 1));
            lemma_list_length_prefix(names, i + 1);
        }
        let name_len = roms[i].as_str().len();
        assert(name_len == encode_utf8(roms@[i as int]@).len());
        assert(list_length(string_views(roms@.take(i + 1))) == length + name_len + 1);
        length = length + name_len + 1;
        lines.push(bytes);
        i = i + 1;
    }
    assert(roms@.take(roms@.len() as int) == roms@);
    let mut r: Vec<Vec<u8>> = Vec::new();
    r.push(vec![0x54u8, 0x55u8, 0x4Cu8, 0x30u8]);
    r.push(le_bytes((length as u64) % 0x1_0000_0000, 4));
    r.push(vec![0u8, 0u8, 0u8, 0u8, 0u8, 0u8, 0u8, 0u8]);
    let mut k: usize = 0;
    while k < lines.len()
        invariant
            k <= lines@.len() == roms@.len(),
            r@.len() == k + 3,
            r@[0]@ == tul0(),
            r@[1]@ == spec_le_bytes(list_length(string_views(roms@)) % 0x1_0000_0000, 4),
            r@[2]@ == seq![0u8, 0u8, 0u8, 0u8, 0u8, 0u8, 0u8, 0u8],
            forall|j: int| 0 <= j < roms@.len() ==> #[trigger] lines@[j]@ == list_line(roms@[j]@),
            forall|j: int| 0 <= j < k ==> #[trigger] r@[j + 3]@ == list_line(roms@[j]@),
        decreases lines.len() - k,
    {
        r.push(lines[k].clone());
        k = k + 1;
    }
    r
}

proof fn lemma_list_length_prefix(names: Seq<Seq<char>>, i: int)
    requires
        0 <= i <= names.len(),
    ensures
        list_length(names.take(i)) <= list_length(names),
    decreases names.len() - i,
{
    if i < names.len() {
        lemma_list_length_prefix(names, i + 1);
        assert(names.take(i + 1).drop_last() == names.take(i));
    } else {
        assert(names.take(i) == names);
    }
}

/// What to do after reading a command header from the console.
#[derive(Debug, Clone, Copy, PartialEq, Eq, Structural)]
pub enum PollDecision {
    /// The console asked to end the session.
    Stop,
    /// The console asked for a file range; `true` when padded.
    SendFile(bool),
    /// The command id is unknown: read the next header.
    Ignore,
}

/// Why a command header is refused.
#[derive(Debug)]
pub enum CommandError {
    /// The magic is not UTF-8.
    Decoding(FromUtf8Error),
    /// The magic is not `TUC0`; it is the text given.
    InvalidMagic(String),
}

/// What a command header from the console asks for, given that its magic is
/// valid UTF-8 and reads `TUC0`: the command id is the little-endian number
/// at offset 8.
pub open spec fn spec_poll_decision(header: Seq<u8>) -> PollDecision {
    let id = spec_u32_le(header, 8);
    if id == 0 {
        PollDecision::Stop
    } else if id == 1 {
        PollDecision::SendFile(false)
    } else if id == 2 {
        PollDecision::SendFile(true)
    } else {
        PollDecision::Ignore
    }
}

/// Reads a command header from the console.
pub fn decode_command(header: &[u8]) -> (r: Result<PollDecision, CommandError>)
    requires
        header@.len() >= 12,
    ensures
        (r matches Err(CommandError::Decoding(_))) <==> !valid_utf8(header@.take(4)),
        r matches Err(CommandError::InvalidMagic(m)) ==> valid_utf8(header@.take(4)) && m@
            == decode_utf8(header@.take(4)) && m@ != "TUC0"@,
        r is Ok <==> valid_utf8(header@.take(4)) && decode_utf8(header@.take(4)) == "TUC0"@,
        r matches Ok(d) ==> d == spec_poll_decision(header@),
{
    let magic_bytes = crate::bytes::copy_range(header, 0, 4);
    assert(magic_bytes@ == header@.take(4));
    let magic = match utf8_to_string(magic_bytes) {
        Ok(m) => m,
        Err(e) => {
            return Err(CommandError::Decoding(e));
        },
    };
    if !str_eq(magic.as_str(), "TUC0") {
        return Err(CommandError::InvalidMagic(magic));
    }
    let raw_cmd = read_u32_le(header, 8);
    match ProtocolCommand::try_from(raw_cmd) {
        Ok(ProtocolCommand::Exit) => Ok(PollDecision::Stop),
        Ok(ProtocolCommand::FileRange) => Ok(PollDecision::SendFile(false)),
        Ok(ProtocolCommand::FileRangePadded) => Ok(PollDecision::SendFile(true)),
        Err(_) => Ok(PollDecision::Ignore),
    }
}

/// The header the console sends to ask for part of a file.
pub struct FileHeader {
    pub range_size: u64,
    pub range_offset: u64,
    pub rom_name_length: u64,
    pub name: String,
}

impl FileHeader {
    /// Reads the three little-endian numbers of a file request; the name,
    /// which follows in a read of its own, starts empty.
    pub fn parse(bytes: &[u8]) -> (r: Result<FileHeader, BinError>)
        ensures
            r is Ok <==> bytes@.len() >= 24,
            r matches Err(e) ==> e == BinError::UnexpectedEof,
            r matches Ok(h) ==> {
                &&& h.range_size == spec_u64_le(bytes@, 0)
                &&& h.range_offset == spec_u64_le(bytes@, 8)
                &&& h.rom_name_length == spec_u64_le(bytes@, 16)
                &&& h.name@.len() == 0
            },
    {
        if bytes.len() < 24 {
            return Err(BinError::UnexpectedEof);
        }
        Ok(
            FileHeader {
                range_size: read_u64_le(bytes, 0),
                range_offset: read_u64_le(bytes, 8),
                rom_name_length: read_u64_le(bytes, 16),
                name: String::new(),
            },
        )
    }

    /// Sets the name from the bytes the console sent after the header.
    pub fn set_name(&mut self, raw_name: Vec<u8>) -> (r: Result<(), FromUtf8Error>)
        ensures
            r is Ok <==> valid_utf8(raw_name@),
            r is Ok ==> final(self).name@ == decode_utf8(raw_name@),
            r is Err ==> final(self).name == old(self).name,
            final(self).range_size == old(self).range_size,
            final(self).range_offset == old(self).range_offset,
            final(self).rom_name_length == old(self).rom_name_length,
    {
        match utf8_to_string(raw_name) {
            Ok(n) => {
                self.name = n;
                Ok(())
            },
            Err(e) => Err(e),
        }
    }
}

/// The command a file response announces: the padded one for a padded range.
pub fn file_response_command(padded: bool) -> (r: ProtocolCommand)
    ensures
        r == (if padded { ProtocolCommand::FileRangePadded } else { ProtocolCommand::FileRange }),
{
    if padded {
        ProtocolCommand::FileRangePadded
    } else {
        ProtocolCommand::FileRange
    }
}

/// The writes that answer a file request: the `TUC0` magic, the byte 1,
/// three zero bytes, the command's code (four bytes, little-endian), the size
/// of the data (eight bytes, little-endian) and twelve zero bytes.
pub fn response_header_messages(cmd: ProtocolCommand, data_size: u64) -> (r: Vec<Vec<u8>>)
    ensures
        r@.len() == 6,
        r@[0]@ == tuc0(),
        r@[1]@ == seq![1u8],
        r@[2]@ == seq![0u8, 0u8, 0u8],
        r@[3]@ == spec_le_bytes(cmd.spec_code() as nat, 4),
        r@[4]@ == spec_le_bytes(data_size as nat, 8),
        r@[5]@ == Seq::new(12, |i: int| 0u8),
{
    let mut r: Vec<Vec<u8>> = Vec::new();
    r.push(vec![0x54u8, 0x55u8, 0x43u8, 0x30u8]);
    r.push(vec![1u8]);
    r.push(vec![0u8, 0u8, 0u8]);
    r.push(le_bytes(cmd.code() as u64, 4));
    r.push(le_bytes(data_size, 8));
    let pad = vec![0u8, 0u8, 0u8, 0u8, 0u8, 0u8, 0u8, 0u8, 0u8, 0u8, 0u8, 0u8];
    assert(pad@ =~= Seq::new(12, |i: int| 0u8));
    r.push(pad);
    r
}

/// One transfer of a file range: `read_size` bytes of the file, written
/// after `data_start` zero bytes, so `data_start + read_size` bytes in all.
#[derive(Debug, Clone, Copy, PartialEq, Eq, Structural)]
pub struct Chunk {
    pub read_size: u64,
    pub data_start: u64,
    pub write_len: u64,
}

/// The size of the transfer that starts at `current` in a range of
/// `range_size` bytes: a full segment, or what is left.
pub open spec fn spec_chunk_size(range_size: u64, current: u64) -> u64 {
    if current + BUFFER_SEGMENT_DATA_SIZE >= range_size {
        (range_size - current) as u64
    } else {
        BUFFER_SEGMENT_DATA_SIZE
    }
}

/// The sizes of the transfers that send a range from `current` on.
pub open spec fn spec_chunks(range_size: u64, current: u64) -> Seq<u64>
    decreases range_size - current,
{
    if current >= range_size {
        seq![]
    } else {
        let n = spec_chunk_size(range_size, current);
        seq![n] + spec_chunks(range_size, (current + n) as u64)
    }
}

pub open spec fn seq_sum(s: Seq<u64>) -> nat
    decreases s.len(),
{
    if s.len() == 0 {
        0
    } else {
        (s[0] + seq_sum(s.drop_first())) as nat
    }
}

/// Cuts a requested file range into transfers of at most one segment each.
pub struct TransferPlan {
    pub range_size: u64,
    pub current_offset: u64,
    pub padded: bool,
}

impl TransferPlan {
    /// Whether the plan is one that `new` and `next_chunk` can reach.
    pub open spec fn wf(&self) -> bool {
        &&& self.range_size <= u64::MAX - 0xFFFFF
        &&& self.current_offset <= self.range_size
        &&& (self.current_offset < self.range_size ==> self.current_offset % 0x100000 == 0)
    }

    /// A plan for `range_size` bytes; a range within one segment of the
    /// largest size makes the transfer loop overflow, and is left out.
    pub fn new(range_size: u64, padded: bool) -> (r: Self)
        requires
            range_size <= u64::MAX - 0xFFFFF,
        ensures
            r.wf(),
            r.range_size == range_size,
            r.current_offset == 0,
            r.padded == padded,
    {
        TransferPlan { range_size, current_offset: 0, padded }
    }

    /// The next transfer, or `None` when the range is sent or the transfer
    /// was cancelled.
    pub fn next_chunk(&mut self, cancelled: bool) -> (r: Option<Chunk>)
        requires
            old(self).wf(),
        ensures
            final(self).wf(),
            final(self).range_size == old(self).range_size,
            final(self).padded == old(self).padded,
            r is None <==> cancelled || old(self).current_offset >= old(self).range_size,
            r is None ==> final(self).current_offset == old(self).current_offset,
            r matches Some(c) ==> {
                &&& c.read_size == spec_chunk_size(old(self).range_size, old(self).current_offset)
                &&& 0 < c.read_size <= BUFFER_SEGMENT_DATA_SIZE
                &&& c.data_start == (if old(self).padded { PADDING_SIZE } else { 0 })
                &&& c.write_len == c.data_start + c.read_size
                &&& final(self).current_offset == old(self).current_offset + c.read_size
            },
    {
        if cancelled || self.current_offset >= self.range_size {
            return None;
        }
        let ghost k = self.current_offset / 0x100000;
        assert(self.current_offset == k * 0x100000);
        assert(self.current_offset + BUFFER_SEGMENT_DATA_SIZE <= u64::MAX);
        let read_size = if self.current_offset + BUFFER_SEGMENT_DATA_SIZE >= self.range_size {
            self.range_size - self.current_offset
        } else {
            BUFFER_SEGMENT_DATA_SIZE
        };
        let data_start: u64 = if self.padded { PADDING_SIZE } else { 0 };
        self.current_offset = self.current_offset + read_size;
        assert(self.current_offset < self.range_size ==> self.current_offset == (k + 1) * 0x100000);
        Some(Chunk { read_size, data_start, write_len: data_start + read_size })
    }
}

/// The transfers of a range add up to the range: every byte is sent once,
/// in transfers of at most one segment.
pub proof fn lemma_chunks_cover_range(range_size: u64, current: u64)
    requires
        current <= range_size,
    ensures
        seq_sum(spec_chunks(range_size, current)) == range_size - current,
        forall|i: int|
            0 <= i < spec_chunks(range_size, current).len() ==> 0 < #[trigger] spec_chunks(
                range_size,
                current,
            )[i] <= BUFFER_SEGMENT_DATA_SIZE,
    decreases range_size - current,
{
    if current < range_size {
        let n = spec_chunk_size(range_size, current);
        lemma_chunks_cover_range(range_size, (current + n) as u64);
        let s = spec_chunks(range_size, current);
        assert(s.drop_first() == spec_chunks(range_size, (current + n) as u64));
        assert forall|i: int| 0 <= i < s.len() implies 0 < #[trigger] s[i]
            <= BUFFER_SEGMENT_DATA_SIZE by {
            if i > 0 {
                assert(s[i] == s.drop_first()[i - 1]);
            }
        }
    }
}

/// An endpoint of the console's USB configuration, in the order the
/// configuration lists them.
#[derive(Debug, Clone, Copy, PartialEq, Eq, Structural)]
pub struct EndpointInfo {
    pub interface_number: u8,
    pub address: u8,
}

/// The endpoint that is missing from the configuration.
#[derive(Debug, Clone, Copy, PartialEq, Eq, Structural)]
pub enum MissingEndpoint {
    In,
    Out,
}

impl MissingEndpoint {
    /// The name an error message gives the endpoint: `IN` or `OUT`.
    pub fn name(&self) -> (r: String)
        ensures
            r@ == (match self {
                MissingEndpoint::In => "IN"@,
                MissingEndpoint::Out => "OUT"@,
            }),
    {
        match self {
            MissingEndpoint::In => String::from_str("IN"),
            MissingEndpoint::Out => String::from_str("OUT"),
        }
    }
}

/// Whether `i` is the last endpoint whose address satisfies `is_in`.
pub open spec fn is_last_with(eps: Seq<EndpointInfo>, i: int, is_in: bool) -> bool {
    &&& 0 <= i < eps.len()
    &&& (eps[i].address == 0x81) == is_in
    &&& forall|j: int| i < j < eps.len() ==> (eps[j].address == 0x81) != is_in
}

pub open spec fn has_with(eps: Seq<EndpointInfo>, is_in: bool) -> bool {
    exists|i: int| 0 <= i < eps.len() && (#[trigger] eps[i].address == 0x81) == is_in
}

/// Picks the endpoints to talk to the console: the IN endpoint is the last
/// one at address 0x81, the OUT endpoint the last one at another address,
/// and the interface the one of the last endpoint listed.
pub fn select_endpoints(eps: &Vec<EndpointInfo>) -> (r: Result<(u8, u8, u8), MissingEndpoint>)
    ensures
        r == Err::<(u8, u8, u8), MissingEndpoint>(MissingEndpoint::In) <==> !has_with(eps@, true),
        r == Err::<(u8, u8, u8), MissingEndpoint>(MissingEndpoint::Out) <==> has_with(eps@, true)
            && !has_with(eps@, false),
        r matches Ok((i, o, n)) ==> {
            &&& exists|k: int| is_last_with(eps@, k, true) && eps@[k].address == i
            &&& exists|k: int| is_last_with(eps@, k, false) && eps@[k].address == o
            &&& n == eps@.last().interface_number
        },
{
    let mut in_ep: Option<u8> = None;
    let mut out_ep: Option<u8> = None;
    let mut iface: Option<u8> = None;
    let ghost mut in_k: int = 0;
    let ghost mut out_k: int = 0;
    let mut i: usize = 0;
    while i < eps.len()
        invariant
            i <= eps@.len(),
            in_ep is None <==> !has_with(eps@.take(i as int), true),
            out_ep is None <==> !has_with(eps@.take(i as int), false),
            in_ep matches Some(a) ==> is_last_with(eps@.take(i as int), in_k, true) && a == eps@[in_k].address && in_k < i,
            out_ep matches Some(a) ==> is_last_with(eps@.take(i as int), out_k, false) && a == eps@[out_k].address && out_k < i,
            i > 0 ==> iface == Some(eps@[i - 1].interface_number),
            i == 0 ==> iface is None,
        decreases eps.len() - i,
    {
        let e = eps[i];
        let ghost prev = eps@.take(i as int);
        let ghost next = eps@.take(i + 1);
        assert(next == prev.push(e));
        if e.address == 0x81 {
            in_ep = Some(e.address);
            proof {
                in_k = i as int;
                assert(next[i as int] == e);
                assert(has_with(next, true));
            }
        } else {
            out_ep = Some(e.address);
            proof {
                out_k = i as int;
                assert(next[i as int] == e);
                assert(has_with(next, false));
            }
        }
        iface = Some(e.interface_number);
        proof {
            assert forall|is_in: bool| has_with(prev, is_in) implies has_with(next, is_in) by {
                let j = choose|j: int| 0 <= j < prev.len() && (#[trigger] prev[j].address == 0x81) == is_in;
                assert(next[j] == prev[j]);
            }
            assert forall|is_in: bool| has_with(next, is_in) && (e.address == 0x81) != is_in implies has_with(prev, is_in) by {
                let j = choose|j: int| 0 <= j < next.len() && (#[trigger] next[j].address == 0x81) == is_in;
                if j == i {
                } else {
                    assert(prev[j] == next[j]);
                }
            }
        }
        i = i + 1;
    }
    assert(eps@.take(eps@.len() as int) == eps@);
    match (in_ep, out_ep) {
        (None, _) => Err(MissingEndpoint::In),
        (Some(_), None) => Err(MissingEndpoint::Out),
        (Some(a), Some(b)) => {
            let n = match iface {
                Some(n) => n,
                None => 0,
            };
            Ok((a, b, n))
        },
    }
}

} // verus!
