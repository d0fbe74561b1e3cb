//! The synthetic Modbus/TCP server: decodes a request frame and builds the
//! matching response frame, filling Read-Coils responses with injected content.

use vstd::prelude::*;

verus! {

/// The error type of `modbus_core`, carried as it is inside `RespondError`.
#[verifier::external_type_specification]
#[verifier::external_body]
pub struct ExModbusError(modbus_core::Error);

/// Size of the buffer a response frame is encoded into.
pub const RESPONSE_CAPACITY: usize = 256;

/// Size of the buffer coil values are packed into.
pub const COIL_CAPACITY: usize = 256;

/// The identifiers of a frame's MBAP header, echoed from request to response.
#[derive(Clone, Copy, Debug, PartialEq, Eq)]
pub struct Header {
    pub transaction_id: u16,
    pub unit_id: u8,
}

/// A decoded request, as far as the server models it.
#[derive(Clone, Copy, Debug, PartialEq, Eq)]
pub enum Request {
    ReadCoils { address: u16, quantity: u16 },
    WriteSingleCoil { address: u16, value: bool },
    /// Any other well-formed request; the server gives no response to it.
    Unsupported,
}

/// A decoded request frame.
#[derive(Clone, Copy, Debug, PartialEq, Eq)]
pub struct RequestFrame {
    pub hdr: Header,
    pub request: Request,
}

/// Why no response could be built.
#[derive(Clone, Copy, Debug, PartialEq, Eq)]
pub enum RespondError {
    /// The decoder refused the frame.
    Decode(modbus_core::Error),
    /// The request is too short to hold a header and a function code.
    Incomplete,
    /// The header is not that of a Modbus/TCP frame holding exactly the
    /// request's bytes, or the PDU has the wrong length for its function code.
    Malformed,
    /// The request is of a kind the server does not implement.
    Unsupported,
    /// The response does not fit its buffer.
    Encode(modbus_core::Error),
}

/// The 16-bit value of two big-endian bytes.
pub open spec fn be16(hi: u8, lo: u8) -> u16 {
    (hi as nat * 256 + lo as nat) as u16
}

/// The two big-endian bytes of `v`.
pub open spec fn be_bytes(v: u16) -> Seq<u8> {
    seq![(v / 256) as u8, (v % 256) as u8]
}

/// The big-endian word at `b[i..i + 2]`.
pub open spec fn word_at(b: Seq<u8>, i: int) -> u16 {
    be16(b[i], b[i + 1])
}

/// `b` has a Modbus/TCP header: a function code after it, protocol id 0, and a
/// length field that counts exactly the bytes after it.
pub open spec fn is_framed(b: Seq<u8>) -> bool {
    b.len() >= 8 && b[2] == 0 && b[3] == 0 && word_at(b, 4) == b.len() - 6
}

/// `b` is exactly one request frame whose PDU has five bytes: protocol id 0 and
/// a length field of 6.
pub open spec fn is_short_frame(b: Seq<u8>) -> bool {
    b.len() == 12 && b[2] == 0 && b[3] == 0 && b[4] == 0 && b[5] == 6
}

/// The header identifiers of the frame at the start of `b`.
pub open spec fn frame_header(b: Seq<u8>) -> Header {
    Header { transaction_id: word_at(b, 0), unit_id: b[6] }
}

/// `b` is a Read-Coils request frame.
pub open spec fn is_read_coils_frame(b: Seq<u8>) -> bool {
    is_short_frame(b) && b[7] == 1
}

/// `b` is a Write-Single-Coil request frame with a valid coil value.
pub open spec fn is_write_coil_frame(b: Seq<u8>) -> bool {
    is_short_frame(b) && b[7] == 5 && (word_at(b, 10) == 0xff00 || word_at(b, 10) == 0)
}

/// The request of a Read-Coils frame.
pub open spec fn read_coils_request(b: Seq<u8>) -> Request {
    Request::ReadCoils { address: word_at(b, 8), quantity: word_at(b, 10) }
}

/// The request of a Write-Single-Coil frame.
pub open spec fn write_coil_request(b: Seq<u8>) -> Request {
    Request::WriteSingleCoil { address: word_at(b, 8), value: word_at(b, 10) == 0xff00 }
}

/// The result of decoding a complete frame.
pub open spec fn decoded(hdr: Header, request: Request) -> Result<Option<RequestFrame>, modbus_core::Error> {
    Ok(Some(RequestFrame { hdr, request }))
}

/// Number of bytes that `n` packed coils take.
pub open spec fn packed_len(n: nat) -> nat {
    (n + 7) / 8
}

/// Bit `k` of `b`, the state of one packed coil.
pub open spec fn coil_bit(b: u8, k: int) -> bool {
    (b >> (k as u8)) & 1u8 == 1u8
}

/// Byte `j` of the filler content, or zero past its end.
pub open spec fn filler_byte(filler: Seq<u8>, j: int) -> u8 {
    if j < filler.len() {
        filler[j]
    } else {
        0
    }
}

/// `block` holds the first `n` coils of `filler`, packed: bit `i % 8` of byte
/// `i / 8` is coil `i`, and the bits after the last coil are clear.
pub open spec fn packs_coils(block: Seq<u8>, filler: Seq<u8>, n: nat) -> bool {
    &&& block.len() == packed_len(n)
    &&& forall|i: int|
        0 <= i < 8 * packed_len(n) ==> #[trigger] coil_bit(block[i / 8], i % 8) == (i < n
            && coil_bit(filler_byte(filler, i / 8), i % 8))
}

/// The byte whose low `m` bits are set and whose other bits are clear.
pub open spec fn low_mask(m: int) -> u8 {
    if m >= 8 {
        0xff
    } else if m <= 0 {
        0
    } else {
        ((1u16 << (m as u16)) - 1u16) as u8
    }
}

/// A response frame: the MBAP header (transaction id, protocol id 0, length,
/// unit id), then the function code and the data.
pub open spec fn adu_bytes(hdr: Header, function: u8, data: Seq<u8>) -> Seq<u8> {
    be_bytes(hdr.transaction_id) + seq![0u8, 0u8] + be_bytes((data.len() + 2) as u16) + seq![
        hdr.unit_id,
        function,
    ] + data
}

/// The Write-Single-Coil response: the address and the coil value, echoed.
pub open spec fn write_coil_response(hdr: Header, address: u16, value: bool) -> Seq<u8> {
    adu_bytes(
        hdr,
        5,
        be_bytes(address) + if value {
            seq![0xffu8, 0u8]
        } else {
            seq![0u8, 0u8]
        },
    )
}

/// The coil block of a Read-Coils response for `n` coils: `ceil(n / 8)` bytes
/// of the filler (zero past its end), with the bits after the last coil cleared.
pub open spec fn coil_block(filler: Seq<u8>, n: nat) -> Seq<u8> {
    Seq::new(packed_len(n), |j: int| filler_byte(filler, j) & low_mask(n - 8 * j))
}

/// The Read-Coils response for `n` coils: the byte count, then the coil block.
pub open spec fn read_coils_response_bytes(hdr: Header, filler: Seq<u8>, n: nat) -> Seq<u8> {
    adu_bytes(hdr, 1, seq![packed_len(n) as u8] + coil_block(filler, n))
}

/// Relies on `modbus_core::tcp::server::decode_request`: a single frame with
/// protocol id 0, length field 6 and a five-byte PDU decodes at its first byte
/// to its big-endian fields; a Write-Single-Coil value other than 0xff00 or 0
/// is refused. The call is only made on such a frame: on other buffers the
/// decoder retries from later bytes, and for some of them it reads past the end.
#[verifier::external_body]
fn decode_request(b: &[u8]) -> (r: Result<Option<RequestFrame>, modbus_core::Error>)
    requires
        is_short_frame(b@),
        b@[7] == 1 || b@[7] == 5,
    ensures
        is_read_coils_frame(b@) ==> r == decoded(frame_header(b@), read_coils_request(b@)),
        is_write_coil_frame(b@) ==> r == decoded(frame_header(b@), write_coil_request(b@)),
        b@[7] == 5 && !is_write_coil_frame(b@) ==> r is Err,
{
    match modbus_core::tcp::server::decode_request(b) {
        Ok(Some(adu)) => {
            let hdr = Header { transaction_id: adu.hdr.transaction_id, unit_id: adu.hdr.unit_id };
            let request = match adu.pdu.0 {
                modbus_core::Request::ReadCoils(address, quantity) => Request::ReadCoils { address, quantity },
                modbus_core::Request::WriteSingleCoil(address, value) => Request::WriteSingleCoil { address, value },
                _ => Request::Unsupported,
            };
            Ok(Some(RequestFrame { hdr, request }))
        },
        Ok(None) => Ok(None),
        Err(e) => Err(e),
    }
}

/// Relies on `modbus_core::unpack_coils`: coil `i` is bit `i % 8` of byte `i / 8`.
/// It indexes `bytes` up to the last coil, so `bytes` must hold them all.
#[verifier::external_body]
fn unpack_coils(bytes: &[u8], count: u16) -> (r: Result<Vec<bool>, modbus_core::Error>)
    requires
        bytes@.len() >= packed_len(count as nat),
    ensures
        r matches Ok(c) && c@.len() == count && forall|i: int|
            0 <= i < count ==> #[trigger] c@[i] == coil_bit(bytes@[i / 8], i % 8),
{
    let mut coils = vec![false; count as usize];
    match modbus_core::unpack_coils(bytes, count, &mut coils) {
        Ok(()) => Ok(coils),
        Err(e) => Err(e),
    }
}

/// Relies on `modbus_core::Coils::from_bools`: into a zeroed target of
/// `target_len` bytes it sets bit `i % 8` of byte `i / 8` for each set coil
/// `i`; it refuses an empty coil list and a target that is too short.
#[verifier::external_body]
fn pack_coils(coils: &[bool], target_len: usize) -> (r: Result<Vec<u8>, modbus_core::Error>)
    ensures
        r is Ok <==> (coils@.len() > 0 && target_len >= packed_len(coils@.len())),
        r matches Ok(p) ==> p@.len() == target_len && forall|i: int|
            0 <= i < 8 * target_len ==> #[trigger] coil_bit(p@[i / 8], i % 8) == (i < coils@.len()
                && coils@[i]),
{
    let mut target = vec![0u8; target_len];
    let packed: Result<(), modbus_core::Error> = match modbus_core::Coils::from_bools(coils, &mut target) {
        Ok(_) => Ok(()),
        Err(e) => Err(e),
    };
    match packed {
        Ok(()) => Ok(target),
        Err(e) => Err(e),
    }
}

/// Relies on `modbus_core::tcp::server::encode_response`, given a PDU of the
/// function code followed by `data`: into a buffer of `capacity` bytes it
/// writes the MBAP header and the PDU, and fails when they do not fit.
#[verifier::external_body]
fn encode_response(hdr: Header, function: u8, data: &[u8], capacity: usize) -> (r: Result<Vec<u8>, modbus_core::Error>)
    requires
        capacity < 0x10000,
    ensures
        r is Ok <==> 8 + data@.len() <= capacity,
        r matches Ok(out) ==> out@ == adu_bytes(hdr, function, data@),
{
    let mut buf = vec![0u8; capacity];
    let adu = modbus_core::tcp::ResponseAdu {
        hdr: modbus_core::tcp::Header { transaction_id: hdr.transaction_id, unit_id: hdr.unit_id },
        pdu: modbus_core::ResponsePdu(Ok(modbus_core::Response::Custom(modbus_core::FunctionCode::Custom(function), data))),
    };
    match modbus_core::tcp::server::encode_response(adu, &mut buf) {
        Ok(n) => {
            buf.truncate(n);
            Ok(buf)
        },
        Err(e) => Err(e),
    }
}

/// A result with the bytes as a sequence.
pub open spec fn bytes_result<E>(r: Result<Vec<u8>, E>) -> Result<Seq<u8>, E> {
    match r {
        Ok(v) => Ok(v@),
        Err(e) => Err(e),
    }
}

/// What the response `r` to the request frame `request` is, given the filler
/// content `filler`. A request too short for a header and a function code is
/// incomplete; one whose header is not Modbus/TCP or does not count exactly its
/// bytes is malformed; a function code other than Read-Coils (1) and
/// Write-Single-Coil (5) is unsupported; a frame of either code whose PDU is not
/// five bytes is malformed. A Read-Coils frame for `n` coils gets `ceil(n / 8)`
/// packed filler bytes, or an encoding error when they do not fit the response
/// buffer; a Write-Single-Coil frame gets its address and value echoed, or a
/// decoding error when the value is not a coil value.
pub open spec fn respond_post(request: Seq<u8>, filler: Seq<u8>, r: Result<Seq<u8>, RespondError>) -> bool {
    let hdr = frame_header(request);
    let n = word_at(request, 10) as nat;
    &&& 8 > request.len() ==> r == Err::<Seq<u8>, RespondError>(RespondError::Incomplete)
    &&& request.len() >= 8 && !is_framed(request) ==> r == Err::<Seq<u8>, RespondError>(
        RespondError::Malformed,
    )
    &&& is_framed(request) && request[7] != 1 && request[7] != 5 ==> r == Err::<
        Seq<u8>,
        RespondError,
    >(RespondError::Unsupported)
    &&& is_framed(request) && (request[7] == 1 || request[7] == 5) && request.len() != 12 ==> r
        == Err::<Seq<u8>, RespondError>(RespondError::Malformed)
    &&& is_read_coils_frame(request) && 9 + packed_len(n) <= RESPONSE_CAPACITY ==> r == Ok::<
        Seq<u8>,
        RespondError,
    >(read_coils_response_bytes(hdr, filler, n))
    &&& is_read_coils_frame(request) && 9 + packed_len(n) > RESPONSE_CAPACITY ==> (r matches Err(
        RespondError::Encode(_),
    ))
    &&& is_write_coil_frame(request) ==> r == Ok::<Seq<u8>, RespondError>(
        write_coil_response(hdr, word_at(request, 8), word_at(request, 10) == 0xff00),
    )
    &&& is_short_frame(request) && request[7] == 5 && !is_write_coil_frame(request) ==> (r matches Err(
        RespondError::Decode(_),
    ))
}

/// The first `len` bytes of the filler content, padded with zeros where it is shorter.
fn fit_filler(filler: &[u8], len: usize) -> (r: Vec<u8>)
    ensures
        r@.len() == len,
        forall|j: int| 0 <= j < len ==> #[trigger] r@[j] == filler_byte(filler@, j),
{
    let mut r: Vec<u8> = Vec::new();
    let mut j: usize = 0;
    while j < len
        invariant
            j <= len,
            r@.len() == j,
            forall|k: int| 0 <= k < j ==> #[trigger] r@[k] == filler_byte(filler@, k),
        decreases len - j,
    {
        if j < filler.len() {
            r.push(filler[j]);
        } else {
            r.push(0);
        }
        j = j + 1;
    }
    r
}

proof fn lemma_coil_index(i: int, n: nat)
    requires
        0 <= i < n,
    ensures
        0 <= i / 8 < packed_len(n),
        0 <= i % 8 < 8,
        i < 8 * packed_len(n),
{
}

/// The Read-Coils response for `quantity` coils taken from `filler`.
fn read_coils_response(hdr: Header, quantity: u16, filler: &[u8]) -> (r: Result<Vec<u8>, RespondError>)
    ensures
        9 + packed_len(quantity as nat) <= RESPONSE_CAPACITY ==> (r matches Ok(out) && out@
            == read_coils_response_bytes(hdr, filler@, quantity as nat)),
        9 + packed_len(quantity as nat) > RESPONSE_CAPACITY ==> (r matches Err(RespondError::Encode(_))),
{
    // One bit per coil, eight coils per byte.
    let content_len: usize = (quantity as usize + 7) / 8;
    let content = fit_filler(filler, content_len);
    let coils = match unpack_coils(content.as_slice(), quantity) {
        Ok(c) => c,
        Err(e) => return Err(RespondError::Encode(e)),
    };
    let ghost n = quantity as nat;
    // Zero coils pack into an empty block; the packer refuses an empty coil list.
    let packed: Vec<u8> = if quantity == 0 {
        Vec::new()
    } else {
        let target_len: usize = if content_len < COIL_CAPACITY {
            content_len
        } else {
            COIL_CAPACITY
        };
        match pack_coils(coils.as_slice(), target_len) {
            Ok(p) => p,
            Err(e) => return Err(RespondError::Encode(e)),
        }
    };
    assert(packs_coils(packed@, filler@, n)) by {
        assert forall|i: int| 0 <= i < 8 * packed_len(n) implies #[trigger] coil_bit(packed@[i / 8], i % 8)
            == (i < n && coil_bit(filler_byte(filler@, i / 8), i % 8)) by {
            if i < n {
                lemma_coil_index(i, n);
                assert(coils@[i] == coil_bit(content@[i / 8], i % 8));
            }
        }
    }
    proof {
        lemma_packed_block_bytes(packed@, filler@, n);
        assert(packed@ =~= coil_block(filler@, n));
    }
    // The byte count only reaches the wire when the block fits the response
    // buffer, and then it is below 256.
    let mut data: Vec<u8> = Vec::new();
    data.push(#[verifier::truncate] (packed.len() as u8));
    let mut block = packed;
    data.append(&mut block);
    match encode_response(hdr, 1, data.as_slice(), RESPONSE_CAPACITY) {
        Ok(out) => {
            assert(data@ =~= seq![packed_len(n) as u8] + packed@);
            Ok(out)
        },
        Err(e) => Err(RespondError::Encode(e)),
    }
}

/// Builds the response frame to the request frame `request`.
///
/// The request must be exactly one Modbus/TCP frame. A Read-Coils request
/// for `n` coils is answered with `ceil(n / 8)` bytes of `filler`, unpacked
/// into coils and packed again, so that bits past the last coil are clear; filler that is too short counts as zeros, and filler
/// that is too long is cut. A Write-Single-Coil request is answered with its
/// address and value. The response echoes the request's header identifiers.
pub fn respond(request: Vec<u8>, filler: Vec<u8>) -> (r: Result<Vec<u8>, RespondError>)
    ensures
        respond_post(request@, filler@, bytes_result(r)),
{
    let len = request.len();
    if len < 8 {
        return Err(RespondError::Incomplete);
    }
    let length_field = request[4] as usize * 256 + request[5] as usize;
    if request[2] != 0 || request[3] != 0 || length_field != len - 6 {
        return Err(RespondError::Malformed);
    }
    if request[7] != 1 && request[7] != 5 {
        return Err(RespondError::Unsupported);
    }
    // Both modeled requests have a five-byte PDU.
    if len != 12 {
        return Err(RespondError::Malformed);
    }
    match decode_request(request.as_slice()) {
        Err(e) => Err(RespondError::Decode(e)),
        Ok(None) => Err(RespondError::Incomplete),
        Ok(Some(frame)) => match frame.request {
            Request::ReadCoils { address: _, quantity } => read_coils_response(frame.hdr, quantity, filler.as_slice()),
            Request::WriteSingleCoil { address, value } => {
                let mut data: Vec<u8> = Vec::new();
                data.push((address / 256) as u8);
                data.push((address % 256) as u8);
                if value {
                    data.push(0xff);
                } else {
                    data.push(0);
                }
                data.push(0);
                match encode_response(frame.hdr, 5, data.as_slice(), RESPONSE_CAPACITY) {
                    Ok(out) => {
                        assert(data@ =~= be_bytes(address) + if value {
                            seq![0xffu8, 0u8]
                        } else {
                            seq![0u8, 0u8]
                        });
                        Ok(out)
                    },
                    Err(e) => Err(RespondError::Encode(e)),
                }
            },
            Request::Unsupported => Err(RespondError::Unsupported),
        },
    }
}

/// How many bytes of filler content the response to `request` takes: `ceil(n / 8)`
/// for a Read-Coils frame for `n` coils, and none for any other request.
pub fn filler_len(request: &[u8]) -> (r: Option<usize>)
    ensures
        is_read_coils_frame(request@) ==> r == Some(packed_len(word_at(request@, 10) as nat) as usize),
        !is_read_coils_frame(request@) ==> r is None,
{
    if request.len() == 12 && request[2] == 0 && request[3] == 0 && request[4] == 0 && request[5] == 6
        && request[7] == 1 {
        let quantity: usize = request[10] as usize * 256 + request[11] as usize;
        Some((quantity + 7) / 8)
    } else {
        None
    }
}

/// The big-endian bytes of a word read from two bytes are those two bytes.
pub proof fn lemma_be_round_trip(hi: u8, lo: u8)
    ensures
        be_bytes(be16(hi, lo)) == seq![hi, lo],
{
    assert(be16(hi, lo) == hi as nat * 256 + lo as nat);
    assert((hi as nat * 256 + lo as nat) / 256 == hi as nat);
    assert((hi as nat * 256 + lo as nat) % 256 == lo as nat);
    assert(be_bytes(be16(hi, lo)) =~= seq![hi, lo]);
}

/// A Read-Coils request for `n` coils whose packed coils fit the response
/// buffer always gets a response, and its coil block is exactly `ceil(n / 8)`
/// bytes long, as its byte count says, whatever the length of the filler.
pub proof fn lemma_read_coils_block_len(request: Seq<u8>, filler: Seq<u8>, r: Result<Seq<u8>, RespondError>)
    requires
        is_read_coils_frame(request),
        9 + packed_len(word_at(request, 10) as nat) <= RESPONSE_CAPACITY,
        respond_post(request, filler, r),
    ensures
        r matches Ok(out) && out.len() - 9 == packed_len(word_at(request, 10) as nat) && out[8]
            == packed_len(word_at(request, 10) as nat),
{
    let n = word_at(request, 10) as nat;
    let data = seq![packed_len(n) as u8] + coil_block(filler, n);
    assert(read_coils_response_bytes(frame_header(request), filler, n)[8] == data[0]);
}

/// A Write-Single-Coil request gets the same response on every call, whatever
/// the filler: a frame that echoes the request's transaction id, unit id,
/// coil address and coil value.
pub proof fn lemma_write_coil_echo(
    request: Seq<u8>,
    filler1: Seq<u8>,
    filler2: Seq<u8>,
    r1: Result<Seq<u8>, RespondError>,
    r2: Result<Seq<u8>, RespondError>,
)
    requires
        is_write_coil_frame(request),
        respond_post(request, filler1, r1),
        respond_post(request, filler2, r2),
    ensures
        r1 == r2,
        r1 matches Ok(out) && out.len() == 12 && out.subrange(0, 2) == request.subrange(0, 2)
            && out[6] == request[6] && out[7] == 5 && out.subrange(8, 12) == request.subrange(8, 12),
{
    let out = write_coil_response(frame_header(request), word_at(request, 8), word_at(request, 10) == 0xff00);
    lemma_be_round_trip(request[0], request[1]);
    lemma_be_round_trip(request[8], request[9]);
    lemma_be_round_trip(request[10], request[11]);
    assert(out.subrange(0, 2) =~= request.subrange(0, 2));
    assert(out.subrange(8, 12) =~= request.subrange(8, 12));
}

proof fn lemma_mask_bit(m: u16, k: u8)
    by (bit_vector)
    requires
        m <= 8,
        k < 8,
    ensures
        ((((1u16 << m) - 1u16) as u8 >> k) & 1u8 == 1u8) == ((k as u16) < m),
{
}

proof fn lemma_byte_from_bits(p: u8, f: u8, mask: u8)
    by (bit_vector)
    requires
        ((p >> 0u8) & 1u8 == 1u8) == (((mask >> 0u8) & 1u8 == 1u8) && ((f >> 0u8) & 1u8 == 1u8)),
        ((p >> 1u8) & 1u8 == 1u8) == (((mask >> 1u8) & 1u8 == 1u8) && ((f >> 1u8) & 1u8 == 1u8)),
        ((p >> 2u8) & 1u8 == 1u8) == (((mask >> 2u8) & 1u8 == 1u8) && ((f >> 2u8) & 1u8 == 1u8)),
        ((p >> 3u8) & 1u8 == 1u8) == (((mask >> 3u8) & 1u8 == 1u8) && ((f >> 3u8) & 1u8 == 1u8)),
        ((p >> 4u8) & 1u8 == 1u8) == (((mask >> 4u8) & 1u8 == 1u8) && ((f >> 4u8) & 1u8 == 1u8)),
        ((p >> 5u8) & 1u8 == 1u8) == (((mask >> 5u8) & 1u8 == 1u8) && ((f >> 5u8) & 1u8 == 1u8)),
        ((p >> 6u8) & 1u8 == 1u8) == (((mask >> 6u8) & 1u8 == 1u8) && ((f >> 6u8) & 1u8 == 1u8)),
        ((p >> 7u8) & 1u8 == 1u8) == (((mask >> 7u8) & 1u8 == 1u8) && ((f >> 7u8) & 1u8 == 1u8)),
    ensures
        p == f & mask,
{
}

proof fn lemma_all_ones_bit(k: u8)
    by (bit_vector)
    requires
        k < 8,
    ensures
        (0xffu8 >> k) & 1u8 == 1u8,
{
}

proof fn lemma_zero_bit(k: u8)
    by (bit_vector)
    ensures
        (0u8 >> k) & 1u8 == 0u8,
{
}

/// Bit `k` of the low mask of `m` bits is set exactly when `k < m`.
proof fn lemma_low_mask_bit(m: int, k: int)
    requires
        0 <= k < 8,
    ensures
        coil_bit(low_mask(m), k) == (k < m),
{
    if m >= 8 {
        lemma_all_ones_bit(k as u8);
    } else if m <= 0 {
        lemma_zero_bit(k as u8);
    } else {
        lemma_mask_bit(m as u16, k as u8);
    }
}

/// Bit `k` of byte `j` of a packed coil block.
proof fn lemma_block_bit(block: Seq<u8>, filler: Seq<u8>, n: nat, j: int, k: int)
    requires
        packs_coils(block, filler, n),
        0 <= j < block.len(),
        0 <= k < 8,
    ensures
        coil_bit(block[j], k) == (coil_bit(low_mask(n - 8 * j), k) && coil_bit(filler_byte(filler, j), k)),
{
    let i = 8 * j + k;
    assert(i / 8 == j && i % 8 == k);
    assert(0 <= i < 8 * packed_len(n));
    assert(coil_bit(block[i / 8], i % 8) == (i < n && coil_bit(filler_byte(filler, i / 8), i % 8)));
    lemma_low_mask_bit(n - 8 * j, k);
}

/// In a packed coil block, byte `j` is byte `j` of the filler (zero past its
/// end) with the bits after the last coil cleared.
pub proof fn lemma_packed_block_bytes(block: Seq<u8>, filler: Seq<u8>, n: nat)
    requires
        packs_coils(block, filler, n),
    ensures
        forall|j: int| 0 <= j < block.len() ==> #[trigger] block[j] == filler_byte(filler, j) & low_mask(n - 8 * j),
{
    assert forall|j: int| 0 <= j < block.len() implies #[trigger] block[j] == filler_byte(filler, j) & low_mask(
        n - 8 * j,
    ) by {
        lemma_block_bit(block, filler, n, j, 0);
        lemma_block_bit(block, filler, n, j, 1);
        lemma_block_bit(block, filler, n, j, 2);
        lemma_block_bit(block, filler, n, j, 3);
        lemma_block_bit(block, filler, n, j, 4);
        lemma_block_bit(block, filler, n, j, 5);
        lemma_block_bit(block, filler, n, j, 6);
        lemma_block_bit(block, filler, n, j, 7);
        lemma_byte_from_bits(block[j], filler_byte(filler, j), low_mask(n - 8 * j));
    }
}

} // verus!
