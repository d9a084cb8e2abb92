//! The power meter's Modbus frames: building the read request, checking
//! a reply frame, and unpacking the measurement registers. The serial
//! exchange itself lives with the hardware glue.
use vstd::prelude::*;
use crate::text;

verus! {

/// Error text carried by a failed serial write.
#[derive(Debug, Clone)]
pub struct MyWriteError {
    pub message: String,
}

/// Error text carried by a failed serial read.
#[derive(Debug, Clone)]
pub struct MyReadError {
    pub message: String,
}

/// Failure modes of one exchange with the power meter.
#[derive(Debug, Clone)]
pub enum Error<WriteError, ReadError> {
    CrcMismatch,
    PzemError,
    IllegalAddress,
    WriteError(WriteError),
    ReadError(ReadError),
}

/// The Modbus variant of the 16-bit cyclic redundancy check, as the
/// crc16 crate computes it over a run of bytes.
pub uninterp spec fn crc16_modbus(data: Seq<u8>) -> u16;

/// Relies on crc16::State::<MODBUS>::calculate: the checksum is computed
/// from the given bytes alone.
#[verifier::external_body]
fn crc16_calculate(data: &[u8]) -> (r: u16)
    ensures
        r == crc16_modbus(data@),
{
    crc16::State::<crc16::MODBUS>::calculate(data)
}

/// True when the frame's trailing two bytes carry the checksum of the
/// rest, low byte first as Modbus frames order it.
pub open spec fn frame_crc_ok(frame: Seq<u8>) -> bool
    recommends
        frame.len() >= 2,
{
    let crc = crc16_modbus(frame.subrange(0, frame.len() - 2));
    frame[frame.len() - 2] == (crc & 0xff) as u8 && frame[frame.len() - 1] == (crc >> 8) as u8
}

/// Writes the checksum of everything before the trailing two bytes into
/// those two bytes, low byte first.
pub fn crc_write(buf: &mut Vec<u8>)
    requires
        old(buf)@.len() >= 2,
    ensures
        final(buf)@ == old(buf)@.update(old(buf)@.len() - 2, {
            (crc16_modbus(old(buf)@.subrange(0, old(buf)@.len() - 2)) & 0xff) as u8
        }).update(old(buf)@.len() - 1, {
            (crc16_modbus(old(buf)@.subrange(0, old(buf)@.len() - 2)) >> 8) as u8
        }),
        frame_crc_ok(final(buf)@),
        final(buf)@.subrange(0, final(buf)@.len() - 2) == old(buf)@.subrange(
            0,
            old(buf)@.len() - 2,
        ),
{
    let n = buf.len();
    let head = text::subvec(buf.as_slice(), 0, n - 2);
    let crc = crc16_calculate(head.as_slice());
    buf.set(n - 2, (crc & 0xff) as u8);
    buf.set(n - 1, (crc >> 8) as u8);
    proof {
        assert(buf@.subrange(0, n - 2) =~= old(buf)@.subrange(0, n - 2));
    }
}

/// True when the frame carries a sound checksum.
pub fn crc_check(buf: &[u8]) -> (r: bool)
    requires
        buf@.len() >= 2,
    ensures
        r == frame_crc_ok(buf@),
{
    let n = buf.len();
    let head = text::subvec(buf, 0, n - 2);
    let crc = crc16_calculate(head.as_slice());
    buf[n - 2] == (crc & 0xff) as u8 && buf[n - 1] == (crc >> 8) as u8
}

/// The universal address for a single-slave line.
pub open spec fn default_address() -> u8 {
    0xf8
}

/// True for the addresses the meter accepts: the slave range and the
/// universal address.
pub fn legal_address(addr: u8) -> (r: bool)
    ensures
        r == (addr == default_address() || (0x01 <= addr && addr <= 0xf7)),
{
    addr == 0xf8 || (0x01 <= addr && addr <= 0xf7)
}

/// The body of the read-measurement request: slave address, the read
/// function code, the first register and the register count.
pub open spec fn read_request_body(addr: u8) -> Seq<u8> {
    seq![addr, 4u8, 0u8, 0u8, 0u8, 10u8]
}

/// The full read-measurement request frame for slave `addr`.
pub fn read_request(addr: u8) -> (r: Vec<u8>)
    ensures
        r@.len() == 8,
        r@.subrange(0, 6) == read_request_body(addr),
        frame_crc_ok(r@),
{
    let mut buf: Vec<u8> = Vec::new();
    buf.push(addr);
    buf.push(4);
    buf.push(0);
    buf.push(0);
    buf.push(0);
    buf.push(10);
    buf.push(0);
    buf.push(0);
    proof {
        assert(buf@.subrange(0, 6) =~= read_request_body(addr));
    }
    crc_write(&mut buf);
    proof {
        assert(buf@.subrange(0, 6) =~= read_request_body(addr));
    }
    buf
}

/// True when the reply echoes the request's address and function code.
pub open spec fn echo_ok(req: Seq<u8>, resp: Seq<u8>) -> bool
    recommends
        req.len() >= 2,
        resp.len() >= 2,
{
    resp[0] == req[0] && resp[1] == req[1]
}

/// The checks one exchange applies to a reply frame: the reply must echo
/// the request's first two bytes and carry a sound checksum.
pub fn validate_response(req: &[u8], resp: &[u8]) -> (r: Result<
    (),
    Error<MyWriteError, MyReadError>,
>)
    requires
        req@.len() >= 2,
        resp@.len() >= 2,
    ensures
        r is Ok <==> (echo_ok(req@, resp@) && frame_crc_ok(resp@)),
        !echo_ok(req@, resp@) ==> r == Err::<(), Error<MyWriteError, MyReadError>>(
            Error::PzemError,
        ),
        echo_ok(req@, resp@) && !frame_crc_ok(resp@) ==> r == Err::<
            (),
            Error<MyWriteError, MyReadError>,
        >(Error::CrcMismatch),
{
    if resp[0] != req[0] || resp[1] != req[1] {
        return Err(Error::PzemError);
    }
    if !crc_check(resp) {
        return Err(Error::CrcMismatch);
    }
    Ok(())
}

/// One measurement frame's registers as raw fixed-point integers:
/// voltage in tenths of a volt, current in thousandths of an ampere,
/// power in tenths of a watt, energy in watt-hours, frequency in tenths
/// of a hertz and power factor in hundredths.
#[derive(Debug, Clone, Copy, PartialEq, Eq, Structural)]
pub struct RawMeasurement {
    pub voltage: u16,
    pub current: u32,
    pub power: u32,
    pub energy: u32,
    pub frequency: u16,
    pub pf: u16,
    pub alarm: bool,
}

/// Unpacks the measurement registers of a reply frame. The 32-bit
/// quantities arrive low word first, and each word high byte first.
pub fn result_convert(buf: &[u8]) -> (r: RawMeasurement)
    requires
        buf@.len() == 25,
    ensures
        r.voltage as int == buf@[3] * 256 + buf@[4],
        r.current as int == buf@[7] * 16777216 + buf@[8] * 65536 + buf@[5] * 256 + buf@[6],
        r.power as int == buf@[11] * 16777216 + buf@[12] * 65536 + buf@[9] * 256 + buf@[10],
        r.energy as int == buf@[15] * 16777216 + buf@[16] * 65536 + buf@[13] * 256 + buf@[14],
        r.frequency as int == buf@[17] * 256 + buf@[18],
        r.pf as int == buf@[19] * 256 + buf@[20],
        r.alarm == (buf@[21] * 256 + buf@[22] != 0),
{
    let voltage: u16 = (buf[3] as u16) * 256 + (buf[4] as u16);
    let current: u32 = (buf[7] as u32) * 16777216 + (buf[8] as u32) * 65536 + (buf[5] as u32)
        * 256 + (buf[6] as u32);
    let power: u32 = (buf[11] as u32) * 16777216 + (buf[12] as u32) * 65536 + (buf[9] as u32)
        * 256 + (buf[10] as u32);
    let energy: u32 = (buf[15] as u32) * 16777216 + (buf[16] as u32) * 65536 + (buf[13] as u32)
        * 256 + (buf[14] as u32);
    let frequency: u16 = (buf[17] as u16) * 256 + (buf[18] as u16);
    let pf: u16 = (buf[19] as u16) * 256 + (buf[20] as u16);
    let alarm: bool = (buf[21] as u32) * 256 + (buf[22] as u32) != 0;
    RawMeasurement { voltage, current, power, energy, frequency, pf, alarm }
}

} // verus!
