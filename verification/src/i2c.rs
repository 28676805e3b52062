//! userland inter-integrated circuit abstraction, see
//! https://en.wikipedia.org/wiki/I2C
//!
//! headers and definitions taken from:
//! - https://github.com/torvalds/linux/blob/master/include/uapi/linux/i2c-dev.h
//! - https://github.com/torvalds/linux/blob/704340f1cd0dcef829eb62f5b48ae95a2ce17bdf/include/uapi/linux/i2c.h
//!
//! The transfers themselves go through `ioctl` on the device node; this
//! module describes what they send.
use vstd::prelude::*;

verus! {

/// %I2C_M_RD: read data (from slave to master). Guaranteed to be 0x0001! If
/// not set, the transaction is interpreted as write.
///
/// Optional:
/// %I2C_M_DMA_SAFE: the buffer of this message is DMA safe. Makes only sense
///   in kernelspace, because userspace buffers are copied anyway
///
/// Only if I2C_FUNC_10BIT_ADDR is set:
/// %I2C_M_TEN: this is a 10 bit chip address
///
/// Only if I2C_FUNC_SMBUS_READ_BLOCK_DATA is set:
/// %I2C_M_RECV_LEN: message length will be first received byte
///
/// Only if I2C_FUNC_NOSTART is set:
/// %I2C_M_NOSTART: skip repeated start sequence
///
/// Only if I2C_FUNC_PROTOCOL_MANGLING is set:
/// %I2C_M_NO_RD_ACK: in a read message, master ACK/NACK bit is skipped
/// %I2C_M_IGNORE_NAK: treat NACK from client as ACK
/// %I2C_M_REV_DIR_ADDR: toggles the Rd/Wr bit
/// %I2C_M_STOP: force a STOP condition after the message
#[derive(Debug, Clone, Copy, PartialEq, Eq, Structural, Default)]
pub struct I2cFlags(pub u16);

impl I2cFlags {
    // the bits of the single flags, see above
    pub const READ: u16 = 0x0001;
    pub const TEN_BIT: u16 = 0x0010;
    pub const DMA_SAFE: u16 = 0x0200;
    pub const RECV_LEN: u16 = 0x0400;
    pub const NO_RD_ACK: u16 = 0x0800;
    pub const IGNORE_NAK: u16 = 0x1000;
    pub const REV_DIR_ADDR: u16 = 0x2000;
    pub const NOSTART: u16 = 0x4000;
    pub const STOP: u16 = 0x8000;

    /// the flag bits
    pub fn bits(self) -> (r: u16)
        ensures
            r == self.0,
    {
        self.0
    }

    /// whether every flag of `other` is set here
    pub fn contains(self, other: Self) -> (r: bool)
        ensures
            r == (self.0 & other.0 == other.0),
    {
        self.0 & other.0 == other.0
    }
}

/// /dev/i2c-X ioctl commands.The ioctl's parameter is always an
/// unsigned long, except for:
///  - I2C_FUNCS, takes pointer to an unsigned long
///  - I2C_RDWR, takes pointer to struct i2c_rdwr_ioctl_data
///  - I2C_SMBUS, takes pointer to struct i2c_smbus_ioctl_data
#[derive(Debug, Clone, Copy, PartialEq, Eq, Structural)]
pub enum I2cIoctl {
    Retries,
    Timeout,
    Slave,
    TenBit,
    Funcs,
    SlaveForce,
    RdWr,
    Pec,
    Smbus,
}

/// the request number of an ioctl command
pub open spec fn spec_request(c: I2cIoctl) -> usize {
    match c {
        I2cIoctl::Retries => 0x0701,
        I2cIoctl::Timeout => 0x0702,
        I2cIoctl::Slave => 0x0703,
        I2cIoctl::TenBit => 0x0704,
        I2cIoctl::Funcs => 0x0705,
        I2cIoctl::SlaveForce => 0x0706,
        I2cIoctl::RdWr => 0x0707,
        I2cIoctl::Pec => 0x0708,
        I2cIoctl::Smbus => 0x0720,
    }
}

impl I2cIoctl {
    /// the request number that `ioctl` takes for this command
    pub fn request(self) -> (r: usize)
        ensures
            r == spec_request(self),
    {
        match self {
            I2cIoctl::Retries => 0x0701,
            I2cIoctl::Timeout => 0x0702,
            I2cIoctl::Slave => 0x0703,
            I2cIoctl::TenBit => 0x0704,
            I2cIoctl::Funcs => 0x0705,
            I2cIoctl::SlaveForce => 0x0706,
            I2cIoctl::RdWr => 0x0707,
            I2cIoctl::Pec => 0x0708,
            I2cIoctl::Smbus => 0x0720,
        }
    }
}

/// Why a transfer could not be described: its buffer is longer than an
/// `i2c_msg` can say
#[derive(Debug, Clone, Copy, PartialEq, Eq, Structural)]
pub enum LengthError {
    /// the buffer of a plain read or write
    Data,
    /// the buffer written before a repeated start
    Write,
    /// the buffer read after a repeated start
    Read,
}

impl LengthError {
    /// the message that describes the error
    pub fn message(&self) -> (r: &'static str)
        ensures
            r@ == match *self {
                LengthError::Data => "data.len() > u16::MAX"@,
                LengthError::Write => "w.len() > u16::MAX"@,
                LengthError::Read => "r.len() > u16::MAX"@,
            },
    {
        match self {
            LengthError::Data => "data.len() > u16::MAX",
            LengthError::Write => "w.len() > u16::MAX",
            LengthError::Read => "r.len() > u16::MAX",
        }
    }
}

/// One segment of an I2C transaction as the kernel's `i2c_msg` describes
/// it, its buffer aside: the slave address (7 or 10 bits; when it is a 10
/// bit address %I2C_M_TEN must be set in flags), the [I2cFlags] and the
/// number of data bytes read from or written to the slave
#[derive(Debug, Clone, Copy, PartialEq, Eq, Structural)]
pub struct I2cMessage {
    pub addr: u16,
    pub flags: u16,
    pub len: u16,
}

impl I2cMessage {
    /// the segment that writes `len` bytes to the slave at `addr`
    pub fn write(addr: u16, len: usize) -> (r: Result<I2cMessage, LengthError>)
        ensures
            len <= u16::MAX ==> r == Ok::<I2cMessage, LengthError>(
                I2cMessage { addr, flags: 0, len: len as u16 },
            ),
            len > u16::MAX ==> r == Err::<I2cMessage, LengthError>(LengthError::Data),
    {
        if len > 0xffff {
            return Err(LengthError::Data);
        }
        // 0 is WRITE
        Ok(I2cMessage { addr, flags: 0, len: len as u16 })
    }

    /// the segment that reads `len` bytes from the slave at `addr`
    pub fn read(addr: u16, len: usize) -> (r: Result<I2cMessage, LengthError>)
        ensures
            len <= u16::MAX ==> r == Ok::<I2cMessage, LengthError>(
                I2cMessage { addr, flags: I2cFlags::READ, len: len as u16 },
            ),
            len > u16::MAX ==> r == Err::<I2cMessage, LengthError>(LengthError::Data),
    {
        if len > 0xffff {
            return Err(LengthError::Data);
        }
        Ok(I2cMessage { addr, flags: I2cFlags::READ, len: len as u16 })
    }

    /// The two segments of a combined transaction with the slave at `addr`:
    /// START, address + WRITE, `w_len` bytes written, REPEATED START,
    /// address + READ, `r_len` bytes read, STOP
    pub fn write_read(addr: u16, w_len: usize, r_len: usize) -> (r: Result<
        (I2cMessage, I2cMessage),
        LengthError,
    >)
        ensures
            w_len > u16::MAX ==> r == Err::<(I2cMessage, I2cMessage), LengthError>(
                LengthError::Write,
            ),
            w_len <= u16::MAX && r_len > u16::MAX ==> r == Err::<
                (I2cMessage, I2cMessage),
                LengthError,
            >(LengthError::Read),
            w_len <= u16::MAX && r_len <= u16::MAX ==> r == Ok::<
                (I2cMessage, I2cMessage),
                LengthError,
            >(
                (
                    I2cMessage { addr, flags: 0, len: w_len as u16 },
                    I2cMessage { addr, flags: I2cFlags::READ, len: r_len as u16 },
                ),
            ),
    {
        if w_len > 0xffff {
            return Err(LengthError::Write);
        }
        if r_len > 0xffff {
            return Err(LengthError::Read);
        }
        Ok(
            (
                I2cMessage { addr, flags: 0, len: w_len as u16 },
                I2cMessage { addr, flags: I2cFlags::READ, len: r_len as u16 },
            ),
        )
    }
}

} // verus!
