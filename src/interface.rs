//! The fixed-layout records of the device's wire format, each read field by
//! field at its declared offset, width and little-endian byte order.
use vstd::prelude::*;
use crate::wire::{copy_array, read_u16_le, read_u32_le, u16_le, u32_le};

verus! {

pub const DEVICE_INFO_SIZE: usize = 44;
pub const RAW_DATA_HEADER_SIZE: usize = 64;
pub const HID_PRIVATE_DATA_SIZE: usize = 32;
pub const PAYLOAD_HEADER_SIZE: usize = 12;
pub const PAYLOAD_FRAME_HEADER_SIZE: usize = 16;
pub const CHUNK_HEADER_SIZE: usize = 4;
pub const STYLUS_REPORT_HEADER_U_SIZE: usize = 8;
pub const STYLUS_REPORT_HEADER_P_SIZE: usize = 4;
pub const STYLUS_REPORT_GEN1_SIZE: usize = 12;
pub const STYLUS_REPORT_GEN2_SIZE: usize = 16;
pub const HEATMAP_DIM_SIZE: usize = 8;

/// Bit of a stylus report's mode that says the stylus is near the surface.
pub const STYLUS_REPORT_MODE_PROXIMITY: u16 = 1;
pub const STYLUS_REPORT_MODE_TOUCH: u16 = 2;
pub const STYLUS_REPORT_MODE_BUTTON: u16 = 4;
pub const STYLUS_REPORT_MODE_RUBBER: u16 = 8;

/// A span whose length differs from the fixed size of the record asked for.
#[derive(Debug, Clone, Copy, PartialEq, Eq)]
pub struct TransmuteError;

/// A record with a fixed wire size, read from a span of exactly that size.
pub trait PackedDataStruct: Sized {
    /// The record's size on the wire.
    spec fn wire_size() -> nat;

    /// `self` holds the fields that the bytes `b`, of the wire size, encode.
    spec fn encoded_by(&self, b: Seq<u8>) -> bool;

    /// Reads the record from the `wire_size()` bytes at `off`.
    fn read_at(buf: &[u8], off: usize) -> (r: Self)
        requires
            off + Self::wire_size() <= buf.len(),
        ensures
            r.encoded_by(buf@.subrange(off as int, off + Self::wire_size())),
    ;

    fn size() -> (r: usize)
        ensures
            r == Self::wire_size(),
    ;

    /// Reads the record from a span that must be exactly its size.
    fn from_bytes(buf: &[u8]) -> (r: Result<Self, TransmuteError>)
        ensures
            r is Ok <==> buf@.len() == Self::wire_size(),
            r matches Ok(v) ==> v.encoded_by(buf@),
    {
        if buf.len() == Self::size() {
            let v = Self::read_at(buf, 0);
            assert(buf@.subrange(0, buf@.len() as int) =~= buf@);
            Ok(v)
        } else {
            Err(TransmuteError)
        }
    }
}

/// Identity and configuration of the device, as its control query returns it.
#[derive(Debug, Clone, Copy, PartialEq, Eq)]
pub struct DeviceInfo {
    pub vendor_id: u16,
    pub product_id: u16,
    pub hw_rev: u32,
    pub fw_rev: u32,
    pub frame_size: u32,
    pub feedback_size: u32,
    pub sensor_mode: u32,
    pub max_touch_points: u8,
    pub spi_frequency: u8,
    pub spi_io_mode: u8,
    pub reserved0: u8,
    pub sensor_minor_eds_rev: u8,
    pub sensor_major_eds_rev: u8,
    pub sensor_eds_intf_rev: u8,
    pub me_eds_intf_rev: u8,
    pub kernel_compat_ver: u8,
    pub reserved1: u8,
    pub reserved2: [u32; 2],
}

impl PackedDataStruct for DeviceInfo {
    open spec fn wire_size() -> nat {
        DEVICE_INFO_SIZE as nat
    }

    /// Two bytes of padding stand at offset 34, before `reserved2`.
    open spec fn encoded_by(&self, b: Seq<u8>) -> bool {
        &&& self.vendor_id == u16_le(b, 0)
        &&& self.product_id == u16_le(b, 2)
        &&& self.hw_rev == u32_le(b, 4)
        &&& self.fw_rev == u32_le(b, 8)
        &&& self.frame_size == u32_le(b, 12)
        &&& self.feedback_size == u32_le(b, 16)
        &&& self.sensor_mode == u32_le(b, 20)
        &&& self.max_touch_points == b[24]
        &&& self.spi_frequency == b[25]
        &&& self.spi_io_mode == b[26]
        &&& self.reserved0 == b[27]
        &&& self.sensor_minor_eds_rev == b[28]
        &&& self.sensor_major_eds_rev == b[29]
        &&& self.sensor_eds_intf_rev == b[30]
        &&& self.me_eds_intf_rev == b[31]
        &&& self.kernel_compat_ver == b[32]
        &&& self.reserved1 == b[33]
        &&& self.reserved2@ == seq![u32_le(b, 36), u32_le(b, 40)]
    }

    fn read_at(buf: &[u8], off: usize) -> (r: Self) {
        let reserved2: [u32; 2] = [read_u32_le(buf, off + 36), read_u32_le(buf, off + 40)];
        let r = DeviceInfo {
            vendor_id: read_u16_le(buf, off),
            product_id: read_u16_le(buf, off + 2),
            hw_rev: read_u32_le(buf, off + 4),
            fw_rev: read_u32_le(buf, off + 8),
            frame_size: read_u32_le(buf, off + 12),
            feedback_size: read_u32_le(buf, off + 16),
            sensor_mode: read_u32_le(buf, off + 20),
            max_touch_points: buf[off + 24],
            spi_frequency: buf[off + 25],
            spi_io_mode: buf[off + 26],
            reserved0: buf[off + 27],
            sensor_minor_eds_rev: buf[off + 28],
            sensor_major_eds_rev: buf[off + 29],
            sensor_eds_intf_rev: buf[off + 30],
            me_eds_intf_rev: buf[off + 31],
            kernel_compat_ver: buf[off + 32],
            reserved1: buf[off + 33],
            reserved2,
        };
        assert(r.reserved2@ =~= seq![
            u32_le(buf@.subrange(off as int, off + 44), 36),
            u32_le(buf@.subrange(off as int, off + 44), 40),
        ]);
        r
    }

    fn size() -> (r: usize) {
        DEVICE_INFO_SIZE
    }
}

/// Driver-private part of a raw frame header.
#[derive(Debug, Clone, Copy, PartialEq, Eq)]
pub struct TouchHidPrivateData {
    pub transaction_id: u32,
    pub reserved: [u8; 28],
}

impl PackedDataStruct for TouchHidPrivateData {
    open spec fn wire_size() -> nat {
        HID_PRIVATE_DATA_SIZE as nat
    }

    open spec fn encoded_by(&self, b: Seq<u8>) -> bool {
        &&& self.transaction_id == u32_le(b, 0)
        &&& self.reserved@ == b.subrange(4, 32)
    }

    fn read_at(buf: &[u8], off: usize) -> (r: Self) {
        let r = TouchHidPrivateData {
            transaction_id: read_u32_le(buf, off),
            reserved: copy_array(buf, off + 4),
        };
        assert(r.reserved@ =~= buf@.subrange(off as int, off + 32).subrange(4, 32));
        r
    }

    fn size() -> (r: usize) {
        HID_PRIVATE_DATA_SIZE
    }
}

/// Header of a raw frame, the outermost unit of the device stream; `data_size`
/// bytes of body follow it.
#[derive(Debug, Clone, Copy, PartialEq, Eq)]
pub struct TouchRawDataHeader {
    pub data_type: u32,
    pub data_size: u32,
    pub buffer_id: u32,
    pub protocol_ver: u32,
    pub kernel_compat_id: u8,
    pub reserved: [u8; 15],
    pub hid_private_data: TouchHidPrivateData,
}

impl PackedDataStruct for TouchRawDataHeader {
    open spec fn wire_size() -> nat {
        RAW_DATA_HEADER_SIZE as nat
    }

    open spec fn encoded_by(&self, b: Seq<u8>) -> bool {
        &&& self.data_type == u32_le(b, 0)
        &&& self.data_size == u32_le(b, 4)
        &&& self.buffer_id == u32_le(b, 8)
        &&& self.protocol_ver == u32_le(b, 12)
        &&& self.kernel_compat_id == b[16]
        &&& self.reserved@ == b.subrange(17, 32)
        &&& self.hid_private_data.encoded_by(b.subrange(32, 64))
    }

    fn read_at(buf: &[u8], off: usize) -> (r: Self) {
        let hid_private_data = TouchHidPrivateData::read_at(buf, off + 32);
        let r = TouchRawDataHeader {
            data_type: read_u32_le(buf, off),
            data_size: read_u32_le(buf, off + 4),
            buffer_id: read_u32_le(buf, off + 8),
            protocol_ver: read_u32_le(buf, off + 12),
            kernel_compat_id: buf[off + 16],
            reserved: copy_array(buf, off + 17),
            hid_private_data,
        };
        let ghost b = buf@.subrange(off as int, off + 64);
        assert(r.reserved@ =~= b.subrange(17, 32));
        assert(buf@.subrange(off + 32, off + 64) =~= b.subrange(32, 64));
        r
    }

    fn size() -> (r: usize) {
        RAW_DATA_HEADER_SIZE
    }
}

/// Header of a raw frame's payload body: `num_frames` payload frames follow.
#[derive(Debug, Clone, Copy, PartialEq, Eq)]
pub struct PayloadHeader {
    pub counter: u32,
    pub num_frames: u32,
    pub reserved: [u8; 4],
}

impl PackedDataStruct for PayloadHeader {
    open spec fn wire_size() -> nat {
        PAYLOAD_HEADER_SIZE as nat
    }

    open spec fn encoded_by(&self, b: Seq<u8>) -> bool {
        &&& self.counter == u32_le(b, 0)
        &&& self.num_frames == u32_le(b, 4)
        &&& self.reserved@ == b.subrange(8, 12)
    }

    fn read_at(buf: &[u8], off: usize) -> (r: Self) {
        let r = PayloadHeader {
            counter: read_u32_le(buf, off),
            num_frames: read_u32_le(buf, off + 4),
            reserved: copy_array(buf, off + 8),
        };
        assert(r.reserved@ =~= buf@.subrange(off as int, off + 12).subrange(8, 12));
        r
    }

    fn size() -> (r: usize) {
        PAYLOAD_HEADER_SIZE
    }
}

/// Header of one payload frame: `payload_len` bytes of body follow it.
#[derive(Debug, Clone, Copy, PartialEq, Eq)]
pub struct PayloadFrameHeader {
    pub num: u16,
    pub ty: u16,
    pub payload_len: u32,
    pub reserved: [u8; 8],
}

impl PackedDataStruct for PayloadFrameHeader {
    open spec fn wire_size() -> nat {
        PAYLOAD_FRAME_HEADER_SIZE as nat
    }

    open spec fn encoded_by(&self, b: Seq<u8>) -> bool {
        &&& self.num == u16_le(b, 0)
        &&& self.ty == u16_le(b, 2)
        &&& self.payload_len == u32_le(b, 4)
        &&& self.reserved@ == b.subrange(8, 16)
    }

    fn read_at(buf: &[u8], off: usize) -> (r: Self) {
        let r = PayloadFrameHeader {
            num: read_u16_le(buf, off),
            ty: read_u16_le(buf, off + 2),
            payload_len: read_u32_le(buf, off + 4),
            reserved: copy_array(buf, off + 8),
        };
        assert(r.reserved@ =~= buf@.subrange(off as int, off + 16).subrange(8, 16));
        r
    }

    fn size() -> (r: usize) {
        PAYLOAD_FRAME_HEADER_SIZE
    }
}

/// Header of a chunk inside a payload frame: `payload_len` bytes of body
/// follow it.
#[derive(Debug, Clone, Copy, PartialEq, Eq)]
pub struct StylusFrameHeader {
    pub ty: u16,
    pub payload_len: u16,
}

impl PackedDataStruct for StylusFrameHeader {
    open spec fn wire_size() -> nat {
        CHUNK_HEADER_SIZE as nat
    }

    open spec fn encoded_by(&self, b: Seq<u8>) -> bool {
        &&& self.ty == u16_le(b, 0)
        &&& self.payload_len == u16_le(b, 2)
    }

    fn read_at(buf: &[u8], off: usize) -> (r: Self) {
        StylusFrameHeader { ty: read_u16_le(buf, off), payload_len: read_u16_le(buf, off + 2) }
    }

    fn size() -> (r: usize) {
        CHUNK_HEADER_SIZE
    }
}

/// Stylus report header that carries the stylus's identifier.
#[derive(Debug, Clone, Copy, PartialEq, Eq)]
pub struct StylusReportHeaderU {
    pub num_reports: u8,
    pub reserved0: u8,
    pub reserved1: [u8; 2],
    pub stylus_uuid: [u8; 4],
}

impl PackedDataStruct for StylusReportHeaderU {
    open spec fn wire_size() -> nat {
        STYLUS_REPORT_HEADER_U_SIZE as nat
    }

    open spec fn encoded_by(&self, b: Seq<u8>) -> bool {
        &&& self.num_reports == b[0]
        &&& self.reserved0 == b[1]
        &&& self.reserved1@ == b.subrange(2, 4)
        &&& self.stylus_uuid@ == b.subrange(4, 8)
    }

    fn read_at(buf: &[u8], off: usize) -> (r: Self) {
        let r = StylusReportHeaderU {
            num_reports: buf[off],
            reserved0: buf[off + 1],
            reserved1: copy_array(buf, off + 2),
            stylus_uuid: copy_array(buf, off + 4),
        };
        let ghost b = buf@.subrange(off as int, off + 8);
        assert(r.reserved1@ =~= b.subrange(2, 4));
        assert(r.stylus_uuid@ =~= b.subrange(4, 8));
        r
    }

    fn size() -> (r: usize) {
        STYLUS_REPORT_HEADER_U_SIZE
    }
}

/// Stylus report header without an identifier.
#[derive(Debug, Clone, Copy, PartialEq, Eq)]
pub struct StylusReportHeaderP {
    pub num_reports: u8,
    pub reserved0: u8,
    pub reserved1: [u8; 2],
}

impl PackedDataStruct for StylusReportHeaderP {
    open spec fn wire_size() -> nat {
        STYLUS_REPORT_HEADER_P_SIZE as nat
    }

    open spec fn encoded_by(&self, b: Seq<u8>) -> bool {
        &&& self.num_reports == b[0]
        &&& self.reserved0 == b[1]
        &&& self.reserved1@ == b.subrange(2, 4)
    }

    fn read_at(buf: &[u8], off: usize) -> (r: Self) {
        let r = StylusReportHeaderP {
            num_reports: buf[off],
            reserved0: buf[off + 1],
            reserved1: copy_array(buf, off + 2),
        };
        assert(r.reserved1@ =~= buf@.subrange(off as int, off + 4).subrange(2, 4));
        r
    }

    fn size() -> (r: usize) {
        STYLUS_REPORT_HEADER_P_SIZE
    }
}

/// Stylus report of the newer generation: every field a 16-bit scalar.
#[derive(Debug, Clone, Copy, PartialEq, Eq)]
pub struct StylusReportData {
    pub timestamp: u16,
    pub mode: u16,
    pub x: u16,
    pub y: u16,
    pub pressure: u16,
    pub altitude: u16,
    pub azimuth: u16,
    pub reserved: u16,
}

impl PackedDataStruct for StylusReportData {
    open spec fn wire_size() -> nat {
        STYLUS_REPORT_GEN2_SIZE as nat
    }

    open spec fn encoded_by(&self, b: Seq<u8>) -> bool {
        &&& self.timestamp == u16_le(b, 0)
        &&& self.mode == u16_le(b, 2)
        &&& self.x == u16_le(b, 4)
        &&& self.y == u16_le(b, 6)
        &&& self.pressure == u16_le(b, 8)
        &&& self.altitude == u16_le(b, 10)
        &&& self.azimuth == u16_le(b, 12)
        &&& self.reserved == u16_le(b, 14)
    }

    fn read_at(buf: &[u8], off: usize) -> (r: Self) {
        StylusReportData {
            timestamp: read_u16_le(buf, off),
            mode: read_u16_le(buf, off + 2),
            x: read_u16_le(buf, off + 4),
            y: read_u16_le(buf, off + 6),
            pressure: read_u16_le(buf, off + 8),
            altitude: read_u16_le(buf, off + 10),
            azimuth: read_u16_le(buf, off + 12),
            reserved: read_u16_le(buf, off + 14),
        }
    }

    fn size() -> (r: usize) {
        STYLUS_REPORT_GEN2_SIZE
    }
}

/// Stylus report of the older generation: unaligned little-endian byte pairs
/// and a one-byte mode.
#[derive(Debug, Clone, Copy, PartialEq, Eq)]
pub struct StylusReportGen1Data {
    pub reserved: [u8; 4],
    pub mode: u8,
    pub x: [u8; 2],
    pub y: [u8; 2],
    pub pressure: [u8; 2],
    pub reserved2: u8,
}

impl PackedDataStruct for StylusReportGen1Data {
    open spec fn wire_size() -> nat {
        STYLUS_REPORT_GEN1_SIZE as nat
    }

    open spec fn encoded_by(&self, b: Seq<u8>) -> bool {
        &&& self.reserved@ == b.subrange(0, 4)
        &&& self.mode == b[4]
        &&& self.x@ == b.subrange(5, 7)
        &&& self.y@ == b.subrange(7, 9)
        &&& self.pressure@ == b.subrange(9, 11)
        &&& self.reserved2 == b[11]
    }

    fn read_at(buf: &[u8], off: usize) -> (r: Self) {
        let r = StylusReportGen1Data {
            reserved: copy_array(buf, off),
            mode: buf[off + 4],
            x: copy_array(buf, off + 5),
            y: copy_array(buf, off + 7),
            pressure: copy_array(buf, off + 9),
            reserved2: buf[off + 11],
        };
        let ghost b = buf@.subrange(off as int, off + 12);
        assert(r.reserved@ =~= b.subrange(0, 4));
        assert(r.x@ =~= b.subrange(5, 7));
        assert(r.y@ =~= b.subrange(7, 9));
        assert(r.pressure@ =~= b.subrange(9, 11));
        r
    }

    fn size() -> (r: usize) {
        STYLUS_REPORT_GEN1_SIZE
    }
}

/// Dimensions of the touch heatmap that accompanies it in a touch frame.
#[derive(Debug, Clone, Copy, PartialEq, Eq)]
pub struct TouchHeatmapDim {
    pub height: u8,
    pub width: u8,
    pub y_min: u8,
    pub y_max: u8,
    pub x_min: u8,
    pub x_max: u8,
    pub z_min: u8,
    pub z_max: u8,
}

impl PackedDataStruct for TouchHeatmapDim {
    open spec fn wire_size() -> nat {
        HEATMAP_DIM_SIZE as nat
    }

    open spec fn encoded_by(&self, b: Seq<u8>) -> bool {
        &&& self.height == b[0]
        &&& self.width == b[1]
        &&& self.y_min == b[2]
        &&& self.y_max == b[3]
        &&& self.x_min == b[4]
        &&& self.x_max == b[5]
        &&& self.z_min == b[6]
        &&& self.z_max == b[7]
    }

    fn read_at(buf: &[u8], off: usize) -> (r: Self) {
        TouchHeatmapDim {
            height: buf[off],
            width: buf[off + 1],
            y_min: buf[off + 2],
            y_max: buf[off + 3],
            x_min: buf[off + 4],
            x_max: buf[off + 5],
            z_min: buf[off + 6],
            z_max: buf[off + 7],
        }
    }

    fn size() -> (r: usize) {
        HEATMAP_DIM_SIZE
    }
}

/// Type of a raw frame, from its header's `data_type`.
#[derive(Debug, Clone, Copy, PartialEq, Eq)]
pub enum TouchDataType {
    /// A body of payload frames: the one type that is decoded.
    Frame,
    Error,
    VendorData,
    HidReport,
    GetFeatures,
}

impl TouchDataType {
    pub open spec fn spec_from_raw(v: u32) -> Option<TouchDataType> {
        if v == 0 {
            Some(TouchDataType::Frame)
        } else if v == 1 {
            Some(TouchDataType::Error)
        } else if v == 2 {
            Some(TouchDataType::VendorData)
        } else if v == 3 {
            Some(TouchDataType::HidReport)
        } else if v == 4 {
            Some(TouchDataType::GetFeatures)
        } else {
            None
        }
    }

    #[verifier::when_used_as_spec(spec_from_raw)]
    pub fn from_raw(v: u32) -> (r: Option<TouchDataType>)
        ensures
            r == Self::spec_from_raw(v),
    {
        match v {
            0 => Some(TouchDataType::Frame),
            1 => Some(TouchDataType::Error),
            2 => Some(TouchDataType::VendorData),
            3 => Some(TouchDataType::HidReport),
            4 => Some(TouchDataType::GetFeatures),
            _ => None,
        }
    }
}

/// Type of a payload frame, from its header's `ty`.
#[derive(Debug, Clone, Copy, PartialEq, Eq)]
pub enum PayloadFrameType {
    Stylus,
    Touch,
}

pub const PAYLOAD_FRAME_TYPE_STYLUS: u16 = 6;
pub const PAYLOAD_FRAME_TYPE_TOUCH: u16 = 8;

impl PayloadFrameType {
    pub open spec fn spec_from_raw(v: u16) -> Option<PayloadFrameType> {
        if v == PAYLOAD_FRAME_TYPE_STYLUS {
            Some(PayloadFrameType::Stylus)
        } else if v == PAYLOAD_FRAME_TYPE_TOUCH {
            Some(PayloadFrameType::Touch)
        } else {
            None
        }
    }

    #[verifier::when_used_as_spec(spec_from_raw)]
    pub fn from_raw(v: u16) -> (r: Option<PayloadFrameType>)
        ensures
            r == Self::spec_from_raw(v),
    {
        if v == PAYLOAD_FRAME_TYPE_STYLUS {
            Some(PayloadFrameType::Stylus)
        } else if v == PAYLOAD_FRAME_TYPE_TOUCH {
            Some(PayloadFrameType::Touch)
        } else {
            None
        }
    }
}

/// Header shape of a newer-generation stylus report chunk: with the stylus's
/// identifier (`ReportU`) or without it (`ReportP`).
#[derive(Debug, Clone, Copy, PartialEq, Eq)]
pub enum StylusFrameType {
    ReportU,
    ReportP,
}

pub const CHUNK_TYPE_HEATMAP_DIM: u16 = 0x0403;
pub const CHUNK_TYPE_HEATMAP: u16 = 0x0425;
pub const CHUNK_TYPE_STYLUS_GEN1: u16 = 0x0410;
pub const CHUNK_TYPE_STYLUS_GEN2_U: u16 = 0x0460;
pub const CHUNK_TYPE_STYLUS_GEN2_P: u16 = 0x0461;

impl StylusFrameType {
    pub open spec fn spec_from_raw(v: u16) -> Option<StylusFrameType> {
        if v == CHUNK_TYPE_STYLUS_GEN2_U {
            Some(StylusFrameType::ReportU)
        } else if v == CHUNK_TYPE_STYLUS_GEN2_P {
            Some(StylusFrameType::ReportP)
        } else {
            None
        }
    }

    #[verifier::when_used_as_spec(spec_from_raw)]
    pub fn from_raw(v: u16) -> (r: Option<StylusFrameType>)
        ensures
            r == Self::spec_from_raw(v),
    {
        if v == CHUNK_TYPE_STYLUS_GEN2_U {
            Some(StylusFrameType::ReportU)
        } else if v == CHUNK_TYPE_STYLUS_GEN2_P {
            Some(StylusFrameType::ReportP)
        } else {
            None
        }
    }
}

/// Type of a chunk inside a payload frame, from its header's `ty`.
#[derive(Debug, Clone, Copy, PartialEq, Eq)]
pub enum ChunkType {
    TouchHeatmapDim,
    TouchHeatmap,
    StylusReportGen1,
    StylusReportGen2(StylusFrameType),
}

impl ChunkType {
    pub open spec fn spec_from_raw(v: u16) -> Option<ChunkType> {
        if v == CHUNK_TYPE_HEATMAP_DIM {
            Some(ChunkType::TouchHeatmapDim)
        } else if v == CHUNK_TYPE_HEATMAP {
            Some(ChunkType::TouchHeatmap)
        } else if v == CHUNK_TYPE_STYLUS_GEN1 {
            Some(ChunkType::StylusReportGen1)
        } else {
            match StylusFrameType::spec_from_raw(v) {
                Some(t) => Some(ChunkType::StylusReportGen2(t)),
                None => None,
            }
        }
    }

    #[verifier::when_used_as_spec(spec_from_raw)]
    pub fn from_raw(v: u16) -> (r: Option<ChunkType>)
        ensures
            r == Self::spec_from_raw(v),
    {
        if v == CHUNK_TYPE_HEATMAP_DIM {
            Some(ChunkType::TouchHeatmapDim)
        } else if v == CHUNK_TYPE_HEATMAP {
            Some(ChunkType::TouchHeatmap)
        } else if v == CHUNK_TYPE_STYLUS_GEN1 {
            Some(ChunkType::StylusReportGen1)
        } else {
            match StylusFrameType::from_raw(v) {
                Some(t) => Some(ChunkType::StylusReportGen2(t)),
                None => None,
            }
        }
    }
}

} // verus!
