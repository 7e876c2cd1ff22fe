use devtool::interface::{
    DeviceInfo, PackedDataStruct, PayloadFrameHeader, PayloadHeader, StylusFrameHeader,
    StylusReportData, StylusReportGen1Data, StylusReportHeaderP, StylusReportHeaderU,
    TouchHeatmapDim, TouchHidPrivateData, TouchRawDataHeader, TransmuteError,
};

#[test]
fn check_type_sizes() {
    assert_eq!(std::mem::size_of::<DeviceInfo>(), 44);

    assert_eq!(std::mem::size_of::<TouchRawDataHeader>(), 64);
    assert_eq!(std::mem::size_of::<TouchHidPrivateData>(), 32);
    assert_eq!(std::mem::size_of::<PayloadHeader>(), 12);
    assert_eq!(std::mem::size_of::<PayloadFrameHeader>(), 16);

    assert_eq!(std::mem::size_of::<StylusFrameHeader>(), 4);
    assert_eq!(std::mem::size_of::<StylusReportHeaderU>(), 8);
    assert_eq!(std::mem::size_of::<StylusReportHeaderP>(), 4);
    assert_eq!(std::mem::size_of::<StylusReportData>(), 16);
}

#[test]
fn wire_sizes_match_the_format() {
    assert_eq!(DeviceInfo::size(), 44);
    assert_eq!(TouchRawDataHeader::size(), 64);
    assert_eq!(TouchHidPrivateData::size(), 32);
    assert_eq!(PayloadHeader::size(), 12);
    assert_eq!(PayloadFrameHeader::size(), 16);
    assert_eq!(StylusFrameHeader::size(), 4);
    assert_eq!(StylusReportHeaderU::size(), 8);
    assert_eq!(StylusReportHeaderP::size(), 4);
    assert_eq!(StylusReportData::size(), 16);
    assert_eq!(StylusReportGen1Data::size(), 12);
    assert_eq!(TouchHeatmapDim::size(), 8);
}

#[test]
fn from_bytes_rejects_a_span_of_the_wrong_length() {
    assert_eq!(PayloadHeader::from_bytes(&[0u8; 11]), Err(TransmuteError));
    assert_eq!(PayloadHeader::from_bytes(&[0u8; 13]), Err(TransmuteError));
    assert_eq!(StylusFrameHeader::from_bytes(&[]), Err(TransmuteError));
}

#[test]
fn from_bytes_reads_little_endian_fields() {
    let h = PayloadFrameHeader::from_bytes(&[
        0x01, 0x02, 0x08, 0x00, 0x10, 0x20, 0x30, 0x40, 1, 2, 3, 4, 5, 6, 7, 8,
    ])
    .unwrap();
    assert_eq!(h.num, 0x0201);
    assert_eq!(h.ty, 8);
    assert_eq!(h.payload_len, 0x4030_2010);
    assert_eq!(h.reserved, [1, 2, 3, 4, 5, 6, 7, 8]);

    let mut b = vec![0u8; 64];
    b[0] = 3;
    b[4] = 0x34;
    b[5] = 0x12;
    b[16] = 9;
    b[32] = 0xff;
    b[35] = 0x01;
    let raw = TouchRawDataHeader::from_bytes(&b).unwrap();
    assert_eq!(raw.data_type, 3);
    assert_eq!(raw.data_size, 0x1234);
    assert_eq!(raw.kernel_compat_id, 9);
    assert_eq!(raw.hid_private_data.transaction_id, 0x0100_00ff);
}

#[test]
fn device_info_skips_the_padding_before_its_last_field() {
    let mut b = vec![0u8; 44];
    b[0] = 0x5e;
    b[1] = 0x04;
    b[2] = 0x52;
    b[3] = 0x09;
    b[24] = 10;
    b[34] = 0xaa;
    b[35] = 0xaa;
    b[36] = 7;
    b[40] = 9;
    let info = DeviceInfo::from_bytes(&b).unwrap();
    assert_eq!(info.vendor_id, 0x045e);
    assert_eq!(info.product_id, 0x0952);
    assert_eq!(info.max_touch_points, 10);
    assert_eq!(info.reserved2, [7, 9]);
}
