//! Packet, checksum, transport-decision, chunking and descriptor tests.

use lamzu_cfg::checksum::Algorithm;
use lamzu_cfg::checksum::Checksum;
use lamzu_cfg::checksum::SumComplement8;
use lamzu_cfg::compute_checksum;
use lamzu_cfg::device::has_report;
use lamzu_cfg::device::Product;
use lamzu_cfg::profile_rw::read_plan;
use lamzu_cfg::profile_rw::write_plan;
use lamzu_cfg::raw_profile::Segment;
use lamzu_cfg::report::accept_response;
use lamzu_cfg::Error;
use lamzu_cfg::StandardReport;

fn sum(bytes: &[u8]) -> u32 {
    bytes.iter().map(|b| *b as u32).sum()
}

#[test]
fn packet_bytes_sum_to_zero() {
    // Every outbound request's 17 bytes sum to 0 modulo 256.
    let requests = vec![
        StandardReport::read_profile_data(0x0123, 10),
        StandardReport::write_profile_data(0x1aff, vec![1, 2, 3]),
        StandardReport::read_active_profile(),
        StandardReport::write_active_profile(3),
    ];
    for request in &requests {
        let bytes = request.encode();
        assert_eq!(bytes.len(), 17);
        assert_eq!(sum(&bytes) % 256, 0);
    }
}

#[test]
fn packet_layout() {
    let bytes = StandardReport::read_profile_data(0x0123, 4).encode();
    assert_eq!(bytes[0], 8); // report ID
    assert_eq!(bytes[1], 8); // ReadProfileData command
    assert_eq!(bytes[2], 0); // no error
    assert_eq!(bytes[3], 0x01); // address high byte
    assert_eq!(bytes[4], 0x23); // address low byte
    assert_eq!(bytes[5], 4); // data length
    assert_eq!(&bytes[6..16], &[0u8; 10]); // zero data and padding

    let bytes = StandardReport::write_active_profile(2).encode();
    assert_eq!(bytes[1], 15);
    assert_eq!(bytes[5], 1);
    assert_eq!(bytes[6], 2);
}

#[test]
fn packet_round_trip() {
    let request = StandardReport::write_profile_data(0x0300, vec![9, 8, 7, 6]);
    let bytes = request.encode();
    let decoded = StandardReport::decode(&bytes).unwrap();
    assert!(decoded.is_valid_response_for(&request));
    assert_eq!(decoded.into_data().unwrap(), vec![9, 8, 7, 6]);
}

#[test]
fn bad_packet_checksum_rejected() {
    // An inbound report whose bytes sum to a non-zero residue is rejected.
    let mut bytes = StandardReport::read_active_profile().encode();
    bytes[16] = bytes[16].wrapping_add(1);
    assert!(matches!(StandardReport::decode(&bytes), Err(Error::BadChecksum)));
}

#[test]
fn wrong_report_id_rejected() {
    let mut bytes = StandardReport::read_active_profile().encode();
    bytes[0] = 7;
    assert!(matches!(StandardReport::decode(&bytes), Err(Error::UnexpectedReport)));
}

#[test]
fn unknown_command_rejected() {
    let mut bytes = StandardReport::read_active_profile().encode();
    bytes[1] = 99;
    // Fix the checksum so only the command byte is wrong.
    bytes[16] = 0;
    let c = (256 - sum(&bytes[..16]) % 256) % 256;
    bytes[16] = c as u8;
    assert!(matches!(
        StandardReport::decode(&bytes),
        Err(Error::InvalidConversion(_))
    ));
}

#[test]
fn mismatched_response_skipped() {
    // A response whose command differs from the request is skipped, not
    // errored; the caller may then attempt further reads.
    let request = StandardReport::read_profile_data(0, 4);
    let unrelated = StandardReport::read_active_profile().encode();
    assert!(matches!(accept_response(&request, &unrelated), Ok(None)));

    // A wrong report ID is skipped too.
    let mut foreign = StandardReport::read_profile_data(0, 4).encode();
    foreign[0] = 3;
    assert!(matches!(accept_response(&request, &foreign), Ok(None)));

    // A checksum failure is surfaced immediately.
    let mut bad = StandardReport::read_profile_data(0, 4).encode();
    bad[10] = bad[10].wrapping_add(1);
    assert!(matches!(accept_response(&request, &bad), Err(Error::BadChecksum)));

    // A matching response is accepted.
    let matching = StandardReport::read_profile_data(0, 4).encode();
    let accepted = accept_response(&request, &matching).unwrap().unwrap();
    assert!(accepted.is_valid_response_for(&request));
}

#[test]
fn mouse_error_code_surfaced() {
    // A response with a non-zero error byte surfaces the byte.
    let mut bytes = StandardReport::read_active_profile().encode();
    bytes[2] = 5;
    bytes[16] = 0;
    let c = (256 - sum(&bytes[..16]) % 256) % 256;
    bytes[16] = c as u8;
    let report = StandardReport::decode(&bytes).unwrap();
    assert_eq!(report.data(), Err(Error::MouseErrorResponse(5)));
    assert_eq!(report.into_data(), Err(Error::MouseErrorResponse(5)));
}

#[test]
fn sum_complement_accumulator() {
    // The slot accumulator consumes bytes by wrapping subtraction from its
    // seed; a region followed by its checksum accumulates to zero.
    let mut acc = SumComplement8::new(171);
    acc.write(&[2]);
    assert_eq!(acc.finish(), 169);
    acc.write(&[169]);
    assert!(acc.is_valid());

    let mut packet = Checksum::new();
    packet.write(&[1, 2, 3]);
    assert_eq!(packet.checksum(), 250);
    assert_eq!(compute_checksum(&[1, 2, 3]), 250);
    assert_eq!(compute_checksum(&[1, 2, 3, 250]), 0);
}

#[test]
fn read_plan_chunks() {
    // 25 bytes from offset 0 need three chunks of 10, 10 and 5.
    assert_eq!(read_plan(0, 25), vec![(0, 10), (10, 10), (20, 5)]);
    // Requests never cross the 0x1B00 end of profile memory.
    assert_eq!(read_plan(0x1afb, 100), vec![(0x1afb, 5)]);
    assert_eq!(read_plan(0x1b00, 10), vec![]);
    assert_eq!(read_plan(5, 0), vec![]);
}

#[test]
fn write_plan_chunks() {
    let segment = Segment { address: 0x100, bytes: (0u8..23).collect() };
    let chunks = write_plan(&segment);
    assert_eq!(chunks.len(), 3);
    assert_eq!(chunks[0], (0x100, (0u8..10).collect::<Vec<u8>>()));
    assert_eq!(chunks[1], (0x10a, (10u8..20).collect::<Vec<u8>>()));
    assert_eq!(chunks[2], (0x114, (20u8..23).collect::<Vec<u8>>()));

    // Bytes past the end of profile memory are never written.
    let segment = Segment { address: 0x1afe, bytes: vec![1, 2, 3, 4] };
    assert_eq!(write_plan(&segment), vec![(0x1afe, vec![1, 2])]);
}

#[test]
fn report_descriptor_scan() {
    // A report-ID item (prefix 0x85, one data byte) with value 8 matches.
    assert!(has_report(&[0x85, 0x08], 8));
    assert!(!has_report(&[0x85, 0x07], 8));
    // Other items are skipped by their size class: low two bits encode
    // 0, 1, 2 or 4 data bytes.
    assert!(has_report(&[0x06, 0xaa, 0xbb, 0x85, 0x08], 8));
    assert!(has_report(&[0x03, 1, 2, 3, 4, 0x85, 0x08], 8));
    assert!(!has_report(&[0x01, 0x85, 0x08], 8));
    // A long item ends the scan.
    assert!(!has_report(&[0xfe, 0x02, 0x00, 0x85, 0x08], 8));
    // A truncated descriptor yields nothing.
    assert!(!has_report(&[0x85], 8));
    assert!(!has_report(&[], 8));
}

#[test]
fn product_identification() {
    assert_eq!(
        Product::from_usb_product(0xf50d),
        Some(Product::AtlantisWireless1K)
    );
    assert_eq!(
        Product::from_usb_product(0xf510),
        Some(Product::AtlantisWireless4K)
    );
    assert_eq!(Product::from_usb_product(0xf50f), Some(Product::AtlantisWired));
    assert_eq!(Product::from_usb_product(0x1234), None);
    assert_eq!(Product::AtlantisWireless1K.max_poll_rate(), 1000);
    assert_eq!(Product::AtlantisWireless4K.max_poll_rate(), 4000);
    assert_eq!(Product::AtlantisWired.max_poll_rate(), 1000);
    assert_eq!(Product::default(), Product::AtlantisWireless4K);
}
