use wg::checksum::{checksum, checksum_no_fold, pseudo_header_checksum_no_fold};
use wg::offload::{TcpFlowKey, TcpGROTable, TunError, VirtioNetHdr, IDEAL_BATCH_SIZE};

#[test]
fn checksum_known_values() {
    assert_eq!(checksum_no_fold(&[], 0), 0);
    assert_eq!(checksum_no_fold(&[], 7), 7);
    assert_eq!(checksum_no_fold(&[0xab], 0), 0xab00);
    assert_eq!(checksum_no_fold(&[0x00, 0x01], 0), 1);
    let pkt = [
        0x45u8, 0x00, 0x00, 0x1c, 0x00, 0x01, 0x00, 0x00, 0x40, 0x11, 0x00, 0x00, 192, 168, 0, 1,
        192, 168, 0, 2,
    ];
    assert_eq!(checksum_no_fold(&pkt, 0), 8697020447);
    assert_eq!(checksum(&pkt, 0), 0x683);
    assert_eq!(checksum(&[], 0), 0);
}

#[test]
fn pseudo_header_known_value() {
    let sum = pseudo_header_checksum_no_fold(6, &[192, 168, 0, 1], &[192, 168, 0, 2], 20);
    assert_eq!(sum, 6464471069);
}

#[test]
fn virtio_header_round_trip() {
    let h = VirtioNetHdr {
        flags: 1,
        gso_type: 3,
        hdr_len: 54,
        gso_size: 1448,
        csum_start: 34,
        csum_offset: 16,
    };
    let mut buf = vec![0u8; 12];
    h.encode(&mut buf).unwrap();
    let d = VirtioNetHdr::decode(&buf).unwrap();
    assert_eq!(d, h);
    assert_eq!(VirtioNetHdr::decode(&buf[..9]).unwrap_err(), TunError::ShortBuffer);
    let mut small = vec![0u8; 9];
    assert_eq!(h.encode(&mut small).unwrap_err(), TunError::ShortBuffer);
}

#[test]
fn tcp_flow_key_fields() {
    // a fabricated v6-shaped packet: addresses at 8 and 24, tcp at 40
    let mut pkt = vec![0u8; 64];
    for i in 0..16 {
        pkt[8 + i] = 0x10 + i as u8;
        pkt[24 + i] = 0x30 + i as u8;
    }
    pkt[40] = 0x1f;
    pkt[41] = 0x90;  // src port 8080
    pkt[42] = 0x01;
    pkt[43] = 0xbb;  // dst port 443
    pkt[48] = 0x12;
    pkt[49] = 0x34;
    pkt[50] = 0x56;
    pkt[51] = 0x78;  // ack
    let k = TcpFlowKey::new(&pkt, 8, 24, 40);
    assert_eq!(k.src_addr, pkt[8..24].to_vec());
    assert_eq!(k.dst_addr, pkt[24..40].to_vec());
    assert_eq!(k.src_port, 8080);
    assert_eq!(k.dst_port, 443);
    assert_eq!(k.rx_ack, 0x12345678);
    assert!(k.is_v6);
}

#[test]
fn gro_table_starts_empty_with_full_pool() {
    let t = TcpGROTable::new();
    assert_eq!(t.items_by_flow.len(), 0);
    assert_eq!(t.items_pool.len(), IDEAL_BATCH_SIZE);
    assert!(t.items_pool.iter().all(|v| v.is_empty()));
}

#[test]
fn host_facing_enums() {
    assert_eq!(wg::Event::Up.mask(), 1);
    assert_eq!(wg::Event::Down.mask(), 2);
    assert_eq!(wg::Event::MTUUpdate.mask(), 4);
    assert_eq!(wg::offload::TcpFlag::Fin.bit(), 0x01);
    assert_eq!(wg::offload::TcpFlag::Psh.bit(), 0x08);
    assert_eq!(wg::offload::TcpFlag::Ack.bit(), 0x10);
    assert_ne!(wg::LogLevel::Silent, wg::LogLevel::Verbose);
}
