use sipnab::net::{IpAddr, SocketAddr};
use sipnab::packet::{frame_digest, Timestamp};
use sipnab::pipeline::apply::{process_packet, reconstruct, PacketCounts, StoreOp};
use sipnab::pipeline::classify::{
    classify_packet, is_rtcp_packet, try_websocket_unwrap, MediaDecrypt, PacketAction, ParsedPacket,
    ParsedSip, PipelineOptions, Question, Reply, SkipTallies, Step, WsFrame,
};
use sipnab::pipeline::evidence::{
    icmp_evidence_for, icmp_evidence_report, icmp_media_findings, icmp_media_queries,
    icmp_media_report, publish_icmp_media_for_test, record_icmp_error, reset_icmp_evidence,
    resolve_icmp_media, IcmpStores, ResolvedIcmpMedia,
};
use sipnab::pipeline::icmp::{IcmpQuote, TransportProto, MAX_ICMP_PER_CALL_ID};
use sipnab::pipeline::links::{
    apply_relay_control_links, apply_relay_snapshot, extract_sdp_links, Connection,
    EndpointAssertion, InputOrigin, RelayLink, RelaySnapshot, SdpLink, SdpMedia, SdpProvenance,
    SdpSession,
};
use sipnab::pipeline::media::{
    FlowAnswer, IcmpMediaReport, MediaAttribution, MediaIcmpFinding, MediaMatch,
};
use sipnab::pipeline::quote::{
    quoted_header, quoted_media_kind, quoted_sip_prefix, QuotedMediaKind,
};
use sipnab::pipeline::skips::{
    port_in_range, portrange_skip_report, record_portrange_skip, record_ws_port_skip,
    reset_portrange_skips, reset_ws_port_skips, ws_port_skip_report, PortrangeSkips, WsPortSkips,
};

type Action = PacketAction<String, (), u32, u32>;

const AT: Timestamp = Timestamp { nanos: 1_700_000_000_000_000_000 };

fn packet(payload: &[u8]) -> ParsedPacket {
    ParsedPacket {
        timestamp: AT,
        src_addr: IpAddr::v4(10, 0, 0, 1),
        dst_addr: IpAddr::v4(10, 0, 0, 2),
        src_port: 5060,
        dst_port: 5060,
        transport: TransportProto::Udp,
        payload: payload.to_vec(),
        input_origin: InputOrigin::Wire,
    }
}

fn malformed_sip() -> ParsedPacket {
    packet(b"SIP/2.0 XYZ Bad Status\r\n\r\n")
}

fn valid_invite() -> ParsedPacket {
    packet(
        b"INVITE sip:bob@example.com SIP/2.0\r\n\
          Via: SIP/2.0/UDP 10.0.0.1:5060;branch=z9hG4bKq1\r\n\
          From: <sip:alice@example.com>;tag=q1\r\n\
          To: <sip:bob@example.com>\r\n\
          Call-ID: quiet-parse@test\r\n\
          CSeq: 1 INVITE\r\n\
          Content-Length: 0\r\n\r\n",
    )
}

/// Whether a payload alone looks like RTP.
fn looks_like_rtp(p: &[u8]) -> bool {
    p.len() >= 12 && p[0] >> 6 == 2 && !(72..=76).contains(&(p[1] & 0x7f))
}

fn no_frame() -> WsFrame {
    WsFrame { unwrapped: None, starts_sip: false, on_ws_port: false, configured: String::new() }
}

/// A plain answer to what classification asks, from the bytes alone.
fn reply_to(q: Question, pp: &ParsedPacket, payload: &[u8]) -> Reply<String, (), u32, u32> {
    match q {
        Question::WebSocket => Reply::WebSocket(no_frame()),
        Question::StartsSip => {
            Reply::StartsSip(payload.starts_with(b"SIP/2.0 ") || payload.starts_with(b"INVITE "))
        }
        Question::ParseSip => Reply::ParseSip(if payload.starts_with(b"INVITE ") {
            Some(ParsedSip { msg: "INVITE".to_string(), sdp: None })
        } else {
            None
        }),
        Question::Llmnr => Reply::Llmnr(pp.src_port == 5355 || pp.dst_port == 5355),
        Question::DeliveredRelay => Reply::DeliveredRelay(None),
        Question::SniffedRelay => Reply::SniffedRelay(None),
        Question::Dtls => Reply::Dtls(false),
        Question::ChannelData => Reply::ChannelData(
            if payload.len() >= 4 && payload[0] >> 6 == 1 {
                let n = usize::from(u16::from_be_bytes([payload[2], payload[3]]));
                payload.get(4..4 + n).map(|p| p.to_vec())
            } else {
                None
            },
        ),
        Question::Stun => Reply::Stun(false),
        Question::Rtcp => Reply::Rtcp(Some(1)),
        Question::StrictRtp => Reply::StrictRtp(if looks_like_rtp(payload) {
            Some((2, None))
        } else {
            None
        }),
        Question::Heuristic => Reply::Heuristic(None),
    }
}

/// Classify a packet, and say whether a bad parse was reported.
fn classify_from(mut pp: ParsedPacket, opts: &PipelineOptions) -> (Action, bool) {
    let mut skips = SkipTallies::new();
    loop {
        let (mut state, mut question) = classify_packet(&pp);
        let inside = loop {
            let reply = reply_to(question, &pp, &state.effective_payload(&pp).clone());
            match state.answer(&pp, opts, reply, &mut skips).step {
                Step::Ask(next) => question = next,
                Step::Done { action, report_bad_parse } => return (action, report_bad_parse),
                Step::Inside(payload) => break payload,
            }
        };
        pp.payload = inside;
    }
}

fn classify_on(payload: &[u8], src_port: u16, dst_port: u16) -> Action {
    let pp = ParsedPacket { src_port, dst_port, ..packet(payload) };
    classify_from(pp, &PipelineOptions::default()).0
}

#[test]
fn an_llmnr_query_is_claimed_before_any_media_check() {
    let query: &[u8] = &[
        0x80, 0x06, 0x00, 0x00, 0x00, 0x01, 0x00, 0x00, 0x00, 0x00, 0x00, 0x00, 0x05, b'G', b'H',
        b'S', b'0', b'8', 0x00, 0x00, 0x01, 0x00, 0x01,
    ];
    assert_eq!(query[0] >> 6, 2, "the ID really does carry RTP's version");
    assert!(
        matches!(classify_on(query, 55000, 5355), PacketAction::Nothing),
        "LLMNR must be consumed, not turned into a stream"
    );
}

#[test]
fn rtp_relayed_through_turn_is_classified_as_media() {
    let mut rtp = vec![0x80, 0x00, 0x00, 0x01];
    rtp.extend_from_slice(&[0x00, 0x00, 0x10, 0x00]);
    rtp.extend_from_slice(&[0xde, 0xad, 0xbe, 0xef]);
    rtp.extend_from_slice(&[0xaa; 160]);
    let bare_action = classify_on(&rtp, 40000, 40002);

    let mut wrapped = vec![0x40, 0x01];
    wrapped.extend_from_slice(&(rtp.len() as u16).to_be_bytes());
    wrapped.extend_from_slice(&rtp);
    let wrapped_action = classify_on(&wrapped, 40000, 40002);

    assert_eq!(
        std::mem::discriminant(&bare_action),
        std::mem::discriminant(&wrapped_action),
        "relayed media must classify as the same thing as direct media"
    );
    assert!(
        !matches!(wrapped_action, PacketAction::Nothing),
        "TURN-relayed RTP was dropped, so a relayed call reports as having no media"
    );
    assert!(
        !matches!(bare_action, PacketAction::Nothing),
        "the control must itself be media, or this test proves nothing"
    );
}

#[test]
fn a_dns_response_is_not_an_rtp_stream() {
    let mut dns = vec![0x80u8, 0x81, 0x00, 0x01, 0x00, 0x01, 0x00, 0x00, 0x00, 0x00];
    dns.extend_from_slice(&[0x03, b'w', b'w', b'w', 0x00, 0x00, 0x01, 0x00, 0x01]);
    assert!(
        looks_like_rtp(&dns),
        "precondition: this payload does fool the payload-only check, \
         which is the whole reason the port guard exists"
    );
    assert!(
        matches!(classify_on(&dns, 53, 44326), PacketAction::Nothing),
        "a single DNS packet must not become an RTP stream"
    );
    assert!(
        matches!(classify_on(&dns, 44326, 53), PacketAction::Nothing),
        "a query to port 53 must not become an RTP stream either"
    );
}

#[test]
fn rtp_on_a_dynamic_port_is_still_recognized_immediately() {
    let mut rtp = vec![0x80u8, 0x00];
    rtp.extend_from_slice(&[0x00, 0x01]);
    rtp.extend_from_slice(&[0x00, 0x00, 0x00, 0x00]);
    rtp.extend_from_slice(&[0xDE, 0xAD, 0xBE, 0xEF]);
    rtp.extend_from_slice(&[0u8; 160]);
    assert!(
        matches!(
            classify_on(&rtp, 20000, 20002),
            PacketAction::Rtp { via_heuristic: false, .. }
        ),
        "media on a dynamic port must still be recognized from one packet"
    );
}

#[test]
fn muxed_rtcp_on_even_port_is_recognized() {
    let rr = [0x80u8, 201, 0, 1, 0, 0, 0, 1];
    assert!(
        is_rtcp_packet(&rr, 5000),
        "well-formed muxed RTCP on an even port must be recognized (RFC 5761)"
    );
    assert!(
        !is_rtcp_packet(&[0x80, 200, 0, 6, 0, 0, 0, 1], 5000),
        "inconsistent length field on an even port is not RTCP"
    );
    assert!(!is_rtcp_packet(&[0x80, 200, 0, 0, 0, 0, 0, 0], 5000));
    assert!(is_rtcp_packet(&rr, 5001));
    assert!(is_rtcp_packet(&[0x80, 200, 0, 6, 0, 0, 0, 1], 30001));
}

#[test]
fn default_reports_bad_parse() {
    let (action, reported) = classify_from(malformed_sip(), &PipelineOptions::default());
    assert!(matches!(action, PacketAction::Nothing), "bad parse → Nothing");
    assert!(reported, "default must emit the bad-parse diagnostic");
}

#[test]
fn quiet_flag_suppresses_diagnostic() {
    let opts = PipelineOptions { quiet_bad_parse: true, ..Default::default() };
    let (action, reported) = classify_from(malformed_sip(), &opts);
    assert!(matches!(action, PacketAction::Nothing), "still dropped");
    assert!(!reported, "quiet_bad_parse must silence the diagnostic");
}

#[test]
fn quiet_flag_does_not_affect_valid_sip() {
    let opts = PipelineOptions { quiet_bad_parse: true, ..Default::default() };
    let (action, reported) = classify_from(valid_invite(), &opts);
    assert!(
        matches!(action, PacketAction::Sip { .. }),
        "valid INVITE must still classify as Sip"
    );
    assert!(!reported);
    let none: MediaDecrypt<u8, u8> = MediaDecrypt::default();
    assert!(none.srtp.is_none() && none.dtls.is_none());
}

#[test]
fn media_is_left_alone_where_it_is_opted_out() {
    let mut rtp = vec![0x80u8, 0x00];
    rtp.extend_from_slice(&[0u8; 170]);
    let pp = ParsedPacket { src_port: 20000, dst_port: 20002, ..packet(&rtp) };
    let opts = PipelineOptions { no_rtp: true, ..Default::default() };
    assert!(matches!(classify_from(pp, &opts).0, PacketAction::Nothing));
}

#[test]
fn signaling_outside_the_range_is_counted_and_skipped() {
    let pp = ParsedPacket { src_port: 40000, dst_port: 5999, ..valid_invite() };
    let opts = PipelineOptions { sip_portrange: Some((5060, 5061)), ..Default::default() };
    let mut skips = SkipTallies::new();
    let (mut state, mut question) = classify_packet(&pp);
    let mut warned = None;
    loop {
        let reply = reply_to(question, &pp, &pp.payload);
        let stepped = state.answer(&pp, &opts, reply, &mut skips);
        warned = warned.or(stepped.warning);
        match stepped.step {
            Step::Ask(next) => question = next,
            Step::Done { action, .. } => {
                assert!(!matches!(action, PacketAction::Sip { .. }));
                break;
            }
            Step::Inside(_) => panic!("nothing is relayed here"),
        }
    }
    assert_eq!(
        warned.as_deref(),
        Some(
            "SIP outside --portrange 5060-5061 is being skipped: 1 message(s) so far, in no \
             count, no dialog, and no output. Busiest port(s): 5999 (1). Re-run with a range \
             that covers them (e.g. --portrange 1-65535) to analyze them."
        )
    );
    let report = portrange_skip_report(&skips.portrange);
    assert_eq!((report.messages, report.ports.len()), (1, 1));
    assert_eq!((report.ports[0].port, report.ports[0].messages), (5999, 1));
}

#[test]
fn skips_are_ranked_warned_of_and_reset() {
    let range = (5060, 5060);
    let mut skips = PortrangeSkips::new();
    let mut warnings = 0;
    for i in 0..100u32 {
        let port = if i % 3 == 0 { 6000 } else { 7000 };
        if record_portrange_skip(&mut skips, 40000, port, b"INVITE x", range).is_some() {
            warnings += 1;
        }
    }
    assert_eq!(warnings, 3, "at 1, 10 and 100");
    record_portrange_skip(&mut skips, 6000, 40000, b"SIP/2.0 200 OK", range);
    let report = portrange_skip_report(&skips);
    assert_eq!(report.messages, 101);
    let ports: Vec<(u16, u64)> = report.ports.iter().map(|p| (p.port, p.messages)).collect();
    assert_eq!(ports, vec![(7000, 66), (6000, 35)], "a response counts for its source");
    reset_portrange_skips(&mut skips);
    assert_eq!(portrange_skip_report(&skips).messages, 0);

    let mut ws = WsPortSkips::new();
    let said = record_ws_port_skip(&mut ws, 1, 9090, b"INVITE x", "80, 443").expect("the first");
    assert!(said.contains("WebSocket port set (80, 443)"), "{said}");
    assert_eq!(ws_port_skip_report(&ws).messages, 1);
    reset_ws_port_skips(&mut ws);
    assert_eq!(ws_port_skip_report(&ws).messages, 0);
    assert!(port_in_range(1, 5060, range) && port_in_range(5060, 1, range));
    assert!(!port_in_range(5059, 5061, range));
}

#[test]
fn a_websocket_frame_is_unwrapped_on_its_ports_only() {
    let pp = ParsedPacket {
        transport: TransportProto::Tcp,
        src_port: 40000,
        dst_port: 9090,
        ..packet(b"frame")
    };
    let frame = |on_ws_port| WsFrame {
        unwrapped: Some(b"INVITE sip:x SIP/2.0\r\n".to_vec()),
        starts_sip: true,
        on_ws_port,
        configured: "80, 443".to_string(),
    };
    let mut skips = WsPortSkips::new();
    let (inside, warning) = try_websocket_unwrap(&pp, frame(true), &mut skips);
    assert_eq!(inside.as_deref(), Some(&b"INVITE sip:x SIP/2.0\r\n"[..]));
    assert!(warning.is_none());
    let (inside, warning) = try_websocket_unwrap(&pp, frame(false), &mut skips);
    assert!(inside.is_none());
    assert!(warning.is_some());
    assert_eq!(ws_port_skip_report(&skips).messages, 1);
}

// ── Links ────────────────────────────────────────────────────────────

fn link(ip: IpAddr, port: u16, call_id: &str) -> SdpLink<()> {
    SdpLink {
        ip,
        port,
        call_id: call_id.to_string(),
        media: SdpMedia { connection: Connection::Absent, port, description: () },
    }
}

#[test]
fn relay_control_links_reach_the_store_as_a_relay_assertion() {
    let orders =
        apply_relay_control_links(vec![link(IpAddr::v4(10, 0, 0, 40), 38664, "cid1")], InputOrigin::Hep, AT);
    assert_eq!(orders.len(), 1, "the endpoint must be registered");
    assert_eq!(orders[0].link.ip, IpAddr::v4(10, 0, 0, 40));
    let provenance = &orders[0].provenance;
    assert_eq!(
        provenance.asserted_by,
        EndpointAssertion::MediaRelay,
        "an ng endpoint is the relay's assertion about its own allocation"
    );
    assert_eq!(
        provenance.origin,
        Some(InputOrigin::Hep),
        "and the transport it arrived over is recorded independently"
    );
}

#[test]
fn a_snapshot_is_the_relays_word_and_has_no_capture_source() {
    let links = || {
        vec![RelayLink {
            address: IpAddr::v4(10, 0, 0, 2),
            port: 30000,
            call_id: "already-in-progress".to_string(),
        }]
    };
    let orders = apply_relay_snapshot(RelaySnapshot { links: links(), taken_at: Some(AT) });
    assert_eq!(orders.len(), 1);
    assert_eq!(orders[0].link.call_id, "already-in-progress");
    assert_eq!(orders[0].provenance.asserted_by, EndpointAssertion::MediaRelay);
    assert_eq!(orders[0].provenance.origin, None);
    assert_eq!(orders[0].provenance.at, AT);
    let never = apply_relay_snapshot(RelaySnapshot { links: links(), taken_at: None });
    assert!(never.is_empty(), "a relay that was never asked said nothing");
    let observed = SdpProvenance::observed(InputOrigin::Wire, AT);
    assert_eq!(observed.asserted_by, EndpointAssertion::Signaled);
}

#[test]
fn media_lines_give_links_where_they_have_an_address() {
    let media = |connection, port| SdpMedia { connection, port, description: () };
    let session = SdpSession {
        connection: Connection::Ip(IpAddr::v4(10, 0, 0, 1)),
        media: vec![
            media(Connection::Absent, 4000),
            media(Connection::Ip(IpAddr::v4(10, 0, 0, 9)), 4002),
            media(Connection::Name, 4004),
        ],
    };
    let links = extract_sdp_links(session, "call");
    let ends: Vec<(IpAddr, u16)> = links.iter().map(|l| (l.ip, l.port)).collect();
    assert_eq!(ends[0], (IpAddr::v4(10, 0, 0, 1), 4000));
    assert_eq!(ends[1], (IpAddr::v4(10, 0, 0, 9), 4002));
    assert_eq!(ends.len(), 2, "a host name is no address");
    assert!(links.iter().all(|l| l.call_id == "call"));
}

#[test]
fn every_action_becomes_its_store_operations() {
    let sip = || PacketAction::Sip {
        msg: "m".to_string(),
        sdp_links: vec![link(IpAddr::v4(1, 2, 3, 4), 4000, "c")],
    };
    let ops = process_packet::<String, (), u32, u32>(sip(), false, InputOrigin::Wire, AT, false);
    assert!(ops.iter().any(|o| matches!(o, StoreOp::Message(m) if m == "m")));
    assert!(ops.iter().any(
        |o| matches!(o, StoreOp::Link(l) if l.provenance.asserted_by == EndpointAssertion::Signaled)
    ));
    let untold = process_packet::<String, (), u32, u32>(sip(), true, InputOrigin::Wire, AT, false);
    assert!(untold.is_empty(), "nothing is recorded of an untracked message");
    let rtp = PacketAction::Rtp { hdr: 7, decrypted_payload: Some(vec![1]), via_heuristic: true };
    let ops = process_packet::<String, (), u32, u32>(rtp, false, InputOrigin::Wire, AT, true);
    assert!(matches!(
        &ops[..],
        [StoreOp::Rtp { hdr: 7, payload: Some(_) }, StoreOp::OfferOrphans]
    ));
    let mut counts = PacketCounts { sip: 0, rtp: 0 };
    reconstruct::<String, (), u32, u32>(sip(), false, InputOrigin::Wire, AT, &mut counts);
    let relay = PacketAction::RelayControl { sdp_links: vec![link(IpAddr::v4(1, 2, 3, 4), 4, "c")] };
    let ops = reconstruct::<String, (), u32, u32>(relay, false, InputOrigin::Hep, AT, &mut counts);
    assert!(matches!(
        &ops[..],
        [StoreOp::Link(l)] if l.provenance.asserted_by == EndpointAssertion::MediaRelay
    ));
    let rtp = PacketAction::Rtp { hdr: 7, decrypted_payload: None, via_heuristic: false };
    let ops = reconstruct::<String, (), u32, u32>(rtp, false, InputOrigin::Wire, AT, &mut counts);
    assert!(matches!(&ops[..], [StoreOp::Rtp { hdr: 7, payload: None }]));
    assert_eq!((counts.sip, counts.rtp), (1, 1));
}

#[test]
fn a_frame_digest_is_the_published_hash() {
    assert_eq!(frame_digest(b""), 0xcbf2_9ce4_8422_2325);
    assert_eq!(frame_digest(b"a"), 0xaf63_dc4c_8601_ec8c);
    assert_eq!(frame_digest(b"foobar"), 0x8594_4171_f739_67e8);
}

// ── Quotes ───────────────────────────────────────────────────────────

#[test]
fn an_rtp_header_yields_its_ssrc_and_payload_type() {
    let mut p = vec![0x80u8, 8];
    p.extend_from_slice(&7u16.to_be_bytes());
    p.extend_from_slice(&1600u32.to_be_bytes());
    p.extend_from_slice(&0x1234_5678u32.to_be_bytes());
    p.extend_from_slice(&[0u8; 160]);
    assert_eq!(
        quoted_media_kind(&p),
        QuotedMediaKind::Rtp { ssrc: 0x1234_5678, payload_type: 8 }
    );
}

#[test]
fn an_rtcp_sender_report_yields_its_ssrc() {
    let mut p = vec![0x80u8, 200];
    p.extend_from_slice(&6u16.to_be_bytes());
    p.extend_from_slice(&0x00C0_FFEEu32.to_be_bytes());
    p.extend_from_slice(&[0u8; 20]);
    assert_eq!(
        quoted_media_kind(&p),
        QuotedMediaKind::Rtcp { ssrc: 0x00C0_FFEE, packet_type: 200 }
    );
}

#[test]
fn an_empty_quote_is_unread_not_not_media() {
    assert_eq!(quoted_media_kind(&[]), QuotedMediaKind::Unread);
}

#[test]
fn a_quote_too_short_for_an_ssrc_is_unread() {
    assert_eq!(
        quoted_media_kind(&[0x80, 0x00, 0x00, 0x01, 0x00, 0x00]),
        QuotedMediaKind::Unread
    );
}

#[test]
fn a_dns_query_is_not_media() {
    let dns = [0x12u8, 0x34, 0x01, 0x00, 0, 1, 0, 0, 0, 0, 0, 0];
    assert_eq!(quoted_media_kind(&dns), QuotedMediaKind::NotMedia);
}

#[test]
fn the_rtcp_demux_range_is_not_read_as_rtp() {
    for pt in [64u8, 80, 95] {
        let mut p = vec![0x80u8, pt];
        p.extend_from_slice(&[0u8; 20]);
        assert_eq!(
            quoted_media_kind(&p),
            QuotedMediaKind::NotMedia,
            "payload type {pt} is reserved for RTCP demultiplexing"
        );
    }
}

#[test]
fn an_rtcp_length_that_cannot_hold_a_header_is_rejected() {
    let p = [0x80u8, 201, 0x00, 0x00, 0xDE, 0xAD, 0xBE, 0xEF];
    assert_eq!(quoted_media_kind(&p), QuotedMediaKind::NotMedia);
}

#[test]
fn only_a_media_payload_offers_an_ssrc() {
    assert_eq!(QuotedMediaKind::Rtp { ssrc: 9, payload_type: 0 }.ssrc(), Some(9));
    assert_eq!(QuotedMediaKind::Rtcp { ssrc: 9, packet_type: 200 }.ssrc(), Some(9));
    assert_eq!(QuotedMediaKind::Unread.ssrc(), None);
    assert_eq!(QuotedMediaKind::NotMedia.ssrc(), None);
    assert!(!QuotedMediaKind::Unread.is_media());
    assert!(!QuotedMediaKind::NotMedia.is_media());
}

#[test]
fn a_header_cut_before_its_end_is_not_claimed() {
    let q = b"OPTIONS sip:peer@example.net SIP/2.0\r\n\
              Via: SIP/2.0/UDP 192.0.2.1:5060;branch=z9hG4bK1\r\n\
              Call-ID: keepalive-7@192.0.2.1\r\n\
              CSeq: 4 OPTI";
    let p = quoted_sip_prefix(q).expect("a SIP request prefix");
    assert_eq!(p.method, "OPTIONS");
    assert_eq!(p.call_id.as_deref(), Some("keepalive-7@192.0.2.1"));
    assert_eq!(p.cseq, None);
    assert!(quoted_sip_prefix(b"").is_none());
}

#[test]
fn a_bare_header_is_media_and_a_padding_claim_needs_its_byte() {
    let mut rtp = vec![0x80u8, 0x00, 0x00, 0x01, 0x00, 0x00, 0x00, 0xA0];
    rtp.extend_from_slice(&0x0BAD_F00Du32.to_be_bytes());
    assert_eq!(
        quoted_media_kind(&rtp),
        QuotedMediaKind::Rtp { ssrc: 0x0BAD_F00D, payload_type: 0 }
    );
    rtp[0] = 0xA0;
    assert_eq!(quoted_media_kind(&rtp), QuotedMediaKind::NotMedia);
    rtp.push(1);
    assert!(quoted_media_kind(&rtp).is_media());
}

#[test]
fn a_quoted_request_gives_what_the_quote_reached() {
    let whole = quoted_sip_prefix(
        b"INVITE sip:bob@example.com SIP/2.0\r\nCall-ID: abc@host\r\nCSeq: 7 INVITE\r\n",
    )
    .expect("a request is quoted");
    assert_eq!(whole.method, "INVITE");
    assert_eq!(whole.call_id.as_deref(), Some("abc@host"));
    assert_eq!(whole.cseq.as_deref(), Some("7 INVITE"));
    let cut = quoted_sip_prefix(b"OPTIONS sip:bob@example.com SIP/2.0\r\nCall-ID: abc@ho")
        .expect("a request is quoted");
    assert_eq!(cut.call_id, None, "a header without its end is not believed");
    let compact = quoted_sip_prefix(b"BYE sip:b SIP/2.0\r\ni: short@id\r\n").expect("a request");
    assert_eq!(compact.call_id.as_deref(), Some("short@id"));
    let odd = quoted_sip_prefix(b"BYE sip:b SIP/2.0\r\ni: \xff@id\r\n").expect("a request");
    assert_eq!(odd.call_id.as_deref(), Some("\u{fffd}@id"));
    assert!(quoted_sip_prefix(b"SIP/2.0 200 OK\r\n").is_none());
    assert!(quoted_sip_prefix(b"\x80\x00").is_none());
}

// ── Evidence ─────────────────────────────────────────────────────────

fn quote(payload: &[u8], src_port: u16, dst_port: u16) -> IcmpQuote {
    IcmpQuote {
        timestamp: AT,
        reporter: IpAddr::v4(203, 0, 113, 1),
        icmp_type: 3,
        icmp_code: 3,
        description: "port unreachable",
        quoted_src: IpAddr::v4(192, 0, 2, 10),
        quoted_dst: IpAddr::v4(198, 51, 100, 20),
        quoted_src_port: Some(src_port),
        quoted_dst_port: Some(dst_port),
        quoted_transport: Some(TransportProto::Udp),
        quoted_truncated: false,
        quoted_payload: payload.to_vec(),
    }
}

fn rtp_payload() -> Vec<u8> {
    let mut rtp = vec![0x80u8, 0x00];
    rtp.extend_from_slice(&1u16.to_be_bytes());
    rtp.extend_from_slice(&160u32.to_be_bytes());
    rtp.extend_from_slice(&0x0BAD_F00Du32.to_be_bytes());
    rtp.extend_from_slice(&[0xAB; 160]);
    rtp
}

fn unmatched() -> FlowAnswer {
    FlowAnswer {
        attribution: MediaAttribution {
            matched: MediaMatch::Unmatched,
            streams: 0,
            call_ids: Vec::new(),
        },
        remedy: "Check it.".to_string(),
    }
}

/// Resolve against an empty store: no flow matches anything.
fn resolve_unmatched(stores: &mut IcmpStores) -> u64 {
    let answers = icmp_media_queries(stores).iter().map(|_| unmatched()).collect();
    resolve_icmp_media(stores, answers).report().errors
}

fn finding(matched: MediaMatch, call_ids: &[&str]) -> MediaIcmpFinding {
    MediaIcmpFinding {
        source: "192.0.2.1:40000".to_string(),
        unreachable_endpoint: "192.0.2.2:20000".to_string(),
        reported_by: "192.0.2.9".to_string(),
        transport: "UDP",
        description: "port unreachable".to_string(),
        icmp_type: 3,
        icmp_code: 3,
        errors: 4,
        payload: QuotedMediaKind::Rtp { ssrc: 0x0BAD_F00D, payload_type: 0 },
        matched,
        streams: 1,
        call_ids: call_ids.iter().map(|s| (*s).to_string()).collect(),
        hint: "hint".to_string(),
    }
}

fn report(errors: u64, unattributed: u64, flows: Vec<MediaIcmpFinding>) -> IcmpMediaReport {
    IcmpMediaReport {
        errors,
        media: 0,
        attributed: 0,
        unattributed,
        unkeyed: 0,
        untracked_flows: 0,
        untallied_endpoints: 0,
        flows,
        endpoints: Vec::new(),
    }
}

#[test]
fn each_attribution_tier_renders_to_its_own_token() {
    let tiers = [
        (MediaMatch::Flow, "flow"),
        (MediaMatch::Ssrc, "ssrc"),
        (MediaMatch::Endpoint, "endpoint"),
        (MediaMatch::SdpEndpoint, "sdp_endpoint"),
        (MediaMatch::Unmatched, "none"),
    ];
    for (matched, token) in tiers {
        assert_eq!(
            finding(matched, &[]).attribution_tier(),
            token,
            "{matched:?} must render as {token}"
        );
    }
    let mut seen: Vec<&str> = tiers.iter().map(|(_, t)| *t).collect();
    seen.sort_unstable();
    seen.dedup();
    assert_eq!(
        seen.len(),
        tiers.len(),
        "two tiers share a token, so a consumer cannot tell them apart"
    );
}

#[test]
fn the_payload_kind_is_reported_separately_from_the_tier() {
    let mut f = finding(MediaMatch::Unmatched, &[]);
    assert_eq!(f.payload_kind(), "rtp");
    assert_eq!(f.attribution_tier(), "none");
    f.payload = QuotedMediaKind::Rtcp { ssrc: 1, packet_type: 201 };
    assert_eq!(f.payload_kind(), "rtcp");
    f.payload = QuotedMediaKind::Unread;
    assert_eq!(f.payload_kind(), "unread");
    f.payload = QuotedMediaKind::NotMedia;
    assert_eq!(f.payload_kind(), "not_media");
}

#[test]
fn the_resolved_set_indexes_findings_by_the_calls_they_named() {
    let resolved = ResolvedIcmpMedia::new(report(
        12,
        0,
        vec![
            finding(MediaMatch::Flow, &["a@example.com"]),
            finding(MediaMatch::Ssrc, &["a@example.com", "b@example.com"]),
            finding(MediaMatch::Unmatched, &[]),
        ],
    ));
    assert_eq!(resolved.findings_for("a@example.com").len(), 2);
    assert_eq!(resolved.findings_for("b@example.com").len(), 1);
    assert!(resolved.findings_for("nobody@example.com").is_empty());
}

#[test]
fn a_finding_that_named_no_call_is_still_in_the_capture_wide_ledger() {
    let resolved =
        ResolvedIcmpMedia::new(report(4, 4, vec![finding(MediaMatch::Unmatched, &[])]));
    assert_eq!(
        resolved.report().flows.len(),
        1,
        "the ledger must hold a finding no dialog can claim"
    );
    assert!(resolved.findings_for("a@example.com").is_empty());
}

#[test]
fn resetting_the_evidence_drops_the_resolved_findings() {
    let mut stores = IcmpStores::new();
    resolve_unmatched(&mut stores);
    assert!(
        stores.resolved.is_some(),
        "resolving must keep the answer or no surface will look"
    );
    reset_icmp_evidence(&mut stores);
    assert!(
        stores.resolved.is_none(),
        "a reset that leaves the resolved set armed serves stale findings"
    );
    assert_eq!(icmp_media_findings(&stores).report().errors, 0);
}

#[test]
fn resetting_drops_the_recorded_media_evidence_not_just_the_answer() {
    let mut stores = IcmpStores::new();
    assert!(
        !record_icmp_error(&mut stores, &quote(&rtp_payload(), 40000, 20000)),
        "a quote of media names no dialog"
    );
    assert_eq!(
        resolve_unmatched(&mut stores),
        1,
        "a non-SIP quote must be filed as media evidence"
    );
    reset_icmp_evidence(&mut stores);
    assert_eq!(
        resolve_unmatched(&mut stores),
        0,
        "a resolve after a reset rebuilt findings from evidence the reset \
         was supposed to have discarded"
    );
}

#[test]
fn a_resolve_elsewhere_does_not_wipe_a_published_set() {
    let mut stores = IcmpStores::new();
    publish_icmp_media_for_test(
        &mut stores,
        ResolvedIcmpMedia::new(report(7, 7, vec![finding(MediaMatch::Unmatched, &[])])),
    );
    assert_eq!(
        resolve_unmatched(&mut stores),
        0,
        "the resolver still answers its own caller honestly about the \
         store it was handed"
    );
    assert_eq!(
        icmp_media_findings(&stores).report().errors,
        7,
        "a foreign resolve replaced the set that was published"
    );
}

#[test]
fn a_media_error_becomes_a_finding() {
    let mut stores = IcmpStores::new();
    for _ in 0..3 {
        record_icmp_error(&mut stores, &quote(&rtp_payload(), 40000, 20000));
    }
    record_icmp_error(&mut stores, &quote(b"", 1111, 2222));
    let queries = icmp_media_queries(&stores);
    assert_eq!(queries.len(), 2);
    let answers = queries
        .iter()
        .map(|q| match q.ssrc {
            Some(ssrc) => {
                assert_eq!(ssrc, 0x0BAD_F00D);
                assert_eq!(
                    q.src,
                    SocketAddr { ip: IpAddr::v4(192, 0, 2, 10), port: 40000 }
                );
                FlowAnswer {
                    attribution: MediaAttribution {
                        matched: MediaMatch::Flow,
                        streams: 1,
                        call_ids: vec!["call@x".to_string()],
                    },
                    remedy: "Check the firewall.".to_string(),
                }
            }
            None => unmatched(),
        })
        .collect();
    let report = icmp_media_report(&stores, answers);
    assert_eq!(
        (report.errors, report.media, report.attributed, report.unattributed),
        (4, 3, 3, 1)
    );
    assert_eq!(report.flows[0].errors, 3, "busiest first");
    assert_eq!(
        report.flows[0].hint,
        "ICMP port unreachable: RTP (payload type 0) from 192.0.2.10:40000 to \
         198.51.100.20:20000 could not be delivered (3 times), reported by 203.0.113.1. This is \
         one of the media streams in this capture (1 call(s) affected). Audio sent that way is \
         discarded before it arrives, which is heard as one-way or missing audio. Check the \
         firewall."
    );
    assert_eq!(report.endpoints[0].errors, 3);
}

#[test]
fn a_signaling_error_is_kept_for_its_dialog() {
    let mut stores = IcmpStores::new();
    let request = b"INVITE sip:bob@example.com SIP/2.0\r\nCall-ID: abc@host\r\nCSeq: 7 INVITE\r\n";
    for _ in 0..10 {
        assert!(record_icmp_error(&mut stores, &quote(request, 5060, 5060)));
    }
    record_icmp_error(&mut stores, &quote(b"OPTIONS sip:b SIP/2.0\r\n", 5060, 5070));
    let kept = icmp_evidence_for(&stores, "abc@host");
    assert_eq!(kept.errors, 10);
    assert_eq!(kept.samples.len(), MAX_ICMP_PER_CALL_ID);
    assert_eq!(kept.samples[0].method.as_deref(), Some("INVITE"));
    assert_eq!(icmp_evidence_for(&stores, "other").errors, 0);
    let report = icmp_evidence_report(&stores);
    assert_eq!((report.errors, report.attributed, report.unattributed), (11, 10, 1));
    assert_eq!(report.endpoints.len(), 2);
    assert_eq!((report.endpoints[0].port, report.endpoints[0].errors), (Some(5060), 10));
}

#[test]
fn evidence_is_of_what_was_recorded_since_the_reset() {
    let mut stores = IcmpStores::new();
    let naming = |id: &str, n: u8| {
        let text = format!("INVITE sip:b@c SIP/2.0\r\nCall-ID: {id}\r\nCSeq: {n} INVITE\r\n");
        quote(text.as_bytes(), 5060, 5060)
    };
    record_icmp_error(&mut stores, &naming("before", 0));
    reset_icmp_evidence(&mut stores);
    for n in 1..=12u8 {
        record_icmp_error(&mut stores, &naming("mine", n));
        record_icmp_error(&mut stores, &naming("other", n));
    }
    let mine = icmp_evidence_for(&stores, "mine");
    assert_eq!(mine.errors, 12);
    let kept: Vec<String> = mine.samples.iter().filter_map(|e| e.cseq.clone()).collect();
    let first: Vec<String> = (1..=8).map(|n| format!("{n} INVITE")).collect();
    assert_eq!(kept, first, "the first errors, in order");
    assert_eq!(icmp_evidence_for(&stores, "before").errors, 0);
    let report = icmp_evidence_report(&stores);
    assert_eq!((report.errors, report.attributed, report.unattributed), (24, 24, 0));
    let listed: u64 = report.endpoints.iter().map(|e| e.errors).sum();
    assert_eq!(listed + report.untallied_endpoints, report.errors);
    assert_eq!((stores.signaling.errors(), stores.media.errors()), (24, 0));
}

#[test]
fn the_skip_report_counts_each_port_as_often_as_it_was_skipped() {
    let mut skips = PortrangeSkips::new();
    for port in [7000, 6000, 7000, 5999, 6000, 8000] {
        record_portrange_skip(&mut skips, 40000, port, b"INVITE x", (5060, 5060));
    }
    assert_eq!(skips.tally.messages(), 6);
    let report = portrange_skip_report(&skips);
    let ports: Vec<(u16, u64)> = report.ports.iter().map(|p| (p.port, p.messages)).collect();
    assert_eq!(ports, vec![(6000, 2), (7000, 2), (5999, 1), (8000, 1)]);
}

#[test]
fn a_media_reports_flows_add_up() {
    let mut stores = IcmpStores::new();
    for port in [20000, 20002, 20000] {
        record_icmp_error(&mut stores, &quote(&rtp_payload(), 10000, port));
    }
    let mut unkeyed = quote(&rtp_payload(), 10000, 20000);
    unkeyed.quoted_src_port = None;
    unkeyed.quoted_dst_port = None;
    unkeyed.quoted_transport = None;
    record_icmp_error(&mut stores, &unkeyed);
    let answers = vec![unmatched(), unmatched()];
    let report = icmp_media_report(&stores, answers);
    let on_flows: u64 = report.flows.iter().map(|f| f.errors).sum();
    assert_eq!((on_flows, report.unkeyed, report.untracked_flows), (3, 1, 0));
    assert_eq!(on_flows + report.unkeyed + report.untracked_flows, report.errors);
}

#[test]
fn an_odd_port_makes_only_the_classic_types_rtcp() {
    for pt in 200..=204u8 {
        assert!(is_rtcp_packet(&[0x80, pt, 0, 0, 0, 0, 0, 1], 5001), "{pt}");
        assert!(!is_rtcp_packet(&[0x80, pt, 0, 0, 0, 0, 0, 1], 5000), "{pt}");
    }
    for pt in [192u8, 199, 205, 207, 223] {
        assert!(!is_rtcp_packet(&[0x80, pt, 0, 0, 0, 0, 0, 1], 5001), "{pt}");
        assert!(is_rtcp_packet(&[0x80, pt, 0, 1, 0, 0, 0, 1], 5001), "{pt} is framed");
    }
    assert!(!is_rtcp_packet(&[0x80, 191, 0, 1, 0, 0, 0, 1], 5001));
    assert!(!is_rtcp_packet(&[0x40, 201, 0, 1, 0, 0, 0, 1], 5001));
    assert!(!is_rtcp_packet(&[0x80, 201, 0, 1, 0, 0, 0], 5001));
}

#[test]
fn a_longer_quote_keeps_what_a_shorter_one_claimed() {
    let whole = b"INVITE sip:b@c SIP/2.0\r\nCall-ID:  abc@host \r\nCSeq: 7 INVITE\r\nTo: x\r\n";
    let mut claimed = false;
    for n in 0..=whole.len() {
        match quoted_header(&whole[..n], b"call-id", Some(b'i')) {
            Some(value) => {
                assert_eq!(value, "abc@host");
                claimed = true;
            }
            None => assert!(!claimed, "a claim is never taken back, at {n}"),
        }
    }
    assert!(claimed);
    assert_eq!(quoted_header(b"Call-ID:  \r\n", b"call-id", None), None);
    assert_eq!(quoted_header(b"i: x\r\n", b"call-id", Some(b'i')).as_deref(), Some("x"));
    assert_eq!(quoted_header(b"i: x\r\n", b"call-id", None), None);
}
