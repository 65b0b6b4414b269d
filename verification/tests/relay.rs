use sipnab::relay::rtpproxy::{
    creates, decode, decode_command, decode_reply, Reply, RtpproxyControl, RtpproxyDecoder, Stream,
    MAX_DATAGRAM, MAX_TOKEN,
};
use sipnab::relay::{
    media_creating_commands_seen, note_media_creating_command, reset_media_creating_count,
    ControlDecoder, ControlDelivery, MediaCreatingCount,
};

#[test]
fn a_command_is_read_with_its_verb_modifiers_and_arguments() {
    match decode_command(b"393_0 Uc8,0 call@host 10.0.0.1 4000 ftag;1\n") {
        Some(RtpproxyControl::Command { cookie, verb, modifiers, args }) => {
            assert_eq!(cookie, "393_0");
            assert_eq!(verb, 'U');
            assert_eq!(modifiers, "c8,0");
            assert_eq!(args, vec!["call@host", "10.0.0.1", "4000", "ftag;1"]);
        }
        other => panic!("a command was sent, got {other:?}"),
    }
    match decode_command(b"393_0 l call a 1 f t") {
        Some(RtpproxyControl::Command { verb, .. }) => assert_eq!(verb, 'L'),
        other => panic!("verbs are read in either case, got {other:?}"),
    }
}

#[test]
fn what_is_no_command_is_refused() {
    let long = format!("{} U call a 1 f", "c".repeat(MAX_TOKEN + 1));
    let huge = vec![b'x'; MAX_DATAGRAM + 1];
    let refused: [&[u8]; 7] = [
        b"",
        b"cookie",
        b"cookie ?x call",
        b"\xff\xfe U call",
        b"c U call\na 1 f t",
        long.as_bytes(),
        &huge,
    ];
    for payload in refused {
        assert!(decode_command(payload).is_none(), "{payload:?}");
    }
}

fn reply(payload: &[u8]) -> Reply {
    match decode_reply(payload) {
        Some(RtpproxyControl::Reply { cookie, reply }) => {
            assert_eq!(cookie, "c1");
            reply
        }
        other => panic!("a reply was sent, got {other:?}"),
    }
}

#[test]
fn each_kind_of_reply_is_read() {
    assert!(matches!(reply(b"c1 E7\n"), Reply::Error(7)));
    assert!(matches!(reply(b"c1 20040107"), Reply::Number(20_040_107)));
    match reply(b"c1 38664 10.0.0.40\n") {
        Reply::Media { port, address } => {
            assert_eq!(port, 38664);
            assert_eq!(address, "10.0.0.40");
        }
        other => panic!("a port and an address, got {other:?}"),
    }
    match reply(b"c1 sessions created: 4") {
        Reply::Text(t) => assert_eq!(t, "sessions created: 4"),
        other => panic!("free text, got {other:?}"),
    }
    assert!(decode_reply(b"c1").is_none());
    assert!(decode_reply(b"c1 \n").is_none());
}

#[test]
fn a_direction_decides_how_a_datagram_is_read() {
    assert!(matches!(
        decode(b"c1 V", true),
        Some(RtpproxyControl::Command { verb: 'V', .. })
    ));
    assert!(matches!(decode(b"c1 V", false), Some(RtpproxyControl::Reply { .. })));
}

#[test]
fn recording_verbs_are_not_legs() {
    assert_eq!(creates('U'), Some(Stream::Ordinary));
    assert_eq!(creates('L'), Some(Stream::Ordinary));
    assert_eq!(creates('R'), Some(Stream::Recording));
    assert_eq!(creates('D'), None);
}

#[test]
fn a_sniffed_command_is_reported_and_counted() {
    let decoder = RtpproxyDecoder::on_port(22222);
    let mut count = MediaCreatingCount::new();
    let seen = decoder.decode(b"c1 U call@host 10.0.0.1 4000 f", 22222, &mut count).expect("a command");
    assert_eq!(seen.delivery, ControlDelivery::BareDatagram);
    assert_eq!(seen.message.command.as_deref(), Some("U"));
    assert_eq!(seen.message.call_id.as_deref(), Some("call@host"));
    assert_eq!(media_creating_commands_seen(&count), 1);
    decoder.decode(b"c1 D call@host f t", 22222, &mut count).expect("a command");
    decoder.decode(b"c1 38664 10.0.0.40", 5000, &mut count).expect("a reply");
    assert_eq!(media_creating_commands_seen(&count), 1, "only media moves the count");
    note_media_creating_command(&mut count);
    assert_eq!(media_creating_commands_seen(&count), 2);
    reset_media_creating_count(&mut count);
    assert_eq!(media_creating_commands_seen(&count), 0);
}

#[test]
fn a_version_query_is_alone_or_names_one_feature() {
    match decode_command(b"c1 VF 20040107\n") {
        Some(RtpproxyControl::Command { cookie, verb, modifiers, args }) => {
            assert_eq!((cookie.as_str(), verb, modifiers.as_str()), ("c1", 'V', "F"));
            assert_eq!(args, vec!["20040107"]);
        }
        other => panic!("a feature query was sent, got {other:?}"),
    }
    for taken in ["c1 V", "c1 v", "c1 Vf 20040107"] {
        assert!(decode_command(taken.as_bytes()).is_some(), "{taken}");
    }
    for refused in ["c1 VX 1", "c1 VF", "c1 VF a b", "c1 VFF a", "c1 V a b"] {
        assert!(decode_command(refused.as_bytes()).is_none(), "{refused}");
    }
}
