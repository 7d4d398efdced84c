use w1_netlink::command::DeserializeError as CmdError;
use w1_netlink::command::{W1CommandType, W1NetlinkCommand};
use w1_netlink::connector::DeserializeError as ConnError;
use w1_netlink::connector::{NlConnectorMessage, NETLINK_CONNECTOR};
use w1_netlink::message::DeserializeError as MsgError;
use w1_netlink::message::{EventKind, W1MessageType, W1NetlinkMessage};
use w1_netlink::{Deserializable, Empty, InvalidValue, Serializable, SerializeError};

#[test]
fn deserialize_search_response() {
    let payload = vec![
        0x03, 0x00, 0x00, 0x00, 0x01, 0x00, 0x00, 0x00, 0x00, 0x00, 0x00, 0x00, 0x01, 0x00,
        0x00, 0x00, 0x10, 0x00, 0x00, 0x00, 0x04, 0x00, 0x04, 0x00, 0x01, 0x00, 0x00, 0x00,
        0x00, 0x00, 0x00, 0x00, 0x02, 0x00, 0x00, 0x00,
    ];

    let deserialized_message = NlConnectorMessage::deserialize(NETLINK_CONNECTOR, &payload)
        .unwrap();

    assert_eq!(deserialized_message.header.seq, 0);
    assert_eq!(deserialized_message.header.ack, 1);
    assert_eq!(deserialized_message.header.flags, 0);
    assert_eq!(
        deserialized_message.payload,
        vec![W1NetlinkMessage::MasterCommand { target: 1, cmds: vec![W1NetlinkCommand::Search] }]
    );
}

#[test]
fn read_response_with_payload() {
    let bytes = [0x00, 0x00, 0x04, 0x00, 0xDE, 0xAD, 0xBE, 0xEF];
    let (cmd, consumed) = W1NetlinkCommand::deserialize(&bytes).unwrap();
    assert_eq!(cmd, W1NetlinkCommand::Read(Some(vec![0xDE, 0xAD, 0xBE, 0xEF])));
    assert_eq!(consumed, 8);
}

#[test]
fn read_request_without_payload() {
    let bytes = [0x00, 0x00, 0x00, 0x00];
    let (cmd, consumed) = W1NetlinkCommand::deserialize(&bytes).unwrap();
    assert_eq!(cmd, W1NetlinkCommand::Read(None));
    assert_eq!(consumed, 4);
}

#[test]
fn list_masters_reply() {
    let bytes = [
        0x06, 0x00, 0x08, 0x00, 0x00, 0x00, 0x00, 0x00, 0x00, 0x00, 0x00, 0x00, 0x01, 0x00,
        0x00, 0x00, 0x02, 0x00, 0x00, 0x00,
    ];
    let (msg, consumed) = W1NetlinkMessage::deserialize(&bytes).unwrap();
    assert_eq!(msg, W1NetlinkMessage::ListMasters(Some(vec![1, 2])));
    assert_eq!(consumed, 20);
}

#[test]
fn search_command_round_trip() {
    let msg = W1NetlinkMessage::MasterCommand { target: 1, cmds: vec![W1NetlinkCommand::Search] };
    assert!(msg.check_wf());
    let mut buf: Vec<u8> = Vec::new();
    msg.serialize(&mut buf).unwrap();

    let (decoded, consumed) = W1NetlinkMessage::deserialize(&buf).unwrap();
    assert_eq!(consumed, buf.len());
    assert_eq!(
        decoded,
        W1NetlinkMessage::MasterCommand { target: 1, cmds: vec![W1NetlinkCommand::Search] }
    );
}

#[test]
fn write_command_round_trip() {
    let cmd = W1NetlinkCommand::Write(vec![1, 2, 3]);
    assert!(cmd.check_wf());
    let mut buf: Vec<u8> = Vec::new();
    cmd.serialize(&mut buf).unwrap();
    assert_eq!(buf, vec![0x01, 0x00, 0x03, 0x00, 1, 2, 3]);

    let (decoded, consumed) = W1NetlinkCommand::deserialize(&buf).unwrap();
    assert_eq!(decoded, W1NetlinkCommand::Write(vec![1, 2, 3]));
    assert_eq!(consumed, 7);
}

#[test]
fn envelope_round_trip() {
    let msgs = vec![
        W1NetlinkMessage::ListMasters(Some(vec![7])),
        W1NetlinkMessage::MasterCommand {
            target: 2,
            cmds: vec![W1NetlinkCommand::Reset, W1NetlinkCommand::Touch],
        },
    ];
    let env = NlConnectorMessage::new(9, msgs);
    assert!(env.check_wf());
    assert_eq!(env.message_type(), NETLINK_CONNECTOR);

    let mut buf: Vec<u8> = Vec::new();
    env.serialize(&mut buf).unwrap();
    assert_eq!(buf.len(), env.buffer_len().unwrap());

    let decoded = NlConnectorMessage::deserialize(NETLINK_CONNECTOR, &buf).unwrap();
    assert_eq!(decoded, env);
}

#[test]
fn envelope_length_field_matches_payload() {
    let env = NlConnectorMessage::new(
        0,
        vec![W1NetlinkMessage::MasterCommand {
            target: 2,
            cmds: vec![W1NetlinkCommand::Write(vec![1, 2])],
        }],
    );
    let mut buf: Vec<u8> = Vec::new();
    env.serialize(&mut buf).unwrap();

    // envelope len field at offsets 16..18 counts the bytes after its header
    let conn_len = u16::from_le_bytes([buf[16], buf[17]]) as usize;
    assert_eq!(conn_len, buf.len() - 20);

    // message len field at offsets 2..4 of the message counts its body
    let msg_len = u16::from_le_bytes([buf[22], buf[23]]) as usize;
    assert_eq!(msg_len, buf.len() - 20 - 12);

    // command len field at offsets 2..4 of the record counts its payload
    let cmd_len = u16::from_le_bytes([buf[34], buf[35]]) as usize;
    assert_eq!(cmd_len, 2);
}

#[test]
fn envelope_family_mismatch() {
    let env = NlConnectorMessage::new(0, vec![W1NetlinkMessage::ListMasters(None)]);
    let mut buf: Vec<u8> = Vec::new();
    env.serialize(&mut buf).unwrap();

    let mut bad_idx = buf.clone();
    bad_idx[0] = 0x05;
    assert_eq!(
        NlConnectorMessage::deserialize(NETLINK_CONNECTOR, &bad_idx),
        Err(ConnError::UnexpectedIdx(3, 5))
    );

    let mut bad_val = buf.clone();
    bad_val[4] = 0x09;
    assert_eq!(
        NlConnectorMessage::deserialize(NETLINK_CONNECTOR, &bad_val),
        Err(ConnError::UnexpectedVal(1, 9))
    );
}

#[test]
fn envelope_wrong_transport_type() {
    let env = NlConnectorMessage::new(0, vec![W1NetlinkMessage::ListMasters(None)]);
    let mut buf: Vec<u8> = Vec::new();
    env.serialize(&mut buf).unwrap();
    assert_eq!(
        NlConnectorMessage::deserialize(3, &buf),
        Err(ConnError::InvalidMessageType)
    );
}

#[test]
fn envelope_short_header() {
    let bytes = [0u8; 10];
    assert_eq!(
        NlConnectorMessage::deserialize(NETLINK_CONNECTOR, &bytes),
        Err(ConnError::InvalidLength)
    );
}

#[test]
fn envelope_length_mismatch() {
    let env = NlConnectorMessage::new(0, vec![W1NetlinkMessage::ListMasters(None)]);
    let mut buf: Vec<u8> = Vec::new();
    env.serialize(&mut buf).unwrap();
    buf.push(0);
    assert_eq!(
        NlConnectorMessage::deserialize(NETLINK_CONNECTOR, &buf),
        Err(ConnError::InvalidPayloadLength)
    );
}

#[test]
fn envelope_inner_error() {
    // a valid envelope around a message whose kind byte is unknown
    let mut buf = vec![
        0x03, 0x00, 0x00, 0x00, 0x01, 0x00, 0x00, 0x00, 0x00, 0x00, 0x00, 0x00, 0x00, 0x00,
        0x00, 0x00, 0x0C, 0x00, 0x00, 0x00,
    ];
    buf.extend_from_slice(&[0x07, 0, 0, 0, 0, 0, 0, 0, 0, 0, 0, 0]);
    assert_eq!(
        NlConnectorMessage::deserialize(NETLINK_CONNECTOR, &buf),
        Err(ConnError::Inner(MsgError::InvalidMessageType(InvalidValue(7))))
    );
}

#[test]
fn message_short_header() {
    let bytes = [0x04, 0x00, 0x00, 0x00, 0x00];
    assert_eq!(
        W1NetlinkMessage::deserialize(&bytes),
        Err(MsgError::InvalidLength)
    );
}

#[test]
fn message_unknown_kind() {
    let bytes = [0x07, 0, 0, 0, 0, 0, 0, 0, 0, 0, 0, 0];
    assert_eq!(
        W1NetlinkMessage::deserialize(&bytes),
        Err(MsgError::InvalidMessageType(InvalidValue(7)))
    );
}

#[test]
fn message_kernel_status() {
    let bytes = [0x04, 0x05, 0, 0, 0, 0, 0, 0, 0, 0, 0, 0];
    assert_eq!(
        W1NetlinkMessage::deserialize(&bytes),
        Err(MsgError::KernelError(5))
    );
}

#[test]
fn message_body_overruns_buffer() {
    let bytes = [0x04, 0x00, 0x08, 0x00, 0, 0, 0, 0, 0, 0, 0, 0, 1, 2];
    assert_eq!(
        W1NetlinkMessage::deserialize(&bytes),
        Err(MsgError::InvalidPayloadLength)
    );
}

#[test]
fn message_wraps_command_error() {
    // master-command body whose single record has an unknown opcode
    let bytes = [0x04, 0x00, 0x04, 0x00, 0, 0, 0, 0, 0, 0, 0, 0, 0x09, 0, 0, 0];
    assert_eq!(
        W1NetlinkMessage::deserialize(&bytes),
        Err(MsgError::Command(CmdError::InvalidType(InvalidValue(9))))
    );
}

#[test]
fn list_masters_truncated_chunk() {
    let bytes = [
        0x06, 0x00, 0x06, 0x00, 0, 0, 0, 0, 0, 0, 0, 0, 0x01, 0x00, 0x00, 0x00, 0x02, 0x00,
    ];
    assert_eq!(
        W1NetlinkMessage::deserialize(&bytes),
        Err(MsgError::InvalidPayloadLength)
    );
}

#[test]
fn command_sequence_exhaustion() {
    // three records: Search, Write([9]), Read request
    let body = [
        0x02, 0x00, 0x00, 0x00, 0x01, 0x00, 0x01, 0x00, 0x09, 0x00, 0x00, 0x00, 0x00,
    ];
    let (cmds, consumed) = Vec::<W1NetlinkCommand>::deserialize(&body).unwrap();
    assert_eq!(consumed, body.len());
    assert_eq!(
        cmds,
        vec![
            W1NetlinkCommand::Search,
            W1NetlinkCommand::Write(vec![9]),
            W1NetlinkCommand::Read(None),
        ]
    );
}

#[test]
fn command_unknown_opcode() {
    assert_eq!(
        W1NetlinkCommand::deserialize(&[0x09, 0, 0, 0]),
        Err(CmdError::InvalidType(InvalidValue(9)))
    );
    assert_eq!(
        W1NetlinkCommand::deserialize(&[0xFF, 0, 0, 0]),
        Err(CmdError::InvalidType(InvalidValue(0xFF)))
    );
}

#[test]
fn command_undefined_payload_shapes() {
    assert_eq!(
        W1NetlinkCommand::deserialize(&[0x06, 0, 0, 0]),
        Err(CmdError::NotImplemented)
    );
    assert_eq!(
        W1NetlinkCommand::deserialize(&[0x07, 0, 0, 0]),
        Err(CmdError::NotImplemented)
    );
    assert_eq!(
        W1NetlinkCommand::deserialize(&[0x08, 0, 0, 0]),
        Err(CmdError::NotImplemented)
    );
}

#[test]
fn command_truncated_payload() {
    let bytes = [0x01, 0x00, 0x05, 0x00, 1, 2];
    assert_eq!(
        W1NetlinkCommand::deserialize(&bytes),
        Err(CmdError::InvalidPayloadLength)
    );
}

#[test]
fn command_short_header() {
    assert_eq!(
        W1NetlinkCommand::deserialize(&[0x02, 0x00, 0x00]),
        Err(CmdError::InvalidLength)
    );
}

#[test]
fn no_payload_opcode_ignores_length_field() {
    // a Reset record whose length field claims five body bytes consumes none
    let bytes = [0x05, 0x00, 0x05, 0x00, 1, 2, 3, 4, 5];
    let (cmd, consumed) = W1NetlinkCommand::deserialize(&bytes).unwrap();
    assert_eq!(cmd, W1NetlinkCommand::Reset);
    assert_eq!(consumed, 4);
}

#[test]
fn encode_not_implemented() {
    let mut buf: Vec<u8> = Vec::new();

    let cmd = W1NetlinkCommand::ListSlaves;
    assert_eq!(cmd.serialize(&mut buf), Err(SerializeError::NotImplemented));
    assert_eq!(cmd.buffer_len(), Err(SerializeError::NotImplemented));
    assert!(buf.is_empty());

    let slave_cmd = W1NetlinkMessage::SlaveCommand {
        target: 0xAABBCCDD,
        cmds: vec![W1NetlinkCommand::Reset],
    };
    assert_eq!(slave_cmd.serialize(&mut buf), Err(SerializeError::NotImplemented));
    assert!(buf.is_empty());

    let event = W1NetlinkMessage::MasterEvent { kind: EventKind::Add, target: 1 };
    assert_eq!(event.serialize(&mut buf), Err(SerializeError::NotImplemented));
    assert_eq!(event.buffer_len(), Err(SerializeError::NotImplemented));
    assert!(buf.is_empty());
}

#[test]
fn event_decode() {
    let bytes = [
        0x00, 0x00, 0x00, 0x00, 0x11, 0x00, 0xFF, 0xEE, 0xDD, 0xCC, 0xBB, 0xAA,
    ];
    let (msg, consumed) = W1NetlinkMessage::deserialize(&bytes).unwrap();
    assert_eq!(
        msg,
        W1NetlinkMessage::SlaveEvent { kind: EventKind::Add, target: 0xAABBCCDD_EEFF0011 }
    );
    assert_eq!(consumed, 12);

    let bytes = [0x03, 0x00, 0x00, 0x00, 0x05, 0, 0, 0, 0, 0, 0, 0];
    let (msg, _) = W1NetlinkMessage::deserialize(&bytes).unwrap();
    assert_eq!(msg, W1NetlinkMessage::MasterEvent { kind: EventKind::Remove, target: 5 });
}

#[test]
fn event_decode_consumes_declared_body() {
    // an event with a declared body skips those bytes when consuming
    let bytes = [0x02, 0x00, 0x02, 0x00, 0x09, 0, 0, 0, 0, 0, 0, 0, 0xAB, 0xCD];
    let (msg, consumed) = W1NetlinkMessage::deserialize(&bytes).unwrap();
    assert_eq!(msg, W1NetlinkMessage::MasterEvent { kind: EventKind::Add, target: 9 });
    assert_eq!(consumed, 14);
}

#[test]
fn type_code_mappings() {
    for code in 0u8..9 {
        let t = W1CommandType::try_from(code).unwrap();
        assert_eq!(t.code(), code);
    }
    assert_eq!(W1CommandType::try_from(9), Err(InvalidValue(9)));

    for code in 0u8..7 {
        let t = W1MessageType::try_from(code).unwrap();
        assert_eq!(t.code(), code);
    }
    assert_eq!(W1MessageType::try_from(7), Err(InvalidValue(7)));
}

#[test]
fn command_type_of_each_variant() {
    assert_eq!(W1NetlinkCommand::Write(vec![]).cmd_type(), W1CommandType::Write);
    assert_eq!(W1NetlinkCommand::Read(None).cmd_type(), W1CommandType::Read);
    assert_eq!(W1NetlinkCommand::Search.cmd_type(), W1CommandType::Search);
    assert_eq!(W1NetlinkCommand::AlarmSearch.cmd_type(), W1CommandType::AlarmSearch);
    assert_eq!(W1NetlinkCommand::Touch.cmd_type(), W1CommandType::Touch);
    assert_eq!(W1NetlinkCommand::Reset.cmd_type(), W1CommandType::Reset);
    assert_eq!(W1NetlinkCommand::ListSlaves.cmd_type(), W1CommandType::ListSlaves);
}

#[test]
fn message_constructor_mappings() {
    let msg = W1NetlinkMessage::new(W1MessageType::MasterCmd, 7, vec![W1NetlinkCommand::Reset]);
    assert_eq!(
        msg,
        W1NetlinkMessage::MasterCommand { target: 7, cmds: vec![W1NetlinkCommand::Reset] }
    );

    let msg = W1NetlinkMessage::new(W1MessageType::ListMasters, 0, vec![]);
    assert_eq!(msg, W1NetlinkMessage::ListMasters(None));

    let msg = W1NetlinkMessage::new(W1MessageType::SlaveAdd, 42, vec![]);
    assert_eq!(msg, W1NetlinkMessage::SlaveEvent { kind: EventKind::Add, target: 42 });

    let msg = W1NetlinkMessage::new(W1MessageType::MasterRemove, 3, vec![]);
    assert_eq!(msg, W1NetlinkMessage::MasterEvent { kind: EventKind::Remove, target: 3 });
}

#[test]
fn empty_record_consumes_nothing() {
    let (value, consumed) = Empty::deserialize(&[1, 2, 3]).unwrap();
    assert_eq!(value, Empty);
    assert_eq!(consumed, 0);
}

#[test]
fn read_of_empty_payload_decodes_as_request() {
    // a present but empty Read payload encodes with a zero length field,
    // which decodes as a payload-less request
    let cmd = W1NetlinkCommand::Read(Some(vec![]));
    let mut buf: Vec<u8> = Vec::new();
    cmd.serialize(&mut buf).unwrap();
    assert_eq!(buf, vec![0x00, 0x00, 0x00, 0x00]);
    let (decoded, _) = W1NetlinkCommand::deserialize(&buf).unwrap();
    assert_eq!(decoded, W1NetlinkCommand::Read(None));
}

#[test]
fn oversize_payload_is_not_well_formed() {
    let cmd = W1NetlinkCommand::Write(vec![0; 70000]);
    assert!(!cmd.check_wf());

    let msg = W1NetlinkMessage::MasterCommand { target: 0, cmds: vec![cmd] };
    assert!(!msg.check_wf());

    let env = NlConnectorMessage::new(0, vec![msg]);
    assert!(!env.check_wf());

    let small = W1NetlinkMessage::ListMasters(Some(vec![1, 2, 3]));
    assert!(small.check_wf());
}
