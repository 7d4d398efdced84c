use w1_netlink::command::W1NetlinkCommand;
use w1_netlink::connector::NlConnectorMessage;
use w1_netlink::message::{W1MessageType, W1NetlinkMessage};
use w1_netlink::Serializable;

#[test]
fn serialize() {
    let cmd = W1NetlinkCommand::Search;
    let msg = W1NetlinkMessage::new(W1MessageType::MasterCmd, 0, vec![cmd]);
    let cmsg = NlConnectorMessage::new(0, vec![msg]);

    assert!(cmsg.check_wf());
    let len = cmsg.buffer_len().unwrap();
    let mut buf: Vec<u8> = Vec::new();
    cmsg.serialize(&mut buf).unwrap();
    assert_eq!(buf.len(), len);

    let expected = vec![
        0x03, 0x00, 0x00, 0x00, 0x01, 0x00, 0x00, 0x00, 0x00, 0x00, 0x00, 0x00, 0x00, 0x00,
        0x00, 0x00, 0x10, 0x00, 0x00, 0x00, 0x04, 0x00, 0x04, 0x00, 0x00, 0x00, 0x00, 0x00,
        0x00, 0x00, 0x00, 0x00, 0x02, 0x00, 0x00, 0x00,
    ];
    assert_eq!(buf, expected);
}
