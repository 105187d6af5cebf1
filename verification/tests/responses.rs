use mssql_browser::browse_host::{parse_instances, read_enumeration_response};
use mssql_browser::info::read_via;
use mssql_browser::text::read_port;
use mssql_browser::wire::{
    encode_dac_request, encode_enumeration_request, encode_instance_request, read_frame_header,
    read_payload_frame,
};
use mssql_browser::{
    dac_query, host_query, instance_query, network_query, read_dac_response, read_host_response,
    read_instance_response, BrowserError, BrowserProtocolError, BrowserProtocolField,
    BrowserProtocolToken, DacInfo, Exchange, InstanceBacklog, InstanceInfo, InstanceIterator,
    IpAddress, SocketAddress, SocketStep, TcpInfo, ViaAddress, ViaInfo, MAX_INSTANCE_NAME_LEN,
};

const HOST: IpAddress = IpAddress::V4(0xC0A8_0001);

type Failure = BrowserError<String, String>;

fn frame(payload: &[u8]) -> Vec<u8> {
    let mut datagram = vec![0x05, (payload.len() % 256) as u8, (payload.len() / 256) as u8];
    datagram.extend_from_slice(payload);
    datagram
}

fn instance(addr: IpAddress, name: &str, port: u16) -> InstanceInfo {
    InstanceInfo {
        addr,
        server_name: "HOST1".to_string(),
        instance_name: name.to_string(),
        is_clustered: false,
        version: "15.0.2000.5".to_string(),
        np_info: None,
        tcp_info: Some(TcpInfo { port }),
        via_info: None,
        rpc_info: None,
        spx_info: None,
        adsp_info: None,
        bv_info: None,
    }
}

fn record(name: &str, port: u16) -> String {
    format!(
        "ServerName;HOST1;InstanceName;{};IsClustered;No;Version;15.0.2000.5;tcp;{};;",
        name, port
    )
}

fn unexpected(expected: BrowserProtocolToken, found: BrowserProtocolToken) -> BrowserProtocolError {
    BrowserProtocolError::UnexpectedToken { expected, found }
}

#[test]
fn instance_request_is_the_identifier_and_the_name() {
    let plan: Exchange = instance_query::<String, String>(HOST, "SQLEXPRESS").unwrap();
    assert_eq!(
        plan.request,
        vec![0x04, b'S', b'Q', b'L', b'E', b'X', b'P', b'R', b'E', b'S', b'S']
    );
}

#[test]
fn instance_query_talks_to_the_browser_port_of_the_host() {
    let plan = instance_query::<String, String>(HOST, "X").unwrap();
    assert_eq!(plan.local, SocketAddress { ip: IpAddress::V4(0), port: 0 });
    assert_eq!(plan.remote, SocketAddress { ip: HOST, port: 1434 });
    assert!(plan.connect);
    assert!(!plan.broadcast);
    assert_eq!(plan.receive_capacity, 3 + 1024);
}

#[test]
fn queries_bind_in_the_family_of_the_host() {
    let v6 = IpAddress::V6(0x2001_0db8_0000_0000_0000_0000_0000_0001);
    let unspecified = SocketAddress { ip: IpAddress::V6(0), port: 0 };
    assert_eq!(instance_query::<String, String>(v6, "X").unwrap().local, unspecified);
    assert_eq!(dac_query::<String, String>(v6, "X").unwrap().local, unspecified);
    assert_eq!(host_query(v6).local, unspecified);
    assert_eq!(network_query(v6).local, unspecified);
}

#[test]
fn instance_name_of_up_to_32_bytes_is_accepted() {
    assert_eq!(MAX_INSTANCE_NAME_LEN, 32);
    for len in 0..=32 {
        let name = "n".repeat(len);
        let plan = instance_query::<String, String>(HOST, &name).unwrap();
        assert_eq!(plan.request.len(), 1 + len);
        let plan = dac_query::<String, String>(HOST, &name).unwrap();
        assert_eq!(plan.request.len(), 2 + len);
    }
}

#[test]
fn longer_instance_name_is_refused() {
    for len in [33usize, 34, 100, 1000] {
        let name = "n".repeat(len);
        let result: Result<Exchange, Failure> = instance_query(HOST, &name);
        assert!(matches!(result, Err(BrowserError::InstanceNameTooLong)));
        let result: Result<Exchange, Failure> = dac_query(HOST, &name);
        assert!(matches!(result, Err(BrowserError::InstanceNameTooLong)));
    }
}

#[test]
fn instance_name_is_measured_in_bytes() {
    let name = "é".repeat(17);
    let result: Result<Exchange, Failure> = instance_query(HOST, &name);
    assert!(matches!(result, Err(BrowserError::InstanceNameTooLong)));
    let name = "é".repeat(16);
    assert_eq!(instance_query::<String, String>(HOST, &name).unwrap().request.len(), 33);
}

#[test]
fn dac_request_is_the_identifier_the_version_and_the_name() {
    let plan = dac_query::<String, String>(HOST, "MSSQLSERVER").unwrap();
    let mut expected = vec![0x0F, 0x01];
    expected.extend_from_slice(b"MSSQLSERVER");
    assert_eq!(plan.request, expected);
    assert_eq!(plan.remote, SocketAddress { ip: HOST, port: 1434 });
    assert!(plan.connect);
    assert!(!plan.broadcast);
    assert_eq!(plan.receive_capacity, 6);
}

#[test]
fn enumeration_request_is_one_byte() {
    let plan = host_query(HOST);
    assert_eq!(plan.request, vec![0x02]);
    assert_eq!(plan.remote, SocketAddress { ip: HOST, port: 1434 });
    assert!(plan.connect);
    assert!(!plan.broadcast);
    assert_eq!(plan.receive_capacity, 3 + 65535);
}

#[test]
fn network_enumeration_broadcasts_without_connecting() {
    let broadcast = IpAddress::V4(0xFFFF_FFFF);
    let plan = network_query(broadcast);
    assert_eq!(plan.request, host_query(broadcast).request);
    assert_eq!(plan.local, SocketAddress { ip: IpAddress::V4(0), port: 0 });
    assert_eq!(plan.remote, SocketAddress { ip: broadcast, port: 1434 });
    assert!(!plan.connect);
    assert!(plan.broadcast);
}

#[test]
fn dac_response_holds_the_port() {
    assert_eq!(
        read_dac_response(&[0x05, 0x06, 0x00, 0x01, 0x39, 0x05]),
        Ok(DacInfo { port: 1337 })
    );
    assert_eq!(
        read_dac_response(&[0x05, 0x06, 0x00, 0x01, 0xFF, 0xFF]),
        Ok(DacInfo { port: 65535 })
    );
}

#[test]
fn truncated_dac_response_names_the_missing_field() {
    let whole = [0x05, 0x06, 0x00, 0x01, 0x39, 0x05];
    let expected = [
        BrowserProtocolToken::MessageIdentifier(0x05),
        BrowserProtocolToken::MessageLength,
        BrowserProtocolToken::MessageLength,
        BrowserProtocolToken::DacVersion(1),
        BrowserProtocolToken::DacPort,
        BrowserProtocolToken::DacPort,
    ];
    for len in 0..6 {
        assert_eq!(
            read_dac_response(&whole[..len]),
            Err(unexpected(expected[len].clone(), BrowserProtocolToken::EndOfMessage)),
            "{} bytes",
            len
        );
    }
}

#[test]
fn dac_response_with_wrong_identifier_or_version() {
    assert_eq!(
        read_dac_response(&[0x04, 0x06, 0x00, 0x01, 0x39, 0x05]),
        Err(unexpected(
            BrowserProtocolToken::MessageIdentifier(0x05),
            BrowserProtocolToken::MessageIdentifier(0x04)
        ))
    );
    assert_eq!(
        read_dac_response(&[0x05, 0x06, 0x00, 0x02, 0x39, 0x05]),
        Err(unexpected(BrowserProtocolToken::DacVersion(1), BrowserProtocolToken::DacVersion(2)))
    );
}

#[test]
fn dac_length_counts_the_whole_response() {
    assert_eq!(
        read_dac_response(&[0x05, 0x03, 0x00, 0x01, 0x39, 0x05]),
        Err(BrowserProtocolError::LengthMismatch { datagram: 6, header: 3 })
    );
    assert_eq!(
        read_dac_response(&[0x05, 0x06, 0x01, 0x01, 0x39, 0x05]),
        Err(BrowserProtocolError::LengthMismatch { datagram: 6, header: 262 })
    );
    assert_eq!(
        read_dac_response(&[0x05, 0x04, 0x00, 0x01]),
        Err(BrowserProtocolError::LengthMismatch { datagram: 4, header: 4 })
    );
    assert_eq!(
        read_dac_response(&[0x05, 0x06, 0x00, 0x01]),
        Err(unexpected(BrowserProtocolToken::DacPort, BrowserProtocolToken::EndOfMessage))
    );
}

#[test]
fn instance_response_holds_one_record() {
    let datagram = frame(record("SQLEXPRESS", 1433).as_bytes());
    assert_eq!(
        read_instance_response(HOST, &datagram),
        Ok(instance(HOST, "SQLEXPRESS", 1433))
    );
}

#[test]
fn truncated_frame_names_the_missing_field() {
    assert_eq!(
        read_instance_response(HOST, &[]),
        Err(unexpected(
            BrowserProtocolToken::MessageIdentifier(0x05),
            BrowserProtocolToken::EndOfMessage
        ))
    );
    assert_eq!(
        read_instance_response(HOST, &[0x06, 0x00, 0x00]),
        Err(unexpected(
            BrowserProtocolToken::MessageIdentifier(0x05),
            BrowserProtocolToken::MessageIdentifier(0x06)
        ))
    );
    for datagram in [&[0x05u8][..], &[0x05, 0x00][..]] {
        assert_eq!(
            read_instance_response(HOST, datagram),
            Err(unexpected(BrowserProtocolToken::MessageLength, BrowserProtocolToken::EndOfMessage))
        );
        assert_eq!(
            read_host_response(HOST, datagram),
            Err(unexpected(BrowserProtocolToken::MessageLength, BrowserProtocolToken::EndOfMessage))
        );
    }
}

#[test]
fn payload_length_does_not_count_the_header() {
    let mut datagram = frame(record("A", 1).as_bytes());
    let payload = datagram.len() - 3;
    datagram[1] = (payload + 3) as u8;
    assert_eq!(
        read_instance_response(HOST, &datagram),
        Err(BrowserProtocolError::LengthMismatch {
            datagram: payload + 3,
            header: payload + 6
        })
    );
    assert_eq!(
        read_host_response(HOST, &datagram),
        Err(BrowserProtocolError::LengthMismatch {
            datagram: payload + 3,
            header: payload + 6
        })
    );
    assert_eq!(
        read_instance_response(HOST, &[0x05, 0xFF, 0xFF]),
        Err(BrowserProtocolError::LengthMismatch { datagram: 3, header: 65538 })
    );
    assert_eq!(
        read_instance_response(HOST, &[0x05, 0x00, 0x00, b';']),
        Err(BrowserProtocolError::LengthMismatch { datagram: 4, header: 3 })
    );
}

#[test]
fn payload_that_is_not_text_is_refused() {
    let mut payload = record("A", 1).into_bytes();
    payload[12] = 0xFF;
    assert_eq!(
        read_instance_response(HOST, &frame(&payload)),
        Err(BrowserProtocolError::InvalidUtf8)
    );
    assert_eq!(
        read_host_response(HOST, &frame(&payload)),
        Err(BrowserProtocolError::InvalidUtf8)
    );
    assert_eq!(
        read_instance_response(HOST, &frame(&[0xC3])),
        Err(BrowserProtocolError::InvalidUtf8)
    );
}

#[test]
fn text_is_read_before_records_are_parsed() {
    let mut payload = b"Server;".to_vec();
    payload.push(0x80);
    assert_eq!(
        read_instance_response(HOST, &frame(&payload)),
        Err(BrowserProtocolError::InvalidUtf8)
    );
}

#[test]
fn bytes_behind_the_record_are_handed_back() {
    let mut payload = record("A", 1).into_bytes();
    payload.extend_from_slice(b"xyz");
    assert_eq!(
        read_instance_response(HOST, &frame(&payload)),
        Err(BrowserProtocolError::ExtraneousData(b"xyz".to_vec()))
    );
    let two = format!("{}{}", record("A", 1), record("B", 2));
    assert_eq!(
        read_instance_response(HOST, &frame(two.as_bytes())),
        Err(BrowserProtocolError::ExtraneousData(record("B", 2).into_bytes()))
    );
}

#[test]
fn record_that_ends_with_the_payload_leaves_no_tail() {
    let payload = "ServerName;A;InstanceName;B;IsClustered;No;Version;1;";
    assert_eq!(
        read_instance_response(HOST, &frame(payload.as_bytes())),
        Err(BrowserProtocolError::ExtraneousData(Vec::new()))
    );
}

#[test]
fn malformed_record_in_instance_response() {
    assert_eq!(
        read_instance_response(HOST, &frame(b"")),
        Err(unexpected(
            BrowserProtocolToken::Identifier(BrowserProtocolField::ServerName),
            BrowserProtocolToken::Literal(String::new())
        ))
    );
}

#[test]
fn host_response_lists_records_in_order() {
    let payload = format!("{}{}{}", record("ONE", 1), record("TWO", 2), record("THREE", 3));
    let mut instances: InstanceIterator = read_host_response(HOST, &frame(payload.as_bytes())).unwrap();
    assert_eq!(instances.len(), 3);
    assert_eq!(instances.next(), Some(instance(HOST, "ONE", 1)));
    assert_eq!(instances.next(), Some(instance(HOST, "TWO", 2)));
    assert_eq!(instances.len(), 1);
    assert_eq!(instances.next(), Some(instance(HOST, "THREE", 3)));
    assert_eq!(instances.next(), None);
    assert_eq!(instances.next(), None);
    assert_eq!(instances.len(), 0);
}

#[test]
fn host_response_without_records() {
    let mut instances = read_host_response(HOST, &[0x05, 0x00, 0x00]).unwrap();
    assert_eq!(instances.next(), None);
}

#[test]
fn one_malformed_record_fails_the_enumeration() {
    let payload = format!("{}{}", record("ONE", 1), "ServerName;HOST1;InstanceName");
    assert_eq!(
        read_host_response(HOST, &frame(payload.as_bytes())),
        Err(unexpected(
            BrowserProtocolToken::ValueOf(BrowserProtocolField::InstanceName),
            BrowserProtocolToken::EndOfMessage
        ))
    );
    let payload = format!("{}{}", record("ONE", 1), "x");
    assert_eq!(
        read_enumeration_response(HOST, &frame(payload.as_bytes())),
        Err(unexpected(
            BrowserProtocolToken::Identifier(BrowserProtocolField::ServerName),
            BrowserProtocolToken::Literal("x".to_string())
        ))
    );
}

#[test]
fn parse_instances_starts_each_record_where_the_last_ended() {
    let text = format!("{}{}", record("ONE", 1), record("TWO", 2));
    assert_eq!(
        parse_instances(HOST, &text),
        Ok(vec![instance(HOST, "ONE", 1), instance(HOST, "TWO", 2)])
    );
    assert_eq!(parse_instances(HOST, ""), Ok(Vec::new()));
}

#[test]
fn last_record_may_end_with_the_text() {
    let text = format!("{}{}", record("ONE", 1), "ServerName;A;InstanceName;B;IsClustered;Yes;Version;1;");
    let instances = parse_instances(HOST, &text).unwrap();
    assert_eq!(instances.len(), 2);
    assert_eq!(instances[1].instance_name, "B");
    assert!(instances[1].is_clustered);
}

#[test]
fn instance_iterator_keeps_the_order() {
    let mut instances = InstanceIterator::new(vec![instance(HOST, "A", 1), instance(HOST, "B", 2)]);
    assert_eq!(instances.next(), Some(instance(HOST, "A", 1)));
    assert_eq!(instances.next(), Some(instance(HOST, "B", 2)));
    assert_eq!(instances.next(), None);
}

#[test]
fn backlog_yields_instances_of_each_datagram_with_its_origin() {
    let first = IpAddress::V4(0x0A00_0001);
    let second = IpAddress::V4(0x0A00_0002);
    let mut backlog = InstanceBacklog::new();
    assert_eq!(backlog.next(), None);
    let payload = format!("{}{}", record("A", 1), record("B", 2));
    backlog = backlog.receive(first, &frame(payload.as_bytes())).unwrap();
    assert_eq!(backlog.next(), Some(instance(first, "A", 1)));
    backlog = backlog.receive(second, &frame(record("C", 3).as_bytes())).unwrap();
    assert_eq!(backlog.next(), Some(instance(first, "B", 2)));
    assert_eq!(backlog.next(), Some(instance(second, "C", 3)));
    assert_eq!(backlog.next(), None);
}

#[test]
fn backlog_takes_a_datagram_without_records() {
    let mut backlog = InstanceBacklog::new().receive(HOST, &[0x05, 0x00, 0x00]).unwrap();
    assert_eq!(backlog.next(), None);
}

#[test]
fn malformed_datagram_ends_the_enumeration() {
    let backlog = InstanceBacklog::new()
        .receive(HOST, &frame(record("A", 1).as_bytes()))
        .unwrap();
    assert_eq!(
        backlog.receive(HOST, &[0x05, 0x01, 0x00]),
        Err(BrowserProtocolError::LengthMismatch { datagram: 3, header: 4 })
    );
    assert_eq!(
        InstanceBacklog::new().receive(HOST, &frame(b"ServerName")),
        Err(unexpected(
            BrowserProtocolToken::ValueOf(BrowserProtocolField::ServerName),
            BrowserProtocolToken::EndOfMessage
        ))
    );
}

#[test]
fn failures_to_connect_and_to_send_name_the_peer() {
    let plan = host_query(HOST);
    let peer = SocketAddress { ip: HOST, port: 1434 };
    let cause = "refused".to_string();
    let failure: Failure = plan.socket_failed(SocketStep::EnableBroadcast, cause.clone());
    assert_eq!(failure, BrowserError::SetBroadcastFailed(cause.clone()));
    let failure: Failure = plan.socket_failed(SocketStep::Connect, cause.clone());
    assert_eq!(failure, BrowserError::ConnectFailed(peer, cause.clone()));
    let failure: Failure = plan.socket_failed(SocketStep::Send, cause.clone());
    assert_eq!(failure, BrowserError::SendFailed(peer, cause.clone()));
    let failure: Failure = plan.socket_failed(SocketStep::Receive, cause.clone());
    assert_eq!(failure, BrowserError::ReceiveFailed(cause));
}

#[test]
fn frame_header_declares_a_length() {
    assert_eq!(read_frame_header(&[0x05, 0x34, 0x12]), Ok(0x1234));
    assert_eq!(read_frame_header(&[0x05, 0x00, 0x00, 0xAA]), Ok(0));
    assert_eq!(read_payload_frame(&[0x05, 0x02, 0x00, b'a', b'b']), Ok(&b"ab"[..]));
    assert_eq!(read_payload_frame(&[0x05, 0x00, 0x00]), Ok(&b""[..]));
    assert_eq!(
        read_payload_frame(&[0x05, 0x00, 0x01, b'a']),
        Err(BrowserProtocolError::LengthMismatch { datagram: 4, header: 259 })
    );
}

#[test]
fn ports_and_via_parameters_are_read_alone() {
    assert_eq!(read_port(b"1433"), Some(1433));
    assert_eq!(read_port(b"+0"), Some(0));
    assert_eq!(read_port(b"65535"), Some(65535));
    assert_eq!(read_port(b"65536"), None);
    assert_eq!(read_port(b"655350"), None);
    assert_eq!(read_port(b""), None);
    assert_eq!(read_port(b"+"), None);
    assert_eq!(read_port(b"1+"), None);
    assert_eq!(read_port(b"0x10"), None);
    assert_eq!(
        read_via("HOST,1:2,3:4"),
        Some(ViaInfo {
            machine_name: "HOST".to_string(),
            addresses: vec![
                ViaAddress { nic: "1".to_string(), port: "2".to_string() },
                ViaAddress { nic: "3".to_string(), port: "4".to_string() },
            ],
        })
    );
    assert_eq!(read_via("HOST"), None);
    assert_eq!(read_via("HOST,1:2,3"), None);
}

#[test]
fn requests_are_encoded_byte_for_byte() {
    assert_eq!(
        encode_instance_request(b"SQLEXPRESS"),
        vec![0x04, b'S', b'Q', b'L', b'E', b'X', b'P', b'R', b'E', b'S', b'S']
    );
    assert_eq!(encode_instance_request(b""), vec![0x04]);
    assert_eq!(encode_dac_request(b"A"), vec![0x0F, 0x01, b'A']);
    assert_eq!(encode_dac_request(b""), vec![0x0F, 0x01]);
    assert_eq!(encode_enumeration_request(), vec![0x02]);
}

#[test]
fn instance_response_reads_as_an_enumeration_of_one() {
    let datagram = frame(record("ONLY", 1433).as_bytes());
    let info = read_instance_response(HOST, &datagram).unwrap();
    assert_eq!(read_enumeration_response(HOST, &datagram), Ok(vec![info]));
}
