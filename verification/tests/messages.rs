use mssql_browser::{
    AsyncStdSocketFactory, BrowserProtocolError, BrowserProtocolField, BrowserProtocolToken,
    IpAddress, TokioSocketFactory,
};

#[test]
fn tokens_read_as_text() {
    let cases = [
        (BrowserProtocolToken::EndOfMessage, "end of message"),
        (BrowserProtocolToken::Literal("abc".to_string()), "'abc'"),
        (BrowserProtocolToken::Literal(String::new()), "''"),
        (BrowserProtocolToken::MessageIdentifier(0x05), "message identifier 0x5"),
        (BrowserProtocolToken::MessageIdentifier(0x00), "message identifier 0x0"),
        (BrowserProtocolToken::MessageIdentifier(0x0F), "message identifier 0xF"),
        (BrowserProtocolToken::MessageIdentifier(0xAB), "message identifier 0xAB"),
        (BrowserProtocolToken::MessageIdentifier(0xFF), "message identifier 0xFF"),
        (BrowserProtocolToken::MessageLength, "message length"),
        (BrowserProtocolToken::DacVersion(1), "dac version 1"),
        (BrowserProtocolToken::DacVersion(0), "dac version 0"),
        (BrowserProtocolToken::DacVersion(255), "dac version 255"),
        (BrowserProtocolToken::DacPort, "dac port"),
        (
            BrowserProtocolToken::Identifier(BrowserProtocolField::ServerName),
            "identifier for field ServerName",
        ),
        (
            BrowserProtocolToken::ValueOf(BrowserProtocolField::AppleTalkObjectName),
            "value for field AppleTalkObjectName",
        ),
        (BrowserProtocolToken::TcpPort, "tcp port"),
        (BrowserProtocolToken::ViaParameters, "via parameters"),
        (
            BrowserProtocolToken::EndpointIdentifierOrSemicolon,
            "endpoint identifier or semicolon",
        ),
    ];
    for (token, text) in cases {
        assert_eq!(token.to_string(), text);
    }
}

#[test]
fn message_identifier_reads_as_the_formatter_writes_it() {
    for id in 0..=255u8 {
        assert_eq!(
            BrowserProtocolToken::MessageIdentifier(id).to_string(),
            format!("message identifier {:#X}", id)
        );
        assert_eq!(
            BrowserProtocolToken::DacVersion(id).to_string(),
            format!("dac version {}", id)
        );
    }
}

#[test]
fn fields_are_named_as_they_are_written() {
    let fields = [
        BrowserProtocolField::ServerName,
        BrowserProtocolField::InstanceName,
        BrowserProtocolField::IsClustered,
        BrowserProtocolField::Version,
        BrowserProtocolField::NamedPipeName,
        BrowserProtocolField::TcpPort,
        BrowserProtocolField::ViaMachineName,
        BrowserProtocolField::RpcComputerName,
        BrowserProtocolField::SpxServiceName,
        BrowserProtocolField::AppleTalkObjectName,
        BrowserProtocolField::BvItemName,
        BrowserProtocolField::BvGroupName,
        BrowserProtocolField::BvOrgName,
    ];
    for field in fields {
        assert_eq!(field.name(), format!("{:?}", field));
    }
}

#[test]
fn errors_read_as_text() {
    assert_eq!(
        BrowserProtocolError::UnexpectedToken {
            expected: BrowserProtocolToken::MessageIdentifier(5),
            found: BrowserProtocolToken::EndOfMessage,
        }
        .to_string(),
        "expected message identifier 0x5, but found end of message"
    );
    assert_eq!(
        BrowserProtocolError::UnexpectedToken {
            expected: BrowserProtocolToken::TcpPort,
            found: BrowserProtocolToken::Literal("x1".to_string()),
        }
        .to_string(),
        "expected tcp port, but found 'x1'"
    );
    assert_eq!(
        BrowserProtocolError::LengthMismatch { datagram: 1027, header: 65538 }.to_string(),
        "mismatch between datagram size 1027 bytes and size specified in header 65538 bytes"
    );
    assert_eq!(
        BrowserProtocolError::LengthMismatch { datagram: 0, header: 10 }.to_string(),
        "mismatch between datagram size 0 bytes and size specified in header 10 bytes"
    );
    assert_eq!(BrowserProtocolError::InvalidUtf8.to_string(), "invalid utf-8 sequence");
    assert_eq!(
        BrowserProtocolError::ExtraneousData(vec![0; 12]).to_string(),
        "12 unexpected trailing bytes"
    );
    assert_eq!(
        BrowserProtocolError::ExtraneousData(Vec::new()).to_string(),
        "0 unexpected trailing bytes"
    );
}

#[test]
fn addresses_know_their_family() {
    assert!(IpAddress::V4(0x7F00_0001).is_ipv4());
    assert!(!IpAddress::V6(1).is_ipv4());
    assert_eq!(IpAddress::V4(0x7F00_0001).unspecified(), IpAddress::V4(0));
    assert_eq!(IpAddress::V6(1).unspecified(), IpAddress::V6(0));
}

#[test]
fn factories_are_made() {
    assert_eq!(TokioSocketFactory::new(), TokioSocketFactory);
    assert_eq!(AsyncStdSocketFactory::new(), AsyncStdSocketFactory);
}
