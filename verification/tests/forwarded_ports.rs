use nfs4_client::ports::ForwardedPort;

#[test]
fn parse_forwarded_ports_test() {
    let input = "Hub -1 (network0):\r\n\
     Protocol[State]    FD  Source Address  Port   Dest. Address  Port RecvQ SendQ\r\n\
     TCP[HOST_FORWARD]  13               *  8080       10.0.2.15   111     0     0\r\n\
     TCP[HOST_FORWARD]  14               *    80       10.0.2.15    77     0     0\r\n";
    let parsed = ForwardedPort::parse_many(input);
    assert_eq!(
        parsed,
        vec![
            ForwardedPort {
                host: 8080,
                guest: 111
            },
            ForwardedPort {
                host: 80,
                guest: 77
            }
        ]
    );
}

#[test]
fn lines_of_other_connections_are_passed_over() {
    let input = "Hub\nheadings\nTCP[ESTABLISHED] 1 * 22 10.0.2.15 22 0 0\nTCP[HOST_FORWARD] 2 * +2049 10.0.2.15 2049 0 0\n";
    assert_eq!(
        ForwardedPort::try_parse_many(input),
        Some(vec![ForwardedPort { host: 2049, guest: 2049 }])
    );
}

#[test]
fn a_table_without_headings_is_not_read() {
    assert_eq!(ForwardedPort::try_parse_many(""), None);
    assert_eq!(ForwardedPort::try_parse_many("Hub\n"), None);
    assert_eq!(ForwardedPort::try_parse_many("Hub\nheadings\n"), Some(vec![]));
}

#[test]
fn a_line_that_cannot_be_read_spoils_the_table() {
    assert_eq!(ForwardedPort::try_parse_many("a\nb\n\n"), None);
    assert_eq!(ForwardedPort::try_parse_many("a\nb\nTCP[HOST_FORWARD] 1 * 80\n"), None);
    assert_eq!(
        ForwardedPort::try_parse_many("a\nb\nTCP[HOST_FORWARD] 1 * 65536 x 1 0 0\n"),
        None
    );
    assert_eq!(
        ForwardedPort::try_parse_many("a\nb\nTCP[HOST_FORWARD] 1 * 65535 x 0 0 0\n"),
        Some(vec![ForwardedPort { host: 65535, guest: 0 }])
    );
    assert_eq!(ForwardedPort::try_parse_many("a\nb\nTCP[HOST_FORWARD] 1 * 8o x 1 0 0\n"), None);
    assert_eq!(ForwardedPort::try_parse_many("a\nb\nTCP[HOST_FORWARD] 1 * + x 1 0 0\n"), None);
}
