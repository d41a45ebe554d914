use wstunnel::addr::{BindAddress, IpAddress, Ipv4Address, Ipv6Address};
use wstunnel::socks5::{check_password, greet, read_request, refuse, success_reply, Destination, Step};

fn password_message(login: &str, password: &str) -> Vec<u8> {
    let mut m = vec![1, login.len() as u8];
    m.extend_from_slice(login.as_bytes());
    m.push(password.len() as u8);
    m.extend_from_slice(password.as_bytes());
    m
}

#[test]
fn test_socks5_connect_with_correct_credentials() {
    assert_eq!(greet(&[5, 2, 0, 2], true), Step::Proceed { reply: vec![5, 2], used: 4 });
    assert_eq!(
        check_password(&password_message("admin", "secret"), b"admin", b"secret"),
        Step::Proceed { reply: vec![1, 0], used: 14 }
    );
    let mut stream = vec![5, 1, 0, 3, 11];
    stream.extend_from_slice(b"example.com");
    stream.extend_from_slice(&[0x01, 0xbb]);
    let request_len = stream.len();
    stream.extend_from_slice(b"GET / HTTP/1.1\r\n\r\n");
    let step = read_request(&stream);
    assert_eq!(
        step,
        Step::Connect { destination: Destination::Domain(b"example.com".to_vec()), port: 443, used: request_len }
    );
    assert_eq!(&stream[request_len..], b"GET / HTTP/1.1\r\n\r\n");
    let bound = BindAddress { ip: IpAddress::V4(Ipv4Address { octets: [10, 0, 0, 7] }), port: 0x1f90 };
    assert_eq!(success_reply(&bound), vec![5, 0, 0, 1, 10, 0, 0, 7, 0x1f, 0x90]);
}

#[test]
fn test_socks5_wrong_credentials() {
    assert_eq!(
        check_password(&password_message("admin", "guess"), b"admin", b"secret"),
        Step::Refuse { reply: vec![1, 1] }
    );
    assert_eq!(
        check_password(&password_message("root", "secret"), b"admin", b"secret"),
        Step::Refuse { reply: vec![1, 1] }
    );
    assert_eq!(check_password(&password_message("", ""), b"admin", b"secret"), Step::Refuse { reply: vec![1, 1] });
    assert_eq!(check_password(&password_message("admin", "secret2"), b"admin", b"secret"), Step::Refuse { reply: vec![1, 1] });
    assert_eq!(check_password(&password_message("", ""), b"", b""), Step::Proceed { reply: vec![1, 0], used: 3 });
}

#[test]
fn test_socks5_bind_is_not_supported() {
    let bind = [5, 2, 0, 1, 127, 0, 0, 1, 0, 80];
    assert_eq!(read_request(&bind), Step::Refuse { reply: vec![5, 7, 0, 1, 0, 0, 0, 0, 0, 0] });
    let udp_associate = [5, 3, 0, 1, 0, 0, 0, 0, 0, 0];
    assert_eq!(read_request(&udp_associate), Step::Refuse { reply: vec![5, 7, 0, 1, 0, 0, 0, 0, 0, 0] });
    assert_eq!(read_request(&[5, 9, 0, 1]), Step::Refuse { reply: refuse(7) });
}

#[test]
fn test_socks5_greeting() {
    assert_eq!(greet(&[], false), Step::Wait);
    assert_eq!(greet(&[5], false), Step::Wait);
    assert_eq!(greet(&[5, 2, 0], false), Step::Wait);
    assert_eq!(greet(&[4, 1, 0], false), Step::Fail);
    assert_eq!(greet(&[4], true), Step::Fail);
    assert_eq!(greet(&[5, 1, 0], false), Step::Proceed { reply: vec![5, 0], used: 3 });
    assert_eq!(greet(&[5, 2, 2, 0, 9, 9], false), Step::Proceed { reply: vec![5, 0], used: 4 });
    assert_eq!(greet(&[5, 1, 0], true), Step::Refuse { reply: vec![5, 0xff] });
    assert_eq!(greet(&[5, 1, 2], false), Step::Refuse { reply: vec![5, 0xff] });
    assert_eq!(greet(&[5, 0], false), Step::Refuse { reply: vec![5, 0xff] });
    assert_eq!(greet(&[5, 3, 1, 2, 3], true), Step::Proceed { reply: vec![5, 2], used: 5 });
}

#[test]
fn test_socks5_password_message_in_pieces() {
    let message = password_message("admin", "secret");
    for n in 0..message.len() {
        assert_eq!(check_password(&message[..n], b"admin", b"secret"), Step::Wait, "{}", n);
    }
    assert_eq!(check_password(&[2, 5], b"admin", b"secret"), Step::Fail);
}

#[test]
fn test_socks5_request() {
    assert_eq!(read_request(&[]), Step::Wait);
    assert_eq!(read_request(&[5, 1, 0]), Step::Wait);
    assert_eq!(read_request(&[4, 1, 0, 1]), Step::Fail);
    assert_eq!(read_request(&[5, 1, 0, 1, 1, 2, 3, 4, 0]), Step::Wait);
    assert_eq!(
        read_request(&[5, 1, 0, 1, 1, 2, 3, 4, 0xff, 0xfe]),
        Step::Connect { destination: Destination::Ipv4(Ipv4Address { octets: [1, 2, 3, 4] }), port: 0xfffe, used: 10 }
    );
    assert_eq!(read_request(&[5, 1, 0, 3]), Step::Wait);
    assert_eq!(read_request(&[5, 1, 0, 3, 1, b'a', 0]), Step::Wait);
    assert_eq!(
        read_request(&[5, 1, 0, 3, 1, b'a', 0, 22]),
        Step::Connect { destination: Destination::Domain(vec![b'a']), port: 22, used: 8 }
    );
    assert_eq!(
        read_request(&[5, 1, 0, 3, 0, 0, 22]),
        Step::Connect { destination: Destination::Domain(vec![]), port: 22, used: 7 }
    );
    let mut v6 = vec![5, 1, 0, 4];
    v6.extend_from_slice(&[0x20, 0x01, 0x0d, 0xb8, 0, 0, 0, 0, 0, 0, 0xff, 0, 0, 0x42, 0x83, 0x29]);
    v6.extend_from_slice(&[0, 53]);
    assert_eq!(read_request(&v6[..21]), Step::Wait);
    assert_eq!(
        read_request(&v6),
        Step::Connect {
            destination: Destination::Ipv6(Ipv6Address { segments: [0x2001, 0xdb8, 0, 0, 0, 0xff00, 0x42, 0x8329] }),
            port: 53,
            used: 22,
        }
    );
    assert_eq!(read_request(&[5, 1, 0, 2]), Step::Refuse { reply: vec![5, 8, 0, 1, 0, 0, 0, 0, 0, 0] });
    assert_eq!(refuse(8), vec![5, 8, 0, 1, 0, 0, 0, 0, 0, 0]);
}

#[test]
fn test_socks5_success_reply() {
    let bound = BindAddress {
        ip: IpAddress::V6(Ipv6Address { segments: [0x2001, 0xdb8, 0, 0, 0, 0xff00, 0x42, 0x8329] }),
        port: 1080,
    };
    assert_eq!(
        success_reply(&bound),
        vec![5, 0, 0, 4, 0x20, 0x01, 0x0d, 0xb8, 0, 0, 0, 0, 0, 0, 0xff, 0, 0, 0x42, 0x83, 0x29, 0x04, 0x38]
    );
}
