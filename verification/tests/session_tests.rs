use lightctl::session::{
    decide_first, decide_second, trim_line, ReadEvent, RequestIds, SendDecision,
};
use lightctl::wire::Param;

#[test]
fn ids_start_at_one_and_increase_by_one() {
    let mut ids = RequestIds::new();
    assert_eq!(ids.fresh(), 1);
    assert_eq!(ids.fresh(), 2);
    assert_eq!(ids.fresh(), 3);
    assert_eq!(ids.fresh(), 4);
}

#[test]
fn next_request_frames_successive_ids() {
    let mut ids = RequestIds::new();
    let (m1, b1) = ids.next_request(String::from("set_power"), vec![Param::Uint8(1)]);
    let (m2, b2) = ids.next_request(String::from("set_bright"), vec![Param::Uint8(50)]);
    assert_eq!(m1.id(), 1);
    assert_eq!(m2.id(), 2);
    assert_eq!(b1, b"{\"id\":1,\"method\":\"set_power\",\"params\":[1]}\r\n".to_vec());
    assert_eq!(b2, b"{\"id\":2,\"method\":\"set_bright\",\"params\":[50]}\r\n".to_vec());
}

#[test]
fn trim_removes_crlf() {
    assert_eq!(trim_line(&b"{\"result\":[\"ok\"]}\r\n".to_vec()), b"{\"result\":[\"ok\"]}".to_vec());
}

#[test]
fn trim_removes_mixed_trailing_whitespace() {
    assert_eq!(trim_line(&b"abc \t\r\n".to_vec()), b"abc".to_vec());
    assert_eq!(trim_line(&b" \t\r\n".to_vec()), b"".to_vec());
}

#[test]
fn trim_keeps_line_without_trailing_whitespace() {
    assert_eq!(trim_line(&b"abc".to_vec()), b"abc".to_vec());
    assert_eq!(trim_line(&b" a b".to_vec()), b" a b".to_vec());
    assert_eq!(trim_line(&b"".to_vec()), b"".to_vec());
}

#[test]
fn first_read_line_is_accepted() {
    assert_eq!(decide_first(&ReadEvent::Line(b"ok".to_vec())), SendDecision::Accept);
}

#[test]
fn first_read_timeout_resends_once() {
    assert_eq!(decide_first(&ReadEvent::TimedOut), SendDecision::Resend);
}

#[test]
fn first_read_failure_gives_up() {
    assert_eq!(decide_first(&ReadEvent::Failed), SendDecision::GiveUp);
}

#[test]
fn second_read_never_resends() {
    assert_eq!(decide_second(&ReadEvent::Line(b"ok".to_vec())), SendDecision::Accept);
    assert_eq!(decide_second(&ReadEvent::TimedOut), SendDecision::GiveUp);
    assert_eq!(decide_second(&ReadEvent::Failed), SendDecision::GiveUp);
}

#[test]
fn single_stall_then_line_yields_response_with_two_writes() {
    // One command: write, first read stalls, one resend, second read
    // succeeds. The decision functions drive exactly two writes and accept
    // the eventual line.
    let mut writes = 1;
    let first = ReadEvent::TimedOut;
    let response = match decide_first(&first) {
        SendDecision::Accept => unreachable!(),
        SendDecision::GiveUp => unreachable!(),
        SendDecision::Resend => {
            writes += 1;
            let second = ReadEvent::Line(b"{\"id\":1}\r\n".to_vec());
            match decide_second(&second) {
                SendDecision::Accept => match second {
                    ReadEvent::Line(l) => trim_line(&l),
                    _ => unreachable!(),
                },
                _ => unreachable!(),
            }
        }
    };
    assert_eq!(writes, 2);
    assert_eq!(response, b"{\"id\":1}".to_vec());
}
