use enchanted_beans::protocol::BeanstalkResponse;
use enchanted_beans::serialisable::BeanstalkSerialisable;

fn wire(r: BeanstalkResponse) -> Vec<u8> {
    r.serialise_beanstalk()
}

#[test]
fn fixed_words() {
    assert_eq!(wire(BeanstalkResponse::OutOfMemory), b"OUT_OF_MEMORY\r\n".to_vec());
    assert_eq!(wire(BeanstalkResponse::InternalError), b"INTERNAL_ERROR\r\n".to_vec());
    assert_eq!(wire(BeanstalkResponse::BadFormat), b"BAD_FORMAT\r\n".to_vec());
    assert_eq!(wire(BeanstalkResponse::UnknownCommand), b"UNKNOWN_COMMAND\r\n".to_vec());
    assert_eq!(wire(BeanstalkResponse::ExpectedCRLF), b"EXPECTED_CRLF\r\n".to_vec());
    assert_eq!(wire(BeanstalkResponse::JobTooBig), b"JOB_TOO_BIG\r\n".to_vec());
    assert_eq!(wire(BeanstalkResponse::Draining), b"DRAINING\r\n".to_vec());
    assert_eq!(wire(BeanstalkResponse::DeadlineSoon), b"DEADLINE_SOON\r\n".to_vec());
    assert_eq!(wire(BeanstalkResponse::TimedOut), b"TIMED_OUT\r\n".to_vec());
    assert_eq!(wire(BeanstalkResponse::NotFound), b"NOT_FOUND\r\n".to_vec());
    assert_eq!(wire(BeanstalkResponse::Deleted), b"DELETED\r\n".to_vec());
    assert_eq!(wire(BeanstalkResponse::Released), b"RELEASED\r\n".to_vec());
    assert_eq!(wire(BeanstalkResponse::Buried), b"BURIED\r\n".to_vec());
    assert_eq!(wire(BeanstalkResponse::Touched), b"TOUCHED\r\n".to_vec());
    assert_eq!(wire(BeanstalkResponse::NotIgnored), b"NOT_IGNORED\r\n".to_vec());
    assert_eq!(wire(BeanstalkResponse::Kicked), b"KICKED\r\n".to_vec());
    assert_eq!(wire(BeanstalkResponse::Paused), b"PAUSED\r\n".to_vec());
}

#[test]
fn numbered_responses() {
    assert_eq!(wire(BeanstalkResponse::Inserted { id: 42 }), b"INSERTED 42\r\n".to_vec());
    assert_eq!(wire(BeanstalkResponse::BuriedID { id: 0 }), b"BURIED 0\r\n".to_vec());
    assert_eq!(wire(BeanstalkResponse::Watching { count: 2 }), b"WATCHING 2\r\n".to_vec());
    assert_eq!(
        wire(BeanstalkResponse::KickedCount { count: 18446744073709551615 }),
        b"KICKED 18446744073709551615\r\n".to_vec()
    );
    assert_eq!(wire(BeanstalkResponse::Inserted { id: 1000 }), b"INSERTED 1000\r\n".to_vec());
}

#[test]
fn responses_with_bodies() {
    assert_eq!(
        wire(BeanstalkResponse::Using { tube: b"a".to_vec() }),
        b"USING a\r\n".to_vec()
    );
    assert_eq!(
        wire(BeanstalkResponse::Reserved { id: 7, data: b"hi\r\nyo".to_vec() }),
        b"RESERVED 7 6\r\nhi\r\nyo\r\n".to_vec()
    );
    assert_eq!(
        wire(BeanstalkResponse::Found { id: 3, data: b"hello".to_vec() }),
        b"FOUND 3 5\r\nhello\r\n".to_vec()
    );
    assert_eq!(
        wire(BeanstalkResponse::Found { id: 3, data: Vec::new() }),
        b"FOUND 3 0\r\n\r\n".to_vec()
    );
    assert_eq!(
        wire(BeanstalkResponse::OkData { data: b"---\n- default\n".to_vec() }),
        b"OK 14\r\n---\n- default\n\r\n".to_vec()
    );
}
