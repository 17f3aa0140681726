use osc_send::address::check_address;
use osc_send::error::SendError;

#[test]
fn accepts_a_single_part() {
    assert_eq!(check_address("/tempo"), Ok(()));
}

#[test]
fn accepts_several_parts() {
    assert_eq!(check_address("/test/addr"), Ok(()));
    assert_eq!(check_address("/oscillator/1/frequency"), Ok(()));
}

#[test]
fn accepts_every_printable_character_that_is_not_reserved() {
    let allowed = "!\"$%&'()+-.0123456789:;<=>@ABCXYZ\\^_`abcxyz|~";
    for c in allowed.chars() {
        let address = format!("/a{}b", c);
        assert_eq!(check_address(&address), Ok(()), "{:?}", address);
    }
}

#[test]
fn rejects_the_empty_address() {
    assert_eq!(check_address(""), Err(SendError::InvalidAddress));
}

#[test]
fn rejects_an_address_without_leading_slash() {
    assert_eq!(check_address("badaddress"), Err(SendError::InvalidAddress));
    assert_eq!(check_address("test/addr"), Err(SendError::InvalidAddress));
}

#[test]
fn rejects_each_reserved_character() {
    for c in [' ', '#', '*', ',', '?', '[', ']', '{', '}'] {
        let address = format!("/a{}b", c);
        assert_eq!(check_address(&address), Err(SendError::InvalidAddress), "{:?}", address);
    }
}

#[test]
fn rejects_control_and_non_ascii_characters() {
    assert_eq!(check_address("/a\tb"), Err(SendError::InvalidAddress));
    assert_eq!(check_address("/a\0b"), Err(SendError::InvalidAddress));
    assert_eq!(check_address("/a\u{7f}b"), Err(SendError::InvalidAddress));
    assert_eq!(check_address("/caf\u{e9}"), Err(SendError::InvalidAddress));
}

#[test]
fn rejects_empty_parts() {
    assert_eq!(check_address("/"), Err(SendError::InvalidAddress));
    assert_eq!(check_address("//a"), Err(SendError::InvalidAddress));
    assert_eq!(check_address("/a//b"), Err(SendError::InvalidAddress));
    assert_eq!(check_address("/a/"), Err(SendError::InvalidAddress));
}

#[test]
fn joined_addresses_are_accepted() {
    let a = "/left/part";
    let b = "/right";
    assert_eq!(check_address(a), Ok(()));
    assert_eq!(check_address(b), Ok(()));
    assert_eq!(check_address(&format!("{}{}", a, b)), Ok(()));
}

#[test]
fn every_error_ends_the_process_with_code_one() {
    assert_eq!(SendError::InvalidAddress.exit_code(), 1);
    assert_eq!(SendError::Encoding.exit_code(), 1);
    assert_eq!(SendError::Bind.exit_code(), 1);
}
