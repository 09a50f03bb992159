use ictmon::args::{parse_port, Arguments, ADDRESS, CHANNEL_TX, NAME, PORT, USAGE, VERSION};

fn line(words: &[&str]) -> Vec<String> {
    words.iter().map(|w| w.to_string()).collect()
}

#[test]
fn program_constants() {
    assert_eq!(NAME, "ictmon");
    assert_eq!(VERSION, "v0.1.0");
    assert_eq!(ADDRESS, "localhost");
    assert_eq!(CHANNEL_TX, "tx");
    assert_eq!(PORT, 5560);
    assert_eq!(
        USAGE,
        format!("Wrong number of arguments provided. Usage: ./{} <IP> <ZMQ-Port>", NAME)
    );
}

#[test]
fn no_arguments_mean_the_default_publisher() {
    let arguments = Arguments::new(line(&["./ictmon"])).unwrap();
    assert_eq!(arguments.address(), "localhost");
    assert_eq!(arguments.port(), 5560);
}

#[test]
fn host_and_port_are_taken_from_the_line() {
    let arguments = Arguments::new(line(&["./ictmon", "192.168.1.9", "5561"])).unwrap();
    assert_eq!(arguments.address(), "192.168.1.9");
    assert_eq!(arguments.port(), 5561);
    let arguments = Arguments::new(line(&["x", "", "+0"])).unwrap();
    assert_eq!(arguments.address(), "");
    assert_eq!(arguments.port(), 0);
}

#[test]
fn wrong_number_of_arguments_is_refused() {
    let message = "Wrong number of arguments provided. Usage: ./ictmon <IP> <ZMQ-Port>";
    assert_eq!(Arguments::new(line(&[])), Err(message.to_string()));
    assert_eq!(Arguments::new(line(&["./ictmon", "localhost"])), Err(message.to_string()));
    assert_eq!(
        Arguments::new(line(&["./ictmon", "localhost", "5560", "extra"])),
        Err(message.to_string())
    );
    assert_eq!(
        Arguments::new(line(&["./ictmon", "localhost", "not a port", "extra"])),
        Err(message.to_string())
    );
}

#[test]
fn ports_that_can_be_read() {
    assert_eq!(parse_port("0"), Some(0));
    assert_eq!(parse_port("5560"), Some(5560));
    assert_eq!(parse_port("+5560"), Some(5560));
    assert_eq!(parse_port("00080"), Some(80));
    assert_eq!(parse_port("65535"), Some(65535));
    assert_eq!(parse_port("0000000000000000000000065535"), Some(65535));
}

#[test]
fn ports_that_cannot_be_read() {
    for text in [
        "", "+", "-", "-1", "-0", "++1", "+-1", "65536", "99999", "429496729600",
        "18446744073709551616", " 80", "80 ", "8 0", "8_0", "0x50", "1e3", "80a", "a80", "８０",
        "٣", "80\n", "\u{0}", "5560é",
    ] {
        assert_eq!(parse_port(text), None, "{:?}", text);
    }
}

#[test]
fn port_reading_agrees_with_the_standard_parser() {
    for value in 0..=70000u32 {
        let plain = value.to_string();
        assert_eq!(parse_port(&plain), plain.parse::<u16>().ok());
        let signed = format!("+{}", value);
        assert_eq!(parse_port(&signed), signed.parse::<u16>().ok());
        let padded = format!("{:07}", value);
        assert_eq!(parse_port(&padded), padded.parse::<u16>().ok());
    }
    for text in [
        "", "+", "-", "-1", "-0", "++1", "+-1", " 80", "80 ", "8_0", "0x50", "80a", "８０", "٣",
        "+0", "+00", "000", "4294967296", "18446744073709551616", "6553５",
    ] {
        assert_eq!(parse_port(text), text.parse::<u16>().ok(), "{:?}", text);
    }
}
