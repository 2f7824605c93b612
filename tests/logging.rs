use kzg_ceremony_crypto::decode_g1;

/// A log sink that keeps each line it is given.
struct Lines(Vec<String>);

impl Lines {
    fn error(&mut self, message: &str) {
        self.0.push(format!("ERROR {}", message));
    }

    fn contain(&self, needle: &str) -> bool {
        self.0.iter().any(|l| l.contains(needle))
    }
}

#[test]
fn test_with_log_output() {
    let mut logs = Lines(Vec::new());
    if let Err(e) = decode_g1("0x00") {
        logs.error(&format!("logged on the error level: {:?}", e));
    }
    assert!(logs.contain("logged on the error level"));
}
