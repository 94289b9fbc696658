use bitcoin::psbt::raw::Key;
use bitcoin::psbt::{Error, PartiallySignedTransaction};
use pset_text::adapter::{parse, render, ParseError};
use pset_text::envelope::EnvelopeError;
use std::str::FromStr;

const VALID: &str = "cHNidP8BAHUCAAAAASaBcTce3/KF6Tet7qSze3gADAVmy7OtZGQXE8pCFxv2AAAAAAD+////AtPf9QUAAAAAGXapFNDFmQPFusKGh2DpD9UhpGZap2UgiKwA4fUFAAAAABepFDVF5uM7gyxHBQ8k0+65PJwDlIvHh7MuEwAAAQD9pQEBAAAAAAECiaPHHqtNIOA3G7ukzGmPopXJRjr6Ljl/hTPMti+VZ+UBAAAAFxYAFL4Y0VKpsBIDna89p95PUzSe7LmF/////4b4qkOnHf8USIk6UwpyN+9rRgi7st0tAXHmOuxqSJC0AQAAABcWABT+Pp7xp0XpdNkCxDVZQ6vLNL1TU/////8CAMLrCwAAAAAZdqkUhc/xCX/Z4Ai7NK9wnGIZeziXikiIrHL++E4sAAAAF6kUM5cluiHv1irHU6m80GfWx6ajnQWHAkcwRAIgJxK+IuAnDzlPVoMR3HyppolwuAJf3TskAinwf4pfOiQCIAGLONfc0xTnNMkna9b7QPZzMlvEuqFEyADS8vAtsnZcASED0uFWdJQbrUqZY3LLh+GFbTZSYG2YVi/jnF6efkE/IQUCSDBFAiEA0SuFLYXc2WHS9fSrZgZU327tzHlMDDPOXMMJ/7X85Y0CIGczio4OFyXBl/saiK9Z9R5E5CVbIBZ8hoQDHAXR8lkqASECI7cr7vCWXRC+B3jv7NYfysb3mk6haTkzgHNEZPhPKrMAAAAAAAAA";

const NO_MAGIC: &str = "AgAAAAEmgXE3Ht/yhek3re6ks3t4AAwFZsuzrWRkFxPKQhcb9gAAAABqRzBEAiBwsiRRI+a/R01gxbUMBD1MaRpdJDXwmjSnZiqdwlF5CgIgATKcqdrPKAvfMHQOwDkEIkIsgctFg5RXrrdvwS7dlbMBIQJlfRGNM1e44PTCzUbbezn22cONmnCry5st5dyNv+TOMf7///8C09/1BQAAAAAZdqkU0MWZA8W6woaHYOkP1SGkZlqnZSCIrADh9QUAAAAAF6kUNUXm4zuDLEcFDyTT7rk8nAOUi8eHsy4TAA==";

fn write_psbt(psbt: &PartiallySignedTransaction) -> Vec<u8> {
    psbt.serialize()
}

#[test]
fn known_transaction_parses_as_the_transcoder_reads_it() {
    let psbt = parse(VALID, PartiallySignedTransaction::deserialize).unwrap();
    assert_eq!(psbt, PartiallySignedTransaction::from_str(VALID).unwrap());
    assert_eq!(psbt.inputs.len(), 1);
    assert!(psbt.inputs[0].non_witness_utxo.is_some());
    assert!(psbt.inputs[0].witness_utxo.is_none());
    assert_eq!(psbt.outputs.len(), 2);
}

#[test]
fn known_transaction_renders_to_a_text_that_parses_to_it() {
    let psbt = parse(VALID, PartiallySignedTransaction::deserialize).unwrap();
    let text = render(&psbt, write_psbt);
    assert_eq!(text, psbt.to_string());
    assert_eq!(parse(&text, PartiallySignedTransaction::deserialize).unwrap(), psbt);
}

#[test]
fn transaction_text_without_its_padding_renders_with_it() {
    let mut psbt = parse(VALID, PartiallySignedTransaction::deserialize).unwrap();
    let mut padded = 0;
    for extra in 0..3usize {
        psbt.unknown.insert(Key { type_value: 0x42, key: vec![7] }, vec![1; extra]);
        let text = render(&psbt, write_psbt);
        let bare = text.trim_end_matches('=');
        if bare.len() == text.len() {
            continue;
        }
        padded += 1;
        let parsed = parse(bare, PartiallySignedTransaction::deserialize).unwrap();
        assert_eq!(parsed, psbt);
        let again = render(&parsed, write_psbt);
        assert_ne!(again, bare);
        assert_eq!(again, text);
        assert_eq!(parse(&again, PartiallySignedTransaction::deserialize).unwrap(), parsed);
    }
    assert_eq!(padded, 2);
}

#[test]
fn payload_without_the_magic_bytes_fails_with_or_without_padding() {
    let bare = NO_MAGIC.trim_end_matches('=');
    assert_eq!(bare.len() + 2, NO_MAGIC.len());
    for text in [NO_MAGIC, &NO_MAGIC[..NO_MAGIC.len() - 1], bare] {
        assert!(matches!(
            parse(text, PartiallySignedTransaction::deserialize),
            Err(ParseError::Transcode(Error::InvalidMagic))
        ));
    }
}

#[test]
fn payload_without_the_magic_bytes_is_a_transcoder_failure() {
    let outcome = parse(NO_MAGIC, PartiallySignedTransaction::deserialize);
    assert!(matches!(outcome, Err(ParseError::Transcode(Error::InvalidMagic))));
    let failure = outcome.unwrap_err();
    assert_eq!(failure.label(), "Deserialize error");
    assert!(matches!(failure.transcode_cause(), Some(Error::InvalidMagic)));
    assert!(failure.envelope_cause().is_none());
}

#[test]
fn empty_text_is_no_transaction() {
    let outcome = parse("", PartiallySignedTransaction::deserialize);
    assert!(matches!(outcome, Err(ParseError::Transcode(Error::InvalidMagic))));
}

#[test]
fn text_with_a_line_break_is_an_envelope_failure() {
    let mut text = String::from(VALID);
    text.push('\n');
    let outcome = parse(&text, PartiallySignedTransaction::deserialize);
    let offset = VALID.len();
    assert!(matches!(
        outcome,
        Err(ParseError::Envelope(EnvelopeError::InvalidByte(at, b'\n'))) if at == offset
    ));
    assert_eq!(outcome.unwrap_err().label(), "Base64 error");
}
