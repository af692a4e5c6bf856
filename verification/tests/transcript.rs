use sassafras_consensus::transcript::{make_post_transcript, make_ticket_transcript};

fn challenge(mut transcript: merlin::Transcript) -> [u8; 32] {
    let mut out = [0u8; 32];
    transcript.challenge_bytes(b"challenge", &mut out);
    out
}

fn by_hand(role: &'static [u8], randomness: &[u8], slot: u64, epoch: u64) -> merlin::Transcript {
    let mut transcript = merlin::Transcript::new(b"SASS");
    transcript.append_message(b"type", role);
    transcript.append_message(b"slot number", &slot.to_le_bytes());
    transcript.append_message(b"current epoch", &epoch.to_le_bytes());
    transcript.append_message(b"chain randomness", randomness);
    transcript
}

#[test]
fn ticket_transcript_is_byte_exact() {
    let randomness = [7u8; 32];
    let built = make_ticket_transcript(&randomness, 11, 0);
    assert_eq!(challenge(built), challenge(by_hand(b"ticket", &randomness, 11, 0)));
}

#[test]
fn post_transcript_is_byte_exact() {
    let randomness = [9u8; 32];
    let built = make_post_transcript(&randomness, 0x0102_0304_0506_0708, 3);
    assert_eq!(
        challenge(built),
        challenge(by_hand(b"post", &randomness, 0x0102_0304_0506_0708, 3))
    );
}

#[test]
fn transcripts_are_deterministic() {
    let randomness = [1u8; 32];
    let first = make_ticket_transcript(&randomness, 42, 5);
    let second = make_ticket_transcript(&randomness, 42, 5);
    assert_eq!(challenge(first), challenge(second));
}

#[test]
fn transcripts_bind_their_inputs() {
    let randomness = [1u8; 32];
    let other = [2u8; 32];
    let base = challenge(make_ticket_transcript(&randomness, 42, 5));
    assert_ne!(base, challenge(make_post_transcript(&randomness, 42, 5)));
    assert_ne!(base, challenge(make_ticket_transcript(&randomness, 43, 5)));
    assert_ne!(base, challenge(make_ticket_transcript(&randomness, 42, 6)));
    assert_ne!(base, challenge(make_ticket_transcript(&other, 42, 5)));
}
