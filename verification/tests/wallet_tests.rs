use krdx::transaction::{tx_message, Transaction};
use krdx::utils::btc_style_address;
use krdx::wallet::verify_signature;

use base64::Engine;
use ed25519_dalek::{Keypair, Signer};
use rand::rngs::OsRng;
use sha2::Digest;

fn b64(bytes: &[u8]) -> String {
    base64::engine::general_purpose::STANDARD.encode(bytes)
}

#[test]
fn test_wallet_signature_and_address() {
    let mut csprng = OsRng;
    let keypair = Keypair::generate(&mut csprng);
    let message = "Check-in at block 12345";

    let sig = keypair.sign(message.as_bytes());
    let valid = verify_signature(
        &b64(keypair.public.as_bytes()),
        message,
        &b64(sig.as_ref()),
    );
    assert!(valid, "Signature should verify");
}

#[test]
fn test_wallet_btc_address_generation() {
    let mut csprng = OsRng;
    let keypair = Keypair::generate(&mut csprng);
    let btc_address = btc_style_address(keypair.public.as_bytes());

    println!("BTC Address: {}", btc_address);

    assert!(
        btc_address.starts_with("KRDx"),
        "Bech32 address must start with KRDx"
    );
    assert!(
        btc_address.len() > 10,
        "Bech32 address length looks too short"
    );
}

#[test]
fn test_btc_address_exact_value() {
    let pubkey = [7u8; 32];

    let sha = sha2::Sha256::digest(&pubkey);
    let mut ripemd = ripemd::Ripemd160::new();
    ripemd.update(&sha);
    let ripemd_hash = ripemd.finalize();

    let mut payload = vec![0x00u8];
    payload.extend(&ripemd_hash);
    let checksum = sha2::Sha256::digest(&sha2::Sha256::digest(&payload));
    payload.extend(&checksum[..4]);
    let expected = format!("KRDx{}", bs58::encode(payload).into_string());

    assert_eq!(btc_style_address(&pubkey), expected);
}

#[test]
fn test_transaction_create_and_verify() {
    let mut csprng = OsRng;
    let sender = Keypair::generate(&mut csprng);
    let recipient = Keypair::generate(&mut csprng);

    let sender_address = b64(sender.public.as_bytes());
    let recipient_address = b64(recipient.public.as_bytes());

    let tx = Transaction::create(&sender_address, &recipient_address, 42_000_000, |m: &str| {
        b64(sender.sign(m.as_bytes()).as_ref())
    });
    assert!(tx.is_valid(), "Transaction shold be valid");
}

#[test]
fn test_transaction_invalid_after_tampering() {
    let mut csprng = OsRng;
    let sender = Keypair::generate(&mut csprng);
    let sender_address = b64(sender.public.as_bytes());

    let mut tx = Transaction::create(&sender_address, "recipient", 5, |m: &str| {
        b64(sender.sign(m.as_bytes()).as_ref())
    });
    assert!(tx.is_valid());
    tx.amount = 6;
    assert!(!tx.is_valid());
}

#[test]
fn test_verify_signature_rejects_bad_base64() {
    let mut csprng = OsRng;
    let keypair = Keypair::generate(&mut csprng);
    let message = "hello";
    let sig = b64(keypair.sign(message.as_bytes()).as_ref());
    let addr = b64(keypair.public.as_bytes());

    assert!(verify_signature(&addr, message, &sig));
    assert!(!verify_signature("not valid base64!!!", message, &sig));
    assert!(!verify_signature(&addr, message, "not valid base64!!!"));
    assert!(!verify_signature(&addr, "another message", &sig));
}

#[test]
fn test_transaction_new_and_message() {
    let tx = Transaction::new("alice", "bob", 5, "sig", 7);
    assert_eq!(tx.sender, "alice");
    assert_eq!(tx.recipient, "bob");
    assert_eq!(tx.amount, 5);
    assert_eq!(tx.signature, "sig");
    assert_eq!(tx.timestamp, 7);

    assert_eq!(tx_message("alice", "bob", 5, 7), "alice:bob:5:7");
    assert_eq!(
        tx_message("alice", "bob", 42_000_000, 1_700_000_000),
        "alice:bob:42000000:1700000000"
    );
}
