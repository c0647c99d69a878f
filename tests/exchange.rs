use diffie_hellman::cipher::{decrypt, decrypt_data, encrypt, encrypt_data};
use diffie_hellman::key::derive_key;
use diffie_hellman::natural::{modexp, Natural};
use diffie_hellman::party::{
    generate_random_key, run_exchange, DomainParameters, Party, PartyState, BASE, PRIMEMOD,
};
use diffie_hellman::DhError;

fn value(n: &Natural) -> u128 {
    let bytes = n.to_bytes_le();
    let mut v: u128 = 0;
    for (i, b) in bytes.iter().enumerate() {
        if i >= 16 {
            assert_eq!(*b, 0);
        } else {
            v |= (*b as u128) << (8 * i);
        }
    }
    v
}

fn num(v: u128) -> Natural {
    Natural::from_u128(v)
}

fn pow_mod(b: u128, e: u128, m: u128) -> u128 {
    value(&modexp(&num(b), &num(e), &num(m)).unwrap())
}

#[test]
fn fixed_keys_agree_on_secret() {
    let mut initiator = Party::new(DomainParameters::standard(), num(6));
    let mut responder = Party::new(DomainParameters::standard(), num(15));
    let a = initiator.compute_public_value();
    let b = responder.compute_public_value();
    assert_eq!(value(&a), 7);
    assert_eq!(value(&b), 26);
    let s_responder = responder.derive_secret(&a);
    let s_initiator = initiator.derive_secret(&b);
    assert_eq!(value(&s_initiator), value(&s_responder));
    assert_eq!(value(&s_initiator), pow_mod(26, 6, 57));
    assert_eq!(value(&s_responder), pow_mod(7, 15, 57));
    assert_eq!(value(&s_initiator), 1);
}

#[test]
fn agreement_holds_for_many_key_pairs() {
    for m in [2u128, 23, 57, 97, 1000003] {
        for g in [2u128, 5, 11] {
            for a in [0u128, 1, 6, 13, 100] {
                for b in [0u128, 2, 15, 64, 99] {
                    let left = pow_mod(pow_mod(g, a, m), b, m);
                    let right = pow_mod(pow_mod(g, b, m), a, m);
                    assert_eq!(left, right);
                }
            }
        }
    }
}

#[test]
fn modexp_known_values() {
    assert_eq!(pow_mod(5, 6, 57), 7);
    assert_eq!(pow_mod(5, 15, 57), 26);
    assert_eq!(pow_mod(4, 13, 497), 445);
    assert_eq!(pow_mod(9, 0, 10), 1);
    assert_eq!(pow_mod(9, 0, 1), 0);
    assert_eq!(pow_mod(2, 127, u128::MAX), 1u128 << 127);
}

#[test]
fn modexp_zero_modulus_rejected() {
    let r = modexp(&num(5), &num(3), &num(0));
    assert!(matches!(r, Err(DhError::InvalidParameters)));
}

#[test]
fn modulus_one_rejected() {
    let r = DomainParameters::new(num(5), num(1));
    assert!(matches!(r, Err(DhError::InvalidParameters)));
    let r = DomainParameters::new(num(0), num(0));
    assert!(matches!(r, Err(DhError::InvalidParameters)));
    let r = DomainParameters::new(num(5), num(2));
    assert!(r.is_ok());
    let p = DomainParameters::new(num(5), Natural::from_bytes_le(vec![0, 1])).unwrap();
    assert_eq!(value(p.modulus()), 256);
    assert_eq!(value(p.base()), 5);
}

#[test]
fn standard_parameters() {
    let p = DomainParameters::standard();
    assert_eq!(value(p.base()), BASE as u128);
    assert_eq!(value(p.modulus()), PRIMEMOD as u128);
    assert_eq!(value(p.modulus()), 57);
}

#[test]
fn test_message_round_trip() {
    let secret = num(1);
    let encrypted = encrypt_data("TEST", &secret);
    assert_eq!(encrypted.len(), 16);
    assert_ne!(&encrypted[..4], b"TEST");
    let decrypted = decrypt_data(&encrypted, &secret).unwrap();
    assert_eq!(decrypted, b"TEST".to_vec());
    assert_eq!(String::from_utf8(decrypted).unwrap(), "TEST");
}

#[test]
fn empty_plaintext_is_one_block() {
    let key = derive_key(&num(54));
    let c = encrypt(b"", &key);
    assert_eq!(c.len(), 16);
    assert_eq!(decrypt(&c, &key).unwrap(), Vec::<u8>::new());
    let c = encrypt_data("", &num(54));
    assert_eq!(c.len(), 16);
    assert_eq!(decrypt_data(&c, &num(54)).unwrap(), Vec::<u8>::new());
}

#[test]
fn ciphertext_lengths() {
    let key = [7u8; 16];
    for (l, expected) in [(0usize, 16usize), (1, 16), (15, 16), (16, 32), (17, 32), (31, 32), (32, 48), (100, 112)] {
        let p = vec![0xabu8; l];
        let c = encrypt(&p, &key);
        assert_eq!(c.len(), expected);
        assert_eq!(c.len(), 16 * ((l + 1 + 15) / 16));
    }
}

#[test]
fn round_trip_for_many_keys_and_messages() {
    for seed in 0u8..8 {
        let mut key = [0u8; 16];
        for (i, k) in key.iter_mut().enumerate() {
            *k = seed.wrapping_mul(31).wrapping_add(i as u8);
        }
        for l in [0usize, 1, 5, 15, 16, 17, 40] {
            let p: Vec<u8> = (0..l).map(|i| (i as u8).wrapping_mul(seed + 3)).collect();
            let c = encrypt(&p, &key);
            assert_eq!(decrypt(&c, &key).unwrap(), p);
        }
    }
}

#[test]
fn wrong_key_never_returns_plaintext() {
    let k1 = [1u8; 16];
    let k2 = [2u8; 16];
    for msg in [&b"TEST"[..], b"x", b"This is the Diffie-Hellman key exchange protocol!"] {
        let c = encrypt(msg, &k1);
        match decrypt(&c, &k2) {
            Err(e) => assert_eq!(e, DhError::PaddingInvalid),
            Ok(p) => assert_ne!(p, msg.to_vec()),
        }
    }
}

#[test]
fn malformed_ciphertext_rejected() {
    let key = [9u8; 16];
    assert_eq!(decrypt(&[], &key), Err(DhError::PaddingInvalid));
    assert_eq!(decrypt(&[1, 2, 3], &key), Err(DhError::PaddingInvalid));
    let c = encrypt(b"hello", &key);
    assert_eq!(decrypt(&c[..15], &key), Err(DhError::PaddingInvalid));
    assert_eq!(decrypt_data(&c[..15], &num(3)), Err(DhError::PaddingInvalid));
}

#[test]
fn key_is_low_sixteen_bytes_little_endian() {
    assert_eq!(derive_key(&num(0)), [0u8; 16]);
    let mut expected = [0u8; 16];
    expected[0] = 0x02;
    expected[1] = 0x01;
    assert_eq!(derive_key(&num(0x0102)), expected);
    assert_eq!(derive_key(&num(u128::MAX)), [0xffu8; 16]);
    let long: Vec<u8> = (1u8..=20).collect();
    let mut low = [0u8; 16];
    for i in 0..16 {
        low[i] = (i + 1) as u8;
    }
    assert_eq!(derive_key(&Natural::from_bytes_le(long)), low);
    assert_eq!(derive_key(&Natural::from_bytes_le(vec![5])), {
        let mut k = [0u8; 16];
        k[0] = 5;
        k
    });
}

#[test]
fn secrets_equal_in_low_bytes_share_a_key() {
    let mut a: Vec<u8> = vec![7u8; 16];
    let mut b = a.clone();
    a.push(1);
    b.push(2);
    assert_eq!(derive_key(&Natural::from_bytes_le(a)), derive_key(&Natural::from_bytes_le(b)));
}

#[test]
fn natural_conversions() {
    assert_eq!(value(&num(0)), 0);
    assert_eq!(value(&num(123456789)), 123456789);
    assert_eq!(value(&num(u128::MAX)), u128::MAX);
    assert_eq!(num(0x0102).to_bytes_le()[..2], [0x02, 0x01]);
    assert!(num(0).is_zero());
    assert!(Natural::from_bytes_le(vec![]).is_zero());
    assert!(Natural::from_bytes_le(vec![0, 0]).is_zero());
    assert!(!num(1).is_zero());
    assert!(!num(1).exceeds_one());
    assert!(num(2).exceeds_one());
    assert!(Natural::from_bytes_le(vec![0, 1]).exceeds_one());
    assert!(!Natural::from_bytes_le(vec![1, 0, 0]).exceeds_one());
    assert_eq!(value(&num(77).duplicate()), 77);
}

#[test]
fn party_state_machine() {
    let mut p = Party::new(DomainParameters::standard(), num(6));
    assert_eq!(p.state(), PartyState::Initialized);
    assert!(p.public_value().is_none());
    assert!(p.shared_secret().is_none());
    assert!(p.symmetric_key().is_none());
    assert_eq!(value(p.private_key()), 6);
    let v = p.compute_public_value();
    assert_eq!(p.state(), PartyState::PublicValueComputed);
    assert_eq!(value(&p.public_value().unwrap()), value(&v));
    let s1 = p.derive_secret(&num(26));
    assert_eq!(p.state(), PartyState::SecretEstablished);
    assert_eq!(value(&s1), 1);
    let s2 = p.derive_secret(&num(2));
    assert_eq!(value(&s2), pow_mod(2, 6, 57));
    assert_eq!(value(&p.shared_secret().unwrap()), 64 % 57);
    assert_eq!(p.symmetric_key().unwrap(), derive_key(&num(7)));
}

#[test]
fn peer_value_above_modulus_is_reduced() {
    let mut p = Party::new(DomainParameters::standard(), num(15));
    p.compute_public_value();
    let big = p.derive_secret(&num(7 + 57 * 3));
    assert_eq!(value(&big), pow_mod(7, 15, 57));
}

#[test]
fn generated_keys_are_fresh() {
    let a = generate_random_key().unwrap();
    let b = generate_random_key().unwrap();
    assert!(a.to_bytes_le().len() <= 16);
    assert_ne!(value(&a), value(&b));
    let p = Party::generate(DomainParameters::standard()).unwrap();
    assert_eq!(p.state(), PartyState::Initialized);
}

#[test]
fn full_exchange_delivers_both_messages() {
    let params = DomainParameters::standard();
    let m1 = "This is the Diffie-Hellman key exchange protocol!";
    let m2 = "This protocol is a symmetric encryption algorithm!";
    let t = run_exchange(&params, num(6), num(15), m1.as_bytes(), m2.as_bytes());
    assert_eq!(value(&t.initiator_public), 7);
    assert_eq!(value(&t.responder_public), 26);
    assert_eq!(value(&t.initiator_secret), value(&t.responder_secret));
    assert_eq!(t.plaintext_a, m1.as_bytes().to_vec());
    assert_eq!(t.plaintext_b, m2.as_bytes().to_vec());
    assert_eq!(t.ciphertext_a.len(), 64);
    assert_eq!(t.ciphertext_b, encrypt_data(m2, &t.responder_secret));
}

#[test]
fn full_exchange_with_random_keys() {
    let params = DomainParameters::new(num(5), num(1_000_000_007)).unwrap();
    let a = generate_random_key().unwrap();
    let b = generate_random_key().unwrap();
    let t = run_exchange(&params, a, b, b"", b"TEST");
    assert_eq!(value(&t.initiator_secret), value(&t.responder_secret));
    assert_eq!(t.plaintext_a, Vec::<u8>::new());
    assert_eq!(t.plaintext_b, b"TEST".to_vec());
}
